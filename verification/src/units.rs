use vstd::prelude::*;

verus! {

/// Number of ranges that durations are sorted into: below one nanosecond, below
/// a microsecond, below a millisecond, below a second, and the rest.
pub const TIME_RANGES: usize = 5;

/// How a duration in nanoseconds is shown: multiplied by `10^scale_exponent`,
/// in the unit of SI prefix `prefix` seconds.
#[derive(Clone, Copy, Debug)]
pub struct TimeUnit {
    pub scale_exponent: i32,
    pub prefix: &'static str,
}

/// The decimal exponent of the nanosecond count at which range `range` ends:
/// durations in range `range` are below `10^(3 * range)` ns (and range
/// `TIME_RANGES - 1` has no end).
pub open spec fn range_end_exponent(range: int) -> int {
    3 * range
}

/// The decimal exponent of the factor that durations in range `range` are
/// multiplied by: 3 for picoseconds, down to -9 for seconds.
pub open spec fn range_scale_exponent(range: int) -> int {
    3 - 3 * range
}

/// The SI prefix of the unit used for durations in range `range`.
pub open spec fn range_prefix(range: int) -> Seq<char> {
    if range == 0 {
        "p"@
    } else if range == 1 {
        "n"@
    } else if range == 2 {
        "u"@
    } else if range == 3 {
        "m"@
    } else {
        ""@
    }
}

/// The decimal exponent at which range `range` ends, for `range < TIME_RANGES - 1`.
pub fn range_end(range: usize) -> (exponent: i32)
    requires
        range < TIME_RANGES - 1,
    ensures
        exponent == range_end_exponent(range as int),
{
    3 * (range as i32)
}

/// The unit for durations in range `range`: picoseconds below 1 ns, then
/// nanoseconds, microseconds, milliseconds, and seconds from 1 s on.
pub fn time_unit(range: usize) -> (unit: TimeUnit)
    requires
        range < TIME_RANGES,
    ensures
        unit.scale_exponent == range_scale_exponent(range as int),
        unit.prefix@ == range_prefix(range as int),
{
    if range == 0 {
        TimeUnit { scale_exponent: 3, prefix: "p" }
    } else if range == 1 {
        TimeUnit { scale_exponent: 0, prefix: "n" }
    } else if range == 2 {
        TimeUnit { scale_exponent: -3, prefix: "u" }
    } else if range == 3 {
        TimeUnit { scale_exponent: -6, prefix: "m" }
    } else {
        TimeUnit { scale_exponent: -9, prefix: "" }
    }
}

/// Law: a duration of range `range`, once scaled, lies below 1000 units when the
/// range has an end, and at or above 1 unit when the range has a start: in
/// decimal exponents, the range's end plus the scale is 3, and the start
/// (the end of the range before) plus the scale is 0. Later ranges use larger
/// units.
pub proof fn lemma_scaled_range(range: int)
    requires
        0 <= range < TIME_RANGES,
    ensures
        range < TIME_RANGES - 1 ==> range_end_exponent(range) + range_scale_exponent(range) == 3,
        range > 0 ==> range_end_exponent(range - 1) + range_scale_exponent(range) == 0,
        range > 0 ==> range_scale_exponent(range) < range_scale_exponent(range - 1),
{
}


/// The decimal exponent, in seconds, of the unit that an SI prefix names
/// (pico, nano, micro, milli, none).
pub open spec fn si_prefix_exponent(prefix: Seq<char>) -> int {
    if prefix == "p"@ {
        -12
    } else if prefix == "n"@ {
        -9
    } else if prefix == "u"@ {
        -6
    } else if prefix == "m"@ {
        -3
    } else if prefix == ""@ {
        0
    } else {
        1
    }
}

/// Law: the prefix names the unit that the scale converts to: a duration of
/// `t` ns, that is `t * 10^-9` s, is shown as `t * 10^scale` units of
/// `10^e` s, where `e` is the exponent of the prefix; so `e + scale == -9`.
/// Each range has its own unit.
pub proof fn lemma_prefix_matches_scale(range: int)
    requires
        0 <= range < TIME_RANGES,
    ensures
        si_prefix_exponent(range_prefix(range)) + range_scale_exponent(range) == -9,
{
    reveal_strlit("p");
    reveal_strlit("n");
    reveal_strlit("u");
    reveal_strlit("m");
    reveal_strlit("");
    let (p, n, u, m, e) = ("p"@, "n"@, "u"@, "m"@, ""@);
    assert(p[0] == 'p' && n[0] == 'n' && u[0] == 'u' && m[0] == 'm' && e.len() == 0);
    assert(n != p);
    assert(u != p && u != n);
    assert(m != p && m != n && m != u);
    assert(e != p && e != n && e != u && e != m);
}

} // verus!
