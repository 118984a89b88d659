use vstd::prelude::*;

use crate::text::push_char;

verus! {

/// What one character of the input becomes in gnuplot's enhanced text:
/// an underscore is preceded by a backslash, every other character stays.
pub open spec fn escape_char(c: char) -> Seq<char> {
    if c == '_' {
        seq!['\\', '_']
    } else {
        seq![c]
    }
}

/// The input with every underscore written as `\_`.
pub open spec fn escaped(s: Seq<char>) -> Seq<char>
    decreases s.len(),
{
    if s.len() == 0 {
        Seq::empty()
    } else {
        escaped(s.drop_last()) + escape_char(s.last())
    }
}

/// Number of underscores in `s`.
pub open spec fn underscores(s: Seq<char>) -> nat
    decreases s.len(),
{
    if s.len() == 0 {
        0
    } else {
        underscores(s.drop_last()) + if s.last() == '_' { 1nat } else { 0nat }
    }
}

/// Reads escaped text back: `\_` stands for `_`, every other character for itself.
pub open spec fn unescaped(s: Seq<char>) -> Seq<char>
    decreases s.len(),
{
    if s.len() == 0 {
        Seq::empty()
    } else if s.len() >= 2 && s[0] == '\\' && s[1] == '_' {
        seq!['_'] + unescaped(s.skip(2))
    } else {
        seq![s[0]] + unescaped(s.drop_first())
    }
}

/// Escapes the underscores of `string`, so that gnuplot prints them instead of
/// reading them as the start of a subscript.
pub fn escape_underscores(string: &str) -> (escaped_string: String)
    ensures
        escaped_string@ == escaped(string@),
{
    let mut out = String::new();
    let n = string.unicode_len();
    let mut i: usize = 0;
    while i < n
        invariant
            n == string@.len(),
            i <= n,
            out@ == escaped(string@.subrange(0, i as int)),
        decreases n - i,
    {
        let c = string.get_char(i);
        if c == '_' {
            push_char(&mut out, '\\');
            push_char(&mut out, '_');
        } else {
            push_char(&mut out, c);
        }
        assert(string@.subrange(0, i + 1).drop_last() =~= string@.subrange(0, i as int));
        i = i + 1;
    }
    assert(string@.subrange(0, n as int) =~= string@);
    out
}

/// Escaping distributes over concatenation.
pub proof fn lemma_escaped_concat(a: Seq<char>, b: Seq<char>)
    ensures
        escaped(a + b) == escaped(a) + escaped(b),
    decreases b.len(),
{
    if b.len() == 0 {
        assert(a + b =~= a);
        assert(escaped(a) + escaped(b) =~= escaped(a));
    } else {
        lemma_escaped_concat(a, b.drop_last());
        assert((a + b).drop_last() =~= a + b.drop_last());
        assert((a + b).last() == b.last());
        assert(escaped(a + b) =~= escaped(a) + escaped(b));
    }
}

/// The escaped text of a non-empty input begins with what its first character becomes.
proof fn lemma_escaped_front(s: Seq<char>)
    requires
        s.len() > 0,
    ensures
        escaped(s) == escape_char(s[0]) + escaped(s.drop_first()),
{
    assert(s =~= seq![s[0]] + s.drop_first());
    lemma_escaped_concat(seq![s[0]], s.drop_first());
    let one = seq![s[0]];
    assert(one.len() == 1);
    assert(one.drop_last() =~= Seq::<char>::empty());
    assert(escaped(one) == escaped(one.drop_last()) + escape_char(one.last()));
    assert(escaped(one) =~= escape_char(s[0]));
}

/// Escaped text never begins with an underscore.
proof fn lemma_escaped_first_not_underscore(s: Seq<char>)
    ensures
        escaped(s).len() > 0 ==> escaped(s)[0] != '_',
{
    if s.len() > 0 {
        lemma_escaped_front(s);
    }
}

/// Law: escaping loses nothing; reading the escaped text back gives the input.
pub proof fn lemma_unescape_escaped(s: Seq<char>)
    ensures
        unescaped(escaped(s)) == s,
    decreases s.len(),
{
    if s.len() == 0 {
    } else {
        let rest = s.drop_first();
        lemma_escaped_front(s);
        lemma_unescape_escaped(rest);
        lemma_escaped_first_not_underscore(rest);
        let e = escaped(s);
        if s[0] == '_' {
            assert(e.skip(2) =~= escaped(rest));
        } else {
            assert(e.drop_first() =~= escaped(rest));
        }
        assert(unescaped(e) =~= s);
    }
}

/// Law: escaping is injective; two inputs with the same escaped text are equal.
pub proof fn lemma_escape_injective(a: Seq<char>, b: Seq<char>)
    requires
        escaped(a) == escaped(b),
    ensures
        a == b,
{
    lemma_unescape_escaped(a);
    lemma_unescape_escaped(b);
}

/// Law: every underscore of the escaped text is preceded by a backslash.
pub proof fn lemma_underscores_escaped(s: Seq<char>)
    ensures
        forall|i: int|
            0 <= i < escaped(s).len() && #[trigger] escaped(s)[i] == '_' ==> i > 0
                && escaped(s)[i - 1] == '\\',
    decreases s.len(),
{
    if s.len() > 0 {
        let p = escaped(s.drop_last());
        let t = escape_char(s.last());
        lemma_underscores_escaped(s.drop_last());
        assert forall|i: int|
            0 <= i < escaped(s).len() && #[trigger] escaped(s)[i] == '_' implies i > 0
                && escaped(s)[i - 1] == '\\' by {
            if i < p.len() {
                assert(escaped(s)[i] == p[i]);
                assert(escaped(s)[i - 1] == p[i - 1]);
            } else {
                assert(escaped(s)[i] == t[i - p.len()]);
                assert(s.last() == '_');
                assert(i == p.len() + 1);
                assert(escaped(s)[i - 1] == t[0]);
            }
        }
    }
}

/// Law: escaping adds exactly one character per underscore.
pub proof fn lemma_escaped_len(s: Seq<char>)
    ensures
        escaped(s).len() == s.len() + underscores(s),
    decreases s.len(),
{
    if s.len() > 0 {
        lemma_escaped_len(s.drop_last());
    }
}

/// Law: text without underscores is left as it is.
pub proof fn lemma_escaped_without_underscore(s: Seq<char>)
    requires
        !s.contains('_'),
    ensures
        escaped(s) == s,
    decreases s.len(),
{
    if s.len() > 0 {
        assert(!s.drop_last().contains('_')) by {
            if s.drop_last().contains('_') {
                let k = choose|k: int| 0 <= k < s.drop_last().len() && s.drop_last()[k] == '_';
                assert(s[k] == '_');
            }
        }
        lemma_escaped_without_underscore(s.drop_last());
        assert(s[s.len() - 1] != '_');
        assert(escaped(s) =~= s);
    }
}


/// Law: one character is escaped as itself, except an underscore, which
/// becomes a backslash and an underscore. With `lemma_escaped_concat` this
/// fixes the escaping of every text.
pub proof fn lemma_escaped_one(c: char)
    ensures
        escaped(seq![c]) == (if c == '_' { seq!['\\', '_'] } else { seq![c] }),
{
    let one = seq![c];
    assert(one.drop_last() =~= Seq::<char>::empty());
    assert(escaped(one) == escaped(one.drop_last()) + escape_char(one.last()));
    assert(escaped(one) =~= (if c == '_' { seq!['\\', '_'] } else { seq![c] }));
}

} // verus!
