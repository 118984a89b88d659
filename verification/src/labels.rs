use vstd::prelude::*;

use crate::escape::{escape_underscores, escaped};
use crate::text::push_char;

verus! {

/// What the inputs of a benchmark group measure; it names the horizontal axis of
/// the comparison plot.
#[derive(Clone, Copy, Debug, PartialEq, Eq, Structural)]
pub enum ValueType {
    Bytes,
    Elements,
    Value,
}

/// The ten decimal digits, by value.
const DIGITS: [char; 10] = ['0', '1', '2', '3', '4', '5', '6', '7', '8', '9'];

/// The character that writes the digit `d` (`0 <= d < 10`).
pub open spec fn digit_char(d: nat) -> char {
    seq!['0', '1', '2', '3', '4', '5', '6', '7', '8', '9'][d as int]
}

/// The decimal digits of `n`, most significant first, with no leading zero.
pub open spec fn digits(n: nat) -> Seq<char>
    decreases n,
{
    if n < 10 {
        seq![digit_char(n)]
    } else {
        digits(n / 10).push(digit_char(n % 10))
    }
}

/// `n` written in decimal, with a leading minus sign when it is negative.
pub open spec fn decimal(n: int) -> Seq<char> {
    if n < 0 {
        seq!['-'] + digits((-n) as nat)
    } else {
        digits(n as nat)
    }
}

fn push_digits(out: &mut String, m: u32)
    ensures
        final(out)@ == old(out)@ + digits(m as nat),
    decreases m,
{
    if m >= 10 {
        push_digits(out, m / 10);
    }
    let d = m % 10;
    push_char(out, DIGITS[d as usize]);
    assert(DIGITS@ =~= seq!['0', '1', '2', '3', '4', '5', '6', '7', '8', '9']);
    if m < 10 {
        assert(old(out)@ + digits(m as nat) =~= old(out)@.push(digit_char(m as nat)));
    } else {
        assert(old(out)@ + digits(m as nat) =~= (old(out)@ + digits((m / 10) as nat)).push(
            digit_char((m % 10) as nat),
        ));
    }
}

/// Writes `n` in decimal.
pub fn decimal_string(n: i32) -> (s: String)
    ensures
        s@ == decimal(n as int),
{
    let mut out = String::new();
    if n < 0 {
        push_char(&mut out, '-');
        let m: u32 = (0i64 - n as i64) as u32;
        push_digits(&mut out, m);
        assert(out@ =~= seq!['-'] + digits((-n) as nat));
    } else {
        push_digits(&mut out, n as u32);
        assert(out@ =~= digits(n as nat));
    }
    out
}

/// The label of an axis of average times: `Average time (<prefix>s)`.
pub fn average_time_label(prefix: &str) -> (label: String)
    ensures
        label@ == "Average time ("@ + prefix@ + "s)"@,
{
    let mut label = String::from_str("Average time (");
    label.append(prefix);
    label.append("s)");
    label
}

/// The label of an axis of total times: `Total time (<prefix>s)`.
pub fn total_time_label(prefix: &str) -> (label: String)
    ensures
        label@ == "Total time ("@ + prefix@ + "s)"@,
{
    let mut label = String::from_str("Total time (");
    label.append(prefix);
    label.append("s)");
    label
}

/// The label of an axis of iteration counts scaled by `10^exponent`:
/// `Iterations`, or `Iterations (x 10^<exponent>)` when the exponent is not zero.
pub fn iterations_label(exponent: i32) -> (label: String)
    ensures
        label@ == if exponent == 0 {
            "Iterations"@
        } else {
            "Iterations (x 10^"@ + decimal(exponent as int) + ")"@
        },
{
    if exponent == 0 {
        String::from_str("Iterations")
    } else {
        let mut label = String::from_str("Iterations (x 10^");
        let power = decimal_string(exponent);
        label.append(power.as_str());
        label.append(")");
        label
    }
}

/// The title of a plot about `name`: the name with its underscores escaped,
/// a colon, and what the plot shows (`<name>: <subject>`).
pub fn plot_title(name: &str, subject: &str) -> (title: String)
    ensures
        title@ == escaped(name@) + ": "@ + subject@,
{
    let mut title = escape_underscores(name);
    title.append(": ");
    title.append(subject);
    title
}

/// The file of an SVG plot: `<output_directory>/<id>/<folder>/<file>.svg`.
pub fn svg_path(output_directory: &str, id: &str, folder: &str, file: &str) -> (path: String)
    ensures
        path@ == output_directory@ + "/"@ + id@ + "/"@ + folder@ + "/"@ + file@ + ".svg"@,
{
    let mut path = String::from_str(output_directory);
    path.append("/");
    path.append(id);
    path.append("/");
    path.append(folder);
    path.append("/");
    path.append(file);
    path.append(".svg");
    path
}

/// What follows `Input` on the horizontal axis of a comparison plot.
pub open spec fn input_suffix(value_type: ValueType) -> Seq<char> {
    match value_type {
        ValueType::Bytes => " Size (Bytes)"@,
        ValueType::Elements => " Size (Elements)"@,
        ValueType::Value => ""@,
    }
}

/// The label of the horizontal axis of a comparison plot.
pub fn input_label(value_type: ValueType) -> (label: String)
    ensures
        label@ == "Input"@ + input_suffix(value_type),
{
    let mut label = String::from_str("Input");
    match value_type {
        ValueType::Bytes => label.append(" Size (Bytes)"),
        ValueType::Elements => label.append(" Size (Elements)"),
        ValueType::Value => label.append(""),
    }
    label
}

/// The legend entry of a function's curve: its name with the underscores
/// escaped, or `None` when the benchmarks have no function name.
pub open spec fn function_name_text(key: Option<String>) -> Seq<char> {
    match key {
        Some(name) => escaped(name@),
        None => "None"@,
    }
}

/// The legend entry of a function's curve.
pub fn function_name(key: &Option<String>) -> (name: String)
    ensures
        name@ == function_name_text(*key),
{
    match key {
        Some(name) => escape_underscores(name.as_str()),
        None => String::from_str("None"),
    }
}

/// The number that a string of decimal digits denotes, read in base ten with
/// each character standing for its distance from `'0'`.
pub open spec fn numeral_value(s: Seq<char>) -> int
    decreases s.len(),
{
    if s.len() == 0 {
        0
    } else {
        numeral_value(s.drop_last()) * 10 + (s.last() as int - '0' as int)
    }
}

/// Whether `c` is one of the characters `'0'` to `'9'`.
pub open spec fn is_digit(c: char) -> bool {
    '0' as int <= c as int <= '9' as int
}

/// Law: the character of digit `d` is the one `d` places after `'0'`.
pub proof fn lemma_digit_char(d: nat)
    requires
        d < 10,
    ensures
        digit_char(d) as int == '0' as int + d,
{
    let t = seq!['0', '1', '2', '3', '4', '5', '6', '7', '8', '9'];
    assert(digit_char(d) == t[d as int]);
    if d == 0 {
        assert(t[0] == '0');
    } else if d == 1 {
        assert(t[1] == '1');
    } else if d == 2 {
        assert(t[2] == '2');
    } else if d == 3 {
        assert(t[3] == '3');
    } else if d == 4 {
        assert(t[4] == '4');
    } else if d == 5 {
        assert(t[5] == '5');
    } else if d == 6 {
        assert(t[6] == '6');
    } else if d == 7 {
        assert(t[7] == '7');
    } else if d == 8 {
        assert(t[8] == '8');
    } else {
        assert(t[9] == '9');
    }
}

/// Law: the digits of `n` are decimal digits, do not begin with a zero unless
/// `n` is zero, and read back in base ten give `n`.
pub proof fn lemma_digits_value(n: nat)
    ensures
        digits(n).len() > 0,
        forall|i: int| 0 <= i < digits(n).len() ==> is_digit(#[trigger] digits(n)[i]),
        n > 0 ==> digits(n)[0] != '0',
        numeral_value(digits(n)) == n,
    decreases n,
{
    if n < 10 {
        lemma_digit_char(n);
        assert(digits(n).drop_last() =~= Seq::<char>::empty());
        assert(numeral_value(Seq::<char>::empty()) == 0);
        assert(numeral_value(digits(n)) == numeral_value(digits(n).drop_last()) * 10 + (
        digits(n).last() as int - '0' as int));
    } else {
        lemma_digits_value(n / 10);
        lemma_digit_char(n % 10);
        let d = digits(n);
        assert(d.drop_last() =~= digits(n / 10));
        assert(d[0] == digits(n / 10)[0]);
        assert forall|i: int| 0 <= i < d.len() implies is_digit(#[trigger] d[i]) by {
            if i < d.len() - 1 {
                assert(d[i] == digits(n / 10)[i]);
            }
        }
        assert(d.last() == digit_char(n % 10));
        assert(numeral_value(d) == numeral_value(d.drop_last()) * 10 + (d.last() as int
            - '0' as int));
        assert(n / 10 * 10 + n % 10 == n);
    }
}

/// Law: `decimal(n)` denotes `n`: a minus sign only for negative numbers,
/// followed by decimal digits without a leading zero whose value is `|n|`.
pub proof fn lemma_decimal_value(n: int)
    ensures
        n < 0 ==> decimal(n)[0] == '-' && numeral_value(decimal(n).drop_first()) == -n
            && decimal(n).drop_first() == digits((-n) as nat),
        n >= 0 ==> numeral_value(decimal(n)) == n && decimal(n) == digits(n as nat),
        forall|i: int|
            (if n < 0 { 1int } else { 0int }) <= i < decimal(n).len() ==> is_digit(
                #[trigger] decimal(n)[i],
            ),
        decimal(n).len() > (if n < 0 { 1int } else { 0int }),
        n != 0 ==> decimal(n)[if n < 0 { 1int } else { 0int }] != '0',
{
    if n < 0 {
        let m = (-n) as nat;
        lemma_digits_value(m);
        let d = decimal(n);
        assert(d.drop_first() =~= digits(m));
        assert forall|i: int| 1 <= i < d.len() implies is_digit(#[trigger] d[i]) by {
            assert(d[i] == digits(m)[i - 1]);
        }
    } else {
        lemma_digits_value(n as nat);
    }
}

/// Law: the legend entry of a named function is its name with every underscore
/// escaped: each underscore of the entry follows a backslash, reading `\_`
/// back as `_` gives the name, and a name without underscores is kept as it is.
/// Benchmarks without a function name are entered as `None`.
pub proof fn lemma_function_name_text(name: String)
    ensures
        function_name_text(Some(name)) == escaped(name@),
        crate::escape::unescaped(function_name_text(Some(name))) == name@,
        forall|i: int|
            0 <= i < function_name_text(Some(name)).len() && #[trigger] function_name_text(
                Some(name),
            )[i] == '_' ==> i > 0 && function_name_text(Some(name))[i - 1] == '\\',
        !name@.contains('_') ==> function_name_text(Some(name)) == name@,
        function_name_text(None) == "None"@,
{
    crate::escape::lemma_unescape_escaped(name@);
    crate::escape::lemma_underscores_escaped(name@);
    if !name@.contains('_') {
        crate::escape::lemma_escaped_without_underscore(name@);
    }
}

} // verus!

