use plot::append::Append;
use plot::escape::escape_underscores;
use plot::labels::{
    average_time_label, decimal_string, function_name, input_label, iterations_label, plot_title,
    svg_path, total_time_label, ValueType,
};
use plot::units::{range_end, time_unit, TIME_RANGES};

#[test]
fn escape_replaces_every_underscore() {
    assert_eq!(escape_underscores("fib_20"), "fib\\_20");
    assert_eq!(escape_underscores("a_b_c"), "a\\_b\\_c");
    assert_eq!(escape_underscores("__"), "\\_\\_");
}

#[test]
fn escape_keeps_text_without_underscores() {
    assert_eq!(escape_underscores(""), "");
    assert_eq!(escape_underscores("fibonacci"), "fibonacci");
    assert_eq!(escape_underscores("x/y z"), "x/y z");
}

#[test]
fn escape_handles_non_ascii_and_backslashes() {
    assert_eq!(escape_underscores("é_ü"), "é\\_ü");
    assert_eq!(escape_underscores("\\_"), "\\\\_");
}

#[test]
fn escape_adds_one_char_per_underscore() {
    let input = "a_b__c";
    let out = escape_underscores(input);
    assert_eq!(out.chars().count(), input.chars().count() + 3);
}

#[test]
fn escape_is_undone_by_reading_back() {
    for input in ["", "_", "a_b", "\\_", "\\\\__x", "no underscores"] {
        let out = escape_underscores(input);
        let back = out.replace("\\_", "_");
        assert_eq!(back, input);
        let chars: Vec<char> = out.chars().collect();
        for (i, c) in chars.iter().enumerate() {
            if *c == '_' {
                assert!(i > 0 && chars[i - 1] == '\\');
            }
        }
    }
}

#[test]
fn decimal_writes_integers() {
    assert_eq!(decimal_string(0), "0");
    assert_eq!(decimal_string(3), "3");
    assert_eq!(decimal_string(-3), "-3");
    assert_eq!(decimal_string(1200), "1200");
    assert_eq!(decimal_string(i32::MAX), "2147483647");
    assert_eq!(decimal_string(i32::MIN), "-2147483648");
}

#[test]
fn iterations_label_shows_the_exponent() {
    assert_eq!(iterations_label(0), "Iterations");
    assert_eq!(iterations_label(3), "Iterations (x 10^3)");
    assert_eq!(iterations_label(6), "Iterations (x 10^6)");
    assert_eq!(iterations_label(-3), "Iterations (x 10^-3)");
}

#[test]
fn time_labels_name_the_unit() {
    assert_eq!(average_time_label("m"), "Average time (ms)");
    assert_eq!(average_time_label(""), "Average time (s)");
    assert_eq!(total_time_label("u"), "Total time (us)");
}

#[test]
fn titles_escape_the_name_only() {
    assert_eq!(plot_title("my_bench", "mean"), "my\\_bench: mean");
    assert_eq!(plot_title("group", "Welch t test"), "group: Welch t test");
    assert_eq!(plot_title("g_1", "Violin plot"), "g\\_1: Violin plot");
    assert_eq!(plot_title("x", "a_b"), "x: a_b");
}

#[test]
fn svg_paths_follow_the_report_layout() {
    assert_eq!(svg_path("target/criterion", "fib_20", "new", "mean"), "target/criterion/fib_20/new/mean.svg");
    assert_eq!(svg_path("out", "id", "change", "t-test"), "out/id/change/t-test.svg");
}

#[test]
fn input_label_per_value_type() {
    assert_eq!(input_label(ValueType::Bytes), "Input Size (Bytes)");
    assert_eq!(input_label(ValueType::Elements), "Input Size (Elements)");
    assert_eq!(input_label(ValueType::Value), "Input");
}

#[test]
fn function_name_escapes_or_says_none() {
    assert_eq!(function_name(&Some("iter_sum".to_string())), "iter\\_sum");
    assert_eq!(function_name(&None), "None");
}

#[test]
fn time_units_by_range() {
    let expected = [(3, "p"), (0, "n"), (-3, "u"), (-6, "m"), (-9, "")];
    for (range, (exponent, prefix)) in expected.iter().enumerate() {
        let unit = time_unit(range);
        assert_eq!(unit.scale_exponent, *exponent);
        assert_eq!(unit.prefix, *prefix);
    }
    assert_eq!(TIME_RANGES, 5);
}

#[test]
fn time_range_ends_are_powers_of_a_thousand() {
    assert_eq!(range_end(0), 0);
    assert_eq!(range_end(1), 3);
    assert_eq!(range_end(2), 6);
    assert_eq!(range_end(3), 9);
}

#[test]
fn scaled_durations_have_one_to_three_digits() {
    for range in 1..TIME_RANGES - 1 {
        let unit = time_unit(range);
        assert_eq!(range_end(range - 1) + unit.scale_exponent, 0);
        assert_eq!(range_end(range) + unit.scale_exponent, 3);
    }
}

#[test]
fn append_adds_at_the_end() {
    let v = vec![1, 2].append_(3);
    assert_eq!(v, vec![1, 2, 3]);
    let empty: Vec<u8> = Vec::new();
    assert_eq!(empty.append_(7), vec![7]);
}
