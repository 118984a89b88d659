use plot::colors::{comparison_color, Rgb, NUM_COLORS};
use plot::outliers::{points_in, Label, PointSet};
use plot::summary::{comparison_series, violin_height, violin_labels, VIOLIN_WIDTH};

fn sample_labels() -> Vec<Label> {
    vec![
        Label::NotAnOutlier,
        Label::HighMild,
        Label::LowSevere,
        Label::NotAnOutlier,
        Label::LowMild,
        Label::HighSevere,
    ]
}

#[test]
fn label_predicates() {
    assert!(!Label::NotAnOutlier.is_outlier());
    assert!(Label::HighMild.is_outlier() && Label::HighMild.is_mild() && !Label::HighMild.is_severe());
    assert!(Label::LowMild.is_mild());
    assert!(Label::HighSevere.is_severe() && !Label::HighSevere.is_mild());
    assert!(Label::LowSevere.is_severe() && Label::LowSevere.is_outlier());
}

#[test]
fn point_sets_of_a_sample() {
    let labels = sample_labels();
    assert_eq!(points_in(&labels, PointSet::Clean), vec![0, 3]);
    assert_eq!(points_in(&labels, PointSet::Mild), vec![1, 4]);
    assert_eq!(points_in(&labels, PointSet::Severe), vec![2, 5]);
}

#[test]
fn point_sets_split_the_sample() {
    let labels = sample_labels();
    let mut seen = vec![0; labels.len()];
    for set in [PointSet::Clean, PointSet::Mild, PointSet::Severe] {
        for i in points_in(&labels, set) {
            seen[i] += 1;
        }
    }
    assert!(seen.iter().all(|&n| n == 1));
}

#[test]
fn point_sets_of_an_empty_sample() {
    let labels: Vec<Label> = Vec::new();
    assert!(points_in(&labels, PointSet::Clean).is_empty());
    assert!(points_in(&labels, PointSet::Severe).is_empty());
}

#[test]
fn palette_colors() {
    assert_eq!(comparison_color(0), Rgb { red: 178, green: 34, blue: 34 });
    assert_eq!(comparison_color(3), Rgb { red: 255, green: 215, blue: 0 });
    assert_eq!(comparison_color(7), Rgb { red: 0, green: 255, blue: 127 });
    assert_eq!(comparison_color(8), comparison_color(0));
    assert_eq!(comparison_color(13), comparison_color(5));
}

#[test]
fn palette_is_distinct_within_a_cycle() {
    for a in 0..NUM_COLORS {
        for b in (a + 1)..NUM_COLORS {
            assert_ne!(comparison_color(a), comparison_color(b));
        }
    }
}

fn key(name: &str) -> Option<String> {
    Some(name.to_string())
}

#[test]
fn series_follow_runs_of_function_names() {
    let keys = vec![key("iter_sum"), key("iter_sum"), key("fold"), None, None, key("fold")];
    let series = comparison_series(&keys);
    assert_eq!(series.len(), 4);
    assert_eq!(series[0].members, vec![0, 1]);
    assert_eq!(series[0].name, "iter\\_sum");
    assert_eq!(series[1].members, vec![2]);
    assert_eq!(series[1].name, "fold");
    assert_eq!(series[2].members, vec![3, 4]);
    assert_eq!(series[2].name, "None");
    assert_eq!(series[3].members, vec![5]);
    for (i, s) in series.iter().enumerate() {
        assert_eq!(s.color, comparison_color(i));
    }
}

#[test]
fn series_of_no_benchmarks() {
    let keys: Vec<Option<String>> = Vec::new();
    assert!(comparison_series(&keys).is_empty());
}

#[test]
fn series_colors_cycle_after_eight_curves() {
    let keys: Vec<Option<String>> = (0..10).map(|i| Some(format!("f{}", i))).collect();
    let series = comparison_series(&keys);
    assert_eq!(series.len(), 10);
    assert_eq!(series[8].color, series[0].color);
    assert_eq!(series[9].color, series[1].color);
    assert_ne!(series[7].color, series[0].color);
}

#[test]
fn violin_rows_are_reversed_and_escaped() {
    let ids = vec!["a_1".to_string(), "b".to_string(), "c_2".to_string()];
    assert_eq!(violin_labels(&ids), vec!["c\\_2", "b", "a\\_1"]);
    assert!(violin_labels(&Vec::new()).is_empty());
}

#[test]
fn violin_size_grows_per_row() {
    assert_eq!(VIOLIN_WIDTH, 1280);
    assert_eq!(violin_height(0), 200);
    assert_eq!(violin_height(4), 300);
}
