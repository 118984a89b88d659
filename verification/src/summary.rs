use vstd::prelude::*;

use itertools::Itertools;

use crate::colors::{comparison_color, comparison_palette, Rgb, NUM_COLORS};
use crate::escape::{escape_underscores, escaped};
use crate::labels::{function_name, function_name_text};

verus! {

/// Whether two function names are equal, as `==` on `Option<String>` decides.
pub open spec fn same_key(a: Option<String>, b: Option<String>) -> bool {
    match (a, b) {
        (Some(x), Some(y)) => x@ == y@,
        (None, None) => true,
        _ => false,
    }
}

/// The runs of `keys`: the positions `0..keys.len()` cut wherever a key differs
/// from the key before it, each run listing its positions in increasing order.
pub open spec fn runs_of(keys: Seq<Option<String>>) -> Seq<Seq<usize>>
    decreases keys.len(),
{
    if keys.len() == 0 {
        Seq::empty()
    } else {
        let earlier = runs_of(keys.drop_last());
        let last = (keys.len() - 1) as usize;
        if keys.len() > 1 && same_key(keys[keys.len() - 2], keys.last()) {
            earlier.update(earlier.len() - 1, earlier.last().push(last))
        } else {
            earlier.push(seq![last])
        }
    }
}

/// The runs of equal consecutive keys, as the `group_by` adaptor of itertools
/// forms them: it compares the key of each element with the key of the element
/// before and opens a new group where they differ; each group is returned as
/// the positions of its elements.
#[verifier::external_body]
fn group_runs(keys: &Vec<Option<String>>) -> (runs: Vec<Vec<usize>>)
    ensures
        runs@.map_values(|run: Vec<usize>| run@) == runs_of(keys@),
{
    let groups = keys.iter().enumerate().group_by(|&(_, key)| key);
    let runs = groups.into_iter().map(|(_, run)| run.map(|(i, _)| i).collect()).collect();
    runs
}

/// Law: the runs split the positions of the keys in order, each run being a
/// non-empty range of consecutive positions that all hold the same key, and two
/// neighbouring runs meeting where the key changes.
pub proof fn lemma_runs_of(keys: Seq<Option<String>>)
    requires
        keys.len() <= usize::MAX,
    ensures
        keys.len() == 0 <==> runs_of(keys).len() == 0,
        forall|g: int| 0 <= g < runs_of(keys).len() ==> #[trigger] runs_of(keys)[g].len() > 0,
        forall|g: int, j: int|
            0 <= g < runs_of(keys).len() && 0 <= j < runs_of(keys)[g].len() ==> #[trigger] runs_of(
                keys,
            )[g][j] == runs_of(keys)[g][0] + j && runs_of(keys)[g][j] < keys.len()
                && same_key(keys[runs_of(keys)[g][0] as int], keys[runs_of(keys)[g][j] as int]),
        runs_of(keys).len() > 0 ==> runs_of(keys)[0][0] == 0 && runs_of(keys).last().last() + 1
            == keys.len(),
        forall|g: int|
            0 < g < runs_of(keys).len() ==> #[trigger] runs_of(keys)[g][0] == runs_of(keys)[g
                - 1].last() + 1 && !same_key(
                keys[runs_of(keys)[g][0] - 1],
                keys[runs_of(keys)[g][0] as int],
            ),
    decreases keys.len(),
{
    if keys.len() > 0 {
        let prefix = keys.drop_last();
        lemma_runs_of(prefix);
        let rs = runs_of(keys);
        let ps = runs_of(prefix);
        let n = keys.len();
        let last = (n - 1) as usize;
        assert forall|i: int| 0 <= i < prefix.len() implies #[trigger] prefix[i] == keys[i] by {}
        if n > 1 && same_key(keys[n - 2], keys.last()) {
            let lr = ps.last();
            assert(rs == ps.update(ps.len() - 1, lr.push(last)));
            assert forall|g: int| 0 <= g < rs.len() implies #[trigger] rs[g].len() > 0 by {
                if g < ps.len() - 1 {
                    assert(rs[g] == ps[g]);
                }
            }
            assert forall|g: int, j: int| 0 <= g < rs.len() && 0 <= j < rs[g].len() implies #[trigger] rs[g][j]
                == rs[g][0] + j && rs[g][j] < keys.len() && same_key(
                keys[rs[g][0] as int],
                keys[rs[g][j] as int],
            ) by {
                if g < ps.len() - 1 {
                    assert(rs[g] == ps[g]);
                    assert(ps[g][j] == ps[g][0] + j);
                } else {
                    assert(g == ps.len() - 1);
                    assert(rs[g] == lr.push(last));
                    assert(lr[lr.len() - 1] == lr[0] + lr.len() - 1);
                    if j < lr.len() {
                        assert(rs[g][j] == lr[j]);
                        assert(lr[j] == lr[0] + j);
                    } else {
                        assert(rs[g][j] == last);
                        assert(same_key(prefix[lr[0] as int], prefix[lr[lr.len() - 1] as int]));
                    }
                }
            }
            assert forall|g: int| 0 < g < rs.len() implies #[trigger] rs[g][0] == rs[g - 1].last()
                + 1 && !same_key(keys[rs[g][0] - 1], keys[rs[g][0] as int]) by {
                assert(ps[g][0] == ps[g - 1].last() + 1);
                if g < ps.len() - 1 {
                    assert(rs[g] == ps[g]);
                    assert(rs[g - 1] == ps[g - 1]);
                    assert(ps[g][0] < prefix.len());
                } else {
                    assert(rs[g][0] == lr[0]);
                    assert(rs[g - 1] == ps[g - 1]);
                    assert(lr[0] < prefix.len());
                }
            }
            assert(rs[0][0] == 0) by {
                if ps.len() == 1 {
                    assert(rs[0][0] == lr[0]);
                } else {
                    assert(rs[0] == ps[0]);
                }
            }
            assert(rs.last().last() == last);
        } else {
            assert(rs == ps.push(seq![last]));
            assert forall|g: int| 0 <= g < rs.len() implies #[trigger] rs[g].len() > 0 by {
                if g < ps.len() {
                    assert(rs[g] == ps[g]);
                }
            }
            assert forall|g: int, j: int| 0 <= g < rs.len() && 0 <= j < rs[g].len() implies #[trigger] rs[g][j]
                == rs[g][0] + j && rs[g][j] < keys.len() && same_key(
                keys[rs[g][0] as int],
                keys[rs[g][j] as int],
            ) by {
                if g < ps.len() {
                    assert(rs[g] == ps[g]);
                    assert(ps[g][j] == ps[g][0] + j);
                }
            }
            assert forall|g: int| 0 < g < rs.len() implies #[trigger] rs[g][0] == rs[g - 1].last()
                + 1 && !same_key(keys[rs[g][0] - 1], keys[rs[g][0] as int]) by {
                if g < ps.len() {
                    assert(rs[g] == ps[g]);
                    assert(rs[g - 1] == ps[g - 1]);
                    assert(ps[g][0] < prefix.len());
                } else {
                    assert(rs[g - 1] == ps[g - 1]);
                    assert(ps.last().last() + 1 == prefix.len());
                }
            }
            if ps.len() > 0 {
                assert(rs[0] == ps[0]);
            }
        }
    }
}

/// One curve of a comparison plot: the benchmarks of one function, the entry
/// of the function in the legend, and the colour of its line and points.
pub struct Series {
    pub name: String,
    pub color: Rgb,
    pub members: Vec<usize>,
}

/// Splits the benchmarks of a group, given by their function names in the
/// order of the group, into the curves of the comparison plot: one curve per
/// run of benchmarks of the same function, named after that function, with the
/// colours of the palette in turn.
pub fn comparison_series(keys: &Vec<Option<String>>) -> (series: Vec<Series>)
    ensures
        series.len() == runs_of(keys@).len(),
        forall|g: int|
            0 <= g < series.len() ==> {
                &&& (#[trigger] series[g]).members@ == runs_of(keys@)[g]
                &&& series[g].name@ == function_name_text(keys@[runs_of(keys@)[g][0] as int])
                &&& series[g].color == comparison_palette()[g % (NUM_COLORS as int)]
            },
{
    let runs = group_runs(keys);
    let key_count = keys.len();
    proof {
        assert(keys@.len() == key_count);
        lemma_runs_of(keys@);
        assert(runs@.len() == runs_of(keys@).len());
        assert forall|g: int| 0 <= g < runs@.len() implies #[trigger] runs@[g]@ == runs_of(keys@)[g] by {
            assert(runs@.map_values(|run: Vec<usize>| run@)[g] == runs@[g]@);
        }
    }
    let mut series: Vec<Series> = Vec::new();
    let count = runs.len();
    let mut g: usize = 0;
    while g < count
        invariant
            count == runs@.len(),
            count == runs_of(keys@).len(),
            g <= count,
            series.len() == g,
            forall|h: int| 0 <= h < runs@.len() ==> #[trigger] runs@[h]@ == runs_of(keys@)[h],
            forall|h: int| 0 <= h < runs_of(keys@).len() ==> #[trigger] runs_of(keys@)[h].len() > 0,
            forall|h: int, j: int|
                0 <= h < runs_of(keys@).len() && 0 <= j < runs_of(keys@)[h].len()
                    ==> #[trigger] runs_of(keys@)[h][j] < keys@.len(),
            forall|h: int|
                0 <= h < g ==> {
                    &&& (#[trigger] series[h]).members@ == runs_of(keys@)[h]
                    &&& series[h].name@ == function_name_text(keys@[runs_of(keys@)[h][0] as int])
                    &&& series[h].color == comparison_palette()[h % (NUM_COLORS as int)]
                },
        decreases count - g,
    {
        let run = &runs[g];
        assert(run@ == runs_of(keys@)[g as int]);
        assert(run@.len() > 0);
        let first = run[0];
        assert(first < keys@.len());
        let name = function_name(&keys[first]);
        let color = comparison_color(g);
        let members = vstd::slice::slice_to_vec(run.as_slice());
        series.push(Series { name, color, members });
        g = g + 1;
    }
    series
}

/// The labels of the rows of a violin plot: the benchmarks' names, escaped, in
/// reverse order, since the first benchmark is drawn at the top.
pub open spec fn violin_row_labels(ids: Seq<String>) -> Seq<Seq<char>> {
    Seq::new(ids.len(), |row: int| escaped(ids[ids.len() - 1 - row]@))
}

/// The labels of the rows of a violin plot, from the bottom row up.
pub fn violin_labels(ids: &Vec<String>) -> (labels: Vec<String>)
    ensures
        labels@.map_values(|label: String| label@) == violin_row_labels(ids@),
{
    let mut labels: Vec<String> = Vec::new();
    let n = ids.len();
    let mut row: usize = 0;
    while row < n
        invariant
            n == ids@.len(),
            row <= n,
            labels@.len() == row,
            forall|r: int| 0 <= r < row ==> #[trigger] labels@[r]@ == escaped(ids@[n - 1 - r]@),
        decreases n - row,
    {
        labels.push(escape_underscores(ids[n - 1 - row].as_str()));
        row = row + 1;
    }
    assert(labels@.map_values(|label: String| label@) =~= violin_row_labels(ids@));
    labels
}

/// The width of a violin plot, in pixels.
pub const VIOLIN_WIDTH: usize = 1280;

/// The height of a violin plot of `rows` benchmarks, in pixels: 200 plus 25 per row.
pub fn violin_height(rows: usize) -> (height: usize)
    requires
        200 + 25 * rows <= usize::MAX,
    ensures
        height == 200 + 25 * rows,
{
    200 + 25 * rows
}


/// Law: the rows of a violin plot, read from the top down, are the benchmarks
/// in their order; from the bottom up, the labels are the escaped names in
/// reverse order.
pub proof fn lemma_violin_rows_reversed(ids: Seq<String>)
    ensures
        violin_row_labels(ids) == ids.map_values(|id: String| escaped(id@)).reverse(),
        violin_row_labels(ids).reverse() == ids.map_values(|id: String| escaped(id@)),
        violin_row_labels(ids).len() == ids.len(),
{
    let names = ids.map_values(|id: String| escaped(id@));
    assert(violin_row_labels(ids) =~= names.reverse());
    assert(names.reverse().reverse() =~= names);
}

} // verus!
