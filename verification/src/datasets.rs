//! Calibration datasets of the strength check: requests name one of the four
//! benchmark datasets, and each dataset selects its calibration profile.

use vstd::prelude::*;
use crate::text::{lemma_split_on_nonempty, parse_decimal_usize, parse_usize, slices_view, split_on, split_text, text_equals};

verus! {

/// The dataset a request is calibrated against when it names none.
pub open spec fn default_dataset_name() -> Seq<char> {
    "D1"@
}

pub fn default_dataset() -> (s: String)
    ensures
        s@ == default_dataset_name(),
{
    String::from_str("D1")
}

/// The calibration profile of a dataset.
#[derive(Debug, Clone, Copy, PartialEq, Eq, Structural)]
pub enum CalibrationProfile {
    /// D1, the UCI dataset, and every name not listed below.
    Uci,
    /// D2.
    D2,
    /// D3.
    D3,
    /// D4.
    D4,
}

pub open spec fn profile_of(dataset: Seq<char>) -> CalibrationProfile {
    if dataset == "D2"@ {
        CalibrationProfile::D2
    } else if dataset == "D3"@ {
        CalibrationProfile::D3
    } else if dataset == "D4"@ {
        CalibrationProfile::D4
    } else {
        CalibrationProfile::Uci
    }
}

/// Selects the calibration profile a dataset name stands for.
pub fn calibration_profile(dataset: &str) -> (p: CalibrationProfile)
    ensures
        p == profile_of(dataset@),
{
    if text_equals(dataset, "D2") {
        CalibrationProfile::D2
    } else if text_equals(dataset, "D3") {
        CalibrationProfile::D3
    } else if text_equals(dataset, "D4") {
        CalibrationProfile::D4
    } else {
        CalibrationProfile::Uci
    }
}

/// Supplementary cementitious materials count fully towards the binder only in
/// the UCI dataset (D1); the others count a fifth of them.
pub open spec fn counts_scm_fully(dataset: Seq<char>) -> bool {
    dataset == "D1"@
}

pub fn scm_counts_fully(dataset: &str) -> (b: bool)
    ensures
        b == counts_scm_fully(dataset@),
{
    text_equals(dataset, "D1")
}

/// Supplementary materials count fully only in the UCI dataset D1: never for
/// another name, and in particular not for D2, D3 or D4.
pub proof fn only_d1_counts_scm_fully(dataset: Seq<char>)
    ensures
        counts_scm_fully(dataset) ==> dataset == "D1"@,
        counts_scm_fully("D1"@),
        profile_of(dataset) != CalibrationProfile::Uci ==> !counts_scm_fully(dataset),
        !counts_scm_fully("D2"@),
        !counts_scm_fully("D3"@),
        !counts_scm_fully("D4"@),
{
    reveal_strlit("D1");
    reveal_strlit("D2");
    reveal_strlit("D3");
    reveal_strlit("D4");
    assert("D1"@[1] != "D2"@[1]);
    assert("D1"@[1] != "D3"@[1]);
    assert("D1"@[1] != "D4"@[1]);
}

/// The default dataset is calibrated with the UCI profile and counts its
/// supplementary materials fully.
pub proof fn default_dataset_is_uci()
    ensures
        profile_of(default_dataset_name()) == CalibrationProfile::Uci,
        counts_scm_fully(default_dataset_name()),
{
    reveal_strlit("D1");
    reveal_strlit("D2");
    reveal_strlit("D3");
    reveal_strlit("D4");
    assert("D1"@[1] != "D2"@[1]);
    assert("D1"@[1] != "D3"@[1]);
    assert("D1"@[1] != "D4"@[1]);
}

// ── Prediction files ──────────────────────────────────────────────────────────

/// A line as a line reader returns it: without its `\n`, and without a `\r`
/// that stood just before that `\n`.
pub open spec fn strip_cr(l: Seq<char>) -> Seq<char> {
    if l.len() > 0 && l.last() == '\r' { l.drop_last() } else { l }
}

/// The lines of a text, as a line reader yields them: every piece that ends
/// in `\n`, with its line ending removed, and the final piece if it is not empty.
pub open spec fn text_lines(t: Seq<char>) -> Seq<Seq<char>> {
    let p = split_on(t, '\n');
    let init = p.drop_last().map_values(|l: Seq<char>| strip_cr(l));
    if p.last().len() == 0 { init } else { init.push(p.last()) }
}

/// The row a line with at least nine comma-separated columns gives: the index
/// written in its first column (or the line's position when that column is no
/// index), and the texts of the eight columns after it.
pub open spec fn row_of(cols: Seq<Seq<char>>, line: int) -> (int, Seq<Seq<char>>) {
    (
        match parse_usize(cols[0]) {
            Some(v) => v as int,
            None => line,
        },
        cols.subrange(1, 9),
    )
}

/// The rows of the lines of a prediction file: one per line with at least nine
/// columns, in order; shorter lines give none.
pub open spec fn prediction_rows(ls: Seq<Seq<char>>) -> Seq<(int, Seq<Seq<char>>)>
    decreases ls.len(),
{
    if ls.len() == 0 {
        Seq::empty()
    } else {
        let prev = prediction_rows(ls.drop_last());
        let cols = split_on(ls.last(), ',');
        if cols.len() >= 9 {
            prev.push(row_of(cols, ls.len() - 1))
        } else {
            prev
        }
    }
}

/// One row of a prediction file: its sample index, and the texts of the
/// prediction, the physics prediction, cement, slag, fly ash, water, age and
/// the measured strength, in that order.
pub struct PredictionRow {
    pub index: usize,
    pub fields: Vec<String>,
}

/// The index and field texts of a row.
pub open spec fn row_view(r: PredictionRow) -> (int, Seq<Seq<char>>) {
    (r.index as int, r.fields@.map_values(|f: String| f@))
}

fn strip_cr_text(l: &str) -> (r: &str)
    ensures
        r@ == strip_cr(l@),
{
    let n = l.unicode_len();
    if n > 0 && l.get_char(n - 1) == '\r' {
        l.substring_char(0, n - 1)
    } else {
        l
    }
}

fn row_fields(cols: &Vec<&str>) -> (f: Vec<String>)
    requires
        cols@.len() >= 9,
    ensures
        f@.map_values(|s: String| s@) == slices_view(cols@).subrange(1, 9),
{
    let mut f: Vec<String> = Vec::new();
    let mut k: usize = 1;
    while k < 9
        invariant
            1 <= k <= 9,
            cols@.len() >= 9,
            f@.len() == k - 1,
            forall|j: int| 0 <= j < k - 1 ==> (#[trigger] f@[j])@ == cols@[j + 1]@,
        decreases 9 - k,
    {
        f.push(cols[k].to_owned());
        k = k + 1;
    }
    proof {
        assert(f@.map_values(|s: String| s@) =~= slices_view(cols@).subrange(1, 9));
    }
    f
}

/// Reads the rows of a prediction file, which has no header and one line per
/// sample: `index,prediction,physics_prediction,cement,slag,fly_ash,water,age,actual_strength`.
/// Lines with fewer than nine columns are skipped.
pub fn parse_csv(text: &str) -> (v: Vec<PredictionRow>)
    ensures
        v@.map_values(|r: PredictionRow| row_view(r)) == prediction_rows(text_lines(text@)),
{
    let pieces = split_text(text, '\n');
    let ghost p = split_on(text@, '\n');
    let ghost ls = text_lines(text@);
    let m = pieces.len();
    proof {
        lemma_split_on_nonempty(text@, '\n');
        assert(m >= 1);
    }
    let count: usize = if pieces[m - 1].unicode_len() == 0 { m - 1 } else { m };
    proof {
        assert(p.last() == pieces@[m - 1]@);
        assert(ls.len() == count);
        assert forall|j: int| 0 <= j < count implies #[trigger] ls[j]
            == (if j < m - 1 { strip_cr(pieces@[j]@) } else { pieces@[j]@ }) by {
            if j < m - 1 {
                assert(ls[j] == p.drop_last().map_values(|l: Seq<char>| strip_cr(l))[j]);
            }
        }
        assert(ls.subrange(0, 0) =~= Seq::<Seq<char>>::empty());
    }
    let mut rows: Vec<PredictionRow> = Vec::new();
    let mut i: usize = 0;
    while i < count
        invariant
            count <= m,
            m == pieces@.len(),
            m >= 1,
            ls.len() == count,
            forall|j: int| 0 <= j < count ==> #[trigger] ls[j]
                == (if j < m - 1 { strip_cr(pieces@[j]@) } else { pieces@[j]@ }),
            i <= count,
            rows@.map_values(|r: PredictionRow| row_view(r)) == prediction_rows(ls.subrange(0, i as int)),
        decreases count - i,
    {
        let line = if i < m - 1 { strip_cr_text(pieces[i]) } else { pieces[i] };
        let cols = split_text(line, ',');
        let ghost pre = ls.subrange(0, i as int);
        let ghost next = ls.subrange(0, i + 1);
        proof {
            assert(line@ == ls[i as int]);
            assert(next.drop_last() =~= pre);
            assert(next.last() == ls[i as int]);
        }
        if cols.len() >= 9 {
            let index = match parse_decimal_usize(cols[0]) {
                Some(v) => v,
                None => i,
            };
            let fields = row_fields(&cols);
            let row = PredictionRow { index, fields };
            proof {
                assert(row_view(row) == row_of(split_on(line@, ','), i as int));
            }
            rows.push(row);
            proof {
                assert(rows@.map_values(|r: PredictionRow| row_view(r)) =~= prediction_rows(next));
            }
        } else {
            proof {
                assert(rows@.map_values(|r: PredictionRow| row_view(r)) =~= prediction_rows(next));
            }
        }
        i = i + 1;
    }
    proof {
        assert(ls.subrange(0, count as int) =~= ls);
    }
    rows
}

} // verus!
