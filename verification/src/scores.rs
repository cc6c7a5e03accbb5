//! The score tensor a model hands back, and the choice of a label per cell.

use vstd::prelude::*;
use crate::error::Error;

verus! {

/// The bit pattern of the double `1.0`: the largest score there is.
pub const SCORE_ONE: u64 = 0x3FF0_0000_0000_0000;

/// The scores of a nested vector, batch by position by label.
pub open spec fn score_cells(cells: Seq<Vec<Vec<u64>>>) -> Seq<Seq<Seq<u64>>> {
    Seq::new(cells.len(), |b: int| Seq::new(cells[b]@.len(), |p: int| cells[b]@[p]@))
}

/// A cell holds one score per label, none above [`SCORE_ONE`].
pub open spec fn valid_cell(cell: Seq<u64>, labels: nat) -> bool {
    &&& cell.len() == labels
    &&& forall|l: int| 0 <= l < cell.len() ==> #[trigger] cell[l] <= SCORE_ONE
}

/// A row holds `width` valid cells.
pub open spec fn valid_row(row: Seq<Seq<u64>>, width: nat, labels: nat) -> bool {
    &&& row.len() == width
    &&& forall|p: int| 0 <= p < row.len() ==> valid_cell(#[trigger] row[p], labels)
}

/// Whether `scores` is a tensor of `height` by `width` by `labels` scores, none
/// above [`SCORE_ONE`].
pub open spec fn has_shape(scores: Seq<Seq<Seq<u64>>>, height: nat, width: nat, labels: nat) -> bool {
    &&& scores.len() == height
    &&& forall|b: int| 0 <= b < scores.len() ==> valid_row(#[trigger] scores[b], width, labels)
}

/// Whether `scores` can come from a model: no axis is empty, every row has the
/// length of the first, every cell has as many scores as the first, the number
/// of labels fits a label identifier, and no score is above [`SCORE_ONE`].
pub open spec fn valid_scores(scores: Seq<Seq<Seq<u64>>>) -> bool {
    &&& scores.len() > 0
    &&& scores[0].len() > 0
    &&& 0 < scores[0][0].len() <= i64::MAX
    &&& has_shape(scores, scores.len(), scores[0].len(), scores[0][0].len())
}

/// Whether `k` is the first position of `cell` that holds its largest score.
pub open spec fn is_argmax(cell: Seq<u64>, k: int) -> bool {
    &&& 0 <= k < cell.len()
    &&& forall|j: int| 0 <= j < cell.len() ==> #[trigger] cell[j] <= cell[k]
    &&& forall|j: int| 0 <= j < k ==> #[trigger] cell[j] < cell[k]
}

/// The first position of `cell` that holds its largest score.
pub open spec fn argmax(cell: Seq<u64>) -> int {
    choose|k: int| is_argmax(cell, k)
}

/// A cell has at most one first position of its largest score.
pub proof fn lemma_argmax_unique(cell: Seq<u64>, a: int, b: int)
    requires
        is_argmax(cell, a),
        is_argmax(cell, b),
    ensures
        a == b,
{
    if a < b {
        assert(cell[b] <= cell[a]);
    } else if b < a {
        assert(cell[a] <= cell[b]);
    }
}

/// A cell with at least one score has a first position of its largest score.
pub proof fn lemma_argmax_exists(cell: Seq<u64>)
    requires
        cell.len() > 0,
    ensures
        is_argmax(cell, argmax(cell)),
    decreases cell.len(),
{
    if cell.len() == 1 {
        assert(is_argmax(cell, 0));
    } else {
        let front = cell.drop_last();
        lemma_argmax_exists(front);
        let k = argmax(front);
        if cell.last() > cell[k] {
            assert(is_argmax(cell, cell.len() - 1)) by {
                assert forall|j: int| 0 <= j < cell.len() - 1 implies #[trigger] cell[j] < cell.last() by {
                    assert(front[j] <= front[k]);
                }
            }
        } else {
            assert(is_argmax(cell, k)) by {
                assert forall|j: int| 0 <= j < cell.len() implies #[trigger] cell[j] <= cell[k] by {
                    if j < front.len() {
                        assert(front[j] <= front[k]);
                    }
                }
                assert forall|j: int| 0 <= j < k implies #[trigger] cell[j] < cell[k] by {
                    assert(front[j] < front[k]);
                }
            }
        }
    }
}

/// Whatever meets `is_argmax` is what `argmax` names.
pub proof fn lemma_argmax_is(cell: Seq<u64>, k: int)
    requires
        is_argmax(cell, k),
    ensures
        argmax(cell) == k,
{
    lemma_argmax_unique(cell, argmax(cell), k);
}

/// Position of the first largest score of `cell`; `None` for a cell without
/// scores.
pub fn select(cell: &Vec<u64>) -> (r: Option<usize>)
    ensures
        cell.len() == 0 ==> r is None,
        cell.len() > 0 ==> r is Some && is_argmax(cell@, r->Some_0 as int) && r->Some_0 == argmax(
            cell@,
        ),
{
    if cell.len() == 0 {
        return None;
    }
    let mut best: usize = 0;
    let mut j: usize = 1;
    while j < cell.len()
        invariant
            1 <= j <= cell.len(),
            is_argmax(cell@.take(j as int), best as int),
        decreases cell.len() - j,
    {
        if cell[j] > cell[best] {
            best = j;
        }
        j += 1;
    }
    proof {
        assert(cell@.take(cell.len() as int) =~= cell@);
        lemma_argmax_is(cell@, best as int);
    }
    Some(best)
}

/// Scores of a batch: for every text and every token position, one score per
/// label.
pub struct ScoreTensor {
    cells: Vec<Vec<Vec<u64>>>,
    width: usize,
    labels: usize,
}

impl View for ScoreTensor {
    type V = Seq<Seq<Seq<u64>>>;

    closed spec fn view(&self) -> Seq<Seq<Seq<u64>>> {
        score_cells(self.cells@)
    }
}

/// Whether `cell` holds `labels` scores, none above [`SCORE_ONE`].
fn check_cell(cell: &Vec<u64>, labels: usize) -> (ok: bool)
    ensures
        ok == valid_cell(cell@, labels as nat),
{
    if cell.len() != labels {
        return false;
    }
    let mut l: usize = 0;
    while l < cell.len()
        invariant
            l <= cell.len(),
            cell.len() == labels,
            forall|k: int| 0 <= k < l ==> #[trigger] cell[k] <= SCORE_ONE,
        decreases cell.len() - l,
    {
        if cell[l] > SCORE_ONE {
            return false;
        }
        l += 1;
    }
    true
}

/// Whether `row` holds `width` cells that `check_cell` accepts.
fn check_row(row: &Vec<Vec<u64>>, width: usize, labels: usize) -> (ok: bool)
    ensures
        ok == valid_row(Seq::new(row.len() as nat, |p: int| row[p]@), width as nat, labels as nat),
{
    let ghost cells = Seq::new(row.len() as nat, |p: int| row[p]@);
    if row.len() != width {
        return false;
    }
    let mut p: usize = 0;
    while p < row.len()
        invariant
            p <= row.len(),
            row.len() == width,
            cells == Seq::new(row.len() as nat, |p: int| row[p]@),
            forall|k: int| 0 <= k < p ==> valid_cell(#[trigger] cells[k], labels as nat),
        decreases row.len() - p,
    {
        if !check_cell(&row[p], labels) {
            assert(!valid_cell(cells[p as int], labels as nat));
            return false;
        }
        p += 1;
    }
    true
}

impl ScoreTensor {
    #[verifier::type_invariant]
    spec fn well_formed(self) -> bool {
        &&& valid_scores(self@)
        &&& self.width == self@[0].len()
        &&& self.labels == self@[0][0].len()
    }

    /// Takes `cells` as the scores of a batch, if they can be that.
    pub fn new(cells: Vec<Vec<Vec<u64>>>) -> (r: Result<ScoreTensor, Error>)
        ensures
            valid_scores(score_cells(cells@)) ==> r is Ok && r->Ok_0@ == score_cells(cells@),
            !valid_scores(score_cells(cells@)) ==> r == Err::<ScoreTensor, Error>(
                Error::MalformedScores,
            ),
    {
        let ghost scores = score_cells(cells@);
        if cells.len() == 0 || cells[0].len() == 0 {
            return Err(Error::MalformedScores);
        }
        let width = cells[0].len();
        let labels = cells[0][0].len();
        if labels == 0 || labels as u64 > 0x7FFF_FFFF_FFFF_FFFF {
            return Err(Error::MalformedScores);
        }
        let mut b: usize = 0;
        while b < cells.len()
            invariant
                b <= cells.len(),
                scores == score_cells(cells@),
                scores.len() > 0,
                width == scores[0].len(),
                labels == scores[0][0].len(),
                0 < width,
                0 < labels <= i64::MAX,
                forall|k: int|
                    0 <= k < b ==> valid_row(#[trigger] scores[k], width as nat, labels as nat),
            decreases cells.len() - b,
        {
            if !check_row(&cells[b], width, labels) {
                assert(!valid_row(scores[b as int], width as nat, labels as nat));
                return Err(Error::MalformedScores);
            }
            b += 1;
        }
        Ok(ScoreTensor { cells, width, labels })
    }

    /// The three extents of the tensor: texts, positions per text, labels per
    /// position.
    pub fn shape(&self) -> (dims: (usize, usize, usize))
        ensures
            valid_scores(self@),
            has_shape(self@, dims.0 as nat, dims.1 as nat, dims.2 as nat),
    {
        proof {
            use_type_invariant(self);
        }
        (self.cells.len(), self.width, self.labels)
    }

    /// The scores of position `p` in text `b`.
    pub fn cell(&self, b: usize, p: usize) -> (cell: &Vec<u64>)
        requires
            b < self@.len(),
            p < self@[b as int].len(),
        ensures
            cell@ == self@[b as int][p as int],
    {
        &self.cells[b][p]
    }
}

} // verus!
