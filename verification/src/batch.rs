//! The batch builder: rows of token identifiers, right-padded to one length.

use vstd::prelude::*;
use crate::error::Error;

verus! {

/// Identifier that fills the cells to the right of a row's real content.
pub const PAD_ID: i64 = 0;

/// The rows of a nested vector, each taken by its view.
pub open spec fn token_rows(rows: Seq<Vec<i64>>) -> Seq<Seq<i64>> {
    Seq::new(rows.len(), |i: int| rows[i]@)
}

/// Length of the longest row; zero where there is no row.
pub open spec fn max_len(rows: Seq<Seq<i64>>) -> nat
    decreases rows.len(),
{
    if rows.len() == 0 {
        0
    } else {
        let rest = max_len(rows.drop_last());
        if rows.last().len() > rest {
            rows.last().len()
        } else {
            rest
        }
    }
}

/// `row` followed by as many padding identifiers as it takes to reach `width`.
/// A row that is already that long or longer stays as it is.
pub open spec fn pad_row(row: Seq<i64>, width: nat) -> Seq<i64> {
    row + Seq::new(
        if width > row.len() {
            (width - row.len()) as nat
        } else {
            0
        },
        |j: int| PAD_ID,
    )
}

/// Every row padded to the length of the longest one.
pub open spec fn padded(rows: Seq<Seq<i64>>) -> Seq<Seq<i64>> {
    Seq::new(rows.len(), |i: int| pad_row(rows[i], max_len(rows)))
}

/// Whether `cells` has `height` rows of `width` cells each.
pub open spec fn is_rectangle(cells: Seq<Seq<i64>>, height: nat, width: nat) -> bool {
    &&& cells.len() == height
    &&& forall|i: int| 0 <= i < cells.len() ==> (#[trigger] cells[i]).len() == width
}

/// No row is longer than `max_len` says.
pub proof fn lemma_max_len_bounds(rows: Seq<Seq<i64>>, i: int)
    requires
        0 <= i < rows.len(),
    ensures
        rows[i].len() <= max_len(rows),
    decreases rows.len(),
{
    if i < rows.len() - 1 {
        lemma_max_len_bounds(rows.drop_last(), i);
    }
}

/// Some row is exactly as long as `max_len` says.
pub proof fn lemma_max_len_attained(rows: Seq<Seq<i64>>) -> (i: int)
    requires
        rows.len() > 0,
    ensures
        0 <= i < rows.len(),
        rows[i].len() == max_len(rows),
    decreases rows.len(),
{
    let rest = max_len(rows.drop_last());
    if rows.last().len() > rest || rows.len() == 1 {
        rows.len() - 1
    } else {
        lemma_max_len_attained(rows.drop_last())
    }
}

/// The padded batch is a rectangle as wide as the longest row; each of its rows
/// starts with the row it was made from, and every cell after that holds the
/// padding identifier.
pub proof fn lemma_padded_shape(rows: Seq<Seq<i64>>)
    ensures
        is_rectangle(padded(rows), rows.len(), max_len(rows)),
        forall|i: int, j: int|
            0 <= i < rows.len() && 0 <= j < rows[i].len() ==> #[trigger] padded(rows)[i][j]
                == rows[i][j],
        forall|i: int, j: int|
            0 <= i < rows.len() && rows[i].len() <= j < max_len(rows) ==> #[trigger] padded(
                rows,
            )[i][j] == PAD_ID,
{
    assert forall|i: int| 0 <= i < rows.len() implies (#[trigger] padded(rows)[i]).len()
        == max_len(rows) by {
        lemma_max_len_bounds(rows, i);
    }
}

/// A batch of token rows of one common, non-zero length.
pub struct PaddedBatch {
    rows: Vec<Vec<i64>>,
    width: usize,
}

impl View for PaddedBatch {
    type V = Seq<Seq<i64>>;

    closed spec fn view(&self) -> Seq<Seq<i64>> {
        token_rows(self.rows@)
    }
}

impl PaddedBatch {
    #[verifier::type_invariant]
    spec fn well_formed(self) -> bool {
        &&& self.rows.len() > 0
        &&& self.width > 0
        &&& forall|i: int| 0 <= i < self.rows.len() ==> (#[trigger] self.rows[i]).len() == self.width
    }

    /// Number of rows.
    pub fn height(&self) -> (h: usize)
        ensures
            h == self@.len(),
            h > 0,
    {
        proof {
            use_type_invariant(self);
        }
        self.rows.len()
    }

    /// Number of cells in every row.
    pub fn width(&self) -> (w: usize)
        ensures
            is_rectangle(self@, self@.len(), w as nat),
            w > 0,
    {
        proof {
            use_type_invariant(self);
        }
        self.width
    }

    /// The token identifier in row `i`, column `j`, or `None` outside the batch.
    pub fn get(&self, i: usize, j: usize) -> (id: Option<i64>)
        ensures
            id == (if i < self@.len() && j < self@[i as int].len() {
                Some(self@[i as int][j as int])
            } else {
                None
            }),
    {
        proof {
            use_type_invariant(self);
        }
        if i < self.rows.len() && j < self.width {
            Some(self.rows[i][j])
        } else {
            None
        }
    }

    /// The rows, copied out.
    pub fn to_rows(&self) -> (out: Vec<Vec<i64>>)
        ensures
            token_rows(out@) == self@,
    {
        proof {
            use_type_invariant(self);
        }
        let mut out: Vec<Vec<i64>> = Vec::new();
        let mut i: usize = 0;
        while i < self.rows.len()
            invariant
                i <= self.rows.len(),
                out.len() == i,
                forall|k: int| 0 <= k < i ==> (#[trigger] out[k])@ == self.rows[k]@,
            decreases self.rows.len() - i,
        {
            out.push(copy_row(&self.rows[i]));
            i += 1;
        }
        out
    }
}

/// A copy of `row`.
fn copy_row(row: &Vec<i64>) -> (out: Vec<i64>)
    ensures
        out@ == row@,
{
    let mut out: Vec<i64> = Vec::new();
    let mut j: usize = 0;
    while j < row.len()
        invariant
            j <= row.len(),
            out.len() == j,
            forall|k: int| 0 <= k < j ==> out[k] == row[k],
        decreases row.len() - j,
    {
        out.push(row[j]);
        j += 1;
    }
    out
}

/// Length of the longest row.
pub fn longest_row(rows: &Vec<Vec<i64>>) -> (width: usize)
    ensures
        width == max_len(token_rows(rows@)),
{
    let mut width: usize = 0;
    let mut i: usize = 0;
    while i < rows.len()
        invariant
            i <= rows.len(),
            width == max_len(token_rows(rows@).take(i as int)),
        decreases rows.len() - i,
    {
        proof {
            let next = token_rows(rows@).take(i + 1);
            assert(next.drop_last() =~= token_rows(rows@).take(i as int));
        }
        if rows[i].len() > width {
            width = rows[i].len();
        }
        i += 1;
    }
    assert(token_rows(rows@).take(rows.len() as int) =~= token_rows(rows@));
    width
}

/// `row`, right-padded with [`PAD_ID`] to `width` cells.
pub fn pad_to(row: &Vec<i64>, width: usize) -> (out: Vec<i64>)
    ensures
        out@ == pad_row(row@, width as nat),
{
    let mut out = copy_row(row);
    while out.len() < width
        invariant
            row.len() <= out.len(),
            out.len() <= width || out.len() == row.len(),
            out@ =~= row@ + Seq::new((out.len() - row.len()) as nat, |j: int| PAD_ID),
        decreases width - out.len(),
    {
        out.push(PAD_ID);
    }
    out
}

/// Builds the padded batch of `rows`: every row right-padded with [`PAD_ID`] to
/// the length of the longest.
///
/// A batch without rows is refused with [`Error::EmptyBatch`], and one whose
/// rows are all empty with [`Error::EmptyRows`]: neither has a cell a model
/// could label.
pub fn pad_batch(rows: &Vec<Vec<i64>>) -> (r: Result<PaddedBatch, Error>)
    ensures
        rows.len() == 0 ==> r == Err::<PaddedBatch, Error>(Error::EmptyBatch),
        rows.len() > 0 && max_len(token_rows(rows@)) == 0 ==> r == Err::<PaddedBatch, Error>(
            Error::EmptyRows,
        ),
        rows.len() > 0 && max_len(token_rows(rows@)) > 0 ==> r is Ok && r->Ok_0@ == padded(
            token_rows(rows@),
        ),
{
    if rows.len() == 0 {
        return Err(Error::EmptyBatch);
    }
    let width = longest_row(rows);
    if width == 0 {
        return Err(Error::EmptyRows);
    }
    let ghost source = token_rows(rows@);
    let mut out: Vec<Vec<i64>> = Vec::new();
    let mut i: usize = 0;
    while i < rows.len()
        invariant
            i <= rows.len(),
            out.len() == i,
            source == token_rows(rows@),
            width == max_len(source),
            forall|k: int| 0 <= k < i ==> (#[trigger] out[k])@ == pad_row(source[k], width as nat),
        decreases rows.len() - i,
    {
        out.push(pad_to(&rows[i], width));
        i += 1;
    }
    proof {
        lemma_padded_shape(source);
        assert forall|k: int| 0 <= k < out.len() implies (#[trigger] out[k]).len() == width by {
            assert(out[k]@ == padded(source)[k]);
        }
    }
    Ok(PaddedBatch { rows: out, width })
}

} // verus!
