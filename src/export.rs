//! Layout of the spectrum log for export as a table.
//!
//! Generations differ in length; in the exported table every row is as wide
//! as the most recent generation, and a shorter generation is aligned to the
//! right, with fill lines in front of it.
use vstd::prelude::*;

verus! {

/// Line `j` of `row` once it is padded at the front to `width` lines.
pub open spec fn padded_at<L>(row: Seq<L>, width: nat, fill: L, j: int) -> L {
    if j < width - row.len() {
        fill
    } else {
        row[j - (width - row.len())]
    }
}

/// Each row of `rows` padded at the front with `fill` to `width` lines.
pub fn pad_front<L: Copy>(rows: &Vec<Vec<L>>, width: usize, fill: L) -> (r: Vec<Vec<L>>)
    requires
        forall|i: int| 0 <= i < rows@.len() ==> #[trigger] rows@[i]@.len() <= width,
    ensures
        r@.len() == rows@.len(),
        forall|i: int| 0 <= i < r@.len() ==> #[trigger] r@[i]@.len() == width,
        forall|i: int, j: int|
            0 <= i < r@.len() && 0 <= j < width ==> #[trigger] r@[i]@[j] == padded_at(
                rows@[i]@,
                width as nat,
                fill,
                j,
            ),
{
    let mut out: Vec<Vec<L>> = Vec::new();
    let mut i: usize = 0;
    while i < rows.len()
        invariant
            i <= rows@.len(),
            forall|k: int| 0 <= k < rows@.len() ==> #[trigger] rows@[k]@.len() <= width,
            out@.len() == i,
            forall|k: int| 0 <= k < i ==> #[trigger] out@[k]@.len() == width,
            forall|k: int, j: int|
                0 <= k < i && 0 <= j < width ==> #[trigger] out@[k]@[j] == padded_at(
                    rows@[k]@,
                    width as nat,
                    fill,
                    j,
                ),
        decreases rows@.len() - i,
    {
        let row = &rows[i];
        assert(row@.len() <= width);
        let start = width - row.len();
        let mut padded: Vec<L> = Vec::new();
        let mut j: usize = 0;
        while j < width
            invariant
                row@ == rows@[i as int]@,
                row@.len() <= width,
                start == width - row@.len(),
                j <= width,
                padded@.len() == j,
                forall|m: int| 0 <= m < j ==> #[trigger] padded@[m] == padded_at(row@, width as nat, fill, m),
            decreases width - j,
        {
            if j < start {
                padded.push(fill);
            } else {
                padded.push(row[j - start]);
            }
            j = j + 1;
        }
        out.push(padded);
        proof {
            assert forall|k: int, m: int| 0 <= k < i + 1 && 0 <= m < width implies #[trigger] out@[k]@[m]
                == padded_at(rows@[k]@, width as nat, fill, m) by {
                if k < i {
                } else {
                    assert(out@[k]@[m] == padded@[m]);
                }
            }
        }
        i = i + 1;
    }
    out
}

} // verus!
