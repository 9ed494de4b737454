//! The rectangular tables handed to the proving backend.
//!
//! Every generated table has a fixed column count and a row count padded
//! up to the next power of two with all-zero rows, because the backend
//! operates over power-of-two-sized evaluation domains. Cell values are
//! canonical `u64` field-element values; every cell this crate produces
//! is far below any field modulus the backend may choose.

use vstd::prelude::*;

verus! {

/// Whether `n` is a power of two.
pub open spec fn is_power_of_two(n: nat) -> bool
    decreases n,
{
    if n == 0 {
        false
    } else if n == 1 {
        true
    } else {
        n % 2 == 0 && is_power_of_two(n / 2)
    }
}

/// An all-zero row of the given width; padding rows have this shape, so
/// every filter and indicator column of a padding row is 0.
pub open spec fn zero_row(width: nat) -> Seq<u64> {
    Seq::new(width, |i: int| 0u64)
}

/// A rectangular array of field-element values: a fixed column count and
/// rows that all have exactly that many cells.
pub struct Table {
    /// Number of columns.
    pub width: usize,
    /// The rows, each of length `width`.
    pub rows: Vec<Vec<u64>>,
}

impl Table {
    /// The cells of the table, as a sequence of rows.
    pub open spec fn cells(self) -> Seq<Seq<u64>> {
        self.rows@.map_values(|r: Vec<u64>| r@)
    }

    /// Every row has exactly `width` cells.
    pub open spec fn wf(self) -> bool {
        forall|i: int| 0 <= i < self.cells().len() ==> (#[trigger] self.cells()[i]).len()
            == self.width
    }

    /// The table's contents are the given semantic rows followed by
    /// all-zero padding, and the total row count is a power of two.
    pub open spec fn is_padded(self, content: Seq<Seq<u64>>) -> bool {
        &&& is_power_of_two(self.cells().len() as nat)
        &&& content.len() <= self.cells().len()
        &&& if content.len() == 0 {
            self.cells().len() == 1
        } else {
            self.cells().len() < 2 * content.len()
        }
        &&& forall|i: int| 0 <= i < content.len() ==> self.cells()[i] == content[i]
        &&& forall|i: int|
            content.len() <= i < self.cells().len() ==> self.cells()[i] == zero_row(
                self.width as nat,
            )
    }
}

/// The smallest power of two that is at least `n` (and at least 1).
pub fn next_power_of_two_at_least(n: usize) -> (r: usize)
    requires
        n <= 0x1000_0000,
    ensures
        is_power_of_two(r as nat),
        r >= n,
        r >= 1,
        n >= 1 ==> r < 2 * n,
        n == 0 ==> r == 1,
{
    let mut p: usize = 1;
    while p < n
        invariant
            n <= 0x1000_0000,
            is_power_of_two(p as nat),
            1 <= p,
            p <= 0x2000_0000,
            p == 1 || (n >= 1 && p < 2 * n),
        decreases 2 * n - p,
    {
        p = p * 2;
    }
    p
}

/// A fresh all-zero row of the given width.
pub fn make_zero_row(width: usize) -> (r: Vec<u64>)
    ensures
        r@ =~= zero_row(width as nat),
{
    let mut row: Vec<u64> = Vec::new();
    let mut i: usize = 0;
    while i < width
        invariant
            i <= width,
            row@.len() == i,
            forall|j: int| 0 <= j < i ==> row@[j] == 0u64,
        decreases width - i,
    {
        row.push(0);
        i = i + 1;
    }
    row
}

/// Pads the rows with all-zero rows of the given width up to the next
/// power-of-two count, and returns the finished table.
pub fn finish_table(rows: Vec<Vec<u64>>, width: usize) -> (t: Table)
    requires
        rows@.len() <= 0x1000_0000,
        forall|i: int| 0 <= i < rows@.len() ==> (#[trigger] rows@[i])@.len() == width,
    ensures
        t.wf(),
        t.width == width,
        t.is_padded(rows@.map_values(|r: Vec<u64>| r@)),
{
    let ghost content = rows@.map_values(|r: Vec<u64>| r@);
    let target = next_power_of_two_at_least(rows.len());
    let mut rows = rows;
    while rows.len() < target
        invariant
            content.len() <= rows@.len() <= target,
            forall|i: int| 0 <= i < content.len() ==> (#[trigger] rows@[i])@ == content[i],
            forall|i: int|
                content.len() <= i < rows@.len() ==> (#[trigger] rows@[i])@ == zero_row(
                    width as nat,
                ),
        decreases target - rows.len(),
    {
        let z = make_zero_row(width);
        rows.push(z);
    }
    let t = Table { width, rows };
    proof {
        assert(t.cells().len() == target);
        assert forall|i: int| 0 <= i < content.len() implies #[trigger] t.cells()[i]
            == content[i] by {
            assert(t.cells()[i] == rows@[i]@);
        }
        assert forall|i: int| content.len() <= i < t.cells().len() implies #[trigger] t.cells()[i]
            == zero_row(width as nat) by {
            assert(t.cells()[i] == rows@[i]@);
        }
        assert forall|i: int| 0 <= i < t.cells().len() implies (#[trigger] t.cells()[i]).len()
            == t.width by {
            if i < content.len() {
                assert(t.cells()[i] == content[i]);
                assert(content[i].len() == width);
            } else {
                assert(t.cells()[i] == zero_row(width as nat));
            }
        }
    }
    t
}

} // verus!
