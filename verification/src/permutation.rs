//! Per-run permutation assemblies.
//!
//! Each declared permutation argument gets one assembly for a concrete
//! synthesis run: a mapping from every `(column slot, row)` of the argument's
//! declared column set to the slot it is linked to.  The mapping starts as the
//! identity (an unlinked cell maps to itself) and each recorded copy
//! constraint links two slots by exchanging their images, so repeated copies
//! grow cycles.

use vstd::prelude::*;

verus! {

/// The cycle mapping of one permutation argument over one synthesis run.
///
/// `mapping[c][r]` is the `(column slot, row)` that slot `(c, r)` is linked
/// to; the verifier later checks that linked slots hold equal values.
#[derive(Debug)]
pub struct Assembly {
    pub mapping: Vec<Vec<(usize, usize)>>,
}

impl Assembly {
    /// The mapping as a mathematical sequence of columns of slots.
    pub open spec fn view_map(self) -> Seq<Seq<(usize, usize)>> {
        self.mapping@.map_values(|col: Vec<(usize, usize)>| col@)
    }

    /// Well-formedness against a permutation argument of `columns` columns
    /// over `n` rows: one slot per (column, row), every image in range.
    pub open spec fn wf(self, columns: int, n: int) -> bool {
        &&& self.mapping@.len() == columns
        &&& forall|c: int| 0 <= c < columns ==> (#[trigger] self.mapping@[c])@.len() == n
        &&& forall|c: int, r: int| 0 <= c < columns && 0 <= r < n ==> {
            &&& ((#[trigger] self.mapping@[c]@[r]).0 as int) < columns
            &&& (self.mapping@[c]@[r].1 as int) < n
        }
    }

    /// The identity assembly for a permutation argument of `columns` columns
    /// over `n` rows: every slot maps to itself.
    pub fn new(n: usize, columns: usize) -> (r: Assembly)
        ensures
            r.wf(columns as int, n as int),
            forall|c: int, r_: int| 0 <= c < columns && 0 <= r_ < n
                ==> (#[trigger] r.mapping@[c]@[r_]) == (c as usize, r_ as usize),
    {
        let mut mapping: Vec<Vec<(usize, usize)>> = Vec::new();
        let mut c: usize = 0;
        while c < columns
            invariant
                c <= columns,
                mapping@.len() == c,
                forall|i: int| 0 <= i < c ==> (#[trigger] mapping@[i])@.len() == n,
                forall|i: int, j: int| 0 <= i < c && 0 <= j < n
                    ==> (#[trigger] mapping@[i]@[j]) == (i as usize, j as usize),
            decreases columns - c,
        {
            let mut col: Vec<(usize, usize)> = Vec::new();
            let mut r_: usize = 0;
            while r_ < n
                invariant
                    r_ <= n,
                    col@.len() == r_,
                    forall|j: int| 0 <= j < r_ ==> (#[trigger] col@[j]) == (c as usize, j as usize),
                decreases n - r_,
            {
                col.push((c, r_));
                r_ += 1;
            }
            mapping.push(col);
            c += 1;
        }
        Assembly { mapping }
    }

    /// Whether a copy of these slots is inside the mapping's bounds.
    pub open spec fn copy_in_bounds(
        self,
        left_column: int,
        left_row: int,
        right_column: int,
        right_row: int,
    ) -> bool {
        &&& 0 <= left_column < self.mapping@.len()
        &&& 0 <= left_row < self.mapping@[left_column]@.len()
        &&& 0 <= right_column < self.mapping@.len()
        &&& 0 <= right_row < self.mapping@[right_column]@.len()
    }

    /// The image a slot is linked to after a copy exchanges the images of the
    /// left and right slots (the right slot's new image wins if both name the
    /// same slot).
    pub open spec fn image_after_copy(
        self,
        left_column: int,
        left_row: int,
        right_column: int,
        right_row: int,
        c: int,
        r: int,
    ) -> (usize, usize) {
        if c == right_column && r == right_row {
            self.mapping@[left_column]@[left_row]
        } else if c == left_column && r == left_row {
            self.mapping@[right_column]@[right_row]
        } else {
            self.mapping@[c]@[r]
        }
    }

    /// Record one copy constraint: link slot `(left_column, left_row)` with
    /// slot `(right_column, right_row)` by exchanging their images, merging
    /// their cycles.  Fails with a bounds error, leaving the mapping
    /// untouched, if either slot lies outside the mapping.
    pub fn copy(
        &mut self,
        left_column: usize,
        left_row: usize,
        right_column: usize,
        right_row: usize,
    ) -> (r: Result<(), crate::prover::Error>)
        ensures
            old(self).copy_in_bounds(
                left_column as int, left_row as int, right_column as int, right_row as int)
                ==> {
                &&& r == Ok::<(), crate::prover::Error>(())
                &&& final(self).mapping@.len() == old(self).mapping@.len()
                &&& forall|c: int| 0 <= c < old(self).mapping@.len()
                    ==> (#[trigger] final(self).mapping@[c])@.len()
                        == old(self).mapping@[c]@.len()
                &&& forall|c: int, r_: int|
                    0 <= c < old(self).mapping@.len()
                        && 0 <= r_ < old(self).mapping@[c]@.len()
                    ==> (#[trigger] final(self).mapping@[c]@[r_]) == old(self).image_after_copy(
                        left_column as int, left_row as int,
                        right_column as int, right_row as int, c, r_)
            },
            !old(self).copy_in_bounds(
                left_column as int, left_row as int, right_column as int, right_row as int)
                ==> {
                &&& r == Err::<(), crate::prover::Error>(crate::prover::Error::BoundsFailure)
                &&& *final(self) == *old(self)
            },
    {
        if left_column >= self.mapping.len() || left_row >= self.mapping[left_column].len()
            || right_column >= self.mapping.len()
            || right_row >= self.mapping[right_column].len()
        {
            return Err(crate::prover::Error::BoundsFailure);
        }
        let tmp: (usize, usize) = self.mapping[left_column][left_row];
        let image: (usize, usize) = self.mapping[right_column][right_row];
        self.mapping[left_column][left_row] = image;
        self.mapping[right_column][right_row] = tmp;
        Ok(())
    }
}

} // verus!
