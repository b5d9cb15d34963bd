//! The witness recorder.
//!
//! `MockProver` is the single object an external synthesis process drives: it
//! owns the grids of fixed, advice and instance values, the list of finished
//! regions, and one permutation assembly per declared permutation argument.
//! Synthesis mutates it through the operations below, strictly one region at
//! a time; once synthesis completes, the verification engine reads the
//! finished state.
//!
//! Every operation's contract is stated against `model()`, the mathematical
//! image of the recorder state, so the whole synthesis run is pinned as a
//! fold of the script over the initial state.

use vstd::prelude::*;

use crate::circuit::{Any, Circuit, Column, ConstraintSystem, Selector, SynthStep};
use crate::circuit::{steps_region_wf, steps_region_wf_from};
use crate::field::Fp;
use crate::permutation::Assembly;

verus! {

/// Synthesis-time failures.  These abort construction immediately: they are
/// programming errors in the circuit description or the synthesis script,
/// never data errors in the witness.
#[derive(Clone, Copy, Debug, PartialEq, Eq, Structural)]
pub enum Error {
    /// A column, row or permutation reference lies outside the sized state.
    BoundsFailure,
    /// A witness value was never supplied, or a copied column is not a member
    /// of its permutation's declared column set.
    SynthesisError,
}

/// One synthesis region: the cells written inside it, the selectors enabled
/// inside it, and the earliest row it touched.
#[derive(Debug)]
pub struct Region {
    /// The name of the region.  Not required to be unique.
    pub name: String,
    /// The earliest row assigned to inside this region, if any.
    pub start: Option<usize>,
    /// The rows at which each selector was enabled in this region, one entry
    /// per distinct selector, in first-enabled order.
    pub enabled_selectors: Vec<(Selector, Vec<usize>)>,
    /// The cells assigned in this region, in assignment order.
    pub cells: Vec<(Column, usize)>,
}

/// The mathematical image of a region.
#[verifier::ext_equal]
pub struct RegionModel {
    pub name: String,
    pub start: Option<usize>,
    pub selectors: Seq<(Selector, Seq<usize>)>,
    pub cells: Seq<(Column, usize)>,
}

impl Region {
    /// The mathematical image of this region.
    pub open spec fn model(self) -> RegionModel {
        RegionModel {
            name: self.name,
            start: self.start,
            selectors: self.enabled_selectors@.map_values(
                |p: (Selector, Vec<usize>)| (p.0, p.1@)),
            cells: self.cells@,
        }
    }

    /// Well-formedness against a circuit of `n` rows: the start row and every
    /// enabled row are in range, a region that enabled a selector has a start
    /// (enabling writes the selector's backing cell), and each selector has
    /// one entry.
    pub open spec fn wf(self, n: int) -> bool {
        &&& match self.start {
            Some(s) => s < n,
            None => self.enabled_selectors@.len() == 0,
        }
        &&& forall|i: int, j: int|
            0 <= i < self.enabled_selectors@.len()
                && 0 <= j < self.enabled_selectors@[i].1@.len()
            ==> ((#[trigger] self.enabled_selectors@[i].1@[j]) as int) < n
        &&& forall|i: int, j: int|
            0 <= i < j < self.enabled_selectors@.len()
            ==> (#[trigger] self.enabled_selectors@[i]).0
                != (#[trigger] self.enabled_selectors@[j]).0
    }

    /// Extend the region's start to include `row`: the start is the earliest
    /// row assigned to.
    pub fn update_start(&mut self, row: usize)
        ensures
            *final(self) == (Region {
                start: Some(
                    if old(self).start is Some && old(self).start->0 <= row {
                        old(self).start->0
                    } else {
                        row
                    }),
                ..*old(self)
            }),
    {
        let mut start: usize = match self.start {
            Some(s) => s,
            None => row,
        };
        if row < start {
            start = row;
        }
        self.start = Some(start);
    }
}

/// Whether some entry of a region's selector list is for `s`.
pub open spec fn has_selector(sels: Seq<(Selector, Seq<usize>)>, s: Selector) -> bool {
    exists|i: int| 0 <= i < sels.len() && (#[trigger] sels[i]).0 == s
}

/// The entry of a region's selector list that is for `s` (unique, since a
/// well-formed region keeps one entry per selector).
pub open spec fn selector_slot(sels: Seq<(Selector, Seq<usize>)>, s: Selector) -> int {
    choose|i: int| 0 <= i < sels.len() && (#[trigger] sels[i]).0 == s
}

/// A region after recording that `s` was enabled at `row`.
pub open spec fn region_with_selector(r: RegionModel, s: Selector, row: usize) -> RegionModel {
    RegionModel {
        selectors: if has_selector(r.selectors, s) {
            let i = selector_slot(r.selectors, s);
            r.selectors.update(i, (s, r.selectors[i].1.push(row)))
        } else {
            r.selectors.push((s, seq![row]))
        },
        ..r
    }
}

/// A region after recording that `(column, row)` was assigned inside it.
pub open spec fn region_with_cell(r: RegionModel, column: Column, row: usize) -> RegionModel {
    RegionModel {
        start: Some(
            if r.start is Some && r.start->0 <= row {
                r.start->0
            } else {
                row
            }),
        cells: r.cells.push((column, row)),
        ..r
    }
}

/// The mathematical image of the whole recorder state (the static constraint
/// system stands beside it, unchanged from construction on).
#[verifier::ext_equal]
pub struct ProverModel {
    pub n: nat,
    pub regions: Seq<RegionModel>,
    pub current_region: Option<RegionModel>,
    pub fixed: Seq<Seq<Option<Fp>>>,
    pub advice: Seq<Seq<Option<Fp>>>,
    pub instance: Seq<Seq<Fp>>,
    pub permutations: Seq<Seq<Seq<(usize, usize)>>>,
}

/// A test prover for debugging circuits: it stores all witness values along
/// with the circuit internals, and then checks every constraint directly.
#[derive(Debug)]
pub struct MockProver {
    /// The number of rows, `2^k`.
    pub n: usize,
    /// The static constraint system of the circuit under test.
    pub cs: ConstraintSystem,
    /// The finished regions, in the order they were closed.
    pub regions: Vec<Region>,
    /// The region currently being assigned to, if any.
    pub current_region: Option<Region>,
    /// The fixed cells, arranged as `[column][row]`; unassigned cells read as
    /// the additive identity during verification.
    pub fixed: Vec<Vec<Option<Fp>>>,
    /// The advice cells, arranged as `[column][row]`; unassigned cells read as
    /// the additive identity during verification.
    pub advice: Vec<Vec<Option<Fp>>>,
    /// The instance cells, arranged as `[column][row]`, always fully defined.
    pub instance: Vec<Vec<Fp>>,
    /// One assembly per declared permutation argument.
    pub permutations: Vec<Assembly>,
}

impl MockProver {
    /// The mathematical image of the recorder state.
    pub open spec fn model(self) -> ProverModel {
        ProverModel {
            n: self.n as nat,
            regions: self.regions@.map_values(|r: Region| r.model()),
            current_region: match self.current_region {
                Some(r) => Some(r.model()),
                None => None,
            },
            fixed: self.fixed@.map_values(|col: Vec<Option<Fp>>| col@),
            advice: self.advice@.map_values(|col: Vec<Option<Fp>>| col@),
            instance: self.instance@.map_values(|col: Vec<Fp>| col@),
            permutations: self.permutations@.map_values(|a: Assembly| a.view_map()),
        }
    }

    /// Well-formedness: the grids are sized to the constraint system, every
    /// assembly covers its argument's declared columns over all rows, and
    /// every recorded region is in range.
    pub open spec fn wf(self) -> bool {
        &&& 1 <= self.n <= 0x8000_0000usize
        &&& self.cs.wf(self.n as int)
        &&& self.fixed@.len() == self.cs.num_fixed_columns
        &&& forall|c: int| 0 <= c < self.fixed@.len()
            ==> (#[trigger] self.fixed@[c])@.len() == self.n
        &&& self.advice@.len() == self.cs.num_advice_columns
        &&& forall|c: int| 0 <= c < self.advice@.len()
            ==> (#[trigger] self.advice@[c])@.len() == self.n
        &&& self.instance@.len() == self.cs.num_instance_columns
        &&& forall|c: int| 0 <= c < self.instance@.len()
            ==> (#[trigger] self.instance@[c])@.len() == self.n
        &&& self.permutations@.len() == self.cs.permutations@.len()
        &&& forall|p: int| 0 <= p < self.permutations@.len()
            ==> (#[trigger] self.permutations@[p]).wf(
                self.cs.permutations@[p].columns@.len() as int, self.n as int)
        &&& forall|r: int| 0 <= r < self.regions@.len()
            ==> (#[trigger] self.regions@[r]).wf(self.n as int)
        &&& match self.current_region {
            Some(r) => r.wf(self.n as int),
            None => true,
        }
    }

    /// Open a region.  Exactly one region may be open at a time: opening
    /// while one is open is a contract violation of this interface, excluded
    /// by the precondition, not a recoverable error.
    pub fn enter_region(&mut self, name: String)
        requires
            old(self).wf(),
            old(self).current_region is None,
        ensures
            final(self).wf(),
            final(self).cs == old(self).cs,
            final(self).model() == (ProverModel {
                current_region: Some(RegionModel {
                    name: name,
                    start: None,
                    selectors: Seq::empty(),
                    cells: Seq::empty(),
                }),
                ..old(self).model()
            }),
    {
        self.current_region = Some(Region {
            name,
            start: None,
            enabled_selectors: Vec::new(),
            cells: Vec::new(),
        });
        proof {
            assert(self.model() =~~= (ProverModel {
                current_region: Some(RegionModel {
                    name: self.current_region->0.name,
                    start: None,
                    selectors: Seq::empty(),
                    cells: Seq::empty(),
                }),
                ..old(self).model()
            }));
        }
    }

    /// Close the open region and append it to the finished-regions list.
    /// Closing while none is open is a contract violation, excluded by the
    /// precondition.
    pub fn exit_region(&mut self)
        requires
            old(self).wf(),
            old(self).current_region is Some,
        ensures
            final(self).wf(),
            final(self).cs == old(self).cs,
            final(self).model() == (ProverModel {
                regions: old(self).model().regions.push(old(self).model().current_region->0),
                current_region: None,
                ..old(self).model()
            }),
    {
        let taken: Option<Region> = self.current_region.take();
        match taken {
            Some(r) => self.regions.push(r),
            None => {},
        }
        proof {
            assert(self.model() =~~= (ProverModel {
                regions: old(self).model().regions.push(old(self).model().current_region->0),
                current_region: None,
                ..old(self).model()
            }));
        }
    }
}

/// Whether `c` is a member of a permutation's declared column set.
pub open spec fn has_column(cols: Seq<Column>, c: Column) -> bool {
    exists|i: int| 0 <= i < cols.len() && cols[i] == c
}

/// The position of `c` within a permutation's declared column set (unique,
/// since a well-formed permutation lists each column once).
pub open spec fn column_slot(cols: Seq<Column>, c: Column) -> int {
    choose|i: int| 0 <= i < cols.len() && cols[i] == c
}

/// The state after an advice assignment of `v` at `(column, row)`: the grid
/// cell is written, and the open region, if any, records the cell.
pub open spec fn model_assign_advice(
    m: ProverModel,
    column: usize,
    row: usize,
    v: Fp,
) -> ProverModel {
    ProverModel {
        current_region: match m.current_region {
            Some(r) => Some(
                region_with_cell(r, Column { index: column, column_type: Any::Advice }, row)),
            None => None,
        },
        advice: m.advice.update(
            column as int, m.advice[column as int].update(row as int, Some(v))),
        ..m
    }
}

/// The state after a fixed assignment of `v` at `(column, row)`.
pub open spec fn model_assign_fixed(
    m: ProverModel,
    column: usize,
    row: usize,
    v: Fp,
) -> ProverModel {
    ProverModel {
        current_region: match m.current_region {
            Some(r) => Some(
                region_with_cell(r, Column { index: column, column_type: Any::Fixed }, row)),
            None => None,
        },
        fixed: m.fixed.update(
            column as int, m.fixed[column as int].update(row as int, Some(v))),
        ..m
    }
}

/// The state after enabling `s` at `row`: the open region records the row
/// under the selector and the write of the multiplicative identity into the
/// selector's backing fixed cell.
pub open spec fn model_enable_selector(m: ProverModel, s: Selector, row: usize) -> ProverModel {
    ProverModel {
        current_region: Some(
            region_with_cell(
                region_with_selector(m.current_region->0, s, row),
                Column { index: s.0, column_type: Any::Fixed },
                row,
            )),
        fixed: m.fixed.update(
            s.0 as int, m.fixed[s.0 as int].update(row as int, Some(Fp { repr: 1 }))),
        ..m
    }
}

/// A permutation mapping after a copy exchanged the images of the left and
/// right slots (the right slot's new image wins if both name the same slot).
pub open spec fn swap_image(
    pm: Seq<Seq<(usize, usize)>>,
    lc: int,
    lr: int,
    rc: int,
    rr: int,
) -> Seq<Seq<(usize, usize)>> {
    Seq::new(
        pm.len(),
        |c: int| Seq::new(
            pm[c].len(),
            |r: int| if c == rc && r == rr {
                pm[lc][lr]
            } else if c == lc && r == lr {
                pm[rc][rr]
            } else {
                pm[c][r]
            },
        ),
    )
}

/// The state after a copy constraint linked two slots of permutation `perm`.
pub open spec fn model_copy(
    m: ProverModel,
    perm: int,
    lc: int,
    lr: int,
    rc: int,
    rr: int,
) -> ProverModel {
    ProverModel {
        permutations: m.permutations.update(
            perm, swap_image(m.permutations[perm], lc, lr, rc, rr)),
        ..m
    }
}

/// The first entry of a region's selector list that is for `s`, if any.
fn find_selector_entry(entries: &Vec<(Selector, Vec<usize>)>, s: Selector) -> (r: Option<usize>)
    ensures
        match r {
            Some(k) => k < entries@.len() && entries@[k as int].0 == s
                && forall|j: int| 0 <= j < k ==> (#[trigger] entries@[j]).0 != s,
            None => forall|j: int| 0 <= j < entries@.len() ==> (#[trigger] entries@[j]).0 != s,
        },
{
    let mut i: usize = 0;
    while i < entries.len()
        invariant
            i <= entries@.len(),
            forall|j: int| 0 <= j < i ==> (#[trigger] entries@[j]).0 != s,
        decreases entries@.len() - i,
    {
        if entries[i].0 == s {
            return Some(i);
        }
        i += 1;
    }
    None
}

/// The position of `c` in a declared column set, if it is a member.
fn find_column(cols: &Vec<Column>, c: Column) -> (r: Option<usize>)
    ensures
        match r {
            Some(k) => k < cols@.len() && cols@[k as int] == c
                && forall|j: int| 0 <= j < k ==> cols@[j] != c,
            None => forall|j: int| 0 <= j < cols@.len() ==> cols@[j] != c,
        },
{
    let mut i: usize = 0;
    while i < cols.len()
        invariant
            i <= cols@.len(),
            forall|j: int| 0 <= j < i ==> cols@[j] != c,
        decreases cols@.len() - i,
    {
        if cols[i] == c {
            return Some(i);
        }
        i += 1;
    }
    None
}

impl MockProver {
    /// Assign an advice cell.  `to` is the produced witness value; `None`
    /// stands for a value that was never supplied and aborts synthesis.  On
    /// any failure the state is left untouched.
    pub fn assign_advice(&mut self, column: usize, row: usize, to: Option<Fp>) -> (r: Result<
        (),
        Error,
    >)
        requires
            old(self).wf(),
        ensures
            final(self).wf(),
            final(self).cs == old(self).cs,
            !(column < old(self).cs.num_advice_columns && row < old(self).n) ==> {
                &&& r == Err::<(), Error>(Error::BoundsFailure)
                &&& *final(self) == *old(self)
            },
            (column < old(self).cs.num_advice_columns && row < old(self).n && to is None) ==> {
                &&& r == Err::<(), Error>(Error::SynthesisError)
                &&& *final(self) == *old(self)
            },
            (column < old(self).cs.num_advice_columns && row < old(self).n && to is Some) ==> {
                &&& r == Ok::<(), Error>(())
                &&& final(self).model() == model_assign_advice(
                    old(self).model(), column, row, to->0)
            },
    {
        if column >= self.advice.len() || row >= self.n {
            return Err(Error::BoundsFailure);
        }
        let v = match to {
            Some(v) => v,
            None => {
                return Err(Error::SynthesisError);
            },
        };
        let taken: Option<Region> = self.current_region.take();
        match taken {
            Some(mut region) => {
                region.update_start(row);
                region.cells.push((Column { index: column, column_type: Any::Advice }, row));
                self.current_region = Some(region);
            },
            None => {},
        }
        self.advice[column][row] = Some(v);
        proof {
            assert(self.model() =~~= model_assign_advice(old(self).model(), column, row, v));
        }
        Ok(())
    }

    /// Assign a fixed cell.  `to` is the produced value; `None` stands for a
    /// value that could not be produced and aborts synthesis.  On any failure
    /// the state is left untouched.
    pub fn assign_fixed(&mut self, column: usize, row: usize, to: Option<Fp>) -> (r: Result<
        (),
        Error,
    >)
        requires
            old(self).wf(),
        ensures
            final(self).wf(),
            final(self).cs == old(self).cs,
            !(column < old(self).cs.num_fixed_columns && row < old(self).n) ==> {
                &&& r == Err::<(), Error>(Error::BoundsFailure)
                &&& *final(self) == *old(self)
            },
            (column < old(self).cs.num_fixed_columns && row < old(self).n && to is None) ==> {
                &&& r == Err::<(), Error>(Error::SynthesisError)
                &&& *final(self) == *old(self)
            },
            (column < old(self).cs.num_fixed_columns && row < old(self).n && to is Some) ==> {
                &&& r == Ok::<(), Error>(())
                &&& final(self).model() == model_assign_fixed(
                    old(self).model(), column, row, to->0)
            },
    {
        if column >= self.fixed.len() || row >= self.n {
            return Err(Error::BoundsFailure);
        }
        let v = match to {
            Some(v) => v,
            None => {
                return Err(Error::SynthesisError);
            },
        };
        let taken: Option<Region> = self.current_region.take();
        match taken {
            Some(mut region) => {
                region.update_start(row);
                region.cells.push((Column { index: column, column_type: Any::Fixed }, row));
                self.current_region = Some(region);
            },
            None => {},
        }
        self.fixed[column][row] = Some(v);
        proof {
            assert(self.model() =~~= model_assign_fixed(old(self).model(), column, row, v));
        }
        Ok(())
    }

    /// Enable a selector at a row inside the open region: record the row
    /// under the selector and write the multiplicative identity into the
    /// selector's backing fixed column, under the same bounds rule as a fixed
    /// assignment.  Enabling outside a region is a contract violation,
    /// excluded by the precondition.
    pub fn enable_selector(&mut self, selector: Selector, row: usize) -> (r: Result<(), Error>)
        requires
            old(self).wf(),
            old(self).current_region is Some,
        ensures
            final(self).wf(),
            final(self).cs == old(self).cs,
            final(self).current_region is Some,
            !(selector.0 < old(self).cs.num_fixed_columns && row < old(self).n) ==> {
                &&& r == Err::<(), Error>(Error::BoundsFailure)
                &&& *final(self) == *old(self)
            },
            (selector.0 < old(self).cs.num_fixed_columns && row < old(self).n) ==> {
                &&& r == Ok::<(), Error>(())
                &&& final(self).model() == model_enable_selector(old(self).model(), selector, row)
            },
    {
        if selector.0 >= self.fixed.len() || row >= self.n {
            return Err(Error::BoundsFailure);
        }
        let _ = self.assign_fixed(selector.0, row, Some(Fp::one()));
        let ghost mid = *self;
        let taken: Option<Region> = self.current_region.take();
        match taken {
            Some(mut region) => {
                match find_selector_entry(&region.enabled_selectors, selector) {
                    Some(k) => {
                        proof {
                            assert(region.model().selectors[k as int].0 == selector);
                            assert(has_selector(region.model().selectors, selector));
                        }
                        region.enabled_selectors[k].1.push(row);
                        proof {
                            let sels = mid.current_region->0.model().selectors;
                            assert(forall|i: int, j: int| 0 <= i < j < sels.len()
                                ==> (#[trigger] sels[i]).0 != (#[trigger] sels[j]).0);
                            assert(selector_slot(sels, selector) == k as int);
                            assert(region.model() =~~= region_with_selector(
                                mid.current_region->0.model(), selector, row));
                        }
                    },
                    None => {
                        proof {
                            assert(!has_selector(region.model().selectors, selector));
                        }
                        let mut rows: Vec<usize> = Vec::new();
                        rows.push(row);
                        region.enabled_selectors.push((selector, rows));
                        proof {
                            assert(region.model() =~~= region_with_selector(
                                mid.current_region->0.model(), selector, row));
                        }
                    },
                }
                self.current_region = Some(region);
            },
            None => {},
        }
        proof {
            assert(self.model() =~~= model_enable_selector(old(self).model(), selector, row));
        }
        Ok(())
    }

    /// Record a copy constraint of permutation argument `permutation` linking
    /// `(left_column, left_row)` to `(right_column, right_row)`.  Fails with a
    /// bounds error if the permutation reference or either row is out of
    /// range, and with a synthesis error if either column is not a member of
    /// the permutation's declared column set; any failure leaves the state
    /// untouched.
    pub fn copy(
        &mut self,
        permutation: usize,
        left_column: Column,
        left_row: usize,
        right_column: Column,
        right_row: usize,
    ) -> (r: Result<(), Error>)
        requires
            old(self).wf(),
        ensures
            final(self).wf(),
            final(self).cs == old(self).cs,
            ({
                let cols = old(self).cs.permutations@[permutation as int].columns@;
                if permutation >= old(self).cs.permutations@.len() {
                    r == Err::<(), Error>(Error::BoundsFailure) && *final(self) == *old(self)
                } else if !has_column(cols, left_column) || !has_column(cols, right_column) {
                    r == Err::<(), Error>(Error::SynthesisError) && *final(self) == *old(self)
                } else if left_row >= old(self).n || right_row >= old(self).n {
                    r == Err::<(), Error>(Error::BoundsFailure) && *final(self) == *old(self)
                } else {
                    r == Ok::<(), Error>(()) && final(self).model() == model_copy(
                        old(self).model(),
                        permutation as int,
                        column_slot(cols, left_column),
                        left_row as int,
                        column_slot(cols, right_column),
                        right_row as int,
                    )
                }
            }),
    {
        if permutation >= self.permutations.len() {
            return Err(Error::BoundsFailure);
        }
        let lci = match find_column(&self.cs.permutations[permutation].columns, left_column) {
            Some(k) => k,
            None => {
                return Err(Error::SynthesisError);
            },
        };
        let rci = match find_column(&self.cs.permutations[permutation].columns, right_column) {
            Some(k) => k,
            None => {
                return Err(Error::SynthesisError);
            },
        };
        proof {
            let cols = self.cs.permutations@[permutation as int].columns@;
            assert(column_slot(cols, left_column) == lci as int);
            assert(column_slot(cols, right_column) == rci as int);
        }
        if left_row >= self.n || right_row >= self.n {
            return Err(Error::BoundsFailure);
        }
        let _ = self.permutations[permutation].copy(lci, left_row, rci, right_row);
        proof {
            assert(self.model() =~~= model_copy(
                old(self).model(),
                permutation as int,
                lci as int,
                left_row as int,
                rci as int,
                right_row as int,
            ));
        }
        Ok(())
    }

    /// Enter a namespace: a purely organizational label, with no effect on
    /// the recorded state or on verification.
    pub fn push_namespace(&mut self, _name: String)
        ensures
            *final(self) == *old(self),
    {
    }

    /// Leave a namespace: a purely organizational label, with no effect on
    /// the recorded state or on verification.
    pub fn pop_namespace(&mut self, _name: Option<String>)
        ensures
            *final(self) == *old(self),
    {
    }
}

/// The instance columns as mathematical sequences.
pub open spec fn instance_view(instance: Vec<Vec<Fp>>) -> Seq<Seq<Fp>> {
    instance@.map_values(|col: Vec<Fp>| col@)
}

/// An instance column extended to `n` rows with the additive identity.
pub open spec fn pad_column(col: Seq<Fp>, n: int) -> Seq<Fp> {
    Seq::new(n as nat, |i: int| if i < col.len() { col[i] } else { Fp { repr: 0 } })
}

/// The identity mapping of a permutation argument: every slot linked to
/// itself.
pub open spec fn identity_map(cols: int, n: int) -> Seq<Seq<(usize, usize)>> {
    Seq::new(cols as nat, |c: int| Seq::new(n as nat, |r: int| (c as usize, r as usize)))
}

/// The recorder state before any synthesis step: sized empty grids, the
/// instance columns padded to `n` rows with the additive identity, no
/// regions, and one identity assembly per permutation argument.
pub open spec fn init_model(cs: ConstraintSystem, n: int, instance: Seq<Seq<Fp>>) -> ProverModel {
    ProverModel {
        n: n as nat,
        regions: Seq::empty(),
        current_region: None,
        fixed: Seq::new(
            cs.num_fixed_columns as nat,
            |c: int| Seq::new(n as nat, |r: int| None::<Fp>)),
        advice: Seq::new(
            cs.num_advice_columns as nat,
            |c: int| Seq::new(n as nat, |r: int| None::<Fp>)),
        instance: Seq::new(instance.len(), |c: int| pad_column(instance[c], n)),
        permutations: Seq::new(
            cs.permutations@.len(),
            |p: int| identity_map(cs.permutations@[p].columns@.len() as int, n)),
    }
}

/// The state after one synthesis step, or the synthesis failure it stops
/// with.  Whether a step succeeds depends only on the constraint system, the
/// circuit size and the step itself.
pub open spec fn step_result(
    cs: ConstraintSystem,
    n: int,
    m: ProverModel,
    s: SynthStep,
) -> Result<ProverModel, Error> {
    match s {
        SynthStep::EnterRegion { name } => Ok(
            ProverModel {
                current_region: Some(
                    RegionModel {
                        name: name,
                        start: None,
                        selectors: Seq::empty(),
                        cells: Seq::empty(),
                    }),
                ..m
            }),
        SynthStep::ExitRegion => Ok(
            ProverModel { regions: m.regions.push(m.current_region->0), current_region: None, ..m }),
        SynthStep::EnableSelector { selector, row } => if !(selector.0 < cs.num_fixed_columns
            && (row as int) < n) {
            Err(Error::BoundsFailure)
        } else {
            Ok(model_enable_selector(m, selector, row))
        },
        SynthStep::AssignAdvice { column, row, to } => if !(column < cs.num_advice_columns && (row
            as int) < n) {
            Err(Error::BoundsFailure)
        } else {
            match to {
                Some(v) => Ok(model_assign_advice(m, column, row, v)),
                None => Err(Error::SynthesisError),
            }
        },
        SynthStep::AssignFixed { column, row, to } => if !(column < cs.num_fixed_columns && (row
            as int) < n) {
            Err(Error::BoundsFailure)
        } else {
            match to {
                Some(v) => Ok(model_assign_fixed(m, column, row, v)),
                None => Err(Error::SynthesisError),
            }
        },
        SynthStep::Copy { permutation, left_column, left_row, right_column, right_row } => {
            let cols = cs.permutations@[permutation as int].columns@;
            if permutation >= cs.permutations@.len() {
                Err(Error::BoundsFailure)
            } else if !has_column(cols, left_column) || !has_column(cols, right_column) {
                Err(Error::SynthesisError)
            } else if (left_row as int) >= n || (right_row as int) >= n {
                Err(Error::BoundsFailure)
            } else {
                Ok(model_copy(
                    m,
                    permutation as int,
                    column_slot(cols, left_column),
                    left_row as int,
                    column_slot(cols, right_column),
                    right_row as int,
                ))
            }
        },
        SynthStep::PushNamespace { .. } => Ok(m),
        SynthStep::PopNamespace => Ok(m),
    }
}

/// The whole construction, mathematically: the initial state for `2^k` rows
/// and the given instance columns, folded through the synthesis script.
pub open spec fn run_spec(k: u32, circuit: Circuit, instance: Vec<Vec<Fp>>) -> Result<
    ProverModel,
    Error,
> {
    let n = (1u32 << k) as int;
    run_steps(
        circuit.cs,
        n,
        init_model(circuit.cs, n, instance_view(instance)),
        circuit.steps@,
        0,
    )
}

/// The state after running the script from step `i` on, or the first
/// synthesis failure it stops with.
pub open spec fn run_steps(
    cs: ConstraintSystem,
    n: int,
    m: ProverModel,
    steps: Seq<SynthStep>,
    i: int,
) -> Result<ProverModel, Error>
    decreases steps.len() - i,
{
    if i < 0 || i >= steps.len() {
        Ok(m)
    } else {
        match step_result(cs, n, m, steps[i]) {
            Ok(m2) => run_steps(cs, n, m2, steps, i + 1),
            Err(e) => Err(e),
        }
    }
}

/// A grid of `cols` columns of `n` unassigned cells.
fn empty_grid(cols: usize, n: usize) -> (g: Vec<Vec<Option<Fp>>>)
    ensures
        g@.len() == cols,
        forall|c: int| 0 <= c < cols ==> (#[trigger] g@[c])@.len() == n,
        forall|c: int, r: int| 0 <= c < cols && 0 <= r < n ==> (#[trigger] g@[c]@[r]) is None,
{
    let mut g: Vec<Vec<Option<Fp>>> = Vec::new();
    let mut c: usize = 0;
    while c < cols
        invariant
            c <= cols,
            g@.len() == c,
            forall|i: int| 0 <= i < c ==> (#[trigger] g@[i])@.len() == n,
            forall|i: int, r: int| 0 <= i < c && 0 <= r < n ==> (#[trigger] g@[i]@[r]) is None,
        decreases cols - c,
    {
        let mut col: Vec<Option<Fp>> = Vec::new();
        let mut r: usize = 0;
        while r < n
            invariant
                r <= n,
                col@.len() == r,
                forall|j: int| 0 <= j < r ==> (#[trigger] col@[j]) is None,
            decreases n - r,
        {
            col.push(None);
            r += 1;
        }
        g.push(col);
        c += 1;
    }
    g
}

impl MockProver {
    /// Build the sized recorder state for a circuit of `2^k` rows from the
    /// given instance columns, then run the circuit's synthesis script over
    /// it: either every step succeeds and the fully populated verifier state
    /// comes back, or the first failing step's error does and no state is
    /// kept.
    #[verifier::loop_isolation(false)]
    pub fn run(k: u32, circuit: Circuit, instance: Vec<Vec<Fp>>) -> (r: Result<MockProver, Error>)
        requires
            k < 32,
            circuit.cs.wf((1u32 << k) as int),
            instance@.len() == circuit.cs.num_instance_columns,
            forall|i: int| 0 <= i < instance@.len()
                ==> (#[trigger] instance@[i])@.len() <= (1u32 << k) as int,
            steps_region_wf(circuit.steps@),
        ensures
            match run_spec(k, circuit, instance) {
                Ok(m) => {
                    &&& r is Ok
                    &&& r->Ok_0.wf()
                    &&& r->Ok_0.cs == circuit.cs
                    &&& r->Ok_0.n as int == (1u32 << k) as int
                    &&& r->Ok_0.model() == m
                },
                Err(e) => r == Err::<MockProver, Error>(e),
            },
    {
        let ghost goal = run_spec(k, circuit, instance);
        let ghost cs0 = circuit.cs;
        let ghost instance0 = instance_view(instance);
        let ghost steps0 = circuit.steps@;
        proof {
            assert(1u32 << k >= 1 && 1u32 << k <= 0x8000_0000u32) by (bit_vector)
                requires
                    k < 32,
            ;
            assert(goal == run_steps(
                cs0,
                (1u32 << k) as int,
                init_model(cs0, (1u32 << k) as int, instance0),
                steps0,
                0,
            ));
        }
        let n: usize = (1u32 << k) as usize;
        proof {
            assert(n as int == (1u32 << k) as int);
        }

        let fixed = empty_grid(circuit.cs.num_fixed_columns, n);
        let advice = empty_grid(circuit.cs.num_advice_columns, n);

        let mut instance = instance;
        let mut c: usize = 0;
        while c < instance.len()
            invariant
                c <= instance@.len(),
                instance@.len() == instance0.len(),
                forall|i: int| 0 <= i < c
                    ==> (#[trigger] instance@[i])@ == pad_column(instance0[i], n as int),
                forall|i: int| c <= i < instance@.len()
                    ==> (#[trigger] instance@[i])@ == instance0[i],
                forall|i: int| c <= i < instance@.len()
                    ==> (#[trigger] instance@[i])@.len() <= n,
            decreases instance@.len() - c,
        {
            while instance[c].len() < n
                invariant
                    c < instance@.len(),
                    instance@.len() == instance0.len(),
                    instance@[c as int]@.len() <= n,
                    forall|j: int| 0 <= j < instance0[c as int].len()
                        ==> instance@[c as int]@[j] == instance0[c as int][j],
                    instance@[c as int]@.len() >= instance0[c as int].len(),
                    forall|j: int| instance0[c as int].len() <= j < instance@[c as int]@.len()
                        ==> instance@[c as int]@[j] == (Fp { repr: 0 }),
                    forall|i: int| 0 <= i < c
                        ==> (#[trigger] instance@[i])@ == pad_column(instance0[i], n as int),
                    forall|i: int| c < i < instance@.len()
                        ==> (#[trigger] instance@[i])@ == instance0[i],
                    forall|i: int| c < i < instance@.len()
                        ==> (#[trigger] instance@[i])@.len() <= n,
                decreases n - instance@[c as int]@.len(),
            {
                instance[c].push(Fp::zero());
            }
            proof {
                assert(instance@[c as int]@ =~= pad_column(instance0[c as int], n as int));
            }
            c += 1;
        }

        let mut permutations: Vec<Assembly> = Vec::new();
        let mut p: usize = 0;
        while p < circuit.cs.permutations.len()
            invariant
                p <= circuit.cs.permutations@.len(),
                permutations@.len() == p,
                forall|q: int| 0 <= q < p ==> (#[trigger] permutations@[q]).wf(
                    cs0.permutations@[q].columns@.len() as int, n as int),
                forall|q: int| 0 <= q < p ==> (#[trigger] permutations@[q]).view_map()
                    == identity_map(cs0.permutations@[q].columns@.len() as int, n as int),
                cs0 == circuit.cs,
            decreases circuit.cs.permutations@.len() - p,
        {
            let a = Assembly::new(n, circuit.cs.permutations[p].columns.len());
            proof {
                assert(a.view_map() =~~= identity_map(
                    cs0.permutations@[p as int].columns@.len() as int, n as int));
            }
            permutations.push(a);
            p += 1;
        }

        let mut prover = MockProver {
            n,
            cs: circuit.cs,
            regions: Vec::new(),
            current_region: None,
            fixed,
            advice,
            instance,
            permutations,
        };
        let ghost init = init_model(cs0, n as int, instance0);
        proof {
            assert(prover.model() =~~= init);
            assert(goal == run_steps(cs0, n as int, init, steps0, 0));
        }

        let steps = circuit.steps;
        proof {
            assert(steps@ == steps0);
        }
        let mut i: usize = 0;
        while i < steps.len()
            invariant
                i <= steps@.len(),
                steps@ == steps0,
                goal == run_steps(cs0, n as int, init, steps0, 0),
                prover.wf(),
                prover.cs == cs0,
                prover.n == n,
                1 <= n <= 0x8000_0000usize,
                steps_region_wf_from(steps@, i as int, prover.current_region is Some),
                run_steps(cs0, n as int, init, steps@, 0)
                    == run_steps(cs0, n as int, prover.model(), steps@, i as int),
            decreases steps@.len() - i,
        {
            let ghost pre = prover.model();
            match &steps[i] {
                SynthStep::EnterRegion { name } => {
                    prover.enter_region(name.clone());
                },
                SynthStep::ExitRegion => {
                    prover.exit_region();
                },
                SynthStep::EnableSelector { selector, row } => {
                    match prover.enable_selector(*selector, *row) {
                        Ok(()) => {},
                        Err(e) => {
                            proof {
                                assert(step_result(cs0, n as int, pre, steps@[i as int])
                                    == Err::<ProverModel, Error>(e));
                                assert(run_steps(cs0, n as int, pre, steps@, i as int)
                                    == Err::<ProverModel, Error>(e));
                            }
                            return Err(e);
                        },
                    }
                },
                SynthStep::AssignAdvice { column, row, to } => {
                    match prover.assign_advice(*column, *row, *to) {
                        Ok(()) => {},
                        Err(e) => {
                            proof {
                                assert(step_result(cs0, n as int, pre, steps@[i as int])
                                    == Err::<ProverModel, Error>(e));
                                assert(run_steps(cs0, n as int, pre, steps@, i as int)
                                    == Err::<ProverModel, Error>(e));
                            }
                            return Err(e);
                        },
                    }
                },
                SynthStep::AssignFixed { column, row, to } => {
                    match prover.assign_fixed(*column, *row, *to) {
                        Ok(()) => {},
                        Err(e) => {
                            proof {
                                assert(step_result(cs0, n as int, pre, steps@[i as int])
                                    == Err::<ProverModel, Error>(e));
                                assert(run_steps(cs0, n as int, pre, steps@, i as int)
                                    == Err::<ProverModel, Error>(e));
                            }
                            return Err(e);
                        },
                    }
                },
                SynthStep::Copy { permutation, left_column, left_row, right_column, right_row } => {
                    match prover.copy(
                        *permutation, *left_column, *left_row, *right_column, *right_row) {
                        Ok(()) => {},
                        Err(e) => {
                            proof {
                                assert(step_result(cs0, n as int, pre, steps@[i as int])
                                    == Err::<ProverModel, Error>(e));
                                assert(run_steps(cs0, n as int, pre, steps@, i as int)
                                    == Err::<ProverModel, Error>(e));
                            }
                            return Err(e);
                        },
                    }
                },
                SynthStep::PushNamespace { name } => {
                    prover.push_namespace(name.clone());
                },
                SynthStep::PopNamespace => {
                    prover.pop_namespace(None);
                },
            }
            proof {
                assert(step_result(cs0, n as int, pre, steps@[i as int])
                    == Ok::<ProverModel, Error>(prover.model()));
            }
            i += 1;
        }
        Ok(prover)
    }
}

} // verus!
