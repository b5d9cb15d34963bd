//! The verification engine.
//!
//! Four independent checks run over the finished recorder state: cell
//! completeness, gate satisfaction, lookup inclusion, and permutation
//! preservation.  No check short-circuits; the aggregated report is the
//! concatenation of the four failure lists in that fixed order, and the
//! specification functions below pin every entry of each list.

use vstd::arithmetic::div_mod::lemma_mod_multiples_vanish;
use vstd::prelude::*;

use crate::circuit::{Any, Column, Expression, Selector};
use crate::field::{field_add, field_mul, Fp};
use crate::prover::{MockProver, Region};

verus! {

/// The reasons why a particular circuit is not satisfied.
#[derive(Debug, PartialEq)]
pub enum VerifyFailure {
    /// A cell used in an active gate was not assigned to.
    Cell {
        /// The index of the region in which this cell should be assigned,
        /// in region-closing order.
        region_index: usize,
        /// The name of the region in which this cell should be assigned.
        region_name: String,
        /// The column in which this cell should be assigned.
        column: Column,
        /// The offset (relative to the start of the region) at which this
        /// cell should be assigned.  This may be negative, for example when a
        /// selector enables a gate at the region's first row while that
        /// gate queries a previous rotation.
        offset: isize,
        /// The index of the active gate, in configuration order.
        gate_index: usize,
        /// The name of the active gate.
        gate_name: String,
    },
    /// A constraint was not satisfied for a particular row.
    Constraint {
        /// The index of the containing gate.
        gate_index: usize,
        /// The name of the containing gate.
        gate_name: String,
        /// The index of the polynomial constraint within its gate.
        constraint_index: usize,
        /// The name of the unsatisfied constraint.
        constraint_name: String,
        /// The row on which this constraint is not satisfied.
        row: usize,
    },
    /// A lookup input did not exist in its corresponding table.
    Lookup {
        /// The index of the lookup that is not satisfied.
        lookup_index: usize,
        /// The row on which this lookup is not satisfied.
        row: usize,
    },
    /// A permutation did not preserve the original value of a cell.
    Permutation {
        /// The index of the permutation that is not satisfied.
        perm_index: usize,
        /// The column slot in which this permutation is not satisfied.
        column: usize,
        /// The row on which this permutation is not satisfied.
        row: usize,
    },
}

/// A rotation applied to a row, with wraparound modulo the circuit size:
/// the result is always in `[0, n)`.
pub open spec fn wrap_row(row: int, rot: int, n: int) -> int {
    (row + rot) % n
}

/// The value a fixed or advice cell reads as: cells that were never assigned
/// default to the additive identity.
pub open spec fn cell_val(c: Option<Fp>) -> int {
    match c {
        Some(f) => f@,
        None => 0,
    }
}

/// Cells that were never explicitly assigned default to the additive
/// identity.
fn cell_value(c: Option<Fp>) -> (r: Fp)
    ensures
        r@ == cell_val(c),
{
    match c {
        Some(f) => f,
        None => Fp::zero(),
    }
}

/// `wrap_row`, executably: the sum is shifted by one full circuit size so it
/// stays non-negative under a negative rotation.
fn wrap_row_exec(row: usize, rot: i32, n: usize) -> (r: usize)
    requires
        1 <= n <= 0x8000_0000usize,
        row < n,
        (-(n as int)) < (rot as int) && (rot as int) < n as int,
    ensures
        r < n,
        r as int == wrap_row(row as int, rot as int, n as int),
{
    let base: i64 = row as i64 + n as i64 + rot as i64;
    let m: i64 = base % (n as i64);
    proof {
        assert(base as int == (n as int) * 1 + (row as int + rot as int));
        lemma_mod_multiples_vanish(1, row as int + rot as int, n as int);
    }
    m as usize
}

/// Whether `(column, row)` is among the cells assigned inside a region.
pub open spec fn region_has_cell(region: Region, column: Column, row: int) -> bool {
    exists|i: int| 0 <= i < region.cells@.len()
        && (#[trigger] region.cells@[i]).0 == column
        && region.cells@[i].1 as int == row
}

/// Whether `(column, row)` is among `cells`.
fn has_cell(cells: &Vec<(Column, usize)>, column: Column, row: usize) -> (r: bool)
    ensures
        r == exists|i: int| 0 <= i < cells@.len()
            && (#[trigger] cells@[i]).0 == column
            && cells@[i].1 == row,
{
    let mut i: usize = 0;
    while i < cells.len()
        invariant
            i <= cells@.len(),
            forall|j: int| 0 <= j < i
                ==> !((#[trigger] cells@[j]).0 == column && cells@[j].1 == row),
        decreases cells@.len() - i,
    {
        if cells[i].0 == column && cells[i].1 == row {
            return true;
        }
        i += 1;
    }
    false
}

/// Whether `s` is among `sels`.
fn has_selector_in(sels: &Vec<Selector>, s: Selector) -> (r: bool)
    ensures
        r == exists|i: int| 0 <= i < sels@.len() && (#[trigger] sels@[i]) == s,
{
    let mut i: usize = 0;
    while i < sels.len()
        invariant
            i <= sels@.len(),
            forall|j: int| 0 <= j < i ==> (#[trigger] sels@[j]) != s,
        decreases sels@.len() - i,
    {
        if sels[i] == s {
            return true;
        }
        i += 1;
    }
    false
}

impl MockProver {
    /// The value of the fixed query `q` evaluated at `row`.
    pub open spec fn fixed_query_val(self, q: int, row: int) -> int {
        cell_val(
            self.fixed@[self.cs.fixed_queries@[q].0 as int]@[wrap_row(
                row, self.cs.fixed_queries@[q].1.0 as int, self.n as int)])
    }

    /// The value of the advice query `q` evaluated at `row`.
    pub open spec fn advice_query_val(self, q: int, row: int) -> int {
        cell_val(
            self.advice@[self.cs.advice_queries@[q].0 as int]@[wrap_row(
                row, self.cs.advice_queries@[q].1.0 as int, self.n as int)])
    }

    /// The value of the instance query `q` evaluated at `row`; instance cells
    /// are always defined.
    pub open spec fn instance_query_val(self, q: int, row: int) -> int {
        self.instance@[self.cs.instance_queries@[q].0 as int]@[wrap_row(
            row, self.cs.instance_queries@[q].1.0 as int, self.n as int)]@
    }

    /// The evaluation of an expression at a row: a fold over the tree with
    /// query leaves read from the grids (fixed and advice defaulting to the
    /// additive identity), combined by exact field arithmetic, every row
    /// index wrapping modulo the circuit size.
    pub open spec fn eval(self, e: Expression, row: int) -> int
        decreases e,
    {
        match e {
            Expression::Constant(f) => f@,
            Expression::Fixed(q) => self.fixed_query_val(q as int, row),
            Expression::Advice(q) => self.advice_query_val(q as int, row),
            Expression::Instance(q) => self.instance_query_val(q as int, row),
            Expression::Sum(a, b) => field_add(self.eval(*a, row), self.eval(*b, row)),
            Expression::Product(a, b) => field_mul(self.eval(*a, row), self.eval(*b, row)),
            Expression::Scaled(a, f) => field_mul(self.eval(*a, row), f@),
        }
    }

    /// Evaluate an expression at a row.
    fn eval_expr(&self, e: &Expression, row: usize) -> (r: Fp)
        requires
            self.wf(),
            e.wf(self.cs),
            row < self.n,
        ensures
            r@ == self.eval(*e, row as int),
        decreases *e,
    {
        match e {
            Expression::Constant(f) => *f,
            Expression::Fixed(q) => {
                let (col, rot) = self.cs.fixed_queries[*q];
                let rr = wrap_row_exec(row, rot.0, self.n);
                cell_value(self.fixed[col][rr])
            },
            Expression::Advice(q) => {
                let (col, rot) = self.cs.advice_queries[*q];
                let rr = wrap_row_exec(row, rot.0, self.n);
                cell_value(self.advice[col][rr])
            },
            Expression::Instance(q) => {
                let (col, rot) = self.cs.instance_queries[*q];
                let rr = wrap_row_exec(row, rot.0, self.n);
                self.instance[col][rr]
            },
            Expression::Sum(a, b) => self.eval_expr(a, row).add(self.eval_expr(b, row)),
            Expression::Product(a, b) => self.eval_expr(a, row).mul(self.eval_expr(b, row)),
            Expression::Scaled(a, f) => self.eval_expr(a, row).mul(*f),
        }
    }

    /// Gate-satisfaction failure for constraint `c` of gate `g` at `row`.
    pub open spec fn constraint_failure(self, g: int, c: int, row: int) -> VerifyFailure {
        VerifyFailure::Constraint {
            gate_index: g as usize,
            gate_name: self.cs.gates@[g].name,
            constraint_index: c as usize,
            constraint_name: self.cs.gates@[g].constraints@[c].name,
            row: row as usize,
        }
    }

    /// Gate-satisfaction failures of the first `c` constraints of gate
    /// `g` at `row`: one for each constraint that does not evaluate to the
    /// additive identity.
    pub open spec fn gate_failures_polys(self, g: int, row: int, c: int) -> Seq<VerifyFailure>
        decreases c,
    {
        if c <= 0 {
            Seq::empty()
        } else {
            self.gate_failures_polys(g, row, c - 1) + (
                if self.eval(self.cs.gates@[g].constraints@[c - 1].poly, row) != 0 {
                    seq![self.constraint_failure(g, c - 1, row)]
                } else {
                    Seq::empty()
                })
        }
    }

    /// Gate-satisfaction failures of gate `g` over the first `row` rows.
    pub open spec fn gate_failures_rows(self, g: int, row: int) -> Seq<VerifyFailure>
        decreases row,
    {
        if row <= 0 {
            Seq::empty()
        } else {
            self.gate_failures_rows(g, row - 1) + self.gate_failures_polys(
                g, row - 1, self.cs.gates@[g].constraints@.len() as int)
        }
    }

    /// Gate-satisfaction failures of the first `g` gates over all rows.
    pub open spec fn gate_failures_gates(self, g: int) -> Seq<VerifyFailure>
        decreases g,
    {
        if g <= 0 {
            Seq::empty()
        } else {
            self.gate_failures_gates(g - 1) + self.gate_failures_rows(g - 1, self.n as int)
        }
    }

    /// Gate satisfaction, whole: for every gate, for every row, every
    /// constraint must evaluate to the additive identity.
    pub open spec fn gate_failures(self) -> Seq<VerifyFailure> {
        self.gate_failures_gates(self.cs.gates@.len() as int)
    }

    /// Check that all gates are satisfied on all rows.
    #[verifier::loop_isolation(false)]
    fn check_gates(&self) -> (errs: Vec<VerifyFailure>)
        requires
            self.wf(),
        ensures
            errs@ == self.gate_failures(),
    {
        let mut errs: Vec<VerifyFailure> = Vec::new();
        let mut g: usize = 0;
        while g < self.cs.gates.len()
            invariant
                g <= self.cs.gates@.len(),
                errs@ == self.gate_failures_gates(g as int),
            decreases self.cs.gates@.len() - g,
        {
            let gate = &self.cs.gates[g];
            let mut row: usize = 0;
            while row < self.n
                invariant
                    g < self.cs.gates@.len(),
                    row <= self.n,
                    errs@ == self.gate_failures_gates(g as int) + self.gate_failures_rows(
                        g as int, row as int),
                decreases self.n - row,
            {
                let mut c: usize = 0;
                while c < gate.constraints.len()
                    invariant
                        g < self.cs.gates@.len(),
                        row < self.n,
                        c <= gate.constraints@.len(),
                        errs@ == self.gate_failures_gates(g as int) + self.gate_failures_rows(
                            g as int, row as int) + self.gate_failures_polys(
                            g as int, row as int, c as int),
                    decreases gate.constraints@.len() - c,
                {
                    let v = self.eval_expr(&gate.constraints[c].poly, row);
                    if !v.eq_val(Fp::zero()) {
                        errs.push(VerifyFailure::Constraint {
                            gate_index: g,
                            gate_name: gate.name.clone(),
                            constraint_index: c,
                            constraint_name: gate.constraints[c].name.clone(),
                            row,
                        });
                        proof {
                            assert(errs@ =~= self.gate_failures_gates(g as int)
                                + self.gate_failures_rows(g as int, row as int)
                                + self.gate_failures_polys(g as int, row as int, c + 1));
                        }
                    } else {
                        proof {
                            assert(errs@ =~= self.gate_failures_gates(g as int)
                                + self.gate_failures_rows(g as int, row as int)
                                + self.gate_failures_polys(g as int, row as int, c + 1));
                        }
                    }
                    c += 1;
                }
                proof {
                    assert(errs@ =~= self.gate_failures_gates(g as int)
                        + self.gate_failures_rows(g as int, row + 1));
                }
                row += 1;
            }
            proof {
                assert(errs@ =~= self.gate_failures_gates(g + 1));
            }
            g += 1;
        }
        errs
    }

    /// The completeness failure for cell `c` of gate `g`, activated from
    /// region `r_i` at selector row `sel_row`.  The offset is relative to the
    /// region's start and may be negative when a rotation reaches before the
    /// region's first touched row.
    pub open spec fn cell_failure(self, r_i: int, g: int, sel_row: int, c: int) -> VerifyFailure {
        let region = self.regions@[r_i];
        let gate = self.cs.gates@[g];
        let cell = gate.queried_cells@[c];
        let cell_row = wrap_row(sel_row, cell.rotation.0 as int, self.n as int);
        VerifyFailure::Cell {
            region_index: r_i as usize,
            region_name: region.name,
            column: cell.column,
            offset: (cell_row - region.start->0) as isize,
            gate_index: g as usize,
            gate_name: gate.name,
        }
    }

    /// The completeness failures among the first `c` queried cells of gate
    /// `g` at selector row `sel_row` of region `r_i`: one for every queried
    /// cell whose rotated row was not assigned inside the region.
    pub open spec fn completeness_failures_cells(
        self,
        r_i: int,
        g: int,
        sel_row: int,
        c: int,
    ) -> Seq<VerifyFailure>
        decreases c,
    {
        if c <= 0 {
            Seq::empty()
        } else {
            let cell = self.cs.gates@[g].queried_cells@[c - 1];
            let cell_row = wrap_row(sel_row, cell.rotation.0 as int, self.n as int);
            self.completeness_failures_cells(r_i, g, sel_row, c - 1) + (
                if !region_has_cell(self.regions@[r_i], cell.column, cell_row) {
                    seq![self.cell_failure(r_i, g, sel_row, c - 1)]
                } else {
                    Seq::empty()
                })
        }
    }

    /// The completeness failures of gate `g` over the first `t` recorded rows
    /// of selector entry `j` of region `r_i`.
    pub open spec fn completeness_failures_rows(
        self,
        r_i: int,
        j: int,
        g: int,
        t: int,
    ) -> Seq<VerifyFailure>
        decreases t,
    {
        if t <= 0 {
            Seq::empty()
        } else {
            self.completeness_failures_rows(r_i, j, g, t - 1) + self.completeness_failures_cells(
                r_i,
                g,
                self.regions@[r_i].enabled_selectors@[j].1@[t - 1] as int,
                self.cs.gates@[g].queried_cells@.len() as int,
            )
        }
    }

    /// The completeness failures of the first `g` gates for selector entry
    /// `j` of region `r_i`: only gates whose queried-selector set contains
    /// the enabled selector take part.
    pub open spec fn completeness_failures_gates(
        self,
        r_i: int,
        j: int,
        g: int,
    ) -> Seq<VerifyFailure>
        decreases g,
    {
        if g <= 0 {
            Seq::empty()
        } else {
            self.completeness_failures_gates(r_i, j, g - 1) + (
                if self.cs.gates@[g - 1].queries_selector(
                    self.regions@[r_i].enabled_selectors@[j].0) {
                    self.completeness_failures_rows(
                        r_i, j, g - 1,
                        self.regions@[r_i].enabled_selectors@[j].1@.len() as int)
                } else {
                    Seq::empty()
                })
        }
    }

    /// The completeness failures of the first `j` selector entries of region
    /// `r_i`.
    pub open spec fn completeness_failures_sels(self, r_i: int, j: int) -> Seq<VerifyFailure>
        decreases j,
    {
        if j <= 0 {
            Seq::empty()
        } else {
            self.completeness_failures_sels(r_i, j - 1) + self.completeness_failures_gates(
                r_i, j - 1, self.cs.gates@.len() as int)
        }
    }

    /// The completeness failures of the first `r_i` regions.
    pub open spec fn completeness_failures_regions(self, r_i: int) -> Seq<VerifyFailure>
        decreases r_i,
    {
        if r_i <= 0 {
            Seq::empty()
        } else {
            self.completeness_failures_regions(r_i - 1) + self.completeness_failures_sels(
                r_i - 1,
                self.regions@[r_i - 1].enabled_selectors@.len() as int)
        }
    }

    /// Cell completeness, whole: within each region, every cell used by a
    /// gate that an enabled selector activates must have been assigned inside
    /// that region.
    pub open spec fn completeness_failures(self) -> Seq<VerifyFailure> {
        self.completeness_failures_regions(self.regions@.len() as int)
    }

    /// Check that within each region, all cells used in activated gates have
    /// been assigned to.
    #[verifier::loop_isolation(false)]
    fn check_completeness(&self) -> (errs: Vec<VerifyFailure>)
        requires
            self.wf(),
        ensures
            errs@ == self.completeness_failures(),
    {
        let mut errs: Vec<VerifyFailure> = Vec::new();
        let mut r_i: usize = 0;
        while r_i < self.regions.len()
            invariant
                r_i <= self.regions@.len(),
                errs@ == self.completeness_failures_regions(r_i as int),
            decreases self.regions@.len() - r_i,
        {
            let region = &self.regions[r_i];
            let mut j: usize = 0;
            while j < region.enabled_selectors.len()
                invariant
                    r_i < self.regions@.len(),
                    j <= region.enabled_selectors@.len(),
                    errs@ == self.completeness_failures_regions(r_i as int)
                        + self.completeness_failures_sels(r_i as int, j as int),
                decreases region.enabled_selectors@.len() - j,
            {
                let selector = region.enabled_selectors[j].0;
                let mut g: usize = 0;
                while g < self.cs.gates.len()
                    invariant
                        r_i < self.regions@.len(),
                        j < region.enabled_selectors@.len(),
                        g <= self.cs.gates@.len(),
                        errs@ == self.completeness_failures_regions(r_i as int)
                            + self.completeness_failures_sels(r_i as int, j as int)
                            + self.completeness_failures_gates(r_i as int, j as int, g as int),
                    decreases self.cs.gates@.len() - g,
                {
                    let gate = &self.cs.gates[g];
                    if has_selector_in(&gate.queried_selectors, selector) {
                        let mut t: usize = 0;
                        while t < region.enabled_selectors[j].1.len()
                            invariant
                                r_i < self.regions@.len(),
                                j < region.enabled_selectors@.len(),
                                g < self.cs.gates@.len(),
                                self.cs.gates@[g as int].queries_selector(
                                    self.regions@[r_i as int].enabled_selectors@[j as int].0),
                                t <= region.enabled_selectors@[j as int].1@.len(),
                                errs@ == self.completeness_failures_regions(r_i as int)
                                    + self.completeness_failures_sels(r_i as int, j as int)
                                    + self.completeness_failures_gates(
                                        r_i as int, j as int, g as int)
                                    + self.completeness_failures_rows(
                                        r_i as int, j as int, g as int, t as int),
                            decreases region.enabled_selectors@[j as int].1@.len() - t,
                        {
                            let sel_row = region.enabled_selectors[j].1[t];
                            let mut c: usize = 0;
                            while c < gate.queried_cells.len()
                                invariant
                                    r_i < self.regions@.len(),
                                    j < region.enabled_selectors@.len(),
                                    g < self.cs.gates@.len(),
                                    t < region.enabled_selectors@[j as int].1@.len(),
                                    sel_row
                                        == region.enabled_selectors@[j as int].1@[t as int],
                                    c <= self.cs.gates@[g as int].queried_cells@.len(),
                                    errs@ == self.completeness_failures_regions(r_i as int)
                                        + self.completeness_failures_sels(r_i as int, j as int)
                                        + self.completeness_failures_gates(
                                            r_i as int, j as int, g as int)
                                        + self.completeness_failures_rows(
                                            r_i as int, j as int, g as int, t as int)
                                        + self.completeness_failures_cells(
                                            r_i as int, g as int, sel_row as int, c as int),
                                decreases self.cs.gates@[g as int].queried_cells@.len() - c,
                            {
                                let cell = gate.queried_cells[c];
                                let cell_row = wrap_row_exec(sel_row, cell.rotation.0, self.n);
                                if !has_cell(&region.cells, cell.column, cell_row) {
                                    let start: usize = match region.start {
                                        Some(s) => s,
                                        None => 0,
                                    };
                                    proof {
                                        assert(region.start is Some);
                                    }
                                    let offset: isize = cell_row as isize - start as isize;
                                    errs.push(VerifyFailure::Cell {
                                        region_index: r_i,
                                        region_name: region.name.clone(),
                                        column: cell.column,
                                        offset,
                                        gate_index: g,
                                        gate_name: gate.name.clone(),
                                    });
                                    proof {
                                        assert(errs@ =~= self.completeness_failures_regions(
                                            r_i as int)
                                            + self.completeness_failures_sels(
                                                r_i as int, j as int)
                                            + self.completeness_failures_gates(
                                                r_i as int, j as int, g as int)
                                            + self.completeness_failures_rows(
                                                r_i as int, j as int, g as int, t as int)
                                            + self.completeness_failures_cells(
                                                r_i as int, g as int, sel_row as int, c + 1));
                                    }
                                } else {
                                    proof {
                                        assert(errs@ =~= self.completeness_failures_regions(
                                            r_i as int)
                                            + self.completeness_failures_sels(
                                                r_i as int, j as int)
                                            + self.completeness_failures_gates(
                                                r_i as int, j as int, g as int)
                                            + self.completeness_failures_rows(
                                                r_i as int, j as int, g as int, t as int)
                                            + self.completeness_failures_cells(
                                                r_i as int, g as int, sel_row as int, c + 1));
                                    }
                                }
                                c += 1;
                            }
                            proof {
                                assert(errs@ =~= self.completeness_failures_regions(r_i as int)
                                    + self.completeness_failures_sels(r_i as int, j as int)
                                    + self.completeness_failures_gates(
                                        r_i as int, j as int, g as int)
                                    + self.completeness_failures_rows(
                                        r_i as int, j as int, g as int, t + 1));
                            }
                            t += 1;
                        }
                        proof {
                            assert(errs@ =~= self.completeness_failures_regions(r_i as int)
                                + self.completeness_failures_sels(r_i as int, j as int)
                                + self.completeness_failures_gates(
                                    r_i as int, j as int, g + 1));
                        }
                    } else {
                        proof {
                            assert(errs@ =~= self.completeness_failures_regions(r_i as int)
                                + self.completeness_failures_sels(r_i as int, j as int)
                                + self.completeness_failures_gates(
                                    r_i as int, j as int, g + 1));
                        }
                    }
                    g += 1;
                }
                proof {
                    assert(errs@ =~= self.completeness_failures_regions(r_i as int)
                        + self.completeness_failures_sels(r_i as int, j + 1));
                }
                j += 1;
            }
            proof {
                assert(errs@ =~= self.completeness_failures_regions(r_i + 1));
            }
            r_i += 1;
        }
        errs
    }

    /// Whether table row `table_row` of lookup `l` matches the input tuple
    /// evaluated at `input_row`, component-wise and in order.
    pub open spec fn lookup_matches(self, l: int, table_row: int, input_row: int) -> bool {
        forall|j: int| 0 <= j < self.cs.lookups@[l].input_expressions@.len()
            ==> self.eval(#[trigger] self.cs.lookups@[l].table_expressions@[j], table_row)
                == self.eval(self.cs.lookups@[l].input_expressions@[j], input_row)
    }

    /// Whether the input tuple of lookup `l` at `input_row` appears among the
    /// table tuples of some row.
    pub open spec fn lookup_passes(self, l: int, input_row: int) -> bool {
        exists|t: int| 0 <= t < self.n && self.lookup_matches(l, t, input_row)
    }

    /// The lookup failures of lookup `l` over the first `row` input rows.
    pub open spec fn lookup_failures_rows(self, l: int, row: int) -> Seq<VerifyFailure>
        decreases row,
    {
        if row <= 0 {
            Seq::empty()
        } else {
            self.lookup_failures_rows(l, row - 1) + (
                if !self.lookup_passes(l, row - 1) {
                    seq![VerifyFailure::Lookup { lookup_index: l as usize, row: (row - 1) as usize }]
                } else {
                    Seq::empty()
                })
        }
    }

    /// The lookup failures of the first `l` lookup arguments.
    pub open spec fn lookup_failures_lookups(self, l: int) -> Seq<VerifyFailure>
        decreases l,
    {
        if l <= 0 {
            Seq::empty()
        } else {
            self.lookup_failures_lookups(l - 1) + self.lookup_failures_rows(l - 1, self.n as int)
        }
    }

    /// Lookup inclusion, whole: for every lookup argument and every input
    /// row, the input tuple must equal some table row's tuple.
    pub open spec fn lookup_failures(self) -> Seq<VerifyFailure> {
        self.lookup_failures_lookups(self.cs.lookups@.len() as int)
    }

    /// Whether the table tuple of lookup `l` at `table_row` equals `inputs`,
    /// component-wise and in order.
    #[verifier::loop_isolation(false)]
    fn lookup_table_row_eq(&self, l: usize, table_row: usize, inputs: &Vec<Fp>) -> (r: bool)
        requires
            self.wf(),
            l < self.cs.lookups@.len(),
            table_row < self.n,
            inputs@.len() == self.cs.lookups@[l as int].table_expressions@.len(),
        ensures
            r == forall|j: int| 0 <= j < inputs@.len()
                ==> self.eval(
                    #[trigger] self.cs.lookups@[l as int].table_expressions@[j],
                    table_row as int,
                ) == inputs@[j]@,
    {
        let lookup = &self.cs.lookups[l];
        let mut j: usize = 0;
        while j < lookup.table_expressions.len()
            invariant
                j <= inputs@.len(),
                forall|i: int| 0 <= i < j
                    ==> self.eval(
                        #[trigger] self.cs.lookups@[l as int].table_expressions@[i],
                        table_row as int,
                    ) == inputs@[i]@,
            decreases inputs@.len() - j,
        {
            let tv = self.eval_expr(&lookup.table_expressions[j], table_row);
            if !tv.eq_val(inputs[j]) {
                return false;
            }
            j += 1;
        }
        true
    }

    /// Check that all lookup inputs exist in their corresponding tables.
    #[verifier::loop_isolation(false)]
    fn check_lookups(&self) -> (errs: Vec<VerifyFailure>)
        requires
            self.wf(),
        ensures
            errs@ == self.lookup_failures(),
    {
        let mut errs: Vec<VerifyFailure> = Vec::new();
        let mut l: usize = 0;
        while l < self.cs.lookups.len()
            invariant
                l <= self.cs.lookups@.len(),
                errs@ == self.lookup_failures_lookups(l as int),
            decreases self.cs.lookups@.len() - l,
        {
            let mut input_row: usize = 0;
            while input_row < self.n
                invariant
                    l < self.cs.lookups@.len(),
                    input_row <= self.n,
                    errs@ == self.lookup_failures_lookups(l as int) + self.lookup_failures_rows(
                        l as int, input_row as int),
                decreases self.n - input_row,
            {
                let lookup = &self.cs.lookups[l];
                let mut inputs: Vec<Fp> = Vec::new();
                let mut j: usize = 0;
                while j < lookup.input_expressions.len()
                    invariant
                        l < self.cs.lookups@.len(),
                        input_row < self.n,
                        j <= self.cs.lookups@[l as int].input_expressions@.len(),
                        inputs@.len() == j,
                        forall|i: int| 0 <= i < j
                            ==> (#[trigger] inputs@[i])@ == self.eval(
                                self.cs.lookups@[l as int].input_expressions@[i],
                                input_row as int,
                            ),
                    decreases self.cs.lookups@[l as int].input_expressions@.len() - j,
                {
                    inputs.push(self.eval_expr(&lookup.input_expressions[j], input_row));
                    j += 1;
                }
                let mut found: bool = false;
                let mut table_row: usize = 0;
                while table_row < self.n
                    invariant
                        l < self.cs.lookups@.len(),
                        input_row < self.n,
                        table_row <= self.n,
                        inputs@.len()
                            == self.cs.lookups@[l as int].input_expressions@.len(),
                        forall|i: int| 0 <= i < inputs@.len()
                            ==> (#[trigger] inputs@[i])@ == self.eval(
                                self.cs.lookups@[l as int].input_expressions@[i],
                                input_row as int,
                            ),
                        found == exists|t: int| 0 <= t < table_row && self.lookup_matches(
                            l as int, t, input_row as int),
                    decreases self.n - table_row,
                {
                    if self.lookup_table_row_eq(l, table_row, &inputs) {
                        proof {
                            assert(self.lookup_matches(
                                l as int, table_row as int, input_row as int));
                        }
                        found = true;
                    } else {
                        proof {
                            assert(!self.lookup_matches(
                                l as int, table_row as int, input_row as int));
                        }
                    }
                    table_row += 1;
                }
                proof {
                    assert(found == self.lookup_passes(l as int, input_row as int));
                }
                if !found {
                    errs.push(VerifyFailure::Lookup { lookup_index: l, row: input_row });
                }
                proof {
                    assert(errs@ =~= self.lookup_failures_lookups(l as int)
                        + self.lookup_failures_rows(l as int, input_row + 1));
                }
                input_row += 1;
            }
            proof {
                assert(errs@ =~= self.lookup_failures_lookups(l + 1));
            }
            l += 1;
        }
        errs
    }

    /// The original value of slot `(c, row)` of permutation `p`, resolved
    /// through the permutation's declared column set back to the underlying
    /// grid; fixed and advice cells default to the additive identity.
    pub open spec fn perm_slot_val(self, p: int, c: int, row: int) -> int {
        let col = self.cs.permutations@[p].columns@[c];
        match col.column_type {
            Any::Fixed => cell_val(self.fixed@[col.index as int]@[row]),
            Any::Advice => cell_val(self.advice@[col.index as int]@[row]),
            Any::Instance => self.instance@[col.index as int]@[row]@,
        }
    }

    /// The permutation failures of column slot `c` of permutation `p` over
    /// the first `row` rows: one for each slot whose value differs from the
    /// value of the slot its mapping links it to.
    pub open spec fn perm_failures_rows(self, p: int, c: int, row: int) -> Seq<VerifyFailure>
        decreases row,
    {
        if row <= 0 {
            Seq::empty()
        } else {
            let m = self.permutations@[p].mapping@[c]@[row - 1];
            self.perm_failures_rows(p, c, row - 1) + (
                if self.perm_slot_val(p, c, row - 1)
                    != self.perm_slot_val(p, m.0 as int, m.1 as int) {
                    seq![VerifyFailure::Permutation {
                        perm_index: p as usize,
                        column: c as usize,
                        row: (row - 1) as usize,
                    }]
                } else {
                    Seq::empty()
                })
        }
    }

    /// The permutation failures of the first `c` column slots of permutation
    /// `p`.
    pub open spec fn perm_failures_cols(self, p: int, c: int) -> Seq<VerifyFailure>
        decreases c,
    {
        if c <= 0 {
            Seq::empty()
        } else {
            self.perm_failures_cols(p, c - 1) + self.perm_failures_rows(p, c - 1, self.n as int)
        }
    }

    /// The permutation failures of the first `p` permutation arguments.
    pub open spec fn perm_failures_perms(self, p: int) -> Seq<VerifyFailure>
        decreases p,
    {
        if p <= 0 {
            Seq::empty()
        } else {
            self.perm_failures_perms(p - 1) + self.perm_failures_cols(
                p - 1, self.cs.permutations@[p - 1].columns@.len() as int)
        }
    }

    /// Permutation preservation, whole: every recorded pairwise link must
    /// join two slots holding equal values.  Only the recorded links are
    /// checked, not transitive cycle closure.
    pub open spec fn perm_failures(self) -> Seq<VerifyFailure> {
        self.perm_failures_perms(self.cs.permutations@.len() as int)
    }

    /// The original value of slot `(c, row)` of permutation `p`.
    fn perm_slot_value(&self, p: usize, c: usize, row: usize) -> (r: Fp)
        requires
            self.wf(),
            p < self.cs.permutations@.len(),
            c < self.cs.permutations@[p as int].columns@.len(),
            row < self.n,
        ensures
            r@ == self.perm_slot_val(p as int, c as int, row as int),
    {
        let col = self.cs.permutations[p].columns[c];
        match col.column_type {
            Any::Fixed => cell_value(self.fixed[col.index][row]),
            Any::Advice => cell_value(self.advice[col.index][row]),
            Any::Instance => self.instance[col.index][row],
        }
    }

    /// Check that permutations preserve the original values of the cells.
    #[verifier::loop_isolation(false)]
    fn check_permutations(&self) -> (errs: Vec<VerifyFailure>)
        requires
            self.wf(),
        ensures
            errs@ == self.perm_failures(),
    {
        let mut errs: Vec<VerifyFailure> = Vec::new();
        let mut p: usize = 0;
        while p < self.permutations.len()
            invariant
                p <= self.cs.permutations@.len(),
                errs@ == self.perm_failures_perms(p as int),
            decreases self.permutations@.len() - p,
        {
            let mut c: usize = 0;
            while c < self.cs.permutations[p].columns.len()
                invariant
                    p < self.cs.permutations@.len(),
                    c <= self.cs.permutations@[p as int].columns@.len(),
                    errs@ == self.perm_failures_perms(p as int) + self.perm_failures_cols(
                        p as int, c as int),
                decreases self.cs.permutations@[p as int].columns@.len() - c,
            {
                let mut row: usize = 0;
                while row < self.n
                    invariant
                        p < self.cs.permutations@.len(),
                        c < self.cs.permutations@[p as int].columns@.len(),
                        row <= self.n,
                        errs@ == self.perm_failures_perms(p as int) + self.perm_failures_cols(
                            p as int, c as int) + self.perm_failures_rows(
                            p as int, c as int, row as int),
                    decreases self.n - row,
                {
                    let mapped = self.permutations[p].mapping[c][row];
                    let original_cell = self.perm_slot_value(p, c, row);
                    let permuted_cell = self.perm_slot_value(p, mapped.0, mapped.1);
                    if !original_cell.eq_val(permuted_cell) {
                        errs.push(VerifyFailure::Permutation { perm_index: p, column: c, row });
                    }
                    proof {
                        assert(errs@ =~= self.perm_failures_perms(p as int)
                            + self.perm_failures_cols(p as int, c as int)
                            + self.perm_failures_rows(p as int, c as int, row + 1));
                    }
                    row += 1;
                }
                proof {
                    assert(errs@ =~= self.perm_failures_perms(p as int)
                        + self.perm_failures_cols(p as int, c + 1));
                }
                c += 1;
            }
            proof {
                assert(errs@ =~= self.perm_failures_perms(p + 1));
            }
            p += 1;
        }
        errs
    }

    /// The whole failure report: the four checks' failure lists concatenated
    /// in the fixed order completeness, gates, lookups, permutations.
    pub open spec fn failures(self) -> Seq<VerifyFailure> {
        self.completeness_failures() + self.gate_failures() + self.lookup_failures()
            + self.perm_failures()
    }

    /// What `verify` returns for this state: success exactly when all four
    /// checks produce zero failures, and otherwise the full ordered failure
    /// list.
    pub open spec fn verify_result_matches(self, r: Result<(), Vec<VerifyFailure>>) -> bool {
        if self.failures().len() == 0 {
            r == Ok::<(), Vec<VerifyFailure>>(())
        } else {
            r is Err && r->Err_0@ == self.failures()
        }
    }

    /// Returns `Ok(())` if this state satisfies every constraint, or the
    /// complete ordered list of reasons it does not.  All four checks run
    /// unconditionally; nothing short-circuits, and the state is only read.
    pub fn verify(&self) -> (r: Result<(), Vec<VerifyFailure>>)
        requires
            self.wf(),
        ensures
            self.verify_result_matches(r),
    {
        let mut errors = self.check_completeness();
        let mut gate_errors = self.check_gates();
        let mut lookup_errors = self.check_lookups();
        let mut perm_errors = self.check_permutations();
        errors.append(&mut gate_errors);
        errors.append(&mut lookup_errors);
        errors.append(&mut perm_errors);
        if errors.len() == 0 {
            proof {
                assert(errors@ =~= self.failures());
            }
            Ok(())
        } else {
            proof {
                assert(errors@ =~= self.failures());
            }
            Err(errors)
        }
    }
}

} // verus!
