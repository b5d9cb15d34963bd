//! Laws of the verification engine.
//!
//! Each public proof function below states a guarantee of `verify` over the
//! specification functions that its contract is written in: a fully
//! satisfied state verifies successfully, verification is deterministic,
//! rotations wrap around the circuit size, unassigned cells read as the
//! additive identity, and each recorded permutation link is reported exactly
//! when its two slots disagree.

use vstd::prelude::*;

use crate::checks::{cell_val, region_has_cell, wrap_row, VerifyFailure};
use crate::circuit::Expression;
use crate::prover::MockProver;

verus! {

impl MockProver {
    /// Every cell queried by a gate that an enabled selector activates was
    /// assigned inside the activating region.
    pub open spec fn cells_complete(self) -> bool {
        forall|r_i: int, j: int, g: int, t: int, c: int|
            0 <= r_i < self.regions@.len()
                && 0 <= j < self.regions@[r_i].enabled_selectors@.len()
                && 0 <= g < self.cs.gates@.len()
                && 0 <= t < self.regions@[r_i].enabled_selectors@[j].1@.len()
                && 0 <= c < self.cs.gates@[g].queried_cells@.len()
                && self.cs.gates@[g].queries_selector(self.regions@[r_i].enabled_selectors@[j].0)
            ==> region_has_cell(
                self.regions@[r_i],
                (#[trigger] self.cs.gates@[g].queried_cells@[c]).column,
                wrap_row(
                    (#[trigger] self.regions@[r_i].enabled_selectors@[j].1@[t]) as int,
                    self.cs.gates@[g].queried_cells@[c].rotation.0 as int,
                    self.n as int,
                ),
            )
    }

    /// Every constraint of every gate evaluates to the additive identity on
    /// every row.
    pub open spec fn gates_satisfied(self) -> bool {
        forall|g: int, row: int, c: int|
            0 <= g < self.cs.gates@.len() && 0 <= row < self.n
                && 0 <= c < self.cs.gates@[g].constraints@.len()
            ==> #[trigger] self.eval(self.cs.gates@[g].constraints@[c].poly, row) == 0
    }

    /// Every lookup input tuple appears among its table's tuples.
    pub open spec fn lookups_satisfied(self) -> bool {
        forall|l: int, row: int| 0 <= l < self.cs.lookups@.len() && 0 <= row < self.n
            ==> #[trigger] self.lookup_passes(l, row)
    }

    /// Every recorded permutation link joins two slots of equal value.
    pub open spec fn permutations_preserved(self) -> bool {
        forall|p: int, c: int, row: int|
            0 <= p < self.cs.permutations@.len()
                && 0 <= c < self.cs.permutations@[p].columns@.len()
                && 0 <= row < self.n
            ==> self.perm_slot_val(p, c, row) == self.perm_slot_val(
                p,
                (#[trigger] self.permutations@[p].mapping@[c]@[row]).0 as int,
                self.permutations@[p].mapping@[c]@[row].1 as int,
            )
    }
}

proof fn lemma_complete_cells_empty(p: MockProver, r_i: int, j: int, g: int, t: int, c: int)
    requires
        p.wf(),
        p.cells_complete(),
        0 <= r_i < p.regions@.len(),
        0 <= j < p.regions@[r_i].enabled_selectors@.len(),
        0 <= g < p.cs.gates@.len(),
        0 <= t < p.regions@[r_i].enabled_selectors@[j].1@.len(),
        0 <= c <= p.cs.gates@[g].queried_cells@.len(),
        p.cs.gates@[g].queries_selector(p.regions@[r_i].enabled_selectors@[j].0),
    ensures
        p.completeness_failures_cells(
            r_i, g, p.regions@[r_i].enabled_selectors@[j].1@[t] as int, c)
            == Seq::<VerifyFailure>::empty(),
    decreases c,
{
    let sel_row = p.regions@[r_i].enabled_selectors@[j].1@[t] as int;
    if c > 0 {
        lemma_complete_cells_empty(p, r_i, j, g, t, c - 1);
        assert(region_has_cell(
            p.regions@[r_i],
            p.cs.gates@[g].queried_cells@[c - 1].column,
            wrap_row(sel_row, p.cs.gates@[g].queried_cells@[c - 1].rotation.0 as int, p.n as int),
        ));
        assert(p.completeness_failures_cells(r_i, g, sel_row, c)
            =~= Seq::<VerifyFailure>::empty());
    }
}

proof fn lemma_complete_rows_empty(p: MockProver, r_i: int, j: int, g: int, t: int)
    requires
        p.wf(),
        p.cells_complete(),
        0 <= r_i < p.regions@.len(),
        0 <= j < p.regions@[r_i].enabled_selectors@.len(),
        0 <= g < p.cs.gates@.len(),
        0 <= t <= p.regions@[r_i].enabled_selectors@[j].1@.len(),
        p.cs.gates@[g].queries_selector(p.regions@[r_i].enabled_selectors@[j].0),
    ensures
        p.completeness_failures_rows(r_i, j, g, t) == Seq::<VerifyFailure>::empty(),
    decreases t,
{
    if t > 0 {
        lemma_complete_rows_empty(p, r_i, j, g, t - 1);
        lemma_complete_cells_empty(
            p, r_i, j, g, t - 1, p.cs.gates@[g].queried_cells@.len() as int);
        assert(p.completeness_failures_rows(r_i, j, g, t) =~= Seq::<VerifyFailure>::empty());
    }
}

proof fn lemma_complete_gates_empty(p: MockProver, r_i: int, j: int, g: int)
    requires
        p.wf(),
        p.cells_complete(),
        0 <= r_i < p.regions@.len(),
        0 <= j < p.regions@[r_i].enabled_selectors@.len(),
        0 <= g <= p.cs.gates@.len(),
    ensures
        p.completeness_failures_gates(r_i, j, g) == Seq::<VerifyFailure>::empty(),
    decreases g,
{
    if g > 0 {
        lemma_complete_gates_empty(p, r_i, j, g - 1);
        if p.cs.gates@[g - 1].queries_selector(p.regions@[r_i].enabled_selectors@[j].0) {
            lemma_complete_rows_empty(
                p, r_i, j, g - 1, p.regions@[r_i].enabled_selectors@[j].1@.len() as int);
        }
        assert(p.completeness_failures_gates(r_i, j, g) =~= Seq::<VerifyFailure>::empty());
    }
}

proof fn lemma_complete_sels_empty(p: MockProver, r_i: int, j: int)
    requires
        p.wf(),
        p.cells_complete(),
        0 <= r_i < p.regions@.len(),
        0 <= j <= p.regions@[r_i].enabled_selectors@.len(),
    ensures
        p.completeness_failures_sels(r_i, j) == Seq::<VerifyFailure>::empty(),
    decreases j,
{
    if j > 0 {
        lemma_complete_sels_empty(p, r_i, j - 1);
        lemma_complete_gates_empty(p, r_i, j - 1, p.cs.gates@.len() as int);
        assert(p.completeness_failures_sels(r_i, j) =~= Seq::<VerifyFailure>::empty());
    }
}

proof fn lemma_complete_regions_empty(p: MockProver, r_i: int)
    requires
        p.wf(),
        p.cells_complete(),
        0 <= r_i <= p.regions@.len(),
    ensures
        p.completeness_failures_regions(r_i) == Seq::<VerifyFailure>::empty(),
    decreases r_i,
{
    if r_i > 0 {
        lemma_complete_regions_empty(p, r_i - 1);
        lemma_complete_sels_empty(
            p, r_i - 1, p.regions@[r_i - 1].enabled_selectors@.len() as int);
        assert(p.completeness_failures_regions(r_i) =~= Seq::<VerifyFailure>::empty());
    }
}

proof fn lemma_gate_polys_empty(p: MockProver, g: int, row: int, c: int)
    requires
        p.wf(),
        p.gates_satisfied(),
        0 <= g < p.cs.gates@.len(),
        0 <= row < p.n,
        0 <= c <= p.cs.gates@[g].constraints@.len(),
    ensures
        p.gate_failures_polys(g, row, c) == Seq::<VerifyFailure>::empty(),
    decreases c,
{
    if c > 0 {
        lemma_gate_polys_empty(p, g, row, c - 1);
        assert(p.eval(p.cs.gates@[g].constraints@[c - 1].poly, row) == 0);
        assert(p.gate_failures_polys(g, row, c) =~= Seq::<VerifyFailure>::empty());
    }
}

proof fn lemma_gate_rows_empty(p: MockProver, g: int, row: int)
    requires
        p.wf(),
        p.gates_satisfied(),
        0 <= g < p.cs.gates@.len(),
        0 <= row <= p.n,
    ensures
        p.gate_failures_rows(g, row) == Seq::<VerifyFailure>::empty(),
    decreases row,
{
    if row > 0 {
        lemma_gate_rows_empty(p, g, row - 1);
        lemma_gate_polys_empty(p, g, row - 1, p.cs.gates@[g].constraints@.len() as int);
        assert(p.gate_failures_rows(g, row) =~= Seq::<VerifyFailure>::empty());
    }
}

proof fn lemma_gate_gates_empty(p: MockProver, g: int)
    requires
        p.wf(),
        p.gates_satisfied(),
        0 <= g <= p.cs.gates@.len(),
    ensures
        p.gate_failures_gates(g) == Seq::<VerifyFailure>::empty(),
    decreases g,
{
    if g > 0 {
        lemma_gate_gates_empty(p, g - 1);
        lemma_gate_rows_empty(p, g - 1, p.n as int);
        assert(p.gate_failures_gates(g) =~= Seq::<VerifyFailure>::empty());
    }
}

proof fn lemma_lookup_rows_empty(p: MockProver, l: int, row: int)
    requires
        p.wf(),
        p.lookups_satisfied(),
        0 <= l < p.cs.lookups@.len(),
        0 <= row <= p.n,
    ensures
        p.lookup_failures_rows(l, row) == Seq::<VerifyFailure>::empty(),
    decreases row,
{
    if row > 0 {
        lemma_lookup_rows_empty(p, l, row - 1);
        assert(p.lookup_passes(l, row - 1));
        assert(p.lookup_failures_rows(l, row) =~= Seq::<VerifyFailure>::empty());
    }
}

proof fn lemma_lookup_lookups_empty(p: MockProver, l: int)
    requires
        p.wf(),
        p.lookups_satisfied(),
        0 <= l <= p.cs.lookups@.len(),
    ensures
        p.lookup_failures_lookups(l) == Seq::<VerifyFailure>::empty(),
    decreases l,
{
    if l > 0 {
        lemma_lookup_lookups_empty(p, l - 1);
        lemma_lookup_rows_empty(p, l - 1, p.n as int);
        assert(p.lookup_failures_lookups(l) =~= Seq::<VerifyFailure>::empty());
    }
}

proof fn lemma_perm_rows_empty(p: MockProver, pi: int, c: int, row: int)
    requires
        p.wf(),
        p.permutations_preserved(),
        0 <= pi < p.cs.permutations@.len(),
        0 <= c < p.cs.permutations@[pi].columns@.len(),
        0 <= row <= p.n,
    ensures
        p.perm_failures_rows(pi, c, row) == Seq::<VerifyFailure>::empty(),
    decreases row,
{
    if row > 0 {
        lemma_perm_rows_empty(p, pi, c, row - 1);
        assert(p.perm_slot_val(pi, c, row - 1) == p.perm_slot_val(
            pi,
            p.permutations@[pi].mapping@[c]@[row - 1].0 as int,
            p.permutations@[pi].mapping@[c]@[row - 1].1 as int,
        ));
        assert(p.perm_failures_rows(pi, c, row) =~= Seq::<VerifyFailure>::empty());
    }
}

proof fn lemma_perm_cols_empty(p: MockProver, pi: int, c: int)
    requires
        p.wf(),
        p.permutations_preserved(),
        0 <= pi < p.cs.permutations@.len(),
        0 <= c <= p.cs.permutations@[pi].columns@.len(),
    ensures
        p.perm_failures_cols(pi, c) == Seq::<VerifyFailure>::empty(),
    decreases c,
{
    if c > 0 {
        lemma_perm_cols_empty(p, pi, c - 1);
        lemma_perm_rows_empty(p, pi, c - 1, p.n as int);
        assert(p.perm_failures_cols(pi, c) =~= Seq::<VerifyFailure>::empty());
    }
}

proof fn lemma_perm_perms_empty(p: MockProver, pi: int)
    requires
        p.wf(),
        p.permutations_preserved(),
        0 <= pi <= p.cs.permutations@.len(),
    ensures
        p.perm_failures_perms(pi) == Seq::<VerifyFailure>::empty(),
    decreases pi,
{
    if pi > 0 {
        lemma_perm_perms_empty(p, pi - 1);
        lemma_perm_cols_empty(p, pi - 1, p.cs.permutations@[pi - 1].columns@.len() as int);
        assert(p.perm_failures_perms(pi) =~= Seq::<VerifyFailure>::empty());
    }
}

/// For any state in which every gate, lookup and permutation holds and every
/// activated cell was assigned, the failure report is empty, so verification
/// returns success.
pub proof fn lemma_satisfied_verifies(p: MockProver)
    requires
        p.wf(),
        p.cells_complete(),
        p.gates_satisfied(),
        p.lookups_satisfied(),
        p.permutations_preserved(),
    ensures
        p.failures() == Seq::<VerifyFailure>::empty(),
        forall|r: Result<(), Vec<VerifyFailure>>|
            p.verify_result_matches(r) ==> r == Ok::<(), Vec<VerifyFailure>>(()),
{
    lemma_complete_regions_empty(p, p.regions@.len() as int);
    lemma_gate_gates_empty(p, p.cs.gates@.len() as int);
    lemma_lookup_lookups_empty(p, p.cs.lookups@.len() as int);
    lemma_perm_perms_empty(p, p.cs.permutations@.len() as int);
    assert(p.failures() =~= Seq::<VerifyFailure>::empty());
}

/// Verification is deterministic: any two results that `verify`'s contract
/// admits for the same state are the same report.  (`verify` itself takes
/// the state by shared reference, so it cannot mutate it between calls.)
pub proof fn lemma_verify_deterministic(
    p: MockProver,
    r1: Result<(), Vec<VerifyFailure>>,
    r2: Result<(), Vec<VerifyFailure>>,
)
    requires
        p.verify_result_matches(r1),
        p.verify_result_matches(r2),
    ensures
        r1 is Ok <==> r2 is Ok,
        r1 is Err ==> r1->Err_0@ == r2->Err_0@,
{
}

/// A one-step-previous rotation applied at row `0` reads row `n - 1`: row
/// resolution wraps around the circuit size.
pub proof fn lemma_rotation_wraps_at_row_zero(n: int)
    requires
        n >= 1,
    ensures
        wrap_row(0, -1, n) == n - 1,
{
    assert((0 + -1) % n == n - 1) by {
        vstd::arithmetic::div_mod::lemma_mod_multiples_vanish(1, -1, n);
        vstd::arithmetic::div_mod::lemma_small_mod((n - 1) as nat, n as nat);
    }
}

/// A query bound to a one-step-previous rotation, evaluated at row `0`,
/// reads the last row of its column: the value of such an advice query is
/// whatever the cell at row `n - 1` holds (the additive identity if it was
/// never assigned).
pub proof fn lemma_prev_rotation_reads_last_row(p: MockProver, q: usize)
    requires
        p.wf(),
        q < p.cs.advice_queries@.len(),
        p.cs.advice_queries@[q as int].1.0 == -1i32,
    ensures
        p.eval(Expression::Advice(q), 0) == cell_val(
            p.advice@[p.cs.advice_queries@[q as int].0 as int]@[p.n - 1]),
{
    lemma_rotation_wraps_at_row_zero(p.n as int);
}

/// An advice cell that was never written reads as the additive identity
/// during expression evaluation.
pub proof fn lemma_unassigned_advice_reads_zero(p: MockProver, q: usize, row: int)
    requires
        p.wf(),
        q < p.cs.advice_queries@.len(),
        0 <= row < p.n,
        p.advice@[p.cs.advice_queries@[q as int].0 as int]@[wrap_row(
            row, p.cs.advice_queries@[q as int].1.0 as int, p.n as int)] is None,
    ensures
        p.eval(Expression::Advice(q), row) == 0,
{
    assert(cell_val(p.advice@[p.cs.advice_queries@[q as int].0 as int]@[wrap_row(
        row, p.cs.advice_queries@[q as int].1.0 as int, p.n as int)]) == 0);
}

/// The number of occurrences of `f` in a failure list.
pub open spec fn occurrences(s: Seq<VerifyFailure>, f: VerifyFailure) -> nat
    decreases s.len(),
{
    if s.len() == 0 {
        0
    } else {
        occurrences(s.drop_last(), f) + (
            if s.last() == f {
                1nat
            } else {
                0nat
            })
    }
}

proof fn lemma_occurrences_add(a: Seq<VerifyFailure>, b: Seq<VerifyFailure>, f: VerifyFailure)
    ensures
        occurrences(a + b, f) == occurrences(a, f) + occurrences(b, f),
    decreases b.len(),
{
    if b.len() == 0 {
        assert(a + b =~= a);
    } else {
        assert((a + b).drop_last() =~= a + b.drop_last());
        assert((a + b).last() == b.last());
        lemma_occurrences_add(a, b.drop_last(), f);
    }
}

proof fn lemma_occurrences_single(x: VerifyFailure, f: VerifyFailure)
    ensures
        occurrences(seq![x], f) == if x == f { 1nat } else { 0nat },
{
    assert(seq![x].len() == 1);
    assert(seq![x].last() == x);
    assert(seq![x].drop_last() =~= Seq::<VerifyFailure>::empty());
    assert(occurrences(Seq::<VerifyFailure>::empty(), f) == 0);
}

proof fn lemma_occ_complete_cells(
    p: MockProver,
    r_i: int,
    g: int,
    sel_row: int,
    c: int,
    f: VerifyFailure,
)
    requires
        f is Permutation,
    ensures
        occurrences(p.completeness_failures_cells(r_i, g, sel_row, c), f) == 0,
    decreases c,
{
    if c > 0 {
        lemma_occ_complete_cells(p, r_i, g, sel_row, c - 1, f);
        let cell = p.cs.gates@[g].queried_cells@[c - 1];
        let cell_row = wrap_row(sel_row, cell.rotation.0 as int, p.n as int);
        if !region_has_cell(p.regions@[r_i], cell.column, cell_row) {
            lemma_occurrences_add(
                p.completeness_failures_cells(r_i, g, sel_row, c - 1),
                seq![p.cell_failure(r_i, g, sel_row, c - 1)],
                f,
            );
            lemma_occurrences_single(p.cell_failure(r_i, g, sel_row, c - 1), f);
        } else {
            lemma_occurrences_add(
                p.completeness_failures_cells(r_i, g, sel_row, c - 1),
                Seq::<VerifyFailure>::empty(),
                f,
            );
        }
    }
}

proof fn lemma_occ_complete_rows(p: MockProver, r_i: int, j: int, g: int, t: int, f: VerifyFailure)
    requires
        f is Permutation,
    ensures
        occurrences(p.completeness_failures_rows(r_i, j, g, t), f) == 0,
    decreases t,
{
    if t > 0 {
        lemma_occ_complete_rows(p, r_i, j, g, t - 1, f);
        lemma_occ_complete_cells(
            p, r_i, g,
            p.regions@[r_i].enabled_selectors@[j].1@[t - 1] as int,
            p.cs.gates@[g].queried_cells@.len() as int, f);
        lemma_occurrences_add(
            p.completeness_failures_rows(r_i, j, g, t - 1),
            p.completeness_failures_cells(
                r_i, g,
                p.regions@[r_i].enabled_selectors@[j].1@[t - 1] as int,
                p.cs.gates@[g].queried_cells@.len() as int),
            f,
        );
    }
}

proof fn lemma_occ_complete_gates(p: MockProver, r_i: int, j: int, g: int, f: VerifyFailure)
    requires
        f is Permutation,
    ensures
        occurrences(p.completeness_failures_gates(r_i, j, g), f) == 0,
    decreases g,
{
    if g > 0 {
        lemma_occ_complete_gates(p, r_i, j, g - 1, f);
        if p.cs.gates@[g - 1].queries_selector(p.regions@[r_i].enabled_selectors@[j].0) {
            lemma_occ_complete_rows(
                p, r_i, j, g - 1,
                p.regions@[r_i].enabled_selectors@[j].1@.len() as int, f);
            lemma_occurrences_add(
                p.completeness_failures_gates(r_i, j, g - 1),
                p.completeness_failures_rows(
                    r_i, j, g - 1, p.regions@[r_i].enabled_selectors@[j].1@.len() as int),
                f,
            );
        } else {
            lemma_occurrences_add(
                p.completeness_failures_gates(r_i, j, g - 1), Seq::<VerifyFailure>::empty(), f);
        }
    }
}

proof fn lemma_occ_complete_sels(p: MockProver, r_i: int, j: int, f: VerifyFailure)
    requires
        f is Permutation,
    ensures
        occurrences(p.completeness_failures_sels(r_i, j), f) == 0,
    decreases j,
{
    if j > 0 {
        lemma_occ_complete_sels(p, r_i, j - 1, f);
        lemma_occ_complete_gates(p, r_i, j - 1, p.cs.gates@.len() as int, f);
        lemma_occurrences_add(
            p.completeness_failures_sels(r_i, j - 1),
            p.completeness_failures_gates(r_i, j - 1, p.cs.gates@.len() as int),
            f,
        );
    }
}

proof fn lemma_occ_complete_regions(p: MockProver, r_i: int, f: VerifyFailure)
    requires
        f is Permutation,
    ensures
        occurrences(p.completeness_failures_regions(r_i), f) == 0,
    decreases r_i,
{
    if r_i > 0 {
        lemma_occ_complete_regions(p, r_i - 1, f);
        lemma_occ_complete_sels(
            p, r_i - 1, p.regions@[r_i - 1].enabled_selectors@.len() as int, f);
        lemma_occurrences_add(
            p.completeness_failures_regions(r_i - 1),
            p.completeness_failures_sels(
                r_i - 1, p.regions@[r_i - 1].enabled_selectors@.len() as int),
            f,
        );
    }
}

proof fn lemma_occ_gate_polys(p: MockProver, g: int, row: int, c: int, f: VerifyFailure)
    requires
        f is Permutation,
    ensures
        occurrences(p.gate_failures_polys(g, row, c), f) == 0,
    decreases c,
{
    if c > 0 {
        lemma_occ_gate_polys(p, g, row, c - 1, f);
        if p.eval(p.cs.gates@[g].constraints@[c - 1].poly, row) != 0 {
            lemma_occurrences_add(
                p.gate_failures_polys(g, row, c - 1),
                seq![p.constraint_failure(g, c - 1, row)],
                f,
            );
            lemma_occurrences_single(p.constraint_failure(g, c - 1, row), f);
        } else {
            lemma_occurrences_add(
                p.gate_failures_polys(g, row, c - 1), Seq::<VerifyFailure>::empty(), f);
        }
    }
}

proof fn lemma_occ_gate_rows(p: MockProver, g: int, row: int, f: VerifyFailure)
    requires
        f is Permutation,
    ensures
        occurrences(p.gate_failures_rows(g, row), f) == 0,
    decreases row,
{
    if row > 0 {
        lemma_occ_gate_rows(p, g, row - 1, f);
        lemma_occ_gate_polys(p, g, row - 1, p.cs.gates@[g].constraints@.len() as int, f);
        lemma_occurrences_add(
            p.gate_failures_rows(g, row - 1),
            p.gate_failures_polys(g, row - 1, p.cs.gates@[g].constraints@.len() as int),
            f,
        );
    }
}

proof fn lemma_occ_gate_gates(p: MockProver, g: int, f: VerifyFailure)
    requires
        f is Permutation,
    ensures
        occurrences(p.gate_failures_gates(g), f) == 0,
    decreases g,
{
    if g > 0 {
        lemma_occ_gate_gates(p, g - 1, f);
        lemma_occ_gate_rows(p, g - 1, p.n as int, f);
        lemma_occurrences_add(
            p.gate_failures_gates(g - 1), p.gate_failures_rows(g - 1, p.n as int), f);
    }
}

proof fn lemma_occ_lookup_rows(p: MockProver, l: int, row: int, f: VerifyFailure)
    requires
        f is Permutation,
    ensures
        occurrences(p.lookup_failures_rows(l, row), f) == 0,
    decreases row,
{
    if row > 0 {
        lemma_occ_lookup_rows(p, l, row - 1, f);
        if !p.lookup_passes(l, row - 1) {
            let x = VerifyFailure::Lookup { lookup_index: l as usize, row: (row - 1) as usize };
            lemma_occurrences_add(p.lookup_failures_rows(l, row - 1), seq![x], f);
            lemma_occurrences_single(x, f);
        } else {
            lemma_occurrences_add(
                p.lookup_failures_rows(l, row - 1), Seq::<VerifyFailure>::empty(), f);
        }
    }
}

proof fn lemma_occ_lookup_lookups(p: MockProver, l: int, f: VerifyFailure)
    requires
        f is Permutation,
    ensures
        occurrences(p.lookup_failures_lookups(l), f) == 0,
    decreases l,
{
    if l > 0 {
        lemma_occ_lookup_lookups(p, l - 1, f);
        lemma_occ_lookup_rows(p, l - 1, p.n as int, f);
        lemma_occurrences_add(
            p.lookup_failures_lookups(l - 1), p.lookup_failures_rows(l - 1, p.n as int), f);
    }
}

impl MockProver {
    /// Whether the recorded link of slot `(c, row)` of permutation `p` joins
    /// two slots holding different values.
    pub open spec fn link_differs(self, p: int, c: int, row: int) -> bool {
        let m = self.permutations@[p].mapping@[c]@[row];
        self.perm_slot_val(p, c, row) != self.perm_slot_val(p, m.0 as int, m.1 as int)
    }
}

proof fn lemma_occ_perm_rows(
    p: MockProver,
    pi: int,
    c: int,
    row: int,
    fpi: int,
    fc: int,
    frow: int,
)
    requires
        p.wf(),
        0 <= pi < p.cs.permutations@.len(),
        0 <= c < p.cs.permutations@[pi].columns@.len(),
        0 <= row <= p.n,
        0 <= fpi < p.cs.permutations@.len(),
        0 <= fc < p.cs.permutations@[fpi].columns@.len(),
        0 <= frow < p.n,
    ensures
        occurrences(
            p.perm_failures_rows(pi, c, row),
            VerifyFailure::Permutation {
                perm_index: fpi as usize,
                column: fc as usize,
                row: frow as usize,
            },
        ) == if pi == fpi && c == fc && frow < row && p.link_differs(fpi, fc, frow) {
            1nat
        } else {
            0nat
        },
    decreases row,
{
    let f = VerifyFailure::Permutation {
        perm_index: fpi as usize,
        column: fc as usize,
        row: frow as usize,
    };
    if row > 0 {
        lemma_occ_perm_rows(p, pi, c, row - 1, fpi, fc, frow);
        let m = p.permutations@[pi].mapping@[c]@[row - 1];
        if p.perm_slot_val(pi, c, row - 1) != p.perm_slot_val(pi, m.0 as int, m.1 as int) {
            let x = VerifyFailure::Permutation {
                perm_index: pi as usize,
                column: c as usize,
                row: (row - 1) as usize,
            };
            lemma_occurrences_add(p.perm_failures_rows(pi, c, row - 1), seq![x], f);
            lemma_occurrences_single(x, f);
            assert((x == f) == (pi == fpi && c == fc && row - 1 == frow)) by {
                vstd::std_specs::vec::axiom_spec_len(&p.cs.permutations);
                vstd::std_specs::vec::axiom_spec_len(&p.cs.permutations@[pi].columns);
                vstd::std_specs::vec::axiom_spec_len(&p.cs.permutations@[fpi].columns);
                assert(pi <= usize::MAX && fpi <= usize::MAX);
                assert(c <= usize::MAX && fc <= usize::MAX);
                assert(row - 1 <= usize::MAX && frow <= usize::MAX);
            }
        } else {
            lemma_occurrences_add(
                p.perm_failures_rows(pi, c, row - 1), Seq::<VerifyFailure>::empty(), f);
        }
    }
}

proof fn lemma_occ_perm_cols(p: MockProver, pi: int, c: int, fpi: int, fc: int, frow: int)
    requires
        p.wf(),
        0 <= pi < p.cs.permutations@.len(),
        0 <= c <= p.cs.permutations@[pi].columns@.len(),
        0 <= fpi < p.cs.permutations@.len(),
        0 <= fc < p.cs.permutations@[fpi].columns@.len(),
        0 <= frow < p.n,
    ensures
        occurrences(
            p.perm_failures_cols(pi, c),
            VerifyFailure::Permutation {
                perm_index: fpi as usize,
                column: fc as usize,
                row: frow as usize,
            },
        ) == if pi == fpi && fc < c && p.link_differs(fpi, fc, frow) {
            1nat
        } else {
            0nat
        },
    decreases c,
{
    let f = VerifyFailure::Permutation {
        perm_index: fpi as usize,
        column: fc as usize,
        row: frow as usize,
    };
    if c > 0 {
        lemma_occ_perm_cols(p, pi, c - 1, fpi, fc, frow);
        lemma_occ_perm_rows(p, pi, c - 1, p.n as int, fpi, fc, frow);
        lemma_occurrences_add(
            p.perm_failures_cols(pi, c - 1), p.perm_failures_rows(pi, c - 1, p.n as int), f);
    }
}

proof fn lemma_occ_perm_perms(p: MockProver, pi: int, fpi: int, fc: int, frow: int)
    requires
        p.wf(),
        0 <= pi <= p.cs.permutations@.len(),
        0 <= fpi < p.cs.permutations@.len(),
        0 <= fc < p.cs.permutations@[fpi].columns@.len(),
        0 <= frow < p.n,
    ensures
        occurrences(
            p.perm_failures_perms(pi),
            VerifyFailure::Permutation {
                perm_index: fpi as usize,
                column: fc as usize,
                row: frow as usize,
            },
        ) == if fpi < pi && p.link_differs(fpi, fc, frow) {
            1nat
        } else {
            0nat
        },
    decreases pi,
{
    let f = VerifyFailure::Permutation {
        perm_index: fpi as usize,
        column: fc as usize,
        row: frow as usize,
    };
    if pi > 0 {
        lemma_occ_perm_perms(p, pi - 1, fpi, fc, frow);
        lemma_occ_perm_cols(
            p, pi - 1, p.cs.permutations@[pi - 1].columns@.len() as int, fpi, fc, frow);
        lemma_occurrences_add(
            p.perm_failures_perms(pi - 1),
            p.perm_failures_cols(pi - 1, p.cs.permutations@[pi - 1].columns@.len() as int),
            f,
        );
    }
}

/// For every slot of every permutation argument: if the witness holds
/// different values at the slot and at the slot its recorded link joins it
/// to, the failure report contains exactly one permutation failure naming
/// that permutation, column slot and row; if the values agree, it contains
/// none.
pub proof fn lemma_permutation_link_reported(p: MockProver, pi: int, c: int, row: int)
    requires
        p.wf(),
        0 <= pi < p.cs.permutations@.len(),
        0 <= c < p.cs.permutations@[pi].columns@.len(),
        0 <= row < p.n,
    ensures
        occurrences(
            p.failures(),
            VerifyFailure::Permutation {
                perm_index: pi as usize,
                column: c as usize,
                row: row as usize,
            },
        ) == if p.link_differs(pi, c, row) {
            1nat
        } else {
            0nat
        },
{
    let f = VerifyFailure::Permutation {
        perm_index: pi as usize,
        column: c as usize,
        row: row as usize,
    };
    lemma_occ_complete_regions(p, p.regions@.len() as int, f);
    lemma_occ_gate_gates(p, p.cs.gates@.len() as int, f);
    lemma_occ_lookup_lookups(p, p.cs.lookups@.len() as int, f);
    lemma_occ_perm_perms(p, p.cs.permutations@.len() as int, pi, c, row);
    lemma_occurrences_add(p.completeness_failures(), p.gate_failures(), f);
    lemma_occurrences_add(
        p.completeness_failures() + p.gate_failures(), p.lookup_failures(), f);
    lemma_occurrences_add(
        p.completeness_failures() + p.gate_failures() + p.lookup_failures(),
        p.perm_failures(),
        f,
    );
}

} // verus!
