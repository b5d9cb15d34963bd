//! The static circuit description.
//!
//! A constraint system is plain immutable data built by an external
//! configuration step: column counts, the ordered query lists that expression
//! leaves index into, and the ordered lists of gates, lookup arguments and
//! permutation arguments.  A circuit pairs such a constraint system with a
//! synthesis script: the sequence of region, assignment and copy operations
//! that an external synthesis process would drive the witness recorder with.

use vstd::prelude::*;

use crate::field::Fp;

verus! {

/// The three kinds of column in the arithmetization.
#[derive(Clone, Copy, Debug, PartialEq, Eq, Structural)]
pub enum Any {
    /// Columns whose values are fixed by the circuit itself.
    Fixed,
    /// Columns assigned by the prover as witness values.
    Advice,
    /// Columns supplied wholesale by the caller as public values.
    Instance,
}

/// A column, identified by its kind and its index among columns of that kind.
#[derive(Clone, Copy, Debug, PartialEq, Eq, Structural)]
pub struct Column {
    pub index: usize,
    pub column_type: Any,
}

impl Column {
    /// A column handle for the given index and kind.
    pub fn new(index: usize, column_type: Any) -> (r: Column)
        ensures
            r.index == index,
            r.column_type == column_type,
    {
        Column { index, column_type }
    }
}

/// A selector: logically boolean, physically the fixed column of this index.
/// Enabling it at a row writes the multiplicative identity there.
#[derive(Clone, Copy, Debug, PartialEq, Eq, Structural)]
pub struct Selector(pub usize);

/// A signed row offset, applied relative to the current row during expression
/// evaluation and resolved with wraparound modulo the circuit size.
#[derive(Clone, Copy, Debug, PartialEq, Eq, Structural)]
pub struct Rotation(pub i32);

/// A cell queried by a gate: a column together with a rotation.
#[derive(Clone, Copy, Debug, PartialEq, Eq, Structural)]
pub struct VirtualCell {
    pub column: Column,
    pub rotation: Rotation,
}

/// A constraint-expression tree.  Query leaves hold an index into the
/// corresponding query list of the constraint system.
#[derive(Debug)]
pub enum Expression {
    /// A constant field element.
    Constant(Fp),
    /// The value of the fixed query at this index, at the rotated row.
    Fixed(usize),
    /// The value of the advice query at this index, at the rotated row.
    Advice(usize),
    /// The value of the instance query at this index, at the rotated row.
    Instance(usize),
    /// The sum of two expressions.
    Sum(Box<Expression>, Box<Expression>),
    /// The product of two expressions.
    Product(Box<Expression>, Box<Expression>),
    /// An expression scaled by a constant.
    Scaled(Box<Expression>, Fp),
}

impl Expression {
    /// Whether every query leaf indexes into its query list.
    pub open spec fn wf(self, cs: ConstraintSystem) -> bool
        decreases self,
    {
        match self {
            Expression::Constant(_) => true,
            Expression::Fixed(q) => q < cs.fixed_queries@.len(),
            Expression::Advice(q) => q < cs.advice_queries@.len(),
            Expression::Instance(q) => q < cs.instance_queries@.len(),
            Expression::Sum(a, b) => a.wf(cs) && b.wf(cs),
            Expression::Product(a, b) => a.wf(cs) && b.wf(cs),
            Expression::Scaled(a, _) => a.wf(cs),
        }
    }
}

/// One named polynomial constraint of a gate; it must evaluate to the
/// additive identity at every row.
#[derive(Debug)]
pub struct Constraint {
    pub name: String,
    pub poly: Expression,
}

/// A gate: named constraints, together with the selectors and cells its
/// expressions reference (as derived by the external configuration step).
#[derive(Debug)]
pub struct Gate {
    pub name: String,
    pub constraints: Vec<Constraint>,
    pub queried_selectors: Vec<Selector>,
    pub queried_cells: Vec<VirtualCell>,
}

/// A lookup argument: every input tuple must appear among the table tuples.
#[derive(Debug)]
pub struct Lookup {
    pub name: String,
    pub input_expressions: Vec<Expression>,
    pub table_expressions: Vec<Expression>,
}

/// A permutation argument: the ordered set of columns over which copy
/// constraints may be declared.
#[derive(Debug)]
pub struct Permutation {
    pub columns: Vec<Column>,
}

/// The static constraint system built by the external configuration step.
#[derive(Debug)]
pub struct ConstraintSystem {
    pub num_fixed_columns: usize,
    pub num_advice_columns: usize,
    pub num_instance_columns: usize,
    /// The ordered fixed-column queries `(column index, rotation)` that
    /// `Expression::Fixed` leaves resolve through.
    pub fixed_queries: Vec<(usize, Rotation)>,
    /// The ordered advice-column queries that `Expression::Advice` leaves
    /// resolve through.
    pub advice_queries: Vec<(usize, Rotation)>,
    /// The ordered instance-column queries that `Expression::Instance` leaves
    /// resolve through.
    pub instance_queries: Vec<(usize, Rotation)>,
    pub gates: Vec<Gate>,
    pub lookups: Vec<Lookup>,
    pub permutations: Vec<Permutation>,
}

impl ConstraintSystem {
    /// Whether a column handle is valid for this system.
    pub open spec fn column_wf(self, c: Column) -> bool {
        match c.column_type {
            Any::Fixed => c.index < self.num_fixed_columns,
            Any::Advice => c.index < self.num_advice_columns,
            Any::Instance => c.index < self.num_instance_columns,
        }
    }

    /// Whether a rotation stays within one wraparound of a circuit of `n` rows.
    pub open spec fn rotation_wf(self, r: Rotation, n: int) -> bool {
        (-n) < (r.0 as int) && (r.0 as int) < n
    }

    /// Well-formedness of the whole description against a circuit of `n`
    /// rows: every query, gate, lookup and permutation refers only to declared
    /// columns, and every rotation stays within one wraparound.
    pub open spec fn wf(self, n: int) -> bool {
        &&& forall|q: int| 0 <= q < self.fixed_queries@.len() ==> {
            &&& (#[trigger] self.fixed_queries@[q]).0 < self.num_fixed_columns
            &&& self.rotation_wf(self.fixed_queries@[q].1, n)
        }
        &&& forall|q: int| 0 <= q < self.advice_queries@.len() ==> {
            &&& (#[trigger] self.advice_queries@[q]).0 < self.num_advice_columns
            &&& self.rotation_wf(self.advice_queries@[q].1, n)
        }
        &&& forall|q: int| 0 <= q < self.instance_queries@.len() ==> {
            &&& (#[trigger] self.instance_queries@[q]).0 < self.num_instance_columns
            &&& self.rotation_wf(self.instance_queries@[q].1, n)
        }
        &&& forall|g: int| 0 <= g < self.gates@.len() ==> (#[trigger] self.gates@[g]).wf(self, n)
        &&& forall|l: int| 0 <= l < self.lookups@.len() ==> (#[trigger] self.lookups@[l]).wf(self)
        &&& forall|p: int| 0 <= p < self.permutations@.len() ==> (#[trigger] self.permutations@[p]).wf(self)
    }
}

impl Gate {
    /// Every constraint expression and every queried cell is in range.
    pub open spec fn wf(self, cs: ConstraintSystem, n: int) -> bool {
        &&& forall|c: int| 0 <= c < self.constraints@.len()
            ==> (#[trigger] self.constraints@[c]).poly.wf(cs)
        &&& forall|c: int| 0 <= c < self.queried_cells@.len() ==> {
            &&& cs.column_wf((#[trigger] self.queried_cells@[c]).column)
            &&& cs.rotation_wf(self.queried_cells@[c].rotation, n)
        }
    }

    /// Whether this gate's queried-selector set contains `s`.
    pub open spec fn queries_selector(self, s: Selector) -> bool {
        exists|i: int| 0 <= i < self.queried_selectors@.len()
            && self.queried_selectors@[i] == s
    }
}

impl Lookup {
    /// Input and table tuples have the same width and every expression is in
    /// range.
    pub open spec fn wf(self, cs: ConstraintSystem) -> bool {
        &&& self.input_expressions@.len() == self.table_expressions@.len()
        &&& forall|i: int| 0 <= i < self.input_expressions@.len()
            ==> (#[trigger] self.input_expressions@[i]).wf(cs)
        &&& forall|i: int| 0 <= i < self.table_expressions@.len()
            ==> (#[trigger] self.table_expressions@[i]).wf(cs)
    }
}

impl Permutation {
    /// The declared columns form a set: each is valid for the system and
    /// listed once.
    pub open spec fn wf(self, cs: ConstraintSystem) -> bool {
        &&& forall|c: int| 0 <= c < self.columns@.len()
            ==> cs.column_wf(#[trigger] self.columns@[c])
        &&& forall|i: int, j: int| 0 <= i < j < self.columns@.len()
            ==> (#[trigger] self.columns@[i]) != (#[trigger] self.columns@[j])
    }
}

/// One operation of a synthesis script: the external synthesis process is a
/// sequence of these, executed in order against the witness recorder.
#[derive(Debug)]
pub enum SynthStep {
    /// Open a region of the given name.  Exactly one region may be open at a
    /// time.
    EnterRegion { name: String },
    /// Close the open region and append it to the finished-regions list.
    ExitRegion,
    /// Enable a selector at a row inside the open region.
    EnableSelector { selector: Selector, row: usize },
    /// Assign an advice cell; `None` stands for a witness value that was never
    /// supplied, which aborts synthesis.
    AssignAdvice { column: usize, row: usize, to: Option<Fp> },
    /// Assign a fixed cell; `None` stands for a value that could not be
    /// produced, which aborts synthesis.
    AssignFixed { column: usize, row: usize, to: Option<Fp> },
    /// Record a copy constraint between two cells of a permutation argument.
    Copy {
        permutation: usize,
        left_column: Column,
        left_row: usize,
        right_column: Column,
        right_row: usize,
    },
    /// A namespace label: accepted, and semantically inert.
    PushNamespace { name: String },
    /// Leave a namespace label: accepted, and semantically inert.
    PopNamespace,
}

/// Whether a script, started with a region already open or not, keeps to the
/// one-region-at-a-time discipline from step `i` on.  Opening a region while
/// one is open, or closing or enabling a selector while none is, is a contract
/// violation of the recorder, not a recoverable error.
pub open spec fn steps_region_wf_from(steps: Seq<SynthStep>, i: int, open_now: bool) -> bool
    decreases steps.len() - i,
{
    if i < 0 || i >= steps.len() {
        true
    } else {
        match steps[i] {
            SynthStep::EnterRegion { .. } =>
                !open_now && steps_region_wf_from(steps, i + 1, true),
            SynthStep::ExitRegion =>
                open_now && steps_region_wf_from(steps, i + 1, false),
            SynthStep::EnableSelector { .. } =>
                open_now && steps_region_wf_from(steps, i + 1, open_now),
            _ => steps_region_wf_from(steps, i + 1, open_now),
        }
    }
}

/// Whether a whole script keeps to the one-region-at-a-time discipline.
pub open spec fn steps_region_wf(steps: Seq<SynthStep>) -> bool {
    steps_region_wf_from(steps, 0, false)
}

/// A circuit, as the verifier consumes it: the constraint system that the
/// external configuration step built, and the synthesis script that the
/// external synthesis step would drive the recorder with.
#[derive(Debug)]
pub struct Circuit {
    pub cs: ConstraintSystem,
    pub steps: Vec<SynthStep>,
}

} // verus!
