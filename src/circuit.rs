//! The circuit that gadgets build on: gates of polynomial identities, a
//! check of those identities on concrete rows, and regions of witness cells.

use crate::expr::{Expr, Row};
use crate::field::Felt;
use vstd::prelude::*;

verus! {

/// A cell value that may not be known yet: unknown while the circuit's shape
/// is laid out, known while a proof's witness is generated.
#[derive(Clone, Copy, Debug, PartialEq, Eq)]
pub enum Witness {
    Unknown,
    Known(Felt),
}

impl Witness {
    /// A known value is a canonical field element.
    pub open spec fn wf(self) -> bool {
        match self {
            Witness::Unknown => true,
            Witness::Known(v) => v.wf(),
        }
    }
}

/// One polynomial identity, under a name that reports of failed checks show.
#[derive(Debug)]
pub struct Gate {
    pub name: String,
    pub polys: Vec<Expr>,
}

/// The identities that a circuit's rows must satisfy.
#[derive(Debug)]
pub struct ConstraintSystem {
    pub gates: Vec<Gate>,
}

/// The first identity found violated: which gate, which polynomial within it,
/// and the row.
#[derive(Clone, Copy, Debug, PartialEq, Eq)]
pub struct VerifyFailure {
    pub gate: usize,
    pub poly: usize,
    pub row: usize,
}

impl ConstraintSystem {
    /// Every polynomial has canonical constants.
    pub open spec fn wf(self) -> bool {
        forall|g: int, p: int|
            0 <= g < self.gates@.len() && 0 <= p < self.gates@[g].polys@.len()
                ==> #[trigger] self.gates@[g].polys@[p].wf()
    }

    /// Every polynomial of every gate vanishes on `row`.
    pub open spec fn holds_on(self, row: Row) -> bool {
        forall|g: int, p: int|
            0 <= g < self.gates@.len() && 0 <= p < self.gates@[g].polys@.len()
                ==> #[trigger] self.gates@[g].polys@[p].eval(row.sel_set(), row.adv_map()) == 0
    }

    /// A constraint system with no gates yet.
    pub fn new() -> (r: ConstraintSystem)
        ensures
            r.gates@.len() == 0,
            r.wf(),
    {
        ConstraintSystem { gates: Vec::new() }
    }

    /// The first gate and polynomial, in order, that does not vanish on `row`.
    pub fn check_row(&self, row: &Row) -> (r: Option<(usize, usize)>)
        requires
            self.wf(),
            row.wf(),
        ensures
            r is None <==> self.holds_on(*row),
            r matches Some((g, p)) ==> {
                &&& g < self.gates@.len()
                &&& p < self.gates@[g as int].polys@.len()
                &&& self.gates@[g as int].polys@[p as int].eval(row.sel_set(), row.adv_map()) != 0
            },
    {
        let mut g: usize = 0;
        while g < self.gates.len()
            invariant
                g <= self.gates@.len(),
                self.wf(),
                row.wf(),
                forall|i: int, p: int|
                    0 <= i < g && 0 <= p < self.gates@[i].polys@.len()
                        ==> #[trigger] self.gates@[i].polys@[p].eval(row.sel_set(), row.adv_map())
                        == 0,
            decreases self.gates@.len() - g,
        {
            let gate = &self.gates[g];
            let mut p: usize = 0;
            while p < gate.polys.len()
                invariant
                    g < self.gates@.len(),
                    *gate == self.gates@[g as int],
                    p <= gate.polys@.len(),
                    self.wf(),
                    row.wf(),
                    forall|i: int, q: int|
                        0 <= i < g && 0 <= q < self.gates@[i].polys@.len()
                            ==> #[trigger] self.gates@[i].polys@[q].eval(
                            row.sel_set(),
                            row.adv_map(),
                        ) == 0,
                    forall|q: int|
                        0 <= q < p ==> #[trigger] self.gates@[g as int].polys@[q].eval(
                            row.sel_set(),
                            row.adv_map(),
                        ) == 0,
                decreases gate.polys@.len() - p,
            {
                assert(self.gates@[g as int].polys@[p as int].wf());
                let v = gate.polys[p].evaluate(row);
                if !v.is_zero() {
                    return Some((g, p));
                }
                p = p + 1;
            }
            g = g + 1;
        }
        None
    }

    /// Checks every gate on every row, rows in order; fails with the first
    /// violated identity.
    pub fn verify(&self, rows: &Vec<Row>) -> (r: Result<(), VerifyFailure>)
        requires
            self.wf(),
            forall|i: int| 0 <= i < rows@.len() ==> #[trigger] rows@[i].wf(),
        ensures
            r is Ok <==> forall|i: int| 0 <= i < rows@.len() ==> self.holds_on(#[trigger] rows@[i]),
            r matches Err(f) ==> {
                &&& f.row < rows@.len()
                &&& f.gate < self.gates@.len()
                &&& f.poly < self.gates@[f.gate as int].polys@.len()
                &&& self.gates@[f.gate as int].polys@[f.poly as int].eval(
                    rows@[f.row as int].sel_set(),
                    rows@[f.row as int].adv_map(),
                ) != 0
                &&& forall|i: int| 0 <= i < f.row ==> self.holds_on(#[trigger] rows@[i])
            },
    {
        let mut i: usize = 0;
        while i < rows.len()
            invariant
                i <= rows@.len(),
                self.wf(),
                forall|j: int| 0 <= j < rows@.len() ==> #[trigger] rows@[j].wf(),
                forall|j: int| 0 <= j < i ==> self.holds_on(#[trigger] rows@[j]),
            decreases rows@.len() - i,
        {
            assert(rows@[i as int].wf());
            match self.check_row(&rows[i]) {
                Some((g, p)) => {
                    return Err(VerifyFailure { gate: g, poly: p, row: i });
                },
                None => {},
            }
            i = i + 1;
        }
        Ok(())
    }
}

/// The failure of a cell assignment.
#[derive(Clone, Copy, Debug, PartialEq, Eq)]
pub enum AssignError {
    /// The row lies outside the region's usable rows.
    NotEnoughRowsAvailable,
}

/// One assigned advice cell.
#[derive(Clone, Copy, Debug, PartialEq, Eq)]
pub struct Cell {
    pub column: usize,
    pub row: usize,
    pub value: Witness,
}

/// A range of rows being filled with witness values.
#[derive(Debug)]
pub struct Region {
    pub usable_rows: usize,
    pub cells: Vec<Cell>,
}

impl Region {
    /// An empty region of `usable_rows` rows.
    pub fn new(usable_rows: usize) -> (r: Region)
        ensures
            r.usable_rows == usable_rows,
            r.cells@.len() == 0,
    {
        Region { usable_rows, cells: Vec::new() }
    }

    /// Writes `value` into advice column `column` at row `offset`; fails,
    /// leaving the region as it was, where the row lies outside the region.
    pub fn assign_advice(&mut self, column: usize, offset: usize, value: Witness) -> (r: Result<
        (),
        AssignError,
    >)
        ensures
            final(self).usable_rows == old(self).usable_rows,
            r is Err <==> offset >= old(self).usable_rows,
            r matches Err(e) ==> e == AssignError::NotEnoughRowsAvailable && final(self).cells@
                == old(self).cells@,
            r is Ok ==> final(self).cells@ == old(self).cells@.push(
                Cell { column, row: offset, value },
            ),
    {
        if offset >= self.usable_rows {
            return Err(AssignError::NotEnoughRowsAvailable);
        }
        self.cells.push(Cell { column, row: offset, value });
        Ok(())
    }
}

} // verus!
