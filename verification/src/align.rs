//! Minimal-cost alignment of two token sequences (an edit-distance table
//! with a mismatch penalty), its traceback, and run-length encoding of the
//! resulting operations.

use crate::text::str_equal;
use vstd::laws_eq::obeys_concrete_eq;
use vstd::prelude::*;

verus! {

pub const DELETION_COST: usize = 2;

pub const INSERTION_COST: usize = 2;

pub const INITIAL_MISMATCH_PENALTY: usize = 1;

/// One step of an alignment between `x` (the old tokens) and `y` (the new tokens).
#[derive(Clone, Copy, Debug, Eq)]
pub enum Operation {
    NoOp,
    Deletion,
    Insertion,
}

impl PartialEq for Operation {
    fn eq(&self, other: &Self) -> (r: bool) {
        match (*self, *other) {
            (Operation::NoOp, Operation::NoOp) => true,
            (Operation::Deletion, Operation::Deletion) => true,
            (Operation::Insertion, Operation::Insertion) => true,
            _ => false,
        }
    }
}

impl vstd::std_specs::cmp::PartialEqSpecImpl for Operation {
    open spec fn obeys_eq_spec() -> bool {
        true
    }

    open spec fn eq_spec(&self, other: &Self) -> bool {
        *self == *other
    }
}

/// A cell of the dynamic-programming table.
#[derive(Clone, Copy, Debug)]
struct Cell {
    parent: usize,
    operation: Operation,
    cost: usize,
}

/// The mathematical content of a table cell.
pub struct CellModel {
    pub parent: int,
    pub operation: Operation,
    pub cost: int,
}

/// The characters of each token.
pub open spec fn token_views(v: Seq<&str>) -> Seq<Seq<char>> {
    v.map_values(|t: &str| t@)
}

/// Flat index of cell `(i, j)` (column `i` over `x`, row `j` over `y`) in a
/// table whose rows have `w` cells.
pub open spec fn flat_index(w: int, i: int, j: int) -> int {
    j * w + i
}

/// Cost of extending an alignment that ends in `c` by one more
/// insertion or deletion: a fresh run of mismatches pays the penalty.
pub open spec fn spec_mismatch_cost(c: CellModel, basic: int) -> int {
    c.cost + basic + if c.operation == Operation::NoOp {
        INITIAL_MISMATCH_PENALTY as int
    } else {
        0
    }
}

/// The table cell at column `i`, row `j` for token sequences `xs` and `ys`.
/// Among the candidates insertion (from above), deletion (from the left) and
/// match (from the diagonal, only when the tokens are equal), the first one of
/// least cost is taken.
pub open spec fn model_cell(xs: Seq<Seq<char>>, ys: Seq<Seq<char>>, i: nat, j: nat) -> CellModel
    decreases i + j,
{
    let w = xs.len() as int + 1;
    if i == 0 && j == 0 {
        CellModel { parent: 0, operation: Operation::NoOp, cost: 0 }
    } else if j == 0 {
        CellModel {
            parent: 0,
            operation: Operation::Deletion,
            cost: i * DELETION_COST + INITIAL_MISMATCH_PENALTY,
        }
    } else if i == 0 {
        CellModel {
            parent: 0,
            operation: Operation::Insertion,
            cost: j * INSERTION_COST + INITIAL_MISMATCH_PENALTY,
        }
    } else {
        let up = model_cell(xs, ys, i, (j - 1) as nat);
        let left = model_cell(xs, ys, (i - 1) as nat, j);
        let diag = model_cell(xs, ys, (i - 1) as nat, (j - 1) as nat);
        let c_ins = spec_mismatch_cost(up, INSERTION_COST as int);
        let c_del = spec_mismatch_cost(left, DELETION_COST as int);
        let c_diag = if xs[i - 1] == ys[j - 1] {
            diag.cost
        } else {
            usize::MAX as int
        };
        if c_ins <= c_del && c_ins <= c_diag {
            CellModel {
                parent: flat_index(w, i as int, j - 1),
                operation: Operation::Insertion,
                cost: c_ins,
            }
        } else if c_del <= c_diag {
            CellModel {
                parent: flat_index(w, i - 1, j as int),
                operation: Operation::Deletion,
                cost: c_del,
            }
        } else {
            CellModel {
                parent: flat_index(w, i - 1, j - 1),
                operation: Operation::NoOp,
                cost: c_diag,
            }
        }
    }
}

/// The operations read back from cell `(i, j)`: the chain of parents is
/// followed until a cell whose parent is the first cell.
pub open spec fn trace(xs: Seq<Seq<char>>, ys: Seq<Seq<char>>, i: nat, j: nat) -> Seq<Operation>
    decreases i + j,
{
    let c = model_cell(xs, ys, i, j);
    if c.parent == 0 || i == 0 || j == 0 {
        seq![c.operation]
    } else {
        let prev = match c.operation {
            Operation::Insertion => trace(xs, ys, i, (j - 1) as nat),
            Operation::Deletion => trace(xs, ys, (i - 1) as nat, j),
            Operation::NoOp => trace(xs, ys, (i - 1) as nat, (j - 1) as nat),
        };
        prev.push(c.operation)
    }
}

/// The operations of the alignment of `xs` against `ys`.
pub open spec fn alignment_operations(xs: Seq<Seq<char>>, ys: Seq<Seq<char>>) -> Seq<Operation> {
    trace(xs, ys, xs.len(), ys.len())
}

/// Every cost in the table is at most three per step away from the origin.
proof fn lemma_cost_bounds(xs: Seq<Seq<char>>, ys: Seq<Seq<char>>, i: nat, j: nat)
    ensures
        0 <= model_cell(xs, ys, i, j).cost <= 3 * (i + j) + 1,
    decreases i + j,
{
    if i > 0 && j > 0 {
        lemma_cost_bounds(xs, ys, i, (j - 1) as nat);
        lemma_cost_bounds(xs, ys, (i - 1) as nat, j);
        lemma_cost_bounds(xs, ys, (i - 1) as nat, (j - 1) as nat);
    }
}

proof fn lemma_index_bound(i: int, j: int, w: int, h: int)
    requires
        0 <= i < w,
        0 <= j < h,
    ensures
        0 <= j * w + i < h * w,
{
    assert(j * w <= (h - 1) * w) by (nonlinear_arith)
        requires
            0 <= j < h,
            0 < w,
    ;
    assert((h - 1) * w + w == h * w) by (nonlinear_arith);
    assert(0 <= j * w) by (nonlinear_arith)
        requires
            0 <= j,
            0 < w,
    ;
}

proof fn lemma_index_injective(i1: int, j1: int, i2: int, j2: int, w: int)
    requires
        0 <= i1 < w,
        0 <= i2 < w,
        0 <= j1,
        0 <= j2,
        j1 * w + i1 == j2 * w + i2,
    ensures
        i1 == i2,
        j1 == j2,
{
    if j1 < j2 {
        assert(j1 * w + w <= j2 * w) by (nonlinear_arith)
            requires
                j1 < j2,
                0 < w,
        ;
    } else if j2 < j1 {
        assert(j2 * w + w <= j1 * w) by (nonlinear_arith)
            requires
                j2 < j1,
                0 < w,
        ;
    }
}

/// A parent recorded in the table lies earlier in the table than its child.
proof fn lemma_parent_earlier(xs: Seq<Seq<char>>, ys: Seq<Seq<char>>, i: nat, j: nat)
    requires
        i >= 1,
        j >= 1,
    ensures
        ({
            let c = model_cell(xs, ys, i, j);
            let w = xs.len() as int + 1;
            &&& c.operation == Operation::Insertion ==> c.parent == flat_index(w, i as int, j - 1)
            &&& c.operation == Operation::Deletion ==> c.parent == flat_index(w, i - 1, j as int)
            &&& c.operation == Operation::NoOp ==> c.parent == flat_index(w, i - 1, j - 1)
            &&& 0 <= c.parent < flat_index(w, i as int, j as int)
        }),
{
    let w = xs.len() as int + 1;
    assert((j - 1) * w + w == j * w) by (nonlinear_arith);
    assert(0 <= (j - 1) * w) by (nonlinear_arith)
        requires
            j >= 1,
            w > 0,
    ;
}


spec fn cell_matches(c: Cell, m: CellModel) -> bool {
    &&& c.parent as int == m.parent
    &&& c.operation == m.operation
    &&& c.cost as int == m.cost
}

/// Sizes for which the table of `(n + 1) * (m + 1)` cells of 24 bytes can be
/// allocated at all.
pub open spec fn table_fits(n: nat, m: nat) -> bool {
    (n + 1) * (m + 1) <= isize::MAX as int / 24
}

/// An alignment of the tokens `x` against the tokens `y`, with the table of
/// optimal partial costs.
#[derive(Debug)]
pub struct Alignment<'a> {
    pub x: Vec<&'a str>,
    pub y: Vec<&'a str>,
    table: Vec<Cell>,
    dim: [usize; 2],
}

impl<'a> Alignment<'a> {
    /// The tokens of `x`.
    pub closed spec fn x_tokens(&self) -> Seq<&'a str> {
        self.x@
    }

    /// The tokens of `y`.
    pub closed spec fn y_tokens(&self) -> Seq<&'a str> {
        self.y@
    }

    pub closed spec fn xs(&self) -> Seq<Seq<char>> {
        token_views(self.x@)
    }

    pub closed spec fn ys(&self) -> Seq<Seq<char>> {
        token_views(self.y@)
    }

    /// The table has the shape that `x` and `y` call for, and starts at the origin cell.
    pub closed spec fn wf(&self) -> bool {
        &&& self.dim[0] == self.y.len() + 1
        &&& self.dim[1] == self.x.len() + 1
        &&& table_fits(self.x.len() as nat, self.y.len() as nat)
        &&& self.table.len() == self.dim[0] * self.dim[1]
        &&& cell_matches(self.table[0], model_cell(self.xs(), self.ys(), 0, 0))
    }

    pub closed spec fn cell_ok(&self, i: nat, j: nat) -> bool {
        cell_matches(
            self.table[flat_index(self.x.len() + 1, i as int, j as int)],
            model_cell(self.xs(), self.ys(), i, j),
        )
    }

    /// Every cell of the table holds its optimal cost and choice.
    pub closed spec fn filled(&self) -> bool {
        &&& self.wf()
        &&& forall|i: nat, j: nat|
            i <= self.x.len() && j <= self.y.len() ==> #[trigger] self.cell_ok(i, j)
    }

    /// The tokens of `x`.
    pub fn x(&self) -> (r: &Vec<&'a str>)
        ensures
            r@ == self.x_tokens(),
    {
        &self.x
    }

    /// The tokens of `y`.
    pub fn y(&self) -> (r: &Vec<&'a str>)
        ensures
            r@ == self.y_tokens(),
    {
        &self.y
    }

    /// Builds the table for `x` against `y` and fills it.
    pub fn new(x: Vec<&'a str>, y: Vec<&'a str>) -> (res: Self)
        requires
            table_fits(x.len() as nat, y.len() as nat),
        ensures
            res.x_tokens() == x@,
            res.y_tokens() == y@,
            res.wf(),
            res.filled(),
    {
        proof {
            assert((x.len() + 1) * (y.len() + 1) == (y.len() + 1) * (x.len() + 1))
                by (nonlinear_arith);
        }
        proof {
            assert(x.len() + 1 <= (x.len() + 1) * (y.len() + 1)) by (nonlinear_arith);
            assert(y.len() + 1 <= (x.len() + 1) * (y.len() + 1)) by (nonlinear_arith);
        }
        let dim = [y.len() + 1, x.len() + 1];
        let table = vec![Cell { parent: 0, operation: Operation::NoOp, cost: 0 }; dim[0] * dim[1]];
        let mut alignment = Self { x, y, table, dim };
        proof {
            lemma_index_bound(0, 0, alignment.dim[1] as int, alignment.dim[0] as int);
        }
        alignment.fill();
        alignment
    }

    /// Fills the table: the first row and column, then every other cell from
    /// its three neighbours.
    pub fn fill(&mut self)
        requires
            old(self).wf(),
        ensures
            final(self).wf(),
            final(self).filled(),
            final(self).x_tokens() == old(self).x_tokens(),
            final(self).y_tokens() == old(self).y_tokens(),
    {
        let w = self.dim[1];
        let h = self.dim[0];
        let n = self.x.len();
        let m = self.y.len();
        let ghost xs = self.xs();
        let ghost ys = self.ys();
        proof {
            assert(n + m + 1 <= (n + 1) * (m + 1)) by (nonlinear_arith);
        }
        let mut i: usize = 1;
        while i < w
            invariant
                self.wf(),
                w == n + 1,
                h == m + 1,
                n == self.x.len(),
                m == self.y.len(),
                xs == self.xs(),
                ys == self.ys(),
                self.x == old(self).x,
                self.y == old(self).y,
                n + m + 1 <= (n + 1) * (m + 1),
                1 <= i <= w,
                forall|ii: nat| ii < i ==> #[trigger] self.cell_ok(ii, 0),
            decreases w - i,
        {
            proof {
                lemma_index_bound(i as int, 0, w as int, h as int);
            }
            let ghost prev = *self;
            self.table.set(
                i,
                Cell {
                    parent: 0,
                    operation: Operation::Deletion,
                    cost: i * DELETION_COST + INITIAL_MISMATCH_PENALTY,
                },
            );
            proof {
                assert forall|ii: nat| ii < i + 1 implies #[trigger] self.cell_ok(ii, 0) by {
                    if ii != i {
                        assert(prev.cell_ok(ii, 0));
                        assert(self.cell_ok(ii, 0));
                    }
                }
            }
            i = i + 1;
        }
        let mut j: usize = 1;
        while j < h
            invariant
                self.wf(),
                w == n + 1,
                h == m + 1,
                n == self.x.len(),
                m == self.y.len(),
                xs == self.xs(),
                ys == self.ys(),
                self.x == old(self).x,
                self.y == old(self).y,
                n + m + 1 <= (n + 1) * (m + 1),
                1 <= j <= h,
                forall|ii: nat| ii <= n ==> #[trigger] self.cell_ok(ii, 0),
                forall|jj: nat| jj < j ==> #[trigger] self.cell_ok(0, jj),
            decreases h - j,
        {
            proof {
                lemma_index_bound(0, j as int, w as int, h as int);
            }
            let k = j * w;
            proof {
                if k == 0 {
                    lemma_index_injective(0, 0, 0, j as int, w as int);
                }
            }
            let ghost prev = *self;
            self.table.set(
                k,
                Cell {
                    parent: 0,
                    operation: Operation::Insertion,
                    cost: j * INSERTION_COST + INITIAL_MISMATCH_PENALTY,
                },
            );
            proof {
                assert forall|ii: nat| ii <= n implies #[trigger] self.cell_ok(ii, 0) by {
                    lemma_index_bound(ii as int, 0, w as int, h as int);
                    if ii == k {
                        lemma_index_injective(ii as int, 0, 0, j as int, w as int);
                    }
                    assert(prev.cell_ok(ii, 0));
                    assert(self.cell_ok(ii, 0));
                }
                assert forall|jj: nat| jj < j + 1 implies #[trigger] self.cell_ok(0, jj) by {
                    if jj != j {
                        lemma_index_bound(0, jj as int, w as int, h as int);
                        if jj * w == k {
                            lemma_index_injective(0, jj as int, 0, j as int, w as int);
                        }
                        assert(prev.cell_ok(0, jj));
                        assert(self.cell_ok(0, jj));
                    }
                }
            }
            j = j + 1;
        }
        let mut i: usize = 0;
        while i < n
            invariant
                self.wf(),
                w == n + 1,
                h == m + 1,
                n == self.x.len(),
                m == self.y.len(),
                xs == self.xs(),
                ys == self.ys(),
                self.x == old(self).x,
                self.y == old(self).y,
                n + m + 1 <= (n + 1) * (m + 1),
                0 <= i <= n,
                forall|ii: nat, jj: nat|
                    ii <= n && jj <= m && (ii <= i || jj == 0 || ii == 0) ==> #[trigger] self.cell_ok(
                        ii,
                        jj,
                    ),
            decreases n - i,
        {
            let mut j: usize = 0;
            while j < m
                invariant
                    self.wf(),
                    w == n + 1,
                    h == m + 1,
                    n == self.x.len(),
                    m == self.y.len(),
                    xs == self.xs(),
                    ys == self.ys(),
                    self.x == old(self).x,
                    self.y == old(self).y,
                    n + m + 1 <= (n + 1) * (m + 1),
                    0 <= i < n,
                    0 <= j <= m,
                    forall|ii: nat, jj: nat|
                        ii <= n && jj <= m && (ii <= i || jj == 0 || ii == 0 || (ii == i + 1 && jj
                            <= j)) ==> #[trigger] self.cell_ok(ii, jj),
                decreases m - j,
            {
                proof {
                    lemma_index_bound(i as int, (j + 1) as int, w as int, h as int);
                    lemma_index_bound(i as int, j as int, w as int, h as int);
                    lemma_index_bound((i + 1) as int, j as int, w as int, h as int);
                    lemma_index_bound((i + 1) as int, (j + 1) as int, w as int, h as int);
                    assert(self.cell_ok(i as nat, (j + 1) as nat));
                    assert(self.cell_ok(i as nat, j as nat));
                    assert(self.cell_ok((i + 1) as nat, j as nat));
                    lemma_cost_bounds(xs, ys, i as nat, (j + 1) as nat);
                    lemma_cost_bounds(xs, ys, (i + 1) as nat, j as nat);
                    lemma_cost_bounds(xs, ys, i as nat, j as nat);
                }
                let left = self.index(i, j + 1);
                let diag = self.index(i, j);
                let up = self.index(i + 1, j);
                let c_ins = self.mismatch_cost(up, INSERTION_COST);
                let c_del = self.mismatch_cost(left, DELETION_COST);
                let c_diag = if str_equal(self.x[i], self.y[j]) {
                    self.table[diag].cost
                } else {
                    usize::MAX
                };
                let chosen = if c_ins <= c_del && c_ins <= c_diag {
                    Cell { parent: up, operation: Operation::Insertion, cost: c_ins }
                } else if c_del <= c_diag {
                    Cell { parent: left, operation: Operation::Deletion, cost: c_del }
                } else {
                    Cell { parent: diag, operation: Operation::NoOp, cost: c_diag }
                };
                let index = self.index(i + 1, j + 1);
                proof {
                    assert(xs[i as int] == self.x[i as int]@);
                    assert(ys[j as int] == self.y[j as int]@);
                    assert(cell_matches(chosen, model_cell(xs, ys, (i + 1) as nat, (j + 1) as nat)));
                }
                let ghost prev = *self;
                self.table.set(index, chosen);
                proof {
                    assert forall|ii: nat, jj: nat|
                        ii <= n && jj <= m && (ii <= i || jj == 0 || ii == 0 || (ii == i + 1 && jj
                            <= j + 1)) implies #[trigger] self.cell_ok(ii, jj) by {
                        lemma_index_bound(ii as int, jj as int, w as int, h as int);
                        if ii != i + 1 || jj != j + 1 {
                            if jj * w + ii == index {
                                lemma_index_injective(
                                    ii as int,
                                    jj as int,
                                    (i + 1) as int,
                                    (j + 1) as int,
                                    w as int,
                                );
                            }
                            assert(prev.cell_ok(ii, jj));
                            assert(self.cell_ok(ii, jj));
                        }
                    }
                }
                j = j + 1;
            }
            i = i + 1;
        }
        proof {
            assert forall|ii: nat, jj: nat| ii <= n && jj <= m implies #[trigger] self.cell_ok(
                ii,
                jj,
            ) by {
                assert(ii <= i);
            }
        }
    }

    /// Cost of extending the alignment that ends at `parent` by one insertion
    /// or deletion.
    fn mismatch_cost(&self, parent: usize, basic_cost: usize) -> (r: usize)
        requires
            parent < self.table.len(),
            self.table[parent as int].cost + basic_cost + INITIAL_MISMATCH_PENALTY <= usize::MAX,
        ensures
            r == self.table[parent as int].cost + basic_cost + if self.table[parent as int].operation
                == Operation::NoOp {
                INITIAL_MISMATCH_PENALTY
            } else {
                0
            },
    {
        self.table[parent].cost + basic_cost + if self.table[parent].operation == Operation::NoOp {
            INITIAL_MISMATCH_PENALTY
        } else {
            0
        }
    }

    /// The operations of the alignment, from the start of both sequences to
    /// their ends, read back along the chosen parents.
    pub fn operations(&self) -> (ops: Vec<Operation>)
        requires
            self.filled(),
        ensures
            ops@ == alignment_operations(token_views(self.x_tokens()), token_views(self.y_tokens())),
    {
        let ghost xs = self.xs();
        let ghost ys = self.ys();
        let n = self.x.len();
        let m = self.y.len();
        let mut reversed: Vec<Operation> = Vec::with_capacity(if n > m { n } else { m });
        let mut k = self.index(n, m);
        let ghost mut ci: nat = n as nat;
        let ghost mut cj: nat = m as nat;
        loop
            invariant_except_break
                trace(xs, ys, n as nat, m as nat) == trace(xs, ys, ci, cj) + reversed@.reverse(),
            invariant
                self.filled(),
                xs == self.xs(),
                ys == self.ys(),
                n == self.x.len(),
                m == self.y.len(),
                ci <= n,
                cj <= m,
                k == flat_index(n + 1, ci as int, cj as int),
            ensures
                trace(xs, ys, n as nat, m as nat) == reversed@.reverse(),
            decreases k,
        {
            proof {
                lemma_index_bound(ci as int, cj as int, n + 1, m + 1);
                assert(self.cell_ok(ci, cj));
            }
            let cell = self.table[k];
            let ghost before = reversed@;
            reversed.push(cell.operation);
            proof {
                assert(seq![cell.operation] + reversed@.drop_last().reverse() =~= reversed@.reverse());
            }
            if cell.parent == 0 {
                proof {
                    assert(trace(xs, ys, ci, cj) == seq![cell.operation]);
                    assert(reversed@.drop_last() =~= before);
                }
                break;
            }
            proof {
                lemma_parent_earlier(xs, ys, ci, cj);
                let prev_i = ci;
                let prev_j = cj;
                match cell.operation {
                    Operation::Insertion => {
                        cj = (cj - 1) as nat;
                    },
                    Operation::Deletion => {
                        ci = (ci - 1) as nat;
                    },
                    Operation::NoOp => {
                        ci = (ci - 1) as nat;
                        cj = (cj - 1) as nat;
                    },
                }
                assert(trace(xs, ys, prev_i, prev_j) == trace(xs, ys, ci, cj).push(cell.operation));
                assert(reversed@.drop_last() =~= before);
                assert(trace(xs, ys, ci, cj).push(cell.operation) + reversed@.drop_last().reverse()
                    =~= trace(xs, ys, ci, cj) + reversed@.reverse());
            }
            k = cell.parent;
        }
        let len = reversed.len();
        let mut ops: Vec<Operation> = Vec::with_capacity(len);
        let mut t: usize = 0;
        while t < len
            invariant
                len == reversed.len(),
                t <= len,
                ops.len() == t,
                forall|q: int| 0 <= q < t ==> ops@[q] == reversed@[len - 1 - q],
            decreases len - t,
        {
            ops.push(reversed[len - 1 - t]);
            t = t + 1;
        }
        proof {
            assert(ops@ =~= reversed@.reverse());
            assert(trace(xs, ys, n as nat, m as nat) == reversed@.reverse());
        }
        ops
    }

    /// The operations with each run of equal operations replaced by the
    /// operation and the length of the run.
    pub fn coalesced_operations(&self) -> (runs: Vec<(Operation, usize)>)
        requires
            self.filled(),
        ensures
            is_run_length_encoding(
                runs@,
                alignment_operations(token_views(self.x_tokens()), token_views(self.y_tokens())),
            ),
            runs@ == run_length_encoding(
                alignment_operations(token_views(self.x_tokens()), token_views(self.y_tokens())),
            ),
    {
        proof {
            reveal(obeys_concrete_eq);
        }
        let runs = run_length_encode(self.operations());
        proof {
            let ops = alignment_operations(token_views(self.x_tokens()), token_views(self.y_tokens()));
            lemma_run_length_encoding_unique(runs@, run_length_encoding(ops), ops);
        }
        runs
    }

    fn index(&self, i: usize, j: usize) -> (r: usize)
        requires
            self.wf(),
            i <= self.x.len(),
            j <= self.y.len(),
        ensures
            r == flat_index(self.x.len() + 1, i as int, j as int),
            r < self.table.len(),
    {
        proof {
            lemma_index_bound(i as int, j as int, self.dim[1] as int, self.dim[0] as int);
        }
        j * self.dim[1] + i
    }
}


/// The sequence that a list of runs stands for.
pub open spec fn run_length_decode<T>(runs: Seq<(T, usize)>) -> Seq<T>
    decreases runs.len(),
{
    if runs.len() == 0 {
        Seq::empty()
    } else {
        run_length_decode(runs.drop_last()) + Seq::new(
            runs.last().1 as nat,
            |k: int| runs.last().0,
        )
    }
}

/// `runs` is the run-length encoding of `s`: it decodes to `s`, no run is
/// empty, and two neighbouring runs never hold the same value.
pub open spec fn is_run_length_encoding<T>(runs: Seq<(T, usize)>, s: Seq<T>) -> bool {
    &&& run_length_decode(runs) == s
    &&& forall|k: int| 0 <= k < runs.len() ==> #[trigger] runs[k].1 > 0
    &&& forall|k: int| 0 <= k < runs.len() - 1 ==> #[trigger] runs[k].0 != runs[k + 1].0
}

/// Replaces each run of equal values by the value and its length. Values
/// are compared with their `==`, which must be equality of the values.
#[verifier::rlimit(40)]
pub fn run_length_encode<T: Copy + PartialEq>(sequence: Vec<T>) -> (encoded: Vec<(T, usize)>)
    requires
        obeys_concrete_eq::<T>(),
    ensures
        is_run_length_encoding(encoded@, sequence@),
{
    let mut encoded: Vec<(T, usize)> = Vec::with_capacity(sequence.len());
    if sequence.len() == 0 {
        proof {
            assert(sequence@ =~= Seq::<T>::empty());
        }
        return encoded;
    }
    let end = sequence.len();
    let mut i: usize = 0;
    let mut j: usize = 1;
    let mut curr = sequence[0];
    loop
        invariant
            obeys_concrete_eq::<T>(),
            end == sequence.len(),
            0 <= i < j <= end,
            curr == sequence@[i as int],
            forall|t: int| i <= t < j ==> sequence@[t] == curr,
            run_length_decode(encoded@) == sequence@.subrange(0, i as int),
            forall|k: int| 0 <= k < encoded@.len() ==> #[trigger] encoded@[k].1 > 0,
            forall|k: int| 0 <= k < encoded@.len() - 1 ==> #[trigger] encoded@[k].0 != encoded@[k + 1].0,
            encoded@.len() > 0 ==> encoded@.last().0 != curr,
            i > 0 ==> sequence@[i - 1] != curr,
        decreases end - j,
    {
        proof {
            reveal(obeys_concrete_eq);
        }
        if j == end || sequence[j] != curr {
            let ghost before = encoded@;
            encoded.push((curr, j - i));
            proof {
                assert(encoded@.drop_last() =~= before);
                assert(Seq::new((j - i) as nat, |k: int| curr) =~= sequence@.subrange(i as int, j as int));
                assert(sequence@.subrange(0, i as int) + sequence@.subrange(i as int, j as int)
                    =~= sequence@.subrange(0, j as int));
            }
            if j == end {
                proof {
                    assert(sequence@.subrange(0, end as int) =~= sequence@);
                }
                return encoded;
            } else {
                curr = sequence[j];
                i = j;
            }
        }
        j = j + 1;
    }
}


proof fn lemma_decode_len<T>(runs: Seq<(T, usize)>)
    ensures
        run_length_decode(runs).len() >= 0,
        runs.len() > 0 ==> run_length_decode(runs).len() >= runs.last().1,
        runs.len() > 0 && runs.last().1 > 0 ==> run_length_decode(runs).last() == runs.last().0,
    decreases runs.len(),
{
    if runs.len() > 0 {
        lemma_decode_len(runs.drop_last());
    }
}

proof fn lemma_encoding_prefix<T>(runs: Seq<(T, usize)>, s: Seq<T>)
    requires
        is_run_length_encoding(runs, s),
        runs.len() > 0,
    ensures
        is_run_length_encoding(runs.drop_last(), s.subrange(0, s.len() - runs.last().1)),
        runs.last().1 <= s.len(),
        forall|t: int| s.len() - runs.last().1 <= t < s.len() ==> s[t] == runs.last().0,
        s.len() - runs.last().1 > 0 ==> s[s.len() - runs.last().1 - 1] != runs.last().0,
{
    let front = runs.drop_last();
    let c = runs.last().1 as int;
    let tail = Seq::new(c as nat, |k: int| runs.last().0);
    assert(s == run_length_decode(front) + tail);
    assert(s.subrange(0, s.len() - c) =~= run_length_decode(front));
    assert forall|t: int| s.len() - c <= t < s.len() implies s[t] == runs.last().0 by {
        assert(s[t] == tail[t - (s.len() - c)]);
    }
    if front.len() > 0 {
        assert(front[front.len() - 1] == runs[runs.len() - 2]);
        assert(runs[runs.len() - 2].0 != runs[runs.len() - 1].0);
        assert(front.last().1 > 0);
        lemma_decode_len(front);
    }
    assert forall|k: int| 0 <= k < front.len() implies #[trigger] front[k].1 > 0 by {
        assert(front[k] == runs[k]);
    }
    assert forall|k: int| 0 <= k < front.len() - 1 implies #[trigger] front[k].0 != front[k + 1].0 by {
        assert(front[k] == runs[k]);
        assert(front[k + 1] == runs[k + 1]);
    }
}

/// A sequence has exactly one run-length encoding: whatever satisfies
/// `is_run_length_encoding` for `s` is the encoding that
/// `run_length_encode` returns.
pub proof fn lemma_run_length_encoding_unique<T>(
    r1: Seq<(T, usize)>,
    r2: Seq<(T, usize)>,
    s: Seq<T>,
)
    requires
        is_run_length_encoding(r1, s),
        is_run_length_encoding(r2, s),
    ensures
        r1 == r2,
    decreases r1.len() + r2.len(),
{
    if r1.len() == 0 || r2.len() == 0 {
        if r1.len() > 0 {
            assert(r1.last().1 > 0);
            lemma_decode_len(r1);
        }
        if r2.len() > 0 {
            assert(r2.last().1 > 0);
            lemma_decode_len(r2);
        }
        assert(r1 =~= r2);
    } else {
        assert(r1.last().1 > 0);
        assert(r2.last().1 > 0);
        lemma_encoding_prefix(r1, s);
        lemma_encoding_prefix(r2, s);
        let c1 = r1.last().1 as int;
        let c2 = r2.last().1 as int;
        assert(r1.last().0 == s[s.len() - 1]);
        assert(r2.last().0 == s[s.len() - 1]);
        if c1 < c2 {
            assert(s[s.len() - c1 - 1] == r2.last().0);
        } else if c2 < c1 {
            assert(s[s.len() - c2 - 1] == r1.last().0);
        }
        lemma_run_length_encoding_unique(r1.drop_last(), r2.drop_last(), s.subrange(0, s.len() - c1));
        assert(r1 =~= r1.drop_last().push(r1.last()));
        assert(r2 =~= r2.drop_last().push(r2.last()));
    }
}

/// Every sequence short enough for its run lengths to fit in `usize` has a
/// run-length encoding, so `run_length_encoding` picks one.
pub proof fn lemma_run_length_encoding_exists<T>(s: Seq<T>)
    requires
        s.len() <= usize::MAX,
    ensures
        is_run_length_encoding(run_length_encoding(s), s),
    decreases s.len(),
{
    if s.len() == 0 {
        let r = Seq::<(T, usize)>::empty();
        assert(run_length_decode(r) =~= s);
        assert(is_run_length_encoding(r, s));
    } else {
        let p = s.drop_last();
        let op = s.last();
        lemma_run_length_encoding_exists(p);
        let r = run_length_encoding(p);
        assert(s =~= p.push(op));
        if r.len() > 0 && r.last().0 == op {
            let n = r.last().1;
            lemma_decode_len(r);
            assert(n + 1 <= usize::MAX);
            let r2 = r.update(r.len() - 1, (op, (n + 1) as usize));
            assert(r2.drop_last() =~= r.drop_last());
            assert(run_length_decode(r) == run_length_decode(r.drop_last()) + Seq::new(
                n as nat,
                |k: int| op,
            ));
            assert(Seq::new((n + 1) as nat, |k: int| op) =~= Seq::new(n as nat, |k: int| op).push(
                op,
            ));
            assert(run_length_decode(r2) =~= s);
            assert forall|k: int| 0 <= k < r2.len() implies #[trigger] r2[k].1 > 0 by {
                if k < r.len() - 1 {
                    assert(r2[k] == r[k]);
                }
            }
            assert forall|k: int| 0 <= k < r2.len() - 1 implies #[trigger] r2[k].0 != r2[k + 1].0 by {
                assert(r2[k] == r[k]);
                assert(r2[k + 1].0 == r[k + 1].0);
            }
            assert(is_run_length_encoding(r2, s));
        } else {
            let r2 = r.push((op, 1usize));
            assert(r2.drop_last() =~= r);
            assert(Seq::new(1nat, |k: int| op) =~= seq![op]);
            assert(run_length_decode(r2) =~= s);
            assert forall|k: int| 0 <= k < r2.len() implies #[trigger] r2[k].1 > 0 by {
                if k < r.len() {
                    assert(r2[k] == r[k]);
                }
            }
            assert forall|k: int| 0 <= k < r2.len() - 1 implies #[trigger] r2[k].0 != r2[k + 1].0 by {
                assert(r2[k] == r[k]);
                if k + 1 < r.len() {
                    assert(r2[k + 1] == r[k + 1]);
                }
            }
            assert(is_run_length_encoding(r2, s));
        }
    }
}

/// `n` matches in a row.
pub open spec fn all_matches(n: nat) -> Seq<Operation> {
    Seq::new(n, |k: int| Operation::NoOp)
}

proof fn lemma_self_alignment_cells(xs: Seq<Seq<char>>, i: nat)
    requires
        1 <= i <= xs.len(),
    ensures
        model_cell(xs, xs, i, i).cost == 0,
        model_cell(xs, xs, i, i).operation == Operation::NoOp,
        model_cell(xs, xs, i, i).parent == flat_index(xs.len() as int + 1, i - 1, i - 1),
    decreases i,
{
    let p = (i - 1) as nat;
    if i > 1 {
        lemma_self_alignment_cells(xs, p);
    }
    lemma_cost_bounds(xs, xs, i, p);
    lemma_cost_bounds(xs, xs, p, i);
    let up = model_cell(xs, xs, i, p);
    let left = model_cell(xs, xs, p, i);
    let diag = model_cell(xs, xs, p, p);
    assert(diag.cost == 0);
    assert(spec_mismatch_cost(up, INSERTION_COST as int) > 0);
    assert(spec_mismatch_cost(left, DELETION_COST as int) > 0);
    assert(xs[i - 1] == xs[i - 1]);
}

proof fn lemma_self_alignment_trace(xs: Seq<Seq<char>>, i: nat)
    requires
        1 <= i <= xs.len(),
    ensures
        trace(xs, xs, i, i) == all_matches(i),
    decreases i,
{
    lemma_self_alignment_cells(xs, i);
    let w = xs.len() as int + 1;
    if i > 1 {
        lemma_self_alignment_trace(xs, (i - 1) as nat);
        assert((i - 1) * w + (i - 1) > 0) by (nonlinear_arith)
            requires
                i > 1,
                w > 0,
        ;
        let p = (i - 1) as nat;
        assert(model_cell(xs, xs, i, i).parent != 0);
        assert(trace(xs, xs, i, i) == trace(xs, xs, p, p).push(Operation::NoOp));
        assert(trace(xs, xs, i, i) =~= all_matches(i));
    } else {
        assert(flat_index(w, 0, 0) == 0);
        assert(model_cell(xs, xs, 1, 1).parent == 0);
        assert(trace(xs, xs, 1, 1) == seq![Operation::NoOp]);
        assert(all_matches(1) =~= seq![Operation::NoOp]);
    }
}

/// Aligning a non-empty token sequence with itself matches every token and
/// reports no insertion or deletion.
pub proof fn lemma_self_alignment_is_all_matches(xs: Seq<Seq<char>>)
    requires
        xs.len() > 0,
    ensures
        alignment_operations(xs, xs) == all_matches(xs.len()),
{
    lemma_self_alignment_trace(xs, xs.len());
}


/// How many tokens of `x` the operations step over.
pub open spec fn x_consumed(ops: Seq<Operation>) -> nat
    decreases ops.len(),
{
    if ops.len() == 0 {
        0
    } else {
        x_consumed(ops.drop_last()) + if ops.last() != Operation::Insertion {
            1nat
        } else {
            0nat
        }
    }
}

/// How many tokens of `y` the operations step over.
pub open spec fn y_consumed(ops: Seq<Operation>) -> nat
    decreases ops.len(),
{
    if ops.len() == 0 {
        0
    } else {
        y_consumed(ops.drop_last()) + if ops.last() != Operation::Deletion {
            1nat
        } else {
            0nat
        }
    }
}

pub proof fn lemma_consumed_concat(a: Seq<Operation>, b: Seq<Operation>)
    ensures
        x_consumed(a + b) == x_consumed(a) + x_consumed(b),
        y_consumed(a + b) == y_consumed(a) + y_consumed(b),
    decreases b.len(),
{
    if b.len() == 0 {
        assert(a + b =~= a);
    } else {
        lemma_consumed_concat(a, b.drop_last());
        assert((a + b).drop_last() =~= a + b.drop_last());
    }
}

/// The operations read back from a cell never step over more tokens than
/// precede the cell, except from the origin cell itself.
pub proof fn lemma_trace_consumption(xs: Seq<Seq<char>>, ys: Seq<Seq<char>>, i: nat, j: nat)
    requires
        i >= 1 || j >= 1,
    ensures
        x_consumed(trace(xs, ys, i, j)) <= i,
        y_consumed(trace(xs, ys, i, j)) <= j,
        trace(xs, ys, i, j).len() > 0,
    decreases i + j,
{
    let c = model_cell(xs, ys, i, j);
    let w = xs.len() as int + 1;
    let t = trace(xs, ys, i, j);
    if c.parent == 0 || i == 0 || j == 0 {
        assert(t == seq![c.operation]);
        assert(t.drop_last() =~= Seq::<Operation>::empty());
        if i >= 1 && j >= 1 {
            lemma_parent_earlier(xs, ys, i, j);
            if c.operation == Operation::Insertion {
                assert(j - 1 >= 0);
                lemma_index_injective(i as int, j - 1, 0, 0, w);
                assert(false);
            } else if c.operation == Operation::Deletion {
                lemma_index_injective(i - 1, j as int, 0, 0, w);
                assert(false);
            } else {
                lemma_index_injective(i - 1, j - 1, 0, 0, w);
                assert(i == 1 && j == 1);
            }
        }
        assert(x_consumed(t) == x_consumed(t.drop_last()) + if t.last() != Operation::Insertion {
            1nat
        } else {
            0nat
        });
        assert(y_consumed(t) == y_consumed(t.drop_last()) + if t.last() != Operation::Deletion {
            1nat
        } else {
            0nat
        });
    } else {
        lemma_parent_earlier(xs, ys, i, j);
        let (pi, pj) = match c.operation {
            Operation::Insertion => (i, (j - 1) as nat),
            Operation::Deletion => ((i - 1) as nat, j),
            Operation::NoOp => ((i - 1) as nat, (j - 1) as nat),
        };
        if c.operation == Operation::NoOp && pi == 0 && pj == 0 {
            assert(flat_index(w, 0, 0) == 0);
            assert(false);
        }
        lemma_trace_consumption(xs, ys, pi, pj);
        let prev = trace(xs, ys, pi, pj);
        assert(t == prev.push(c.operation));
        assert(t.drop_last() =~= prev);
    }
}

/// The run-length encoding of `s` (there is exactly one, see
/// `lemma_run_length_encoding_unique`).
pub open spec fn run_length_encoding<T>(s: Seq<T>) -> Seq<(T, usize)> {
    choose|r: Seq<(T, usize)>| is_run_length_encoding(r, s)
}

/// The operations of the first `k` runs.
pub proof fn lemma_decode_take<T>(runs: Seq<(T, usize)>, k: int)
    requires
        0 <= k < runs.len(),
    ensures
        run_length_decode(runs.take(k + 1)) == run_length_decode(runs.take(k)) + Seq::new(
            runs[k].1 as nat,
            |t: int| runs[k].0,
        ),
{
    assert(runs.take(k + 1).drop_last() =~= runs.take(k));
    assert(runs.take(k + 1).last() == runs[k]);
}


/// The first column of cells past the corner: with equal first tokens the
/// corner cell is a match, and every cell below it a deletion from the
/// cell above, at a cost that leaves the edge of the table out of reach.
proof fn lemma_first_column(xs: Seq<Seq<char>>, ys: Seq<Seq<char>>, k: nat)
    requires
        xs.len() >= 1,
        ys.len() >= 1,
        xs[0] == ys[0],
        1 <= k <= xs.len(),
        xs.len() <= isize::MAX as int / 24,
    ensures
        k == 1 ==> model_cell(xs, ys, k, 1).operation == Operation::NoOp,
        k == 1 ==> model_cell(xs, ys, k, 1).parent == 0,
        k == 1 ==> model_cell(xs, ys, k, 1).cost == 0,
        k >= 2 ==> model_cell(xs, ys, k, 1).operation == Operation::Deletion,
        k >= 2 ==> model_cell(xs, ys, k, 1).parent == flat_index(xs.len() as int + 1, k - 1, 1),
        k >= 2 ==> model_cell(xs, ys, k, 1).cost <= 2 * k - 1,
    decreases k,
{
    reveal_with_fuel(model_cell, 2);
    let w = xs.len() as int + 1;
    let up = model_cell(xs, ys, k, 0);
    let left = model_cell(xs, ys, (k - 1) as nat, 1);
    let diag = model_cell(xs, ys, (k - 1) as nat, 0);
    assert(up.cost == 2 * k + 1 && up.operation == Operation::Deletion);
    assert(spec_mismatch_cost(up, INSERTION_COST as int) == 2 * k + 3);
    if k >= 2 {
        lemma_first_column(xs, ys, (k - 1) as nat);
        assert(spec_mismatch_cost(left, DELETION_COST as int) <= 2 * k - 1);
        assert(diag.cost == 2 * k - 1);
        let c = model_cell(xs, ys, k, 1);
        assert(c.operation == Operation::Deletion);
        assert(c.parent == flat_index(w, k - 1, 1));
        assert(c.cost <= 2 * k - 1);
    } else {
        assert(left.cost == 3 && left.operation == Operation::Insertion);
        assert(diag.cost == 0);
        assert(xs[0] == ys[0]);
        assert(flat_index(w, 0, 0) == 0);
    }
}

/// The first row of cells past the corner, likewise with insertions.
proof fn lemma_first_row(xs: Seq<Seq<char>>, ys: Seq<Seq<char>>, k: nat)
    requires
        xs.len() >= 1,
        ys.len() >= 1,
        xs[0] == ys[0],
        1 <= k <= ys.len(),
        ys.len() <= isize::MAX as int / 24,
    ensures
        k == 1 ==> model_cell(xs, ys, 1, k).operation == Operation::NoOp,
        k == 1 ==> model_cell(xs, ys, 1, k).parent == 0,
        k == 1 ==> model_cell(xs, ys, 1, k).cost == 0,
        k >= 2 ==> model_cell(xs, ys, 1, k).operation == Operation::Insertion,
        k >= 2 ==> model_cell(xs, ys, 1, k).parent == flat_index(xs.len() as int + 1, 1, k - 1),
        k >= 2 ==> model_cell(xs, ys, 1, k).cost <= 2 * k - 1,
    decreases k,
{
    reveal_with_fuel(model_cell, 2);
    let up = model_cell(xs, ys, 1, (k - 1) as nat);
    let left = model_cell(xs, ys, 0, k);
    let diag = model_cell(xs, ys, 0, (k - 1) as nat);
    assert(left.cost == 2 * k + 1 && left.operation == Operation::Insertion);
    assert(spec_mismatch_cost(left, DELETION_COST as int) == 2 * k + 3);
    if k >= 2 {
        lemma_first_row(xs, ys, (k - 1) as nat);
        assert(spec_mismatch_cost(up, INSERTION_COST as int) <= 2 * k - 1);
        assert(diag.cost == 2 * k - 1);
        let c = model_cell(xs, ys, 1, k);
        assert(c.operation == Operation::Insertion);
        assert(c.cost <= 2 * k - 1);
    } else {
        assert(up.cost == 3 && up.operation == Operation::Deletion);
        assert(diag.cost == 0);
        assert(flat_index(xs.len() as int + 1, 0, 0) == 0) by (nonlinear_arith);
    }
}

/// With equal first tokens, reading back from any inner cell `(i, j)`
/// consumes exactly `i` tokens of `xs` and `j` tokens of `ys`.
proof fn lemma_full_trace(xs: Seq<Seq<char>>, ys: Seq<Seq<char>>, i: nat, j: nat)
    requires
        xs.len() >= 1,
        ys.len() >= 1,
        xs[0] == ys[0],
        1 <= i <= xs.len(),
        1 <= j <= ys.len(),
        xs.len() <= isize::MAX as int / 24,
        ys.len() <= isize::MAX as int / 24,
    ensures
        x_consumed(trace(xs, ys, i, j)) == i,
        y_consumed(trace(xs, ys, i, j)) == j,
    decreases i + j,
{
    let w = xs.len() as int + 1;
    let c = model_cell(xs, ys, i, j);
    let t = trace(xs, ys, i, j);
    if i == 1 && j == 1 {
        lemma_first_column(xs, ys, 1);
        assert(t == seq![Operation::NoOp]);
        assert(t.drop_last() =~= Seq::<Operation>::empty());
        assert(x_consumed(t) == x_consumed(t.drop_last()) + 1);
        assert(y_consumed(t) == y_consumed(t.drop_last()) + 1);
    } else {
        lemma_parent_earlier(xs, ys, i, j);
        if i == 1 {
            lemma_first_row(xs, ys, j);
        } else if j == 1 {
            lemma_first_column(xs, ys, i);
        }
        let (pi, pj) = match c.operation {
            Operation::Insertion => (i, (j - 1) as nat),
            Operation::Deletion => ((i - 1) as nat, j),
            Operation::NoOp => ((i - 1) as nat, (j - 1) as nat),
        };
        assert(pi >= 1 && pj >= 1);
        assert(c.parent == flat_index(w, pi as int, pj as int));
        assert(pj * w + pi > 0) by (nonlinear_arith)
            requires
                pi >= 1,
                pj >= 0,
                w > 0,
        ;
        lemma_full_trace(xs, ys, pi, pj);
        let prev = trace(xs, ys, pi, pj);
        assert(t == prev.push(c.operation));
        assert(t.drop_last() =~= prev);
        assert(t.last() == c.operation);
        assert(x_consumed(t) == x_consumed(prev) + if c.operation != Operation::Insertion {
            1nat
        } else {
            0nat
        });
        assert(y_consumed(t) == y_consumed(prev) + if c.operation != Operation::Deletion {
            1nat
        } else {
            0nat
        });
    }
}

/// The alignment of two token sequences that start with the same token
/// consumes both sequences whole.
pub proof fn lemma_alignment_consumes_all(xs: Seq<Seq<char>>, ys: Seq<Seq<char>>)
    requires
        xs.len() >= 1,
        ys.len() >= 1,
        xs[0] == ys[0],
        table_fits(xs.len(), ys.len()),
    ensures
        x_consumed(alignment_operations(xs, ys)) == xs.len(),
        y_consumed(alignment_operations(xs, ys)) == ys.len(),
{
    assert(xs.len() + 1 <= (xs.len() + 1) * (ys.len() + 1)) by (nonlinear_arith);
    assert(ys.len() + 1 <= (xs.len() + 1) * (ys.len() + 1)) by (nonlinear_arith);
    lemma_full_trace(xs, ys, xs.len(), ys.len());
}

} // verus!
