//! Derived plan properties: functional-dependency sets and physical
//! ordering.

use vstd::prelude::*;

verus! {

/// The mathematical value of a [`FunctionalDependency`].
#[verifier::ext_equal]
pub ghost struct FdV {
    pub from: Seq<usize>,
    pub to: Seq<usize>,
}

/// One fact "the `from` columns jointly determine the `to` columns", over a
/// fixed column space.
#[derive(Debug)]
pub struct FunctionalDependency {
    pub from: Vec<usize>,
    pub to: Vec<usize>,
}

impl View for FunctionalDependency {
    type V = FdV;

    open spec fn view(&self) -> FdV {
        FdV { from: self.from@, to: self.to@ }
    }
}

impl FunctionalDependency {
    pub fn new(from: Vec<usize>, to: Vec<usize>) -> (r: FunctionalDependency)
        ensures
            r@ == (FdV { from: from@, to: to@ }),
    {
        FunctionalDependency { from, to }
    }
}

/// The mathematical value of a [`FunctionalDependencySet`].
#[verifier::ext_equal]
pub ghost struct FdSetV {
    pub column_count: usize,
    pub deps: Seq<FdV>,
}

impl FdSetV {
    /// Every index of every dependency lies inside the column space.
    pub open spec fn wf(self) -> bool {
        forall|k: int|
            0 <= k < self.deps.len() ==> {
                &&& (forall|j: int|
                    0 <= j < (#[trigger] self.deps[k]).from.len() ==> #[trigger] self.deps[k].from[j]
                        < self.column_count)
                &&& (forall|j: int|
                    0 <= j < self.deps[k].to.len() ==> #[trigger] self.deps[k].to[j]
                        < self.column_count)
            }
    }
}

/// An ordered collection of functional dependencies over a column space of
/// size `column_count`.
#[derive(Debug)]
pub struct FunctionalDependencySet {
    pub column_count: usize,
    pub deps: Vec<FunctionalDependency>,
}

impl View for FunctionalDependencySet {
    type V = FdSetV;

    open spec fn view(&self) -> FdSetV {
        FdSetV {
            column_count: self.column_count,
            deps: self.deps@.map_values(|d: FunctionalDependency| d@),
        }
    }
}

impl FunctionalDependencySet {
    /// An empty dependency set over `column_count` columns.
    pub fn new(column_count: usize) -> (r: FunctionalDependencySet)
        ensures
            r@ == (FdSetV { column_count, deps: Seq::<FdV>::empty() }),
    {
        let r = FunctionalDependencySet { column_count, deps: Vec::new() };
        proof {
            assert(r@.deps =~= Seq::<FdV>::empty());
            assert(r@ =~= (FdSetV { column_count, deps: Seq::<FdV>::empty() }));
        }
        r
    }

    /// A structurally equal copy of the dependency set.
    pub fn duplicate(&self) -> (r: FunctionalDependencySet)
        ensures
            r@ == self@,
    {
        let mut deps: Vec<FunctionalDependency> = Vec::new();
        let n = self.deps.len();
        let mut i: usize = 0;
        while i < n
            invariant
                n == self.deps@.len(),
                i <= n,
                deps@.len() == i,
                forall|j: int| 0 <= j < i ==> deps@[j]@ == #[trigger] self.deps@[j]@,
            decreases n - i,
        {
            let d = &self.deps[i];
            deps.push(FunctionalDependency { from: copy_indices(&d.from), to: copy_indices(&d.to) });
            i += 1;
        }
        let r = FunctionalDependencySet { column_count: self.column_count, deps };
        proof {
            assert(r@.deps =~= self@.deps);
            assert(r@ =~= self@);
        }
        r
    }

    /// Records the fact that the `from` columns determine the `to` columns.
    pub fn add_functional_dependency(&mut self, from: Vec<usize>, to: Vec<usize>)
        requires
            forall|j: int| 0 <= j < from@.len() ==> from@[j] < old(self)@.column_count,
            forall|j: int| 0 <= j < to@.len() ==> to@[j] < old(self)@.column_count,
        ensures
            final (self)@.column_count == old(self)@.column_count,
            final (self)@.deps == old(self)@.deps.push(FdV { from: from@, to: to@ }),
    {
        let ghost dep = FdV { from: from@, to: to@ };
        self.deps.push(FunctionalDependency { from, to });
        proof {
            assert(self@.deps =~= old(self)@.deps.push(dep));
        }
    }
}

/// Copies a plain index list.
pub fn copy_indices(v: &Vec<usize>) -> (r: Vec<usize>)
    ensures
        r@ == v@,
{
    let mut r: Vec<usize> = Vec::new();
    let n = v.len();
    let mut i: usize = 0;
    while i < n
        invariant
            n == v@.len(),
            i <= n,
            r@.len() == i,
            forall|j: int| 0 <= j < i ==> r@[j] == v@[j],
        decreases n - i,
    {
        r.push(v[i]);
        i += 1;
    }
    proof {
        assert(r@ =~= v@);
    }
    r
}

/// A sort direction.
#[derive(Debug, Clone, Copy, PartialEq, Eq, Structural)]
pub enum OrderType {
    Ascending,
    Descending,
}

/// One ordering key: a column index and its direction.
#[derive(Debug, Clone, Copy, PartialEq, Eq, Structural)]
pub struct ColumnOrder {
    pub column_index: usize,
    pub order_type: OrderType,
}

/// A physical ordering: the ordered list of ordering keys.
#[derive(Debug)]
pub struct Order {
    pub column_orders: Vec<ColumnOrder>,
}

impl View for Order {
    type V = Seq<ColumnOrder>;

    open spec fn view(&self) -> Seq<ColumnOrder> {
        self.column_orders@
    }
}

impl Order {
    pub fn new(column_orders: Vec<ColumnOrder>) -> (r: Order)
        ensures
            r@ == column_orders@,
    {
        Order { column_orders }
    }

    /// A structurally equal copy of the ordering.
    pub fn duplicate(&self) -> (r: Order)
        ensures
            r@ == self@,
    {
        let mut cols: Vec<ColumnOrder> = Vec::new();
        let n = self.column_orders.len();
        let mut i: usize = 0;
        while i < n
            invariant
                n == self.column_orders@.len(),
                i <= n,
                cols@.len() == i,
                forall|j: int| 0 <= j < i ==> cols@[j] == self.column_orders@[j],
            decreases n - i,
        {
            cols.push(self.column_orders[i]);
            i += 1;
        }
        proof {
            assert(cols@ =~= self@);
        }
        Order { column_orders: cols }
    }
}

} // verus!
