//! A partial, fixed-size, directionally-independent correspondence between
//! two column index spaces.

use vstd::prelude::*;

use crate::property::ColumnOrder;
use crate::property::FdV;
use crate::property::FunctionalDependencySet;
use crate::property::Order;

verus! {

/// Whether every index of `idxs` has a counterpart under `slots`.
pub open spec fn all_mapped(slots: Seq<Option<usize>>, idxs: Seq<usize>) -> bool {
    forall|j: int| 0 <= j < idxs.len() ==> (#[trigger] slots[idxs[j] as int]) is Some
}

/// `idxs` translated index by index through `slots`; meaningful when
/// `all_mapped(slots, idxs)` holds.
pub open spec fn translate_seq(slots: Seq<Option<usize>>, idxs: Seq<usize>) -> Seq<usize> {
    Seq::new(idxs.len(), |j: int| slots[idxs[j] as int]->Some_0)
}

/// The dependencies of `deps` translated through `slots`, in order; a
/// dependency with any unmapped index is dropped whole.
pub open spec fn rewrite_fd_deps(slots: Seq<Option<usize>>, deps: Seq<FdV>) -> Seq<FdV>
    decreases deps.len(),
{
    if deps.len() == 0 {
        Seq::empty()
    } else {
        let rest = rewrite_fd_deps(slots, deps.drop_last());
        let d = deps.last();
        if all_mapped(slots, d.from) && all_mapped(slots, d.to) {
            rest.push(FdV { from: translate_seq(slots, d.from), to: translate_seq(slots, d.to) })
        } else {
            rest
        }
    }
}

/// Every index of every translated dependency is a mapped slot value: when
/// all mapped slots are at least `lo`, so is every index that
/// `rewrite_fd_deps` emits.
pub proof fn lemma_rewrite_fd_deps_mapped_values(
    slots: Seq<Option<usize>>,
    deps: Seq<FdV>,
    lo: usize,
)
    requires
        forall|i: int| 0 <= i < slots.len() ==> ((#[trigger] slots[i]) matches Some(t) ==> lo <= t),
        forall|k: int|
            0 <= k < deps.len() ==> {
                &&& (forall|j: int|
                    0 <= j < (#[trigger] deps[k]).from.len() ==> #[trigger] deps[k].from[j]
                        < slots.len())
                &&& (forall|j: int|
                    0 <= j < deps[k].to.len() ==> #[trigger] deps[k].to[j] < slots.len())
            },
    ensures
        forall|k: int|
            0 <= k < rewrite_fd_deps(slots, deps).len() ==> {
                &&& (forall|j: int|
                    0 <= j < (#[trigger] rewrite_fd_deps(slots, deps)[k]).from.len() ==> lo
                        <= #[trigger] rewrite_fd_deps(slots, deps)[k].from[j])
                &&& (forall|j: int|
                    0 <= j < rewrite_fd_deps(slots, deps)[k].to.len() ==> lo
                        <= #[trigger] rewrite_fd_deps(slots, deps)[k].to[j])
            },
    decreases deps.len(),
{
    if deps.len() > 0 {
        assert forall|k: int|
            0 <= k < deps.drop_last().len() implies {
            &&& (forall|j: int|
                0 <= j < (#[trigger] deps.drop_last()[k]).from.len()
                    ==> #[trigger] deps.drop_last()[k].from[j] < slots.len())
            &&& (forall|j: int|
                0 <= j < deps.drop_last()[k].to.len() ==> #[trigger] deps.drop_last()[k].to[j]
                    < slots.len())
        } by {
            assert(deps.drop_last()[k] == deps[k]);
        }
        lemma_rewrite_fd_deps_mapped_values(slots, deps.drop_last(), lo);
        let rest = rewrite_fd_deps(slots, deps.drop_last());
        let res = rewrite_fd_deps(slots, deps);
        let d = deps.last();
        if all_mapped(slots, d.from) && all_mapped(slots, d.to) {
            let nd = FdV { from: translate_seq(slots, d.from), to: translate_seq(slots, d.to) };
            assert(res == rest.push(nd));
            assert forall|j: int| 0 <= j < nd.from.len() implies lo <= #[trigger] nd.from[j] by {
                assert(slots[d.from[j] as int] is Some);
            }
            assert forall|j: int| 0 <= j < nd.to.len() implies lo <= #[trigger] nd.to[j] by {
                assert(slots[d.to[j] as int] is Some);
            }
            assert forall|k: int|
                0 <= k < res.len() implies {
                &&& (forall|j: int|
                    0 <= j < (#[trigger] res[k]).from.len() ==> lo <= #[trigger] res[k].from[j])
                &&& (forall|j: int|
                    0 <= j < res[k].to.len() ==> lo <= #[trigger] res[k].to[j])
            } by {
                if k < rest.len() {
                    assert(res[k] == rest[k]);
                } else {
                    assert(res[k] == nd);
                }
            }
        } else {
            assert(res == rest);
        }
    }
}

/// The ordering keys of `cols` translated through `slots`, in order; a key
/// whose column has no counterpart is dropped.
pub open spec fn rewrite_order_cols(slots: Seq<Option<usize>>, cols: Seq<ColumnOrder>) -> Seq<
    ColumnOrder,
>
    decreases cols.len(),
{
    if cols.len() == 0 {
        Seq::empty()
    } else {
        let rest = rewrite_order_cols(slots, cols.drop_last());
        let c = cols.last();
        if slots[c.column_index as int] is Some {
            rest.push(
                ColumnOrder {
                    column_index: slots[c.column_index as int]->Some_0,
                    order_type: c.order_type,
                },
            )
        } else {
            rest
        }
    }
}

/// The single fatal failure of this crate: a mapping was queried (or would
/// have been built) with an index outside its source space. This indicates a
/// malformed plan and is never recovered from.
#[derive(Debug, Clone, Copy, PartialEq, Eq, Structural)]
pub enum MappingError {
    IndexOutOfRange,
}

/// A partial correspondence from a source column index space of size
/// `source_size` to a target space of size `target_size`.
///
/// Each source index owns one slot: either `None` ("no counterpart", the
/// expected state for computed columns) or `Some(t)` with `t` inside the
/// target space. Immutable once built.
#[derive(Debug)]
pub struct ColIndexMapping {
    map: Vec<Option<usize>>,
    target_size: usize,
}

impl ColIndexMapping {
    /// The per-source-index slots.
    pub closed spec fn spec_slots(self) -> Seq<Option<usize>> {
        self.map@
    }

    /// The size of the target index space.
    pub closed spec fn spec_target_size(self) -> usize {
        self.target_size
    }

    /// Every mapped slot points inside the target space.
    #[verifier::type_invariant]
    pub closed spec fn slots_in_target(self) -> bool {
        forall|i: int|
            0 <= i < self.map@.len() ==> (#[trigger] self.map@[i] matches Some(t) ==> t
                < self.target_size)
    }

    /// Builds a mapping from the per-source-index slot list; the source size
    /// is the length of the list.
    pub fn with_target_size(map: Vec<Option<usize>>, target_size: usize) -> (r: Self)
        requires
            forall|i: int|
                0 <= i < map@.len() ==> (#[trigger] map@[i] matches Some(t) ==> t < target_size),
        ensures
            r.spec_slots() == map@,
            r.spec_target_size() == target_size,
    {
        ColIndexMapping { map, target_size }
    }

    pub fn source_size(&self) -> (r: usize)
        ensures
            r == self.spec_slots().len(),
    {
        self.map.len()
    }

    pub fn target_size(&self) -> (r: usize)
        ensures
            r == self.spec_target_size(),
    {
        self.target_size
    }

    /// Looks the source index up. Outside the source space the query fails
    /// with [`MappingError::IndexOutOfRange`]; inside it, `None` means "no
    /// counterpart" and every resolved counterpart lies inside the target
    /// space.
    pub fn try_map(&self, index: usize) -> (r: Result<Option<usize>, MappingError>)
        ensures
            index < self.spec_slots().len() ==> r == Ok::<Option<usize>, MappingError>(
                self.spec_slots()[index as int],
            ),
            index >= self.spec_slots().len() ==> r == Err::<Option<usize>, MappingError>(
                MappingError::IndexOutOfRange,
            ),
            (r matches Ok(Some(t)) ==> t < self.spec_target_size()),
    {
        proof {
            use_type_invariant(self);
        }
        if index < self.map.len() {
            Ok(self.map[index])
        } else {
            Err(MappingError::IndexOutOfRange)
        }
    }

    /// Translates a whole index list: `Some` of the translated list when
    /// every index has a counterpart, `None` as soon as any one has none.
    pub fn try_map_all(&self, idxs: &Vec<usize>) -> (r: Option<Vec<usize>>)
        requires
            forall|j: int| 0 <= j < idxs@.len() ==> #[trigger] idxs@[j] < self.spec_slots().len(),
        ensures
            match r {
                Some(v) => all_mapped(self.spec_slots(), idxs@) && v@ == translate_seq(
                    self.spec_slots(),
                    idxs@,
                ),
                None => !all_mapped(self.spec_slots(), idxs@),
            },
    {
        let mut out: Vec<usize> = Vec::new();
        let n = idxs.len();
        let mut j: usize = 0;
        while j < n
            invariant
                n == idxs@.len(),
                j <= n,
                forall|jj: int| 0 <= jj < idxs@.len() ==> #[trigger] idxs@[jj] < self.spec_slots().len(),
                out@.len() == j,
                forall|jj: int|
                    0 <= jj < j ==> (#[trigger] self.spec_slots()[idxs@[jj] as int]) is Some,
                forall|jj: int|
                    0 <= jj < j ==> #[trigger] out@[jj] == self.spec_slots()[idxs@[jj] as int]->Some_0,
            decreases n - j,
        {
            match self.try_map(idxs[j]) {
                Ok(Some(t)) => out.push(t),
                Ok(None) => {
                    return None;
                },
                Err(_) => {
                    proof {
                        assert(false);
                    }
                },
            }
            j += 1;
        }
        proof {
            assert(out@ =~= translate_seq(self.spec_slots(), idxs@));
        }
        Some(out)
    }

    /// Translates a functional-dependency set into the target column space,
    /// dropping every dependency that any unmapped index makes unexpressible
    /// in that space, and keeping the relative order of the survivors.
    pub fn rewrite_functional_dependency_set(&self, fd_set: &FunctionalDependencySet) -> (r:
        FunctionalDependencySet)
        requires
            fd_set@.wf(),
            fd_set@.column_count == self.spec_slots().len(),
        ensures
            r@.column_count == self.spec_target_size(),
            r@.deps == rewrite_fd_deps(self.spec_slots(), fd_set@.deps),
            r@.wf(),
    {
        proof {
            use_type_invariant(self);
        }
        let mut out = FunctionalDependencySet::new(self.target_size());
        let n = fd_set.deps.len();
        let ghost deps_v = fd_set@.deps;
        let mut k: usize = 0;
        while k < n
            invariant
                n == fd_set.deps@.len(),
                deps_v == fd_set@.deps,
                k <= n,
                fd_set@.wf(),
                fd_set@.column_count == self.spec_slots().len(),
                self.slots_in_target(),
                out@.column_count == self.spec_target_size(),
                out@.wf(),
                out@.deps == rewrite_fd_deps(self.spec_slots(), deps_v.take(k as int)),
            decreases n - k,
        {
            let dep = &fd_set.deps[k];
            proof {
                assert(fd_set@.deps[k as int] == dep@);
                assert forall|j: int| 0 <= j < dep.from@.len() implies #[trigger] dep.from@[j]
                    < self.spec_slots().len() by {
                    assert(fd_set@.deps[k as int].from[j] < fd_set@.column_count);
                }
                assert forall|j: int| 0 <= j < dep.to@.len() implies #[trigger] dep.to@[j]
                    < self.spec_slots().len() by {
                    assert(fd_set@.deps[k as int].to[j] < fd_set@.column_count);
                }
            }
            let from_t = self.try_map_all(&dep.from);
            let to_t = self.try_map_all(&dep.to);
            match (from_t, to_t) {
                (Some(f), Some(t)) => {
                    proof {
                        assert forall|j: int| 0 <= j < f@.len() implies #[trigger] f@[j]
                            < self.spec_target_size() by {
                            assert(self.spec_slots()[dep.from@[j] as int] is Some);
                        }
                        assert forall|j: int| 0 <= j < t@.len() implies #[trigger] t@[j]
                            < self.spec_target_size() by {
                            assert(self.spec_slots()[dep.to@[j] as int] is Some);
                        }
                    }
                    out.add_functional_dependency(f, t);
                    proof {
                        assert(out@.wf());
                    }
                },
                _ => (),
            }
            proof {
                assert(deps_v.take(k + 1 as int).drop_last() =~= deps_v.take(k as int));
                assert(deps_v.take(k + 1 as int).last() == dep@);
                assert(out@.deps == rewrite_fd_deps(self.spec_slots(), deps_v.take(k + 1 as int)));
            }
            k += 1;
        }
        proof {
            assert(deps_v.take(n as int) =~= deps_v);
        }
        out
    }

    /// Translates a physical ordering into the target column space, dropping
    /// every key whose column has no counterpart.
    pub fn rewrite_provided_order(&self, order: &Order) -> (r: Order)
        requires
            forall|j: int|
                0 <= j < order@.len() ==> (#[trigger] order@[j]).column_index
                    < self.spec_slots().len(),
        ensures
            r@ == rewrite_order_cols(self.spec_slots(), order@),
    {
        let mut out: Vec<ColumnOrder> = Vec::new();
        let n = order.column_orders.len();
        let mut k: usize = 0;
        while k < n
            invariant
                n == order@.len(),
                k <= n,
                forall|j: int|
                    0 <= j < order@.len() ==> (#[trigger] order@[j]).column_index
                        < self.spec_slots().len(),
                out@ == rewrite_order_cols(self.spec_slots(), order@.take(k as int)),
            decreases n - k,
        {
            let col = order.column_orders[k];
            match self.try_map(col.column_index) {
                Ok(Some(t)) => {
                    out.push(ColumnOrder { column_index: t, order_type: col.order_type });
                },
                Ok(None) => (),
                Err(_) => {
                    proof {
                        assert(false);
                    }
                },
            }
            proof {
                assert(order@.take(k + 1 as int).drop_last() =~= order@.take(k as int));
                assert(order@.take(k + 1 as int).last() == order@[k as int]);
                assert(out@ == rewrite_order_cols(self.spec_slots(), order@.take(k + 1 as int)));
            }
            k += 1;
        }
        proof {
            assert(order@.take(n as int) =~= order@);
        }
        Order::new(out)
    }
}

} // verus!
