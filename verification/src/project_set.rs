//! The row-expanding projection operator: it evaluates an expression list —
//! some items possibly table-valued — against each input row, and derives
//! its output schema, candidate key, functional dependencies and ordering
//! from the input plan's metadata through a pair of column-index mappings.
//!
//! Output width is always one more than the expression list: index 0 is a
//! synthetic, strictly increasing row-identity column not present in the
//! input.

use vstd::prelude::*;

use crate::catalog::DataType;
use crate::catalog::Field;
use crate::catalog::FieldV;
use crate::catalog::Schema;
use crate::expr::expr_render;
use crate::expr::exprs_view;
use crate::expr::is_ref_to;
use crate::expr::ExprImpl;
use crate::expr::ExprV;
use crate::mapping::all_mapped;
use crate::mapping::rewrite_fd_deps;
use crate::mapping::rewrite_order_cols;
use crate::mapping::translate_seq;
use crate::mapping::ColIndexMapping;
use crate::property::copy_indices;
use crate::property::ColumnOrder;
use crate::property::FdSetV;
use crate::property::FunctionalDependencySet;
use crate::property::Order;

verus! {

/// The mathematical value of a [`PlanInput`].
#[verifier::ext_equal]
pub ghost struct PlanInputV {
    pub schema: Seq<FieldV>,
    pub logical_pk: Seq<usize>,
    pub functional_dependency: FdSetV,
    pub order: Seq<ColumnOrder>,
}

/// The input plan, seen through the only capabilities this operator
/// consumes: its schema, candidate key, functional dependencies and
/// physical ordering. It is never mutated.
#[derive(Debug)]
pub struct PlanInput {
    pub schema: Schema,
    pub logical_pk: Vec<usize>,
    pub functional_dependency: FunctionalDependencySet,
    pub order: Order,
}

impl View for PlanInput {
    type V = PlanInputV;

    open spec fn view(&self) -> PlanInputV {
        PlanInputV {
            schema: self.schema@,
            logical_pk: self.logical_pk@,
            functional_dependency: self.functional_dependency@,
            order: self.order@,
        }
    }
}

impl PlanInput {
    pub fn new(
        schema: Schema,
        logical_pk: Vec<usize>,
        functional_dependency: FunctionalDependencySet,
        order: Order,
    ) -> (r: PlanInput)
        ensures
            r@ == (PlanInputV {
                schema: schema@,
                logical_pk: logical_pk@,
                functional_dependency: functional_dependency@,
                order: order@,
            }),
    {
        PlanInput { schema, logical_pk, functional_dependency, order }
    }

    /// A structurally equal copy of the input description.
    pub fn duplicate(&self) -> (r: PlanInput)
        ensures
            r@ == self@,
    {
        let r = PlanInput {
            schema: self.schema.duplicate(),
            logical_pk: copy_indices(&self.logical_pk),
            functional_dependency: self.functional_dependency.duplicate(),
            order: self.order.duplicate(),
        };
        proof {
            assert(r@ =~= self@);
        }
        r
    }
}

/// The mathematical value of a [`ProjectSet`] node.
#[verifier::ext_equal]
pub ghost struct ProjectSetV {
    pub select_list: Seq<ExprV>,
    pub input: PlanInputV,
}

impl ProjectSetV {
    /// Plan well-formedness: every column index that the node's metadata
    /// mentions lies inside the input's column space, and the expression
    /// list leaves room for the extra row-identity column.
    pub open spec fn wf(self) -> bool {
        let w = self.input.schema.len();
        &&& self.select_list.len() < usize::MAX
        &&& forall|k: int|
            0 <= k < self.select_list.len() ==> ((#[trigger] self.select_list[k]) matches ExprV::InputRef { index, .. }
                ==> index < w)
        &&& forall|j: int|
            0 <= j < self.input.logical_pk.len() ==> (#[trigger] self.input.logical_pk[j]) < w
        &&& self.input.functional_dependency.column_count == w
        &&& self.input.functional_dependency.wf()
        &&& forall|j: int|
            0 <= j < self.input.order.len() ==> (#[trigger] self.input.order[j]).column_index < w
    }
}

/// The row-expanding projection node: an ordered expression list over one
/// input plan. Nodes are immutable values; rewrites produce new nodes.
#[derive(Debug)]
pub struct ProjectSet {
    pub select_list: Vec<ExprImpl>,
    pub input: PlanInput,
}

impl View for ProjectSet {
    type V = ProjectSetV;

    open spec fn view(&self) -> ProjectSetV {
        ProjectSetV { select_list: exprs_view(self.select_list@), input: self.input@ }
    }
}

/// The output→input slot for output index `k`: output column `k` is a
/// copy of input column `i` exactly when item `k - 1` is a pass-through
/// reference to `i`; slot 0 — the row-identity column — is never mapped.
pub open spec fn o2i_slot(sl: Seq<ExprV>, k: int) -> Option<usize> {
    if 1 <= k <= sl.len() {
        match sl[k - 1] {
            ExprV::InputRef { index, .. } => Some(index),
            ExprV::Computed { .. } => None,
        }
    } else {
        None
    }
}

/// All output→input slots, over output indices `0 ..= select_list.len()`.
pub open spec fn o2i_slots(ps: ProjectSetV) -> Seq<Option<usize>> {
    Seq::new(ps.select_list.len() + 1, |k: int| o2i_slot(ps.select_list, k))
}

/// The position of the first pass-through reference to input column `i` in
/// the expression list, if any.
pub open spec fn first_ref(sl: Seq<ExprV>, i: int) -> Option<int>
    decreases sl.len(),
{
    if sl.len() == 0 {
        None
    } else if is_ref_to(sl[0], i) {
        Some(0int)
    } else {
        match first_ref(sl.drop_first(), i) {
            Some(k) => Some(k + 1),
            None => None,
        }
    }
}

/// The input→output slot for input column `i`: when several items reference
/// `i`, the lowest matching output index wins.
pub open spec fn i2o_slot(sl: Seq<ExprV>, i: int) -> Option<usize> {
    match first_ref(sl, i) {
        Some(k) => Some((1 + k) as usize),
        None => None,
    }
}

/// All input→output slots, over the input's column space.
pub open spec fn i2o_slots(ps: ProjectSetV) -> Seq<Option<usize>> {
    Seq::new(ps.input.schema.len(), |i: int| i2o_slot(ps.select_list, i))
}

/// The synthetic leading field: the reserved row-identity name, a non-null
/// integer type, no sub-fields.
pub open spec fn row_id_field() -> FieldV {
    FieldV {
        name: "projected_row_id"@,
        data_type: DataType::Int64,
        sub_fields: Seq::empty(),
        nested_name: Seq::empty(),
    }
}

/// Output field `k` of the derived schema.
pub open spec fn spec_output_field(ps: ProjectSetV, k: int) -> FieldV {
    if k == 0 {
        row_id_field()
    } else {
        let e = ps.select_list[k - 1];
        match o2i_slot(ps.select_list, k) {
            Some(i) => FieldV {
                name: ps.input.schema[i as int].name,
                data_type: e.return_type(),
                sub_fields: ps.input.schema[i as int].sub_fields,
                nested_name: ps.input.schema[i as int].nested_name,
            },
            None => FieldV {
                name: expr_render(e),
                data_type: e.return_type(),
                sub_fields: Seq::empty(),
                nested_name: Seq::empty(),
            },
        }
    }
}

/// The derived output schema, of length `select_list.len() + 1`.
pub open spec fn spec_schema(ps: ProjectSetV) -> Seq<FieldV> {
    Seq::new(ps.select_list.len() + 1, |k: int| spec_output_field(ps, k))
}

/// The derived output candidate key.
pub open spec fn spec_logical_pk(ps: ProjectSetV) -> Seq<usize> {
    if all_mapped(i2o_slots(ps), ps.input.logical_pk) {
        translate_seq(i2o_slots(ps), ps.input.logical_pk).push(0usize)
    } else {
        seq![0usize]
    }
}

/// The derived output functional-dependency set.
pub open spec fn spec_functional_dependency(ps: ProjectSetV) -> FdSetV {
    FdSetV {
        column_count: (ps.select_list.len() + 1) as usize,
        deps: rewrite_fd_deps(i2o_slots(ps), ps.input.functional_dependency.deps),
    }
}

/// The derived output ordering.
pub open spec fn spec_out_order(ps: ProjectSetV) -> Seq<ColumnOrder> {
    rewrite_order_cols(i2o_slots(ps), ps.input.order)
}

/// The textual form of the expression list, comma-separated.
pub open spec fn render_list(sl: Seq<ExprV>) -> Seq<char>
    decreases sl.len(),
{
    if sl.len() == 0 {
        Seq::empty()
    } else if sl.len() == 1 {
        expr_render(sl[0])
    } else {
        render_list(sl.drop_last()) + ", "@ + expr_render(sl.last())
    }
}

/// The diagnostic rendering of a node under an operator name.
pub open spec fn spec_fmt_with_name(name: Seq<char>, sl: Seq<ExprV>) -> Seq<char> {
    name + " { select_list: ["@ + render_list(sl) + "] }"@
}

/// `first_ref` finds a reference when one exists, and always the earliest.
pub proof fn lemma_first_ref(sl: Seq<ExprV>, i: int)
    ensures
        match first_ref(sl, i) {
            Some(k) => 0 <= k < sl.len() && is_ref_to(sl[k], i) && (forall|j: int|
                0 <= j < k ==> !is_ref_to(sl[j], i)),
            None => forall|j: int| 0 <= j < sl.len() ==> !is_ref_to(sl[j], i),
        },
    decreases sl.len(),
{
    if sl.len() == 0 {
    } else if is_ref_to(sl[0], i) {
    } else {
        lemma_first_ref(sl.drop_first(), i);
        match first_ref(sl.drop_first(), i) {
            Some(k) => {
                assert forall|j: int| 0 <= j < k + 1 implies !is_ref_to(sl[j], i) by {
                    if j > 0 {
                        assert(sl.drop_first()[j - 1] == sl[j]);
                    }
                }
            },
            None => {
                assert forall|j: int| 0 <= j < sl.len() implies !is_ref_to(sl[j], i) by {
                    if j > 0 {
                        assert(sl.drop_first()[j - 1] == sl[j]);
                    }
                }
            },
        }
    }
}

/// Conversely, a reference at `k` with none before it is the first.
pub proof fn lemma_first_ref_complete(sl: Seq<ExprV>, i: int, k: int)
    requires
        0 <= k < sl.len(),
        is_ref_to(sl[k], i),
        forall|j: int| 0 <= j < k ==> !is_ref_to(sl[j], i),
    ensures
        first_ref(sl, i) == Some(k),
    decreases sl.len(),
{
    if k == 0 {
    } else {
        assert(!is_ref_to(sl[0], i));
        assert(is_ref_to(sl.drop_first()[k - 1], i));
        assert forall|j: int| 0 <= j < k - 1 implies !is_ref_to(sl.drop_first()[j], i) by {
            assert(sl.drop_first()[j] == sl[j + 1]);
        }
        lemma_first_ref_complete(sl.drop_first(), i, k - 1);
    }
}

/// The input→output mapping never targets the row-identity column.
pub proof fn lemma_i2o_target_positive(sl: Seq<ExprV>, i: int)
    requires
        sl.len() < usize::MAX,
    ensures
        i2o_slot(sl, i) matches Some(o) ==> 1 <= o <= sl.len(),
{
    lemma_first_ref(sl, i);
}

impl ProjectSet {
    /// The mapping from output column indices to the input columns they
    /// pass through, over output indices `0 ..= select_list.len()`.
    pub fn o2i_col_mapping(&self) -> (r: ColIndexMapping)
        requires
            self@.wf(),
        ensures
            r.spec_slots() == o2i_slots(self@),
            r.spec_target_size() == self@.input.schema.len(),
    {
        let input_len = self.input.schema.len();
        let n = self.select_list.len();
        let mut map: Vec<Option<usize>> = Vec::new();
        map.push(None);
        let mut k: usize = 0;
        while k < n
            invariant
                self@.wf(),
                n == self.select_list@.len(),
                k <= n,
                map@.len() == k + 1,
                forall|kk: int| 0 <= kk <= k ==> map@[kk] == o2i_slot(self@.select_list, kk),
            decreases n - k,
        {
            let slot = match &self.select_list[k] {
                ExprImpl::InputRef { index, .. } => Some(*index),
                ExprImpl::Computed { .. } => None,
            };
            map.push(slot);
            proof {
                assert(self@.select_list[k as int] == self.select_list@[k as int]@);
            }
            k += 1;
        }
        proof {
            assert forall|kk: int|
                0 <= kk < map@.len() implies (#[trigger] map@[kk] matches Some(t) ==> t
                < input_len) by {
                if map@[kk] is Some {
                    let t = map@[kk]->Some_0;
                    assert(o2i_slot(self@.select_list, kk) == Some(t));
                    assert(self@.select_list[kk - 1] matches ExprV::InputRef { index, .. }
                        && index == t);
                }
            }
        }
        let r = ColIndexMapping::with_target_size(map, input_len);
        proof {
            assert(r.spec_slots() =~= o2i_slots(self@));
        }
        r
    }

    /// The mapping from input column indices to the output column that
    /// passes them through; when several items reference one input column,
    /// the lowest output index wins.
    pub fn i2o_col_mapping(&self) -> (r: ColIndexMapping)
        requires
            self@.wf(),
        ensures
            r.spec_slots() == i2o_slots(self@),
            r.spec_target_size() == self@.select_list.len() + 1,
    {
        let input_len = self.input.schema.len();
        let n = self.select_list.len();
        let ghost slv = self@.select_list;
        let mut map: Vec<Option<usize>> = Vec::new();
        let mut i: usize = 0;
        while i < input_len
            invariant
                i <= input_len,
                map@.len() == i,
                forall|ii: int| 0 <= ii < i ==> map@[ii] is None,
            decreases input_len - i,
        {
            map.push(None);
            i += 1;
        }
        let mut k: usize = 0;
        while k < n
            invariant
                self@.wf(),
                slv == self@.select_list,
                n == self.select_list@.len(),
                input_len == self@.input.schema.len(),
                k <= n,
                map@.len() == input_len,
                forall|ii: int|
                    0 <= ii < input_len ==> match #[trigger] map@[ii] {
                        Some(o) => 1 <= o <= k && is_ref_to(slv[o - 1], ii) && (forall|j: int|
                            0 <= j < o - 1 ==> !is_ref_to(slv[j], ii)),
                        None => forall|j: int| 0 <= j < k ==> !is_ref_to(slv[j], ii),
                    },
            decreases n - k,
        {
            proof {
                assert(slv[k as int] == self.select_list@[k as int]@);
            }
            match &self.select_list[k] {
                ExprImpl::InputRef { index, .. } => {
                    let idx = *index;
                    assert(idx < input_len);
                    if map[idx].is_none() {
                        map.set(idx, Some(1 + k));
                    }
                },
                ExprImpl::Computed { .. } => (),
            }
            k += 1;
        }
        proof {
            assert forall|ii: int|
                0 <= ii < input_len implies map@[ii] == i2o_slot(slv, ii) by {
                if map@[ii] is Some {
                    let o = map@[ii]->Some_0;
                    lemma_first_ref_complete(slv, ii, o - 1);
                } else {
                    lemma_first_ref(slv, ii);
                    if first_ref(slv, ii) is Some {
                        let m = first_ref(slv, ii)->Some_0;
                        assert(is_ref_to(slv[m], ii));
                        assert(false);
                    }
                }
            }
            assert forall|ii: int|
                0 <= ii < map@.len() implies (#[trigger] map@[ii] matches Some(t) ==> t < 1 + n) by {
                if map@[ii] is Some {
                    lemma_i2o_target_positive(slv, ii);
                }
            }
        }
        let r = ColIndexMapping::with_target_size(map, 1 + n);
        proof {
            assert(r.spec_slots() =~= i2o_slots(self@));
        }
        r
    }

    /// Derives the output schema: the row-identity field, then one field
    /// per expression item. A pass-through item keeps the input field's
    /// name, sub-fields and nested type name; a computed item gets its
    /// rendered textual form as a fallback label. Either way the type slot
    /// is the expression's own declared return type.
    pub fn schema(&self) -> (s: Schema)
        requires
            self@.wf(),
        ensures
            s@ == spec_schema(self@),
    {
        let o2i = self.o2i_col_mapping();
        let mut fields: Vec<Field> = Vec::new();
        fields.push(Field::with_name(DataType::Int64, String::from_str("projected_row_id")));
        proof {
            assert(fields@[0]@ =~= row_id_field());
        }
        let n = self.select_list.len();
        let mut k: usize = 0;
        while k < n
            invariant
                self@.wf(),
                n == self.select_list@.len(),
                k <= n,
                o2i.spec_slots() == o2i_slots(self@),
                o2i.spec_target_size() == self@.input.schema.len(),
                fields@.len() == k + 1,
                forall|kk: int| 0 <= kk <= k ==> fields@[kk]@ == spec_output_field(self@, kk),
            decreases n - k,
        {
            let idx = 1 + k;
            let expr = &self.select_list[k];
            proof {
                assert(self@.select_list[k as int] == self.select_list@[k as int]@);
            }
            let field = match o2i.try_map(idx) {
                Ok(Some(i)) => {
                    let dup = self.input.schema.fields[i].duplicate();
                    proof {
                        assert(dup@ == self@.input.schema[i as int]);
                    }
                    Field::with_struct(expr.return_type(), dup.name, dup.sub_fields, dup.nested_name)
                },
                Ok(None) => Field::with_name(expr.return_type(), expr.render()),
                Err(_) => {
                    proof {
                        assert(false);
                    }
                    Field::with_name(expr.return_type(), String::new())
                },
            };
            fields.push(field);
            proof {
                let fv = fields@[idx as int]@;
                let sv = spec_output_field(self@, idx as int);
                assert(fv.name == sv.name);
                assert(fv.data_type == sv.data_type);
                assert(fv.sub_fields == sv.sub_fields);
                assert(fv.nested_name == sv.nested_name);
                assert(fv =~= sv);
            }
            k += 1;
        }
        let s = Schema::new(fields);
        proof {
            assert(s@ =~= spec_schema(self@));
        }
        s
    }

    /// Derives the output candidate key: the input key translated through
    /// the input→output mapping when every key column translates — dropped
    /// whole when any single one does not — with the row-identity column
    /// appended unconditionally. Never fails and never returns an empty
    /// key.
    pub fn logical_pk(&self) -> (r: Option<Vec<usize>>)
        requires
            self@.wf(),
        ensures
            r matches Some(pk) && pk@ == spec_logical_pk(self@),
    {
        let i2o = self.i2o_col_mapping();
        proof {
            assert forall|j: int|
                0 <= j < self.input.logical_pk@.len() implies #[trigger] self.input.logical_pk@[j]
                < i2o.spec_slots().len() by {
                assert(self@.input.logical_pk[j] < self@.input.schema.len());
            }
        }
        let mut pk = match i2o.try_map_all(&self.input.logical_pk) {
            Some(v) => v,
            None => Vec::new(),
        };
        pk.push(0);
        proof {
            assert(pk@ =~= spec_logical_pk(self@));
        }
        Some(pk)
    }

    /// Derives the output functional-dependency set: every input
    /// dependency all of whose indices translate is carried over with
    /// translated indices, in order; the others are dropped whole.
    pub fn functional_dependency(&self) -> (r: FunctionalDependencySet)
        requires
            self@.wf(),
        ensures
            r@ == spec_functional_dependency(self@),
            r@.wf(),
    {
        let i2o = self.i2o_col_mapping();
        let r = i2o.rewrite_functional_dependency_set(&self.input.functional_dependency);
        proof {
            assert(r@ =~= spec_functional_dependency(self@));
        }
        r
    }

    /// Translates the input's physical ordering through the input→output
    /// mapping, dropping keys whose column has no counterpart. The
    /// row-identity column is not added: it carries no sort meaning.
    pub fn get_out_column_index_order(&self) -> (r: Order)
        requires
            self@.wf(),
        ensures
            r@ == spec_out_order(self@),
    {
        let i2o = self.i2o_col_mapping();
        i2o.rewrite_provided_order(&self.input.order)
    }

    /// Output width: one column per expression item, plus the leading
    /// row-identity column.
    pub fn output_len(&self) -> (r: usize)
        requires
            self@.wf(),
        ensures
            r == self@.select_list.len() + 1,
    {
        self.select_list.len() + 1
    }

    /// Applies a pure expression transformation to every item and returns a
    /// new node over the same input; the receiver is not mutated.
    pub fn rewrite_exprs<F: Fn(ExprImpl) -> ExprImpl>(&self, r: F) -> (res: ProjectSet)
        requires
            forall|e: ExprImpl| #[trigger] call_requires(r, (e,)),
        ensures
            res@.input == self@.input,
            res.select_list@.len() == self.select_list@.len(),
            forall|k: int|
                0 <= k < self.select_list@.len() ==> call_ensures(
                    r,
                    (self.select_list@[k],),
                    #[trigger] res.select_list@[k],
                ),
    {
        let mut new_list: Vec<ExprImpl> = Vec::new();
        let n = self.select_list.len();
        let mut k: usize = 0;
        while k < n
            invariant
                n == self.select_list@.len(),
                k <= n,
                new_list@.len() == k,
                forall|e: ExprImpl| #[trigger] call_requires(r, (e,)),
                forall|kk: int|
                    0 <= kk < k ==> call_ensures(
                        r,
                        (self.select_list@[kk],),
                        #[trigger] new_list@[kk],
                    ),
            decreases n - k,
        {
            let e = self.select_list[k].clone();
            new_list.push(r(e));
            k += 1;
        }
        let res = ProjectSet { select_list: new_list, input: self.input.duplicate() };
        proof {
            assert(res@.input =~= self@.input);
        }
        res
    }

    /// Renders the node for diagnostics: the given operator name and the
    /// textual forms of the expression list.
    pub fn fmt_with_name(&self, name: &str) -> (r: String)
        ensures
            r@ == spec_fmt_with_name(name@, self@.select_list),
    {
        let ghost slv = self@.select_list;
        let mut s = String::from_str(name);
        s.append(" { select_list: [");
        proof {
            assert(render_list(slv.take(0)) == Seq::<char>::empty());
            assert(s@ =~= name@ + " { select_list: ["@ + render_list(slv.take(0)));
        }
        let n = self.select_list.len();
        let mut k: usize = 0;
        while k < n
            invariant
                slv == self@.select_list,
                n == self.select_list@.len(),
                k <= n,
                s@ == name@ + " { select_list: ["@ + render_list(slv.take(k as int)),
            decreases n - k,
        {
            if k > 0 {
                s.append(", ");
            }
            let piece = self.select_list[k].render();
            s.append(piece.as_str());
            proof {
                assert(slv[k as int] == self.select_list@[k as int]@);
                assert(slv.take(k as int + 1).drop_last() =~= slv.take(k as int));
                assert(slv.take(k as int + 1).last() == slv[k as int]);
                if k == 0 {
                    assert(s@ =~= name@ + " { select_list: ["@ + render_list(slv.take(1)));
                } else {
                    assert(render_list(slv.take(k as int + 1)) == render_list(slv.take(k as int))
                        + ", "@ + expr_render(slv[k as int]));
                    assert(s@ =~= name@ + " { select_list: ["@ + render_list(slv.take(k as int + 1)));
                }
            }
            k += 1;
        }
        s.append("] }");
        proof {
            assert(slv.take(n as int) =~= slv);
            assert(s@ =~= spec_fmt_with_name(name@, slv));
        }
        s
    }
}

/// Every resolvable index of a mapping lies inside the target space, and a
/// query outside the source space fails: stated here over the node's two
/// mappings; [`ColIndexMapping::try_map`] states it for every mapping.
pub proof fn lemma_mapping_ranges(ps: ProjectSetV, k: int, i: int)
    requires
        ps.wf(),
    ensures
        0 <= k < o2i_slots(ps).len() && o2i_slots(ps)[k] is Some ==> o2i_slots(ps)[k]->Some_0
            < ps.input.schema.len(),
        0 <= i < i2o_slots(ps).len() && i2o_slots(ps)[i] is Some ==> 1 <= i2o_slots(ps)[i]->Some_0
            <= ps.select_list.len(),
{
    if 0 <= i < i2o_slots(ps).len() {
        lemma_i2o_target_positive(ps.select_list, i);
    }
}

/// The derived schema always has one field per expression item plus one,
/// and its leading field is the row-identity field with integer type.
pub proof fn lemma_schema_shape(ps: ProjectSetV)
    ensures
        spec_schema(ps).len() == ps.select_list.len() + 1,
        spec_schema(ps)[0] == row_id_field(),
        row_id_field().data_type == DataType::Int64,
{
}

/// Consistency of the two mapping directions: when output index `k` maps
/// back to input index `i`, input index `i` maps forward to some output
/// index no greater than `k` — and to `k` itself unless an earlier item
/// also references `i`.
pub proof fn lemma_mapping_consistency(ps: ProjectSetV, k: int, i: usize)
    requires
        ps.wf(),
        0 <= k < o2i_slots(ps).len(),
        o2i_slots(ps)[k] == Some(i),
    ensures
        i2o_slots(ps)[i as int] matches Some(kp) && kp <= k,
        (forall|j: int| 0 <= j < k - 1 ==> !is_ref_to(ps.select_list[j], i as int))
            ==> i2o_slots(ps)[i as int] == Some(k as usize),
{
    let sl = ps.select_list;
    assert(is_ref_to(sl[k - 1], i as int));
    assert(i < ps.input.schema.len());
    lemma_first_ref(sl, i as int);
    if first_ref(sl, i as int) is None {
        assert(false);
    }
    let m = first_ref(sl, i as int)->Some_0;
    if m > k - 1 {
        assert(!is_ref_to(sl[k - 1], i as int));
        assert(false);
    }
    if forall|j: int| 0 <= j < k - 1 ==> !is_ref_to(sl[j], i as int) {
        lemma_first_ref_complete(sl, i as int, k - 1);
    }
}

/// An empty input key yields exactly the one-element key `[0]`: the
/// row-identity column alone.
pub proof fn lemma_empty_input_key(ps: ProjectSetV)
    requires
        ps.input.logical_pk.len() == 0,
    ensures
        spec_logical_pk(ps) == seq![0usize],
{
    assert(all_mapped(i2o_slots(ps), ps.input.logical_pk));
    assert(translate_seq(i2o_slots(ps), ps.input.logical_pk).push(0usize) =~= seq![0usize]);
}

/// The row-identity column never appears in any translated dependency,
/// because the input→output mapping only ever targets output indices
/// `1 ..= select_list.len()`.
pub proof fn lemma_row_identity_absent_from_dependencies(ps: ProjectSetV)
    requires
        ps.wf(),
    ensures
        forall|k: int|
            0 <= k < spec_functional_dependency(ps).deps.len() ==> {
                &&& (forall|j: int|
                    0 <= j < (#[trigger] spec_functional_dependency(ps).deps[k]).from.len() ==> 1
                        <= #[trigger] spec_functional_dependency(ps).deps[k].from[j])
                &&& (forall|j: int|
                    0 <= j < spec_functional_dependency(ps).deps[k].to.len() ==> 1
                        <= #[trigger] spec_functional_dependency(ps).deps[k].to[j])
            },
{
    let slots = i2o_slots(ps);
    assert forall|i: int|
        0 <= i < slots.len() implies ((#[trigger] slots[i]) matches Some(t) ==> 1 <= t) by {
        lemma_i2o_target_positive(ps.select_list, i);
    }
    crate::mapping::lemma_rewrite_fd_deps_mapped_values(
        slots,
        ps.input.functional_dependency.deps,
        1,
    );
}

/// Rewriting the expression list with a transformation that preserves every
/// item — and keeping the same input — leaves the derived schema, key,
/// dependency set and ordering identical.
pub proof fn lemma_rewrite_identity(a: ProjectSetV, b: ProjectSetV)
    requires
        b.input == a.input,
        b.select_list.len() == a.select_list.len(),
        forall|k: int| 0 <= k < a.select_list.len() ==> a.select_list[k] == b.select_list[k],
    ensures
        spec_schema(b) == spec_schema(a),
        spec_logical_pk(b) == spec_logical_pk(a),
        spec_functional_dependency(b) == spec_functional_dependency(a),
        spec_out_order(b) == spec_out_order(a),
{
    assert(b.select_list =~= a.select_list);
    assert(b =~= a);
}

} // verus!
