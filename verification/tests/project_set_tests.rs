use project_set::ColumnOrder;
use project_set::DataType;
use project_set::ExprImpl;
use project_set::Field;
use project_set::FunctionalDependencySet;
use project_set::Order;
use project_set::OrderType;
use project_set::PlanInput;
use project_set::ProjectSet;
use project_set::Schema;

fn ref_expr(index: usize, data_type: DataType) -> ExprImpl {
    ExprImpl::InputRef { index, data_type }
}

fn computed(display: &str, data_type: DataType) -> ExprImpl {
    ExprImpl::Computed { display: display.to_string(), data_type }
}

/// An input plan of width 3 (columns `a`, `b`, `c`), with the given key,
/// dependency set and ordering.
fn input_width_3(
    logical_pk: Vec<usize>,
    functional_dependency: FunctionalDependencySet,
    order: Order,
) -> PlanInput {
    let fields = vec![
        Field::with_name(DataType::Varchar, "a".to_string()),
        Field::with_name(DataType::Int32, "b".to_string()),
        Field::with_name(DataType::Int64, "c".to_string()),
    ];
    PlanInput::new(Schema::new(fields), logical_pk, functional_dependency, order)
}

fn plain_input_width_3(logical_pk: Vec<usize>) -> PlanInput {
    input_width_3(
        logical_pk,
        FunctionalDependencySet::new(3),
        Order::new(vec![]),
    )
}

#[test]
fn mapping_directions_for_two_refs() {
    // width 3, select list [ref(0), ref(2)]
    let node = ProjectSet {
        select_list: vec![ref_expr(0, DataType::Varchar), ref_expr(2, DataType::Int64)],
        input: plain_input_width_3(vec![]),
    };
    let i2o = node.i2o_col_mapping();
    assert_eq!(i2o.source_size(), 3);
    assert_eq!(i2o.target_size(), 3);
    assert_eq!(i2o.try_map(0), Ok(Some(1)));
    assert_eq!(i2o.try_map(1), Ok(None));
    assert_eq!(i2o.try_map(2), Ok(Some(2)));
    let o2i = node.o2i_col_mapping();
    assert_eq!(o2i.source_size(), 3);
    assert_eq!(o2i.target_size(), 3);
    assert_eq!(o2i.try_map(0), Ok(None));
    assert_eq!(o2i.try_map(1), Ok(Some(0)));
    assert_eq!(o2i.try_map(2), Ok(Some(2)));
}

#[test]
fn multiply_referenced_column_maps_to_lowest_output_index() {
    let node = ProjectSet {
        select_list: vec![
            ref_expr(1, DataType::Int32),
            ref_expr(1, DataType::Int32),
            ref_expr(1, DataType::Int32),
        ],
        input: plain_input_width_3(vec![]),
    };
    let o2i = node.o2i_col_mapping();
    assert_eq!(o2i.try_map(1), Ok(Some(1)));
    assert_eq!(o2i.try_map(2), Ok(Some(1)));
    assert_eq!(o2i.try_map(3), Ok(Some(1)));
    // input -> output picks the first occurrence, which is <= every
    // output index that maps back to it.
    let i2o = node.i2o_col_mapping();
    assert_eq!(i2o.try_map(1), Ok(Some(1)));
}

#[test]
fn output_schema_has_row_identity_then_one_field_per_item() {
    let node = ProjectSet {
        select_list: vec![
            ref_expr(0, DataType::Int32),
            computed("f(x)", DataType::Boolean),
        ],
        input: plain_input_width_3(vec![]),
    };
    assert_eq!(node.output_len(), 3);
    let schema = node.schema();
    assert_eq!(schema.len(), 3);
    let row_id = &schema.fields[0];
    assert_eq!(row_id.name, "projected_row_id");
    assert_eq!(row_id.data_type, DataType::Int64);
    assert!(row_id.sub_fields.is_empty());
    assert_eq!(row_id.nested_name, "");
    // pass-through: name comes from the input field, the type from the
    // expression itself (it may wrap or cast the column).
    let passed = &schema.fields[1];
    assert_eq!(passed.name, "a");
    assert_eq!(passed.data_type, DataType::Int32);
    // computed: rendered fallback label, own type, no sub-fields.
    let comp = &schema.fields[2];
    assert_eq!(comp.name, "f(x)");
    assert_eq!(comp.data_type, DataType::Boolean);
    assert!(comp.sub_fields.is_empty());
    assert_eq!(comp.nested_name, "");
}

#[test]
fn nested_struct_information_is_copied_verbatim() {
    let sub = vec![
        Field::with_name(DataType::Int32, "x".to_string()),
        Field::with_name(DataType::Varchar, "y".to_string()),
    ];
    let fields = vec![Field::with_struct(
        DataType::Struct,
        "s".to_string(),
        sub,
        "pair".to_string(),
    )];
    let input = PlanInput::new(
        Schema::new(fields),
        vec![],
        FunctionalDependencySet::new(1),
        Order::new(vec![]),
    );
    let node = ProjectSet {
        select_list: vec![ref_expr(0, DataType::Struct)],
        input,
    };
    let schema = node.schema();
    let f = &schema.fields[1];
    assert_eq!(f.name, "s");
    assert_eq!(f.nested_name, "pair");
    assert_eq!(f.sub_fields.len(), 2);
    assert_eq!(f.sub_fields[0].name, "x");
    assert_eq!(f.sub_fields[1].name, "y");
}

#[test]
fn empty_input_key_yields_exactly_the_row_identity_key() {
    let node = ProjectSet {
        select_list: vec![computed("f(x)", DataType::Int32)],
        input: plain_input_width_3(vec![]),
    };
    assert_eq!(node.logical_pk(), Some(vec![0]));
}

#[test]
fn fully_mapped_key_is_inherited_then_identity() {
    // width 3, [ref(0), ref(2)], input key [2] -> output key [2, 0]
    let node = ProjectSet {
        select_list: vec![ref_expr(0, DataType::Varchar), ref_expr(2, DataType::Int64)],
        input: plain_input_width_3(vec![2]),
    };
    assert_eq!(node.logical_pk(), Some(vec![2, 0]));
}

#[test]
fn partially_mapped_key_is_discarded_whole() {
    // same width, no pass-through of column 2: input key [2] -> [0]
    let node = ProjectSet {
        select_list: vec![
            computed("f(x)", DataType::Int32),
            computed("g(x)", DataType::Int32),
        ],
        input: plain_input_width_3(vec![2]),
    };
    assert_eq!(node.logical_pk(), Some(vec![0]));
    // one mapped and one unmapped key column: still discarded whole
    let node = ProjectSet {
        select_list: vec![ref_expr(0, DataType::Varchar), computed("g(x)", DataType::Int32)],
        input: plain_input_width_3(vec![0, 2]),
    };
    assert_eq!(node.logical_pk(), Some(vec![0]));
}

#[test]
fn dependency_rewrite_drops_unexpressible_dependencies() {
    // width 3, mapping 0 -> 1, 2 -> 2 (column 1 unmapped);
    // {0} -> {2} survives as {1} -> {2}; {1} -> {2} is dropped.
    let mut fd = FunctionalDependencySet::new(3);
    fd.add_functional_dependency(vec![0], vec![2]);
    fd.add_functional_dependency(vec![1], vec![2]);
    let node = ProjectSet {
        select_list: vec![ref_expr(0, DataType::Varchar), ref_expr(2, DataType::Int64)],
        input: input_width_3(vec![], fd, Order::new(vec![])),
    };
    let out = node.functional_dependency();
    assert_eq!(out.column_count, 3);
    assert_eq!(out.deps.len(), 1);
    assert_eq!(out.deps[0].from, vec![1]);
    assert_eq!(out.deps[0].to, vec![2]);
}

#[test]
fn ordering_is_translated_and_unmapped_keys_dropped() {
    let order = Order::new(vec![
        ColumnOrder { column_index: 2, order_type: OrderType::Ascending },
        ColumnOrder { column_index: 1, order_type: OrderType::Descending },
        ColumnOrder { column_index: 0, order_type: OrderType::Ascending },
    ]);
    let node = ProjectSet {
        select_list: vec![ref_expr(0, DataType::Varchar), ref_expr(2, DataType::Int64)],
        input: input_width_3(vec![], FunctionalDependencySet::new(3), order),
    };
    let out = node.get_out_column_index_order();
    // 2 -> 2, 1 dropped, 0 -> 1; the row-identity column is not added.
    assert_eq!(out.column_orders.len(), 2);
    assert_eq!(
        out.column_orders[0],
        ColumnOrder { column_index: 2, order_type: OrderType::Ascending }
    );
    assert_eq!(
        out.column_orders[1],
        ColumnOrder { column_index: 1, order_type: OrderType::Ascending }
    );
}

fn assert_same_fields(a: &Schema, b: &Schema) {
    assert_eq!(a.len(), b.len());
    for (fa, fb) in a.fields.iter().zip(b.fields.iter()) {
        assert_eq!(fa.name, fb.name);
        assert_eq!(fa.data_type, fb.data_type);
        assert_eq!(fa.nested_name, fb.nested_name);
        assert_eq!(fa.sub_fields.len(), fb.sub_fields.len());
    }
}

#[test]
fn rewrite_with_identity_transform_preserves_derived_facts() {
    let mut fd = FunctionalDependencySet::new(3);
    fd.add_functional_dependency(vec![0], vec![2]);
    let order = Order::new(vec![ColumnOrder {
        column_index: 0,
        order_type: OrderType::Ascending,
    }]);
    let node = ProjectSet {
        select_list: vec![ref_expr(0, DataType::Varchar), computed("f(x)", DataType::Int32)],
        input: input_width_3(vec![0], fd, order),
    };
    let rewritten = node.rewrite_exprs(|e: ExprImpl| e);
    assert_same_fields(&node.schema(), &rewritten.schema());
    assert_eq!(node.logical_pk(), rewritten.logical_pk());
    let (fd_a, fd_b) = (node.functional_dependency(), rewritten.functional_dependency());
    assert_eq!(fd_a.column_count, fd_b.column_count);
    assert_eq!(fd_a.deps.len(), fd_b.deps.len());
    for (da, db) in fd_a.deps.iter().zip(fd_b.deps.iter()) {
        assert_eq!(da.from, db.from);
        assert_eq!(da.to, db.to);
    }
    let (oa, ob) = (node.get_out_column_index_order(), rewritten.get_out_column_index_order());
    assert_eq!(oa.column_orders, ob.column_orders);
}

#[test]
fn rewrite_applies_the_transform_to_every_item() {
    let node = ProjectSet {
        select_list: vec![ref_expr(0, DataType::Varchar), ref_expr(2, DataType::Int64)],
        input: plain_input_width_3(vec![]),
    };
    let rewritten = node.rewrite_exprs(|_e: ExprImpl| computed("k", DataType::Boolean));
    assert_eq!(rewritten.select_list.len(), 2);
    // no pass-through is left, so the inherited key part vanishes
    assert_eq!(rewritten.logical_pk(), Some(vec![0]));
    let schema = rewritten.schema();
    assert_eq!(schema.fields[1].name, "k");
    assert_eq!(schema.fields[2].name, "k");
}

#[test]
fn fmt_with_name_renders_name_and_select_list() {
    let node = ProjectSet {
        select_list: vec![ref_expr(0, DataType::Varchar), computed("f(x)", DataType::Int32)],
        input: plain_input_width_3(vec![]),
    };
    assert_eq!(
        node.fmt_with_name("LogicalProjectSet"),
        "LogicalProjectSet { select_list: [$0, f(x)] }"
    );
    let empty = ProjectSet {
        select_list: vec![],
        input: plain_input_width_3(vec![]),
    };
    assert_eq!(empty.fmt_with_name("ProjectSet"), "ProjectSet { select_list: [] }");
}

#[test]
fn empty_select_list_still_has_the_row_identity_column() {
    let node = ProjectSet {
        select_list: vec![],
        input: plain_input_width_3(vec![0]),
    };
    assert_eq!(node.output_len(), 1);
    let schema = node.schema();
    assert_eq!(schema.len(), 1);
    assert_eq!(schema.fields[0].name, "projected_row_id");
    // no item passes column 0 through, so the inherited key part is dropped
    assert_eq!(node.logical_pk(), Some(vec![0]));
}

#[test]
fn repeated_key_columns_translate_position_by_position() {
    let node = ProjectSet {
        select_list: vec![ref_expr(2, DataType::Int64)],
        input: plain_input_width_3(vec![2, 2]),
    };
    assert_eq!(node.logical_pk(), Some(vec![1, 1, 0]));
}

#[test]
fn input_references_render_with_multi_digit_indices() {
    let e = ref_expr(120, DataType::Int64);
    assert_eq!(e.render(), "$120");
    let z = ref_expr(0, DataType::Int64);
    assert_eq!(z.render(), "$0");
}
