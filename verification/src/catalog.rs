//! Schema metadata: declared types, fields and ordered field lists.

use vstd::prelude::*;

verus! {

/// A column's declared type. `Struct` columns carry their member fields and
/// a type name inside the owning [`Field`], so that nested access by dotted
/// path keeps working downstream.
#[derive(Debug, Clone, Copy, PartialEq, Eq, Structural)]
pub enum DataType {
    Boolean,
    Int16,
    Int32,
    Int64,
    Varchar,
    Struct,
}

/// The mathematical value of a [`Field`]: the same shape with sequences in
/// place of vectors and strings.
#[verifier::ext_equal]
pub ghost struct FieldV {
    pub name: Seq<char>,
    pub data_type: DataType,
    pub sub_fields: Seq<FieldV>,
    pub nested_name: Seq<char>,
}

/// One column of a schema: a name, a declared type, and — for nested-struct
/// columns — the member fields and the name of the nested type.
#[derive(Debug)]
pub struct Field {
    pub name: String,
    pub data_type: DataType,
    pub sub_fields: Vec<Field>,
    pub nested_name: String,
}

/// The mathematical value of a field, computed recursively over its
/// sub-fields.
pub open spec fn field_view(f: Field) -> FieldV
    decreases f,
{
    FieldV {
        name: f.name@,
        data_type: f.data_type,
        sub_fields: Seq::new(
            f.sub_fields@.len(),
            |i: int|
                if 0 <= i < f.sub_fields@.len() {
                    field_view(f.sub_fields@[i])
                } else {
                    arbitrary()
                },
        ),
        nested_name: f.nested_name@,
    }
}

impl View for Field {
    type V = FieldV;

    open spec fn view(&self) -> FieldV {
        field_view(*self)
    }
}

impl Field {
    /// A scalar field: the given name and type, no sub-fields, empty nested
    /// type name.
    pub fn with_name(data_type: DataType, name: String) -> (r: Field)
        ensures
            r@ == (FieldV {
                name: name@,
                data_type,
                sub_fields: Seq::<FieldV>::empty(),
                nested_name: Seq::<char>::empty(),
            }),
    {
        let r = Field { name, data_type, sub_fields: Vec::new(), nested_name: String::new() };
        proof {
            assert(r@.sub_fields =~= Seq::<FieldV>::empty());
            assert(r@ =~= (FieldV {
                name: name@,
                data_type,
                sub_fields: Seq::<FieldV>::empty(),
                nested_name: Seq::<char>::empty(),
            }));
        }
        r
    }

    /// A field with explicit nested-struct information.
    pub fn with_struct(data_type: DataType, name: String, sub_fields: Vec<Field>, nested_name: String) -> (r:
        Field)
        ensures
            r@ == (FieldV {
                name: name@,
                data_type,
                sub_fields: Seq::new(sub_fields@.len(), |i: int| sub_fields@[i]@),
                nested_name: nested_name@,
            }),
    {
        let ghost expected = FieldV {
            name: name@,
            data_type,
            sub_fields: Seq::new(sub_fields@.len(), |i: int| sub_fields@[i]@),
            nested_name: nested_name@,
        };
        let r = Field { name, data_type, sub_fields, nested_name };
        proof {
            assert(r@.sub_fields =~= expected.sub_fields);
            assert(r@ =~= expected);
        }
        r
    }

    /// A structurally equal copy of the field.
    pub fn duplicate(&self) -> (r: Field)
        ensures
            r@ == self@,
        decreases *self,
    {
        let mut subs: Vec<Field> = Vec::new();
        let n = self.sub_fields.len();
        let mut i: usize = 0;
        while i < n
            invariant
                n == self.sub_fields@.len(),
                i <= n,
                subs@.len() == i,
                forall|j: int| 0 <= j < i ==> subs@[j]@ == #[trigger] self.sub_fields@[j]@,
            decreases n - i,
        {
            let sub = &self.sub_fields[i];
            proof {
                assert(decreases_to!(*self => self.sub_fields));
                assert(decreases_to!(self.sub_fields => self.sub_fields@[i as int]));
            }
            subs.push(sub.duplicate());
            i += 1;
        }
        let r = Field {
            name: self.name.clone(),
            data_type: self.data_type,
            sub_fields: subs,
            nested_name: self.nested_name.clone(),
        };
        proof {
            assert forall|j: int| 0 <= j < r@.sub_fields.len() implies r@.sub_fields[j]
                == self@.sub_fields[j] by {
                assert(subs@[j]@ == self.sub_fields@[j]@);
            }
            assert(r@.sub_fields =~= self@.sub_fields);
            assert(r@ =~= self@);
        }
        r
    }
}

/// An ordered field list; length and positions are significant.
#[derive(Debug)]
pub struct Schema {
    pub fields: Vec<Field>,
}

impl View for Schema {
    type V = Seq<FieldV>;

    open spec fn view(&self) -> Seq<FieldV> {
        Seq::new(self.fields@.len(), |i: int| self.fields@[i]@)
    }
}

impl Schema {
    pub fn new(fields: Vec<Field>) -> (r: Schema)
        ensures
            r@ == Seq::new(fields@.len(), |i: int| fields@[i]@),
    {
        Schema { fields }
    }

    pub fn len(&self) -> (r: usize)
        ensures
            r == self@.len(),
    {
        self.fields.len()
    }

    /// A structurally equal copy of the schema.
    pub fn duplicate(&self) -> (r: Schema)
        ensures
            r@ == self@,
    {
        let mut fields: Vec<Field> = Vec::new();
        let n = self.fields.len();
        let mut i: usize = 0;
        while i < n
            invariant
                n == self.fields@.len(),
                i <= n,
                fields@.len() == i,
                forall|j: int| 0 <= j < i ==> fields@[j]@ == #[trigger] self.fields@[j]@,
            decreases n - i,
        {
            fields.push(self.fields[i].duplicate());
            i += 1;
        }
        let r = Schema { fields };
        proof {
            assert(r@ =~= self@);
        }
        r
    }
}

} // verus!
