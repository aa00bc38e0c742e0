//! Structural checks of schema declarations: a schema has a name, each field
//! has a name, and each enumeration field has at least one variant; nested
//! schemas and array element types are checked in turn.
use vstd::prelude::*;

verus! {

broadcast use vstd::std_specs::vec::group_vec_axioms;

/// A named set of fields.
#[derive(Debug)]
pub struct Schema {
    pub name: String,
    pub fields: Vec<(String, Field)>,
}

/// The type a field declares.
#[derive(Debug)]
pub enum FieldType {
    Number,
    String,
    Enum(Vec<String>),
    SubSchema(Box<Schema>),
    Array(Box<FieldType>),
}

/// A field's declaration.
#[derive(Debug)]
pub struct Field {
    pub field_type: FieldType,
    pub nullable: bool,
    pub overrides_on_null: bool,
}

/// Whether a field declaration, under its name, passes the field check: the
/// name is not empty, and an enumeration has a variant.
pub open spec fn field_ok(name: Seq<char>, f: Field) -> bool {
    &&& name.len() > 0
    &&& !(f.field_type matches FieldType::Enum(v) && v@.len() == 0)
}

/// Whether the schemas nested in a field type pass: a nested schema is checked
/// whole, an array by its element type.
pub open spec fn nested_ok(t: FieldType) -> bool
    decreases t,
{
    match t {
        FieldType::SubSchema(s) => schema_ok(*s),
        FieldType::Array(inner) => nested_ok(*inner),
        _ => true,
    }
}

/// Whether a schema passes: its name is not empty, and each field passes the
/// field check and its nested schemas pass.
pub open spec fn schema_ok(s: Schema) -> bool
    decreases s,
{
    &&& s.name@.len() > 0
    &&& forall|i: int|
        0 <= i < s.fields@.len() ==> field_ok(s.fields@[i].0@, s.fields@[i].1) && nested_ok(
            #[trigger] s.fields@[i].1.field_type,
        )
}

/// The visitor that performs the checks.
pub struct SchemaValidator;

impl SchemaValidator {
    /// The check of a schema itself: its name is not empty.
    pub fn visit_schema(&mut self, schema: &Schema) -> (r: Result<(), String>)
        ensures
            r is Ok <==> schema.name@.len() > 0,
    {
        if schema.name.as_str().is_empty() {
            return Err(String::from_str("Schema name cannot be empty"));
        }
        Ok(())
    }

    /// The check of one field: its name is not empty, and an enumeration has at
    /// least one variant.
    pub fn visit_field(&mut self, name: &str, field: &Field) -> (r: Result<(), String>)
        ensures
            r is Ok <==> field_ok(name@, *field),
    {
        if name.is_empty() {
            return Err(String::from_str("Field name cannot be empty"));
        }
        match &field.field_type {
            FieldType::Enum(variants) => {
                if variants.len() == 0 {
                    let mut m = String::from_str("Enum field '");
                    m.append(name);
                    m.append("' must have at least one variant");
                    return Err(m);
                }
            },
            _ => {},
        }
        Ok(())
    }
}

impl Schema {
    /// Walks the schema with the validator: the schema, then each field and what
    /// is nested in it, stopping at the first failure.
    pub fn accept(&self, visitor: &mut SchemaValidator) -> (r: Result<(), String>)
        ensures
            r is Ok <==> schema_ok(*self),
        decreases *self,
    {
        match visitor.visit_schema(self) {
            Ok(()) => {},
            Err(e) => {
                return Err(e);
            },
        }
        let mut i: usize = 0;
        while i < self.fields.len()
            invariant
                i <= self.fields@.len(),
                self.name@.len() > 0,
                forall|j: int|
                    0 <= j < i ==> field_ok(self.fields@[j].0@, self.fields@[j].1) && nested_ok(
                        #[trigger] self.fields@[j].1.field_type,
                    ),
            decreases self.fields@.len() - i,
        {
            let (name, field) = &self.fields[i];
            match visitor.visit_field(name.as_str(), field) {
                Ok(()) => {},
                Err(e) => {
                    return Err(e);
                },
            }
            assert(decreases_to!(self.fields => self.fields[i as int]));
            match field.accept(visitor) {
                Ok(()) => {},
                Err(e) => {
                    return Err(e);
                },
            }
            i = i + 1;
        }
        Ok(())
    }
}

impl Field {
    /// Walks what is nested in the field: a nested schema whole, an array's
    /// element type.
    pub fn accept(&self, visitor: &mut SchemaValidator) -> (r: Result<(), String>)
        ensures
            r is Ok <==> nested_ok(self.field_type),
        decreases *self,
    {
        accept_type(&self.field_type, visitor)
    }
}

fn accept_type(t: &FieldType, visitor: &mut SchemaValidator) -> (r: Result<(), String>)
    ensures
        r is Ok <==> nested_ok(*t),
    decreases *t,
{
    match t {
        FieldType::SubSchema(s) => s.accept(visitor),
        FieldType::Array(inner) => accept_type(inner, visitor),
        _ => Ok(()),
    }
}

} // verus!
