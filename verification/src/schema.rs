//! Key schemas, attribute definitions and projections.

use vstd::prelude::*;
use vstd::string::*;

verus! {

/// The part that an attribute plays in a key.
#[derive(Debug, Clone, Copy, PartialEq, Eq, Structural)]
pub enum KeyType {
    Hash,
    Range,
}

/// The type of a key attribute.
#[derive(Debug, Clone, Copy, PartialEq, Eq, Structural)]
pub enum ScalarAttributeType {
    S,
    N,
    B,
}

/// An attribute of a key.
#[derive(Debug, PartialEq)]
pub struct KeySchemaElement {
    pub attribute_name: String,
    pub key_type: KeyType,
}

/// An attribute and its type.
#[derive(Debug, PartialEq)]
pub struct AttributeDefinition {
    pub attribute_name: String,
    pub attribute_type: ScalarAttributeType,
}

/// The sort key of a table or an index: the attribute and its type.
#[derive(Debug, PartialEq)]
pub struct SortKey {
    pub name: String,
    pub kind: ScalarAttributeType,
}

/// Which attributes an index holds.
#[derive(Debug, Clone, Copy, PartialEq, Eq, Structural)]
pub enum ProjectionType {
    All,
    KeysOnly,
    Include,
}

/// The attributes that an index holds.
#[derive(Debug, PartialEq)]
pub struct Projection {
    pub projection_type: ProjectionType,
    pub non_key_attributes: Option<Vec<String>>,
}

/// The model of a key schema: names and parts.
pub open spec fn schema_view(s: Seq<KeySchemaElement>) -> Seq<(Seq<char>, KeyType)> {
    Seq::new(s.len(), |i: int| (s[i].attribute_name@, s[i].key_type))
}

/// A copy of a key schema.
pub fn copy_schema(s: &Vec<KeySchemaElement>) -> (r: Vec<KeySchemaElement>)
    ensures
        schema_view(r@) == schema_view(s@),
{
    let mut out: Vec<KeySchemaElement> = Vec::new();
    let mut i: usize = 0;
    while i < s.len()
        invariant
            i <= s.len(),
            out@.len() == i,
            forall|j: int|
                0 <= j < i ==> (#[trigger] out@[j]).attribute_name@ == s@[j].attribute_name@
                    && out@[j].key_type == s@[j].key_type,
        decreases s.len() - i,
    {
        out.push(
            KeySchemaElement {
                attribute_name: s[i].attribute_name.clone(),
                key_type: s[i].key_type,
            },
        );
        i += 1;
    }
    assert(schema_view(out@) =~= schema_view(s@));
    out
}

} // verus!
