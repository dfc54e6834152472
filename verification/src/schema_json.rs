//! The stored form of key schemas, attribute definitions, projections,
//! throughput and stream settings in the catalog.

use vstd::prelude::*;
use vstd::string::*;

use crate::bson::{
    bson_seq, doc1, group_document_fields, text_seq, Bson, BsonV, DocV, Document,
};
use crate::item::copy_texts;
use crate::item_json::{all_texts, read_texts, text_values, texts_to_bson};
use crate::schema::{
    schema_view, AttributeDefinition, KeySchemaElement, KeyType, Projection, ProjectionType,
    ScalarAttributeType,
};
use crate::text::text_eq;

verus! {

/// Read and write capacity.
#[derive(Debug, Clone, Copy, PartialEq, Eq, Structural)]
pub struct ProvisionedThroughput {
    pub read_capacity_units: i64,
    pub write_capacity_units: i64,
}

/// Which images a stream record holds.
#[derive(Debug, Clone, Copy, PartialEq, Eq, Structural)]
pub enum StreamViewType {
    KeysOnly,
    NewImage,
    OldImage,
    NewAndOldImages,
}

/// The stream settings of a table.
#[derive(Debug, Clone, Copy, PartialEq, Eq, Structural)]
pub struct StreamSpecification {
    pub stream_enabled: bool,
    pub stream_view_type: Option<StreamViewType>,
}

// --- Key schemas -----------------------------------------------------------------

/// The stored name of a part of a key.
pub open spec fn key_type_text(k: KeyType) -> Seq<char> {
    match k {
        KeyType::Hash => "HASH"@,
        KeyType::Range => "RANGE"@,
    }
}

/// The part of a key that a stored name stands for.
pub open spec fn key_type_of(t: Seq<char>) -> Option<KeyType> {
    if t == "HASH"@ {
        Some(KeyType::Hash)
    } else if t == "RANGE"@ {
        Some(KeyType::Range)
    } else {
        None
    }
}

/// The stored form of an attribute of a key.
pub open spec fn element_bson(e: (Seq<char>, KeyType)) -> BsonV {
    BsonV::Doc(
        doc1("AttributeName"@, BsonV::Str(e.0)).with(
            "KeyType"@,
            BsonV::Str(key_type_text(e.1)),
        ),
    )
}

/// The stored form of a key schema.
pub open spec fn schema_bson(s: Seq<(Seq<char>, KeyType)>) -> BsonV {
    BsonV::Array(Seq::new(s.len(), |i: int| element_bson(s[i])))
}

/// The attribute of a key that a stored form stands for.
pub open spec fn element_of(b: BsonV) -> Option<(Seq<char>, KeyType)> {
    match b {
        BsonV::Doc(d) => match (d.get_str("AttributeName"@), d.get_str("KeyType"@)) {
            (Some(n), Some(t)) => match key_type_of(t) {
                Some(k) => Some((n, k)),
                None => None,
            },
            _ => None,
        },
        _ => None,
    }
}

/// Every value of a list is the stored form of an attribute of a key.
pub open spec fn all_elements(a: Seq<BsonV>) -> bool {
    forall|i: int| 0 <= i < a.len() ==> element_of(#[trigger] a[i]) is Some
}

/// The key schema that a stored form stands for.
pub open spec fn schema_of(b: BsonV) -> Option<Seq<(Seq<char>, KeyType)>> {
    match b {
        BsonV::Array(a) => if all_elements(a) {
            Some(Seq::new(a.len(), |i: int| element_of(a[i])->0))
        } else {
            None
        },
        _ => None,
    }
}

proof fn lemma_element_round_trip(e: (Seq<char>, KeyType))
    ensures
        element_of(element_bson(e)) == Some(e),
{
    broadcast use group_document_fields;

    reveal_strlit("AttributeName");
    reveal_strlit("KeyType");
    reveal_strlit("HASH");
    reveal_strlit("RANGE");
    assert("AttributeName"@.len() == 13 && "KeyType"@.len() == 7);
    assert("HASH"@.len() == 4 && "RANGE"@.len() == 5);
}

/// Reading a stored key schema gives the key schema back.
pub proof fn law_schema_round_trip(s: Seq<(Seq<char>, KeyType)>)
    ensures
        schema_of(schema_bson(s)) == Some(s),
{
    let a = schema_bson(s)->Array_0;
    assert forall|i: int| 0 <= i < a.len() implies element_of(#[trigger] a[i]) == Some(s[i]) by {
        lemma_element_round_trip(s[i]);
    }
    assert(Seq::new(a.len(), |i: int| element_of(a[i])->0) =~= s);
}

/// The stored form of a key schema.
pub fn schema_to_bson(s: &Vec<KeySchemaElement>) -> (r: Bson)
    ensures
        r@ == schema_bson(schema_view(s@)),
{
    let mut out: Vec<Bson> = Vec::new();
    let mut i: usize = 0;
    while i < s.len()
        invariant
            i <= s.len(),
            out@.len() == i,
            forall|j: int|
                #![trigger out@[j]]
                0 <= j < i ==> out@[j]@ == element_bson(
                    (s@[j].attribute_name@, s@[j].key_type),
                ),
        decreases s.len() - i,
    {
        let t = match s[i].key_type {
            KeyType::Hash => "HASH",
            KeyType::Range => "RANGE",
        };
        out.push(
            Bson::Document(
                Document::new().with(
                    "AttributeName",
                    Bson::String(s[i].attribute_name.clone()),
                ).with("KeyType", Bson::text(t)),
            ),
        );
        i += 1;
    }
    assert(bson_seq(out@) =~= Seq::new(
        s@.len(),
        |i: int| element_bson(schema_view(s@)[i]),
    ));
    Bson::array(out)
}

fn read_element(b: &Bson) -> (r: Option<KeySchemaElement>)
    ensures
        match r {
            Some(e) => element_of(b@) == Some((e.attribute_name@, e.key_type)),
            None => element_of(b@) is None,
        },
{
    let d = match b {
        Bson::Document(d) => d,
        _ => {
            return None;
        },
    };
    match (d.get_str("AttributeName"), d.get_str("KeyType")) {
        (Some(n), Some(t)) => if text_eq(t, "HASH") {
            Some(KeySchemaElement { attribute_name: n.to_owned(), key_type: KeyType::Hash })
        } else if text_eq(t, "RANGE") {
            Some(KeySchemaElement { attribute_name: n.to_owned(), key_type: KeyType::Range })
        } else {
            None
        },
        _ => None,
    }
}

/// Reads a stored key schema.
pub fn read_schema(b: &Bson) -> (r: Option<Vec<KeySchemaElement>>)
    ensures
        match r {
            Some(s) => schema_of(b@) == Some(schema_view(s@)),
            None => schema_of(b@) is None,
        },
{
    let v = match b {
        Bson::Array(v) => v,
        _ => {
            return None;
        },
    };
    let ghost a = bson_seq(v@);
    assert(b@->Array_0 =~= a);
    let mut out: Vec<KeySchemaElement> = Vec::new();
    let mut i: usize = 0;
    while i < v.len()
        invariant
            i <= v.len(),
            a == bson_seq(v@),
            b@ == BsonV::Array(a),
            out@.len() == i,
            forall|j: int|
                #![trigger a[j]]
                0 <= j < i ==> element_of(a[j]) == Some(
                    (out@[j].attribute_name@, out@[j].key_type),
                ),
        decreases v.len() - i,
    {
        match read_element(&v[i]) {
            Some(e) => {
                out.push(e);
            },
            None => {
                assert(element_of(a[i as int]) is None);
                return None;
            },
        }
        i += 1;
    }
    assert(schema_view(out@) =~= Seq::new(a.len(), |i: int| element_of(a[i])->0));
    Some(out)
}

// --- Attribute definitions -----------------------------------------------------------

/// The model of attribute definitions: names and types.
pub open spec fn defs_view(s: Seq<AttributeDefinition>) -> Seq<(Seq<char>, ScalarAttributeType)> {
    Seq::new(s.len(), |i: int| (s[i].attribute_name@, s[i].attribute_type))
}

/// The stored name of an attribute type.
pub open spec fn scalar_text(k: ScalarAttributeType) -> Seq<char> {
    match k {
        ScalarAttributeType::S => "S"@,
        ScalarAttributeType::N => "N"@,
        ScalarAttributeType::B => "B"@,
    }
}

/// The attribute type that a stored name stands for.
pub open spec fn scalar_of(t: Seq<char>) -> Option<ScalarAttributeType> {
    if t == "S"@ {
        Some(ScalarAttributeType::S)
    } else if t == "N"@ {
        Some(ScalarAttributeType::N)
    } else if t == "B"@ {
        Some(ScalarAttributeType::B)
    } else {
        None
    }
}

/// The stored form of an attribute definition.
pub open spec fn def_bson(e: (Seq<char>, ScalarAttributeType)) -> BsonV {
    BsonV::Doc(
        doc1("AttributeName"@, BsonV::Str(e.0)).with(
            "AttributeType"@,
            BsonV::Str(scalar_text(e.1)),
        ),
    )
}

/// The stored form of attribute definitions.
pub open spec fn defs_bson(s: Seq<(Seq<char>, ScalarAttributeType)>) -> BsonV {
    BsonV::Array(Seq::new(s.len(), |i: int| def_bson(s[i])))
}

/// The attribute definition that a stored form stands for.
pub open spec fn def_of(b: BsonV) -> Option<(Seq<char>, ScalarAttributeType)> {
    match b {
        BsonV::Doc(d) => match (d.get_str("AttributeName"@), d.get_str("AttributeType"@)) {
            (Some(n), Some(t)) => match scalar_of(t) {
                Some(k) => Some((n, k)),
                None => None,
            },
            _ => None,
        },
        _ => None,
    }
}

/// Every value of a list is the stored form of an attribute definition.
pub open spec fn all_defs(a: Seq<BsonV>) -> bool {
    forall|i: int| 0 <= i < a.len() ==> def_of(#[trigger] a[i]) is Some
}

/// The attribute definitions that a stored form stands for.
pub open spec fn defs_of(b: BsonV) -> Option<Seq<(Seq<char>, ScalarAttributeType)>> {
    match b {
        BsonV::Array(a) => if all_defs(a) {
            Some(Seq::new(a.len(), |i: int| def_of(a[i])->0))
        } else {
            None
        },
        _ => None,
    }
}

proof fn lemma_def_round_trip(e: (Seq<char>, ScalarAttributeType))
    ensures
        def_of(def_bson(e)) == Some(e),
{
    broadcast use group_document_fields;

    reveal_strlit("AttributeName");
    reveal_strlit("AttributeType");
    reveal_strlit("S");
    reveal_strlit("N");
    reveal_strlit("B");
    assert("AttributeName"@[9] == 'N' && "AttributeType"@[9] == 'T');
    assert("S"@[0] == 'S' && "N"@[0] == 'N' && "B"@[0] == 'B');
}

/// Reading stored attribute definitions gives the definitions back.
pub proof fn law_definitions_round_trip(s: Seq<(Seq<char>, ScalarAttributeType)>)
    ensures
        defs_of(defs_bson(s)) == Some(s),
{
    let a = defs_bson(s)->Array_0;
    assert forall|i: int| 0 <= i < a.len() implies def_of(#[trigger] a[i]) == Some(s[i]) by {
        lemma_def_round_trip(s[i]);
    }
    assert(Seq::new(a.len(), |i: int| def_of(a[i])->0) =~= s);
}

/// The stored form of attribute definitions.
pub fn defs_to_bson(s: &Vec<AttributeDefinition>) -> (r: Bson)
    ensures
        r@ == defs_bson(defs_view(s@)),
{
    let mut out: Vec<Bson> = Vec::new();
    let mut i: usize = 0;
    while i < s.len()
        invariant
            i <= s.len(),
            out@.len() == i,
            forall|j: int|
                #![trigger out@[j]]
                0 <= j < i ==> out@[j]@ == def_bson(
                    (s@[j].attribute_name@, s@[j].attribute_type),
                ),
        decreases s.len() - i,
    {
        let t = match s[i].attribute_type {
            ScalarAttributeType::S => "S",
            ScalarAttributeType::N => "N",
            ScalarAttributeType::B => "B",
        };
        out.push(
            Bson::Document(
                Document::new().with(
                    "AttributeName",
                    Bson::String(s[i].attribute_name.clone()),
                ).with("AttributeType", Bson::text(t)),
            ),
        );
        i += 1;
    }
    assert(bson_seq(out@) =~= Seq::new(s@.len(), |i: int| def_bson(defs_view(s@)[i])));
    Bson::array(out)
}

fn read_def(b: &Bson) -> (r: Option<AttributeDefinition>)
    ensures
        match r {
            Some(e) => def_of(b@) == Some((e.attribute_name@, e.attribute_type)),
            None => def_of(b@) is None,
        },
{
    let d = match b {
        Bson::Document(d) => d,
        _ => {
            return None;
        },
    };
    match (d.get_str("AttributeName"), d.get_str("AttributeType")) {
        (Some(n), Some(t)) => {
            let kind = if text_eq(t, "S") {
                ScalarAttributeType::S
            } else if text_eq(t, "N") {
                ScalarAttributeType::N
            } else if text_eq(t, "B") {
                ScalarAttributeType::B
            } else {
                return None;
            };
            Some(AttributeDefinition { attribute_name: n.to_owned(), attribute_type: kind })
        },
        _ => None,
    }
}

/// Reads stored attribute definitions.
pub fn read_defs(b: &Bson) -> (r: Option<Vec<AttributeDefinition>>)
    ensures
        match r {
            Some(s) => defs_of(b@) == Some(defs_view(s@)),
            None => defs_of(b@) is None,
        },
{
    let v = match b {
        Bson::Array(v) => v,
        _ => {
            return None;
        },
    };
    let ghost a = bson_seq(v@);
    assert(b@->Array_0 =~= a);
    let mut out: Vec<AttributeDefinition> = Vec::new();
    let mut i: usize = 0;
    while i < v.len()
        invariant
            i <= v.len(),
            a == bson_seq(v@),
            b@ == BsonV::Array(a),
            out@.len() == i,
            forall|j: int|
                #![trigger a[j]]
                0 <= j < i ==> def_of(a[j]) == Some(
                    (out@[j].attribute_name@, out@[j].attribute_type),
                ),
        decreases v.len() - i,
    {
        match read_def(&v[i]) {
            Some(e) => {
                out.push(e);
            },
            None => {
                assert(def_of(a[i as int]) is None);
                return None;
            },
        }
        i += 1;
    }
    assert(defs_view(out@) =~= Seq::new(a.len(), |i: int| def_of(a[i])->0));
    Some(out)
}

/// A copy of attribute definitions.
pub fn copy_defs(s: &Vec<AttributeDefinition>) -> (r: Vec<AttributeDefinition>)
    ensures
        defs_view(r@) == defs_view(s@),
{
    let mut out: Vec<AttributeDefinition> = Vec::new();
    let mut i: usize = 0;
    while i < s.len()
        invariant
            i <= s.len(),
            out@.len() == i,
            forall|j: int|
                0 <= j < i ==> (#[trigger] out@[j]).attribute_name@ == s@[j].attribute_name@
                    && out@[j].attribute_type == s@[j].attribute_type,
        decreases s.len() - i,
    {
        out.push(
            AttributeDefinition {
                attribute_name: s[i].attribute_name.clone(),
                attribute_type: s[i].attribute_type,
            },
        );
        i += 1;
    }
    assert(defs_view(out@) =~= defs_view(s@));
    out
}

// --- Projections -------------------------------------------------------------------

/// The model of a projection.
#[verifier::ext_equal]
pub struct ProjectionV {
    pub kind: ProjectionType,
    pub attributes: Option<Seq<Seq<char>>>,
}

impl View for Projection {
    type V = ProjectionV;

    open spec fn view(&self) -> ProjectionV {
        ProjectionV {
            kind: self.projection_type,
            attributes: match self.non_key_attributes {
                Some(a) => Some(text_seq(a@)),
                None => None,
            },
        }
    }
}

/// The stored name of a kind of projection.
pub open spec fn projection_text(k: ProjectionType) -> Seq<char> {
    match k {
        ProjectionType::All => "ALL"@,
        ProjectionType::KeysOnly => "KEYS_ONLY"@,
        ProjectionType::Include => "INCLUDE"@,
    }
}

/// The kind of projection that a stored name stands for.
pub open spec fn projection_kind(t: Seq<char>) -> Option<ProjectionType> {
    if t == "ALL"@ {
        Some(ProjectionType::All)
    } else if t == "KEYS_ONLY"@ {
        Some(ProjectionType::KeysOnly)
    } else if t == "INCLUDE"@ {
        Some(ProjectionType::Include)
    } else {
        None
    }
}

/// The stored form of a projection.
pub open spec fn projection_bson(p: ProjectionV) -> BsonV {
    let d = doc1("ProjectionType"@, BsonV::Str(projection_text(p.kind)));
    BsonV::Doc(
        match p.attributes {
            Some(a) => d.with("NonKeyAttributes"@, BsonV::Array(text_values(a))),
            None => d,
        },
    )
}

/// The projection that a stored form stands for.
pub open spec fn projection_of(b: BsonV) -> Option<ProjectionV> {
    match b {
        BsonV::Doc(d) => match d.get_str("ProjectionType"@) {
            None => None,
            Some(t) => match projection_kind(t) {
                None => None,
                Some(kind) => match d.get("NonKeyAttributes"@) {
                    None => Some(ProjectionV { kind, attributes: None }),
                    Some(BsonV::Null) => Some(ProjectionV { kind, attributes: None }),
                    Some(BsonV::Array(a)) => if all_texts(a) {
                        Some(
                            ProjectionV {
                                kind,
                                attributes: Some(Seq::new(a.len(), |i: int| a[i]->Str_0)),
                            },
                        )
                    } else {
                        None
                    },
                    Some(_) => None,
                },
            },
        },
        _ => None,
    }
}

/// Reading a stored projection gives the projection back.
pub proof fn law_projection_round_trip(p: ProjectionV)
    ensures
        projection_of(projection_bson(p)) == Some(p),
{
    broadcast use group_document_fields;

    reveal_strlit("ProjectionType");
    reveal_strlit("NonKeyAttributes");
    reveal_strlit("ALL");
    reveal_strlit("KEYS_ONLY");
    reveal_strlit("INCLUDE");
    assert("ProjectionType"@.len() == 14 && "NonKeyAttributes"@.len() == 16);
    assert("ALL"@.len() == 3 && "KEYS_ONLY"@.len() == 9 && "INCLUDE"@.len() == 7);
    if let Some(a) = p.attributes {
        let v = text_values(a);
        assert(Seq::new(v.len(), |i: int| v[i]->Str_0) =~= a);
    }
}

/// The stored form of a projection.
pub fn projection_to_bson(p: &Projection) -> (r: Bson)
    ensures
        r@ == projection_bson(p@),
{
    let t = match p.projection_type {
        ProjectionType::All => "ALL",
        ProjectionType::KeysOnly => "KEYS_ONLY",
        ProjectionType::Include => "INCLUDE",
    };
    let d = Document::new().with("ProjectionType", Bson::text(t));
    match &p.non_key_attributes {
        Some(a) => Bson::Document(d.with("NonKeyAttributes", texts_to_bson(a))),
        None => Bson::Document(d),
    }
}

/// Reads a stored projection.
pub fn read_projection(b: &Bson) -> (r: Option<Projection>)
    ensures
        match r {
            Some(p) => projection_of(b@) == Some(p@),
            None => projection_of(b@) is None,
        },
{
    let d = match b {
        Bson::Document(d) => d,
        _ => {
            return None;
        },
    };
    let t = match d.get_str("ProjectionType") {
        Some(t) => t,
        None => {
            return None;
        },
    };
    let projection_type = if text_eq(t, "ALL") {
        ProjectionType::All
    } else if text_eq(t, "KEYS_ONLY") {
        ProjectionType::KeysOnly
    } else if text_eq(t, "INCLUDE") {
        ProjectionType::Include
    } else {
        return None;
    };
    match d.get("NonKeyAttributes") {
        None => Some(Projection { projection_type, non_key_attributes: None }),
        Some(Bson::Null) => Some(Projection { projection_type, non_key_attributes: None }),
        Some(Bson::Array(v)) => {
            proof {
                let x = d@.get("NonKeyAttributes"@)->0;
                assert(x->Array_0 =~= bson_seq(v@));
            }
            match read_texts(v) {
                Some(s) => Some(Projection { projection_type, non_key_attributes: Some(s) }),
                None => None,
            }
        },
        Some(_) => None,
    }
}

/// A copy of a projection.
pub fn copy_projection(p: &Projection) -> (r: Projection)
    ensures
        r@ == p@,
{
    Projection {
        projection_type: p.projection_type,
        non_key_attributes: match &p.non_key_attributes {
            Some(a) => Some(copy_texts(a)),
            None => None,
        },
    }
}

// --- Throughput ----------------------------------------------------------------------

/// The stored form of throughput.
pub open spec fn throughput_bson(t: ProvisionedThroughput) -> BsonV {
    BsonV::Doc(
        doc1("ReadCapacityUnits"@, BsonV::Int64(t.read_capacity_units)).with(
            "WriteCapacityUnits"@,
            BsonV::Int64(t.write_capacity_units),
        ),
    )
}

/// The stored form of throughput that may not be set.
pub open spec fn opt_throughput_bson(t: Option<ProvisionedThroughput>) -> BsonV {
    match t {
        Some(t) => throughput_bson(t),
        None => BsonV::Null,
    }
}

/// The whole number under a name, of either width.
pub open spec fn whole_number(d: DocV, k: Seq<char>) -> Option<i64> {
    match d.get(k) {
        Some(BsonV::Int64(n)) => Some(n),
        Some(BsonV::Int32(n)) => Some(n as i64),
        _ => None,
    }
}

/// The throughput that a stored form stands for.
pub open spec fn throughput_of(b: Option<BsonV>) -> Option<ProvisionedThroughput> {
    match b {
        Some(BsonV::Doc(d)) => match (
            whole_number(d, "ReadCapacityUnits"@),
            whole_number(d, "WriteCapacityUnits"@),
        ) {
            (Some(r), Some(w)) => Some(
                ProvisionedThroughput { read_capacity_units: r, write_capacity_units: w },
            ),
            _ => None,
        },
        _ => None,
    }
}

/// Reading stored throughput gives the throughput back.
pub proof fn law_throughput_round_trip(t: Option<ProvisionedThroughput>)
    ensures
        throughput_of(Some(opt_throughput_bson(t))) == t,
{
    broadcast use group_document_fields;

    reveal_strlit("ReadCapacityUnits");
    reveal_strlit("WriteCapacityUnits");
    assert("ReadCapacityUnits"@.len() == 17 && "WriteCapacityUnits"@.len() == 18);
}

/// The stored form of throughput that may not be set.
pub fn throughput_to_bson(t: &Option<ProvisionedThroughput>) -> (r: Bson)
    ensures
        r@ == opt_throughput_bson(*t),
{
    match t {
        Some(t) => Bson::Document(
            Document::new().with("ReadCapacityUnits", Bson::Int64(t.read_capacity_units)).with(
                "WriteCapacityUnits",
                Bson::Int64(t.write_capacity_units),
            ),
        ),
        None => Bson::Null,
    }
}

fn read_whole_number(d: &Document, k: &str) -> (r: Option<i64>)
    ensures
        r == whole_number(d@, k@),
{
    match d.get(k) {
        Some(Bson::Int64(n)) => Some(*n),
        Some(Bson::Int32(n)) => Some(*n as i64),
        _ => None,
    }
}

/// Reads the throughput under a name.
pub fn read_throughput(d: &Document, k: &str) -> (r: Option<ProvisionedThroughput>)
    ensures
        r == throughput_of(d@.get(k@)),
{
    match d.get(k) {
        Some(Bson::Document(t)) => match (
            read_whole_number(t, "ReadCapacityUnits"),
            read_whole_number(t, "WriteCapacityUnits"),
        ) {
            (Some(r), Some(w)) => Some(
                ProvisionedThroughput { read_capacity_units: r, write_capacity_units: w },
            ),
            _ => None,
        },
        _ => None,
    }
}

// --- Stream settings -------------------------------------------------------------------

/// The stored name of a stream view.
pub open spec fn view_type_text(v: StreamViewType) -> Seq<char> {
    match v {
        StreamViewType::KeysOnly => "KEYS_ONLY"@,
        StreamViewType::NewImage => "NEW_IMAGE"@,
        StreamViewType::OldImage => "OLD_IMAGE"@,
        StreamViewType::NewAndOldImages => "NEW_AND_OLD_IMAGES"@,
    }
}

/// The stream view that a stored name stands for.
pub open spec fn view_type_of(t: Seq<char>) -> Option<StreamViewType> {
    if t == "KEYS_ONLY"@ {
        Some(StreamViewType::KeysOnly)
    } else if t == "NEW_IMAGE"@ {
        Some(StreamViewType::NewImage)
    } else if t == "OLD_IMAGE"@ {
        Some(StreamViewType::OldImage)
    } else if t == "NEW_AND_OLD_IMAGES"@ {
        Some(StreamViewType::NewAndOldImages)
    } else {
        None
    }
}

/// The stored form of stream settings.
pub open spec fn stream_spec_bson(s: StreamSpecification) -> BsonV {
    let d = doc1("StreamEnabled"@, BsonV::Boolean(s.stream_enabled));
    BsonV::Doc(
        match s.stream_view_type {
            Some(v) => d.with("StreamViewType"@, BsonV::Str(view_type_text(v))),
            None => d,
        },
    )
}

/// The stored form of stream settings that may be absent.
pub open spec fn opt_stream_spec_bson(s: Option<StreamSpecification>) -> BsonV {
    match s {
        Some(s) => stream_spec_bson(s),
        None => BsonV::Null,
    }
}

/// The stream settings that a stored form stands for.
pub open spec fn stream_spec_of(b: Option<BsonV>) -> Option<StreamSpecification> {
    match b {
        Some(BsonV::Doc(d)) => match d.get_bool("StreamEnabled"@) {
            None => None,
            Some(stream_enabled) => match d.get("StreamViewType"@) {
                None => Some(StreamSpecification { stream_enabled, stream_view_type: None }),
                Some(BsonV::Null) => Some(
                    StreamSpecification { stream_enabled, stream_view_type: None },
                ),
                Some(BsonV::Str(t)) => match view_type_of(t) {
                    Some(v) => Some(
                        StreamSpecification { stream_enabled, stream_view_type: Some(v) },
                    ),
                    None => None,
                },
                Some(_) => None,
            },
        },
        _ => None,
    }
}

/// Reading stored stream settings gives the settings back.
pub proof fn law_stream_settings_round_trip(s: Option<StreamSpecification>)
    ensures
        stream_spec_of(Some(opt_stream_spec_bson(s))) == s,
{
    broadcast use group_document_fields;

    reveal_strlit("StreamEnabled");
    reveal_strlit("StreamViewType");
    reveal_strlit("KEYS_ONLY");
    reveal_strlit("NEW_IMAGE");
    reveal_strlit("OLD_IMAGE");
    reveal_strlit("NEW_AND_OLD_IMAGES");
    assert("StreamEnabled"@.len() == 13 && "StreamViewType"@.len() == 14);
    assert("KEYS_ONLY"@[0] == 'K' && "NEW_IMAGE"@[0] == 'N' && "OLD_IMAGE"@[0] == 'O');
    assert("NEW_IMAGE"@.len() == 9 && "NEW_AND_OLD_IMAGES"@.len() == 18);
    assert("KEYS_ONLY"@.len() == 9 && "OLD_IMAGE"@.len() == 9);
}

/// The stored name of a stream view.
pub fn view_type_name(v: StreamViewType) -> (r: &'static str)
    ensures
        r@ == view_type_text(v),
{
    match v {
        StreamViewType::KeysOnly => "KEYS_ONLY",
        StreamViewType::NewImage => "NEW_IMAGE",
        StreamViewType::OldImage => "OLD_IMAGE",
        StreamViewType::NewAndOldImages => "NEW_AND_OLD_IMAGES",
    }
}

/// Reads the name of a stream view.
pub fn read_view_type(t: &str) -> (r: Option<StreamViewType>)
    ensures
        r == view_type_of(t@),
{
    if text_eq(t, "KEYS_ONLY") {
        Some(StreamViewType::KeysOnly)
    } else if text_eq(t, "NEW_IMAGE") {
        Some(StreamViewType::NewImage)
    } else if text_eq(t, "OLD_IMAGE") {
        Some(StreamViewType::OldImage)
    } else if text_eq(t, "NEW_AND_OLD_IMAGES") {
        Some(StreamViewType::NewAndOldImages)
    } else {
        None
    }
}

/// The stored form of stream settings that may be absent.
pub fn stream_spec_to_bson(s: &Option<StreamSpecification>) -> (r: Bson)
    ensures
        r@ == opt_stream_spec_bson(*s),
{
    match s {
        None => Bson::Null,
        Some(s) => {
            let d = Document::new().with("StreamEnabled", Bson::Boolean(s.stream_enabled));
            match s.stream_view_type {
                Some(v) => Bson::Document(d.with("StreamViewType", Bson::text(view_type_name(v)))),
                None => Bson::Document(d),
            }
        },
    }
}

/// Reads the stream settings under a name.
pub fn read_stream_spec(d: &Document, k: &str) -> (r: Option<StreamSpecification>)
    ensures
        r == stream_spec_of(d@.get(k@)),
{
    let s = match d.get(k) {
        Some(Bson::Document(s)) => s,
        _ => {
            return None;
        },
    };
    let stream_enabled = match s.get_bool("StreamEnabled") {
        Some(b) => b,
        None => {
            return None;
        },
    };
    match s.get("StreamViewType") {
        None => Some(StreamSpecification { stream_enabled, stream_view_type: None }),
        Some(Bson::Null) => Some(StreamSpecification { stream_enabled, stream_view_type: None }),
        Some(Bson::String(t)) => match read_view_type(t.as_str()) {
            Some(v) => Some(StreamSpecification { stream_enabled, stream_view_type: Some(v) }),
            None => None,
        },
        Some(_) => None,
    }
}

} // verus!
