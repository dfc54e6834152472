//! Stream records and their stored form.

use vstd::prelude::*;
use vstd::string::*;

use crate::bson::{doc1, group_document_fields, Bson, BsonV, DocV, Document};
use crate::item::{opt_item, Item, ItemV};
use crate::item_json::{decode_item, encode_item, is_stored_item, item_json, stored_item};
use crate::schema_json::{
    read_view_type, view_type_name, view_type_of, view_type_text, StreamViewType,
};
use crate::text::text_eq;

verus! {

/// What happened to an item.
#[derive(Debug, Clone, Copy, PartialEq, Eq, Structural)]
pub enum StreamEventName {
    Insert,
    Modify,
    Remove,
}

/// On whose behalf an item was changed.
#[derive(Debug, PartialEq)]
pub struct UserIdentity {
    pub principal_id: String,
    pub identity_type: String,
}

/// A record of a change to an item.
#[derive(Debug, PartialEq)]
pub struct StreamRecord {
    pub event_id: String,
    pub event_name: StreamEventName,
    pub event_version: String,
    pub event_source: String,
    pub aws_region: String,
    /// The time in seconds.
    pub created: i64,
    pub keys: Item,
    pub new_image: Option<Item>,
    pub old_image: Option<Item>,
    pub sequence_number: String,
    pub size_bytes: i64,
    pub view_type: StreamViewType,
    pub user_identity: Option<UserIdentity>,
}

/// The model of a stream record.
#[verifier::ext_equal]
pub struct RecordV {
    pub event_id: Seq<char>,
    pub event_name: StreamEventName,
    pub event_version: Seq<char>,
    pub event_source: Seq<char>,
    pub aws_region: Seq<char>,
    pub created: i64,
    pub keys: ItemV,
    pub new_image: Option<ItemV>,
    pub old_image: Option<ItemV>,
    pub sequence_number: Seq<char>,
    pub size_bytes: i64,
    pub view_type: StreamViewType,
    pub user_identity: Option<(Seq<char>, Seq<char>)>,
}

/// The model of an identity.
pub open spec fn identity_view(u: Option<UserIdentity>) -> Option<(Seq<char>, Seq<char>)> {
    match u {
        Some(u) => Some((u.principal_id@, u.identity_type@)),
        None => None,
    }
}

impl View for StreamRecord {
    type V = RecordV;

    open spec fn view(&self) -> RecordV {
        RecordV {
            event_id: self.event_id@,
            event_name: self.event_name,
            event_version: self.event_version@,
            event_source: self.event_source@,
            aws_region: self.aws_region@,
            created: self.created,
            keys: self.keys@,
            new_image: opt_item(self.new_image),
            old_image: opt_item(self.old_image),
            sequence_number: self.sequence_number@,
            size_bytes: self.size_bytes,
            view_type: self.view_type,
            user_identity: identity_view(self.user_identity),
        }
    }
}

/// The stored name of an event.
pub open spec fn event_text(e: StreamEventName) -> Seq<char> {
    match e {
        StreamEventName::Insert => "INSERT"@,
        StreamEventName::Modify => "MODIFY"@,
        StreamEventName::Remove => "REMOVE"@,
    }
}

/// The event that a stored name stands for.
pub open spec fn event_of(t: Seq<char>) -> Option<StreamEventName> {
    if t == "INSERT"@ {
        Some(StreamEventName::Insert)
    } else if t == "MODIFY"@ {
        Some(StreamEventName::Modify)
    } else if t == "REMOVE"@ {
        Some(StreamEventName::Remove)
    } else {
        None
    }
}

/// The name of an event in the collection of records.
pub open spec fn event_label(e: StreamEventName) -> Seq<char> {
    match e {
        StreamEventName::Insert => "Insert"@,
        StreamEventName::Modify => "Modify"@,
        StreamEventName::Remove => "Remove"@,
    }
}

/// A field that is left out where there is no image.
pub open spec fn with_image(d: DocV, k: Seq<char>, i: Option<ItemV>) -> DocV {
    match i {
        Some(i) => d.with(k, BsonV::Doc(item_json(i))),
        None => d,
    }
}

/// The stored form of the change in a record.
pub open spec fn change_doc(r: RecordV) -> DocV {
    with_image(
        with_image(
            doc1("ApproximateCreationDateTime"@, BsonV::Int64(r.created)).with(
                "Keys"@,
                BsonV::Doc(item_json(r.keys)),
            ).with("SequenceNumber"@, BsonV::Str(r.sequence_number)).with(
                "SizeBytes"@,
                BsonV::Int64(r.size_bytes),
            ).with("StreamViewType"@, BsonV::Str(view_type_text(r.view_type))),
            "NewImage"@,
            r.new_image,
        ),
        "OldImage"@,
        r.old_image,
    )
}

/// The stored form of an identity.
pub open spec fn identity_doc(u: (Seq<char>, Seq<char>)) -> DocV {
    doc1("PrincipalId"@, BsonV::Str(u.0)).with("Type"@, BsonV::Str(u.1))
}

/// The stored form of a record.
pub open spec fn record_doc(r: RecordV) -> DocV {
    let d = doc1("eventID"@, BsonV::Str(r.event_id)).with(
        "eventName"@,
        BsonV::Str(event_text(r.event_name)),
    ).with("eventVersion"@, BsonV::Str(r.event_version)).with(
        "eventSource"@,
        BsonV::Str(r.event_source),
    ).with("awsRegion"@, BsonV::Str(r.aws_region)).with("dynamodb"@, BsonV::Doc(change_doc(r)));
    match r.user_identity {
        Some(u) => d.with("userIdentity"@, BsonV::Doc(identity_doc(u))),
        None => d,
    }
}

/// The image under a name: absent, an item, or something that is no item.
pub open spec fn image_of(d: DocV, k: Seq<char>) -> Option<Option<ItemV>> {
    match d.get(k) {
        None => Some(None),
        Some(BsonV::Null) => Some(None),
        Some(BsonV::Doc(m)) => if is_stored_item(m) {
            Some(Some(stored_item(m)))
        } else {
            None
        },
        Some(_) => None,
    }
}

/// The identity that a record names, where what stands there is one.
pub open spec fn identity_of(d: DocV) -> Option<Option<(Seq<char>, Seq<char>)>> {
    match d.get("userIdentity"@) {
        None => Some(None),
        Some(BsonV::Null) => Some(None),
        Some(BsonV::Doc(u)) => match (u.get_str("PrincipalId"@), u.get_str("Type"@)) {
            (Some(p), Some(t)) => Some(Some((p, t))),
            _ => None,
        },
        Some(_) => None,
    }
}

/// The record that a stored form stands for.
pub open spec fn record_of(b: BsonV) -> Option<RecordV> {
    match b {
        BsonV::Doc(d) => match (
            d.get_str("eventID"@),
            d.get_str("eventName"@),
            d.get_str("eventVersion"@),
            d.get_str("eventSource"@),
            d.get_str("awsRegion"@),
            d.get_document("dynamodb"@),
        ) {
            (Some(id), Some(name), Some(version), Some(source), Some(region), Some(c)) => match (
                event_of(name),
                identity_of(d),
                change_of(c),
            ) {
                (Some(event_name), Some(user_identity), Some(ch)) => Some(
                    RecordV {
                        event_id: id,
                        event_name,
                        event_version: version,
                        event_source: source,
                        aws_region: region,
                        user_identity,
                        ..ch
                    },
                ),
                _ => None,
            },
            _ => None,
        },
        _ => None,
    }
}

/// The change that a stored form stands for; the fields beside the change are
/// left empty.
pub open spec fn change_of(c: DocV) -> Option<RecordV> {
    match (
        c.get_i64("ApproximateCreationDateTime"@),
        c.get_document("Keys"@),
        c.get_str("SequenceNumber"@),
        c.get_i64("SizeBytes"@),
        c.get_str("StreamViewType"@),
    ) {
        (Some(created), Some(k), Some(sequence_number), Some(size_bytes), Some(v)) => match (
            view_type_of(v),
            image_of(c, "NewImage"@),
            image_of(c, "OldImage"@),
        ) {
            (Some(view_type), Some(new_image), Some(old_image)) => if is_stored_item(k) {
                Some(
                    RecordV {
                        event_id: Seq::empty(),
                        event_name: StreamEventName::Insert,
                        event_version: Seq::empty(),
                        event_source: Seq::empty(),
                        aws_region: Seq::empty(),
                        created,
                        keys: stored_item(k),
                        new_image,
                        old_image,
                        sequence_number,
                        size_bytes,
                        view_type,
                        user_identity: None,
                    },
                )
            } else {
                None
            },
            _ => None,
        },
        _ => None,
    }
}

/// The items of a record read back from their stored forms.
pub open spec fn images_read_back(r: RecordV) -> bool {
    &&& is_stored_item(item_json(r.keys))
    &&& stored_item(item_json(r.keys)) == r.keys
    &&& r.new_image matches Some(i) ==> is_stored_item(item_json(i)) && stored_item(item_json(i))
        == i
    &&& r.old_image matches Some(i) ==> is_stored_item(item_json(i)) && stored_item(item_json(i))
        == i
}

proof fn lemma_change_round_trip(r: RecordV)
    requires
        images_read_back(r),
    ensures
        change_of(change_doc(r)) matches Some(c) && c.created == r.created && c.keys == r.keys
            && c.new_image == r.new_image && c.old_image == r.old_image && c.sequence_number
            == r.sequence_number && c.size_bytes == r.size_bytes && c.view_type == r.view_type,
{
    broadcast use group_document_fields;

    reveal_strlit("ApproximateCreationDateTime");
    reveal_strlit("Keys");
    reveal_strlit("NewImage");
    reveal_strlit("OldImage");
    reveal_strlit("SequenceNumber");
    reveal_strlit("SizeBytes");
    reveal_strlit("StreamViewType");
    assert("ApproximateCreationDateTime"@.len() == 27 && "Keys"@.len() == 4);
    assert("NewImage"@.len() == 8 && "OldImage"@.len() == 8);
    assert("SequenceNumber"@.len() == 14 && "StreamViewType"@.len() == 14);
    assert("SizeBytes"@.len() == 9);
    assert("NewImage"@[0] == 'N' && "OldImage"@[0] == 'O');
    assert("SequenceNumber"@[1] == 'e' && "StreamViewType"@[1] == 't');
    lemma_view_type(r.view_type);
}

proof fn lemma_view_type(v: StreamViewType)
    ensures
        view_type_of(view_type_text(v)) == Some(v),
{
    reveal_strlit("KEYS_ONLY");
    reveal_strlit("NEW_IMAGE");
    reveal_strlit("OLD_IMAGE");
    reveal_strlit("NEW_AND_OLD_IMAGES");
    assert("KEYS_ONLY"@[0] == 'K' && "NEW_IMAGE"@[0] == 'N' && "OLD_IMAGE"@[0] == 'O');
    assert("NEW_IMAGE"@.len() == 9 && "NEW_AND_OLD_IMAGES"@.len() == 18);
    assert("KEYS_ONLY"@.len() == 9 && "OLD_IMAGE"@.len() == 9);
}

/// Reading a stored record gives the record back, where its items read back.
pub proof fn law_record_round_trip(r: RecordV)
    requires
        images_read_back(r),
    ensures
        record_of(BsonV::Doc(record_doc(r))) == Some(r),
{
    broadcast use group_document_fields;

    lemma_change_round_trip(r);
    reveal_strlit("eventID");
    reveal_strlit("eventName");
    reveal_strlit("eventVersion");
    reveal_strlit("eventSource");
    reveal_strlit("awsRegion");
    reveal_strlit("dynamodb");
    reveal_strlit("userIdentity");
    reveal_strlit("PrincipalId");
    reveal_strlit("Type");
    reveal_strlit("INSERT");
    reveal_strlit("MODIFY");
    reveal_strlit("REMOVE");
    assert("eventID"@.len() == 7 && "eventName"@.len() == 9 && "eventVersion"@.len() == 12);
    assert("eventSource"@.len() == 11 && "awsRegion"@.len() == 9 && "dynamodb"@.len() == 8);
    assert("userIdentity"@.len() == 12);
    assert("eventName"@[0] == 'e' && "awsRegion"@[0] == 'a');
    assert("eventVersion"@[0] == 'e' && "userIdentity"@[0] == 'u');
    assert("PrincipalId"@.len() == 11 && "Type"@.len() == 4);
    assert("INSERT"@[0] == 'I' && "MODIFY"@[0] == 'M' && "REMOVE"@[0] == 'R');
}

fn put_image(d: Document, k: &str, i: &Option<Item>) -> (r: Document)
    ensures
        r@ == with_image(d@, k@, opt_item(*i)),
        *i matches Some(x) ==> is_stored_item(item_json(x@)) && stored_item(item_json(x@)) == x@,
{
    match i {
        Some(i) => d.with(k, Bson::Document(encode_item(i))),
        None => d,
    }
}

/// The stored form of a record. Reading it gives the record back.
pub fn record_to_bson(r: &StreamRecord) -> (b: Bson)
    ensures
        b@ == BsonV::Doc(record_doc(r@)),
        record_of(b@) == Some(r@),
{
    let change = Document::new().with(
        "ApproximateCreationDateTime",
        Bson::Int64(r.created),
    ).with("Keys", Bson::Document(encode_item(&r.keys))).with(
        "SequenceNumber",
        Bson::text(r.sequence_number.as_str()),
    ).with("SizeBytes", Bson::Int64(r.size_bytes)).with(
        "StreamViewType",
        Bson::text(view_type_name(r.view_type)),
    );
    let change = put_image(change, "NewImage", &r.new_image);
    let change = put_image(change, "OldImage", &r.old_image);
    let name = match r.event_name {
        StreamEventName::Insert => "INSERT",
        StreamEventName::Modify => "MODIFY",
        StreamEventName::Remove => "REMOVE",
    };
    let d = Document::new().with("eventID", Bson::text(r.event_id.as_str())).with(
        "eventName",
        Bson::text(name),
    ).with("eventVersion", Bson::text(r.event_version.as_str())).with(
        "eventSource",
        Bson::text(r.event_source.as_str()),
    ).with("awsRegion", Bson::text(r.aws_region.as_str())).with(
        "dynamodb",
        Bson::Document(change),
    );
    let d = match &r.user_identity {
        Some(u) => {
            let i = Document::new().with(
                "PrincipalId",
                Bson::text(u.principal_id.as_str()),
            ).with("Type", Bson::text(u.identity_type.as_str()));
            d.with("userIdentity", Bson::Document(i))
        },
        None => d,
    };
    proof {
        law_record_round_trip(r@);
    }
    Bson::Document(d)
}

fn read_image(d: &Document, k: &str) -> (r: Option<Option<Item>>)
    ensures
        match r {
            Some(i) => image_of(d@, k@) == Some(opt_item(i)),
            None => image_of(d@, k@) is None,
        },
{
    match d.get(k) {
        None => Some(None),
        Some(Bson::Null) => Some(None),
        Some(Bson::Document(m)) => match decode_item(m) {
            Some(i) => Some(Some(i)),
            None => None,
        },
        Some(_) => None,
    }
}

fn read_identity(d: &Document) -> (r: Option<Option<UserIdentity>>)
    ensures
        match r {
            Some(i) => identity_of(d@) == Some(identity_view(i)),
            None => identity_of(d@) is None,
        },
{
    match d.get("userIdentity") {
        None => Some(None),
        Some(Bson::Null) => Some(None),
        Some(Bson::Document(u)) => match (u.get_str("PrincipalId"), u.get_str("Type")) {
            (Some(p), Some(t)) => Some(
                Some(UserIdentity { principal_id: p.to_owned(), identity_type: t.to_owned() }),
            ),
            _ => None,
        },
        Some(_) => None,
    }
}

fn read_event(t: &str) -> (r: Option<StreamEventName>)
    ensures
        r == event_of(t@),
{
    if text_eq(t, "INSERT") {
        Some(StreamEventName::Insert)
    } else if text_eq(t, "MODIFY") {
        Some(StreamEventName::Modify)
    } else if text_eq(t, "REMOVE") {
        Some(StreamEventName::Remove)
    } else {
        None
    }
}

fn read_change(c: &Document) -> (r: Option<StreamRecord>)
    ensures
        match r {
            Some(x) => change_of(c@) == Some(x@),
            None => change_of(c@) is None,
        },
{
    match (
        c.get_i64("ApproximateCreationDateTime"),
        c.get_document("Keys"),
        c.get_str("SequenceNumber"),
        c.get_i64("SizeBytes"),
        c.get_str("StreamViewType"),
    ) {
        (Some(created), Some(k), Some(seq), Some(size_bytes), Some(v)) => {
            let view_type = match read_view_type(v) {
                Some(t) => t,
                None => {
                    return None;
                },
            };
            let new_image = match read_image(c, "NewImage") {
                Some(i) => i,
                None => {
                    return None;
                },
            };
            let old_image = match read_image(c, "OldImage") {
                Some(i) => i,
                None => {
                    return None;
                },
            };
            let keys = match decode_item(k) {
                Some(i) => i,
                None => {
                    return None;
                },
            };
            let r = StreamRecord {
                event_id: String::new(),
                event_name: StreamEventName::Insert,
                event_version: String::new(),
                event_source: String::new(),
                aws_region: String::new(),
                created,
                keys,
                new_image,
                old_image,
                sequence_number: seq.to_owned(),
                size_bytes,
                view_type,
                user_identity: None,
            };
            Some(r)
        },
        _ => None,
    }
}

/// Reads a stored record.
pub fn read_record(b: &Bson) -> (r: Option<StreamRecord>)
    ensures
        match r {
            Some(x) => record_of(b@) == Some(x@),
            None => record_of(b@) is None,
        },
{
    let d = match b {
        Bson::Document(d) => d,
        _ => {
            return None;
        },
    };
    match (
        d.get_str("eventID"),
        d.get_str("eventName"),
        d.get_str("eventVersion"),
        d.get_str("eventSource"),
        d.get_str("awsRegion"),
        d.get_document("dynamodb"),
    ) {
        (Some(id), Some(name), Some(version), Some(source), Some(region), Some(c)) => {
            let event_name = match read_event(name) {
                Some(e) => e,
                None => {
                    return None;
                },
            };
            let user_identity = match read_identity(d) {
                Some(u) => u,
                None => {
                    return None;
                },
            };
            match read_change(c) {
                None => None,
                Some(ch) => Some(
                    StreamRecord {
                        event_id: id.to_owned(),
                        event_name,
                        event_version: version.to_owned(),
                        event_source: source.to_owned(),
                        aws_region: region.to_owned(),
                        created: ch.created,
                        keys: ch.keys,
                        new_image: ch.new_image,
                        old_image: ch.old_image,
                        sequence_number: ch.sequence_number,
                        size_bytes: ch.size_bytes,
                        view_type: ch.view_type,
                        user_identity,
                    },
                ),
            }
        },
        _ => None,
    }
}

/// The name of an event in the collection of records.
pub fn event_label_text(e: StreamEventName) -> (r: &'static str)
    ensures
        r@ == event_label(e),
{
    match e {
        StreamEventName::Insert => "Insert",
        StreamEventName::Modify => "Modify",
        StreamEventName::Remove => "Remove",
    }
}

} // verus!
