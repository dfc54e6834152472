//! The stored form of an item: each value as a document with one field, named
//! by the type tag.

use vstd::prelude::*;
use vstd::string::*;

use crate::bson::{bson_seq, Bson, BsonV, DocV, Document};
use crate::condition::av_suffix;
use crate::encoding::{base64_bytes, base64_decode, base64_encode, base64_text};
use crate::item::{
    av_seq, bytes_seq, lemma_av_view, lemma_with_last, AttributeValue, AvV, Item, ItemV,
};
use crate::bson::text_seq;
use crate::text::text_eq;

verus! {

/// A list of texts as values.
pub open spec fn text_values(s: Seq<Seq<char>>) -> Seq<BsonV> {
    Seq::new(s.len(), |i: int| BsonV::Str(s[i]))
}

/// The stored form of a value.
pub open spec fn av_json(v: AvV) -> BsonV
    decreases v,
{
    match v {
        AvV::S(s) => tagged("S"@, BsonV::Str(s)),
        AvV::N(n) => tagged("N"@, BsonV::Str(n)),
        AvV::B(b) => tagged("B"@, BsonV::Str(base64_text(b))),
        AvV::Bool(b) => tagged("BOOL"@, BsonV::Boolean(b)),
        AvV::Null => tagged("NULL"@, BsonV::Boolean(true)),
        AvV::L(l) => tagged(
            "L"@,
            BsonV::Array(
                Seq::new(
                    l.len(),
                    |i: int|
                        if 0 <= i < l.len() {
                            av_json(l[i])
                        } else {
                            BsonV::Null
                        },
                ),
            ),
        ),
        AvV::M(m) => tagged("M"@, BsonV::Doc(item_json(m))),
        AvV::SS(s) => tagged("SS"@, BsonV::Array(text_values(s))),
        AvV::NS(s) => tagged("NS"@, BsonV::Array(text_values(s))),
        AvV::BS(s) => tagged(
            "BS"@,
            BsonV::Array(Seq::new(s.len(), |i: int| BsonV::Str(base64_text(s[i])))),
        ),
    }
}

/// The stored form of an item: its attributes in order.
pub open spec fn item_json(m: ItemV) -> DocV
    decreases m,
{
    DocV {
        entries: Seq::new(
            m.entries.len(),
            |i: int|
                if 0 <= i < m.entries.len() {
                    (m.entries[i].0, av_json(m.entries[i].1))
                } else {
                    (Seq::empty(), BsonV::Null)
                },
        ),
    }
}

/// A value under its type tag.
pub open spec fn tagged(tag: Seq<char>, v: BsonV) -> BsonV {
    BsonV::Doc(DocV { entries: seq![(tag, v)] })
}

/// The type tags.
#[derive(Clone, Copy, PartialEq, Eq, Structural)]
pub enum Tag {
    S,
    N,
    B,
    Bool,
    Null,
    L,
    M,
    SS,
    NS,
    BS,
}

/// The tag that a name stands for.
pub open spec fn tag_of(k: Seq<char>) -> Option<Tag> {
    if k == "S"@ {
        Some(Tag::S)
    } else if k == "N"@ {
        Some(Tag::N)
    } else if k == "B"@ {
        Some(Tag::B)
    } else if k == "BOOL"@ {
        Some(Tag::Bool)
    } else if k == "NULL"@ {
        Some(Tag::Null)
    } else if k == "L"@ {
        Some(Tag::L)
    } else if k == "M"@ {
        Some(Tag::M)
    } else if k == "SS"@ {
        Some(Tag::SS)
    } else if k == "NS"@ {
        Some(Tag::NS)
    } else if k == "BS"@ {
        Some(Tag::BS)
    } else {
        None
    }
}

/// The tag of a value.
pub open spec fn kind_of(v: AvV) -> Tag {
    match v {
        AvV::S(_) => Tag::S,
        AvV::N(_) => Tag::N,
        AvV::B(_) => Tag::B,
        AvV::Bool(_) => Tag::Bool,
        AvV::Null => Tag::Null,
        AvV::L(_) => Tag::L,
        AvV::M(_) => Tag::M,
        AvV::SS(_) => Tag::SS,
        AvV::NS(_) => Tag::NS,
        AvV::BS(_) => Tag::BS,
    }
}

/// The type tag of a value reads back as that of its kind.
pub proof fn lemma_tag(v: AvV)
    ensures
        tag_of(av_suffix(v)) == Some(kind_of(v)),
{
    reveal_strlit("S");
    reveal_strlit("N");
    reveal_strlit("B");
    reveal_strlit("BOOL");
    reveal_strlit("NULL");
    reveal_strlit("L");
    reveal_strlit("M");
    reveal_strlit("SS");
    reveal_strlit("NS");
    reveal_strlit("BS");
    assert("S"@.len() == 1 && "N"@.len() == 1 && "B"@.len() == 1 && "L"@.len() == 1
        && "M"@.len() == 1);
    assert("SS"@.len() == 2 && "NS"@.len() == 2 && "BS"@.len() == 2);
    assert("BOOL"@.len() == 4 && "NULL"@.len() == 4);
    assert("S"@[0] == 'S' && "N"@[0] == 'N' && "B"@[0] == 'B' && "L"@[0] == 'L' && "M"@[0]
        == 'M');
    assert("SS"@[0] == 'S' && "NS"@[0] == 'N' && "BS"@[0] == 'B');
    assert("BOOL"@[0] == 'B' && "NULL"@[0] == 'N');
}

/// Every value of a list is a text.
pub open spec fn all_texts(a: Seq<BsonV>) -> bool {
    forall|i: int| 0 <= i < a.len() ==> (#[trigger] a[i]) is Str
}

/// Every value of a list is a base64 text.
pub open spec fn all_base64(a: Seq<BsonV>) -> bool {
    forall|i: int|
        0 <= i < a.len() ==> (#[trigger] a[i]) is Str && base64_bytes(a[i]->Str_0) is Some
}

/// A stored value has the form that values are stored in.
pub open spec fn is_stored(b: BsonV) -> bool
    decreases b,
{
    match b {
        BsonV::Doc(d) => d.entries.len() == 1 && match (tag_of(d.entries[0].0), d.entries[0].1) {
            (Some(Tag::S), BsonV::Str(_)) => true,
            (Some(Tag::N), BsonV::Str(_)) => true,
            (Some(Tag::B), BsonV::Str(t)) => base64_bytes(t) is Some,
            (Some(Tag::Bool), BsonV::Boolean(_)) => true,
            (Some(Tag::Null), BsonV::Boolean(t)) => t,
            (Some(Tag::L), BsonV::Array(a)) => forall|i: int|
                0 <= i < a.len() ==> is_stored(#[trigger] a[i]),
            (Some(Tag::M), BsonV::Doc(m)) => is_stored_item(m),
            (Some(Tag::SS), BsonV::Array(a)) => all_texts(a),
            (Some(Tag::NS), BsonV::Array(a)) => all_texts(a),
            (Some(Tag::BS), BsonV::Array(a)) => all_base64(a),
            _ => false,
        },
        _ => false,
    }
}

/// A stored item has the form that items are stored in.
pub open spec fn is_stored_item(d: DocV) -> bool
    decreases d,
{
    forall|i: int| 0 <= i < d.entries.len() ==> is_stored((#[trigger] d.entries[i]).1)
}

/// The value that a stored value stands for.
pub open spec fn stored_value(b: BsonV) -> AvV
    decreases b, 0nat,
{
    match b {
        BsonV::Doc(d) => match (tag_of(d.entries[0].0), d.entries[0].1) {
            (Some(Tag::S), BsonV::Str(s)) => AvV::S(s),
            (Some(Tag::N), BsonV::Str(s)) => AvV::N(s),
            (Some(Tag::B), BsonV::Str(t)) => AvV::B(base64_bytes(t)->0),
            (Some(Tag::Bool), BsonV::Boolean(t)) => AvV::Bool(t),
            (Some(Tag::L), BsonV::Array(a)) => if d.entries.len() == 1 {
                AvV::L(
                    Seq::new(
                        a.len(),
                        |i: int|
                            if 0 <= i < a.len() {
                                stored_value(a[i])
                            } else {
                                AvV::Null
                            },
                    ),
                )
            } else {
                AvV::Null
            },
            (Some(Tag::M), BsonV::Doc(m)) => if d.entries.len() == 1 {
                AvV::M(stored_item_to(m, m.entries.len()))
            } else {
                AvV::Null
            },
            (Some(Tag::SS), BsonV::Array(a)) => AvV::SS(Seq::new(a.len(), |i: int| a[i]->Str_0)),
            (Some(Tag::NS), BsonV::Array(a)) => AvV::NS(Seq::new(a.len(), |i: int| a[i]->Str_0)),
            (Some(Tag::BS), BsonV::Array(a)) => AvV::BS(
                Seq::new(a.len(), |i: int| base64_bytes(a[i]->Str_0)->0),
            ),
            _ => AvV::Null,
        },
        _ => AvV::Null,
    }
}

/// The item that the first `n` fields of a stored item stand for.
pub open spec fn stored_item_to(d: DocV, n: nat) -> ItemV
    decreases d, n,
{
    if n == 0 || n > d.entries.len() {
        ItemV::empty()
    } else {
        stored_item_to(d, (n - 1) as nat).with(
            d.entries[n - 1].0,
            stored_value(d.entries[n - 1].1),
        )
    }
}

/// The item that a stored item stands for.
pub open spec fn stored_item(d: DocV) -> ItemV {
    stored_item_to(d, d.entries.len())
}

/// Reading the stored form of an ordered item whose values read back gives the
/// item.
proof fn lemma_item_reads_back(m: ItemV, n: nat)
    requires
        m.wf(),
        n <= m.entries.len(),
        forall|i: int|
            0 <= i < m.entries.len() ==> stored_value(av_json((#[trigger] m.entries[i]).1))
                == m.entries[i].1,
    ensures
        stored_item_to(item_json(m), n) == (ItemV { entries: m.entries.take(n as int) }),
    decreases n,
{
    let d = item_json(m);
    if n == 0 {
        assert(m.entries.take(0) =~= Seq::empty());
    } else {
        let k = (n - 1) as nat;
        lemma_item_reads_back(m, k);
        let p = ItemV { entries: m.entries.take(k as int) };
        assert(d.entries[k as int] == (m.entries[k as int].0, av_json(m.entries[k as int].1)));
        assert(stored_value(av_json(m.entries[k as int].1)) == m.entries[k as int].1);
        assert forall|i: int| 0 <= i < p.entries.len() implies crate::order::text_lt(
            (#[trigger] p.entries[i]).0,
            m.entries[k as int].0,
        ) by {
            assert(p.entries[i] == m.entries[i]);
        }
        lemma_with_last(p, m.entries[k as int].0, m.entries[k as int].1);
        assert(m.entries.take(n as int) =~= p.entries.push(m.entries[k as int]));
    }
}

// --- Encoding ------------------------------------------------------------------

fn tagged_bson(tag: &str, v: Bson) -> (r: Bson)
    ensures
        r@ == tagged(tag@, v@),
{
    let mut entries: Vec<(String, Bson)> = Vec::new();
    entries.push((tag.to_owned(), v));
    let d = Document { entries };
    assert(d@.entries =~= seq![(tag@, v@)]);
    Bson::Document(d)
}

/// A list of texts as a value.
pub fn texts_to_bson(s: &Vec<String>) -> (r: Bson)
    ensures
        r@ == BsonV::Array(text_values(text_seq(s@))),
{
    let mut out: Vec<Bson> = Vec::new();
    let mut i: usize = 0;
    while i < s.len()
        invariant
            i <= s.len(),
            out@.len() == i,
            forall|j: int| 0 <= j < i ==> (#[trigger] out@[j])@ == BsonV::Str(s@[j]@),
        decreases s.len() - i,
    {
        out.push(Bson::String(s[i].clone()));
        i += 1;
    }
    assert(bson_seq(out@) =~= text_values(text_seq(s@)));
    Bson::array(out)
}

/// Encodes a value. Decoding the result gives the value back.
pub fn encode_value(v: &AttributeValue) -> (r: Bson)
    ensures
        r@ == av_json(v@),
        is_stored(r@),
        stored_value(r@) == v@,
    decreases v@,
{
    broadcast use lemma_av_view;

    proof {
        lemma_tag(v@);
    }
    match v {
        AttributeValue::S(s) => tagged_bson("S", Bson::String(s.clone())),
        AttributeValue::N(n) => tagged_bson("N", Bson::String(n.clone())),
        AttributeValue::B(b) => {
            let t = base64_encode(b);
            tagged_bson("B", Bson::String(t))
        },
        AttributeValue::Bool(b) => tagged_bson("BOOL", Bson::Boolean(*b)),
        AttributeValue::Null => tagged_bson("NULL", Bson::Boolean(true)),
        AttributeValue::L(l) => {
            let mut out: Vec<Bson> = Vec::new();
            let mut i: usize = 0;
            while i < l.len()
                invariant
                    i <= l.len(),
                    out@.len() == i,
                    v@ == AvV::L(av_seq(l@)),
                    forall|j: int|
                        #![trigger out@[j]]
                        0 <= j < i ==> out@[j]@ == av_json(l@[j]@) && is_stored(out@[j]@)
                            && stored_value(out@[j]@) == l@[j]@,
                decreases l.len() - i,
            {
                assert(av_seq(l@)[i as int] == l@[i as int]@);
                assert(decreases_to!(v@ => v@->L_0[i as int]));
                let b = encode_value(&l[i]);
                out.push(b);
                i += 1;
            }
            let ghost a = bson_seq(out@);
            let r = tagged_bson("L", Bson::array(out));
            proof {
                assert(av_json(v@)->Doc_0.entries[0].1->Array_0 =~= a);
                assert forall|j: int| 0 <= j < a.len() implies is_stored(#[trigger] a[j]) by {
                    assert(is_stored(out@[j]@));
                }
                assert(stored_value(r@)->L_0 =~= av_seq(l@)) by {
                    assert forall|j: int| 0 <= j < a.len() implies stored_value(#[trigger] a[j])
                        == l@[j]@ by {
                        assert(stored_value(out@[j]@) == l@[j]@);
                    }
                }
            }
            r
        },
        AttributeValue::M(m) => tagged_bson("M", Bson::Document(encode_item(m))),
        AttributeValue::SS(s) => {
            let b = texts_to_bson(s);
            let r = tagged_bson("SS", b);
            assert(stored_value(r@)->SS_0 =~= text_seq(s@));
            r
        },
        AttributeValue::NS(s) => {
            let b = texts_to_bson(s);
            let r = tagged_bson("NS", b);
            assert(stored_value(r@)->NS_0 =~= text_seq(s@));
            r
        },
        AttributeValue::BS(s) => {
            let mut out: Vec<Bson> = Vec::new();
            let mut i: usize = 0;
            while i < s.len()
                invariant
                    i <= s.len(),
                    out@.len() == i,
                    forall|j: int|
                        #![trigger out@[j]]
                        0 <= j < i ==> out@[j]@ == BsonV::Str(base64_text(s@[j]@))
                            && base64_bytes(base64_text(s@[j]@)) == Some(s@[j]@),
                decreases s.len() - i,
            {
                let t = base64_encode(&s[i]);
                out.push(Bson::String(t));
                i += 1;
            }
            let ghost a = bson_seq(out@);
            let r = tagged_bson("BS", Bson::array(out));
            proof {
                assert(av_json(v@)->Doc_0.entries[0].1->Array_0 =~= a);
                assert forall|j: int| 0 <= j < a.len() implies (#[trigger] a[j]) is Str
                    && base64_bytes(a[j]->Str_0) == Some(s@[j]@) by {
                    assert(out@[j]@ == BsonV::Str(base64_text(s@[j]@)));
                }
                assert(stored_value(r@)->BS_0 =~= bytes_seq(s@));
            }
            r
        },
    }
}

/// Encodes an item. Decoding the result gives the item back.
pub fn encode_item(m: &Item) -> (r: Document)
    ensures
        r@ == item_json(m@),
        is_stored_item(r@),
        stored_item(r@) == m@,
    decreases m@,
{
    let n = m.len();
    let mut entries: Vec<(String, Bson)> = Vec::new();
    let mut i: usize = 0;
    while i < n
        invariant
            i <= n,
            n == m@.entries.len(),
            entries@.len() == i,
            forall|j: int|
                #![trigger entries@[j]]
                0 <= j < i ==> entries@[j].0@ == m@.entries[j].0 && entries@[j].1@ == av_json(
                    m@.entries[j].1,
                ) && is_stored(entries@[j].1@) && stored_value(entries@[j].1@) == m@.entries[j].1,
        decreases n - i,
    {
        let b = encode_value(m.value_at(i));
        entries.push((m.key_at(i).to_owned(), b));
        i += 1;
    }
    let r = Document { entries };
    proof {
        assert(r@.entries =~= item_json(m@).entries);
        assert forall|j: int| 0 <= j < r@.entries.len() implies is_stored(
            (#[trigger] r@.entries[j]).1,
        ) by {
            assert(is_stored(entries@[j].1@));
        }
        assert forall|j: int| 0 <= j < m@.entries.len() implies stored_value(
            av_json((#[trigger] m@.entries[j]).1),
        ) == m@.entries[j].1 by {
            assert(entries@[j].1@ == av_json(m@.entries[j].1));
        }
        lemma_item_reads_back(m@, m@.entries.len());
        assert(m@.entries.take(m@.entries.len() as int) =~= m@.entries);
    }
    r
}

// --- Decoding ------------------------------------------------------------------

fn read_tag(k: &str) -> (r: Option<Tag>)
    ensures
        r == tag_of(k@),
{
    if text_eq(k, "S") {
        Some(Tag::S)
    } else if text_eq(k, "N") {
        Some(Tag::N)
    } else if text_eq(k, "B") {
        Some(Tag::B)
    } else if text_eq(k, "BOOL") {
        Some(Tag::Bool)
    } else if text_eq(k, "NULL") {
        Some(Tag::Null)
    } else if text_eq(k, "L") {
        Some(Tag::L)
    } else if text_eq(k, "M") {
        Some(Tag::M)
    } else if text_eq(k, "SS") {
        Some(Tag::SS)
    } else if text_eq(k, "NS") {
        Some(Tag::NS)
    } else if text_eq(k, "BS") {
        Some(Tag::BS)
    } else {
        None
    }
}

/// Reads a list of texts; `None` where something else stands in it.
pub fn read_texts(v: &Vec<Bson>) -> (r: Option<Vec<String>>)
    ensures
        match r {
            Some(s) => all_texts(bson_seq(v@)) && text_seq(s@) == Seq::new(
                v@.len(),
                |i: int| bson_seq(v@)[i]->Str_0,
            ),
            None => !all_texts(bson_seq(v@)),
        },
{
    let mut out: Vec<String> = Vec::new();
    let mut i: usize = 0;
    let ghost a = bson_seq(v@);
    while i < v.len()
        invariant
            i <= v.len(),
            a == bson_seq(v@),
            out@.len() == i,
            forall|j: int|
                #![trigger a[j]]
                0 <= j < i ==> a[j] is Str && out@[j]@ == a[j]->Str_0,
        decreases v.len() - i,
    {
        match &v[i] {
            Bson::String(s) => {
                out.push(s.clone());
            },
            _ => {
                assert(!(a[i as int] is Str));
                return None;
            },
        }
        i += 1;
    }
    assert(text_seq(out@) =~= Seq::new(v@.len(), |i: int| bson_seq(v@)[i]->Str_0));
    Some(out)
}

fn read_base64_list(v: &Vec<Bson>) -> (r: Option<Vec<Vec<u8>>>)
    ensures
        match r {
            Some(s) => all_base64(bson_seq(v@)) && bytes_seq(s@) == Seq::new(
                v@.len(),
                |i: int| base64_bytes(bson_seq(v@)[i]->Str_0)->0,
            ),
            None => !all_base64(bson_seq(v@)),
        },
{
    let mut out: Vec<Vec<u8>> = Vec::new();
    let mut i: usize = 0;
    let ghost a = bson_seq(v@);
    while i < v.len()
        invariant
            i <= v.len(),
            a == bson_seq(v@),
            out@.len() == i,
            forall|j: int|
                #![trigger a[j]]
                0 <= j < i ==> a[j] is Str && base64_bytes(a[j]->Str_0) == Some(out@[j]@),
        decreases v.len() - i,
    {
        match &v[i] {
            Bson::String(s) => match base64_decode(s.as_str()) {
                Ok(b) => {
                    out.push(b);
                },
                Err(_) => {
                    assert(base64_bytes(a[i as int]->Str_0) is None);
                    return None;
                },
            },
            _ => {
                assert(!(a[i as int] is Str));
                return None;
            },
        }
        i += 1;
    }
    assert(bytes_seq(out@) =~= Seq::new(
        v@.len(),
        |i: int| base64_bytes(bson_seq(v@)[i]->Str_0)->0,
    ));
    Some(out)
}

/// Decodes a stored value; `None` where it has not the form of one.
pub fn decode_value(b: &Bson) -> (r: Option<AttributeValue>)
    ensures
        match r {
            Some(v) => is_stored(b@) && v@ == stored_value(b@),
            None => !is_stored(b@),
        },
    decreases b,
{
    broadcast use lemma_av_view;

    let d = match b {
        Bson::Document(d) => d,
        _ => {
            return None;
        },
    };
    if d.entries.len() != 1 {
        return None;
    }
    assert(d@.entries[0] == (d.entries@[0].0@, d.entries@[0].1@));
    match (read_tag(d.entries[0].0.as_str()), &d.entries[0].1) {
        (Some(Tag::S), Bson::String(s)) => Some(AttributeValue::S(s.clone())),
        (Some(Tag::N), Bson::String(s)) => Some(AttributeValue::N(s.clone())),
        (Some(Tag::B), Bson::String(s)) => match base64_decode(s.as_str()) {
            Ok(bytes) => Some(AttributeValue::B(bytes)),
            Err(_) => None,
        },
        (Some(Tag::Bool), Bson::Boolean(t)) => Some(AttributeValue::Bool(*t)),
        (Some(Tag::Null), Bson::Boolean(t)) => if *t {
            Some(AttributeValue::Null)
        } else {
            None
        },
        (Some(Tag::L), Bson::Array(a)) => {
            let mut out: Vec<AttributeValue> = Vec::new();
            let mut i: usize = 0;
            let ghost av = bson_seq(a@);
            assert(d@.entries[0].1->Array_0 =~= av);
            while i < a.len()
                invariant
                    i <= a.len(),
                    av == bson_seq(a@),
                    out@.len() == i,
                    decreases_to!(b => a),
                    b@ == BsonV::Doc(d@),
                    d@.entries.len() == 1,
                    tag_of(d@.entries[0].0) == Some(Tag::L),
                    d@.entries[0].1 == BsonV::Array(av),
                    forall|j: int|
                        #![trigger av[j]]
                        0 <= j < i ==> is_stored(av[j]) && out@[j]@ == stored_value(av[j]),
                decreases a.len() - i,
            {
                match decode_value(&a[i]) {
                    Some(v) => {
                        out.push(v);
                    },
                    None => {
                        assert(!is_stored(av[i as int]));
                        return None;
                    },
                }
                i += 1;
            }
            assert(av_seq(out@) =~= stored_value(b@)->L_0);
            Some(AttributeValue::L(out))
        },
        (Some(Tag::M), Bson::Document(m)) => match decode_item(m) {
            Some(i) => Some(AttributeValue::M(i)),
            None => None,
        },
        (Some(Tag::SS), Bson::Array(a)) => {
            assert(d@.entries[0].1->Array_0 =~= bson_seq(a@));
            match read_texts(a) {
                Some(s) => Some(AttributeValue::SS(s)),
                None => None,
            }
        },
        (Some(Tag::NS), Bson::Array(a)) => {
            assert(d@.entries[0].1->Array_0 =~= bson_seq(a@));
            match read_texts(a) {
                Some(s) => Some(AttributeValue::NS(s)),
                None => None,
            }
        },
        (Some(Tag::BS), Bson::Array(a)) => {
            assert(d@.entries[0].1->Array_0 =~= bson_seq(a@));
            match read_base64_list(a) {
                Some(s) => Some(AttributeValue::BS(s)),
                None => None,
            }
        },
        _ => None,
    }
}

/// Decodes a stored item; `None` where it has not the form of one.
pub fn decode_item(d: &Document) -> (r: Option<Item>)
    ensures
        match r {
            Some(m) => is_stored_item(d@) && m@ == stored_item(d@),
            None => !is_stored_item(d@),
        },
    decreases d,
{
    let mut m = Item::new();
    let mut i: usize = 0;
    while i < d.entries.len()
        invariant
            i <= d.entries.len(),
            m@ == stored_item_to(d@, i as nat),
            forall|j: int| 0 <= j < i ==> is_stored((#[trigger] d@.entries[j]).1),
        decreases d.entries.len() - i,
    {
        assert(d@.entries[i as int] == (d.entries@[i as int].0@, d.entries@[i as int].1@));
        match decode_value(&d.entries[i].1) {
            Some(v) => {
                m.insert(d.entries[i].0.as_str(), v);
            },
            None => {
                assert(!is_stored(d@.entries[i as int].1));
                return None;
            },
        }
        i += 1;
    }
    Some(m)
}

} // verus!
