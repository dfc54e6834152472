//! BSON values and ordered documents.
//!
//! `Document` keeps its fields in the order in which they were first inserted.
//! Inserting under a name that is present replaces the value in place. Its view
//! is `DocV`, a sequence of named values.
//!
//! A double is kept as the decimal text that it is read from: the storage layer
//! never computes with doubles, it only hands them on.

use vstd::prelude::*;
use vstd::string::*;

use crate::text::text_eq;

verus! {

/// A BSON value.
#[derive(Debug, PartialEq)]
pub enum Bson {
    Null,
    Boolean(bool),
    Int32(i32),
    Int64(i64),
    Double(String),
    String(String),
    Binary(Vec<u8>),
    Decimal128(Vec<u8>),
    DateTime(i64),
    Array(Vec<Bson>),
    Document(Document),
}

/// A BSON document: named values in insertion order.
#[derive(Debug, PartialEq)]
pub struct Document {
    pub entries: Vec<(String, Bson)>,
}

/// The model of a BSON value.
#[verifier::ext_equal]
pub enum BsonV {
    Null,
    Boolean(bool),
    Int32(i32),
    Int64(i64),
    Double(Seq<char>),
    Str(Seq<char>),
    Binary(Seq<u8>),
    Decimal128(Seq<u8>),
    DateTime(i64),
    Array(Seq<BsonV>),
    Doc(DocV),
}

/// The model of a BSON document.
#[verifier::ext_equal]
pub struct DocV {
    pub entries: Seq<(Seq<char>, BsonV)>,
}

pub open spec fn bson_view(b: Bson) -> BsonV
    decreases b,
{
    match b {
        Bson::Null => BsonV::Null,
        Bson::Boolean(v) => BsonV::Boolean(v),
        Bson::Int32(v) => BsonV::Int32(v),
        Bson::Int64(v) => BsonV::Int64(v),
        Bson::Double(v) => BsonV::Double(v@),
        Bson::String(v) => BsonV::Str(v@),
        Bson::Binary(v) => BsonV::Binary(v@),
        Bson::Decimal128(v) => BsonV::Decimal128(v@),
        Bson::DateTime(v) => BsonV::DateTime(v),
        Bson::Array(v) => BsonV::Array(
            Seq::new(
                v@.len(),
                |i: int|
                    if 0 <= i < v@.len() {
                        bson_view(v@[i])
                    } else {
                        BsonV::Null
                    },
            ),
        ),
        Bson::Document(d) => BsonV::Doc(doc_view(d)),
    }
}

pub open spec fn doc_view(d: Document) -> DocV
    decreases d,
{
    DocV {
        entries: Seq::new(
            d.entries@.len(),
            |i: int|
                if 0 <= i < d.entries@.len() {
                    (d.entries@[i].0@, bson_view(d.entries@[i].1))
                } else {
                    (Seq::empty(), BsonV::Null)
                },
        ),
    }
}

impl View for Bson {
    type V = BsonV;

    open spec fn view(&self) -> BsonV {
        bson_view(*self)
    }
}

impl View for Document {
    type V = DocV;

    open spec fn view(&self) -> DocV {
        doc_view(*self)
    }
}

/// The models of a list of values.
pub open spec fn bson_seq(v: Seq<Bson>) -> Seq<BsonV> {
    Seq::new(v.len(), |i: int| v[i]@)
}

/// The models of a list of documents.
pub open spec fn doc_seq(v: Seq<Document>) -> Seq<DocV> {
    Seq::new(v.len(), |i: int| v[i]@)
}

/// The first position at or after `i` that holds the name `k`; the length of
/// `s` where there is none.
pub open spec fn key_from(s: Seq<(Seq<char>, BsonV)>, k: Seq<char>, i: int) -> int
    decreases s.len() - i,
{
    if i < 0 || i >= s.len() {
        s.len() as int
    } else if s[i].0 == k {
        i
    } else {
        key_from(s, k, i + 1)
    }
}

impl DocV {
    /// The document without fields.
    pub open spec fn empty() -> DocV {
        DocV { entries: Seq::empty() }
    }

    /// This document after `k` was set to `v`: in place where the name is
    /// present, at the end otherwise.
    #[verifier::opaque]
    pub open spec fn with(self, k: Seq<char>, v: BsonV) -> DocV {
        let i = key_from(self.entries, k, 0);
        if i < self.entries.len() {
            DocV { entries: self.entries.update(i, (k, v)) }
        } else {
            DocV { entries: self.entries.push((k, v)) }
        }
    }

    /// The value under a name.
    #[verifier::opaque]
    pub open spec fn get(self, k: Seq<char>) -> Option<BsonV> {
        let i = key_from(self.entries, k, 0);
        if i < self.entries.len() {
            Some(self.entries[i].1)
        } else {
            None
        }
    }

    /// The text under a name, where a text stands there.
    pub open spec fn get_str(self, k: Seq<char>) -> Option<Seq<char>> {
        match self.get(k) {
            Some(BsonV::Str(s)) => Some(s),
            _ => None,
        }
    }

    /// The text under a name, or else a default.
    pub open spec fn str_or(self, k: Seq<char>, d: Seq<char>) -> Seq<char> {
        match self.get_str(k) {
            Some(s) => s,
            None => d,
        }
    }

    /// The 64-bit integer under a name.
    pub open spec fn get_i64(self, k: Seq<char>) -> Option<i64> {
        match self.get(k) {
            Some(BsonV::Int64(n)) => Some(n),
            _ => None,
        }
    }

    /// The 32-bit integer under a name.
    pub open spec fn get_i32(self, k: Seq<char>) -> Option<i32> {
        match self.get(k) {
            Some(BsonV::Int32(n)) => Some(n),
            _ => None,
        }
    }

    /// The truth value under a name.
    pub open spec fn get_bool(self, k: Seq<char>) -> Option<bool> {
        match self.get(k) {
            Some(BsonV::Boolean(b)) => Some(b),
            _ => None,
        }
    }

    /// The point in time under a name, in milliseconds.
    pub open spec fn get_datetime(self, k: Seq<char>) -> Option<i64> {
        match self.get(k) {
            Some(BsonV::DateTime(t)) => Some(t),
            _ => None,
        }
    }

    /// The document under a name.
    pub open spec fn get_document(self, k: Seq<char>) -> Option<DocV> {
        match self.get(k) {
            Some(BsonV::Doc(d)) => Some(d),
            _ => None,
        }
    }

    /// The list under a name.
    pub open spec fn get_array(self, k: Seq<char>) -> Option<Seq<BsonV>> {
        match self.get(k) {
            Some(BsonV::Array(a)) => Some(a),
            _ => None,
        }
    }

    /// The bytes under a name.
    pub open spec fn get_binary(self, k: Seq<char>) -> Option<Seq<u8>> {
        match self.get(k) {
            Some(BsonV::Binary(b)) => Some(b),
            _ => None,
        }
    }
}

/// A document with one field.
pub open spec fn doc1(k: Seq<char>, v: BsonV) -> DocV {
    DocV::empty().with(k, v)
}

/// The value of a document with one field.
pub open spec fn obj1(k: Seq<char>, v: BsonV) -> BsonV {
    BsonV::Doc(doc1(k, v))
}

/// The model of an optional borrowed text.
pub open spec fn opt_text(o: Option<&str>) -> Option<Seq<char>> {
    match o {
        Some(s) => Some(s@),
        None => None,
    }
}

/// The model of an optional text.
pub open spec fn opt_string(o: Option<String>) -> Option<Seq<char>> {
    match o {
        Some(s) => Some(s@),
        None => None,
    }
}

/// The model of an optional document.
pub open spec fn opt_doc(o: Option<Document>) -> Option<DocV> {
    match o {
        Some(d) => Some(d@),
        None => None,
    }
}

/// The models of a list of texts.
pub open spec fn text_seq(v: Seq<String>) -> Seq<Seq<char>> {
    Seq::new(v.len(), |i: int| v[i]@)
}

// --- Facts about documents -------------------------------------------------

/// Where a name stands first among entries, from a place on.
pub proof fn lemma_key_from(s: Seq<(Seq<char>, BsonV)>, k: Seq<char>, i: int)
    requires
        0 <= i <= s.len(),
    ensures
        i <= key_from(s, k, i) <= s.len(),
        key_from(s, k, i) < s.len() ==> s[key_from(s, k, i)].0 == k,
        forall|j: int| i <= j < key_from(s, k, i) ==> (#[trigger] s[j]).0 != k,
    decreases s.len() - i,
{
    if i < s.len() && s[i].0 != k {
        lemma_key_from(s, k, i + 1);
    }
}

proof fn lemma_key_from_unique(s: Seq<(Seq<char>, BsonV)>, k: Seq<char>, i: int, p: int)
    requires
        0 <= i <= p <= s.len(),
        p < s.len() ==> s[p].0 == k,
        forall|j: int| i <= j < p ==> (#[trigger] s[j]).0 != k,
    ensures
        key_from(s, k, i) == p,
    decreases s.len() - i,
{
    if i < p {
        lemma_key_from_unique(s, k, i + 1, p);
    }
}

/// What was set under a name is what stands under it.
pub proof fn lemma_get_with_same(d: DocV, k: Seq<char>, v: BsonV)
    ensures
        d.with(k, v).get(k) == Some(v),
{
    reveal(DocV::with);
    reveal(DocV::get);
    lemma_key_from(d.entries, k, 0);
    let i = key_from(d.entries, k, 0);
    lemma_key_from_unique(d.with(k, v).entries, k, 0, i);
}

/// Setting one name leaves what stands under every other name.
pub proof fn lemma_get_with_other(d: DocV, k: Seq<char>, v: BsonV, k2: Seq<char>)
    requires
        k != k2,
    ensures
        d.with(k, v).get(k2) == d.get(k2),
{
    reveal(DocV::with);
    reveal(DocV::get);
    lemma_key_from(d.entries, k, 0);
    lemma_key_from(d.entries, k2, 0);
    let e = d.with(k, v).entries;
    let i2 = key_from(d.entries, k2, 0);
    if i2 < d.entries.len() {
        lemma_key_from_unique(e, k2, 0, i2);
    } else {
        lemma_key_from_unique(e, k2, 0, e.len() as int);
    }
}

/// Nothing stands in the empty document.
pub proof fn lemma_get_empty(k: Seq<char>)
    ensures
        DocV::empty().get(k) is None,
{
    reveal(DocV::get);
}

/// A document with one field has just that entry.
pub proof fn lemma_doc1(k: Seq<char>, v: BsonV)
    ensures
        doc1(k, v).entries == seq![(k, v)],
{
    reveal(DocV::with);
    assert(doc1(k, v).entries =~= seq![(k, v)]);
}

/// What stands under a name after another, or the same, was set.
pub broadcast proof fn lemma_get_with(d: DocV, k: Seq<char>, v: BsonV, k2: Seq<char>)
    ensures
        #[trigger] d.with(k, v).get(k2) == (if k == k2 {
            Some(v)
        } else {
            d.get(k2)
        }),
{
    if k == k2 {
        lemma_get_with_same(d, k, v);
    } else {
        lemma_get_with_other(d, k, v, k2);
    }
}

/// Nothing stands in the empty document.
pub broadcast proof fn lemma_get_in_empty(k: Seq<char>)
    ensures
        (#[trigger] DocV::empty().get(k)) is None,
{
    lemma_get_empty(k);
}

/// What stands in documents that were built field by field.
pub broadcast group group_document_fields {
    lemma_get_with,
    lemma_get_in_empty,
}

// --- Executable documents --------------------------------------------------

/// A copy of a value.
pub fn copy_bson(b: &Bson) -> (r: Bson)
    ensures
        r@ == b@,
    decreases b,
{
    match b {
        Bson::Null => Bson::Null,
        Bson::Boolean(v) => Bson::Boolean(*v),
        Bson::Int32(v) => Bson::Int32(*v),
        Bson::Int64(v) => Bson::Int64(*v),
        Bson::Double(v) => Bson::Double(v.clone()),
        Bson::String(v) => Bson::String(v.clone()),
        Bson::Binary(v) => Bson::Binary(copy_bytes(v)),
        Bson::Decimal128(v) => Bson::Decimal128(copy_bytes(v)),
        Bson::DateTime(v) => Bson::DateTime(*v),
        Bson::Array(v) => {
            let mut out: Vec<Bson> = Vec::new();
            let mut i: usize = 0;
            while i < v.len()
                invariant
                    i <= v.len(),
                    out@.len() == i,
                    decreases_to!(b => v),
                    forall|j: int| 0 <= j < i ==> (#[trigger] out@[j])@ == v@[j]@,
                decreases v.len() - i,
            {
                let c = copy_bson(&v[i]);
                out.push(c);
                i += 1;
            }
            let r = Bson::Array(out);
            assert(bson_view(r)->Array_0 =~= bson_view(*b)->Array_0);
            r
        },
        Bson::Document(d) => Bson::Document(copy_doc(d)),
    }
}

/// A copy of a document.
pub fn copy_doc(d: &Document) -> (r: Document)
    ensures
        r@ == d@,
    decreases d,
{
    let mut out: Vec<(String, Bson)> = Vec::new();
    let mut i: usize = 0;
    while i < d.entries.len()
        invariant
            i <= d.entries.len(),
            out@.len() == i,
            forall|j: int|
                0 <= j < i ==> (#[trigger] out@[j]).0@ == d.entries@[j].0@ && out@[j].1@
                    == d.entries@[j].1@,
        decreases d.entries.len() - i,
    {
        let c = copy_bson(&d.entries[i].1);
        out.push((d.entries[i].0.clone(), c));
        i += 1;
    }
    let r = Document { entries: out };
    assert(r@.entries =~= d@.entries);
    r
}

/// A copy of bytes.
pub fn copy_bytes(v: &Vec<u8>) -> (r: Vec<u8>)
    ensures
        r@ == v@,
{
    let mut out: Vec<u8> = Vec::new();
    let mut i: usize = 0;
    while i < v.len()
        invariant
            i <= v.len(),
            out@ == v@.take(i as int),
        decreases v.len() - i,
    {
        out.push(v[i]);
        i += 1;
        assert(out@ =~= v@.take(i as int));
    }
    assert(v@.take(v@.len() as int) =~= v@);
    out
}

impl Clone for Bson {
    fn clone(&self) -> (r: Self)
        ensures
            r@ == self@,
    {
        copy_bson(self)
    }
}

impl Clone for Document {
    fn clone(&self) -> (r: Self)
        ensures
            r@ == self@,
    {
        copy_doc(self)
    }
}

impl Bson {
    /// A text value.
    pub fn text(s: &str) -> (r: Bson)
        ensures
            r@ == BsonV::Str(s@),
    {
        Bson::String(s.to_owned())
    }

    /// A list of one value.
    pub fn array1(a: Bson) -> (r: Bson)
        ensures
            r@ == BsonV::Array(seq![a@]),
    {
        let mut v: Vec<Bson> = Vec::new();
        v.push(a);
        let r = Bson::Array(v);
        assert(r@->Array_0 =~= seq![a@]);
        r
    }

    /// A list of two values.
    pub fn array2(a: Bson, b: Bson) -> (r: Bson)
        ensures
            r@ == BsonV::Array(seq![a@, b@]),
    {
        let mut v: Vec<Bson> = Vec::new();
        v.push(a);
        v.push(b);
        let r = Bson::Array(v);
        assert(r@->Array_0 =~= seq![a@, b@]);
        r
    }

    /// A list of values.
    pub fn array(v: Vec<Bson>) -> (r: Bson)
        ensures
            r@ == BsonV::Array(bson_seq(v@)),
    {
        let ghost s = v@;
        let r = Bson::Array(v);
        assert(r@->Array_0 =~= bson_seq(s));
        r
    }

    /// A document value with one field.
    pub fn obj1(k: &str, v: Bson) -> (r: Bson)
        ensures
            r@ == obj1(k@, v@),
    {
        Bson::Document(Document::new().with(k, v))
    }
}

impl Document {
    /// The document without fields.
    pub fn new() -> (r: Document)
        ensures
            r@ == DocV::empty(),
    {
        let r = Document { entries: Vec::new() };
        assert(r@.entries =~= Seq::empty());
        r
    }

    /// The position of the first field of a name; the number of fields where
    /// there is none.
    fn position(&self, key: &str) -> (r: usize)
        ensures
            r == key_from(self@.entries, key@, 0),
            r <= self.entries@.len(),
    {
        let mut i: usize = 0;
        while i < self.entries.len()
            invariant
                i <= self.entries.len(),
                key_from(self@.entries, key@, 0) == key_from(self@.entries, key@, i as int),
            decreases self.entries.len() - i,
        {
            if text_eq(self.entries[i].0.as_str(), key) {
                return i;
            }
            i += 1;
        }
        i
    }

    /// Sets a field.
    pub fn insert(&mut self, key: &str, value: Bson)
        ensures
            final(self)@ == old(self)@.with(key@, value@),
    {
        reveal(DocV::with);
        let i = self.position(key);
        let ghost before = self.entries@;
        if i < self.entries.len() {
            self.entries.set(i, (key.to_owned(), value));
        } else {
            self.entries.push((key.to_owned(), value));
        }
        assert(self@.entries =~= old(self)@.with(key@, value@).entries);
    }

    /// Whether there are no entries.
    pub fn is_empty(&self) -> (r: bool)
        ensures
            r == (self@.entries.len() == 0),
    {
        self.entries.len() == 0
    }

    /// This document with a field set.
    pub fn with(self, key: &str, value: Bson) -> (r: Document)
        ensures
            r@ == self@.with(key@, value@),
    {
        let mut d = self;
        d.insert(key, value);
        d
    }

    /// The value under a name.
    pub fn get(&self, key: &str) -> (r: Option<&Bson>)
        ensures
            match r {
                Some(b) => self@.get(key@) == Some(b@),
                None => self@.get(key@) is None,
            },
    {
        reveal(DocV::get);
        let i = self.position(key);
        if i < self.entries.len() {
            Some(&self.entries[i].1)
        } else {
            None
        }
    }

    /// The text under a name.
    pub fn get_str(&self, key: &str) -> (r: Option<&str>)
        ensures
            opt_text(r) == self@.get_str(key@),
    {
        match self.get(key) {
            Some(Bson::String(s)) => Some(s.as_str()),
            _ => None,
        }
    }

    /// The text under a name, or else a default.
    pub fn str_or(&self, key: &str, default: &str) -> (r: String)
        ensures
            r@ == self@.str_or(key@, default@),
    {
        match self.get_str(key) {
            Some(s) => s.to_owned(),
            None => default.to_owned(),
        }
    }

    /// The 64-bit integer under a name.
    pub fn get_i64(&self, key: &str) -> (r: Option<i64>)
        ensures
            r == self@.get_i64(key@),
    {
        match self.get(key) {
            Some(Bson::Int64(n)) => Some(*n),
            _ => None,
        }
    }

    /// The 32-bit integer under a name.
    pub fn get_i32(&self, key: &str) -> (r: Option<i32>)
        ensures
            r == self@.get_i32(key@),
    {
        match self.get(key) {
            Some(Bson::Int32(n)) => Some(*n),
            _ => None,
        }
    }

    /// The truth value under a name.
    pub fn get_bool(&self, key: &str) -> (r: Option<bool>)
        ensures
            r == self@.get_bool(key@),
    {
        match self.get(key) {
            Some(Bson::Boolean(b)) => Some(*b),
            _ => None,
        }
    }

    /// The point in time under a name, in milliseconds.
    pub fn get_datetime(&self, key: &str) -> (r: Option<i64>)
        ensures
            r == self@.get_datetime(key@),
    {
        match self.get(key) {
            Some(Bson::DateTime(t)) => Some(*t),
            _ => None,
        }
    }

    /// The document under a name.
    pub fn get_document(&self, key: &str) -> (r: Option<&Document>)
        ensures
            match r {
                Some(d) => self@.get_document(key@) == Some(d@),
                None => self@.get_document(key@) is None,
            },
    {
        match self.get(key) {
            Some(Bson::Document(d)) => Some(d),
            _ => None,
        }
    }

    /// The list under a name.
    pub fn get_array(&self, key: &str) -> (r: Option<&Vec<Bson>>)
        ensures
            match r {
                Some(v) => self@.get_array(key@) == Some(bson_seq(v@)),
                None => self@.get_array(key@) is None,
            },
    {
        match self.get(key) {
            Some(Bson::Array(v)) => {
                proof {
                    let b = self@.get(key@)->0;
                    assert(b->Array_0 =~= bson_seq(v@));
                }
                Some(v)
            },
            _ => None,
        }
    }

    /// The bytes under a name.
    pub fn get_binary(&self, key: &str) -> (r: Option<&Vec<u8>>)
        ensures
            match r {
                Some(v) => self@.get_binary(key@) == Some(v@),
                None => self@.get_binary(key@) is None,
            },
    {
        match self.get(key) {
            Some(Bson::Binary(v)) => Some(v),
            _ => None,
        }
    }
}

} // verus!
