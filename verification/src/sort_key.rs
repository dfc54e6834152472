//! Sort key conditions as filters on the typed sort key field.

use vstd::prelude::*;
use vstd::string::*;

use crate::bson::{copy_bytes, doc1, Bson, BsonV, DocV, Document};
use crate::condition::{build_field_comparison, field_comparison};
use crate::data::{numeric_key, numeric_sort_key};
use crate::encoding::{decimal128_of, parse_decimal128};
use crate::error::{res_doc, ErrV, StorageError};
use crate::expression::{Expr, ExpressionMaps, KeyCondition, SortKeyCondition};
use crate::item::{lemma_av_view, AttributeValue, AvV};
use crate::order::{lemma_lt_common, text_lt};
use crate::schema::ScalarAttributeType;
use crate::text::{chars_of, ends_with, join2};

verus! {

/// The value that a key expression stands for.
pub open spec fn key_value(e: Expr, maps: ExpressionMaps) -> Result<AvV, ErrV> {
    match e {
        Expr::Placeholder(name) => maps.value_of(name@),
        _ => Err(ErrV::Internal("expected placeholder in key condition"@)),
    }
}

/// The value that a sort key is compared with.
pub open spec fn sk_bson(v: AvV, kind: ScalarAttributeType) -> Result<BsonV, ErrV> {
    match (kind, v) {
        (ScalarAttributeType::S, AvV::S(s)) => Ok(BsonV::Str(s)),
        (ScalarAttributeType::N, AvV::N(n)) => match numeric_key(n, decimal128_of(n)) {
            Some(b) => Ok(b),
            None => Err(ErrV::Internal("cannot parse numeric sort key: "@ + n)),
        },
        (ScalarAttributeType::B, AvV::B(b)) => Ok(BsonV::Binary(b)),
        _ => Err(ErrV::Internal("sort key type mismatch"@)),
    }
}

/// The type of the sort key that a field holds.
pub open spec fn kind_of_field(field: Seq<char>) -> ScalarAttributeType {
    if "_n"@.is_suffix_of(field) {
        ScalarAttributeType::N
    } else if "_b"@.is_suffix_of(field) {
        ScalarAttributeType::B
    } else {
        ScalarAttributeType::S
    }
}

/// The character behind another, where there is one.
pub open spec fn next_char(c: char) -> Option<char> {
    if c == '\u{10FFFF}' {
        None
    } else if c == '\u{D7FF}' {
        Some('\u{E000}')
    } else {
        Some(((c as u32) + 1) as char)
    }
}

/// The least text behind all that begin with `s`: its last character that has
/// a next one makes way for it, and what stands behind is dropped. `None` where
/// no character has a next one.
pub open spec fn after_prefix(s: Seq<char>) -> Option<Seq<char>>
    decreases s.len(),
{
    if s.len() == 0 {
        None
    } else {
        match next_char(s.last()) {
            Some(c) => Some(s.drop_last().push(c)),
            None => after_prefix(s.drop_last()),
        }
    }
}

/// Bytes, read as a number with the most significant byte first, plus one;
/// `None` where that needs one byte more.
pub open spec fn carried(b: Seq<u8>) -> Option<Seq<u8>>
    decreases b.len(),
{
    if b.len() == 0 {
        None
    } else if b.last() < 255 {
        Some(b.drop_last().push((b.last() + 1) as u8))
    } else {
        match carried(b.drop_last()) {
            Some(p) => Some(p.push(0)),
            None => None,
        }
    }
}

/// `k` times the same byte.
pub open spec fn repeated(x: u8, k: nat) -> Seq<u8> {
    Seq::new(k, |i: int| x)
}

/// The filter of a range of a field.
pub open spec fn range_filter(
    field: Seq<char>,
    low: BsonV,
    upper_op: Seq<char>,
    high: BsonV,
) -> DocV {
    doc1(field, BsonV::Doc(doc1("$gte"@, low).with(upper_op, high)))
}

/// The filter of a field from a value on, and below another where there is
/// one.
pub open spec fn prefix_filter(field: Seq<char>, low: BsonV, high: Option<BsonV>) -> DocV {
    match high {
        Some(h) => range_filter(field, low, "$lt"@, h),
        None => doc1(field, BsonV::Doc(doc1("$gte"@, low))),
    }
}

/// The filter of a sort key condition.
pub open spec fn sk_filter(
    cond: SortKeyCondition,
    field: Seq<char>,
    maps: ExpressionMaps,
) -> Result<DocV, ErrV> {
    match cond {
        SortKeyCondition::Compare { op, value } => match key_value(value, maps) {
            Err(e) => Err(e),
            Ok(v) => match sk_bson(v, kind_of_field(field)) {
                Err(e) => Err(e),
                Ok(b) => Ok(field_comparison(field, op, b)),
            },
        },
        SortKeyCondition::Between { low, high } => match key_value(low, maps) {
            Err(e) => Err(e),
            Ok(l) => match key_value(high, maps) {
                Err(e) => Err(e),
                Ok(h) => match sk_bson(l, kind_of_field(field)) {
                    Err(e) => Err(e),
                    Ok(lb) => match sk_bson(h, kind_of_field(field)) {
                        Err(e) => Err(e),
                        Ok(hb) => Ok(range_filter(field, lb, "$lte"@, hb)),
                    },
                },
            },
        },
        SortKeyCondition::BeginsWith { prefix } => match key_value(prefix, maps) {
            Err(e) => Err(e),
            Ok(AvV::S(p)) => Ok(
                prefix_filter(
                    field,
                    BsonV::Str(p),
                    match after_prefix(p) {
                        Some(u) => Some(BsonV::Str(u)),
                        None => None,
                    },
                ),
            ),
            Ok(AvV::B(b)) => Ok(
                prefix_filter(
                    field,
                    BsonV::Binary(b),
                    match carried(b) {
                        Some(u) => Some(BsonV::Binary(u)),
                        None => None,
                    },
                ),
            ),
            Ok(_) => Err(ErrV::Validation("begins_with requires string or binary sort key"@)),
        },
    }
}

/// Looks up the value that a key expression stands for.
pub fn resolve_key_expr<'a>(expr: &Expr, maps: &'a ExpressionMaps) -> (r: Result<
    &'a AttributeValue,
    StorageError,
>)
    ensures
        match r {
            Ok(v) => key_value(*expr, *maps) == Ok::<AvV, ErrV>(v@),
            Err(e) => key_value(*expr, *maps) == Err::<AvV, ErrV>(e@),
        },
{
    match expr {
        Expr::Placeholder(name) => maps.resolve_value(name.as_str()),
        _ => Err(StorageError::internal("expected placeholder in key condition")),
    }
}

/// The expression of the value of a part of the partition key, the first of
/// which every condition names.
pub open spec fn key_expr(c: KeyCondition, i: int) -> Expr {
    if i == 0 {
        c.pk_value
    } else {
        c.extra_pk_conditions@[i - 1].1
    }
}

/// The value of a part of the partition key.
pub open spec fn key_part_value(c: KeyCondition, maps: ExpressionMaps, i: int) -> Result<AvV, ErrV> {
    key_value(key_expr(c, i), maps)
}

/// The values of the parts of a partition key, in order.
#[derive(Debug)]
pub struct KeyValues<'a> {
    /// The values of the first parts.
    pub values: Vec<&'a AttributeValue>,
    /// Why the part behind these has no value, where there is one.
    pub failure: Option<StorageError>,
}

/// Looks up the values of the parts of the partition key that a condition
/// names, up to the first that has none.
pub fn key_values<'a>(c: &KeyCondition, maps: &'a ExpressionMaps) -> (r: KeyValues<'a>)
    ensures
        r.values@.len() <= c.extra_pk_conditions@.len() + 1,
        forall|i: int|
            0 <= i < r.values@.len() ==> key_part_value(*c, *maps, i) == Ok::<AvV, ErrV>(
                (#[trigger] r.values@[i])@,
            ),
        match r.failure {
            None => r.values@.len() == c.extra_pk_conditions@.len() + 1,
            Some(e) => r.values@.len() <= c.extra_pk_conditions@.len() && key_part_value(
                *c,
                *maps,
                r.values@.len() as int,
            ) == Err::<AvV, ErrV>(e@),
        },
{
    let mut values: Vec<&'a AttributeValue> = Vec::new();
    match resolve_key_expr(&c.pk_value, maps) {
        Ok(v) => values.push(v),
        Err(e) => {
            return KeyValues { values, failure: Some(e) };
        },
    }
    let mut i: usize = 0;
    while i < c.extra_pk_conditions.len()
        invariant
            i <= c.extra_pk_conditions.len(),
            values@.len() == i + 1,
            forall|j: int|
                0 <= j < values@.len() ==> key_part_value(*c, *maps, j) == Ok::<AvV, ErrV>(
                    (#[trigger] values@[j])@,
                ),
        decreases c.extra_pk_conditions.len() - i,
    {
        match resolve_key_expr(&c.extra_pk_conditions[i].1, maps) {
            Ok(v) => values.push(v),
            Err(e) => {
                return KeyValues { values, failure: Some(e) };
            },
        }
        i += 1;
    }
    KeyValues { values, failure: None }
}

/// How the texts of the parts of a partition key make up its text.
#[derive(Debug, PartialEq)]
pub enum KeyText {
    /// The text of the only part is that of the key.
    Alone(String),
    /// The texts of the parts are joined.
    Joined(Vec<String>),
}

/// Makes the text of a partition key up from those of its parts.
pub fn key_text(texts: Vec<String>) -> (r: KeyText)
    ensures
        match r {
            KeyText::Alone(t) => texts@.len() == 1 && t@ == texts@[0]@,
            KeyText::Joined(v) => texts@.len() != 1 && v@ == texts@,
        },
{
    if texts.len() == 1 {
        KeyText::Alone(texts[0].clone())
    } else {
        KeyText::Joined(texts)
    }
}

/// Converts a sort key to the value that it is compared with.
pub fn sk_to_bson(av: &AttributeValue, kind: ScalarAttributeType) -> (r: Result<
    Bson,
    StorageError,
>)
    ensures
        match r {
            Ok(b) => sk_bson(av@, kind) == Ok::<BsonV, ErrV>(b@),
            Err(e) => sk_bson(av@, kind) == Err::<BsonV, ErrV>(e@),
        },
{
    broadcast use lemma_av_view;

    match (kind, av) {
        (ScalarAttributeType::S, AttributeValue::S(s)) => Ok(Bson::String(s.clone())),
        (ScalarAttributeType::N, AttributeValue::N(n)) => match numeric_sort_key(
            n.as_str(),
            parse_decimal128(n.as_str()),
        ) {
            Some(b) => Ok(b),
            None => Err(
                StorageError::Internal(join2("cannot parse numeric sort key: ", n.as_str())),
            ),
        },
        (ScalarAttributeType::B, AttributeValue::B(b)) => Ok(Bson::Binary(copy_bytes(b))),
        _ => Err(StorageError::internal("sort key type mismatch")),
    }
}

/// The type of the sort key that a field holds.
pub fn infer_sk_type_from_field(field: &str) -> (r: ScalarAttributeType)
    ensures
        r == kind_of_field(field@),
{
    if ends_with(field, "_n") {
        ScalarAttributeType::N
    } else if ends_with(field, "_b") {
        ScalarAttributeType::B
    } else {
        ScalarAttributeType::S
    }
}

/// `char::from_u32` of std: the character with a number, where the number is
/// that of a character. The numbers of characters go up to 0x10FFFF, without
/// those from 0xD800 to 0xDFFF.
pub assume_specification [std::primitive::char::from_u32](i: u32) -> (r: Option<char>)
    ensures
        match r {
            Some(c) => c as int == i,
            None => 0xD800 <= i <= 0xDFFF || i > 0x10FFFF,
        },
;

fn following(c: char) -> (r: Option<char>)
    ensures
        r == next_char(c),
{
    if c == '\u{10FFFF}' {
        None
    } else if c == '\u{D7FF}' {
        Some('\u{E000}')
    } else {
        char::from_u32((c as u32) + 1)
    }
}

/// The exclusive upper bound of the texts that begin with `s`: a text begins
/// with `s` exactly when it is neither before `s` nor at or behind the bound.
/// There is none where every text from `s` on begins with it.
pub fn increment_string(s: &str) -> (r: Option<String>)
    ensures
        match (r, after_prefix(s@)) {
            (Some(u), Some(v)) => u@ == v,
            (None, None) => true,
            _ => false,
        },
        r matches Some(u) ==> forall|t: Seq<char>|
            (#[trigger] s@.is_prefix_of(t)) == (!text_lt(t, s@) && text_lt(t, u@)),
        r is None ==> forall|t: Seq<char>|
            (#[trigger] s@.is_prefix_of(t)) == !text_lt(t, s@),
{
    proof {
        assert forall|t: Seq<char>| (#[trigger] s@.is_prefix_of(t)) == (!text_lt(t, s@) && (
        after_prefix(s@) matches Some(u) ==> text_lt(t, u))) by {
            law_text_prefix_range(s@, t);
        }
    }
    let v = chars_of(s);
    let mut n: usize = v.len();
    assert(s@.take(n as int) =~= s@);
    while n > 0
        invariant
            n <= v@.len(),
            v@ == s@,
            forall|t: Seq<char>|
                (#[trigger] s@.is_prefix_of(t)) == (!text_lt(t, s@) && (after_prefix(
                    s@,
                ) matches Some(u) ==> text_lt(t, u))),
            after_prefix(s@.take(n as int)) == after_prefix(s@),
        decreases n,
    {
        let ghost t = s@.take(n as int);
        assert(t.last() == v@[n - 1]);
        assert(t.drop_last() =~= s@.take(n - 1));
        if let Some(c) = following(v[n - 1]) {
            let mut out = String::new();
            let mut i: usize = 0;
            while i < n - 1
                invariant
                    i <= n - 1,
                    0 < n <= v@.len(),
                    out@ == v@.take(i as int),
                decreases n - i,
            {
                out.push(v[i]);
                assert(v@.take(i as int).push(v@[i as int]) =~= v@.take(i + 1));
                i += 1;
            }
            out.push(c);
            return Some(out);
        }
        n -= 1;
    }
    assert(s@.take(0) =~= Seq::empty());
    None
}

/// The bytes, read as a number with the most significant byte first, plus one:
/// an exclusive upper bound of the byte strings that begin with `b`. There is
/// none for bytes that are all 0xFF.
pub fn increment_bytes(b: &Vec<u8>) -> (r: Option<Vec<u8>>)
    ensures
        match (r, carried(b@)) {
            (Some(u), Some(v)) => u@ == v,
            (None, None) => true,
            _ => false,
        },
        r matches Some(u) ==> forall|t: Seq<u8>|
            #[trigger] b@.is_prefix_of(t) ==> !bytes_lt(t, b@) && bytes_lt(t, u@),
        r is None == (forall|i: int| 0 <= i < b@.len() ==> b@[i] == 255),
{
    proof {
        law_no_carry_only_full(b@);
        if carried(b@) is Some {
            assert forall|t: Seq<u8>| #[trigger] b@.is_prefix_of(t) implies !bytes_lt(t, b@)
                && bytes_lt(t, carried(b@)->0) by {
                law_bytes_prefix_range(b@, t);
            }
        }
    }
    let mut out = copy_bytes(b);
    let mut i: usize = out.len();
    let ghost n = out.len() as int;
    proof {
        assert(b@.take(n) =~= b@);
        assert(out@ =~= b@.take(n) + repeated(0, 0));
        if let Some(p) = carried(b@) {
            assert(p + repeated(0, 0) =~= p);
        }
    }
    while i > 0
        invariant
            i <= n,
            n == b@.len(),
            out@.len() == n,
            carried(b@) is Some ==> forall|t: Seq<u8>| #[trigger]
                b@.is_prefix_of(t) ==> !bytes_lt(t, b@) && bytes_lt(t, carried(b@)->0),
            carried(b@) is None == (forall|i: int| 0 <= i < b@.len() ==> b@[i] == 255),
            out@ == b@.take(i as int) + repeated(0, (n - i) as nat),
            match carried(b@.take(i as int)) {
                Some(p) => carried(b@) == Some(p + repeated(0, (n - i) as nat)),
                None => carried(b@) is None,
            },
        decreases i,
    {
        let ghost t = b@.take(i as int);
        i -= 1;
        assert(t.drop_last() =~= b@.take(i as int));
        assert(out@[i as int] == t.last());
        if out[i] < 255 {
            let x = out[i];
            out.set(i, x + 1);
            assert(out@ =~= t.drop_last().push((x + 1) as u8) + repeated(
                0,
                (n - i - 1) as nat,
            ));
            return Some(out);
        }
        out.set(i, 0);
        assert(out@ =~= b@.take(i as int) + repeated(0, (n - i) as nat));
        proof {
            if let Some(p) = carried(b@.take(i as int)) {
                assert(p.push(0) + repeated(0, (n - i - 1) as nat) =~= p + repeated(
                    0,
                    (n - i) as nat,
                ));
            }
        }
    }
    assert(b@.take(0) =~= Seq::empty());
    None
}

fn build_range(field: &str, low: Bson, upper_op: &str, high: Bson) -> (r: Document)
    ensures
        r@ == range_filter(field@, low@, upper_op@, high@),
{
    let range = Document::new().with("$gte", low).with(upper_op, high);
    Document::new().with(field, Bson::Document(range))
}

fn build_prefix(field: &str, low: Bson, high: Option<Bson>) -> (r: Document)
    ensures
        r@ == prefix_filter(
            field@,
            low@,
            match high {
                Some(h) => Some(h@),
                None => None,
            },
        ),
{
    match high {
        Some(h) => build_range(field, low, "$lt", h),
        None => Document::new().with(field, Bson::obj1("$gte", low)),
    }
}

/// Builds the filter of a sort key condition.
pub fn build_sk_filter(cond: &SortKeyCondition, field: &str, maps: &ExpressionMaps) -> (r: Result<
    Document,
    StorageError,
>)
    ensures
        res_doc(r) == sk_filter(*cond, field@, *maps),
{
    broadcast use lemma_av_view;

    match cond {
        SortKeyCondition::Compare { op, value } => match resolve_key_expr(value, maps) {
            Err(e) => Err(e),
            Ok(v) => match sk_to_bson(v, infer_sk_type_from_field(field)) {
                Err(e) => Err(e),
                Ok(b) => Ok(build_field_comparison(field, *op, b)),
            },
        },
        SortKeyCondition::Between { low, high } => {
            let l = match resolve_key_expr(low, maps) {
                Ok(v) => v,
                Err(e) => {
                    return Err(e);
                },
            };
            let h = match resolve_key_expr(high, maps) {
                Ok(v) => v,
                Err(e) => {
                    return Err(e);
                },
            };
            let lb = match sk_to_bson(l, infer_sk_type_from_field(field)) {
                Ok(v) => v,
                Err(e) => {
                    return Err(e);
                },
            };
            match sk_to_bson(h, infer_sk_type_from_field(field)) {
                Ok(hb) => Ok(build_range(field, lb, "$lte", hb)),
                Err(e) => Err(e),
            }
        },
        SortKeyCondition::BeginsWith { prefix } => match resolve_key_expr(prefix, maps) {
            Err(e) => Err(e),
            Ok(AttributeValue::S(p)) => {
                let upper = match increment_string(p.as_str()) {
                    Some(u) => Some(Bson::String(u)),
                    None => None,
                };
                Ok(build_prefix(field, Bson::String(p.clone()), upper))
            },
            Ok(AttributeValue::B(b)) => {
                let upper = match increment_bytes(b) {
                    Some(u) => Some(Bson::Binary(u)),
                    None => None,
                };
                Ok(build_prefix(field, Bson::Binary(copy_bytes(b)), upper))
            },
            Ok(_) => Err(
                StorageError::validation("begins_with requires string or binary sort key"),
            ),
        },
    }
}

// --- Laws --------------------------------------------------------------------------

proof fn lemma_greatest_char(c: char)
    ensures
        c <= '\u{10FFFF}',
{
}

proof fn lemma_next_char(c: char, d: char)
    requires
        next_char(c) is Some,
    ensures
        d < next_char(c)->0 <==> d <= c,
        c < next_char(c)->0,
{
}

/// A text that begins with another is not before it.
proof fn lemma_prefix_first(p: Seq<char>, s: Seq<char>)
    requires
        p.is_prefix_of(s),
    ensures
        !text_lt(s, p),
{
    let rest = s.skip(p.len() as int);
    assert(s =~= p + rest);
    assert(p =~= p + Seq::<char>::empty());
    lemma_lt_common(p, rest, Seq::empty());
}

/// The texts from a prefix on that are not behind the last character's next.
proof fn lemma_from_prefix(p: Seq<char>, s: Seq<char>)
    ensures
        !text_lt(s, p) ==> p.is_prefix_of(s) || (exists|k: int|
            #![trigger s[k]]
            0 <= k < p.len() && k < s.len() && p.take(k) == s.take(k) && p[k] < s[k]),
    decreases p.len(),
{
    if !text_lt(s, p) {
        if p.len() == 0 {
            assert(p =~= s.subrange(0, 0));
        } else if s.len() > 0 && s[0] == p[0] {
            lemma_from_prefix(p.skip(1), s.skip(1));
            if p.skip(1).is_prefix_of(s.skip(1)) {
                assert(p.skip(1) =~= s.skip(1).subrange(0, p.len() - 1));
                assert forall|i: int| 0 <= i < p.len() implies p[i] == s[i] by {
                    if i > 0 {
                        assert(p[i] == p.skip(1)[i - 1]);
                        assert(s[i] == s.skip(1).subrange(0, p.len() - 1)[i - 1]);
                    }
                }
                assert(p =~= s.subrange(0, p.len() as int));
            } else {
                let j = choose|j: int|
                    #![trigger s.skip(1)[j]]
                    0 <= j < p.skip(1).len() && j < s.skip(1).len() && p.skip(1).take(j)
                        == s.skip(1).take(j) && p.skip(1)[j] < s.skip(1)[j];
                let k = j + 1;
                assert forall|i: int| 0 <= i < k implies p.take(k)[i] == s.take(k)[i] by {
                    if i > 0 {
                        assert(p[i] == p.skip(1).take(j)[i - 1]);
                        assert(s[i] == s.skip(1).take(j)[i - 1]);
                    }
                }
                assert(p.take(k) =~= s.take(k));
                assert(p[k] < s[k]);
            }
        } else {
            assert(p.take(0) =~= s.take(0));
            assert(p[0] < s[0]);
        }
    }
}

/// The range that a text prefix is compiled to holds exactly the texts that
/// begin with the prefix.
pub proof fn law_text_prefix_range(p: Seq<char>, s: Seq<char>)
    ensures
        p.is_prefix_of(s) == (!text_lt(s, p) && (after_prefix(p) matches Some(u) ==> text_lt(
            s,
            u,
        ))),
    decreases p.len(),
{
    if p.len() == 0 {
        assert(p =~= s.subrange(0, 0));
    } else {
        let q = p.drop_last();
        assert(p =~= q + seq![p.last()]);
        if p.is_prefix_of(s) {
            lemma_prefix_first(p, s);
            assert(p =~= s.subrange(0, p.len() as int));
            assert(q =~= s.subrange(0, q.len() as int));
        }
        match next_char(p.last()) {
            None => {
                law_text_prefix_range(q, s);
                if !p.is_prefix_of(s) && !text_lt(s, p) {
                    lemma_from_prefix(p, s);
                    let k = choose|k: int|
                        #![trigger s[k]]
                        0 <= k < p.len() && k < s.len() && p.take(k) == s.take(k) && p[k] < s[k];
                    lemma_greatest_char(s[k]);
                    assert(q.take(k) =~= p.take(k));
                    if q.is_prefix_of(s) {
                        assert(q =~= s.subrange(0, q.len() as int));
                        assert(q[k] == s[k]);
                    }
                    lemma_behind(q, s, k);
                }
            },
            Some(c) => {
                let u = q.push(c);
                lemma_next_char(p.last(), p.last());
                if p.is_prefix_of(s) {
                    let rest = s.skip(q.len() as int);
                    assert(s =~= q + rest);
                    assert(u =~= q + seq![c]);
                    assert(rest[0] == p.last());
                    lemma_lt_common(q, rest, seq![c]);
                } else if !text_lt(s, p) {
                    lemma_from_prefix(p, s);
                    let k = choose|k: int|
                        #![trigger s[k]]
                        0 <= k < p.len() && k < s.len() && p.take(k) == s.take(k) && p[k] < s[k];
                    let a = s.skip(k);
                    let b = u.skip(k);
                    assert(s =~= s.take(k) + a);
                    assert(u =~= u.take(k) + b);
                    assert(u.take(k) =~= p.take(k));
                    lemma_lt_common(p.take(k), a, b);
                    if k == q.len() {
                        lemma_next_char(p.last(), s[k]);
                        assert(b =~= seq![c]);
                        assert(a[0] >= c);
                        assert(!text_lt(a.skip(1), b.skip(1)));
                    }
                }
            },
        }
    }
}

/// A text that is behind another at a character is not before it, nor, where
/// there is one, before its bound.
proof fn lemma_behind(q: Seq<char>, s: Seq<char>, k: int)
    requires
        0 <= k < q.len(),
        k < s.len(),
        q.take(k) == s.take(k),
        q[k] < s[k],
    ensures
        !text_lt(s, q),
{
    assert(s =~= s.take(k) + s.skip(k));
    assert(q =~= q.take(k) + q.skip(k));
    lemma_lt_common(q.take(k), s.skip(k), q.skip(k));
}

/// `a` stands before `b` in the lexicographic order of bytes.
pub open spec fn bytes_lt(a: Seq<u8>, b: Seq<u8>) -> bool
    decreases a.len(),
{
    if b.len() == 0 {
        false
    } else if a.len() == 0 {
        true
    } else if a[0] != b[0] {
        a[0] < b[0]
    } else {
        bytes_lt(a.skip(1), b.skip(1))
    }
}

/// Where `carried` adds: the bytes before, the byte that grows, and how many
/// bytes behind it fall to zero.
proof fn lemma_carry_position(b: Seq<u8>) -> (r: (Seq<u8>, u8, nat))
    requires
        carried(b) is Some,
    ensures
        r.1 < 255,
        b == r.0.push(r.1) + repeated(255, r.2),
        carried(b) == Some(r.0.push((r.1 + 1) as u8) + repeated(0, r.2)),
    decreases b.len(),
{
    if b.last() < 255 {
        let p = b.drop_last();
        assert(b =~= p.push(b.last()) + repeated(255, 0));
        assert(p.push((b.last() + 1) as u8) =~= p.push((b.last() + 1) as u8) + repeated(0, 0));
        (p, b.last(), 0)
    } else {
        let r = lemma_carry_position(b.drop_last());
        assert(b =~= b.drop_last().push(255));
        assert(repeated(255, r.2 + 1) =~= repeated(255, r.2).push(255));
        assert(b =~= r.0.push(r.1) + repeated(255, r.2 + 1));
        assert((r.0.push((r.1 + 1) as u8) + repeated(0, r.2)).push(0) =~= r.0.push(
            (r.1 + 1) as u8,
        ) + repeated(0, r.2 + 1));
        (r.0, r.1, r.2 + 1)
    }
}

/// A byte string that is not before `low` and is before `high`, where the two
/// differ first at the byte behind a common beginning, begins like them.
proof fn lemma_between(p: Seq<u8>, x: u8, k: nat, s: Seq<u8>)
    requires
        x < 255,
        s.len() >= p.len() + 1 + k,
        !bytes_lt(s, p.push(x) + repeated(255, k)),
        bytes_lt(s, p.push((x + 1) as u8) + repeated(0, k)),
    ensures
        s.take((p.len() + 1 + k) as int) == p.push(x) + repeated(255, k),
    decreases p.len(),
{
    let low = p.push(x) + repeated(255, k);
    let high = p.push((x + 1) as u8) + repeated(0, k);
    if p.len() > 0 {
        assert(low.skip(1) =~= p.skip(1).push(x) + repeated(255, k));
        assert(high.skip(1) =~= p.skip(1).push((x + 1) as u8) + repeated(0, k));
        assert(low[0] == p[0] && high[0] == p[0]);
        lemma_between(p.skip(1), x, k, s.skip(1));
        let n = p.len() + 1 + k;
        assert forall|i: int| 0 <= i < n implies s[i] == low[i] by {
            if i > 0 {
                assert(s.skip(1).take((n - 1) as int)[i - 1] == low.skip(1)[i - 1]);
            }
        }
        assert(s.take(n as int) =~= low);
    } else {
        assert(low[0] == x && high[0] == x + 1);
        assert(low.skip(1) =~= repeated(255, k));
        assert(high.skip(1) =~= repeated(0, k));
        if s[0] == x + 1 {
            lemma_not_before_zeros(s.skip(1), k);
        }
        assert(s[0] == x);
        lemma_not_before_full(s.skip(1), k);
        assert forall|i: int| 0 <= i < k + 1 implies s[i] == low[i] by {
            if i > 0 {
                assert(s.skip(1).take(k as int)[i - 1] == repeated(255, k)[i - 1]);
            }
        }
        assert(s.take((k + 1) as int) =~= low);
    }
}

proof fn lemma_not_before_zeros(s: Seq<u8>, k: nat)
    requires
        s.len() >= k,
    ensures
        !bytes_lt(s, repeated(0, k)),
    decreases k,
{
    if k > 0 {
        lemma_not_before_zeros(s.skip(1), (k - 1) as nat);
        assert(repeated(0, k).skip(1) =~= repeated(0, (k - 1) as nat));
    }
}

proof fn lemma_not_before_full(s: Seq<u8>, k: nat)
    requires
        s.len() >= k,
        !bytes_lt(s, repeated(255, k)),
    ensures
        s.take(k as int) == repeated(255, k),
    decreases k,
{
    if k > 0 {
        assert(repeated(255, k).skip(1) =~= repeated(255, (k - 1) as nat));
        assert(s[0] == 255);
        lemma_not_before_full(s.skip(1), (k - 1) as nat);
        assert forall|i: int| 0 <= i < k implies s[i] == 255 by {
            if i > 0 {
                assert(s.skip(1).take((k - 1) as int)[i - 1] == repeated(255, (k - 1) as nat)[i
                    - 1]);
            }
        }
        assert(s.take(k as int) =~= repeated(255, k));
    } else {
        assert(s.take(0) =~= repeated(255, 0));
    }
}

proof fn lemma_bytes_common(p: Seq<u8>, a: Seq<u8>, b: Seq<u8>)
    ensures
        bytes_lt(p + a, p + b) == bytes_lt(a, b),
    decreases p.len(),
{
    if p.len() == 0 {
        assert(p + a =~= a);
        assert(p + b =~= b);
    } else {
        lemma_bytes_common(p.skip(1), a, b);
        assert((p + a).skip(1) =~= p.skip(1) + a);
        assert((p + b).skip(1) =~= p.skip(1) + b);
    }
}

/// In the lexicographic order of bytes, every byte string that begins with a
/// prefix lies in the range that the prefix is compiled to, and of those at
/// least as long as the prefix no other does. A prefix of nothing but 0xFF
/// bytes has no such bound.
pub proof fn law_bytes_prefix_range(b: Seq<u8>, s: Seq<u8>)
    requires
        carried(b) is Some,
        s.len() >= b.len(),
    ensures
        (!bytes_lt(s, b) && bytes_lt(s, carried(b)->0)) <==> b.is_prefix_of(s),
{
    let r = lemma_carry_position(b);
    if b.is_prefix_of(s) {
        let rest = s.skip(b.len() as int);
        assert(s =~= b + rest);
        assert(b =~= b + Seq::<u8>::empty());
        lemma_bytes_common(b, rest, Seq::empty());
        let sx = s.skip(r.0.len() as int);
        let ix = carried(b)->0.skip(r.0.len() as int);
        assert(s =~= r.0 + sx);
        assert(carried(b)->0 =~= r.0 + ix);
        lemma_bytes_common(r.0, sx, ix);
        assert(sx[0] == r.1);
        assert(ix[0] == r.1 + 1);
    }
    if !bytes_lt(s, b) && bytes_lt(s, carried(b)->0) {
        lemma_between(r.0, r.1, r.2, s);
        assert(b =~= s.subrange(0, b.len() as int));
    }
}

/// The prefixes that the bound does not hold for are those of nothing but
/// 0xFF bytes.
pub proof fn law_no_carry_only_full(b: Seq<u8>)
    ensures
        carried(b) is None <==> (forall|i: int| 0 <= i < b.len() ==> b[i] == 255),
    decreases b.len(),
{
    if b.len() > 0 {
        law_no_carry_only_full(b.drop_last());
        if b.last() == 255 {
            if carried(b) is None {
                assert forall|i: int| 0 <= i < b.len() implies b[i] == 255 by {
                    if i < b.len() - 1 {
                        assert(b[i] == b.drop_last()[i]);
                    }
                }
            } else {
                let i = choose|i: int|
                    0 <= i < b.drop_last().len() && b.drop_last()[i] != 255;
                assert(b[i] != 255);
            }
        } else {
            assert(b[b.len() - 1] != 255);
        }
    }
}

} // verus!
