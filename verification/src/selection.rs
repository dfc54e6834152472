//! What conditions select: the filter of a condition matches the document of
//! an item just where the condition holds of the item.

use vstd::prelude::*;

use crate::bson::{doc1, lemma_doc1, obj1, BsonV, DocV};
use crate::condition::{
    av_bson, av_suffix, between_filter, comparison, escaped, exists_filter, expr_comparison,
    field_comparison, field_path, field_path_to, filter_of, function_filter, in_filter,
    in_values, is_special, lemma_escaped_front, list_holds, number_bson, op_name, regex_filter,
    reversed, set_holds,
};
use crate::encoding::base64_text;
use crate::error::ErrV;
use crate::expression::{CompareOp, Expr, ExpressionMaps, PathElement};
use crate::item::{lemma_item_get_at, lemma_item_get_index, AvV, ItemV};
use crate::item_json::{av_json, item_json, kind_of, lemma_tag, tag_of, text_values};
use crate::meaning::{
    asks, asks_all, compares, equals, fits_pattern, is_field, is_operators, is_part,
    lemma_element, lemma_field, lemma_is_part, lemma_no_clause, lemma_one_asked,
    lemma_one_clause, lemma_one_part, lemma_path_joined, lemma_two_asked, lemma_words,
    matches_filter, only_text, operand, value_at,
};
use crate::number::{i64_of_text, is_digit, lemma_nat_text, nat_text};
use crate::text::{ascii_lower_text, occurs_in};

verus! {

// --- What a condition says of an item ------------------------------------------------

/// A comparison holds of two values, in an order of values.
pub open spec fn op_holds(
    before: spec_fn(BsonV, BsonV) -> bool,
    op: CompareOp,
    l: BsonV,
    r: BsonV,
) -> bool {
    match op {
        CompareOp::Eq => l == r,
        CompareOp::Ne => l != r,
        CompareOp::Lt => before(l, r),
        CompareOp::Le => before(l, r) || l == r,
        CompareOp::Gt => before(r, l),
        CompareOp::Ge => before(r, l) || l == r,
    }
}

/// A value of one of the types that are compared.
pub open spec fn is_scalar(v: AvV) -> bool {
    v is S || v is N || v is B || v is Bool || v is Null
}

/// The attribute that a path begins with.
pub open spec fn attribute_name(e: PathElement, maps: ExpressionMaps) -> Option<Seq<char>> {
    match e {
        PathElement::Attribute(name) => if name@.len() > 0 && name@[0] == '#' {
            match maps.name_of(name@.skip(1)) {
                Ok(n) => Some(n),
                Err(_) => None,
            }
        } else {
            Some(name@)
        },
        PathElement::Index(_) => None,
    }
}

/// The value that the first `n` steps of a path lead to in an item.
pub open spec fn reached_to(
    item: ItemV,
    path: Seq<PathElement>,
    maps: ExpressionMaps,
    n: nat,
) -> Option<AvV>
    decreases n,
{
    if n == 0 {
        None
    } else if n == 1 {
        match attribute_name(path[0], maps) {
            Some(name) => item.get(name),
            None => None,
        }
    } else {
        match (reached_to(item, path, maps, (n - 1) as nat), path[n - 1]) {
            (Some(AvV::L(l)), PathElement::Index(i)) => if i < l.len() {
                Some(l[i as int])
            } else {
                None
            },
            _ => None,
        }
    }
}

/// The value that a path leads to in an item.
pub open spec fn reached(item: ItemV, path: Seq<PathElement>, maps: ExpressionMaps) -> Option<AvV> {
    reached_to(item, path, maps, path.len())
}

/// A path names an attribute without dots in its name, and goes on through
/// lists.
pub open spec fn is_simple(path: Seq<PathElement>, maps: ExpressionMaps) -> bool {
    &&& path.len() > 0
    &&& attribute_name(path[0], maps) matches Some(name) && is_part(name)
    &&& forall|i: int| 0 < i < path.len() ==> (#[trigger] path[i]) is Index
}

/// What is stored of a value, under its type.
pub open spec fn content(v: AvV) -> BsonV {
    match v {
        AvV::S(s) => BsonV::Str(s),
        AvV::N(n) => BsonV::Str(n),
        AvV::B(b) => BsonV::Str(base64_text(b)),
        AvV::Bool(b) => BsonV::Boolean(b),
        AvV::Null => BsonV::Boolean(true),
        _ => av_json(v)->Doc_0.entries[0].1,
    }
}

/// What a given value is compared as.
pub open spec fn given(v: AvV) -> BsonV {
    match v {
        AvV::S(s) => BsonV::Str(s),
        AvV::N(n) => number_bson(n),
        AvV::B(b) => BsonV::Binary(b),
        AvV::Bool(b) => BsonV::Boolean(b),
        _ => BsonV::Boolean(true),
    }
}

/// A value that is there has the type of a given value, and a comparison holds
/// of the two. A value that is not there, or has another type, differs from
/// every given value, and no other comparison holds of it.
pub open spec fn value_compares(
    before: spec_fn(BsonV, BsonV) -> bool,
    x: Option<AvV>,
    op: CompareOp,
    v: AvV,
) -> bool {
    match x {
        Some(w) => if kind_of(w) == kind_of(v) {
            op_holds(before, op, content(w), given(v))
        } else {
            op == CompareOp::Ne
        },
        None => op == CompareOp::Ne,
    }
}

/// A comparison of a given value with one that may be there.
pub open spec fn given_compares(
    before: spec_fn(BsonV, BsonV) -> bool,
    v: AvV,
    op: CompareOp,
    x: Option<AvV>,
) -> bool {
    match x {
        Some(w) => if kind_of(w) == kind_of(v) {
            op_holds(before, op, given(v), content(w))
        } else {
            op == CompareOp::Ne
        },
        None => op == CompareOp::Ne,
    }
}

/// A value contains another: a text as a part, a set as a member, a list as an
/// element.
pub open spec fn value_contains(x: Option<AvV>, v: AvV) -> bool {
    match (x, v) {
        (Some(AvV::S(t)), AvV::S(p)) => occurs_in(t, p),
        (Some(AvV::NS(s)), AvV::N(n)) => s.contains(n),
        (Some(AvV::L(l)), AvV::S(_)) => false,
        (Some(AvV::L(l)), _) => l.contains(v),
        _ => false,
    }
}

/// The value that an expression gives.
pub open spec fn given_by(e: Expr, maps: ExpressionMaps) -> Option<AvV> {
    match e {
        Expr::Placeholder(name) => match maps.value_of(name@) {
            Ok(v) => Some(v),
            Err(_) => None,
        },
        _ => None,
    }
}

/// The value that an expression leads to in an item.
pub open spec fn found_by(e: Expr, maps: ExpressionMaps, item: ItemV) -> Option<AvV> {
    match e {
        Expr::Path(path) => reached(item, path@, maps),
        _ => None,
    }
}

/// A condition holds of an item.
pub open spec fn holds_of(
    before: spec_fn(BsonV, BsonV) -> bool,
    e: Expr,
    maps: ExpressionMaps,
    item: ItemV,
) -> bool
    decreases e,
{
    match e {
        Expr::And(l, r) => holds_of(before, *l, maps, item) && holds_of(before, *r, maps, item),
        Expr::Or(l, r) => holds_of(before, *l, maps, item) || holds_of(before, *r, maps, item),
        Expr::Not(x) => !holds_of(before, *x, maps, item),
        Expr::Compare { left, op, right } => match (*left, *right) {
            (Expr::Path(p), Expr::Placeholder(_)) => value_compares(
                before,
                reached(item, p@, maps),
                op,
                given_by(*right, maps)->0,
            ),
            (Expr::Placeholder(_), Expr::Path(p)) => given_compares(
                before,
                given_by(*left, maps)->0,
                op,
                reached(item, p@, maps),
            ),
            (Expr::Path(p), Expr::Path(q)) => match (
                reached(item, p@, maps),
                reached(item, q@, maps),
            ) {
                (Some(x), Some(y)) => op_holds(before, op, av_json(x), av_json(y)),
                _ => false,
            },
            (Expr::Function { name, args }, Expr::Placeholder(_)) => match found_by(
                args@[0],
                maps,
                item,
            ) {
                Some(AvV::L(l)) => l.len() <= i64::MAX && op_holds(
                    before,
                    op,
                    BsonV::Int64(l.len() as i64),
                    given(given_by(*right, maps)->0),
                ),
                _ => false,
            },
            _ => false,
        },
        Expr::Function { name, args } => {
            let x = found_by(args@[0], maps, item);
            let word = ascii_lower_text(name@);
            if word == "attribute_exists"@ {
                x is Some
            } else if word == "attribute_not_exists"@ {
                x is None
            } else if word == "begins_with"@ {
                match (x, given_by(args@[1], maps)) {
                    (Some(AvV::S(t)), Some(AvV::S(p))) => p.is_prefix_of(t),
                    _ => false,
                }
            } else if word == "contains"@ {
                value_contains(x, given_by(args@[1], maps)->0)
            } else {
                match (x, given_by(args@[1], maps)) {
                    (Some(w), Some(AvV::S(t))) => tag_of(t) == Some(kind_of(w)),
                    _ => false,
                }
            }
        },
        Expr::Between { operand, low, high } => match (
            found_by(*operand, maps, item),
            given_by(*low, maps),
            given_by(*high, maps),
        ) {
            (Some(w), Some(l), Some(h)) => kind_of(w) == kind_of(l) && op_holds(
                before,
                CompareOp::Le,
                given(l),
                content(w),
            ) && op_holds(before, CompareOp::Le, content(w), given(h)),
            _ => false,
        },
        Expr::In { operand, list } => match found_by(*operand, maps, item) {
            Some(w) => exists|i: int|
                0 <= i < list@.len() && kind_of(w) == kind_of(given_by(#[trigger] list@[i], maps)->0)
                    && content(w) == given(given_by(list@[i], maps)->0),
            None => false,
        },
        _ => false,
    }
}

/// An expression is a simple path.
pub open spec fn is_simple_path(e: Expr, maps: ExpressionMaps) -> bool {
    e matches Expr::Path(path) && is_simple(path@, maps)
}

/// An expression gives a value that can be compared.
pub open spec fn gives_scalar(e: Expr, maps: ExpressionMaps) -> bool {
    given_by(e, maps) matches Some(v) && is_scalar(v)
}

/// The conditions between simple paths and given values: comparisons,
/// functions, ranges and lists of values of one type, and what they are
/// combined to.
pub open spec fn is_covered(e: Expr, maps: ExpressionMaps) -> bool
    decreases e,
{
    match e {
        Expr::And(l, r) => is_covered(*l, maps) && is_covered(*r, maps),
        Expr::Or(l, r) => is_covered(*l, maps) && is_covered(*r, maps),
        Expr::Not(x) => is_covered(*x, maps),
        Expr::Compare { left, op, right } => {
            ||| is_simple_path(*left, maps) && gives_scalar(*right, maps)
            ||| gives_scalar(*left, maps) && is_simple_path(*right, maps)
            ||| is_simple_path(*left, maps) && is_simple_path(*right, maps)
            ||| {
                &&& *left matches Expr::Function { name, args }
                &&& ascii_lower_text(name@) == "size"@
                &&& args@.len() == 1
                &&& is_simple_path(args@[0], maps)
                &&& given_by(*right, maps) matches Some(AvV::N(n)) && i64_of_text(n) is Some
            }
        },
        Expr::Function { name, args } => {
            let word = ascii_lower_text(name@);
            if word == "attribute_exists"@ || word == "attribute_not_exists"@ {
                args@.len() == 1 && is_simple_path(args@[0], maps)
            } else if word == "begins_with"@ || word == "attribute_type"@ {
                args@.len() == 2 && is_simple_path(args@[0], maps) && (given_by(
                    args@[1],
                    maps,
                ) matches Some(AvV::S(t)) && is_part(t))
            } else {
                word == "contains"@ && args@.len() == 2 && is_simple_path(args@[0], maps) && (
                given_by(args@[1], maps) matches Some(v) && (v is S || v is N || v is Bool
                    || v is Null))
            }
        },
        Expr::Between { operand, low, high } => is_simple_path(*operand, maps) && gives_scalar(
            *low,
            maps,
        ) && gives_scalar(*high, maps),
        Expr::In { operand, list } => is_simple_path(*operand, maps) && forall|i: int|
            0 <= i < list@.len() ==> gives_scalar(#[trigger] list@[i], maps) && kind_of(
                given_by(list@[i], maps)->0,
            ) == kind_of(given_by(list@[0], maps)->0),
        _ => false,
    }
}

// --- Where values are stored ---------------------------------------------------------

/// A document holds an item.
pub open spec fn holds_item(d: DocV, item: ItemV) -> bool {
    item.wf() && d.get("item_data"@) == Some(BsonV::Doc(item_json(item)))
}

/// What stands under a name in the stored form of an item.
pub proof fn lemma_item_json_get(item: ItemV, k: Seq<char>)
    requires
        item.wf(),
    ensures
        item_json(item).get(k) == (match item.get(k) {
            Some(v) => Some(av_json(v)),
            None => None,
        }),
{
    let d = item_json(item);
    reveal(DocV::get);
    crate::bson::lemma_key_from(d.entries, k, 0);
    let i = crate::bson::key_from(d.entries, k, 0);
    if i < d.entries.len() {
        assert(d.entries[i].0 == item.entries[i].0);
        lemma_item_get_at(item, i);
    } else if item.get(k) is Some {
        let j = lemma_item_get_index(item, k);
        assert(d.entries[j].0 == k);
    }
}

/// The type tags are all different.
proof fn lemma_tags()
    ensures
        is_part("S"@),
        is_part("N"@),
        is_part("B"@),
        is_part("BOOL"@),
        is_part("NULL"@),
        is_part("L"@),
        is_part("M"@),
        is_part("SS"@),
        is_part("NS"@),
        is_part("BS"@),
        forall|a: Seq<char>, b: Seq<char>|
            #![trigger tag_of(a), tag_of(b)]
            tag_of(a) is Some && tag_of(a) == tag_of(b) ==> a == b,
{
    reveal_strlit("S");
    reveal_strlit("N");
    reveal_strlit("B");
    reveal_strlit("BOOL");
    reveal_strlit("NULL");
    reveal_strlit("L");
    reveal_strlit("M");
    reveal_strlit("SS");
    reveal_strlit("NS");
    reveal_strlit("BS");
    lemma_is_part("S"@);
    lemma_is_part("N"@);
    lemma_is_part("B"@);
    lemma_is_part("BOOL"@);
    lemma_is_part("NULL"@);
    lemma_is_part("L"@);
    lemma_is_part("M"@);
    lemma_is_part("SS"@);
    lemma_is_part("NS"@);
    lemma_is_part("BS"@);
}

/// What stands in a stored value under a type tag: its content under its own.
/// What stands in the stored form of a value under a tag.
pub proof fn lemma_stored_under(v: AvV, tag: Seq<char>)
    requires
        is_part(tag),
    ensures
        value_at(av_json(v), tag) == (if tag_of(tag) == Some(kind_of(v)) {
            Some(content(v))
        } else {
            None
        }),
{
    lemma_tag(v);
    lemma_tags();
    lemma_one_part(av_json(v), tag);
    let d = av_json(v)->Doc_0;
    reveal(DocV::get);
    reveal_with_fuel(crate::bson::key_from, 3);
    assert(d.entries.len() == 1);
    assert(d.entries[0].0 == av_suffix(v));
    assert(d.entries[0].1 == content(v));
}

/// A simple path is compiled to a field that leads to the stored form of the
/// value that it leads to.
proof fn lemma_reached(
    item: ItemV,
    path: Seq<PathElement>,
    maps: ExpressionMaps,
    n: nat,
    d: DocV,
)
    requires
        is_simple(path, maps),
        1 <= n <= path.len(),
        holds_item(d, item),
    ensures
        field_path_to(path, maps, n) is Ok,
        is_field(field_path_to(path, maps, n)->Ok_0),
        value_at(BsonV::Doc(d), field_path_to(path, maps, n)->Ok_0) == (match reached_to(
            item,
            path,
            maps,
            n,
        ) {
            Some(v) => Some(av_json(v)),
            None => None,
        }),
    decreases n,
{
    reveal_strlit("item_data");
    reveal_strlit(".");
    reveal_strlit(".L.");
    reveal_strlit("L");
    let whole = BsonV::Doc(d);
    if n == 1 {
        reveal_with_fuel(field_path_to, 2);
        let name = attribute_name(path[0], maps)->0;
        let f = "item_data"@ + "."@ + name;
        assert(field_path_to(path, maps, 1) == Ok::<Seq<char>, ErrV>(f));
        assert(f[0] == 'i');
        lemma_is_part("item_data"@);
        lemma_one_part(whole, "item_data"@);
        lemma_path_joined(whole, "item_data"@, name);
        let stored = BsonV::Doc(item_json(item));
        lemma_one_part(stored, name);
        lemma_item_json_get(item, name);
    } else {
        let m = (n - 1) as nat;
        lemma_reached(item, path, maps, m, d);
        assert(path[n - 1] is Index);
        let p = field_path_to(path, maps, m)->Ok_0;
        let i = path[n - 1]->Index_0;
        let f = p + ".L."@ + nat_text(i as nat);
        assert(field_path_to(path, maps, n) == Ok::<Seq<char>, ErrV>(f));
        assert(f[0] == p[0]);
        assert(f =~= p + "."@ + "L"@ + "."@ + nat_text(i as nat));
        lemma_path_joined(whole, p + "."@ + "L"@, nat_text(i as nat));
        lemma_path_joined(whole, p, "L"@);
        match reached_to(item, path, maps, m) {
            Some(v) => {
                lemma_tags();
                lemma_tag(v);
                lemma_tag(AvV::L(Seq::empty()));
                lemma_stored_under(v, "L"@);
                if let AvV::L(l) = v {
                    lemma_element(content(v)->Array_0, i as nat);
                }
            },
            None => {},
        }
    }
}

/// The field of a type of a simple path leads to the content of the value,
/// where it has that type.
proof fn lemma_typed_field(
    item: ItemV,
    path: Seq<PathElement>,
    maps: ExpressionMaps,
    tag: Seq<char>,
    d: DocV,
)
    requires
        is_simple(path, maps),
        holds_item(d, item),
        is_part(tag),
    ensures
        field_path(path, maps) is Ok,
        ({
            let f = field_path(path, maps)->Ok_0 + "."@ + tag;
            &&& is_field(f)
            &&& value_at(BsonV::Doc(d), f) == (match reached(item, path, maps) {
                Some(w) => if tag_of(tag) == Some(kind_of(w)) {
                    Some(content(w))
                } else {
                    None
                },
                None => None,
            })
        }),
{
    lemma_reached(item, path, maps, path.len(), d);
    let p = field_path(path, maps)->Ok_0;
    let f = p + "."@ + tag;
    assert(f[0] == p[0]);
    lemma_path_joined(BsonV::Doc(d), p, tag);
    if let Some(w) = reached(item, path, maps) {
        lemma_stored_under(w, tag);
    }
}

// --- Comparisons ---------------------------------------------------------------------

/// A value that is no list is compared as itself.
proof fn lemma_operator(
    before: spec_fn(BsonV, BsonV) -> bool,
    op: CompareOp,
    v: BsonV,
    x: Option<BsonV>,
)
    requires
        x matches Some(y) ==> !(y is Array),
        !(v is Null),
    ensures
        asks(before, op_name(op), v, x) == (match x {
            Some(y) => op_holds(before, op, y, v),
            None => op == CompareOp::Ne,
        }),
        op_name(op).len() > 0 && op_name(op)[0] == '$',
{
    lemma_words();
    reveal_strlit("$eq");
    reveal_strlit("$ne");
    reveal_strlit("$gt");
    reveal_strlit("$gte");
    reveal_strlit("$lt");
    reveal_strlit("$lte");
}

/// The filter that compares a field with a value matches just where the
/// comparison holds of what the field leads to, for each of the operators.
pub proof fn law_field_comparison(
    before: spec_fn(BsonV, BsonV) -> bool,
    field: Seq<char>,
    op: CompareOp,
    v: BsonV,
    d: DocV,
)
    requires
        is_field(field),
        !is_operators(v),
        !(v is Null),
        value_at(BsonV::Doc(d), field) matches Some(y) ==> !(y is Array),
    ensures
        matches_filter(before, field_comparison(field, op, v), d) == (match value_at(
            BsonV::Doc(d),
            field,
        ) {
            Some(y) => op_holds(before, op, y, v),
            None => op == CompareOp::Ne,
        }),
{
    lemma_field(field);
    let x = value_at(BsonV::Doc(d), field);
    lemma_operator(before, op, v, x);
    lemma_one_clause(before, field, v, d);
    let o = doc1(op_name(op), v);
    lemma_doc1(op_name(op), v);
    lemma_one_clause(before, field, obj1(op_name(op), v), d);
    lemma_one_asked(before, op_name(op), v, x);
}

proof fn lemma_given(v: AvV)
    requires
        is_scalar(v),
    ensures
        av_bson(v) == given(v),
        !is_operators(given(v)),
        !(given(v) is Null),
        !(content(v) is Array),
        tag_of(av_suffix(v)) == Some(kind_of(v)),
        is_part(av_suffix(v)),
{
    lemma_tag(v);
    lemma_tags();
}

proof fn lemma_kind_scalar(v: AvV, w: AvV)
    requires
        is_scalar(v),
        kind_of(v) == kind_of(w),
    ensures
        is_scalar(w),
{
}

/// A comparison of a path with a value that is given selects the items of
/// which it holds.
proof fn lemma_compare(
    before: spec_fn(BsonV, BsonV) -> bool,
    path: Seq<PathElement>,
    op: CompareOp,
    v: AvV,
    maps: ExpressionMaps,
    item: ItemV,
    d: DocV,
)
    requires
        is_simple(path, maps),
        is_scalar(v),
        holds_item(d, item),
    ensures
        field_path(path, maps) is Ok,
        matches_filter(
            before,
            field_comparison(
                field_path(path, maps)->Ok_0 + "."@ + av_suffix(v),
                op,
                av_bson(v),
            ),
            d,
        ) == value_compares(before, reached(item, path, maps), op, v),
{
    lemma_given(v);
    lemma_typed_field(item, path, maps, av_suffix(v), d);
    let f = field_path(path, maps)->Ok_0 + "."@ + av_suffix(v);
    if let Some(w) = reached(item, path, maps) {
        if kind_of(w) == kind_of(v) {
            lemma_kind_scalar(v, w);
            lemma_given(w);
        }
    }
    law_field_comparison(before, f, op, av_bson(v), d);
}

/// An operator and the one that it is turned round to hold of the same values.
pub proof fn law_reversed_holds(
    before: spec_fn(BsonV, BsonV) -> bool,
    op: CompareOp,
    l: BsonV,
    r: BsonV,
)
    ensures
        op_holds(before, reversed(op), r, l) == op_holds(before, op, l, r),
{
}

/// The filter of a comparison of two operands matches just where both are
/// there and the comparison holds of them.
proof fn lemma_computed(
    before: spec_fn(BsonV, BsonV) -> bool,
    op: CompareOp,
    l: BsonV,
    r: BsonV,
    d: DocV,
)
    ensures
        matches_filter(before, expr_comparison(op, l, r), d) == (match (operand(l, d), operand(r, d)) {
            (Some(x), Some(y)) => op_holds(before, op, x, y),
            _ => false,
        }),
{
    lemma_words();
    let e = doc1(op_name(op), BsonV::Array(seq![l, r]));
    lemma_doc1(op_name(op), BsonV::Array(seq![l, r]));
    assert(e.entries[0] == (op_name(op), BsonV::Array(seq![l, r])));
    lemma_one_clause(before, "$expr"@, BsonV::Doc(e), d);
    let a = seq![l, r];
    assert(a[0] == l && a[1] == r);
}

// --- Patterns ------------------------------------------------------------------------

/// An escaped text stands for that text alone.
pub proof fn law_escaped_stands_for_text(s: Seq<char>)
    ensures
        only_text(escaped(s)) == Some(s),
        escaped(s).len() == 0 || escaped(s)[0] != '^',
    decreases s.len(),
{
    if s.len() > 0 {
        lemma_escaped_front(s);
        law_escaped_stands_for_text(s.skip(1));
        let e = escaped(s);
        if is_special(s[0]) {
            assert(e.skip(2) =~= escaped(s.skip(1)));
            assert(e[0] == '\\' && e[1] == s[0]);
        } else {
            assert(e.skip(1) =~= escaped(s.skip(1)));
            assert(e[0] == s[0]);
        }
        assert(s =~= seq![s[0]] + s.skip(1));
    } else {
        assert(s =~= Seq::empty());
    }
}

proof fn lemma_regex(
    before: spec_fn(BsonV, BsonV) -> bool,
    field: Seq<char>,
    r: Seq<char>,
    d: DocV,
)
    requires
        is_field(field),
        value_at(BsonV::Doc(d), field) matches Some(y) ==> y is Str,
    ensures
        matches_filter(before, regex_filter(field, r), d) == (match value_at(
            BsonV::Doc(d),
            field,
        ) {
            Some(BsonV::Str(t)) => fits_pattern(r, t),
            _ => false,
        }),
{
    lemma_words();
    reveal_strlit("$regex");
    lemma_field(field);
    let x = value_at(BsonV::Doc(d), field);
    lemma_doc1("$regex"@, BsonV::Str(r));
    lemma_one_clause(before, field, obj1("$regex"@, BsonV::Str(r)), d);
    lemma_one_asked(before, "$regex"@, BsonV::Str(r), x);
}

proof fn lemma_present(
    before: spec_fn(BsonV, BsonV) -> bool,
    field: Seq<char>,
    present: bool,
    d: DocV,
)
    requires
        is_field(field),
    ensures
        matches_filter(before, exists_filter(field, present), d) == (value_at(
            BsonV::Doc(d),
            field,
        ) is Some == present),
{
    lemma_words();
    reveal_strlit("$exists");
    lemma_field(field);
    let x = value_at(BsonV::Doc(d), field);
    lemma_doc1("$exists"@, BsonV::Boolean(present));
    lemma_one_clause(before, field, obj1("$exists"@, BsonV::Boolean(present)), d);
    lemma_one_asked(before, "$exists"@, BsonV::Boolean(present), x);
}

// --- Connectives ---------------------------------------------------------------------

proof fn lemma_connected(before: spec_fn(BsonV, BsonV) -> bool, a: DocV, b: DocV, d: DocV)
    ensures
        matches_filter(
            before,
            doc1("$and"@, BsonV::Array(seq![BsonV::Doc(a), BsonV::Doc(b)])),
            d,
        ) == (matches_filter(before, a, d) && matches_filter(before, b, d)),
        matches_filter(
            before,
            doc1("$or"@, BsonV::Array(seq![BsonV::Doc(a), BsonV::Doc(b)])),
            d,
        ) == (matches_filter(before, a, d) || matches_filter(before, b, d)),
        matches_filter(before, doc1("$nor"@, BsonV::Array(seq![BsonV::Doc(a)])), d)
            == !matches_filter(before, a, d),
{
    lemma_words();
    let two = seq![BsonV::Doc(a), BsonV::Doc(b)];
    let one = seq![BsonV::Doc(a)];
    lemma_one_clause(before, "$and"@, BsonV::Array(two), d);
    lemma_one_clause(before, "$or"@, BsonV::Array(two), d);
    lemma_one_clause(before, "$nor"@, BsonV::Array(one), d);
    assert(two[0] == BsonV::Doc(a) && two[1] == BsonV::Doc(b) && one[0] == BsonV::Doc(a));
}

// --- Membership ----------------------------------------------------------------------

proof fn lemma_contains_member(
    before: spec_fn(BsonV, BsonV) -> bool,
    path: Seq<PathElement>,
    v: AvV,
    maps: ExpressionMaps,
    item: ItemV,
    d: DocV,
)
    requires
        is_simple(path, maps),
        holds_item(d, item),
        v is N || v is Bool || v is Null,
    ensures
        field_path(path, maps) is Ok,
        matches_filter(before, list_holds(field_path(path, maps)->Ok_0, v), d) == (reached(
            item,
            path,
            maps,
        ) matches Some(AvV::L(l)) && l.contains(v)),
        v matches AvV::N(n) ==> matches_filter(
            before,
            set_holds(field_path(path, maps)->Ok_0 + ".NS"@, n),
            d,
        ) == (reached(item, path, maps) matches Some(AvV::NS(s)) && s.contains(n)),
{
    lemma_words();
    lemma_tags();
    reveal_strlit(".L");
    reveal_strlit(".NS");
    reveal_strlit(".");
    reveal_strlit("L");
    reveal_strlit("NS");
    reveal_strlit("$elemMatch");
    reveal_strlit("$in");
    reveal_strlit("$eq");
    let none = AvV::L(Seq::empty());
    let set = AvV::NS(Seq::empty());
    lemma_tag(none);
    lemma_tag(set);
    lemma_typed_field(item, path, maps, "L"@, d);
    lemma_typed_field(item, path, maps, "NS"@, d);
    let p = field_path(path, maps)->Ok_0;
    let fl = p + ".L"@;
    let fs = p + ".NS"@;
    assert(fl =~= p + "."@ + "L"@);
    assert(fs =~= p + "."@ + "NS"@);
    lemma_field(fl);
    lemma_field(fs);
    let whole = BsonV::Doc(d);
    let x = value_at(whole, fl);
    let eq = doc1("$eq"@, av_json(v));
    lemma_doc1("$elemMatch"@, BsonV::Doc(eq));
    lemma_one_clause(before, fl, obj1("$elemMatch"@, BsonV::Doc(eq)), d);
    lemma_one_asked(before, "$elemMatch"@, BsonV::Doc(eq), x);
    match reached(item, path, maps) {
        Some(AvV::L(l)) => {
            let a = content(AvV::L(l))->Array_0;
            assert(x == Some(BsonV::Array(a)));
            assert forall|i: int| 0 <= i < a.len() implies asks_all(
                before,
                eq,
                Some(#[trigger] a[i]),
            ) == (l[i] == v) by {
                lemma_one_asked(before, "$eq"@, av_json(v), Some(a[i]));
                assert(a[i] == av_json(l[i]));
                lemma_same_stored(l[i], v);
            }
            if l.contains(v) {
                let i = choose|i: int| 0 <= i < l.len() && l[i] == v;
                assert(asks_all(before, eq, Some(a[i])));
            }
        },
        Some(w) => {
            assert(x is None);
        },
        None => {},
    }
    if let AvV::N(n) = v {
        let y = value_at(whole, fs);
        let list = BsonV::Array(seq![BsonV::Str(n)]);
        lemma_doc1("$in"@, list);
        lemma_one_clause(before, fs, obj1("$in"@, list), d);
        lemma_one_asked(before, "$in"@, list, y);
        assert(list->Array_0[0] == BsonV::Str(n));
        match reached(item, path, maps) {
            Some(AvV::NS(s)) => {
                let a = content(AvV::NS(s))->Array_0;
                assert(a == text_values(s));
                assert(y == Some(BsonV::Array(a)));
                if s.contains(n) {
                    let i = choose|i: int| 0 <= i < s.len() && s[i] == n;
                    assert(a[i] == BsonV::Str(n));
                }
            },
            Some(w) => {
                assert(y is None);
            },
            None => {},
        }
    }
}

/// A number, a truth value and the null value have stored forms of their own.
proof fn lemma_same_stored(w: AvV, v: AvV)
    requires
        v is N || v is Bool || v is Null,
    ensures
        av_json(w) == av_json(v) <==> w == v,
{
    lemma_tag(v);
    lemma_tag(w);
    lemma_tags();
    if av_json(w) == av_json(v) {
        assert(av_json(w)->Doc_0.entries[0] == av_json(v)->Doc_0.entries[0]);
        assert(av_json(w)->Doc_0.entries[0].0 == av_suffix(w));
        assert(av_json(v)->Doc_0.entries[0].0 == av_suffix(v));
        assert(kind_of(w) == kind_of(v));
        assert(av_json(w)->Doc_0.entries[0].1 == content(w));
    }
}

// --- Laws ----------------------------------------------------------------------------

proof fn lemma_select_compare(
    before: spec_fn(BsonV, BsonV) -> bool,
    left: Box<Expr>,
    op: CompareOp,
    right: Box<Expr>,
    maps: ExpressionMaps,
    item: ItemV,
    d: DocV,
)
    requires
        is_covered(Expr::Compare { left, op, right }, maps),
        holds_item(d, item),
    ensures
        comparison(*left, op, *right, maps) matches Ok(f) && (matches_filter(before, f, d)
            == holds_of(before, Expr::Compare { left, op, right }, maps, item)),
{
    let e = Expr::Compare { left, op, right };
    reveal_strlit("$");
    reveal_strlit(".L");
    reveal_strlit(".");
    reveal_strlit("L");
    match (*left, *right) {
        (Expr::Path(p), Expr::Placeholder(_)) => {
            lemma_compare(before, p@, op, given_by(*right, maps)->0, maps, item, d);
        },
        (Expr::Placeholder(_), Expr::Path(p)) => {
            let v = given_by(*left, maps)->0;
            lemma_compare(before, p@, reversed(op), v, maps, item, d);
            if let Some(w) = reached(item, p@, maps) {
                law_reversed_holds(before, op, given(v), content(w));
            }
        },
        (Expr::Path(p), Expr::Path(q)) => {
            lemma_reached(item, p@, maps, p@.len(), d);
            lemma_reached(item, q@, maps, q@.len(), d);
            let f = field_path(p@, maps)->Ok_0;
            let g = field_path(q@, maps)->Ok_0;
            assert(("$"@ + f).skip(1) =~= f);
            assert(("$"@ + g).skip(1) =~= g);
            lemma_computed(before, op, BsonV::Str("$"@ + f), BsonV::Str("$"@ + g), d);
        },
        (Expr::Function { name, args }, Expr::Placeholder(_)) => {
            let p = args@[0]->Path_0@;
            let v = given_by(*right, maps)->0;
            lemma_given(v);
            lemma_tags();
            lemma_tag(AvV::L(Seq::empty()));
            lemma_typed_field(item, p, maps, "L"@, d);
            let f = field_path(p, maps)->Ok_0;
            assert(f + ".L"@ =~= f + "."@ + "L"@);
            assert(("$"@ + f + ".L"@).skip(1) =~= f + ".L"@);
            let size = BsonV::Str("$"@ + f + ".L"@);
            lemma_one_field("$size"@, size);
            lemma_computed(before, op, obj1("$size"@, size), av_bson(v), d);
        },
        _ => {},
    }
}

proof fn lemma_one_field(k: Seq<char>, v: BsonV)
    ensures
        doc1(k, v).get(k) == Some(v),
{
    broadcast use crate::bson::group_document_fields;

}

proof fn lemma_select_function(
    before: spec_fn(BsonV, BsonV) -> bool,
    name: String,
    args: Vec<Expr>,
    maps: ExpressionMaps,
    item: ItemV,
    d: DocV,
)
    requires
        is_covered(Expr::Function { name, args }, maps),
        holds_item(d, item),
    ensures
        function_filter(name@, args@, maps) matches Ok(f) && (matches_filter(before, f, d)
            == holds_of(before, Expr::Function { name, args }, maps, item)),
{
    let word = ascii_lower_text(name@);
    let path = args@[0]->Path_0@;
    let x = reached(item, path, maps);
    reveal_strlit("attribute_exists");
    reveal_strlit("attribute_not_exists");
    reveal_strlit("begins_with");
    reveal_strlit("contains");
    reveal_strlit("attribute_type");
    assert("attribute_exists"@.len() == 16 && "attribute_not_exists"@.len() == 20);
    assert("begins_with"@.len() == 11 && "contains"@.len() == 8 && "attribute_type"@.len() == 14);
    lemma_tags();
    lemma_tag(AvV::S(Seq::empty()));
    lemma_reached(item, path, maps, path.len(), d);
    let f = field_path(path, maps)->Ok_0;
    if word == "attribute_exists"@ {
        lemma_present(before, f, true, d);
    } else if word == "attribute_not_exists"@ {
        lemma_present(before, f, false, d);
    } else if word == "attribute_type"@ {
        let t = given_by(args@[1], maps)->0->S_0;
        lemma_typed_field(item, path, maps, t, d);
        lemma_present(before, f + "."@ + t, true, d);
    } else {
        let v = given_by(args@[1], maps)->0;
        reveal_strlit(".S");
        reveal_strlit(".");
        reveal_strlit("S");
        reveal_strlit("^");
        assert(f + ".S"@ =~= f + "."@ + "S"@);
        lemma_typed_field(item, path, maps, "S"@, d);
        match v {
            AvV::S(p) => {
                law_escaped_stands_for_text(p);
                let r = if word == "begins_with"@ {
                    "^"@ + escaped(p)
                } else {
                    escaped(p)
                };
                assert(("^"@ + escaped(p)).skip(1) =~= escaped(p));
                lemma_regex(before, f + ".S"@, r, d);
            },
            _ => {
                lemma_contains_member(before, path, v, maps, item, d);
                if let AvV::N(n) = v {
                    lemma_connected(before, set_holds(f + ".NS"@, n), list_holds(f, v), d);
                }
            },
        }
    }
}

proof fn lemma_select_between(
    before: spec_fn(BsonV, BsonV) -> bool,
    operand: Box<Expr>,
    low: Box<Expr>,
    high: Box<Expr>,
    maps: ExpressionMaps,
    item: ItemV,
    d: DocV,
)
    requires
        is_covered(Expr::Between { operand, low, high }, maps),
        holds_item(d, item),
    ensures
        between_filter(*operand, *low, *high, maps) matches Ok(f) && (matches_filter(before, f, d)
            == holds_of(before, Expr::Between { operand, low, high }, maps, item)),
{
    let path = operand->Path_0@;
    let l = given_by(*low, maps)->0;
    let h = given_by(*high, maps)->0;
    lemma_given(l);
    lemma_given(h);
    lemma_typed_field(item, path, maps, av_suffix(l), d);
    let f = field_path(path, maps)->Ok_0 + "."@ + av_suffix(l);
    let x = value_at(BsonV::Doc(d), f);
    lemma_words();
    reveal_strlit("$gte");
    lemma_field(f);
    lemma_two_asked(before, "$gte"@, given(l), "$lte"@, given(h), x);
    let asked = doc1("$gte"@, given(l)).with("$lte"@, given(h));
    assert(asked.entries[0] == ("$gte"@, given(l)));
    lemma_one_clause(before, f, BsonV::Doc(asked), d);
    if let Some(w) = reached(item, path, maps) {
        if kind_of(w) == kind_of(l) {
            lemma_kind_scalar(l, w);
            lemma_given(w);
        }
    }
    lemma_operator(before, CompareOp::Ge, given(l), x);
    lemma_operator(before, CompareOp::Le, given(h), x);
}

proof fn lemma_in_values(list: Seq<Expr>, maps: ExpressionMaps, n: nat)
    requires
        n <= list.len(),
        forall|i: int| 0 <= i < list.len() ==> gives_scalar(#[trigger] list[i], maps),
    ensures
        in_values(list, maps, n) matches Ok(s) && s.len() == n && forall|i: int|
            0 <= i < n ==> #[trigger] s[i] == given(given_by(list[i], maps)->0),
    decreases n,
{
    if n > 0 {
        lemma_in_values(list, maps, (n - 1) as nat);
        assert(gives_scalar(list[n - 1], maps));
        lemma_given(given_by(list[n - 1], maps)->0);
    }
}

proof fn lemma_select_in(
    before: spec_fn(BsonV, BsonV) -> bool,
    operand: Box<Expr>,
    list: Vec<Expr>,
    maps: ExpressionMaps,
    item: ItemV,
    d: DocV,
)
    requires
        is_covered(Expr::In { operand, list }, maps),
        holds_item(d, item),
    ensures
        in_filter(*operand, list@, maps) matches Ok(f) && (matches_filter(before, f, d)
            == holds_of(before, Expr::In { operand, list }, maps, item)),
{
    let path = operand->Path_0@;
    lemma_words();
    lemma_reached(item, path, maps, path.len(), d);
    if list@.len() == 0 {
        lemma_no_clause(before, d);
        lemma_connected(before, DocV::empty(), DocV::empty(), d);
    } else {
        assert(gives_scalar(list@[0], maps));
        let first = given_by(list@[0], maps)->0;
        lemma_given(first);
        lemma_typed_field(item, path, maps, av_suffix(first), d);
        let f = field_path(path, maps)->Ok_0 + "."@ + av_suffix(first);
        let x = value_at(BsonV::Doc(d), f);
        lemma_in_values(list@, maps, list@.len());
        let s = in_values(list@, maps, list@.len())->Ok_0;
        reveal_strlit("$in");
        lemma_field(f);
        lemma_doc1("$in"@, BsonV::Array(s));
        lemma_one_clause(before, f, obj1("$in"@, BsonV::Array(s)), d);
        lemma_one_asked(before, "$in"@, BsonV::Array(s), x);
        match reached(item, path, maps) {
            Some(w) => {
                if kind_of(w) == kind_of(first) {
                    lemma_kind_scalar(first, w);
                    lemma_given(w);
                    assert(x == Some(content(w)));
                    if exists|i: int| 0 <= i < s.len() && equals(x, #[trigger] s[i]) {
                        let i = choose|i: int| 0 <= i < s.len() && equals(x, #[trigger] s[i]);
                        assert(gives_scalar(list@[i], maps));
                        assert(s[i] == given(given_by(list@[i], maps)->0));
                    }
                    if holds_of(before, Expr::In { operand, list }, maps, item) {
                        let i = choose|i: int|
                            0 <= i < list@.len() && kind_of(w) == kind_of(
                                given_by(#[trigger] list@[i], maps)->0,
                            ) && content(w) == given(given_by(list@[i], maps)->0);
                        assert(equals(x, s[i]));
                    }
                } else {
                    assert(x is None);
                    assert forall|i: int| 0 <= i < list@.len() implies kind_of(w) != kind_of(
                        given_by(#[trigger] list@[i], maps)->0,
                    ) by {
                        assert(gives_scalar(list@[i], maps));
                    }
                    assert forall|i: int| 0 <= i < s.len() implies !equals(x, #[trigger] s[i]) by {
                        assert(gives_scalar(list@[i], maps));
                        lemma_given(given_by(list@[i], maps)->0);
                    }
                }
            },
            None => {
                assert forall|i: int| 0 <= i < s.len() implies !equals(x, #[trigger] s[i]) by {
                    assert(gives_scalar(list@[i], maps));
                    lemma_given(given_by(list@[i], maps)->0);
                }
            },
        }
    }
}

/// The filter of a condition matches the document of an item just where the
/// condition holds of the item: a comparison where its operator holds of the
/// value of the attribute and the value that is given, whichever stands first;
/// a function, a range and a list by what they say of the attribute; `AND`,
/// `OR` and `NOT` by what they are made of. `before` is the order of values.
pub proof fn law_filter_selects(
    before: spec_fn(BsonV, BsonV) -> bool,
    e: Expr,
    maps: ExpressionMaps,
    item: ItemV,
    d: DocV,
)
    requires
        is_covered(e, maps),
        holds_item(d, item),
    ensures
        filter_of(e, maps) matches Ok(f) && (matches_filter(before, f, d) == holds_of(
            before,
            e,
            maps,
            item,
        )),
    decreases e,
{
    match e {
        Expr::And(l, r) => {
            law_filter_selects(before, *l, maps, item, d);
            law_filter_selects(before, *r, maps, item, d);
            lemma_connected(before, filter_of(*l, maps)->Ok_0, filter_of(*r, maps)->Ok_0, d);
        },
        Expr::Or(l, r) => {
            law_filter_selects(before, *l, maps, item, d);
            law_filter_selects(before, *r, maps, item, d);
            lemma_connected(before, filter_of(*l, maps)->Ok_0, filter_of(*r, maps)->Ok_0, d);
        },
        Expr::Not(x) => {
            law_filter_selects(before, *x, maps, item, d);
            let f = filter_of(*x, maps)->Ok_0;
            lemma_connected(before, f, f, d);
        },
        Expr::Compare { left, op, right } => {
            lemma_select_compare(before, left, op, right, maps, item, d);
        },
        Expr::Function { name, args } => {
            lemma_select_function(before, name, args, maps, item, d);
        },
        Expr::Between { operand, low, high } => {
            lemma_select_between(before, operand, low, high, maps, item, d);
        },
        Expr::In { operand, list } => {
            lemma_select_in(before, operand, list, maps, item, d);
        },
        _ => {},
    }
}

/// A number in decimal is compared as that number.
pub proof fn law_number_is_compared_as_itself(k: nat)
    ensures
        k <= i64::MAX ==> given(AvV::N(nat_text(k))) == BsonV::Int64(k as i64),
        k <= i64::MAX + 1 ==> given(AvV::N("-"@ + nat_text(k))) == BsonV::Int64((-(k as int)) as i64),
{
    lemma_nat_text(k);
    reveal_strlit("-");
    let t = nat_text(k);
    let m = "-"@ + t;
    assert(is_digit(t[0]));
    assert(m[0] == '-');
    assert(m.skip(1) =~= t);
}

} // verus!
