//! Compiles condition expressions to MongoDB query filters.
//!
//! A filter works on the `item_data` field of a stored document, where an
//! attribute stands as a document with one field: the type tag of its value.

use vstd::prelude::*;
use vstd::string::*;

use crate::bson::{bson_seq, doc1, lemma_doc1, obj1, Bson, BsonV, DocV, Document};
use crate::encoding::{base64_encode, base64_text};
use crate::error::{res_doc, res_text, ErrV, StorageError};
use crate::expression::{CompareOp, Expr, ExpressionMaps, PathElement};
use crate::item::{lemma_av_view, AttributeValue, AvV};
use crate::item_json::{av_json, encode_value};
use crate::number::{i64_of_text, is_float_text, nat_text, parse_i64, reads_as_float, u64_text};
use crate::text::{
    ascii_lower_text, chars_of, eq_ignore_case, join2, join3, starts_with,
};

verus! {

// --- What a condition means as a filter --------------------------------------

/// A path element that stands for a name placeholder.
pub open spec fn is_name_ref(name: Seq<char>) -> bool {
    name.len() > 0 && name[0] == '#'
}

/// The field of a stored document that the first `n` steps of a path lead to.
pub open spec fn field_path_to(path: Seq<PathElement>, maps: ExpressionMaps, n: nat) -> Result<
    Seq<char>,
    ErrV,
>
    decreases n,
{
    if n == 0 {
        Ok("item_data"@)
    } else {
        match field_path_to(path, maps, (n - 1) as nat) {
            Err(e) => Err(e),
            Ok(p) => match path[n - 1] {
                PathElement::Attribute(name) => if is_name_ref(name@) {
                    match maps.name_of(name@.skip(1)) {
                        Ok(resolved) => Ok(p + "."@ + resolved),
                        Err(e) => Err(e),
                    }
                } else {
                    Ok(p + "."@ + name@)
                },
                PathElement::Index(i) => Ok(p + ".L."@ + nat_text(i as nat)),
            },
        }
    }
}

/// The field of a stored document that a path leads to.
pub open spec fn field_path(path: Seq<PathElement>, maps: ExpressionMaps) -> Result<
    Seq<char>,
    ErrV,
> {
    field_path_to(path, maps, path.len())
}

/// The value to compare a stored number with: an integer where the text reads
/// as one, else a double where it reads as one, else the text itself.
pub open spec fn number_bson(n: Seq<char>) -> BsonV {
    match i64_of_text(n) {
        Some(i) => BsonV::Int64(i),
        None => if is_float_text(n) {
            BsonV::Double(n)
        } else {
            BsonV::Str(n)
        },
    }
}

/// The value to compare a stored attribute with.
pub open spec fn av_bson(v: AvV) -> BsonV {
    match v {
        AvV::S(s) => BsonV::Str(s),
        AvV::N(n) => number_bson(n),
        AvV::B(b) => BsonV::Binary(b),
        AvV::Bool(b) => BsonV::Boolean(b),
        AvV::Null => BsonV::Boolean(true),
        _ => BsonV::Null,
    }
}

/// The type tag of a value.
pub open spec fn av_suffix(v: AvV) -> Seq<char> {
    match v {
        AvV::S(_) => "S"@,
        AvV::N(_) => "N"@,
        AvV::B(_) => "B"@,
        AvV::Bool(_) => "BOOL"@,
        AvV::Null => "NULL"@,
        AvV::L(_) => "L"@,
        AvV::M(_) => "M"@,
        AvV::SS(_) => "SS"@,
        AvV::NS(_) => "NS"@,
        AvV::BS(_) => "BS"@,
    }
}

/// The name of a comparison operator in MongoDB.
pub open spec fn op_name(op: CompareOp) -> Seq<char> {
    match op {
        CompareOp::Eq => "$eq"@,
        CompareOp::Ne => "$ne"@,
        CompareOp::Lt => "$lt"@,
        CompareOp::Le => "$lte"@,
        CompareOp::Gt => "$gt"@,
        CompareOp::Ge => "$gte"@,
    }
}

/// The operator that holds of `b, a` when `op` holds of `a, b`.
pub open spec fn reversed(op: CompareOp) -> CompareOp {
    match op {
        CompareOp::Eq => CompareOp::Eq,
        CompareOp::Ne => CompareOp::Ne,
        CompareOp::Lt => CompareOp::Gt,
        CompareOp::Le => CompareOp::Ge,
        CompareOp::Gt => CompareOp::Lt,
        CompareOp::Ge => CompareOp::Le,
    }
}

/// What an operand stands for: a field of the stored document, or a value
/// with its type tag.
pub enum ResolvedV {
    Field(Seq<char>),
    Literal(BsonV, Seq<char>),
}

/// What an operand stands for.
pub open spec fn resolved(e: Expr, maps: ExpressionMaps) -> Result<ResolvedV, ErrV> {
    match e {
        Expr::Path(path) => match field_path(path@, maps) {
            Ok(f) => Ok(ResolvedV::Field(f)),
            Err(e) => Err(e),
        },
        Expr::Placeholder(name) => match maps.value_of(name@) {
            Ok(v) => Ok(ResolvedV::Literal(av_bson(v), av_suffix(v))),
            Err(e) => Err(e),
        },
        _ => Err(
            ErrV::Validation("Unexpected expression type in condition value position"@),
        ),
    }
}

/// The value that an expression stands for, where it has to be a placeholder.
pub open spec fn literal(e: Expr, maps: ExpressionMaps) -> Result<AvV, ErrV> {
    match e {
        Expr::Placeholder(name) => maps.value_of(name@),
        _ => Err(ErrV::Validation("Expected a value placeholder"@)),
    }
}

/// The field that an expression stands for, where it has to be a path.
pub open spec fn path_of(e: Expr, maps: ExpressionMaps) -> Result<Seq<char>, ErrV> {
    match e {
        Expr::Path(path) => field_path(path@, maps),
        _ => Err(ErrV::Validation("Expected a path expression"@)),
    }
}

/// The filter that compares a field with a value.
pub open spec fn field_comparison(field: Seq<char>, op: CompareOp, value: BsonV) -> DocV {
    match op {
        CompareOp::Eq => doc1(field, value),
        _ => doc1(field, obj1(op_name(op), value)),
    }
}

/// The filter that compares two operands of an aggregation expression.
pub open spec fn expr_comparison(op: CompareOp, left: BsonV, right: BsonV) -> DocV {
    doc1("$expr"@, obj1(op_name(op), BsonV::Array(seq![left, right])))
}

/// The path whose size an operand asks for: `size(path)`.
pub open spec fn size_operand(e: Expr) -> Option<Seq<PathElement>> {
    match e {
        Expr::Function { name, args } => if ascii_lower_text(name@) == "size"@ && args@.len()
            == 1 {
            match args@[0] {
                Expr::Path(path) => Some(path@),
                _ => None,
            }
        } else {
            None
        },
        _ => None,
    }
}

/// The filter that compares the number of elements of a list with a value.
pub open spec fn size_comparison(
    path: Seq<PathElement>,
    op: CompareOp,
    name: Seq<char>,
    maps: ExpressionMaps,
) -> Result<DocV, ErrV> {
    match field_path(path, maps) {
        Err(e) => Err(e),
        Ok(f) => match maps.value_of(name) {
            Err(e) => Err(e),
            Ok(v) => Ok(
                expr_comparison(
                    op,
                    obj1("$size"@, BsonV::Str("$"@ + f + ".L"@)),
                    av_bson(v),
                ),
            ),
        },
    }
}

/// The filter of a comparison between operands that are fields or values.
pub open spec fn plain_comparison(
    left: Expr,
    op: CompareOp,
    right: Expr,
    maps: ExpressionMaps,
) -> Result<DocV, ErrV> {
    match resolved(left, maps) {
        Err(e) => Err(e),
        Ok(l) => match resolved(right, maps) {
            Err(e) => Err(e),
            Ok(r) => Ok(
                match (l, r) {
                    (ResolvedV::Field(f), ResolvedV::Literal(v, t)) => field_comparison(
                        f + "."@ + t,
                        op,
                        v,
                    ),
                    (ResolvedV::Literal(v, t), ResolvedV::Field(f)) => field_comparison(
                        f + "."@ + t,
                        reversed(op),
                        v,
                    ),
                    (ResolvedV::Field(f), ResolvedV::Field(g)) => expr_comparison(
                        op,
                        BsonV::Str("$"@ + f),
                        BsonV::Str("$"@ + g),
                    ),
                    (ResolvedV::Literal(_, _), ResolvedV::Literal(_, _)) => DocV::empty(),
                },
            ),
        },
    }
}

/// The filter of a comparison.
pub open spec fn comparison(
    left: Expr,
    op: CompareOp,
    right: Expr,
    maps: ExpressionMaps,
) -> Result<DocV, ErrV> {
    match (size_operand(left), right) {
        (Some(path), Expr::Placeholder(name)) => size_comparison(path, op, name@, maps),
        _ => match (left, size_operand(right)) {
            (Expr::Placeholder(name), Some(path)) => size_comparison(
                path,
                reversed(op),
                name@,
                maps,
            ),
            _ => plain_comparison(left, op, right, maps),
        },
    }
}

/// A character with a meaning in a regular expression.
pub open spec fn is_special(c: char) -> bool {
    c == '.' || c == '^' || c == '$' || c == '*' || c == '+' || c == '?' || c == '(' || c == ')'
        || c == '[' || c == ']' || c == '{' || c == '}' || c == '|' || c == '\\'
}

/// A text as a regular expression that matches just that text.
pub open spec fn escaped(s: Seq<char>) -> Seq<char>
    decreases s.len(),
{
    if s.len() == 0 {
        Seq::empty()
    } else if is_special(s.last()) {
        escaped(s.drop_last()) + seq!['\\', s.last()]
    } else {
        escaped(s.drop_last()).push(s.last())
    }
}

/// The filter that asks whether a field is present.
pub open spec fn exists_filter(field: Seq<char>, present: bool) -> DocV {
    doc1(field, obj1("$exists"@, BsonV::Boolean(present)))
}

/// The filter that matches a field against a regular expression.
pub open spec fn regex_filter(field: Seq<char>, regex: Seq<char>) -> DocV {
    doc1(field, obj1("$regex"@, BsonV::Str(regex)))
}

/// The filter that asks whether a list holds a value, in the form in which it
/// is stored.
pub open spec fn list_holds(field: Seq<char>, v: AvV) -> DocV {
    doc1(field + ".L"@, obj1("$elemMatch"@, obj1("$eq"@, av_json(v))))
}

/// The filter that asks whether a set holds a member, in the form in which it
/// is stored.
pub open spec fn set_holds(field: Seq<char>, member: Seq<char>) -> DocV {
    doc1(field, obj1("$in"@, BsonV::Array(seq![BsonV::Str(member)])))
}

/// The filter that asks whether one of two filters matches.
pub open spec fn either(a: DocV, b: DocV) -> DocV {
    doc1("$or"@, BsonV::Array(seq![BsonV::Doc(a), BsonV::Doc(b)]))
}

/// The filter that asks whether a field contains a value: a text as a part of
/// a text, a number or bytes as a member of a set or a list, and any other
/// value as a member of a list.
pub open spec fn contains_filter(field: Seq<char>, v: AvV) -> DocV {
    match v {
        AvV::S(p) => regex_filter(field + ".S"@, escaped(p)),
        AvV::N(n) => either(set_holds(field + ".NS"@, n), list_holds(field, v)),
        AvV::B(b) => either(set_holds(field + ".BS"@, base64_text(b)), list_holds(field, v)),
        _ => list_holds(field, v),
    }
}

/// The filter that matches no document.
pub open spec fn never() -> DocV {
    doc1("$nor"@, BsonV::Array(seq![BsonV::Doc(DocV::empty())]))
}

/// The filter of a function, by its name in lower case.
pub open spec fn function_filter(name: Seq<char>, args: Seq<Expr>, maps: ExpressionMaps) -> Result<
    DocV,
    ErrV,
> {
    let lower = ascii_lower_text(name);
    if lower == "attribute_exists"@ {
        if args.len() != 1 {
            Err(ErrV::Validation("attribute_exists requires exactly one argument"@))
        } else {
            match path_of(args[0], maps) {
                Err(e) => Err(e),
                Ok(f) => Ok(exists_filter(f, true)),
            }
        }
    } else if lower == "attribute_not_exists"@ {
        if args.len() != 1 {
            Err(ErrV::Validation("attribute_not_exists requires exactly one argument"@))
        } else {
            match path_of(args[0], maps) {
                Err(e) => Err(e),
                Ok(f) => Ok(exists_filter(f, false)),
            }
        }
    } else if lower == "begins_with"@ {
        if args.len() != 2 {
            Err(ErrV::Validation("begins_with requires exactly two arguments"@))
        } else {
            match path_of(args[0], maps) {
                Err(e) => Err(e),
                Ok(f) => match literal(args[1], maps) {
                    Err(e) => Err(e),
                    Ok(AvV::S(p)) => Ok(regex_filter(f + ".S"@, "^"@ + escaped(p))),
                    Ok(_) => Err(ErrV::Validation("begins_with requires a string prefix"@)),
                },
            }
        }
    } else if lower == "contains"@ {
        if args.len() != 2 {
            Err(ErrV::Validation("contains requires exactly two arguments"@))
        } else {
            match path_of(args[0], maps) {
                Err(e) => Err(e),
                Ok(f) => match literal(args[1], maps) {
                    Err(e) => Err(e),
                    Ok(v) => Ok(contains_filter(f, v)),
                },
            }
        }
    } else if lower == "attribute_type"@ {
        if args.len() != 2 {
            Err(ErrV::Validation("attribute_type requires exactly two arguments"@))
        } else {
            match path_of(args[0], maps) {
                Err(e) => Err(e),
                Ok(f) => match literal(args[1], maps) {
                    Err(e) => Err(e),
                    Ok(AvV::S(t)) => Ok(exists_filter(f + "."@ + t, true)),
                    Ok(_) => Err(
                        ErrV::Validation("attribute_type requires a string type argument"@),
                    ),
                },
            }
        }
    } else if lower == "size"@ {
        Err(ErrV::Validation("size() cannot be used as a standalone condition"@))
    } else {
        Err(ErrV::Validation("Unsupported function in condition: "@ + name))
    }
}

/// The filter of `operand BETWEEN low AND high`.
pub open spec fn between_filter(
    operand: Expr,
    low: Expr,
    high: Expr,
    maps: ExpressionMaps,
) -> Result<DocV, ErrV> {
    match resolved(operand, maps) {
        Err(e) => Err(e),
        Ok(o) => match resolved(low, maps) {
            Err(e) => Err(e),
            Ok(l) => match resolved(high, maps) {
                Err(e) => Err(e),
                Ok(h) => match (o, l, h) {
                    (
                        ResolvedV::Field(f),
                        ResolvedV::Literal(lv, t),
                        ResolvedV::Literal(hv, _),
                    ) => Ok(
                        doc1(
                            f + "."@ + t,
                            BsonV::Doc(doc1("$gte"@, lv).with("$lte"@, hv)),
                        ),
                    ),
                    _ => match plain_comparison(operand, CompareOp::Ge, low, maps) {
                        Err(e) => Err(e),
                        Ok(a) => match plain_comparison(operand, CompareOp::Le, high, maps) {
                            Err(e) => Err(e),
                            Ok(b) => Ok(
                                doc1(
                                    "$and"@,
                                    BsonV::Array(seq![BsonV::Doc(a), BsonV::Doc(b)]),
                                ),
                            ),
                        },
                    },
                },
            },
        },
    }
}

/// The values of the first `n` placeholders of a list.
pub open spec fn in_values(list: Seq<Expr>, maps: ExpressionMaps, n: nat) -> Result<
    Seq<BsonV>,
    ErrV,
>
    decreases n,
{
    if n == 0 {
        Ok(Seq::empty())
    } else {
        match in_values(list, maps, (n - 1) as nat) {
            Err(e) => Err(e),
            Ok(s) => match literal(list[n - 1], maps) {
                Err(e) => Err(e),
                Ok(v) => Ok(s.push(av_bson(v))),
            },
        }
    }
}

/// The filters that compare an operand with the first `n` of a list.
pub open spec fn in_clauses(
    operand: Expr,
    list: Seq<Expr>,
    maps: ExpressionMaps,
    n: nat,
) -> Result<Seq<BsonV>, ErrV>
    decreases n,
{
    if n == 0 {
        Ok(Seq::empty())
    } else {
        match in_clauses(operand, list, maps, (n - 1) as nat) {
            Err(e) => Err(e),
            Ok(s) => match comparison(operand, CompareOp::Eq, list[n - 1], maps) {
                Err(e) => Err(e),
                Ok(d) => Ok(s.push(BsonV::Doc(d))),
            },
        }
    }
}

/// The filter of `operand IN (list)`.
pub open spec fn in_filter(operand: Expr, list: Seq<Expr>, maps: ExpressionMaps) -> Result<
    DocV,
    ErrV,
> {
    match resolved(operand, maps) {
        Err(e) => Err(e),
        Ok(ResolvedV::Field(f)) => if list.len() == 0 {
            Ok(never())
        } else {
            match literal(list[0], maps) {
                Err(e) => Err(e),
                Ok(first) => match in_values(list, maps, list.len()) {
                    Err(e) => Err(e),
                    Ok(s) => Ok(
                        doc1(
                            f + "."@ + av_suffix(first),
                            obj1("$in"@, BsonV::Array(s)),
                        ),
                    ),
                },
            }
        },
        Ok(ResolvedV::Literal(_, _)) => match in_clauses(operand, list, maps, list.len()) {
            Err(e) => Err(e),
            Ok(s) => Ok(doc1("$or"@, BsonV::Array(s))),
        },
    }
}

/// The filter of a condition.
pub open spec fn filter_of(e: Expr, maps: ExpressionMaps) -> Result<DocV, ErrV>
    decreases e,
{
    match e {
        Expr::Compare { left, op, right } => comparison(*left, op, *right, maps),
        Expr::And(left, right) => match filter_of(*left, maps) {
            Err(e) => Err(e),
            Ok(a) => match filter_of(*right, maps) {
                Err(e) => Err(e),
                Ok(b) => Ok(
                    doc1("$and"@, BsonV::Array(seq![BsonV::Doc(a), BsonV::Doc(b)])),
                ),
            },
        },
        Expr::Or(left, right) => match filter_of(*left, maps) {
            Err(e) => Err(e),
            Ok(a) => match filter_of(*right, maps) {
                Err(e) => Err(e),
                Ok(b) => Ok(doc1("$or"@, BsonV::Array(seq![BsonV::Doc(a), BsonV::Doc(b)]))),
            },
        },
        Expr::Not(inner) => match filter_of(*inner, maps) {
            Err(e) => Err(e),
            Ok(a) => Ok(doc1("$nor"@, BsonV::Array(seq![BsonV::Doc(a)]))),
        },
        Expr::Function { name, args } => function_filter(name@, args@, maps),
        Expr::Between { operand, low, high } => between_filter(*operand, *low, *high, maps),
        Expr::In { operand, list } => in_filter(*operand, list@, maps),
        _ => Err(ErrV::Validation("Unsupported expression type in condition filter"@)),
    }
}

// --- The compiler ------------------------------------------------------------

/// Compiles a condition expression to a filter.
pub fn condition_to_filter(expr: &Expr, maps: &ExpressionMaps) -> (r: Result<
    Document,
    StorageError,
>)
    ensures
        res_doc(r) == filter_of(*expr, *maps),
{
    compile_expr(expr, maps)
}

fn resolve_path_to_field(path: &Vec<PathElement>, maps: &ExpressionMaps) -> (r: Result<
    String,
    StorageError,
>)
    ensures
        res_text(r) == field_path(path@, *maps),
{
    let mut out = "item_data".to_owned();
    let mut i: usize = 0;
    while i < path.len()
        invariant
            i <= path.len(),
            field_path_to(path@, *maps, i as nat) == Ok::<Seq<char>, ErrV>(out@),
        decreases path.len() - i,
    {
        match &path[i] {
            PathElement::Attribute(name) => {
                if is_ref(name.as_str()) {
                    let key = tail(name.as_str());
                    match maps.resolve_name(key.as_str()) {
                        Ok(n) => {
                            out.append(".");
                            out.append(n);
                        },
                        Err(e) => {
                            proof {
                                lemma_path_error(path@, *maps, i as nat, path@.len(), e@);
                            }
                            return Err(e);
                        },
                    }
                } else {
                    out.append(".");
                    out.append(name.as_str());
                }
            },
            PathElement::Index(idx) => {
                let t = u64_text(*idx as u64);
                out.append(".L.");
                out.append(t.as_str());
            },
        }
        i += 1;
    }
    Ok(out)
}

proof fn lemma_path_error(
    path: Seq<PathElement>,
    maps: ExpressionMaps,
    i: nat,
    n: nat,
    e: ErrV,
)
    requires
        i < n,
        field_path_to(path, maps, i + 1) == Err::<Seq<char>, ErrV>(e),
    ensures
        field_path_to(path, maps, n) == Err::<Seq<char>, ErrV>(e),
    decreases n,
{
    if i + 1 < n {
        lemma_path_error(path, maps, i, (n - 1) as nat, e);
    }
}

fn is_ref(name: &str) -> (r: bool)
    ensures
        r == is_name_ref(name@),
{
    let r = starts_with(name, "#");
    proof {
        reveal_strlit("#");
        if r {
            assert(name@[0] == "#"@[0]);
        }
        if is_name_ref(name@) {
            assert("#"@ =~= name@.subrange(0, 1));
        }
    }
    r
}

fn tail(name: &str) -> (r: String)
    requires
        name@.len() > 0,
    ensures
        r@ == name@.skip(1),
{
    let n = name.unicode_len();
    let t = name.substring_char(1, n);
    assert(name@.subrange(1, n as int) =~= name@.skip(1));
    t.to_owned()
}

fn number_to_bson(n: &String) -> (r: Bson)
    ensures
        r@ == number_bson(n@),
{
    match parse_i64(n.as_str()) {
        Some(i) => Bson::Int64(i),
        None => if reads_as_float(n.as_str()) {
            Bson::Double(n.clone())
        } else {
            Bson::String(n.clone())
        },
    }
}

fn av_to_bson(av: &AttributeValue) -> (r: Bson)
    ensures
        r@ == av_bson(av@),
{
    broadcast use lemma_av_view;

    match av {
        AttributeValue::S(s) => Bson::String(s.clone()),
        AttributeValue::N(n) => number_to_bson(n),
        AttributeValue::B(b) => Bson::Binary(crate::bson::copy_bytes(b)),
        AttributeValue::Bool(b) => Bson::Boolean(*b),
        AttributeValue::Null => Bson::Boolean(true),
        _ => Bson::Null,
    }
}

/// The type tag of a value.
pub fn av_type_suffix(av: &AttributeValue) -> (r: &'static str)
    ensures
        r@ == av_suffix(av@),
{
    broadcast use lemma_av_view;

    match av {
        AttributeValue::S(_) => "S",
        AttributeValue::N(_) => "N",
        AttributeValue::B(_) => "B",
        AttributeValue::Bool(_) => "BOOL",
        AttributeValue::Null => "NULL",
        AttributeValue::L(_) => "L",
        AttributeValue::M(_) => "M",
        AttributeValue::SS(_) => "SS",
        AttributeValue::NS(_) => "NS",
        AttributeValue::BS(_) => "BS",
    }
}

enum ResolvedValue {
    Field(String),
    Literal(Bson, &'static str),
}

spec fn resolved_view(r: Result<ResolvedValue, StorageError>) -> Result<ResolvedV, ErrV> {
    match r {
        Ok(ResolvedValue::Field(f)) => Ok(ResolvedV::Field(f@)),
        Ok(ResolvedValue::Literal(v, t)) => Ok(ResolvedV::Literal(v@, t@)),
        Err(e) => Err(e@),
    }
}

fn resolve_value(expr: &Expr, maps: &ExpressionMaps) -> (r: Result<ResolvedValue, StorageError>)
    ensures
        resolved_view(r) == resolved(*expr, *maps),
{
    match expr {
        Expr::Path(path) => match resolve_path_to_field(path, maps) {
            Ok(f) => Ok(ResolvedValue::Field(f)),
            Err(e) => Err(e),
        },
        Expr::Placeholder(name) => match maps.resolve_value(name.as_str()) {
            Ok(v) => Ok(ResolvedValue::Literal(av_to_bson(v), av_type_suffix(v))),
            Err(e) => Err(e),
        },
        _ => Err(
            StorageError::validation("Unexpected expression type in condition value position"),
        ),
    }
}

fn resolve_literal<'a>(expr: &Expr, maps: &'a ExpressionMaps) -> (r: Result<
    &'a AttributeValue,
    StorageError,
>)
    ensures
        match r {
            Ok(v) => literal(*expr, *maps) == Ok::<AvV, ErrV>(v@),
            Err(e) => literal(*expr, *maps) == Err::<AvV, ErrV>(e@),
        },
{
    match expr {
        Expr::Placeholder(name) => maps.resolve_value(name.as_str()),
        _ => Err(StorageError::validation("Expected a value placeholder")),
    }
}

fn resolve_path_from_expr(expr: &Expr, maps: &ExpressionMaps) -> (r: Result<String, StorageError>)
    ensures
        res_text(r) == path_of(*expr, *maps),
{
    match expr {
        Expr::Path(path) => resolve_path_to_field(path, maps),
        _ => Err(StorageError::validation("Expected a path expression")),
    }
}

fn op_text(op: CompareOp) -> (r: &'static str)
    ensures
        r@ == op_name(op),
{
    match op {
        CompareOp::Eq => "$eq",
        CompareOp::Ne => "$ne",
        CompareOp::Lt => "$lt",
        CompareOp::Le => "$lte",
        CompareOp::Gt => "$gt",
        CompareOp::Ge => "$gte",
    }
}

/// The operator that holds of `b, a` when `op` holds of `a, b`.
pub fn reverse_op(op: CompareOp) -> (r: CompareOp)
    ensures
        r == reversed(op),
{
    match op {
        CompareOp::Eq => CompareOp::Eq,
        CompareOp::Ne => CompareOp::Ne,
        CompareOp::Lt => CompareOp::Gt,
        CompareOp::Le => CompareOp::Ge,
        CompareOp::Gt => CompareOp::Lt,
        CompareOp::Ge => CompareOp::Le,
    }
}

/// The filter that compares a field with a value.
pub fn build_field_comparison(field: &str, op: CompareOp, value: Bson) -> (r: Document)
    ensures
        r@ == field_comparison(field@, op, value@),
{
    match op {
        CompareOp::Eq => Document::new().with(field, value),
        _ => Document::new().with(field, Bson::obj1(op_text(op), value)),
    }
}

fn build_expr_comparison(op: CompareOp, left: Bson, right: Bson) -> (r: Document)
    ensures
        r@ == expr_comparison(op, left@, right@),
{
    Document::new().with("$expr", Bson::obj1(op_text(op), Bson::array2(left, right)))
}

fn build_size_comparison(
    path: &Vec<PathElement>,
    op: CompareOp,
    name: &str,
    maps: &ExpressionMaps,
) -> (r: Result<Document, StorageError>)
    ensures
        res_doc(r) == size_comparison(path@, op, name@, *maps),
{
    match resolve_path_to_field(path, maps) {
        Err(e) => Err(e),
        Ok(f) => match maps.resolve_value(name) {
            Err(e) => Err(e),
            Ok(v) => {
                let list = join3("$", f.as_str(), ".L");
                Ok(
                    build_expr_comparison(
                        op,
                        Bson::obj1("$size", Bson::String(list)),
                        av_to_bson(v),
                    ),
                )
            },
        },
    }
}

fn size_argument(e: &Expr) -> (r: Option<&Vec<PathElement>>)
    ensures
        match r {
            Some(p) => size_operand(*e) == Some(p@),
            None => size_operand(*e) is None,
        },
{
    match e {
        Expr::Function { name, args } => if eq_ignore_case(name.as_str(), "size") && args.len()
            == 1 {
            match &args[0] {
                Expr::Path(path) => Some(path),
                _ => None,
            }
        } else {
            None
        },
        _ => None,
    }
}

fn build_plain_comparison(
    left: &Expr,
    op: CompareOp,
    right: &Expr,
    maps: &ExpressionMaps,
) -> (r: Result<Document, StorageError>)
    ensures
        res_doc(r) == plain_comparison(*left, op, *right, *maps),
{
    let l = match resolve_value(left, maps) {
        Ok(l) => l,
        Err(e) => {
            return Err(e);
        },
    };
    let r = match resolve_value(right, maps) {
        Ok(r) => r,
        Err(e) => {
            return Err(e);
        },
    };
    match (l, r) {
        (ResolvedValue::Field(f), ResolvedValue::Literal(v, t)) => {
            let typed = join3(f.as_str(), ".", t);
            Ok(build_field_comparison(typed.as_str(), op, v))
        },
        (ResolvedValue::Literal(v, t), ResolvedValue::Field(f)) => {
            let typed = join3(f.as_str(), ".", t);
            Ok(build_field_comparison(typed.as_str(), reverse_op(op), v))
        },
        (ResolvedValue::Field(f), ResolvedValue::Field(g)) => {
            let a = join2("$", f.as_str());
            let b = join2("$", g.as_str());
            Ok(build_expr_comparison(op, Bson::String(a), Bson::String(b)))
        },
        (ResolvedValue::Literal(_, _), ResolvedValue::Literal(_, _)) => Ok(Document::new()),
    }
}

/// Compiles a comparison to a filter.
pub fn build_comparison(left: &Expr, op: CompareOp, right: &Expr, maps: &ExpressionMaps) -> (r: Result<
    Document,
    StorageError,
>)
    ensures
        res_doc(r) == comparison(*left, op, *right, *maps),
{
    if let Some(path) = size_argument(left) {
        if let Expr::Placeholder(name) = right {
            return build_size_comparison(path, op, name.as_str(), maps);
        }
    }
    if let Some(path) = size_argument(right) {
        if let Expr::Placeholder(name) = left {
            return build_size_comparison(path, reverse_op(op), name.as_str(), maps);
        }
    }
    build_plain_comparison(left, op, right, maps)
}

fn build_exists(field: &str, present: bool) -> (r: Document)
    ensures
        r@ == exists_filter(field@, present),
{
    Document::new().with(field, Bson::obj1("$exists", Bson::Boolean(present)))
}

fn build_regex(field: &str, regex: &str) -> (r: Document)
    ensures
        r@ == regex_filter(field@, regex@),
{
    Document::new().with(field, Bson::obj1("$regex", Bson::text(regex)))
}

fn build_list_holds(field: &str, v: &AttributeValue) -> (r: Document)
    ensures
        r@ == list_holds(field@, v@),
{
    let list = join2(field, ".L");
    Document::new().with(
        list.as_str(),
        Bson::obj1("$elemMatch", Bson::obj1("$eq", encode_value(v))),
    )
}

fn build_set_holds(field: &str, suffix: &str, member: String) -> (r: Document)
    ensures
        r@ == set_holds(field@ + suffix@, member@),
{
    let set = join2(field, suffix);
    Document::new().with(set.as_str(), Bson::obj1("$in", Bson::array1(Bson::String(member))))
}

fn build_either(a: Document, b: Document) -> (r: Document)
    ensures
        r@ == either(a@, b@),
{
    Document::new().with("$or", Bson::array2(Bson::Document(a), Bson::Document(b)))
}

fn build_contains(field: &str, v: &AttributeValue) -> (r: Document)
    ensures
        r@ == contains_filter(field@, v@),
{
    broadcast use lemma_av_view;

    match v {
        AttributeValue::S(part) => {
            let esc = regex_escape(part.as_str());
            let typed = join2(field, ".S");
            build_regex(typed.as_str(), esc.as_str())
        },
        AttributeValue::N(n) => build_either(
            build_set_holds(field, ".NS", n.clone()),
            build_list_holds(field, v),
        ),
        AttributeValue::B(b) => build_either(
            build_set_holds(field, ".BS", base64_encode(b)),
            build_list_holds(field, v),
        ),
        _ => build_list_holds(field, v),
    }
}

fn build_never() -> (r: Document)
    ensures
        r@ == never(),
{
    Document::new().with("$nor", Bson::array1(Bson::Document(Document::new())))
}

/// Compiles a function call to a filter.
pub fn compile_function(name: &str, args: &Vec<Expr>, maps: &ExpressionMaps) -> (r: Result<
    Document,
    StorageError,
>)
    ensures
        res_doc(r) == function_filter(name@, args@, *maps),
{
    broadcast use lemma_av_view;

    if eq_ignore_case(name, "attribute_exists") {
        if args.len() != 1 {
            return Err(StorageError::validation("attribute_exists requires exactly one argument"));
        }
        match resolve_path_from_expr(&args[0], maps) {
            Err(e) => Err(e),
            Ok(f) => Ok(build_exists(f.as_str(), true)),
        }
    } else if eq_ignore_case(name, "attribute_not_exists") {
        if args.len() != 1 {
            return Err(
                StorageError::validation("attribute_not_exists requires exactly one argument"),
            );
        }
        match resolve_path_from_expr(&args[0], maps) {
            Err(e) => Err(e),
            Ok(f) => Ok(build_exists(f.as_str(), false)),
        }
    } else if eq_ignore_case(name, "begins_with") {
        if args.len() != 2 {
            return Err(StorageError::validation("begins_with requires exactly two arguments"));
        }
        let f = match resolve_path_from_expr(&args[0], maps) {
            Ok(f) => f,
            Err(e) => {
                return Err(e);
            },
        };
        match resolve_literal(&args[1], maps) {
            Err(e) => Err(e),
            Ok(AttributeValue::S(prefix)) => {
                let esc = regex_escape(prefix.as_str());
                let typed = join2(f.as_str(), ".S");
                let regex = join2("^", esc.as_str());
                Ok(build_regex(typed.as_str(), regex.as_str()))
            },
            Ok(_) => Err(StorageError::validation("begins_with requires a string prefix")),
        }
    } else if eq_ignore_case(name, "contains") {
        if args.len() != 2 {
            return Err(StorageError::validation("contains requires exactly two arguments"));
        }
        let f = match resolve_path_from_expr(&args[0], maps) {
            Ok(f) => f,
            Err(e) => {
                return Err(e);
            },
        };
        match resolve_literal(&args[1], maps) {
            Err(e) => Err(e),
            Ok(v) => Ok(build_contains(f.as_str(), v)),
        }
    } else if eq_ignore_case(name, "attribute_type") {
        if args.len() != 2 {
            return Err(StorageError::validation("attribute_type requires exactly two arguments"));
        }
        let f = match resolve_path_from_expr(&args[0], maps) {
            Ok(f) => f,
            Err(e) => {
                return Err(e);
            },
        };
        match resolve_literal(&args[1], maps) {
            Err(e) => Err(e),
            Ok(AttributeValue::S(tag)) => {
                let typed = join3(f.as_str(), ".", tag.as_str());
                Ok(build_exists(typed.as_str(), true))
            },
            Ok(_) => Err(
                StorageError::validation("attribute_type requires a string type argument"),
            ),
        }
    } else if eq_ignore_case(name, "size") {
        Err(StorageError::validation("size() cannot be used as a standalone condition"))
    } else {
        Err(StorageError::Validation(join2("Unsupported function in condition: ", name)))
    }
}

fn compile_between(operand: &Expr, low: &Expr, high: &Expr, maps: &ExpressionMaps) -> (r: Result<
    Document,
    StorageError,
>)
    ensures
        res_doc(r) == between_filter(*operand, *low, *high, *maps),
{
    let o = match resolve_value(operand, maps) {
        Ok(v) => v,
        Err(e) => {
            return Err(e);
        },
    };
    let l = match resolve_value(low, maps) {
        Ok(v) => v,
        Err(e) => {
            return Err(e);
        },
    };
    let h = match resolve_value(high, maps) {
        Ok(v) => v,
        Err(e) => {
            return Err(e);
        },
    };
    match (o, l, h) {
        (
            ResolvedValue::Field(f),
            ResolvedValue::Literal(lv, t),
            ResolvedValue::Literal(hv, _),
        ) => {
            let typed = join3(f.as_str(), ".", t);
            let range = Document::new().with("$gte", lv).with("$lte", hv);
            Ok(Document::new().with(typed.as_str(), Bson::Document(range)))
        },
        _ => {
            let a = match build_plain_comparison(operand, CompareOp::Ge, low, maps) {
                Ok(d) => d,
                Err(e) => {
                    return Err(e);
                },
            };
            let b = match build_plain_comparison(operand, CompareOp::Le, high, maps) {
                Ok(d) => d,
                Err(e) => {
                    return Err(e);
                },
            };
            Ok(
                Document::new().with(
                    "$and",
                    Bson::array2(Bson::Document(a), Bson::Document(b)),
                ),
            )
        },
    }
}

proof fn lemma_in_values_error(list: Seq<Expr>, maps: ExpressionMaps, i: nat, n: nat, e: ErrV)
    requires
        i < n,
        in_values(list, maps, i + 1) == Err::<Seq<BsonV>, ErrV>(e),
    ensures
        in_values(list, maps, n) == Err::<Seq<BsonV>, ErrV>(e),
    decreases n,
{
    if i + 1 < n {
        lemma_in_values_error(list, maps, i, (n - 1) as nat, e);
    }
}

proof fn lemma_in_clauses_error(
    operand: Expr,
    list: Seq<Expr>,
    maps: ExpressionMaps,
    i: nat,
    n: nat,
    e: ErrV,
)
    requires
        i < n,
        in_clauses(operand, list, maps, i + 1) == Err::<Seq<BsonV>, ErrV>(e),
    ensures
        in_clauses(operand, list, maps, n) == Err::<Seq<BsonV>, ErrV>(e),
    decreases n,
{
    if i + 1 < n {
        lemma_in_clauses_error(operand, list, maps, i, (n - 1) as nat, e);
    }
}

fn collect_in_values(list: &Vec<Expr>, maps: &ExpressionMaps) -> (r: Result<
    Vec<Bson>,
    StorageError,
>)
    ensures
        match r {
            Ok(v) => in_values(list@, *maps, list@.len()) == Ok::<Seq<BsonV>, ErrV>(bson_seq(v@)),
            Err(e) => in_values(list@, *maps, list@.len()) == Err::<Seq<BsonV>, ErrV>(e@),
        },
{
    let mut out: Vec<Bson> = Vec::new();
    let mut i: usize = 0;
    assert(bson_seq(out@) =~= Seq::empty());
    while i < list.len()
        invariant
            i <= list.len(),
            in_values(list@, *maps, i as nat) == Ok::<Seq<BsonV>, ErrV>(bson_seq(out@)),
        decreases list.len() - i,
    {
        match resolve_literal(&list[i], maps) {
            Err(e) => {
                proof {
                    lemma_in_values_error(list@, *maps, i as nat, list@.len(), e@);
                }
                return Err(e);
            },
            Ok(v) => {
                let b = av_to_bson(v);
                let ghost before = out@;
                out.push(b);
                assert(bson_seq(out@) =~= bson_seq(before).push(b@));
            },
        }
        i += 1;
    }
    Ok(out)
}

fn collect_in_clauses(operand: &Expr, list: &Vec<Expr>, maps: &ExpressionMaps) -> (r: Result<
    Vec<Bson>,
    StorageError,
>)
    ensures
        match r {
            Ok(v) => in_clauses(*operand, list@, *maps, list@.len()) == Ok::<Seq<BsonV>, ErrV>(
                bson_seq(v@),
            ),
            Err(e) => in_clauses(*operand, list@, *maps, list@.len()) == Err::<Seq<BsonV>, ErrV>(
                e@,
            ),
        },
{
    let mut out: Vec<Bson> = Vec::new();
    let mut i: usize = 0;
    assert(bson_seq(out@) =~= Seq::empty());
    while i < list.len()
        invariant
            i <= list.len(),
            in_clauses(*operand, list@, *maps, i as nat) == Ok::<Seq<BsonV>, ErrV>(
                bson_seq(out@),
            ),
        decreases list.len() - i,
    {
        match build_comparison(operand, CompareOp::Eq, &list[i], maps) {
            Err(e) => {
                proof {
                    lemma_in_clauses_error(*operand, list@, *maps, i as nat, list@.len(), e@);
                }
                return Err(e);
            },
            Ok(d) => {
                let b = Bson::Document(d);
                let ghost before = out@;
                out.push(b);
                assert(bson_seq(out@) =~= bson_seq(before).push(b@));
            },
        }
        i += 1;
    }
    Ok(out)
}

/// Compiles a membership in a list to a filter.
pub fn compile_in(operand: &Expr, list: &Vec<Expr>, maps: &ExpressionMaps) -> (r: Result<
    Document,
    StorageError,
>)
    ensures
        res_doc(r) == in_filter(*operand, list@, *maps),
{
    match resolve_value(operand, maps) {
        Err(e) => Err(e),
        Ok(ResolvedValue::Field(f)) => {
            if list.len() == 0 {
                return Ok(build_never());
            }
            let first = match resolve_literal(&list[0], maps) {
                Ok(v) => v,
                Err(e) => {
                    return Err(e);
                },
            };
            let typed = join3(f.as_str(), ".", av_type_suffix(first));
            match collect_in_values(list, maps) {
                Err(e) => Err(e),
                Ok(values) => Ok(
                    Document::new().with(
                        typed.as_str(),
                        Bson::obj1("$in", Bson::array(values)),
                    ),
                ),
            }
        },
        Ok(ResolvedValue::Literal(_, _)) => match collect_in_clauses(operand, list, maps) {
            Err(e) => Err(e),
            Ok(clauses) => Ok(Document::new().with("$or", Bson::array(clauses))),
        },
    }
}

/// Compiles an expression to a filter.
pub fn compile_expr(expr: &Expr, maps: &ExpressionMaps) -> (r: Result<Document, StorageError>)
    ensures
        res_doc(r) == filter_of(*expr, *maps),
    decreases expr,
{
    match expr {
        Expr::Compare { left, op, right } => build_comparison(left, *op, right, maps),
        Expr::And(left, right) => {
            let a = match compile_expr(left, maps) {
                Ok(d) => d,
                Err(e) => {
                    return Err(e);
                },
            };
            let b = match compile_expr(right, maps) {
                Ok(d) => d,
                Err(e) => {
                    return Err(e);
                },
            };
            Ok(
                Document::new().with(
                    "$and",
                    Bson::array2(Bson::Document(a), Bson::Document(b)),
                ),
            )
        },
        Expr::Or(left, right) => {
            let a = match compile_expr(left, maps) {
                Ok(d) => d,
                Err(e) => {
                    return Err(e);
                },
            };
            let b = match compile_expr(right, maps) {
                Ok(d) => d,
                Err(e) => {
                    return Err(e);
                },
            };
            Ok(Document::new().with("$or", Bson::array2(Bson::Document(a), Bson::Document(b))))
        },
        Expr::Not(inner) => match compile_expr(inner, maps) {
            Err(e) => Err(e),
            Ok(a) => Ok(Document::new().with("$nor", Bson::array1(Bson::Document(a)))),
        },
        Expr::Function { name, args } => compile_function(name.as_str(), args, maps),
        Expr::Between { operand, low, high } => compile_between(operand, low, high, maps),
        Expr::In { operand, list } => compile_in(operand, list, maps),
        _ => Err(StorageError::validation("Unsupported expression type in condition filter")),
    }
}

fn char_is_special(c: char) -> (r: bool)
    ensures
        r == is_special(c),
{
    c == '.' || c == '^' || c == '$' || c == '*' || c == '+' || c == '?' || c == '(' || c == ')'
        || c == '[' || c == ']' || c == '{' || c == '}' || c == '|' || c == '\\'
}

/// Escapes the characters of a text that have a meaning in a regular
/// expression.
pub fn regex_escape(s: &str) -> (r: String)
    ensures
        r@ == escaped(s@),
{
    let v = chars_of(s);
    let mut out = String::new();
    let mut i: usize = 0;
    assert(s@.take(0) =~= Seq::empty());
    while i < v.len()
        invariant
            i <= v.len(),
            v@ == s@,
            out@ == escaped(s@.take(i as int)),
        decreases v.len() - i,
    {
        let c = v[i];
        let ghost before = out@;
        if char_is_special(c) {
            out.push('\\');
        }
        out.push(c);
        assert(s@.take(i + 1).drop_last() =~= s@.take(i as int));
        assert(is_special(c) ==> out@ =~= before + seq!['\\', c]);
        i += 1;
    }
    assert(s@.take(s@.len() as int) =~= s@);
    out
}

// --- Laws --------------------------------------------------------------------

/// Reversing an operator twice gives it back.
pub proof fn law_reverse_twice(op: CompareOp)
    ensures
        reversed(reversed(op)) == op,
{
}

/// A comparison between a field and a value compiles to the same filter
/// whichever of them stands first.
pub proof fn law_comparison_flips(
    path: Vec<PathElement>,
    op: CompareOp,
    name: String,
    maps: ExpressionMaps,
)
    requires
        field_path(path@, maps) is Ok || maps.value_of(name@) is Ok,
    ensures
        comparison(Expr::Path(path), op, Expr::Placeholder(name), maps) == comparison(
            Expr::Placeholder(name),
            reversed(op),
            Expr::Path(path),
            maps,
        ),
{
}

/// A comparison between a field and a value asks for one field only: the one
/// that holds the attribute under the type of the value.
pub proof fn law_comparison_asks_typed_field(
    path: Vec<PathElement>,
    op: CompareOp,
    name: String,
    maps: ExpressionMaps,
)
    requires
        field_path(path@, maps) is Ok,
        maps.value_of(name@) is Ok,
    ensures
        ({
            let field = field_path(path@, maps)->Ok_0 + "."@ + av_suffix(
                maps.value_of(name@)->Ok_0,
            );
            let filter = comparison(Expr::Placeholder(name), op, Expr::Path(path), maps);
            &&& filter == comparison(
                Expr::Path(path),
                reversed(op),
                Expr::Placeholder(name),
                maps,
            )
            &&& filter matches Ok(d)
            &&& d.entries.len() == 1
            &&& d.entries[0].0 == field
        }),
{
    let field = field_path(path@, maps)->Ok_0 + "."@ + av_suffix(maps.value_of(name@)->Ok_0);
    let value = av_bson(maps.value_of(name@)->Ok_0);
    lemma_doc1(field, value);
    lemma_doc1(field, obj1(op_name(reversed(op)), value));
}

/// The filters of `AND`, `OR` and `NOT` hold those of their parts, in order,
/// and fail as the first of their parts that fails.
pub proof fn law_connectives(left: Box<Expr>, right: Box<Expr>, maps: ExpressionMaps)
    ensures
        match (filter_of(*left, maps), filter_of(*right, maps)) {
            (Err(e), _) => {
                &&& filter_of(Expr::And(left, right), maps) == Err::<DocV, ErrV>(e)
                &&& filter_of(Expr::Or(left, right), maps) == Err::<DocV, ErrV>(e)
                &&& filter_of(Expr::Not(left), maps) == Err::<DocV, ErrV>(e)
            },
            (Ok(a), Err(e)) => {
                &&& filter_of(Expr::And(left, right), maps) == Err::<DocV, ErrV>(e)
                &&& filter_of(Expr::Or(left, right), maps) == Err::<DocV, ErrV>(e)
                &&& filter_of(Expr::Not(left), maps) == Ok::<DocV, ErrV>(
                    doc1("$nor"@, BsonV::Array(seq![BsonV::Doc(a)])),
                )
            },
            (Ok(a), Ok(b)) => {
                &&& filter_of(Expr::And(left, right), maps) == Ok::<DocV, ErrV>(
                    doc1("$and"@, BsonV::Array(seq![BsonV::Doc(a), BsonV::Doc(b)])),
                )
                &&& filter_of(Expr::Or(left, right), maps) == Ok::<DocV, ErrV>(
                    doc1("$or"@, BsonV::Array(seq![BsonV::Doc(a), BsonV::Doc(b)])),
                )
                &&& filter_of(Expr::Not(left), maps) == Ok::<DocV, ErrV>(
                    doc1("$nor"@, BsonV::Array(seq![BsonV::Doc(a)])),
                )
            },
        },
{
    reveal_with_fuel(filter_of, 2);
}

/// `contains` tests the value that it is given: filters that agree ask for
/// values with one stored form.
pub proof fn law_contains_tests_value(field: Seq<char>, v: AvV, w: AvV)
    requires
        contains_filter(field, v) == contains_filter(field, w),
        !(v is S),
        !(w is S),
    ensures
        av_json(v) == av_json(w),
{
    let lv = list_holds(field, v);
    let lw = list_holds(field, w);
    lemma_list_holds(field, v);
    lemma_list_holds(field, w);
    lemma_contains(field, v);
    lemma_contains(field, w);
    reveal_strlit("$or");
    reveal_strlit(".L");
    assert((field + ".L"@).last() == 'L');
    assert("$or"@.last() == 'r');
    assert(lv == lw);
    assert(lv.entries[0].1->Doc_0.entries[0].1->Doc_0.entries[0].1 == av_json(v));
    assert(lw.entries[0].1->Doc_0.entries[0].1->Doc_0.entries[0].1 == av_json(w));
}

/// The field and the value of the filter of `contains`.
proof fn lemma_contains(field: Seq<char>, v: AvV)
    requires
        !(v is S),
    ensures
        v is N || v is B ==> {
            let parts = contains_filter(field, v).entries[0].1->Array_0;
            &&& contains_filter(field, v).entries[0].0 == "$or"@
            &&& parts[1] == BsonV::Doc(list_holds(field, v))
        },
        !(v is N || v is B) ==> contains_filter(field, v) == list_holds(field, v),
{
    let set = match v {
        AvV::N(n) => set_holds(field + ".NS"@, n),
        AvV::B(b) => set_holds(field + ".BS"@, base64_text(b)),
        _ => DocV::empty(),
    };
    lemma_doc1("$or"@, BsonV::Array(seq![BsonV::Doc(set), BsonV::Doc(list_holds(field, v))]));
}

proof fn lemma_list_holds(field: Seq<char>, v: AvV)
    ensures
        list_holds(field, v).entries == seq![
            (field + ".L"@, obj1("$elemMatch"@, obj1("$eq"@, av_json(v)))),
        ],
        obj1("$elemMatch"@, obj1("$eq"@, av_json(v)))->Doc_0.entries[0].1->Doc_0.entries[0].1
            == av_json(v),
{
    lemma_doc1(field + ".L"@, obj1("$elemMatch"@, obj1("$eq"@, av_json(v))));
    lemma_doc1("$elemMatch"@, obj1("$eq"@, av_json(v)));
    lemma_doc1("$eq"@, av_json(v));
}

/// Reads a regular expression made of escaped characters back to the text.
pub open spec fn unescaped(s: Seq<char>) -> Seq<char>
    decreases s.len(),
{
    if s.len() == 0 {
        Seq::empty()
    } else if s[0] == '\\' && s.len() > 1 {
        seq![s[1]] + unescaped(s.skip(2))
    } else {
        seq![s[0]] + unescaped(s.skip(1))
    }
}

pub proof fn lemma_escaped_front(s: Seq<char>)
    requires
        s.len() > 0,
    ensures
        escaped(s) == (if is_special(s[0]) {
            seq!['\\', s[0]]
        } else {
            seq![s[0]]
        }) + escaped(s.skip(1)),
    decreases s.len(),
{
    if s.len() == 1 {
        assert(s.drop_last() =~= Seq::empty());
        assert(s.skip(1) =~= Seq::empty());
        reveal_with_fuel(escaped, 2);
        assert(escaped(s) =~= (if is_special(s[0]) {
            seq!['\\', s[0]]
        } else {
            seq![s[0]]
        }) + escaped(s.skip(1)));
    } else {
        lemma_escaped_front(s.drop_last());
        assert(s.drop_last().skip(1) =~= s.skip(1).drop_last());
        assert(s.skip(1).last() == s.last());
        assert(escaped(s) =~= (if is_special(s[0]) {
            seq!['\\', s[0]]
        } else {
            seq![s[0]]
        }) + escaped(s.skip(1)));
    }
}

/// Escaping loses nothing: reading the escaped text back gives the text.
pub proof fn law_escape_round_trip(s: Seq<char>)
    ensures
        unescaped(escaped(s)) == s,
    decreases s.len(),
{
    if s.len() > 0 {
        lemma_escaped_front(s);
        law_escape_round_trip(s.skip(1));
        let e = escaped(s);
        if is_special(s[0]) {
            assert(e.skip(2) =~= escaped(s.skip(1)));
        } else {
            assert(e.skip(1) =~= escaped(s.skip(1)));
        }
        assert(unescaped(e) =~= seq![s[0]] + s.skip(1));
        assert(s =~= seq![s[0]] + s.skip(1));
    } else {
        assert(s =~= Seq::empty());
    }
}

/// Texts that differ have escaped forms that differ.
pub proof fn law_escape_injective(a: Seq<char>, b: Seq<char>)
    requires
        escaped(a) == escaped(b),
    ensures
        a == b,
{
    law_escape_round_trip(a);
    law_escape_round_trip(b);
}

} // verus!
