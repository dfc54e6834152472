//! What filters mean: which documents a filter matches.
//!
//! A filter is a document whose fields all have to hold. A field is either a
//! connective (`$and`, `$or`, `$nor`), a comparison of computed values
//! (`$expr`), or the path of a value with what is asked of it. `before` is the
//! order of values, in which comparisons are made.

use vstd::prelude::*;

use crate::bson::{doc1, lemma_doc1, lemma_key_from, BsonV, DocV};
use crate::number::{digits_value, lemma_nat_text, nat_text};
use crate::text::occurs_in;

verus! {

// --- Paths ---------------------------------------------------------------------------

/// The length of the first part of a path: what stands before its first dot.
pub open spec fn first_dot(path: Seq<char>) -> nat
    decreases path.len(),
{
    if path.len() == 0 || path[0] == '.' {
        0
    } else {
        1 + first_dot(path.skip(1))
    }
}

/// What a part of a path leads to: a field of a document, or an element of a
/// list by its number.
pub open spec fn step_into(v: BsonV, part: Seq<char>) -> Option<BsonV> {
    match v {
        BsonV::Doc(d) => d.get(part),
        BsonV::Array(a) => {
            let i = digits_value(part);
            if 0 <= i < a.len() && part == nat_text(i as nat) {
                Some(a[i])
            } else {
                None
            }
        },
        _ => None,
    }
}

/// The value that a path leads to.
pub open spec fn value_at(v: BsonV, path: Seq<char>) -> Option<BsonV>
    decreases path.len(),
{
    let n = first_dot(path);
    if n < path.len() {
        match step_into(v, path.take(n as int)) {
            Some(x) => value_at(x, path.skip(n as int + 1)),
            None => None,
        }
    } else {
        step_into(v, path)
    }
}

/// A text is one part of a path.
pub open spec fn is_part(name: Seq<char>) -> bool {
    first_dot(name) == name.len()
}

proof fn lemma_first_dot(path: Seq<char>)
    ensures
        first_dot(path) <= path.len(),
        first_dot(path) < path.len() ==> path[first_dot(path) as int] == '.',
        forall|i: int| 0 <= i < first_dot(path) ==> path[i] != '.',
    decreases path.len(),
{
    if path.len() > 0 && path[0] != '.' {
        lemma_first_dot(path.skip(1));
        let n = first_dot(path);
        assert forall|i: int| 0 <= i < n implies path[i] != '.' by {
            if i > 0 {
                assert(path[i] == path.skip(1)[i - 1]);
            }
        }
        if n < path.len() {
            assert(path[n as int] == path.skip(1)[n - 1]);
        }
    }
}

proof fn lemma_first_dot_unique(path: Seq<char>, n: nat)
    requires
        n <= path.len(),
        n < path.len() ==> path[n as int] == '.',
        forall|i: int| 0 <= i < n ==> path[i] != '.',
    ensures
        first_dot(path) == n,
{
    lemma_first_dot(path);
    let m = first_dot(path);
    if m < n {
        assert(path[m as int] != '.');
    } else if n < m {
        assert(path[n as int] != '.');
    }
}

/// A text without dots is one part.
pub proof fn lemma_is_part(name: Seq<char>)
    ensures
        is_part(name) <==> forall|i: int| 0 <= i < name.len() ==> name[i] != '.',
{
    lemma_first_dot(name);
    if forall|i: int| 0 <= i < name.len() ==> name[i] != '.' {
        lemma_first_dot_unique(name, name.len());
    }
}

/// One part leads one step.
pub proof fn lemma_one_part(v: BsonV, name: Seq<char>)
    requires
        is_part(name),
    ensures
        value_at(v, name) == step_into(v, name),
{
}

/// A path that goes on behind a dot leads to where the rest leads from what
/// its beginning leads to.
pub proof fn lemma_path_joined(v: BsonV, p: Seq<char>, q: Seq<char>)
    ensures
        value_at(v, p + "."@ + q) == (match value_at(v, p) {
            Some(x) => value_at(x, q),
            None => None,
        }),
    decreases p.len(),
{
    reveal_strlit(".");
    let dot = "."@;
    assert(dot =~= seq!['.']);
    let path = p + dot + q;
    let n = first_dot(p);
    lemma_first_dot(p);
    assert forall|i: int| 0 <= i < n implies path[i] != '.' by {
        assert(path[i] == p[i]);
    }
    if n < p.len() {
        assert(path[n as int] == p[n as int]);
        lemma_first_dot_unique(path, n);
        assert(path.take(n as int) =~= p.take(n as int));
        assert(path.skip(n as int + 1) =~= p.skip(n as int + 1) + dot + q);
        match step_into(v, p.take(n as int)) {
            Some(x) => {
                lemma_path_joined(x, p.skip(n as int + 1), q);
            },
            None => {},
        }
    } else {
        assert(path[n as int] == '.');
        lemma_first_dot_unique(path, n);
        assert(path.take(n as int) =~= p);
        assert(path.skip(n as int + 1) =~= q);
    }
}

/// The number of an element leads to it.
pub proof fn lemma_element(a: Seq<BsonV>, i: nat)
    ensures
        value_at(BsonV::Array(a), nat_text(i)) == (if i < a.len() {
            Some(a[i as int])
        } else {
            None
        }),
{
    lemma_nat_text(i);
    let t = nat_text(i);
    assert forall|j: int| 0 <= j < t.len() implies t[j] != '.' by {
        assert(crate::number::is_digit(t[j]));
    }
    lemma_is_part(t);
    lemma_one_part(BsonV::Array(a), t);
}

// --- Patterns ------------------------------------------------------------------------

/// A character that does not stand for itself in a regular expression.
pub open spec fn is_meta(c: char) -> bool {
    c == '.' || c == '^' || c == '$' || c == '*' || c == '+' || c == '?' || c == '(' || c == ')'
        || c == '[' || c == ']' || c == '{' || c == '}' || c == '|' || c == '\\'
}

/// The one text that a regular expression stands for; `None` where it stands
/// for others, too.
pub open spec fn only_text(r: Seq<char>) -> Option<Seq<char>>
    decreases r.len(),
{
    if r.len() == 0 {
        Some(Seq::empty())
    } else if r[0] == '\\' {
        if r.len() > 1 && is_meta(r[1]) {
            match only_text(r.skip(2)) {
                Some(t) => Some(seq![r[1]] + t),
                None => None,
            }
        } else {
            None
        }
    } else if is_meta(r[0]) {
        None
    } else {
        match only_text(r.skip(1)) {
            Some(t) => Some(seq![r[0]] + t),
            None => None,
        }
    }
}

/// A regular expression of one text matches another: at its beginning where it
/// says so, anywhere otherwise.
pub open spec fn fits_pattern(r: Seq<char>, t: Seq<char>) -> bool {
    if r.len() > 0 && r[0] == '^' {
        only_text(r.skip(1)) matches Some(p) && p.is_prefix_of(t)
    } else {
        only_text(r) matches Some(p) && occurs_in(t, p)
    }
}

// --- What is asked of a value --------------------------------------------------------

/// A value is another, or has it among its elements where it is a list. A
/// value that is not there counts as null.
pub open spec fn equals(x: Option<BsonV>, v: BsonV) -> bool {
    match x {
        Some(BsonV::Array(a)) => BsonV::Array(a) == v || exists|i: int|
            0 <= i < a.len() && #[trigger] a[i] == v,
        Some(y) => y == v,
        None => v is Null,
    }
}

/// A value, or one of its elements where it is a list, is of a kind.
pub open spec fn any_value(x: Option<BsonV>, p: spec_fn(BsonV) -> bool) -> bool {
    match x {
        Some(BsonV::Array(a)) => p(BsonV::Array(a)) || exists|i: int|
            0 <= i < a.len() && p(#[trigger] a[i]),
        Some(y) => p(y),
        None => false,
    }
}

/// What an operator asks of a value.
pub open spec fn asks(
    before: spec_fn(BsonV, BsonV) -> bool,
    op: Seq<char>,
    arg: BsonV,
    x: Option<BsonV>,
) -> bool
    decreases arg,
{
    if op == "$eq"@ {
        equals(x, arg)
    } else if op == "$ne"@ {
        !equals(x, arg)
    } else if op == "$gt"@ {
        any_value(x, |v: BsonV| before(arg, v))
    } else if op == "$gte"@ {
        any_value(x, |v: BsonV| before(arg, v) || v == arg)
    } else if op == "$lt"@ {
        any_value(x, |v: BsonV| before(v, arg))
    } else if op == "$lte"@ {
        any_value(x, |v: BsonV| before(v, arg) || v == arg)
    } else if op == "$in"@ {
        arg matches BsonV::Array(a) && exists|i: int| 0 <= i < a.len() && equals(x, #[trigger] a[i])
    } else if op == "$exists"@ {
        arg matches BsonV::Boolean(b) && b == (x is Some)
    } else if op == "$regex"@ {
        arg matches BsonV::Str(r) && any_value(
            x,
            |v: BsonV| v matches BsonV::Str(t) && fits_pattern(r, t),
        )
    } else if op == "$not"@ {
        arg matches BsonV::Doc(d) && !asks_all(before, d, x)
    } else if op == "$elemMatch"@ {
        arg matches BsonV::Doc(d) && (x matches Some(BsonV::Array(a)) && exists|i: int|
            0 <= i < a.len() && asks_all(before, d, Some(#[trigger] a[i])))
    } else {
        false
    }
}

/// What all operators of a document ask of a value.
pub open spec fn asks_all(
    before: spec_fn(BsonV, BsonV) -> bool,
    d: DocV,
    x: Option<BsonV>,
) -> bool
    decreases d,
{
    forall|i: int|
        0 <= i < d.entries.len() ==> asks(
            before,
            (#[trigger] d.entries[i]).0,
            d.entries[i].1,
            x,
        )
}

/// A document is made of operators.
pub open spec fn is_operators(v: BsonV) -> bool {
    v matches BsonV::Doc(d) && d.entries.len() > 0 && d.entries[0].0.len() > 0
        && d.entries[0].0[0] == '$'
}

/// What a filter asks of the value of a path.
pub open spec fn asks_value(
    before: spec_fn(BsonV, BsonV) -> bool,
    v: BsonV,
    x: Option<BsonV>,
) -> bool {
    if is_operators(v) {
        asks_all(before, v->Doc_0, x)
    } else {
        equals(x, v)
    }
}

// --- Computed values -----------------------------------------------------------------

/// The value that an operand of a comparison stands for: the value of a path
/// behind a dollar sign, the number of elements of a list, or itself.
pub open spec fn operand(v: BsonV, d: DocV) -> Option<BsonV> {
    match v {
        BsonV::Str(s) => if s.len() > 0 && s[0] == '$' {
            value_at(BsonV::Doc(d), s.skip(1))
        } else {
            Some(v)
        },
        BsonV::Doc(o) => match o.get_str("$size"@) {
            Some(s) => match value_at(BsonV::Doc(d), s.skip(1)) {
                Some(BsonV::Array(a)) => if a.len() <= i64::MAX {
                    Some(BsonV::Int64(a.len() as i64))
                } else {
                    None
                },
                _ => None,
            },
            None => Some(v),
        },
        _ => Some(v),
    }
}

/// A comparison holds of two values.
pub open spec fn compares(
    before: spec_fn(BsonV, BsonV) -> bool,
    op: Seq<char>,
    l: BsonV,
    r: BsonV,
) -> bool {
    if op == "$eq"@ {
        l == r
    } else if op == "$ne"@ {
        l != r
    } else if op == "$gt"@ {
        before(r, l)
    } else if op == "$gte"@ {
        before(r, l) || l == r
    } else if op == "$lt"@ {
        before(l, r)
    } else if op == "$lte"@ {
        before(l, r) || l == r
    } else {
        false
    }
}

/// A comparison of two operands, which are both there, holds in a document.
pub open spec fn computes(before: spec_fn(BsonV, BsonV) -> bool, v: BsonV, d: DocV) -> bool {
    &&& v matches BsonV::Doc(e)
    &&& e.entries.len() == 1
    &&& e.entries[0].1 matches BsonV::Array(a)
    &&& a.len() == 2
    &&& operand(a[0], d) matches Some(l)
    &&& operand(a[1], d) matches Some(r)
    &&& compares(before, e.entries[0].0, l, r)
}

// --- Filters -------------------------------------------------------------------------

/// A field of a filter holds of a document.
pub open spec fn clause_holds(
    before: spec_fn(BsonV, BsonV) -> bool,
    k: Seq<char>,
    v: BsonV,
    d: DocV,
) -> bool
    decreases v,
{
    if k == "$and"@ {
        v matches BsonV::Array(a) && forall|i: int|
            0 <= i < a.len() ==> ((#[trigger] a[i]) matches BsonV::Doc(f) && matches_filter(
                before,
                f,
                d,
            ))
    } else if k == "$or"@ {
        v matches BsonV::Array(a) && exists|i: int|
            0 <= i < a.len() && ((#[trigger] a[i]) matches BsonV::Doc(f) && matches_filter(
                before,
                f,
                d,
            ))
    } else if k == "$nor"@ {
        v matches BsonV::Array(a) && forall|i: int|
            0 <= i < a.len() ==> ((#[trigger] a[i]) matches BsonV::Doc(f) && !matches_filter(
                before,
                f,
                d,
            ))
    } else if k == "$expr"@ {
        computes(before, v, d)
    } else {
        asks_value(before, v, value_at(BsonV::Doc(d), k))
    }
}

/// A filter matches a document: all its fields hold of it.
pub open spec fn matches_filter(
    before: spec_fn(BsonV, BsonV) -> bool,
    f: DocV,
    d: DocV,
) -> bool
    decreases f,
{
    forall|i: int|
        0 <= i < f.entries.len() ==> clause_holds(
            before,
            (#[trigger] f.entries[i]).0,
            f.entries[i].1,
            d,
        )
}

// --- How filters are read ------------------------------------------------------------

/// The words of filters are all different.
pub proof fn lemma_words()
    ensures
        "$eq"@ != "$ne"@,
        "$eq"@ != "$gt"@,
        "$eq"@ != "$gte"@,
        "$eq"@ != "$lt"@,
        "$eq"@ != "$lte"@,
        "$eq"@ != "$in"@,
        "$eq"@ != "$exists"@,
        "$eq"@ != "$regex"@,
        "$eq"@ != "$not"@,
        "$eq"@ != "$elemMatch"@,
        "$ne"@ != "$gt"@,
        "$ne"@ != "$gte"@,
        "$ne"@ != "$lt"@,
        "$ne"@ != "$lte"@,
        "$ne"@ != "$in"@,
        "$ne"@ != "$exists"@,
        "$ne"@ != "$regex"@,
        "$ne"@ != "$not"@,
        "$ne"@ != "$elemMatch"@,
        "$gt"@ != "$gte"@,
        "$gt"@ != "$lt"@,
        "$gt"@ != "$lte"@,
        "$gt"@ != "$in"@,
        "$gt"@ != "$exists"@,
        "$gt"@ != "$regex"@,
        "$gt"@ != "$not"@,
        "$gt"@ != "$elemMatch"@,
        "$gte"@ != "$lt"@,
        "$gte"@ != "$lte"@,
        "$gte"@ != "$in"@,
        "$gte"@ != "$exists"@,
        "$gte"@ != "$regex"@,
        "$gte"@ != "$not"@,
        "$gte"@ != "$elemMatch"@,
        "$lt"@ != "$lte"@,
        "$lt"@ != "$in"@,
        "$lt"@ != "$exists"@,
        "$lt"@ != "$regex"@,
        "$lt"@ != "$not"@,
        "$lt"@ != "$elemMatch"@,
        "$lte"@ != "$in"@,
        "$lte"@ != "$exists"@,
        "$lte"@ != "$regex"@,
        "$lte"@ != "$not"@,
        "$lte"@ != "$elemMatch"@,
        "$in"@ != "$exists"@,
        "$in"@ != "$regex"@,
        "$in"@ != "$not"@,
        "$in"@ != "$elemMatch"@,
        "$exists"@ != "$regex"@,
        "$exists"@ != "$not"@,
        "$exists"@ != "$elemMatch"@,
        "$regex"@ != "$not"@,
        "$regex"@ != "$elemMatch"@,
        "$not"@ != "$elemMatch"@,
        "$and"@ != "$or"@,
        "$and"@ != "$nor"@,
        "$and"@ != "$expr"@,
        "$or"@ != "$nor"@,
        "$or"@ != "$expr"@,
        "$nor"@ != "$expr"@,
{
    reveal_strlit("$eq");
    reveal_strlit("$ne");
    reveal_strlit("$gt");
    reveal_strlit("$gte");
    reveal_strlit("$lt");
    reveal_strlit("$lte");
    reveal_strlit("$in");
    reveal_strlit("$exists");
    reveal_strlit("$regex");
    reveal_strlit("$not");
    reveal_strlit("$elemMatch");
    reveal_strlit("$and");
    reveal_strlit("$or");
    reveal_strlit("$nor");
    reveal_strlit("$expr");
    assert("$eq"@.len() == 3 && "$eq"@[1] == 'e' && "$eq"@[2] == 'q');
    assert("$ne"@.len() == 3 && "$ne"@[1] == 'n');
    assert("$gt"@.len() == 3 && "$gt"@[1] == 'g');
    assert("$lt"@.len() == 3 && "$lt"@[1] == 'l');
    assert("$in"@.len() == 3 && "$in"@[1] == 'i');
    assert("$gte"@.len() == 4 && "$gte"@[1] == 'g');
    assert("$lte"@.len() == 4 && "$lte"@[1] == 'l');
    assert("$not"@.len() == 4 && "$not"@[1] == 'n');
    assert("$exists"@.len() == 7);
    assert("$regex"@.len() == 6);
    assert("$elemMatch"@.len() == 10);
    assert("$and"@.len() == 4 && "$and"@[1] == 'a');
    assert("$or"@.len() == 3);
    assert("$nor"@.len() == 4 && "$nor"@[1] == 'n');
    assert("$expr"@.len() == 5);
}

/// A word of a filter begins with a dollar sign; the name of a field does not.
pub open spec fn is_field(k: Seq<char>) -> bool {
    k.len() > 0 && k[0] != '$'
}

/// The name of a field is no connective.
pub proof fn lemma_field(k: Seq<char>)
    requires
        is_field(k),
    ensures
        k != "$and"@,
        k != "$or"@,
        k != "$nor"@,
        k != "$expr"@,
{
    reveal_strlit("$and");
    reveal_strlit("$or");
    reveal_strlit("$nor");
    reveal_strlit("$expr");
    assert("$and"@[0] == '$' && "$or"@[0] == '$' && "$nor"@[0] == '$' && "$expr"@[0] == '$');
}

/// A filter with one field matches where that field holds.
pub proof fn lemma_one_clause(
    before: spec_fn(BsonV, BsonV) -> bool,
    k: Seq<char>,
    v: BsonV,
    d: DocV,
)
    ensures
        matches_filter(before, doc1(k, v), d) == clause_holds(before, k, v, d),
{
    lemma_doc1(k, v);
    let f = doc1(k, v);
    assert(f.entries[0] == (k, v));
}

/// The filter without fields matches every document.
pub proof fn lemma_no_clause(before: spec_fn(BsonV, BsonV) -> bool, d: DocV)
    ensures
        matches_filter(before, DocV::empty(), d),
{
}

/// A document that gets a further field asks for that field, too.
pub proof fn lemma_more_clauses(
    before: spec_fn(BsonV, BsonV) -> bool,
    f: DocV,
    k: Seq<char>,
    v: BsonV,
    d: DocV,
)
    requires
        f.get(k) is None,
    ensures
        matches_filter(before, f.with(k, v), d) == (matches_filter(before, f, d) && clause_holds(
            before,
            k,
            v,
            d,
        )),
{
    lemma_appended(f, k, v);
    let g = f.with(k, v);
    let n = f.entries.len();
    assert(g.entries[n as int] == (k, v));
    if matches_filter(before, g, d) {
        assert forall|i: int| 0 <= i < n implies clause_holds(
            before,
            (#[trigger] f.entries[i]).0,
            f.entries[i].1,
            d,
        ) by {
            assert(g.entries[i] == f.entries[i]);
        }
    }
    if matches_filter(before, f, d) && clause_holds(before, k, v, d) {
        assert forall|i: int| 0 <= i < g.entries.len() implies clause_holds(
            before,
            (#[trigger] g.entries[i]).0,
            g.entries[i].1,
            d,
        ) by {
            if i < n {
                assert(g.entries[i] == f.entries[i]);
            }
        }
    }
}

/// A new name is appended.
pub proof fn lemma_appended(f: DocV, k: Seq<char>, v: BsonV)
    requires
        f.get(k) is None,
    ensures
        f.with(k, v).entries == f.entries.push((k, v)),
{
    reveal(DocV::with);
    reveal(DocV::get);
    lemma_key_from(f.entries, k, 0);
}

/// What a document of two operators asks.
pub proof fn lemma_two_asked(
    before: spec_fn(BsonV, BsonV) -> bool,
    a: Seq<char>,
    v: BsonV,
    b: Seq<char>,
    w: BsonV,
    x: Option<BsonV>,
)
    requires
        a != b,
    ensures
        asks_all(before, doc1(a, v).with(b, w), x) == (asks(before, a, v, x) && asks(
            before,
            b,
            w,
            x,
        )),
        doc1(a, v).with(b, w).entries == seq![(a, v), (b, w)],
{
    broadcast use crate::bson::group_document_fields;

    lemma_doc1(a, v);
    lemma_appended(doc1(a, v), b, w);
    let d = doc1(a, v).with(b, w);
    assert(d.entries =~= seq![(a, v), (b, w)]);
    assert(d.entries[0] == (a, v));
    assert(d.entries[1] == (b, w));
}

/// What a document of one operator asks.
pub proof fn lemma_one_asked(
    before: spec_fn(BsonV, BsonV) -> bool,
    op: Seq<char>,
    v: BsonV,
    x: Option<BsonV>,
)
    ensures
        asks_all(before, doc1(op, v), x) == asks(before, op, v, x),
{
    lemma_doc1(op, v);
    assert(doc1(op, v).entries[0] == (op, v));
}

} // verus!
