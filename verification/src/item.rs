//! Attribute values and items.
//!
//! An item maps attribute names to values and keeps the names in text order,
//! so that two items with the same attributes are stored alike.

use vstd::prelude::*;
use vstd::string::*;

use crate::bson::{copy_bytes, text_seq};
use crate::order::{lemma_lt_irreflexive, lemma_lt_total, lemma_lt_transitive, text_before, text_lt};
use crate::text::text_eq;

verus! {

/// A value of an attribute, tagged with its type.
#[derive(Debug, PartialEq)]
pub enum AttributeValue {
    S(String),
    N(String),
    B(Vec<u8>),
    Bool(bool),
    Null,
    L(Vec<AttributeValue>),
    M(Item),
    SS(Vec<String>),
    NS(Vec<String>),
    BS(Vec<Vec<u8>>),
}

/// Named attribute values, in text order of the names.
#[derive(Debug, PartialEq)]
pub struct Item {
    entries: Vec<(String, AttributeValue)>,
}

/// The model of an attribute value.
#[verifier::ext_equal]
pub enum AvV {
    S(Seq<char>),
    N(Seq<char>),
    B(Seq<u8>),
    Bool(bool),
    Null,
    L(Seq<AvV>),
    M(ItemV),
    SS(Seq<Seq<char>>),
    NS(Seq<Seq<char>>),
    BS(Seq<Seq<u8>>),
}

/// The model of an item.
#[verifier::ext_equal]
pub struct ItemV {
    pub entries: Seq<(Seq<char>, AvV)>,
}

/// The models of a list of byte strings.
pub open spec fn bytes_seq(v: Seq<Vec<u8>>) -> Seq<Seq<u8>> {
    Seq::new(v.len(), |i: int| v[i]@)
}

pub closed spec fn av_view(v: AttributeValue) -> AvV
    decreases v,
{
    match v {
        AttributeValue::S(s) => AvV::S(s@),
        AttributeValue::N(s) => AvV::N(s@),
        AttributeValue::B(b) => AvV::B(b@),
        AttributeValue::Bool(b) => AvV::Bool(b),
        AttributeValue::Null => AvV::Null,
        AttributeValue::L(l) => AvV::L(
            Seq::new(
                l@.len(),
                |i: int|
                    if 0 <= i < l@.len() {
                        av_view(l@[i])
                    } else {
                        AvV::Null
                    },
            ),
        ),
        AttributeValue::M(m) => AvV::M(item_view(m)),
        AttributeValue::SS(s) => AvV::SS(text_seq(s@)),
        AttributeValue::NS(s) => AvV::NS(text_seq(s@)),
        AttributeValue::BS(s) => AvV::BS(bytes_seq(s@)),
    }
}

pub closed spec fn item_view(m: Item) -> ItemV
    decreases m,
{
    ItemV {
        entries: Seq::new(
            m.entries@.len(),
            |i: int|
                if 0 <= i < m.entries@.len() {
                    (m.entries@[i].0@, av_view(m.entries@[i].1))
                } else {
                    (Seq::empty(), AvV::Null)
                },
        ),
    }
}

impl View for AttributeValue {
    type V = AvV;

    open spec fn view(&self) -> AvV {
        av_view(*self)
    }
}

impl View for Item {
    type V = ItemV;

    open spec fn view(&self) -> ItemV {
        item_view(*self)
    }
}

/// The models of a list of values.
pub open spec fn av_seq(v: Seq<AttributeValue>) -> Seq<AvV> {
    Seq::new(v.len(), |i: int| v[i]@)
}

/// The models of a list of items.
pub open spec fn item_seq(v: Seq<Item>) -> Seq<ItemV> {
    Seq::new(v.len(), |i: int| v[i]@)
}

/// The model of an optional item.
pub open spec fn opt_item(o: Option<Item>) -> Option<ItemV> {
    match o {
        Some(i) => Some(i@),
        None => None,
    }
}

/// What the view of each kind of value is.
pub broadcast proof fn lemma_av_view(v: AttributeValue)
    ensures
        #[trigger] v@ == match v {
            AttributeValue::S(s) => AvV::S(s@),
            AttributeValue::N(s) => AvV::N(s@),
            AttributeValue::B(b) => AvV::B(b@),
            AttributeValue::Bool(b) => AvV::Bool(b),
            AttributeValue::Null => AvV::Null,
            AttributeValue::L(l) => AvV::L(av_seq(l@)),
            AttributeValue::M(m) => AvV::M(m@),
            AttributeValue::SS(s) => AvV::SS(text_seq(s@)),
            AttributeValue::NS(s) => AvV::NS(text_seq(s@)),
            AttributeValue::BS(s) => AvV::BS(bytes_seq(s@)),
        },
{
    if let AttributeValue::L(l) = v {
        assert(v@->L_0 =~= av_seq(l@));
    }
}

/// The names stand in strict text order.
pub open spec fn sorted(s: Seq<(Seq<char>, AvV)>) -> bool {
    forall|i: int, j: int| 0 <= i < j < s.len() ==> text_lt((#[trigger] s[i]).0, (#[trigger] s[j]).0)
}

/// The first position at or after `i` whose name is not before `k`.
pub open spec fn slot_from(s: Seq<(Seq<char>, AvV)>, k: Seq<char>, i: int) -> int
    decreases s.len() - i,
{
    if i < 0 || i >= s.len() {
        s.len() as int
    } else if text_lt(s[i].0, k) {
        slot_from(s, k, i + 1)
    } else {
        i
    }
}

impl ItemV {
    /// The item without attributes.
    pub open spec fn empty() -> ItemV {
        ItemV { entries: Seq::empty() }
    }

    /// The names stand in strict text order, so none occurs twice.
    pub open spec fn wf(self) -> bool {
        sorted(self.entries)
    }

    /// The value under a name.
    #[verifier::opaque]
    pub open spec fn get(self, k: Seq<char>) -> Option<AvV> {
        let i = slot_from(self.entries, k, 0);
        if i < self.entries.len() && self.entries[i].0 == k {
            Some(self.entries[i].1)
        } else {
            None
        }
    }

    /// Whether an attribute of that name is present.
    pub open spec fn has(self, k: Seq<char>) -> bool {
        self.get(k) is Some
    }

    /// This item after `k` was set to `v`.
    #[verifier::opaque]
    pub open spec fn with(self, k: Seq<char>, v: AvV) -> ItemV {
        let i = slot_from(self.entries, k, 0);
        if i < self.entries.len() && self.entries[i].0 == k {
            ItemV { entries: self.entries.update(i, (k, v)) }
        } else {
            ItemV { entries: self.entries.insert(i, (k, v)) }
        }
    }
}

proof fn lemma_slot(s: Seq<(Seq<char>, AvV)>, k: Seq<char>, i: int)
    requires
        0 <= i <= s.len(),
    ensures
        i <= slot_from(s, k, i) <= s.len(),
        slot_from(s, k, i) < s.len() ==> !text_lt(s[slot_from(s, k, i)].0, k),
        forall|j: int| i <= j < slot_from(s, k, i) ==> text_lt((#[trigger] s[j]).0, k),
    decreases s.len() - i,
{
    if i < s.len() && text_lt(s[i].0, k) {
        lemma_slot(s, k, i + 1);
    }
}

proof fn lemma_slot_unique(s: Seq<(Seq<char>, AvV)>, k: Seq<char>, i: int, p: int)
    requires
        0 <= i <= p <= s.len(),
        p < s.len() ==> !text_lt(s[p].0, k),
        forall|j: int| i <= j < p ==> text_lt((#[trigger] s[j]).0, k),
    ensures
        slot_from(s, k, i) == p,
    decreases s.len() - i,
{
    if i < p {
        lemma_slot_unique(s, k, i + 1, p);
    }
}

/// Setting an attribute keeps the names in order.
pub proof fn lemma_with_wf(m: ItemV, k: Seq<char>, v: AvV)
    requires
        m.wf(),
    ensures
        m.with(k, v).wf(),
{
    reveal(ItemV::with);
    let s = m.entries;
    lemma_slot(s, k, 0);
    let p = slot_from(s, k, 0);
    let t = m.with(k, v).entries;
    if p < s.len() && s[p].0 == k {
        assert forall|i: int, j: int| 0 <= i < j < t.len() implies text_lt(
            (#[trigger] t[i]).0,
            (#[trigger] t[j]).0,
        ) by {
            assert(t[i].0 == s[i].0 && t[j].0 == s[j].0);
            assert(text_lt(s[i].0, s[j].0));
        }
    } else {
        assert forall|i: int, j: int| 0 <= i < j < t.len() implies text_lt(
            (#[trigger] t[i]).0,
            (#[trigger] t[j]).0,
        ) by {
            if i < p && j == p {
                assert(t[i] == s[i]);
            } else if i < p && j < p {
                assert(text_lt(s[i].0, s[j].0));
            } else if i < p {
                assert(text_lt(s[i].0, s[j - 1].0));
            } else {
                lemma_lt_total(s[p].0, k);
                if i == p {
                    if j - 1 > p {
                        assert(text_lt(s[p].0, s[j - 1].0));
                        lemma_lt_transitive(k, s[p].0, s[j - 1].0);
                    }
                } else {
                    assert(text_lt(s[i - 1].0, s[j - 1].0));
                }
            }
        }
    }
}

/// What was set under a name is what stands under it.
pub proof fn lemma_item_get_same(m: ItemV, k: Seq<char>, v: AvV)
    ensures
        m.with(k, v).get(k) == Some(v),
{
    reveal(ItemV::with);
    reveal(ItemV::get);
    lemma_slot(m.entries, k, 0);
    lemma_lt_irreflexive(k);
    let p = slot_from(m.entries, k, 0);
    lemma_slot_unique(m.with(k, v).entries, k, 0, p);
}

/// Setting one name leaves what stands under every other name.
pub proof fn lemma_item_get_other(m: ItemV, k: Seq<char>, v: AvV, k2: Seq<char>)
    requires
        m.wf(),
        k != k2,
    ensures
        m.with(k, v).get(k2) == m.get(k2),
{
    reveal(ItemV::with);
    reveal(ItemV::get);
    let s = m.entries;
    let t = m.with(k, v).entries;
    lemma_with_wf(m, k, v);
    lemma_slot(s, k, 0);
    lemma_slot(s, k2, 0);
    lemma_slot(t, k2, 0);
    let p = slot_from(s, k, 0);
    let q = slot_from(s, k2, 0);
    lemma_lt_total(k, k2);
    if p < s.len() && s[p].0 == k {
        lemma_slot_unique(t, k2, 0, q);
    } else if text_lt(k, k2) {
        // The new name stands before `k2`: everything from `q` on moves by one.
        if q < p {
            lemma_lt_total(s[q].0, k2);
            assert(text_lt(s[q].0, k));
            lemma_lt_transitive(s[q].0, k, k2);
        }
        assert(q >= p);
        assert forall|j: int| 0 <= j < q + 1 implies text_lt((#[trigger] t[j]).0, k2) by {
            if j < p {
                assert(t[j] == s[j]);
            } else if j > p {
                assert(t[j] == s[j - 1]);
            }
        }
        if q < s.len() {
            assert(t[q + 1] == s[q]);
        }
        lemma_slot_unique(t, k2, 0, q + 1);
    } else {
        // The new name stands after `k2`.
        if q > p {
            assert(text_lt(s[p].0, k2));
            lemma_lt_transitive(s[p].0, k2, k);
        }
        assert(q <= p);
        assert forall|j: int| 0 <= j < q implies text_lt((#[trigger] t[j]).0, k2) by {
            assert(t[j] == s[j]);
        }
        if q < p {
            assert(t[q] == s[q]);
        } else {
            assert(t[q] == (k, v));
            if text_lt(k, k2) {
                lemma_lt_transitive(k, k2, k);
                lemma_lt_irreflexive(k);
            }
            if q < s.len() && s[q].0 == k2 {
                assert(!text_lt(s[q].0, k));
            }
        }
        lemma_slot_unique(t, k2, 0, q);
    }
}

/// Nothing stands in the empty item.
pub proof fn lemma_item_get_empty(k: Seq<char>)
    ensures
        ItemV::empty().get(k) is None,
        ItemV::empty().wf(),
{
    reveal(ItemV::get);
}

/// An entry of an ordered item is what stands under its name.
pub proof fn lemma_item_get_at(m: ItemV, i: int)
    requires
        m.wf(),
        0 <= i < m.entries.len(),
    ensures
        m.get(m.entries[i].0) == Some(m.entries[i].1),
{
    reveal(ItemV::get);
    lemma_lt_irreflexive(m.entries[i].0);
    lemma_slot_unique(m.entries, m.entries[i].0, 0, i);
}

/// What stands under a name is one of the entries.
pub proof fn lemma_item_get_index(m: ItemV, k: Seq<char>) -> (i: int)
    requires
        m.get(k) is Some,
    ensures
        0 <= i < m.entries.len(),
        m.entries[i].0 == k,
        m.get(k) == Some(m.entries[i].1),
{
    reveal(ItemV::get);
    lemma_slot(m.entries, k, 0);
    slot_from(m.entries, k, 0)
}

/// A name after all the others is set by appending.
pub proof fn lemma_with_last(m: ItemV, k: Seq<char>, v: AvV)
    requires
        forall|i: int| 0 <= i < m.entries.len() ==> text_lt((#[trigger] m.entries[i]).0, k),
    ensures
        m.with(k, v) == (ItemV { entries: m.entries.push((k, v)) }),
{
    reveal(ItemV::with);
    lemma_slot_unique(m.entries, k, 0, m.entries.len() as int);
    assert(m.entries.insert(m.entries.len() as int, (k, v)) =~= m.entries.push((k, v)));
}

/// Two ordered items with the same attributes are the same item.
pub proof fn lemma_item_ext(a: ItemV, b: ItemV)
    requires
        a.wf(),
        b.wf(),
        forall|k: Seq<char>| #[trigger] a.get(k) == b.get(k),
    ensures
        a == b,
    decreases a.entries.len() + b.entries.len(),
{
    let n = a.entries.len();
    let m = b.entries.len();
    if n == 0 && m == 0 {
        assert(a.entries =~= b.entries);
    } else if n == 0 {
        lemma_item_get_at(b, 0);
        let k = b.entries[0].0;
        assert(a.get(k) == b.get(k));
        let i = lemma_item_get_index(a, k);
    } else if m == 0 {
        lemma_item_get_at(a, 0);
        let k = a.entries[0].0;
        assert(a.get(k) == b.get(k));
        let i = lemma_item_get_index(b, k);
    } else {
        // The greatest names agree, and so does what is left without them.
        let ka = a.entries[n - 1].0;
        let kb = b.entries[m - 1].0;
        lemma_item_get_at(a, n - 1);
        lemma_item_get_at(b, m - 1);
        assert(a.get(ka) == b.get(ka));
        assert(a.get(kb) == b.get(kb));
        let i = lemma_item_get_index(b, ka);
        let j = lemma_item_get_index(a, kb);
        if ka != kb {
            assert(text_lt(b.entries[i].0, b.entries[m - 1].0));
            assert(text_lt(a.entries[j].0, a.entries[n - 1].0));
            lemma_lt_transitive(ka, kb, ka);
            lemma_lt_irreflexive(ka);
        }
        let a0 = ItemV { entries: a.entries.drop_last() };
        let b0 = ItemV { entries: b.entries.drop_last() };
        assert(a0.wf()) by {
            assert forall|x: int, y: int| 0 <= x < y < a0.entries.len() implies text_lt(
                (#[trigger] a0.entries[x]).0,
                (#[trigger] a0.entries[y]).0,
            ) by {
                assert(text_lt(a.entries[x].0, a.entries[y].0));
            }
        }
        assert(b0.wf()) by {
            assert forall|x: int, y: int| 0 <= x < y < b0.entries.len() implies text_lt(
                (#[trigger] b0.entries[x]).0,
                (#[trigger] b0.entries[y]).0,
            ) by {
                assert(text_lt(b.entries[x].0, b.entries[y].0));
            }
        }
        assert forall|k: Seq<char>| #[trigger] a0.get(k) == b0.get(k) by {
            lemma_drop_last_get(a, k);
            lemma_drop_last_get(b, k);
            assert(a.get(k) == b.get(k));
        }
        lemma_item_ext(a0, b0);
        assert(a.entries =~= a0.entries.push(a.entries[n - 1]));
        assert(b.entries =~= b0.entries.push(b.entries[m - 1]));
    }
}

proof fn lemma_drop_last_get(a: ItemV, k: Seq<char>)
    requires
        a.wf(),
        a.entries.len() > 0,
    ensures
        (ItemV { entries: a.entries.drop_last() }).get(k) == (if k == a.entries.last().0 {
            None
        } else {
            a.get(k)
        }),
{
    reveal(ItemV::get);
    let s = a.entries;
    let t = s.drop_last();
    lemma_slot(s, k, 0);
    let p = slot_from(s, k, 0);
    if p < t.len() {
        lemma_slot_unique(t, k, 0, p);
        if k == s.last().0 {
            assert(text_lt(s[p].0, s[s.len() - 1].0));
        }
    } else {
        lemma_slot_unique(t, k, 0, t.len() as int);
    }
}

// --- Executable items ------------------------------------------------------

/// A copy of a value.
pub fn copy_av(v: &AttributeValue) -> (r: AttributeValue)
    ensures
        r@ == v@,
    decreases v,
{
    broadcast use lemma_av_view;

    match v {
        AttributeValue::S(s) => AttributeValue::S(s.clone()),
        AttributeValue::N(s) => AttributeValue::N(s.clone()),
        AttributeValue::B(b) => AttributeValue::B(copy_bytes(b)),
        AttributeValue::Bool(b) => AttributeValue::Bool(*b),
        AttributeValue::Null => AttributeValue::Null,
        AttributeValue::L(l) => {
            let mut out: Vec<AttributeValue> = Vec::new();
            let mut i: usize = 0;
            while i < l.len()
                invariant
                    i <= l.len(),
                    out@.len() == i,
                    decreases_to!(v => l),
                    forall|j: int| 0 <= j < i ==> (#[trigger] out@[j])@ == l@[j]@,
                decreases l.len() - i,
            {
                let c = copy_av(&l[i]);
                out.push(c);
                i += 1;
            }
            assert(av_seq(out@) =~= av_seq(l@));
            AttributeValue::L(out)
        },
        AttributeValue::M(m) => AttributeValue::M(copy_item(m)),
        AttributeValue::SS(s) => AttributeValue::SS(copy_texts(s)),
        AttributeValue::NS(s) => AttributeValue::NS(copy_texts(s)),
        AttributeValue::BS(s) => {
            let mut out: Vec<Vec<u8>> = Vec::new();
            let mut i: usize = 0;
            while i < s.len()
                invariant
                    i <= s.len(),
                    out@.len() == i,
                    forall|j: int| 0 <= j < i ==> (#[trigger] out@[j])@ == s@[j]@,
                decreases s.len() - i,
            {
                let c = copy_bytes(&s[i]);
                out.push(c);
                i += 1;
            }
            assert(bytes_seq(out@) =~= bytes_seq(s@));
            AttributeValue::BS(out)
        },
    }
}

/// A copy of a list of texts.
pub fn copy_texts(s: &Vec<String>) -> (r: Vec<String>)
    ensures
        text_seq(r@) == text_seq(s@),
{
    let mut out: Vec<String> = Vec::new();
    let mut i: usize = 0;
    while i < s.len()
        invariant
            i <= s.len(),
            out@.len() == i,
            forall|j: int| 0 <= j < i ==> (#[trigger] out@[j])@ == s@[j]@,
        decreases s.len() - i,
    {
        out.push(s[i].clone());
        i += 1;
    }
    assert(text_seq(out@) =~= text_seq(s@));
    out
}

/// A copy of an item.
pub fn copy_item(m: &Item) -> (r: Item)
    ensures
        r@ == m@,
        r@.wf(),
    decreases m,
{
    proof {
        use_type_invariant(m);
    }
    let mut out: Vec<(String, AttributeValue)> = Vec::new();
    let mut i: usize = 0;
    while i < m.entries.len()
        invariant
            i <= m.entries.len(),
            out@.len() == i,
            forall|j: int|
                0 <= j < i ==> (#[trigger] out@[j]).0@ == m.entries@[j].0@ && out@[j].1@
                    == m.entries@[j].1@,
        decreases m.entries.len() - i,
    {
        let c = copy_av(&m.entries[i].1);
        out.push((m.entries[i].0.clone(), c));
        i += 1;
    }
    assert(pairs(out@) =~= pairs(m.entries@));
    let r = Item { entries: out };
    assert(r@.entries =~= m@.entries);
    assert(r@.entries =~= pairs(m.entries@));
    r
}

impl Clone for AttributeValue {
    fn clone(&self) -> (r: Self)
        ensures
            r@ == self@,
    {
        copy_av(self)
    }
}

impl Clone for Item {
    fn clone(&self) -> (r: Self)
        ensures
            r@ == self@,
    {
        copy_item(self)
    }
}

/// The models of stored attributes.
spec fn pairs(v: Seq<(String, AttributeValue)>) -> Seq<(Seq<char>, AvV)> {
    Seq::new(v.len(), |i: int| (v[i].0@, v[i].1@))
}

impl Item {
    #[verifier::type_invariant]
    spec fn inv(self) -> bool {
        sorted(pairs(self.entries@))
    }

    /// The item without attributes.
    pub fn new() -> (r: Item)
        ensures
            r@ == ItemV::empty(),
    {
        let r = Item { entries: Vec::new() };
        assert(r@.entries =~= Seq::empty());
        r
    }

    /// The number of attributes. Their names stand in order, as in every item.
    pub fn len(&self) -> (r: usize)
        ensures
            r == self@.entries.len(),
            self@.wf(),
    {
        proof {
            use_type_invariant(self);
            assert(self@.entries =~= pairs(self.entries@));
        }
        self.entries.len()
    }

    /// The name at a position.
    pub fn key_at(&self, i: usize) -> (r: &str)
        requires
            i < self@.entries.len(),
        ensures
            r@ == self@.entries[i as int].0,
    {
        self.entries[i].0.as_str()
    }

    /// The value at a position.
    pub fn value_at(&self, i: usize) -> (r: &AttributeValue)
        requires
            i < self@.entries.len(),
        ensures
            r@ == self@.entries[i as int].1,
    {
        &self.entries[i].1
    }

    fn slot(&self, key: &str) -> (r: usize)
        ensures
            r == slot_from(self@.entries, key@, 0),
            r <= self.entries@.len(),
    {
        let mut i: usize = 0;
        while i < self.entries.len()
            invariant
                i <= self.entries.len(),
                slot_from(self@.entries, key@, 0) == slot_from(self@.entries, key@, i as int),
            decreases self.entries.len() - i,
        {
            if !text_before(self.entries[i].0.as_str(), key) {
                return i;
            }
            i += 1;
        }
        i
    }

    /// The value under a name.
    pub fn get(&self, key: &str) -> (r: Option<&AttributeValue>)
        ensures
            match r {
                Some(v) => self@.get(key@) == Some(v@),
                None => self@.get(key@) is None,
            },
    {
        reveal(ItemV::get);
        let i = self.slot(key);
        if i < self.entries.len() && text_eq(self.entries[i].0.as_str(), key) {
            Some(&self.entries[i].1)
        } else {
            None
        }
    }

    /// Whether an attribute of that name is present.
    pub fn contains_key(&self, key: &str) -> (r: bool)
        ensures
            r == self@.has(key@),
    {
        self.get(key).is_some()
    }

    /// Sets an attribute.
    pub fn insert(&mut self, key: &str, value: AttributeValue)
        ensures
            final(self)@ == old(self)@.with(key@, value@),
    {
        proof {
            use_type_invariant(&*self);
            assert(self@.entries =~= pairs(self.entries@));
            lemma_with_wf(self@, key@, value@);
        }
        reveal(ItemV::with);
        let i = self.slot(key);
        let ghost before = self@;
        let mut entries: Vec<(String, AttributeValue)> = Vec::new();
        std::mem::swap(&mut entries, &mut self.entries);
        if i < entries.len() && text_eq(entries[i].0.as_str(), key) {
            entries.set(i, (key.to_owned(), value));
        } else {
            entries.insert(i, (key.to_owned(), value));
        }
        assert(pairs(entries@) =~= before.with(key@, value@).entries);
        self.entries = entries;
        assert(self@.entries =~= pairs(self.entries@));
    }

    /// This item with an attribute set.
    pub fn with(self, key: &str, value: AttributeValue) -> (r: Item)
        ensures
            r@ == self@.with(key@, value@),
    {
        let mut m = self;
        m.insert(key, value);
        m
    }
}

} // verus!
