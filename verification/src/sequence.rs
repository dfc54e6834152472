//! Sequence numbers and shard identifiers of streams.

use vstd::prelude::*;
use vstd::string::*;

use crate::number::{
    digit_value, digits_value, is_digit, lemma_nat_text, lemma_nat_text_len, lemma_zeros_value,
    nat_text, padded_nat, padded_u64, pow10, zeros,
};
use crate::order::text_lt;
use crate::text::{join2, join3};

verus! {

/// How many shards a stream has.
pub const SHARDS_PER_STREAM: u32 = 4;

/// A sequence number: 21 characters, zeros in front.
pub open spec fn sequence_text(n: int) -> Seq<char> {
    if n < 0 {
        "-"@ + padded_nat((-n) as nat, 20)
    } else {
        padded_nat(n as nat, 21)
    }
}

/// The identifier of a shard of a table.
pub open spec fn shard_id_text(table_name: Seq<char>, i: nat) -> Seq<char> {
    "shardId-"@ + table_name + "-"@ + padded_nat(i, 12)
}

/// Prints a sequence number.
pub fn format_sequence(n: i64) -> (r: String)
    ensures
        r@ == sequence_text(n as int),
{
    if n < 0 {
        let m: u64 = if n == i64::MIN {
            9223372036854775808u64
        } else {
            (-n) as u64
        };
        let t = padded_u64(m, 20);
        join2("-", t.as_str())
    } else {
        padded_u64(n as u64, 21)
    }
}

/// The identifier of a shard of a table.
pub fn format_shard_id(table_name: &str, i: u32) -> (r: String)
    ensures
        r@ == shard_id_text(table_name@, i as nat),
{
    let t = padded_u64(i as u64, 12);
    let mut s = join3("shardId-", table_name, "-");
    s.append(t.as_str());
    s
}

// --- Laws --------------------------------------------------------------------------

proof fn lemma_pow10_positive(k: nat)
    ensures
        pow10(k) > 0,
    decreases k,
{
    if k > 0 {
        lemma_pow10_positive((k - 1) as nat);
    }
}

/// The value of digits, the first one taken apart.
proof fn lemma_value_front(s: Seq<char>)
    requires
        s.len() > 0,
    ensures
        digits_value(s) == digit_value(s[0]) * pow10((s.len() - 1) as nat) + digits_value(
            s.skip(1),
        ),
    decreases s.len(),
{
    let d = digit_value(s[0]);
    if s.len() == 1 {
        assert(s.drop_last() =~= Seq::empty());
        assert(s.skip(1) =~= Seq::empty());
        reveal_with_fuel(digits_value, 2);
        let one = pow10(0);
        assert(d * one == d) by (nonlinear_arith)
            requires
                one == 1,
        ;
    } else {
        let n = (s.len() - 1) as nat;
        let p = pow10((n - 1) as nat);
        let q = pow10(n);
        lemma_value_front(s.drop_last());
        assert(s.drop_last().skip(1) =~= s.skip(1).drop_last());
        assert(s.skip(1).last() == s.last());
        assert(s.drop_last()[0] == s[0]);
        assert(q == 10 * p);
        let rest = digits_value(s.skip(1).drop_last());
        assert(digits_value(s.drop_last()) == d * p + rest);
        assert((d * p + rest) * 10 == d * q + rest * 10) by (nonlinear_arith)
            requires
                q == 10 * p,
        ;
        assert(digits_value(s.skip(1)) == rest * 10 + digit_value(s.last()));
    }
}

proof fn lemma_value_bound(s: Seq<char>)
    requires
        forall|i: int| 0 <= i < s.len() ==> is_digit(#[trigger] s[i]),
    ensures
        0 <= digits_value(s) < pow10(s.len()),
    decreases s.len(),
{
    if s.len() > 0 {
        lemma_value_bound(s.drop_last());
        assert(is_digit(s.last()));
    } else {
        assert(pow10(0) == 1);
    }
}

/// Runs of digits of the same length stand in text order as their values do.
proof fn lemma_digits_order(s: Seq<char>, t: Seq<char>)
    requires
        s.len() == t.len(),
        forall|i: int| 0 <= i < s.len() ==> is_digit(#[trigger] s[i]),
        forall|i: int| 0 <= i < t.len() ==> is_digit(#[trigger] t[i]),
    ensures
        text_lt(s, t) <==> digits_value(s) < digits_value(t),
    decreases s.len(),
{
    if s.len() > 0 {
        lemma_value_front(s);
        lemma_value_front(t);
        let s1 = s.skip(1);
        let t1 = t.skip(1);
        assert forall|i: int| 0 <= i < s1.len() implies is_digit(#[trigger] s1[i]) by {
            assert(is_digit(s[i + 1]));
        }
        assert forall|i: int| 0 <= i < t1.len() implies is_digit(#[trigger] t1[i]) by {
            assert(is_digit(t[i + 1]));
        }
        lemma_value_bound(s1);
        lemma_value_bound(t1);
        lemma_digits_order(s1, t1);
        assert(is_digit(s[0]) && is_digit(t[0]));
        let p = pow10((s.len() - 1) as nat);
        let a = digit_value(s[0]);
        let b = digit_value(t[0]);
        let x = digits_value(s1);
        let y = digits_value(t1);
        if a < b {
            assert(a * p + x < b * p + y) by (nonlinear_arith)
                requires
                    a < b,
                    0 <= x < p,
                    0 <= y < p,
            ;
        } else if a > b {
            assert(a * p + x > b * p + y) by (nonlinear_arith)
                requires
                    a > b,
                    0 <= x < p,
                    0 <= y < p,
            ;
        }
    }
}

proof fn lemma_padded(n: nat, width: nat)
    requires
        width > 0,
        n < pow10(width),
    ensures
        padded_nat(n, width).len() == width,
        digits_value(padded_nat(n, width)) == n,
        forall|i: int| 0 <= i < width ==> is_digit(#[trigger] padded_nat(n, width)[i]),
{
    lemma_nat_text(n);
    lemma_nat_text_len(n, width);
    let t = nat_text(n);
    let k = (width - t.len()) as nat;
    lemma_zeros_value(k, t);
    if t.len() == width {
        assert(zeros(0) + t =~= t);
    }
    assert(padded_nat(n, width) =~= zeros(k) + t);
    assert forall|i: int| 0 <= i < width implies is_digit(#[trigger] padded_nat(n, width)[i]) by {
        if i >= k {
            assert(is_digit(t[i - k]));
        }
    }
}

proof fn lemma_pow10_21()
    ensures
        pow10(21) == 1000000000000000000000nat,
{
    reveal_with_fuel(pow10, 22);
}

/// Sequence numbers have 21 characters, and the text order of two of them is
/// that of the numbers: reading records in the order of the text reads them in
/// the order in which they were numbered.
pub proof fn law_sequence_order(a: i64, b: i64)
    requires
        0 <= a,
        0 <= b,
    ensures
        sequence_text(a as int).len() == 21,
        text_lt(sequence_text(a as int), sequence_text(b as int)) <==> a < b,
        sequence_text(a as int) == sequence_text(b as int) <==> a == b,
{
    lemma_pow10_21();
    lemma_padded(a as nat, 21);
    lemma_padded(b as nat, 21);
    lemma_digits_order(sequence_text(a as int), sequence_text(b as int));
}

/// The shards of a table have different identifiers.
pub proof fn law_shard_ids_differ(table_name: Seq<char>, i: nat, j: nat)
    requires
        i < SHARDS_PER_STREAM,
        j < SHARDS_PER_STREAM,
        shard_id_text(table_name, i) == shard_id_text(table_name, j),
    ensures
        i == j,
{
    reveal_with_fuel(pow10, 13);
    lemma_padded(i, 12);
    lemma_padded(j, 12);
    let p = "shardId-"@ + table_name + "-"@;
    assert(shard_id_text(table_name, i).skip(p.len() as int) =~= padded_nat(i, 12));
    assert(shard_id_text(table_name, j).skip(p.len() as int) =~= padded_nat(j, 12));
}

} // verus!
