//! Base-128 varints as Protocol Buffers writes and reads them.

use vstd::prelude::*;

verus! {

/// The varint bytes of `v`: seven bits per byte, least significant group
/// first, the high bit set on every byte but the last.
pub open spec fn varint_bytes(v: nat) -> Seq<u8>
    decreases v,
{
    if v < 128 {
        seq![v as u8]
    } else {
        seq![(v % 128 + 128) as u8] + varint_bytes(v / 128)
    }
}

/// Reads a varint of at most `budget` bytes from the front of `s`, giving the
/// value and the number of bytes read. When the budget is down to its last
/// byte, that byte must be 0 or 1 (so that ten bytes hold at most 64 bits).
pub open spec fn varint_read(s: Seq<u8>, budget: nat) -> Option<(nat, nat)>
    decreases budget,
{
    if budget == 0 || s.len() == 0 {
        None
    } else if s[0] < 128 {
        if budget == 1 && s[0] >= 2 {
            None
        } else {
            Some((s[0] as nat, 1nat))
        }
    } else {
        match varint_read(s.drop_first(), (budget - 1) as nat) {
            Some((v, n)) => Some(((s[0] - 128) as nat + 128 * v, n + 1)),
            None => None,
        }
    }
}

/// A varint of at most ten bytes at the front of `s`: its value and length.
pub open spec fn read_varint(s: Seq<u8>) -> Option<(u64, nat)> {
    match varint_read(s, 10) {
        Some((v, n)) => Some((v as u64, n)),
        None => None,
    }
}

/// The largest value (plus one) that `budget` bytes can hold under the rule
/// on the last byte.
pub open spec fn varint_limit(budget: nat) -> nat
    decreases budget,
{
    if budget <= 1 {
        2
    } else {
        128 * varint_limit((budget - 1) as nat)
    }
}

pub proof fn lemma_varint_limit_ten()
    ensures
        varint_limit(10) == 0x1_0000_0000_0000_0000,
{
    reveal_with_fuel(varint_limit, 11);
}

pub proof fn lemma_varint_limit_at_least_two(budget: nat)
    ensures
        varint_limit(budget) >= 2,
        budget >= 2 ==> varint_limit(budget) >= 256,
    decreases budget,
{
    if budget > 1 {
        lemma_varint_limit_at_least_two((budget - 1) as nat);
    }
}

pub proof fn lemma_varint_read_bound(s: Seq<u8>, budget: nat)
    requires
        budget >= 1,
    ensures
        varint_read(s, budget) matches Some((v, n)) ==> {
            &&& v < varint_limit(budget)
            &&& 1 <= n <= budget
            &&& n <= s.len()
        },
    decreases budget,
{
    lemma_varint_limit_at_least_two(budget);
    if s.len() > 0 && s[0] >= 128 && budget > 1 {
        lemma_varint_read_bound(s.drop_first(), (budget - 1) as nat);
        if let Some((w, m)) = varint_read(s.drop_first(), (budget - 1) as nat) {
            let lim = varint_limit((budget - 1) as nat);
            assert(128 * w <= 128 * lim - 128);
            assert(varint_limit(budget) == 128 * lim);
        }
    }
}

/// The value of a varint read with the full budget fits in 64 bits.
pub proof fn lemma_read_varint(s: Seq<u8>)
    ensures
        read_varint(s) matches Some((v, n)) ==> {
            &&& 1 <= n <= 10
            &&& n <= s.len()
            &&& varint_read(s, 10) == Some((v as nat, n))
        },
{
    lemma_varint_read_bound(s, 10);
    lemma_varint_limit_ten();
}

/// Reading back the bytes of a value gives the value and consumes exactly
/// those bytes, whatever follows them.
pub proof fn lemma_varint_round_trip_budget(v: nat, rest: Seq<u8>, budget: nat)
    requires
        budget >= 1,
        v < varint_limit(budget),
    ensures
        varint_read(varint_bytes(v) + rest, budget) == Some((v, varint_bytes(v).len())),
        varint_bytes(v).len() <= budget,
    decreases v,
{
    let s = varint_bytes(v) + rest;
    lemma_varint_limit_at_least_two(budget);
    if v < 128 {
        assert(s[0] == v as u8);
    } else {
        assert(budget > 1);
        let head = (v % 128 + 128) as u8;
        assert(v / 128 < varint_limit((budget - 1) as nat));
        lemma_varint_round_trip_budget(v / 128, rest, (budget - 1) as nat);
        assert(s[0] == head);
        assert(s.drop_first() =~= varint_bytes(v / 128) + rest);
    }
}

pub proof fn lemma_varint_round_trip(v: u64, rest: Seq<u8>)
    ensures
        read_varint(varint_bytes(v as nat) + rest) == Some((v, varint_bytes(v as nat).len())),
        1 <= varint_bytes(v as nat).len() <= 10,
{
    lemma_varint_limit_ten();
    lemma_varint_round_trip_budget(v as nat, rest, 10);
}

} // verus!
