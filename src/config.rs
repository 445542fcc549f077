//! Reading a multisig account's configuration and proposals out of metadata.

use vstd::prelude::*;
use crate::instruction::{Instruction, Value, ValueView};
use crate::names::{AccountId, AccountKey};
use crate::table::{
    KeyView, Keyed, Table, keys_sorted, keys_unique, lemma_pairs_map_at, lemma_pairs_map_has,
    lemma_sorted_insert, lemma_sorted_pairs_canonical, lemma_sorted_position, pairs_map,
};
use crate::world::{ExecError, World, account_kv};

verus! {

/// The number stored under `key` of `a`, if that entry holds a number.
pub open spec fn number_at(w: World, a: AccountKey, key: Seq<char>) -> Option<u64> {
    if w.has_meta(a, key) {
        match w.meta(a, key) {
            ValueView::Number(n) => Some(n),
            _ => None,
        }
    } else {
        None
    }
}

/// The signatory weights stored under `key` of `a`, if that entry holds them.
pub open spec fn weights_at(w: World, a: AccountKey, key: Seq<char>) -> Option<Seq<(KeyView, u8)>> {
    if w.has_meta(a, key) {
        match w.meta(a, key) {
            ValueView::Weights(p) => Some(p),
            _ => None,
        }
    } else {
        None
    }
}

/// The accounts stored under `key` of `a`, if that entry holds a set of accounts.
pub open spec fn accounts_at(w: World, a: AccountKey, key: Seq<char>) -> Option<Seq<(KeyView, ())>> {
    if w.has_meta(a, key) {
        match w.meta(a, key) {
            ValueView::Accounts(p) => Some(p),
            _ => None,
        }
    } else {
        None
    }
}

/// The encoding of the instructions stored under `key` of `a`, if that entry holds some.
pub open spec fn instructions_at(w: World, a: AccountKey, key: Seq<char>) -> Option<Seq<u8>> {
    if w.has_meta(a, key) {
        match w.meta(a, key) {
            ValueView::Instructions(b) => Some(b),
            _ => None,
        }
    } else {
        None
    }
}

/// Whether an entry of `s` has key `k`.
pub open spec fn listed<W>(s: Seq<(KeyView, W)>, k: KeyView) -> bool {
    exists|i: int| 0 <= i < s.len() && #[trigger] s[i].0 == k
}

/// The set `s` with the account key `k` added, sorted by key.
pub open spec fn with_member(s: Seq<(KeyView, ())>, k: KeyView) -> Seq<(KeyView, ())> {
    choose|t: Seq<(KeyView, ())>| keys_unique(t) && keys_sorted(t) && pairs_map(t) == pairs_map(s).insert(k, ())
}

/// The sorted set that `with_member` names exists.
pub proof fn lemma_with_member(s: Seq<(KeyView, ())>, k: KeyView)
    requires
        keys_unique(s),
        keys_sorted(s),
    ensures
        keys_unique(with_member(s, k)),
        keys_sorted(with_member(s, k)),
        pairs_map(with_member(s, k)) == pairs_map(s).insert(k, ()),
{
    if pairs_map(s).contains_key(k) {
        assert(pairs_map(s).insert(k, ()) =~= pairs_map(s));
        assert(keys_unique(s) && keys_sorted(s) && pairs_map(s) == pairs_map(s).insert(k, ()));
    } else {
        assert forall|i: int| 0 <= i < s.len() implies #[trigger] s[i].0 != k by {
            if s[i].0 == k {
                lemma_pairs_map_at(s, i);
            }
        }
        let p = lemma_sorted_position(s, k);
        lemma_sorted_insert(s, p, (k, ()));
        let t = s.insert(p, (k, ()));
        assert(keys_unique(t) && keys_sorted(t) && pairs_map(t) == pairs_map(s).insert(k, ()));
    }
}

/// In a list without repeated keys, being listed is being in the map.
pub proof fn lemma_listed_is_contained<W>(s: Seq<(KeyView, W)>, k: KeyView)
    requires
        keys_unique(s),
    ensures
        listed(s, k) == pairs_map(s).contains_key(k),
{
    if listed(s, k) {
        let i = choose|i: int| 0 <= i < s.len() && #[trigger] s[i].0 == k;
        lemma_pairs_map_at(s, i);
    }
    if pairs_map(s).contains_key(k) {
        let j = lemma_pairs_map_has(s, k);
        assert(s[j].0 == k);
    }
}

/// The summed weight of the signatories that `approvals` lists.
pub open spec fn weight_sum(sigs: Seq<(KeyView, u8)>, approvals: Seq<(KeyView, ())>) -> nat
    decreases sigs.len(),
{
    if sigs.len() == 0 {
        0
    } else {
        weight_sum(sigs.drop_last(), approvals) + if listed(approvals, sigs.last().0) {
            sigs.last().1 as nat
        } else {
            0
        }
    }
}

/// `n`, or the largest `u16` where `n` exceeds it.
pub open spec fn saturate_u16(n: nat) -> u16 {
    if n > u16::MAX {
        u16::MAX
    } else {
        n as u16
    }
}

/// The refusal of a read of entry `key` of `a` that did not give the
/// expected kind of value: the entry is missing, or holds another kind.
pub open spec fn read_error(w: World, a: AccountKey, key: Seq<char>) -> ExecError {
    if w.has_meta(a, key) {
        ExecError::InvalidMetadata
    } else {
        ExecError::NotFound
    }
}

pub fn read_number(w: &World, a: &AccountId, key: &String) -> (r: Result<u64, ExecError>)
    requires
        w.wf(),
    ensures
        match r {
            Ok(n) => number_at(*w, a@, key@) == Some(n),
            Err(e) => number_at(*w, a@, key@) is None && e == read_error(*w, a@, key@),
        },
{
    match w.get_meta(a, key) {
        Some(Value::Number(n)) => Ok(*n),
        Some(_) => Err(ExecError::InvalidMetadata),
        None => Err(ExecError::NotFound),
    }
}

pub fn read_weights<'a>(w: &'a World, a: &AccountId, key: &String) -> (r: Result<&'a Table<AccountId, u8>, ExecError>)
    requires
        w.wf(),
    ensures
        match r {
            Ok(t) => weights_at(*w, a@, key@) == Some(t.pairs()),
            Err(e) => weights_at(*w, a@, key@) is None && e == read_error(*w, a@, key@),
        },
{
    match w.get_meta(a, key) {
        Some(Value::Weights(t)) => Ok(t),
        Some(_) => Err(ExecError::InvalidMetadata),
        None => Err(ExecError::NotFound),
    }
}

pub fn read_accounts<'a>(w: &'a World, a: &AccountId, key: &String) -> (r: Result<&'a Table<AccountId, ()>, ExecError>)
    requires
        w.wf(),
    ensures
        match r {
            Ok(t) => accounts_at(*w, a@, key@) == Some(t.pairs()),
            Err(e) => accounts_at(*w, a@, key@) is None && e == read_error(*w, a@, key@),
        },
{
    match w.get_meta(a, key) {
        Some(Value::Accounts(t)) => Ok(t),
        Some(_) => Err(ExecError::InvalidMetadata),
        None => Err(ExecError::NotFound),
    }
}

pub fn read_instructions<'a>(w: &'a World, a: &AccountId, key: &String) -> (r: Result<&'a Vec<Instruction>, ExecError>)
    requires
        w.wf(),
    ensures
        match r {
            Ok(v) => instructions_at(*w, a@, key@) == Some(crate::instruction::enc_list(v@)),
            Err(e) => instructions_at(*w, a@, key@) is None && e == read_error(*w, a@, key@),
        },
{
    match w.get_meta(a, key) {
        Some(Value::Instructions(v)) => Ok(v),
        Some(_) => Err(ExecError::InvalidMetadata),
        None => Err(ExecError::NotFound),
    }
}

/// Whether `t` lists `a`.
pub fn is_listed<W: View>(t: &Table<AccountId, W>, a: &AccountId) -> (r: bool)
    ensures
        r == listed(t.pairs(), account_kv(a@)),
{
    let mut i: usize = 0;
    while i < t.entries.len()
        invariant
            i <= t.entries@.len(),
            forall|j: int| 0 <= j < i ==> #[trigger] t.pairs()[j].0 != account_kv(a@),
        decreases t.entries@.len() - i,
    {
        if t.entries[i].0.same(a) {
            assert(t.pairs()[i as int].0 =~= account_kv(a@));
            return true;
        }
        assert(t.pairs()[i as int].0 != account_kv(a@)) by {
            if t.pairs()[i as int].0 == account_kv(a@) {
                assert(t.pairs()[i as int].0[0] == account_kv(a@)[0]);
                assert(t.pairs()[i as int].0[1] == account_kv(a@)[1]);
            }
        }
        i = i + 1;
    }
    false
}

/// Adds `a` to the set `t`, keeping it sorted.
pub fn add_member(t: &mut Table<AccountId, ()>, a: AccountId)
    requires
        old(t).wf(),
    ensures
        final(t).wf(),
        final(t).pairs() == with_member(old(t).pairs(), account_kv(a@)),
{
    let ghost kv = account_kv(a@);
    assert(a.key_view() =~= kv);
    t.set(a, ());
    proof {
        lemma_with_member(old(t).pairs(), kv);
        lemma_sorted_pairs_canonical(with_member(old(t).pairs(), kv), t.pairs());
    }
}

/// The summed weight of the signatories in `sigs` that `approvals` lists,
/// saturating at the largest `u16`.
pub fn approved_weight(sigs: &Table<AccountId, u8>, approvals: &Table<AccountId, ()>) -> (r: u16)
    ensures
        r == saturate_u16(weight_sum(sigs.pairs(), approvals.pairs())),
{
    let mut acc: u16 = 0;
    let mut i: usize = 0;
    while i < sigs.entries.len()
        invariant
            i <= sigs.entries@.len(),
            acc == saturate_u16(weight_sum(sigs.pairs().subrange(0, i as int), approvals.pairs())),
        decreases sigs.entries@.len() - i,
    {
        let ghost before = sigs.pairs().subrange(0, i as int);
        assert(sigs.pairs().subrange(0, i as int + 1).drop_last() =~= before);
        if is_listed(approvals, &sigs.entries[i].0) {
            acc = acc.saturating_add(sigs.entries[i].1 as u16);
        }
        i = i + 1;
    }
    assert(sigs.pairs().subrange(0, i as int) =~= sigs.pairs());
    acc
}

} // verus!
