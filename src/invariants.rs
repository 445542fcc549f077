//! The shape that proposals keep in account metadata: the three entries of a
//! proposal are present together or absent together.

use vstd::prelude::*;
use crate::keys::{
    approvals_key_of, hex_digit, hex_of, instructions_key_of, proposal_key, proposed_at_ms_key_of,
};
use crate::instruction::ValueView;
use crate::names::AccountKey;
use crate::table::KeyView;
use crate::names::has_prefix;
use crate::world::{World, attached_kv};

verus! {

/// Whether `x` holds no `/`.
pub open spec fn slash_free(x: Seq<char>) -> bool {
    forall|i: int| 0 <= i < x.len() ==> x[i] != '/'
}

/// The last part of the key of one of a proposal's three entries.
pub open spec fn is_leaf(l: Seq<char>) -> bool {
    l == "/instructions"@ || l == "/proposed_at_ms"@ || l == "/approvals"@
}

/// Of the three entries of proposal `x` on account `a`, either all or none are present.
pub open spec fn tri_key(w: World, a: AccountKey, x: Seq<char>) -> bool {
    let i = w.has_meta(a, proposal_key(x, "/instructions"@));
    let p = w.has_meta(a, proposal_key(x, "/proposed_at_ms"@));
    let q = w.has_meta(a, proposal_key(x, "/approvals"@));
    i == p && p == q
}

/// Every proposal on every account is whole.
pub open spec fn proposals_whole(w: World) -> bool {
    forall|a: AccountKey, x: Seq<char>| slash_free(x) ==> #[trigger] tri_key(w, a, x)
}

pub proof fn lemma_hex_slash_free(b: Seq<u8>)
    ensures
        slash_free(hex_of(b)),
    decreases b.len(),
{
    if b.len() > 0 {
        lemma_hex_slash_free(b.drop_last());
        let d1 = hex_digit(b.last() / 16);
        let d2 = hex_digit(b.last() % 16);
        assert(d1 != '/' && d2 != '/');
        let s = hex_of(b);
        assert(s == hex_of(b.drop_last()) + seq![d1, d2]);
    }
}

pub proof fn lemma_leaf_shape(l: Seq<char>)
    requires
        is_leaf(l),
    ensures
        l.len() > 0,
        l[0] == '/',
{
    reveal_strlit("/instructions");
    reveal_strlit("/proposed_at_ms");
    reveal_strlit("/approvals");
}

/// Keys of proposal entries tell apart the proposal and the entry.
pub proof fn lemma_proposal_key_injective(x1: Seq<char>, l1: Seq<char>, x2: Seq<char>, l2: Seq<char>)
    requires
        slash_free(x1),
        slash_free(x2),
        is_leaf(l1),
        is_leaf(l2),
        proposal_key(x1, l1) == proposal_key(x2, l2),
    ensures
        x1 == x2,
        l1 == l2,
{
    reveal_strlit("proposals/");
    lemma_leaf_shape(l1);
    lemma_leaf_shape(l2);
    let p = "proposals/"@;
    let k = proposal_key(x1, l1);
    assert(p.len() == 10);
    if x1.len() < x2.len() {
        assert(k[10 + x1.len() as int] == l1[0]);
        assert(proposal_key(x2, l2)[10 + x1.len() as int] == x2[x1.len() as int]);
        assert(false);
    }
    if x2.len() < x1.len() {
        assert(proposal_key(x2, l2)[10 + x2.len() as int] == l2[0]);
        assert(k[10 + x2.len() as int] == x1[x2.len() as int]);
        assert(false);
    }
    assert(x1 =~= k.subrange(10, 10 + x1.len() as int));
    assert(x2 =~= proposal_key(x2, l2).subrange(10, 10 + x2.len() as int));
    assert(l1 =~= k.subrange(10 + x1.len() as int, k.len() as int));
    assert(l2 =~= proposal_key(x2, l2).subrange(10 + x2.len() as int, k.len() as int));
}

/// The entries of two different proposals lie under different keys.
pub proof fn lemma_other_proposal_keys(a: AccountKey, x: Seq<char>, m: AccountKey, hx: Seq<char>)
    requires
        slash_free(x),
        slash_free(hx),
        a != m || x != hx,
    ensures
        forall|l1: Seq<char>, l2: Seq<char>|
            is_leaf(l1) && is_leaf(l2) ==> #[trigger] attached_kv(a, proposal_key(x, l1))
                != #[trigger] attached_kv(m, proposal_key(hx, l2)),
{
    assert forall|l1: Seq<char>, l2: Seq<char>| is_leaf(l1) && is_leaf(l2) implies #[trigger] attached_kv(
        a,
        proposal_key(x, l1),
    ) != #[trigger] attached_kv(m, proposal_key(hx, l2)) by {
        if attached_kv(a, proposal_key(x, l1)) == attached_kv(m, proposal_key(hx, l2)) {
            let k1 = attached_kv(a, proposal_key(x, l1));
            let k2 = attached_kv(m, proposal_key(hx, l2));
            assert(k1[0] == k2[0] && k1[1] == k2[1] && k1[2] == k2[2]);
            lemma_proposal_key_injective(x, l1, hx, l2);
            assert(a == m);
        }
    }
}

/// Changing values without adding or removing keys keeps proposals whole.
pub proof fn lemma_whole_same_keys(w0: World, w1: World)
    requires
        proposals_whole(w0),
        w1@.metadata.dom() == w0@.metadata.dom(),
    ensures
        proposals_whole(w1),
{
    assert forall|a: AccountKey, x: Seq<char>| slash_free(x) implies #[trigger] tri_key(w1, a, x) by {
        assert(tri_key(w0, a, x));
    }
}

/// Removing all three entries of one proposal keeps proposals whole.
pub proof fn lemma_whole_after_removal(w0: World, w1: World, m: AccountKey, h: Seq<u8>)
    requires
        proposals_whole(w0),
        w1@.metadata == w0@.metadata.remove(attached_kv(m, approvals_key_of(h))).remove(
            attached_kv(m, proposed_at_ms_key_of(h)),
        ).remove(attached_kv(m, instructions_key_of(h))),
    ensures
        proposals_whole(w1),
{
    let hx = hex_of(h);
    lemma_hex_slash_free(h);
    assert forall|a: AccountKey, x: Seq<char>| slash_free(x) implies #[trigger] tri_key(w1, a, x) by {
        assert(tri_key(w0, a, x));
        if a != m || x != hx {
            lemma_other_proposal_keys(a, x, m, hx);
            assert(is_leaf("/instructions"@) && is_leaf("/proposed_at_ms"@) && is_leaf("/approvals"@));
        }
    }
}

/// Adding all three entries of one proposal keeps proposals whole.
pub proof fn lemma_whole_after_insertion(
    w0: World,
    w1: World,
    m: AccountKey,
    h: Seq<u8>,
    vi: ValueView,
    vp: ValueView,
    va: ValueView,
)
    requires
        proposals_whole(w0),
        w1@.metadata == w0@.metadata.insert(attached_kv(m, instructions_key_of(h)), vi).insert(
            attached_kv(m, proposed_at_ms_key_of(h)),
            vp,
        ).insert(attached_kv(m, approvals_key_of(h)), va),
    ensures
        proposals_whole(w1),
{
    let hx = hex_of(h);
    lemma_hex_slash_free(h);
    assert forall|a: AccountKey, x: Seq<char>| slash_free(x) implies #[trigger] tri_key(w1, a, x) by {
        assert(tri_key(w0, a, x));
        if a != m || x != hx {
            lemma_other_proposal_keys(a, x, m, hx);
            assert(is_leaf("/instructions"@) && is_leaf("/proposed_at_ms"@) && is_leaf("/approvals"@));
        }
    }
}

/// Whether `k` is not the key of an entry of any proposal: the key's name
/// does not begin as proposal keys do.
pub open spec fn outside_proposals(k: KeyView) -> bool {
    k.len() == 3 && k[2].len() > 0 && k[2][0] != 'p'
}

/// Whether `k` is a metadata key under `proposals/`.
pub open spec fn under_proposals(k: KeyView) -> bool {
    k.len() == 3 && has_prefix(k[2], "proposals/"@)
}

/// `b` holds the same entries as `a` outside the keys under `proposals/`.
pub open spec fn same_outside_proposals(a: Map<KeyView, ValueView>, b: Map<KeyView, ValueView>) -> bool {
    forall|k: KeyView|
        #![trigger a.contains_key(k)]
        #![trigger b.contains_key(k)]
        !under_proposals(k) ==> (a.contains_key(k) == b.contains_key(k) && (a.contains_key(k) ==> a[k]
            == b[k]))
}

pub proof fn lemma_proposal_key_under(a: AccountKey, x: Seq<char>, l: Seq<char>)
    ensures
        under_proposals(attached_kv(a, proposal_key(x, l))),
{
    let k = proposal_key(x, l);
    reveal_strlit("proposals/");
    assert(k.subrange(0, 10) =~= "proposals/"@);
    assert(attached_kv(a, k)[2] == k);
}

pub proof fn lemma_same_outside_trans(a: Map<KeyView, ValueView>, b: Map<KeyView, ValueView>, c: Map<KeyView, ValueView>)
    requires
        same_outside_proposals(a, b),
        same_outside_proposals(b, c),
    ensures
        same_outside_proposals(a, c),
{
    assert forall|k: KeyView| !under_proposals(k) implies (a.contains_key(k) == c.contains_key(k) && (
    a.contains_key(k) ==> a[k] == c[k])) by {
        assert(a.contains_key(k) == b.contains_key(k));
        assert(b.contains_key(k) == c.contains_key(k));
    }
}

/// Every entry of `a` is in `b` with the same value.
pub open spec fn grows(a: Map<KeyView, ValueView>, b: Map<KeyView, ValueView>) -> bool {
    forall|k: KeyView| #[trigger] a.contains_key(k) ==> b.contains_key(k) && b[k] == a[k]
}

pub proof fn lemma_grows_trans(a: Map<KeyView, ValueView>, b: Map<KeyView, ValueView>, c: Map<KeyView, ValueView>)
    requires
        grows(a, b),
        grows(b, c),
    ensures
        grows(a, c),
{
    assert forall|k: KeyView| #[trigger] a.contains_key(k) implies c.contains_key(k) && c[k] == a[k] by {
        assert(b.contains_key(k));
    }
}

} // verus!
