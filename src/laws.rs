//! Properties of the engine that span several calls.

use vstd::prelude::*;
use crate::approve::{
    approval_verdict, approve_error, is_authenticated, is_expired, metadata_after_approval,
    record_of, ProposalRecord, Verdict,
};
use crate::config::{lemma_listed_is_contained, lemma_with_member, weight_sum, with_member};
use crate::table::{keys_sorted, keys_unique};
use crate::hash::hash_of;
use crate::instruction::{enc_instruction, enc_items, enc_list, Instruction, MultisigRegister};
use crate::table::lemma_sorted_pairs_canonical;
use crate::invariants::{proposals_whole, tri_key, slash_free};
use crate::keys::{
    approvals_key_of, instructions_key_of, lemma_proposal_keys_distinct, proposed_at_ms_key_of,
    role_name,
};
use crate::names::AccountKey;
use crate::propose::{is_downward_proposal, propose_error};
use crate::table::KeyView;
use crate::world::{attached_kv, ExecError, World};

verus! {

/// Adding an approval never lowers the approved weight.
pub proof fn lemma_weight_sum_monotone(sigs: Seq<(KeyView, u8)>, approvals: Seq<(KeyView, ())>, k: KeyView)
    requires
        keys_unique(approvals),
        keys_sorted(approvals),
    ensures
        weight_sum(sigs, approvals) <= weight_sum(sigs, with_member(approvals, k)),
    decreases sigs.len(),
{
    if sigs.len() > 0 {
        lemma_weight_sum_monotone(sigs.drop_last(), approvals, k);
        let x = sigs.last().0;
        lemma_with_member(approvals, k);
        lemma_listed_is_contained(approvals, x);
        lemma_listed_is_contained(with_member(approvals, k), x);
    }
}

/// Once the recorded approvals reach the quorum, the next approval closes
/// the proposal: it runs it or, if it has expired, deletes it, and in both
/// cases its three entries are gone.
pub proof fn law_quorum_closes_proposal(w: World, m: AccountKey, h: Seq<u8>, approver: AccountKey)
    requires
        approve_error(w, m, h) is None,
        is_authenticated(
            record_of(w, m, h).quorum,
            record_of(w, m, h).signatories,
            record_of(w, m, h).approvals,
        ),
    ensures
        approval_verdict(record_of(w, m, h), approver, w.now_ms) != Verdict::Pending,
        !metadata_after_approval(w, m, h, approver).contains_key(attached_kv(m, instructions_key_of(h))),
        !metadata_after_approval(w, m, h, approver).contains_key(attached_kv(m, proposed_at_ms_key_of(h))),
        !metadata_after_approval(w, m, h, approver).contains_key(attached_kv(m, approvals_key_of(h))),
{
    let rec = record_of(w, m, h);
    lemma_weight_sum_monotone(rec.signatories, rec.approvals, crate::world::account_kv(approver));
    lemma_proposal_keys_distinct(h);
}

/// Once a proposal has expired, no approval runs it: the verdict is expiry,
/// whatever the approvals weigh.
pub proof fn law_expired_never_executes(rec: ProposalRecord, approver: AccountKey, now_ms: u64)
    requires
        is_expired(rec.proposed_at_ms, rec.ttl_ms, now_ms),
    ensures
        approval_verdict(rec, approver, now_ms) == Verdict::Expired,
{
}

/// Instruction lists that are the same logical list have the same digest.
pub proof fn law_same_instructions_same_hash(a: Seq<Instruction>, b: Seq<Instruction>)
    requires
        enc_list(a) == enc_list(b),
    ensures
        hash_of(a) == hash_of(b),
{
}

/// A registration names its signatories as a map: two registrations of the
/// same account, quorum, time-to-live and signatory map are the same
/// instruction, whatever order the signatories were inserted in, and their
/// digests agree.
pub proof fn law_register_digest_ignores_insertion_order(r1: MultisigRegister, r2: MultisigRegister)
    requires
        r1.account@ == r2.account@,
        r1.quorum == r2.quorum,
        r1.transaction_ttl_ms == r2.transaction_ttl_ms,
        r1.signatories.wf(),
        r2.signatories.wf(),
        r1.signatories@ == r2.signatories@,
    ensures
        r1.signatories.pairs() == r2.signatories.pairs(),
        hash_of(seq![Instruction::Register(r1)]) == hash_of(seq![Instruction::Register(r2)]),
{
    lemma_sorted_pairs_canonical(r1.signatories.pairs(), r2.signatories.pairs());
    let a = seq![Instruction::Register(r1)];
    let b = seq![Instruction::Register(r2)];
    assert(enc_instruction(Instruction::Register(r1)) == enc_instruction(Instruction::Register(r2)));
    assert(a.drop_last() =~= Seq::<Instruction>::empty());
    assert(b.drop_last() =~= Seq::<Instruction>::empty());
    assert(enc_items(a) == enc_items(b));
    assert(enc_list(a) == enc_list(b));
}

/// While a proposal of a logical instruction list is open, a qualified
/// proposer who proposes the same list again is refused as a duplicate.
pub proof fn law_repeated_proposal_is_duplicate(
    w: World,
    proposer: AccountKey,
    target: AccountKey,
    a: Seq<Instruction>,
    b: Seq<Instruction>,
)
    requires
        enc_list(a) == enc_list(b),
        w.has_meta(target, approvals_key_of(hash_of(a))),
        is_downward_proposal(w, proposer, target) || w.holds_role(proposer, role_name(target)),
    ensures
        propose_error(w, proposer, target, hash_of(b)) == Some(ExecError::Duplicate),
{
}

/// A ledger without metadata holds no partial proposal.
pub proof fn law_empty_metadata_whole(w: World)
    requires
        w@.metadata.is_empty(),
    ensures
        proposals_whole(w),
{
    assert forall|a: AccountKey, x: Seq<char>| slash_free(x) implies #[trigger] tri_key(w, a, x) by {}
}

} // verus!
