//! Approving a proposal: recording the approval, weighing it against the
//! quorum, checking expiry, and cleaning up a proposal that is done.

use vstd::prelude::*;
use crate::config::{
    accounts_at, add_member, approved_weight, instructions_at, number_at, read_accounts,
    read_error, read_instructions, read_number, read_weights, saturate_u16, weight_sum, weights_at,
    with_member,
};
use crate::instruction::{copy_list, enc_list, Instruction, MultisigApprove, Value, ValueView};
use crate::keys::{
    approvals_key, approvals_key_of, instructions_key, instructions_key_of, multisig_role_for,
    proposed_at_ms_key, proposed_at_ms_key_of, role_name, QUORUM, SIGNATORIES, TRANSACTION_TTL_MS,
    lemma_proposal_keys_distinct,
};
use crate::names::{AccountId, AccountKey};
use crate::table::{KeyView, Table, keys_sorted, keys_unique};
use crate::world::{account_kv, attached_kv, ExecError, World, WorldState};
use crate::executor::{exec_at, run_list, ExecRel};
use crate::invariants::{lemma_whole_after_removal, lemma_whole_same_keys, proposals_whole};

verus! {

/// What an approval decides for its proposal.
#[derive(Debug, Clone, Copy, PartialEq, Eq, Structural)]
pub enum Verdict {
    /// Quorum not reached and not expired: the proposal stays open.
    Pending,
    /// Expired: the proposal is deleted without running its instructions.
    Expired,
    /// Quorum reached in time: the proposal is deleted and its instructions run.
    Execute,
}

/// Expiry wins over quorum.
pub open spec fn verdict(authenticated: bool, expired: bool) -> Verdict {
    if expired {
        Verdict::Expired
    } else if authenticated {
        Verdict::Execute
    } else {
        Verdict::Pending
    }
}

/// The last moment at which a proposal is alive, saturating at the largest `u64`.
pub open spec fn expiry_ms(proposed_at_ms: u64, ttl_ms: u64) -> u64 {
    if proposed_at_ms + ttl_ms > u64::MAX {
        u64::MAX
    } else {
        (proposed_at_ms + ttl_ms) as u64
    }
}

/// Whether a proposal made at `proposed_at_ms` with time-to-live `ttl_ms` has expired at `now_ms`.
pub open spec fn is_expired(proposed_at_ms: u64, ttl_ms: u64, now_ms: u64) -> bool {
    expiry_ms(proposed_at_ms, ttl_ms) < now_ms
}

/// Whether the approvals' weight reaches the quorum.
pub open spec fn is_authenticated(quorum: u16, sigs: Seq<(KeyView, u8)>, approvals: Seq<(KeyView, ())>) -> bool {
    quorum <= saturate_u16(weight_sum(sigs, approvals))
}

/// What an approval reads: the account's configuration and the proposal.
pub struct ProposalRecord {
    pub signatories: Seq<(KeyView, u8)>,
    pub quorum: u16,
    pub ttl_ms: u64,
    pub instructions: Seq<u8>,
    pub proposed_at_ms: u64,
    pub approvals: Seq<(KeyView, ())>,
}

/// Why approving proposal `h` of multisig account `m` fails, if it does.
pub open spec fn approve_error(w: World, m: AccountKey, h: Seq<u8>) -> Option<ExecError> {
    if weights_at(w, m, SIGNATORIES@) is None {
        Some(read_error(w, m, SIGNATORIES@))
    } else if number_at(w, m, QUORUM@) is None {
        Some(read_error(w, m, QUORUM@))
    } else if number_at(w, m, QUORUM@)->Some_0 > u16::MAX {
        Some(ExecError::InvalidMetadata)
    } else if number_at(w, m, TRANSACTION_TTL_MS@) is None {
        Some(read_error(w, m, TRANSACTION_TTL_MS@))
    } else if instructions_at(w, m, instructions_key_of(h)) is None {
        Some(read_error(w, m, instructions_key_of(h)))
    } else if number_at(w, m, proposed_at_ms_key_of(h)) is None {
        Some(read_error(w, m, proposed_at_ms_key_of(h)))
    } else if accounts_at(w, m, approvals_key_of(h)) is None {
        Some(read_error(w, m, approvals_key_of(h)))
    } else if !(keys_unique(accounts_at(w, m, approvals_key_of(h))->Some_0) && keys_sorted(
        accounts_at(w, m, approvals_key_of(h))->Some_0,
    )) {
        Some(ExecError::InvalidMetadata)
    } else if !w.account_exists(m) {
        Some(ExecError::NotFound)
    } else {
        None
    }
}

/// What approving proposal `h` of `m` reads, where `approve_error` is `None`.
pub open spec fn record_of(w: World, m: AccountKey, h: Seq<u8>) -> ProposalRecord {
    ProposalRecord {
        signatories: weights_at(w, m, SIGNATORIES@)->Some_0,
        quorum: number_at(w, m, QUORUM@)->Some_0 as u16,
        ttl_ms: number_at(w, m, TRANSACTION_TTL_MS@)->Some_0,
        instructions: instructions_at(w, m, instructions_key_of(h))->Some_0,
        proposed_at_ms: number_at(w, m, proposed_at_ms_key_of(h))->Some_0,
        approvals: accounts_at(w, m, approvals_key_of(h))->Some_0,
    }
}

/// The verdict of `approver`'s approval on a proposal that reads as `rec`, at `now_ms`.
pub open spec fn approval_verdict(rec: ProposalRecord, approver: AccountKey, now_ms: u64) -> Verdict {
    verdict(
        is_authenticated(rec.quorum, rec.signatories, with_member(rec.approvals, account_kv(approver))),
        is_expired(rec.proposed_at_ms, rec.ttl_ms, now_ms),
    )
}

/// Metadata after an approval: the approval recorded while the proposal
/// stays open, all three proposal entries gone once it is decided.
pub open spec fn metadata_after_approval(
    w: World,
    m: AccountKey,
    h: Seq<u8>,
    approver: AccountKey,
) -> Map<KeyView, ValueView> {
    let rec = record_of(w, m, h);
    if approval_verdict(rec, approver, w.now_ms) == Verdict::Pending {
        w@.metadata.insert(
            attached_kv(m, approvals_key_of(h)),
            ValueView::Accounts(with_member(rec.approvals, account_kv(approver))),
        )
    } else {
        w@.metadata.remove(attached_kv(m, approvals_key_of(h))).remove(
            attached_kv(m, proposed_at_ms_key_of(h)),
        ).remove(attached_kv(m, instructions_key_of(h)))
    }
}

/// What approving proposal `ap` on behalf of `approver` gives: the exact
/// refusal with nothing changed; a recorded approval or a deleted proposal
/// where the verdict is not to execute; and otherwise the proposal deleted,
/// then its instructions run in order as the multisig account; a failure
/// among them is the result, and leaves the ledger as it was.
pub open spec fn approve_post(
    w: World,
    approver: AccountKey,
    ap: MultisigApprove,
    inner: ExecRel,
    w2: World,
    r: Result<(), ExecError>,
) -> bool {
    let m = ap.account@;
    let h = ap.instructions_hash@;
    &&& r is Err ==> w2@ == w@
    &&& match approve_error(w, m, h) {
        Some(e) => r == Err::<(), ExecError>(e),
        None => {
            let rec = record_of(w, m, h);
            let cleaned = WorldState { metadata: metadata_after_approval(w, m, h, approver), ..w@ };
            if approval_verdict(rec, approver, w.now_ms) != Verdict::Execute {
                r is Ok && w2@ == cleaned
            } else {
                exists|wc: World, l: Seq<Instruction>, w3: World|
                    wc.wf() && wc@ == cleaned && (proposals_whole(w) ==> proposals_whole(wc)) && enc_list(l)
                        == rec.instructions && #[trigger] run_list(
                        wc,
                        m,
                        l,
                        inner,
                        w3,
                        r,
                    ) && (r is Ok ==> w3 == w2)
            }
        },
    }
}

/// `approve_post` for a run that may leave partial effects where it fails.
pub open spec fn approve_steps(
    w: World,
    approver: AccountKey,
    ap: MultisigApprove,
    inner: ExecRel,
    w2: World,
    r: Result<(), ExecError>,
) -> bool {
    let m = ap.account@;
    let h = ap.instructions_hash@;
    match approve_error(w, m, h) {
        Some(e) => r == Err::<(), ExecError>(e),
        None => {
            let rec = record_of(w, m, h);
            let cleaned = WorldState { metadata: metadata_after_approval(w, m, h, approver), ..w@ };
            if approval_verdict(rec, approver, w.now_ms) != Verdict::Execute {
                r is Ok && w2@ == cleaned
            } else {
                exists|wc: World, l: Seq<Instruction>|
                    wc.wf() && wc@ == cleaned && (proposals_whole(w) ==> proposals_whole(wc)) && enc_list(l)
                        == rec.instructions && #[trigger] run_list(
                        wc,
                        m,
                        l,
                        inner,
                        w2,
                        r,
                    )
            }
        },
    }
}

/// The result of an approval that went through.
pub enum ApprovalOutcome {
    Pending,
    Expired,
    /// The instructions to run under the multisig account's authority.
    Execute(Vec<Instruction>),
}

impl ApprovalOutcome {
    pub open spec fn verdict(&self) -> Verdict {
        match self {
            ApprovalOutcome::Pending => Verdict::Pending,
            ApprovalOutcome::Expired => Verdict::Expired,
            ApprovalOutcome::Execute(_) => Verdict::Execute,
        }
    }
}

/// What an approval has read, held as values.
struct Loaded {
    sigs: Table<AccountId, u8>,
    quorum: u16,
    ttl_ms: u64,
    instructions: Vec<Instruction>,
    proposed_at_ms: u64,
    approvals: Table<AccountId, ()>,
}

/// Removes the three entries of proposal `h` from `m`, acting as `m`.
fn remove_proposal(w: &mut World, m: &AccountId, h: &Vec<u8>) -> (r: Result<(), ExecError>)
    requires
        old(w).wf(),
        old(w).account_exists(m@),
        old(w).has_meta(m@, approvals_key_of(h@)),
        old(w).has_meta(m@, proposed_at_ms_key_of(h@)),
        old(w).has_meta(m@, instructions_key_of(h@)),
    ensures
        final(w).wf(),
        r is Ok,
        final(w)@ == (WorldState {
            metadata: old(w)@.metadata.remove(attached_kv(m@, approvals_key_of(h@))).remove(
                attached_kv(m@, proposed_at_ms_key_of(h@)),
            ).remove(attached_kv(m@, instructions_key_of(h@))),
            ..old(w)@
        }),
{
    proof {
        lemma_proposal_keys_distinct(h@);
    }
    let akey = approvals_key(h);
    let pkey = proposed_at_ms_key(h);
    let ikey = instructions_key(h);
    match w.remove_key_value(m, m, &akey) {
        Ok(()) => {},
        Err(e) => {
            return Err(e);
        },
    }
    match w.remove_key_value(m, m, &pkey) {
        Ok(()) => {},
        Err(e) => {
            return Err(e);
        },
    }
    match w.remove_key_value(m, m, &ikey) {
        Ok(()) => {},
        Err(e) => {
            return Err(e);
        },
    }
    Ok(())
}

impl MultisigApprove {
    /// Reads the configuration of the multisig account and the proposal.
    fn load(&self, w: &World) -> (r: Result<Loaded, ExecError>)
        requires
            w.wf(),
        ensures
            match r {
                Err(e) => approve_error(*w, self.account@, self.instructions_hash@) == Some(e),
                Ok(l) => {
                    let rec = record_of(*w, self.account@, self.instructions_hash@);
                    &&& approve_error(*w, self.account@, self.instructions_hash@) is None
                    &&& l.sigs.pairs() == rec.signatories
                    &&& l.quorum == rec.quorum
                    &&& l.ttl_ms == rec.ttl_ms
                    &&& enc_list(l.instructions@) == rec.instructions
                    &&& l.proposed_at_ms == rec.proposed_at_ms
                    &&& l.approvals.pairs() == rec.approvals
                },
            },
    {
        let m = &self.account;
        let h = &self.instructions_hash;
        let sigs = match read_weights(w, m, &String::from_str(SIGNATORIES)) {
            Ok(t) => t.copy(),
            Err(e) => {
                return Err(e);
            },
        };
        let quorum: u16 = match read_number(w, m, &String::from_str(QUORUM)) {
            Ok(q) => {
                if q > 65535 {
                    return Err(ExecError::InvalidMetadata);
                }
                q as u16
            },
            Err(e) => {
                return Err(e);
            },
        };
        let ttl_ms: u64 = match read_number(w, m, &String::from_str(TRANSACTION_TTL_MS)) {
            Ok(t) => t,
            Err(e) => {
                return Err(e);
            },
        };
        let instructions = match read_instructions(w, m, &instructions_key(h)) {
            Ok(v) => copy_list(v),
            Err(e) => {
                return Err(e);
            },
        };
        let proposed_at_ms: u64 = match read_number(w, m, &proposed_at_ms_key(h)) {
            Ok(t) => t,
            Err(e) => {
                return Err(e);
            },
        };
        let approvals = match read_accounts(w, m, &approvals_key(h)) {
            Ok(t) => t.copy(),
            Err(e) => {
                return Err(e);
            },
        };
        if !approvals.check_wf() {
            return Err(ExecError::InvalidMetadata);
        }
        if !w.account_exists_exec(m) {
            return Err(ExecError::NotFound);
        }
        Ok(Loaded { sigs, quorum, ttl_ms, instructions, proposed_at_ms, approvals })
    }

    /// Only holders of the account's multisig role may approve.
    pub fn visit(&self, w: &World, approver: &AccountId) -> (r: Result<(), ExecError>)
        requires
            w.wf(),
        ensures
            r == (if w.holds_role(approver@, role_name(self.account@)) {
                Ok(())
            } else {
                Err(ExecError::PermissionDenied)
            }),
    {
        let role = multisig_role_for(&self.account);
        if w.holds_role_exec(approver, &role) {
            Ok(())
        } else {
            Err(ExecError::PermissionDenied)
        }
    }

    /// Records `approver`'s approval under the multisig account's authority,
    /// and deletes the proposal once it has reached quorum or expired.
    pub fn decide(&self, w: &mut World, approver: &AccountId) -> (r: Result<ApprovalOutcome, ExecError>)
        requires
            old(w).wf(),
        ensures
            final(w).wf(),
            match r {
                Err(e) => approve_error(*old(w), self.account@, self.instructions_hash@) == Some(e)
                    && final(w)@ == old(w)@,
                Ok(outcome) => {
                    let rec = record_of(*old(w), self.account@, self.instructions_hash@);
                    &&& approve_error(*old(w), self.account@, self.instructions_hash@) is None
                    &&& outcome.verdict() == approval_verdict(rec, approver@, old(w).now_ms)
                    &&& (outcome matches ApprovalOutcome::Execute(l) ==> enc_list(l@) == rec.instructions)
                    &&& final(w)@ == (WorldState {
                        metadata: metadata_after_approval(
                            *old(w),
                            self.account@,
                            self.instructions_hash@,
                            approver@,
                        ),
                        ..old(w)@
                    })
                    &&& proposals_whole(*old(w)) ==> proposals_whole(*final(w))
                },
            },
    {
        let m = &self.account;
        let h = &self.instructions_hash;
        let ghost w0 = *old(w);
        let ghost rec = record_of(w0, m@, h@);
        let loaded = match self.load(w) {
            Ok(l) => l,
            Err(e) => {
                return Err(e);
            },
        };
        let Loaded { sigs, quorum, ttl_ms, instructions, proposed_at_ms, mut approvals } = loaded;
        add_member(&mut approvals, approver.clone());
        let approved = approved_weight(&sigs, &approvals);
        let authenticated = quorum <= approved;
        let expired = proposed_at_ms.saturating_add(ttl_ms) < w.now_ms;
        let ghost apv = with_member(rec.approvals, account_kv(approver@));
        assert(authenticated == is_authenticated(rec.quorum, rec.signatories, apv));
        assert(expired == is_expired(rec.proposed_at_ms, rec.ttl_ms, w0.now_ms));
        match w.set_key_value(m, m, approvals_key(h), Value::Accounts(approvals)) {
            Ok(()) => {},
            Err(e) => {
                return Err(e);
            },
        }
        if authenticated || expired {
            proof {
                lemma_proposal_keys_distinct(h@);
            }
            match remove_proposal(w, m, h) {
                Ok(()) => {},
                Err(e) => {
                    return Err(e);
                },
            }
            assert(w@.metadata =~= metadata_after_approval(w0, m@, h@, approver@));
            proof {
                if proposals_whole(w0) {
                    lemma_whole_after_removal(w0, *w, m@, h@);
                }
            }
        } else {
            assert(w@.metadata =~= metadata_after_approval(w0, m@, h@, approver@));
            proof {
                if proposals_whole(w0) {
                    assert(w@.metadata.dom() =~= w0@.metadata.dom());
                    lemma_whole_same_keys(w0, *w);
                }
            }
        }
        if expired {
            Ok(ApprovalOutcome::Expired)
        } else if authenticated {
            Ok(ApprovalOutcome::Execute(instructions))
        } else {
            Ok(ApprovalOutcome::Pending)
        }
    }

    /// Approves under the authority of the multisig account and, where the
    /// approval completes the proposal in time, runs its instructions as that
    /// account; `depth` bounds the nesting of what they run in turn.
    fn apply(&self, w: &mut World, approver: &AccountId, depth: u32) -> (r: Result<(), ExecError>)
        requires
            old(w).wf(),
        ensures
            final(w).wf(),
            approve_steps(*old(w), approver@, *self, exec_at(depth as nat), *final(w), r),
            proposals_whole(*old(w)) && r is Ok && approval_verdict(
                record_of(*old(w), self.account@, self.instructions_hash@),
                approver@,
                old(w).now_ms,
            ) != Verdict::Execute ==> proposals_whole(*final(w)),
        decreases depth, 2nat,
    {
        let ghost w0 = *old(w);
        let ghost m = self.account@;
        let ghost h = self.instructions_hash@;
        match self.decide(w, approver) {
            Err(e) => Err(e),
            Ok(ApprovalOutcome::Execute(instructions)) => {
                let ghost wc = *w;
                let r = w.run_all(&self.account, &instructions, depth);
                proof {
                    let rec = record_of(w0, m, h);
                    assert(wc@ == (WorldState { metadata: metadata_after_approval(w0, m, h, approver@), ..w0@ }));
                    assert(enc_list(instructions@) == rec.instructions);
                    assert(run_list(wc, m, instructions@, exec_at(depth as nat), *w, r));
                    assert(wc.wf() && wc@ == (WorldState { metadata: metadata_after_approval(w0, m, h, approver@), ..w0@ })
                        && (proposals_whole(w0) ==> proposals_whole(wc))
                        && enc_list(instructions@) == rec.instructions && run_list(wc, m, instructions@, exec_at(depth as nat), *w, r));
                }
                r
            },
            Ok(_) => Ok(()),
        }
    }

    /// Approves under the authority of the multisig account and, where the
    /// approval completes the proposal in time, runs its instructions as that
    /// account; `depth` bounds the nesting of what they run in turn. Where a
    /// step fails, the ledger is left as it was.
    pub fn execute(&self, w: &mut World, approver: &AccountId, depth: u32) -> (r: Result<(), ExecError>)
        requires
            old(w).wf(),
        ensures
            final(w).wf(),
            approve_post(*old(w), approver@, *self, exec_at(depth as nat), *final(w), r),
            proposals_whole(*old(w)) && r is Ok && approval_verdict(
                record_of(*old(w), self.account@, self.instructions_hash@),
                approver@,
                old(w).now_ms,
            ) != Verdict::Execute ==> proposals_whole(*final(w)),
        decreases depth, 3nat,
    {
        let saved = w.snapshot();
        let r = self.apply(w, approver, depth);
        if r.is_err() {
            *w = saved;
        }
        r
    }
}

} // verus!
