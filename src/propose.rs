//! Proposing instructions on behalf of a multisig account, and deploying the
//! request for approval down through signatories that are multisig accounts.

use vstd::prelude::*;
use crate::config::{listed, read_error, read_weights, weights_at};
use crate::hash::{hash_of, instructions_hash};
use crate::instruction::{
    copy_list, enc_list, Instruction, MultisigApprove, MultisigPropose, Value, ValueView,
};
use crate::executor::trace_of;
use crate::invariants::{
    grows, lemma_grows_trans,
    lemma_proposal_key_under, lemma_same_outside_trans, lemma_whole_after_insertion, proposals_whole,
    same_outside_proposals,
};
use crate::keys::{
    approvals_key, approvals_key_of, instructions_key, instructions_key_of, multisig_role_for,
    proposed_at_ms_key, proposed_at_ms_key_of, role_name, SIGNATORIES, lemma_proposal_keys_distinct,
    hex_of,
};
use crate::names::{AccountId, AccountKey};
use crate::table::{KeyView, Keyed, Table};
use crate::world::{account_kv, attached_kv, ExecError, World, WorldState};

verus! {

/// Whether `proposer` is a multisig account that lists `target` among its
/// signatories: it then gathers `target`'s approval for itself.
pub open spec fn is_downward_proposal(w: World, proposer: AccountKey, target: AccountKey) -> bool {
    weights_at(w, proposer, SIGNATORIES@) matches Some(p) && listed(p, account_kv(target))
}

/// Why `proposer` may not propose instructions with digest `h` to `target`, if so.
pub open spec fn propose_error(w: World, proposer: AccountKey, target: AccountKey, h: Seq<u8>) -> Option<ExecError> {
    if !(is_downward_proposal(w, proposer, target) || w.holds_role(proposer, role_name(target))) {
        Some(ExecError::PermissionDenied)
    } else if w.has_meta(target, approvals_key_of(h)) {
        Some(ExecError::Duplicate)
    } else {
        None
    }
}

/// The approvals of a fresh proposal: its proposer alone.
pub open spec fn first_approvals(proposer: AccountKey) -> ValueView {
    ValueView::Accounts(seq![(account_kv(proposer), ())])
}

/// Whether none of the accounts that `sigs` lists is a multisig account,
/// that is, none has a multisig role.
pub open spec fn no_multisig_among(w: World, sigs: Seq<(KeyView, u8)>) -> bool {
    forall|i: int| 0 <= i < sigs.len() ==> !w.role_exists(#[trigger] role_name((sigs[i].0[0], sigs[i].0[1])))
}

/// What executing proposal `p` on behalf of `proposer` gives: a refusal
/// with the ledger unchanged, or success where the three entries of the
/// proposal are written and metadata only grew, by entries under
/// `proposals/`.
#[verifier::opaque]
pub open spec fn propose_post(w: World, proposer: AccountKey, p: MultisigPropose, w2: World, r: Result<(), ExecError>) -> bool {
    let h = hash_of(p.instructions@);
    let m = p.account@;
    &&& weights_at(w, m, SIGNATORIES@) is None ==> r == Err::<(), ExecError>(read_error(w, m, SIGNATORIES@))
    &&& r is Err ==> w2@ == w@
    &&& r is Ok ==> {
        &&& w2@ == (WorldState { metadata: w2@.metadata, ..w@ })
        &&& same_outside_proposals(w@.metadata, w2@.metadata)
        &&& grows(w@.metadata, w2@.metadata)
        &&& w2.has_meta(m, instructions_key_of(h))
        &&& w2.meta(m, instructions_key_of(h)) == ValueView::Instructions(enc_list(p.instructions@))
        &&& w2.has_meta(m, proposed_at_ms_key_of(h))
        &&& w2.meta(m, proposed_at_ms_key_of(h)) == ValueView::Number(w.now_ms)
        &&& w2.has_meta(m, approvals_key_of(h))
        &&& w2.meta(m, approvals_key_of(h)) == first_approvals(proposer)
    }
    &&& (proposals_whole(w) && r is Ok) ==> proposals_whole(w2)
}

/// `req` asks the account it targets to approve proposal `h` of `m`: its one
/// instruction is that approval.
pub open spec fn is_request(req: MultisigPropose, m: AccountKey, h: Seq<u8>) -> bool {
    req.instructions@.len() == 1 && (req.instructions@[0] matches Instruction::Approve(a) && a.account@ == m
        && a.instructions_hash@ == h)
}

/// Names a candidate outcome of a deployment.
pub open spec fn deployment_outcome(wd: World, rd: Result<(), ExecError>) -> bool {
    rd is Ok || rd is Err
}

/// What a nested proposal may give: a relation between the state before,
/// the proposer, the proposal, the state after and the result.
pub type ProposeRel = spec_fn(World, AccountKey, MultisigPropose, World, Result<(), ExecError>) -> bool;

/// What executing a proposal with nesting budget `d` gives, in full: the
/// requests that it deploys run with budget `d - 1`.
pub open spec fn propose_at(d: nat) -> ProposeRel
    decreases d, 1nat,
{
    |w: World, proposer: AccountKey, p: MultisigPropose, w2: World, r: Result<(), ExecError>|
        propose_post(w, proposer, p, w2, r) && propose_run(
            w,
            proposer,
            p,
            d as u32,
            nested_for(d),
            weights_at(w, p.account@, SIGNATORIES@)->Some_0,
            w2,
            r,
        )
}

/// What a request deployed with nesting budget `d` may give.
pub open spec fn nested_for(d: nat) -> ProposeRel
    decreases d, 0nat,
{
    if d == 0 {
        no_nesting()
    } else {
        propose_at((d - 1) as nat)
    }
}

/// No nested proposal can run without budget.
pub open spec fn no_nesting() -> ProposeRel {
    |w: World, proposer: AccountKey, p: MultisigPropose, w2: World, r: Result<(), ExecError>| false
}

/// What executing `p` with nesting budget `depth` gives, in full.
#[verifier::opaque]
pub open spec fn propose_full(w: World, proposer: AccountKey, p: MultisigPropose, depth: u32, w2: World, r: Result<(), ExecError>) -> bool {
    (propose_at(depth as nat))(w, proposer, p, w2, r)
}

/// What deploying proposal `h` of `m` to the signatory keyed `s` may give: a
/// signatory without a multisig role is passed over; one with it receives a
/// request to approve, proposed by `m`, which its visit refuses or which
/// behaves as `nested` states: a proposal in full, with one level less of
/// nesting budget, deploying further in turn.
#[verifier::opaque]
pub open spec fn deploy_step(w: World, m: AccountKey, h: Seq<u8>, s: KeyView, depth: u32, nested: ProposeRel, w2: World, r: Result<(), ExecError>) -> bool {
    let sk = (s[0], s[1]);
    if !w.role_exists(role_name(sk)) {
        w2 == w && r is Ok
    } else if depth == 0 {
        w2 == w && r == Err::<(), ExecError>(ExecError::DepthExceeded)
    } else {
        exists|req: MultisigPropose|
            #[trigger] is_request(req, m, h) && req.account@ == sk && match propose_error(
                w,
                m,
                sk,
                hash_of(req.instructions@),
            ) {
                Some(e) => r == Err::<(), ExecError>(e) && w2 == w,
                None => nested(w, m, req, w2, r),
            }
    }
}

/// The `i`-th signatory's deployment succeeds, taking `ws[i]` to `ws[i + 1]`.
pub open spec fn deploy_at(ws: Seq<World>, m: AccountKey, h: Seq<u8>, sigs: Seq<(KeyView, u8)>, depth: u32, nested: ProposeRel, i: int) -> bool {
    ws[i].wf() && deploy_step(ws[i], m, h, sigs[i].0, depth, nested, ws[i + 1], Ok(()))
}

/// A deployment to the signatories `sigs`, in order, through the states `ws`:
/// `n` of them succeed, then the list ends or the next one fails.
#[verifier::opaque]
pub open spec fn deploy_trace(
    w: World,
    m: AccountKey,
    h: Seq<u8>,
    sigs: Seq<(KeyView, u8)>,
    depth: u32,
    nested: ProposeRel,
    ws: Seq<World>,
    n: int,
    w2: World,
    r: Result<(), ExecError>,
) -> bool {
    &&& 0 <= n <= sigs.len()
    &&& ws.len() == n + 1
    &&& ws[0] == w
    &&& forall|i: int| 0 <= i < n ==> #[trigger] deploy_at(ws, m, h, sigs, depth, nested, i)
    &&& if n == sigs.len() {
        r is Ok && w2 == ws[n]
    } else {
        ws[n].wf() && r is Err && deploy_step(ws[n], m, h, sigs[n].0, depth, nested, w2, r)
    }
}

/// What deploying proposal `h` of `m` to `sigs` may give.
#[verifier::opaque]
pub open spec fn deployed(w: World, m: AccountKey, h: Seq<u8>, sigs: Seq<(KeyView, u8)>, depth: u32, nested: ProposeRel, w2: World, r: Result<(), ExecError>) -> bool {
    exists|ws: Seq<World>, n: int| #[trigger] trace_of(ws, n) && deploy_trace(w, m, h, sigs, depth, nested, ws, n, w2, r)
}

/// How executing `p` runs: the approval requests go down to the signatories
/// in order, a failure among them is the result, and then the three entries
/// are written, which fails where the account does not exist or already
/// holds an entry of this proposal.
#[verifier::opaque]
pub open spec fn propose_run(
    w: World,
    proposer: AccountKey,
    p: MultisigPropose,
    depth: u32,
    nested: ProposeRel,
    sigs: Seq<(KeyView, u8)>,
    w2: World,
    r: Result<(), ExecError>,
) -> bool {
    let m = p.account@;
    let h = hash_of(p.instructions@);
    weights_at(w, m, SIGNATORIES@) == Some(sigs) ==> exists|wd: World, rd: Result<(), ExecError>|
        #[trigger] deployment_outcome(wd, rd) && deployed(w, m, h, sigs, depth, nested, wd, rd) && match rd {
            Err(_) => r == rd,
            Ok(()) => if !wd.account_exists(m) {
                r == Err::<(), ExecError>(ExecError::NotFound)
            } else if wd.has_meta(m, instructions_key_of(h)) || wd.has_meta(m, proposed_at_ms_key_of(h))
                || wd.has_meta(m, approvals_key_of(h)) {
                r == Err::<(), ExecError>(ExecError::Duplicate)
            } else {
                r is Ok && w2@ == (WorldState {
                    metadata: wd@.metadata.insert(
                        attached_kv(m, instructions_key_of(h)),
                        ValueView::Instructions(enc_list(p.instructions@)),
                    ).insert(attached_kv(m, proposed_at_ms_key_of(h)), ValueView::Number(w.now_ms)).insert(
                        attached_kv(m, approvals_key_of(h)),
                        first_approvals(proposer),
                    ),
                    ..wd@
                })
            },
        }
}

/// Deployment followed by the three writes gives what `propose_post` and
/// `propose_run` state.
pub proof fn lemma_propose_done(
    w0: World,
    wd: World,
    w2: World,
    proposer: AccountKey,
    p: MultisigPropose,
    depth: u32,
    nested: ProposeRel,
    sigs: Seq<(KeyView, u8)>,
    r: Result<(), ExecError>,
)
    requires
        weights_at(w0, p.account@, SIGNATORIES@) == Some(sigs),
        deployed(w0, p.account@, hash_of(p.instructions@), sigs, depth, nested, wd, Ok(())),
        wd@ == (WorldState { metadata: wd@.metadata, ..w0@ }),
        same_outside_proposals(w0@.metadata, wd@.metadata),
        grows(w0@.metadata, wd@.metadata),
        proposals_whole(w0) ==> proposals_whole(wd),
        !wd.account_exists(p.account@) ==> r == Err::<(), ExecError>(ExecError::NotFound),
        wd.account_exists(p.account@) && (wd.has_meta(p.account@, instructions_key_of(hash_of(p.instructions@)))
            || wd.has_meta(p.account@, proposed_at_ms_key_of(hash_of(p.instructions@))) || wd.has_meta(
            p.account@,
            approvals_key_of(hash_of(p.instructions@)),
        )) ==> r == Err::<(), ExecError>(ExecError::Duplicate),
        wd.account_exists(p.account@) && !wd.has_meta(p.account@, instructions_key_of(hash_of(p.instructions@)))
            && !wd.has_meta(p.account@, proposed_at_ms_key_of(hash_of(p.instructions@))) && !wd.has_meta(
            p.account@,
            approvals_key_of(hash_of(p.instructions@)),
        ) ==> r is Ok,
        r is Ok ==> w2@ == (WorldState {
            metadata: wd@.metadata.insert(
                attached_kv(p.account@, instructions_key_of(hash_of(p.instructions@))),
                ValueView::Instructions(enc_list(p.instructions@)),
            ).insert(attached_kv(p.account@, proposed_at_ms_key_of(hash_of(p.instructions@))), ValueView::Number(w0.now_ms)).insert(
                attached_kv(p.account@, approvals_key_of(hash_of(p.instructions@))),
                first_approvals(proposer),
            ),
            ..wd@
        }),
        r is Ok ==> same_outside_proposals(wd@.metadata, w2@.metadata),
        r is Ok ==> grows(wd@.metadata, w2@.metadata),
        proposals_whole(wd) && r is Ok ==> proposals_whole(w2),
    ensures
        r is Ok ==> propose_post(w0, proposer, p, w2, r),
        propose_run(w0, proposer, p, depth, nested, sigs, w2, r),
{
    reveal(propose_post);
    reveal(propose_run);
    lemma_proposal_keys_distinct(hash_of(p.instructions@));
    assert(deployment_outcome(wd, Ok(())));
    if r is Ok {
        lemma_same_outside_trans(w0@.metadata, wd@.metadata, w2@.metadata);
        lemma_grows_trans(w0@.metadata, wd@.metadata, w2@.metadata);
    }
}

pub proof fn lemma_deploy_extend(
    ws: Seq<World>,
    m: AccountKey,
    h: Seq<u8>,
    sigs: Seq<(KeyView, u8)>,
    depth: u32,
    nested: ProposeRel,
    n: int,
    w2: World,
)
    requires
        0 <= n < sigs.len(),
        ws.len() == n + 1,
        forall|i: int| 0 <= i < n ==> #[trigger] deploy_at(ws, m, h, sigs, depth, nested, i),
        ws[n].wf(),
        deploy_step(ws[n], m, h, sigs[n].0, depth, nested, w2, Ok(())),
    ensures
        forall|i: int| 0 <= i < n + 1 ==> #[trigger] deploy_at(ws.push(w2), m, h, sigs, depth, nested, i),
{
    let ws2 = ws.push(w2);
    assert forall|j: int| 0 <= j < n + 1 implies #[trigger] deploy_at(ws2, m, h, sigs, depth, nested, j) by {
        if j < n {
            assert(deploy_at(ws, m, h, sigs, depth, nested, j));
            assert(ws2[j] == ws[j] && ws2[j + 1] == ws[j + 1]);
        } else {
            assert(ws2[j] == ws[n] && ws2[j + 1] == w2);
        }
    }
}

impl MultisigPropose {
    /// The proposer must be qualified and the proposal new.
    pub fn visit(&self, w: &World, proposer: &AccountId) -> (r: Result<(), ExecError>)
        requires
            w.wf(),
        ensures
            r == (match propose_error(*w, proposer@, self.account@, hash_of(self.instructions@)) {
                None => Ok(()),
                Some(e) => Err(e),
            }),
    {
        let h = instructions_hash(&self.instructions);
        let downward = match read_weights(w, proposer, &String::from_str(SIGNATORIES)) {
            Ok(t) => crate::config::is_listed(t, &self.account),
            Err(_) => false,
        };
        let role = multisig_role_for(&self.account);
        if !(downward || w.holds_role_exec(proposer, &role)) {
            return Err(ExecError::PermissionDenied);
        }
        match w.get_meta(&self.account, &approvals_key(&h)) {
            Some(_) => Err(ExecError::Duplicate),
            None => Ok(()),
        }
    }

    /// Proposes to signatory `s`, if it is itself a multisig account, that it
    /// approve proposal `h` of this account.
    fn deploy_one(&self, w: &mut World, s: &AccountId, h: &Vec<u8>, depth: u32) -> (r: Result<(), ExecError>)
        requires
            old(w).wf(),
        ensures
            final(w).wf(),
            deploy_step(*old(w), self.account@, h@, s.key_view(), depth, nested_for(depth as nat), *final(w), r),
            r is Ok ==> final(w)@ == (WorldState { metadata: final(w)@.metadata, ..old(w)@ }),
            proposals_whole(*old(w)) && r is Ok ==> proposals_whole(*final(w)),
            !old(w).role_exists(role_name(s@)) ==> r is Ok && *final(w) == *old(w),
            r is Ok ==> same_outside_proposals(old(w)@.metadata, final(w)@.metadata),
            r is Ok ==> grows(old(w)@.metadata, final(w)@.metadata),
        decreases depth, 0nat,
    {
        let m = &self.account;
        let ghost mk = m@;
        let ghost sk = s.key_view();
        assert((sk[0], sk[1]) == s@);
        let role = multisig_role_for(s);
        if !w.role_exists_exec(&role) {
            assert(deploy_step(*w, mk, h@, sk, depth, nested_for(depth as nat), *w, Ok(()))) by {
                reveal(deploy_step);
            }
            return Ok(());
        }
        if depth == 0 {
            assert(deploy_step(*w, mk, h@, sk, depth, nested_for(depth as nat), *w, Err(ExecError::DepthExceeded))) by {
                reveal(deploy_step);
            }
            return Err(ExecError::DepthExceeded);
        }
        let approve_me = MultisigApprove { account: m.clone(), instructions_hash: h.clone() };
        let mut instructions: Vec<Instruction> = Vec::new();
        instructions.push(Instruction::Approve(approve_me));
        let request = MultisigPropose { account: s.clone(), instructions };
        assert(is_request(request, mk, h@));
        match request.visit(w, m) {
            Ok(()) => {},
            Err(e) => {
                assert(deploy_step(*w, mk, h@, sk, depth, nested_for(depth as nat), *w, Err(e))) by {
                    reveal(deploy_step);
                }
                return Err(e);
            },
        }
        let ghost before = *w;
        let r = request.execute(w, m, depth - 1);
        proof {
            reveal(propose_full);
        }
        assert(deploy_step(before, mk, h@, sk, depth, nested_for(depth as nat), *w, r)) by {
            reveal(deploy_step);
        }
        proof {
            reveal(propose_post);
        }
        r
    }

    /// Proposes to each signatory in `sigs` that is itself a multisig account
    /// that it approve proposal `h` of this account.
    fn deploy(&self, w: &mut World, sigs: &Table<AccountId, u8>, h: &Vec<u8>, depth: u32) -> (r: Result<(), ExecError>)
        requires
            old(w).wf(),
        ensures
            final(w).wf(),
            r is Ok ==> final(w)@ == (WorldState { metadata: final(w)@.metadata, ..old(w)@ }),
            proposals_whole(*old(w)) && r is Ok ==> proposals_whole(*final(w)),
            r is Ok ==> same_outside_proposals(old(w)@.metadata, final(w)@.metadata),
            deployed(*old(w), self.account@, h@, sigs.pairs(), depth, nested_for(depth as nat), *final(w), r),
            r is Ok ==> grows(old(w)@.metadata, final(w)@.metadata),
        decreases depth, 1nat,
    {
        let m = &self.account;
        let ghost w0 = *old(w);
        let ghost mk = self.account@;
        let ghost ps = sigs.pairs();
        let ghost mut ws: Seq<World> = seq![w0];
        let mut i: usize = 0;
        while i < sigs.entries.len()
            invariant
                w.wf(),
                i <= sigs.entries@.len(),
                w@ == (WorldState { metadata: w@.metadata, ..old(w)@ }),
                proposals_whole(*old(w)) ==> proposals_whole(*w),
                same_outside_proposals(old(w)@.metadata, w@.metadata),
                w0 == *old(w),
                mk == self.account@,
                ps == sigs.pairs(),
                ws.len() == i + 1,
                ws[0] == w0,
                ws[i as int] == *w,
                forall|j: int| 0 <= j < i ==> #[trigger] deploy_at(ws, mk, h@, ps, depth, nested_for(depth as nat), j),
                grows(old(w)@.metadata, w@.metadata),
            decreases sigs.entries@.len() - i,
        {
            let s = &sigs.entries[i].0;
            let ghost wi = *w;
            let ghost sk = ps[i as int].0;
            assert(sk == s.key_view());
            let r1 = self.deploy_one(w, s, h, depth);
            if r1.is_err() {
                proof {
                    assert(deploy_trace(w0, mk, h@, ps, depth, nested_for(depth as nat), ws, i as int, *w, r1)) by {
                        reveal(deploy_trace);
                    }
                    assert(trace_of(ws, i as int));
                    assert(deployed(w0, mk, h@, ps, depth, nested_for(depth as nat), *w, r1)) by {
                        reveal(deployed);
                    }
                }
                return r1;
            }
            proof {
                assert(r1->Ok_0 == ());
                lemma_same_outside_trans(old(w)@.metadata, wi@.metadata, w@.metadata);
                lemma_grows_trans(old(w)@.metadata, wi@.metadata, w@.metadata);
            }
            proof {
                lemma_deploy_extend(ws, mk, h@, ps, depth, nested_for(depth as nat), i as int, *w);
                ws = ws.push(*w);
            }
            i = i + 1;
        }
        proof {
            assert(deploy_trace(w0, mk, h@, ps, depth, nested_for(depth as nat), ws, i as int, *w, Ok(()))) by {
                reveal(deploy_trace);
            }
            assert(trace_of(ws, i as int));
            assert(deployed(w0, mk, h@, ps, depth, nested_for(depth as nat), *w, Ok(()))) by {
                reveal(deployed);
            }
        }
        Ok(())
    }

    /// Writes the three entries of the proposal, acting as the multisig account.
    fn record(&self, w: &mut World, proposer: &AccountId, h: &Vec<u8>, now_ms: u64) -> (r: Result<(), ExecError>)
        requires
            old(w).wf(),
            h@ == hash_of(self.instructions@),
        ensures
            final(w).wf(),
            r is Ok ==> {
                let m = self.account@;
                &&& final(w)@ == (WorldState {
                    metadata: old(w)@.metadata.insert(
                        attached_kv(m, instructions_key_of(h@)),
                        ValueView::Instructions(enc_list(self.instructions@)),
                    ).insert(attached_kv(m, proposed_at_ms_key_of(h@)), ValueView::Number(now_ms)).insert(
                        attached_kv(m, approvals_key_of(h@)),
                        first_approvals(proposer@),
                    ),
                    ..old(w)@
                })
            },
            proposals_whole(*old(w)) && r is Ok ==> proposals_whole(*final(w)),
            !old(w).account_exists(self.account@) ==> r == Err::<(), ExecError>(ExecError::NotFound),
            old(w).account_exists(self.account@) && (old(w).has_meta(self.account@, instructions_key_of(h@))
                || old(w).has_meta(self.account@, proposed_at_ms_key_of(h@)) || old(w).has_meta(
                self.account@,
                approvals_key_of(h@),
            )) ==> r == Err::<(), ExecError>(ExecError::Duplicate),
            old(w).account_exists(self.account@) && !old(w).has_meta(self.account@, instructions_key_of(h@))
                && !old(w).has_meta(self.account@, proposed_at_ms_key_of(h@)) && !old(w).has_meta(
                self.account@,
                approvals_key_of(h@),
            ) ==> r is Ok,
            r is Err ==> final(w)@ == old(w)@,
            r is Ok ==> same_outside_proposals(old(w)@.metadata, final(w)@.metadata),
            r is Ok ==> grows(old(w)@.metadata, final(w)@.metadata),
    {
        let m = &self.account;
        if !w.account_exists_exec(m) {
            return Err(ExecError::NotFound);
        }
        if w.get_meta(m, &instructions_key(h)).is_some() || w.get_meta(m, &proposed_at_ms_key(h)).is_some()
            || w.get_meta(m, &approvals_key(h)).is_some() {
            return Err(ExecError::Duplicate);
        }
        let ghost w0 = *w;
        let stored = copy_list(&self.instructions);
        match w.set_key_value(m, m, instructions_key(h), Value::Instructions(stored)) {
            Ok(()) => {},
            Err(e) => {
                return Err(e);
            },
        }
        match w.set_key_value(m, m, proposed_at_ms_key(h), Value::Number(now_ms)) {
            Ok(()) => {},
            Err(e) => {
                return Err(e);
            },
        }
        let approvals = Table { entries: vec![(proposer.clone(), ())] };
        assert(approvals.pairs() =~= seq![(account_kv(proposer@), ())]);
        match w.set_key_value(m, m, approvals_key(h), Value::Accounts(approvals)) {
            Ok(()) => {},
            Err(e) => {
                return Err(e);
            },
        }
        proof {
            assert(grows(w0@.metadata, w@.metadata));
            lemma_proposal_key_under(m@, hex_of(h@), "/instructions"@);
            lemma_proposal_key_under(m@, hex_of(h@), "/proposed_at_ms"@);
            lemma_proposal_key_under(m@, hex_of(h@), "/approvals"@);
            if proposals_whole(*old(w)) {
                lemma_whole_after_insertion(
                    *old(w),
                    *w,
                    m@,
                    h@,
                    ValueView::Instructions(enc_list(self.instructions@)),
                    ValueView::Number(now_ms),
                    first_approvals(proposer@),
                );
            }
        }
        Ok(())
    }

    /// The steps of a proposal, leaving partial effects where one fails.
    fn apply(&self, w: &mut World, proposer: &AccountId, depth: u32) -> (r: Result<(), ExecError>)
        requires
            old(w).wf(),
        ensures
            final(w).wf(),
            weights_at(*old(w), self.account@, SIGNATORIES@) is None ==> r == Err::<(), ExecError>(
                read_error(*old(w), self.account@, SIGNATORIES@),
            ),
            r is Ok ==> propose_post(*old(w), proposer@, *self, *final(w), r),
            propose_run(
                *old(w),
                proposer@,
                *self,
                depth,
                nested_for(depth as nat),
                weights_at(*old(w), self.account@, SIGNATORIES@)->Some_0,
                *final(w),
                r,
            ),
        decreases depth, 2nat,
    {
        let m = &self.account;
        let h = instructions_hash(&self.instructions);
        let sigs = match read_weights(w, m, &String::from_str(SIGNATORIES)) {
            Ok(t) => t.copy(),
            Err(e) => {
                assert(propose_run(*old(w), proposer@, *self, depth, nested_for(depth as nat), weights_at(*old(w), self.account@, SIGNATORIES@)->Some_0, *w, Err(e))) by {
                    reveal(propose_run);
                }
                return Err(e);
            },
        };
        let now_ms: u64 = w.now_ms;
        let ghost w0 = *old(w);
        let rd = self.deploy(w, &sigs, &h, depth);
        let ghost wd = *w;
        if rd.is_err() {
            proof {
                assert(weights_at(w0, self.account@, SIGNATORIES@) == Some(sigs.pairs()));
                assert(deployment_outcome(wd, rd));
                assert(propose_run(w0, proposer@, *self, depth, nested_for(depth as nat), sigs.pairs(), *w, rd)) by {
                    reveal(propose_run);
                }
            }
            return rd;
        }
        proof {
            lemma_proposal_keys_distinct(h@);
            assert(rd->Ok_0 == ());
        }
        let r = self.record(w, proposer, &h, now_ms);
        proof {
            lemma_propose_done(w0, wd, *w, proposer@, *self, depth, nested_for(depth as nat), sigs.pairs(), r);
        }
        r
    }

    /// Records the proposal under the multisig account's authority, after
    /// proposing to each signatory that is itself a multisig account that it
    /// approve this proposal; `depth` bounds how far that recursion goes.
    /// Where a step fails, the ledger is left as it was.
    pub fn execute(&self, w: &mut World, proposer: &AccountId, depth: u32) -> (r: Result<(), ExecError>)
        requires
            old(w).wf(),
        ensures
            final(w).wf(),
            propose_full(*old(w), proposer@, *self, depth, *final(w), r),
        decreases depth, 3nat,
    {
        let saved = w.snapshot();
        let ghost w0 = *old(w);
        let r = self.apply(w, proposer, depth);
        let ghost wa = *w;
        proof {
            reveal(propose_full);
        }
        if r.is_err() {
            *w = saved;
            proof {
                assert(propose_run(w0, proposer@, *self, depth, nested_for(depth as nat), weights_at(w0, self.account@, SIGNATORIES@)->Some_0, *w, r)) by {
                    reveal(propose_run);
                    assert(propose_run(w0, proposer@, *self, depth, nested_for(depth as nat), weights_at(w0, self.account@, SIGNATORIES@)->Some_0, wa, r));
                }
                assert(propose_post(w0, proposer@, *self, *w, r)) by {
                    reveal(propose_post);
                }
            }
        }
        r
    }
}

} // verus!
