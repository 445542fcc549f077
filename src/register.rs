//! Registering a multisig account: the account, its configuration, and the
//! role that its signatories hold.

use vstd::prelude::*;
use crate::instruction::{MultisigRegister, Value, ValueView};
use crate::keys::{multisig_role_for, role_name, QUORUM, SIGNATORIES, TRANSACTION_TTL_MS};
use crate::names::{AccountId, AccountKey};
use crate::table::{KeyView, Table};
use crate::world::{account_kv, attached_kv, name_kv, ExecError, World, WorldState};
use crate::invariants::{lemma_whole_same_keys, outside_proposals, proposals_whole, slash_free, tri_key};
use crate::keys::proposal_key;

verus! {

/// `holders` after granting `role` to each account listed in `sigs`, in order.
pub open spec fn granted(holders: Map<KeyView, ()>, sigs: Seq<(KeyView, u8)>, role: Seq<char>) -> Map<KeyView, ()>
    decreases sigs.len(),
{
    if sigs.len() == 0 {
        holders
    } else {
        granted(holders, sigs.drop_last(), role).insert(sigs.last().0.push(role), ())
    }
}

pub proof fn lemma_granted_contains(holders: Map<KeyView, ()>, sigs: Seq<(KeyView, u8)>, role: Seq<char>, i: int)
    requires
        0 <= i < sigs.len(),
    ensures
        granted(holders, sigs, role).contains_key(sigs[i].0.push(role)),
    decreases sigs.len(),
{
    if i < sigs.len() - 1 {
        lemma_granted_contains(holders, sigs.drop_last(), role, i);
    }
}

pub proof fn lemma_granted_keeps(holders: Map<KeyView, ()>, sigs: Seq<(KeyView, u8)>, role: Seq<char>, k: KeyView)
    requires
        holders.contains_key(k),
    ensures
        granted(holders, sigs, role).contains_key(k),
    decreases sigs.len(),
{
    if sigs.len() > 0 {
        lemma_granted_keeps(holders, sigs.drop_last(), role, k);
    }
}

pub proof fn lemma_granted_step(holders: Map<KeyView, ()>, sigs: Seq<(KeyView, u8)>, role: Seq<char>, i: int)
    requires
        0 <= i < sigs.len(),
    ensures
        granted(holders, sigs.subrange(0, i + 1), role) == granted(holders, sigs.subrange(0, i), role).insert(
            sigs[i].0.push(role),
            (),
        ),
{
    let t = sigs.subrange(0, i + 1);
    assert(t.drop_last() =~= sigs.subrange(0, i));
    assert(t.last() == sigs[i]);
}

/// Writing a multisig account's configuration leaves every proposal whole.
pub proof fn lemma_register_keeps_proposals(w0: World, w1: World, reg: MultisigRegister)
    requires
        proposals_whole(w0),
        w1@.metadata == metadata_after_register(w0, reg),
    ensures
        proposals_whole(w1),
{
    reveal_strlit("signatories");
    reveal_strlit("quorum");
    reveal_strlit("transaction_ttl_ms");
    let m = reg.account@;
    let k1 = attached_kv(m, SIGNATORIES@);
    let k2 = attached_kv(m, QUORUM@);
    let k3 = attached_kv(m, TRANSACTION_TTL_MS@);
    assert(k1[2] == SIGNATORIES@ && k2[2] == QUORUM@ && k3[2] == TRANSACTION_TTL_MS@);
    assert(outside_proposals(k1) && outside_proposals(k2) && outside_proposals(k3));
    let md1 = w0@.metadata.insert(k1, ValueView::Weights(reg.signatories.pairs()));
    let md2 = md1.insert(k2, ValueView::Number(reg.quorum as u64));
    assert forall|a: AccountKey, x: Seq<char>| slash_free(x) implies #[trigger] tri_key(w1, a, x) by {
        reveal_strlit("proposals/");
        assert(tri_key(w0, a, x));
        let ki = attached_kv(a, proposal_key(x, "/instructions"@));
        let kp = attached_kv(a, proposal_key(x, "/proposed_at_ms"@));
        let ka = attached_kv(a, proposal_key(x, "/approvals"@));
        assert(ki[2][0] == 'p' && kp[2][0] == 'p' && ka[2][0] == 'p');
        assert(ki != k1 && ki != k2 && ki != k3);
        assert(kp != k1 && kp != k2 && kp != k3);
        assert(ka != k1 && ka != k2 && ka != k3);
    }
}

/// What registering `reg` on behalf of `who` gives: the exact refusal, or
/// the account with its configuration and a multisig role that each
/// signatory holds and the domain owner gave up.
pub open spec fn register_post(w: World, who: AccountKey, reg: MultisigRegister, w2: World, r: Result<(), ExecError>) -> bool {
    match r {
        Err(e) => register_error(w, who, reg) == Some(e) && w2@ == w@,
        Ok(()) => {
            let m = reg.account@;
            let o = domain_owner_of(w, m);
            let role = role_name(m);
            &&& register_error(w, who, reg) is None
            &&& w2@ == (WorldState {
                accounts: w@.accounts.insert(account_kv(m), ()),
                metadata: metadata_after_register(w, reg),
                roles: w@.roles.insert(name_kv(role), o),
                role_holders: holders_after_register(w, reg),
                ..w@
            })
            &&& forall|i: int|
                0 <= i < reg.signatories.pairs().len() && reg.signatories.pairs()[i].0 != account_kv(o)
                    ==> #[trigger] w2@.role_holders.contains_key(reg.signatories.pairs()[i].0.push(role))
            &&& !w2.holds_role(o, role)
        },
    }
}

/// Why the registrant may not register a multisig account `m`, if so.
pub open spec fn register_visit_error(w: World, who: AccountKey, m: AccountKey) -> Option<ExecError> {
    if !w.domain_exists(m.0) {
        Some(ExecError::NotFound)
    } else if !w.may_register_in(who, m.0) {
        Some(ExecError::PermissionDenied)
    } else {
        None
    }
}

/// Whether every account that `sigs` lists exists in `w`.
#[verifier::opaque]
pub open spec fn all_listed_exist(w: World, sigs: Seq<(KeyView, u8)>) -> bool {
    forall|i: int| 0 <= i < sigs.len() ==> #[trigger] w@.accounts.contains_key(sigs[i].0)
}

/// The owner of the domain of `m`.
pub open spec fn domain_owner_of(w: World, m: AccountKey) -> AccountKey {
    w.domains@[name_kv(m.0)]
}

/// Whether account key `k` exists once `m` has been registered.
pub open spec fn exists_with(w: World, m: AccountKey, k: KeyView) -> bool {
    w.accounts@.contains_key(k) || k == account_kv(m)
}

/// Why registering `reg` on behalf of `who` fails, if it does.
pub open spec fn register_error(w: World, who: AccountKey, reg: MultisigRegister) -> Option<ExecError> {
    let m = reg.account@;
    let o = domain_owner_of(w, m);
    let role = role_name(m);
    if reg.quorum == 0 || reg.transaction_ttl_ms == 0 || !reg.signatories.wf() {
        Some(ExecError::InvalidArgument)
    } else if w.register_account_error(who, m) is Some {
        w.register_account_error(who, m)
    } else if !w.may_name_role(o, role) {
        Some(ExecError::PermissionDenied)
    } else if w.role_exists(role) {
        Some(ExecError::Duplicate)
    } else if !exists_with(w, m, account_kv(o)) {
        Some(ExecError::NotFound)
    } else if exists|i: int|
        0 <= i < reg.signatories.pairs().len() && !exists_with(w, m, #[trigger] reg.signatories.pairs()[i].0) {
        Some(ExecError::NotFound)
    } else {
        None
    }
}

/// The metadata of a freshly registered multisig account.
pub open spec fn metadata_after_register(w: World, reg: MultisigRegister) -> Map<KeyView, ValueView> {
    let m = reg.account@;
    w@.metadata.insert(attached_kv(m, SIGNATORIES@), ValueView::Weights(reg.signatories.pairs())).insert(
        attached_kv(m, QUORUM@),
        ValueView::Number(reg.quorum as u64),
    ).insert(attached_kv(m, TRANSACTION_TTL_MS@), ValueView::Number(reg.transaction_ttl_ms))
}

/// Who holds which role after registering `reg`: each signatory holds the
/// multisig role, and the domain owner, who created it, gives it up.
pub open spec fn holders_after_register(w: World, reg: MultisigRegister) -> Map<KeyView, ()> {
    let m = reg.account@;
    let o = domain_owner_of(w, m);
    let role = role_name(m);
    granted(w@.role_holders.insert(attached_kv(o, role), ()), reg.signatories.pairs(), role).remove(
        attached_kv(o, role),
    )
}

/// Whether every account that `sigs` lists exists.
fn all_exist(w: &World, sigs: &Table<AccountId, u8>) -> (r: bool)
    requires
        w.wf(),
    ensures
        r == all_listed_exist(*w, sigs.pairs()),
{
    let mut i: usize = 0;
    while i < sigs.entries.len()
        invariant
            w.wf(),
            i <= sigs.entries@.len(),
            forall|j: int| 0 <= j < i ==> #[trigger] w@.accounts.contains_key(sigs.pairs()[j].0),
        decreases sigs.entries@.len() - i,
    {
        let s = &sigs.entries[i].0;
        assert(sigs.pairs()[i as int].0 == account_kv(s@));
        if !w.account_exists_exec(s) {
            assert(!all_listed_exist(*w, sigs.pairs())) by {
                reveal(all_listed_exist);
                assert(!w@.accounts.contains_key(sigs.pairs()[i as int].0));
            }
            return false;
        }
        i = i + 1;
    }
    assert(all_listed_exist(*w, sigs.pairs())) by {
        reveal(all_listed_exist);
    }
    true
}

/// Grants `role` to every account in `sigs`, acting as `owner`.
fn grant_all(w: &mut World, owner: &AccountId, role: &String, sigs: &Table<AccountId, u8>) -> (r: Result<(), ExecError>)
    requires
        old(w).wf(),
        old(w).role_exists(role@),
        old(w).roles@[name_kv(role@)] == owner@,
    ensures
        final(w).wf(),
        r is Ok ==> final(w)@ == (WorldState {
            role_holders: granted(old(w)@.role_holders, sigs.pairs(), role@),
            ..old(w)@
        }),
        r is Err ==> !all_listed_exist(*old(w), sigs.pairs()),
{
    let mut i: usize = 0;
    while i < sigs.entries.len()
        invariant
            w.wf(),
            i <= sigs.entries@.len(),
            w@ == (WorldState {
                role_holders: granted(old(w)@.role_holders, sigs.pairs().subrange(0, i as int), role@),
                ..old(w)@
            }),
            w.role_exists(role@),
            w.roles@[name_kv(role@)] == owner@,
        decreases sigs.entries@.len() - i,
    {
        let s = &sigs.entries[i].0;
        let ghost ps = sigs.pairs();
        proof {
            assert(ps[i as int].0 == account_kv(s@));
            lemma_granted_step(old(w)@.role_holders, ps, role@, i as int);
            assert(attached_kv(s@, role@) =~= account_kv(s@).push(role@));
        }
        if !w.account_exists_exec(s) {
            assert(!all_listed_exist(*old(w), ps)) by {
                reveal(all_listed_exist);
                assert(!old(w)@.accounts.contains_key(ps[i as int].0));
            }
            return Err(ExecError::NotFound);
        }
        assert(w.grant_role_error(owner@, role@, s@) is None);
        match w.grant_role(owner, role, s) {
            Ok(()) => {},
            Err(e) => {
                return Err(e);
            },
        }
        i = i + 1;
    }
    assert(sigs.pairs().subrange(0, i as int) =~= sigs.pairs());
    Ok(())
}

impl MultisigRegister {
    /// The registrant needs the permission to register accounts in the domain.
    pub fn visit(&self, w: &World, who: &AccountId) -> (r: Result<(), ExecError>)
        requires
            w.wf(),
        ensures
            r == (match register_visit_error(*w, who@, self.account@) {
                Some(e) => Err(e),
                None => Ok(()),
            }),
    {
        if w.domain_owner(&self.account.domain).is_none() {
            return Err(ExecError::NotFound);
        }
        let k = (who.clone(), self.account.domain.clone());
        assert(crate::table::Keyed::key_view(&k) == attached_kv(who@, self.account.domain@));
        if w.owns_domain_exec(who, &self.account.domain) || w.register_permissions.contains(&k) {
            Ok(())
        } else {
            Err(ExecError::PermissionDenied)
        }
    }

    /// Registers the account and, acting as the domain's owner, writes its
    /// configuration; hands back the domain's owner.
    fn open_account(&self, w: &mut World, who: &AccountId) -> (r: Result<AccountId, ExecError>)
        requires
            old(w).wf(),
        ensures
            final(w).wf(),
            match r {
                Err(e) => register_error(*old(w), who@, *self) == Some(e),
                Ok(owner) => {
                    &&& self.quorum != 0 && self.transaction_ttl_ms != 0 && self.signatories.wf()
                    &&& old(w).register_account_error(who@, self.account@) is None
                    &&& owner@ == domain_owner_of(*old(w), self.account@)
                    &&& final(w)@ == (WorldState {
                        accounts: old(w)@.accounts.insert(account_kv(self.account@), ()),
                        metadata: metadata_after_register(*old(w), *self),
                        ..old(w)@
                    })
                },
            },
    {
        let m = &self.account;
        if self.quorum == 0 || self.transaction_ttl_ms == 0 || !self.signatories.check_wf() {
            return Err(ExecError::InvalidArgument);
        }
        match w.register_account(who, m.clone()) {
            Ok(()) => {},
            Err(e) => {
                return Err(e);
            },
        }
        let owner = match w.domain_owner(&m.domain) {
            Some(o) => o.clone(),
            None => {
                return Err(ExecError::NotFound);
            },
        };
        match w.set_key_value(&owner, m, String::from_str(SIGNATORIES), Value::Weights(self.signatories.copy())) {
            Ok(()) => {},
            Err(e) => {
                return Err(e);
            },
        }
        match w.set_key_value(&owner, m, String::from_str(QUORUM), Value::Number(self.quorum as u64)) {
            Ok(()) => {},
            Err(e) => {
                return Err(e);
            },
        }
        match w.set_key_value(&owner, m, String::from_str(TRANSACTION_TTL_MS), Value::Number(self.transaction_ttl_ms)) {
            Ok(()) => {},
            Err(e) => {
                return Err(e);
            },
        }
        Ok(owner)
    }

    /// Acting as `owner`, creates the multisig role, grants it to every
    /// signatory in order and gives it up.
    fn install_role(&self, w: &mut World, owner: &AccountId) -> (r: Result<(), ExecError>)
        requires
            old(w).wf(),
        ensures
            final(w).wf(),
            ({
                let o = owner@;
                let role = role_name(self.account@);
                match r {
                    Err(e) => if !old(w).may_name_role(o, role) {
                        e == ExecError::PermissionDenied
                    } else if old(w).role_exists(role) {
                        e == ExecError::Duplicate
                    } else {
                        e == ExecError::NotFound && (!old(w).account_exists(o) || !all_listed_exist(
                            *old(w),
                            self.signatories.pairs(),
                        ))
                    },
                    Ok(()) => {
                        &&& old(w).may_name_role(o, role)
                        &&& !old(w).role_exists(role)
                        &&& old(w).account_exists(o)
                        &&& all_listed_exist(*old(w), self.signatories.pairs())
                        &&& final(w)@ == (WorldState {
                            roles: old(w)@.roles.insert(name_kv(role), o),
                            role_holders: granted(
                                old(w)@.role_holders.insert(attached_kv(o, role), ()),
                                self.signatories.pairs(),
                                role,
                            ).remove(attached_kv(o, role)),
                            ..old(w)@
                        })
                        &&& forall|i: int|
                            0 <= i < self.signatories.pairs().len() && self.signatories.pairs()[i].0
                                != account_kv(o) ==> #[trigger] final(w)@.role_holders.contains_key(
                                self.signatories.pairs()[i].0.push(role),
                            )
                        &&& !final(w).holds_role(o, role)
                    },
                }
            }),
    {
        let m = &self.account;
        let role = multisig_role_for(m);
        let ghost role_v = role_name(m@);
        match w.register_role(owner, role.clone(), owner.clone()) {
            Ok(()) => {},
            Err(e) => {
                return Err(e);
            },
        }
        if !all_exist(w, &self.signatories) {
            proof {
                assert(!all_listed_exist(*old(w), self.signatories.pairs())) by {
                    reveal(all_listed_exist);
                    assert(w@.accounts == old(w)@.accounts);
                }
            }
            return Err(ExecError::NotFound);
        }
        let ghost w_roles = *w;
        proof {
            assert(all_listed_exist(*old(w), self.signatories.pairs())) by {
                reveal(all_listed_exist);
                assert(w@.accounts == old(w)@.accounts);
            }
        }
        match grant_all(w, owner, &role, &self.signatories) {
            Ok(()) => {},
            Err(e) => {
                return Err(e);
            },
        }
        let ghost w_granted = *w;
        let ghost ok = attached_kv(owner@, role_v);
        proof {
            assert forall|i: int| 0 <= i < self.signatories.pairs().len() implies #[trigger] w_granted@.role_holders.contains_key(
                self.signatories.pairs()[i].0.push(role_v),
            ) by {
                lemma_granted_contains(w_roles@.role_holders, self.signatories.pairs(), role_v, i);
            }
            lemma_granted_keeps(w_roles@.role_holders, self.signatories.pairs(), role_v, ok);
            assert(w.holds_role(owner@, role@));
            assert(w.revoke_role_error(owner@, role@, owner@) is None);
        }
        match w.revoke_role(owner, &role, owner) {
            Ok(()) => {},
            Err(e) => {
                return Err(e);
            },
        }
        proof {
            assert forall|i: int| 0 <= i < self.signatories.pairs().len() && self.signatories.pairs()[i].0
                != account_kv(owner@) implies #[trigger] w@.role_holders.contains_key(
                self.signatories.pairs()[i].0.push(role_v),
            ) by {
                let k = self.signatories.pairs()[i].0;
                if k.push(role_v) == ok {
                    assert(k =~= k.push(role_v).drop_last());
                    assert(account_kv(owner@) =~= ok.drop_last());
                }
                assert(w_granted@.role_holders.contains_key(k.push(role_v)));
            }
        }
        Ok(())
    }

    /// The steps of registration, leaving partial effects where one fails.
    fn apply(&self, w: &mut World, who: &AccountId) -> (r: Result<(), ExecError>)
        requires
            old(w).wf(),
        ensures
            final(w).wf(),
            r matches Err(e) ==> register_error(*old(w), who@, *self) == Some(e),
            r is Ok ==> register_post(*old(w), who@, *self, *final(w), r),
            proposals_whole(*old(w)) && r is Ok ==> proposals_whole(*final(w)),
    {
        let ghost w0 = *old(w);
        let owner = match self.open_account(w, who) {
            Ok(o) => o,
            Err(e) => {
                return Err(e);
            },
        };
        let ghost w1 = *w;
        proof {
            if proposals_whole(w0) {
                lemma_register_keeps_proposals(w0, w1, *self);
            }
            assert forall|k: KeyView| #[trigger] w1@.accounts.contains_key(k) == exists_with(w0, self.account@, k) by {}
            if all_listed_exist(w1, self.signatories.pairs()) {
                assert forall|i: int| 0 <= i < self.signatories.pairs().len() implies exists_with(w0, self.account@, #[trigger] self.signatories.pairs()[i].0) by {
                    reveal(all_listed_exist);
                    assert(w1@.accounts.contains_key(self.signatories.pairs()[i].0));
                }
            } else {
                reveal(all_listed_exist);
                let i = choose|i: int| 0 <= i < self.signatories.pairs().len() && !#[trigger] w1@.accounts.contains_key(self.signatories.pairs()[i].0);
                assert(!exists_with(w0, self.account@, self.signatories.pairs()[i].0));
            }
        }
        let r = self.install_role(w, &owner);
        proof {
            if r is Ok && proposals_whole(w1) {
                assert(w@.metadata.dom() =~= w1@.metadata.dom());
                lemma_whole_same_keys(w1, *w);
            }
        }
        r
    }

    /// Registers the account, then, acting as the domain's owner, writes the
    /// configuration, creates the multisig role, grants it to every
    /// signatory in order and gives it up.
    /// Where a step fails, the ledger is left as it was.
    pub fn execute(&self, w: &mut World, who: &AccountId) -> (r: Result<(), ExecError>)
        requires
            old(w).wf(),
        ensures
            final(w).wf(),
            register_post(*old(w), who@, *self, *final(w), r),
            proposals_whole(*old(w)) && r is Ok ==> proposals_whole(*final(w)),
    {
        let saved = w.snapshot();
        let r = self.apply(w, who);
        if r.is_err() {
            *w = saved;
        }
        r
    }
}

} // verus!
