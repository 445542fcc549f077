//! Running instructions: each one is checked by its visit, then executed,
//! and a submitted instruction either takes effect whole or not at all.

use vstd::prelude::*;
use crate::copy::Duplicate;
use crate::instruction::Instruction;
use crate::names::AccountId;
use crate::world::{account_kv, attached_kv, name_kv, ExecError, World, WorldState};
use crate::names::AccountKey;
use crate::approve::approve_post;
use crate::propose::propose_full;
use crate::register::{register_post, register_visit_error};
use crate::approve::approve_error;
use crate::hash::hash_of;
use crate::keys::role_name;
use crate::propose::propose_error;
use crate::register::register_error;

verus! {

/// What running an instruction may give: a relation between the state
/// before, the authority, the instruction, the state after and the result.
pub type ExecRel = spec_fn(World, AccountKey, Instruction, World, Result<(), ExecError>) -> bool;

/// What running an instruction with nesting budget `d` gives: what an
/// approval runs in turn runs with budget `d - 1`.
pub open spec fn exec_at(d: nat) -> ExecRel
    decreases d, 1nat,
{
    |w: World, a: AccountKey, i: Instruction, w2: World, r: Result<(), ExecError>| step(
        w,
        a,
        i,
        d as u32,
        inner_for(d),
        w2,
        r,
    )
}

/// What an instruction run by an approval with budget `d` may give.
pub open spec fn inner_for(d: nat) -> ExecRel
    decreases d, 0nat,
{
    if d == 0 {
        no_run()
    } else {
        exec_at((d - 1) as nat)
    }
}

/// Nothing runs without budget.
pub open spec fn no_run() -> ExecRel {
    |w: World, a: AccountKey, i: Instruction, w2: World, r: Result<(), ExecError>| false
}

/// What running `i` on behalf of `a` from `w` with budget `depth` may give:
/// the state after it, `w2`, and the result `r`. Base instructions are
/// exact; a multisig instruction is refused by its visit or behaves as its
/// handler states, and what an approval runs in turn behaves as `inner`.
#[verifier::opaque]
pub open spec fn step(w: World, a: AccountKey, i: Instruction, depth: u32, inner: ExecRel, w2: World, r: Result<(), ExecError>) -> bool {
    match i {
        Instruction::RegisterAccount { account } => match r {
            Ok(()) => w.register_account_error(a, account@) is None && w2@ == (WorldState {
                accounts: w@.accounts.insert(account_kv(account@), ()),
                ..w@
            }),
            Err(e) => w.register_account_error(a, account@) == Some(e) && w2@ == w@,
        },
        Instruction::SetKeyValue { account, key, value } => match r {
            Ok(()) => w.set_key_value_error(a, account@) is None && w2@ == (WorldState {
                metadata: w@.metadata.insert(attached_kv(account@, key@), value@),
                ..w@
            }),
            Err(e) => w.set_key_value_error(a, account@) == Some(e) && w2@ == w@,
        },
        Instruction::RemoveKeyValue { account, key } => match r {
            Ok(()) => w.remove_key_value_error(a, account@, key@) is None && w2@ == (WorldState {
                metadata: w@.metadata.remove(attached_kv(account@, key@)),
                ..w@
            }),
            Err(e) => w.remove_key_value_error(a, account@, key@) == Some(e) && w2@ == w@,
        },
        Instruction::RegisterRole { role, owner } => match r {
            Ok(()) => w.register_role_error(a, role@, owner@) is None && w2@ == (WorldState {
                roles: w@.roles.insert(name_kv(role@), owner@),
                role_holders: w@.role_holders.insert(attached_kv(owner@, role@), ()),
                ..w@
            }),
            Err(e) => w.register_role_error(a, role@, owner@) == Some(e) && w2@ == w@,
        },
        Instruction::GrantRole { role, account } => match r {
            Ok(()) => w.grant_role_error(a, role@, account@) is None && w2@ == (WorldState {
                role_holders: w@.role_holders.insert(attached_kv(account@, role@), ()),
                ..w@
            }),
            Err(e) => w.grant_role_error(a, role@, account@) == Some(e) && w2@ == w@,
        },
        Instruction::RevokeRole { role, account } => match r {
            Ok(()) => w.revoke_role_error(a, role@, account@) is None && w2@ == (WorldState {
                role_holders: w@.role_holders.remove(attached_kv(account@, role@)),
                ..w@
            }),
            Err(e) => w.revoke_role_error(a, role@, account@) == Some(e) && w2@ == w@,
        },
        Instruction::GrantCanRegisterAccount { domain, account } => match r {
            Ok(()) => w.grant_register_error(a, domain@, account@) is None && w2@ == (WorldState {
                register_permissions: w@.register_permissions.insert(attached_kv(account@, domain@), ()),
                ..w@
            }),
            Err(e) => w.grant_register_error(a, domain@, account@) == Some(e) && w2@ == w@,
        },
        Instruction::Register(reg) => match register_visit_error(w, a, reg.account@) {
            Some(e) => r == Err::<(), ExecError>(e) && w2@ == w@,
            None => register_post(w, a, reg, w2, r),
        },
        Instruction::Propose(p) => if depth == 0 {
            r == Err::<(), ExecError>(ExecError::DepthExceeded) && w2@ == w@
        } else {
            match propose_error(w, a, p.account@, hash_of(p.instructions@)) {
                Some(e) => r == Err::<(), ExecError>(e) && w2@ == w@,
                None => propose_full(w, a, p, (depth - 1) as u32, w2, r),
            }
        },
        Instruction::Approve(ap) => if depth == 0 {
            r == Err::<(), ExecError>(ExecError::DepthExceeded) && w2@ == w@
        } else if !w.holds_role(a, role_name(ap.account@)) {
            r == Err::<(), ExecError>(ExecError::PermissionDenied) && w2@ == w@
        } else {
            approve_post(w, a, ap, inner, w2, r)
        },
    }
}

/// The first `n` instructions of `s` each succeed, the `i`-th taking
/// `ws[i]` to `ws[i + 1]`.
pub open spec fn steps_ok(ws: Seq<World>, a: AccountKey, s: Seq<Instruction>, inner: ExecRel, n: int) -> bool {
    forall|i: int| 0 <= i < n ==> #[trigger] step_at(ws, a, s, inner, i)
}

/// The `i`-th instruction of `s` succeeds, taking `ws[i]` to `ws[i + 1]`.
pub open spec fn step_at(ws: Seq<World>, a: AccountKey, s: Seq<Instruction>, inner: ExecRel, i: int) -> bool {
    ws[i].wf() && inner(ws[i], a, s[i], ws[i + 1], Ok(()))
}

pub proof fn lemma_steps_extend(ws: Seq<World>, a: AccountKey, s: Seq<Instruction>, inner: ExecRel, n: int, w2: World)
    requires
        0 <= n < s.len(),
        ws.len() == n + 1,
        steps_ok(ws, a, s, inner, n),
        ws[n].wf(),
        inner(ws[n], a, s[n], w2, Ok(())),
    ensures
        steps_ok(ws.push(w2), a, s, inner, n + 1),
{
    let ws2 = ws.push(w2);
    assert forall|j: int| 0 <= j < n + 1 implies #[trigger] step_at(ws2, a, s, inner, j) by {
        if j < n {
            assert(step_at(ws, a, s, inner, j));
            assert(ws2[j] == ws[j] && ws2[j + 1] == ws[j + 1]);
        } else {
            assert(ws2[j] == ws[n] && ws2[j + 1] == w2);
        }
    }
}

/// A run of `s` through the states `ws`: `n` instructions succeed, then the
/// list ends with success or the next instruction is refused, and `w2` is
/// the state it leaves.
pub open spec fn run_trace(
    w: World,
    a: AccountKey,
    s: Seq<Instruction>,
    inner: ExecRel,
    ws: Seq<World>,
    n: int,
    w2: World,
    r: Result<(), ExecError>,
) -> bool {
    &&& 0 <= n <= s.len()
    &&& ws.len() == n + 1
    &&& ws[0] == w
    &&& steps_ok(ws, a, s, inner, n)
    &&& if n == s.len() {
        r is Ok && w2 == ws[n]
    } else {
        ws[n].wf() && r is Err && inner(ws[n], a, s[n], w2, r)
    }
}

/// What running the list `s` in order on behalf of `a` from `w` may give:
/// each instruction runs on the state the previous one left, and the first
/// refusal is the result.
pub open spec fn run_list(w: World, a: AccountKey, s: Seq<Instruction>, inner: ExecRel, w2: World, r: Result<(), ExecError>) -> bool {
    exists|ws: Seq<World>, n: int| #[trigger] trace_of(ws, n) && run_trace(w, a, s, inner, ws, n, w2, r)
}

/// Names a candidate run: the states passed through and the number of
/// instructions that succeeded.
pub open spec fn trace_of(ws: Seq<World>, n: int) -> bool {
    0 <= n < ws.len()
}

/// How deeply instructions may nest: proposals that deploy further
/// proposals, and approvals that run what they approved.
pub const MAX_DEPTH: u32 = 32;

impl World {
    /// Runs `instruction` on behalf of `authority`: its visit first, then its
    /// execution.
    pub fn execute_instruction(&mut self, authority: &AccountId, instruction: &Instruction, depth: u32) -> (r: Result<(), ExecError>)
        requires
            old(self).wf(),
        ensures
            final(self).wf(),
            step(*old(self), authority@, *instruction, depth, inner_for(depth as nat), *final(self), r),
        decreases depth, 0nat,
    {
        reveal(step);
        match instruction {
            Instruction::RegisterAccount { account } => self.register_account(authority, account.clone()),
            Instruction::SetKeyValue { account, key, value } => {
                self.set_key_value(authority, account, key.clone(), value.duplicate())
            },
            Instruction::RemoveKeyValue { account, key } => self.remove_key_value(authority, account, key),
            Instruction::RegisterRole { role, owner } => self.register_role(authority, role.clone(), owner.clone()),
            Instruction::GrantRole { role, account } => self.grant_role(authority, role, account),
            Instruction::RevokeRole { role, account } => self.revoke_role(authority, role, account),
            Instruction::GrantCanRegisterAccount { domain, account } => {
                self.grant_can_register_account(authority, domain, account)
            },
            Instruction::Register(register) => {
                match register.visit(self, authority) {
                    Ok(()) => register.execute(self, authority),
                    Err(e) => Err(e),
                }
            },
            Instruction::Propose(propose) => {
                if depth == 0 {
                    return Err(ExecError::DepthExceeded);
                }
                match propose.visit(self, authority) {
                    Ok(()) => propose.execute(self, authority, depth - 1),
                    Err(e) => Err(e),
                }
            },
            Instruction::Approve(approve) => {
                if depth == 0 {
                    return Err(ExecError::DepthExceeded);
                }
                match approve.visit(self, authority) {
                    Ok(()) => {
                        let r = approve.execute(self, authority, depth - 1);
                        assert(inner_for(depth as nat) == exec_at((depth - 1) as nat));
                        r
                    },
                    Err(e) => Err(e),
                }
            },
        }
    }

    /// Runs `instructions` in order on behalf of `authority`, stopping at the
    /// first refusal.
    pub fn run_all(&mut self, authority: &AccountId, instructions: &Vec<Instruction>, depth: u32) -> (r: Result<(), ExecError>)
        requires
            old(self).wf(),
        ensures
            final(self).wf(),
            run_list(*old(self), authority@, instructions@, exec_at(depth as nat), *final(self), r),
        decreases depth, 1nat,
    {
        let ghost w0 = *old(self);
        let ghost l = instructions@;
        let ghost a = authority@;
        let ghost inner = exec_at(depth as nat);
        let ghost mut ws: Seq<World> = seq![w0];
        let mut i: usize = 0;
        while i < instructions.len()
            invariant
                self.wf(),
                i <= instructions@.len(),
                l == instructions@,
                a == authority@,
                inner == exec_at(depth as nat),
                ws.len() == i + 1,
                ws[0] == w0,
                w0 == *old(self),
                ws[i as int] == *self,
                steps_ok(ws, a, l, inner, i as int),
            decreases instructions@.len() - i,
        {
            let ghost wi = *self;
            let r1 = self.execute_instruction(authority, &instructions[i], depth);
            assert(inner(wi, a, l[i as int], *self, r1));
            if r1.is_err() {
                assert(run_trace(w0, a, l, inner, ws, i as int, *self, r1));
                assert(trace_of(ws, i as int));
                return r1;
            }
            proof {
                assert(r1->Ok_0 == ());
                lemma_steps_extend(ws, a, l, inner, i as int, *self);
                ws = ws.push(*self);
            }
            i = i + 1;
        }
        assert(run_trace(w0, a, l, inner, ws, i as int, *self, Ok(())));
        assert(trace_of(ws, i as int));
        Ok(())
    }

    /// Submits `instruction` on behalf of `authority`. Where it fails, the
    /// ledger is left as it was.
    pub fn submit(&mut self, authority: &AccountId, instruction: &Instruction) -> (r: Result<(), ExecError>)
        requires
            old(self).wf(),
        ensures
            final(self).wf(),
            r is Ok ==> exec_at(MAX_DEPTH as nat)(*old(self), authority@, *instruction, *final(self), r),
            r is Err ==> final(self)@ == old(self)@ && exists|w2: World|
                #[trigger] exec_at(MAX_DEPTH as nat)(*old(self), authority@, *instruction, w2, r),
    {
        let saved = self.snapshot();
        let r = self.execute_instruction(authority, instruction, MAX_DEPTH);
        let ghost after = *self;
        assert(exec_at(MAX_DEPTH as nat)(*old(self), authority@, *instruction, after, r));
        if r.is_err() {
            *self = saved;
        }
        r
    }
}

} // verus!
