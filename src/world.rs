//! The ledger state that the engine reads and the base instructions that
//! change it, each with the permission rule that guards it.

use vstd::prelude::*;
use crate::keys::{parse_reserved_role, reserved_role_domain};
use crate::names::{AccountId, AccountKey};
use crate::table::{KeyView, Keyed, Table};
use crate::instruction::{Value, ValueView};

verus! {

/// Why an instruction was refused.
#[derive(Debug, Clone, Copy, PartialEq, Eq, Structural)]
pub enum ExecError {
    /// The authority may not perform the instruction.
    PermissionDenied,
    /// What the instruction creates exists already.
    Duplicate,
    /// What the instruction refers to does not exist.
    NotFound,
    /// Metadata that the engine reads does not hold the expected kind of value.
    InvalidMetadata,
    /// An argument lies outside its allowed range.
    InvalidArgument,
    /// Instructions nested deeper than the executor allows.
    DepthExceeded,
}

/// The table key of an account.
pub open spec fn account_kv(a: AccountKey) -> KeyView {
    seq![a.0, a.1]
}

/// The table key of a name attached to an account.
pub open spec fn attached_kv(a: AccountKey, name: Seq<char>) -> KeyView {
    seq![a.0, a.1, name]
}

/// The table key of a domain or a role.
pub open spec fn name_kv(name: Seq<char>) -> KeyView {
    seq![name]
}

/// The state of the ledger.
pub struct World {
    /// Registered accounts.
    pub accounts: Table<AccountId, ()>,
    /// Domains, each with its owner.
    pub domains: Table<String, AccountId>,
    /// Roles, each with the account that may grant and revoke it.
    pub roles: Table<String, AccountId>,
    /// Which account holds which role.
    pub role_holders: Table<(AccountId, String), ()>,
    /// Which account may register accounts in which domain.
    pub register_permissions: Table<(AccountId, String), ()>,
    /// Account metadata, by account and key.
    pub metadata: Table<(AccountId, String), Value>,
    /// Creation time of the current block, in milliseconds.
    pub now_ms: u64,
}

/// The plain-value model of the ledger state.
pub struct WorldState {
    pub accounts: Map<KeyView, ()>,
    pub domains: Map<KeyView, AccountKey>,
    pub roles: Map<KeyView, AccountKey>,
    pub role_holders: Map<KeyView, ()>,
    pub register_permissions: Map<KeyView, ()>,
    pub metadata: Map<KeyView, ValueView>,
    pub now_ms: u64,
}

impl View for World {
    type V = WorldState;

    open spec fn view(&self) -> WorldState {
        WorldState {
            accounts: self.accounts@,
            domains: self.domains@,
            roles: self.roles@,
            role_holders: self.role_holders@,
            register_permissions: self.register_permissions@,
            metadata: self.metadata@,
            now_ms: self.now_ms,
        }
    }
}

impl World {
    pub open spec fn wf(&self) -> bool {
        &&& self.accounts.wf()
        &&& self.domains.wf()
        &&& self.roles.wf()
        &&& self.role_holders.wf()
        &&& self.register_permissions.wf()
        &&& self.metadata.wf()
    }

    pub open spec fn account_exists(&self, a: AccountKey) -> bool {
        self.accounts@.contains_key(account_kv(a))
    }

    pub open spec fn domain_exists(&self, d: Seq<char>) -> bool {
        self.domains@.contains_key(name_kv(d))
    }

    pub open spec fn owns_domain(&self, who: AccountKey, d: Seq<char>) -> bool {
        self.domain_exists(d) && self.domains@[name_kv(d)] == who
    }

    /// Registering accounts in `d` is open to its owner and to holders of the permission.
    pub open spec fn may_register_in(&self, who: AccountKey, d: Seq<char>) -> bool {
        self.owns_domain(who, d) || self.register_permissions@.contains_key(attached_kv(who, d))
    }

    /// An account's metadata is open to the account itself and to its domain's owner.
    pub open spec fn may_modify(&self, who: AccountKey, a: AccountKey) -> bool {
        who == a || self.owns_domain(who, a.0)
    }

    pub open spec fn role_exists(&self, role: Seq<char>) -> bool {
        self.roles@.contains_key(name_kv(role))
    }

    pub open spec fn holds_role(&self, a: AccountKey, role: Seq<char>) -> bool {
        self.role_holders@.contains_key(attached_kv(a, role))
    }

    pub open spec fn has_meta(&self, a: AccountKey, key: Seq<char>) -> bool {
        self.metadata@.contains_key(attached_kv(a, key))
    }

    pub open spec fn meta(&self, a: AccountKey, key: Seq<char>) -> ValueView {
        self.metadata@[attached_kv(a, key)]
    }

    /// The refusal, if any, of registering account `a` on behalf of `who`.
    pub open spec fn register_account_error(&self, who: AccountKey, a: AccountKey) -> Option<ExecError> {
        if !self.domain_exists(a.0) {
            Some(ExecError::NotFound)
        } else if !self.may_register_in(who, a.0) {
            Some(ExecError::PermissionDenied)
        } else if self.account_exists(a) {
            Some(ExecError::Duplicate)
        } else {
            None
        }
    }

    /// The refusal, if any, of setting a metadata entry of `a` on behalf of `who`.
    pub open spec fn set_key_value_error(&self, who: AccountKey, a: AccountKey) -> Option<ExecError> {
        if !self.account_exists(a) {
            Some(ExecError::NotFound)
        } else if !self.may_modify(who, a) {
            Some(ExecError::PermissionDenied)
        } else {
            None
        }
    }

    /// The refusal, if any, of removing metadata entry `key` of `a` on behalf of `who`.
    pub open spec fn remove_key_value_error(&self, who: AccountKey, a: AccountKey, key: Seq<char>) -> Option<ExecError> {
        if !self.account_exists(a) {
            Some(ExecError::NotFound)
        } else if !self.may_modify(who, a) {
            Some(ExecError::PermissionDenied)
        } else if !self.has_meta(a, key) {
            Some(ExecError::NotFound)
        } else {
            None
        }
    }

    /// Whether `who` may create a role of this name: a name in the multisig
    /// namespace only by the owner of the domain that it names.
    pub open spec fn may_name_role(&self, who: AccountKey, role: Seq<char>) -> bool {
        match reserved_role_domain(role) {
            None => true,
            Some(None) => false,
            Some(Some(d)) => self.owns_domain(who, d),
        }
    }

    /// The refusal, if any, of registering `role` held by `owner` on behalf of `who`.
    pub open spec fn register_role_error(&self, who: AccountKey, role: Seq<char>, owner: AccountKey) -> Option<ExecError> {
        if !self.may_name_role(who, role) {
            Some(ExecError::PermissionDenied)
        } else if self.role_exists(role) {
            Some(ExecError::Duplicate)
        } else if !self.account_exists(owner) {
            Some(ExecError::NotFound)
        } else {
            None
        }
    }

    /// The refusal, if any, of granting `role` to `a` on behalf of `who`.
    pub open spec fn grant_role_error(&self, who: AccountKey, role: Seq<char>, a: AccountKey) -> Option<ExecError> {
        if !self.role_exists(role) || !self.account_exists(a) {
            Some(ExecError::NotFound)
        } else if self.roles@[name_kv(role)] != who {
            Some(ExecError::PermissionDenied)
        } else {
            None
        }
    }

    /// The refusal, if any, of revoking `role` from `a` on behalf of `who`.
    pub open spec fn revoke_role_error(&self, who: AccountKey, role: Seq<char>, a: AccountKey) -> Option<ExecError> {
        if !self.role_exists(role) {
            Some(ExecError::NotFound)
        } else if self.roles@[name_kv(role)] != who {
            Some(ExecError::PermissionDenied)
        } else if !self.holds_role(a, role) {
            Some(ExecError::NotFound)
        } else {
            None
        }
    }

    /// The refusal, if any, of letting `a` register accounts in `d` on behalf of `who`.
    pub open spec fn grant_register_error(&self, who: AccountKey, d: Seq<char>, a: AccountKey) -> Option<ExecError> {
        if !self.domain_exists(d) || !self.account_exists(a) {
            Some(ExecError::NotFound)
        } else if !self.owns_domain(who, d) {
            Some(ExecError::PermissionDenied)
        } else {
            None
        }
    }

    /// An empty ledger at block time `now_ms`.
    pub fn new(now_ms: u64) -> (r: World)
        ensures
            r.wf(),
            r@.accounts.is_empty(),
            r@.domains.is_empty(),
            r@.roles.is_empty(),
            r@.role_holders.is_empty(),
            r@.register_permissions.is_empty(),
            r@.metadata.is_empty(),
            r.now_ms == now_ms,
    {
        World {
            accounts: Table::new(),
            domains: Table::new(),
            roles: Table::new(),
            role_holders: Table::new(),
            register_permissions: Table::new(),
            metadata: Table::new(),
            now_ms,
        }
    }

    /// Moves on to a block created at `now_ms`.
    pub fn set_block_time(&mut self, now_ms: u64)
        ensures
            final(self)@ == (WorldState { now_ms, ..old(self)@ }),
            final(self).wf() == old(self).wf(),
    {
        self.now_ms = now_ms;
    }

    /// Sets up a domain owned by `owner`, as a genesis block does.
    pub fn add_domain(&mut self, domain: String, owner: AccountId)
        requires
            old(self).wf(),
        ensures
            final(self).wf(),
            final(self)@ == (WorldState {
                domains: old(self)@.domains.insert(name_kv(domain@), owner@),
                ..old(self)@
            }),
    {
        self.domains.set(domain, owner);
    }

    /// Sets up an account, as a genesis block does.
    pub fn add_account(&mut self, account: AccountId)
        requires
            old(self).wf(),
        ensures
            final(self).wf(),
            final(self)@ == (WorldState {
                accounts: old(self)@.accounts.insert(account_kv(account@), ()),
                ..old(self)@
            }),
    {
        self.accounts.set(account, ());
    }

    pub fn account_exists_exec(&self, a: &AccountId) -> (r: bool)
        requires
            self.wf(),
        ensures
            r == self.account_exists(a@),
    {
        self.accounts.contains(a)
    }

    /// The owner of domain `d`, if the domain exists.
    pub fn domain_owner(&self, d: &String) -> (r: Option<&AccountId>)
        requires
            self.wf(),
        ensures
            match r {
                Some(o) => self.domain_exists(d@) && self.domains@[name_kv(d@)] == o@,
                None => !self.domain_exists(d@),
            },
    {
        assert(d.key_view() == name_kv(d@));
        self.domains.get(d)
    }

    pub fn owns_domain_exec(&self, who: &AccountId, d: &String) -> (r: bool)
        requires
            self.wf(),
        ensures
            r == self.owns_domain(who@, d@),
    {
        match self.domain_owner(d) {
            Some(o) => o.same(who),
            None => false,
        }
    }

    pub fn holds_role_exec(&self, a: &AccountId, role: &String) -> (r: bool)
        requires
            self.wf(),
        ensures
            r == self.holds_role(a@, role@),
    {
        let k = (a.clone(), role.clone());
        assert(k.key_view() == attached_kv(a@, role@));
        self.role_holders.contains(&k)
    }

    pub fn role_exists_exec(&self, role: &String) -> (r: bool)
        requires
            self.wf(),
        ensures
            r == self.role_exists(role@),
    {
        assert(role.key_view() == name_kv(role@));
        self.roles.contains(role)
    }

    /// The metadata entry `key` of `a`, if there is one.
    pub fn get_meta(&self, a: &AccountId, key: &String) -> (r: Option<&Value>)
        requires
            self.wf(),
        ensures
            match r {
                Some(v) => self.has_meta(a@, key@) && self.meta(a@, key@) == v@,
                None => !self.has_meta(a@, key@),
            },
    {
        let k = (a.clone(), key.clone());
        assert(k.key_view() == attached_kv(a@, key@));
        self.metadata.get(&k)
    }

    fn may_modify_exec(&self, who: &AccountId, a: &AccountId) -> (r: bool)
        requires
            self.wf(),
        ensures
            r == self.may_modify(who@, a@),
    {
        who.same(a) || self.owns_domain_exec(who, &a.domain)
    }

    /// Registers `account` on behalf of `who`.
    pub fn register_account(&mut self, who: &AccountId, account: AccountId) -> (r: Result<(), ExecError>)
        requires
            old(self).wf(),
        ensures
            final(self).wf(),
            match r {
                Ok(()) => old(self).register_account_error(who@, account@) is None && final(self)@ == (WorldState {
                    accounts: old(self)@.accounts.insert(account_kv(account@), ()),
                    ..old(self)@
                }),
                Err(e) => old(self).register_account_error(who@, account@) == Some(e) && final(self)@
                    == old(self)@,
            },
    {
        if !self.domain_owner(&account.domain).is_some() {
            return Err(ExecError::NotFound);
        }
        let k = (who.clone(), account.domain.clone());
        assert(k.key_view() == attached_kv(who@, account.domain@));
        if !(self.owns_domain_exec(who, &account.domain) || self.register_permissions.contains(&k)) {
            return Err(ExecError::PermissionDenied);
        }
        if self.accounts.contains(&account) {
            return Err(ExecError::Duplicate);
        }
        self.accounts.set(account, ());
        Ok(())
    }

    /// Sets metadata entry `key` of `account` to `value` on behalf of `who`.
    pub fn set_key_value(&mut self, who: &AccountId, account: &AccountId, key: String, value: Value) -> (r: Result<(), ExecError>)
        requires
            old(self).wf(),
        ensures
            final(self).wf(),
            match r {
                Ok(()) => old(self).set_key_value_error(who@, account@) is None && final(self)@ == (WorldState {
                    metadata: old(self)@.metadata.insert(attached_kv(account@, key@), value@),
                    ..old(self)@
                }),
                Err(e) => old(self).set_key_value_error(who@, account@) == Some(e) && final(self)@
                    == old(self)@,
            },
    {
        if !self.accounts.contains(account) {
            return Err(ExecError::NotFound);
        }
        if !self.may_modify_exec(who, account) {
            return Err(ExecError::PermissionDenied);
        }
        let ghost kv = attached_kv(account@, key@);
        let k = (account.clone(), key);
        assert(k.key_view() == kv);
        self.metadata.set(k, value);
        Ok(())
    }

    /// Removes metadata entry `key` of `account` on behalf of `who`.
    pub fn remove_key_value(&mut self, who: &AccountId, account: &AccountId, key: &String) -> (r: Result<(), ExecError>)
        requires
            old(self).wf(),
        ensures
            final(self).wf(),
            match r {
                Ok(()) => old(self).remove_key_value_error(who@, account@, key@) is None && final(self)@
                    == (WorldState {
                    metadata: old(self)@.metadata.remove(attached_kv(account@, key@)),
                    ..old(self)@
                }),
                Err(e) => old(self).remove_key_value_error(who@, account@, key@) == Some(e)
                    && final(self)@ == old(self)@,
            },
    {
        if !self.accounts.contains(account) {
            return Err(ExecError::NotFound);
        }
        if !self.may_modify_exec(who, account) {
            return Err(ExecError::PermissionDenied);
        }
        let k = (account.clone(), key.clone());
        assert(k.key_view() == attached_kv(account@, key@));
        if !self.metadata.contains(&k) {
            return Err(ExecError::NotFound);
        }
        let _ = self.metadata.remove(&k);
        Ok(())
    }

    fn may_name_role_exec(&self, who: &AccountId, role: &String) -> (r: bool)
        requires
            self.wf(),
        ensures
            r == self.may_name_role(who@, role@),
    {
        match parse_reserved_role(role.as_str()) {
            None => true,
            Some(None) => false,
            Some(Some(d)) => self.owns_domain_exec(who, &d),
        }
    }

    /// Registers `role`, held at first by `owner`, who alone may grant and
    /// revoke it, on behalf of `who`.
    pub fn register_role(&mut self, who: &AccountId, role: String, owner: AccountId) -> (r: Result<(), ExecError>)
        requires
            old(self).wf(),
        ensures
            final(self).wf(),
            match r {
                Ok(()) => old(self).register_role_error(who@, role@, owner@) is None && final(self)@
                    == (WorldState {
                    roles: old(self)@.roles.insert(name_kv(role@), owner@),
                    role_holders: old(self)@.role_holders.insert(attached_kv(owner@, role@), ()),
                    ..old(self)@
                }),
                Err(e) => old(self).register_role_error(who@, role@, owner@) == Some(e) && final(self)@
                    == old(self)@,
            },
    {
        if !self.may_name_role_exec(who, &role) {
            return Err(ExecError::PermissionDenied);
        }
        if self.role_exists_exec(&role) {
            return Err(ExecError::Duplicate);
        }
        if !self.accounts.contains(&owner) {
            return Err(ExecError::NotFound);
        }
        let k = (owner.clone(), role.clone());
        assert(k.key_view() == attached_kv(owner@, role@));
        assert(role.key_view() == name_kv(role@));
        self.role_holders.set(k, ());
        self.roles.set(role, owner);
        Ok(())
    }

    /// Grants `role` to `account` on behalf of `who`.
    pub fn grant_role(&mut self, who: &AccountId, role: &String, account: &AccountId) -> (r: Result<(), ExecError>)
        requires
            old(self).wf(),
        ensures
            final(self).wf(),
            match r {
                Ok(()) => old(self).grant_role_error(who@, role@, account@) is None && final(self)@
                    == (WorldState {
                    role_holders: old(self)@.role_holders.insert(attached_kv(account@, role@), ()),
                    ..old(self)@
                }),
                Err(e) => old(self).grant_role_error(who@, role@, account@) == Some(e) && final(self)@
                    == old(self)@,
            },
    {
        assert(role.key_view() == name_kv(role@));
        let owner_is_who = match self.roles.get(role) {
            None => {
                return Err(ExecError::NotFound);
            },
            Some(o) => o.same(who),
        };
        if !self.accounts.contains(account) {
            return Err(ExecError::NotFound);
        }
        if !owner_is_who {
            return Err(ExecError::PermissionDenied);
        }
        let k = (account.clone(), role.clone());
        assert(k.key_view() == attached_kv(account@, role@));
        self.role_holders.set(k, ());
        Ok(())
    }

    /// Revokes `role` from `account` on behalf of `who`.
    pub fn revoke_role(&mut self, who: &AccountId, role: &String, account: &AccountId) -> (r: Result<(), ExecError>)
        requires
            old(self).wf(),
        ensures
            final(self).wf(),
            match r {
                Ok(()) => old(self).revoke_role_error(who@, role@, account@) is None && final(self)@
                    == (WorldState {
                    role_holders: old(self)@.role_holders.remove(attached_kv(account@, role@)),
                    ..old(self)@
                }),
                Err(e) => old(self).revoke_role_error(who@, role@, account@) == Some(e) && final(self)@
                    == old(self)@,
            },
    {
        assert(role.key_view() == name_kv(role@));
        let owner_is_who = match self.roles.get(role) {
            None => {
                return Err(ExecError::NotFound);
            },
            Some(o) => o.same(who),
        };
        if !owner_is_who {
            return Err(ExecError::PermissionDenied);
        }
        let k = (account.clone(), role.clone());
        assert(k.key_view() == attached_kv(account@, role@));
        if !self.role_holders.contains(&k) {
            return Err(ExecError::NotFound);
        }
        let _ = self.role_holders.remove(&k);
        Ok(())
    }

    /// Lets `account` register accounts in `domain`, on behalf of `who`.
    pub fn grant_can_register_account(&mut self, who: &AccountId, domain: &String, account: &AccountId) -> (r: Result<(), ExecError>)
        requires
            old(self).wf(),
        ensures
            final(self).wf(),
            match r {
                Ok(()) => old(self).grant_register_error(who@, domain@, account@) is None && final(self)@
                    == (WorldState {
                    register_permissions: old(self)@.register_permissions.insert(
                        attached_kv(account@, domain@),
                        (),
                    ),
                    ..old(self)@
                }),
                Err(e) => old(self).grant_register_error(who@, domain@, account@) == Some(e)
                    && final(self)@ == old(self)@,
            },
    {
        if !self.domain_owner(domain).is_some() || !self.accounts.contains(account) {
            return Err(ExecError::NotFound);
        }
        if !self.owns_domain_exec(who, domain) {
            return Err(ExecError::PermissionDenied);
        }
        let k = (account.clone(), domain.clone());
        assert(k.key_view() == attached_kv(account@, domain@));
        self.register_permissions.set(k, ());
        Ok(())
    }

    /// A copy of the whole state.
    pub fn snapshot(&self) -> (r: World)
        requires
            self.wf(),
        ensures
            r.wf(),
            r@ == self@,
    {
        World {
            accounts: self.accounts.copy(),
            domains: self.domains.copy(),
            roles: self.roles.copy(),
            role_holders: self.role_holders.copy(),
            register_permissions: self.register_permissions.copy(),
            metadata: self.metadata.copy(),
            now_ms: self.now_ms,
        }
    }
}

} // verus!
