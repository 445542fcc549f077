//! Instructions, metadata values and their canonical byte encoding.
//!
//! The view of an instruction or a value is its encoding: two instructions
//! are the same logical instruction exactly when their encodings agree.

use vstd::prelude::*;
use crate::copy::Duplicate;
use crate::names::AccountId;
use crate::table::{KeyView, Table};

verus! {

/// Registers a multisig account with its signatories, quorum and time-to-live.
pub struct MultisigRegister {
    pub account: AccountId,
    pub signatories: Table<AccountId, u8>,
    pub quorum: u16,
    pub transaction_ttl_ms: u64,
}

/// Proposes a list of instructions to be run as a multisig account.
pub struct MultisigPropose {
    pub account: AccountId,
    pub instructions: Vec<Instruction>,
}

/// Approves the proposal of a multisig account with the given digest.
pub struct MultisigApprove {
    pub account: AccountId,
    pub instructions_hash: Vec<u8>,
}

/// A value kept in account metadata.
pub enum Value {
    Text(String),
    Number(u64),
    Weights(Table<AccountId, u8>),
    Accounts(Table<AccountId, ()>),
    Instructions(Vec<Instruction>),
}

/// An instruction of the ledger.
pub enum Instruction {
    RegisterAccount { account: AccountId },
    SetKeyValue { account: AccountId, key: String, value: Value },
    RemoveKeyValue { account: AccountId, key: String },
    RegisterRole { role: String, owner: AccountId },
    GrantRole { role: String, account: AccountId },
    RevokeRole { role: String, account: AccountId },
    GrantCanRegisterAccount { domain: String, account: AccountId },
    Register(MultisigRegister),
    Propose(MultisigPropose),
    Approve(MultisigApprove),
}

pub open spec fn u64_le(n: u64) -> Seq<u8> {
    seq![
        (n % 256) as u8,
        (n / 256 % 256) as u8,
        (n / 65536 % 256) as u8,
        (n / 16777216 % 256) as u8,
        (n / 4294967296 % 256) as u8,
        (n / 1099511627776 % 256) as u8,
        (n / 281474976710656 % 256) as u8,
        (n / 72057594037927936 % 256) as u8,
    ]
}

pub open spec fn u32_le(n: u32) -> Seq<u8> {
    seq![(n % 256) as u8, (n / 256 % 256) as u8, (n / 65536 % 256) as u8, (n / 16777216 % 256) as u8]
}

pub open spec fn enc_chars(s: Seq<char>) -> Seq<u8>
    decreases s.len(),
{
    if s.len() == 0 {
        Seq::empty()
    } else {
        enc_chars(s.drop_last()) + u32_le(s.last() as u32)
    }
}

/// A string: its length, then each character as a 32-bit code point.
pub open spec fn enc_str(s: Seq<char>) -> Seq<u8> {
    u64_le(s.len() as u64) + enc_chars(s)
}

pub open spec fn enc_account(a: AccountId) -> Seq<u8> {
    enc_str(a.domain@) + enc_str(a.signatory@)
}

/// An account key of a table: its domain, then its signatory.
pub open spec fn enc_account_key(k: KeyView) -> Seq<u8> {
    enc_str(k[0]) + enc_str(k[1])
}

pub open spec fn enc_weight_entries(s: Seq<(KeyView, u8)>) -> Seq<u8>
    decreases s.len(),
{
    if s.len() == 0 {
        Seq::empty()
    } else {
        enc_weight_entries(s.drop_last()) + enc_account_key(s.last().0) + seq![s.last().1]
    }
}

pub open spec fn enc_member_entries(s: Seq<(KeyView, ())>) -> Seq<u8>
    decreases s.len(),
{
    if s.len() == 0 {
        Seq::empty()
    } else {
        enc_member_entries(s.drop_last()) + enc_account_key(s.last().0)
    }
}

pub open spec fn enc_weights(t: Table<AccountId, u8>) -> Seq<u8> {
    u64_le(t.pairs().len() as u64) + enc_weight_entries(t.pairs())
}

pub open spec fn enc_members(t: Table<AccountId, ()>) -> Seq<u8> {
    u64_le(t.pairs().len() as u64) + enc_member_entries(t.pairs())
}

pub open spec fn enc_items(s: Seq<Instruction>) -> Seq<u8>
    decreases s, 0nat,
{
    if s.len() == 0 {
        Seq::empty()
    } else {
        enc_items(s.drop_last()) + enc_instruction(s.last())
    }
}

/// An instruction list: its length, then each instruction.
pub open spec fn enc_list(s: Seq<Instruction>) -> Seq<u8>
    decreases s, 1nat,
{
    u64_le(s.len() as u64) + enc_items(s)
}

pub open spec fn enc_value(v: Value) -> Seq<u8>
    decreases v, 0nat,
{
    match v {
        Value::Text(s) => seq![0u8] + enc_str(s@),
        Value::Number(n) => seq![1u8] + u64_le(n),
        Value::Weights(t) => seq![2u8] + enc_weights(t),
        Value::Accounts(t) => seq![3u8] + enc_members(t),
        Value::Instructions(v) => seq![4u8] + enc_list(v@),
    }
}

pub open spec fn enc_instruction(i: Instruction) -> Seq<u8>
    decreases i, 0nat,
{
    match i {
        Instruction::RegisterAccount { account } => seq![0u8] + enc_account(account),
        Instruction::SetKeyValue { account, key, value } => seq![1u8] + enc_account(account)
            + enc_str(key@) + enc_value(value),
        Instruction::RemoveKeyValue { account, key } => seq![2u8] + enc_account(account) + enc_str(
            key@,
        ),
        Instruction::RegisterRole { role, owner } => seq![3u8] + enc_str(role@) + enc_account(owner),
        Instruction::GrantRole { role, account } => seq![4u8] + enc_str(role@) + enc_account(account),
        Instruction::RevokeRole { role, account } => seq![5u8] + enc_str(role@) + enc_account(
            account,
        ),
        Instruction::GrantCanRegisterAccount { domain, account } => seq![6u8] + enc_str(domain@)
            + enc_account(account),
        Instruction::Register(r) => seq![7u8] + enc_account(r.account) + enc_weights(r.signatories)
            + u64_le(r.quorum as u64) + u64_le(r.transaction_ttl_ms),
        Instruction::Propose(p) => seq![8u8] + enc_account(p.account) + enc_list(p.instructions@),
        Instruction::Approve(a) => seq![9u8] + enc_account(a.account) + u64_le(
            a.instructions_hash@.len() as u64,
        ) + a.instructions_hash@,
    }
}

/// The plain-value model of a metadata value.
pub enum ValueView {
    Text(Seq<char>),
    Number(u64),
    /// Signatory weights, in key order.
    Weights(Seq<(KeyView, u8)>),
    /// A set of accounts, in key order.
    Accounts(Seq<(KeyView, ())>),
    /// An instruction list, by its encoding.
    Instructions(Seq<u8>),
}

impl View for Value {
    type V = ValueView;

    open spec fn view(&self) -> ValueView {
        match *self {
            Value::Text(s) => ValueView::Text(s@),
            Value::Number(n) => ValueView::Number(n),
            Value::Weights(t) => ValueView::Weights(t.pairs()),
            Value::Accounts(t) => ValueView::Accounts(t.pairs()),
            Value::Instructions(v) => ValueView::Instructions(enc_list(v@)),
        }
    }
}

impl View for Instruction {
    type V = Seq<u8>;

    open spec fn view(&self) -> Seq<u8> {
        enc_instruction(*self)
    }
}

fn push_u64(out: &mut Vec<u8>, n: u64)
    ensures
        final(out)@ == old(out)@ + u64_le(n),
{
    out.push((n % 256) as u8);
    out.push((n / 256 % 256) as u8);
    out.push((n / 65536 % 256) as u8);
    out.push((n / 16777216 % 256) as u8);
    out.push((n / 4294967296 % 256) as u8);
    out.push((n / 1099511627776 % 256) as u8);
    out.push((n / 281474976710656 % 256) as u8);
    out.push((n / 72057594037927936 % 256) as u8);
    assert(final(out)@ =~= old(out)@ + u64_le(n));
}

fn push_str(out: &mut Vec<u8>, s: &str)
    ensures
        final(out)@ == old(out)@ + enc_str(s@),
{
    let n: usize = s.unicode_len();
    push_u64(out, n as u64);
    let ghost start = out@;
    let mut i: usize = 0;
    while i < n
        invariant
            n == s@.len(),
            i <= n,
            out@ == start + enc_chars(s@.subrange(0, i as int)),
        decreases n - i,
    {
        let c: u32 = s.get_char(i) as u32;
        assert(s@.subrange(0, i as int + 1).drop_last() =~= s@.subrange(0, i as int));
        out.push((c % 256) as u8);
        out.push((c / 256 % 256) as u8);
        out.push((c / 65536 % 256) as u8);
        out.push((c / 16777216 % 256) as u8);
        i = i + 1;
        assert(out@ =~= start + enc_chars(s@.subrange(0, i as int)));
    }
    assert(s@.subrange(0, n as int) =~= s@);
    assert(out@ =~= old(out)@ + enc_str(s@));
}

fn push_account(out: &mut Vec<u8>, a: &AccountId)
    ensures
        final(out)@ == old(out)@ + enc_account(*a),
{
    push_str(out, a.domain.as_str());
    push_str(out, a.signatory.as_str());
    assert(out@ =~= old(out)@ + enc_account(*a));
}

fn push_weights(out: &mut Vec<u8>, t: &Table<AccountId, u8>)
    ensures
        final(out)@ == old(out)@ + enc_weights(*t),
{
    push_u64(out, t.entries.len() as u64);
    assert(t.pairs().len() == t.entries@.len());
    let ghost start = out@;
    let mut i: usize = 0;
    while i < t.entries.len()
        invariant
            i <= t.entries@.len(),
            out@ == start + enc_weight_entries(t.pairs().subrange(0, i as int)),
        decreases t.entries@.len() - i,
    {
        assert(t.pairs().subrange(0, i as int + 1).drop_last() =~= t.pairs().subrange(0, i as int));
        push_account(out, &t.entries[i].0);
        out.push(t.entries[i].1);
        i = i + 1;
        assert(out@ =~= start + enc_weight_entries(t.pairs().subrange(0, i as int)));
    }
    assert(t.pairs().subrange(0, i as int) =~= t.pairs());
    assert(out@ =~= old(out)@ + enc_weights(*t));
}

fn push_members(out: &mut Vec<u8>, t: &Table<AccountId, ()>)
    ensures
        final(out)@ == old(out)@ + enc_members(*t),
{
    push_u64(out, t.entries.len() as u64);
    assert(t.pairs().len() == t.entries@.len());
    let ghost start = out@;
    let mut i: usize = 0;
    while i < t.entries.len()
        invariant
            i <= t.entries@.len(),
            out@ == start + enc_member_entries(t.pairs().subrange(0, i as int)),
        decreases t.entries@.len() - i,
    {
        assert(t.pairs().subrange(0, i as int + 1).drop_last() =~= t.pairs().subrange(0, i as int));
        push_account(out, &t.entries[i].0);
        i = i + 1;
        assert(out@ =~= start + enc_member_entries(t.pairs().subrange(0, i as int)));
    }
    assert(t.pairs().subrange(0, i as int) =~= t.pairs());
    assert(out@ =~= old(out)@ + enc_members(*t));
}

fn push_list(out: &mut Vec<u8>, v: &Vec<Instruction>)
    ensures
        final(out)@ == old(out)@ + enc_list(v@),
    decreases v@, 1nat,
{
    push_u64(out, v.len() as u64);
    let ghost start = out@;
    let mut i: usize = 0;
    while i < v.len()
        invariant
            i <= v@.len(),
            out@ == start + enc_items(v@.subrange(0, i as int)),
        decreases v@.len() - i,
    {
        assert(v@.subrange(0, i as int + 1).drop_last() =~= v@.subrange(0, i as int));
        assert(decreases_to!(v@ => v@[i as int]));
        push_instruction(out, &v[i]);
        i = i + 1;
        assert(out@ =~= start + enc_items(v@.subrange(0, i as int)));
    }
    assert(v@.subrange(0, i as int) =~= v@);
    assert(out@ =~= old(out)@ + enc_list(v@));
}

fn push_value(out: &mut Vec<u8>, v: &Value)
    ensures
        final(out)@ == old(out)@ + enc_value(*v),
    decreases *v, 0nat,
{
    match v {
        Value::Text(s) => {
            out.push(0u8);
            push_str(out, s.as_str());
        },
        Value::Number(n) => {
            out.push(1u8);
            push_u64(out, *n);
        },
        Value::Weights(t) => {
            out.push(2u8);
            push_weights(out, t);
        },
        Value::Accounts(t) => {
            out.push(3u8);
            push_members(out, t);
        },
        Value::Instructions(l) => {
            out.push(4u8);
            assert(decreases_to!(*v => l@));
            push_list(out, l);
        },
    }
    assert(out@ =~= old(out)@ + enc_value(*v));
}

fn push_instruction(out: &mut Vec<u8>, i: &Instruction)
    ensures
        final(out)@ == old(out)@ + enc_instruction(*i),
    decreases *i, 0nat,
{
    match i {
        Instruction::RegisterAccount { account } => {
            out.push(0u8);
            push_account(out, account);
        },
        Instruction::SetKeyValue { account, key, value } => {
            out.push(1u8);
            push_account(out, account);
            push_str(out, key.as_str());
            push_value(out, value);
        },
        Instruction::RemoveKeyValue { account, key } => {
            out.push(2u8);
            push_account(out, account);
            push_str(out, key.as_str());
        },
        Instruction::RegisterRole { role, owner } => {
            out.push(3u8);
            push_str(out, role.as_str());
            push_account(out, owner);
        },
        Instruction::GrantRole { role, account } => {
            out.push(4u8);
            push_str(out, role.as_str());
            push_account(out, account);
        },
        Instruction::RevokeRole { role, account } => {
            out.push(5u8);
            push_str(out, role.as_str());
            push_account(out, account);
        },
        Instruction::GrantCanRegisterAccount { domain, account } => {
            out.push(6u8);
            push_str(out, domain.as_str());
            push_account(out, account);
        },
        Instruction::Register(r) => {
            out.push(7u8);
            push_account(out, &r.account);
            push_weights(out, &r.signatories);
            push_u64(out, r.quorum as u64);
            push_u64(out, r.transaction_ttl_ms);
        },
        Instruction::Propose(p) => {
            out.push(8u8);
            push_account(out, &p.account);
            assert(decreases_to!(*i => p.instructions@));
            push_list(out, &p.instructions);
        },
        Instruction::Approve(a) => {
            out.push(9u8);
            push_account(out, &a.account);
            push_u64(out, a.instructions_hash.len() as u64);
            let mut k: usize = 0;
            let ghost start = out@;
            while k < a.instructions_hash.len()
                invariant
                    k <= a.instructions_hash@.len(),
                    out@ == start + a.instructions_hash@.subrange(0, k as int),
                decreases a.instructions_hash@.len() - k,
            {
                out.push(a.instructions_hash[k]);
                k = k + 1;
                assert(out@ =~= start + a.instructions_hash@.subrange(0, k as int));
            }
            assert(a.instructions_hash@.subrange(0, k as int) =~= a.instructions_hash@);
        },
    }
    assert(out@ =~= old(out)@ + enc_instruction(*i));
}

/// A copy of an instruction list with the same encoding.
pub fn copy_list(v: &Vec<Instruction>) -> (r: Vec<Instruction>)
    ensures
        enc_list(r@) == enc_list(v@),
    decreases v@, 1nat,
{
    let mut r: Vec<Instruction> = Vec::new();
    let mut i: usize = 0;
    while i < v.len()
        invariant
            i <= v@.len(),
            r@.len() == i,
            enc_items(r@) == enc_items(v@.subrange(0, i as int)),
        decreases v@.len() - i,
    {
        assert(v@.subrange(0, i as int + 1).drop_last() =~= v@.subrange(0, i as int));
        assert(decreases_to!(v@ => v@[i as int]));
        let c = copy_instruction(&v[i]);
        let ghost before = r@;
        r.push(c);
        assert(r@.drop_last() =~= before);
        i = i + 1;
    }
    assert(v@.subrange(0, i as int) =~= v@);
    r
}

fn copy_value(v: &Value) -> (r: Value)
    ensures
        r@ == v@,
        enc_value(r) == enc_value(*v),
    decreases *v, 0nat,
{
    match v {
        Value::Text(s) => Value::Text(s.clone()),
        Value::Number(n) => Value::Number(*n),
        Value::Weights(t) => Value::Weights(t.copy()),
        Value::Accounts(t) => Value::Accounts(t.copy()),
        Value::Instructions(l) => {
            assert(decreases_to!(*v => l@));
            Value::Instructions(copy_list(l))
        },
    }
}

fn copy_hash(h: &Vec<u8>) -> (r: Vec<u8>)
    ensures
        r@ == h@,
{
    let mut r: Vec<u8> = Vec::new();
    let mut k: usize = 0;
    while k < h.len()
        invariant
            k <= h@.len(),
            r@ == h@.subrange(0, k as int),
        decreases h@.len() - k,
    {
        r.push(h[k]);
        k = k + 1;
        assert(r@ =~= h@.subrange(0, k as int));
    }
    assert(h@.subrange(0, k as int) =~= h@);
    r
}

fn copy_instruction(i: &Instruction) -> (r: Instruction)
    ensures
        enc_instruction(r) == enc_instruction(*i),
    decreases *i, 0nat,
{
    match i {
        Instruction::RegisterAccount { account } => Instruction::RegisterAccount {
            account: account.clone(),
        },
        Instruction::SetKeyValue { account, key, value } => Instruction::SetKeyValue {
            account: account.clone(),
            key: key.clone(),
            value: copy_value(value),
        },
        Instruction::RemoveKeyValue { account, key } => Instruction::RemoveKeyValue {
            account: account.clone(),
            key: key.clone(),
        },
        Instruction::RegisterRole { role, owner } => Instruction::RegisterRole {
            role: role.clone(),
            owner: owner.clone(),
        },
        Instruction::GrantRole { role, account } => Instruction::GrantRole {
            role: role.clone(),
            account: account.clone(),
        },
        Instruction::RevokeRole { role, account } => Instruction::RevokeRole {
            role: role.clone(),
            account: account.clone(),
        },
        Instruction::GrantCanRegisterAccount { domain, account } => {
            Instruction::GrantCanRegisterAccount { domain: domain.clone(), account: account.clone() }
        },
        Instruction::Register(r) => Instruction::Register(
            MultisigRegister {
                account: r.account.clone(),
                signatories: r.signatories.copy(),
                quorum: r.quorum,
                transaction_ttl_ms: r.transaction_ttl_ms,
            },
        ),
        Instruction::Propose(p) => {
            assert(decreases_to!(*i => p.instructions@));
            Instruction::Propose(
                MultisigPropose { account: p.account.clone(), instructions: copy_list(&p.instructions) },
            )
        },
        Instruction::Approve(a) => Instruction::Approve(
            MultisigApprove { account: a.account.clone(), instructions_hash: copy_hash(&a.instructions_hash) },
        ),
    }
}

impl Duplicate for Value {
    fn duplicate(&self) -> (r: Value) {
        copy_value(self)
    }
}

/// The canonical encoding of an instruction list.
pub fn encode_instructions(v: &Vec<Instruction>) -> (r: Vec<u8>)
    ensures
        r@ == enc_list(v@),
{
    let mut out: Vec<u8> = Vec::new();
    push_list(&mut out, v);
    assert(out@ =~= enc_list(v@));
    out
}

} // verus!
