use multisig::hash::instructions_hash;
use multisig::instruction::{encode_instructions, Instruction, MultisigApprove, MultisigPropose, MultisigRegister, Value};
use multisig::keys::{
    approvals_key, instructions_key, multisig_role_for, parse_reserved_role, proposed_at_ms_key, to_hex,
};
use multisig::names::AccountId;
use multisig::table::Table;
use multisig::world::{ExecError, World};

fn id(signatory: &str, domain: &str) -> AccountId {
    AccountId::new(signatory, domain)
}

fn owner() -> AccountId {
    id("owner", "land")
}

fn register(account: &AccountId, sigs: &[(AccountId, u8)], quorum: u16, ttl_ms: u64) -> Instruction {
    let mut signatories = Table::new();
    for (s, weight) in sigs {
        signatories.set(s.clone(), *weight);
    }
    Instruction::Register(MultisigRegister { account: account.clone(), signatories, quorum, transaction_ttl_ms: ttl_ms })
}

fn propose(account: &AccountId, instructions: Vec<Instruction>) -> Instruction {
    Instruction::Propose(MultisigPropose { account: account.clone(), instructions })
}

fn approve(account: &AccountId, hash: &Vec<u8>) -> Instruction {
    Instruction::Approve(MultisigApprove { account: account.clone(), instructions_hash: hash.clone() })
}

fn marker(target: &AccountId) -> Vec<Instruction> {
    vec![Instruction::SetKeyValue { account: target.clone(), key: "marker".to_string(), value: Value::Text("ok".to_string()) }]
}

/// Domain `land` owned by `owner`, with signatories s1..s3 of weights 1..3,
/// multisig account `m` with the given quorum and time-to-live.
fn setup(quorum: u16, ttl_ms: u64) -> (World, AccountId, Vec<AccountId>) {
    let mut w = World::new(100);
    w.add_domain("land".to_string(), owner());
    w.add_account(owner());
    let sigs: Vec<AccountId> = (1..=3).map(|i| id(&format!("s{i}"), "land")).collect();
    for s in &sigs {
        w.submit(&owner(), &Instruction::RegisterAccount { account: s.clone() }).unwrap();
    }
    let m = id("m", "land");
    let weighted: Vec<(AccountId, u8)> = sigs.iter().enumerate().map(|(i, s)| (s.clone(), 1 + i as u8)).collect();
    w.submit(&owner(), &register(&m, &weighted, quorum, ttl_ms)).unwrap();
    (w, m, sigs)
}

fn meta_text(w: &World, a: &AccountId, key: &str) -> Option<String> {
    match w.get_meta(a, &key.to_string()) {
        Some(Value::Text(s)) => Some(s.clone()),
        _ => None,
    }
}

#[test]
fn role_name_layout() {
    assert_eq!(multisig_role_for(&id("x", "g")), "MULTISIG_SIGNATORY/g/x");
}

#[test]
fn reserved_role_parsing() {
    assert_eq!(parse_reserved_role("MULTISIG_SIGNATORY/g/x"), Some(Some("g".to_string())));
    assert_eq!(parse_reserved_role("MULTISIG_SIGNATORY/g"), Some(None));
    assert_eq!(parse_reserved_role("MULTISIG_SIGNATORY"), None);
    assert_eq!(parse_reserved_role("auditor"), None);
}

#[test]
fn hex_rendering() {
    assert_eq!(to_hex(&vec![0x00, 0x0f, 0xa0, 0xff]), "000fa0ff");
    assert_eq!(to_hex(&vec![]), "");
}

#[test]
fn proposal_key_layout() {
    let h = vec![0xab, 0x01];
    assert_eq!(instructions_key(&h), "proposals/ab01/instructions");
    assert_eq!(proposed_at_ms_key(&h), "proposals/ab01/proposed_at_ms");
    assert_eq!(approvals_key(&h), "proposals/ab01/approvals");
}

#[test]
fn empty_list_digest() {
    assert_eq!(encode_instructions(&vec![]), vec![0u8; 8]);
    let h = instructions_hash(&vec![]);
    assert_eq!(to_hex(&h), "81e47a19e6b29b0a65b9591762ce5143ed30d0261e5d24a3201752506b20f15c");
}

#[test]
fn equal_lists_share_digest() {
    let a = marker(&id("m", "land"));
    let b = marker(&id("m", "land"));
    let c = marker(&id("n", "land"));
    assert_eq!(instructions_hash(&a), instructions_hash(&b));
    assert_ne!(instructions_hash(&a), instructions_hash(&c));
    assert_eq!(instructions_hash(&a).len(), 32);
}

#[test]
fn register_grants_role_to_signatories_only() {
    let (w, m, sigs) = setup(3, u64::MAX);
    let role = multisig_role_for(&m);
    for s in &sigs {
        assert!(w.holds_role_exec(s, &role));
    }
    assert!(!w.holds_role_exec(&owner(), &role));
    match w.get_meta(&m, &"quorum".to_string()) {
        Some(Value::Number(q)) => assert_eq!(*q, 3),
        _ => panic!("quorum should be recorded"),
    }
    match w.get_meta(&m, &"transaction_ttl_ms".to_string()) {
        Some(Value::Number(t)) => assert_eq!(*t, u64::MAX),
        _ => panic!("time-to-live should be recorded"),
    }
}

#[test]
fn register_rejects_zero_quorum() {
    let mut w = World::new(0);
    w.add_domain("land".to_string(), owner());
    w.add_account(owner());
    let m = id("m", "land");
    assert_eq!(w.submit(&owner(), &register(&m, &[(owner(), 1)], 0, 10)), Err(ExecError::InvalidArgument));
    assert!(!w.account_exists_exec(&m));
}

#[test]
fn register_twice_is_duplicate() {
    let (mut w, m, sigs) = setup(3, u64::MAX);
    let again = register(&m, &[(sigs[0].clone(), 1)], 1, 10);
    assert_eq!(w.submit(&owner(), &again), Err(ExecError::Duplicate));
}

#[test]
fn register_with_missing_signatory_fails_whole() {
    let mut w = World::new(0);
    w.add_domain("land".to_string(), owner());
    w.add_account(owner());
    let m = id("m", "land");
    let ghost = id("ghost", "land");
    assert_eq!(w.submit(&owner(), &register(&m, &[(ghost, 1)], 1, 10)), Err(ExecError::NotFound));
    assert!(!w.account_exists_exec(&m));
}

#[test]
fn duplicate_propose() {
    let (mut w, m, sigs) = setup(6, u64::MAX);
    w.submit(&sigs[0], &propose(&m, marker(&m))).unwrap();
    assert_eq!(w.submit(&sigs[1], &propose(&m, marker(&m))), Err(ExecError::Duplicate));
}

#[test]
fn outsider_cannot_propose_or_approve() {
    let (mut w, m, sigs) = setup(6, u64::MAX);
    assert_eq!(w.submit(&owner(), &propose(&m, marker(&m))), Err(ExecError::PermissionDenied));
    w.submit(&sigs[0], &propose(&m, marker(&m))).unwrap();
    let h = instructions_hash(&marker(&m));
    assert_eq!(w.submit(&owner(), &approve(&m, &h)), Err(ExecError::PermissionDenied));
}

#[test]
fn approving_unknown_proposal_is_not_found() {
    let (mut w, m, sigs) = setup(6, u64::MAX);
    assert_eq!(w.submit(&sigs[0], &approve(&m, &vec![1, 2, 3])), Err(ExecError::NotFound));
}

#[test]
fn quorum_reached_executes_and_cleans_up() {
    let (mut w, m, sigs) = setup(5, u64::MAX);
    let h = instructions_hash(&marker(&m));
    w.submit(&sigs[2], &propose(&m, marker(&m))).unwrap();
    assert_eq!(meta_text(&w, &m, "marker"), None);
    // 3 + 1 falls short of 5
    w.submit(&sigs[0], &approve(&m, &h)).unwrap();
    assert!(w.get_meta(&m, &approvals_key(&h)).is_some());
    // 3 + 1 + 2 reaches 5
    w.submit(&sigs[1], &approve(&m, &h)).unwrap();
    assert_eq!(meta_text(&w, &m, "marker"), Some("ok".to_string()));
    assert!(w.get_meta(&m, &approvals_key(&h)).is_none());
    assert!(w.get_meta(&m, &proposed_at_ms_key(&h)).is_none());
    assert!(w.get_meta(&m, &instructions_key(&h)).is_none());
}

#[test]
fn approval_is_recorded_while_pending() {
    let (mut w, m, sigs) = setup(6, u64::MAX);
    let h = instructions_hash(&marker(&m));
    w.submit(&sigs[2], &propose(&m, marker(&m))).unwrap();
    w.submit(&sigs[0], &approve(&m, &h)).unwrap();
    match w.get_meta(&m, &approvals_key(&h)) {
        Some(Value::Accounts(t)) => {
            // kept in key order, whoever approved first
            assert_eq!(t.entries.len(), 2);
            assert!(t.entries[0].0 == sigs[0]);
            assert!(t.entries[1].0 == sigs[2]);
        },
        _ => panic!("approvals should be recorded"),
    }
    match w.get_meta(&m, &proposed_at_ms_key(&h)) {
        Some(Value::Number(t)) => assert_eq!(*t, 100),
        _ => panic!("creation time should be recorded"),
    }
}

#[test]
fn expired_proposal_is_deleted_not_run() {
    let (mut w, m, sigs) = setup(6, 1000);
    let h = instructions_hash(&marker(&m));
    w.submit(&sigs[0], &propose(&m, marker(&m))).unwrap();
    // Exactly at the deadline the proposal is still alive
    w.set_block_time(100 + 1000);
    w.submit(&sigs[1], &approve(&m, &h)).unwrap();
    assert!(w.get_meta(&m, &approvals_key(&h)).is_some());
    w.set_block_time(100 + 1000 + 1);
    // Reaches quorum, but expiry wins
    w.submit(&sigs[2], &approve(&m, &h)).unwrap();
    assert_eq!(meta_text(&w, &m, "marker"), None);
    assert!(w.get_meta(&m, &instructions_key(&h)).is_none());
    assert_eq!(w.submit(&sigs[1], &approve(&m, &h)), Err(ExecError::NotFound));
}

#[test]
fn failed_execution_rolls_back_approval() {
    let (mut w, m, sigs) = setup(3, u64::MAX);
    let outsider = id("outsider", "elsewhere");
    let h = instructions_hash(&marker(&outsider));
    w.submit(&sigs[0], &propose(&m, marker(&outsider))).unwrap();
    assert_eq!(w.submit(&sigs[1], &approve(&m, &h)), Err(ExecError::NotFound));
    match w.get_meta(&m, &approvals_key(&h)) {
        Some(Value::Accounts(t)) => assert_eq!(t.entries.len(), 1),
        _ => panic!("the proposal should still be open"),
    }
}

#[test]
fn corrupted_quorum_is_invalid_metadata() {
    let (mut w, m, sigs) = setup(3, u64::MAX);
    let h = instructions_hash(&marker(&m));
    w.submit(&sigs[0], &propose(&m, marker(&m))).unwrap();
    let overwrite = Instruction::SetKeyValue { account: m.clone(), key: "quorum".to_string(), value: Value::Text("many".to_string()) };
    w.submit(&owner(), &overwrite).unwrap();
    assert_eq!(w.submit(&sigs[1], &approve(&m, &h)), Err(ExecError::InvalidMetadata));
}

#[test]
fn self_listing_account_hits_depth_bound() {
    let mut w = World::new(0);
    w.add_domain("land".to_string(), owner());
    w.add_account(owner());
    let m = id("loop", "land");
    w.submit(&owner(), &register(&m, &[(m.clone(), 1)], 1, u64::MAX)).unwrap();
    assert_eq!(w.submit(&m, &propose(&m, marker(&m))), Err(ExecError::DepthExceeded));
}

#[test]
fn domain_owner_may_register_reserved_role() {
    let mut w = World::new(0);
    w.add_domain("g".to_string(), owner());
    w.add_account(owner());
    let role = "MULTISIG_SIGNATORY/g/x".to_string();
    let other = id("other", "g");
    w.add_account(other.clone());
    let reg = Instruction::RegisterRole { role: role.clone(), owner: owner() };
    assert_eq!(w.submit(&other, &reg), Err(ExecError::PermissionDenied));
    assert_eq!(w.submit(&owner(), &reg), Ok(()));
    assert_eq!(w.submit(&owner(), &Instruction::RegisterRole { role: "MULTISIG_SIGNATORY/nodomain".to_string(), owner: owner() }), Err(ExecError::PermissionDenied));
}

#[test]
fn weights_saturate() {
    let mut sigs = Table::new();
    let mut approvals = Table::new();
    for i in 0..300 {
        let s = id(&format!("s{i}"), "land");
        sigs.set(s.clone(), 255u8);
        approvals.set(s, ());
    }
    assert_eq!(multisig::config::approved_weight(&sigs, &approvals), u16::MAX);
    let mut few = Table::new();
    few.set(id("s0", "land"), ());
    few.set(id("stranger", "land"), ());
    assert_eq!(multisig::config::approved_weight(&sigs, &few), 255);
}

#[test]
fn register_digest_ignores_insertion_order() {
    let m = id("m", "land");
    let a = register(&m, &[(id("b", "land"), 1), (id("a", "land"), 2)], 2, 10);
    let b = register(&m, &[(id("a", "land"), 2), (id("b", "land"), 1)], 2, 10);
    assert_eq!(instructions_hash(&vec![a]), instructions_hash(&vec![b]));
}

#[test]
fn tables_iterate_in_key_order() {
    let mut t = Table::new();
    t.set(id("c", "land"), 3u8);
    t.set(id("a", "land"), 1u8);
    t.set(id("b", "land"), 2u8);
    t.set(id("z", "attic"), 4u8);
    let order: Vec<String> = t.entries.iter().map(|e| e.0.signatory.clone()).collect();
    assert_eq!(order, vec!["z", "a", "b", "c"]);
    assert!(t.check_wf());
}

#[test]
fn register_rejects_unsorted_signatories() {
    let mut w = World::new(0);
    w.add_domain("land".to_string(), owner());
    w.add_account(owner());
    let s1 = id("s1", "land");
    let s2 = id("s2", "land");
    w.add_account(s1.clone());
    w.add_account(s2.clone());
    let m = id("m", "land");
    let signatories = Table { entries: vec![(s2, 1u8), (s1, 1u8)] };
    let reg = Instruction::Register(MultisigRegister { account: m.clone(), signatories, quorum: 1, transaction_ttl_ms: 10 });
    assert_eq!(w.submit(&owner(), &reg), Err(ExecError::InvalidArgument));
}

#[test]
fn propose_to_plain_account_is_not_found() {
    let (mut w, m, sigs) = setup(3, u64::MAX);
    // m lists s1, so m may propose downward to s1, which keeps no signatories
    let request = propose(&sigs[0], marker(&m));
    assert_eq!(w.submit(&m, &request), Err(ExecError::NotFound));
}

#[test]
fn nested_duplicate_fails_whole_proposal() {
    let mut w = World::new(0);
    w.add_domain("land".to_string(), owner());
    w.add_account(owner());
    let s1 = id("s1", "land");
    let s2 = id("s2", "land");
    for s in [&s1, &s2] {
        w.submit(&owner(), &Instruction::RegisterAccount { account: s.clone() }).unwrap();
    }
    let child = id("child", "land");
    w.submit(&owner(), &register(&child, &[(s1.clone(), 1)], 1, u64::MAX)).unwrap();
    let parent = id("parent", "land");
    w.submit(&owner(), &register(&parent, &[(child.clone(), 1), (s2.clone(), 1)], 2, u64::MAX)).unwrap();
    let h = instructions_hash(&marker(&parent));
    // The request that the parent's proposal would deploy to the child is already open there
    w.submit(&s1, &propose(&child, vec![approve(&parent, &h)])).unwrap();
    assert_eq!(w.submit(&s2, &propose(&parent, marker(&parent))), Err(ExecError::Duplicate));
    assert!(w.get_meta(&parent, &approvals_key(&h)).is_none());
    assert!(w.get_meta(&parent, &instructions_key(&h)).is_none());
}

#[test]
fn deployment_reaches_multisig_signatory() {
    let mut w = World::new(0);
    w.add_domain("land".to_string(), owner());
    w.add_account(owner());
    let s1 = id("s1", "land");
    w.submit(&owner(), &Instruction::RegisterAccount { account: s1.clone() }).unwrap();
    let child = id("child", "land");
    w.submit(&owner(), &register(&child, &[(s1.clone(), 1)], 1, u64::MAX)).unwrap();
    let parent = id("parent", "land");
    w.submit(&owner(), &register(&parent, &[(child.clone(), 1)], 1, u64::MAX)).unwrap();
    let h = instructions_hash(&marker(&parent));
    let h_child = instructions_hash(&vec![approve(&parent, &h)]);
    w.submit(&child, &propose(&parent, marker(&parent))).unwrap();
    match w.get_meta(&child, &approvals_key(&h_child)) {
        Some(Value::Accounts(t)) => {
            assert_eq!(t.entries.len(), 1);
            assert!(t.entries[0].0 == parent);
        },
        _ => panic!("the child should hold the request"),
    }
    // The child's signatory approves; the child approves the parent, which runs
    w.submit(&s1, &approve(&child, &h_child)).unwrap();
    assert_eq!(meta_text(&w, &parent, "marker"), Some("ok".to_string()));
}
