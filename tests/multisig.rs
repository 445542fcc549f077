use multisig::executor::MAX_DEPTH;
use multisig::hash::instructions_hash;
use multisig::instruction::{Instruction, MultisigApprove, MultisigPropose, MultisigRegister, Value};
use multisig::keys::{approvals_key, instructions_key};
use multisig::names::AccountId;
use multisig::table::Table;
use multisig::world::{ExecError, World};

const N_SIGNATORIES: usize = 5;

fn id(signatory: &str, domain: &str) -> AccountId {
    AccountId::new(signatory, domain)
}

fn alice() -> AccountId {
    id("alice", "wonderland")
}

fn bob() -> AccountId {
    id("bob", "wonderland")
}

fn carpenter() -> AccountId {
    id("carpenter", "garden_of_live_flowers")
}

/// A ledger as a genesis block leaves it: alice owns wonderland, the
/// carpenter owns the garden.
fn genesis(now_ms: u64) -> World {
    let mut w = World::new(now_ms);
    w.add_domain("wonderland".to_string(), alice());
    w.add_domain("garden_of_live_flowers".to_string(), carpenter());
    w.add_account(alice());
    w.add_account(bob());
    w.add_account(carpenter());
    w
}

fn text(s: &str) -> Value {
    Value::Text(s.to_string())
}

fn has_meta(w: &World, a: &AccountId, key: &str) -> bool {
    w.get_meta(a, &key.to_string()).is_some()
}

fn register(account: &AccountId, sigs: &[(AccountId, u8)], quorum: u16, ttl_ms: u64) -> Instruction {
    let mut signatories = Table::new();
    for (s, weight) in sigs {
        signatories.set(s.clone(), *weight);
    }
    Instruction::Register(MultisigRegister {
        account: account.clone(),
        signatories,
        quorum,
        transaction_ttl_ms: ttl_ms,
    })
}

fn approve(account: &AccountId, hash: &Vec<u8>) -> Instruction {
    Instruction::Approve(MultisigApprove { account: account.clone(), instructions_hash: hash.clone() })
}

fn propose(account: &AccountId, instructions: Vec<Instruction>) -> Instruction {
    Instruction::Propose(MultisigPropose { account: account.clone(), instructions })
}

fn multisig_base(unauthorized_target_opt: Option<AccountId>, transaction_ttl_ms_opt: Option<u64>) {
    let domain = "kingdom";
    let mut w = genesis(1_000_000);
    // Assume some domain registered after genesis, owned by bob
    w.add_domain(domain.to_string(), bob());
    let multisig_account_id = id("multisig", domain);

    // Populate residents in the domain
    let residents: Vec<AccountId> = (0..1 + N_SIGNATORIES).map(|i| id(&format!("resident{i}"), domain)).collect();
    for r in &residents {
        w.submit(&bob(), &Instruction::RegisterAccount { account: r.clone() }).unwrap();
    }
    let non_signatory = residents[0].clone();
    let mut signatories: Vec<AccountId> = residents[1..].to_vec();

    // Weights 1..=5; quorum can be reached without the first signatory
    let weighted: Vec<(AccountId, u8)> =
        signatories.iter().enumerate().map(|(weight, s)| (s.clone(), 1 + weight as u8)).collect();
    let quorum: u16 = (1..=N_SIGNATORIES).skip(1).sum::<usize>() as u16;
    let ttl_ms = transaction_ttl_ms_opt.unwrap_or(u64::MAX);
    let register_multisig_account = register(&multisig_account_id, &weighted, quorum, ttl_ms);

    // Any account in another domain cannot register a multisig account without special permission
    assert!(w.submit(&carpenter(), &register_multisig_account).is_err());
    // Non-signatory account in the same domain cannot register a multisig account without special permission
    assert!(w.submit(&non_signatory, &register_multisig_account).is_err());
    // All but the first signatory approve the proposal
    let signatory = signatories.remove(0);
    // Signatory account cannot register a multisig account without special permission
    assert!(w.submit(&signatory, &register_multisig_account).is_err());
    // Account with permission can register a multisig account
    w.submit(
        &bob(),
        &Instruction::GrantCanRegisterAccount { domain: domain.to_string(), account: non_signatory.clone() },
    )
    .unwrap();
    w.submit(&non_signatory, &register_multisig_account)
        .expect("multisig account should be registered by account with permission");
    assert!(w.account_exists_exec(&multisig_account_id));

    let key = "success_marker";
    let transaction_target = unauthorized_target_opt.clone().unwrap_or(multisig_account_id.clone());
    let instructions = vec![Instruction::SetKeyValue {
        account: transaction_target.clone(),
        key: key.to_string(),
        value: text("congratulations"),
    }];
    let instructions_hash = instructions_hash(&instructions);

    let proposer = signatories.pop().unwrap();
    let mut approvers = signatories.into_iter();
    w.submit(&proposer, &propose(&multisig_account_id, instructions)).unwrap();

    // Allow time to elapse to test the expiration
    if let Some(ms) = transaction_ttl_ms_opt {
        w.set_block_time(w.now_ms + ms + 1);
    }

    let approve = approve(&multisig_account_id, &instructions_hash);
    // Approve once to see if the proposal expires
    let approver = approvers.next().unwrap();
    w.submit(&approver, &approve).unwrap();

    // Subsequent approvals should succeed unless the proposal is expired
    for _ in 0..(N_SIGNATORIES - 4) {
        let approver = approvers.next().unwrap();
        let res = w.submit(&approver, &approve);
        match &transaction_ttl_ms_opt {
            None => assert!(res.is_ok()),
            _ => assert!(res.is_err()),
        }
    }

    // Check that the multisig transaction has not yet executed
    assert!(!has_meta(&w, &transaction_target, key), "instructions shouldn't execute without enough approvals");

    // The last approve to proceed to validate and execute the instructions
    let approver = approvers.next().unwrap();
    let res = w.submit(&approver, &approve);
    match (&transaction_ttl_ms_opt, &unauthorized_target_opt) {
        (None, None) => assert!(res.is_ok()),
        _ => assert!(res.is_err()),
    }

    // Check if the multisig transaction has executed
    let res = has_meta(&w, &transaction_target, key);
    match (&transaction_ttl_ms_opt, &unauthorized_target_opt) {
        (None, None) => assert!(res),
        _ => assert!(!res),
    }

    // Check if the transaction entry is deleted
    let res = w.get_meta(&multisig_account_id, &instructions_key(&instructions_hash)).is_some();
    match (&transaction_ttl_ms_opt, &unauthorized_target_opt) {
        // In case failing validation, the entry can exit only by expiring
        (None, Some(_)) => assert!(res),
        _ => assert!(!res),
    }
}

#[test]
fn multisig_normal() {
    multisig_base(None, None);
}

#[test]
fn multisig_unauthorized() {
    // Someone that the multisig account has no permission to access
    multisig_base(Some(alice()), None);
}

#[test]
fn multisig_expires() {
    // Expires after 1 sec
    multisig_base(None, Some(1_000));
}

#[test]
fn multisig_recursion() {
    //         012345 <--- root multisig account
    //        /      \
    //       /        12345
    //      /        /     \
    //     /       12       345
    //    /       /  \     / | \
    //   0       1    2   3  4  5 <--- personal signatories
    let wonderland = "wonderland";
    let mut w = genesis(1_000_000);

    // Populate signatories in the domain
    let signatories: Vec<AccountId> = (0..6).map(|i| id(&format!("signatory{i}"), wonderland)).collect();
    for s in &signatories {
        w.submit(&alice(), &Instruction::RegisterAccount { account: s.clone() }).unwrap();
    }
    let sigs_0 = vec![signatories[0].clone()];
    let sigs_12 = signatories[1..3].to_vec();
    let sigs_345 = signatories[3..6].to_vec();

    let mut register_ms_account = |name: &str, sigs: &[AccountId]| {
        let ms_account_id = id(name, wonderland);
        let weighted: Vec<(AccountId, u8)> = sigs.iter().map(|s| (s.clone(), 1)).collect();
        w.submit(&alice(), &register(&ms_account_id, &weighted, sigs.len() as u16, u64::MAX))
            .expect("multisig account should be registered by account of the same domain");
        ms_account_id
    };
    let msa_12 = register_ms_account("msa12", &sigs_12);
    let msa_345 = register_ms_account("msa345", &sigs_345);
    let msa_12345 = register_ms_account("msa12345", &[msa_12.clone(), msa_345.clone()]);
    let sig_0 = sigs_0[0].clone();
    // The root multisig account with 6 personal signatories under its umbrella
    let msa_012345 = register_ms_account("msa012345", &[sig_0.clone(), msa_12345.clone()]);

    // One of personal signatories proposes a multisig transaction
    let key = "success_marker";
    let instructions = vec![Instruction::SetKeyValue {
        account: msa_012345.clone(),
        key: key.to_string(),
        value: text("congratulations"),
    }];
    let instructions_hash = instructions_hash(&instructions);
    w.submit(&sig_0, &propose(&msa_012345, instructions)).unwrap();

    // Check that the entire authentication policy has been deployed down to one of the leaf signatories
    let approval_hash_to_12345 = {
        let approval_hash_to_012345 = multisig::hash::instructions_hash(&vec![approve(&msa_012345, &instructions_hash)]);
        multisig::hash::instructions_hash(&vec![approve(&msa_12345, &approval_hash_to_012345)])
    };
    let approvals_at_12 = match w.get_meta(&msa_12, &approvals_key(&approval_hash_to_12345)) {
        Some(Value::Accounts(t)) => t,
        _ => panic!("leaf approvals should be initialized by the root proposal"),
    };
    assert!(1 == approvals_at_12.entries.len() && approvals_at_12.entries[0].0 == msa_12345);

    // Check that the multisig transaction has not yet executed
    assert!(!has_meta(&w, &msa_012345, key), "instructions shouldn't execute without enough approvals");

    // All the rest signatories approve the multisig transaction
    for approver in &sigs_12 {
        w.submit(approver, &approve(&msa_12, &approval_hash_to_12345)).expect("should successfully approve the proposal");
    }
    for approver in &sigs_345 {
        w.submit(approver, &approve(&msa_345, &approval_hash_to_12345)).expect("should successfully approve the proposal");
    }

    // Check that the multisig transaction has executed
    assert!(has_meta(&w, &msa_012345, key), "instructions should execute with enough approvals");
    assert!(MAX_DEPTH > 4);
}

#[test]
fn reserved_names() {
    let mut w = genesis(0);
    let account_in_another_domain = id("someone", "garden_of_live_flowers");
    let role = format!(
        "MULTISIG_SIGNATORY/{}/{}",
        account_in_another_domain.domain, account_in_another_domain.signatory
    );
    let register = Instruction::RegisterRole { role, owner: alice() };
    let err = w.submit(&alice(), &register).expect_err(
        "role with this name shouldn't be registered by anyone other than the domain owner",
    );
    assert_eq!(err, ExecError::PermissionDenied);
}
