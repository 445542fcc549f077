//! Well-known metadata keys, multisig role names and their grammar.

use vstd::prelude::*;
use crate::names::{AccountId, AccountKey, has_prefix, starts_with, find_char, index_of_from};

verus! {

/// Metadata key of a multisig account's signatory weights.
pub const SIGNATORIES: &'static str = "signatories";

/// Metadata key of a multisig account's quorum.
pub const QUORUM: &'static str = "quorum";

/// Metadata key of a multisig account's proposal time-to-live.
pub const TRANSACTION_TTL_MS: &'static str = "transaction_ttl_ms";

/// Prefix of every multisig role name; such names are reserved.
pub const MULTISIG_SIGNATORY: &'static str = "MULTISIG_SIGNATORY/";

pub open spec fn role_prefix() -> Seq<char> {
    "MULTISIG_SIGNATORY/"@
}

/// The name of the role held by the signatories of the multisig account `a`.
pub open spec fn role_name(a: AccountKey) -> Seq<char> {
    role_prefix() + a.0 + "/"@ + a.1
}

/// The name of the role held by the signatories of `account`.
pub fn multisig_role_for(account: &AccountId) -> (r: String)
    ensures
        r@ == role_name(account.key()),
{
    let mut r = String::from_str(MULTISIG_SIGNATORY);
    r.append(account.domain.as_str());
    r.append("/");
    r.append(account.signatory.as_str());
    r
}

/// How a role name stands to the reserved multisig namespace: `None` when it
/// lies outside, `Some(Some(d))` for a multisig role of domain `d`, and
/// `Some(None)` for a reserved name that names no domain.
pub open spec fn reserved_role_domain(name: Seq<char>) -> Option<Option<Seq<char>>> {
    if !has_prefix(name, role_prefix()) {
        None
    } else {
        match index_of_from(name, '/', role_prefix().len() as int) {
            Some(j) => Some(Some(name.subrange(role_prefix().len() as int, j))),
            None => Some(None),
        }
    }
}

/// Reads the domain out of a role name in the reserved namespace.
pub fn parse_reserved_role(name: &str) -> (r: Option<Option<String>>)
    ensures
        match r {
            None => reserved_role_domain(name@) is None,
            Some(None) => reserved_role_domain(name@) == Some(Option::<Seq<char>>::None),
            Some(Some(d)) => reserved_role_domain(name@) == Some(Some(d@)),
        },
{
    proof {
        reveal_strlit("MULTISIG_SIGNATORY/");
    }
    if !starts_with(name, MULTISIG_SIGNATORY) {
        return None;
    }
    let p: usize = MULTISIG_SIGNATORY.unicode_len();
    match find_char(name, '/', p) {
        Some(j) => Some(Some(String::from_str(name.substring_char(p, j)))),
        None => Some(None),
    }
}

/// The lowercase hexadecimal digit of `n`.
pub open spec fn hex_digit(n: u8) -> char {
    if n == 0 {
        '0'
    } else     if n == 1 {
        '1'
    } else     if n == 2 {
        '2'
    } else     if n == 3 {
        '3'
    } else     if n == 4 {
        '4'
    } else     if n == 5 {
        '5'
    } else     if n == 6 {
        '6'
    } else     if n == 7 {
        '7'
    } else     if n == 8 {
        '8'
    } else     if n == 9 {
        '9'
    } else     if n == 10 {
        'a'
    } else     if n == 11 {
        'b'
    } else     if n == 12 {
        'c'
    } else     if n == 13 {
        'd'
    } else     if n == 14 {
        'e'
    } else {
        'f'
    }
}

/// The lowercase hexadecimal rendering of `b`, two digits per byte.
pub open spec fn hex_of(b: Seq<u8>) -> Seq<char>
    decreases b.len(),
{
    if b.len() == 0 {
        Seq::empty()
    } else {
        hex_of(b.drop_last()) + seq![hex_digit(b.last() / 16), hex_digit(b.last() % 16)]
    }
}

fn hex_digit_str(n: u8) -> (r: &'static str)
    requires
        n < 16,
    ensures
        r@ == seq![hex_digit(n)],
{
    if n == 0 {
        proof {
            reveal_strlit("0");
        }
        "0"
    } else     if n == 1 {
        proof {
            reveal_strlit("1");
        }
        "1"
    } else     if n == 2 {
        proof {
            reveal_strlit("2");
        }
        "2"
    } else     if n == 3 {
        proof {
            reveal_strlit("3");
        }
        "3"
    } else     if n == 4 {
        proof {
            reveal_strlit("4");
        }
        "4"
    } else     if n == 5 {
        proof {
            reveal_strlit("5");
        }
        "5"
    } else     if n == 6 {
        proof {
            reveal_strlit("6");
        }
        "6"
    } else     if n == 7 {
        proof {
            reveal_strlit("7");
        }
        "7"
    } else     if n == 8 {
        proof {
            reveal_strlit("8");
        }
        "8"
    } else     if n == 9 {
        proof {
            reveal_strlit("9");
        }
        "9"
    } else     if n == 10 {
        proof {
            reveal_strlit("a");
        }
        "a"
    } else     if n == 11 {
        proof {
            reveal_strlit("b");
        }
        "b"
    } else     if n == 12 {
        proof {
            reveal_strlit("c");
        }
        "c"
    } else     if n == 13 {
        proof {
            reveal_strlit("d");
        }
        "d"
    } else     if n == 14 {
        proof {
            reveal_strlit("e");
        }
        "e"
    } else {
        proof {
            reveal_strlit("f");
        }
        "f"
    }
}

/// Renders `b` as lowercase hexadecimal.
pub fn to_hex(b: &Vec<u8>) -> (r: String)
    ensures
        r@ == hex_of(b@),
{
    let mut r = String::new();
    let mut i: usize = 0;
    while i < b.len()
        invariant
            i <= b@.len(),
            r@ == hex_of(b@.subrange(0, i as int)),
        decreases b@.len() - i,
    {
        assert(b@.subrange(0, i as int + 1).drop_last() =~= b@.subrange(0, i as int));
        r.append(hex_digit_str(b[i] / 16));
        r.append(hex_digit_str(b[i] % 16));
        i = i + 1;
    }
    assert(b@.subrange(0, b@.len() as int) =~= b@);
    r
}

pub open spec fn proposal_key(hex: Seq<char>, leaf: Seq<char>) -> Seq<char> {
    "proposals/"@ + hex + leaf
}

/// Metadata key under which a proposal's instructions are kept.
pub open spec fn instructions_key_of(h: Seq<u8>) -> Seq<char> {
    proposal_key(hex_of(h), "/instructions"@)
}

/// Metadata key under which a proposal's creation time is kept.
pub open spec fn proposed_at_ms_key_of(h: Seq<u8>) -> Seq<char> {
    proposal_key(hex_of(h), "/proposed_at_ms"@)
}

/// Metadata key under which a proposal's approvals are kept.
pub open spec fn approvals_key_of(h: Seq<u8>) -> Seq<char> {
    proposal_key(hex_of(h), "/approvals"@)
}

/// The three entries of one proposal lie under three different keys.
pub proof fn lemma_proposal_keys_distinct(h: Seq<u8>)
    ensures
        instructions_key_of(h) != proposed_at_ms_key_of(h),
        instructions_key_of(h) != approvals_key_of(h),
        proposed_at_ms_key_of(h) != approvals_key_of(h),
{
    reveal_strlit("/instructions");
    reveal_strlit("/proposed_at_ms");
    reveal_strlit("/approvals");
    reveal_strlit("proposals/");
    assert(instructions_key_of(h).len() != proposed_at_ms_key_of(h).len());
    assert(instructions_key_of(h).len() != approvals_key_of(h).len());
    assert(proposed_at_ms_key_of(h).len() != approvals_key_of(h).len());
}

pub fn instructions_key(h: &Vec<u8>) -> (r: String)
    ensures
        r@ == instructions_key_of(h@),
{
    let mut r = String::from_str("proposals/");
    r.append(to_hex(h).as_str());
    r.append("/instructions");
    r
}

pub fn proposed_at_ms_key(h: &Vec<u8>) -> (r: String)
    ensures
        r@ == proposed_at_ms_key_of(h@),
{
    let mut r = String::from_str("proposals/");
    r.append(to_hex(h).as_str());
    r.append("/proposed_at_ms");
    r
}

pub fn approvals_key(h: &Vec<u8>) -> (r: String)
    ensures
        r@ == approvals_key_of(h@),
{
    let mut r = String::from_str("proposals/");
    r.append(to_hex(h).as_str());
    r.append("/approvals");
    r
}

} // verus!
