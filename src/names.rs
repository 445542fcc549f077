//! Identifiers of accounts and the string helpers they rest on.

use vstd::prelude::*;

verus! {

/// Identifier of an account: a signatory name within a domain.
#[derive(Debug)]
pub struct AccountId {
    pub signatory: String,
    pub domain: String,
}

/// The plain value that identifies an account: its domain, then its signatory.
pub type AccountKey = (Seq<char>, Seq<char>);

impl AccountId {
    pub open spec fn key(&self) -> AccountKey {
        (self.domain@, self.signatory@)
    }

    pub fn new(signatory: &str, domain: &str) -> (r: AccountId)
        ensures
            r.signatory@ == signatory@,
            r.domain@ == domain@,
    {
        AccountId { signatory: String::from_str(signatory), domain: String::from_str(domain) }
    }

    /// Whether two identifiers name the same account.
    pub fn same(&self, other: &AccountId) -> (r: bool)
        ensures
            r == (self.key() == other.key()),
    {
        self.domain == other.domain && self.signatory == other.signatory
    }
}

impl View for AccountId {
    type V = AccountKey;

    open spec fn view(&self) -> AccountKey {
        self.key()
    }
}

impl Clone for AccountId {
    fn clone(&self) -> (r: Self)
        ensures
            r == *self,
    {
        AccountId { signatory: self.signatory.clone(), domain: self.domain.clone() }
    }
}

impl PartialEq for AccountId {
    fn eq(&self, other: &AccountId) -> (r: bool) {
        self.same(other)
    }
}

impl vstd::std_specs::cmp::PartialEqSpecImpl for AccountId {
    open spec fn obeys_eq_spec() -> bool {
        true
    }

    open spec fn eq_spec(&self, other: &AccountId) -> bool {
        self.key() == other.key()
    }
}

impl Eq for AccountId {}

/// Whether `s` begins with `prefix`.
pub open spec fn has_prefix(s: Seq<char>, prefix: Seq<char>) -> bool {
    prefix.len() <= s.len() && s.subrange(0, prefix.len() as int) == prefix
}

/// Whether the string `s` begins with `prefix`.
pub fn starts_with(s: &str, prefix: &str) -> (r: bool)
    ensures
        r == has_prefix(s@, prefix@),
{
    let n: usize = prefix.unicode_len();
    if s.unicode_len() < n {
        return false;
    }
    let mut i: usize = 0;
    while i < n
        invariant
            n == prefix@.len(),
            n <= s@.len(),
            i <= n,
            forall|j: int| 0 <= j < i ==> s@[j] == prefix@[j],
        decreases n - i,
    {
        if s.get_char(i) != prefix.get_char(i) {
            assert(s@.subrange(0, n as int)[i as int] != prefix@[i as int]);
            return false;
        }
        i = i + 1;
    }
    assert(s@.subrange(0, n as int) =~= prefix@);
    true
}

/// The position of the first `c` in `s` at or after `i`, if any.
pub open spec fn index_of_from(s: Seq<char>, c: char, i: int) -> Option<int>
    decreases s.len() - i,
{
    if i < 0 || i >= s.len() {
        None
    } else if s[i] == c {
        Some(i)
    } else {
        index_of_from(s, c, i + 1)
    }
}

/// The position of the first `c` in `s` at or after `from`, if any.
pub fn find_char(s: &str, c: char, from: usize) -> (r: Option<usize>)
    requires
        from <= s@.len(),
    ensures
        r matches Some(i) ==> index_of_from(s@, c, from as int) == Some(i as int),
        r is None ==> index_of_from(s@, c, from as int) is None,
        match r {
            Some(i) => from <= i < s@.len() && s@[i as int] == c && forall|j: int|
                from <= j < i ==> s@[j] != c,
            None => forall|j: int| from <= j < s@.len() ==> s@[j] != c,
        },
{
    let n: usize = s.unicode_len();
    let mut i: usize = from;
    while i < n
        invariant
            n == s@.len(),
            from <= i <= n,
            forall|j: int| from <= j < i ==> s@[j] != c,
            index_of_from(s@, c, from as int) == index_of_from(s@, c, i as int),
        decreases n - i,
    {
        if s.get_char(i) == c {
            return Some(i);
        }
        i = i + 1;
    }
    None
}

} // verus!
