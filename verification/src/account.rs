//! Account identifiers.
//!
//! An account identifier is a lower-case name of 2 to 64 characters drawn
//! from `a`-`z`, `0`-`9` and the separators `-`, `_` and `.`, where the first
//! and last characters are alphanumeric and no two separators are adjacent.
//! The bound on the length is what keeps all of the ledger's storage-byte
//! arithmetic free of overflow.

use vstd::prelude::*;

verus! {

/// A lower-case letter or digit.
pub open spec fn is_alnum_char(c: char) -> bool {
    ('a' <= c && c <= 'z') || ('0' <= c && c <= '9')
}

/// One of the three separator characters.
pub open spec fn is_separator_char(c: char) -> bool {
    c == '-' || c == '_' || c == '.'
}

/// Any character the account grammar admits.
pub open spec fn is_account_char(c: char) -> bool {
    is_alnum_char(c) || is_separator_char(c)
}

/// The account identifier grammar: length 2 to 64, only account characters,
/// alphanumeric at both ends, and no two adjacent separators.
pub open spec fn is_valid_account_seq(s: Seq<char>) -> bool {
    &&& 2 <= s.len() <= 64
    &&& forall|i: int| 0 <= i < s.len() ==> is_account_char(#[trigger] s[i])
    &&& is_alnum_char(s[0])
    &&& is_alnum_char(s[s.len() - 1])
    &&& forall|i: int|
        0 < i < s.len() ==> !(is_separator_char(s[i - 1]) && is_separator_char(#[trigger] s[i]))
}

/// Checks a string against the account identifier grammar.
pub fn validate_account_str(s: &str) -> (r: bool)
    ensures
        r == is_valid_account_seq(s@),
{
    let n = s.unicode_len();
    if n < 2 || n > 64 {
        return false;
    }
    let mut i: usize = 0;
    // Treat the position before the first character as a separator, so that a
    // leading separator is rejected by the adjacency rule.
    let mut last_sep = true;
    while i < n
        invariant
            0 <= i <= n,
            n == s@.len(),
            2 <= n <= 64,
            forall|j: int| 0 <= j < i ==> is_account_char(#[trigger] s@[j]),
            forall|j: int|
                0 < j < i ==> !(is_separator_char(s@[j - 1]) && is_separator_char(#[trigger] s@[j])),
            last_sep == if i == 0 { true } else { is_separator_char(s@[i - 1]) },
            i > 0 ==> is_alnum_char(s@[0]),
        decreases n - i,
    {
        let c = s.get_char(i);
        let sep = c == '-' || c == '_' || c == '.';
        let alnum = ('a' <= c && c <= 'z') || ('0' <= c && c <= '9');
        if !sep && !alnum {
            return false;
        }
        if sep && last_sep {
            return false;
        }
        last_sep = sep;
        i = i + 1;
    }
    !last_sep
}

/// An account identifier known to satisfy the grammar.
pub struct AccountId {
    id: String,
}

impl View for AccountId {
    type V = Seq<char>;

    closed spec fn view(&self) -> Seq<char> {
        self.id@
    }
}

impl AccountId {
    /// Whether the identifier satisfies the account grammar. Every value
    /// produced by [`AccountId::new`] does.
    pub open spec fn wf(&self) -> bool {
        is_valid_account_seq(self@)
    }

    /// Accepts exactly the strings of the account identifier grammar.
    pub fn new(id: String) -> (r: Option<AccountId>)
        ensures
            r is Some <==> is_valid_account_seq(id@),
            r is Some ==> r->0@ == id@ && r->0.wf(),
    {
        if validate_account_str(id.as_str()) {
            Some(AccountId { id })
        } else {
            None
        }
    }

    /// The identifier as a string slice.
    pub fn as_str(&self) -> (r: &str)
        ensures
            r@ == self@,
    {
        self.id.as_str()
    }

    /// An owned copy of the identifier's text, usable as a collection key.
    pub fn to_key(&self) -> (r: String)
        ensures
            r@ == self@,
    {
        self.id.clone()
    }

    /// The number of characters in the identifier.
    pub fn char_len(&self) -> (r: usize)
        ensures
            r == self@.len(),
    {
        self.id.as_str().unicode_len()
    }

    /// A copy that is equal to `self`.
    pub fn duplicate(&self) -> (r: AccountId)
        ensures
            r == *self,
    {
        AccountId { id: self.id.clone() }
    }

    /// Whether two identifiers spell the same name.
    pub fn same_as(&self, other: &AccountId) -> (r: bool)
        ensures
            r == (self@ == other@),
    {
        self.id == other.id
    }
}

} // verus!
