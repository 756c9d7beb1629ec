//! Random identifiers.

use vstd::prelude::*;

verus! {

/// Whether a character is a hexadecimal digit in lower case.
pub open spec fn is_hex(c: char) -> bool {
    ('0' <= c && c <= '9') || ('a' <= c && c <= 'f')
}

/// The shape of a random token: 32 hexadecimal digits.
pub open spec fn is_token(s: Seq<char>) -> bool {
    &&& s.len() == 32
    &&& forall|i: int| 0 <= i < s.len() ==> is_hex(#[trigger] s[i])
}

/// The identifier that a prefix and a token make up.
pub open spec fn is_identifier(id: Seq<char>, prefix: Seq<char>) -> bool {
    &&& prefix.is_prefix_of(id)
    &&& is_token(id.skip(prefix.len() as int))
}

/// Calls `uuid::Uuid::new_v4` and writes the number in its simple form: 32 lower-case
/// hexadecimal digits, which chance picks.
#[verifier::external_body]
pub(crate) fn unique_token() -> (token: String)
    ensures
        is_token(token@),
{
    uuid::Uuid::new_v4().simple().to_string()
}

/// A prefix followed by a given token.
pub fn identifier(prefix: &str, token: &str) -> (id: String)
    ensures
        id@ == prefix@ + token@,
        is_token(token@) ==> is_identifier(id@, prefix@),
{
    let mut id = prefix.to_owned();
    id.append(token);
    assert(id@.skip(prefix@.len() as int) == token@);
    id
}

/// A prefix followed by a fresh token.
pub fn fresh_identifier(prefix: &str) -> (id: String)
    ensures
        is_identifier(id@, prefix@),
{
    let token = unique_token();
    identifier(prefix, token.as_str())
}

/// A fresh token on its own.
pub fn fresh_token() -> (token: String)
    ensures
        is_token(token@),
{
    unique_token()
}

/// An identifier is its prefix and its token, one behind the other.
pub proof fn identifiers_hold_prefix_and_token(prefix: &str, token: &str, id: String)
    requires
        call_ensures(identifier, (prefix, token), id),
    ensures
        prefix@.is_prefix_of(id@),
        token@.is_suffix_of(id@),
        id@.len() == prefix@.len() + token@.len(),
{
    assert(id@.subrange(0, prefix@.len() as int) =~= prefix@);
    assert(id@.subrange(prefix@.len() as int, id@.len() as int) =~= token@);
}

/// A fresh identifier is its prefix and 32 hexadecimal digits in lower case.
pub proof fn fresh_identifiers_end_in_digits(prefix: &str, id: String, i: int)
    requires
        call_ensures(fresh_identifier, (prefix,), id),
    ensures
        id@.len() == prefix@.len() + 32,
        prefix@.is_prefix_of(id@),
        prefix@.len() <= i < id@.len() ==> ('0' <= id@[i] && id@[i] <= '9') || ('a' <= id@[i]
            && id@[i] <= 'f'),
{
    let rest = id@.skip(prefix@.len() as int);
    if prefix@.len() <= i < id@.len() {
        assert(is_hex(rest[i - prefix@.len()]));
    }
}

} // verus!
