use vstd::prelude::*;

verus! {

/// One of the separators an account id may hold between alphanumeric runs.
pub open spec fn is_account_separator(c: char) -> bool {
    c == '-' || c == '_' || c == '.'
}

/// A character an account id may hold.
pub open spec fn is_account_char(c: char) -> bool {
    ('a' <= c && c <= 'z') || ('0' <= c && c <= '9') || is_account_separator(c)
}

/// A well-formed account id: 2 to 64 lower-case alphanumerics and separators,
/// neither starting nor ending with a separator, with no two separators in a row.
pub open spec fn account_id_valid(s: Seq<char>) -> bool {
    &&& 2 <= s.len() <= 64
    &&& forall|i: int| 0 <= i < s.len() ==> #[trigger] is_account_char(s[i])
    &&& !is_account_separator(s[0])
    &&& !is_account_separator(s[s.len() - 1])
    &&& forall|i: int|
        0 <= i < s.len() - 1 ==> !(#[trigger] is_account_separator(s[i]) && is_account_separator(
            s[i + 1],
        ))
}

/// Relies on `FromStr for near_sdk::AccountId` (near-account-id's `validate`):
/// parsing succeeds exactly on the ids that `account_id_valid` describes.
#[verifier::external_body]
fn parse_account_id_ok(s: &str) -> (r: bool)
    ensures
        r == account_id_valid(s@),
{
    s.parse::<near_sdk::AccountId>().is_ok()
}

/// Whether `s` is a well-formed account id.
pub fn is_valid_account_id(s: &String) -> (r: bool)
    ensures
        r == account_id_valid(s@),
{
    parse_account_id_ok(s.as_str())
}

} // verus!
