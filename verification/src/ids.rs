use vstd::prelude::*;

verus! {

/// What parsing a task-identifier string yields: `Some` of the 128-bit
/// value when the string is a syntactically valid UUID (hyphenated,
/// simple, urn or braced form), `None` otherwise. The UUID grammar is not
/// restated here; this name stands for that function of the string alone.
pub uninterp spec fn parsed_id_of(s: Seq<char>) -> Option<u128>;

/// Relies on `uuid::Uuid::try_parse` and `uuid::Uuid::as_u128`: parsing is
/// a pure function of the input string, and `as_u128` reads the parsed
/// identifier back as its 128-bit value.
#[verifier::external_body]
pub(crate) fn parse_id(s: &str) -> (r: Option<u128>)
    ensures
        r == parsed_id_of(s@),
{
    match uuid::Uuid::try_parse(s) {
        Ok(u) => Some(u.as_u128()),
        Err(_) => None,
    }
}

/// Relies on `uuid::Uuid::new_v4`: a freshly generated random identifier.
/// The value depends on the process's random number source, so nothing is
/// promised of it.
#[verifier::external_body]
pub(crate) fn fresh_id() -> u128 {
    uuid::Uuid::new_v4().as_u128()
}

} // verus!
