//! Identifier validation used before names are spliced into SQL text.
use vstd::prelude::*;
use crate::error::Error;
use crate::text::{chars_of, split_chars, split_spec, string_of, views_of};

verus! {

pub open spec fn is_ascii_letter(c: char) -> bool {
    ('a' <= c && c <= 'z') || ('A' <= c && c <= 'Z')
}

/// Characters that may start an identifier: letters, `_`, `@`, `#`.
pub open spec fn is_ident_start(c: char) -> bool {
    is_ascii_letter(c) || c == '_' || c == '@' || c == '#'
}

/// Characters that may follow: letters, digits, `_`, `@`, `#`, `$`.
pub open spec fn is_ident_rest(c: char) -> bool {
    is_ident_start(c) || ('0' <= c && c <= '9') || c == '$'
}

/// A regular SQL Server identifier of 1 to 128 characters.
pub open spec fn is_identifier(s: Seq<char>) -> bool {
    &&& 1 <= s.len() <= 128
    &&& is_ident_start(s[0])
    &&& forall|i: int| 1 <= i < s.len() ==> is_ident_rest(#[trigger] s[i])
}

/// A name of one to four identifiers separated by `.`
/// (`server.database.schema.object`).
pub open spec fn is_qualified_identifier(s: Seq<char>) -> bool {
    let parts = split_spec(s, '.');
    &&& parts.len() <= 4
    &&& forall|i: int| 0 <= i < parts.len() ==> is_identifier(#[trigger] parts[i])
}

fn check_identifier(s: &[char]) -> (r: bool)
    ensures
        r == is_identifier(s@),
{
    if s.len() < 1 || s.len() > 128 {
        return false;
    }
    let c0 = s[0];
    if !(('a' <= c0 && c0 <= 'z') || ('A' <= c0 && c0 <= 'Z') || c0 == '_' || c0 == '@' || c0
        == '#') {
        return false;
    }
    let mut i: usize = 1;
    while i < s.len()
        invariant
            1 <= i <= s.len(),
            forall|k: int| 1 <= k < i ==> is_ident_rest(#[trigger] s@[k]),
        decreases s.len() - i,
    {
        let c = s[i];
        if !(('a' <= c && c <= 'z') || ('A' <= c && c <= 'Z') || c == '_' || c == '@' || c
            == '#' || ('0' <= c && c <= '9') || c == '$') {
            assert(!is_ident_rest(s@[i as int]));
            return false;
        }
        i = i + 1;
    }
    true
}

/// Validates a single identifier.
pub fn validate_identifier(name: &str) -> (r: Result<(), Error>)
    ensures
        r is Ok <==> is_identifier(name@),
        r matches Err(e) ==> (e matches Error::InvalidIdentifier(m) && m@ == name@),
{
    let v = chars_of(name);
    if check_identifier(v.as_slice()) {
        Ok(())
    } else {
        Err(Error::InvalidIdentifier(string_of(v.as_slice())))
    }
}

/// Validates a possibly qualified name such as `dbo.Users`.
pub fn validate_qualified_identifier(name: &str) -> (r: Result<(), Error>)
    ensures
        r is Ok <==> is_qualified_identifier(name@),
        r matches Err(e) ==> (e matches Error::InvalidIdentifier(m) && m@ == name@),
{
    let v = chars_of(name);
    let parts = split_chars(v.as_slice(), '.');
    let ghost ps = split_spec(name@, '.');
    if parts.len() > 4 {
        return Err(Error::InvalidIdentifier(string_of(v.as_slice())));
    }
    let mut i: usize = 0;
    while i < parts.len()
        invariant
            i <= parts.len(),
            ps == split_spec(name@, '.'),
            v@ == name@,
            views_of(parts@) == ps,
            forall|k: int| 0 <= k < i ==> is_identifier(#[trigger] ps[k]),
        decreases parts.len() - i,
    {
        assert(ps[i as int] == parts@[i as int]@);
        if !check_identifier(parts[i].as_slice()) {
            return Err(Error::InvalidIdentifier(string_of(v.as_slice())));
        }
        i = i + 1;
    }
    Ok(())
}

} // verus!
