//! Identifiers of peers and media objects: UUIDs, through the `uuid` crate.

use vstd::prelude::*;

verus! {

/// What `uuid::Uuid::parse_str` makes of a text: the UUID written in its
/// canonical form (lowercase, hyphenated), or the message of the error.
pub uninterp spec fn uuid_parse(text: Seq<char>) -> Result<Seq<char>, Seq<char>>;

/// Parses `text` as a UUID with `uuid::Uuid::parse_str`, giving the UUID's
/// canonical text (`Display`) or the error's message (`Display`). Trusted:
/// the result is the one `uuid_parse` names for the text; and a text already
/// in canonical form (hyphenated, lowercase: `parse_str` accepts it, and
/// `Display` writes the same digits back in that form) parses to itself.
#[verifier::external_body]
pub(crate) fn parse_uuid(text: &str) -> (parsed: Result<String, String>)
    ensures
        match parsed {
            Ok(c) => uuid_parse(text@) == Ok::<Seq<char>, Seq<char>>(c@),
            Err(e) => uuid_parse(text@) == Err::<Seq<char>, Seq<char>>(e@),
        },
        is_uuid_text(text@) ==> parsed is Ok && parsed->Ok_0@ == text@,
{
    match uuid::Uuid::parse_str(text) {
        Ok(id) => Ok(id.to_string()),
        Err(e) => Err(e.to_string()),
    }
}

/// A lowercase hexadecimal digit.
pub open spec fn is_lower_hex(c: char) -> bool {
    ('0' <= c && c <= '9') || ('a' <= c && c <= 'f')
}

/// `s` is a UUID in hyphenated lowercase form: 8-4-4-4-12 lowercase
/// hexadecimal digits.
pub open spec fn is_uuid_text(s: Seq<char>) -> bool {
    &&& s.len() == 36
    &&& forall|i: int|
        0 <= i < 36 ==> if i == 8 || i == 13 || i == 18 || i == 23 {
            s[i] == '-'
        } else {
            is_lower_hex(#[trigger] s[i])
        }
}

/// `s` is the text of a random (version 4, RFC variant) UUID in hyphenated
/// lowercase form: `4` opens the third group and one of `8`, `9`, `a`, `b`
/// the fourth.
pub open spec fn is_random_uuid_text(s: Seq<char>) -> bool {
    &&& is_uuid_text(s)
    &&& s[14] == '4'
    &&& (s[19] == '8' || s[19] == '9' || s[19] == 'a' || s[19] == 'b')
}

/// A fresh random identifier from `uuid::Uuid::new_v4`, in its `Display`
/// text form. Trusted: the text is a hyphenated lowercase version-4 UUID
/// (`new_v4` sets the version and variant bits; `Display` writes the
/// hyphenated lowercase form); which UUID comes out is left open.
#[verifier::external_body]
pub(crate) fn new_uuid() -> (id: String)
    ensures
        is_random_uuid_text(id@),
{
    uuid::Uuid::new_v4().to_string()
}

} // verus!
