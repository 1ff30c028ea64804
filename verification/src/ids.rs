use vstd::prelude::*;

verus! {

/// Whether `c` is one of `0`..`9` or `a`..`f`.
pub open spec fn is_lower_hex(c: char) -> bool {
    ('0' <= c <= '9') || ('a' <= c <= 'f')
}

/// Whether `s` has the shape of a hyphenated lower-case UUID: 36 characters,
/// `-` at 8, 13, 18 and 23, hex digits elsewhere.
pub open spec fn is_hyphenated_uuid(s: Seq<char>) -> bool {
    &&& s.len() == 36
    &&& forall|i: int|
        0 <= i < 36 ==> if i == 8 || i == 13 || i == 18 || i == 23 {
            s[i] == '-'
        } else {
            is_lower_hex(#[trigger] s[i])
        }
}

/// Whether `s` is a hyphenated lower-case UUID of version 4 (random) in the
/// RFC 9562 variant: its version digit, at 14, is `4`, and its variant digit,
/// at 19, is one of `8`, `9`, `a`, `b`.
pub open spec fn is_uuid_v4(s: Seq<char>) -> bool {
    &&& is_hyphenated_uuid(s)
    &&& s[14] == '4'
    &&& (s[19] == '8' || s[19] == '9' || s[19] == 'a' || s[19] == 'b')
}

/// Calls `uuid::Uuid::new_v4` and writes the result with `Display`. Claimed:
/// the text is a hyphenated lower-case UUID (that is what `Display` writes)
/// whose version digit is `4` and whose variant digit is one of `8`, `9`,
/// `a`, `b` (`new_v4` masks those bits in). Not stated: the other digits,
/// which are random.
#[verifier::external_body]
pub(crate) fn new_id() -> (res: String)
    ensures
        is_uuid_v4(res@),
{
    uuid::Uuid::new_v4().to_string()
}

} // verus!
