use vstd::prelude::*;

verus! {

/// Whether a character has the Unicode property XID_Start, as decided by
/// `unicode_ident::is_xid_start`.
pub uninterp spec fn xid_start(c: char) -> bool;

/// Whether a character has the Unicode property XID_Continue, as decided by
/// `unicode_ident::is_xid_continue`.
pub uninterp spec fn xid_continue(c: char) -> bool;

pub open spec fn ascii_letter(c: char) -> bool {
    ('a' <= c && c <= 'z') || ('A' <= c && c <= 'Z')
}

pub open spec fn ascii_digit(c: char) -> bool {
    '0' <= c && c <= '9'
}

/// Calls `unicode_ident::is_xid_start`. The contract names its result
/// `xid_start(c)` and states the ASCII part of the Unicode table, which the
/// crate's ASCII bit mask encodes: among ASCII characters exactly the
/// letters start an identifier. Nothing is stated of other characters.
#[verifier::external_body]
pub(crate) fn is_xid_start(c: char) -> (b: bool)
    ensures
        b == xid_start(c),
        (c as u32) < 128 ==> (b <==> ascii_letter(c)),
{
    unicode_ident::is_xid_start(c)
}

/// Calls `unicode_ident::is_xid_continue`. The contract names its result
/// `xid_continue(c)` and states the ASCII part of the table: letters, digits
/// and the underscore continue an identifier. Nothing is stated of other
/// characters.
#[verifier::external_body]
pub(crate) fn is_xid_continue(c: char) -> (b: bool)
    ensures
        b == xid_continue(c),
        (c as u32) < 128 ==> (b <==> (ascii_letter(c) || ascii_digit(c) || c == '_')),
{
    unicode_ident::is_xid_continue(c)
}

} // verus!
