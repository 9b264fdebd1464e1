//! Fixed byte signatures and the search for them in a payload.

use memchr::memmem::Finder;
use vstd::prelude::*;

verus! {

/// `needle` stands in `haystack` at offset `at`.
pub open spec fn occurs_at(haystack: Seq<u8>, needle: Seq<u8>, at: int) -> bool {
    &&& 0 <= at
    &&& at + needle.len() <= haystack.len()
    &&& haystack.subrange(at, at + needle.len()) == needle
}

/// `needle` stands somewhere in `haystack`.
pub open spec fn occurs(haystack: Seq<u8>, needle: Seq<u8>) -> bool {
    exists|at: int| occurs_at(haystack, needle, at)
}

/// The bytes of `USER Anonymous`, followed by carriage return and line feed.
pub open spec fn anon_user_signature() -> Seq<u8> {
    seq![
        0x55u8, 0x53, 0x45, 0x52, 0x20, 0x41, 0x6e, 0x6f, 0x6e, 0x79, 0x6d, 0x6f, 0x75, 0x73, 0x0d,
        0x0a,
    ]
}

/// The bytes of `PASS Anonymous`, followed by carriage return and line feed.
pub open spec fn anon_pass_signature() -> Seq<u8> {
    seq![
        0x50u8, 0x41, 0x53, 0x53, 0x20, 0x41, 0x6e, 0x6f, 0x6e, 0x79, 0x6d, 0x6f, 0x75, 0x73, 0x0d,
        0x0a,
    ]
}

/// Searches with `memchr::memmem::Finder::find`, on a finder that
/// `Finder::new` built for `needle`. Trusted: the answer is the offset of the
/// first place where `needle` stands in `haystack`, and `None` exactly when
/// it stands nowhere.
#[verifier::external_body]
fn find_first(haystack: &[u8], needle: &[u8]) -> (found: Option<usize>)
    ensures
        match found {
            Some(at) => occurs_at(haystack@, needle@, at as int) && forall|earlier: int|
                0 <= earlier < at ==> !occurs_at(haystack@, needle@, earlier),
            None => !occurs(haystack@, needle@),
        },
{
    Finder::new(needle).find(haystack)
}

/// Whether `signature` stands anywhere in `payload`, byte for byte.
pub fn contains(payload: &[u8], signature: &[u8]) -> (present: bool)
    ensures
        present == occurs(payload@, signature@),
{
    find_first(payload, signature).is_some()
}

/// Looks for the two anonymous-login signatures in a TCP payload: the first
/// answer is for the user name, the second for the password.
pub fn parse_ftp_packet(data: Vec<u8>) -> (seen: Option<(bool, bool)>)
    ensures
        seen == Some(
            (occurs(data@, anon_user_signature()), occurs(data@, anon_pass_signature())),
        ),
{
    let anon_login_bytes: [u8; 16] = [
        0x55, 0x53, 0x45, 0x52, 0x20, 0x41, 0x6e, 0x6f, 0x6e, 0x79, 0x6d, 0x6f, 0x75, 0x73, 0x0d,
        0x0a,
    ];
    let anon_pass_bytes: [u8; 16] = [
        0x50, 0x41, 0x53, 0x53, 0x20, 0x41, 0x6e, 0x6f, 0x6e, 0x79, 0x6d, 0x6f, 0x75, 0x73, 0x0d,
        0x0a,
    ];
    assert(anon_login_bytes@ =~= anon_user_signature());
    assert(anon_pass_bytes@ =~= anon_pass_signature());
    let user = contains(data.as_slice(), anon_login_bytes.as_slice());
    let pass = contains(data.as_slice(), anon_pass_bytes.as_slice());
    Some((user, pass))
}

} // verus!
