//! HTTP header values as text.

use vstd::prelude::*;

verus! {

/// A byte that may stand in a header value that is read as text.
pub open spec fn is_header_text_byte(b: u8) -> bool {
    32 <= b < 127 || b == 9
}

/// The text of a header value: present when every byte is visible ASCII, a space
/// or a tab.
pub open spec fn header_text_of(bytes: Seq<u8>) -> Option<Seq<char>> {
    if forall|i: int| 0 <= i < bytes.len() ==> is_header_text_byte(#[trigger] bytes[i]) {
        Some(Seq::new(bytes.len(), |i: int| bytes[i] as char))
    } else {
        None
    }
}

/// The text of an optional header value.
pub open spec fn opt_header_text_of(bytes: Option<Seq<u8>>) -> Option<Seq<char>> {
    match bytes {
        Some(b) => header_text_of(b),
        None => None,
    }
}

/// The view of an optional header value.
pub open spec fn opt_bytes(bytes: Option<&[u8]>) -> Option<Seq<u8>> {
    match bytes {
        Some(b) => Some(b@),
        None => None,
    }
}

/// The text of a header value, when every byte is visible ASCII, a space or a
/// tab.
pub fn header_text(bytes: &[u8]) -> (r: Option<String>)
    ensures
        match r {
            Some(t) => header_text_of(bytes@) == Some(t@),
            None => header_text_of(bytes@) is None,
        },
{
    let mut out = String::new();
    let mut i: usize = 0;
    while i < bytes.len()
        invariant
            i <= bytes@.len(),
            forall|k: int| 0 <= k < i ==> is_header_text_byte(#[trigger] bytes@[k]),
            out@ == Seq::new(i as nat, |k: int| bytes@[k] as char),
        decreases bytes@.len() - i,
    {
        let b: u8 = bytes[i];
        if !((32 <= b && b < 127) || b == 9) {
            return None;
        }
        out.push(b as char);
        i += 1;
        proof {
            assert(out@ =~= Seq::new(i as nat, |k: int| bytes@[k] as char));
        }
    }
    Some(out)
}

/// The text of an optional header value.
pub fn opt_header_text(bytes: Option<&[u8]>) -> (r: Option<String>)
    ensures
        match r {
            Some(t) => opt_header_text_of(opt_bytes(bytes)) == Some(t@),
            None => opt_header_text_of(opt_bytes(bytes)) is None,
        },
{
    match bytes {
        Some(b) => header_text(b),
        None => None,
    }
}

/// A header of visible ASCII, spaces and tabs is read character for character; any other
/// byte makes it unreadable.
pub proof fn law_headers_are_ascii(bytes: &[u8], r: Option<String>, i: int)
    requires
        call_ensures(header_text, (bytes,), r),
        0 <= i < bytes@.len(),
    ensures
        r matches Some(t) ==> t@.len() == bytes@.len() && t@[i] == bytes@[i] as char && (32
            <= bytes@[i] < 127 || bytes@[i] == 9),
        (forall|k: int|
            0 <= k < bytes@.len() ==> 32 <= #[trigger] bytes@[k] < 127 || bytes@[k] == 9)
            ==> r is Some,
{
}

} // verus!
