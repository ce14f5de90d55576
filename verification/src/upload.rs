//! A keymap a virtual keyboard uploads: what is accepted, and the text in it.
use vstd::prelude::*;
use vstd::utf8::*;
use vstd::string::*;

verus! {

/// The wire value of the xkb text format, the one format understood.
pub const XKB_V1: u32 = 1;

/// Far above any real xkb keymap (~100 KB), far below an allocation a hostile
/// `size` could weaponize.
pub const MAX_KEYMAP_SIZE: usize = 8388608;

/// Why an uploaded keymap was not taken over.
#[derive(Clone, Copy, Debug, PartialEq, Eq, Structural)]
pub enum KeymapRefusal {
    /// The format is not the xkb text format.
    UnsupportedFormat,
    /// The announced size is above [`MAX_KEYMAP_SIZE`].
    TooLarge,
    /// The announced bytes could not be read from the file.
    Unreadable,
    /// What precedes the first NUL is not UTF-8.
    NotUtf8,
    /// xkb did not compile the text.
    NotCompiled,
    /// The virtual keyboard is not registered.
    UnknownKeyboard,
}

/// The part of a buffer before its first NUL byte: all of it where there is none.
pub open spec fn until_nul(bytes: Seq<u8>) -> Seq<u8>
    decreases bytes.len(),
{
    if bytes.len() == 0 || bytes[0] == 0 {
        Seq::empty()
    } else {
        seq![bytes[0]] + until_nul(bytes.drop_first())
    }
}

/// The text an uploaded buffer holds, if it holds any.
pub open spec fn uploaded_text(bytes: Seq<u8>) -> Option<Seq<char>> {
    if valid_utf8(until_nul(bytes)) {
        Some(decode_utf8(until_nul(bytes)))
    } else {
        None
    }
}

/// Calls `core::str::from_utf8`, which hands back the bytes as a string slice if
/// and only if they are UTF-8. Claimed here: that "if and only if", and that the
/// slice's own bytes are the ones given.
#[verifier::external_body]
fn str_from_utf8(bytes: &[u8]) -> (text: Option<&str>)
    ensures
        text is Some <==> valid_utf8(bytes@),
        text matches Some(s) ==> s.spec_bytes() == bytes@,
{
    core::str::from_utf8(bytes).ok()
}

/// Whether a keymap of this format and size is read at all.
pub fn check_offer(format: u32, size: usize) -> (r: Result<(), KeymapRefusal>)
    ensures
        r == (if format != XKB_V1 {
            Err::<(), KeymapRefusal>(KeymapRefusal::UnsupportedFormat)
        } else if size > MAX_KEYMAP_SIZE {
            Err(KeymapRefusal::TooLarge)
        } else {
            Ok(())
        }),
{
    if format != XKB_V1 {
        return Err(KeymapRefusal::UnsupportedFormat);
    }
    if size > MAX_KEYMAP_SIZE {
        return Err(KeymapRefusal::TooLarge);
    }
    Ok(())
}

pub(crate) proof fn lemma_until_nul(bytes: Seq<u8>, n: int)
    requires
        0 <= n <= bytes.len(),
        forall|i: int| 0 <= i < n ==> bytes[i] != 0,
        n == bytes.len() || bytes[n] == 0,
    ensures
        until_nul(bytes) == bytes.take(n),
    decreases bytes.len(),
{
    if n > 0 {
        lemma_until_nul(bytes.drop_first(), n - 1);
        assert(bytes.take(n) =~= seq![bytes[0]] + bytes.drop_first().take(n - 1));
    } else {
        assert(bytes.take(0) =~= Seq::<u8>::empty());
    }
}

/// The keymap text in an uploaded buffer: what precedes the first NUL.
pub fn keymap_text(bytes: &Vec<u8>) -> (text: Option<String>)
    ensures
        match text {
            Some(s) => uploaded_text(bytes@) == Some(s@),
            None => uploaded_text(bytes@) is None,
        },
{
    let mut len: usize = 0;
    while len < bytes.len() && bytes[len] != 0
        invariant
            len <= bytes.len(),
            forall|i: int| 0 <= i < len ==> bytes[i] != 0,
        decreases bytes.len() - len,
    {
        len = len + 1;
    }
    proof {
        lemma_until_nul(bytes@, len as int);
    }
    let prefix = vstd::slice::slice_subrange(bytes.as_slice(), 0, len);
    assert(prefix@ =~= bytes@.take(len as int));
    match str_from_utf8(prefix) {
        Some(s) => {
            broadcast use vstd::utf8::encode_utf8_decode_utf8;
            Some(s.to_owned())
        },
        None => None,
    }
}

} // verus!
