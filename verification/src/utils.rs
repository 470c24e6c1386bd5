//! ISteamUtils and ISteamVideo: the gamepad text entered, the text filter,
//! the placeholder avatar image, and the OPF string.
use crate::cbuf::{c_string_in_buffer, copy_c_string, utf8_bytes};
use vstd::prelude::*;
use vstd::string::*;

verus! {

/// The side of the placeholder image, in pixels.
pub const IMAGE_SIDE: u32 = 64;

/// The bytes of the placeholder RGBA image: 64 by 64 pixels of 4 bytes.
pub const IMAGE_BYTES: usize = 16384;

/// The gamepad text entered, and whether the overlay is enabled.
pub struct UtilsState {
    pub gamepad_text: String,
    pub overlay_enabled: u32,
}

impl UtilsState {
    pub fn new() -> (s: Self)
        ensures
            s.gamepad_text@.len() == 0,
            s.overlay_enabled == 1,
    {
        UtilsState { gamepad_text: String::new(), overlay_enabled: 1 }
    }

    pub fn is_overlay_enabled(&self) -> (r: bool)
        ensures
            r == (self.overlay_enabled != 0),
    {
        self.overlay_enabled != 0
    }

    /// The length in bytes of the text entered.
    pub fn entered_gamepad_text_length(&self) -> (n: u32)
        ensures
            n == utf8_bytes(self.gamepad_text@).len() as u32,
    {
        self.gamepad_text.as_str().as_bytes().len() as u32
    }

    /// The text entered as written into a buffer of `text_size` bytes;
    /// `None` (false) for an empty buffer.
    pub fn entered_gamepad_text(&self, text_size: u32) -> (r: Option<Vec<u8>>)
        ensures
            r is Some <==> text_size > 0,
            r matches Some(b) ==> b@ == c_string_in_buffer(utf8_bytes(self.gamepad_text@), text_size as nat),
    {
        if text_size == 0 {
            return None;
        }
        Some(copy_c_string(self.gamepad_text.as_str().as_bytes(), text_size as usize))
    }

    /// Forgets the text entered; always true.
    pub fn dismiss_gamepad_text_input(&mut self) -> (ok: bool)
        ensures
            ok,
            final(self).gamepad_text@.len() == 0,
            final(self).overlay_enabled == old(self).overlay_enabled,
    {
        self.gamepad_text = String::new();
        true
    }
}

/// Filtering passes the text through: what is written into a buffer of
/// `output_size` bytes, and the number of text bytes written. `None` (0) for
/// an empty buffer.
pub fn filter_text(input: &[u8], output_size: u32) -> (r: Option<(Vec<u8>, i32)>)
    ensures
        r is Some <==> output_size > 0,
        r matches Some((b, n)) ==> b@ == c_string_in_buffer(input@, output_size as nat) && n == (b@.len()
            - 1) as i32,
{
    if output_size == 0 {
        return None;
    }
    let out = copy_c_string(input, output_size as usize);
    let n = (out.len() - 1) as i32;
    Some((out, n))
}

/// The placeholder image for a buffer of `dest_size` bytes: every byte 0xFF,
/// when the buffer holds the whole image; `None` (false) otherwise.
pub fn image_rgba(dest_size: i32) -> (r: Option<Vec<u8>>)
    ensures
        r is Some <==> dest_size >= IMAGE_BYTES,
        r matches Some(b) ==> b@ == Seq::new(IMAGE_BYTES as nat, |i: int| 0xffu8),
{
    if dest_size < 16384 {
        return None;
    }
    let mut out: Vec<u8> = Vec::new();
    let mut i: usize = 0;
    while i < IMAGE_BYTES
        invariant
            i <= IMAGE_BYTES,
            out@ == Seq::new(i as nat, |j: int| 0xffu8),
        decreases IMAGE_BYTES - i,
    {
        out.push(0xffu8);
        i = i + 1;
        assert(out@ =~= Seq::new(i as nat, |j: int| 0xffu8));
    }
    Some(out)
}

/// `Oracle Steam Video`
pub open spec fn opf_text() -> Seq<u8> {
    seq![79u8, 114, 97, 99, 108, 101, 32, 83, 116, 101, 97, 109, 32, 86, 105, 100, 101, 111]
}

/// The OPF string for a buffer whose size the caller passed (taken as an
/// unsigned number): the string and its terminator, with the size to report
/// back, when the buffer is larger than the string; `None` (false) otherwise.
pub fn opf_string_for_app(buffer_size: i32) -> (r: Option<(Vec<u8>, i32)>)
    ensures
        r is Some <==> (buffer_size as usize) > opf_text().len(),
        r matches Some((b, n)) ==> b@ == opf_text().push(0u8) && n == opf_text().len() + 1,
{
    let text: Vec<u8> = vec![79u8, 114, 97, 99, 108, 101, 32, 83, 116, 101, 97, 109, 32, 86, 105, 100, 101, 111];
    assert(text@ =~= opf_text());
    let available = buffer_size as usize;
    if available > text.len() {
        let out = copy_c_string(text.as_slice(), text.len() + 1);
        assert(opf_text().take(opf_text().len() as int) =~= opf_text());
        let n = (text.len() + 1) as i32;
        Some((out, n))
    } else {
        None
    }
}

} // verus!
