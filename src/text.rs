//! Text as it crosses the boundary to the native toolkit.
//!
//! Text buffers of the library always use `\n` line endings. Where the
//! platform displays `\r\n`, the bytes handed to the toolkit have each `\n`
//! widened to `\r\n`, and the bytes read back have each `\r\n` narrowed to
//! `\n`. The toolkit takes NUL-terminated C strings, so text holding a NUL
//! byte cannot be handed over.

use vstd::prelude::*;
use vstd::string::StringSliceAdditionalSpecFns;
use vstd::utf8::{
    decode_utf8, encode_utf8, encode_utf8_decode_utf8, encode_utf8_valid_utf8, valid_utf8,
};

verus! {

/// Carriage return.
pub const CR: u8 = 13;

/// Line feed.
pub const LF: u8 = 10;

/// The line endings that the platform's text controls display.
#[derive(Clone, Copy, Debug, PartialEq, Eq, Structural)]
pub enum LineEndings {
    /// `\n`: text is handed over as it is.
    Lf,
    /// `\r\n`: line endings are widened on the way in and narrowed on the way out.
    CrLf,
}

/// Each `\n` of `b` replaced by `\r\n`.
pub open spec fn widen_newlines(b: Seq<u8>) -> Seq<u8>
    decreases b.len(),
{
    if b.len() == 0 {
        Seq::empty()
    } else if b[0] == LF {
        seq![CR, LF] + widen_newlines(b.drop_first())
    } else {
        seq![b[0]] + widen_newlines(b.drop_first())
    }
}

/// Each `\r\n` of `b` replaced by `\n`, scanning from the front.
pub open spec fn narrow_newlines(b: Seq<u8>) -> Seq<u8>
    decreases b.len(),
{
    if b.len() == 0 {
        Seq::empty()
    } else if b.len() >= 2 && b[0] == CR && b[1] == LF {
        seq![LF] + narrow_newlines(b.subrange(2, b.len() as int))
    } else {
        seq![b[0]] + narrow_newlines(b.drop_first())
    }
}

/// The bytes handed to the toolkit for the text bytes `b`, before the terminator.
pub open spec fn toolkit_encoding(b: Seq<u8>, endings: LineEndings) -> Seq<u8> {
    match endings {
        LineEndings::Lf => b,
        LineEndings::CrLf => widen_newlines(b),
    }
}

/// The text bytes for the bytes `b` read from the toolkit (without the terminator).
pub open spec fn toolkit_decoding(b: Seq<u8>, endings: LineEndings) -> Seq<u8> {
    match endings {
        LineEndings::Lf => b,
        LineEndings::CrLf => narrow_newlines(b),
    }
}

/// Whether `b` holds a NUL byte.
pub open spec fn has_nul(b: Seq<u8>) -> bool {
    exists|j: int| 0 <= j < b.len() && b[j] == 0u8
}

/// What lossy UTF-8 decoding gives for bytes that are not valid UTF-8, where
/// each invalid sequence becomes U+FFFD.
pub uninterp spec fn utf8_lossy_invalid(b: Seq<u8>) -> Seq<char>;

/// The characters that lossy UTF-8 decoding gives for `b`: the decoded text
/// where `b` is valid UTF-8.
pub open spec fn utf8_lossy(b: Seq<u8>) -> Seq<char> {
    if valid_utf8(b) {
        decode_utf8(b)
    } else {
        utf8_lossy_invalid(b)
    }
}

/// Relies on `String::from_utf8_lossy`: valid UTF-8 is decoded as it is, and
/// every invalid sequence is replaced by U+FFFD.
#[verifier::external_body]
pub(crate) fn decode_lossy(b: &[u8]) -> (r: String)
    ensures
        valid_utf8(b@) ==> r@ == decode_utf8(b@),
        !valid_utf8(b@) ==> r@ == utf8_lossy_invalid(b@),
{
    String::from_utf8_lossy(b).into_owned()
}

/// The NUL-terminated bytes handed to the toolkit for `value`, or `None` where
/// `value` holds a NUL character and so has no C string form.
pub fn to_toolkit_bytes(value: &str, endings: LineEndings) -> (r: Option<Vec<u8>>)
    ensures
        r is None <==> has_nul(value.spec_bytes()),
        r matches Some(v) ==> v@ == toolkit_encoding(value.spec_bytes(), endings).push(0u8),
{
    let b = value.as_bytes();
    let n = b.len();
    let mut out: Vec<u8> = Vec::new();
    let mut i: usize = 0;
    assert(b@.subrange(0, n as int) =~= b@);
    assert(out@ + toolkit_encoding(b@, endings) =~= toolkit_encoding(b@, endings));
    while i < n
        invariant
            n == b@.len(),
            b@ == value.spec_bytes(),
            0 <= i <= n,
            forall|j: int| 0 <= j < i ==> b@[j] != 0u8,
            toolkit_encoding(b@, endings) == out@ + toolkit_encoding(
                b@.subrange(i as int, n as int),
                endings,
            ),
        decreases n - i,
    {
        let c = b[i];
        if c == 0 {
            return None;
        }
        let ghost rest = b@.subrange(i as int, n as int);
        assert(rest.drop_first() =~= b@.subrange(i + 1, n as int));
        if c == LF && endings == LineEndings::CrLf {
            out.push(CR);
        }
        out.push(c);
        assert(toolkit_encoding(b@, endings) == out@ + toolkit_encoding(
            b@.subrange(i + 1, n as int),
            endings,
        )) by {
            if endings == LineEndings::Lf {
                assert(rest =~= seq![c] + rest.drop_first());
            }
        }
        i = i + 1;
    }
    assert(b@.subrange(n as int, n as int) =~= Seq::<u8>::empty());
    assert(out@ + Seq::<u8>::empty() =~= out@);
    out.push(0);
    Some(out)
}

/// The text bytes for the bytes `raw` read from the toolkit, whose terminator
/// is left out.
pub fn normalize_from_toolkit(raw: &[u8], endings: LineEndings) -> (r: Vec<u8>)
    ensures
        r@ == toolkit_decoding(raw@, endings),
{
    let n = raw.len();
    let mut out: Vec<u8> = Vec::new();
    let mut i: usize = 0;
    assert(raw@.subrange(0, n as int) =~= raw@);
    assert(out@ + toolkit_decoding(raw@, endings) =~= toolkit_decoding(raw@, endings));
    while i < n
        invariant
            n == raw@.len(),
            0 <= i <= n,
            toolkit_decoding(raw@, endings) == out@ + toolkit_decoding(
                raw@.subrange(i as int, n as int),
                endings,
            ),
        decreases n - i,
    {
        let c = raw[i];
        let ghost rest = raw@.subrange(i as int, n as int);
        if endings == LineEndings::CrLf && c == CR && i + 1 < n && raw[i + 1] == LF {
            out.push(LF);
            assert(rest.subrange(2, rest.len() as int) =~= raw@.subrange(i + 2, n as int));
            i = i + 2;
        } else {
            out.push(c);
            assert(rest.drop_first() =~= raw@.subrange(i + 1, n as int));
            assert(toolkit_decoding(raw@, endings) == out@ + toolkit_decoding(
                raw@.subrange(i + 1, n as int),
                endings,
            )) by {
                if endings == LineEndings::Lf {
                    assert(rest =~= seq![c] + rest.drop_first());
                }
            }
            i = i + 1;
        }
    }
    assert(raw@.subrange(n as int, n as int) =~= Seq::<u8>::empty());
    assert(out@ + Seq::<u8>::empty() =~= out@);
    out
}

/// The text for the bytes `raw` read from the toolkit, whose terminator is
/// left out: line endings are narrowed, then the bytes are decoded as UTF-8,
/// each invalid sequence giving U+FFFD.
pub fn from_toolkit_bytes(raw: &[u8], endings: LineEndings) -> (r: String)
    ensures
        r@ == utf8_lossy(toolkit_decoding(raw@, endings)),
{
    let b = normalize_from_toolkit(raw, endings);
    decode_lossy(b.as_slice())
}

/// A control that holds a buffer of editable text, with `\n` line endings.
pub trait TextEntry {
    /// The text that the control holds.
    fn value(&self) -> String;

    /// Replaces the text that the control holds.
    fn set_value(&mut self, value: &str);

    /// Registers `callback`, run with the new text each time the user changes it.
    fn on_changed<'ctx, F: FnMut(String) + 'static>(&mut self, callback: F);
}

/// The widened form of bytes never starts with `\n`.
proof fn lemma_widened_first(b: Seq<u8>)
    ensures
        widen_newlines(b).len() == 0 <==> b.len() == 0,
        widen_newlines(b).len() > 0 ==> widen_newlines(b)[0] != LF,
{
}

/// Narrowing the line endings of widened bytes gives the bytes back.
pub proof fn lemma_newlines_round_trip(b: Seq<u8>)
    ensures
        narrow_newlines(widen_newlines(b)) == b,
    decreases b.len(),
{
    if b.len() > 0 {
        let rest = b.drop_first();
        let w = widen_newlines(rest);
        lemma_newlines_round_trip(rest);
        lemma_widened_first(rest);
        if b[0] == LF {
            let full = seq![CR, LF] + w;
            assert(full.subrange(2, full.len() as int) =~= w);
        } else {
            let full = seq![b[0]] + w;
            assert(full.drop_first() =~= w);
        }
        assert(b =~= seq![b[0]] + rest);
    }
}

/// Text encoded for the toolkit and read back (its terminator left out) with
/// the same line endings is the text itself.
pub proof fn lemma_text_round_trip(s: Seq<char>, endings: LineEndings)
    ensures
        utf8_lossy(toolkit_decoding(toolkit_encoding(encode_utf8(s), endings), endings)) == s,
{
    if endings == LineEndings::CrLf {
        lemma_newlines_round_trip(encode_utf8(s));
    }
    encode_utf8_valid_utf8(s);
    encode_utf8_decode_utf8(s);
}

} // verus!
