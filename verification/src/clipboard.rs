//! Clipboard redirection of text.
//!
//! Text that is copied on one side is offered to the other, which asks for it
//! when it is pasted. Reading and writing the local clipboard is done by the
//! caller.
use crate::text::{decode_lossy, lossy_text};
use ironrdp_cliprdr::pdu::FormatDataResponse;
use vstd::prelude::*;

verus! {

/// The clipboard format of Unicode text.
pub const CF_UNICODETEXT: u32 = 13;

/// The UTF-16 code units of a character.
pub open spec fn char_units(c: char) -> Seq<u16> {
    let n = c as int;
    if n < 0x10000 {
        seq![n as u16]
    } else {
        seq![
            (0xD800 + (n - 0x10000) / 0x400) as u16,
            (0xDC00 + (n - 0x10000) % 0x400) as u16,
        ]
    }
}

/// A text in UTF-16.
pub open spec fn utf16(s: Seq<char>) -> Seq<u16>
    decreases s.len(),
{
    if s.len() == 0 {
        seq![]
    } else {
        char_units(s[0]) + utf16(s.drop_first())
    }
}

/// Code units in little-endian byte order.
pub open spec fn unit_bytes(units: Seq<u16>) -> Seq<u8> {
    Seq::new(
        2 * units.len(),
        |i: int|
            if i % 2 == 0 {
                (units[i / 2] % 256) as u8
            } else {
                (units[i / 2] / 256) as u8
            },
    )
}

/// The code units in bytes of little-endian order. An odd byte at the end is
/// left out.
pub open spec fn units_of(bytes: Seq<u8>) -> Seq<u16> {
    Seq::new(
        bytes.len() / 2,
        |i: int| (bytes[2 * i] as int + 256 * bytes[2 * i + 1] as int) as u16,
    )
}

/// The code units before the first zero.
pub open spec fn before_zero(units: Seq<u16>) -> Seq<u16>
    decreases units.len(),
{
    if units.len() == 0 || units[0] == 0 {
        seq![]
    } else {
        seq![units[0]] + before_zero(units.drop_first())
    }
}

/// The text before the first null character.
pub open spec fn before_null(s: Seq<char>) -> Seq<char>
    decreases s.len(),
{
    if s.len() == 0 || s[0] == '\0' {
        seq![]
    } else {
        seq![s[0]] + before_null(s.drop_first())
    }
}

/// Text as it is sent: UTF-16 with a null character at the end.
pub open spec fn sent(s: Seq<char>) -> Seq<u8> {
    unit_bytes(utf16(s)) + seq![0u8, 0u8]
}

/// The data is the text in UTF-16, up to the first null character in it.
pub open spec fn holds_text(data: Seq<u8>, s: Seq<char>) -> bool {
    utf16(s) == before_zero(units_of(data))
}

/// The text that the data holds, if what is in it is UTF-16.
pub open spec fn received(data: Seq<u8>) -> Option<Seq<char>> {
    if exists|s: Seq<char>| holds_text(data, s) {
        Some(choose|s: Seq<char>| holds_text(data, s))
    } else {
        None
    }
}

/// `FormatDataResponse::new_unicode_string`: the data of the response is the
/// text in UTF-16, little-endian, with two zero bytes at the end.
#[verifier::external_body]
pub(crate) fn encode_unicode_string(text: &str) -> (data: Vec<u8>)
    ensures
        data@ == sent(text@),
{
    FormatDataResponse::new_unicode_string(text).into_data().into_owned()
}

/// `FormatDataResponse::to_unicode_string`: reads UTF-16, little-endian, up to
/// the first null character, or all whole code units where there is none. It
/// fails exactly where these are not UTF-16.
#[verifier::external_body]
pub(crate) fn decode_unicode_string(data: &[u8]) -> (r: Option<String>)
    ensures
        r matches Some(s) ==> holds_text(data@, s@),
        r is None ==> forall|s: Seq<char>| !#[trigger] holds_text(data@, s),
{
    FormatDataResponse::new_data(data).to_unicode_string().ok()
}

/// Two characters with the same code units, whatever follows, are the same.
proof fn lemma_char_units_prefix(a: char, b: char, x: Seq<u16>, y: Seq<u16>)
    requires
        char_units(a) + x == char_units(b) + y,
    ensures
        a == b,
        x == y,
{
    let u = char_units(a) + x;
    let v = char_units(b) + y;
    assert(u[0] == v[0]);
    assert(u[0] == char_units(a)[0] && v[0] == char_units(b)[0]);
    if (a as int) >= 0x10000 {
        assert(u[1] == v[1]);
        assert(u[1] == char_units(a)[1]);
        assert((b as int) >= 0x10000);
        assert(v[1] == char_units(b)[1]);
        let m = a as int - 0x10000;
        let n = b as int - 0x10000;
        assert(m / 0x400 == n / 0x400);
        assert(m % 0x400 == n % 0x400);
        assert(a as int == b as int);
    } else {
        assert(!((b as int) >= 0x10000));
    }
    let k = char_units(a).len() as int;
    assert(u.skip(k) =~= x);
    assert(v.skip(k) =~= y);
}

/// A text is determined by its UTF-16 code units.
pub proof fn law_utf16_is_injective(s: Seq<char>, t: Seq<char>)
    requires
        utf16(s) == utf16(t),
    ensures
        s == t,
    decreases s.len(),
{
    if s.len() == 0 {
        assert(utf16(s).len() == 0);
        if t.len() > 0 {
            assert(utf16(t).len() == char_units(t[0]).len() + utf16(t.drop_first()).len());
        }
        assert(s =~= t);
    } else if t.len() == 0 {
        assert(utf16(s).len() == char_units(s[0]).len() + utf16(s.drop_first()).len());
        assert(false);
    } else {
        lemma_char_units_prefix(s[0], t[0], utf16(s.drop_first()), utf16(t.drop_first()));
        law_utf16_is_injective(s.drop_first(), t.drop_first());
        assert(s =~= seq![s[0]] + s.drop_first());
        assert(t =~= seq![t[0]] + t.drop_first());
    }
}

/// The code units in what is sent.
proof fn lemma_units_sent(units: Seq<u16>)
    ensures
        units_of(unit_bytes(units) + seq![0u8, 0u8]) == units.push(0),
{
    let bytes = unit_bytes(units) + seq![0u8, 0u8];
    let got = units_of(bytes);
    assert(bytes.len() == 2 * units.len() + 2);
    assert(got.len() == units.len() + 1);
    assert forall|i: int| 0 <= i < got.len() implies got[i] == units.push(0)[i] by {
        if i < units.len() {
            let u = units[i];
            assert((2 * i) % 2 == 0 && (2 * i) / 2 == i);
            assert((2 * i + 1) % 2 == 1 && (2 * i + 1) / 2 == i);
            assert(bytes[2 * i] == (u % 256) as u8);
            assert(bytes[2 * i + 1] == (u / 256) as u8);
            assert((u % 256) as int + 256 * (u / 256) as int == u);
        } else {
            assert(bytes[2 * i] == 0 && bytes[2 * i + 1] == 0);
        }
    }
    assert(got =~= units.push(0));
}

/// Only the null character has a code unit of zero.
proof fn lemma_before_zero_char(c: char, x: Seq<u16>)
    ensures
        before_zero(char_units(c) + x) == (if c == '\0' {
            seq![]
        } else {
            char_units(c) + before_zero(x)
        }),
{
    let u = char_units(c) + x;
    assert(u[0] == char_units(c)[0]);
    if c == '\0' {
    } else if (c as int) < 0x10000 {
        assert(u.drop_first() =~= x);
        assert(before_zero(u) =~= char_units(c) + before_zero(x));
    } else {
        let n = c as int - 0x10000;
        assert(0 <= n / 0x400 < 0x400 && 0 <= n % 0x400 < 0x400);
        let v = u.drop_first();
        assert(v[0] == char_units(c)[1]);
        assert(v.drop_first() =~= x);
        assert(before_zero(v) =~= seq![char_units(c)[1]] + before_zero(x));
        assert(before_zero(u) =~= char_units(c) + before_zero(x));
    }
}

/// A null character ends the text, and nothing else does.
proof fn lemma_before_zero(s: Seq<char>)
    ensures
        before_zero(utf16(s).push(0)) == utf16(before_null(s)),
    decreases s.len(),
{
    if s.len() == 0 {
        assert(utf16(s).push(0)[0] == 0);
        assert(utf16(before_null(s)) =~= seq![]);
    } else {
        let c = s[0];
        let rest = s.drop_first();
        assert(utf16(s).push(0) =~= char_units(c) + utf16(rest).push(0));
        lemma_before_zero_char(c, utf16(rest).push(0));
        if c == '\0' {
            assert(utf16(before_null(s)) =~= seq![]);
        } else {
            lemma_before_zero(rest);
            let kept = before_null(s);
            assert(kept[0] == c);
            assert(kept.drop_first() =~= before_null(rest));
        }
    }
}

/// Text that is sent is received, up to its first null character.
pub proof fn law_sent_text_is_received(s: Seq<char>)
    ensures
        received(sent(s)) == Some(before_null(s)),
        s.contains('\0') || before_null(s) == s,
{
    lemma_units_sent(utf16(s));
    lemma_before_zero(s);
    assert(holds_text(sent(s), before_null(s)));
    let t = choose|t: Seq<char>| holds_text(sent(s), t);
    law_utf16_is_injective(t, before_null(s));
    lemma_before_null_whole(s);
}

proof fn lemma_before_null_whole(s: Seq<char>)
    ensures
        s.contains('\0') || before_null(s) == s,
    decreases s.len(),
{
    if s.len() == 0 {
        assert(before_null(s) =~= s);
    } else if s[0] != '\0' {
        let rest = s.drop_first();
        lemma_before_null_whole(rest);
        if rest.contains('\0') {
            let i = choose|i: int| 0 <= i < rest.len() && rest[i] == '\0';
            assert(s[i + 1] == '\0');
        } else {
            assert(before_null(s) =~= s);
        }
    }
}

/// The answer to a request for the clipboard.
#[derive(Debug)]
pub enum FormatData {
    /// There is nothing in the format.
    Error,
    Data(Vec<u8>),
}

/// The text on the local clipboard from what the program that reads it printed;
/// `None` where the program failed.
pub fn read_mac_clipboard(success: bool, stdout: &[u8]) -> (text: Option<String>)
    ensures
        match text {
            Some(s) => success && s@ == lossy_text(stdout@),
            None => !success,
        },
{
    if success {
        Some(decode_lossy(stdout))
    } else {
        None
    }
}

/// The text on a clipboard that may not have been readable.
pub open spec fn clipboard_text(text: Option<String>) -> Seq<char> {
    match text {
        Some(s) => s@,
        None => seq![],
    }
}

/// Text on the local clipboard is offered to the client where it is new.
pub open spec fn offers(known: Seq<char>, current: Seq<char>) -> bool {
    current != known && current.len() > 0
}

/// The clipboard of a connection.
#[derive(Debug)]
pub struct MacClipboardBackend {
    /// The text that was last seen or written on the local clipboard, so that
    /// what comes from the client is not offered back to it.
    pub known_clipboard: String,
}

impl MacClipboardBackend {
    /// The clipboard when a connection starts.
    pub fn new(text: Option<String>) -> (b: Self)
        ensures
            b.known_clipboard@ == clipboard_text(text),
    {
        match text {
            Some(s) => MacClipboardBackend { known_clipboard: s },
            None => MacClipboardBackend { known_clipboard: String::new() },
        }
    }

    /// Whether to offer the local clipboard to the client.
    pub fn advertise_local_clipboard(&self, text: &Option<String>) -> (offer: bool)
        ensures
            offer == (clipboard_text(*text).len() > 0),
    {
        match text {
            Some(s) => !s.as_str().is_empty(),
            None => false,
        }
    }

    /// Whether to ask for what was copied on the client: only for text.
    pub fn on_remote_copy(&self, available_formats: &Vec<u32>) -> (paste: bool)
        ensures
            paste == available_formats@.contains(CF_UNICODETEXT),
    {
        let mut i: usize = 0;
        while i < available_formats.len()
            invariant
                i <= available_formats@.len(),
                forall|j: int| 0 <= j < i ==> available_formats@[j] != CF_UNICODETEXT,
            decreases available_formats@.len() - i,
        {
            if available_formats[i] == CF_UNICODETEXT {
                return true;
            }
            i += 1;
        }
        false
    }

    /// Whether the local clipboard has to be read to answer a request.
    pub fn reads_clipboard(&self, format: u32) -> (read: bool)
        ensures
            read == (format == CF_UNICODETEXT),
    {
        format == CF_UNICODETEXT
    }

    /// The answer to a request of the client for data in a format, where the
    /// local clipboard holds the given text.
    pub fn on_format_data_request(&self, format: u32, text: &Option<String>) -> (r: FormatData)
        ensures
            match r {
                FormatData::Data(data) => format == CF_UNICODETEXT && (text matches Some(s)
                    && data@ == sent(s@)),
                FormatData::Error => format != CF_UNICODETEXT || text is None,
            },
    {
        if format != CF_UNICODETEXT {
            return FormatData::Error;
        }
        match text {
            Some(s) => FormatData::Data(encode_unicode_string(s.as_str())),
            None => FormatData::Error,
        }
    }

    /// The text that an answer of the client puts on the local clipboard.
    pub fn on_format_data_response(&mut self, is_error: bool, data: &[u8]) -> (text: Option<String>)
        ensures
            ({
                let got = if is_error {
                    None
                } else {
                    received(data@)
                };
                match text {
                    Some(s) => {
                        &&& got == Some(s@)
                        &&& s@.len() > 0
                        &&& final(self).known_clipboard@ == s@
                    },
                    None => {
                        &&& got is None || got == Some(Seq::<char>::empty())
                        &&& final(self).known_clipboard == old(self).known_clipboard
                    },
                }
            }),
    {
        if is_error {
            return None;
        }
        match decode_unicode_string(data) {
            Some(text) => {
                proof {
                    law_received_text_is_unique(data@, text@);
                }
                if text.as_str().is_empty() {
                    assert(text@ =~= seq![]);
                    None
                } else {
                    // Suppress the inevitable poll echo.
                    self.known_clipboard = text.clone();
                    Some(text)
                }
            },
            None => None,
        }
    }

    /// Whether the local clipboard has new text to offer to the client.
    pub fn poll(&mut self, text: Option<String>) -> (offer: bool)
        ensures
            offer == offers(old(self).known_clipboard@, clipboard_text(text)),
            offer == (text matches Some(current) && current@.len() > 0 && current@ != old(
                self,
            ).known_clipboard@),
            final(self).known_clipboard@ == (if offer {
                clipboard_text(text)
            } else {
                old(self).known_clipboard@
            }),
    {
        match text {
            Some(current) => {
                if current != self.known_clipboard && !current.as_str().is_empty() {
                    self.known_clipboard = current;
                    true
                } else {
                    false
                }
            },
            None => false,
        }
    }
}

/// Text that is known, because it came from the client or was offered to it,
/// is not offered.
pub proof fn law_known_text_is_not_offered(known: Seq<char>)
    ensures
        !offers(known, known),
{
}

/// Any text on the local clipboard that is not empty and is not the known text
/// is offered: where nothing is offered the clipboard is empty, was not
/// readable or holds the known text, character by character.
pub proof fn law_new_text_is_offered(known: Seq<char>, text: Option<String>)
    ensures
        offers(known, clipboard_text(text)) || match text {
            Some(current) => current@.len() == 0 || (current@.len() == known.len() && forall|i: int|
                0 <= i < known.len() ==> current@[i] == known[i]),
            None => true,
        },
        offers(known, clipboard_text(text)) ==> (text matches Some(current) && current@.len() > 0
            && current@ != known),
{
}

/// Text that was received is the only text that the data holds.
pub proof fn law_received_text_is_unique(data: Seq<u8>, s: Seq<char>)
    requires
        holds_text(data, s),
    ensures
        received(data) == Some(s),
{
    let t = choose|t: Seq<char>| holds_text(data, t);
    law_utf16_is_injective(t, s);
}

/// A clipboard that could not be read counts as empty; any other has its text.
pub proof fn law_clipboard_text(text: Option<String>)
    ensures
        text is None ==> clipboard_text(text).len() == 0,
        text matches Some(s) ==> clipboard_text(text) == s@,
{
}

/// What is received of a text that holds a null character is all that stands
/// before the first one.
pub proof fn law_text_ends_at_null(a: Seq<char>, b: Seq<char>)
    requires
        !a.contains('\0'),
    ensures
        before_null(a.push('\0') + b) == a,
        received(sent(a.push('\0') + b)) == Some(a),
    decreases a.len(),
{
    let s = a.push('\0') + b;
    law_sent_text_is_received(s);
    if a.len() == 0 {
        assert(s[0] == '\0');
        assert(before_null(s) =~= a);
    } else {
        let rest = a.drop_first();
        assert(s.drop_first() =~= rest.push('\0') + b);
        assert(s[0] == a[0]);
        assert(a.contains(a[0]));
        assert forall|i: int| 0 <= i < rest.len() implies rest[i] != '\0' by {
            assert(a[i + 1] == rest[i]);
            assert(a.contains(a[i + 1]));
        }
        law_text_ends_at_null(rest, b);
        assert(before_null(s) =~= a);
    }
}

} // verus!
