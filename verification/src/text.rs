//! Text out of raw bytes: the two encodings the format's files are found in,
//! trailing-blank removal, and hexadecimal rendering of what is no text.

use encoding_rs::WINDOWS_1252;
use vstd::prelude::*;
use vstd::string::StringExecFns;
use vstd::utf8::decode_utf8;
use vstd::utf8::valid_utf8;

verus! {

/// What `encoding_rs::Encoding::decode` of `WINDOWS_1252` yields for `bytes`:
/// the decoded text, and whether a malformed sequence was replaced. The
/// decoder honours a leading byte-order mark, so the text is not simply one
/// character per byte.
pub uninterp spec fn windows_1252_decode(bytes: Seq<u8>) -> (Seq<char>, bool);

/// The longest input the Windows-1252 decoder is handed: it sizes its buffer
/// at three bytes per input byte, rounded up to a power of two.
pub open spec fn decodable_len(len: nat) -> bool {
    len <= usize::MAX / 8
}

/// `encoding_rs::WINDOWS_1252.decode`: the text and the error flag are those
/// that the outside decoder computes for these bytes. Nothing is claimed of
/// what they are. The outside function panics when its buffer size overflows
/// `usize`, which the bound on the length rules out.
#[verifier::external_body]
pub(crate) fn decode_windows_1252(bytes: &[u8]) -> (decoded: (String, bool))
    requires
        decodable_len(bytes@.len()),
    ensures
        (decoded.0@, decoded.1) == windows_1252_decode(bytes@),
{
    let (text, _, had_errors) = WINDOWS_1252.decode(bytes);
    (text.into_owned(), had_errors)
}

/// `std::str::from_utf8`: `Some` exactly for well-formed UTF-8, and then the
/// characters that the bytes encode.
#[verifier::external_body]
pub(crate) fn decode_strict_utf8(bytes: &[u8]) -> (text: Option<String>)
    ensures
        text.is_some() == valid_utf8(bytes@),
        text matches Some(t) ==> t@ == decode_utf8(bytes@),
{
    match std::str::from_utf8(bytes) {
        Ok(s) => Some(s.to_owned()),
        Err(_) => None,
    }
}

/// The characters with the Unicode property White_Space.
pub open spec fn is_white_space(c: char) -> bool {
    let v = c as u32;
    ||| 0x09 <= v <= 0x0D
    ||| v == 0x20
    ||| v == 0x85
    ||| v == 0xA0
    ||| v == 0x1680
    ||| 0x2000 <= v <= 0x200A
    ||| v == 0x2028
    ||| v == 0x2029
    ||| v == 0x202F
    ||| v == 0x205F
    ||| v == 0x3000
}

/// How many characters of `s` are left when trailing white space goes.
pub open spec fn trimmed_len(s: Seq<char>) -> nat
    decreases s.len(),
{
    if s.len() > 0 && is_white_space(s.last()) {
        trimmed_len(s.drop_last())
    } else {
        s.len()
    }
}

/// `s` without its trailing white space.
pub open spec fn trim_end(s: Seq<char>) -> Seq<char> {
    s.subrange(0, trimmed_len(s) as int)
}

/// `str::trim_end`: the text without its trailing white space, where white
/// space is the Unicode property White_Space.
#[verifier::external_body]
pub(crate) fn trim_trailing(s: &str) -> (trimmed: String)
    ensures
        trimmed@ == trim_end(s@),
{
    s.trim_end().to_owned()
}

/// The lower-case hexadecimal digit for `n`.
pub open spec fn hex_digit(n: nat) -> char
    recommends
        n < 16,
{
    if n == 0 { '0' } else if n == 1 { '1' } else if n == 2 { '2' } else if n == 3 { '3' }
    else if n == 4 { '4' } else if n == 5 { '5' } else if n == 6 { '6' } else if n == 7 { '7' }
    else if n == 8 { '8' } else if n == 9 { '9' } else if n == 10 { 'a' } else if n == 11 { 'b' }
    else if n == 12 { 'c' } else if n == 13 { 'd' } else if n == 14 { 'e' } else { 'f' }
}

/// Two lower-case hexadecimal digits per byte, high nibble first.
pub open spec fn hex_text(bytes: Seq<u8>) -> Seq<char>
    decreases bytes.len(),
{
    if bytes.len() == 0 {
        Seq::empty()
    } else {
        hex_text(bytes.drop_last()) + seq![
            hex_digit((bytes.last() / 16) as nat),
            hex_digit((bytes.last() % 16) as nat),
        ]
    }
}

pub(crate) fn hex_digit_str(n: u8) -> (digit: &'static str)
    requires
        n < 16,
    ensures
        digit@ == seq![hex_digit(n as nat)],
{
    proof {
        reveal_strlit("0");
        reveal_strlit("1");
        reveal_strlit("2");
        reveal_strlit("3");
        reveal_strlit("4");
        reveal_strlit("5");
        reveal_strlit("6");
        reveal_strlit("7");
        reveal_strlit("8");
        reveal_strlit("9");
        reveal_strlit("a");
        reveal_strlit("b");
        reveal_strlit("c");
        reveal_strlit("d");
        reveal_strlit("e");
        reveal_strlit("f");
    }
    let digit = match n {
        0 => "0",
        1 => "1",
        2 => "2",
        3 => "3",
        4 => "4",
        5 => "5",
        6 => "6",
        7 => "7",
        8 => "8",
        9 => "9",
        10 => "a",
        11 => "b",
        12 => "c",
        13 => "d",
        14 => "e",
        _ => "f",
    };
    assert(digit@ =~= seq![hex_digit(n as nat)]);
    digit
}

/// Renders `bytes` as lower-case hexadecimal text.
pub fn to_hex(bytes: &[u8]) -> (text: String)
    ensures
        text@ == hex_text(bytes@),
{
    let mut text = String::new();
    let mut i: usize = 0;
    while i < bytes.len()
        invariant
            i <= bytes@.len(),
            text@ == hex_text(bytes@.subrange(0, i as int)),
        decreases bytes@.len() - i,
    {
        let b: u8 = bytes[i];
        text.append(hex_digit_str(b / 16));
        text.append(hex_digit_str(b % 16));
        proof {
            let next = bytes@.subrange(0, i + 1);
            assert(next.drop_last() =~= bytes@.subrange(0, i as int));
            assert(next.last() == b);
            assert(text@ =~= hex_text(next));
        }
        i += 1;
    }
    assert(bytes@.subrange(0, i as int) =~= bytes@);
    text
}

/// The bytes of `bytes` before its first zero byte, all of them if it has
/// none.
pub open spec fn zero_terminated(bytes: Seq<u8>) -> Seq<u8>
    decreases bytes.len(),
{
    if bytes.len() == 0 || bytes[0] == 0 {
        Seq::empty()
    } else {
        seq![bytes[0]] + zero_terminated(bytes.subrange(1, bytes.len() as int))
    }
}

/// `zero_terminated` is the prefix that ends before the first zero byte.
pub proof fn lemma_zero_terminated(bytes: Seq<u8>, end: int)
    requires
        0 <= end <= bytes.len(),
        forall|j: int| 0 <= j < end ==> bytes[j] != 0,
        end == bytes.len() || bytes[end] == 0,
    ensures
        zero_terminated(bytes) == bytes.subrange(0, end),
    decreases bytes.len(),
{
    if bytes.len() == 0 || bytes[0] == 0 {
        assert(end == 0);
        assert(bytes.subrange(0, end) =~= Seq::<u8>::empty());
    } else {
        let rest = bytes.subrange(1, bytes.len() as int);
        assert(end >= 1);
        assert forall|j: int| 0 <= j < end - 1 implies rest[j] != 0 by {
            assert(rest[j] == bytes[j + 1]);
        }
        lemma_zero_terminated(rest, end - 1);
        assert(bytes.subrange(0, end) =~= seq![bytes[0]] + rest.subrange(0, end - 1));
    }
}

/// How many bytes of `bytes` come before its first zero byte.
pub fn zero_terminated_len(bytes: &[u8]) -> (end: usize)
    ensures
        end <= bytes@.len(),
        zero_terminated(bytes@) == bytes@.subrange(0, end as int),
        forall|j: int| 0 <= j < end ==> bytes@[j] != 0,
        end == bytes@.len() || bytes@[end as int] == 0,
{
    let mut end: usize = 0;
    while end < bytes.len() && bytes[end] != 0
        invariant
            end <= bytes@.len(),
            forall|j: int| 0 <= j < end ==> bytes@[j] != 0,
        decreases bytes@.len() - end,
    {
        end += 1;
    }
    proof {
        lemma_zero_terminated(bytes@, end as int);
    }
    end
}

/// The text of a field given both readings of its bytes: the strict UTF-8
/// reading where the Windows-1252 decoder reported errors and the bytes are
/// well-formed UTF-8, the Windows-1252 reading otherwise.
pub open spec fn preferred_reading(
    legacy: Seq<char>,
    had_errors: bool,
    utf8: Option<Seq<char>>,
) -> Seq<char> {
    match utf8 {
        Some(text) if had_errors => text,
        _ => legacy,
    }
}

/// Picks between the two readings of a field and drops trailing white space.
pub fn text_from_readings(legacy: String, had_errors: bool, utf8: Option<String>) -> (text: String)
    ensures
        text@ == trim_end(
            preferred_reading(
                legacy@,
                had_errors,
                match utf8 {
                    Some(t) => Some(t@),
                    None => None,
                },
            ),
        ),
{
    match utf8 {
        Some(t) if had_errors => trim_trailing(t.as_str()),
        _ => trim_trailing(legacy.as_str()),
    }
}

/// The text that a run of bytes stands for: nothing for an empty run, else
/// the preferred reading of the bytes without trailing white space.
pub open spec fn text_of(bytes: Seq<u8>) -> Seq<char> {
    if bytes.len() == 0 {
        Seq::empty()
    } else {
        trim_end(
            preferred_reading(
                windows_1252_decode(bytes).0,
                windows_1252_decode(bytes).1,
                if valid_utf8(bytes) {
                    Some(decode_utf8(bytes))
                } else {
                    None
                },
            ),
        )
    }
}

/// Decodes a run of bytes as text, Windows-1252 first and strict UTF-8 where
/// that reading had errors.
pub fn decode_text(bytes: &[u8]) -> (text: String)
    requires
        decodable_len(bytes@.len()),
    ensures
        text@ == text_of(bytes@),
{
    if bytes.len() == 0 {
        String::new()
    } else {
        let (legacy, had_errors) = decode_windows_1252(bytes);
        let utf8 = if had_errors {
            decode_strict_utf8(bytes)
        } else {
            None
        };
        text_from_readings(legacy, had_errors, utf8)
    }
}

/// The text of a blob: its strict UTF-8 reading where it has one, else its
/// Windows-1252 reading, which every run of bytes has. `None` only for a
/// blob that is no UTF-8 and too long for the Windows-1252 decoder.
pub open spec fn blob_text(data: Seq<u8>) -> Option<Seq<char>> {
    if valid_utf8(data) {
        Some(decode_utf8(data))
    } else if decodable_len(data.len()) {
        Some(windows_1252_decode(data).0)
    } else {
        None
    }
}

/// Decodes a blob as text, UTF-8 first and Windows-1252 where it is none.
pub fn decode_blob(data: &[u8]) -> (text: Option<String>)
    ensures
        (match text {
            Some(t) => Some(t@),
            None => None,
        }) == blob_text(data@),
{
    match decode_strict_utf8(data) {
        Some(text) => Some(text),
        None => {
            if data.len() <= usize::MAX / 8 {
                let (text, _) = decode_windows_1252(data);
                Some(text)
            } else {
                None
            }
        },
    }
}

/// `String::push`: the text with one more character at its end.
#[verifier::external_body]
pub(crate) fn push_char(text: &mut String, c: char)
    ensures
        final(text)@ == old(text)@.push(c),
{
    text.push(c)
}

/// The character that a byte is shown as in a dump: itself where it is
/// printable ASCII, a dot otherwise.
pub open spec fn shown_char(b: u8) -> char {
    if 32 <= b < 127 {
        b as char
    } else {
        '.'
    }
}

/// The bytes of a run as the characters a dump shows them as.
pub open spec fn shown_text(bytes: Seq<u8>) -> Seq<char> {
    Seq::new(bytes.len(), |i: int| shown_char(bytes[i]))
}

/// The bytes of a run in hexadecimal, two digits each, with a space
/// between one byte and the next.
pub open spec fn spaced_hex(bytes: Seq<u8>) -> Seq<char>
    decreases bytes.len(),
{
    if bytes.len() == 0 {
        Seq::empty()
    } else if bytes.len() == 1 {
        hex_text(bytes)
    } else {
        spaced_hex(bytes.drop_last()) + seq![' '] + hex_text(seq![bytes.last()])
    }
}

/// A number below 65536 in four hexadecimal digits.
pub open spec fn hex_word(n: nat) -> Seq<char> {
    seq![
        hex_digit(n / 4096 % 16),
        hex_digit(n / 256 % 16),
        hex_digit(n / 16 % 16),
        hex_digit(n % 16),
    ]
}

/// One line of a dump: the offset of the line, its 16 bytes in hexadecimal
/// in a column of 48 characters, and the bytes as characters between bars.
pub open spec fn dump_line(chunk: Seq<u8>, offset: nat) -> Seq<char> {
    hex_word(offset) + ": "@ + spaced_hex(chunk) + "  |"@ + shown_text(chunk) + "|\n"@
}

/// The dump of the first 64 bytes of a file: a title, then four lines of
/// 16 bytes.
pub open spec fn header_dump(bytes: Seq<u8>) -> Seq<char>
    recommends
        bytes.len() >= 64,
{
    "Header (64 premiers bytes):\n"@ + dump_line(bytes.subrange(0, 16), 0) + dump_line(
        bytes.subrange(16, 32),
        16,
    ) + dump_line(bytes.subrange(32, 48), 32) + dump_line(bytes.subrange(48, 64), 48)
}

fn append_dump_line(text: &mut String, chunk: &[u8], offset: u16)
    requires
        chunk@.len() == 16,
    ensures
        final(text)@ == old(text)@ + dump_line(chunk@, offset as nat),
{
    let ghost start = text@;
    text.append(hex_digit_str((offset / 4096 % 16) as u8));
    text.append(hex_digit_str((offset / 256 % 16) as u8));
    text.append(hex_digit_str((offset / 16 % 16) as u8));
    text.append(hex_digit_str((offset % 16) as u8));
    text.append(": ");
    assert(text@ =~= start + hex_word(offset as nat) + ": "@);
    let ghost before_hex = text@;
    let mut i: usize = 0;
    while i < 16
        invariant
            i <= 16,
            chunk@.len() == 16,
            text@ == before_hex + spaced_hex(chunk@.subrange(0, i as int)),
        decreases 16 - i,
    {
        let b: u8 = chunk[i];
        let ghost so_far = chunk@.subrange(0, i as int);
        let ghost next = chunk@.subrange(0, i + 1);
        if i > 0 {
            text.append(" ");
        }
        text.append(hex_digit_str(b / 16));
        text.append(hex_digit_str(b % 16));
        proof {
            reveal_strlit(" ");
            reveal_with_fuel(hex_text, 2);
            assert(next.drop_last() =~= so_far);
            assert(next.last() == b);
            assert(seq![b].drop_last() =~= Seq::<u8>::empty());
            assert(hex_text(seq![b]) =~= seq![
                hex_digit((b / 16) as nat),
                hex_digit((b % 16) as nat),
            ]);
            if i == 0 {
                assert(next =~= seq![b]);
                assert(so_far =~= Seq::<u8>::empty());
                assert(text@ =~= before_hex + spaced_hex(next));
            } else {
                assert(text@ =~= before_hex + spaced_hex(next));
            }
        }
        i += 1;
    }
    assert(chunk@.subrange(0, 16) =~= chunk@);
    text.append("  |");
    let ghost before_shown = text@;
    let mut k: usize = 0;
    while k < 16
        invariant
            k <= 16,
            chunk@.len() == 16,
            text@ == before_shown + shown_text(chunk@).subrange(0, k as int),
        decreases 16 - k,
    {
        let b: u8 = chunk[k];
        let c: char = if 32 <= b && b < 127 {
            b as char
        } else {
            '.'
        };
        push_char(text, c);
        assert(text@ =~= before_shown + shown_text(chunk@).subrange(0, k + 1));
        k += 1;
    }
    assert(shown_text(chunk@).subrange(0, 16) =~= shown_text(chunk@));
    text.append("|\n");
    assert(text@ =~= start + dump_line(chunk@, offset as nat));
}

/// Dumps the first 64 bytes of a file in hexadecimal and as characters.
pub fn dump_header(bytes: &[u8]) -> (text: String)
    requires
        bytes@.len() >= 64,
    ensures
        text@ == header_dump(bytes@),
{
    let mut text = String::from_str("Header (64 premiers bytes):\n");
    append_dump_line(&mut text, vstd::slice::slice_subrange(bytes, 0, 16), 0);
    append_dump_line(&mut text, vstd::slice::slice_subrange(bytes, 16, 32), 16);
    append_dump_line(&mut text, vstd::slice::slice_subrange(bytes, 32, 48), 32);
    append_dump_line(&mut text, vstd::slice::slice_subrange(bytes, 48, 64), 48);
    assert(text@ =~= header_dump(bytes@));
    text
}

} // verus!
