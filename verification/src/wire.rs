//! The byte-level building blocks of the two wire formats: length-prefixed
//! UTF-8 strings and little-endian integers.
//!
//! Every reader takes the bytes that are still unread and says how many of
//! them it used, so that readers compose by skipping.

use vstd::bytes::*;
use vstd::prelude::*;
use vstd::slice::*;
use vstd::utf8::*;

verus! {

/// Whether the text can be written at all: its UTF-8 form must have a length
/// that the four-byte prefix can hold.
pub open spec fn encodable(s: Seq<char>) -> bool {
    encode_utf8(s).len() <= u32::MAX
}

/// A string on the wire: the byte length of its UTF-8 form as four
/// little-endian bytes, then that form.
pub open spec fn string_bytes(s: Seq<char>) -> Seq<u8> {
    spec_u32_to_le_bytes(encode_utf8(s).len() as u32) + encode_utf8(s)
}

/// Reads a string from the front of `b`: the text and the number of bytes it
/// took, or `None` where the prefix is cut short, announces more bytes than
/// follow, or the bytes are not UTF-8.
pub open spec fn parse_string(b: Seq<u8>) -> Option<(Seq<char>, int)> {
    if b.len() < 4 {
        None
    } else {
        let n = spec_u32_from_le_bytes(b.subrange(0, 4)) as int;
        if b.len() - 4 < n || !valid_utf8(b.subrange(4, 4 + n)) {
            None
        } else {
            Some((decode_utf8(b.subrange(4, 4 + n)), 4 + n))
        }
    }
}

/// Reads eight little-endian bytes from the front of `b`.
pub open spec fn parse_u64(b: Seq<u8>) -> Option<(u64, int)> {
    if b.len() < 8 {
        None
    } else {
        Some((spec_u64_from_le_bytes(b.subrange(0, 8)), 8))
    }
}

/// The three fields that a create or update request and a stored note share.
pub struct Fields {
    pub title: Seq<char>,
    pub body: Seq<char>,
    pub id: u64,
}

impl Fields {
    /// Both texts fit their length prefixes.
    pub open spec fn encodable(self) -> bool {
        encodable(self.title) && encodable(self.body)
    }
}

/// The three fields on the wire: title, body, then the id as eight
/// little-endian bytes.
pub open spec fn fields_bytes(f: Fields) -> Seq<u8> {
    string_bytes(f.title) + string_bytes(f.body) + spec_u64_to_le_bytes(f.id)
}

/// Reads the three fields from the front of `b`.
pub open spec fn parse_fields(b: Seq<u8>) -> Option<(Fields, int)> {
    match parse_string(b) {
        None => None,
        Some((title, n1)) => match parse_string(b.skip(n1)) {
            None => None,
            Some((body, n2)) => match parse_u64(b.skip(n1 + n2)) {
                None => None,
                Some((id, n3)) => Some((Fields { title, body, id }, n1 + n2 + n3)),
            },
        },
    }
}

/// Calls `String::from_utf8`, which hands the bytes back as a string exactly
/// where they are valid UTF-8; the string then holds the characters that the
/// bytes encode.
#[verifier::external_body]
fn string_from_utf8(bytes: Vec<u8>) -> (r: Option<String>)
    ensures
        r.is_some() == valid_utf8(bytes@),
        r matches Some(s) ==> s@ == decode_utf8(bytes@),
{
    String::from_utf8(bytes).ok()
}

/// Appends `src` to `out`.
pub fn push_all(out: &mut Vec<u8>, src: &[u8])
    ensures
        final(out)@ == old(out)@ + src@,
{
    let mut i: usize = 0;
    while i < src.len()
        invariant
            i <= src@.len(),
            out@ == old(out)@ + src@.subrange(0, i as int),
        decreases src@.len() - i,
    {
        out.push(src[i]);
        i += 1;
        assert(out@ =~= old(out)@ + src@.subrange(0, i as int));
    }
    assert(src@.subrange(0, i as int) =~= src@);
}

/// Reads a string at `pos`. Gives the string and the position after it;
/// nothing can be read at a position behind the end.
pub fn read_string(buf: &[u8], pos: usize) -> (r: Option<(String, usize)>)
    ensures
        pos > buf@.len() ==> r is None,
        pos <= buf@.len() ==> match parse_string(buf@.skip(pos as int)) {
            Some((s, n)) => r matches Some((text, next)) && text@ == s && next == pos + n,
            None => r is None,
        },
{
    let ghost rest = buf@.skip(pos as int);
    if pos > buf.len() || buf.len() - pos < 4 {
        return None;
    }
    let prefix = slice_subrange(buf, pos, pos + 4);
    assert(prefix@ =~= rest.subrange(0, 4));
    let n: u32 = u32_from_le_bytes(prefix);
    let n: usize = n as usize;
    if buf.len() - pos - 4 < n {
        return None;
    }
    let raw = slice_to_vec(slice_subrange(buf, pos + 4, pos + 4 + n));
    assert(raw@ =~= rest.subrange(4, 4 + n));
    match string_from_utf8(raw) {
        Some(text) => Some((text, pos + 4 + n)),
        None => None,
    }
}

/// Reads eight little-endian bytes at `pos`.
pub fn read_u64(buf: &[u8], pos: usize) -> (r: Option<(u64, usize)>)
    ensures
        pos > buf@.len() ==> r is None,
        pos <= buf@.len() ==> match parse_u64(buf@.skip(pos as int)) {
            Some((v, n)) => r matches Some((x, next)) && x == v && next == pos + n,
            None => r is None,
        },
{
    if pos > buf.len() || buf.len() - pos < 8 {
        return None;
    }
    let word = slice_subrange(buf, pos, pos + 8);
    assert(word@ =~= buf@.skip(pos as int).subrange(0, 8));
    Some((u64_from_le_bytes(word), pos + 8))
}

/// Appends the wire form of `s` to `out`; refuses, and leaves `out` as it
/// was, where the text is too long for its prefix.
pub fn write_string(out: &mut Vec<u8>, s: &String) -> (ok: bool)
    ensures
        ok == encodable(s@),
        ok ==> final(out)@ == old(out)@ + string_bytes(s@),
        !ok ==> final(out)@ == old(out)@,
{
    let raw = s.as_str().as_bytes();
    if raw.len() > 0xffff_ffff {
        return false;
    }
    let prefix = u32_to_le_bytes(raw.len() as u32);
    push_all(out, prefix.as_slice());
    push_all(out, raw);
    assert(out@ =~= old(out)@ + string_bytes(s@));
    true
}

/// Reads the three fields at `pos`. Gives them and the position after them.
pub fn read_fields(buf: &[u8], pos: usize) -> (r: Option<(String, String, u64, usize)>)
    ensures
        pos > buf@.len() ==> r is None,
        pos <= buf@.len() ==> match parse_fields(buf@.skip(pos as int)) {
            Some((f, n)) => r matches Some((title, body, id, next)) && title@ == f.title && body@
                == f.body && id == f.id && next == pos + n,
            None => r is None,
        },
{
    let ghost rest = buf@.skip(pos as int);
    match read_string(buf, pos) {
        None => None,
        Some((title, after_title)) => {
            assert(rest.skip(after_title - pos) =~= buf@.skip(after_title as int));
            match read_string(buf, after_title) {
                None => None,
                Some((body, after_body)) => {
                    assert(rest.skip(after_body - pos) =~= buf@.skip(after_body as int));
                    match read_u64(buf, after_body) {
                        Some((id, next)) => Some((title, body, id, next)),
                        None => None,
                    }
                },
            }
        },
    }
}

/// Appends the wire form of the three fields to `out`; refuses, and leaves
/// `out` as it was, where one of the texts is too long for its prefix.
pub fn write_fields(out: &mut Vec<u8>, title: &String, body: &String, id: u64) -> (ok: bool)
    ensures
        ok == (encodable(title@) && encodable(body@)),
        ok ==> final(out)@ == old(out)@ + fields_bytes(Fields { title: title@, body: body@, id }),
        !ok ==> final(out)@ == old(out)@,
{
    if title.as_str().as_bytes().len() > 0xffff_ffff || body.as_str().as_bytes().len()
        > 0xffff_ffff {
        return false;
    }
    write_string(out, title);
    write_string(out, body);
    let word = u64_to_le_bytes(id);
    push_all(out, word.as_slice());
    assert(out@ =~= old(out)@ + fields_bytes(Fields { title: title@, body: body@, id }));
    true
}

/// UTF-8 spends between one and four bytes on a character.
pub proof fn lemma_encoded_len(s: Seq<char>)
    ensures
        s.len() <= encode_utf8(s).len() <= 4 * s.len(),
    decreases s.len(),
{
    if s.len() > 0 {
        lemma_encoded_len(s.drop_first());
    }
}

/// A string that was written is read back, whatever follows it.
pub proof fn lemma_parse_string_bytes(s: Seq<char>, rest: Seq<u8>)
    requires
        encodable(s),
    ensures
        parse_string(string_bytes(s) + rest) == Some((s, string_bytes(s).len() as int)),
        string_bytes(s).len() == 4 + encode_utf8(s).len(),
{
    broadcast use encode_utf8_valid_utf8, encode_utf8_decode_utf8;

    lemma_auto_spec_u32_to_from_le_bytes();
    let raw = encode_utf8(s);
    let prefix = spec_u32_to_le_bytes(raw.len() as u32);
    let b = string_bytes(s) + rest;
    assert(prefix.len() == 4);
    assert(b.subrange(0, 4) =~= prefix);
    assert(b.subrange(4, 4 + raw.len() as int) =~= raw);
}

/// An integer that was written is read back, whatever follows it.
pub proof fn lemma_parse_u64_bytes(v: u64, rest: Seq<u8>)
    ensures
        parse_u64(spec_u64_to_le_bytes(v) + rest) == Some((v, 8int)),
        spec_u64_to_le_bytes(v).len() == 8,
{
    lemma_auto_spec_u64_to_from_le_bytes();
    let b = spec_u64_to_le_bytes(v) + rest;
    assert(b.subrange(0, 8) =~= spec_u64_to_le_bytes(v));
}

/// The three fields that were written are read back, whatever follows them.
pub proof fn lemma_parse_fields_bytes(f: Fields, rest: Seq<u8>)
    requires
        encodable(f.title),
        encodable(f.body),
    ensures
        parse_fields(fields_bytes(f) + rest) == Some((f, fields_bytes(f).len() as int)),
        fields_bytes(f).len() == 16 + encode_utf8(f.title).len() + encode_utf8(f.body).len(),
{
    let t = string_bytes(f.title);
    let b = string_bytes(f.body);
    let i = spec_u64_to_le_bytes(f.id);
    let all = fields_bytes(f) + rest;
    lemma_parse_string_bytes(f.title, b + i + rest);
    assert(all =~= t + (b + i + rest));
    lemma_parse_string_bytes(f.body, i + rest);
    assert(all.skip(t.len() as int) =~= b + (i + rest));
    lemma_parse_u64_bytes(f.id, rest);
    assert(all.skip((t.len() + b.len()) as int) =~= i + rest);
}

/// What was read as a string is, byte for byte, the wire form of that string.
pub proof fn lemma_string_bytes_of_parse(b: Seq<u8>)
    requires
        parse_string(b) is Some,
    ensures
        ({
            let (s, n) = parse_string(b)->Some_0;
            &&& 4 <= n <= b.len()
            &&& encodable(s)
            &&& string_bytes(s) == b.subrange(0, n)
        }),
{
    broadcast use decode_utf8_encode_utf8;

    lemma_auto_spec_u32_to_from_le_bytes();
    let (s, n) = parse_string(b)->Some_0;
    let prefix = b.subrange(0, 4);
    let raw = b.subrange(4, n);
    assert(encode_utf8(s) == raw);
    assert(spec_u32_to_le_bytes(spec_u32_from_le_bytes(prefix)) == prefix);
    assert(string_bytes(s) =~= b.subrange(0, n));
}

/// What was read as an integer is, byte for byte, the wire form of it.
pub proof fn lemma_u64_bytes_of_parse(b: Seq<u8>)
    requires
        parse_u64(b) is Some,
    ensures
        spec_u64_to_le_bytes(parse_u64(b)->Some_0.0) == b.subrange(0, 8),
{
    lemma_auto_spec_u64_to_from_le_bytes();
    let word = b.subrange(0, 8);
    assert(spec_u64_to_le_bytes(spec_u64_from_le_bytes(word)) == word);
}

/// What was read as the three fields is, byte for byte, their wire form.
pub proof fn lemma_fields_bytes_of_parse(b: Seq<u8>)
    requires
        parse_fields(b) is Some,
    ensures
        ({
            let (f, n) = parse_fields(b)->Some_0;
            &&& 16 <= n <= b.len()
            &&& encodable(f.title)
            &&& encodable(f.body)
            &&& fields_bytes(f) == b.subrange(0, n)
        }),
{
    let (f, n) = parse_fields(b)->Some_0;
    let (title, n1) = parse_string(b)->Some_0;
    lemma_string_bytes_of_parse(b);
    let (body, n2) = parse_string(b.skip(n1))->Some_0;
    lemma_string_bytes_of_parse(b.skip(n1));
    lemma_u64_bytes_of_parse(b.skip(n1 + n2));
    assert(b.skip(n1).subrange(0, n2) =~= b.subrange(n1, n1 + n2));
    assert(b.skip(n1 + n2).subrange(0, 8) =~= b.subrange(n1 + n2, n));
    assert(fields_bytes(f) =~= b.subrange(0, n));
}

} // verus!
