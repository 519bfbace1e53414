//! The note as it is kept in its slot.

use crate::errors::NoteErrors;
use crate::wire::{
    encodable, fields_bytes, lemma_fields_bytes_of_parse, lemma_parse_fields_bytes, parse_fields,
    read_fields, write_fields, Fields,
};
use vstd::prelude::*;
use vstd::utf8::*;

verus! {

/// The most characters a title may have.
pub const MAX_TITLE_LEN: usize = 50;

/// The most characters a body may have.
pub const MAX_BODY_LEN: usize = 200;

/// The size of a slot: the flag, two length prefixes, title and body at one
/// byte per character, and the id.
pub const NOTE_SPACE: usize = 267;

/// A stored note.
#[derive(Clone, Debug, PartialEq, Eq)]
pub struct NoteState {
    pub is_initialized: bool,
    pub title: String,
    pub body: String,
    pub id: u64,
}

/// A note as plain values.
pub struct NoteView {
    pub is_initialized: bool,
    pub title: Seq<char>,
    pub body: Seq<char>,
    pub id: u64,
}

impl View for NoteState {
    type V = NoteView;

    open spec fn view(&self) -> NoteView {
        NoteView {
            is_initialized: self.is_initialized,
            title: self.title@,
            body: self.body@,
            id: self.id,
        }
    }
}

impl NoteView {
    /// The note that a slot holds before anything was written to it.
    pub open spec fn empty() -> NoteView {
        NoteView { is_initialized: false, title: Seq::empty(), body: Seq::empty(), id: 0 }
    }

    /// The note that a create or an update leaves behind.
    pub open spec fn written(title: Seq<char>, body: Seq<char>, id: u64) -> NoteView {
        NoteView { is_initialized: true, title, body, id }
    }

    pub open spec fn fields(self) -> Fields {
        Fields { title: self.title, body: self.body, id: self.id }
    }

    /// Both texts fit their length prefixes.
    pub open spec fn encodable(self) -> bool {
        encodable(self.title) && encodable(self.body)
    }

    /// Title and body keep to the schema's bounds, counted in characters.
    pub open spec fn within_bounds(self) -> bool {
        self.title.len() <= MAX_TITLE_LEN && self.body.len() <= MAX_BODY_LEN
    }
}

/// A note in its slot: one byte for the flag (1 once written, else 0), then
/// title, body and id.
pub open spec fn note_bytes(n: NoteView) -> Seq<u8> {
    seq![if n.is_initialized { 1u8 } else { 0u8 }] + fields_bytes(n.fields())
}

/// Reads a note from the front of `b`: the note and the number of bytes it
/// took. A flag byte other than 0 and 1 makes the bytes no note.
pub open spec fn parse_note(b: Seq<u8>) -> Option<(NoteView, int)> {
    if b.len() < 1 || b[0] > 1 {
        None
    } else {
        match parse_fields(b.skip(1)) {
            None => None,
            Some((f, n)) => Some(
                (NoteView { is_initialized: b[0] == 1, title: f.title, body: f.body, id: f.id }, 1 + n),
            ),
        }
    }
}

/// Reads a note that fills `b` to its last byte.
pub open spec fn parse_note_exact(b: Seq<u8>) -> Option<NoteView> {
    match parse_note(b) {
        Some((n, used)) => if used == b.len() { Some(n) } else { None },
        None => None,
    }
}

impl Default for NoteState {
    fn default() -> (n: NoteState)
        ensures
            n@ == NoteView::empty(),
    {
        NoteState { is_initialized: false, title: String::new(), body: String::new(), id: 0 }
    }
}

impl NoteState {
    /// Reads a note from the front of `data` and says how many bytes it took;
    /// what follows the note is not looked at.
    pub fn from_prefix(data: &[u8]) -> (r: Option<(NoteState, usize)>)
        ensures
            match parse_note(data@) {
                Some((n, used)) => r matches Some((note, len)) && note@ == n && len == used,
                None => r is None,
            },
    {
        if data.len() < 1 {
            return None;
        }
        let flag = data[0];
        if flag > 1 {
            return None;
        }
        match read_fields(data, 1) {
            Some((title, body, id, next)) => Some(
                (NoteState { is_initialized: flag == 1, title, body, id }, next),
            ),
            None => None,
        }
    }

    /// Reads a note that fills `data` exactly.
    pub fn try_from_slice(data: &[u8]) -> (r: Result<NoteState, NoteErrors>)
        ensures
            match parse_note_exact(data@) {
                Some(n) => r matches Ok(note) && note@ == n,
                None => r == Err::<NoteState, NoteErrors>(NoteErrors::MalformedPayload),
            },
    {
        match NoteState::from_prefix(data) {
            Some((note, used)) => {
                if used == data.len() {
                    Ok(note)
                } else {
                    Err(NoteErrors::MalformedPayload)
                }
            },
            None => Err(NoteErrors::MalformedPayload),
        }
    }

    /// The note as it is written to a slot. Fails with `InvalidLength` exactly
    /// where a text is too long for its four-byte length prefix.
    pub fn serialize(&self) -> (r: Result<Vec<u8>, NoteErrors>)
        ensures
            self@.encodable() ==> (r matches Ok(bytes) && bytes@ == note_bytes(self@)),
            !self@.encodable() ==> r == Err::<Vec<u8>, NoteErrors>(NoteErrors::InvalidLength),
    {
        let mut out: Vec<u8> = Vec::new();
        out.push(if self.is_initialized { 1u8 } else { 0u8 });
        if write_fields(&mut out, &self.title, &self.body, self.id) {
            assert(out@ =~= note_bytes(self@));
            Ok(out)
        } else {
            Err(NoteErrors::InvalidLength)
        }
    }

    /// Whether title and body keep to the schema's bounds.
    pub fn within_bounds(title: &String, body: &String) -> (ok: bool)
        ensures
            ok == NoteView::written(title@, body@, 0).within_bounds(),
    {
        title.as_str().unicode_len() <= MAX_TITLE_LEN && body.as_str().unicode_len() <= MAX_BODY_LEN
    }
}

/// A note that was written is read back, whatever follows it in the slot.
pub proof fn lemma_parse_note_bytes(n: NoteView, rest: Seq<u8>)
    requires
        n.encodable(),
    ensures
        parse_note(note_bytes(n) + rest) == Some((n, note_bytes(n).len() as int)),
        note_bytes(n).len() == 17 + encode_utf8(n.title).len() + encode_utf8(n.body).len(),
{
    let b = note_bytes(n) + rest;
    lemma_parse_fields_bytes(n.fields(), rest);
    assert(b.skip(1) =~= fields_bytes(n.fields()) + rest);
}

/// What was read as a note is, byte for byte, the slot form of that note.
pub proof fn lemma_note_bytes_of_parse(b: Seq<u8>)
    requires
        parse_note(b) is Some,
    ensures
        ({
            let (n, used) = parse_note(b)->Some_0;
            &&& 17 <= used <= b.len()
            &&& n.encodable()
            &&& note_bytes(n) == b.subrange(0, used)
        }),
{
    let (n, used) = parse_note(b)->Some_0;
    lemma_fields_bytes_of_parse(b.skip(1));
    assert(b.skip(1).subrange(0, used - 1) =~= b.subrange(1, used));
    assert(note_bytes(n) =~= b.subrange(0, used));
}

} // verus!
