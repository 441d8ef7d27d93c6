//! The event record and the errors of this program.

use crate::address::Address;
use crate::seeds::text_bytes;
use vstd::prelude::*;

verus! {

/// Largest number of bytes in an event's name.
pub const MAX_NAME_LEN: usize = 50;

/// Largest number of bytes in an event's date.
pub const MAX_DATE_LEN: usize = 20;

/// The errors that this program raises itself.
#[derive(Clone, Copy, Debug, PartialEq, Eq, Structural)]
pub enum ErrorCode {
    /// The event's name has more than [`MAX_NAME_LEN`] bytes.
    EventNameTooLong,
    /// The event's date has more than [`MAX_DATE_LEN`] bytes.
    InvalidEventDate,
    /// The mint is not the one that belongs to the event.
    InvalidTokenMint,
}

impl ErrorCode {
    /// The number under which the ledger reports the error: the program's
    /// errors are numbered from 6000 in the order of their declaration.
    pub open spec fn number(self) -> u32 {
        match self {
            ErrorCode::EventNameTooLong => 6000,
            ErrorCode::InvalidEventDate => 6001,
            ErrorCode::InvalidTokenMint => 6002,
        }
    }

    /// The number under which the ledger reports the error.
    pub fn code(&self) -> (r: u32)
        ensures
            r == self.number(),
    {
        match self {
            ErrorCode::EventNameTooLong => 6000,
            ErrorCode::InvalidEventDate => 6001,
            ErrorCode::InvalidTokenMint => 6002,
        }
    }

    /// The message that goes with the error.
    pub fn message(&self) -> (r: &'static str)
        ensures
            r@ == match *self {
                ErrorCode::EventNameTooLong => "Event name is too long"@,
                ErrorCode::InvalidEventDate => "Event date is invalid"@,
                ErrorCode::InvalidTokenMint => "Invalid token mint for this event"@,
            },
    {
        match self {
            ErrorCode::EventNameTooLong => "Event name is too long",
            ErrorCode::InvalidEventDate => "Event date is invalid",
            ErrorCode::InvalidTokenMint => "Invalid token mint for this event",
        }
    }
}

/// The persisted record of a registered event. It is written once and never
/// changed.
#[derive(Debug, PartialEq, Eq)]
pub struct Event {
    /// The event's name: part of the seeds of its accounts.
    pub name: String,
    /// The event's date: free text, stored as given.
    pub date: String,
    /// Who registered the event: part of the seeds of its accounts.
    pub organizer: Address,
    /// The address of the event's token mint.
    pub token_mint: Address,
    /// The bump with which the record's own address was derived.
    pub bump: u8,
}

/// An event record as plain values.
pub struct EventView {
    pub name: Seq<char>,
    pub date: Seq<char>,
    pub organizer: Seq<u8>,
    pub token_mint: Seq<u8>,
    pub bump: u8,
}

impl View for Event {
    type V = EventView;

    open spec fn view(&self) -> EventView {
        EventView {
            name: self.name@,
            date: self.date@,
            organizer: self.organizer@,
            token_mint: self.token_mint@,
            bump: self.bump,
        }
    }
}

impl Clone for Event {
    fn clone(&self) -> (r: Event)
        ensures
            r == *self,
    {
        Event {
            name: self.name.clone(),
            date: self.date.clone(),
            organizer: self.organizer,
            token_mint: self.token_mint,
            bump: self.bump,
        }
    }
}

/// The header of a stored event record: the first eight bytes of the SHA-256
/// hash of `account:Event`.
pub const DISCRIMINATOR: [u8; 8] = [125, 192, 125, 158, 9, 115, 152, 233];

/// A text as it is stored: its length in bytes as four little-endian bytes,
/// then the bytes.
pub open spec fn stored_text(text: Seq<char>) -> Seq<u8> {
    vstd::bytes::spec_u32_to_le_bytes(text_bytes(text).len() as u32) + text_bytes(text)
}

/// The fields of a record as they are stored, behind the header: the name,
/// the date, the organizer, the mint and the bump.
pub open spec fn stored_fields(record: Event) -> Seq<u8> {
    DISCRIMINATOR@ + stored_text(record.name@) + stored_text(record.date@) + record.organizer@
        + record.token_mint@ + seq![record.bump]
}

/// The bytes of a record's account: the header and the fields, followed by
/// zeros up to [`Event::LEN`] bytes.
pub open spec fn stored_record(record: Event) -> Seq<u8> {
    stored_fields(record) + Seq::new(
        (Event::LEN - stored_fields(record).len()) as nat,
        |i: int| 0u8,
    )
}

fn append(out: &mut Vec<u8>, bytes: &[u8])
    ensures
        final(out)@ == old(out)@ + bytes@,
{
    let ghost start = out@;
    let mut i: usize = 0;
    while i < bytes.len()
        invariant
            i <= bytes@.len(),
            out@ == start + bytes@.subrange(0, i as int),
        decreases bytes@.len() - i,
    {
        out.push(bytes[i]);
        assert(out@ =~= start + bytes@.subrange(0, i + 1));
        i += 1;
    }
    assert(bytes@.subrange(0, i as int) =~= bytes@);
}

impl Event {
    /// The bytes that a record's account is allotted: 8 for the header, 4 and
    /// 50 for the name, 4 and 20 for the date, 32 for each of the two
    /// addresses and 1 for the bump.
    pub const LEN: usize = 151;

    /// The bytes of the record's account. A record whose name or date is
    /// longer than the program accepts has none.
    pub fn encode(&self) -> (r: Option<Vec<u8>>)
        ensures
            r is Some == text_fault(self.name@, self.date@) is None,
            r is Some ==> r->Some_0@ == stored_record(*self) && r->Some_0@.len() == Event::LEN,
    {
        if check_texts(&self.name, &self.date).is_err() {
            return None;
        }
        let name = self.name.as_str().as_bytes();
        let date = self.date.as_str().as_bytes();
        let mut out: Vec<u8> = Vec::new();
        append(&mut out, DISCRIMINATOR.as_slice());
        let name_len = vstd::bytes::u32_to_le_bytes(name.len() as u32);
        append(&mut out, name_len.as_slice());
        append(&mut out, name);
        let date_len = vstd::bytes::u32_to_le_bytes(date.len() as u32);
        append(&mut out, date_len.as_slice());
        append(&mut out, date);
        append(&mut out, self.organizer.bytes.as_slice());
        append(&mut out, self.token_mint.bytes.as_slice());
        out.push(self.bump);
        proof {
            vstd::bytes::lemma_auto_spec_u32_to_from_le_bytes();
            assert(out@ =~= stored_fields(*self));
        }
        let ghost fields = out@;
        while out.len() < Event::LEN
            invariant
                fields.len() <= out@.len() <= Event::LEN,
                out@ == fields + Seq::new((out@.len() - fields.len()) as nat, |i: int| 0u8),
            decreases Event::LEN - out@.len(),
        {
            out.push(0);
            assert(out@ =~= fields + Seq::new((out@.len() - fields.len()) as nat, |i: int| 0u8));
        }
        Some(out)
    }

    /// Reads the record that the bytes of an account hold, if they hold one.
    pub fn decode(bytes: &[u8]) -> (r: Option<Event>)
        ensures
            match decode_spec(bytes@) {
                Some(record) => r is Some && r->Some_0@ == record,
                None => r is None,
            },
    {
        if bytes.len() < 8 {
            return None;
        }
        let mut i: usize = 0;
        while i < 8
            invariant
                i <= 8,
                bytes@.len() >= 8,
                forall|k: int| 0 <= k < i ==> bytes@[k] == DISCRIMINATOR@[k],
            decreases 8 - i,
        {
            if bytes[i] != DISCRIMINATOR[i] {
                assert(bytes@.subrange(0, 8)[i as int] != DISCRIMINATOR@[i as int]);
                return None;
            }
            i += 1;
        }
        assert(bytes@.subrange(0, 8) =~= DISCRIMINATOR@);
        let (name, after_name) = match read_text(bytes, 8) {
            Some(found) => found,
            None => {
                return None;
            },
        };
        let (date, after_date) = match read_text(bytes, after_name) {
            Some(found) => found,
            None => {
                return None;
            },
        };
        if bytes.len() - after_date < 65 {
            return None;
        }
        let organizer = read_address(bytes, after_date);
        let token_mint = read_address(bytes, after_date + 32);
        let bump = bytes[after_date + 64];
        Some(Event { name, date, organizer, token_mint, bump })
    }
}

/// A record that the program accepts is read back from its stored bytes as
/// it was written.
pub proof fn lemma_stored_record_decodes(record: Event)
    requires
        text_fault(record.name@, record.date@) is None,
    ensures
        decode_spec(stored_record(record)) == Some(record@),
{
    broadcast use vstd::utf8::encode_utf8_valid_utf8, vstd::utf8::encode_utf8_decode_utf8;

    vstd::bytes::lemma_auto_spec_u32_to_from_le_bytes();
    let bytes = stored_record(record);
    let name = text_bytes(record.name@);
    let date = text_bytes(record.date@);
    let after_name: int = 12 + name.len() as int;
    let after_date: int = after_name + 4 + date.len() as int;
    assert(bytes.subrange(0, 8) =~= DISCRIMINATOR@);
    assert(bytes.subrange(8, 12) =~= vstd::bytes::spec_u32_to_le_bytes(name.len() as u32));
    assert(bytes.subrange(12, after_name) =~= name);
    assert(bytes.subrange(after_name, after_name + 4) =~= vstd::bytes::spec_u32_to_le_bytes(
        date.len() as u32,
    ));
    assert(bytes.subrange(after_name + 4, after_date) =~= date);
    assert(bytes.subrange(after_date, after_date + 32) =~= record.organizer@);
    assert(bytes.subrange(after_date + 32, after_date + 64) =~= record.token_mint@);
    assert(bytes[after_date + 64] == record.bump);
    assert(text_at(bytes, 8) == Some((record.name@, after_name)));
    assert(text_at(bytes, after_name) == Some((record.date@, after_date)));
}

/// The text stored at a position, with the position behind it: four bytes
/// give its length, and as many bytes of valid UTF-8 follow.
pub open spec fn text_at(bytes: Seq<u8>, at: int) -> Option<(Seq<char>, int)> {
    if at < 0 || at + 4 > bytes.len() {
        None
    } else {
        let end = at + 4 + vstd::bytes::spec_u32_from_le_bytes(bytes.subrange(at, at + 4));
        if end > bytes.len() || !vstd::utf8::valid_utf8(bytes.subrange(at + 4, end)) {
            None
        } else {
            Some((vstd::utf8::decode_utf8(bytes.subrange(at + 4, end)), end))
        }
    }
}

/// The record that the bytes of an account hold: behind the header come the
/// name, the date, the organizer, the mint and the bump. What follows the
/// bump is not read. Bytes that do not start with the header, end too early
/// or hold a text that is not UTF-8 hold no record.
pub open spec fn decode_spec(bytes: Seq<u8>) -> Option<EventView> {
    if bytes.len() < 8 || bytes.subrange(0, 8) != DISCRIMINATOR@ {
        None
    } else {
        match text_at(bytes, 8) {
            None => None,
            Some(name) => match text_at(bytes, name.1) {
                None => None,
                Some(date) => if date.1 + 65 > bytes.len() {
                    None
                } else {
                    Some(
                        EventView {
                            name: name.0,
                            date: date.0,
                            organizer: bytes.subrange(date.1, date.1 + 32),
                            token_mint: bytes.subrange(date.1 + 32, date.1 + 64),
                            bump: bytes[date.1 + 64],
                        },
                    )
                },
            },
        }
    }
}

/// Calls `String::from_utf8` of std. Trusted: it succeeds exactly on valid
/// UTF-8, and the text then holds the characters that the bytes encode.
#[verifier::external_body]
fn text_from_utf8(bytes: Vec<u8>) -> (r: Option<String>)
    ensures
        r is Some == vstd::utf8::valid_utf8(bytes@),
        r is Some ==> r->Some_0@ == vstd::utf8::decode_utf8(bytes@),
{
    String::from_utf8(bytes).ok()
}

fn read_text(bytes: &[u8], at: usize) -> (r: Option<(String, usize)>)
    ensures
        match text_at(bytes@, at as int) {
            Some(found) => r is Some && r->Some_0.0@ == found.0 && r->Some_0.1 == found.1,
            None => r is None,
        },
{
    if bytes.len() < 4 || at > bytes.len() - 4 {
        return None;
    }
    let len: u32 = vstd::bytes::u32_from_le_bytes(vstd::slice::slice_subrange(bytes, at, at + 4));
    let room: usize = bytes.len() - at - 4;
    if len as u64 > room as u64 {
        return None;
    }
    let end: usize = at + 4 + len as usize;
    let body = vstd::slice::slice_to_vec(vstd::slice::slice_subrange(bytes, at + 4, end));
    match text_from_utf8(body) {
        Some(text) => Some((text, end)),
        None => None,
    }
}

fn read_address(bytes: &[u8], at: usize) -> (r: Address)
    requires
        at + 32 <= bytes@.len(),
    ensures
        r@ == bytes@.subrange(at as int, at + 32),
{
    let mut out: [u8; 32] = [0u8; 32];
    let total: usize = bytes.len();
    let mut i: usize = 0;
    while i < 32
        invariant
            i <= 32,
            at + 32 <= bytes@.len(),
            total == bytes@.len(),
            forall|k: int| 0 <= k < i ==> out@[k] == bytes@[at + k],
        decreases 32 - i,
    {
        out[i] = bytes[at + i];
        i += 1;
    }
    assert(out@ =~= bytes@.subrange(at as int, at + 32));
    Address { bytes: out }
}

/// What is wrong with the texts of a registration, if anything: the name is
/// judged before the date.
pub open spec fn text_fault(name: Seq<char>, date: Seq<char>) -> Option<ErrorCode> {
    if text_bytes(name).len() > MAX_NAME_LEN {
        Some(ErrorCode::EventNameTooLong)
    } else if text_bytes(date).len() > MAX_DATE_LEN {
        Some(ErrorCode::InvalidEventDate)
    } else {
        None
    }
}

/// Checks the lengths of an event's name and date, in bytes.
pub fn check_texts(name: &String, date: &String) -> (r: Result<(), ErrorCode>)
    ensures
        match text_fault(name@, date@) {
            Some(e) => r is Err && r->Err_0 == e,
            None => r is Ok,
        },
{
    if name.as_str().as_bytes().len() > MAX_NAME_LEN {
        Err(ErrorCode::EventNameTooLong)
    } else if date.as_str().as_bytes().len() > MAX_DATE_LEN {
        Err(ErrorCode::InvalidEventDate)
    } else {
        Ok(())
    }
}

} // verus!
