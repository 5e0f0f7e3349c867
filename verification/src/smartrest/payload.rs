//! Writing and reading SmartREST lines, and the payload type that keeps a
//! line under the cloud's size ceiling.

use crate::smartrest::csv::{
    decoded_line, doubled_quotes, encoded_field, encoded_line, is_special, needs_quotes, scan_from,
    scan_start, Scan, ScanMode,
};
use crate::smartrest::error::{Fault, SmartRestSerializerError};
use crate::text::{chars_of, string_of, texts};
use vstd::prelude::*;
use vstd::string::{StrSliceExecFns, StringSliceAdditionalSpecFns};

verus! {

/// Largest size, in bytes, of a payload that the cloud accepts: 16 KiB.
pub const MAX_PAYLOAD_LIMIT_IN_BYTES: usize = 16384;

/// The number of bytes that a text takes on the wire.
pub open spec fn byte_len(text: Seq<char>) -> nat {
    vstd::utf8::encode_utf8(text).len()
}

fn field_needs_quotes(field: &Vec<char>) -> (r: bool)
    ensures
        r == needs_quotes(field@),
{
    let mut i: usize = 0;
    while i < field.len()
        invariant
            i <= field.len(),
            forall|j: int| 0 <= j < i ==> !is_special(#[trigger] field@[j]),
        decreases field.len() - i,
    {
        let c = field[i];
        if c == ',' || c == '"' || c == '\n' || c == '\r' {
            return true;
        }
        i += 1;
    }
    false
}

fn push_doubled_quotes(out: &mut Vec<char>, field: &Vec<char>)
    ensures
        final(out)@ == old(out)@ + doubled_quotes(field@),
{
    let mut i: usize = 0;
    assert(field@.take(0) =~= Seq::<char>::empty());
    while i < field.len()
        invariant
            i <= field.len(),
            out@ == old(out)@ + doubled_quotes(field@.take(i as int)),
        decreases field.len() - i,
    {
        let c = field[i];
        proof {
            let next = field@.take(i + 1);
            assert(next.drop_last() =~= field@.take(i as int));
            assert(next.last() == c);
        }
        if c == '"' {
            out.push('"');
            out.push('"');
        } else {
            out.push(c);
        }
        i += 1;
    }
    assert(field@.take(field.len() as int) =~= field@);
}

fn push_encoded_field(out: &mut Vec<char>, field: &Vec<char>)
    ensures
        final(out)@ == old(out)@ + encoded_field(field@),
{
    if field_needs_quotes(field) {
        out.push('"');
        push_doubled_quotes(out, field);
        out.push('"');
        assert(out@ =~= old(out)@ + (seq!['"'] + doubled_quotes(field@) + seq!['"']));
    } else {
        let mut i: usize = 0;
        while i < field.len()
            invariant
                i <= field.len(),
                out@ == old(out)@ + field@.take(i as int),
            decreases field.len() - i,
        {
            out.push(field[i]);
            i += 1;
            assert(field@.take(i as int) =~= field@.take(i - 1).push(field@[i - 1]));
        }
        assert(field@.take(field.len() as int) =~= field@);
    }
}

/// Writes the fields as one line: fields separated by commas, a field that
/// holds a comma, a quote or a line break put between quotes, and each quote
/// inside it written twice.
pub fn encode_line(fields: &Vec<String>) -> (line: String)
    ensures
        line@ == encoded_line(texts(fields@)),
{
    let mut out: Vec<char> = Vec::new();
    let mut i: usize = 0;
    assert(texts(fields@).take(0) =~= Seq::<Seq<char>>::empty());
    while i < fields.len()
        invariant
            i <= fields.len(),
            out@ == encoded_line(texts(fields@).take(i as int)),
        decreases fields.len() - i,
    {
        let field = chars_of(fields[i].as_str());
        proof {
            let next = texts(fields@).take(i + 1);
            assert(next.drop_last() =~= texts(fields@).take(i as int));
            assert(next.last() == field@);
            if i > 0 {
                assert(next.len() > 1);
            } else {
                assert(next[0] == field@);
                assert(out@ + encoded_field(field@) =~= encoded_field(field@));
            }
        }
        if i > 0 {
            out.push(',');
        }
        push_encoded_field(&mut out, &field);
        i += 1;
    }
    assert(texts(fields@).take(fields.len() as int) =~= texts(fields@));
    string_of(&out)
}

/// Reads a line back into its fields. A line is malformed, and `None` comes
/// back, when a quote stands inside an unquoted field, when a closing quote
/// is followed by anything but a comma, when a quoted field is not closed, or
/// when a line break stands outside quotes.
pub fn decode_line(line: &str) -> (fields: Option<Vec<String>>)
    ensures
        match decoded_line(line@) {
            Some(expected) => fields is Some && texts(fields.unwrap()@) == expected,
            None => fields is None,
        },
{
    let chars = chars_of(line);
    let mut done: Vec<String> = Vec::new();
    let mut current: Vec<char> = Vec::new();
    let mut mode = ScanMode::Start;
    let mut i: usize = 0;
    assert(chars@.take(0) =~= Seq::<char>::empty());
    assert(texts(done@) =~= Seq::<Seq<char>>::empty());
    while i < chars.len()
        invariant
            i <= chars.len(),
            scan_from(scan_start(), chars@.take(i as int)) == (Scan {
                fields: texts(done@),
                current: current@,
                mode,
            }),
        decreases chars.len() - i,
    {
        let c = chars[i];
        proof {
            assert(chars@.take(i + 1) =~= chars@.take(i as int).push(c));
            assert(chars@.take(i as int).push(c).drop_last() =~= chars@.take(i as int));
        }
        let ghost before = Scan { fields: texts(done@), current: current@, mode };
        let ghost old_done = done@;
        let close = c == ',' && (match mode {
            ScanMode::Start | ScanMode::Plain | ScanMode::QuoteSeen => true,
            _ => false,
        });
        if close {
            done.push(string_of(&current));
            current = Vec::new();
            mode = ScanMode::Start;
            assert(texts(done@) =~= texts(old_done).push(before.current));
        } else {
            match mode {
                ScanMode::Start => {
                    if c == '"' {
                        mode = ScanMode::Quoted;
                    } else if c == '\n' || c == '\r' {
                        mode = ScanMode::Broken;
                    } else {
                        current.push(c);
                        mode = ScanMode::Plain;
                    }
                },
                ScanMode::Plain => {
                    if c == '"' || c == '\n' || c == '\r' {
                        mode = ScanMode::Broken;
                    } else {
                        current.push(c);
                    }
                },
                ScanMode::Quoted => {
                    if c == '"' {
                        mode = ScanMode::QuoteSeen;
                    } else {
                        current.push(c);
                    }
                },
                ScanMode::QuoteSeen => {
                    if c == '"' {
                        current.push(c);
                        mode = ScanMode::Quoted;
                    } else {
                        mode = ScanMode::Broken;
                    }
                },
                ScanMode::Broken => {},
            }
        }
        i += 1;
    }
    assert(chars@.take(chars.len() as int) =~= chars@);
    match mode {
        ScanMode::Start | ScanMode::Plain | ScanMode::QuoteSeen => {
            let ghost old_done = done@;
            done.push(string_of(&current));
            assert(texts(done@) =~= texts(old_done).push(current@));
            Some(done)
        },
        _ => None,
    }
}

/// What keeps a list of fields from being a payload: nothing, unless their
/// line is over the size ceiling.
pub open spec fn payload_fault(fields: Seq<Seq<char>>) -> Option<Fault> {
    if byte_len(encoded_line(fields)) > MAX_PAYLOAD_LIMIT_IN_BYTES {
        Some(
            Fault::PayloadTooLarge {
                actual_size: byte_len(encoded_line(fields)),
                limit: MAX_PAYLOAD_LIMIT_IN_BYTES as nat,
            },
        )
    } else {
        None
    }
}

/// A SmartREST line that fits under the cloud's size ceiling.
#[derive(Debug)]
pub struct SmartrestPayload {
    line: String,
}

impl SmartrestPayload {
    /// The text of the line.
    pub closed spec fn view(&self) -> Seq<char> {
        self.line@
    }

    #[verifier::type_invariant]
    spec fn within_limit(&self) -> bool {
        byte_len(self.line@) <= MAX_PAYLOAD_LIMIT_IN_BYTES
    }

    /// Writes the fields as one line and keeps it if it takes at most
    /// `MAX_PAYLOAD_LIMIT_IN_BYTES` bytes; a longer one is refused, with its
    /// size in the error.
    pub fn serialize(fields: &Vec<String>) -> (r: Result<Self, SmartRestSerializerError>)
        ensures
            match payload_fault(texts(fields@)) {
                None => r matches Ok(payload) && payload@ == encoded_line(texts(fields@)),
                Some(fault) => r matches Err(e) && e@ == fault,
            },
    {
        let line = encode_line(fields);
        let actual_size = line.as_str().as_bytes().len();
        if actual_size > MAX_PAYLOAD_LIMIT_IN_BYTES {
            Err(
                SmartRestSerializerError::PayloadTooLarge {
                    actual_size,
                    limit: MAX_PAYLOAD_LIMIT_IN_BYTES,
                },
            )
        } else {
            Ok(SmartrestPayload { line })
        }
    }

    /// The payload of a line that is known to fit under the ceiling.
    pub(crate) fn of_short_line(line: String) -> (payload: Self)
        requires
            byte_len(line@) <= MAX_PAYLOAD_LIMIT_IN_BYTES,
        ensures
            payload@ == line@,
    {
        SmartrestPayload { line }
    }

    /// The line as UTF-8 bytes.
    pub fn into_bytes(self) -> (bytes: Vec<u8>)
        ensures
            bytes@ == vstd::utf8::encode_utf8(self@),
            bytes@.len() <= MAX_PAYLOAD_LIMIT_IN_BYTES,
    {
        proof {
            use_type_invariant(&self);
        }
        self.line.as_str().as_bytes_vec()
    }

    /// The line as text.
    pub fn as_str(&self) -> (s: &str)
        ensures
            s@ == self@,
            byte_len(s@) <= MAX_PAYLOAD_LIMIT_IN_BYTES,
    {
        proof {
            use_type_invariant(self);
        }
        self.line.as_str()
    }

    /// Gives the line up.
    pub fn into_inner(self) -> (s: String)
        ensures
            s@ == self@,
            byte_len(s@) <= MAX_PAYLOAD_LIMIT_IN_BYTES,
    {
        proof {
            use_type_invariant(&self);
        }
        self.line
    }
}

} // verus!
