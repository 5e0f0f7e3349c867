//! The comma-separated line format of SmartREST: how a list of fields is
//! written as one line, how a line is read back, and the proof that reading
//! undoes writing.

use vstd::prelude::*;

verus! {

/// The characters that force a field to be quoted.
pub open spec fn is_special(c: char) -> bool {
    c == ',' || c == '"' || c == '\n' || c == '\r'
}

/// A field is quoted when it holds a comma, a quote or a line break.
pub open spec fn needs_quotes(field: Seq<char>) -> bool {
    exists|i: int| 0 <= i < field.len() && is_special(#[trigger] field[i])
}

/// The field with each quote written twice.
pub open spec fn doubled_quotes(field: Seq<char>) -> Seq<char>
    decreases field.len(),
{
    if field.len() == 0 {
        Seq::empty()
    } else if field.last() == '"' {
        doubled_quotes(field.drop_last()).push('"').push('"')
    } else {
        doubled_quotes(field.drop_last()).push(field.last())
    }
}

/// One field as it stands in a line.
pub open spec fn encoded_field(field: Seq<char>) -> Seq<char> {
    if needs_quotes(field) {
        seq!['"'] + doubled_quotes(field) + seq!['"']
    } else {
        field
    }
}

/// The line made of the given fields, separated by commas.
pub open spec fn encoded_line(fields: Seq<Seq<char>>) -> Seq<char>
    decreases fields.len(),
{
    if fields.len() == 0 {
        Seq::empty()
    } else if fields.len() == 1 {
        encoded_field(fields[0])
    } else {
        encoded_line(fields.drop_last()) + seq![','] + encoded_field(fields.last())
    }
}

/// Where the reader stands inside a line.
#[derive(Clone, Copy, PartialEq, Eq, Structural, Debug)]
pub enum ScanMode {
    /// At the first character of a field.
    Start,
    /// Inside a field written without quotes.
    Plain,
    /// Inside a quoted field.
    Quoted,
    /// Just after a quote met inside a quoted field.
    QuoteSeen,
    /// The line is malformed.
    Broken,
}

/// The reader's state: the fields read so far, and the one being read.
pub struct Scan {
    pub fields: Seq<Seq<char>>,
    pub current: Seq<char>,
    pub mode: ScanMode,
}

pub open spec fn scan_start() -> Scan {
    Scan { fields: Seq::empty(), current: Seq::empty(), mode: ScanMode::Start }
}

pub open spec fn close_field(s: Scan) -> Scan {
    Scan { fields: s.fields.push(s.current), current: Seq::empty(), mode: ScanMode::Start }
}

pub open spec fn broken(s: Scan) -> Scan {
    Scan { fields: s.fields, current: s.current, mode: ScanMode::Broken }
}

pub open spec fn extend_field(s: Scan, c: char, mode: ScanMode) -> Scan {
    Scan { fields: s.fields, current: s.current.push(c), mode }
}

/// The reader's move on one character.
pub open spec fn scan_step(s: Scan, c: char) -> Scan {
    match s.mode {
        ScanMode::Start => if c == ',' {
            close_field(s)
        } else if c == '"' {
            Scan { fields: s.fields, current: s.current, mode: ScanMode::Quoted }
        } else if c == '\n' || c == '\r' {
            broken(s)
        } else {
            extend_field(s, c, ScanMode::Plain)
        },
        ScanMode::Plain => if c == ',' {
            close_field(s)
        } else if c == '"' || c == '\n' || c == '\r' {
            broken(s)
        } else {
            extend_field(s, c, ScanMode::Plain)
        },
        ScanMode::Quoted => if c == '"' {
            Scan { fields: s.fields, current: s.current, mode: ScanMode::QuoteSeen }
        } else {
            extend_field(s, c, ScanMode::Quoted)
        },
        ScanMode::QuoteSeen => if c == '"' {
            extend_field(s, c, ScanMode::Quoted)
        } else if c == ',' {
            close_field(s)
        } else {
            broken(s)
        },
        ScanMode::Broken => s,
    }
}

/// The reader's state after the whole of `text`, started in state `s`.
pub open spec fn scan_from(s: Scan, text: Seq<char>) -> Scan
    decreases text.len(),
{
    if text.len() == 0 {
        s
    } else {
        scan_step(scan_from(s, text.drop_last()), text.last())
    }
}

/// What the reader hands out at the end of the line: the fields, unless the
/// line is malformed or ends inside a quoted field.
pub open spec fn scan_result(s: Scan) -> Option<Seq<Seq<char>>> {
    match s.mode {
        ScanMode::Start | ScanMode::Plain | ScanMode::QuoteSeen => Some(s.fields.push(s.current)),
        ScanMode::Quoted | ScanMode::Broken => None,
    }
}

/// The fields of a line, or `None` for a malformed line.
pub open spec fn decoded_line(line: Seq<char>) -> Option<Seq<Seq<char>>> {
    scan_result(scan_from(scan_start(), line))
}

proof fn lemma_scan_push(s: Scan, text: Seq<char>, c: char)
    ensures
        scan_from(s, text.push(c)) == scan_step(scan_from(s, text), c),
{
    assert(text.push(c).drop_last() =~= text);
}

proof fn lemma_scan_concat(s: Scan, a: Seq<char>, b: Seq<char>)
    ensures
        scan_from(s, a + b) == scan_from(scan_from(s, a), b),
    decreases b.len(),
{
    if b.len() == 0 {
        assert(a + b =~= a);
    } else {
        lemma_scan_concat(s, a, b.drop_last());
        assert((a + b).drop_last() =~= a + b.drop_last());
    }
}

proof fn lemma_scan_plain(s: Scan, field: Seq<char>)
    requires
        !needs_quotes(field),
        s.mode == ScanMode::Start,
    ensures
        scan_from(s, field) == (Scan {
            fields: s.fields,
            current: s.current + field,
            mode: if field.len() == 0 { ScanMode::Start } else { ScanMode::Plain },
        }),
    decreases field.len(),
{
    if field.len() == 0 {
        assert(s.current + field =~= s.current);
    } else {
        let init = field.drop_last();
        assert forall|i: int| 0 <= i < init.len() implies !is_special(#[trigger] init[i]) by {
            assert(init[i] == field[i]);
        }
        lemma_scan_plain(s, init);
        assert(!is_special(field[field.len() - 1]));
        assert((s.current + init).push(field.last()) =~= s.current + field);
    }
}

proof fn lemma_scan_quoted(s: Scan, field: Seq<char>)
    requires
        s.mode == ScanMode::Quoted,
    ensures
        scan_from(s, doubled_quotes(field)) == (Scan {
            fields: s.fields,
            current: s.current + field,
            mode: ScanMode::Quoted,
        }),
    decreases field.len(),
{
    if field.len() == 0 {
        assert(s.current + field =~= s.current);
    } else {
        let init = field.drop_last();
        lemma_scan_quoted(s, init);
        let head = doubled_quotes(init);
        if field.last() == '"' {
            lemma_scan_push(s, head.push('"'), '"');
            lemma_scan_push(s, head, '"');
        } else {
            lemma_scan_push(s, head, field.last());
        }
        assert((s.current + init).push(field.last()) =~= s.current + field);
    }
}

/// A state in which a field has just been read to its end.
pub open spec fn at_field_end(s: Scan) -> bool {
    match s.mode {
        ScanMode::Start => s.current.len() == 0,
        ScanMode::Plain | ScanMode::QuoteSeen => true,
        ScanMode::Quoted | ScanMode::Broken => false,
    }
}

proof fn lemma_scan_field(s: Scan, field: Seq<char>)
    requires
        s.mode == ScanMode::Start,
        s.current.len() == 0,
    ensures
        scan_from(s, encoded_field(field)).fields == s.fields,
        scan_from(s, encoded_field(field)).current == field,
        at_field_end(scan_from(s, encoded_field(field))),
{
    assert(s.current + field =~= field);
    if needs_quotes(field) {
        let opened = Scan { fields: s.fields, current: s.current, mode: ScanMode::Quoted };
        let open = seq!['"'];
        let body = doubled_quotes(field);
        assert(scan_from(s, open) == opened) by {
            assert(open.drop_last() =~= Seq::<char>::empty());
            assert(scan_from(s, open.drop_last()) == s);
        }
        lemma_scan_concat(s, open, body);
        lemma_scan_quoted(opened, field);
        lemma_scan_push(s, open + body, '"');
        assert((open + body).push('"') =~= open + body + seq!['"']);
    } else {
        lemma_scan_plain(s, field);
    }
}

proof fn lemma_scan_line(fields: Seq<Seq<char>>)
    requires
        fields.len() >= 1,
    ensures
        scan_from(scan_start(), encoded_line(fields)).fields == fields.drop_last(),
        scan_from(scan_start(), encoded_line(fields)).current == fields.last(),
        at_field_end(scan_from(scan_start(), encoded_line(fields))),
    decreases fields.len(),
{
    if fields.len() == 1 {
        lemma_scan_field(scan_start(), fields[0]);
        assert(fields.drop_last() =~= Seq::<Seq<char>>::empty());
    } else {
        let init = fields.drop_last();
        lemma_scan_line(init);
        let before = scan_from(scan_start(), encoded_line(init));
        let head = encoded_line(init);
        lemma_scan_push(scan_start(), head, ',');
        let after = scan_step(before, ',');
        assert(after == close_field(before));
        assert(init.drop_last().push(init.last()) =~= init);
        assert(head.push(',') =~= head + seq![',']);
        lemma_scan_concat(scan_start(), head + seq![','], encoded_field(fields.last()));
        lemma_scan_field(after, fields.last());
    }
}

/// Reading a written line gives back the fields that were written, whatever
/// characters they hold.
pub proof fn lemma_decode_encode(fields: Seq<Seq<char>>)
    requires
        fields.len() >= 1,
    ensures
        decoded_line(encoded_line(fields)) == Some(fields),
{
    lemma_scan_line(fields);
    assert(fields.drop_last().push(fields.last()) =~= fields);
}

/// A single text written as a field reads back as itself.
pub proof fn lemma_decode_encode_field(field: Seq<char>)
    ensures
        decoded_line(encoded_field(field)) == Some(seq![field]),
{
    lemma_decode_encode(seq![field]);
}

} // verus!
