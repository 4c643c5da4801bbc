//! Normalisation, hashing and well-formedness checks of XML pattern text.

use vstd::prelude::*;
use vstd::utf8::encode_utf8;
use quick_xml::events::Event;
use quick_xml::Reader;
use sha2::{Digest, Sha256};

use crate::text::{chars_of, digit_char, owned, push_char, string_from_chars, trim, trim_chars};

verus! {

broadcast use vstd::string::group_string_axioms;

// ---------------------------------------------------------------------------
// Normalisation
// ---------------------------------------------------------------------------

/// The byte order mark that may open a UTF-8 file.
pub open spec fn bom() -> char {
    '\u{feff}'
}

/// `s` without one leading byte order mark.
pub open spec fn strip_bom(s: Seq<char>) -> Seq<char> {
    if s.len() > 0 && s[0] == bom() {
        s.drop_first()
    } else {
        s
    }
}

/// `s` with every `\r\n` replaced by `\n`, scanning left to right.
pub open spec fn replace_crlf(s: Seq<char>) -> Seq<char>
    decreases s.len(),
{
    if s.len() >= 2 && s[0] == '\r' && s[1] == '\n' {
        seq!['\n'] + replace_crlf(s.subrange(2, s.len() as int))
    } else if s.len() >= 1 {
        seq![s[0]] + replace_crlf(s.drop_first())
    } else {
        s
    }
}

/// The normal form of pattern text: no byte order mark, Unix line endings,
/// no surrounding whitespace.
pub open spec fn normalized(s: Seq<char>) -> Seq<char> {
    trim(replace_crlf(strip_bom(s)))
}

fn replace_crlf_chars(v: &Vec<char>) -> (r: Vec<char>)
    ensures
        r@ == replace_crlf(v@),
{
    let n = v.len();
    let mut r: Vec<char> = Vec::new();
    let mut i: usize = 0;
    assert(v@.subrange(0, n as int) =~= v@);
    assert(r@ + replace_crlf(v@) =~= replace_crlf(v@));
    while i < n
        invariant
            i <= n,
            n == v@.len(),
            replace_crlf(v@) == r@ + replace_crlf(v@.subrange(i as int, n as int)),
        decreases n - i,
    {
        let ghost rest = v@.subrange(i as int, n as int);
        let ghost prev = r@;
        if i + 1 < n && v[i] == '\r' && v[i + 1] == '\n' {
            r.push('\n');
            proof {
                assert(rest.subrange(2, rest.len() as int) == v@.subrange(i + 2, n as int));
                assert(r@ == prev.push('\n'));
            }
            assert(replace_crlf(v@) == r@ + replace_crlf(v@.subrange(i + 2, n as int))) by {
                assert(prev + (seq!['\n'] + replace_crlf(v@.subrange(i + 2, n as int)))
                    == prev.push('\n') + replace_crlf(v@.subrange(i + 2, n as int)));
            }
            i += 2;
        } else {
            r.push(v[i]);
            proof {
                assert(rest.drop_first() == v@.subrange(i + 1, n as int));
                assert(rest[0] == v@[i as int]);
            }
            assert(replace_crlf(v@) == r@ + replace_crlf(v@.subrange(i + 1, n as int))) by {
                assert(prev + (seq![v@[i as int]] + replace_crlf(v@.subrange(i + 1, n as int)))
                    == prev.push(v@[i as int]) + replace_crlf(v@.subrange(i + 1, n as int)));
            }
            i += 1;
        }
    }
    proof {
        assert(v@.subrange(n as int, n as int).len() == 0);
        assert(r@ + Seq::<char>::empty() == r@);
    }
    r
}

/// Pattern text in normal form: a leading byte order mark removed, `\r\n`
/// replaced by `\n`, surrounding whitespace trimmed.
pub fn normalize_xml(value: &str) -> (r: String)
    ensures
        r@ == normalized(value@),
{
    let v = chars_of(value);
    let mut stripped: Vec<char> = Vec::new();
    let mut i: usize = if v.len() > 0 && v[0] == '\u{feff}' {
        1
    } else {
        0
    };
    let start = i;
    while i < v.len()
        invariant
            start <= i <= v.len(),
            stripped@ == v@.subrange(start as int, i as int),
        decreases v.len() - i,
    {
        stripped.push(v[i]);
        assert(v@.subrange(start as int, i + 1) == v@.subrange(start as int, i as int).push(
            v@[i as int],
        ));
        i += 1;
    }
    assert(stripped@ == strip_bom(v@)) by {
        if start == 1 {
            assert(v@.subrange(1, v@.len() as int) == v@.drop_first());
        } else {
            assert(v@.subrange(0, v@.len() as int) =~= v@);
        }
    }
    let replaced = replace_crlf_chars(&stripped);
    let trimmed = trim_chars(&replaced);
    string_from_chars(&trimmed)
}

// ---------------------------------------------------------------------------
// Hashing
// ---------------------------------------------------------------------------

/// What SHA-256 gives for `data`.
pub uninterp spec fn sha256(data: Seq<u8>) -> Seq<u8>;

/// `Sha256::digest` from the `sha2` crate: the 32-byte SHA-256 digest of `data`.
#[verifier::external_body]
fn sha256_digest(data: &[u8]) -> (digest: Vec<u8>)
    ensures
        digest@ == sha256(data@),
        digest@.len() == 32,
{
    Sha256::digest(data).to_vec()
}

/// Lower-case hexadecimal digit for `d` (0 to 15).
pub open spec fn hex_digit(d: int) -> char {
    if d < 10 {
        digit_char(d as nat)
    } else if d == 10 {
        'a'
    } else if d == 11 {
        'b'
    } else if d == 12 {
        'c'
    } else if d == 13 {
        'd'
    } else if d == 14 {
        'e'
    } else {
        'f'
    }
}

/// Two lower-case hexadecimal digits per byte, as `{:02x}` writes them.
pub open spec fn hex_lower(data: Seq<u8>) -> Seq<char>
    decreases data.len(),
{
    if data.len() == 0 {
        seq![]
    } else {
        seq![hex_digit((data[0] / 16) as int), hex_digit((data[0] % 16) as int)] + hex_lower(data.drop_first())
    }
}

/// The hash that identifies pattern text: SHA-256 of the UTF-8 bytes of its
/// normal form.
pub open spec fn xml_digest(s: Seq<char>) -> Seq<char> {
    hex_lower(sha256(encode_utf8(normalized(s))))
}

fn hex_char(d: u8) -> (c: char)
    requires
        d < 16,
    ensures
        c == hex_digit(d as int),
{
    if d < 10 {
        let c = crate::text::decimal_digit(d);
        c
    } else if d == 10 {
        'a'
    } else if d == 11 {
        'b'
    } else if d == 12 {
        'c'
    } else if d == 13 {
        'd'
    } else if d == 14 {
        'e'
    } else {
        'f'
    }
}

/// Lower-case hexadecimal form of `data`, two digits per byte.
pub fn hex_encode(data: &Vec<u8>) -> (r: String)
    ensures
        r@ == hex_lower(data@),
{
    let mut result = String::new();
    let n = data.len();
    let mut i: usize = 0;
    assert(data@.subrange(0, n as int) == data@);
    while i < n
        invariant
            i <= n,
            n == data@.len(),
            hex_lower(data@) == result@ + hex_lower(data@.subrange(i as int, n as int)),
        decreases n - i,
    {
        let byte = data[i];
        let hi = hex_char(byte / 16);
        let lo = hex_char(byte % 16);
        let ghost rest = data@.subrange(i as int, n as int);
        proof {
            assert(rest.drop_first() == data@.subrange(i + 1, n as int));
            assert(rest[0] == byte);
            assert(result@ + (seq![hi, lo] + hex_lower(rest.drop_first())) == result@.push(hi).push(
                lo,
            ) + hex_lower(rest.drop_first()));
        }
        push_char(&mut result, hi);
        push_char(&mut result, lo);
        i += 1;
    }
    assert(result@ + hex_lower(Seq::<u8>::empty()) == result@);
    assert(data@.subrange(n as int, n as int) =~= Seq::<u8>::empty());
    result
}

/// Lower-case hexadecimal form of the SHA-256 digest of the normalised text.
pub fn xml_sha256(value: &str) -> (r: String)
    ensures
        r@ == xml_digest(value@),
{
    let normalized_text = normalize_xml(value);
    let digest = sha256_digest(normalized_text.as_str().as_bytes());
    hex_encode(&digest)
}

/// The hash of pattern text depends only on its normal form: texts that differ
/// only in a leading byte order mark, `\r\n` line endings or surrounding
/// whitespace hash alike.
pub proof fn lemma_hash_depends_on_normal_form(a: Seq<char>, b: Seq<char>)
    requires
        normalized(a) == normalized(b),
    ensures
        xml_digest(a) == xml_digest(b),
{
}

// ---------------------------------------------------------------------------
// Well-formedness of a fragment
// ---------------------------------------------------------------------------

/// One event of an XML reader, reduced to what the fragment check looks at.
#[derive(Debug)]
pub enum XmlEvent {
    /// The end of the input.
    Eof,
    /// A `<!DOCTYPE ...>` declaration.
    DocType,
    /// An `<?xml ...?>` declaration.
    Decl,
    /// Any other markup or text.
    Other,
    /// The reader could not go on; the text is the reader's message.
    Error(String),
}

/// Why a fragment was refused.
#[derive(Debug)]
pub enum XmlError {
    /// The fragment holds a `DOCTYPE` declaration.
    DocType,
    /// The fragment holds an XML declaration.
    Declaration,
    /// The fragment is not well-formed; the text is the reader's message.
    Malformed(String),
}

/// Whether an event ends a reader's stream: the end of input or an error.
pub open spec fn is_stream_end(ev: XmlEvent) -> bool {
    ev is Eof || ev is Error
}

/// A stream of events up to the reader's first end of input or error: it
/// ends with that event and holds no other.
pub open spec fn stream_well_formed(events: Seq<XmlEvent>) -> bool {
    &&& events.len() > 0
    &&& is_stream_end(events.last())
    &&& forall|k: int| 0 <= k < events.len() - 1 ==> !is_stream_end(#[trigger] events[k])
}

/// What one event decides: `None` to read on, `Some(result)` to stop.
pub open spec fn event_outcome(ev: XmlEvent) -> Option<Result<(), XmlError>> {
    match ev {
        XmlEvent::Eof => Some(Ok(())),
        XmlEvent::DocType => Some(Err(XmlError::DocType)),
        XmlEvent::Decl => Some(Err(XmlError::Declaration)),
        XmlEvent::Other => None,
        XmlEvent::Error(message) => Some(Err(XmlError::Malformed(message))),
    }
}

/// The verdict on a stream of events: that of its first deciding event.
pub open spec fn stream_verdict(events: Seq<XmlEvent>) -> Result<(), XmlError>
    decreases events.len(),
{
    if events.len() == 0 {
        Ok(())
    } else {
        match event_outcome(events[0]) {
            Some(result) => result,
            None => stream_verdict(events.drop_first()),
        }
    }
}

/// The synthetic root that wraps a fragment for the check.
pub open spec fn wrapped_fragment(xml: Seq<char>) -> Seq<char> {
    "<appscreener-fragment>"@ + xml + "</appscreener-fragment>"@
}

/// The events that `quick_xml` reads from `document`, with its default
/// configuration, up to and including the first end of input or error.
pub uninterp spec fn xml_events(document: Seq<char>) -> Seq<XmlEvent>;

/// The events that `reader` will still yield, up to and including the first
/// end of input or error.
pub uninterp spec fn pending_events(reader: Reader<&[u8]>) -> Seq<XmlEvent>;

/// Whether `reader` trims whitespace around text.
pub uninterp spec fn trims_text(reader: Reader<&[u8]>) -> bool;

#[verifier::external_type_specification]
#[verifier::external_body]
#[verifier::reject_recursive_types(R)]
pub struct ExXmlReader<R>(Reader<R>);

/// `quick_xml::Reader::from_str`: a reader over `document` with the default
/// configuration (text not trimmed). Its events are those of the document. A
/// reader consumes input with every event short of the end of input, so its
/// stream reaches the end of input or an error; declarations and `DOCTYPE`
/// are events like any other and do not end it.
#[verifier::external_body]
fn open_reader(document: &str) -> (reader: Reader<&[u8]>)
    ensures
        pending_events(reader) == xml_events(document@),
        stream_well_formed(pending_events(reader)),
        !trims_text(reader),
{
    Reader::from_str(document)
}

/// `quick_xml::reader::Config::trim_text` on the reader's configuration:
/// sets whether text is trimmed. Turning trimming off on a reader that does not
/// trim leaves its events as they were.
#[verifier::external_body]
fn set_trim_text(reader: &mut Reader<&[u8]>, trim: bool)
    ensures
        trims_text(*final(reader)) == trim,
        (!trim && !trims_text(*old(reader))) ==> pending_events(*final(reader)) == pending_events(
            *old(reader),
        ),
{
    reader.config_mut().trim_text(trim);
}

/// `quick_xml::Reader::read_event`: the next event of the reader, reduced to
/// its kind (and the error's message). After an event that is neither the end
/// of input nor an error, the reader's stream is the rest of the one before;
/// nothing is said of the reader after the end of input or an error.
#[verifier::external_body]
fn next_event(reader: &mut Reader<&[u8]>) -> (ev: XmlEvent)
    requires
        pending_events(*old(reader)).len() > 0,
    ensures
        ev == pending_events(*old(reader))[0],
        !is_stream_end(ev) ==> pending_events(*final(reader)) == pending_events(
            *old(reader),
        ).drop_first(),
        trims_text(*final(reader)) == trims_text(*old(reader)),
{
    match reader.read_event() {
        Ok(Event::Eof) => XmlEvent::Eof,
        Ok(Event::DocType(_)) => XmlEvent::DocType,
        Ok(Event::Decl(_)) => XmlEvent::Decl,
        Ok(_) => XmlEvent::Other,
        Err(error) => XmlEvent::Error(error.to_string()),
    }
}

/// What one reader event decides for a fragment: `None` to read on, or the
/// result of the check.
pub fn classify_xml_event(ev: XmlEvent) -> (outcome: Option<Result<(), XmlError>>)
    ensures
        outcome == event_outcome(ev),
{
    match ev {
        XmlEvent::Eof => Some(Ok(())),
        XmlEvent::DocType => Some(Err(XmlError::DocType)),
        XmlEvent::Decl => Some(Err(XmlError::Declaration)),
        XmlEvent::Other => None,
        XmlEvent::Error(message) => Some(Err(XmlError::Malformed(message))),
    }
}

/// Checks that `xml` is a well-formed sequence of XML nodes: wrapped in a
/// synthetic root, it must read to the end without error, `DOCTYPE` or XML
/// declaration.
pub fn validate_xml_fragment(xml: &str) -> (r: Result<(), XmlError>)
    ensures
        r == stream_verdict(xml_events(wrapped_fragment(xml@))),
{
    let mut wrapped = owned("<appscreener-fragment>");
    wrapped.append(xml);
    wrapped.append("</appscreener-fragment>");
    let mut reader = open_reader(wrapped.as_str());
    set_trim_text(&mut reader, false);
    let ghost all = pending_events(reader);
    loop
        invariant
            stream_well_formed(pending_events(reader)),
            stream_verdict(all) == stream_verdict(pending_events(reader)),
            all == xml_events(wrapped_fragment(xml@)),
        decreases pending_events(reader).len(),
    {
        let ghost before = pending_events(reader);
        let ev = next_event(&mut reader);
        match classify_xml_event(ev) {
            Some(result) => {
                return result;
            },
            None => {
                proof {
                    let after = pending_events(reader);
                    assert(after == before.drop_first());
                    assert(before.len() > 1) by {
                        if before.len() == 1 {
                            assert(before.last() == before[0]);
                        }
                    }
                    assert forall|k: int| 0 <= k < after.len() - 1 implies !is_stream_end(
                        #[trigger] after[k],
                    ) by {
                        assert(after[k] == before[k + 1]);
                    }
                    assert(after.last() == before.last());
                }
            },
        }
    }
}

/// The message that reports a refused fragment.
pub open spec fn xml_error_message(e: XmlError) -> Seq<char> {
    match e {
        XmlError::DocType => "DOCTYPE declarations are not allowed"@,
        XmlError::Declaration => "XML declaration is not allowed in a pattern fragment"@,
        XmlError::Malformed(message) => message@,
    }
}

impl XmlError {
    /// The message that reports this error.
    pub fn message(&self) -> (r: String)
        ensures
            r@ == xml_error_message(*self),
    {
        match self {
            XmlError::DocType => owned("DOCTYPE declarations are not allowed"),
            XmlError::Declaration => owned("XML declaration is not allowed in a pattern fragment"),
            XmlError::Malformed(message) => message.clone(),
        }
    }
}

} // verus!
