//! The shape of one log event and the rules a record must meet to be one.

use crate::text::{
    all_digits, chars_of, decimal, decimal_string, digit_of, digits_value,
    lemma_decimal_digits, lemma_decimal_parses, lemma_digits_are_decimal, lemma_first_index,
    lemma_split_shape, parse_number, parse_unsigned, push_decimal, split, split_chars,
    unsigned_field, views,
};
use vstd::prelude::*;

verus! {

/// The number of fields in the record of an event.
pub const FIELD_COUNT: usize = 10;

/// The largest identifier of an event.
pub const MAX_ID: u128 = 0xffff_ffff_ffff_ffff_ffff_ffff_ffff_ffff;

/// The largest identifier of a source.
pub const MAX_SOURCE_ID: u128 = 0xffff_ffff;

/// Why a record is not an event.
#[derive(Clone, Copy, Debug, PartialEq, Eq, Structural)]
pub enum SchemaFault {
    /// The record does not have ten fields.
    FieldCount,
    /// The first field is not a number of 128 bits.
    BadId,
    /// The fourth field is not a number of 32 bits.
    BadSourceId,
    /// The sixth field is not an address of four decimal octets.
    BadSourceIp,
}

/// An address of four octets.
#[derive(Clone, Copy, Debug, PartialEq, Eq, Structural)]
pub struct Ipv4(pub u8, pub u8, pub u8, pub u8);

impl View for Ipv4 {
    type V = (nat, nat, nat, nat);

    open spec fn view(&self) -> (nat, nat, nat, nat) {
        (self.0 as nat, self.1 as nat, self.2 as nat, self.3 as nat)
    }
}

/// One log event.
#[derive(Clone, Debug)]
pub struct Event {
    pub id: u128,
    pub generated_at: String,
    pub received_at: String,
    pub source_id: u32,
    pub source_name: String,
    pub source_ip: Ipv4,
    pub facility_name: String,
    pub severity_name: String,
    pub program: String,
    pub message: String,
}

/// What an event holds, as numbers and character sequences.
pub ghost struct EventModel {
    pub id: nat,
    pub generated_at: Seq<char>,
    pub received_at: Seq<char>,
    pub source_id: nat,
    pub source_name: Seq<char>,
    pub source_ip: (nat, nat, nat, nat),
    pub facility_name: Seq<char>,
    pub severity_name: Seq<char>,
    pub program: Seq<char>,
    pub message: Seq<char>,
}

impl View for Event {
    type V = EventModel;

    open spec fn view(&self) -> EventModel {
        EventModel {
            id: self.id as nat,
            generated_at: self.generated_at@,
            received_at: self.received_at@,
            source_id: self.source_id as nat,
            source_name: self.source_name@,
            source_ip: self.source_ip@,
            facility_name: self.facility_name@,
            severity_name: self.severity_name@,
            program: self.program@,
            message: self.message@,
        }
    }
}

/// The number that `s` writes as one octet of an address: one to three
/// decimal digits, no zero in front of another digit, and at most 255.
pub open spec fn octet(s: Seq<char>) -> Option<nat> {
    if 1 <= s.len() <= 3 && all_digits(s, 10) && (s.len() > 1 ==> s[0] != '0') && digits_value(
        s,
        10,
    ) <= 255 {
        Some(digits_value(s, 10))
    } else {
        None
    }
}

/// The address that `s` writes: four octets with a dot between each two.
pub open spec fn dotted_quad(s: Seq<char>) -> Option<(nat, nat, nat, nat)> {
    let parts = split(s, '.');
    if parts.len() == 4 && octet(parts[0]) is Some && octet(parts[1]) is Some && octet(
        parts[2],
    ) is Some && octet(parts[3]) is Some {
        Some((octet(parts[0])->0, octet(parts[1])->0, octet(parts[2])->0, octet(parts[3])->0))
    } else {
        None
    }
}

/// The text of an address: its octets in decimal with a dot between each two.
pub open spec fn ipv4_text(ip: (nat, nat, nat, nat)) -> Seq<char> {
    decimal(ip.0) + seq!['.'] + decimal(ip.1) + seq!['.'] + decimal(ip.2) + seq!['.'] + decimal(
        ip.3,
    )
}

/// The names of the ten fields, in the order of the record.
pub open spec fn header_names() -> Seq<Seq<char>> {
    seq![
        "id"@,
        "generated_at"@,
        "received_at"@,
        "source_id"@,
        "source_name"@,
        "source_ip"@,
        "facility_name"@,
        "severity_name"@,
        "program"@,
        "message"@,
    ]
}

/// The first rule that the record `fields` breaks, if it breaks one.
pub open spec fn schema_fault(fields: Seq<Seq<char>>) -> Option<SchemaFault> {
    if fields.len() != 10 {
        Some(SchemaFault::FieldCount)
    } else if unsigned_field(fields[0], MAX_ID as nat) is None {
        Some(SchemaFault::BadId)
    } else if unsigned_field(fields[3], MAX_SOURCE_ID as nat) is None {
        Some(SchemaFault::BadSourceId)
    } else if dotted_quad(fields[5]) is None {
        Some(SchemaFault::BadSourceIp)
    } else {
        None
    }
}

/// The event that the record `fields` holds, where it breaks no rule.
pub open spec fn event_of(fields: Seq<Seq<char>>) -> EventModel
    recommends
        schema_fault(fields) is None,
{
    EventModel {
        id: unsigned_field(fields[0], MAX_ID as nat)->0,
        generated_at: fields[1],
        received_at: fields[2],
        source_id: unsigned_field(fields[3], MAX_SOURCE_ID as nat)->0,
        source_name: fields[4],
        source_ip: dotted_quad(fields[5])->0,
        facility_name: fields[6],
        severity_name: fields[7],
        program: fields[8],
        message: fields[9],
    }
}

/// The record that writes the event `e`: numbers in decimal, the address in
/// dotted form, every text as it is.
pub open spec fn record_of(e: EventModel) -> Seq<Seq<char>> {
    seq![
        decimal(e.id),
        e.generated_at,
        e.received_at,
        decimal(e.source_id),
        e.source_name,
        ipv4_text(e.source_ip),
        e.facility_name,
        e.severity_name,
        e.program,
        e.message,
    ]
}

/// A text without a dot, then a dot, then more: the first piece is the text,
/// and the other pieces are those of what follows the dot.
pub proof fn lemma_split_at_dot(head: Seq<char>, rest: Seq<char>)
    requires
        forall|i: int| 0 <= i < head.len() ==> head[i] != '.',
    ensures
        split(head + seq!['.'] + rest, '.') == seq![head] + split(rest, '.'),
        split(head, '.') == seq![head],
{
    let whole = head + seq!['.'] + rest;
    lemma_first_index(whole, '.', head.len() as int);
    assert(whole.take(head.len() as int) =~= head);
    assert(whole.skip(head.len() as int + 1) =~= rest);
    lemma_first_index(head, '.', head.len() as int);
}

/// An octet written in decimal is read as itself, and holds no dot.
pub proof fn lemma_octet_parses(v: nat)
    requires
        v <= 255,
    ensures
        octet(decimal(v)) == Some(v),
        forall|i: int| 0 <= i < decimal(v).len() ==> decimal(v)[i] != '.',
{
    lemma_decimal_digits(v);
    assert forall|i: int| 0 <= i < decimal(v).len() implies decimal(v)[i] != '.' by {
        assert(digit_of(decimal(v)[i]) < 10);
    }
}

/// An address written in dotted form is read as itself.
#[verifier::rlimit(40)]
pub proof fn lemma_ipv4_text_parses(ip: (nat, nat, nat, nat))
    requires
        ip.0 <= 255,
        ip.1 <= 255,
        ip.2 <= 255,
        ip.3 <= 255,
    ensures
        dotted_quad(ipv4_text(ip)) == Some(ip),
{
    let a = decimal(ip.0);
    let b = decimal(ip.1);
    let c = decimal(ip.2);
    let d = decimal(ip.3);
    lemma_octet_parses(ip.0);
    lemma_octet_parses(ip.1);
    lemma_octet_parses(ip.2);
    lemma_octet_parses(ip.3);
    let tail2 = c + seq!['.'] + d;
    let tail1 = b + seq!['.'] + tail2;
    assert(ipv4_text(ip) =~= a + seq!['.'] + tail1);
    lemma_split_at_dot(d, Seq::empty());
    assert(split(d, '.') == seq![d]);
    lemma_split_at_dot(c, d);
    assert(split(tail2, '.') =~= seq![c, d]);
    lemma_split_at_dot(b, tail2);
    assert(split(tail1, '.') =~= seq![b, c, d]);
    lemma_split_at_dot(a, tail1);
    let parts = split(ipv4_text(ip), '.');
    assert(parts =~= seq![a, b, c, d]);
    assert(parts.len() == 4);
    assert(parts[0] == a && parts[1] == b && parts[2] == c && parts[3] == d);
}

/// The only text that is read as an address is its dotted form.
pub proof fn lemma_ipv4_is_canonical(s: Seq<char>)
    requires
        dotted_quad(s) is Some,
    ensures
        s == ipv4_text(dotted_quad(s)->0),
{
    let parts = split(s, '.');
    let r1 = lemma_split_shape(s, '.');
    let r2 = lemma_split_shape(r1, '.');
    let r3 = lemma_split_shape(r2, '.');
    let r4 = lemma_split_shape(r3, '.');
    assert(split(r1, '.')[0] == parts[1]);
    assert(split(r2, '.') == split(r1, '.').skip(1));
    assert(split(r2, '.')[0] == parts[2]);
    assert(split(r3, '.') == split(r2, '.').skip(1));
    assert(split(r3, '.')[0] == parts[3]);
    assert(split(r3, '.').len() == 1);
    lemma_digits_are_decimal(parts[0]);
    lemma_digits_are_decimal(parts[1]);
    lemma_digits_are_decimal(parts[2]);
    lemma_digits_are_decimal(parts[3]);
    assert(s =~= ipv4_text(dotted_quad(s)->0));
}

/// An event whose numbers are written in plain decimal is written as it was
/// read, field for field.
pub proof fn lemma_plain_record_is_kept(fields: Seq<Seq<char>>)
    requires
        schema_fault(fields) is None,
        fields[0] == decimal(event_of(fields).id),
        fields[3] == decimal(event_of(fields).source_id),
    ensures
        record_of(event_of(fields)) == fields,
{
    lemma_ipv4_is_canonical(fields[5]);
    assert(record_of(event_of(fields)) =~= fields);
}

/// What is written of an event is read again as the same event: the record
/// of an event breaks no rule, and the event that it holds is the one that
/// was written.
pub proof fn lemma_record_reads_back(e: EventModel)
    requires
        e.id <= MAX_ID,
        e.source_id <= MAX_SOURCE_ID,
        e.source_ip.0 <= 255,
        e.source_ip.1 <= 255,
        e.source_ip.2 <= 255,
        e.source_ip.3 <= 255,
    ensures
        schema_fault(record_of(e)) is None,
        event_of(record_of(e)) == e,
{
    lemma_decimal_parses(e.id, MAX_ID as nat);
    lemma_decimal_parses(e.source_id, MAX_SOURCE_ID as nat);
    lemma_ipv4_text_parses(e.source_ip);
}

/// Reads one octet of an address.
pub fn parse_octet(v: &Vec<char>) -> (r: Option<u8>)
    ensures
        match r {
            Some(n) => octet(v@) == Some(n as nat),
            None => octet(v@) is None,
        },
{
    if v.len() < 1 || v.len() > 3 {
        return None;
    }
    if v[0] == '+' {
        return None;
    }
    if v.len() > 1 && v[0] == '0' {
        return None;
    }
    assert(v@.skip(0) =~= v@);
    match parse_number(v, 0, 10, 255) {
        Some(n) => Some(n as u8),
        None => None,
    }
}

/// Reads an address of four decimal octets.
pub fn parse_ipv4(s: &str) -> (r: Option<Ipv4>)
    ensures
        match r {
            Some(ip) => dotted_quad(s@) == Some(ip@),
            None => dotted_quad(s@) is None,
        },
{
    let v = chars_of(s);
    let parts = split_chars(&v, '.');
    assert(views(parts@).len() == parts@.len());
    if parts.len() != 4 {
        return None;
    }
    assert(views(parts@)[0] == parts@[0]@);
    assert(views(parts@)[1] == parts@[1]@);
    assert(views(parts@)[2] == parts@[2]@);
    assert(views(parts@)[3] == parts@[3]@);
    let a = match parse_octet(&parts[0]) {
        Some(n) => n,
        None => {
            return None;
        },
    };
    let b = match parse_octet(&parts[1]) {
        Some(n) => n,
        None => {
            return None;
        },
    };
    let c = match parse_octet(&parts[2]) {
        Some(n) => n,
        None => {
            return None;
        },
    };
    let d = match parse_octet(&parts[3]) {
        Some(n) => n,
        None => {
            return None;
        },
    };
    Some(Ipv4(a, b, c, d))
}

/// The text of the address `ip`.
pub fn format_ipv4(ip: Ipv4) -> (s: String)
    ensures
        s@ == ipv4_text(ip@),
{
    let mut s = String::new();
    push_decimal(&mut s, ip.0 as u128);
    s.push('.');
    push_decimal(&mut s, ip.1 as u128);
    s.push('.');
    push_decimal(&mut s, ip.2 as u128);
    s.push('.');
    push_decimal(&mut s, ip.3 as u128);
    assert(s@ =~= ipv4_text(ip@));
    s
}

impl Event {
    /// Reads the record `fields` as an event, or says which rule it breaks.
    pub fn from_fields(fields: &Vec<String>) -> (r: Result<Event, SchemaFault>)
        ensures
            match r {
                Ok(e) => schema_fault(fields.deep_view()) is None && e@ == event_of(
                    fields.deep_view(),
                ),
                Err(fault) => schema_fault(fields.deep_view()) == Some(fault),
            },
    {
        let ghost f = fields.deep_view();
        if fields.len() != FIELD_COUNT {
            return Err(SchemaFault::FieldCount);
        }
        assert(forall|i: int| 0 <= i < 10 ==> f[i] == #[trigger] fields@[i]@);
        let id = match parse_unsigned(fields[0].as_str(), MAX_ID) {
            Some(n) => n,
            None => {
                return Err(SchemaFault::BadId);
            },
        };
        let source_id = match parse_unsigned(fields[3].as_str(), MAX_SOURCE_ID) {
            Some(n) => n as u32,
            None => {
                return Err(SchemaFault::BadSourceId);
            },
        };
        let source_ip = match parse_ipv4(fields[5].as_str()) {
            Some(ip) => ip,
            None => {
                return Err(SchemaFault::BadSourceIp);
            },
        };
        Ok(
            Event {
                id,
                generated_at: fields[1].clone(),
                received_at: fields[2].clone(),
                source_id,
                source_name: fields[4].clone(),
                source_ip,
                facility_name: fields[6].clone(),
                severity_name: fields[7].clone(),
                program: fields[8].clone(),
                message: fields[9].clone(),
            },
        )
    }

    /// The record that writes this event.
    pub fn to_fields(&self) -> (fields: Vec<String>)
        ensures
            fields.deep_view() == record_of(self@),
    {
        let mut fields: Vec<String> = Vec::new();
        fields.push(decimal_string(self.id));
        fields.push(self.generated_at.clone());
        fields.push(self.received_at.clone());
        fields.push(decimal_string(self.source_id as u128));
        fields.push(self.source_name.clone());
        fields.push(format_ipv4(self.source_ip));
        fields.push(self.facility_name.clone());
        fields.push(self.severity_name.clone());
        fields.push(self.program.clone());
        fields.push(self.message.clone());
        assert(fields.deep_view() =~= record_of(self@));
        fields
    }

    /// The names of the fields, in the order of the record.
    pub fn header() -> (names: Vec<String>)
        ensures
            names.deep_view() == header_names(),
    {
        let mut names: Vec<String> = Vec::new();
        names.push("id".to_owned());
        names.push("generated_at".to_owned());
        names.push("received_at".to_owned());
        names.push("source_id".to_owned());
        names.push("source_name".to_owned());
        names.push("source_ip".to_owned());
        names.push("facility_name".to_owned());
        names.push("severity_name".to_owned());
        names.push("program".to_owned());
        names.push("message".to_owned());
        assert(names.deep_view() =~= header_names());
        names
    }
}

} // verus!
