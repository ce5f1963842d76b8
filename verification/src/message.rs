//! What the `domain` crate reads from DNS messages, and the one message it
//! builds here (the start of an answer), as plain values. A message is held
//! as its octets throughout the library.

use vstd::prelude::*;

use bytes::Bytes;
use domain::base::iana::Rcode;
use domain::base::name::ParsedDname;
use domain::base::octets::Compose;
use domain::base::{Dname, Message, MessageBuilder};
use domain::rdata::rfc1035::{Cname, A};

use crate::dns::be16;

verus! {

/// The name (in its text form, without the final dot) and the type of the
/// only question of the message `octets`, as `domain` reads them; `None`
/// where the message is shorter than a header, has no question or more than
/// one, or its question cannot be parsed.
pub uninterp spec fn parsed_sole_question(octets: Seq<u8>) -> Option<(Seq<char>, u16)>;

/// The header of the answer record at position `index` of the message
/// `octets`, as `domain` reads it: the owner name in uncompressed wire
/// form, the type, the class and the TTL. `None` where the message cannot
/// be split into its sections; `Some(None)` where the answer section has no
/// record at that position, or a record before it or at it cannot be parsed.
pub uninterp spec fn parsed_answer_header(octets: Seq<u8>, index: int) -> Option<
    Option<(Seq<u8>, u16, u16, u32)>,
>;

/// The IPv4 address of the answer record at position `index`, where
/// `domain` reads that record as an A record.
pub uninterp spec fn parsed_answer_address(octets: Seq<u8>, index: int) -> Option<(u8, u8, u8, u8)>;

/// The alias (in uncompressed wire form) of the answer record at position
/// `index`, where `domain` reads that record as a CNAME record.
pub uninterp spec fn parsed_answer_alias(octets: Seq<u8>, index: int) -> Option<Seq<u8>>;

/// The octets of the message that `domain` starts as the answer to the
/// message `query` with the response code `rcode`: header and question
/// section, no records yet.
pub uninterp spec fn answer_start_octets(query: Seq<u8>, rcode: u8) -> Option<Seq<u8>>;

/// The uncompressed wire form of the domain name written as `text`, as
/// `domain` reads it.
pub uninterp spec fn dname_wire(text: Seq<char>) -> Option<Seq<u8>>;

/// The number of answer records that the header of `octets` announces.
pub open spec fn answer_count(octets: Seq<u8>) -> int {
    be16(octets[6], octets[7]) as int
}

/// The question of a message, as plain values.
pub struct SoleQuestion {
    /// The name in text form.
    pub name: String,
    /// The query type.
    pub qtype: u16,
}

/// The header of an answer record, as plain values.
pub struct RecordHeader {
    /// The owner name, in uncompressed wire form.
    pub owner: Vec<u8>,
    pub rtype: u16,
    pub class: u16,
    pub ttl: u32,
}

/// `Message::from_octets` and `Message::sole_question` of `domain`: the
/// only question of the message, with its name in text form (`Display` of
/// the parsed name) and its type. A question comes back only for a message
/// of at least twelve octets (`from_octets` refuses shorter ones).
#[verifier::external_body]
pub(crate) fn sole_question(octets: &[u8]) -> (res: Option<SoleQuestion>)
    ensures
        res matches Some(q) ==> parsed_sole_question(octets@) == Some((q.name@, q.qtype)),
        res is None ==> parsed_sole_question(octets@) is None,
        res is Some ==> octets@.len() >= 12,
{
    let msg = Message::from_octets(Bytes::copy_from_slice(octets)).ok()?;
    let q = msg.sole_question().ok()?;
    Some(SoleQuestion { name: q.qname().to_string(), qtype: q.qtype().to_int() })
}

/// `Message::sections` of `domain` and the record at position `index` of
/// the answer section's iterator, with its owner name composed into
/// uncompressed wire form (at most 255 octets, which `ParsedDname::parse`
/// checks). The iterator counts down from the header's answer count, so no
/// record comes back at a position at or past that count; nothing comes
/// back for a message shorter than a header.
#[verifier::external_body]
pub(crate) fn answer_header(octets: &[u8], index: usize) -> (res: Option<Option<RecordHeader>>)
    ensures
        res matches Some(Some(h)) ==> parsed_answer_header(octets@, index as int) == Some(
            Some((h.owner@, h.rtype, h.class, h.ttl)),
        ),
        res matches Some(None) ==> parsed_answer_header(octets@, index as int) == Some(
            None::<(Seq<u8>, u16, u16, u32)>,
        ),
        res is None ==> parsed_answer_header(octets@, index as int) is None,
        res is Some ==> octets@.len() >= 12,
        res matches Some(Some(h)) ==> index < answer_count(octets@) && h.owner@.len() <= 255,
{
    let msg = Message::from_octets(Bytes::copy_from_slice(octets)).ok()?;
    let item = msg.sections().ok()?.1.nth(index);
    let Some(Ok(rr)) = item else { return Some(None) };
    let mut owner = Vec::new();
    rr.owner().compose(&mut owner).ok()?;
    Some(Some(RecordHeader { owner, rtype: rr.rtype().to_int(), class: rr.class().to_int(), ttl: rr.ttl() }))
}

/// `ParsedRecord::to_record::<A>` of `domain` on the answer record at
/// position `index`: its address where the record parses as an A record,
/// which it does only for a record of type A (1).
#[verifier::external_body]
pub(crate) fn answer_address(octets: &[u8], index: usize) -> (res: Option<(u8, u8, u8, u8)>)
    ensures
        res == parsed_answer_address(octets@, index as int),
        res is Some ==> (parsed_answer_header(octets@, index as int) matches Some(Some(h)) && h.1 == 1),
{
    let msg = Message::from_octets(Bytes::copy_from_slice(octets)).ok()?;
    let rr = msg.sections().ok()?.1.nth(index)?.ok()?;
    let o = rr.to_record::<A>().ok()??.data().addr().octets();
    Some((o[0], o[1], o[2], o[3]))
}

/// `ParsedRecord::to_record::<Cname<_>>` of `domain` on the answer record
/// at position `index`: its alias, composed into uncompressed wire form (at
/// most 255 octets), where the record parses as a CNAME record, which it
/// does only for a record of type CNAME (5).
#[verifier::external_body]
pub(crate) fn answer_alias(octets: &[u8], index: usize) -> (res: Option<Vec<u8>>)
    ensures
        res matches Some(a) ==> parsed_answer_alias(octets@, index as int) == Some(a@),
        res is None ==> parsed_answer_alias(octets@, index as int) is None,
        res matches Some(a) ==> a@.len() <= 255,
        res is Some ==> (parsed_answer_header(octets@, index as int) matches Some(Some(h)) && h.1 == 5),
{
    let msg = Message::from_octets(Bytes::copy_from_slice(octets)).ok()?;
    let rr = msg.sections().ok()?.1.nth(index)?.ok()?;
    let c = rr.to_record::<Cname<ParsedDname<&Bytes>>>().ok()??;
    let mut alias = Vec::new();
    c.data().cname().compose(&mut alias).ok()?;
    Some(alias)
}

/// `MessageBuilder::start_answer` of `domain`, into a fresh builder, read
/// back as octets. `start_answer` copies the ID and the question section of
/// `query`, sets QR, copies OPCODE and RD, and sets the response code to the
/// low four bits of `rcode`; every other flag and the three record counts
/// stay zero, as the fresh builder's header has them. It needs `query` to be
/// at least a header long (`Message::from_octets`). Where `query` has one
/// readable question, that question is copied, so the answer has it as its
/// sole question too.
#[verifier::external_body]
pub(crate) fn start_answer(query: &[u8], rcode: u8) -> (res: Option<Vec<u8>>)
    ensures
        res matches Some(r) ==> answer_start_octets(query@, rcode) == Some(r@),
        res is None ==> answer_start_octets(query@, rcode) is None,
        res is Some <==> query@.len() >= 12,
        res matches Some(r) ==> {
            &&& r@.len() >= 12
            &&& r@[0] == query@[0]
            &&& r@[1] == query@[1]
            &&& r@[2] >= 128
            &&& r@[3] == rcode % 16
            &&& r@[6] == 0 && r@[7] == 0 && r@[8] == 0
            &&& r@[9] == 0 && r@[10] == 0 && r@[11] == 0
        },
        res matches Some(r) ==> (parsed_sole_question(query@) is Some ==> parsed_sole_question(r@)
            == parsed_sole_question(query@)),
{
    let msg = Message::from_octets(Bytes::copy_from_slice(query)).ok()?;
    let builder = MessageBuilder::from_target(Vec::new()).ok()?;
    Some(builder.start_answer(&msg, Rcode::from_int(rcode)).ok()?.finish())
}

/// `Dname::bytes_from_str` of `domain`: the name written as `text`, in
/// wire form (at least the root label's one octet).
#[verifier::external_body]
pub(crate) fn name_from_text(text: &str) -> (res: Option<Vec<u8>>)
    ensures
        res matches Some(w) ==> dname_wire(text@) == Some(w@),
        res is None ==> dname_wire(text@) is None,
        res matches Some(w) ==> 1 <= w@.len(),
{
    Some(Dname::<Bytes>::bytes_from_str(text).ok()?.as_slice().to_vec())
}

} // verus!
