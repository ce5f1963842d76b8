//! The few byte-level operations on a message that are plain enough to be
//! stated in a line or two: reading and setting the ID, setting the RA bit,
//! appending a record to the answer section, and laying out a query with one
//! question.

use vstd::prelude::*;

use crate::dns::be16;
use crate::message::answer_count;

verus! {

/// The two octets of `v` in network byte order.
pub open spec fn be16_bytes(v: u16) -> Seq<u8> {
    seq![(v / 256) as u8, (v % 256) as u8]
}

/// The four octets of `v` in network byte order.
pub open spec fn be32_bytes(v: u32) -> Seq<u8> {
    seq![(v / 16777216) as u8, ((v / 65536) % 256) as u8, ((v / 256) % 256) as u8, (v % 256) as u8]
}

/// A record to add to the answer section of a message.
pub struct OutRecord {
    /// The owner name, in uncompressed wire form.
    pub owner: Vec<u8>,
    pub rtype: u16,
    pub class: u16,
    pub ttl: u32,
    /// The record data, in wire form.
    pub data: Vec<u8>,
}

/// A record to add to an answer section, as plain values.
pub struct OutRecordView {
    pub owner: Seq<u8>,
    pub rtype: u16,
    pub class: u16,
    pub ttl: u32,
    pub data: Seq<u8>,
}

impl View for OutRecord {
    type V = OutRecordView;

    open spec fn view(&self) -> OutRecordView {
        OutRecordView {
            owner: self.owner@,
            rtype: self.rtype,
            class: self.class,
            ttl: self.ttl,
            data: self.data@,
        }
    }
}

/// The wire form of a record with uncompressed names: owner, type, class,
/// TTL, the length of the data, and the data.
pub open spec fn encode_record(r: OutRecordView) -> Seq<u8> {
    r.owner + be16_bytes(r.rtype) + be16_bytes(r.class) + be32_bytes(r.ttl) + be16_bytes(
        r.data.len() as u16,
    ) + r.data
}

/// The message `m` with its answer count set to `n`.
pub open spec fn with_answer_count(m: Seq<u8>, n: u16) -> Seq<u8> {
    m.update(6, (n / 256) as u8).update(7, (n % 256) as u8)
}

/// The message `m` with the record `r` appended to its answer section,
/// which is the last section of `m`: the record's wire form is added at the
/// end and the answer count goes up by one.
pub open spec fn with_record(m: Seq<u8>, r: OutRecordView) -> Seq<u8> {
    with_answer_count(m, (answer_count(m) + 1) as u16) + encode_record(r)
}

/// The message `m` with the records `rs` appended in their order.
pub open spec fn with_records(m: Seq<u8>, rs: Seq<OutRecordView>) -> Seq<u8>
    decreases rs.len(),
{
    if rs.len() == 0 {
        m
    } else {
        with_record(with_records(m, rs.drop_last()), rs.last())
    }
}

/// The ID of the message `m`.
pub open spec fn message_id(m: Seq<u8>) -> u16 {
    be16(m[0], m[1])
}

/// The message `m` with its ID set to `id`.
pub open spec fn with_id(m: Seq<u8>, id: u16) -> Seq<u8> {
    m.update(0, (id / 256) as u8).update(1, (id % 256) as u8)
}

/// The message `m` with its RA bit (recursion available) set.
pub open spec fn with_ra(m: Seq<u8>) -> Seq<u8> {
    m.update(3, m[3] | 0x80u8)
}

/// Whether the RA bit of the message `m` is set.
pub open spec fn ra_set(m: Seq<u8>) -> bool {
    m[3] >= 128
}

/// The query with the ID `id` and the one question for the name of wire
/// form `name`, of type `qtype` and of class IN: every flag clear, one
/// question, no records.
pub open spec fn query_octets(name: Seq<u8>, qtype: u16, id: u16) -> Seq<u8> {
    be16_bytes(id) + seq![0u8, 0u8, 0u8, 1u8, 0u8, 0u8, 0u8, 0u8, 0u8, 0u8] + name + be16_bytes(
        qtype,
    ) + seq![0u8, 1u8]
}

/// Appending records to a message keeps every octet of it but the answer
/// count (so its header and question stay), and adds after its end; the
/// answer count goes up by the number of records appended.
pub proof fn lemma_with_records_header(m: Seq<u8>, rs: Seq<OutRecordView>)
    requires
        m.len() >= 12,
        answer_count(m) + rs.len() <= 65535,
    ensures
        with_records(m, rs).len() >= 12,
        forall|k: int| 0 <= k < 6 ==> #[trigger] with_records(m, rs)[k] == m[k],
        with_records(m, rs).len() >= m.len(),
        forall|k: int| 0 <= k < m.len() && k != 6 && k != 7 ==> #[trigger] with_records(m, rs)[k] == m[k],
        answer_count(with_records(m, rs)) == answer_count(m) + rs.len(),
    decreases rs.len(),
{
    if rs.len() > 0 {
        lemma_with_records_header(m, rs.drop_last());
        let p = with_records(m, rs.drop_last());
        let n = (answer_count(p) + 1) as u16;
        lemma_be16_split(n);
        assert(with_records(m, rs) == with_record(p, rs.last()));
    }
}

/// Writing an ID into a message and reading it back gives that ID, and
/// leaves every other octet as it was.
pub proof fn lemma_id_write_read(m: Seq<u8>, id: u16)
    requires
        m.len() >= 2,
    ensures
        message_id(with_id(m, id)) == id,
        with_id(m, id).len() == m.len(),
        forall|k: int| 2 <= k < m.len() ==> #[trigger] with_id(m, id)[k] == m[k],
{
    lemma_be16_split(id);
}

/// Setting the RA bit sets it, and changes no octet but the fourth.
pub proof fn lemma_ra_set(m: Seq<u8>)
    requires
        m.len() >= 4,
    ensures
        ra_set(with_ra(m)),
        with_ra(m)[3] % 16 == m[3] % 16,
        with_ra(m).len() == m.len(),
        forall|k: int| 0 <= k < m.len() && k != 3 ==> #[trigger] with_ra(m)[k] == m[k],
{
    let b = m[3];
    assert(b | 0x80u8 >= 128 && (b | 0x80u8) % 16 == b % 16) by (bit_vector);
}

pub(crate) fn push_be16(v: &mut Vec<u8>, x: u16)
    ensures
        final(v)@ == old(v)@ + be16_bytes(x),
{
    v.push((x / 256) as u8);
    v.push((x % 256) as u8);
}

fn push_be32(v: &mut Vec<u8>, x: u32)
    ensures
        final(v)@ == old(v)@ + be32_bytes(x),
{
    v.push((x / 16777216) as u8);
    v.push(((x / 65536) % 256) as u8);
    v.push(((x / 256) % 256) as u8);
    v.push((x % 256) as u8);
}

pub(crate) fn push_all(v: &mut Vec<u8>, w: &Vec<u8>)
    ensures
        final(v)@ == old(v)@ + w@,
{
    let ghost v0 = v@;
    let mut i: usize = 0;
    while i < w.len()
        invariant
            i <= w@.len(),
            v@ == v0 + w@.take(i as int),
        decreases w@.len() - i,
    {
        v.push(w[i]);
        assert(w@.take(i + 1) == w@.take(i as int).push(w@[i as int]));
        i = i + 1;
    }
    assert(w@.take(w@.len() as int) == w@);
}

/// The ID of the message `m`.
pub fn read_id(m: &[u8]) -> (r: u16)
    requires
        m@.len() >= 2,
    ensures
        r == message_id(m@),
{
    let hi = m[0];
    let lo = m[1];
    assert(((hi as u16) << 8u16) | (lo as u16) == (hi as int * 256 + lo as int) as u16)
        by (bit_vector);
    ((hi as u16) << 8) | (lo as u16)
}

/// Sets the ID of the message `m`.
pub fn write_id(m: &mut Vec<u8>, id: u16)
    requires
        old(m)@.len() >= 2,
    ensures
        final(m)@ == with_id(old(m)@, id),
{
    m.set(0, (id / 256) as u8);
    m.set(1, (id % 256) as u8);
}

/// Sets the RA bit of the message `m`.
pub fn set_ra(m: &mut Vec<u8>)
    requires
        old(m)@.len() >= 12,
    ensures
        final(m)@ == with_ra(old(m)@),
{
    let b = m[3] | 0x80u8;
    m.set(3, b);
}

/// Appends the record `r` to the answer section of `m`, the last section
/// of `m`.
pub fn append_record(m: &mut Vec<u8>, r: &OutRecord)
    requires
        old(m)@.len() >= 12,
        answer_count(old(m)@) < 65535,
        r.data@.len() <= 65535,
    ensures
        final(m)@ == with_record(old(m)@, r@),
        final(m)@.len() >= 12,
        answer_count(final(m)@) == answer_count(old(m)@) + 1,
{
    let n: u16 = read_count(m) + 1;
    m.set(6, (n / 256) as u8);
    m.set(7, (n % 256) as u8);
    proof {
        lemma_be16_split(n);
    }
    push_all(m, &r.owner);
    push_be16(m, r.rtype);
    push_be16(m, r.class);
    push_be32(m, r.ttl);
    push_be16(m, r.data.len() as u16);
    push_all(m, &r.data);
}

proof fn lemma_be16_split(n: u16)
    ensures
        be16((n / 256) as u8, (n % 256) as u8) == n,
{
}

fn read_count(m: &Vec<u8>) -> (r: u16)
    requires
        m@.len() >= 12,
    ensures
        r == answer_count(m@),
{
    let hi = m[6];
    let lo = m[7];
    assert(((hi as u16) << 8u16) | (lo as u16) == (hi as int * 256 + lo as int) as u16)
        by (bit_vector);
    ((hi as u16) << 8) | (lo as u16)
}

/// Lays out the query with the ID `id` and the one question for the name
/// of wire form `name`, of type `qtype` and class IN.
pub fn build_query(name: &Vec<u8>, qtype: u16, id: u16) -> (r: Vec<u8>)
    ensures
        r@ == query_octets(name@, qtype, id),
{
    let mut r: Vec<u8> = Vec::new();
    push_be16(&mut r, id);
    push_be16(&mut r, 0);
    push_be16(&mut r, 1);
    push_be16(&mut r, 0);
    push_be16(&mut r, 0);
    push_be16(&mut r, 0);
    push_all(&mut r, name);
    push_be16(&mut r, qtype);
    push_be16(&mut r, 1);
    r
}

} // verus!
