use vstd::prelude::*;
use vstd::utf8::{decode_utf8, valid_utf8};

use crate::text::{join_with, push_str, push_char, utf8_to_string};

verus! {

/// The big-endian 16-bit number formed by two bytes.
pub open spec fn be16(hi: u8, lo: u8) -> u16 {
    (hi as int * 256 + lo as int) as u16
}

/// The fields of a DNS header, as numbers.
pub struct HeaderFields {
    pub tranction_id: u16,
    pub flags: u16,
    pub questions: u16,
    pub answer_rrs: u16,
    pub authority_rrs: u16,
    pub additional_rrs: u16,
}

/// The fixed 12-byte header of a DNS message.
#[derive(Debug)]
pub struct DNSHeader {
    tranction_id: u16,
    flags: u16,
    questions: u16,
    answer_rrs: u16,
    authority_rrs: u16,
    additional_rrs: u16,
}

impl View for DNSHeader {
    type V = HeaderFields;

    closed spec fn view(&self) -> HeaderFields {
        HeaderFields {
            tranction_id: self.tranction_id,
            flags: self.flags,
            questions: self.questions,
            answer_rrs: self.answer_rrs,
            authority_rrs: self.authority_rrs,
            additional_rrs: self.additional_rrs,
        }
    }
}

/// The header that the first twelve bytes of `b` encode, each field in
/// network byte order.
pub open spec fn header_of(b: Seq<u8>) -> HeaderFields {
    HeaderFields {
        tranction_id: be16(b[0], b[1]),
        flags: be16(b[2], b[3]),
        questions: be16(b[4], b[5]),
        answer_rrs: be16(b[6], b[7]),
        authority_rrs: be16(b[8], b[9]),
        additional_rrs: be16(b[10], b[11]),
    }
}

fn be16_exec(hi: u8, lo: u8) -> (r: u16)
    ensures
        r == be16(hi, lo),
{
    assert(((hi as u16) << 8u16) | (lo as u16) == (hi as int * 256 + lo as int) as u16)
        by (bit_vector);
    ((hi as u16) << 8) | (lo as u16)
}

proof fn lemma_small_masks()
    ensures
        1u16 << 1u16 == 2u16,
        1u16 << 3u16 == 8u16,
        1u16 << 4u16 == 16u16,
{
    assert(1u16 << 1u16 == 2u16 && 1u16 << 3u16 == 8u16 && 1u16 << 4u16 == 16u16) by (bit_vector);
}

impl DNSHeader {
    /// Reads the header from the first twelve bytes of `buf`; also returns
    /// the number of bytes read, which is always twelve.
    pub fn parse(buf: &Vec<u8>) -> (res: (DNSHeader, usize))
        requires
            buf@.len() >= 12,
        ensures
            res.0@ == header_of(buf@),
            res.1 == 12,
    {
        (
            DNSHeader {
                tranction_id: be16_exec(buf[0], buf[1]),
                flags: be16_exec(buf[2], buf[3]),
                questions: be16_exec(buf[4], buf[5]),
                answer_rrs: be16_exec(buf[6], buf[7]),
                authority_rrs: be16_exec(buf[8], buf[9]),
                additional_rrs: be16_exec(buf[10], buf[11]),
            },
            12,
        )
    }

    pub fn tranction_id(&self) -> (r: u16)
        ensures
            r == self@.tranction_id,
    {
        self.tranction_id
    }

    pub fn questions(&self) -> (r: u16)
        ensures
            r == self@.questions,
    {
        self.questions
    }

    pub fn answer_rrs(&self) -> (r: u16)
        ensures
            r == self@.answer_rrs,
    {
        self.answer_rrs
    }

    pub fn authority_rrs(&self) -> (r: u16)
        ensures
            r == self@.authority_rrs,
    {
        self.authority_rrs
    }

    pub fn additional_rrs(&self) -> (r: u16)
        ensures
            r == self@.additional_rrs,
    {
        self.additional_rrs
    }

    /// The QR bit: 1 for a response, 0 for a query.
    pub fn qr(&self) -> (r: u16)
        ensures
            r == self@.flags as int / 32768,
    {
        let f = self.flags;
        assert(f >> 15u16 == f / 32768) by (bit_vector);
        f >> 15
    }

    /// The four-bit OPCODE.
    pub fn op_code(&self) -> (r: u16)
        ensures
            r == (self@.flags as int / 2048) % 16,
    {
        let f = self.flags;
        proof { lemma_small_masks(); }
        assert((f >> 11u16) % 16 == (f / 2048) % 16) by (bit_vector);
        (f >> 11) % (1 << 4)
    }

    /// The AA bit (authoritative answer).
    pub fn aa(&self) -> (r: u16)
        ensures
            r == (self@.flags as int / 1024) % 2,
    {
        let f = self.flags;
        proof { lemma_small_masks(); }
        assert((f >> 10u16) % 2 == (f / 1024) % 2) by (bit_vector);
        (f >> 10) % (1 << 1)
    }

    /// The TC bit (truncated).
    pub fn tc(&self) -> (r: u16)
        ensures
            r == (self@.flags as int / 512) % 2,
    {
        let f = self.flags;
        proof { lemma_small_masks(); }
        assert((f >> 9u16) % 2 == (f / 512) % 2) by (bit_vector);
        (f >> 9) % (1 << 1)
    }

    /// The RD bit (recursion desired).
    pub fn rd(&self) -> (r: u16)
        ensures
            r == (self@.flags as int / 256) % 2,
    {
        let f = self.flags;
        proof { lemma_small_masks(); }
        assert((f >> 8u16) % 2 == (f / 256) % 2) by (bit_vector);
        (f >> 8) % (1 << 1)
    }

    /// The RA bit (recursion available).
    pub fn ra(&self) -> (r: u16)
        ensures
            r == (self@.flags as int / 128) % 2,
    {
        let f = self.flags;
        proof { lemma_small_masks(); }
        assert((f >> 7u16) % 2 == (f / 128) % 2) by (bit_vector);
        (f >> 7) % (1 << 1)
    }

    /// The three reserved Z bits.
    pub fn z(&self) -> (r: u16)
        ensures
            r == (self@.flags as int / 16) % 8,
    {
        let f = self.flags;
        proof { lemma_small_masks(); }
        assert((f >> 4u16) % 8 == (f / 16) % 8) by (bit_vector);
        (f >> 4) % (1 << 3)
    }

    /// The four-bit RCODE.
    pub fn r_code(&self) -> (r: u16)
        ensures
            r == self@.flags as int % 16,
    {
        let f = self.flags;
        proof { lemma_small_masks(); }
        f % (1 << 4)
    }
}

/// The eight flag fields of a header word, from QR down to RCODE, put back
/// together at their places give the word again: no bit of the flags is lost
/// or counted twice by the field accessors of `DNSHeader`.
pub proof fn lemma_flag_fields_recompose(flags: u16)
    ensures
        flags as int == (flags as int / 32768) * 32768 + ((flags as int / 2048) % 16) * 2048
            + ((flags as int / 1024) % 2) * 1024 + ((flags as int / 512) % 2) * 512
            + ((flags as int / 256) % 2) * 256 + ((flags as int / 128) % 2) * 128
            + ((flags as int / 16) % 8) * 16 + flags as int % 16,
{
    assert(flags == (flags / 32768) * 32768 + ((flags / 2048) % 16) * 2048
        + ((flags / 1024) % 2) * 1024 + ((flags / 512) % 2) * 512 + ((flags / 256) % 2) * 256
        + ((flags / 128) % 2) * 128 + ((flags / 16) % 8) * 16 + flags % 16) by (bit_vector);
}


/// The bytes `b[from..to]`, copied.
pub(crate) fn copy_range(b: &Vec<u8>, from: usize, to: usize) -> (r: Vec<u8>)
    requires
        from <= to <= b@.len(),
    ensures
        r@ == b@.subrange(from as int, to as int),
{
    let mut r: Vec<u8> = Vec::new();
    let mut k: usize = from;
    while k < to
        invariant
            from <= k <= to <= b@.len(),
            r@ == b@.subrange(from as int, k as int),
        decreases to - k,
    {
        r.push(b[k]);
        k = k + 1;
    }
    r
}

/// Whether the labels of a name, read the way `DNSQuestion::parse` reads
/// them, lie inside `b` and are UTF-8: `len` is the length byte just read
/// and `start` the position after it; a zero length ends the name.
pub open spec fn labels_ok(b: Seq<u8>, start: int, len: int) -> bool
    decreases b.len() - start,
{
    if len == 0 {
        true
    } else if 0 < len && 0 <= start && start + len < b.len() {
        valid_utf8(b.subrange(start, start + len)) && labels_ok(
            b,
            start + len + 1,
            b[start + len] as int,
        )
    } else {
        false
    }
}

/// The labels read from `start` on, given the length byte `len` just read.
pub open spec fn labels_from(b: Seq<u8>, start: int, len: int) -> Seq<Seq<u8>>
    decreases b.len() - start,
{
    if 0 < len && 0 <= start && start + len < b.len() {
        seq![b.subrange(start, start + len)] + labels_from(b, start + len + 1, b[start + len] as int)
    } else {
        Seq::empty()
    }
}

/// The position just after the zero length byte that ends the name.
pub open spec fn name_end(b: Seq<u8>, start: int, len: int) -> int
    decreases b.len() - start,
{
    if 0 < len && 0 <= start && start + len < b.len() {
        name_end(b, start + len + 1, b[start + len] as int)
    } else {
        start
    }
}

/// Whether `DNSQuestion::parse` can read `b`: the name from the first byte
/// on is well formed, and the four bytes that are read as type and class
/// after it lie inside `b`.
pub open spec fn question_readable(b: Seq<u8>) -> bool {
    &&& b.len() >= 1
    &&& labels_ok(b, 1, b[0] as int)
    &&& name_end(b, 1, b[0] as int) + 4 < b.len()
}

/// The text of each label of the name at the start of `b`.
pub open spec fn label_texts(b: Seq<u8>) -> Seq<Seq<char>> {
    labels_from(b, 1, b[0] as int).map_values(|l: Seq<u8>| decode_utf8(l))
}

/// The fields of a question.
pub struct QuestionFields {
    pub q_name: Seq<char>,
    pub q_type: u16,
    pub q_class: u16,
}

/// What `DNSQuestion::parse` reads from `b`: the labels joined by dots; the
/// type from the two bytes that follow the byte after the name, and the
/// class from the two after those.
pub open spec fn question_of(b: Seq<u8>) -> QuestionFields {
    let e = name_end(b, 1, b[0] as int);
    QuestionFields {
        q_name: join_with(label_texts(b), '.'),
        q_type: be16(b[e + 1], b[e + 2]),
        q_class: be16(b[e + 3], b[e + 4]),
    }
}

/// A question: a domain name with a type and a class.
pub struct DNSQuestion {
    q_name: String,
    q_type: u16,
    q_class: u16,
}

impl View for DNSQuestion {
    type V = QuestionFields;

    closed spec fn view(&self) -> QuestionFields {
        QuestionFields { q_name: self.q_name@, q_type: self.q_type, q_class: self.q_class }
    }
}

proof fn lemma_labels_step(b: Seq<u8>, start: int, len: int)
    requires
        0 < len,
        0 <= start,
        start + len < b.len(),
    ensures
        labels_from(b, start, len) == seq![b.subrange(start, start + len)] + labels_from(
            b,
            start + len + 1,
            b[start + len] as int,
        ),
        name_end(b, start, len) == name_end(b, start + len + 1, b[start + len] as int),
        labels_ok(b, start, len) == (valid_utf8(b.subrange(start, start + len)) && labels_ok(
            b,
            start + len + 1,
            b[start + len] as int,
        )),
{
}

proof fn lemma_name_end_bounds(b: Seq<u8>, start: int, len: int)
    requires
        labels_ok(b, start, len),
        0 <= start,
    ensures
        name_end(b, start, len) >= start,
        len > 0 ==> name_end(b, start, len) > start + len,
    decreases b.len() - start,
{
    if len > 0 {
        lemma_name_end_bounds(b, start + len + 1, b[start + len] as int);
    }
}

/// Reading a name from `start` looks only at the bytes before where the
/// name ends: a sequence `c` that agrees with `b` there reads the same.
proof fn lemma_walk_prefix(b: Seq<u8>, c: Seq<u8>, start: int, len: int)
    requires
        labels_ok(b, start, len),
        0 <= start,
        name_end(b, start, len) <= c.len(),
        forall|i: int| 0 <= i < name_end(b, start, len) ==> #[trigger] c[i] == b[i],
    ensures
        labels_ok(c, start, len),
        labels_from(c, start, len) == labels_from(b, start, len),
        name_end(c, start, len) == name_end(b, start, len),
    decreases b.len() - start,
{
    if len > 0 {
        lemma_name_end_bounds(b, start, len);
        lemma_name_end_bounds(b, start + len + 1, b[start + len] as int);
        assert(c[start + len] == b[start + len]);
        assert(c.subrange(start, start + len) =~= b.subrange(start, start + len));
        lemma_walk_prefix(b, c, start + len + 1, b[start + len] as int);
    }
}

/// What `DNSQuestion::parse` reads depends only on the bytes up to and
/// including the last one it reads: any bytes may follow them.
pub proof fn lemma_question_ignores_trailing_bytes(b: Seq<u8>, extra: Seq<u8>)
    requires
        question_readable(b),
    ensures
        ({
            let n = name_end(b, 1, b[0] as int) + 4;
            let c = b.subrange(0, n + 1) + extra;
            &&& question_readable(c)
            &&& question_of(c) == question_of(b)
            &&& name_end(c, 1, c[0] as int) + 4 == n
        }),
{
    let e = name_end(b, 1, b[0] as int);
    let n = e + 4;
    let c = b.subrange(0, n + 1) + extra;
    lemma_name_end_bounds(b, 1, b[0] as int);
    assert(c[0] == b[0]);
    assert forall|i: int| 0 <= i < e implies #[trigger] c[i] == b[i] by {}
    lemma_walk_prefix(b, c, 1, b[0] as int);
    assert(c[e + 1] == b[e + 1] && c[e + 2] == b[e + 2]);
    assert(c[e + 3] == b[e + 3] && c[e + 4] == b[e + 4]);
    assert(label_texts(c) == label_texts(b));
}

/// The strings of `parts` joined by dots.
fn join_dots(parts: &Vec<String>) -> (r: String)
    ensures
        r@ == join_with(parts@.map_values(|p: String| p@), '.'),
{
    let ghost views = parts@.map_values(|p: String| p@);
    let mut r = String::new();
    let mut i: usize = 0;
    while i < parts.len()
        invariant
            i <= parts@.len(),
            views == parts@.map_values(|p: String| p@),
            r@ == join_with(views.take(i as int), '.'),
        decreases parts@.len() - i,
    {
        if i > 0 {
            push_char(&mut r, '.');
        }
        push_str(&mut r, parts[i].as_str());
        assert(views.take(i + 1).drop_last() == views.take(i as int));
        i = i + 1;
    }
    assert(views.take(parts@.len() as int) == views);
    r
}

impl DNSQuestion {
    /// Reads a question laid out from the first byte of `buf`: the name as
    /// length-prefixed labels ended by a zero length, then type and class.
    /// The type is read from the two bytes that follow the byte after the
    /// end of the name, and the class from the two after those; the number
    /// returned is the position of the last byte read.
    pub fn parse(buf: Vec<u8>) -> (res: (DNSQuestion, usize))
        requires
            question_readable(buf@),
        ensures
            res.0@ == question_of(buf@),
            res.1 == name_end(buf@, 1, buf@[0] as int) + 4,
    {
        let ghost b = buf@;
        let mut data: Vec<String> = Vec::new();
        let mut len: usize = buf[0] as usize;
        let mut start: usize = 1;
        let mut end: usize = start + len;
        let ghost mut done: Seq<Seq<u8>> = Seq::empty();
        while len > 0
            invariant
                b == buf@,
                question_readable(b),
                end == start + len,
                1 <= start,
                labels_ok(b, start as int, len as int),
                name_end(b, start as int, len as int) == name_end(b, 1, b[0] as int),
                labels_from(b, 1, b[0] as int) == done + labels_from(b, start as int, len as int),
                data@.len() == done.len(),
                forall|i: int| 0 <= i < done.len() ==> #[trigger] data@[i]@ == decode_utf8(done[i]),
            decreases b.len() - start,
        {
            proof {
                lemma_labels_step(b, start as int, len as int);
            }
            let piece = copy_range(&buf, start, end);
            let text = match utf8_to_string(piece) {
                Some(t) => t,
                None => {
                    assert(false);
                    String::new()
                },
            };
            proof {
                done = done.push(b.subrange(start as int, end as int));
                assert(labels_from(b, 1, b[0] as int) == done + labels_from(b, end + 1, b[end as int] as int));
            }
            data.push(text);
            assert(end < b.len());
            assert(b.len() == buf.len());
            start = end + 1;
            len = buf[end] as usize;
            assert(len == 0 || start + len < b.len());
            end = start + len;
        }
        proof {
            assert(labels_from(b, start as int, 0) == Seq::<Seq<u8>>::empty());
            assert(done == labels_from(b, 1, b[0] as int));
            assert(data@.map_values(|p: String| p@) == label_texts(b));
            assert(name_end(b, start as int, 0) == start);
            assert(end == start);
            assert(end + 4 < b.len());
        }
        assert(end + 4 < buf.len());
        let q_type = be16_exec(buf[end + 1], buf[end + 2]);
        let q_class = be16_exec(buf[end + 3], buf[end + 4]);
        (DNSQuestion { q_name: join_dots(&data), q_type, q_class }, end + 4)
    }

    pub fn q_name(&self) -> (r: &str)
        ensures
            r@ == self@.q_name,
    {
        self.q_name.as_str()
    }

    pub fn q_type(&self) -> (r: u16)
        ensures
            r == self@.q_type,
    {
        self.q_type
    }

    pub fn q_class(&self) -> (r: u16)
        ensures
            r == self@.q_class,
    {
        self.q_class
    }
}

/// A resource record of a DNS message.
pub struct DNSResourceRecord {
    rr_name: String,
    rr_type: u16,
    rr_class: u16,
    rr_ttl: u32,
    rr_data_len: u16,
    rr_data: String,
}

} // verus!
