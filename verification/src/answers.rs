//! The answer records of a message, and the rule that picks which of them go
//! into an answer of this server and with which TTL.

use vstd::prelude::*;

use crate::message::{
    answer_address, answer_alias, answer_count, answer_header, parsed_answer_address,
    parsed_answer_alias, parsed_answer_header,
};
use crate::wire::{append_record, push_all, with_records, OutRecord, OutRecordView};

verus! {

/// The record type A (an IPv4 address).
pub const RTYPE_A: u16 = 1;

/// The record type CNAME (an alias).
pub const RTYPE_CNAME: u16 = 5;

/// An answer record read from a message.
pub struct AnswerRecord {
    /// The owner name, in uncompressed wire form.
    pub owner: Vec<u8>,
    pub rtype: u16,
    pub class: u16,
    pub ttl: u32,
    /// The address, where the record reads as an A record.
    pub address: Option<(u8, u8, u8, u8)>,
    /// The alias in wire form, where the record reads as a CNAME record.
    pub alias: Option<Vec<u8>>,
}

/// An answer record, as plain values.
pub struct AnswerRecordView {
    pub owner: Seq<u8>,
    pub rtype: u16,
    pub class: u16,
    pub ttl: u32,
    pub address: Option<(u8, u8, u8, u8)>,
    pub alias: Option<Seq<u8>>,
}

impl View for AnswerRecord {
    type V = AnswerRecordView;

    open spec fn view(&self) -> AnswerRecordView {
        AnswerRecordView {
            owner: self.owner@,
            rtype: self.rtype,
            class: self.class,
            ttl: self.ttl,
            address: self.address,
            alias: match self.alias {
                Some(a) => Some(a@),
                None => None,
            },
        }
    }
}

/// The answer record at position `i` of the message `o`, whose header is `h`.
pub open spec fn record_at(o: Seq<u8>, i: int, h: (Seq<u8>, u16, u16, u32)) -> AnswerRecordView {
    AnswerRecordView {
        owner: h.0,
        rtype: h.1,
        class: h.2,
        ttl: h.3,
        address: parsed_answer_address(o, i),
        alias: parsed_answer_alias(o, i),
    }
}

/// The answer records of `o` from position `i` on, up to the first position
/// with no record or with one that cannot be parsed; `None` where `o`
/// cannot be split into its sections.
pub open spec fn records_from(o: Seq<u8>, i: nat) -> Option<Seq<AnswerRecordView>>
    decreases 65536 - i,
{
    if i >= 65536 {
        Some(Seq::empty())
    } else {
        match parsed_answer_header(o, i as int) {
            None => None,
            Some(None) => Some(Seq::empty()),
            Some(Some(h)) => match records_from(o, i + 1) {
                None => None,
                Some(rest) => Some(seq![record_at(o, i as int, h)] + rest),
            },
        }
    }
}

/// The answer records of the message `o`, in their order.
pub open spec fn answer_records_of(o: Seq<u8>) -> Option<Seq<AnswerRecordView>> {
    records_from(o, 0)
}

/// Whether the data of `r` agrees with its type: an address only on an A
/// record, an alias only on a CNAME record, and an alias of at most 255
/// octets.
pub open spec fn record_consistent(r: AnswerRecordView) -> bool {
    &&& (r.address is Some ==> r.rtype == RTYPE_A)
    &&& (r.alias is Some ==> r.rtype == RTYPE_CNAME)
    &&& (r.alias matches Some(a) ==> a.len() <= 255)
}

/// Whether `r` is what `domain` reads as the answer record at position `k`
/// of `o`: its header there, and its data read as an A and as a CNAME record.
pub open spec fn read_at(o: Seq<u8>, k: int, r: AnswerRecordView) -> bool {
    &&& parsed_answer_header(o, k) == Some(Some((r.owner, r.rtype, r.class, r.ttl)))
    &&& r.address == parsed_answer_address(o, k)
    &&& r.alias == parsed_answer_alias(o, k)
}

/// The records read from a message are its parsed answer records, one per
/// position and in order, up to the first position with none: where the
/// record at position `i` parses, the records from `i` are that record
/// followed by the records from `i + 1`, so none is skipped.
pub proof fn lemma_records_positions(o: Seq<u8>, i: nat)
    requires
        i <= 65535,
    ensures
        records_from(o, i) matches Some(rs) ==> {
            &&& forall|k: int| 0 <= k < rs.len() ==> #[trigger] read_at(o, i + k, rs[k])
            &&& parsed_answer_header(o, (i + rs.len()) as int) == Some(None::<(Seq<u8>, u16, u16, u32)>)
                || i + rs.len() >= 65536
        },
        records_from(o, i) is None ==> exists|k: int| i <= k < 65536 && #[trigger] parsed_answer_header(o, k) is None,
    decreases 65536 - i,
{
    match parsed_answer_header(o, i as int) {
        None => {},
        Some(None) => {},
        Some(Some(h)) => {
            if i < 65535 {
                lemma_records_positions(o, i + 1);
                match records_from(o, i + 1) {
                    None => {},
                    Some(rest) => {
                        let rs = seq![record_at(o, i as int, h)] + rest;
                        assert forall|k: int| 0 <= k < rs.len() implies #[trigger] read_at(o, i + k, rs[k]) by {
                            if k > 0 {
                                assert(rs[k] == rest[k - 1]);
                                assert(read_at(o, (i + 1) + (k - 1), rest[k - 1]));
                            }
                        }
                    },
                }
            } else {
                assert(records_from(o, (i + 1) as nat) == Some(Seq::<AnswerRecordView>::empty()));
            }
        },
    }
}

/// Reads the answer records of the message `o`: those up to the first that
/// cannot be parsed. `None` where the message cannot be split into its
/// sections.
pub fn collect_answers(o: &[u8]) -> (res: Option<Vec<AnswerRecord>>)
    ensures
        res matches Some(v) ==> answer_records_of(o@) == Some(v@.map_values(|r: AnswerRecord| r@)),
        res is None ==> answer_records_of(o@) is None,
        res matches Some(v) ==> v@.len() <= 65535 && forall|k: int|
            0 <= k < v@.len() ==> record_consistent(#[trigger] v@[k]@),
        res matches Some(v) ==> forall|k: int| 0 <= k < v@.len() ==> #[trigger] read_at(o@, k, v@[k]@),
        res matches Some(v) ==> parsed_answer_header(o@, v@.len() as int) == Some(
            None::<(Seq<u8>, u16, u16, u32)>,
        ),
        res is None ==> exists|k: int|
            0 <= k <= 65535 && #[trigger] parsed_answer_header(o@, k) is None,
{
    let mut out: Vec<AnswerRecord> = Vec::new();
    let mut i: usize = 0;
    loop
        invariant
            i <= 65535,
            out@.len() == i,
            i > 0 ==> o@.len() >= 12 && i <= answer_count(o@),
            forall|k: int| 0 <= k < out@.len() ==> record_consistent(#[trigger] out@[k]@),
            forall|k: int| 0 <= k < out@.len() ==> #[trigger] read_at(o@, k, out@[k]@),
            records_from(o@, 0) == match records_from(o@, i as nat) {
                None => None,
                Some(rest) => Some(out@.map_values(|r: AnswerRecord| r@) + rest),
            },
        decreases 65535 - i,
    {
        match answer_header(o, i) {
            None => {
                assert(parsed_answer_header(o@, i as int) is None);
                return None;
            },
            Some(None) => {
                assert(records_from(o@, i as nat) == Some(Seq::<AnswerRecordView>::empty()));
                assert(out@.map_values(|r: AnswerRecord| r@) + Seq::<AnswerRecordView>::empty()
                    == out@.map_values(|r: AnswerRecord| r@));
                return Some(out);
            },
            Some(Some(h)) => {
                let address = answer_address(o, i);
                let alias = answer_alias(o, i);
                let rec = AnswerRecord {
                    owner: h.owner,
                    rtype: h.rtype,
                    class: h.class,
                    ttl: h.ttl,
                    address,
                    alias,
                };
                proof {
                    let hv = (rec.owner@, rec.rtype, rec.class, rec.ttl);
                    assert(rec@ == record_at(o@, i as int, hv));
                    let old_views = out@.map_values(|r: AnswerRecord| r@);
                    assert(old_views.push(rec@) == out@.push(rec).map_values(|r: AnswerRecord| r@));
                    match records_from(o@, (i + 1) as nat) {
                        None => {},
                        Some(rest) => {
                            assert(old_views + (seq![rec@] + rest) == old_views.push(rec@) + rest);
                        },
                    }
                }
                let ghost recv = rec@;
                out.push(rec);
                assert(out@[i as int]@ == recv);
                assert(read_at(o@, i as int, recv));
                i = i + 1;
            },
        }
    }
}

/// What the record `r` turns into in an answer of this server, with the
/// TTL `ttl`: an A record that reads as one gives an A record with its
/// address, a CNAME record that reads as one gives a CNAME record with its
/// alias, and any other record gives nothing.
pub open spec fn answer_form(r: AnswerRecordView, ttl: u32) -> Seq<OutRecordView> {
    if r.rtype != RTYPE_A && r.rtype != RTYPE_CNAME {
        Seq::empty()
    } else {
        (match r.address {
            Some(a) => seq![
                OutRecordView {
                    owner: r.owner,
                    rtype: RTYPE_A,
                    class: r.class,
                    ttl,
                    data: seq![a.0, a.1, a.2, a.3],
                },
            ],
            None => Seq::empty(),
        }) + (match r.alias {
            Some(c) => seq![
                OutRecordView { owner: r.owner, rtype: RTYPE_CNAME, class: r.class, ttl, data: c },
            ],
            None => Seq::empty(),
        })
    }
}

/// The TTL that the record `r` gets: `ttl` where it is given, else its own.
pub open spec fn ttl_for(r: AnswerRecordView, ttl: Option<u32>) -> u32 {
    match ttl {
        Some(t) => t,
        None => r.ttl,
    }
}

/// The records of an answer of this server made from `rs`, in their order,
/// each with the TTL `ttl` where it is given and its own otherwise.
pub open spec fn answer_selection(rs: Seq<AnswerRecordView>, ttl: Option<u32>) -> Seq<OutRecordView>
    decreases rs.len(),
{
    if rs.len() == 0 {
        Seq::empty()
    } else {
        answer_selection(rs.drop_last(), ttl) + answer_form(rs.last(), ttl_for(rs.last(), ttl))
    }
}

/// The smallest TTL among `rs`, or the largest `u32` where `rs` is empty.
pub open spec fn min_ttl(rs: Seq<AnswerRecordView>) -> u32
    decreases rs.len(),
{
    if rs.len() == 0 {
        u32::MAX
    } else {
        let m = min_ttl(rs.drop_last());
        if rs.last().ttl < m {
            rs.last().ttl
        } else {
            m
        }
    }
}

/// Whether some record of `rs` gives an A record in an answer.
pub open spec fn has_address(rs: Seq<AnswerRecordView>) -> bool {
    exists|k: int|
        0 <= k < rs.len() && (#[trigger] rs[k].rtype == RTYPE_A || rs[k].rtype == RTYPE_CNAME)
            && rs[k].address is Some
}

/// Every record of an answer of this server is an A or a CNAME record, and
/// carries the TTL given for the answer, where one is given.
pub proof fn lemma_selection_shape(rs: Seq<AnswerRecordView>, ttl: Option<u32>)
    ensures
        forall|k: int|
            0 <= k < answer_selection(rs, ttl).len() ==> {
                let o = #[trigger] answer_selection(rs, ttl)[k];
                &&& (o.rtype == RTYPE_A || o.rtype == RTYPE_CNAME)
                &&& (ttl matches Some(t) ==> o.ttl == t)
            },
    decreases rs.len(),
{
    if rs.len() > 0 {
        lemma_selection_shape(rs.drop_last(), ttl);
        let a = answer_selection(rs.drop_last(), ttl);
        let f = answer_form(rs.last(), ttl_for(rs.last(), ttl));
        assert forall|k: int| 0 <= k < answer_selection(rs, ttl).len() implies {
            let o = #[trigger] answer_selection(rs, ttl)[k];
            &&& (o.rtype == RTYPE_A || o.rtype == RTYPE_CNAME)
            &&& (ttl matches Some(t) ==> o.ttl == t)
        } by {
            if k < a.len() {
                assert(answer_selection(rs, ttl)[k] == a[k]);
            } else {
                assert(answer_selection(rs, ttl)[k] == f[k - a.len()]);
            }
        }
    }
}

/// An answer of this server holds an A record exactly when some record it
/// is made from is an A or CNAME record that reads as an A record: the
/// condition under which an answer fetched upstream is cached.
pub proof fn lemma_selection_has_address(rs: Seq<AnswerRecordView>, ttl: Option<u32>)
    ensures
        has_address(rs) <==> exists|k: int|
            0 <= k < answer_selection(rs, ttl).len() && #[trigger] answer_selection(rs, ttl)[k].rtype
                == RTYPE_A,
    decreases rs.len(),
{
    if rs.len() > 0 {
        let d = rs.drop_last();
        lemma_selection_has_address(d, ttl);
        let a = answer_selection(d, ttl);
        let f = answer_form(rs.last(), ttl_for(rs.last(), ttl));
        let sel = answer_selection(rs, ttl);
        assert(sel == a + f);
        if has_address(rs) {
            let k = choose|k: int|
                0 <= k < rs.len() && (#[trigger] rs[k].rtype == RTYPE_A || rs[k].rtype == RTYPE_CNAME)
                    && rs[k].address is Some;
            if k < d.len() {
                assert(d[k] == rs[k]);
                assert(has_address(d));
                let j = choose|j: int| 0 <= j < a.len() && #[trigger] a[j].rtype == RTYPE_A;
                assert(sel[j] == a[j]);
            } else {
                assert(f[0].rtype == RTYPE_A);
                assert(sel[a.len() as int] == f[0]);
            }
        }
        if exists|k: int| 0 <= k < sel.len() && #[trigger] sel[k].rtype == RTYPE_A {
            let k = choose|k: int| 0 <= k < sel.len() && #[trigger] sel[k].rtype == RTYPE_A;
            if k < a.len() {
                assert(a[k] == sel[k]);
                let j = choose|j: int|
                    0 <= j < d.len() && (#[trigger] d[j].rtype == RTYPE_A || d[j].rtype
                        == RTYPE_CNAME) && d[j].address is Some;
                assert(rs[j] == d[j]);
            } else {
                assert(sel[k] == f[k - a.len()]);
                let j = rs.len() - 1;
                assert(rs[j] == rs.last());
                assert(rs.last().address is Some);
            }
        }
    }
}

/// The lifetime given to a cached answer is at most the TTL of each record
/// it is made from, and is the TTL of one of them where there is any.
pub proof fn lemma_min_ttl(rs: Seq<AnswerRecordView>)
    ensures
        forall|k: int| 0 <= k < rs.len() ==> min_ttl(rs) <= #[trigger] rs[k].ttl,
        rs.len() == 0 ==> min_ttl(rs) == u32::MAX,
        rs.len() > 0 ==> exists|k: int| 0 <= k < rs.len() && min_ttl(rs) == #[trigger] rs[k].ttl,
    decreases rs.len(),
{
    if rs.len() > 0 {
        let d = rs.drop_last();
        lemma_min_ttl(d);
        assert forall|k: int| 0 <= k < rs.len() implies min_ttl(rs) <= #[trigger] rs[k].ttl by {
            if k < d.len() {
                assert(d[k] == rs[k]);
            }
        }
        if d.len() > 0 && min_ttl(rs) == min_ttl(d) {
            let j = choose|j: int| 0 <= j < d.len() && min_ttl(d) == #[trigger] d[j].ttl;
            assert(rs[j] == d[j]);
        } else {
            assert(rs[rs.len() - 1] == rs.last());
            assert(min_ttl(rs) == rs[rs.len() - 1].ttl);
        }
    }
}

fn bytes_copy(v: &Vec<u8>) -> (r: Vec<u8>)
    ensures
        r@ == v@,
{
    let mut r: Vec<u8> = Vec::new();
    push_all(&mut r, v);
    r
}

/// What the record `r` turns into in an answer, with the TTL `t`.
fn form_of(r: &AnswerRecord, t: u32) -> (f: Vec<OutRecord>)
    requires
        record_consistent(r@),
    ensures
        f@.map_values(|x: OutRecord| x@) == answer_form(r@, t),
        f@.len() <= 1,
        forall|k: int| 0 <= k < f@.len() ==> #[trigger] f@[k].data@.len() <= 255,
{
    let mut f: Vec<OutRecord> = Vec::new();
    if r.rtype == RTYPE_A || r.rtype == RTYPE_CNAME {
        match r.address {
            Some(a) => {
                let mut data: Vec<u8> = Vec::new();
                data.push(a.0);
                data.push(a.1);
                data.push(a.2);
                data.push(a.3);
                assert(data@ =~= seq![a.0, a.1, a.2, a.3]);
                let rec = OutRecord { owner: bytes_copy(&r.owner), rtype: RTYPE_A, class: r.class, ttl: t, data };
                assert(rec@ == OutRecordView { owner: r@.owner, rtype: RTYPE_A, class: r@.class, ttl: t, data: seq![a.0, a.1, a.2, a.3] });
                f.push(rec);
                assert(f@.map_values(|x: OutRecord| x@) =~= seq![rec@]);
            },
            None => {},
        }
        let ghost mid = f@;
        match &r.alias {
            Some(c) => {
                let rec = OutRecord { owner: bytes_copy(&r.owner), rtype: RTYPE_CNAME, class: r.class, ttl: t, data: bytes_copy(c) };
                assert(rec@ == OutRecordView { owner: r@.owner, rtype: RTYPE_CNAME, class: r@.class, ttl: t, data: c@ });
                assert(r@.alias == Some(c@));
                f.push(rec);
                assert(f@.map_values(|x: OutRecord| x@) =~= mid.map_values(|x: OutRecord| x@).push(rec@));
            },
            None => {
                assert(r@.alias is None);
            },
        }
        assert(f@.map_values(|x: OutRecord| x@) =~= answer_form(r@, t));
    } else {
        assert(f@.map_values(|x: OutRecord| x@) =~= answer_form(r@, t));
    }
    f
}

/// The records of an answer of this server made from `rs` (see
/// `answer_selection`).
pub fn select_answers(rs: &Vec<AnswerRecord>, ttl: Option<u32>) -> (out: Vec<OutRecord>)
    requires
        forall|k: int| 0 <= k < rs@.len() ==> record_consistent(#[trigger] rs@[k]@),
    ensures
        out@.map_values(|r: OutRecord| r@) == answer_selection(rs@.map_values(|r: AnswerRecord| r@), ttl),
        out@.len() <= rs@.len(),
        forall|k: int| 0 <= k < out@.len() ==> #[trigger] out@[k].data@.len() <= 255,
{
    let ghost views = rs@.map_values(|r: AnswerRecord| r@);
    let mut out: Vec<OutRecord> = Vec::new();
    let mut i: usize = 0;
    while i < rs.len()
        invariant
            i <= rs@.len(),
            views == rs@.map_values(|r: AnswerRecord| r@),
            forall|k: int| 0 <= k < rs@.len() ==> record_consistent(#[trigger] rs@[k]@),
            out@.map_values(|r: OutRecord| r@) == answer_selection(views.take(i as int), ttl),
            out@.len() <= i,
            forall|k: int| 0 <= k < out@.len() ==> #[trigger] out@[k].data@.len() <= 255,
        decreases rs@.len() - i,
    {
        let r = &rs[i];
        let t: u32 = match ttl {
            Some(t) => t,
            None => r.ttl,
        };
        let ghost before = out@.map_values(|x: OutRecord| x@);
        proof {
            assert(views.take(i + 1).drop_last() == views.take(i as int));
            assert(views.take(i + 1).last() == r@);
        }
        let mut f = form_of(r, t);
        let ghost fv = f@.map_values(|x: OutRecord| x@);
        let ghost fs = f@;
        let ghost os = out@;
        out.append(&mut f);
        assert(out@ == os + fs);
        assert(out@.map_values(|x: OutRecord| x@) =~= before + fv);
        assert(out@.map_values(|x: OutRecord| x@) == before + answer_form(r@, t));
        i = i + 1;
    }
    assert(views.take(rs@.len() as int) == views);
    out
}

/// The smallest TTL among `rs`, or the largest `u32` where `rs` is empty.
pub fn smallest_ttl(rs: &Vec<AnswerRecord>) -> (t: u32)
    ensures
        t == min_ttl(rs@.map_values(|r: AnswerRecord| r@)),
{
    let ghost views = rs@.map_values(|r: AnswerRecord| r@);
    let mut t: u32 = u32::MAX;
    let mut i: usize = 0;
    while i < rs.len()
        invariant
            i <= rs@.len(),
            views == rs@.map_values(|r: AnswerRecord| r@),
            t == min_ttl(views.take(i as int)),
        decreases rs@.len() - i,
    {
        assert(views.take(i + 1).drop_last() == views.take(i as int));
        if rs[i].ttl < t {
            t = rs[i].ttl;
        }
        i = i + 1;
    }
    assert(views.take(rs@.len() as int) == views);
    t
}

/// Whether some record of `rs` gives an A record in an answer.
pub fn any_address(rs: &Vec<AnswerRecord>) -> (b: bool)
    ensures
        b == has_address(rs@.map_values(|r: AnswerRecord| r@)),
{
    let ghost views = rs@.map_values(|r: AnswerRecord| r@);
    let mut i: usize = 0;
    while i < rs.len()
        invariant
            i <= rs@.len(),
            views == rs@.map_values(|r: AnswerRecord| r@),
            forall|k: int| 0 <= k < i ==> !((#[trigger] views[k].rtype == RTYPE_A || views[k].rtype
                == RTYPE_CNAME) && views[k].address is Some),
        decreases rs@.len() - i,
    {
        if (rs[i].rtype == RTYPE_A || rs[i].rtype == RTYPE_CNAME) && rs[i].address.is_some() {
            assert(views[i as int].rtype == rs@[i as int].rtype);
            return true;
        }
        i = i + 1;
    }
    false
}

/// Appends the records `rs` to the answer section of `m`, the last section
/// of `m`, whose answer count is zero.
pub fn append_answers(m: &mut Vec<u8>, rs: &Vec<OutRecord>)
    requires
        old(m)@.len() >= 12,
        answer_count(old(m)@) == 0,
        rs@.len() <= 65535,
        forall|k: int| 0 <= k < rs@.len() ==> #[trigger] rs@[k].data@.len() <= 65535,
    ensures
        final(m)@ == with_records(old(m)@, rs@.map_values(|r: OutRecord| r@)),
        answer_count(final(m)@) == rs@.len(),
{
    let ghost m0 = m@;
    let ghost views = rs@.map_values(|r: OutRecord| r@);
    let mut i: usize = 0;
    while i < rs.len()
        invariant
            i <= rs@.len() <= 65535,
            views == rs@.map_values(|r: OutRecord| r@),
            forall|k: int| 0 <= k < rs@.len() ==> #[trigger] rs@[k].data@.len() <= 65535,
            m@.len() >= 12,
            answer_count(m@) == i,
            m@ == with_records(m0, views.take(i as int)),
        decreases rs@.len() - i,
    {
        assert(views.take(i + 1).drop_last() == views.take(i as int));
        assert(views.take(i + 1).last() == rs@[i as int]@);
        append_record(m, &rs[i]);
        i = i + 1;
    }
    assert(views.take(rs@.len() as int) == views);
}

} // verus!
