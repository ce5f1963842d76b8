//! Turning an upstream answer into the entry the cache keeps, and reading an
//! entry back for a new query.

use vstd::prelude::*;

use crate::answers::{
    answer_records_of, answer_selection, collect_answers, min_ttl, select_answers, smallest_ttl,
    append_answers,
};
use crate::error::{DnsError, RCODE_NOERROR};
use crate::message::{
    answer_count, answer_start_octets, parsed_sole_question, sole_question, start_answer,
};
use crate::wire::{
    lemma_id_write_read, lemma_ra_set, lemma_with_records_header, message_id, ra_set, read_id,
    set_ra, with_id, with_ra, with_records, write_id, OutRecord,
};

verus! {

/// The cache server's work on the answers it is handed.
pub struct Cacher {}

/// What the cache keeps for a question: its key, the answer's octets, and
/// how long the entry lives, in seconds.
pub struct CacheEntry {
    pub key: String,
    pub value: Vec<u8>,
    pub ttl: u32,
}

/// A cache entry, as plain values.
pub struct CacheEntryView {
    pub key: Seq<char>,
    pub value: Seq<u8>,
    pub ttl: u32,
}

impl View for CacheEntry {
    type V = CacheEntryView;

    open spec fn view(&self) -> CacheEntryView {
        CacheEntryView { key: self.key@, value: self.value@, ttl: self.ttl }
    }
}

/// The entry kept for the query `q` answered by `r`: keyed by the query's
/// name; the answer to `q` with RA set and with the A and CNAME records of
/// `r`'s answer section, each keeping its own TTL; living as long as the
/// smallest TTL among `r`'s answer records.
pub open spec fn cache_entry_of(q: Seq<u8>, r: Seq<u8>) -> Result<CacheEntryView, DnsError> {
    match parsed_sole_question(q) {
        None => Err(DnsError::NoSoleQuestion),
        Some((name, _)) => match answer_records_of(r) {
            None => Err(DnsError::BadSections),
            Some(rs) => match answer_start_octets(q, RCODE_NOERROR) {
                None => Err(DnsError::AnswerNotStarted),
                Some(start) => Ok(
                    CacheEntryView {
                        key: name,
                        value: with_records(with_ra(start), answer_selection(rs, None)),
                        ttl: min_ttl(rs),
                    },
                ),
            },
        },
    }
}

/// What a cache lookup for the query `q` gives, where the cache handed back
/// `hit`: nothing for no hit; an error for a value too short to be a
/// message; else the value with its ID set to the query's, and its
/// remaining time to live.
pub open spec fn cached_response_of(q: Seq<u8>, hit: Option<(Seq<u8>, u64)>) -> Result<
    Option<(Seq<u8>, u64)>,
    DnsError,
> {
    match hit {
        None => Ok(None),
        Some((v, ttl)) => if v.len() < 12 {
            Err(DnsError::ShortMessage)
        } else {
            Ok(Some((with_id(v, message_id(q)), ttl)))
        },
    }
}

/// The view of a result that may hold a message and a number.
pub open spec fn message_hit_view(r: Result<Option<(Vec<u8>, u64)>, DnsError>) -> Result<
    Option<(Seq<u8>, u64)>,
    DnsError,
> {
    match r {
        Ok(Some((m, t))) => Ok(Some((m@, t))),
        Ok(None) => Ok(None),
        Err(e) => Err(e),
    }
}

/// The view of a hit handed back by the cache.
pub open spec fn hit_view(h: Option<(Vec<u8>, u64)>) -> Option<(Seq<u8>, u64)> {
    match h {
        Some((v, t)) => Some((v@, t)),
        None => None,
    }
}

/// An entry read back from the cache for any query is the stored answer
/// with only its ID changed to the query's, with the entry's remaining
/// lifetime; every stored answer is at least a header long.
pub proof fn lemma_read_back(q: Seq<u8>, v: Seq<u8>, t: u64)
    requires
        v.len() >= 12,
    ensures
        cached_response_of(q, Some((v, t))) == Ok::<Option<(Seq<u8>, u64)>, DnsError>(
            Some((with_id(v, message_id(q)), t)),
        ),
{
}

impl Cacher {
    /// The entry to cache for the query `qmsg` answered by `rmsg` (see
    /// `cache_entry_of`).
    pub fn set_response_msg(qmsg: &[u8], rmsg: &[u8]) -> (res: Result<CacheEntry, DnsError>)
        ensures
            res matches Ok(e) ==> cache_entry_of(qmsg@, rmsg@) == Ok::<CacheEntryView, DnsError>(e@),
            res matches Err(x) ==> cache_entry_of(qmsg@, rmsg@) == Err::<CacheEntryView, DnsError>(x),
            res matches Ok(e) ==> {
                &&& message_id(e.value@) == message_id(qmsg@)
                &&& e.value@[3] % 16 == 0
                &&& ra_set(e.value@)
                &&& answer_records_of(rmsg@) matches Some(rs) && answer_count(e.value@)
                    == answer_selection(rs, None).len()
                &&& e.value@.len() >= 12
                &&& forall|q2: Seq<u8>, t: u64| #[trigger] cached_response_of(q2, Some((e.value@, t)))
                    == Ok::<Option<(Seq<u8>, u64)>, DnsError>(Some((with_id(e.value@, message_id(q2)), t)))
            },
    {
        let question = match sole_question(qmsg) {
            Some(q) => q,
            None => return Err(DnsError::NoSoleQuestion),
        };
        let records = match collect_answers(rmsg) {
            Some(rs) => rs,
            None => return Err(DnsError::BadSections),
        };
        let mut answer = match start_answer(qmsg, RCODE_NOERROR) {
            Some(a) => a,
            None => return Err(DnsError::AnswerNotStarted),
        };
        let ghost start = answer@;
        set_ra(&mut answer);
        proof {
            lemma_ra_set(start);
        }
        let ttl = smallest_ttl(&records);
        let picked = select_answers(&records, None);
        let ghost with_bit = answer@;
        append_answers(&mut answer, &picked);
        proof {
            lemma_with_records_header(with_bit, picked@.map_values(|r: OutRecord| r@));
            assert forall|q2: Seq<u8>, t: u64| #[trigger] cached_response_of(q2, Some((answer@, t)))
                == Ok::<Option<(Seq<u8>, u64)>, DnsError>(Some((with_id(answer@, message_id(q2)), t))) by {
                lemma_read_back(q2, answer@, t);
            }
        }
        Ok(CacheEntry { key: question.name, value: answer, ttl })
    }

    /// What a cache lookup for the query `qmsg` gives, where the cache
    /// handed back `hit` (see `cached_response_of`).
    pub fn cached_response(qmsg: &[u8], hit: Option<(Vec<u8>, u64)>) -> (res: Result<
        Option<(Vec<u8>, u64)>,
        DnsError,
    >)
        requires
            qmsg@.len() >= 2,
        ensures
            message_hit_view(res) == cached_response_of(qmsg@, hit_view(hit)),
            res matches Ok(Some((m, t))) ==> hit matches Some((v, u)) && t == u && m@.len()
                == v@.len() && message_id(m@) == message_id(qmsg@),
    {
        match hit {
            None => Ok(None),
            Some((v, ttl)) => {
                if v.len() < 12 {
                    Err(DnsError::ShortMessage)
                } else {
                    let mut m = v;
                    let id = read_id(qmsg);
                    write_id(&mut m, id);
                    proof {
                        lemma_id_write_read(v@, id);
                    }
                    Ok(Some((m, ttl)))
                }
            },
        }
    }

    /// The key under which the answer to `qmsg` is cached: the name of its
    /// question.
    pub fn cache_key(qmsg: &[u8]) -> (res: Result<String, DnsError>)
        ensures
            res matches Ok(k) ==> parsed_sole_question(qmsg@) matches Some((name, _)) && k@ == name,
            res is Err ==> res == Err::<String, DnsError>(DnsError::NoSoleQuestion)
                && parsed_sole_question(qmsg@) is None,
    {
        match sole_question(qmsg) {
            Some(q) => Ok(q.name),
            None => Err(DnsError::NoSoleQuestion),
        }
    }
}

} // verus!
