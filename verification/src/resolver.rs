//! Answering queries of type A: from the cache where it holds the name,
//! else from an upstream server, keeping only A and CNAME records.

use vstd::prelude::*;

use crate::answers::{
    answer_records_of, answer_selection, any_address, append_answers, collect_answers,
    has_address, select_answers,
};
use crate::error::{DnsError, RCODE_NOERROR};
use crate::message::{
    answer_count, answer_start_octets, dname_wire, name_from_text, parsed_sole_question,
    sole_question, start_answer,
};
use crate::wire::{
    build_query, lemma_ra_set, lemma_with_records_header, message_id, query_octets, ra_set,
    read_id, set_ra, with_ra, with_records, OutRecord,
};

verus! {

/// The TTL that records fetched from upstream carry in an answer, in
/// seconds.
pub const FRESH_TTL: u32 = 5;

/// Below this remaining lifetime, in seconds, a cached answer is fetched
/// again in the background.
pub const REFRESH_BELOW: u64 = 10;

/// Resolution of queries of type A.
pub struct Resolver {}

/// What resolving a query needs: the key to look up in the cache, and the
/// query to send upstream where the cache has no answer.
pub struct ResolvePlan {
    pub cache_key: String,
    pub upstream_query: Vec<u8>,
}

/// A resolve plan, as plain values.
pub struct ResolvePlanView {
    pub cache_key: Seq<char>,
    pub upstream_query: Seq<u8>,
}

impl View for ResolvePlan {
    type V = ResolvePlanView;

    open spec fn view(&self) -> ResolvePlanView {
        ResolvePlanView { cache_key: self.cache_key@, upstream_query: self.upstream_query@ }
    }
}

/// An answer, with whether something more is to be done about it: for an
/// answer from the cache, fetching it again; for an answer from upstream,
/// caching it.
pub struct Answer {
    pub response: Vec<u8>,
    pub follow_up: bool,
}

impl View for Answer {
    type V = (Seq<u8>, bool);

    open spec fn view(&self) -> (Seq<u8>, bool) {
        (self.response@, self.follow_up)
    }
}

/// The plan for the query `q`: the cache key is the question's name; the
/// upstream query asks the same name and type, under the query's ID. An
/// error where `q` has no sole question, where its name has no wire form,
/// or where no answer to `q` can be started.
pub open spec fn resolve_plan_of(q: Seq<u8>) -> Result<ResolvePlanView, DnsError> {
    match parsed_sole_question(q) {
        None => Err(DnsError::NoSoleQuestion),
        Some((name, qtype)) => match dname_wire(name) {
            None => Err(DnsError::BadName),
            Some(wire) => match answer_start_octets(q, RCODE_NOERROR) {
                None => Err(DnsError::AnswerNotStarted),
                Some(_) => Ok(
                    ResolvePlanView {
                        cache_key: name,
                        upstream_query: query_octets(wire, qtype, message_id(q)),
                    },
                ),
            },
        },
    }
}

/// The answer to `q` made from the cached message `m` that has `ttl`
/// seconds left to live: the A and CNAME records of `m`, each with the TTL
/// set to what is left (cut to 32 bits); fetched again when less than ten
/// seconds are left.
pub open spec fn cached_answer_of(q: Seq<u8>, m: Seq<u8>, ttl: u64) -> Result<(Seq<u8>, bool), DnsError> {
    match answer_records_of(m) {
        None => Err(DnsError::BadCacheEntry),
        Some(rs) => match answer_start_octets(q, RCODE_NOERROR) {
            None => Err(DnsError::AnswerNotStarted),
            Some(start) => Ok(
                (with_records(start, answer_selection(rs, Some(ttl as u32))), ttl < REFRESH_BELOW),
            ),
        },
    }
}

/// The answer to `q` made from the upstream reply `r`: RA set, the A and
/// CNAME records of `r`, each with a TTL of five seconds; cached where it
/// holds an A record.
pub open spec fn fresh_answer_of(q: Seq<u8>, r: Seq<u8>) -> Result<(Seq<u8>, bool), DnsError> {
    match answer_start_octets(q, RCODE_NOERROR) {
        None => Err(DnsError::AnswerNotStarted),
        Some(start) => match answer_records_of(r) {
            None => Err(DnsError::BadSections),
            Some(rs) => Ok(
                (with_records(with_ra(start), answer_selection(rs, Some(FRESH_TTL))), has_address(rs)),
            ),
        },
    }
}

/// The view of a result that may hold an answer.
pub open spec fn answer_result_view(r: Result<Answer, DnsError>) -> Result<(Seq<u8>, bool), DnsError> {
    match r {
        Ok(a) => Ok(a@),
        Err(e) => Err(e),
    }
}

impl Resolver {
    /// What resolving the query `qmsg` of type A needs (see
    /// `resolve_plan_of`).
    pub fn resolve_a(qmsg: &[u8]) -> (res: Result<ResolvePlan, DnsError>)
        ensures
            res matches Ok(p) ==> resolve_plan_of(qmsg@) == Ok::<ResolvePlanView, DnsError>(p@),
            res matches Err(e) ==> resolve_plan_of(qmsg@) == Err::<ResolvePlanView, DnsError>(e),
    {
        let question = match sole_question(qmsg) {
            Some(q) => q,
            None => return Err(DnsError::NoSoleQuestion),
        };
        let wire = match name_from_text(question.name.as_str()) {
            Some(w) => w,
            None => return Err(DnsError::BadName),
        };
        if start_answer(qmsg, RCODE_NOERROR).is_none() {
            return Err(DnsError::AnswerNotStarted);
        }
        let id = read_id(qmsg);
        let upstream_query = build_query(&wire, question.qtype, id);
        Ok(ResolvePlan { cache_key: question.name, upstream_query })
    }

    /// The answer to `qmsg` made from the cached message `cached` with
    /// `ttl` seconds left (see `cached_answer_of`).
    pub fn answer_from_cache(qmsg: &[u8], cached: &[u8], ttl: u64) -> (res: Result<Answer, DnsError>)
        ensures
            answer_result_view(res) == cached_answer_of(qmsg@, cached@, ttl),
            res matches Ok(a) ==> {
                &&& message_id(a.response@) == message_id(qmsg@)
                &&& a.response@[3] % 16 == 0
                &&& !ra_set(a.response@)
                &&& answer_records_of(cached@) matches Some(rs) && answer_count(a.response@)
                    == answer_selection(rs, Some(ttl as u32)).len()
            },
    {
        let records = match collect_answers(cached) {
            Some(rs) => rs,
            None => return Err(DnsError::BadCacheEntry),
        };
        let mut response = match start_answer(qmsg, RCODE_NOERROR) {
            Some(a) => a,
            None => return Err(DnsError::AnswerNotStarted),
        };
        let picked = select_answers(&records, Some(ttl as u32));
        let ghost start = response@;
        append_answers(&mut response, &picked);
        proof {
            lemma_with_records_header(start, picked@.map_values(|r: OutRecord| r@));
        }
        Ok(Answer { response, follow_up: ttl < REFRESH_BELOW })
    }

    /// The answer to `qmsg` made from the upstream reply `reply` (see
    /// `fresh_answer_of`).
    pub fn answer_from_upstream(qmsg: &[u8], reply: &[u8]) -> (res: Result<Answer, DnsError>)
        ensures
            answer_result_view(res) == fresh_answer_of(qmsg@, reply@),
            res matches Ok(a) ==> {
                &&& message_id(a.response@) == message_id(qmsg@)
                &&& a.response@[3] % 16 == 0
                &&& ra_set(a.response@)
                &&& answer_records_of(reply@) matches Some(rs) && answer_count(a.response@)
                    == answer_selection(rs, Some(FRESH_TTL)).len()
            },
    {
        let mut response = match start_answer(qmsg, RCODE_NOERROR) {
            Some(a) => a,
            None => return Err(DnsError::AnswerNotStarted),
        };
        let ghost start = response@;
        set_ra(&mut response);
        proof {
            lemma_ra_set(start);
        }
        let records = match collect_answers(reply) {
            Some(rs) => rs,
            None => return Err(DnsError::BadSections),
        };
        let picked = select_answers(&records, Some(FRESH_TTL));
        let has_a = any_address(&records);
        let ghost with_bit = response@;
        append_answers(&mut response, &picked);
        proof {
            lemma_with_records_header(with_bit, picked@.map_values(|r: OutRecord| r@));
        }
        Ok(Answer { response, follow_up: has_a })
    }
}

} // verus!
