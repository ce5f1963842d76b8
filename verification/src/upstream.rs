//! What a query sent to the upstream servers comes back as.

use vstd::prelude::*;

use crate::error::{DnsError, RCODE_REFUSED, RCODE_SERVFAIL};
use crate::message::{answer_start_octets, parsed_sole_question, start_answer};
use crate::wire::message_id;

verus! {

/// Asking the upstream servers.
pub struct Upstream {}

/// How asking the upstream servers ended.
pub enum UpstreamOutcome {
    /// The first reply that came back, from whichever server.
    Reply(Vec<u8>),
    /// Every request ended without handing back a reply.
    NoReply,
    /// No reply came back in time.
    TimedOut,
}

/// How asking the upstream servers ended, as plain values.
pub enum UpstreamOutcomeView {
    Reply(Seq<u8>),
    NoReply,
    TimedOut,
}

impl View for UpstreamOutcome {
    type V = UpstreamOutcomeView;

    open spec fn view(&self) -> UpstreamOutcomeView {
        match self {
            UpstreamOutcome::Reply(r) => UpstreamOutcomeView::Reply(r@),
            UpstreamOutcome::NoReply => UpstreamOutcomeView::NoReply,
            UpstreamOutcome::TimedOut => UpstreamOutcomeView::TimedOut,
        }
    }
}

/// The response code of the message `m`.
pub open spec fn rcode_of(m: Seq<u8>) -> u8 {
    m[3] % 16
}

/// The answer to the query `q` given how asking upstream ended: the first
/// reply as it came; SERVFAIL where no reply came at all; REFUSED where
/// none came in time.
pub open spec fn upstream_answer_of(q: Seq<u8>, outcome: UpstreamOutcomeView) -> Result<Seq<u8>, DnsError> {
    match outcome {
        UpstreamOutcomeView::Reply(r) => Ok(r),
        UpstreamOutcomeView::NoReply => match answer_start_octets(q, RCODE_SERVFAIL) {
            Some(a) => Ok(a),
            None => Err(DnsError::AnswerNotStarted),
        },
        UpstreamOutcomeView::TimedOut => match answer_start_octets(q, RCODE_REFUSED) {
            Some(a) => Ok(a),
            None => Err(DnsError::AnswerNotStarted),
        },
    }
}

impl Upstream {
    /// The answer to `query` given how asking upstream ended (see
    /// `upstream_answer_of`). A reply must be at least a header long.
    pub fn answer_for(query: &[u8], outcome: UpstreamOutcome) -> (res: Result<Vec<u8>, DnsError>)
        requires
            outcome matches UpstreamOutcome::Reply(r) ==> r@.len() >= 12,
        ensures
            res matches Ok(a) ==> upstream_answer_of(query@, outcome@) == Ok::<Seq<u8>, DnsError>(a@),
            res matches Err(e) ==> upstream_answer_of(query@, outcome@) == Err::<Seq<u8>, DnsError>(e),
            outcome matches UpstreamOutcome::Reply(r) ==> (res matches Ok(a) && a@ == r@),
            !(outcome is Reply) ==> (res matches Ok(a) ==> a@.len() >= 12 && message_id(a@)
                == message_id(query@)),
            !(outcome is Reply) ==> (res matches Ok(a) ==> (parsed_sole_question(query@) is Some
                ==> parsed_sole_question(a@) == parsed_sole_question(query@))),
            outcome is NoReply ==> (res matches Ok(a) ==> rcode_of(a@) == RCODE_SERVFAIL),
            outcome is TimedOut ==> (res matches Ok(a) ==> rcode_of(a@) == RCODE_REFUSED),
    {
        let rcode = match outcome {
            UpstreamOutcome::Reply(r) => return Ok(r),
            UpstreamOutcome::NoReply => RCODE_SERVFAIL,
            UpstreamOutcome::TimedOut => RCODE_REFUSED,
        };
        match start_answer(query, rcode) {
            Some(a) => Ok(a),
            None => Err(DnsError::AnswerNotStarted),
        }
    }
}

} // verus!
