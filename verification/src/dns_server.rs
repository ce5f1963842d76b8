//! Where a request that reached the server goes.

use vstd::prelude::*;

use crate::answers::RTYPE_A;
use crate::error::{DnsError, RCODE_SERVFAIL};
use crate::message::{answer_start_octets, parsed_sole_question, sole_question, start_answer};
use crate::upstream::rcode_of;
use crate::wire::message_id;

verus! {

/// The server's handling of requests.
pub struct DnsServer {}

/// Where a query with one question goes.
#[derive(Clone, Copy, PartialEq, Eq, Structural, Debug)]
pub enum Route {
    /// A query of type A: resolved through the cache.
    ResolveA,
    /// Any other query: passed upstream and its reply handed back.
    Forward,
}

/// What the server does with a request that reached it.
pub enum Action {
    /// Answer at once with this message.
    Reply(Vec<u8>),
    /// Go the way of the query's route.
    Route(Route),
}

/// What the server does with a request, as plain values.
pub enum ActionView {
    Reply(Seq<u8>),
    Route(Route),
}

impl View for Action {
    type V = ActionView;

    open spec fn view(&self) -> ActionView {
        match self {
            Action::Reply(r) => ActionView::Reply(r@),
            Action::Route(r) => ActionView::Route(*r),
        }
    }
}

/// Where the query `m` goes: an error where it has no sole question; to
/// the resolver for type A; upstream for any other type.
pub open spec fn route_of(m: Seq<u8>) -> Result<Route, DnsError> {
    match parsed_sole_question(m) {
        None => Err(DnsError::NoSoleQuestion),
        Some((_, qtype)) => if qtype == RTYPE_A {
            Ok(Route::ResolveA)
        } else {
            Ok(Route::Forward)
        },
    }
}

/// What the server does with the request `m`: nothing where it is shorter
/// than a header; answer with SERVFAIL where it has no sole question; else
/// send it its route.
pub open spec fn action_of(m: Seq<u8>) -> Result<ActionView, DnsError> {
    if m.len() < 12 {
        Err(DnsError::ShortMessage)
    } else {
        match route_of(m) {
            Ok(r) => Ok(ActionView::Route(r)),
            Err(_) => match answer_start_octets(m, RCODE_SERVFAIL) {
                Some(a) => Ok(ActionView::Reply(a)),
                None => Err(DnsError::AnswerNotStarted),
            },
        }
    }
}

impl DnsServer {
    /// Where the query `qmsg` goes (see `route_of`).
    pub fn route(qmsg: &[u8]) -> (res: Result<Route, DnsError>)
        ensures
            res == route_of(qmsg@),
    {
        match sole_question(qmsg) {
            None => Err(DnsError::NoSoleQuestion),
            Some(q) => if q.qtype == RTYPE_A {
                Ok(Route::ResolveA)
            } else {
                Ok(Route::Forward)
            },
        }
    }

    /// What the server does with the request `msg` (see `action_of`).
    pub fn request_action(msg: &[u8]) -> (res: Result<Action, DnsError>)
        ensures
            res matches Ok(a) ==> action_of(msg@) == Ok::<ActionView, DnsError>(a@),
            res matches Err(e) ==> action_of(msg@) == Err::<ActionView, DnsError>(e),
            res matches Ok(Action::Reply(a)) ==> message_id(a@) == message_id(msg@) && rcode_of(a@)
                == RCODE_SERVFAIL,
    {
        if msg.len() < 12 {
            return Err(DnsError::ShortMessage);
        }
        match Self::route(msg) {
            Ok(r) => Ok(Action::Route(r)),
            Err(_) => match start_answer(msg, RCODE_SERVFAIL) {
                Some(a) => Ok(Action::Reply(a)),
                None => Err(DnsError::AnswerNotStarted),
            },
        }
    }
}

} // verus!
