use vstd::prelude::*;

verus! {

/// Why a message could not be handled.
#[derive(Clone, Copy, PartialEq, Eq, Structural, Debug)]
pub enum DnsError {
    /// The message is shorter than a DNS header.
    ShortMessage,
    /// The message does not hold exactly one readable question.
    NoSoleQuestion,
    /// The message cannot be split into its sections.
    BadSections,
    /// No answer could be started for the query.
    AnswerNotStarted,
    /// The question's name has no wire form.
    BadName,
    /// A cached answer cannot be read back.
    BadCacheEntry,
}

/// The response code NOERROR.
pub const RCODE_NOERROR: u8 = 0;

/// The response code SERVFAIL.
pub const RCODE_SERVFAIL: u8 = 2;

/// The response code REFUSED.
pub const RCODE_REFUSED: u8 = 5;

} // verus!
