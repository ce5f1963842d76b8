use std::str::FromStr;

use domain::base::iana::{Class, Rcode};
use domain::base::{Dname, Message, MessageBuilder, Question, Rtype};
use domain::rdata::rfc1035::{Cname, Mx, A};

use zzdns::dns_server::{Action, Route};
use zzdns::error::DnsError;
use zzdns::prefetcher::{Prefetch, PrefetchStep};
use zzdns::upstream::UpstreamOutcome;
use zzdns::{Cacher, DnsServer, Resolver, Upstream};

fn name(s: &str) -> Dname<Vec<u8>> {
    Dname::<Vec<u8>>::from_str(s).unwrap()
}

fn query(qname: &str, qtype: Rtype, id: u16) -> Vec<u8> {
    let mut b = MessageBuilder::new_vec();
    b.header_mut().set_id(id);
    b.header_mut().set_rd(true);
    let mut q = b.question();
    q.push(Question::new_in(name(qname), qtype)).unwrap();
    q.finish()
}

fn no_question(id: u16) -> Vec<u8> {
    let mut b = MessageBuilder::new_vec();
    b.header_mut().set_id(id);
    b.finish()
}

/// A reply to `q` holding, in order: an A record (TTL 300), a CNAME record
/// (TTL 60) and an MX record (TTL 30).
fn mixed_reply(q: &[u8]) -> Vec<u8> {
    let qmsg = Message::from_octets(q.to_vec()).unwrap();
    let mut a = MessageBuilder::new_vec().start_answer(&qmsg, Rcode::NoError).unwrap();
    a.push((name("example.com"), 300, A::from_octets(93, 184, 216, 34))).unwrap();
    a.push((name("www.example.com"), 60, Cname::new(name("example.com")))).unwrap();
    a.push((name("example.com"), 30, Mx::new(10, name("mail.example.com")))).unwrap();
    a.finish()
}

/// A reply to `q` with only a CNAME (TTL 120) and an MX record (TTL 40).
fn reply_without_address(q: &[u8]) -> Vec<u8> {
    let qmsg = Message::from_octets(q.to_vec()).unwrap();
    let mut a = MessageBuilder::new_vec().start_answer(&qmsg, Rcode::NoError).unwrap();
    a.push((name("www.example.com"), 120, Cname::new(name("example.com")))).unwrap();
    a.push((name("example.com"), 40, Mx::new(10, name("mail.example.com")))).unwrap();
    a.finish()
}

/// The type and TTL of each answer record of `m`.
fn answers(m: &[u8]) -> Vec<(Rtype, u32)> {
    let msg = Message::from_octets(m.to_vec()).unwrap();
    msg.answer().unwrap().map(|r| r.unwrap()).map(|r| (r.rtype(), r.ttl())).collect()
}

/// The address of each A record and the alias of each CNAME record among
/// the answers of `m`, as text.
fn answer_data(m: &[u8]) -> Vec<String> {
    let msg = Message::from_octets(bytes::Bytes::copy_from_slice(m)).unwrap();
    let mut out = Vec::new();
    for rr in msg.answer().unwrap() {
        let rr = rr.unwrap();
        if let Ok(Some(a)) = rr.to_record::<A>() {
            out.push(format!("{} A {}", rr.owner(), a.data().addr()));
        }
        if let Ok(Some(c)) = rr.to_record::<Cname<domain::base::ParsedDname<&bytes::Bytes>>>() {
            out.push(format!("{} CNAME {}", rr.owner(), c.data().cname()));
        }
    }
    out
}

fn header(m: &[u8]) -> domain::base::Header {
    Message::from_octets(m.to_vec()).unwrap().header()
}

#[test]
fn cache_key_is_the_question_name() {
    let q = query("example.com", Rtype::A, 7);
    assert_eq!(Cacher::cache_key(&q).unwrap(), "example.com");
    assert_eq!(Cacher::cache_key(&no_question(7)), Err(DnsError::NoSoleQuestion));
}

#[test]
fn cache_entry_keeps_a_and_cname_records_with_their_ttls() {
    let q = query("example.com", Rtype::A, 0x4242);
    let r = mixed_reply(&q);
    let e = Cacher::set_response_msg(&q, &r).unwrap();
    assert_eq!(e.key, "example.com");
    assert_eq!(answers(&e.value), vec![(Rtype::A, 300), (Rtype::Cname, 60)]);
    assert_eq!(
        answer_data(&e.value),
        vec!["example.com A 93.184.216.34".to_string(), "www.example.com CNAME example.com".to_string()]
    );
    let h = header(&e.value);
    assert_eq!(h.id(), 0x4242);
    assert!(h.ra());
    assert!(h.qr());
    assert_eq!(h.rcode(), Rcode::NoError);
}

#[test]
fn cache_entry_lives_as_long_as_the_shortest_ttl() {
    let q = query("example.com", Rtype::A, 1);
    let e = Cacher::set_response_msg(&q, &mixed_reply(&q)).unwrap();
    // The MX record is not kept, but its TTL counts.
    assert_eq!(e.ttl, 30);
}

#[test]
fn cache_entry_of_a_reply_without_answers_lives_longest() {
    let q = query("example.com", Rtype::A, 1);
    let qmsg = Message::from_octets(q.clone()).unwrap();
    let r = MessageBuilder::new_vec().start_answer(&qmsg, Rcode::NXDomain).unwrap().finish();
    let e = Cacher::set_response_msg(&q, &r).unwrap();
    assert_eq!(e.ttl, u32::MAX);
    assert!(answers(&e.value).is_empty());
}

#[test]
fn cache_entry_errors() {
    let q = query("example.com", Rtype::A, 1);
    assert_eq!(Cacher::set_response_msg(&no_question(1), &mixed_reply(&q)).err(), Some(DnsError::NoSoleQuestion));
    // A reply announcing one answer record that is not there.
    let mut broken = no_question(1);
    broken[7] = 1;
    assert_eq!(Cacher::set_response_msg(&q, &broken).err(), Some(DnsError::BadSections));
}

#[test]
fn cached_value_comes_back_with_the_query_id() {
    let q = query("example.com", Rtype::A, 0xbeef);
    let stored = Cacher::set_response_msg(&query("example.com", Rtype::A, 1), &mixed_reply(&q)).unwrap();
    let (m, ttl) = Cacher::cached_response(&q, Some((stored.value.clone(), 42))).unwrap().unwrap();
    assert_eq!(ttl, 42);
    assert_eq!(header(&m).id(), 0xbeef);
    assert_eq!(m[2..], stored.value[2..]);
}

#[test]
fn cached_value_lookup_outcomes() {
    let q = query("example.com", Rtype::A, 3);
    assert_eq!(Cacher::cached_response(&q, None), Ok(None));
    assert_eq!(Cacher::cached_response(&q, Some((vec![1, 2, 3], 5))), Err(DnsError::ShortMessage));
}

#[test]
fn resolve_plan_asks_upstream_the_same_question_with_the_same_id() {
    let q = query("example.com", Rtype::A, 0x1357);
    let plan = Resolver::resolve_a(&q).unwrap();
    assert_eq!(plan.cache_key, "example.com");
    let up = Message::from_octets(plan.upstream_query.clone()).unwrap();
    assert_eq!(up.header().id(), 0x1357);
    assert!(!up.header().qr());
    let uq = up.sole_question().unwrap();
    assert_eq!(uq.qname().to_string(), "example.com");
    assert_eq!(uq.qtype(), Rtype::A);
    assert_eq!(uq.qclass(), Class::In);
}

#[test]
fn resolve_plan_errors() {
    assert_eq!(Resolver::resolve_a(&no_question(1)).err(), Some(DnsError::NoSoleQuestion));
    let root = {
        let mut b = MessageBuilder::new_vec().question();
        b.push(Question::new_in(Dname::root_vec(), Rtype::A)).unwrap();
        b.finish()
    };
    // The root name is shown as the empty string, which reads back as the root.
    let plan = Resolver::resolve_a(&root).unwrap();
    assert_eq!(plan.cache_key, "");
    let up = Message::from_octets(plan.upstream_query).unwrap();
    assert!(up.sole_question().unwrap().qname().is_root());
}

#[test]
fn fresh_answer_keeps_a_and_cname_records_with_ttl_five() {
    let q = query("example.com", Rtype::A, 0x2222);
    let a = Resolver::answer_from_upstream(&q, &mixed_reply(&q)).unwrap();
    assert_eq!(answers(&a.response), vec![(Rtype::A, 5), (Rtype::Cname, 5)]);
    assert_eq!(
        answer_data(&a.response),
        vec!["example.com A 93.184.216.34".to_string(), "www.example.com CNAME example.com".to_string()]
    );
    let h = header(&a.response);
    assert_eq!(h.id(), 0x2222);
    assert!(h.ra());
    assert!(a.follow_up);
}

#[test]
fn fresh_answer_without_address_is_not_cached() {
    let q = query("example.com", Rtype::A, 9);
    let a = Resolver::answer_from_upstream(&q, &reply_without_address(&q)).unwrap();
    assert_eq!(answers(&a.response), vec![(Rtype::Cname, 5)]);
    assert!(!a.follow_up);
}

#[test]
fn fresh_answer_of_a_broken_reply() {
    let q = query("example.com", Rtype::A, 9);
    let mut broken = no_question(9);
    broken[7] = 2;
    assert_eq!(Resolver::answer_from_upstream(&q, &broken).err(), Some(DnsError::BadSections));
}

#[test]
fn answer_from_cache_carries_the_remaining_ttl() {
    let q = query("example.com", Rtype::A, 0x0a0b);
    let stored = Cacher::set_response_msg(&q, &mixed_reply(&q)).unwrap();
    let a = Resolver::answer_from_cache(&q, &stored.value, 25).unwrap();
    assert_eq!(answers(&a.response), vec![(Rtype::A, 25), (Rtype::Cname, 25)]);
    assert!(!a.follow_up);
    let h = header(&a.response);
    assert_eq!(h.id(), 0x0a0b);
    assert!(!h.ra());
}

#[test]
fn answer_from_cache_is_refreshed_below_ten_seconds() {
    let q = query("example.com", Rtype::A, 1);
    let stored = Cacher::set_response_msg(&q, &mixed_reply(&q)).unwrap();
    assert!(Resolver::answer_from_cache(&q, &stored.value, 9).unwrap().follow_up);
    assert!(!Resolver::answer_from_cache(&q, &stored.value, 10).unwrap().follow_up);
    assert!(Resolver::answer_from_cache(&q, &stored.value, 0).unwrap().follow_up);
}

#[test]
fn answer_from_cache_cuts_the_ttl_to_32_bits() {
    let q = query("example.com", Rtype::A, 1);
    let stored = Cacher::set_response_msg(&q, &mixed_reply(&q)).unwrap();
    let a = Resolver::answer_from_cache(&q, &stored.value, (1u64 << 32) + 7).unwrap();
    assert_eq!(answers(&a.response), vec![(Rtype::A, 7), (Rtype::Cname, 7)]);
}

#[test]
fn answer_from_an_unreadable_cache_entry() {
    let q = query("example.com", Rtype::A, 1);
    let mut broken = no_question(1);
    broken[7] = 1;
    assert_eq!(Resolver::answer_from_cache(&q, &broken, 30).err(), Some(DnsError::BadCacheEntry));
}

#[test]
fn upstream_reply_is_passed_on() {
    let q = query("example.com", Rtype::Mx, 5);
    let r = mixed_reply(&q);
    assert_eq!(Upstream::answer_for(&q, UpstreamOutcome::Reply(r.clone())).unwrap(), r);
}

#[test]
fn upstream_without_reply_gives_servfail() {
    let q = query("example.com", Rtype::Mx, 0x7777);
    let a = Upstream::answer_for(&q, UpstreamOutcome::NoReply).unwrap();
    let h = header(&a);
    assert_eq!(h.rcode(), Rcode::ServFail);
    assert_eq!(h.id(), 0x7777);
    assert!(answers(&a).is_empty());
    let am = Message::from_octets(a.clone()).unwrap();
    let aq = am.sole_question().unwrap();
    assert_eq!(aq.qname().to_string(), "example.com");
    assert_eq!(aq.qtype(), Rtype::Mx);
}

#[test]
fn upstream_timeout_gives_refused() {
    let q = query("example.com", Rtype::Mx, 0x7778);
    let a = Upstream::answer_for(&q, UpstreamOutcome::TimedOut).unwrap();
    let h = header(&a);
    assert_eq!(h.rcode(), Rcode::Refused);
    assert_eq!(h.id(), 0x7778);
}

#[test]
fn upstream_answer_to_a_short_query() {
    assert_eq!(Upstream::answer_for(&[1, 2, 3], UpstreamOutcome::TimedOut), Err(DnsError::AnswerNotStarted));
}

#[test]
fn requests_are_routed_by_type() {
    assert_eq!(DnsServer::route(&query("example.com", Rtype::A, 1)), Ok(Route::ResolveA));
    assert_eq!(DnsServer::route(&query("example.com", Rtype::Aaaa, 1)), Ok(Route::Forward));
    assert_eq!(DnsServer::route(&query("example.com", Rtype::Mx, 1)), Ok(Route::Forward));
}

#[test]
fn route_of_a_request_without_sole_question_is_an_error() {
    assert_eq!(DnsServer::route(&no_question(1)), Err(DnsError::NoSoleQuestion));
}

#[test]
fn request_with_a_question_goes_its_route() {
    assert!(matches!(DnsServer::request_action(&query("example.com", Rtype::A, 1)), Ok(Action::Route(Route::ResolveA))));
    assert!(matches!(DnsServer::request_action(&query("example.com", Rtype::Mx, 1)), Ok(Action::Route(Route::Forward))));
}

#[test]
fn request_without_sole_question_gets_servfail() {
    match DnsServer::request_action(&no_question(0x0102)) {
        Ok(Action::Reply(a)) => {
            let h = header(&a);
            assert_eq!(h.rcode(), Rcode::ServFail);
            assert_eq!(h.id(), 0x0102);
            assert!(h.qr());
        },
        _ => panic!("expected a reply"),
    }
}

#[test]
fn request_shorter_than_a_header_is_dropped() {
    assert!(matches!(DnsServer::request_action(&[0, 1, 2]), Err(DnsError::ShortMessage)));
}

#[test]
fn prefetch_asks_for_a_records_up_to_the_limit() {
    let mut p = Prefetch::new(2);
    for _ in 0..2 {
        match p.step("example.org") {
            PrefetchStep::Query(m) => {
                let msg = Message::from_octets(m).unwrap();
                assert_eq!(msg.header().id(), 0);
                let q = msg.sole_question().unwrap();
                assert_eq!(q.qname().to_string(), "example.org");
                assert_eq!(q.qtype(), Rtype::A);
            },
            _ => panic!("expected a query"),
        }
        p.sent();
    }
    assert_eq!(p.count(), 2);
    assert!(matches!(p.step("example.org"), PrefetchStep::Done));
}

#[test]
fn prefetch_stops_at_a_line_that_is_no_name() {
    let p = Prefetch::new(5);
    assert!(matches!(p.step("a..b"), PrefetchStep::BadName));
    assert!(matches!(Prefetch::new(0).step("a..b"), PrefetchStep::Done));
}

#[test]
fn compressed_owner_names_are_written_out_in_full() {
    let q = query("example.com", Rtype::A, 0x0101);
    // The reply: the query's header and question, then one A record whose
    // owner is a pointer to the question's name at offset 12.
    let mut r = q.clone();
    r[2] |= 0x80;
    r[7] = 1;
    r.extend_from_slice(&[0xc0, 0x0c, 0, 1, 0, 1, 0, 0, 0, 100, 0, 4, 10, 0, 0, 1]);
    let a = Resolver::answer_from_upstream(&q, &r).unwrap();
    assert_eq!(answer_data(&a.response), vec!["example.com A 10.0.0.1".to_string()]);
    assert!(!a.response.windows(2).any(|w| w == [0xc0, 0x0c]));
    let e = Cacher::set_response_msg(&q, &r).unwrap();
    assert_eq!(e.ttl, 100);
    assert_eq!(answers(&e.value), vec![(Rtype::A, 100)]);
}

#[test]
fn answers_stop_at_the_first_unreadable_record() {
    let q = query("example.com", Rtype::A, 0x0101);
    // Two A records announced; the second one's owner points past the end.
    let mut r = q.clone();
    r[2] |= 0x80;
    r[7] = 2;
    r.extend_from_slice(&[0xc0, 0x0c, 0, 1, 0, 1, 0, 0, 0, 100, 0, 4, 10, 0, 0, 1]);
    r.extend_from_slice(&[0xc0, 0xf0, 0, 1, 0, 1, 0, 0, 0, 7, 0, 4, 10, 0, 0, 2]);
    // Splitting the message into sections only skips over the names, so it
    // succeeds; reading the second record fails, and the answers end there.
    let e = Cacher::set_response_msg(&q, &r).unwrap();
    assert_eq!(answers(&e.value), vec![(Rtype::A, 100)]);
    assert_eq!(e.ttl, 100);
}

#[test]
fn prefetch_query_for_the_longest_name_domain_accepts() {
    let text = format!("{}.{}.{}.{}.{}", "a".repeat(63), "b".repeat(63), "c".repeat(63), "d".repeat(60), "e");
    match Prefetch::new(1).step(&text) {
        PrefetchStep::Query(m) => assert_eq!(m.len(), 12 + 256 + 4),
        _ => panic!("expected a query"),
    }
}
