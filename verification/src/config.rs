use vstd::prelude::*;

use crate::text::{push_char, push_str};

verus! {

/// The server's settings, as read from its configuration file.
pub struct Config {
    /// The UDP port the server listens on.
    pub port: u16,
    /// The upstream servers, each `host:port` or a bare host.
    pub server: Vec<String>,
    /// How many names of the preload file are resolved at start.
    pub preload_domain_count: u32,
    /// The capacity of the answer cache.
    pub cache_max_size: u32,
    /// The longest time an answer may stay cached, in seconds.
    pub cache_max_ttl: u32,
    /// The file that lists the names to preload, one per line.
    pub preload_domain_file: String,
}

/// The longest time an answer may stay cached.
pub fn get_cache_max_ttl(config: &Config) -> (r: u32)
    ensures
        r == config.cache_max_ttl,
{
    config.cache_max_ttl
}

/// The capacity of the answer cache.
pub fn get_cache_max_size(config: &Config) -> (r: u32)
    ensures
        r == config.cache_max_size,
{
    config.cache_max_size
}

/// The file that lists the names to preload.
pub fn get_preloader_filename(config: &Config) -> (r: String)
    ensures
        r@ == config.preload_domain_file@,
{
    config.preload_domain_file.clone()
}

/// How many names are preloaded at start.
pub fn get_preload_domain_count(config: &Config) -> (r: u32)
    ensures
        r == config.preload_domain_count,
{
    config.preload_domain_count
}

/// The character of the decimal digit `d`.
pub open spec fn digit_char(d: nat) -> char {
    (48 + d) as char
}

/// `n` written in decimal, without leading zeros.
pub open spec fn decimal(n: nat) -> Seq<char>
    decreases n,
{
    if n < 10 {
        seq![digit_char(n)]
    } else {
        decimal(n / 10).push(digit_char(n % 10))
    }
}

fn push_decimal(s: &mut String, n: u16)
    ensures
        final(s)@ == old(s)@ + decimal(n as nat),
    decreases n,
{
    if n >= 10 {
        push_decimal(s, n / 10);
    }
    let d: u8 = (n % 10) as u8;
    push_char(s, (48u8 + d) as char);
}

/// The text of the address the server binds to: every IPv4 interface, at
/// the configured port.
pub fn bind_addr_text(config: &Config) -> (r: String)
    ensures
        r@ == "0.0.0.0:"@ + decimal(config.port as nat),
{
    let mut r = String::new();
    push_str(&mut r, "0.0.0.0:");
    push_decimal(&mut r, config.port);
    r
}

/// Whether `c` occurs in `s`.
fn has_char(s: &str, c: char) -> (r: bool)
    ensures
        r == s@.contains(c),
{
    let mut found = false;
    let ghost mut n: int = 0;
    for x in it: s.chars()
        invariant
            it.seq() == s@,
            n == it.index(),
            found <==> exists|j: int| 0 <= j < n && s@[j] == c,
    {
        assert(x == s@[n]);
        found = found || x == c;
        proof {
            n = n + 1;
        }
    }
    proof {
        assert(n == s@.len());
        if s@.contains(c) {
            let j = choose|j: int| 0 <= j < s@.len() && s@[j] == c;
            assert(s@[j] == c);
        }
    }
    found
}

/// The address text of one configured upstream server: a server given
/// without a port (no `:` in it) gets the DNS port 53.
pub open spec fn upstream_addr(item: Seq<char>) -> Seq<char> {
    if item.contains(':') {
        item
    } else {
        item + ":53"@
    }
}

/// An upstream address text always names a port, and giving it the default
/// port again changes nothing.
pub proof fn lemma_upstream_addr_settled(item: Seq<char>)
    ensures
        upstream_addr(item).contains(':'),
        upstream_addr(upstream_addr(item)) == upstream_addr(item),
        item.contains(':') ==> upstream_addr(item) == item,
{
    reveal_strlit(":53");
    if !item.contains(':') {
        let r = item + ":53"@;
        assert(r[item.len() as int] == ':');
    }
}

/// The address text of one configured upstream server.
pub fn upstream_addr_text(item: &str) -> (r: String)
    ensures
        r@ == upstream_addr(item@),
{
    let mut r = String::new();
    push_str(&mut r, item);
    if !has_char(item, ':') {
        push_str(&mut r, ":53");
    }
    r
}

/// What an upstream address text turned out to be once parsed as a socket
/// address.
#[derive(Clone, Copy, PartialEq, Eq, Structural, Debug)]
pub enum AddrKind {
    /// Not a socket address.
    Invalid,
    /// An IPv4 socket address.
    V4,
    /// An IPv6 socket address.
    V6,
}

/// The positions, below `n`, of the kinds that are IPv4, in increasing order.
pub open spec fn v4_positions(kinds: Seq<AddrKind>, n: nat) -> Seq<usize>
    decreases n,
{
    if n == 0 {
        Seq::empty()
    } else if kinds[n - 1] == AddrKind::V4 {
        v4_positions(kinds, (n - 1) as nat).push((n - 1) as usize)
    } else {
        v4_positions(kinds, (n - 1) as nat)
    }
}

/// The positions chosen as upstreams are exactly those of the IPv4
/// addresses, each once, in increasing order.
pub proof fn lemma_v4_positions(kinds: Seq<AddrKind>, n: nat)
    requires
        n <= kinds.len() <= usize::MAX,
    ensures
        forall|j: int| 0 <= j < v4_positions(kinds, n).len() ==> {
            let p = #[trigger] v4_positions(kinds, n)[j];
            p < n && kinds[p as int] == AddrKind::V4
        },
        forall|i: int, j: int|
            0 <= i < j < v4_positions(kinds, n).len() ==> #[trigger] v4_positions(kinds, n)[i]
                < #[trigger] v4_positions(kinds, n)[j],
        forall|p: int|
            0 <= p < n && kinds[p] == AddrKind::V4 ==> #[trigger] v4_positions(kinds, n).contains(
                p as usize,
            ),
    decreases n,
{
    if n > 0 {
        let m = (n - 1) as nat;
        lemma_v4_positions(kinds, m);
        let prev = v4_positions(kinds, m);
        let cur = v4_positions(kinds, n);
        if kinds[m as int] == AddrKind::V4 {
            assert(cur == prev.push(m as usize));
            assert forall|j: int| 0 <= j < cur.len() implies {
                let p = #[trigger] cur[j];
                p < n && kinds[p as int] == AddrKind::V4
            } by {
                if j < prev.len() {
                    assert(cur[j] == prev[j]);
                } else {
                    assert(cur[j] == m as usize);
                    assert((m as usize) as int == m);
                }
            }
            assert forall|i: int, j: int| 0 <= i < j < cur.len() implies #[trigger] cur[i]
                < #[trigger] cur[j] by {
                assert(cur[i] == prev[i]);
                if j < prev.len() {
                    assert(cur[j] == prev[j]);
                } else {
                    assert(cur[j] == m as usize);
                    assert((m as usize) as int == m);
                    assert(prev[i] < m);
                }
            }
            assert forall|p: int| 0 <= p < n && kinds[p] == AddrKind::V4 implies #[trigger] cur.contains(
                p as usize,
            ) by {
                if p < m {
                    assert(prev.contains(p as usize));
                    let j = choose|j: int| 0 <= j < prev.len() && prev[j] == p as usize;
                    assert(cur[j] == p as usize);
                } else {
                    assert(cur[prev.len() as int] == p as usize);
                }
            }
        } else {
            assert(cur == prev);
        }
    }
}

/// The positions of the addresses that the server uses as upstreams: those
/// that parsed as IPv4 socket addresses, in their order.
pub fn select_upstreams(kinds: &Vec<AddrKind>) -> (r: Vec<usize>)
    ensures
        r@ == v4_positions(kinds@, kinds@.len()),
{
    let mut r: Vec<usize> = Vec::new();
    let mut i: usize = 0;
    while i < kinds.len()
        invariant
            i <= kinds@.len(),
            r@ == v4_positions(kinds@, i as nat),
        decreases kinds@.len() - i,
    {
        if kinds[i] == AddrKind::V4 {
            r.push(i);
        }
        i = i + 1;
    }
    r
}

} // verus!
