//! Finding the server of an output base from the files it leaves under
//! `<output_base>/server/`: its endpoint, its two cookies and its PID.

use vstd::prelude::*;
use crate::lifecycle::{get_server_pid, server_pid_spec};
use crate::net::{bounded_value, char_views, fields, is_bounded_decimal, split_fields, sub_vec};
use crate::text::{
    chars_of, string_of, trim, trim_bounds, str_eq, find_char, first_index_of,
    all_digits, digits_value, is_digit,
};

verus! {

/// What is needed to talk to a running server.
pub struct ServerConnectionInfo {
    /// The endpoint, `host:port`.
    pub endpoint: String,
    pub request_cookie: String,
    pub response_cookie: String,
    pub server_pid: i32,
}

/// Cuts `s` at its first `c`: what stands before it and what follows it.
pub open spec fn split_once_spec(s: Seq<char>, c: char) -> Option<(Seq<char>, Seq<char>)> {
    match first_index_of(s, c) {
        Some(i) => Some((s.subrange(0, i), s.subrange(i + 1, s.len() as int))),
        None => None,
    }
}

/// One decimal octet of an IPv4 address: one to three digits worth at most
/// 255, without a leading zero.
pub open spec fn is_octet(s: Seq<char>) -> bool {
    1 <= s.len() <= 3 && all_digits(s) && digits_value(s) <= 255 && (s.len() == 1 || s[0] != '0')
}

/// A port number: decimal digits worth at most 65535.
pub open spec fn is_port(s: Seq<char>) -> bool {
    is_bounded_decimal(s, 65535)
}

/// `a.b.c.d:port` with `a` = 127: an IPv4 loopback address and a port.
pub open spec fn is_ipv4_loopback_endpoint(t: Seq<char>) -> bool {
    match split_once_spec(t, '.') {
        Some((a, r1)) => is_octet(a) && digits_value(a) == 127 && match split_once_spec(r1, '.') {
            Some((b, r2)) => is_octet(b) && match split_once_spec(r2, '.') {
                Some((c, r3)) => is_octet(c) && match split_once_spec(r3, ':') {
                    Some((d, port)) => is_octet(d) && is_port(port),
                    None => false,
                },
                None => false,
            },
            None => false,
        },
        None => false,
    }
}

/// A group of the IPv6 loopback address worth zero: one to four zeros.
pub open spec fn is_zero_group(g: Seq<char>) -> bool {
    1 <= g.len() <= 4 && forall|i: int| 0 <= i < g.len() ==> #[trigger] g[i] == '0'
}

/// A group worth one: one to four digits, zeros and a final '1'.
pub open spec fn is_one_group(g: Seq<char>) -> bool {
    1 <= g.len() <= 4 && g.last() == '1' && forall|i: int| 0 <= i < g.len() - 1 ==> #[trigger] g[i] == '0'
}

pub open spec fn all_zero_groups(gs: Seq<Seq<char>>) -> bool {
    forall|i: int| 0 <= i < gs.len() ==> is_zero_group(#[trigger] gs[i])
}

/// Groups that end the loopback address: zero groups, then a group worth
/// one or the dotted form `0.0.0.1` of the last 32 bits.
pub open spec fn one_ending(gs: Seq<Seq<char>>) -> bool {
    gs.len() >= 1 && all_zero_groups(gs.drop_last()) && (is_one_group(gs.last()) || gs.last() == "0.0.0.1"@)
}

/// How many 16-bit groups the fields stand for: the dotted form counts two.
pub open spec fn units(gs: Seq<Seq<char>>) -> int {
    if gs.len() > 0 && gs.last() == "0.0.0.1"@ {
        gs.len() as int + 1
    } else {
        gs.len() as int
    }
}

/// The first place where `::` stands in `s`.
pub open spec fn double_colon_at(s: Seq<char>) -> Option<int> {
    if exists|i: int|
        0 <= i < s.len() - 1 && #[trigger] s[i] == ':' && s[i + 1] == ':' && forall|j: int|
            0 <= j < i ==> !(#[trigger] s[j] == ':' && s[j + 1] == ':') {
        Some(
            choose|i: int|
                0 <= i < s.len() - 1 && #[trigger] s[i] == ':' && s[i + 1] == ':' && forall|j: int|
                    0 <= j < i ==> !(#[trigger] s[j] == ':' && s[j + 1] == ':'),
        )
    } else {
        None
    }
}

/// The groups before a `::`: none when nothing stands there.
pub open spec fn head_groups(h: Seq<char>) -> Seq<Seq<char>> {
    if h.len() == 0 {
        Seq::empty()
    } else {
        fields(h, ':')
    }
}

/// A spelling of the IPv6 loopback address `::1`: eight groups, or fewer
/// with one `::` standing for at least one zero group; the last 32 bits may
/// be written `0.0.0.1`.
pub open spec fn is_ipv6_loopback_address(a: Seq<char>) -> bool {
    match double_colon_at(a) {
        None => one_ending(fields(a, ':')) && units(fields(a, ':')) == 8,
        Some(k) => {
            let h = a.subrange(0, k);
            let t = a.subrange(k + 2, a.len() as int);
            &&& all_zero_groups(head_groups(h))
            &&& t.len() > 0
            &&& one_ending(fields(t, ':'))
            &&& head_groups(h).len() + units(fields(t, ':')) <= 7
        },
    }
}

/// A numeric scope id: decimal digits worth at most 2^32 - 1.
pub open spec fn is_scope_id(s: Seq<char>) -> bool {
    is_bounded_decimal(s, 4294967295)
}

/// `[address]:port` or `[address%scope]:port` with the IPv6 loopback
/// address.
pub open spec fn is_ipv6_loopback_endpoint(t: Seq<char>) -> bool {
    t.len() > 0 && t[0] == '[' && match first_index_of(t, ']') {
        Some(j) => {
            let inner = t.subrange(1, j);
            let rest = t.subrange(j + 1, t.len() as int);
            &&& rest.len() >= 1
            &&& rest[0] == ':'
            &&& is_port(rest.drop_first())
            &&& match split_once_spec(inner, '%') {
                Some((a, scope)) => is_ipv6_loopback_address(a) && is_scope_id(scope),
                None => is_ipv6_loopback_address(inner),
            }
        },
        None => false,
    }
}

/// A loopback address and a port, white space around it allowed.
pub open spec fn is_loopback_endpoint(endpoint: Seq<char>) -> bool {
    is_ipv4_loopback_endpoint(trim(endpoint)) || is_ipv6_loopback_endpoint(trim(endpoint))
}

fn split_once(v: &Vec<char>, c: char) -> (r: Option<(Vec<char>, Vec<char>)>)
    ensures
        match split_once_spec(v@, c) {
            Some((a, b)) => r matches Some((x, y)) && x@ == a && y@ == b,
            None => r is None,
        },
{
    let found = find_char(v, c);
    match found {
        None => None,
        Some(i) => {
            assert(i < v.len());
            Some((sub_vec(v, 0, i), sub_vec(v, i + 1, v.len())))
        },
    }
}

/// The value of one to five digits.
fn small_value(v: &Vec<char>) -> (r: Option<u64>)
    requires
        v@.len() <= 5,
    ensures
        r is Some <==> all_digits(v@),
        r matches Some(x) ==> x as int == digits_value(v@),
{
    let mut acc: u64 = 0;
    let mut i: usize = 0;
    while i < v.len()
        invariant
            i <= v@.len() <= 5,
            all_digits(v@.subrange(0, i as int)),
            acc as int == digits_value(v@.subrange(0, i as int)),
            acc < 100000,
            i <= 4 ==> acc < 10000,
            i <= 3 ==> acc < 1000,
            i <= 2 ==> acc < 100,
            i <= 1 ==> acc < 10,
            i == 0 ==> acc == 0,
        decreases v@.len() - i,
    {
        let c = v[i];
        if !('0' <= c && c <= '9') {
            assert(!all_digits(v@)) by {
                assert(v@[i as int] == c);
            }
            return None;
        }
        let ghost prev = v@.subrange(0, i as int);
        let ghost next = v@.subrange(0, i + 1);
        assert(next.drop_last() == prev);
        assert(next.last() == c);
        assert(all_digits(next)) by {
            assert forall|k: int| 0 <= k < next.len() implies is_digit(#[trigger] next[k]) by {
                if k < prev.len() {
                    assert(next[k] == prev[k]);
                }
            }
        }
        let d: u64 = (c as u32 - '0' as u32) as u64;
        acc = acc * 10 + d;
        i = i + 1;
    }
    assert(v@.subrange(0, i as int) == v@);
    Some(acc)
}

fn is_octet_exec(v: &Vec<char>) -> (r: bool)
    ensures
        r == is_octet(v@),
{
    if v.len() < 1 || v.len() > 3 {
        return false;
    }
    match small_value(v) {
        None => false,
        Some(x) => x <= 255 && (v.len() == 1 || v[0] != '0'),
    }
}

fn is_port_exec(v: &Vec<char>) -> (r: bool)
    ensures
        r == is_port(v@),
{
    bounded_value(v, 65535).is_some()
}

fn is_ipv4_loopback(t: &Vec<char>) -> (r: bool)
    ensures
        r == is_ipv4_loopback_endpoint(t@),
{
    let (a, r1) = match split_once(t, '.') {
        Some(x) => x,
        None => return false,
    };
    if !is_octet_exec(&a) {
        return false;
    }
    match small_value(&a) {
        Some(x) => {
            if x != 127 {
                return false;
            }
        },
        None => return false,
    }
    let (b, r2) = match split_once(&r1, '.') {
        Some(x) => x,
        None => return false,
    };
    if !is_octet_exec(&b) {
        return false;
    }
    let (c, r3) = match split_once(&r2, '.') {
        Some(x) => x,
        None => return false,
    };
    if !is_octet_exec(&c) {
        return false;
    }
    let (d, port) = match split_once(&r3, ':') {
        Some(x) => x,
        None => return false,
    };
    is_octet_exec(&d) && is_port_exec(&port)
}

fn is_zero_group_exec(g: &Vec<char>) -> (r: bool)
    ensures
        r == is_zero_group(g@),
{
    if g.len() < 1 || g.len() > 4 {
        return false;
    }
    let mut i: usize = 0;
    while i < g.len()
        invariant
            i <= g@.len(),
            forall|j: int| 0 <= j < i ==> #[trigger] g@[j] == '0',
        decreases g@.len() - i,
    {
        if g[i] != '0' {
            return false;
        }
        i = i + 1;
    }
    true
}

fn is_one_group_exec(g: &Vec<char>) -> (r: bool)
    ensures
        r == is_one_group(g@),
{
    let n = g.len();
    if n < 1 || n > 4 || g[n - 1] != '1' {
        return false;
    }
    let mut i: usize = 0;
    while i < n - 1
        invariant
            n == g@.len(),
            1 <= n,
            i <= n - 1,
            forall|j: int| 0 <= j < i ==> #[trigger] g@[j] == '0',
        decreases n - 1 - i,
    {
        if g[i] != '0' {
            return false;
        }
        i = i + 1;
    }
    true
}

fn is_dotted_one(g: &Vec<char>) -> (r: bool)
    ensures
        r == (g@ == "0.0.0.1"@),
{
    let s = string_of(g, 0, g.len());
    assert(g@.subrange(0, g@.len() as int) == g@);
    str_eq(s.as_str(), "0.0.0.1")
}

fn all_zero_groups_upto(gs: &Vec<Vec<char>>, n: usize) -> (r: bool)
    requires
        n <= gs@.len(),
    ensures
        r == all_zero_groups(char_views(gs@).subrange(0, n as int)),
{
    let mut i: usize = 0;
    while i < n
        invariant
            n <= gs@.len(),
            i <= n,
            forall|j: int| 0 <= j < i ==> is_zero_group(#[trigger] char_views(gs@)[j]),
        decreases n - i,
    {
        if !is_zero_group_exec(&gs[i]) {
            assert(char_views(gs@).subrange(0, n as int)[i as int] == gs@[i as int]@);
            return false;
        }
        assert(char_views(gs@)[i as int] == gs@[i as int]@);
        i = i + 1;
    }
    assert forall|j: int| 0 <= j < n implies is_zero_group(#[trigger] char_views(gs@).subrange(0, n as int)[j]) by {
        assert(char_views(gs@).subrange(0, n as int)[j] == char_views(gs@)[j]);
    }
    true
}

/// Whether the fields end the loopback address: their number, and whether
/// the last one is the dotted form, which stands for two groups.
fn one_ending_units(gs: &Vec<Vec<char>>) -> (r: Option<(usize, bool)>)
    ensures
        r is Some <==> one_ending(char_views(gs@)),
        r matches Some((n, dotted)) ==> n == gs@.len() && units(char_views(gs@)) == n + (if dotted {
            1int
        } else {
            0int
        }),
{
    let n = gs.len();
    if n == 0 {
        return None;
    }
    let ghost g = char_views(gs@);
    assert(g.drop_last() =~= g.subrange(0, n - 1));
    assert(g.last() == gs@[n - 1]@);
    if !all_zero_groups_upto(gs, n - 1) {
        return None;
    }
    if is_one_group_exec(&gs[n - 1]) {
        proof {
            reveal_strlit("0.0.0.1");
            assert(g.last() != "0.0.0.1"@) by {
                assert(g.last()[g.last().len() - 1] == '1');
                assert(g.last().len() <= 4);
            }
        }
        return Some((n, false));
    }
    if is_dotted_one(&gs[n - 1]) {
        return Some((n, true));
    }
    None
}

fn double_colon(v: &Vec<char>) -> (r: Option<usize>)
    ensures
        match r {
            Some(k) => double_colon_at(v@) == Some(k as int) && k + 2 <= v@.len(),
            None => double_colon_at(v@) is None,
        },
{
    let n = v.len();
    let mut i: usize = 0;
    while i < n && i + 1 < n
        invariant
            n == v@.len(),
            i <= n,
            forall|j: int| 0 <= j < i && j + 1 < n ==> !(#[trigger] v@[j] == ':' && v@[j + 1] == ':'),
        decreases n - i,
    {
        if v[i] == ':' && v[i + 1] == ':' {
            let ghost c = choose|c: int|
                0 <= c < v@.len() - 1 && #[trigger] v@[c] == ':' && v@[c + 1] == ':' && forall|j: int|
                    0 <= j < c ==> !(#[trigger] v@[j] == ':' && v@[j + 1] == ':');
            assert(0 <= i < v@.len() - 1 && v@[i as int] == ':' && v@[i + 1] == ':' && forall|j: int|
                0 <= j < i ==> !(#[trigger] v@[j] == ':' && v@[j + 1] == ':'));
            assert(c == i as int) by {
                if c < i as int {
                } else if c > i as int {
                }
            }
            return Some(i);
        }
        i = i + 1;
    }
    None
}

fn is_ipv6_loopback_address_exec(a: &Vec<char>) -> (r: bool)
    ensures
        r == is_ipv6_loopback_address(a@),
{
    let dc = double_colon(a);
    match dc {
        None => {
            let f = split_fields(a, ':');
            match one_ending_units(&f) {
                Some((n, dotted)) => if dotted {
                    n == 7
                } else {
                    n == 8
                },
                None => false,
            }
        },
        Some(k) => {
            let len = a.len();
            assert(k + 2 <= len);
            let h = sub_vec(a, 0, k);
            let t = sub_vec(a, k + 2, len);
            let head_len: usize = if h.len() == 0 {
                assert(char_views(Seq::<Vec<char>>::empty()) =~= Seq::<Seq<char>>::empty());
                0
            } else {
                let hf = split_fields(&h, ':');
                if !all_zero_groups_upto(&hf, hf.len()) {
                    assert(char_views(hf@).subrange(0, hf@.len() as int) == char_views(hf@));
                    return false;
                }
                assert(char_views(hf@).subrange(0, hf@.len() as int) == char_views(hf@));
                hf.len()
            };
            if t.len() == 0 {
                return false;
            }
            let tf = split_fields(&t, ':');
            match one_ending_units(&tf) {
                Some((n, dotted)) => head_len <= 7 && n <= 7 - head_len && (!dotted || n + 1 <= 7
                    - head_len),
                None => false,
            }
        },
    }
}

/// Whether `t` is the IPv6 loopback address in brackets, with an optional
/// scope id, and a port.
fn is_ipv6_loopback(t: &Vec<char>) -> (r: bool)
    ensures
        r == is_ipv6_loopback_endpoint(t@),
{
    if t.len() == 0 || t[0] != '[' {
        return false;
    }
    let close = find_char(t, ']');
    let j = match close {
        Some(j) => j,
        None => return false,
    };
    assert(j >= 1) by {
        if j == 0 {
            assert(t@[0] == '[');
        }
    }
    let inner = sub_vec(t, 1, j);
    let rest = sub_vec(t, j + 1, t.len());
    if rest.len() < 1 || rest[0] != ':' {
        return false;
    }
    let port = sub_vec(&rest, 1, rest.len());
    assert(port@ == rest@.drop_first());
    if !is_port_exec(&port) {
        return false;
    }
    match split_once(&inner, '%') {
        Some((a, scope)) => is_ipv6_loopback_address_exec(&a) && bounded_value(&scope, 4294967295).is_some(),
        None => is_ipv6_loopback_address_exec(&inner),
    }
}

/// Whether `endpoint` is a loopback address with a port.
pub fn is_loopback(endpoint: &str) -> (r: bool)
    ensures
        r == is_loopback_endpoint(endpoint@),
{
    let v = chars_of(endpoint);
    let (lo, hi) = trim_bounds(&v);
    let t = sub_vec(&v, lo, hi);
    is_ipv4_loopback(&t) || is_ipv6_loopback(&t)
}

fn trimmed(s: &str) -> (r: String)
    ensures
        r@ == trim(s@),
{
    let v = chars_of(s);
    let (lo, hi) = trim_bounds(&v);
    string_of(&v, lo, hi)
}

/// The connection described by the files' contents (`None` for a file that
/// could not be read): there is none when a file is missing, the endpoint is
/// not on this machine, or the PID file holds no positive PID.
pub open spec fn locate_spec(
    endpoint: Option<Seq<char>>,
    request_cookie: Option<Seq<char>>,
    response_cookie: Option<Seq<char>>,
    pid_file: Option<Seq<char>>,
) -> bool {
    &&& endpoint is Some
    &&& request_cookie is Some
    &&& response_cookie is Some
    &&& is_loopback_endpoint(endpoint.unwrap())
    &&& server_pid_spec(pid_file) > 0
}

/// Reads the connection of the server of an output base from the contents of
/// its connection files. Whether the PID names a live process of this output
/// base is for the caller to check before trusting the connection.
pub fn locate(
    endpoint: Option<&str>,
    request_cookie: Option<&str>,
    response_cookie: Option<&str>,
    pid_file: Option<&str>,
) -> (r: Option<ServerConnectionInfo>)
    ensures
        r is Some <==> locate_spec(
            match endpoint { Some(x) => Some(x@), None => None },
            match request_cookie { Some(x) => Some(x@), None => None },
            match response_cookie { Some(x) => Some(x@), None => None },
            match pid_file { Some(x) => Some(x@), None => None },
        ),
        r matches Some(info) ==> info.endpoint@ == trim(endpoint.unwrap()@)
            && info.request_cookie@ == request_cookie.unwrap()@
            && info.response_cookie@ == response_cookie.unwrap()@
            && info.server_pid == server_pid_spec(Some(pid_file.unwrap()@)),
{
    let e = match endpoint {
        Some(e) => e,
        None => return None,
    };
    let rq = match request_cookie {
        Some(c) => c,
        None => return None,
    };
    let rs = match response_cookie {
        Some(c) => c,
        None => return None,
    };
    let p = match pid_file {
        Some(p) => p,
        None => return None,
    };
    if !is_loopback(e) {
        return None;
    }
    let pid = get_server_pid(Some(p));
    if pid <= 0 {
        return None;
    }
    Some(ServerConnectionInfo {
        endpoint: trimmed(e),
        request_cookie: String::from_str(rq),
        response_cookie: String::from_str(rs),
        server_pid: pid,
    })
}

/// A located server is trusted only when its PID names a live process of
/// this output base and it answered a ping with the expected response cookie.
pub fn is_trusted(info: &ServerConnectionInfo, pid_alive: bool, ping_answer: Option<&str>) -> (r: bool)
    ensures
        r == (pid_alive && ping_answer is Some && ping_answer.unwrap()@ == info.response_cookie@),
{
    match ping_answer {
        Some(a) => pid_alive && str_eq(a, info.response_cookie.as_str()),
        None => false,
    }
}

} // verus!
