//! MCP servers: where an HTTP server may be reached, how its tools are
//! named, and the JSON-RPC exchange with it.
//!
//! An HTTP MCP server is only reached at a public address: its URL is read,
//! its host resolved, every answer checked, and the request pinned to the
//! first address with the original host kept for the `Host` header and TLS.

pub mod rpc;
pub mod runtime;

use vstd::prelude::*;

use crate::text::{decimal, decimal_of, owned, push_char, seq_ends_with, seq_trim_matches};

verus! {

/// An address a host name resolved to.
#[derive(Debug, Clone, Copy)]
pub enum IpAddress {
    V4([u8; 4]),
    V6([u16; 8]),
}

/// Loopback, private, link-local, multicast and unspecified addresses, and
/// the IPv4 "this network" block: addresses an MCP server may not be
/// reached at. (As `Ipv4Addr` and `Ipv6Addr` classify them: `10/8`,
/// `172.16/12`, `192.168/16`, `127/8`, `169.254/16`, `224/4`, `0/8`;
/// `::1`, `::`, `ff00::/8`, `fc00::/7`, `fe80::/10`.)
pub open spec fn private_ip(ip: IpAddress) -> bool {
    match ip {
        IpAddress::V4(o) => {
            let (a, b) = (o@[0], o@[1]);
            ||| a == 10
            ||| (a == 172 && 16 <= b <= 31)
            ||| (a == 192 && b == 168)
            ||| a == 127
            ||| (a == 169 && b == 254)
            ||| (224 <= a <= 239)
            ||| a == 0
        },
        IpAddress::V6(s) => {
            let zero_head = forall|i: int| 0 <= i < 7 ==> s@[i] == 0;
            ||| (zero_head && s@[7] == 1)
            ||| (zero_head && s@[7] == 0)
            ||| s@[0] >= 0xff00
            ||| (0xfc00 <= s@[0] <= 0xfdff)
            ||| (0xfe80 <= s@[0] <= 0xfebf)
        },
    }
}

pub fn is_private_ip(ip: IpAddress) -> (r: bool)
    ensures
        r == private_ip(ip),
{
    match ip {
        IpAddress::V4(o) => {
            let a = o[0];
            let b = o[1];
            a == 10 || (a == 172 && 16 <= b && b <= 31) || (a == 192 && b == 168) || a == 127 || (a == 169 && b
                == 254) || (224 <= a && a <= 239) || a == 0
        },
        IpAddress::V6(s) => {
            let mut zero_head = true;
            let mut i: usize = 0;
            while i < 7
                invariant
                    i <= 7,
                    zero_head <==> forall|j: int| 0 <= j < i ==> s@[j] == 0,
                decreases 7 - i,
            {
                if s[i] != 0 {
                    zero_head = false;
                }
                i = i + 1;
            }
            (zero_head && s[7] == 1) || (zero_head && s[7] == 0) || s[0] >= 0xff00 || (0xfc00 <= s[0] && s[0]
                <= 0xfdff) || (0xfe80 <= s[0] && s[0] <= 0xfebf)
        },
    }
}

/// `n` in lowercase hexadecimal, as `{:x}` writes it.
pub open spec fn hex_of(n: nat) -> Seq<char>
    decreases n,
{
    if n < 16 {
        seq![crate::json::hex_char(n)]
    } else {
        hex_of(n / 16).push(crate::json::hex_char(n % 16))
    }
}

fn hex_digit(d: u16) -> (c: char)
    requires
        d < 16,
    ensures
        c == crate::json::hex_char(d as nat),
{
    if d < 10 {
        if d == 0 { '0' } else if d == 1 { '1' } else if d == 2 { '2' } else if d == 3 { '3' } else if d == 4 {
            '4'
        } else if d == 5 { '5' } else if d == 6 { '6' } else if d == 7 { '7' } else if d == 8 { '8' } else { '9' }
    } else if d == 10 {
        'a'
    } else if d == 11 {
        'b'
    } else if d == 12 {
        'c'
    } else if d == 13 {
        'd'
    } else if d == 14 {
        'e'
    } else {
        'f'
    }
}

fn push_hex(out: &mut String, n: u16)
    ensures
        final(out)@ == old(out)@ + hex_of(n as nat),
    decreases n,
{
    if n < 16 {
        push_char(out, hex_digit(n));
        assert(final(out)@ =~= old(out)@ + hex_of(n as nat));
    } else {
        push_hex(out, n / 16);
        push_char(out, hex_digit(n % 16));
        assert(final(out)@ =~= old(out)@ + hex_of(n as nat));
    }
}

/// Segments written in hexadecimal, separated by colons.
pub open spec fn hex_groups(s: Seq<u16>) -> Seq<char>
    decreases s.len(),
{
    if s.len() == 0 {
        Seq::empty()
    } else if s.len() == 1 {
        hex_of(s[0] as nat)
    } else {
        hex_groups(s.drop_last()) + ":"@ + hex_of(s.last() as nat)
    }
}

/// The longest run of zero segments in `s` (the first of equal length), as
/// (start, length), scanning left to right.
pub open spec fn zero_run(s: Seq<u16>) -> (int, int, int, int)
    decreases s.len(),
{
    // (longest start, longest length, current start, current length)
    if s.len() == 0 {
        (0, 0, 0, 0)
    } else {
        let (ls, ll, cs, cl) = zero_run(s.drop_last());
        let i = s.len() - 1;
        if s.last() == 0 {
            let (ncs, ncl) = if cl == 0 { (i, 1int) } else { (cs, cl + 1) };
            if ncl > ll { (ncs, ncl, ncs, ncl) } else { (ls, ll, ncs, ncl) }
        } else {
            (ls, ll, 0, 0)
        }
    }
}

/// An IPv6 address as `Ipv6Addr`'s `Display` writes it: IPv4-mapped
/// addresses as `::ffff:a.b.c.d`; otherwise hexadecimal groups with the
/// longest run of two or more zero groups written as `::`.
pub open spec fn ipv6_text(s: Seq<u16>) -> Seq<char> {
    if (forall|i: int| 0 <= i < 5 ==> s[i] == 0) && s[5] == 0xffff {
        "::ffff:"@ + ipv4_text(seq![(s[6] / 256) as u8, (s[6] % 256) as u8, (s[7] / 256) as u8, (s[7] % 256) as u8])
    } else {
        let (start, len, _, _) = zero_run(s);
        if len > 1 {
            hex_groups(s.subrange(0, start)) + "::"@ + hex_groups(s.subrange(start + len, s.len() as int))
        } else {
            hex_groups(s)
        }
    }
}

/// An IPv4 address in dotted decimal.
pub open spec fn ipv4_text(o: Seq<u8>) -> Seq<char> {
    decimal_of(o[0] as nat) + "."@ + decimal_of(o[1] as nat) + "."@ + decimal_of(o[2] as nat) + "."@ + decimal_of(
        o[3] as nat,
    )
}

pub open spec fn ip_text(ip: IpAddress) -> Seq<char> {
    match ip {
        IpAddress::V4(o) => ipv4_text(o@),
        IpAddress::V6(s) => ipv6_text(s@),
    }
}

fn write_ipv4(out: &mut String, o: [u8; 4])
    ensures
        final(out)@ == old(out)@ + ipv4_text(o@),
{
    out.append(decimal(o[0] as u64).as_str());
    out.append(".");
    out.append(decimal(o[1] as u64).as_str());
    out.append(".");
    out.append(decimal(o[2] as u64).as_str());
    out.append(".");
    out.append(decimal(o[3] as u64).as_str());
    assert(final(out)@ =~= old(out)@ + ipv4_text(o@));
}

fn write_groups(out: &mut String, s: &[u16; 8], from: usize, to: usize)
    requires
        from <= to <= 8,
    ensures
        final(out)@ == old(out)@ + hex_groups(s@.subrange(from as int, to as int)),
{
    let mut i = from;
    while i < to
        invariant
            from <= i <= to <= 8,
            out@ == old(out)@ + hex_groups(s@.subrange(from as int, i as int)),
        decreases to - i,
    {
        proof {
            assert(s@.subrange(from as int, i + 1).drop_last() =~= s@.subrange(from as int, i as int));
        }
        if i > from {
            out.append(":");
        }
        push_hex(out, s[i]);
        proof {
            if i == from {
                assert(hex_groups(s@.subrange(from as int, i + 1)) == hex_of(s@[i as int] as nat));
            }
            assert(out@ =~= old(out)@ + hex_groups(s@.subrange(from as int, i + 1)));
        }
        i = i + 1;
    }
}

/// An address as `IpAddr`'s `Display` writes it.
pub fn ip_string(ip: IpAddress) -> (r: String)
    ensures
        r@ == ip_text(ip),
{
    let mut out = String::new();
    match ip {
        IpAddress::V4(o) => {
            write_ipv4(&mut out, o);
        },
        IpAddress::V6(s) => {
            let mut head_zero = true;
            let mut i: usize = 0;
            while i < 5
                invariant
                    i <= 5,
                    head_zero <==> forall|j: int| 0 <= j < i ==> s@[j] == 0,
                decreases 5 - i,
            {
                if s[i] != 0 {
                    head_zero = false;
                }
                i = i + 1;
            }
            if head_zero && s[5] == 0xffff {
                out.append("::ffff:");
                let o: [u8; 4] = [(s[6] / 256) as u8, (s[6] % 256) as u8, (s[7] / 256) as u8, (s[7] % 256) as u8];
                write_ipv4(&mut out, o);
                proof {
                    assert(o@ =~= seq![(s@[6] / 256) as u8, (s@[6] % 256) as u8, (s@[7] / 256) as u8, (s@[7] % 256) as u8]);
                }
            } else {
                let mut ls: usize = 0;
                let mut ll: usize = 0;
                let mut cs: usize = 0;
                let mut cl: usize = 0;
                let mut j: usize = 0;
                while j < 8
                    invariant
                        j <= 8,
                        zero_run(s@.subrange(0, j as int)) == (ls as int, ll as int, cs as int, cl as int),
                        ll <= j,
                        cl <= j,
                        ls + ll <= j,
                        cs + cl <= j,
                    decreases 8 - j,
                {
                    proof {
                        assert(s@.subrange(0, j + 1).drop_last() =~= s@.subrange(0, j as int));
                    }
                    if s[j] == 0 {
                        if cl == 0 {
                            cs = j;
                            cl = 1;
                        } else {
                            cl = cl + 1;
                        }
                        if cl > ll {
                            ls = cs;
                            ll = cl;
                        }
                    } else {
                        cs = 0;
                        cl = 0;
                    }
                    j = j + 1;
                }
                proof {
                    assert(s@.subrange(0, 8) =~= s@);
                }
                if ll > 1 {
                    write_groups(&mut out, &s, 0, ls);
                    out.append("::");
                    write_groups(&mut out, &s, ls + ll, 8);
                } else {
                    write_groups(&mut out, &s, 0, 8);
                    assert(s@.subrange(0, 8) =~= s@);
                }
            }
        },
    }
    assert(out@ =~= ip_text(ip));
    out
}

// -- Where an HTTP server is reached ----------------------------------------------

/// The parts of a URL the target checks read.
#[derive(Debug)]
pub struct UrlParts {
    pub scheme: String,
    /// `Url::host_str`.
    pub host: Option<String>,
    /// An IPv6 host, bracketed as `[{address}]` writes it.
    pub ipv6_host: Option<String>,
    /// `Url::port`: the port written in the URL, when it is not the
    /// scheme's default.
    pub port: Option<u16>,
    /// `Url::port_or_known_default`.
    pub known_port: Option<u16>,
}

pub struct UrlPartsView {
    pub scheme: Seq<char>,
    pub host: Option<Seq<char>>,
    pub ipv6_host: Option<Seq<char>>,
    pub port: Option<u16>,
    pub known_port: Option<u16>,
}

pub open spec fn text_opt(o: Option<String>) -> Option<Seq<char>> {
    match o {
        Some(s) => Some(s@),
        None => None,
    }
}

impl View for UrlParts {
    type V = UrlPartsView;

    open spec fn view(&self) -> UrlPartsView {
        UrlPartsView {
            scheme: self.scheme@,
            host: text_opt(self.host),
            ipv6_host: text_opt(self.ipv6_host),
            port: self.port,
            known_port: self.known_port,
        }
    }
}

/// What `url::Url::parse` reads from `raw`: the parts of the URL, or the
/// text of the parse error.
pub uninterp spec fn url_reading(raw: Seq<char>) -> Result<UrlPartsView, Seq<char>>;

/// `url::Url::parse` and the URL's accessors `scheme`, `host_str`, `host`,
/// `port` and `port_or_known_default`; the contract claims only that the
/// parts are a function of the text (`url_reading`).
#[verifier::external_body]
fn read_url(raw: &str) -> (r: Result<UrlParts, String>)
    ensures
        match r {
            Ok(p) => url_reading(raw@) == Ok::<UrlPartsView, Seq<char>>(p@),
            Err(e) => url_reading(raw@) == Err::<UrlPartsView, Seq<char>>(e@),
        },
{
    match url::Url::parse(raw) {
        Ok(u) => Ok(UrlParts {
            scheme: u.scheme().to_string(),
            host: match u.host_str() { Some(h) => Some(h.to_string()), None => None },
            ipv6_host: match u.host() { Some(url::Host::Ipv6(a)) => Some(format!("[{a}]")), _ => None },
            port: u.port(),
            known_port: u.port_or_known_default(),
        }),
        Err(e) => Err(e.to_string()),
    }
}

/// The serialization of `raw`, parsed by `url::Url::parse`, after
/// `Url::set_host(Some(host))`; `None` when either refuses.
pub uninterp spec fn url_with_host(raw: Seq<char>, host: Seq<char>) -> Option<Seq<char>>;

/// `url::Url::set_host` on the parsed `raw`, then its serialization; the
/// contract claims only that the outcome is a function of the two texts.
#[verifier::external_body]
fn replace_url_host(raw: &str, host: &str) -> (r: Option<String>)
    ensures
        text_opt(r) == url_with_host(raw@, host@),
{
    let mut u = url::Url::parse(raw).ok()?;
    u.set_host(Some(host)).ok()?;
    Some(u.to_string())
}

pub open spec fn ascii_lower(c: char) -> char {
    if 65 <= (c as u32) <= 90 {
        ((c as u32) + 32) as char
    } else {
        c
    }
}

/// `str::eq_ignore_ascii_case`.
pub open spec fn same_ignoring_ascii_case(a: Seq<char>, b: Seq<char>) -> bool {
    a.len() == b.len() && forall|i: int| 0 <= i < a.len() ==> ascii_lower(a[i]) == ascii_lower(b[i])
}

fn lower_char(c: char) -> (r: char)
    ensures
        r == ascii_lower(c),
{
    let u = c as u32;
    if 65 <= u && u <= 90 {
        let l: u8 = (u as u8) + 32;
        l as char
    } else {
        c
    }
}

pub fn eq_ignore_ascii_case(a: &str, b: &str) -> (r: bool)
    ensures
        r == same_ignoring_ascii_case(a@, b@),
{
    let x = crate::text::chars_of(a);
    let y = crate::text::chars_of(b);
    if x.len() != y.len() {
        return false;
    }
    let mut i: usize = 0;
    while i < x.len()
        invariant
            i <= x.len() == y.len(),
            x@ == a@,
            y@ == b@,
            forall|j: int| 0 <= j < i ==> ascii_lower(a@[j]) == ascii_lower(b@[j]),
        decreases x.len() - i,
    {
        if lower_char(x[i]) != lower_char(y[i]) {
            return false;
        }
        i = i + 1;
    }
    true
}

/// The checks of an MCP URL before its host is resolved: it parses, is
/// http(s), names a host that is not `localhost`, and has a port. Gives the
/// URL's parts, host and port.
pub open spec fn target_check(raw: Seq<char>) -> Result<(UrlPartsView, Seq<char>, u16), Seq<char>> {
    match url_reading(raw) {
        Err(e) => Err("invalid MCP URL: "@ + e),
        Ok(u) => if !(u.scheme == "http"@ || u.scheme == "https"@) {
            Err("HTTP MCP requires an http(s) URL"@)
        } else {
            match u.host {
                None => Err("HTTP MCP URL requires a host"@),
                Some(h) => if same_ignoring_ascii_case(h, "localhost"@) || seq_ends_with(h, ".localhost"@) {
                    Err("HTTP MCP cannot target localhost"@)
                } else {
                    match u.known_port {
                        None => Err("HTTP MCP URL requires a valid port"@),
                        Some(p) => Ok((u, h, p)),
                    }
                },
            }
        },
    }
}

/// Where a checked MCP request goes.
#[derive(Debug)]
pub struct PinnedTarget {
    pub request_url: String,
    pub host_header: String,
    pub server_name: String,
}

pub struct PinnedView {
    pub request_url: Seq<char>,
    pub host_header: Seq<char>,
    pub server_name: Seq<char>,
}

impl View for PinnedTarget {
    type V = PinnedView;

    open spec fn view(&self) -> PinnedView {
        PinnedView { request_url: self.request_url@, host_header: self.host_header@, server_name: self.server_name@ }
    }
}

pub open spec fn any_private(addrs: Seq<IpAddress>) -> bool {
    exists|i: int| 0 <= i < addrs.len() && #[trigger] private_ip(addrs[i])
}

/// The target once the host resolved to `addrs`: every address must be
/// public; the request goes to the first, with the URL's host (and port,
/// when written) kept for the `Host` header and the host for TLS.
pub open spec fn pinned_of(raw: Seq<char>, u: UrlPartsView, host: Seq<char>, addrs: Seq<IpAddress>) -> Result<
    PinnedView,
    Seq<char>,
> {
    if addrs.len() == 0 {
        Err("HTTP MCP host did not resolve"@)
    } else if any_private(addrs) {
        Err("HTTP MCP cannot target local or private network addresses"@)
    } else {
        let host_text = match u.ipv6_host {
            Some(t) => t,
            None => host,
        };
        let header = match u.port {
            Some(p) => host_text + ":"@ + decimal_of(p as nat),
            None => host_text,
        };
        match url_with_host(raw, ip_text(addrs[0])) {
            None => Err("HTTP MCP could not pin the validated address"@),
            Some(url) => Ok(PinnedView { request_url: url, host_header: header, server_name: host }),
        }
    }
}

/// A request is only ever pinned to a public address: when a target pins,
/// the host resolved to at least one address, none of them is loopback,
/// private, link-local, multicast or unspecified, and the request goes to
/// the first.
pub proof fn law_pinned_targets_are_public(raw: Seq<char>, u: UrlPartsView, host: Seq<char>, addrs: Seq<IpAddress>)
    ensures
        pinned_of(raw, u, host, addrs) is Ok ==> {
            &&& addrs.len() > 0
            &&& forall|i: int| 0 <= i < addrs.len() ==> !private_ip(#[trigger] addrs[i])
            &&& url_with_host(raw, ip_text(addrs[0])) == Some(pinned_of(raw, u, host, addrs)->Ok_0.request_url)
        },
{
}

/// No URL naming `localhost`, in any letter case, or a host under it
/// passes the checks.
pub proof fn law_localhost_is_never_a_target(raw: Seq<char>)
    ensures
        target_check(raw) matches Ok((u, h, p)) ==> !same_ignoring_ascii_case(h, "localhost"@) && !seq_ends_with(
            h,
            ".localhost"@,
        ),
{
}

/// A URL that passed the checks before resolution.
#[derive(Debug)]
pub struct CheckedUrl {
    pub parts: UrlParts,
    pub host: String,
    pub port: u16,
}

/// The checks of an MCP URL before its host is resolved.
pub fn check_target(raw: &str) -> (r: Result<CheckedUrl, String>)
    ensures
        match target_check(raw@) {
            Err(e) => r matches Err(x) && x@ == e,
            Ok((u, h, p)) => r matches Ok(c) && c.parts@ == u && c.host@ == h && c.port == p,
        },
{
    let parts = match read_url(raw) {
        Ok(p) => p,
        Err(e) => {
            return Err(crate::text::concat2("invalid MCP URL: ", e.as_str()));
        },
    };
    if !(crate::text::str_eq(parts.scheme.as_str(), "http") || crate::text::str_eq(parts.scheme.as_str(), "https")) {
        return Err("HTTP MCP requires an http(s) URL".to_string());
    }
    let host = match &parts.host {
        Some(h) => h.clone(),
        None => {
            return Err("HTTP MCP URL requires a host".to_string());
        },
    };
    if eq_ignore_ascii_case(host.as_str(), "localhost") || crate::text::ends_with(host.as_str(), ".localhost") {
        return Err("HTTP MCP cannot target localhost".to_string());
    }
    let port = match parts.known_port {
        Some(p) => p,
        None => {
            return Err("HTTP MCP URL requires a valid port".to_string());
        },
    };
    Ok(CheckedUrl { parts, host, port })
}

pub open spec fn pinned_result(r: Result<PinnedTarget, String>) -> Result<PinnedView, Seq<char>> {
    match r {
        Ok(t) => Ok(t@),
        Err(e) => Err(e@),
    }
}

/// The target of a checked URL whose host resolved to `addresses`.
pub fn pin_target(raw: &str, url: &CheckedUrl, addresses: &Vec<IpAddress>) -> (r: Result<PinnedTarget, String>)
    ensures
        pinned_result(r) == pinned_of(raw@, url.parts@, url.host@, addresses@),
{
    if addresses.len() == 0 {
        return Err("HTTP MCP host did not resolve".to_string());
    }
    let mut i: usize = 0;
    while i < addresses.len()
        invariant
            i <= addresses.len(),
            forall|j: int| 0 <= j < i ==> !private_ip(#[trigger] addresses@[j]),
        decreases addresses.len() - i,
    {
        if is_private_ip(addresses[i]) {
            return Err("HTTP MCP cannot target local or private network addresses".to_string());
        }
        i = i + 1;
    }
    let host_text = match &url.parts.ipv6_host {
        Some(t) => t.clone(),
        None => url.host.clone(),
    };
    let header = match url.parts.port {
        Some(p) => {
            let mut h = host_text;
            h.append(":");
            h.append(decimal(p as u64).as_str());
            h
        },
        None => host_text,
    };
    let ip = ip_string(addresses[0]);
    match replace_url_host(raw, ip.as_str()) {
        None => Err("HTTP MCP could not pin the validated address".to_string()),
        Some(request_url) => Ok(PinnedTarget { request_url, host_header: header, server_name: url.host.clone() }),
    }
}

/// Check an MCP URL, resolve its host with `resolve`, and pin the request
/// to a checked address.
pub fn resolve_target<F: FnOnce(&str, u16) -> Result<Vec<IpAddress>, String>>(raw: &str, resolve: F) -> (r: Result<
    PinnedTarget,
    String,
>)
    requires
        forall|h: &str, p: u16| call_requires(resolve, (h, p)),
    ensures
        match target_check(raw@) {
            Err(e) => r matches Err(x) && x@ == e,
            Ok((u, h, p)) => exists|arg: &str, out: Result<Vec<IpAddress>, String>|
                arg@ == h && #[trigger] call_ensures(resolve, (arg, p), out) && match out {
                    Err(e) => r matches Err(x) && x@ == e@,
                    Ok(addrs) => pinned_result(r) == pinned_of(raw@, u, h, addrs@),
                },
        },
{
    let url = check_target(raw)?;
    let host: &str = url.host.as_str();
    let out = resolve(host, url.port);
    let ghost outcome = out;
    let r = match out {
        Err(e) => Err(e),
        Ok(addrs) => pin_target(raw, &url, &addrs),
    };
    proof {
        assert(call_ensures(resolve, (host, url.port), outcome));
    }
    r
}

// -- Tool names ---------------------------------------------------------------------

pub open spec fn is_ascii_alnum(c: char) -> bool {
    let u = c as u32;
    (48 <= u <= 57) || (65 <= u <= 90) || (97 <= u <= 122)
}

pub open spec fn segment_char(c: char) -> char {
    if is_ascii_alnum(c) || c == '_' {
        c
    } else {
        '_'
    }
}

/// A name as a tool-name segment: characters other than ASCII letters,
/// digits and `_` become `_`, and leading and trailing `_` are dropped.
pub open spec fn sanitized(s: Seq<char>) -> Seq<char> {
    seq_trim_matches(s.map_values(|c: char| segment_char(c)), '_')
}

/// A sanitized segment holds only ASCII letters, digits and `_`, neither
/// starts nor ends with `_`, is no longer than the name it came from, and
/// is left as it is by sanitizing it again.
pub proof fn law_sanitized_segment_is_clean(s: Seq<char>)
    ensures
        forall|i: int| 0 <= i < sanitized(s).len() ==> is_ascii_alnum(#[trigger] sanitized(s)[i]) || sanitized(s)[i]
            == '_',
        sanitized(s).len() > 0 ==> sanitized(s)[0] != '_' && sanitized(s).last() != '_',
        sanitized(s).len() <= s.len(),
        sanitized(sanitized(s)) == sanitized(s),
{
    let m = s.map_values(|c: char| segment_char(c));
    crate::text::lemma_leading_count_bound(m, '_');
    let lc = crate::text::leading_count(m, '_');
    let t = m.subrange(lc as int, m.len() as int);
    crate::text::lemma_trailing_count_bound(t, '_');
    let tc = crate::text::trailing_count(t, '_');
    let r = t.subrange(0, t.len() - tc);
    assert(r == sanitized(s));
    assert forall|i: int| 0 <= i < r.len() implies is_ascii_alnum(#[trigger] r[i]) || r[i] == '_' by {
        assert(r[i] == m[lc + i]);
    }
    if r.len() > 0 {
        assert(r[0] == m[lc as int]);
        assert(r.last() == t[t.len() - tc - 1]);
    }
    let rm = r.map_values(|c: char| segment_char(c));
    assert(rm =~= r);
    assert(crate::text::leading_count(r, '_') == 0);
    assert(r.subrange(0, r.len() as int) =~= r);
    assert(crate::text::trailing_count(r, '_') == 0);
}

pub fn sanitize_segment(value: &str) -> (r: String)
    ensures
        r@ == sanitized(value@),
{
    let v = crate::text::chars_of(value);
    let mut out = String::new();
    let mut i: usize = 0;
    while i < v.len()
        invariant
            i <= v.len(),
            v@ == value@,
            out@ == value@.subrange(0, i as int).map_values(|c: char| segment_char(c)),
        decreases v.len() - i,
    {
        let c = v[i];
        let u = c as u32;
        let keep = (48 <= u && u <= 57) || (65 <= u && u <= 90) || (97 <= u && u <= 122) || c == '_';
        if keep {
            push_char(&mut out, c);
        } else {
            push_char(&mut out, '_');
        }
        proof {
            assert(out@ =~= value@.subrange(0, i + 1).map_values(|c: char| segment_char(c)));
        }
        i = i + 1;
    }
    proof {
        assert(value@.subrange(0, v@.len() as int) =~= value@);
    }
    crate::text::trim_matches(out.as_str(), '_')
}

/// The prefix of every tool name of an MCP server.
pub open spec fn prefix_of(server: Seq<char>) -> Seq<char> {
    "mcp__"@ + sanitized(server) + "__"@
}

pub fn tool_prefix(server: &str) -> (r: String)
    ensures
        r@ == prefix_of(server@),
{
    let mut r = owned("mcp__");
    r.append(sanitize_segment(server).as_str());
    r.append("__");
    r
}

} // verus!
