//! Campus detection: IPv4 CIDRs, local address lists, gateway targets and
//! the on/off-campus decision drawn from them.
use vstd::prelude::*;

use crate::config::{AppConfig, ConfigError, ConfigFault};
use crate::text;
use crate::text::{decimal_chars, extend_chars, extend_str};

verus! {

// ---------------------------------------------------------------------------
// CIDRs (ipnet)
// ---------------------------------------------------------------------------

/// What `str::parse::<ipnet::Ipv4Net>` makes of `text`: the address (as the
/// big-endian `u32` of its octets) and the prefix length, or nothing when
/// the text is not `a.b.c.d/n`. The parser itself is not restated here.
pub uninterp spec fn ipv4_net_parse(text: Seq<char>) -> Option<(u32, u8)>;

/// Calls `<ipnet::Ipv4Net as FromStr>::from_str` and reads `addr` and
/// `prefix_len`. Claims the result is `ipv4_net_parse` of the text, that
/// only a non-empty text parses, and that a parsed prefix length is at most
/// 32 (the parser refuses larger ones).
#[verifier::external_body]
fn parse_ipv4_net(text: &str) -> (r: Option<(u32, u8)>)
    ensures
        r == ipv4_net_parse(text@),
        r is Some ==> text@.len() > 0,
        r matches Some(n) ==> n.1 <= 32,
{
    match text.parse::<ipnet::Ipv4Net>() {
        Ok(net) => Some((u32::from(net.addr()), net.prefix_len())),
        Err(_) => None,
    }
}

/// The network a CIDR text stands for: what ipnet parses from it, and
/// nothing for an empty text, which ipnet never parses.
pub open spec fn parsed_cidr(text: Seq<char>) -> Option<(u32, u8)> {
    if text.len() == 0 {
        None
    } else {
        ipv4_net_parse(text)
    }
}

/// `Ipv4Net::netmask` as a `u32`: the top `prefix_len` bits set.
pub open spec fn ipv4_netmask(prefix_len: u8) -> u32 {
    if prefix_len == 0 {
        0
    } else {
        0xffff_ffffu32 << ((32 - prefix_len) as u32)
    }
}

/// `Ipv4Net::hostmask` as a `u32`: the low `32 - prefix_len` bits set.
pub open spec fn ipv4_hostmask(prefix_len: u8) -> u32 {
    if prefix_len >= 32 {
        0
    } else {
        0xffff_ffffu32 >> (prefix_len as u32)
    }
}

/// `Ipv4Net::contains(&Ipv4Addr)`: the address lies between the network
/// address and the broadcast address.
pub open spec fn cidr_contains(addr: u32, prefix_len: u8, ip: u32) -> bool {
    (addr & ipv4_netmask(prefix_len)) <= ip && ip <= (addr | ipv4_hostmask(prefix_len))
}

/// Calls `ipnet::Ipv4Net::contains` on an `Ipv4Addr`. As ipnet's source
/// shows, it holds when `network() <= ip <= broadcast()`, with the network
/// and broadcast addresses formed from the netmask and hostmask.
#[verifier::external_body]
fn ipv4_net_contains(addr: u32, prefix_len: u8, ip: u32) -> (b: bool)
    requires
        prefix_len <= 32,
    ensures
        b == cidr_contains(addr, prefix_len, ip),
{
    ipnet::Ipv4Net::new_assert(core::net::Ipv4Addr::from(addr), prefix_len).contains(
        &core::net::Ipv4Addr::from(ip),
    )
}

/// A parsed IPv4 network.
#[derive(Debug, Clone, Copy, PartialEq, Eq, Structural)]
pub struct Ipv4Cidr {
    /// The address as written, as the big-endian `u32` of its octets.
    pub addr: u32,
    pub prefix_len: u8,
}

impl Ipv4Cidr {
    pub open spec fn wf(&self) -> bool {
        self.prefix_len <= 32
    }

    /// Whether `ip` lies in this network.
    pub fn contains(&self, ip: u32) -> (b: bool)
        requires
            self.wf(),
        ensures
            b == cidr_contains(self.addr, self.prefix_len, ip),
    {
        ipv4_net_contains(self.addr, self.prefix_len, ip)
    }
}

/// Every network contains the address it was written with.
pub proof fn lemma_cidr_contains_own_address(addr: u32, prefix_len: u8)
    requires
        prefix_len <= 32,
    ensures
        cidr_contains(addr, prefix_len, addr),
{
    let m = ipv4_netmask(prefix_len);
    let h = ipv4_hostmask(prefix_len);
    assert((addr & m) <= addr) by (bit_vector);
    assert(addr <= (addr | h)) by (bit_vector);
}

/// The index of the first text in `values` that is not a CIDR.
pub open spec fn first_invalid_cidr(values: Seq<Seq<char>>) -> Option<int>
    decreases values.len(),
{
    if values.len() == 0 {
        None
    } else {
        match first_invalid_cidr(values.drop_last()) {
            Some(i) => Some(i),
            None => if parsed_cidr(values.last()) is None {
                Some(values.len() - 1)
            } else {
                None
            },
        }
    }
}

/// The first invalid CIDR is one of the values, and does not parse.
pub proof fn lemma_first_invalid_cidr_some(values: Seq<Seq<char>>)
    requires
        first_invalid_cidr(values) is Some,
    ensures
        0 <= first_invalid_cidr(values)->0 < values.len(),
        parsed_cidr(values[first_invalid_cidr(values)->0]) is None,
    decreases values.len(),
{
    if first_invalid_cidr(values.drop_last()) is Some {
        lemma_first_invalid_cidr_some(values.drop_last());
    }
}

/// With no invalid CIDR, every value parses.
pub proof fn lemma_first_invalid_cidr_none(values: Seq<Seq<char>>)
    requires
        first_invalid_cidr(values) is None,
    ensures
        forall|i: int| 0 <= i < values.len() ==> parsed_cidr(#[trigger] values[i]) is Some,
    decreases values.len(),
{
    if values.len() > 0 {
        lemma_first_invalid_cidr_none(values.drop_last());
        assert forall|i: int| 0 <= i < values.len() implies parsed_cidr(
            #[trigger] values[i],
        ) is Some by {
            if i < values.len() - 1 {
                assert(values.drop_last()[i] == values[i]);
            }
        }
    }
}

/// `parsed` holds, in order, what each of `values` parses to.
pub open spec fn cidrs_parsed_from(parsed: Seq<Ipv4Cidr>, values: Seq<String>) -> bool {
    &&& parsed.len() == values.len()
    &&& forall|i: int|
        #![trigger parsed[i]]
        0 <= i < parsed.len() ==> parsed[i].wf() && parsed_cidr(values[i]@) == Some(
            (parsed[i].addr, parsed[i].prefix_len),
        )
}

/// Parses every CIDR, or reports the first that does not parse.
pub fn parse_ipv4_cidrs(values: &Vec<String>) -> (r: Result<Vec<Ipv4Cidr>, ConfigError>)
    ensures
        match first_invalid_cidr(text::strings_view(values@)) {
            Some(i) => (r matches Err(e) && e@ == ConfigFault::InvalidCidr(values@[i]@)),
            None => (r matches Ok(v) && cidrs_parsed_from(v@, values@)),
        },
{
    let ghost vals = text::strings_view(values@);
    let mut out: Vec<Ipv4Cidr> = Vec::new();
    let mut i: usize = 0;
    while i < values.len()
        invariant
            i <= values@.len(),
            vals == text::strings_view(values@),
            first_invalid_cidr(vals.subrange(0, i as int)) is None,
            out@.len() == i,
            forall|k: int|
                #![trigger out@[k]]
                0 <= k < i ==> out@[k].wf() && parsed_cidr(values@[k]@) == Some(
                    (out@[k].addr, out@[k].prefix_len),
                ),
        decreases values@.len() - i,
    {
        let parsed = parse_ipv4_net(values[i].as_str());
        proof {
            assert(vals.subrange(0, i + 1).drop_last() =~= vals.subrange(0, i as int));
            assert(vals.subrange(0, i + 1).last() == values@[i as int]@);
        }
        match parsed {
            Some(p) => {
                out.push(Ipv4Cidr { addr: p.0, prefix_len: p.1 });
            },
            None => {
                proof {
                    lemma_first_invalid_cidr_prefix(vals, i as int + 1);
                }
                return Err(ConfigError::InvalidCidr(values[i].clone()));
            },
        }
        i = i + 1;
    }
    proof {
        assert(vals.subrange(0, values@.len() as int) =~= vals);
    }
    Ok(out)
}

/// A first invalid CIDR within a prefix is the first invalid one overall.
proof fn lemma_first_invalid_cidr_prefix(values: Seq<Seq<char>>, n: int)
    requires
        0 <= n <= values.len(),
        first_invalid_cidr(values.subrange(0, n)) is Some,
    ensures
        first_invalid_cidr(values) == first_invalid_cidr(values.subrange(0, n)),
    decreases values.len() - n,
{
    if n < values.len() {
        assert(values.subrange(0, n + 1).drop_last() =~= values.subrange(0, n));
        lemma_first_invalid_cidr_prefix(values, n + 1);
    } else {
        assert(values.subrange(0, n) =~= values);
    }
}

// ---------------------------------------------------------------------------
// Local addresses
// ---------------------------------------------------------------------------

/// `Ipv4Addr::is_loopback`: the first octet is 127.
pub open spec fn is_loopback(ip: u32) -> bool {
    ip / 0x100_0000 == 127
}

/// Strictly increasing, so free of duplicates.
pub open spec fn strictly_increasing(s: Seq<u32>) -> bool {
    forall|i: int, j: int| 0 <= i < j < s.len() ==> s[i] < s[j]
}

/// The addresses of the local interfaces that the campus check uses: the
/// non-loopback ones, sorted and without duplicates.
pub fn local_ipv4_addresses(all: &Vec<u32>) -> (r: Vec<u32>)
    ensures
        strictly_increasing(r@),
        forall|ip: u32|
            #![trigger r@.contains(ip)]
            #![trigger all@.contains(ip)]
            r@.contains(ip) <==> (all@.contains(ip) && !is_loopback(ip)),
{
    let mut r: Vec<u32> = Vec::new();
    let mut i: usize = 0;
    while i < all.len()
        invariant
            i <= all@.len(),
            strictly_increasing(r@),
            forall|a: u32|
                #![trigger r@.contains(a)]
                #![trigger all@.subrange(0, i as int).contains(a)]
                r@.contains(a) <==> (all@.subrange(0, i as int).contains(a) && !is_loopback(a)),
        decreases all@.len() - i,
    {
        let ip = all[i];
        let ghost before = r@;
        proof {
            lemma_prefix_contains(all@, i as int);
            assert(forall|y: u32|
                before.contains(y) <==> (all@.subrange(0, i as int).contains(y) && !is_loopback(y)));
            assert(all@[i as int] == ip);
        }
        if ip / 0x100_0000 != 127 {
            insert_sorted(&mut r, ip);
            assert forall|x: u32|
                r@.contains(x) <==> (all@.subrange(0, i + 1).contains(x) && !is_loopback(x)) by {
                assert(all@.subrange(0, i + 1).contains(x) <==> (all@.subrange(0, i as int).contains(x) || x == ip));
                assert(r@.contains(x) <==> (before.contains(x) || x == ip));
                assert(!is_loopback(ip));
            }
        } else {
            assert forall|x: u32|
                r@.contains(x) <==> (all@.subrange(0, i + 1).contains(x) && !is_loopback(x)) by {
                assert(all@.subrange(0, i + 1).contains(x) <==> (all@.subrange(0, i as int).contains(x) || x == ip));
                assert(r@ == before);
                assert(is_loopback(ip));
            }
        }
        i = i + 1;
    }
    proof {
        assert(all@.subrange(0, all@.len() as int) =~= all@);
    }
    r
}

proof fn lemma_prefix_contains(s: Seq<u32>, i: int)
    requires
        0 <= i < s.len(),
    ensures
        forall|x: u32|
            s.subrange(0, i + 1).contains(x) <==> (s.subrange(0, i).contains(x) || x == s[i]),
{
    assert forall|x: u32|
        s.subrange(0, i + 1).contains(x) <==> (s.subrange(0, i).contains(x) || x == s[i]) by {
        if s.subrange(0, i + 1).contains(x) {
            let k = choose|k: int| 0 <= k < i + 1 && #[trigger] s.subrange(0, i + 1)[k] == x;
            if k < i {
                assert(s.subrange(0, i)[k] == x);
            }
        }
        if s.subrange(0, i).contains(x) {
            let k = choose|k: int| 0 <= k < i && #[trigger] s.subrange(0, i)[k] == x;
            assert(s.subrange(0, i + 1)[k] == x);
        }
        if x == s[i] {
            assert(s.subrange(0, i + 1)[i] == x);
        }
    }
}

/// Inserts `x` into a strictly increasing vector unless it is already there.
fn insert_sorted(v: &mut Vec<u32>, x: u32)
    requires
        strictly_increasing(old(v)@),
    ensures
        strictly_increasing(final(v)@),
        forall|y: u32|
            #![trigger final(v)@.contains(y)]
            #![trigger old(v)@.contains(y)]
            final(v)@.contains(y) <==> (old(v)@.contains(y) || y == x),
{
    let mut p: usize = 0;
    while p < v.len() && v[p] < x
        invariant
            p <= v@.len(),
            forall|k: int| 0 <= k < p ==> v@[k] < x,
        decreases v@.len() - p,
    {
        p = p + 1;
    }
    if p < v.len() && v[p] == x {
        proof {
            assert(v@[p as int] == x);
        }
        return;
    }
    let ghost before = v@;
    v.insert(p, x);
    proof {
        assert(v@ == before.insert(p as int, x));
        assert forall|i: int, j: int| 0 <= i < j < v@.len() implies v@[i] < v@[j] by {
            if j < p {
            } else if j == p {
            } else if i < p {
                assert(v@[j] == before[j - 1]);
                if p < before.len() {
                    assert(x < before[p as int]);
                    assert(before[p as int] <= before[j - 1]);
                }
            } else if i == p {
                assert(v@[j] == before[j - 1]);
                assert(x < before[p as int]);
                if j - 1 > p {
                    assert(before[p as int] < before[j - 1]);
                }
            } else {
                assert(v@[i] == before[i - 1]);
                assert(v@[j] == before[j - 1]);
            }
        }
        assert forall|y: u32|
            #![trigger v@.contains(y)]
            #![trigger before.contains(y)]
            v@.contains(y) <==> (before.contains(y) || y == x) by {
            assert(forall|k: int| 0 <= k < p ==> v@[k] == before[k]);
            assert(forall|k: int| p < k < v@.len() ==> v@[k] == before[k - 1]);
            assert(v@[p as int] == x);
            if v@.contains(y) {
                let k = choose|k: int| 0 <= k < v@.len() && #[trigger] v@[k] == y;
                if k < p {
                    assert(before[k] == y);
                } else if k > p {
                    assert(before[k - 1] == y);
                }
            }
            if before.contains(y) {
                let k = choose|k: int| 0 <= k < before.len() && #[trigger] before[k] == y;
                if k < p {
                    assert(v@[k] == y);
                } else {
                    assert(v@[k + 1] == y);
                }
            }
            if y == x {
                assert(v@[p as int] == y);
            }
        }
    }
}

// ---------------------------------------------------------------------------
// Formatting addresses
// ---------------------------------------------------------------------------

/// The dotted-decimal form of an address, as `Ipv4Addr` displays it.
pub open spec fn ipv4_text(ip: u32) -> Seq<char> {
    text::decimal((ip / 0x100_0000) as nat) + seq!['.'] + text::decimal(((ip / 0x1_0000) % 0x100) as nat)
        + seq!['.'] + text::decimal(((ip / 0x100) % 0x100) as nat) + seq!['.'] + text::decimal(
        (ip % 0x100) as nat,
    )
}

/// The dotted-decimal form of each address.
pub open spec fn ipv4_texts(ips: Seq<u32>) -> Seq<Seq<char>> {
    ips.map_values(|ip: u32| ipv4_text(ip))
}

/// The dotted-decimal form of an address.
pub fn format_ipv4(ip: u32) -> (r: Vec<char>)
    ensures
        r@ == ipv4_text(ip),
{
    let mut r = decimal_chars((ip / 0x100_0000) as u64);
    r.push('.');
    let b = decimal_chars(((ip / 0x1_0000) % 0x100) as u64);
    extend_chars(&mut r, &b);
    r.push('.');
    let c = decimal_chars(((ip / 0x100) % 0x100) as u64);
    extend_chars(&mut r, &c);
    r.push('.');
    let d = decimal_chars((ip % 0x100) as u64);
    extend_chars(&mut r, &d);
    r
}

/// The addresses in dotted-decimal form, separated by `", "`.
pub fn format_ipv4_list(addresses: &Vec<u32>) -> (r: Vec<char>)
    ensures
        r@ == text::join(ipv4_texts(addresses@), ", "@),
{
    let ghost items = ipv4_texts(addresses@);
    let mut r: Vec<char> = Vec::new();
    let mut i: usize = 0;
    while i < addresses.len()
        invariant
            i <= addresses@.len(),
            items == ipv4_texts(addresses@),
            r@ == text::join(items.subrange(0, i as int), ", "@),
        decreases addresses@.len() - i,
    {
        proof {
            assert(items.subrange(0, i + 1).drop_last() =~= items.subrange(0, i as int));
        }
        if i > 0 {
            extend_str(&mut r, ", ");
        }
        let t = format_ipv4(addresses[i]);
        extend_chars(&mut r, &t);
        proof {
            if i == 0 {
                assert(r@ =~= items.subrange(0, 1)[0]);
            }
        }
        i = i + 1;
    }
    proof {
        assert(items.subrange(0, addresses@.len() as int) =~= items);
    }
    r
}

} // verus!

verus! {

// ---------------------------------------------------------------------------
// Gateways
// ---------------------------------------------------------------------------

/// The `host:port` that a gateway is probed at: the trimmed text itself
/// when it already names a port (a `:` and no `.`), else port 80.
pub open spec fn gateway_target_text(gateway: Seq<char>) -> Seq<char> {
    let host = text::trim(gateway);
    if text::contains(host, ":"@) && !text::contains(host, "."@) {
        host
    } else {
        host + ":80"@
    }
}

/// The address to connect to when checking that a gateway responds.
pub fn gateway_target(gateway: &str) -> (r: String)
    ensures
        r@ == gateway_target_text(gateway@),
{
    let mut host = crate::text::trim_str(gateway);
    if !(crate::text::contains_str(&host, ":") && !crate::text::contains_str(&host, ".")) {
        extend_str(&mut host, ":80");
    }
    crate::text::string_of(&host)
}

// ---------------------------------------------------------------------------
// The campus decision
// ---------------------------------------------------------------------------

/// Whether the machine is on the campus network, and why it is judged so.
#[derive(Debug, Clone, PartialEq, Eq)]
pub enum CampusEnvironment {
    OnCampus(String),
    OffCampus(String),
}

pub enum CampusView {
    OnCampus(Seq<char>),
    OffCampus(Seq<char>),
}

impl View for CampusEnvironment {
    type V = CampusView;

    open spec fn view(&self) -> CampusView {
        match self {
            CampusEnvironment::OnCampus(r) => CampusView::OnCampus(r@),
            CampusEnvironment::OffCampus(r) => CampusView::OffCampus(r@),
        }
    }
}

/// The gateways whose flag in `reachable` is set, in order.
pub open spec fn responding_gateways(gateways: Seq<Seq<char>>, reachable: Seq<bool>) -> Seq<
    Seq<char>,
>
    decreases gateways.len(),
{
    if gateways.len() == 0 {
        Seq::empty()
    } else {
        let prev = responding_gateways(gateways.drop_last(), reachable);
        if reachable[gateways.len() - 1] {
            prev.push(gateways.last())
        } else {
            prev
        }
    }
}

/// Some network of `nets` contains `ip`.
pub open spec fn in_some_net(nets: Seq<(u32, u8)>, ip: u32) -> bool {
    exists|j: int| 0 <= j < nets.len() && cidr_contains(#[trigger] nets[j].0, nets[j].1, ip)
}

/// The addresses of `local` that some network of `nets` contains, in order.
pub open spec fn matching_addresses(local: Seq<u32>, nets: Seq<(u32, u8)>) -> Seq<u32>
    decreases local.len(),
{
    if local.len() == 0 {
        Seq::empty()
    } else {
        let prev = matching_addresses(local.drop_last(), nets);
        if in_some_net(nets, local.last()) {
            prev.push(local.last())
        } else {
            prev
        }
    }
}

/// What each CIDR parses to (all of them parse when this is used).
pub open spec fn parsed_nets(cidrs: Seq<Seq<char>>) -> Seq<(u32, u8)> {
    cidrs.map_values(|c: Seq<char>| parsed_cidr(c)->0)
}

pub const NO_LOCAL_ADDRESS_REASON: &'static str = "no non-loopback IPv4 addresses are active";

/// The campus decision. No usable local address means off campus; no
/// configured gateway responding means off campus; otherwise on campus,
/// with the optional CIDRs only adding to the reason (and an unparsable
/// CIDR being an error).
pub open spec fn campus_verdict(
    gateways: Seq<Seq<char>>,
    cidrs: Seq<Seq<char>>,
    local: Seq<u32>,
    reachable: Seq<bool>,
) -> Result<CampusView, ConfigFault> {
    let local_text = text::join(ipv4_texts(local), ", "@);
    let responding = responding_gateways(gateways, reachable);
    if local.len() == 0 {
        Ok(CampusView::OffCampus(NO_LOCAL_ADDRESS_REASON@))
    } else if responding.len() == 0 {
        Ok(
            CampusView::OffCampus(
                "local IPv4 "@ + local_text + ", but no configured campus gateway responded ("@
                    + text::join(gateways, ", "@) + ")"@,
            ),
        )
    } else if cidrs.len() == 0 {
        Ok(
            CampusView::OnCampus(
                "gateway(s) "@ + text::join(responding, ", "@) + " responded while local IPv4 is "@
                    + local_text,
            ),
        )
    } else if first_invalid_cidr(cidrs) is Some {
        Err(ConfigFault::InvalidCidr(cidrs[first_invalid_cidr(cidrs)->0]))
    } else {
        let matching = matching_addresses(local, parsed_nets(cidrs));
        if matching.len() == 0 {
            Ok(
                CampusView::OnCampus(
                    "gateway(s) "@ + text::join(responding, ", "@) + " responded; local IPv4 "@
                        + local_text + " did not match the optional CIDRs "@ + text::join(
                        cidrs,
                        ", "@,
                    ),
                ),
            )
        } else {
            Ok(
                CampusView::OnCampus(
                    "gateway(s) "@ + text::join(responding, ", "@) + " responded and local IPv4 "@
                        + text::join(ipv4_texts(matching), ", "@) + " matched optional CIDRs "@
                        + text::join(cidrs, ", "@),
                ),
            )
        }
    }
}

pub open spec fn campus_result_view(r: Result<CampusEnvironment, ConfigError>) -> Result<
    CampusView,
    ConfigFault,
> {
    match r {
        Ok(e) => Ok(e@),
        Err(e) => Err(e@),
    }
}

fn select_responding(gateways: &Vec<String>, reachable: &Vec<bool>) -> (r: Vec<String>)
    requires
        reachable@.len() == gateways@.len(),
    ensures
        text::strings_view(r@) == responding_gateways(text::strings_view(gateways@), reachable@),
{
    let ghost g = text::strings_view(gateways@);
    let mut r: Vec<String> = Vec::new();
    let mut i: usize = 0;
    while i < gateways.len()
        invariant
            i <= gateways@.len(),
            reachable@.len() == gateways@.len(),
            g == text::strings_view(gateways@),
            text::strings_view(r@) == responding_gateways(g.subrange(0, i as int), reachable@),
        decreases gateways@.len() - i,
    {
        proof {
            assert(g.subrange(0, i + 1).drop_last() =~= g.subrange(0, i as int));
        }
        if reachable[i] {
            r.push(gateways[i].clone());
            assert(text::strings_view(r@) =~= responding_gateways(
                g.subrange(0, i as int),
                reachable@,
            ).push(g[i as int]));
        }
        i = i + 1;
    }
    assert(g.subrange(0, gateways@.len() as int) =~= g);
    r
}

fn in_any(nets: &Vec<Ipv4Cidr>, ip: u32) -> (b: bool)
    requires
        forall|j: int| 0 <= j < nets@.len() ==> (#[trigger] nets@[j]).wf(),
    ensures
        b == (exists|j: int|
            0 <= j < nets@.len() && cidr_contains(
                #[trigger] nets@[j].addr,
                nets@[j].prefix_len,
                ip,
            )),
{
    let mut j: usize = 0;
    while j < nets.len()
        invariant
            j <= nets@.len(),
            forall|k: int| 0 <= k < nets@.len() ==> (#[trigger] nets@[k]).wf(),
            forall|k: int|
                0 <= k < j ==> !cidr_contains(#[trigger] nets@[k].addr, nets@[k].prefix_len, ip),
        decreases nets@.len() - j,
    {
        if nets[j].contains(ip) {
            return true;
        }
        j = j + 1;
    }
    false
}

fn select_matching(local: &Vec<u32>, nets: &Vec<Ipv4Cidr>, ghost_nets: Ghost<Seq<(u32, u8)>>) -> (r:
    Vec<u32>)
    requires
        forall|j: int| 0 <= j < nets@.len() ==> (#[trigger] nets@[j]).wf(),
        ghost_nets@.len() == nets@.len(),
        forall|j: int|
            0 <= j < nets@.len() ==> #[trigger] ghost_nets@[j] == (nets@[j].addr, nets@[j].prefix_len),
    ensures
        r@ == matching_addresses(local@, ghost_nets@),
{
    let mut r: Vec<u32> = Vec::new();
    let mut i: usize = 0;
    while i < local.len()
        invariant
            i <= local@.len(),
            forall|j: int| 0 <= j < nets@.len() ==> (#[trigger] nets@[j]).wf(),
            ghost_nets@.len() == nets@.len(),
            forall|j: int|
                0 <= j < nets@.len() ==> #[trigger] ghost_nets@[j] == (
                    nets@[j].addr,
                    nets@[j].prefix_len,
                ),
            r@ == matching_addresses(local@.subrange(0, i as int), ghost_nets@),
        decreases local@.len() - i,
    {
        let ip = local[i];
        proof {
            assert(local@.subrange(0, i + 1).drop_last() =~= local@.subrange(0, i as int));
        }
        let hit = in_any(nets, ip);
        proof {
            if hit {
                let j = choose|j: int|
                    0 <= j < nets@.len() && cidr_contains(
                        #[trigger] nets@[j].addr,
                        nets@[j].prefix_len,
                        ip,
                    );
                assert(ghost_nets@[j] == (nets@[j].addr, nets@[j].prefix_len));
                assert(cidr_contains(ghost_nets@[j].0, ghost_nets@[j].1, ip));
            }
            if in_some_net(ghost_nets@, ip) {
                let j = choose|j: int|
                    0 <= j < ghost_nets@.len() && cidr_contains(
                        #[trigger] ghost_nets@[j].0,
                        ghost_nets@[j].1,
                        ip,
                    );
                assert(ghost_nets@[j] == (nets@[j].addr, nets@[j].prefix_len));
                assert(cidr_contains(nets@[j].addr, nets@[j].prefix_len, ip));
            }
            assert(hit == in_some_net(ghost_nets@, ip));
            assert(local@.subrange(0, i + 1).last() == ip);
        }
        if hit {
            r.push(ip);
        }
        i = i + 1;
    }
    assert(local@.subrange(0, local@.len() as int) =~= local@);
    r
}

/// Builds text from the given pieces, in order.
fn assemble(parts: Vec<Vec<char>>) -> (r: String)
    ensures
        r@ == text::concat(parts@.map_values(|p: Vec<char>| p@)),
{
    let ghost views = parts@.map_values(|p: Vec<char>| p@);
    let mut out: Vec<char> = Vec::new();
    let mut i: usize = 0;
    while i < parts.len()
        invariant
            i <= parts@.len(),
            views == parts@.map_values(|p: Vec<char>| p@),
            out@ == text::concat(views.subrange(0, i as int)),
        decreases parts@.len() - i,
    {
        proof {
            assert(views.subrange(0, i + 1).drop_last() =~= views.subrange(0, i as int));
        }
        extend_chars(&mut out, &parts[i]);
        i = i + 1;
    }
    assert(views.subrange(0, parts@.len() as int) =~= views);
    crate::text::string_of(&out)
}

/// Decides whether the machine is on the campus network, from its local
/// IPv4 addresses (as `local_ipv4_addresses` lists them) and whether each
/// configured gateway responded. When there is no local address the
/// gateways' flags are not read, so they need not have been probed.
pub fn detect_campus_environment(
    config: &AppConfig,
    local_ipv4: &Vec<u32>,
    gateway_reachable: &Vec<bool>,
) -> (r: Result<CampusEnvironment, ConfigError>)
    requires
        gateway_reachable@.len() == config.campus.gateway_hosts@.len(),
    ensures
        campus_result_view(r) == campus_verdict(
            text::strings_view(config.campus.gateway_hosts@),
            text::strings_view(config.campus.ipv4_cidrs@),
            local_ipv4@,
            gateway_reachable@,
        ),
{
    if local_ipv4.len() == 0 {
        return Ok(CampusEnvironment::OffCampus(String::from_str(NO_LOCAL_ADDRESS_REASON)));
    }
    let local_text = format_ipv4_list(local_ipv4);
    let responding = select_responding(&config.campus.gateway_hosts, gateway_reachable);
    if responding.len() == 0 {
        let mut parts: Vec<Vec<char>> = Vec::new();
        parts.push(crate::text::chars_of("local IPv4 "));
        parts.push(local_text);
        parts.push(crate::text::chars_of(", but no configured campus gateway responded ("));
        parts.push(crate::text::join_strings(&config.campus.gateway_hosts, ", "));
        parts.push(crate::text::chars_of(")"));
        let reason = assemble(parts);
        proof {
            reveal_with_fuel(text::concat, 6);
        }
        return Ok(CampusEnvironment::OffCampus(reason));
    }
    let responding_text = crate::text::join_strings(&responding, ", ");
    if config.campus.ipv4_cidrs.len() == 0 {
        let mut parts: Vec<Vec<char>> = Vec::new();
        parts.push(crate::text::chars_of("gateway(s) "));
        parts.push(responding_text);
        parts.push(crate::text::chars_of(" responded while local IPv4 is "));
        parts.push(local_text);
        let reason = assemble(parts);
        proof {
            reveal_with_fuel(text::concat, 5);
        }
        return Ok(CampusEnvironment::OnCampus(reason));
    }
    let nets = match parse_ipv4_cidrs(&config.campus.ipv4_cidrs) {
        Ok(n) => n,
        Err(e) => {
            proof {
                let cidrs = text::strings_view(config.campus.ipv4_cidrs@);
                lemma_first_invalid_cidr_some(cidrs);
                let k = first_invalid_cidr(cidrs)->0;
                assert(cidrs[k] == config.campus.ipv4_cidrs@[k]@);
            }
            return Err(e);
        },
    };
    let ghost cidrs = text::strings_view(config.campus.ipv4_cidrs@);
    let ghost gn = parsed_nets(cidrs);
    proof {
        assert forall|j: int| 0 <= j < nets@.len() implies #[trigger] gn[j] == (
            nets@[j].addr,
            nets@[j].prefix_len,
        ) by {
            assert(parsed_cidr(config.campus.ipv4_cidrs@[j]@) == Some(
                (nets@[j].addr, nets@[j].prefix_len),
            ));
        }
    }
    let matching = select_matching(local_ipv4, &nets, Ghost(gn));
    let cidr_text = crate::text::join_strings(&config.campus.ipv4_cidrs, ", ");
    let mut parts: Vec<Vec<char>> = Vec::new();
    parts.push(crate::text::chars_of("gateway(s) "));
    parts.push(responding_text);
    if matching.len() == 0 {
        parts.push(crate::text::chars_of(" responded; local IPv4 "));
        parts.push(local_text);
        parts.push(crate::text::chars_of(" did not match the optional CIDRs "));
        parts.push(cidr_text);
    } else {
        parts.push(crate::text::chars_of(" responded and local IPv4 "));
        parts.push(format_ipv4_list(&matching));
        parts.push(crate::text::chars_of(" matched optional CIDRs "));
        parts.push(cidr_text);
    }
    let reason = assemble(parts);
    proof {
        reveal_with_fuel(text::concat, 7);
    }
    Ok(CampusEnvironment::OnCampus(reason))
}

} // verus!

verus! {

proof fn lemma_responding_has_reachable(gateways: Seq<Seq<char>>, reachable: Seq<bool>)
    requires
        reachable.len() == gateways.len(),
        responding_gateways(gateways, reachable).len() > 0,
    ensures
        exists|i: int| 0 <= i < gateways.len() && #[trigger] reachable[i],
    decreases gateways.len(),
{
    if !reachable[gateways.len() - 1] {
        let r = reachable.subrange(0, gateways.len() - 1);
        assert(responding_gateways(gateways.drop_last(), reachable).len() > 0);
        lemma_responding_with_prefix(gateways.drop_last(), reachable, r);
        lemma_responding_has_reachable(gateways.drop_last(), r);
        let i = choose|i: int| 0 <= i < gateways.len() - 1 && #[trigger] r[i];
        assert(reachable[i]);
    }
}

proof fn lemma_responding_with_prefix(
    gateways: Seq<Seq<char>>,
    reachable: Seq<bool>,
    r: Seq<bool>,
)
    requires
        gateways.len() <= r.len() <= reachable.len(),
        forall|i: int| 0 <= i < r.len() ==> r[i] == reachable[i],
    ensures
        responding_gateways(gateways, reachable) == responding_gateways(gateways, r),
    decreases gateways.len(),
{
    if gateways.len() > 0 {
        lemma_responding_with_prefix(gateways.drop_last(), reachable, r);
    }
}

/// On campus only when the machine has an address and some configured
/// gateway responded.
pub proof fn lemma_on_campus_needs_a_gateway(
    gateways: Seq<Seq<char>>,
    cidrs: Seq<Seq<char>>,
    local: Seq<u32>,
    reachable: Seq<bool>,
)
    requires
        reachable.len() == gateways.len(),
        campus_verdict(gateways, cidrs, local, reachable) matches Ok(CampusView::OnCampus(_)),
    ensures
        local.len() > 0,
        exists|i: int| 0 <= i < gateways.len() && #[trigger] reachable[i],
{
    lemma_responding_has_reachable(gateways, reachable);
}

/// The optional CIDRs never decide whether the machine is on campus: with
/// any two lists of valid CIDRs the verdict is on campus for both or for
/// neither.
pub proof fn lemma_cidrs_do_not_decide(
    gateways: Seq<Seq<char>>,
    cidrs_a: Seq<Seq<char>>,
    cidrs_b: Seq<Seq<char>>,
    local: Seq<u32>,
    reachable: Seq<bool>,
)
    requires
        first_invalid_cidr(cidrs_a) is None,
        first_invalid_cidr(cidrs_b) is None,
    ensures
        campus_verdict(gateways, cidrs_a, local, reachable) is Ok,
        campus_verdict(gateways, cidrs_b, local, reachable) is Ok,
        (campus_verdict(gateways, cidrs_a, local, reachable)->Ok_0 is OnCampus) <==> (
        campus_verdict(gateways, cidrs_b, local, reachable)->Ok_0 is OnCampus),
{
}


/// Some gateway that responded gives some responding gateway.
proof fn lemma_reachable_responds(gateways: Seq<Seq<char>>, reachable: Seq<bool>)
    requires
        reachable.len() == gateways.len(),
        exists|i: int| 0 <= i < gateways.len() && #[trigger] reachable[i],
    ensures
        responding_gateways(gateways, reachable).len() > 0,
    decreases gateways.len(),
{
    if !reachable[gateways.len() - 1] {
        let i = choose|i: int| 0 <= i < gateways.len() && #[trigger] reachable[i];
        let r = reachable.subrange(0, gateways.len() - 1);
        assert(r[i]);
        lemma_reachable_responds(gateways.drop_last(), r);
        lemma_responding_with_prefix(gateways.drop_last(), reachable, r);
    }
}

/// On campus whenever the machine has an address and any one configured
/// gateway responded, whichever it is and whatever the others did (with
/// valid CIDRs, which only add to the reason).
pub proof fn lemma_a_responding_gateway_means_on_campus(
    gateways: Seq<Seq<char>>,
    cidrs: Seq<Seq<char>>,
    local: Seq<u32>,
    reachable: Seq<bool>,
)
    requires
        local.len() > 0,
        reachable.len() == gateways.len(),
        exists|i: int| 0 <= i < gateways.len() && #[trigger] reachable[i],
        first_invalid_cidr(cidrs) is None,
    ensures
        campus_verdict(gateways, cidrs, local, reachable) matches Ok(CampusView::OnCampus(_)),
{
    lemma_reachable_responds(gateways, reachable);
}

} // verus!
