//! Network service discovery: the address-range generator, the scanner
//! bookkeeping around reachability probes, and the monitor that diffs
//! consecutive scans.
//!
//! The reachability probe itself (a bounded-timeout TCP connect) is network
//! I/O and is performed by the embedding program; every function here takes
//! its outcome as a plain value and is verified for all outcomes.

use vstd::prelude::*;
use vstd::string::StrSliceExecFns;
use vstd::string::StringExecFns;

use crate::text::all_digits;
use crate::text::dec_chars;
use crate::text::dec_val;
use crate::text::fmt_u64;
use crate::text::parse_dec_bounded;
use crate::text::split_dots;
use crate::text::split_dots_exec;

verus! {

/// The fixed service port probed and used for transfers.
pub const DBI_FTP_PORT: u16 = 5000;

/// Timeout of a single reachability probe, in milliseconds.
pub const PROBE_TIMEOUT_MS: u64 = 1000;

/// How many probes the scanner runs concurrently at most.
pub const THREAD_POOL_SIZE: usize = 100;

/// Default monitor interval, in seconds.
pub const RETRY_INTERVAL: u16 = 10;

/// `p` is the text of one address octet: nonempty, all digits, value at
/// most 255.
pub open spec fn is_octet_text(p: Seq<char>) -> bool {
    p.len() > 0 && all_digits(p) && dec_val(p) <= 255
}

/// The octet values found among the dot-separated pieces of `s`; pieces
/// that are not octet text are dropped.
pub open spec fn octet_vals(parts: Seq<Seq<char>>) -> Seq<int>
    decreases parts.len(),
{
    if parts.len() == 0 {
        Seq::empty()
    } else {
        let rest = octet_vals(parts.drop_last());
        if is_octet_text(parts.last()) {
            rest.push(dec_val(parts.last()))
        } else {
            rest
        }
    }
}

/// `s` read as a dotted quad, in the lenient sense the range generator
/// uses: the pieces that parse as octets must number exactly four.
pub open spec fn quad(s: Seq<char>) -> Option<(int, int, int, int)> {
    let o = octet_vals(split_dots(s));
    if o.len() == 4 {
        Some((o[0], o[1], o[2], o[3]))
    } else {
        None
    }
}

/// `s` is a well-formed dotted quad: exactly four pieces, each octet text.
/// This is the strict sense in which a transfer target is validated.
pub open spec fn is_dotted_quad(s: Seq<char>) -> bool {
    let parts = split_dots(s);
    parts.len() == 4 && forall|i: int| 0 <= i < 4 ==> is_octet_text(#[trigger] parts[i])
}

/// Parses one address octet.
pub fn parse_octet(s: &str) -> (r: Option<u8>)
    ensures
        is_octet_text(s@) ==> (r matches Some(v) && v == dec_val(s@)),
        !is_octet_text(s@) ==> r is None,
{
    proof {
        if all_digits(s@) {
            crate::text::lemma_dec_val_nonneg(s@);
        }
    }
    match parse_dec_bounded(s, 255) {
        Some(v) => Some(v as u8),
        None => None,
    }
}

/// Parses `s` as a lenient dotted quad, as `quad` describes.
pub fn parse_quad(s: &str) -> (r: Option<(u8, u8, u8, u8)>)
    ensures
        match quad(s@) {
            Some(q) => r matches Some(v) && v.0 == q.0 && v.1 == q.1 && v.2 == q.2 && v.3 == q.3,
            None => r is None,
        },
{
    let parts = split_dots_exec(s);
    let mut vals: Vec<u8> = Vec::new();
    let mut i: usize = 0;
    proof {
        assert(parts.deep_view().take(0) =~= Seq::<Seq<char>>::empty());
        assert(vals@.map_values(|x: u8| x as int) =~= octet_vals(parts.deep_view().take(0)));
    }
    while i < parts.len()
        invariant
            0 <= i <= parts.len(),
            parts.deep_view().len() == parts.len(),
            parts.deep_view() == split_dots(s@),
            vals@.map_values(|x: u8| x as int) == octet_vals(parts.deep_view().take(i as int)),
        decreases parts.len() - i,
    {
        proof {
            assert(parts.deep_view().take(i + 1).drop_last() =~= parts.deep_view().take(i as int));
            assert(parts.deep_view().take(i + 1).last() == parts.deep_view()[i as int]);
            assert(parts.deep_view()[i as int] == parts@[i as int]@);
        }
        let ghost prev_vals = vals@.map_values(|x: u8| x as int);
        match parse_octet(parts[i].as_str()) {
            Some(v) => {
                vals.push(v);
                proof {
                    assert(vals@.map_values(|x: u8| x as int) =~= prev_vals.push(v as int));
                }
            },
            None => {},
        }
        i = i + 1;
    }
    proof {
        assert(parts.deep_view().take(parts.len() as int) =~= parts.deep_view());
    }
    if vals.len() == 4 {
        Some((vals[0], vals[1], vals[2], vals[3]))
    } else {
        None
    }
}

/// Whether `s` is a well-formed dotted quad, as `is_dotted_quad`
/// describes.
pub fn check_dotted_quad(s: &str) -> (r: bool)
    ensures
        r == is_dotted_quad(s@),
{
    let parts = split_dots_exec(s);
    if parts.len() != 4 {
        return false;
    }
    let mut i: usize = 0;
    while i < 4
        invariant
            0 <= i <= 4,
            parts.deep_view().len() == parts@.len(),
            parts@.len() == 4,
            parts.deep_view() == split_dots(s@),
            forall|j: int| 0 <= j < i ==> is_octet_text(#[trigger] parts.deep_view()[j]),
        decreases 4 - i,
    {
        proof {
            assert(parts.deep_view()[i as int] == parts@[i as int]@);
        }
        if parse_octet(parts[i].as_str()).is_none() {
            return false;
        }
        i = i + 1;
    }
    true
}

/// The canonical text of the address `a.b.c.d`.
pub open spec fn ip_chars(a: int, b: int, c: int, d: int) -> Seq<char> {
    dec_chars(a) + seq!['.'] + dec_chars(b) + seq!['.'] + dec_chars(c) + seq!['.'] + dec_chars(d)
}

/// The addresses the range generator yields for the pair `start`, `end`:
/// empty unless both parse as (lenient) dotted quads, else the addresses
/// sharing `start`'s first three octets whose last octet runs from
/// `start`'s to `end`'s inclusively.  Ranges that would cross a /24
/// boundary are deliberately not supported.
pub open spec fn ip_range_spec(start: Seq<char>, end: Seq<char>) -> Seq<Seq<char>> {
    match (quad(start), quad(end)) {
        (Some(s), Some(e)) => if s.3 <= e.3 {
            Seq::new((e.3 - s.3 + 1) as nat, |i: int| ip_chars(s.0, s.1, s.2, s.3 + i))
        } else {
            Seq::empty()
        },
        _ => Seq::empty(),
    }
}

/// One service found reachable during a scan.
#[derive(Debug)]
pub struct FoundService {
    pub ip_address: String,
}

impl Clone for FoundService {
    fn clone(&self) -> (r: Self)
        ensures
            r.ip_address@ == self.ip_address@,
    {
        FoundService { ip_address: self.ip_address.clone() }
    }
}

/// The result set of one scan pass.
#[derive(Debug)]
pub struct FoundServices {
    pub services: Vec<FoundService>,
}

/// The addresses of a result set, in collection order.
pub open spec fn service_ips(services: Seq<FoundService>) -> Seq<Seq<char>> {
    services.map_values(|s: FoundService| s.ip_address@)
}

impl FoundServices {
    /// An empty result set.
    pub fn new() -> (r: Self)
        ensures
            r.services@.len() == 0,
    {
        FoundServices { services: Vec::new() }
    }

    /// Appends one found service.
    pub fn add(&mut self, service: FoundService)
        ensures
            final (self).services@ == old(self).services@.push(service),
    {
        self.services.push(service);
    }
}

/// The discovery engine: address-range generation and scan bookkeeping.
/// Probe outcomes are handed in by the caller, one `bool` per planned
/// address.
pub struct FTPDiscovery;

impl FTPDiscovery {
    pub fn new() -> Self {
        FTPDiscovery
    }

    /// The ordered candidate addresses between `start_ip` and `end_ip`,
    /// as `ip_range_spec` describes.  Malformed bounds yield an empty
    /// range, which the caller sees as a discovery that found nothing
    /// rather than as a crash.
    pub fn generate_ip_range(&self, start_ip: &str, end_ip: &str) -> (ips: Vec<String>)
        ensures
            ips.deep_view() == ip_range_spec(start_ip@, end_ip@),
    {
        let s = parse_quad(start_ip);
        let e = parse_quad(end_ip);
        let mut ips: Vec<String> = Vec::new();
        match (s, e) {
            (Some((a, b, c, s4)), Some((_, _, _, e4))) => {
                let mut base = fmt_u64(a as u64);
                base.append(".");
                base.append(fmt_u64(b as u64).as_str());
                base.append(".");
                base.append(fmt_u64(c as u64).as_str());
                base.append(".");
                proof {
                    reveal_strlit(".");
                    assert("."@ =~= seq!['.']);
                    assert(base@ =~= dec_chars(a as int) + seq!['.'] + dec_chars(b as int)
                        + seq!['.'] + dec_chars(c as int) + seq!['.']);
                }
                let mut cur: u16 = s4 as u16;
                while cur <= e4 as u16
                    invariant
                        quad(start_ip@) matches Some(q) && q.0 == a && q.1 == b && q.2 == c && q.3
                            == s4,
                        quad(end_ip@) matches Some(q) && q.3 == e4,
                        s4 <= cur,
                        cur <= e4 + 1 || cur == s4,
                        base@ == dec_chars(a as int) + seq!['.'] + dec_chars(b as int) + seq!['.']
                            + dec_chars(c as int) + seq!['.'],
                        ips.deep_view().len() == cur - s4,
                        forall|k: int|
                            0 <= k < cur - s4 ==> #[trigger] ips.deep_view()[k] == ip_chars(
                                a as int,
                                b as int,
                                c as int,
                                s4 + k,
                            ),
                    decreases e4 + 1 - cur,
                {
                    let mut ip = base.clone();
                    ip.append(fmt_u64(cur as u64).as_str());
                    proof {
                        assert(ip@ =~= ip_chars(a as int, b as int, c as int, cur as int));
                    }
                    let ghost prev = ips.deep_view();
                    ips.push(ip);
                    proof {
                        assert(ips.deep_view() =~= prev.push(ip_chars(
                            a as int,
                            b as int,
                            c as int,
                            cur as int,
                        )));
                    }
                    cur = cur + 1;
                }
                proof {
                    assert(ips.deep_view() =~= ip_range_spec(start_ip@, end_ip@));
                }
            },
            _ => {
                proof {
                    assert(ips.deep_view() =~= ip_range_spec(start_ip@, end_ip@));
                }
            },
        }
        ips
    }

    /// The /24 prefix of `ip`: its first three dot-separated pieces joined
    /// with dots, or `192.168.1` when fewer than three pieces exist.
    pub fn get_base_ip(&self, ip: &str) -> (r: String)
        ensures
            r@ == base_spec(ip@),
    {
        let parts = split_dots_exec(ip);
        if parts.len() >= 3 {
            let mut base = parts[0].clone();
            base.append(".");
            base.append(parts[1].as_str());
            base.append(".");
            base.append(parts[2].as_str());
            proof {
                reveal_strlit(".");
                assert("."@ =~= seq!['.']);
                assert(parts@[0]@ == parts.deep_view()[0]);
                assert(parts@[1]@ == parts.deep_view()[1]);
                assert(parts@[2]@ == parts.deep_view()[2]);
                assert(base@ =~= base_spec(ip@));
            }
            base
        } else {
            "192.168.1".to_owned()
        }
    }

    /// One probe's bookkeeping: the found service for `ip_address` when the
    /// connect attempt (performed by the caller) succeeded, nothing
    /// otherwise.
    pub fn scan(&self, ip_address: &str, reachable: bool) -> (r: Option<FoundService>)
        ensures
            reachable ==> (r matches Some(s) && s.ip_address@ == ip_address@),
            !reachable ==> r is None,
    {
        if reachable {
            Some(FoundService { ip_address: ip_address.to_owned() })
        } else {
            None
        }
    }

    /// The addresses one full scan should probe, given the machine's local
    /// address if it could be determined: the /24 around it, from `.1` to
    /// `.254`.
    pub fn scan_plan(&self, local_ip: &Option<String>) -> (ips: Vec<String>)
        ensures
            ips.deep_view() == scan_plan_spec(local_ip.deep_view()),
    {
        match local_ip {
            None => {
                let ips: Vec<String> = Vec::new();
                proof {
                    assert(ips.deep_view() =~= Seq::<Seq<char>>::empty());
                }
                ips
            },
            Some(ip) => {
                let base = self.get_base_ip(ip.as_str());
                let mut start = base.clone();
                start.append(".1");
                let mut end = base.clone();
                end.append(".254");
                self.generate_ip_range(start.as_str(), end.as_str())
            },
        }
    }

    /// Collects the result set of a scan over the range `start_ip` to
    /// `end_ip`, given one probe outcome per planned address.
    pub fn scan_range(&self, start_ip: &str, end_ip: &str, reachable: &Vec<bool>) -> (found:
        FoundServices)
        requires
            reachable@.len() == ip_range_spec(start_ip@, end_ip@).len(),
        ensures
            service_ips(found.services@) == mask_filter(
                ip_range_spec(start_ip@, end_ip@),
                reachable@,
            ),
    {
        let ips = self.generate_ip_range(start_ip, end_ip);
        let mut found = FoundServices::new();
        let mut i: usize = 0;
        proof {
            assert(service_ips(found.services@) =~= mask_filter(
                ips.deep_view().take(0),
                reachable@.take(0),
            ));
        }
        while i < ips.len()
            invariant
                0 <= i <= ips.len(),
                ips.deep_view() == ip_range_spec(start_ip@, end_ip@),
                ips.deep_view().len() == ips@.len(),
                reachable@.len() == ips@.len(),
                service_ips(found.services@) == mask_filter(
                    ips.deep_view().take(i as int),
                    reachable@.take(i as int),
                ),
            decreases ips.len() - i,
        {
            proof {
                assert(ips.deep_view().take(i + 1).drop_last() =~= ips.deep_view().take(i as int));
                assert(reachable@.take(i + 1).drop_last() =~= reachable@.take(i as int));
                assert(ips.deep_view().take(i + 1).last() == ips.deep_view()[i as int]);
                assert(reachable@.take(i + 1).last() == reachable@[i as int]);
            }
            if reachable[i] {
                let ghost prev = found.services@;
                found.add(FoundService { ip_address: ips[i].clone() });
                proof {
                    assert(service_ips(found.services@) =~= service_ips(prev).push(
                        ips.deep_view()[i as int],
                    ));
                }
            }
            i = i + 1;
        }
        proof {
            assert(ips.deep_view().take(ips@.len() as int) =~= ips.deep_view());
            assert(reachable@.take(ips@.len() as int) =~= reachable@);
        }
        found
    }

    /// Collects the result set of a full scan, given the machine's local
    /// address (if known) and one probe outcome per planned address.  An
    /// unknown local address yields an empty result set.
    pub fn scan_all(&self, local_ip: &Option<String>, reachable: &Vec<bool>) -> (found:
        FoundServices)
        requires
            reachable@.len() == scan_plan_spec(local_ip.deep_view()).len(),
        ensures
            service_ips(found.services@) == mask_filter(
                scan_plan_spec(local_ip.deep_view()),
                reachable@,
            ),
    {
        match local_ip {
            None => {
                let found = FoundServices::new();
                proof {
                    assert(service_ips(found.services@) =~= mask_filter(
                        scan_plan_spec(local_ip.deep_view()),
                        reachable@,
                    ));
                }
                found
            },
            Some(ip) => {
                let base = self.get_base_ip(ip.as_str());
                let mut start = base.clone();
                start.append(".1");
                let mut end = base.clone();
                end.append(".254");
                self.scan_range(start.as_str(), end.as_str(), reachable)
            },
        }
    }

    /// Partitions the hosts into probe batches: every batch holds
    /// `THREAD_POOL_SIZE` hosts except possibly the last, no batch is
    /// empty, and in order they cover exactly the input.  The scanner
    /// finishes one whole batch of concurrent probes before starting the
    /// next.
    pub fn chunk_hosts(&self, ips: &Vec<String>) -> (chunks: Vec<Vec<String>>)
        ensures
            chunks.deep_view().flatten() == ips.deep_view(),
            forall|k: int|
                0 <= k < chunks.deep_view().len() ==> 0 < #[trigger] chunks.deep_view()[k].len()
                    <= THREAD_POOL_SIZE,
            forall|k: int|
                0 <= k < chunks.deep_view().len() - 1 ==> #[trigger] chunks.deep_view()[k].len()
                    == THREAD_POOL_SIZE,
    {
        let mut chunks: Vec<Vec<String>> = Vec::new();
        let mut cur: Vec<String> = Vec::new();
        let mut i: usize = 0;
        proof {
            assert(chunks.deep_view().flatten() + cur.deep_view() =~= ips.deep_view().take(0));
        }
        while i < ips.len()
            invariant
                0 <= i <= ips.len(),
                ips.deep_view().len() == ips@.len(),
                cur.deep_view().len() == cur@.len(),
                chunks.deep_view().flatten() + cur.deep_view() == ips.deep_view().take(i as int),
                cur@.len() < THREAD_POOL_SIZE,
                forall|k: int|
                    0 <= k < chunks.deep_view().len() ==> #[trigger] chunks.deep_view()[k].len()
                        == THREAD_POOL_SIZE,
            decreases ips.len() - i,
        {
            let ghost prev_chunks = chunks.deep_view();
            let ghost prev_cur = cur.deep_view();
            cur.push(ips[i].clone());
            proof {
                assert(cur.deep_view() =~= prev_cur.push(ips.deep_view()[i as int]));
                assert(ips.deep_view().take(i + 1) =~= ips.deep_view().take(i as int).push(
                    ips.deep_view()[i as int],
                ));
                assert(prev_chunks.flatten() + cur.deep_view() =~= (prev_chunks.flatten()
                    + prev_cur).push(ips.deep_view()[i as int]));
                assert(prev_chunks.flatten() + cur.deep_view() =~= ips.deep_view().take(i + 1));
            }
            if cur.len() == THREAD_POOL_SIZE {
                let ghost full = cur.deep_view();
                chunks.push(cur);
                cur = Vec::new();
                proof {
                    assert(chunks.deep_view() =~= prev_chunks.push(full));
                    prev_chunks.lemma_flatten_push(full);
                    assert(chunks.deep_view().flatten() + cur.deep_view()
                        =~= ips.deep_view().take(i + 1));
                }
            }
            i = i + 1;
        }
        proof {
            assert(ips.deep_view().take(ips@.len() as int) =~= ips.deep_view());
        }
        if cur.len() > 0 {
            let ghost prev_chunks = chunks.deep_view();
            let ghost rest = cur.deep_view();
            chunks.push(cur);
            proof {
                assert(chunks.deep_view() =~= prev_chunks.push(rest));
                prev_chunks.lemma_flatten_push(rest);
            }
        } else {
            proof {
                assert(cur.deep_view() =~= Seq::<Seq<char>>::empty());
                assert(chunks.deep_view().flatten() + cur.deep_view()
                    =~= chunks.deep_view().flatten());
            }
        }
        chunks
    }
}

/// The /24 prefix used by `get_base_ip`.
pub open spec fn base_spec(s: Seq<char>) -> Seq<char> {
    let parts = split_dots(s);
    if parts.len() >= 3 {
        parts[0] + seq!['.'] + parts[1] + seq!['.'] + parts[2]
    } else {
        "192.168.1"@
    }
}

/// The full-scan plan for a machine whose local address is `lip`.
pub open spec fn scan_plan_spec(lip: Option<Seq<char>>) -> Seq<Seq<char>> {
    match lip {
        None => Seq::empty(),
        Some(ip) => ip_range_spec(base_spec(ip) + ".1"@, base_spec(ip) + ".254"@),
    }
}

/// The hosts of `a` that are not in `b`, in `a`'s order.  Interpreted as
/// sets, this is the set difference `a - b`.
pub open spec fn diff_spec(a: Seq<Seq<char>>, b: Seq<Seq<char>>) -> Seq<Seq<char>> {
    a.filter(|h: Seq<char>| !b.contains(h))
}

/// Whether `x` occurs among `hosts`.
pub fn contains_host(hosts: &Vec<String>, x: &String) -> (r: bool)
    ensures
        r == hosts.deep_view().contains(x@),
{
    let mut i: usize = 0;
    while i < hosts.len()
        invariant
            0 <= i <= hosts.len(),
            hosts.deep_view().len() == hosts@.len(),
            forall|j: int| 0 <= j < i ==> #[trigger] hosts.deep_view()[j] != x@,
        decreases hosts.len() - i,
    {
        proof {
            assert(hosts.deep_view()[i as int] == hosts@[i as int]@);
        }
        if hosts[i].eq(x) {
            return true;
        }
        i = i + 1;
    }
    false
}

/// The hosts of `from` that are missing from `against`, as `diff_spec`
/// describes.
pub fn diff_hosts(from: &Vec<String>, against: &Vec<String>) -> (r: Vec<String>)
    ensures
        r.deep_view() == diff_spec(from.deep_view(), against.deep_view()),
{
    let ghost pred = |h: Seq<char>| !against.deep_view().contains(h);
    let mut r: Vec<String> = Vec::new();
    let mut i: usize = 0;
    proof {
        assert(from.deep_view().take(0) =~= Seq::<Seq<char>>::empty());
        assert(r.deep_view() =~= from.deep_view().take(0).filter(pred));
    }
    while i < from.len()
        invariant
            0 <= i <= from.len(),
            from.deep_view().len() == from@.len(),
            pred == (|h: Seq<char>| !against.deep_view().contains(h)),
            r.deep_view() == from.deep_view().take(i as int).filter(pred),
        decreases from.len() - i,
    {
        proof {
            assert(from.deep_view()[i as int] == from@[i as int]@);
            assert(from.deep_view().take(i + 1) =~= from.deep_view().take(i as int).push(
                from.deep_view()[i as int],
            ));
            from.deep_view().take(i as int).lemma_filter_push(from.deep_view()[i as int], pred);
        }
        if !contains_host(against, &from[i]) {
            let ghost prev = r.deep_view();
            r.push(from[i].clone());
            proof {
                assert(r.deep_view() =~= prev.push(from.deep_view()[i as int]));
            }
        }
        i = i + 1;
    }
    proof {
        assert(from.deep_view().take(from@.len() as int) =~= from.deep_view());
    }
    r
}

/// The status event published to the event sink after every monitor tick.
#[derive(Debug)]
pub struct FTPStatusPayload {
    pub is_active: bool,
    pub active_count: usize,
    pub active_ips: Vec<String>,
}

/// What one monitor tick reports: the change sets against the previous
/// scan and the status payload to publish.  The payload is published
/// whether or not anything changed.
#[derive(Debug)]
pub struct MonitorTick {
    pub added: Vec<String>,
    pub removed: Vec<String>,
    pub payload: FTPStatusPayload,
}

/// Abstract state of the monitor.
pub ghost struct MonitorView {
    pub running: bool,
    pub previous: Seq<Seq<char>>,
}

/// The discovery monitor's decision state: whether the periodic loop
/// should keep running, and the previous scan's result set.  The loop
/// itself — scan, tick, sleep — is driven by the embedding program, which
/// re-reads `is_running` every iteration; stopping is cooperative and
/// takes effect at the next check.
pub struct FTPMonitor {
    running: bool,
    previous_services: Vec<String>,
}

impl View for FTPMonitor {
    type V = MonitorView;

    closed spec fn view(&self) -> MonitorView {
        MonitorView { running: self.running, previous: self.previous_services.deep_view() }
    }
}

impl FTPMonitor {
    /// A stopped monitor with no previous scan.
    pub fn new() -> (r: Self)
        ensures
            !r@.running,
            r@.previous == Seq::<Seq<char>>::empty(),
    {
        let r = FTPMonitor { running: false, previous_services: Vec::new() };
        proof {
            assert(r@.previous =~= Seq::<Seq<char>>::empty());
        }
        r
    }

    /// Requests the periodic loop to run.  Returns whether the caller
    /// should start one: a second `start` while running is a no-op, so
    /// only one loop ever runs at a time.
    pub fn start(&mut self) -> (started: bool)
        ensures
            final (self)@.running,
            final (self)@.previous == old(self)@.previous,
            started == !old(self)@.running,
    {
        let started = !self.running;
        self.running = true;
        started
    }

    /// Requests the periodic loop to stop at its next check.
    pub fn stop(&mut self)
        ensures
            !final (self)@.running,
            final (self)@.previous == old(self)@.previous,
    {
        self.running = false;
    }

    /// Whether the periodic loop is (or should be) running.
    pub fn is_running(&self) -> (r: bool)
        ensures
            r == self@.running,
    {
        self.running
    }

    /// Processes one scan result: computes `added` as current minus
    /// previous and `removed` as previous minus current (set difference),
    /// builds the status payload, and replaces the previous result set
    /// with the current one.
    pub fn tick(&mut self, current: Vec<String>) -> (outcome: MonitorTick)
        ensures
            outcome.added.deep_view() == diff_spec(current.deep_view(), old(self)@.previous),
            outcome.removed.deep_view() == diff_spec(old(self)@.previous, current.deep_view()),
            outcome.payload.is_active == (current.deep_view().len() > 0),
            outcome.payload.active_count == current.deep_view().len(),
            outcome.payload.active_ips.deep_view() == current.deep_view(),
            final (self)@.previous == current.deep_view(),
            final (self)@.running == old(self)@.running,
    {
        let added = diff_hosts(&current, &self.previous_services);
        let removed = diff_hosts(&self.previous_services, &current);
        let is_active = current.len() > 0;
        let active_count = current.len();
        let payload = FTPStatusPayload { is_active, active_count, active_ips: clone_hosts(&current) };
        self.previous_services = current;
        MonitorTick { added, removed, payload }
    }
}

/// A copy of a host list, element by element.
fn clone_hosts(hosts: &Vec<String>) -> (r: Vec<String>)
    ensures
        r.deep_view() == hosts.deep_view(),
{
    let mut r: Vec<String> = Vec::new();
    let mut i: usize = 0;
    proof {
        assert(r.deep_view() =~= hosts.deep_view().take(0));
    }
    while i < hosts.len()
        invariant
            0 <= i <= hosts.len(),
            hosts.deep_view().len() == hosts@.len(),
            r.deep_view() == hosts.deep_view().take(i as int),
        decreases hosts.len() - i,
    {
        let ghost prev = r.deep_view();
        r.push(hosts[i].clone());
        proof {
            assert(hosts.deep_view()[i as int] == hosts@[i as int]@);
            assert(r.deep_view() =~= prev.push(hosts.deep_view()[i as int]));
            assert(hosts.deep_view().take(i + 1) =~= hosts.deep_view().take(i as int).push(
                hosts.deep_view()[i as int],
            ));
        }
        i = i + 1;
    }
    proof {
        assert(hosts.deep_view().take(hosts@.len() as int) =~= hosts.deep_view());
    }
    r
}

/// The planned addresses whose probe came back positive, in plan order.
pub open spec fn mask_filter(plan: Seq<Seq<char>>, mask: Seq<bool>) -> Seq<Seq<char>>
    decreases plan.len(),
{
    if plan.len() == 0 || mask.len() == 0 {
        Seq::empty()
    } else {
        let rest = mask_filter(plan.drop_last(), mask.drop_last());
        if mask.last() {
            rest.push(plan.last())
        } else {
            rest
        }
    }
}

} // verus!
