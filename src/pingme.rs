//! The reachability prober's plain logic: which ports a request asks for,
//! and how the outcome of probing them reads.
use vstd::prelude::*;
use crate::reply::strings_view;
use crate::store::pairs_view;
use crate::text::{decimal, parse_u64, parse_u64_spec, push_char, u64_to_decimal};

verus! {

/// The most ports that one request may ask to probe.
pub const MAX_PORTS: usize = 5;

/// The name/value pairs of a form-urlencoded body, percent-decoded, in
/// order.
pub uninterp spec fn form_pairs(b: Seq<u8>) -> Seq<(Seq<char>, Seq<char>)>;

/// Relies on `url::form_urlencoded::parse`: the name/value pairs of an
/// `application/x-www-form-urlencoded` body; an empty body has none.
#[verifier::external_body]
fn form_urlencoded_pairs(input: &[u8]) -> (r: Vec<(String, String)>)
    ensures
        pairs_view(r@) == form_pairs(input@),
        input@.len() == 0 ==> r@.len() == 0,
{
    url::form_urlencoded::parse(input).into_owned().collect()
}

/// What `u16::from_str` accepts.
pub open spec fn parse_u16_spec(s: Seq<char>) -> Option<u16> {
    match parse_u64_spec(s) {
        Some(n) => if n <= 65535 { Some(n as u16) } else { None },
        None => None,
    }
}

/// Reads a port number as `u16::from_str` does.
pub fn parse_u16(s: &str) -> (r: Option<u16>)
    ensures
        r == parse_u16_spec(s@),
{
    match parse_u64(s) {
        Some(n) => if n <= 65535 { Some(n as u16) } else { None },
        None => None,
    }
}

/// The parameters of a probe request. The timestamps are kept as sent; the
/// last one that reads as a number counts.
pub struct PingParams {
    pub port: Option<u16>,
    pub ports: Vec<u16>,
    pub timestamps: Vec<String>,
}

/// The parameters that a sequence of name/value pairs sets: each `ports`
/// that reads as a port adds one, each `port` sets the single port (to none
/// where it does not read), each `timestamp` is kept; other names are
/// ignored.
pub open spec fn params_of(pairs: Seq<(Seq<char>, Seq<char>)>) -> (Option<u16>, Seq<u16>, Seq<Seq<char>>)
    decreases pairs.len(),
{
    if pairs.len() == 0 {
        (None, seq![], seq![])
    } else {
        let prev = params_of(pairs.drop_last());
        let k = pairs.last().0;
        let v = pairs.last().1;
        if k == "timestamp"@ {
            (prev.0, prev.1, prev.2.push(v))
        } else if k == "ports"@ {
            (prev.0, match parse_u16_spec(v) { Some(p) => prev.1.push(p), None => prev.1 }, prev.2)
        } else if k == "port"@ {
            (parse_u16_spec(v), prev.1, prev.2)
        } else {
            prev
        }
    }
}

/// The parameters that a sequence of decoded name/value pairs sets.
pub fn params_from_pairs(pairs: &Vec<(String, String)>) -> (r: PingParams)
    ensures
        (r.port, r.ports@, strings_view(r.timestamps@)) == params_of(pairs_view(pairs@)),
{
    let mut r = PingParams { port: None, ports: Vec::new(), timestamps: Vec::new() };
    let mut i: usize = 0;
    assert(pairs_view(pairs@).take(0) =~= Seq::<(Seq<char>, Seq<char>)>::empty());
    assert(strings_view(r.timestamps@) =~= Seq::<Seq<char>>::empty());
    while i < pairs.len()
        invariant
            i <= pairs@.len(),
            (r.port, r.ports@, strings_view(r.timestamps@)) == params_of(pairs_view(pairs@).take(i as int)),
        decreases pairs@.len() - i,
    {
        let ghost taken = pairs_view(pairs@).take(i + 1);
        assert(taken.drop_last() =~= pairs_view(pairs@).take(i as int));
        assert(taken.last() == (pairs@[i as int].0@, pairs@[i as int].1@));
        let ghost ts_before = r.timestamps@;
        let k = pairs[i].0.as_str();
        let v = pairs[i].1.as_str();
        if crate::roster::str_eq(k, "timestamp") {
            r.timestamps.push(v.to_string());
            assert(strings_view(r.timestamps@) =~= strings_view(ts_before).push(v@));
        } else if crate::roster::str_eq(k, "ports") {
            match parse_u16(v) {
                Some(p) => r.ports.push(p),
                None => {},
            }
        } else if crate::roster::str_eq(k, "port") {
            r.port = parse_u16(v);
        }
        i = i + 1;
    }
    assert(pairs_view(pairs@).take(i as int) =~= pairs_view(pairs@));
    r
}

/// Reads the parameters of a form-urlencoded probe request.
pub fn parse_url_params(input: &[u8]) -> (r: PingParams)
    ensures
        (r.port, r.ports@, strings_view(r.timestamps@)) == params_of(form_pairs(input@)),
{
    let pairs = form_urlencoded_pairs(input);
    params_from_pairs(&pairs)
}

/// The ports asked for: the list, then the single port.
pub open spec fn ports_spec(p: PingParams) -> Seq<u16> {
    match p.port {
        Some(x) => p.ports@.push(x),
        None => p.ports@,
    }
}

impl PingParams {
    /// The ports asked for: the list, then the single port.
    pub fn ports(&self) -> (r: Vec<u16>)
        ensures
            r@ == ports_spec(*self),
    {
        let mut r: Vec<u16> = Vec::new();
        let mut i: usize = 0;
        while i < self.ports.len()
            invariant
                i <= self.ports@.len(),
                r@ == self.ports@.take(i as int),
            decreases self.ports@.len() - i,
        {
            r.push(self.ports[i]);
            assert(self.ports@.take(i + 1) =~= self.ports@.take(i as int).push(self.ports@[i as int]));
            i = i + 1;
        }
        assert(self.ports@.take(i as int) =~= self.ports@);
        match self.port {
            Some(p) => r.push(p),
            None => {},
        }
        r
    }

    /// The ports asked for; `None` where they are more than a request may
    /// ask for.
    pub fn checked_ports(&self) -> (r: Option<Vec<u16>>)
        ensures
            r is Some <==> ports_spec(*self).len() <= MAX_PORTS,
            r matches Some(v) ==> v@ == ports_spec(*self),
    {
        let ports = self.ports();
        if ports.len() > MAX_PORTS { None } else { Some(ports) }
    }
}

/// How a probed port answered.
#[derive(Clone, Copy, PartialEq, Eq, Structural)]
pub enum PortState {
    Open,
    Unreachable,
    Timeout,
}

pub open spec fn state_text(s: PortState) -> Seq<char> {
    match s {
        PortState::Open => "open"@,
        PortState::Unreachable => "unreachable"@,
        PortState::Timeout => "timeout"@,
    }
}

impl PortState {
    pub fn description(&self) -> (r: &'static str)
        ensures
            r@ == state_text(*self),
    {
        match self {
            PortState::Open => "open",
            PortState::Unreachable => "unreachable",
            PortState::Timeout => "timeout",
        }
    }
}

#[derive(Clone, Copy, PartialEq, Eq, Structural)]
pub struct PortStatus {
    pub port: u16,
    pub state: PortState,
}

/// `<port>: <state>`.
pub open spec fn status_line(s: PortStatus) -> Seq<char> {
    decimal(s.port as nat) + ": "@ + state_text(s.state)
}

/// One line per port, separated by newlines.
pub open spec fn report_text(s: Seq<PortStatus>) -> Seq<char>
    decreases s.len(),
{
    if s.len() == 0 {
        seq![]
    } else if s.len() == 1 {
        status_line(s[0])
    } else {
        report_text(s.drop_last()) + seq!['\n'] + status_line(s.last())
    }
}

/// Whether every probed port is open, and one line per port.
pub fn ping_report(statuses: &Vec<PortStatus>) -> (r: (bool, String))
    ensures
        r.0 == (forall|i: int| 0 <= i < statuses@.len() ==> (#[trigger] statuses@[i]).state == PortState::Open),
        r.1@ == report_text(statuses@),
{
    let mut all_open = true;
    let mut text = String::new();
    let mut i: usize = 0;
    while i < statuses.len()
        invariant
            i <= statuses@.len(),
            all_open == (forall|j: int| 0 <= j < i ==> (#[trigger] statuses@[j]).state == PortState::Open),
            text@ == report_text(statuses@.take(i as int)),
        decreases statuses@.len() - i,
    {
        let s = statuses[i];
        if s.state != PortState::Open {
            all_open = false;
        }
        if i > 0 {
            push_char(&mut text, '\n');
        }
        text.append(u64_to_decimal(s.port as u64).as_str());
        text.append(": ");
        text.append(s.state.description());
        assert(statuses@.take(i + 1).drop_last() =~= statuses@.take(i as int));
        proof {
            if i == 0 {
                assert(text@ =~= status_line(statuses@[0]));
            } else {
                assert(text@ =~= report_text(statuses@.take(i as int)) + seq!['\n'] + status_line(statuses@[i as int]));
            }
        }
        i = i + 1;
    }
    assert(statuses@.take(i as int) =~= statuses@);
    (all_open, text)
}

} // verus!
