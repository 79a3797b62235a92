//! Errors.
use vstd::prelude::*;
use vstd::string::StringExecFns;

verus! {

/// What can go wrong.
#[derive(Debug)]
pub enum Error {
    NoInvariantTsc,
    EalInit(i32),
    MempoolCreate(&'static str),
    /// Port and error number; likewise the four that follow.
    PortInfo(u16, i32),
    PortConfigure(u16, i32),
    RxQueueSetup(u16, i32),
    TxQueueSetup(u16, i32),
    PortStart(u16, i32),
    InvalidLcore(u16),
    /// The neighbour table has no entry for the address.
    GatewayMacNotFound(u32),
    ProcArpRead(String),
    /// The route table has no default route, on the named interface if one is
    /// named.
    GatewayIpNotFound(Option<String>),
    ProcRouteRead(String),
    MacAddrLookup(u16, i32),
    TooManyConns,
    InvalidConnHandle(u64),
    PeerUnreachable(u32),
    SendBufferFull,
    /// Low-latency queues are not active on the port.
    LlqActivationFailed(u16),
    LogCaptureInit(String),
    InvalidHistogramEdges,
    /// The address is neither our primary nor a secondary one.
    InvalidLocalAddr(u32),
    InvalidArgument,
}

/// The digit with a value below 16.
pub open spec fn digit_char(d: int) -> Seq<char> {
    if d == 0 {
        "0"@
    } else if d == 1 {
        "1"@
    } else if d == 2 {
        "2"@
    } else if d == 3 {
        "3"@
    } else if d == 4 {
        "4"@
    } else if d == 5 {
        "5"@
    } else if d == 6 {
        "6"@
    } else if d == 7 {
        "7"@
    } else if d == 8 {
        "8"@
    } else if d == 9 {
        "9"@
    } else if d == 10 {
        "a"@
    } else if d == 11 {
        "b"@
    } else if d == 12 {
        "c"@
    } else if d == 13 {
        "d"@
    } else if d == 14 {
        "e"@
    } else {
        "f"@
    }
}

/// A number written out in a base, without leading zeros.
pub open spec fn written(n: nat, radix: nat) -> Seq<char>
    decreases n,
{
    if radix < 2 || n < radix {
        digit_char(n as int)
    } else {
        proof {
            assert(n / radix < n) by (nonlinear_arith)
                requires
                    n >= radix,
                    radix >= 2,
            ;
        }
        written(n / radix, radix) + digit_char((n % radix) as int)
    }
}

/// A number written out in base 10, with a sign if it is negative.
pub open spec fn written_signed(n: int) -> Seq<char> {
    if n < 0 {
        "-"@ + written((-n) as nat, 10)
    } else {
        written(n as nat, 10)
    }
}

fn digit_str(d: u64) -> (r: &'static str)
    requires
        d < 16,
    ensures
        r@ == digit_char(d as int),
{
    if d == 0 {
        "0"
    } else if d == 1 {
        "1"
    } else if d == 2 {
        "2"
    } else if d == 3 {
        "3"
    } else if d == 4 {
        "4"
    } else if d == 5 {
        "5"
    } else if d == 6 {
        "6"
    } else if d == 7 {
        "7"
    } else if d == 8 {
        "8"
    } else if d == 9 {
        "9"
    } else if d == 10 {
        "a"
    } else if d == 11 {
        "b"
    } else if d == 12 {
        "c"
    } else if d == 13 {
        "d"
    } else if d == 14 {
        "e"
    } else {
        "f"
    }
}

fn append_number(out: &mut String, n: u64, radix: u64)
    requires
        radix == 10 || radix == 16,
    ensures
        final(out)@ == old(out)@ + written(n as nat, radix as nat),
    decreases n,
{
    if n < radix {
        out.append(digit_str(n));
    } else {
        append_number(out, n / radix, radix);
        let ghost mid = out@;
        out.append(digit_str(n % radix));
        proof {
            let h = written((n / radix) as nat, radix as nat);
            let d = digit_char((n % radix) as int);
            assert(old(out)@ + (h + d) =~= mid + d);
        }
    }
}

fn append_signed(out: &mut String, n: i32)
    ensures
        final(out)@ == old(out)@ + written_signed(n as int),
{
    if n < 0 {
        out.append("-");
        let ghost mid = out@;
        append_number(out, (-(n as i64)) as u64, 10);
        assert(out@ =~= old(out)@ + written_signed(n as int));
    } else {
        append_number(out, n as u64, 10);
    }
}

/// The text with quotes around it and its special characters escaped, as the
/// debug format of `str` writes it.
pub uninterp spec fn quoted_text(s: Seq<char>) -> Seq<char>;

/// The debug format of `str` (`format!("{:?}", ..)`): the text in quotes, with
/// special characters escaped. Which characters are escaped, and how, is left
/// to the name.
#[verifier::external_body]
fn quoted(s: &str) -> (r: String)
    ensures
        r@ == quoted_text(s@),
{
    format!("{:?}", s)
}

/// The wording about a missing default route, given the interface filter as
/// the debug format writes it.
pub open spec fn no_gateway_text(filter: Seq<char>) -> Seq<char> {
    "default gateway not found in /proc/net/route (iface filter: "@ + filter + ")"@
}

/// Words the error about a missing default route.
pub fn no_gateway_message(filter: &str) -> (r: String)
    ensures
        r@ == no_gateway_text(filter@),
{
    let mut s: String = String::from_str(
        "default gateway not found in /proc/net/route (iface filter: ",
    );
    s.append(filter);
    s.append(")");
    s
}

/// A wording with the port and the error number filled in.
pub open spec fn port_text(head: Seq<char>, port: u16, mid: Seq<char>, errno: i32) -> Seq<char> {
    head + written(port as nat, 10) + mid + written_signed(errno as int)
}

fn port_message(head: &str, port: u16, mid: &str, errno: i32) -> (r: String)
    ensures
        r@ == port_text(head@, port, mid@, errno),
{
    let mut s: String = String::from_str(head);
    append_number(&mut s, port as u64, 10);
    s.append(mid);
    append_signed(&mut s, errno);
    s
}

fn number_message(head: &str, n: u64, radix: u64) -> (r: String)
    requires
        radix == 10 || radix == 16,
    ensures
        r@ == head@ + written(n as nat, radix as nat),
{
    let mut s: String = String::from_str(head);
    append_number(&mut s, n, radix);
    s
}

fn text_message(head: &str, tail: &str) -> (r: String)
    ensures
        r@ == head@ + tail@,
{
    let mut s: String = String::from_str(head);
    s.append(tail);
    s
}

impl Error {
    /// The error in words.
    pub open spec fn text(&self) -> Seq<char> {
        match self {
            Error::NoInvariantTsc => "invariant TSC not supported on this CPU"@,
            Error::EalInit(e) => "DPDK EAL init failed: rte_errno="@ + written_signed(*e as int),
            Error::MempoolCreate(why) => "mempool creation failed: "@ + why@,
            Error::PortInfo(p, e) => port_text(
                "port "@,
                *p,
                " dev_info query failed: rte_errno="@,
                *e,
            ),
            Error::PortConfigure(p, e) => port_text(
                "port "@,
                *p,
                " configure failed: rte_errno="@,
                *e,
            ),
            Error::RxQueueSetup(p, e) => port_text(
                "port "@,
                *p,
                " rx queue setup failed: rte_errno="@,
                *e,
            ),
            Error::TxQueueSetup(p, e) => port_text(
                "port "@,
                *p,
                " tx queue setup failed: rte_errno="@,
                *e,
            ),
            Error::PortStart(p, e) => port_text("port "@, *p, " start failed: rte_errno="@, *e),
            Error::InvalidLcore(l) => "invalid lcore "@ + written(*l as nat, 10),
            Error::GatewayMacNotFound(ip) => "gateway MAC not found in /proc/net/arp for ip 0x"@
                + written(*ip as nat, 16),
            Error::ProcArpRead(why) => "failed to read /proc/net/arp: "@ + why@,
            Error::GatewayIpNotFound(f) => match f {
                None => no_gateway_text("None"@),
                Some(name) => no_gateway_text("Some("@ + quoted_text(name@) + ")"@),
            },
            Error::ProcRouteRead(why) => "failed to read /proc/net/route: "@ + why@,
            Error::MacAddrLookup(p, e) => port_text(
                "could not read NIC MAC for port "@,
                *p,
                ": rte_errno="@,
                *e,
            ),
            Error::TooManyConns => "too many open connections (max_connections reached)"@,
            Error::InvalidConnHandle(h) => "invalid connection handle: "@ + written(*h as nat, 10),
            Error::PeerUnreachable(ip) => "peer unreachable: ip=0x"@ + written(*ip as nat, 16),
            Error::SendBufferFull => "send buffer full for this connection"@,
            Error::LlqActivationFailed(p) => "LLQ activation failed on port "@ + written(
                *p as nat,
                10,
            ) + ": no activation marker found in PMD log"@,
            Error::LogCaptureInit(why) => "log capture init failed: "@ + why@,
            Error::InvalidHistogramEdges => "invalid histogram edges (not strictly monotonic)"@,
            Error::InvalidLocalAddr(ip) => "invalid local source IP for connect: 0x"@ + written(
                *ip as nat,
                16,
            ),
            Error::InvalidArgument => "invalid argument"@,
        }
    }

    /// Words the error.
    pub fn message(&self) -> (r: String)
        ensures
            r@ == self.text(),
    {
        match self {
            Error::NoInvariantTsc => String::from_str("invariant TSC not supported on this CPU"),
            Error::EalInit(e) => {
                let mut s: String = String::from_str("DPDK EAL init failed: rte_errno=");
                append_signed(&mut s, *e);
                s
            },
            Error::MempoolCreate(why) => text_message("mempool creation failed: ", why),
            Error::PortInfo(p, e) => port_message(
                "port ",
                *p,
                " dev_info query failed: rte_errno=",
                *e,
            ),
            Error::PortConfigure(p, e) => port_message(
                "port ",
                *p,
                " configure failed: rte_errno=",
                *e,
            ),
            Error::RxQueueSetup(p, e) => port_message(
                "port ",
                *p,
                " rx queue setup failed: rte_errno=",
                *e,
            ),
            Error::TxQueueSetup(p, e) => port_message(
                "port ",
                *p,
                " tx queue setup failed: rte_errno=",
                *e,
            ),
            Error::PortStart(p, e) => port_message("port ", *p, " start failed: rte_errno=", *e),
            Error::InvalidLcore(l) => number_message("invalid lcore ", *l as u64, 10),
            Error::GatewayMacNotFound(ip) => number_message(
                "gateway MAC not found in /proc/net/arp for ip 0x",
                *ip as u64,
                16,
            ),
            Error::ProcArpRead(why) => text_message(
                "failed to read /proc/net/arp: ",
                why.as_str(),
            ),
            Error::GatewayIpNotFound(f) => match f {
                None => no_gateway_message("None"),
                Some(name) => {
                    let mut s: String = String::from_str("Some(");
                    s.append(quoted(name.as_str()).as_str());
                    s.append(")");
                    no_gateway_message(s.as_str())
                },
            },
            Error::ProcRouteRead(why) => text_message(
                "failed to read /proc/net/route: ",
                why.as_str(),
            ),
            Error::MacAddrLookup(p, e) => port_message(
                "could not read NIC MAC for port ",
                *p,
                ": rte_errno=",
                *e,
            ),
            Error::TooManyConns => String::from_str(
                "too many open connections (max_connections reached)",
            ),
            Error::InvalidConnHandle(h) => number_message("invalid connection handle: ", *h, 10),
            Error::PeerUnreachable(ip) => number_message("peer unreachable: ip=0x", *ip as u64, 16),
            Error::SendBufferFull => String::from_str("send buffer full for this connection"),
            Error::LlqActivationFailed(p) => {
                let mut s: String = number_message("LLQ activation failed on port ", *p as u64, 10);
                s.append(": no activation marker found in PMD log");
                s
            },
            Error::LogCaptureInit(why) => text_message("log capture init failed: ", why.as_str()),
            Error::InvalidHistogramEdges => String::from_str(
                "invalid histogram edges (not strictly monotonic)",
            ),
            Error::InvalidLocalAddr(ip) => number_message(
                "invalid local source IP for connect: 0x",
                *ip as u64,
                16,
            ),
            Error::InvalidArgument => String::from_str("invalid argument"),
        }
    }
}

} // verus!
