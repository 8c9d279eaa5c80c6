//! Network byte counters: the totals of one sample, the change between two
//! samples, and the interface table that holds the counters.

use crate::decimal::{parse_u64, read_u64};
use crate::text::{
    begins_with, chars_of, line_spans, lines, starts_with, trim, trim_span, word_spans, words,
};
use crate::time::Duration;
use vstd::prelude::*;
use vstd::string::*;

verus! {

/// Bytes received and sent since the interfaces came up.
#[derive(Clone, Copy, Debug, PartialEq, Eq, Structural)]
pub struct NetworkMetrics {
    pub total_ibytes: u64,
    pub total_obytes: u64,
}

/// Why the counters could not be had.
#[derive(Debug)]
pub enum NetworkError {
    /// The table could not be read.
    IO,
    /// The system's control interface failed.
    CtlError,
    /// The system answered with something that holds no counters.
    GetMetrics { message: String },
    /// The table holds what cannot be counted.
    ParseError,
}

impl NetworkError {
    /// The text of the error as it is shown to the user: the name of its
    /// kind, or what the system's answer is said to lack.
    pub fn to_string(&self) -> (s: String)
        ensures
            s@ == match *self {
                NetworkError::IO => "IO"@,
                NetworkError::CtlError => "CtlError"@,
                NetworkError::GetMetrics { message } => message@,
                NetworkError::ParseError => "ParseError"@,
            },
    {
        match self {
            NetworkError::IO => String::from_str("IO"),
            NetworkError::CtlError => String::from_str("CtlError"),
            NetworkError::GetMetrics { message } => message.clone(),
            NetworkError::ParseError => String::from_str("ParseError"),
        }
    }
}

/// The change of the counters over a span of time. A rate is the change
/// divided by the span.
#[derive(Clone, Copy, Debug, PartialEq, Eq, Structural)]
pub struct NetworkMetricRate {
    ibytes: i128,
    obytes: i128,
    dtime: Duration,
}

/// Whole bytes per second when `bytes` bytes pass in `nanos` nanoseconds:
/// the rate rounded down.
pub open spec fn bytes_per_sec(bytes: int, nanos: nat) -> int {
    (bytes * 1_000_000_000) / (nanos as int)
}

/// The rate in whole bytes per second, rounded down; none over an empty span.
fn whole_rate(bytes: i128, dtime: &Duration) -> (r: Option<i128>)
    requires
        -0x1_0000_0000_0000_0000 < bytes < 0x1_0000_0000_0000_0000,
    ensures
        r is Some <==> dtime.total_nanos() > 0,
        r matches Some(n) ==> n == bytes_per_sec(bytes as int, dtime.total_nanos()),
{
    let nanos: u128 = dtime.as_nanos();
    if nanos == 0 {
        return None;
    }
    let d: i128 = nanos as i128;
    if bytes >= 0 {
        let scaled: i128 = bytes * 1_000_000_000;
        Some(scaled / d)
    } else {
        let scaled: i128 = (-bytes) * 1_000_000_000;
        let up: i128 = (scaled + (d - 1)) / d;
        proof {
            lemma_floor_of_negative(scaled as int, d as int);
        }
        Some(-up)
    }
}

/// Rounding a negative quotient down is rounding its opposite up.
proof fn lemma_floor_of_negative(a: int, d: int)
    requires
        a >= 0,
        d > 0,
    ensures
        (-a) / d == -((a + (d - 1)) / d),
{
    let q = (a + (d - 1)) / d;
    let r = (a + (d - 1)) % d;
    assert(a + (d - 1) == q * d + r && 0 <= r < d) by (nonlinear_arith)
        requires
            d > 0,
            q == (a + (d - 1)) / d,
            r == (a + (d - 1)) % d,
    ;
    let s = d - 1 - r;
    assert(-a == (-q) * d + s) by (nonlinear_arith)
        requires
            a + (d - 1) == q * d + r,
            s == d - 1 - r,
    ;
    assert(0 <= s < d);
    vstd::arithmetic::div_mod::lemma_fundamental_div_mod_converse(-a, d, -q, s);
}

impl NetworkMetricRate {
    /// Each change is the difference of two 64-bit counters.
    #[verifier::type_invariant]
    spec fn inv(self) -> bool {
        &&& -0x1_0000_0000_0000_0000 < self.ibytes < 0x1_0000_0000_0000_0000
        &&& -0x1_0000_0000_0000_0000 < self.obytes < 0x1_0000_0000_0000_0000
    }

    /// Bytes received during the span; negative where the counter fell.
    pub closed spec fn spec_ibytes(self) -> int {
        self.ibytes as int
    }

    /// Bytes sent during the span; negative where the counter fell.
    pub closed spec fn spec_obytes(self) -> int {
        self.obytes as int
    }

    /// The span between the two samples.
    pub closed spec fn spec_dtime(self) -> Duration {
        self.dtime
    }

    /// Bytes received during the span; negative where the counter fell.
    pub fn ibytes(&self) -> (n: i128)
        ensures
            n == self.spec_ibytes(),
    {
        self.ibytes
    }

    /// Bytes sent during the span; negative where the counter fell.
    pub fn obytes(&self) -> (n: i128)
        ensures
            n == self.spec_obytes(),
    {
        self.obytes
    }

    /// The span between the two samples.
    pub fn dtime(&self) -> (d: Duration)
        ensures
            d == self.spec_dtime(),
    {
        self.dtime
    }

    /// Bytes received per second, rounded down; none over an empty span.
    pub fn ibytes_per_sec(&self) -> (r: Option<i128>)
        ensures
            r is Some <==> self.spec_dtime().total_nanos() > 0,
            r matches Some(n) ==> n == bytes_per_sec(
                self.spec_ibytes(),
                self.spec_dtime().total_nanos(),
            ),
    {
        proof {
            use_type_invariant(self);
        }
        whole_rate(self.ibytes, &self.dtime)
    }

    /// Bytes sent per second, rounded down; none over an empty span.
    pub fn obytes_per_sec(&self) -> (r: Option<i128>)
        ensures
            r is Some <==> self.spec_dtime().total_nanos() > 0,
            r matches Some(n) ==> n == bytes_per_sec(
                self.spec_obytes(),
                self.spec_dtime().total_nanos(),
            ),
    {
        proof {
            use_type_invariant(self);
        }
        whole_rate(self.obytes, &self.dtime)
    }
}

impl NetworkMetrics {
    /// The change from `old` to `self`, which was taken `dtime` later.
    pub fn diff(&self, old: &NetworkMetrics, dtime: &Duration) -> (rate: NetworkMetricRate)
        ensures
            rate.spec_ibytes() == self.total_ibytes - old.total_ibytes,
            rate.spec_obytes() == self.total_obytes - old.total_obytes,
            rate.spec_dtime() == *dtime,
    {
        NetworkMetricRate {
            ibytes: self.total_ibytes as i128 - old.total_ibytes as i128,
            obytes: self.total_obytes as i128 - old.total_obytes as i128,
            dtime: *dtime,
        }
    }
}

/// One interface's row of the kernel's table: its name as written there and
/// its sixteen counters, eight of what it received and eight of what it sent.
#[derive(Debug)]
pub struct LinuxProcNetDevLine {
    pub iface: String,
    pub rx_bytes: u64,
    pub rx_packets: u64,
    pub rx_errors: u64,
    pub rx_dropped_missed: u64,
    pub rx_fifo_errors: u64,
    pub rx_length_over_ctc_frame_errors: u64,
    pub rx_compressed: u64,
    pub multicast: u64,
    pub tx_bytes: u64,
    pub tx_packets: u64,
    pub tx_errors: u64,
    pub tx_dropped: u64,
    pub tx_fifo_errors: u64,
    pub collisions: u64,
    pub tx_carrier_aborted_window_heartbeat_errors: u64,
    pub tx_compressed: u64,
}

/// The numbers among `ws`, in order: each word that reads as a `u64`.
pub open spec fn numbers(ws: Seq<Seq<char>>) -> Seq<u64>
    decreases ws.len(),
{
    if ws.len() == 0 {
        Seq::empty()
    } else {
        match parse_u64(ws.last()) {
            Some(n) => numbers(ws.drop_last()).push(n),
            None => numbers(ws.drop_last()),
        }
    }
}

/// What a row holds: its first word and the first sixteen numbers among the
/// words after it. A row without a word or with fewer numbers holds nothing.
pub open spec fn row_fields(row: Seq<char>) -> Option<(Seq<char>, Seq<u64>)> {
    let ws = words(row);
    if ws.len() == 0 {
        None
    } else {
        let ns = numbers(ws.subrange(1, ws.len() as int));
        if ns.len() < 16 {
            None
        } else {
            Some((ws[0], ns.take(16)))
        }
    }
}

/// The name that the rows of Ethernet interfaces begin with.
pub open spec fn ethernet_prefix() -> Seq<char> {
    seq!['e', 't', 'h']
}

/// The bytes received and sent that a line of the table reports: those of its
/// row, where the line without the white space at its ends begins with the
/// Ethernet prefix and holds a row.
pub open spec fn line_traffic(line: Seq<char>) -> Option<(u64, u64)> {
    let row = trim(line);
    if starts_with(row, ethernet_prefix()) {
        match row_fields(row) {
            Some((_, ns)) => Some((ns[0], ns[8])),
            None => None,
        }
    } else {
        None
    }
}

/// The bytes received and sent, summed over `ls`.
pub open spec fn traffic(ls: Seq<Seq<char>>) -> (nat, nat)
    decreases ls.len(),
{
    if ls.len() == 0 {
        (0, 0)
    } else {
        let before = traffic(ls.drop_last());
        match line_traffic(ls.last()) {
            Some((rx, tx)) => ((before.0 + rx) as nat, (before.1 + tx) as nat),
            None => before,
        }
    }
}

/// The bytes received and sent that the table `s` reports, summed over every
/// line but the first, which is a heading.
pub open spec fn table_traffic(s: Seq<char>) -> (nat, nat) {
    let ls = lines(s);
    if ls.len() == 0 {
        (0, 0)
    } else {
        traffic(ls.subrange(1, ls.len() as int))
    }
}

impl LinuxProcNetDevLine {
    /// The sixteen counters in the order of the table's columns.
    pub open spec fn counters(&self) -> Seq<u64> {
        seq![
            self.rx_bytes,
            self.rx_packets,
            self.rx_errors,
            self.rx_dropped_missed,
            self.rx_fifo_errors,
            self.rx_length_over_ctc_frame_errors,
            self.rx_compressed,
            self.multicast,
            self.tx_bytes,
            self.tx_packets,
            self.tx_errors,
            self.tx_dropped,
            self.tx_fifo_errors,
            self.collisions,
            self.tx_carrier_aborted_window_heartbeat_errors,
            self.tx_compressed,
        ]
    }

    /// Reads one row. Its words are separated by white space; the first names
    /// the interface, and of the others those that are no number are passed
    /// over. A row that does not hold a name and sixteen numbers is refused.
    pub fn new(line: &str) -> (r: Result<LinuxProcNetDevLine, NetworkError>)
        ensures
            match row_fields(line@) {
                Some((name, ns)) => r matches Ok(row) && row.iface@ == name && row.counters()
                    == ns,
                None => r matches Err(NetworkError::ParseError),
            },
    {
        let v = chars_of(line);
        let spans = word_spans(&v);
        if spans.len() == 0 {
            return Err(NetworkError::ParseError);
        }
        let ghost ws = words(v@);
        let mut ns: Vec<u64> = Vec::new();
        let mut k: usize = 1;
        proof {
            assert(ws.subrange(1, 1) == Seq::<Seq<char>>::empty());
        }
        while k < spans.len()
            invariant
                1 <= k <= spans.len(),
                ws == words(v@),
                spans.len() == ws.len(),
                forall|j: int|
                    #![trigger spans[j]]
                    0 <= j < spans.len() ==> spans[j].0 < spans[j].1 <= v.len() && v@.subrange(
                        spans[j].0 as int,
                        spans[j].1 as int,
                    ) == ws[j],
                ns@ == numbers(ws.subrange(1, k as int)),
            decreases spans.len() - k,
        {
            let span = spans[k];
            proof {
                let upto = ws.subrange(1, k + 1);
                assert(upto.drop_last() == ws.subrange(1, k as int));
                assert(upto.last() == ws[k as int]);
            }
            match read_u64(&v, span.0, span.1) {
                Some(n) => {
                    ns.push(n);
                },
                None => {},
            }
            k += 1;
        }
        if ns.len() < 16 {
            return Err(NetworkError::ParseError);
        }
        let first = spans[0];
        let iface = String::from_str(line.substring_char(first.0, first.1));
        let row = LinuxProcNetDevLine {
            iface,
            rx_bytes: ns[0],
            rx_packets: ns[1],
            rx_errors: ns[2],
            rx_dropped_missed: ns[3],
            rx_fifo_errors: ns[4],
            rx_length_over_ctc_frame_errors: ns[5],
            rx_compressed: ns[6],
            multicast: ns[7],
            tx_bytes: ns[8],
            tx_packets: ns[9],
            tx_errors: ns[10],
            tx_dropped: ns[11],
            tx_fifo_errors: ns[12],
            collisions: ns[13],
            tx_carrier_aborted_window_heartbeat_errors: ns[14],
            tx_compressed: ns[15],
        };
        proof {
            assert(row.counters() =~= ns@.take(16));
        }
        Ok(row)
    }
}

/// Adds `n` to a total that is kept only while it fits in 64 bits.
fn add_within(total: Option<u64>, n: u64, Ghost(exact): Ghost<nat>) -> (r: Option<u64>)
    requires
        match total {
            Some(t) => t == exact,
            None => exact > u64::MAX,
        },
    ensures
        match r {
            Some(t) => t == exact + n,
            None => exact + n > u64::MAX,
        },
{
    match total {
        Some(t) => t.checked_add(n),
        None => None,
    }
}

/// Sums the bytes received and sent over the Ethernet interfaces of the
/// kernel's interface table. The first line is a heading; of the others, a
/// line counts where, without the white space at its ends, it begins with
/// `eth` and holds a row. A total beyond 64 bits is refused.
pub fn parse_linux_proc_net_dev(s: &str) -> (r: Result<NetworkMetrics, NetworkError>)
    ensures
        match r {
            Ok(m) => m.total_ibytes == table_traffic(s@).0 && m.total_obytes == table_traffic(
                s@,
            ).1,
            Err(e) => e is ParseError && (table_traffic(s@).0 > u64::MAX || table_traffic(s@).1
                > u64::MAX),
        },
{
    let v = chars_of(s);
    let spans = line_spans(&v);
    let eth = chars_of("eth");
    proof {
        reveal_strlit("eth");
        assert(eth@ =~= ethernet_prefix());
    }
    if spans.len() == 0 {
        return Ok(NetworkMetrics { total_ibytes: 0, total_obytes: 0 });
    }
    let ghost ls = lines(v@);
    let mut ibytes: Option<u64> = Some(0);
    let mut obytes: Option<u64> = Some(0);
    let mut k: usize = 1;
    proof {
        assert(ls.subrange(1, 1) == Seq::<Seq<char>>::empty());
    }
    while k < spans.len()
        invariant
            1 <= k <= spans.len(),
            v@ == s@,
            ls == lines(v@),
            spans.len() == ls.len(),
            eth@ == ethernet_prefix(),
            forall|j: int|
                #![trigger spans[j]]
                0 <= j < spans.len() ==> spans[j].0 <= spans[j].1 <= v.len() && v@.subrange(
                    spans[j].0 as int,
                    spans[j].1 as int,
                ) == ls[j],
            match ibytes {
                Some(t) => t == traffic(ls.subrange(1, k as int)).0,
                None => traffic(ls.subrange(1, k as int)).0 > u64::MAX,
            },
            match obytes {
                Some(t) => t == traffic(ls.subrange(1, k as int)).1,
                None => traffic(ls.subrange(1, k as int)).1 > u64::MAX,
            },
        decreases spans.len() - k,
    {
        let span = spans[k];
        let ghost before = traffic(ls.subrange(1, k as int));
        proof {
            let upto = ls.subrange(1, k + 1);
            assert(upto.drop_last() == ls.subrange(1, k as int));
            assert(upto.last() == ls[k as int]);
        }
        let row = trim_span(&v, span.0, span.1);
        if begins_with(&v, row.0, row.1, &eth) {
            match LinuxProcNetDevLine::new(s.substring_char(row.0, row.1)) {
                Ok(fields) => {
                    assert(fields.counters()[0] == fields.rx_bytes);
                    assert(fields.counters()[8] == fields.tx_bytes);
                    ibytes = add_within(ibytes, fields.rx_bytes, Ghost(before.0));
                    obytes = add_within(obytes, fields.tx_bytes, Ghost(before.1));
                },
                Err(_) => {},
            }
        }
        k += 1;
    }
    proof {
        assert(ls.subrange(1, k as int) == ls.subrange(1, ls.len() as int));
    }
    match (ibytes, obytes) {
        (Some(total_ibytes), Some(total_obytes)) => Ok(
            NetworkMetrics { total_ibytes, total_obytes },
        ),
        _ => Err(NetworkError::ParseError),
    }
}

} // verus!
