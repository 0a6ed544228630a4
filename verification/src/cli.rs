//! The decisions of the `ping` command line tool: option parsing, the
//! schedule of requests and the reply statistics.

use vstd::prelude::*;
use vstd::string::*;

verus! {

// ----------------------------------------------------------------------------
// Options
// ----------------------------------------------------------------------------

/// `s` is one or more ASCII digits.
pub open spec fn is_decimal_digits(s: Seq<char>) -> bool {
    s.len() > 0 && forall|k: int| 0 <= k < s.len() ==> '0' <= #[trigger] s[k] <= '9'
}

/// The value of a string of ASCII digits.
pub open spec fn digits_value(s: Seq<char>) -> nat
    decreases s.len(),
{
    if s.len() == 0 {
        0
    } else {
        digits_value(s.drop_last()) * 10 + ((s.last() as int) - 48) as nat
    }
}

/// What `str::parse::<usize>` reads from `s`: an optional `+`, then one or
/// more ASCII digits whose value fits `usize`; anything else is refused.
pub open spec fn decimal_usize(s: Seq<char>) -> Option<usize> {
    let digits = if s.len() > 0 && s[0] == '+' {
        s.drop_first()
    } else {
        s
    };
    if is_decimal_digits(digits) && digits_value(digits) <= usize::MAX {
        Some(digits_value(digits) as usize)
    } else {
        None
    }
}

/// Reads an unsigned decimal number (`str::parse::<usize>`, as its
/// documentation describes it: an optional `+` and ASCII digits, no overflow).
#[verifier::external_body]
fn parse_usize(s: &str) -> (r: Option<usize>)
    ensures
        r == decimal_usize(s@),
{
    s.parse::<usize>().ok()
}

/// The options of the tool, as a model over strings.
pub struct ArgsModel {
    /// The host (the first argument that is not an option).
    pub host: Option<Seq<char>>,
    /// `-c`: number of requests to send.
    pub count: Option<usize>,
    /// `-i`: the text of the interval in seconds.
    pub interval: Option<Seq<char>>,
    /// `-W`: the text of the reply timeout in seconds.
    pub timeout: Option<Seq<char>>,
    /// `-s`: payload size in bytes.
    pub packet_size: usize,
    /// `-h` or `--help`.
    pub help: bool,
}

/// The options before any argument is read.
pub open spec fn initial_args() -> ArgsModel {
    ArgsModel {
        host: None,
        count: None,
        interval: None,
        timeout: None,
        packet_size: 56,
        help: false,
    }
}

/// `a` starts with a dash.
pub open spec fn is_option_like(a: Seq<char>) -> bool {
    a.len() > 0 && a[0] == '-'
}

/// Reads the arguments from index `i` on into `st`. An option that takes a
/// value takes the next argument; `numeric[k]` tells whether argument `k`
/// reads as a (floating point) number, which the interval and the timeout
/// must. The first argument that is not an option is the host; later ones are
/// ignored. The first problem met is the error.
pub open spec fn scan_args(
    args: Seq<Seq<char>>,
    numeric: Seq<bool>,
    i: int,
    st: ArgsModel,
) -> Result<ArgsModel, Seq<char>>
    decreases args.len() - i,
{
    if i < 0 || i >= args.len() {
        Ok(st)
    } else {
        let a = args[i];
        if a == "-c"@ {
            if i + 1 >= args.len() {
                Err("-c requires an argument"@)
            } else {
                match decimal_usize(args[i + 1]) {
                    Some(n) => scan_args(args, numeric, i + 2, ArgsModel { count: Some(n), ..st }),
                    None => Err("Invalid count"@),
                }
            }
        } else if a == "-i"@ {
            if i + 1 >= args.len() {
                Err("-i requires an argument"@)
            } else if numeric[i + 1] {
                scan_args(args, numeric, i + 2, ArgsModel { interval: Some(args[i + 1]), ..st })
            } else {
                Err("Invalid interval"@)
            }
        } else if a == "-W"@ {
            if i + 1 >= args.len() {
                Err("-W requires an argument"@)
            } else if numeric[i + 1] {
                scan_args(args, numeric, i + 2, ArgsModel { timeout: Some(args[i + 1]), ..st })
            } else {
                Err("Invalid timeout"@)
            }
        } else if a == "-s"@ {
            if i + 1 >= args.len() {
                Err("-s requires an argument"@)
            } else {
                match decimal_usize(args[i + 1]) {
                    Some(n) => scan_args(args, numeric, i + 2, ArgsModel { packet_size: n, ..st }),
                    None => Err("Invalid packet size"@),
                }
            }
        } else if a == "-h"@ || a == "--help"@ {
            scan_args(args, numeric, i + 1, ArgsModel { help: true, ..st })
        } else if !is_option_like(a) {
            if st.host is None {
                scan_args(args, numeric, i + 1, ArgsModel { host: Some(a), ..st })
            } else {
                scan_args(args, numeric, i + 1, st)
            }
        } else {
            Err("Unknown option: "@ + a)
        }
    }
}

/// The options that a command line gives, or the error message. `args[0]` is
/// the program name. With `-h` the host is empty and need not be given.
pub open spec fn spec_parse_args(args: Seq<Seq<char>>, numeric: Seq<bool>) -> Result<
    ArgsModel,
    Seq<char>,
> {
    match scan_args(args, numeric, 1, initial_args()) {
        Err(e) => Err(e),
        Ok(st) => if st.help {
            Ok(ArgsModel { host: Some(Seq::empty()), ..st })
        } else if st.host is None {
            Err("Host argument is required"@)
        } else {
            Ok(st)
        },
    }
}

/// Two scans that start from states differing only in the host agree on
/// everything but the host: the options read after a host (`-c` among them)
/// take effect whether or not a host was seen before them.
pub proof fn lemma_scan_independent_of_host(
    args: Seq<Seq<char>>,
    numeric: Seq<bool>,
    i: int,
    st1: ArgsModel,
    st2: ArgsModel,
)
    requires
        st1.count == st2.count,
        st1.interval == st2.interval,
        st1.timeout == st2.timeout,
        st1.packet_size == st2.packet_size,
        st1.help == st2.help,
    ensures
        (scan_args(args, numeric, i, st1) is Ok) == (scan_args(args, numeric, i, st2) is Ok),
        scan_args(args, numeric, i, st1) is Err ==> scan_args(args, numeric, i, st1)
            == scan_args(args, numeric, i, st2),
        scan_args(args, numeric, i, st1) matches Ok(a) ==> (scan_args(args, numeric, i, st2) matches Ok(b)
            && a.count == b.count && a.interval == b.interval && a.timeout == b.timeout
            && a.packet_size == b.packet_size && a.help == b.help),
    decreases args.len() - i,
{
    if i < 0 || i >= args.len() {
    } else {
        let a = args[i];
        if a == "-c"@ {
            if i + 1 < args.len() {
                if let Some(n) = decimal_usize(args[i + 1]) {
                    lemma_scan_independent_of_host(
                        args,
                        numeric,
                        i + 2,
                        ArgsModel { count: Some(n), ..st1 },
                        ArgsModel { count: Some(n), ..st2 },
                    );
                }
            }
        } else if a == "-i"@ {
            if i + 1 < args.len() && numeric[i + 1] {
                lemma_scan_independent_of_host(
                    args,
                    numeric,
                    i + 2,
                    ArgsModel { interval: Some(args[i + 1]), ..st1 },
                    ArgsModel { interval: Some(args[i + 1]), ..st2 },
                );
            }
        } else if a == "-W"@ {
            if i + 1 < args.len() && numeric[i + 1] {
                lemma_scan_independent_of_host(
                    args,
                    numeric,
                    i + 2,
                    ArgsModel { timeout: Some(args[i + 1]), ..st1 },
                    ArgsModel { timeout: Some(args[i + 1]), ..st2 },
                );
            }
        } else if a == "-s"@ {
            if i + 1 < args.len() {
                if let Some(n) = decimal_usize(args[i + 1]) {
                    lemma_scan_independent_of_host(
                        args,
                        numeric,
                        i + 2,
                        ArgsModel { packet_size: n, ..st1 },
                        ArgsModel { packet_size: n, ..st2 },
                    );
                }
            }
        } else if a == "-h"@ || a == "--help"@ {
            lemma_scan_independent_of_host(
                args,
                numeric,
                i + 1,
                ArgsModel { help: true, ..st1 },
                ArgsModel { help: true, ..st2 },
            );
        } else if !is_option_like(a) {
            let n1 = if st1.host is None { ArgsModel { host: Some(a), ..st1 } } else { st1 };
            let n2 = if st2.host is None { ArgsModel { host: Some(a), ..st2 } } else { st2 };
            lemma_scan_independent_of_host(args, numeric, i + 1, n1, n2);
        }
    }
}

/// `-c N` sets the count to the value of `N` whether it stands before or
/// after the host: `p H -c N` and `p -c N H` both ping `H`, `N` times, with
/// the other options at their defaults.
pub proof fn lemma_count_before_or_after_host(
    p: Seq<char>,
    h: Seq<char>,
    n_text: Seq<char>,
    numeric: Seq<bool>,
    n: usize,
)
    requires
        !is_option_like(h),
        decimal_usize(n_text) == Some(n),
    ensures
        spec_parse_args(seq![p, h, "-c"@, n_text], numeric) == Ok::<ArgsModel, Seq<char>>(
            ArgsModel { host: Some(h), count: Some(n), ..initial_args() },
        ),
        spec_parse_args(seq![p, "-c"@, n_text, h], numeric) == Ok::<ArgsModel, Seq<char>>(
            ArgsModel { host: Some(h), count: Some(n), ..initial_args() },
        ),
{
    reveal_strlit("-c");
    reveal_strlit("-i");
    reveal_strlit("-W");
    reveal_strlit("-s");
    reveal_strlit("-h");
    reveal_strlit("--help");
    assert(h != "-c"@ && h != "-i"@ && h != "-W"@ && h != "-s"@ && h != "-h"@ && h != "--help"@);
    let a1 = seq![p, h, "-c"@, n_text];
    let a2 = seq![p, "-c"@, n_text, h];
    assert(a1[1] == h && a1[2] == "-c"@ && a1[3] == n_text);
    assert(a2[1] == "-c"@ && a2[2] == n_text && a2[3] == h);
    let with_host = ArgsModel { host: Some(h), ..initial_args() };
    assert(scan_args(a1, numeric, 4, ArgsModel { count: Some(n), ..with_host }) == Ok::<
        ArgsModel,
        Seq<char>,
    >(ArgsModel { count: Some(n), ..with_host }));
    assert(scan_args(a1, numeric, 2, with_host) == Ok::<ArgsModel, Seq<char>>(
        ArgsModel { count: Some(n), ..with_host },
    ));
    let with_count = ArgsModel { count: Some(n), ..initial_args() };
    assert(scan_args(a2, numeric, 4, ArgsModel { host: Some(h), ..with_count }) == Ok::<
        ArgsModel,
        Seq<char>,
    >(ArgsModel { host: Some(h), ..with_count }));
    assert(scan_args(a2, numeric, 3, with_count) == Ok::<ArgsModel, Seq<char>>(
        ArgsModel { host: Some(h), ..with_count },
    ));
}

/// The text of each argument.
pub open spec fn texts(args: Seq<String>) -> Seq<Seq<char>> {
    args.map_values(|s: String| s@)
}

/// The text of an optional string.
pub open spec fn opt_text(o: Option<String>) -> Option<Seq<char>> {
    match o {
        Some(s) => Some(s@),
        None => None,
    }
}

/// The options of the tool.
pub struct CliArgs {
    /// The host to ping (empty with `-h`).
    pub host: String,
    /// `-c`: number of requests to send (`None`: until interrupted).
    pub count: Option<usize>,
    /// `-i`: the interval in seconds, as given (`None`: 1 second).
    pub interval: Option<String>,
    /// `-W`: the reply timeout in seconds, as given (`None`: 5 seconds).
    pub timeout: Option<String>,
    /// `-s`: payload size in bytes.
    pub packet_size: usize,
    /// `-h` or `--help` was given.
    pub help: bool,
}

impl CliArgs {
    /// The options as a model over strings.
    pub open spec fn model(&self) -> ArgsModel {
        ArgsModel {
            host: Some(self.host@),
            count: self.count,
            interval: opt_text(self.interval),
            timeout: opt_text(self.timeout),
            packet_size: self.packet_size,
            help: self.help,
        }
    }
}

fn is_word(arg: &String, word: &str) -> (r: bool)
    ensures
        r == (arg@ == word@),
{
    let w = String::from_str(word);
    arg.eq(&w)
}

fn starts_with_dash(arg: &String) -> (r: bool)
    ensures
        r == is_option_like(arg@),
{
    let s = arg.as_str();
    s.unicode_len() > 0 && s.get_char(0) == '-'
}

fn error_text(msg: &str) -> (r: String)
    ensures
        r@ == msg@,
{
    String::from_str(msg)
}

fn clone_opt(o: &Option<String>) -> (r: Option<String>)
    ensures
        opt_text(r) == opt_text(*o),
{
    match o {
        Some(s) => Some(s.clone()),
        None => None,
    }
}

/// Parses the command line `args` (`args[0]` being the program name).
/// `numeric[k]` tells whether `args[k]` reads as a floating point number.
pub fn parse_args(args: &Vec<String>, numeric: &Vec<bool>) -> (r: Result<CliArgs, String>)
    requires
        numeric@.len() == args@.len(),
    ensures
        match spec_parse_args(texts(args@), numeric@) {
            Ok(m) => r matches Ok(a) && a.model() == m,
            Err(e) => r matches Err(msg) && msg@ == e,
        },
{
    let ghost av = texts(args@);
    let mut host: Option<String> = None;
    let mut count: Option<usize> = None;
    let mut interval: Option<String> = None;
    let mut timeout: Option<String> = None;
    let mut packet_size: usize = 56;
    let mut help = false;
    let mut i: usize = 1;
    while i < args.len()
        invariant
            i >= 1,
            numeric@.len() == args@.len(),
            av == texts(args@),
            scan_args(av, numeric@, 1, initial_args()) == scan_args(
                av,
                numeric@,
                i as int,
                ArgsModel {
                    host: opt_text(host),
                    count,
                    interval: opt_text(interval),
                    timeout: opt_text(timeout),
                    packet_size,
                    help,
                },
            ),
        decreases args@.len() - i,
    {
        let a = &args[i];
        assert(av[i as int] == a@);
        if is_word(a, "-c") {
            if i + 1 >= args.len() {
                return Err(error_text("-c requires an argument"));
            }
            match parse_usize(args[i + 1].as_str()) {
                Some(n) => {
                    count = Some(n);
                },
                None => {
                    return Err(error_text("Invalid count"));
                },
            }
            i = i + 2;
        } else if is_word(a, "-i") {
            if i + 1 >= args.len() {
                return Err(error_text("-i requires an argument"));
            }
            if !numeric[i + 1] {
                return Err(error_text("Invalid interval"));
            }
            interval = Some(args[i + 1].clone());
            i = i + 2;
        } else if is_word(a, "-W") {
            if i + 1 >= args.len() {
                return Err(error_text("-W requires an argument"));
            }
            if !numeric[i + 1] {
                return Err(error_text("Invalid timeout"));
            }
            timeout = Some(args[i + 1].clone());
            i = i + 2;
        } else if is_word(a, "-s") {
            if i + 1 >= args.len() {
                return Err(error_text("-s requires an argument"));
            }
            match parse_usize(args[i + 1].as_str()) {
                Some(n) => {
                    packet_size = n;
                },
                None => {
                    return Err(error_text("Invalid packet size"));
                },
            }
            i = i + 2;
        } else if is_word(a, "-h") || is_word(a, "--help") {
            help = true;
            i = i + 1;
        } else if !starts_with_dash(a) {
            if host.is_none() {
                host = Some(a.clone());
            }
            i = i + 1;
        } else {
            return Err(error_text("Unknown option: ").concat(a.as_str()));
        }
    }
    if help {
        return Ok(
            CliArgs {
                host: String::new(),
                count,
                interval: clone_opt(&interval),
                timeout: clone_opt(&timeout),
                packet_size,
                help,
            },
        );
    }
    match host {
        None => Err(error_text("Host argument is required")),
        Some(h) => Ok(CliArgs { host: h, count, interval, timeout, packet_size, help }),
    }
}

// ----------------------------------------------------------------------------
// Schedule
// ----------------------------------------------------------------------------

/// Which requests the tool sends: `count` of them (or until interrupted when
/// `None`); `sent` so far.
pub struct PingSchedule {
    count: Option<usize>,
    sent: usize,
}

impl View for PingSchedule {
    /// The number of requests to send and the number sent.
    type V = (Option<usize>, usize);

    closed spec fn view(&self) -> (Option<usize>, usize) {
        (self.count, self.sent)
    }
}

/// Whether another request is due after `sent` of them, with the given limit.
pub open spec fn request_due(count: Option<usize>, sent: usize) -> bool {
    match count {
        Some(c) => sent < c,
        None => true,
    }
}

/// With a limit of `c`, a request is due exactly while fewer than `c` were
/// sent: starting from none, `c` requests are sent and then no more. Without a
/// limit, one is always due.
pub proof fn lemma_request_due(count: Option<usize>, sent: usize)
    ensures
        count matches Some(c) ==> (request_due(count, sent) <==> sent < c),
        count is None ==> request_due(count, sent),
{
}

impl PingSchedule {
    /// A schedule that has sent nothing.
    pub fn new(count: Option<usize>) -> (r: PingSchedule)
        ensures
            r@ == (count, 0usize),
    {
        PingSchedule { count, sent: 0 }
    }

    /// Decides whether to send the next request: not once the run was
    /// interrupted or the count reached. When it is sent, it is counted.
    pub fn begin_next(&mut self, running: bool) -> (r: bool)
        requires
            running && old(self)@.0 is None ==> old(self)@.1 < usize::MAX,
        ensures
            r == (running && request_due(old(self)@.0, old(self)@.1)),
            r == (running && (old(self)@.0 matches Some(c) ==> old(self)@.1 < c)),
            r ==> final(self)@ == (old(self)@.0, (old(self)@.1 + 1) as usize),
            !r ==> final(self)@ == old(self)@,
    {
        if !running {
            return false;
        }
        if let Some(c) = self.count {
            if self.sent >= c {
                return false;
            }
        }
        self.sent = self.sent + 1;
        true
    }

    /// The number of requests sent, which is also the sequence number of the last.
    pub fn sent(&self) -> (r: usize)
        ensures
            r == self@.1,
    {
        self.sent
    }

    /// Whether to wait before the next request: always, but after the last one.
    pub fn waits_after(&self) -> (r: bool)
        ensures
            r == request_due(self@.0, self@.1),
            r == (self@.0 matches Some(c) ==> self@.1 < c),
    {
        match self.count {
            Some(c) => self.sent < c,
            None => true,
        }
    }
}

// ----------------------------------------------------------------------------
// Statistics
// ----------------------------------------------------------------------------

/// `a + b` modulo 2^64, as the counters of the tool add.
pub open spec fn add_wrapping(a: u64, b: u64) -> u64 {
    ((a as nat + b as nat) % 0x1_0000_0000_0000_0000) as u64
}

/// Counters add modulo 2^64: the plain sum when it fits, else the sum less 2^64.
pub proof fn lemma_add_wrapping(a: u64, b: u64)
    ensures
        a + b <= u64::MAX ==> add_wrapping(a, b) == a + b,
        a + b > u64::MAX ==> add_wrapping(a, b) == a + b - 0x1_0000_0000_0000_0000,
{
}

/// Counters of a ping run; round trip times in microseconds.
pub struct Statistics {
    /// Requests sent.
    pub transmitted: u64,
    /// Replies received.
    pub received: u64,
    /// Least round trip time (`u64::MAX` before the first reply).
    pub min_rtt: u64,
    /// Greatest round trip time (0 before the first reply).
    pub max_rtt: u64,
    /// Sum of the round trip times.
    pub total_rtt: u64,
}

impl Statistics {
    /// The summary is coherent: before any reply the round trip counters are
    /// at their initial values, after some the sum of the times lies between
    /// their number times the least and their number times the greatest, so
    /// that their mean lies between the two.
    pub open spec fn coherent(&self) -> bool {
        if self.received == 0 {
            self.min_rtt == u64::MAX && self.max_rtt == 0 && self.total_rtt == 0
        } else {
            &&& self.min_rtt <= self.max_rtt
            &&& self.received * self.min_rtt <= self.total_rtt
            &&& self.total_rtt <= self.received * self.max_rtt
        }
    }

    /// Counters of a run that has sent nothing.
    pub fn new() -> (r: Statistics)
        ensures
            r.transmitted == 0,
            r.received == 0,
            r.min_rtt == u64::MAX,
            r.max_rtt == 0,
            r.total_rtt == 0,
            r.coherent(),
    {
        Statistics { transmitted: 0, received: 0, min_rtt: u64::MAX, max_rtt: 0, total_rtt: 0 }
    }

    /// Counts a request sent.
    pub fn record_transmit(&mut self)
        ensures
            final(self).transmitted == add_wrapping(old(self).transmitted, 1),
            final(self).received == old(self).received,
            final(self).min_rtt == old(self).min_rtt,
            final(self).max_rtt == old(self).max_rtt,
            final(self).total_rtt == old(self).total_rtt,
    {
        self.transmitted = self.transmitted.wrapping_add(1);
    }

    /// Counts a reply with the given round trip time.
    pub fn update_success(&mut self, rtt_micros: u64)
        ensures
            final(self).transmitted == old(self).transmitted,
            final(self).received == add_wrapping(old(self).received, 1),
            final(self).total_rtt == add_wrapping(old(self).total_rtt, rtt_micros),
            final(self).min_rtt == (if rtt_micros < old(self).min_rtt {
                rtt_micros
            } else {
                old(self).min_rtt
            }),
            final(self).max_rtt == (if rtt_micros > old(self).max_rtt {
                rtt_micros
            } else {
                old(self).max_rtt
            }),
            final(self).min_rtt <= rtt_micros <= final(self).max_rtt,
            old(self).coherent() && old(self).received < u64::MAX && old(self).total_rtt
                + rtt_micros <= u64::MAX ==> final(self).coherent(),
    {
        self.received = self.received.wrapping_add(1);
        self.total_rtt = self.total_rtt.wrapping_add(rtt_micros);
        if rtt_micros < self.min_rtt {
            self.min_rtt = rtt_micros;
        }
        if rtt_micros > self.max_rtt {
            self.max_rtt = rtt_micros;
        }
        proof {
            if old(self).coherent() && old(self).received < u64::MAX && old(self).total_rtt
                + rtt_micros <= u64::MAX {
                lemma_coherent_step(
                    old(self).received,
                    old(self).min_rtt,
                    old(self).max_rtt,
                    old(self).total_rtt,
                    rtt_micros,
                );
            }
        }
    }
}

proof fn lemma_coherent_step(n: u64, lo: u64, hi: u64, total: u64, x: u64)
    requires
        n > 0 ==> lo <= hi && n * lo <= total <= n * hi,
        n == 0 ==> lo == u64::MAX && hi == 0 && total == 0,
        n < u64::MAX,
        total + x <= u64::MAX,
    ensures
        ({
            let lo2: int = if x < lo { x as int } else { lo as int };
            let hi2: int = if x > hi { x as int } else { hi as int };
            &&& lo2 <= hi2
            &&& (n + 1) * lo2 <= total + x
            &&& total + x <= (n + 1) * hi2
        }),
{
    let lo2: int = if x < lo { x as int } else { lo as int };
    let hi2: int = if x > hi { x as int } else { hi as int };
    if n > 0 {
        assert((n + 1) * lo2 <= total + x && total + x <= (n + 1) * hi2) by (nonlinear_arith)
            requires
                n * lo <= total <= n * hi,
                lo2 <= lo,
                lo2 <= x,
                hi <= hi2,
                x <= hi2,
                n > 0,
                lo2 >= 0,
        ;
    }
}

} // verus!
