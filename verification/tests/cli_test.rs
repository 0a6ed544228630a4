use pingrs::cli::{parse_args, CliArgs, PingSchedule, Statistics};

fn run(args: &[&str]) -> Result<CliArgs, String> {
    let args: Vec<String> = args.iter().map(|s| s.to_string()).collect();
    let numeric: Vec<bool> = args.iter().map(|s| s.parse::<f64>().is_ok()).collect();
    parse_args(&args, &numeric)
}

#[test]
fn parses_options() {
    let a = run(&["ping", "-c", "4", "-i", "0.5", "-W", "2", "-s", "100", "example.com"]).unwrap();
    assert_eq!(a.host, "example.com");
    assert_eq!(a.count, Some(4));
    assert_eq!(a.interval.as_deref(), Some("0.5"));
    assert_eq!(a.timeout.as_deref(), Some("2"));
    assert_eq!(a.packet_size, 100);
    assert!(!a.help);
}

#[test]
fn defaults_and_first_host() {
    let a = run(&["ping", "a.example", "b.example"]).unwrap();
    assert_eq!(a.host, "a.example");
    assert_eq!(a.count, None);
    assert_eq!(a.interval, None);
    assert_eq!(a.timeout, None);
    assert_eq!(a.packet_size, 56);
    let a = run(&["ping", "-c", "+7", "h"]).unwrap();
    assert_eq!(a.count, Some(7));
}

#[test]
fn help_needs_no_host() {
    let a = run(&["ping", "--help"]).unwrap();
    assert!(a.help);
    assert_eq!(a.host, "");
    assert!(run(&["ping", "-h", "-c", "3"]).unwrap().help);
}

#[test]
fn option_errors() {
    assert_eq!(run(&["ping"]).err().unwrap(), "Host argument is required");
    assert_eq!(run(&["ping", "h", "-c"]).err().unwrap(), "-c requires an argument");
    assert_eq!(run(&["ping", "-c", "x", "h"]).err().unwrap(), "Invalid count");
    assert_eq!(run(&["ping", "-c", "-1", "h"]).err().unwrap(), "Invalid count");
    assert_eq!(run(&["ping", "-i", "soon", "h"]).err().unwrap(), "Invalid interval");
    assert_eq!(run(&["ping", "-W"]).err().unwrap(), "-W requires an argument");
    assert_eq!(run(&["ping", "-W", "never", "h"]).err().unwrap(), "Invalid timeout");
    assert_eq!(run(&["ping", "-s", "1.5", "h"]).err().unwrap(), "Invalid packet size");
    assert_eq!(run(&["ping", "-x", "h"]).err().unwrap(), "Unknown option: -x");
    assert_eq!(run(&["ping", "-"]).err().unwrap(), "Unknown option: -");
    // The first problem met is reported.
    assert_eq!(run(&["ping", "-i", "bad", "-c", "bad"]).err().unwrap(), "Invalid interval");
}

#[test]
fn schedule_counts_requests() {
    let mut s = PingSchedule::new(Some(2));
    assert!(s.begin_next(true));
    assert_eq!(s.sent(), 1);
    assert!(s.waits_after());
    assert!(s.begin_next(true));
    assert_eq!(s.sent(), 2);
    assert!(!s.waits_after());
    assert!(!s.begin_next(true));
    assert_eq!(s.sent(), 2);
    let mut s = PingSchedule::new(None);
    assert!(!s.begin_next(false));
    assert_eq!(s.sent(), 0);
    assert!(s.begin_next(true));
    assert!(s.waits_after());
}

#[test]
fn statistics_track_extremes() {
    let mut st = Statistics::new();
    assert_eq!(st.min_rtt, u64::MAX);
    st.record_transmit();
    st.update_success(300);
    st.record_transmit();
    st.update_success(100);
    st.record_transmit();
    st.update_success(200);
    st.record_transmit();
    assert_eq!(st.transmitted, 4);
    assert_eq!(st.received, 3);
    assert_eq!(st.min_rtt, 100);
    assert_eq!(st.max_rtt, 300);
    assert_eq!(st.total_rtt, 600);
}

#[test]
fn statistics_counters_wrap() {
    let mut st = Statistics::new();
    st.transmitted = u64::MAX;
    st.record_transmit();
    assert_eq!(st.transmitted, 0);
    st.total_rtt = u64::MAX;
    st.update_success(2);
    assert_eq!(st.total_rtt, 1);
}
