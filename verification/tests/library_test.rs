use std::cell::RefCell;
use std::rc::Rc;

use opensmtpd_filter::number::IntErrorKind;
use opensmtpd_filter::protocol::{event_time_in_range, format_filter_dataline, format_filter_result, parse_address, parse_event};
use opensmtpd_filter::runner::{callback_for, config_call, write_filter_response, Callback, ConfigCall, EventParams, Registration};
use opensmtpd_filter::types::{AuthStatus, Direction, FilterKind, Phase, Status};
use opensmtpd_filter::{Address, Filter, FilterResponse, IpAddr, ParseError, Session, SmtpFilterRunner};

fn error_of<T: std::fmt::Debug>(r: Result<T, ParseError>) -> String {
    match r {
        Ok(v) => panic!("expected an error, got {v:?}"),
        Err(ParseError(m)) => m,
    }
}

#[test]
fn phase_names_read_back() {
    let phases = [
        Phase::Connect, Phase::Helo, Phase::Ehlo, Phase::StartTls, Phase::Auth, Phase::MailFrom,
        Phase::RcptTo, Phase::Data, Phase::DataLine, Phase::Reset, Phase::Quit, Phase::Noop,
        Phase::Help, Phase::Wiz, Phase::Commit, Phase::LinkConnect, Phase::LinkDisconnect,
        Phase::LinkGreeting, Phase::LinkIdentify, Phase::LinkTls, Phase::LinkAuth, Phase::TxBegin,
        Phase::TxMail, Phase::TxRcpt, Phase::TxEnvelope, Phase::TxData, Phase::TxCommit,
        Phase::TxRollback, Phase::ProtocolClient, Phase::ProtocolServer, Phase::FilterResponse,
        Phase::Timeout,
    ];
    for p in phases {
        assert_eq!(Phase::from_str(p.as_str()), Some(p));
    }
    assert_eq!(Phase::Reset.as_str(), "rset");
    assert_eq!(Phase::from_str("mail-from"), Some(Phase::MailFrom));
    assert_eq!(Phase::from_str("reset"), None);
    assert_eq!(Phase::from_str(""), None);
}

#[test]
fn status_names() {
    assert_eq!(Status::from_str("ok"), Some(Status::Okay));
    assert_eq!(Status::from_str("pass"), Some(Status::Okay));
    assert_eq!(Status::from_str("tempfail"), Some(Status::TempFail));
    assert_eq!(Status::from_str("error"), Some(Status::TempFail));
    assert_eq!(Status::from_str("permfail"), Some(Status::PermFail));
    assert_eq!(Status::from_str("fail"), Some(Status::PermFail));
    assert_eq!(Status::from_str("OK"), None);
    assert_eq!(AuthStatus::from_str("pass"), Some(AuthStatus::Pass));
    assert_eq!(AuthStatus::from_str("fail"), Some(AuthStatus::Fail));
    assert_eq!(AuthStatus::from_str("error"), Some(AuthStatus::Error));
    assert_eq!(AuthStatus::from_str("ok"), None);
}

#[test]
fn event_timestamps() {
    let (e, _) = parse_event("report|0.7|1234567890.100|smtp-in|timeout|1").unwrap();
    assert_eq!(e.timestamp.secs, 1234567890);
    assert_eq!(e.timestamp.nanos, 100_000_000);
    let (e, _) = parse_event("report|0.7|5.123456789|smtp-in|timeout|1").unwrap();
    assert_eq!(e.timestamp.secs, 5);
    assert_eq!(e.timestamp.nanos, 123_456_789);
    // A fraction longer than nine digits is a count of nanoseconds, carried into seconds.
    let (e, _) = parse_event("report|0.7|5.1234567890|smtp-in|timeout|1").unwrap();
    assert_eq!(e.timestamp.secs, 6);
    assert_eq!(e.timestamp.nanos, 234_567_890);
    assert!(event_time_in_range("report|0.7|5.1|smtp-in|timeout|1"));
    assert!(!event_time_in_range("report|0.7|18446744073709551615.1|smtp-in|timeout|1"));
    assert!(event_time_in_range("nonsense"));
}

#[test]
fn event_versions_and_params() {
    let (e, p) = parse_event("report|0.6.2|1.0|smtp-out|tx-mail|ff|1a|<a@b>|ok").unwrap();
    assert_eq!(e.version_major, 0);
    assert_eq!(e.version_minor, 6);
    assert_eq!(e.direction, Direction::Outgoing);
    assert_eq!(e.reqid, 0xff);
    assert_eq!(e.token, None);
    assert_eq!(p, "1a|<a@b>|ok");
    let (e, p) = parse_event("filter|0.7|1.0|smtp-in|helo|+A|b|host|with|bars").unwrap();
    assert_eq!(e.reqid, 0xa);
    assert_eq!(e.token, Some(0xb));
    assert_eq!(p, "host|with|bars");
    let (_, p) = parse_event("filter|0.7|1.0|smtp-in|data|1|2").unwrap();
    assert_eq!(p, "");
}

#[test]
fn event_errors() {
    assert_eq!(error_of(parse_event("filter")), "missing version");
    assert_eq!(error_of(parse_event("nope|0.7|1.0")), "unknown type: nope");
    assert_eq!(error_of(parse_event("report|0.7")), "missing timestamp");
    assert_eq!(error_of(parse_event("report|x.7|1.0|smtp-in")), "invalid major version: invalid digit found in string");
    assert_eq!(error_of(parse_event("report|0|1.0|smtp-in")), "missing minor version");
    assert_eq!(error_of(parse_event("report|0.|1.0|smtp-in")), "invalid minor version: cannot parse integer from empty string");
    assert_eq!(error_of(parse_event("report|0.7|1.0")), "missing direction");
    assert_eq!(error_of(parse_event("report|0.7|10|smtp-in|x")), "missing nanoseconds");
    assert_eq!(error_of(parse_event("report|0.7|99999999999999999999.0|smtp-in|x")), "invalid seconds: number too large to fit in target type");
    assert_eq!(error_of(parse_event("report|0.7|1.+|smtp-in|x")), "invalid nanoseconds: invalid digit found in string");
    assert_eq!(error_of(parse_event("report|0.7|1.0|smtp-in")), "missing phase");
    assert_eq!(error_of(parse_event("report|0.7|1.0|smtp-up|timeout|1")), "unknown direction: smtp-up");
    assert_eq!(error_of(parse_event("report|0.7|1.0|smtp-in|timeout")), "missing reqid");
    assert_eq!(error_of(parse_event("report|0.7|1.0|smtp-in|nap|1")), "unknown phase: nap");
    assert_eq!(error_of(parse_event("report|0.7|1.0|smtp-in|timeout|xyz")), "invalid reqid: invalid digit found in string");
    assert_eq!(error_of(parse_event("filter|0.7|1.0|smtp-in|helo|1")), "missing token");
    assert_eq!(error_of(parse_event("filter|0.7|1.0|smtp-in|helo|1|")), "invalid token: cannot parse integer from empty string");
    assert_eq!(error_of(parse_event("filter|0.7|1.0|smtp-in|helo|10000000000000000|1")), "invalid reqid: number too large to fit in target type");
}

#[test]
fn addresses() {
    let ip = |s: &str, port: bool| match parse_address(s, port).unwrap() {
        Address::Ip(sa) => (sa.ip().to_string(), sa.port()),
        Address::Unix(u) => panic!("unexpected unix address {u}"),
    };
    assert_eq!(ip("10.0.0.255:65535", true), ("10.0.0.255".to_string(), 65535));
    assert_eq!(ip("[2001:db8::1]:587", true), ("2001:db8::1".to_string(), 587));
    assert_eq!(ip("[2001:DB8:0:0:1:0:0:1]", false), ("2001:db8::1:0:0:1".to_string(), 0));
    assert_eq!(ip("[::ffff:192.0.2.1]", false), ("::ffff:192.0.2.1".to_string(), 0));
    assert_eq!(ip("[::192.0.2.1]", false), ("::c000:201".to_string(), 0));
    assert_eq!(ip("[1:2:3:4:5:6:7:8]", false), ("1:2:3:4:5:6:7:8".to_string(), 0));
    assert_eq!(ip("[1:0:2:0:0:3:0:0]", false), ("1:0:2::3:0:0".to_string(), 0));
    assert_eq!(ip("[::]", false), ("::".to_string(), 0));
    assert_eq!(ip("0.0.0.0:25", true), ("0.0.0.0".to_string(), 25));

    assert_eq!(error_of(parse_address("1.2.3.4", true)), "missing port in address: 1.2.3.4");
    assert_eq!(error_of(parse_address("1.2.3.4:x", true)), "invalid port: invalid digit found in string");
    assert_eq!(error_of(parse_address("1.2.3.4:65536", true)), "invalid port: number too large to fit in target type");
    assert_eq!(error_of(parse_address("01.2.3.4", false)), "invalid IPv4 address: invalid IPv4 address syntax");
    assert_eq!(error_of(parse_address("256.2.3.4", false)), "invalid IPv4 address: invalid IPv4 address syntax");
    assert_eq!(error_of(parse_address("1.2.3", false)), "invalid IPv4 address: invalid IPv4 address syntax");
    assert_eq!(error_of(parse_address("[::1", false)), "malformed IPv6 address: [::1");
    assert_eq!(error_of(parse_address("[::1:25", true)), "malformed IPv6 address: [::1:25");
    assert_eq!(error_of(parse_address("[1::2::3]", false)), "invalid IPv6 address: invalid IPv6 address syntax");
    assert_eq!(error_of(parse_address("[12345::1]", false)), "invalid IPv6 address: invalid IPv6 address syntax");
    assert_eq!(error_of(parse_address("[1.2.3.4::]", false)), "invalid IPv6 address: invalid IPv6 address syntax");
    match parse_address("unix:", true).unwrap() {
        Address::Unix(u) => assert_eq!(u, "unix:"),
        _ => panic!("expected unix address"),
    }
    match parse_address("[::1]:25", true).unwrap() {
        Address::Ip(sa) => assert_eq!(sa.ip(), IpAddr::V6(0, 0, 0, 0, 0, 0, 0, 1)),
        _ => panic!("expected IP address"),
    }
}

#[test]
fn displayed_addresses_read_back() {
    let cases = vec![
        (IpAddr::V4(192, 0, 2, 1), 25u16),
        (IpAddr::V4(0, 0, 0, 0), 0),
        (IpAddr::V4(255, 255, 255, 255), 65535),
        (IpAddr::V6(0x2001, 0xdb8, 0, 0, 0, 0, 0, 1), 587),
        (IpAddr::V6(0, 0, 0, 0, 0, 0, 0, 0), 1),
        (IpAddr::V6(0, 0, 0, 0, 0, 0, 0, 1), 2525),
        (IpAddr::V6(0, 0, 0, 0, 0, 0xffff, 0xc000, 0x0201), 465),
        (IpAddr::V6(1, 0, 2, 0, 0, 3, 0, 0), 10),
        (IpAddr::V6(1, 2, 3, 4, 5, 6, 7, 8), 99),
        (IpAddr::V6(0, 0, 0, 0, 0, 0, 0xc000, 0x0201), 7),
        (IpAddr::V6(0xfe80, 0, 0, 0, 0x1ff, 0xfe23, 0x4567, 0x890a), 8080),
    ];
    for (addr, port) in cases {
        let text = match addr {
            IpAddr::V4(..) => format!("{}:{}", addr.to_string(), port),
            IpAddr::V6(..) => format!("[{}]:{}", addr.to_string(), port),
        };
        match parse_address(&text, true).unwrap() {
            Address::Ip(sa) => {
                assert_eq!(sa.ip(), addr, "{text}");
                assert_eq!(sa.port(), port, "{text}");
            }
            Address::Unix(u) => panic!("unexpected unix address {u}"),
        }
    }
}

#[test]
fn responses() {
    let r = |resp: FilterResponse| write_filter_response(1, 0xabcdef0123456789, &resp);
    assert_eq!(r(FilterResponse::Proceed).unwrap(), "filter-result|0000000000000001|abcdef0123456789|proceed\n");
    assert_eq!(
        r(FilterResponse::Reject { code: 451, message: "later".into() }).unwrap(),
        "filter-result|0000000000000001|abcdef0123456789|reject|451 later\n"
    );
    assert_eq!(
        r(FilterResponse::RejectEnhanced { code: 550, class: 5, subject: 7, detail: 1, message: "no".into() }).unwrap(),
        "filter-result|0000000000000001|abcdef0123456789|reject|550 5.7.1 no\n"
    );
    assert_eq!(
        r(FilterResponse::DisconnectEnhanced { code: 421, class: 4, subject: 0, detail: 0, message: "bye".into() }).unwrap(),
        "filter-result|0000000000000001|abcdef0123456789|disconnect|421 4.0.0 bye\n"
    );
    assert_eq!(
        r(FilterResponse::Rewrite("x@y".into())).unwrap(),
        "filter-result|0000000000000001|abcdef0123456789|rewrite|x@y\n"
    );
    assert_eq!(error_of(r(FilterResponse::DataLine("x".into()))), "DataLine response should not be used here");
    assert_eq!(
        ParseError("oops".into()).describe(),
        "protocol parse error: oops"
    );
    assert_eq!(IntErrorKind::Empty, IntErrorKind::Empty);
}

#[test]
fn reply_ids_read_back() {
    for (reqid, token) in [(0u64, 0u64), (1, u64::MAX), (0x0123456789abcdef, 0xfedcba9876543210), (u64::MAX, 42)] {
        for line in [format_filter_result(reqid, token, "reject|550 a|b"), format_filter_dataline(reqid, token, "x|y")] {
            let fields: Vec<&str> = line.splitn(4, '|').collect();
            assert_eq!(fields[1].len(), 16);
            assert_eq!(fields[2].len(), 16);
            assert_eq!(u64::from_str_radix(fields[1], 16).unwrap(), reqid);
            assert_eq!(u64::from_str_radix(fields[2], 16).unwrap(), token);
            assert!(fields[3].ends_with('\n'));
        }
    }
}

struct Nothing;
impl Filter for Nothing {}

#[test]
fn registrations() {
    let mut runner = SmtpFilterRunner::new(Nothing);
    assert!(runner.registration_lines().is_none());
    runner
        .register_report_tx_commit(Direction::Outgoing)
        .register_filter_helo()
        .register_filter_helo()
        .register_report_disconnect(Direction::Incoming);
    assert_eq!(
        runner.registration_lines().unwrap(),
        vec![
            "register|report|smtp-out|tx-commit\n".to_string(),
            "register|report|smtp-out|link-disconnect\n".to_string(),
            "register|filter|smtp-in|helo\n".to_string(),
            "register|report|smtp-in|link-disconnect\n".to_string(),
            "register|ready\n".to_string(),
        ]
    );
    let r = Registration { kind: FilterKind::Report, phase: Phase::Timeout, direction: Direction::Incoming };
    assert_eq!(r, r.clone());
}

#[test]
fn events_go_to_their_callbacks() {
    let (ev, p) = parse_event("filter|0.7|1.0|smtp-in|helo|1|2|mail.example").unwrap();
    match callback_for(&ev, p, EventParams::Plain) {
        Callback::FilterHelo(s) => assert_eq!(s, "mail.example"),
        _ => panic!("expected the helo callback"),
    }
    let (ev, p) = parse_event("filter|0.7|1.0|smtp-in|rset|1|2").unwrap();
    assert!(matches!(callback_for(&ev, p, EventParams::Plain), Callback::FilterRset));
    let (ev, p) = parse_event("filter|0.7|1.0|smtp-in|data-line|1|2|a|b").unwrap();
    match callback_for(&ev, p, EventParams::Plain) {
        Callback::FilterDataLine(s) => assert_eq!(s, "a|b"),
        _ => panic!("expected the data-line callback"),
    }
    let (ev, p) = parse_event("report|0.7|1.0|smtp-out|link-auth|1|a|b|pass").unwrap();
    match callback_for(&ev, p, EventParams::Auth("a|b".into(), AuthStatus::Pass)) {
        Callback::LinkAuth(d, u, st) => {
            assert_eq!(d, Direction::Outgoing);
            assert_eq!(u, "a|b");
            assert_eq!(st, AuthStatus::Pass);
        }
        _ => panic!("expected the link-auth callback"),
    }
    let (ev, p) = parse_event("report|0.7|1.0|smtp-out|timeout|1").unwrap();
    assert!(matches!(callback_for(&ev, p, EventParams::Plain), Callback::Timeout(Direction::Outgoing)));
    let (ev, p) = parse_event("filter|0.7|1.0|smtp-in|link-connect|1|2").unwrap();
    assert!(matches!(callback_for(&ev, p, EventParams::Plain), Callback::Nothing));
}

#[test]
fn config_lines_go_to_their_callbacks() {
    match config_call("config|subsystem|smtp-in") {
        ConfigCall::Pair(k, v) => assert_eq!((k.as_str(), v.as_str()), ("subsystem", "smtp-in")),
        _ => panic!("expected on_config"),
    }
    match config_call("config|a|b|c") {
        ConfigCall::Pair(k, v) => assert_eq!((k.as_str(), v.as_str()), ("a", "b|c")),
        _ => panic!("expected on_config"),
    }
    assert!(matches!(config_call("config|ready"), ConfigCall::Ready));
    assert!(matches!(config_call("config|noise"), ConfigCall::Nothing));
    assert!(matches!(config_call("report|0.7|1.0|smtp-in|timeout|1"), ConfigCall::Nothing));
}

#[derive(Default)]
struct Log {
    seen: Vec<String>,
}

struct Recorder {
    log: Rc<RefCell<Log>>,
}

fn describe(s: &Session) -> String {
    format!(
        "id={:x} rdns={:?} fcrdns={:?} identity={:?} greeting={:?} ciphers={:?} user={:?} msgid={:?} from={:?} to={:?} evpid={:?} src={}",
        s.reqid,
        s.rdns,
        s.fcrdns,
        s.identity,
        s.greeting,
        s.ciphers,
        s.username,
        s.msgid,
        s.mailfrom,
        s.rcptto,
        s.evpid,
        match &s.src {
            Some(Address::Ip(sa)) => format!("{}:{}", sa.ip().to_string(), sa.port()),
            Some(Address::Unix(u)) => u.clone(),
            None => "-".to_string(),
        }
    )
}

impl Filter for Recorder {
    fn on_filter_helo(&mut self, session: &Session, identity: &str) -> FilterResponse {
        self.log.borrow_mut().seen.push(format!("helo {identity} {}", describe(session)));
        FilterResponse::Reject { code: 550, message: "go away".into() }
    }

    fn on_filter_data_line(&mut self, _session: &Session, line: &str) -> Vec<String> {
        vec![line.to_uppercase(), "X".to_string()]
    }

    fn on_filter_data(&mut self, _session: &Session) -> FilterResponse {
        FilterResponse::DataLine("oops".into())
    }

    fn on_report_tx_commit(&mut self, session: &Session, _d: Direction, msgid: u32, size: usize) {
        self.log.borrow_mut().seen.push(format!("commit {msgid:x} {size} {}", describe(session)));
    }

    fn on_report_timeout(&mut self, session: &Session, _d: Direction) {
        self.log.borrow_mut().seen.push(format!("timeout {}", describe(session)));
    }

    fn on_report_link_disconnect(&mut self, session: &Session, _d: Direction) {
        self.log.borrow_mut().seen.push(format!("bye {}", describe(session)));
    }

    fn on_config(&mut self, key: &str, value: &str) {
        self.log.borrow_mut().seen.push(format!("config {key}={value}"));
    }

    fn on_config_ready(&mut self) {
        self.log.borrow_mut().seen.push("ready".to_string());
    }
}

#[test]
fn sessions_follow_reports() {
    let log = Rc::new(RefCell::new(Log::default()));
    let mut runner = SmtpFilterRunner::new(Recorder { log: log.clone() });
    let lines = [
        "config|subsystem|smtp-in",
        "config|ready",
        "config|noise",
        "report|0.7|1.0|smtp-in|link-connect|7|mx.example|pass|198.51.100.7:4242|192.0.2.1:25",
        "report|0.7|1.0|smtp-in|link-identify|7|helo.example",
        "report|0.7|1.0|smtp-in|link-greeting|7|mx ESMTP",
        "report|0.7|1.0|smtp-in|link-tls|7|TLSv1.3",
        "report|0.7|1.0|smtp-in|link-auth|7|bob|fail",
        "report|0.7|1.0|smtp-in|link-auth|7|alice|pass",
        "report|0.7|1.0|smtp-in|tx-begin|7| 2a \n",
        "report|0.7|1.0|smtp-in|tx-mail|7|2a|ok|<a@x>",
        "report|0.5|1.0|smtp-in|tx-rcpt|7|2a|<b@y>|ok",
        "report|0.7|1.0|smtp-in|tx-rcpt|7|2a|permfail|<c@z>",
        "report|0.7|1.0|smtp-in|tx-envelope|7|2a|deadbeef",
        "report|0.7|1.0|smtp-in|tx-commit|7|2a|1234",
        "report|0.7|1.0|smtp-in|timeout|7",
        "report|0.7|1.0|smtp-in|link-disconnect|7",
        "report|0.7|1.0|smtp-in|timeout|7",
    ];
    for l in lines {
        assert_eq!(runner.handle_line(l).unwrap(), Vec::<String>::new());
    }
    let seen = log.borrow().seen.clone();
    assert_eq!(seen[0], "config subsystem=smtp-in");
    assert_eq!(seen[1], "ready");
    assert_eq!(
        seen[2],
        "commit 2a 1234 id=7 rdns=Some(\"mx.example\") fcrdns=Okay identity=Some(\"helo.example\") greeting=Some(\"mx ESMTP\") ciphers=Some(\"TLSv1.3\") user=Some(\"alice\") msgid=Some(42) from=Some(\"<a@x>\") to=[\"<b@y>\", \"<c@z>\"] evpid=Some(3735928559) src=198.51.100.7:4242"
    );
    // After the commit the transaction is forgotten.
    assert_eq!(
        seen[3],
        "timeout id=7 rdns=Some(\"mx.example\") fcrdns=Okay identity=Some(\"helo.example\") greeting=Some(\"mx ESMTP\") ciphers=Some(\"TLSv1.3\") user=Some(\"alice\") msgid=None from=None to=[] evpid=None src=198.51.100.7:4242"
    );
    assert!(seen[4].starts_with("bye id=7 rdns=Some"));
    // After the disconnect the session starts afresh.
    assert_eq!(
        seen[5],
        "timeout id=7 rdns=None fcrdns=TempFail identity=None greeting=None ciphers=None user=None msgid=None from=None to=[] evpid=None src=-"
    );
}

#[test]
fn requests_get_replies() {
    let log = Rc::new(RefCell::new(Log::default()));
    let mut runner = SmtpFilterRunner::new(Recorder { log: log.clone() });
    assert_eq!(
        runner.handle_line("filter|0.7|1.0|smtp-in|helo|a|b|client.example").unwrap(),
        vec!["filter-result|000000000000000a|000000000000000b|reject|550 go away\n".to_string()]
    );
    assert_eq!(
        runner.handle_line("filter|0.7|1.0|smtp-in|data-line|a|c|hello").unwrap(),
        vec![
            "filter-dataline|000000000000000a|000000000000000c|HELLO\n".to_string(),
            "filter-dataline|000000000000000a|000000000000000c|X\n".to_string(),
        ]
    );
    assert_eq!(
        error_of(runner.handle_line("filter|0.7|1.0|smtp-in|data|a|d")),
        "DataLine response should not be used here"
    );
    // Requests the filter does not override proceed.
    assert_eq!(
        runner.handle_line("filter|0.7|1.0|smtp-in|quit|a|e").unwrap(),
        vec!["filter-result|000000000000000a|000000000000000e|proceed\n".to_string()]
    );
    assert!(log.borrow().seen[0].starts_with("helo client.example id=a "));
}

#[test]
fn parameter_errors() {
    let mut runner = SmtpFilterRunner::new(Nothing);
    let e = |r: &mut SmtpFilterRunner<Nothing>, l: &str| error_of(r.handle_line(l));
    assert_eq!(e(&mut runner, "filter|0.7|1.0|smtp-in|connect|1|2|rdns"), "missing fcrdns in connect");
    assert_eq!(e(&mut runner, "filter|0.7|1.0|smtp-in|connect|1|2|rdns|pass"), "missing src in connect");
    assert_eq!(e(&mut runner, "filter|0.7|1.0|smtp-in|connect|1|2|rdns|pass|1.2.3.4:1"), "missing dst in connect");
    assert_eq!(e(&mut runner, "report|0.7|1.0|smtp-in|link-connect|1|rdns"), "missing fcrdns");
    assert_eq!(e(&mut runner, "report|0.7|1.0|smtp-in|link-connect|1|rdns|maybe|1.2.3.4:1|unix:x"), "invalid fcrdns: maybe");
    assert_eq!(e(&mut runner, "report|0.7|1.0|smtp-in|link-auth|1|bob"), "missing auth status");
    assert_eq!(e(&mut runner, "report|0.7|1.0|smtp-in|link-auth|1|bob|ok"), "invalid auth status: ok");
    assert_eq!(e(&mut runner, "report|0.7|1.0|smtp-in|tx-begin|1|zz"), "invalid msgid: invalid digit found in string");
    assert_eq!(e(&mut runner, "report|0.7|1.0|smtp-in|tx-begin|1|100000000"), "invalid msgid: number too large to fit in target type");
    assert_eq!(e(&mut runner, "report|0.7|1.0|smtp-in|tx-mail|1|2a"), "missing address in tx-mail");
    assert_eq!(e(&mut runner, "report|0.7|1.0|smtp-in|tx-rcpt|1|2a|<a>"), "missing status in tx-mail");
    assert_eq!(e(&mut runner, "report|0.7|1.0|smtp-in|tx-rcpt|1|2a|<a>|ok"), "invalid status: <a>");
    assert_eq!(e(&mut runner, "report|0.7|1.0|smtp-in|tx-envelope|1|2a"), "missing evpid in tx-envelope");
    assert_eq!(e(&mut runner, "report|0.7|1.0|smtp-in|tx-envelope|1|2a|"), "invalid evpid: cannot parse integer from empty string");
    assert_eq!(e(&mut runner, "report|0.7|1.0|smtp-in|tx-data|1|2a"), "missing status in tx-data");
    assert_eq!(e(&mut runner, "report|0.7|1.0|smtp-in|tx-data|1|2a|meh"), "invalid status: meh");
    assert_eq!(e(&mut runner, "report|0.7|1.0|smtp-in|tx-commit|1|2a"), "missing size in tx-commit");
    assert_eq!(e(&mut runner, "report|0.7|1.0|smtp-in|tx-commit|1|2a|-1"), "invalid msg size: invalid digit found in string");
    assert_eq!(e(&mut runner, "bogus"), "missing version");
}
