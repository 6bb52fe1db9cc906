//! The vocabulary of the filter protocol: event kinds, phases, statuses and
//! directions, and their names on the wire.

use vstd::prelude::*;
use crate::ip::SocketAddr;
use crate::text::{chars_of, range_eq_str};

verus! {

/// Whether an event asks the filter for a decision or only reports.
#[derive(Debug, Clone, Copy, PartialEq, Eq, Structural)]
pub enum FilterKind {
    Filter,
    Report,
}

/// The SMTP phase or session event that a protocol line is about.
#[derive(Debug, Clone, Copy, PartialEq, Eq, Structural)]
pub enum Phase {
    Connect,
    Helo,
    Ehlo,
    StartTls,
    Auth,
    MailFrom,
    RcptTo,
    Data,
    DataLine,
    Reset,
    Quit,
    Noop,
    Help,
    Wiz,
    Commit,
    LinkConnect,
    LinkDisconnect,
    LinkGreeting,
    LinkIdentify,
    LinkTls,
    LinkAuth,
    TxBegin,
    TxMail,
    TxRcpt,
    TxEnvelope,
    TxData,
    TxCommit,
    TxRollback,
    ProtocolClient,
    ProtocolServer,
    FilterResponse,
    Timeout,
}

/// A verdict the daemon reports (forward-confirmed reverse DNS, or the
/// outcome of a transaction step).
#[derive(Debug, Clone, Copy, PartialEq, Eq, Structural)]
pub enum Status {
    Okay,
    TempFail,
    PermFail,
}

/// The outcome of an authentication attempt.
#[derive(Debug, Clone, Copy, PartialEq, Eq, Structural)]
pub enum AuthStatus {
    Pass,
    Fail,
    Error,
}

/// Which side of the daemon a session runs on.
#[derive(Debug, Clone, Copy, PartialEq, Eq, Structural)]
pub enum Direction {
    Incoming,
    Outgoing,
}

/// The name of a phase on the wire.
pub open spec fn phase_name(p: Phase) -> Seq<char> {
    match p {
        Phase::Connect => "connect"@,
        Phase::Helo => "helo"@,
        Phase::Ehlo => "ehlo"@,
        Phase::StartTls => "starttls"@,
        Phase::Auth => "auth"@,
        Phase::MailFrom => "mail-from"@,
        Phase::RcptTo => "rcpt-to"@,
        Phase::Data => "data"@,
        Phase::DataLine => "data-line"@,
        Phase::Reset => "rset"@,
        Phase::Quit => "quit"@,
        Phase::Noop => "noop"@,
        Phase::Help => "help"@,
        Phase::Wiz => "wiz"@,
        Phase::Commit => "commit"@,
        Phase::LinkConnect => "link-connect"@,
        Phase::LinkDisconnect => "link-disconnect"@,
        Phase::LinkGreeting => "link-greeting"@,
        Phase::LinkIdentify => "link-identify"@,
        Phase::LinkTls => "link-tls"@,
        Phase::LinkAuth => "link-auth"@,
        Phase::TxBegin => "tx-begin"@,
        Phase::TxMail => "tx-mail"@,
        Phase::TxRcpt => "tx-rcpt"@,
        Phase::TxEnvelope => "tx-envelope"@,
        Phase::TxData => "tx-data"@,
        Phase::TxCommit => "tx-commit"@,
        Phase::TxRollback => "tx-rollback"@,
        Phase::ProtocolClient => "protocol-client"@,
        Phase::ProtocolServer => "protocol-server"@,
        Phase::FilterResponse => "filter-response"@,
        Phase::Timeout => "timeout"@,
    }
}

/// The phase whose wire name is `s`, if any.
pub open spec fn phase_of_name(s: Seq<char>) -> Option<Phase> {
    if exists|p: Phase| phase_name(p) == s {
        Some(choose|p: Phase| phase_name(p) == s)
    } else {
        None
    }
}

/// Distinct phases have distinct wire names.
pub proof fn lemma_phase_name_injective(p: Phase, q: Phase)
    ensures
        phase_name(p) == phase_name(q) ==> p == q,
{
    reveal_strlit("connect");
    reveal_strlit("helo");
    reveal_strlit("ehlo");
    reveal_strlit("starttls");
    reveal_strlit("auth");
    reveal_strlit("mail-from");
    reveal_strlit("rcpt-to");
    reveal_strlit("data");
    reveal_strlit("data-line");
    reveal_strlit("rset");
    reveal_strlit("quit");
    reveal_strlit("noop");
    reveal_strlit("help");
    reveal_strlit("wiz");
    reveal_strlit("commit");
    reveal_strlit("link-connect");
    reveal_strlit("link-disconnect");
    reveal_strlit("link-greeting");
    reveal_strlit("link-identify");
    reveal_strlit("link-tls");
    reveal_strlit("link-auth");
    reveal_strlit("tx-begin");
    reveal_strlit("tx-mail");
    reveal_strlit("tx-rcpt");
    reveal_strlit("tx-envelope");
    reveal_strlit("tx-data");
    reveal_strlit("tx-commit");
    reveal_strlit("tx-rollback");
    reveal_strlit("protocol-client");
    reveal_strlit("protocol-server");
    reveal_strlit("filter-response");
    reveal_strlit("timeout");
    assert("connect"@[0] != "rcpt-to"@[0]);
    assert("connect"@[0] != "tx-mail"@[0]);
    assert("connect"@[0] != "tx-rcpt"@[0]);
    assert("connect"@[0] != "tx-data"@[0]);
    assert("connect"@[0] != "timeout"@[0]);
    assert("helo"@[0] != "ehlo"@[0]);
    assert("helo"@[0] != "auth"@[0]);
    assert("helo"@[0] != "data"@[0]);
    assert("helo"@[0] != "rset"@[0]);
    assert("helo"@[0] != "quit"@[0]);
    assert("helo"@[0] != "noop"@[0]);
    assert("helo"@[3] != "help"@[3]);
    assert("ehlo"@[0] != "auth"@[0]);
    assert("ehlo"@[0] != "data"@[0]);
    assert("ehlo"@[0] != "rset"@[0]);
    assert("ehlo"@[0] != "quit"@[0]);
    assert("ehlo"@[0] != "noop"@[0]);
    assert("ehlo"@[0] != "help"@[0]);
    assert("starttls"@[0] != "link-tls"@[0]);
    assert("starttls"@[0] != "tx-begin"@[0]);
    assert("auth"@[0] != "data"@[0]);
    assert("auth"@[0] != "rset"@[0]);
    assert("auth"@[0] != "quit"@[0]);
    assert("auth"@[0] != "noop"@[0]);
    assert("auth"@[0] != "help"@[0]);
    assert("mail-from"@[0] != "data-line"@[0]);
    assert("mail-from"@[0] != "link-auth"@[0]);
    assert("mail-from"@[0] != "tx-commit"@[0]);
    assert("rcpt-to"@[0] != "tx-mail"@[0]);
    assert("rcpt-to"@[0] != "tx-rcpt"@[0]);
    assert("rcpt-to"@[0] != "tx-data"@[0]);
    assert("rcpt-to"@[0] != "timeout"@[0]);
    assert("data"@[0] != "rset"@[0]);
    assert("data"@[0] != "quit"@[0]);
    assert("data"@[0] != "noop"@[0]);
    assert("data"@[0] != "help"@[0]);
    assert("data-line"@[0] != "link-auth"@[0]);
    assert("data-line"@[0] != "tx-commit"@[0]);
    assert("rset"@[0] != "quit"@[0]);
    assert("rset"@[0] != "noop"@[0]);
    assert("rset"@[0] != "help"@[0]);
    assert("quit"@[0] != "noop"@[0]);
    assert("quit"@[0] != "help"@[0]);
    assert("noop"@[0] != "help"@[0]);
    assert("link-disconnect"@[0] != "protocol-client"@[0]);
    assert("link-disconnect"@[0] != "protocol-server"@[0]);
    assert("link-disconnect"@[0] != "filter-response"@[0]);
    assert("link-greeting"@[5] != "link-identify"@[5]);
    assert("link-tls"@[0] != "tx-begin"@[0]);
    assert("link-auth"@[0] != "tx-commit"@[0]);
    assert("tx-mail"@[3] != "tx-rcpt"@[3]);
    assert("tx-mail"@[3] != "tx-data"@[3]);
    assert("tx-mail"@[1] != "timeout"@[1]);
    assert("tx-rcpt"@[3] != "tx-data"@[3]);
    assert("tx-rcpt"@[1] != "timeout"@[1]);
    assert("tx-envelope"@[3] != "tx-rollback"@[3]);
    assert("tx-data"@[1] != "timeout"@[1]);
    assert("protocol-client"@[9] != "protocol-server"@[9]);
    assert("protocol-client"@[0] != "filter-response"@[0]);
    assert("protocol-server"@[0] != "filter-response"@[0]);
    if phase_name(p) == phase_name(q) {
        assert(phase_name(p).len() == phase_name(q).len());
    }
}

/// A phase's wire name holds no `|`, the protocol's field separator.
pub proof fn lemma_phase_name_plain(p: Phase)
    ensures
        forall|j: int| 0 <= j < phase_name(p).len() ==> phase_name(p)[j] != '|',
{
    match p {
        Phase::Connect => {
            reveal_strlit("connect");
        },
        Phase::Helo => {
            reveal_strlit("helo");
        },
        Phase::Ehlo => {
            reveal_strlit("ehlo");
        },
        Phase::StartTls => {
            reveal_strlit("starttls");
        },
        Phase::Auth => {
            reveal_strlit("auth");
        },
        Phase::MailFrom => {
            reveal_strlit("mail-from");
        },
        Phase::RcptTo => {
            reveal_strlit("rcpt-to");
        },
        Phase::Data => {
            reveal_strlit("data");
        },
        Phase::DataLine => {
            reveal_strlit("data-line");
        },
        Phase::Reset => {
            reveal_strlit("rset");
        },
        Phase::Quit => {
            reveal_strlit("quit");
        },
        Phase::Noop => {
            reveal_strlit("noop");
        },
        Phase::Help => {
            reveal_strlit("help");
        },
        Phase::Wiz => {
            reveal_strlit("wiz");
        },
        Phase::Commit => {
            reveal_strlit("commit");
        },
        Phase::LinkConnect => {
            reveal_strlit("link-connect");
        },
        Phase::LinkDisconnect => {
            reveal_strlit("link-disconnect");
        },
        Phase::LinkGreeting => {
            reveal_strlit("link-greeting");
        },
        Phase::LinkIdentify => {
            reveal_strlit("link-identify");
        },
        Phase::LinkTls => {
            reveal_strlit("link-tls");
        },
        Phase::LinkAuth => {
            reveal_strlit("link-auth");
        },
        Phase::TxBegin => {
            reveal_strlit("tx-begin");
        },
        Phase::TxMail => {
            reveal_strlit("tx-mail");
        },
        Phase::TxRcpt => {
            reveal_strlit("tx-rcpt");
        },
        Phase::TxEnvelope => {
            reveal_strlit("tx-envelope");
        },
        Phase::TxData => {
            reveal_strlit("tx-data");
        },
        Phase::TxCommit => {
            reveal_strlit("tx-commit");
        },
        Phase::TxRollback => {
            reveal_strlit("tx-rollback");
        },
        Phase::ProtocolClient => {
            reveal_strlit("protocol-client");
        },
        Phase::ProtocolServer => {
            reveal_strlit("protocol-server");
        },
        Phase::FilterResponse => {
            reveal_strlit("filter-response");
        },
        Phase::Timeout => {
            reveal_strlit("timeout");
        },
    }
}

/// The wire names of the phases, as OpenSMTPD writes them in event lines
/// and registrations; each name reads back as its phase.
pub proof fn lemma_phase_wire_names()
    ensures
        phase_name(Phase::Connect) == "connect"@,
        phase_of_name("connect"@) == Some(Phase::Connect),
        phase_name(Phase::Helo) == "helo"@,
        phase_of_name("helo"@) == Some(Phase::Helo),
        phase_name(Phase::Ehlo) == "ehlo"@,
        phase_of_name("ehlo"@) == Some(Phase::Ehlo),
        phase_name(Phase::StartTls) == "starttls"@,
        phase_of_name("starttls"@) == Some(Phase::StartTls),
        phase_name(Phase::Auth) == "auth"@,
        phase_of_name("auth"@) == Some(Phase::Auth),
        phase_name(Phase::MailFrom) == "mail-from"@,
        phase_of_name("mail-from"@) == Some(Phase::MailFrom),
        phase_name(Phase::RcptTo) == "rcpt-to"@,
        phase_of_name("rcpt-to"@) == Some(Phase::RcptTo),
        phase_name(Phase::Data) == "data"@,
        phase_of_name("data"@) == Some(Phase::Data),
        phase_name(Phase::DataLine) == "data-line"@,
        phase_of_name("data-line"@) == Some(Phase::DataLine),
        phase_name(Phase::Reset) == "rset"@,
        phase_of_name("rset"@) == Some(Phase::Reset),
        phase_name(Phase::Quit) == "quit"@,
        phase_of_name("quit"@) == Some(Phase::Quit),
        phase_name(Phase::Noop) == "noop"@,
        phase_of_name("noop"@) == Some(Phase::Noop),
        phase_name(Phase::Help) == "help"@,
        phase_of_name("help"@) == Some(Phase::Help),
        phase_name(Phase::Wiz) == "wiz"@,
        phase_of_name("wiz"@) == Some(Phase::Wiz),
        phase_name(Phase::Commit) == "commit"@,
        phase_of_name("commit"@) == Some(Phase::Commit),
        phase_name(Phase::LinkConnect) == "link-connect"@,
        phase_of_name("link-connect"@) == Some(Phase::LinkConnect),
        phase_name(Phase::LinkDisconnect) == "link-disconnect"@,
        phase_of_name("link-disconnect"@) == Some(Phase::LinkDisconnect),
        phase_name(Phase::LinkGreeting) == "link-greeting"@,
        phase_of_name("link-greeting"@) == Some(Phase::LinkGreeting),
        phase_name(Phase::LinkIdentify) == "link-identify"@,
        phase_of_name("link-identify"@) == Some(Phase::LinkIdentify),
        phase_name(Phase::LinkTls) == "link-tls"@,
        phase_of_name("link-tls"@) == Some(Phase::LinkTls),
        phase_name(Phase::LinkAuth) == "link-auth"@,
        phase_of_name("link-auth"@) == Some(Phase::LinkAuth),
        phase_name(Phase::TxBegin) == "tx-begin"@,
        phase_of_name("tx-begin"@) == Some(Phase::TxBegin),
        phase_name(Phase::TxMail) == "tx-mail"@,
        phase_of_name("tx-mail"@) == Some(Phase::TxMail),
        phase_name(Phase::TxRcpt) == "tx-rcpt"@,
        phase_of_name("tx-rcpt"@) == Some(Phase::TxRcpt),
        phase_name(Phase::TxEnvelope) == "tx-envelope"@,
        phase_of_name("tx-envelope"@) == Some(Phase::TxEnvelope),
        phase_name(Phase::TxData) == "tx-data"@,
        phase_of_name("tx-data"@) == Some(Phase::TxData),
        phase_name(Phase::TxCommit) == "tx-commit"@,
        phase_of_name("tx-commit"@) == Some(Phase::TxCommit),
        phase_name(Phase::TxRollback) == "tx-rollback"@,
        phase_of_name("tx-rollback"@) == Some(Phase::TxRollback),
        phase_name(Phase::ProtocolClient) == "protocol-client"@,
        phase_of_name("protocol-client"@) == Some(Phase::ProtocolClient),
        phase_name(Phase::ProtocolServer) == "protocol-server"@,
        phase_of_name("protocol-server"@) == Some(Phase::ProtocolServer),
        phase_name(Phase::FilterResponse) == "filter-response"@,
        phase_of_name("filter-response"@) == Some(Phase::FilterResponse),
        phase_name(Phase::Timeout) == "timeout"@,
        phase_of_name("timeout"@) == Some(Phase::Timeout),
{
    lemma_phase_name_roundtrip(Phase::Connect, "connect"@);
    lemma_phase_name_roundtrip(Phase::Helo, "helo"@);
    lemma_phase_name_roundtrip(Phase::Ehlo, "ehlo"@);
    lemma_phase_name_roundtrip(Phase::StartTls, "starttls"@);
    lemma_phase_name_roundtrip(Phase::Auth, "auth"@);
    lemma_phase_name_roundtrip(Phase::MailFrom, "mail-from"@);
    lemma_phase_name_roundtrip(Phase::RcptTo, "rcpt-to"@);
    lemma_phase_name_roundtrip(Phase::Data, "data"@);
    lemma_phase_name_roundtrip(Phase::DataLine, "data-line"@);
    lemma_phase_name_roundtrip(Phase::Reset, "rset"@);
    lemma_phase_name_roundtrip(Phase::Quit, "quit"@);
    lemma_phase_name_roundtrip(Phase::Noop, "noop"@);
    lemma_phase_name_roundtrip(Phase::Help, "help"@);
    lemma_phase_name_roundtrip(Phase::Wiz, "wiz"@);
    lemma_phase_name_roundtrip(Phase::Commit, "commit"@);
    lemma_phase_name_roundtrip(Phase::LinkConnect, "link-connect"@);
    lemma_phase_name_roundtrip(Phase::LinkDisconnect, "link-disconnect"@);
    lemma_phase_name_roundtrip(Phase::LinkGreeting, "link-greeting"@);
    lemma_phase_name_roundtrip(Phase::LinkIdentify, "link-identify"@);
    lemma_phase_name_roundtrip(Phase::LinkTls, "link-tls"@);
    lemma_phase_name_roundtrip(Phase::LinkAuth, "link-auth"@);
    lemma_phase_name_roundtrip(Phase::TxBegin, "tx-begin"@);
    lemma_phase_name_roundtrip(Phase::TxMail, "tx-mail"@);
    lemma_phase_name_roundtrip(Phase::TxRcpt, "tx-rcpt"@);
    lemma_phase_name_roundtrip(Phase::TxEnvelope, "tx-envelope"@);
    lemma_phase_name_roundtrip(Phase::TxData, "tx-data"@);
    lemma_phase_name_roundtrip(Phase::TxCommit, "tx-commit"@);
    lemma_phase_name_roundtrip(Phase::TxRollback, "tx-rollback"@);
    lemma_phase_name_roundtrip(Phase::ProtocolClient, "protocol-client"@);
    lemma_phase_name_roundtrip(Phase::ProtocolServer, "protocol-server"@);
    lemma_phase_name_roundtrip(Phase::FilterResponse, "filter-response"@);
    lemma_phase_name_roundtrip(Phase::Timeout, "timeout"@);
}

/// The wire names of the statuses and authentication outcomes that the
/// daemon writes, and what each reads as.
pub proof fn lemma_status_wire_names()
    ensures
        status_of_name("ok"@) == Some(Status::Okay),
        status_of_name("pass"@) == Some(Status::Okay),
        status_of_name("tempfail"@) == Some(Status::TempFail),
        status_of_name("error"@) == Some(Status::TempFail),
        status_of_name("permfail"@) == Some(Status::PermFail),
        status_of_name("fail"@) == Some(Status::PermFail),
        auth_status_of_name("pass"@) == Some(AuthStatus::Pass),
        auth_status_of_name("fail"@) == Some(AuthStatus::Fail),
        auth_status_of_name("error"@) == Some(AuthStatus::Error),
{
    reveal_strlit("ok");
    reveal_strlit("pass");
    reveal_strlit("tempfail");
    reveal_strlit("error");
    reveal_strlit("permfail");
    reveal_strlit("fail");
    assert("pass"@.len() != "ok"@.len());
    assert("tempfail"@.len() != "ok"@.len() && "tempfail"@.len() != "pass"@.len());
    assert("error"@.len() != "ok"@.len() && "error"@.len() != "pass"@.len());
    assert("permfail"@.len() != "ok"@.len() && "permfail"@.len() != "pass"@.len());
    assert("permfail"@[0] != "tempfail"@[0] && "permfail"@.len() != "error"@.len());
    assert("fail"@[0] != "pass"@[0] && "fail"@.len() != "ok"@.len() && "fail"@.len() != "tempfail"@.len());
    assert("fail"@.len() != "error"@.len());
}

/// The phase whose wire name is `v[lo..hi]`, if any.
pub fn phase_from_range(v: &Vec<char>, lo: usize, hi: usize) -> (r: Option<Phase>)
    requires
        lo <= hi <= v.len(),
    ensures
        r == phase_of_name(v@.subrange(lo as int, hi as int)),
{
    if range_eq_str(v, lo, hi, "connect") {
        proof {
            lemma_phase_name_roundtrip(Phase::Connect, v@.subrange(lo as int, hi as int));
        }
        return Some(Phase::Connect);
    }
    if range_eq_str(v, lo, hi, "helo") {
        proof {
            lemma_phase_name_roundtrip(Phase::Helo, v@.subrange(lo as int, hi as int));
        }
        return Some(Phase::Helo);
    }
    if range_eq_str(v, lo, hi, "ehlo") {
        proof {
            lemma_phase_name_roundtrip(Phase::Ehlo, v@.subrange(lo as int, hi as int));
        }
        return Some(Phase::Ehlo);
    }
    if range_eq_str(v, lo, hi, "starttls") {
        proof {
            lemma_phase_name_roundtrip(Phase::StartTls, v@.subrange(lo as int, hi as int));
        }
        return Some(Phase::StartTls);
    }
    if range_eq_str(v, lo, hi, "auth") {
        proof {
            lemma_phase_name_roundtrip(Phase::Auth, v@.subrange(lo as int, hi as int));
        }
        return Some(Phase::Auth);
    }
    if range_eq_str(v, lo, hi, "mail-from") {
        proof {
            lemma_phase_name_roundtrip(Phase::MailFrom, v@.subrange(lo as int, hi as int));
        }
        return Some(Phase::MailFrom);
    }
    if range_eq_str(v, lo, hi, "rcpt-to") {
        proof {
            lemma_phase_name_roundtrip(Phase::RcptTo, v@.subrange(lo as int, hi as int));
        }
        return Some(Phase::RcptTo);
    }
    if range_eq_str(v, lo, hi, "data") {
        proof {
            lemma_phase_name_roundtrip(Phase::Data, v@.subrange(lo as int, hi as int));
        }
        return Some(Phase::Data);
    }
    if range_eq_str(v, lo, hi, "data-line") {
        proof {
            lemma_phase_name_roundtrip(Phase::DataLine, v@.subrange(lo as int, hi as int));
        }
        return Some(Phase::DataLine);
    }
    if range_eq_str(v, lo, hi, "rset") {
        proof {
            lemma_phase_name_roundtrip(Phase::Reset, v@.subrange(lo as int, hi as int));
        }
        return Some(Phase::Reset);
    }
    if range_eq_str(v, lo, hi, "quit") {
        proof {
            lemma_phase_name_roundtrip(Phase::Quit, v@.subrange(lo as int, hi as int));
        }
        return Some(Phase::Quit);
    }
    if range_eq_str(v, lo, hi, "noop") {
        proof {
            lemma_phase_name_roundtrip(Phase::Noop, v@.subrange(lo as int, hi as int));
        }
        return Some(Phase::Noop);
    }
    if range_eq_str(v, lo, hi, "help") {
        proof {
            lemma_phase_name_roundtrip(Phase::Help, v@.subrange(lo as int, hi as int));
        }
        return Some(Phase::Help);
    }
    if range_eq_str(v, lo, hi, "wiz") {
        proof {
            lemma_phase_name_roundtrip(Phase::Wiz, v@.subrange(lo as int, hi as int));
        }
        return Some(Phase::Wiz);
    }
    if range_eq_str(v, lo, hi, "commit") {
        proof {
            lemma_phase_name_roundtrip(Phase::Commit, v@.subrange(lo as int, hi as int));
        }
        return Some(Phase::Commit);
    }
    if range_eq_str(v, lo, hi, "link-connect") {
        proof {
            lemma_phase_name_roundtrip(Phase::LinkConnect, v@.subrange(lo as int, hi as int));
        }
        return Some(Phase::LinkConnect);
    }
    if range_eq_str(v, lo, hi, "link-disconnect") {
        proof {
            lemma_phase_name_roundtrip(Phase::LinkDisconnect, v@.subrange(lo as int, hi as int));
        }
        return Some(Phase::LinkDisconnect);
    }
    if range_eq_str(v, lo, hi, "link-greeting") {
        proof {
            lemma_phase_name_roundtrip(Phase::LinkGreeting, v@.subrange(lo as int, hi as int));
        }
        return Some(Phase::LinkGreeting);
    }
    if range_eq_str(v, lo, hi, "link-identify") {
        proof {
            lemma_phase_name_roundtrip(Phase::LinkIdentify, v@.subrange(lo as int, hi as int));
        }
        return Some(Phase::LinkIdentify);
    }
    if range_eq_str(v, lo, hi, "link-tls") {
        proof {
            lemma_phase_name_roundtrip(Phase::LinkTls, v@.subrange(lo as int, hi as int));
        }
        return Some(Phase::LinkTls);
    }
    if range_eq_str(v, lo, hi, "link-auth") {
        proof {
            lemma_phase_name_roundtrip(Phase::LinkAuth, v@.subrange(lo as int, hi as int));
        }
        return Some(Phase::LinkAuth);
    }
    if range_eq_str(v, lo, hi, "tx-begin") {
        proof {
            lemma_phase_name_roundtrip(Phase::TxBegin, v@.subrange(lo as int, hi as int));
        }
        return Some(Phase::TxBegin);
    }
    if range_eq_str(v, lo, hi, "tx-mail") {
        proof {
            lemma_phase_name_roundtrip(Phase::TxMail, v@.subrange(lo as int, hi as int));
        }
        return Some(Phase::TxMail);
    }
    if range_eq_str(v, lo, hi, "tx-rcpt") {
        proof {
            lemma_phase_name_roundtrip(Phase::TxRcpt, v@.subrange(lo as int, hi as int));
        }
        return Some(Phase::TxRcpt);
    }
    if range_eq_str(v, lo, hi, "tx-envelope") {
        proof {
            lemma_phase_name_roundtrip(Phase::TxEnvelope, v@.subrange(lo as int, hi as int));
        }
        return Some(Phase::TxEnvelope);
    }
    if range_eq_str(v, lo, hi, "tx-data") {
        proof {
            lemma_phase_name_roundtrip(Phase::TxData, v@.subrange(lo as int, hi as int));
        }
        return Some(Phase::TxData);
    }
    if range_eq_str(v, lo, hi, "tx-commit") {
        proof {
            lemma_phase_name_roundtrip(Phase::TxCommit, v@.subrange(lo as int, hi as int));
        }
        return Some(Phase::TxCommit);
    }
    if range_eq_str(v, lo, hi, "tx-rollback") {
        proof {
            lemma_phase_name_roundtrip(Phase::TxRollback, v@.subrange(lo as int, hi as int));
        }
        return Some(Phase::TxRollback);
    }
    if range_eq_str(v, lo, hi, "protocol-client") {
        proof {
            lemma_phase_name_roundtrip(Phase::ProtocolClient, v@.subrange(lo as int, hi as int));
        }
        return Some(Phase::ProtocolClient);
    }
    if range_eq_str(v, lo, hi, "protocol-server") {
        proof {
            lemma_phase_name_roundtrip(Phase::ProtocolServer, v@.subrange(lo as int, hi as int));
        }
        return Some(Phase::ProtocolServer);
    }
    if range_eq_str(v, lo, hi, "filter-response") {
        proof {
            lemma_phase_name_roundtrip(Phase::FilterResponse, v@.subrange(lo as int, hi as int));
        }
        return Some(Phase::FilterResponse);
    }
    if range_eq_str(v, lo, hi, "timeout") {
        proof {
            lemma_phase_name_roundtrip(Phase::Timeout, v@.subrange(lo as int, hi as int));
        }
        return Some(Phase::Timeout);
    }
    None
}

impl Phase {
    /// The phase named `s` on the wire, if any.
    pub fn from_str(s: &str) -> (r: Option<Phase>)
        ensures
            r == phase_of_name(s@),
    {
        let v = chars_of(s);
        assert(v@.subrange(0, v@.len() as int) =~= v@);
        phase_from_range(&v, 0, v.len())
    }

    /// The name of this phase on the wire.
    pub fn as_str(&self) -> (s: &'static str)
        ensures
            s@ == phase_name(*self),
    {
        match self {
            Phase::Connect => "connect",
            Phase::Helo => "helo",
            Phase::Ehlo => "ehlo",
            Phase::StartTls => "starttls",
            Phase::Auth => "auth",
            Phase::MailFrom => "mail-from",
            Phase::RcptTo => "rcpt-to",
            Phase::Data => "data",
            Phase::DataLine => "data-line",
            Phase::Reset => "rset",
            Phase::Quit => "quit",
            Phase::Noop => "noop",
            Phase::Help => "help",
            Phase::Wiz => "wiz",
            Phase::Commit => "commit",
            Phase::LinkConnect => "link-connect",
            Phase::LinkDisconnect => "link-disconnect",
            Phase::LinkGreeting => "link-greeting",
            Phase::LinkIdentify => "link-identify",
            Phase::LinkTls => "link-tls",
            Phase::LinkAuth => "link-auth",
            Phase::TxBegin => "tx-begin",
            Phase::TxMail => "tx-mail",
            Phase::TxRcpt => "tx-rcpt",
            Phase::TxEnvelope => "tx-envelope",
            Phase::TxData => "tx-data",
            Phase::TxCommit => "tx-commit",
            Phase::TxRollback => "tx-rollback",
            Phase::ProtocolClient => "protocol-client",
            Phase::ProtocolServer => "protocol-server",
            Phase::FilterResponse => "filter-response",
            Phase::Timeout => "timeout",
        }
    }
}

/// Reading back the wire name of a phase gives that phase, and a name that
/// reads as a phase is that phase's wire name: the two functions are inverse.
pub proof fn lemma_phase_name_roundtrip(p: Phase, s: Seq<char>)
    ensures
        phase_of_name(phase_name(p)) == Some(p),
        phase_of_name(s) == Some(p) ==> s == phase_name(p),
{
    let q = choose|q: Phase| phase_name(q) == phase_name(p);
    lemma_phase_name_injective(p, q);

}

/// The status named `s` on the wire, if any.
pub open spec fn status_of_name(s: Seq<char>) -> Option<Status> {
    if s == "ok"@ || s == "pass"@ {
        Some(Status::Okay)
    } else if s == "tempfail"@ || s == "error"@ {
        Some(Status::TempFail)
    } else if s == "permfail"@ || s == "fail"@ {
        Some(Status::PermFail)
    } else {
        None
    }
}

/// The name the daemon writes for a status.
pub open spec fn status_name(st: Status) -> Seq<char> {
    match st {
        Status::Okay => "ok"@,
        Status::TempFail => "tempfail"@,
        Status::PermFail => "permfail"@,
    }
}

/// A status's name reads back as the status and holds no `|`.
pub proof fn lemma_status_name(st: Status)
    ensures
        status_of_name(status_name(st)) == Some(st),
        forall|j: int| 0 <= j < status_name(st).len() ==> status_name(st)[j] != '|',
{
    reveal_strlit("ok");
    reveal_strlit("pass");
    reveal_strlit("tempfail");
    reveal_strlit("error");
    reveal_strlit("permfail");
    reveal_strlit("fail");
    assert("ok"@.len() != "pass"@.len());
    assert("tempfail"@.len() != "ok"@.len() && "tempfail"@.len() != "pass"@.len());
    assert("permfail"@.len() != "ok"@.len() && "permfail"@.len() != "pass"@.len());
    assert("permfail"@[0] != "tempfail"@[0] && "permfail"@.len() != "error"@.len());
}

/// The status whose wire name is `v[lo..hi]`, if any.
pub fn status_from_range(v: &Vec<char>, lo: usize, hi: usize) -> (r: Option<Status>)
    requires
        lo <= hi <= v.len(),
    ensures
        r == status_of_name(v@.subrange(lo as int, hi as int)),
{
    if range_eq_str(v, lo, hi, "ok") || range_eq_str(v, lo, hi, "pass") {
        Some(Status::Okay)
    } else if range_eq_str(v, lo, hi, "tempfail") || range_eq_str(v, lo, hi, "error") {
        Some(Status::TempFail)
    } else if range_eq_str(v, lo, hi, "permfail") || range_eq_str(v, lo, hi, "fail") {
        Some(Status::PermFail)
    } else {
        None
    }
}

impl Status {
    /// The status named `s` on the wire, if any.
    pub fn from_str(s: &str) -> (r: Option<Status>)
        ensures
            r == status_of_name(s@),
    {
        let v = chars_of(s);
        assert(v@.subrange(0, v@.len() as int) =~= v@);
        status_from_range(&v, 0, v.len())
    }
}

/// The authentication outcome named `s` on the wire, if any.
pub open spec fn auth_status_of_name(s: Seq<char>) -> Option<AuthStatus> {
    if s == "pass"@ {
        Some(AuthStatus::Pass)
    } else if s == "fail"@ {
        Some(AuthStatus::Fail)
    } else if s == "error"@ {
        Some(AuthStatus::Error)
    } else {
        None
    }
}

/// The name the daemon writes for an authentication outcome.
pub open spec fn auth_status_name(st: AuthStatus) -> Seq<char> {
    match st {
        AuthStatus::Pass => "pass"@,
        AuthStatus::Fail => "fail"@,
        AuthStatus::Error => "error"@,
    }
}

/// An authentication outcome's name reads back as the outcome and holds
/// no `|`.
pub proof fn lemma_auth_status_name(st: AuthStatus)
    ensures
        auth_status_of_name(auth_status_name(st)) == Some(st),
        forall|j: int| 0 <= j < auth_status_name(st).len() ==> auth_status_name(st)[j] != '|',
{
    reveal_strlit("pass");
    reveal_strlit("fail");
    reveal_strlit("error");
    assert("fail"@[0] != "pass"@[0]);
    assert("error"@.len() != "pass"@.len() && "error"@.len() != "fail"@.len());
}

/// The authentication outcome whose wire name is `v[lo..hi]`, if any.
pub fn auth_status_from_range(v: &Vec<char>, lo: usize, hi: usize) -> (r: Option<AuthStatus>)
    requires
        lo <= hi <= v.len(),
    ensures
        r == auth_status_of_name(v@.subrange(lo as int, hi as int)),
{
    if range_eq_str(v, lo, hi, "pass") {
        Some(AuthStatus::Pass)
    } else if range_eq_str(v, lo, hi, "fail") {
        Some(AuthStatus::Fail)
    } else if range_eq_str(v, lo, hi, "error") {
        Some(AuthStatus::Error)
    } else {
        None
    }
}

impl AuthStatus {
    /// The authentication outcome named `s` on the wire, if any.
    pub fn from_str(s: &str) -> (r: Option<AuthStatus>)
        ensures
            r == auth_status_of_name(s@),
    {
        let v = chars_of(s);
        assert(v@.subrange(0, v@.len() as int) =~= v@);
        auth_status_from_range(&v, 0, v.len())
    }
}

/// A point in time as the daemon stamps events: whole seconds since the
/// UNIX epoch and the nanoseconds within that second (below 1e9).
#[derive(Debug, Clone, Copy, PartialEq, Eq, Structural)]
pub struct Timestamp {
    pub secs: u64,
    pub nanos: u32,
}

/// The header of one protocol line: what happened, when, on which side, to
/// which session, and (for filter requests) the token the reply must carry.
#[derive(Debug, Clone, Copy, PartialEq, Eq, Structural)]
pub struct Event {
    pub kind: FilterKind,
    pub phase: Phase,
    pub version_major: u32,
    pub version_minor: u32,
    pub timestamp: Timestamp,
    pub direction: Direction,
    pub reqid: u64,
    pub token: Option<u64>,
}

/// Where a connection comes from or goes to: an IP socket address, or a
/// UNIX socket named by its full text (`unix:...`).
#[derive(Debug, Clone)]
pub enum Address {
    Ip(SocketAddr),
    Unix(String),
}

/// An address with its text taken by value.
pub enum AddressView {
    Ip(SocketAddr),
    Unix(Seq<char>),
}

impl View for Address {
    type V = AddressView;

    open spec fn view(&self) -> AddressView {
        match self {
            Address::Ip(a) => AddressView::Ip(*a),
            Address::Unix(s) => AddressView::Unix(s@),
        }
    }
}

/// An optional text, taken by value.
pub open spec fn opt_text(o: Option<String>) -> Option<Seq<char>> {
    match o {
        Some(s) => Some(s@),
        None => None,
    }
}

/// An optional address, taken by value.
pub open spec fn opt_address(o: Option<Address>) -> Option<AddressView> {
    match o {
        Some(a) => Some(a@),
        None => None,
    }
}

/// What the filter knows of one SMTP session: who connected, what they
/// announced, and the transaction under way. There are no slots for a
/// filter's own per-session or per-message data: callbacks only ever see a
/// session by shared reference, so such slots could never be filled.
#[derive(Debug)]
pub struct Session {
    pub reqid: u64,
    pub src: Option<Address>,
    pub dst: Option<Address>,
    pub rdns: Option<String>,
    pub fcrdns: Status,
    pub identity: Option<String>,
    pub greeting: Option<String>,
    pub ciphers: Option<String>,
    pub msgid: Option<u32>,
    pub username: Option<String>,
    pub mailfrom: Option<String>,
    pub rcptto: Vec<String>,
    pub evpid: Option<u64>,
}

/// A session with its texts taken by value.
pub struct SessionView {
    pub reqid: u64,
    pub src: Option<AddressView>,
    pub dst: Option<AddressView>,
    pub rdns: Option<Seq<char>>,
    pub fcrdns: Status,
    pub identity: Option<Seq<char>>,
    pub greeting: Option<Seq<char>>,
    pub ciphers: Option<Seq<char>>,
    pub msgid: Option<u32>,
    pub username: Option<Seq<char>>,
    pub mailfrom: Option<Seq<char>>,
    pub rcptto: Seq<Seq<char>>,
    pub evpid: Option<u64>,
}

impl View for Session {
    type V = SessionView;

    open spec fn view(&self) -> SessionView {
        SessionView {
            reqid: self.reqid,
            src: opt_address(self.src),
            dst: opt_address(self.dst),
            rdns: opt_text(self.rdns),
            fcrdns: self.fcrdns,
            identity: opt_text(self.identity),
            greeting: opt_text(self.greeting),
            ciphers: opt_text(self.ciphers),
            msgid: self.msgid,
            username: opt_text(self.username),
            mailfrom: opt_text(self.mailfrom),
            rcptto: self.rcptto@.map_values(|s: String| s@),
            evpid: self.evpid,
        }
    }
}

/// A session that nothing has been learnt of yet.
pub open spec fn new_session(reqid: u64) -> SessionView {
    SessionView {
        reqid,
        src: None,
        dst: None,
        rdns: None,
        fcrdns: Status::TempFail,
        identity: None,
        greeting: None,
        ciphers: None,
        msgid: None,
        username: None,
        mailfrom: None,
        rcptto: Seq::empty(),
        evpid: None,
    }
}

/// The session with its mail transaction forgotten: sender, recipients,
/// envelope and message ids.
pub open spec fn without_transaction(s: SessionView) -> SessionView {
    SessionView { mailfrom: None, rcptto: Seq::empty(), evpid: None, msgid: None, ..s }
}

impl Session {
    /// A session that nothing has been learnt of yet.
    pub(crate) fn new(reqid: u64) -> (s: Session)
        ensures
            s@ == new_session(reqid),
    {
        let s = Session {
            reqid,
            src: None,
            dst: None,
            rdns: None,
            fcrdns: Status::TempFail,
            identity: None,
            greeting: None,
            ciphers: None,
            msgid: None,
            username: None,
            mailfrom: None,
            rcptto: Vec::new(),
            evpid: None,
        };
        assert(s@.rcptto =~= Seq::<Seq<char>>::empty());
        s
    }

    /// Forgets the mail transaction: sender, recipients, envelope and
    /// message ids.
    pub(crate) fn clear_transaction(&mut self)
        ensures
            final(self)@ == without_transaction(old(self)@),
    {
        self.mailfrom = None;
        self.rcptto = Vec::new();
        self.evpid = None;
        self.msgid = None;
        assert(self@.rcptto =~= Seq::<Seq<char>>::empty());
    }
}

} // verus!
