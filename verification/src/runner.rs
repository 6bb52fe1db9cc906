//! The filter runner: the events a filter registers for, the sessions it
//! tracks, and the handling of each protocol line.

use vstd::prelude::*;
use std::collections::HashMap;
use crate::filter::{Filter, FilterResponse};
use crate::number::{IntErrorKind, parse_uint, parse_uint_range};
use crate::protocol::{ParseError, int_error_msg, parse_address_range, spec_parse_address, u32_max, u64_max};
use crate::text::{concat_range, concat_strs, find_last, push_char, split_at_char, split_once, string_of_range, find_char_last, trim, trim_range};
use crate::number::{dec_text, digit_value, hex_text, lemma_dec_text, lemma_hex_text, int_error_message, push_dec};
use crate::protocol::{socket_text, lemma_socket_text_plain, lemma_socket_text_roundtrip, event_line, lemma_event_line_reads_back, lacks, event_time_overflows, format_filter_dataline, format_filter_result, parse_event, dataline_text, result_text, spec_parse_event};
use crate::text::{chars_of, range_eq_str, is_space, leading_space, trailing_space, lemma_split_once_at, lemma_find_last_at};
use crate::types::{Event, SessionView, Timestamp, without_transaction, status_name, auth_status_name, lemma_status_name, lemma_auth_status_name};
use crate::ip::SocketAddr;
use crate::types::{Address, AddressView, AuthStatus, Direction, FilterKind, Phase, Session, Status, auth_status_from_range, auth_status_of_name, phase_name, status_from_range, status_of_name};

verus! {

broadcast use vstd::std_specs::hash::group_hash_axioms;

/// One kind of event the filter asks the daemon to send.
#[derive(Debug, Clone, Copy, PartialEq, Eq, Structural)]
pub struct Registration {
    pub kind: FilterKind,
    pub phase: Phase,
    pub direction: Direction,
}

/// The report of a session's end in direction `d`.
pub open spec fn disconnect_report(d: Direction) -> Registration {
    Registration { kind: FilterKind::Report, phase: Phase::LinkDisconnect, direction: d }
}

/// The list with `r` added at the end, unless it holds `r` already.
pub open spec fn with_registration(regs: Seq<Registration>, r: Registration) -> Seq<Registration> {
    if regs.contains(r) {
        regs
    } else {
        regs.push(r)
    }
}

/// The list after registering `kind`/`phase`/`direction`: the registration
/// itself, then the report of the session's end in that direction (every
/// filter must hear of it to forget the session).
pub open spec fn with_event(regs: Seq<Registration>, kind: FilterKind, phase: Phase, direction: Direction) -> Seq<Registration> {
    with_registration(
        with_registration(regs, Registration { kind, phase, direction }),
        disconnect_report(direction),
    )
}

/// A registration list that names no event twice and, for every direction
/// it names, holds the report of the session's end in that direction.
pub open spec fn registrations_wf(regs: Seq<Registration>) -> bool {
    &&& regs.no_duplicates()
    &&& forall|i: int| 0 <= i < regs.len() ==> regs.contains(disconnect_report(#[trigger] regs[i].direction))
}

/// The events a filter registers for, kept well formed.
struct EventList {
    list: Vec<Registration>,
}

impl EventList {
    #[verifier::type_invariant]
    closed spec fn inv(self) -> bool {
        registrations_wf(self.list@)
    }

    fn add_event(&mut self, kind: FilterKind, phase: Phase, direction: Direction)
        ensures
            final(self).list@ == with_event(old(self).list@, kind, phase, direction),
    {
        proof {
            use_type_invariant(&*self);
            lemma_with_event_wf(self.list@, kind, phase, direction);
        }
        let mut regs: Vec<Registration> = Vec::new();
        std::mem::swap(&mut regs, &mut self.list);
        add_registration(&mut regs, kind, phase, direction);
        ensure_disconnect_report(&mut regs, direction);
        self.list = regs;
    }

    fn add_end(&mut self, direction: Direction)
        ensures
            final(self).list@ == with_registration(old(self).list@, disconnect_report(direction)),
    {
        proof {
            use_type_invariant(&*self);
            lemma_with_registration_wf(self.list@, disconnect_report(direction));
        }
        let mut regs: Vec<Registration> = Vec::new();
        std::mem::swap(&mut regs, &mut self.list);
        ensure_disconnect_report(&mut regs, direction);
        self.list = regs;
    }
}

/// Runs a filter: holds the filter, the sessions it has heard of (by
/// session id) and the events it registers for.
pub struct SmtpFilterRunner<F: Filter> {
    filter: F,
    sessions: HashMap<u64, Session>,
    registrations: EventList,
}

impl<F: Filter> SmtpFilterRunner<F> {
    /// The events registered so far, in the order they were first registered.
    pub closed spec fn registrations(self) -> Seq<Registration> {
        self.registrations.list@
    }

    /// The sessions heard of and not yet ended, by session id.
    pub closed spec fn sessions(self) -> Map<u64, crate::types::SessionView> {
        self.sessions@.map_values(|s: Session| s@)
    }

    /// A runner for `filter` with no sessions and nothing registered.
    pub fn new(filter: F) -> (r: Self)
        ensures
            r.registrations() == Seq::<Registration>::empty(),
            r.sessions() == Map::<u64, crate::types::SessionView>::empty(),
    {
        let r = SmtpFilterRunner { filter, sessions: HashMap::new(), registrations: EventList { list: Vec::new() } };
        assert(r.sessions() =~= Map::<u64, crate::types::SessionView>::empty());
        r
    }
}

impl<F: Filter> SmtpFilterRunner<F> {
    fn register(&mut self, kind: FilterKind, phase: Phase, direction: Direction)
        ensures
            final(self).registrations() == with_event(old(self).registrations(), kind, phase, direction),
            registrations_wf(final(self).registrations()),
            final(self).sessions() == old(self).sessions(),
    {
        self.registrations.add_event(kind, phase, direction);
        proof {
            use_type_invariant(&self.registrations);
        }
    }

    /// Asks to decide on the connection requests of incoming sessions.
    pub fn register_filter_connect(&mut self) -> (r: &mut Self)
        ensures
            r.registrations() == with_event(old(self).registrations(), FilterKind::Filter, Phase::Connect, Direction::Incoming),
            registrations_wf(r.registrations()),
            r.sessions() == old(self).sessions(),
            *final(self) == *final(r),
    {
        self.register(FilterKind::Filter, Phase::Connect, Direction::Incoming);
        self
    }

    /// Asks to decide on the HELO commands of incoming sessions.
    pub fn register_filter_helo(&mut self) -> (r: &mut Self)
        ensures
            r.registrations() == with_event(old(self).registrations(), FilterKind::Filter, Phase::Helo, Direction::Incoming),
            registrations_wf(r.registrations()),
            r.sessions() == old(self).sessions(),
            *final(self) == *final(r),
    {
        self.register(FilterKind::Filter, Phase::Helo, Direction::Incoming);
        self
    }

    /// Asks to decide on the EHLO commands of incoming sessions.
    pub fn register_filter_ehlo(&mut self) -> (r: &mut Self)
        ensures
            r.registrations() == with_event(old(self).registrations(), FilterKind::Filter, Phase::Ehlo, Direction::Incoming),
            registrations_wf(r.registrations()),
            r.sessions() == old(self).sessions(),
            *final(self) == *final(r),
    {
        self.register(FilterKind::Filter, Phase::Ehlo, Direction::Incoming);
        self
    }

    /// Asks to decide on the STARTTLS commands of incoming sessions.
    pub fn register_filter_starttls(&mut self) -> (r: &mut Self)
        ensures
            r.registrations() == with_event(old(self).registrations(), FilterKind::Filter, Phase::StartTls, Direction::Incoming),
            registrations_wf(r.registrations()),
            r.sessions() == old(self).sessions(),
            *final(self) == *final(r),
    {
        self.register(FilterKind::Filter, Phase::StartTls, Direction::Incoming);
        self
    }

    /// Asks to decide on the AUTH commands of incoming sessions.
    pub fn register_filter_auth(&mut self) -> (r: &mut Self)
        ensures
            r.registrations() == with_event(old(self).registrations(), FilterKind::Filter, Phase::Auth, Direction::Incoming),
            registrations_wf(r.registrations()),
            r.sessions() == old(self).sessions(),
            *final(self) == *final(r),
    {
        self.register(FilterKind::Filter, Phase::Auth, Direction::Incoming);
        self
    }

    /// Asks to decide on the MAIL FROM commands of incoming sessions.
    pub fn register_filter_mail_from(&mut self) -> (r: &mut Self)
        ensures
            r.registrations() == with_event(old(self).registrations(), FilterKind::Filter, Phase::MailFrom, Direction::Incoming),
            registrations_wf(r.registrations()),
            r.sessions() == old(self).sessions(),
            *final(self) == *final(r),
    {
        self.register(FilterKind::Filter, Phase::MailFrom, Direction::Incoming);
        self
    }

    /// Asks to decide on the RCPT TO commands of incoming sessions.
    pub fn register_filter_rcpt_to(&mut self) -> (r: &mut Self)
        ensures
            r.registrations() == with_event(old(self).registrations(), FilterKind::Filter, Phase::RcptTo, Direction::Incoming),
            registrations_wf(r.registrations()),
            r.sessions() == old(self).sessions(),
            *final(self) == *final(r),
    {
        self.register(FilterKind::Filter, Phase::RcptTo, Direction::Incoming);
        self
    }

    /// Asks to decide on the DATA commands of incoming sessions.
    pub fn register_filter_data(&mut self) -> (r: &mut Self)
        ensures
            r.registrations() == with_event(old(self).registrations(), FilterKind::Filter, Phase::Data, Direction::Incoming),
            registrations_wf(r.registrations()),
            r.sessions() == old(self).sessions(),
            *final(self) == *final(r),
    {
        self.register(FilterKind::Filter, Phase::Data, Direction::Incoming);
        self
    }

    /// Asks to decide on the message lines of incoming sessions.
    pub fn register_filter_data_line(&mut self) -> (r: &mut Self)
        ensures
            r.registrations() == with_event(old(self).registrations(), FilterKind::Filter, Phase::DataLine, Direction::Incoming),
            registrations_wf(r.registrations()),
            r.sessions() == old(self).sessions(),
            *final(self) == *final(r),
    {
        self.register(FilterKind::Filter, Phase::DataLine, Direction::Incoming);
        self
    }

    /// Asks to decide on the RSET commands of incoming sessions.
    pub fn register_filter_reset(&mut self) -> (r: &mut Self)
        ensures
            r.registrations() == with_event(old(self).registrations(), FilterKind::Filter, Phase::Reset, Direction::Incoming),
            registrations_wf(r.registrations()),
            r.sessions() == old(self).sessions(),
            *final(self) == *final(r),
    {
        self.register(FilterKind::Filter, Phase::Reset, Direction::Incoming);
        self
    }

    /// Asks to decide on the QUIT commands of incoming sessions.
    pub fn register_filter_quit(&mut self) -> (r: &mut Self)
        ensures
            r.registrations() == with_event(old(self).registrations(), FilterKind::Filter, Phase::Quit, Direction::Incoming),
            registrations_wf(r.registrations()),
            r.sessions() == old(self).sessions(),
            *final(self) == *final(r),
    {
        self.register(FilterKind::Filter, Phase::Quit, Direction::Incoming);
        self
    }

    /// Asks to decide on the NOOP commands of incoming sessions.
    pub fn register_filter_noop(&mut self) -> (r: &mut Self)
        ensures
            r.registrations() == with_event(old(self).registrations(), FilterKind::Filter, Phase::Noop, Direction::Incoming),
            registrations_wf(r.registrations()),
            r.sessions() == old(self).sessions(),
            *final(self) == *final(r),
    {
        self.register(FilterKind::Filter, Phase::Noop, Direction::Incoming);
        self
    }

    /// Asks to decide on the HELP commands of incoming sessions.
    pub fn register_filter_help(&mut self) -> (r: &mut Self)
        ensures
            r.registrations() == with_event(old(self).registrations(), FilterKind::Filter, Phase::Help, Direction::Incoming),
            registrations_wf(r.registrations()),
            r.sessions() == old(self).sessions(),
            *final(self) == *final(r),
    {
        self.register(FilterKind::Filter, Phase::Help, Direction::Incoming);
        self
    }

    /// Asks to decide on the WIZ commands of incoming sessions.
    pub fn register_filter_wiz(&mut self) -> (r: &mut Self)
        ensures
            r.registrations() == with_event(old(self).registrations(), FilterKind::Filter, Phase::Wiz, Direction::Incoming),
            registrations_wf(r.registrations()),
            r.sessions() == old(self).sessions(),
            *final(self) == *final(r),
    {
        self.register(FilterKind::Filter, Phase::Wiz, Direction::Incoming);
        self
    }

    /// Asks to decide on the message commits of incoming sessions.
    pub fn register_filter_commit(&mut self) -> (r: &mut Self)
        ensures
            r.registrations() == with_event(old(self).registrations(), FilterKind::Filter, Phase::Commit, Direction::Incoming),
            registrations_wf(r.registrations()),
            r.sessions() == old(self).sessions(),
            *final(self) == *final(r),
    {
        self.register(FilterKind::Filter, Phase::Commit, Direction::Incoming);
        self
    }

    /// Asks to hear of the connections of sessions in `direction`.
    pub fn register_report_connect(&mut self, direction: Direction) -> (r: &mut Self)
        ensures
            r.registrations() == with_event(old(self).registrations(), FilterKind::Report, Phase::LinkConnect, direction),
            registrations_wf(r.registrations()),
            r.sessions() == old(self).sessions(),
            *final(self) == *final(r),
    {
        self.register(FilterKind::Report, Phase::LinkConnect, direction);
        self
    }

    /// Asks to hear of the end of sessions in `direction`.
    pub fn register_report_disconnect(&mut self, direction: Direction) -> (r: &mut Self)
        ensures
            r.registrations() == with_registration(old(self).registrations(), disconnect_report(direction)),
            registrations_wf(r.registrations()),
            r.sessions() == old(self).sessions(),
            *final(self) == *final(r),
    {
        self.registrations.add_end(direction);
        proof {
            use_type_invariant(&self.registrations);
        }
        self
    }

    /// Asks to hear of the server greetings of sessions in `direction`.
    pub fn register_report_greeting(&mut self, direction: Direction) -> (r: &mut Self)
        ensures
            r.registrations() == with_event(old(self).registrations(), FilterKind::Report, Phase::LinkGreeting, direction),
            registrations_wf(r.registrations()),
            r.sessions() == old(self).sessions(),
            *final(self) == *final(r),
    {
        self.register(FilterKind::Report, Phase::LinkGreeting, direction);
        self
    }

    /// Asks to hear of the client identifications of sessions in `direction`.
    pub fn register_report_identify(&mut self, direction: Direction) -> (r: &mut Self)
        ensures
            r.registrations() == with_event(old(self).registrations(), FilterKind::Report, Phase::LinkIdentify, direction),
            registrations_wf(r.registrations()),
            r.sessions() == old(self).sessions(),
            *final(self) == *final(r),
    {
        self.register(FilterKind::Report, Phase::LinkIdentify, direction);
        self
    }

    /// Asks to hear of the TLS handshakes of sessions in `direction`.
    pub fn register_report_tls(&mut self, direction: Direction) -> (r: &mut Self)
        ensures
            r.registrations() == with_event(old(self).registrations(), FilterKind::Report, Phase::LinkTls, direction),
            registrations_wf(r.registrations()),
            r.sessions() == old(self).sessions(),
            *final(self) == *final(r),
    {
        self.register(FilterKind::Report, Phase::LinkTls, direction);
        self
    }

    /// Asks to hear of the authentication results of sessions in `direction`.
    pub fn register_report_auth(&mut self, direction: Direction) -> (r: &mut Self)
        ensures
            r.registrations() == with_event(old(self).registrations(), FilterKind::Report, Phase::LinkAuth, direction),
            registrations_wf(r.registrations()),
            r.sessions() == old(self).sessions(),
            *final(self) == *final(r),
    {
        self.register(FilterKind::Report, Phase::LinkAuth, direction);
        self
    }

    /// Asks to hear of the transaction starts of sessions in `direction`.
    pub fn register_report_tx_begin(&mut self, direction: Direction) -> (r: &mut Self)
        ensures
            r.registrations() == with_event(old(self).registrations(), FilterKind::Report, Phase::TxBegin, direction),
            registrations_wf(r.registrations()),
            r.sessions() == old(self).sessions(),
            *final(self) == *final(r),
    {
        self.register(FilterKind::Report, Phase::TxBegin, direction);
        self
    }

    /// Asks to hear of the senders of transactions of sessions in `direction`.
    pub fn register_report_tx_mail(&mut self, direction: Direction) -> (r: &mut Self)
        ensures
            r.registrations() == with_event(old(self).registrations(), FilterKind::Report, Phase::TxMail, direction),
            registrations_wf(r.registrations()),
            r.sessions() == old(self).sessions(),
            *final(self) == *final(r),
    {
        self.register(FilterKind::Report, Phase::TxMail, direction);
        self
    }

    /// Asks to hear of the recipients of transactions of sessions in `direction`.
    pub fn register_report_tx_rcpt(&mut self, direction: Direction) -> (r: &mut Self)
        ensures
            r.registrations() == with_event(old(self).registrations(), FilterKind::Report, Phase::TxRcpt, direction),
            registrations_wf(r.registrations()),
            r.sessions() == old(self).sessions(),
            *final(self) == *final(r),
    {
        self.register(FilterKind::Report, Phase::TxRcpt, direction);
        self
    }

    /// Asks to hear of the envelope ids of sessions in `direction`.
    pub fn register_report_tx_envelope(&mut self, direction: Direction) -> (r: &mut Self)
        ensures
            r.registrations() == with_event(old(self).registrations(), FilterKind::Report, Phase::TxEnvelope, direction),
            registrations_wf(r.registrations()),
            r.sessions() == old(self).sessions(),
            *final(self) == *final(r),
    {
        self.register(FilterKind::Report, Phase::TxEnvelope, direction);
        self
    }

    /// Asks to hear of the the outcomes of DATA of sessions in `direction`.
    pub fn register_report_tx_data(&mut self, direction: Direction) -> (r: &mut Self)
        ensures
            r.registrations() == with_event(old(self).registrations(), FilterKind::Report, Phase::TxData, direction),
            registrations_wf(r.registrations()),
            r.sessions() == old(self).sessions(),
            *final(self) == *final(r),
    {
        self.register(FilterKind::Report, Phase::TxData, direction);
        self
    }

    /// Asks to hear of the committed transactions of sessions in `direction`.
    pub fn register_report_tx_commit(&mut self, direction: Direction) -> (r: &mut Self)
        ensures
            r.registrations() == with_event(old(self).registrations(), FilterKind::Report, Phase::TxCommit, direction),
            registrations_wf(r.registrations()),
            r.sessions() == old(self).sessions(),
            *final(self) == *final(r),
    {
        self.register(FilterKind::Report, Phase::TxCommit, direction);
        self
    }

    /// Asks to hear of the rolled back transactions of sessions in `direction`.
    pub fn register_report_tx_rollback(&mut self, direction: Direction) -> (r: &mut Self)
        ensures
            r.registrations() == with_event(old(self).registrations(), FilterKind::Report, Phase::TxRollback, direction),
            registrations_wf(r.registrations()),
            r.sessions() == old(self).sessions(),
            *final(self) == *final(r),
    {
        self.register(FilterKind::Report, Phase::TxRollback, direction);
        self
    }

    /// Asks to hear of the client commands of sessions in `direction`.
    pub fn register_report_protocol_client(&mut self, direction: Direction) -> (r: &mut Self)
        ensures
            r.registrations() == with_event(old(self).registrations(), FilterKind::Report, Phase::ProtocolClient, direction),
            registrations_wf(r.registrations()),
            r.sessions() == old(self).sessions(),
            *final(self) == *final(r),
    {
        self.register(FilterKind::Report, Phase::ProtocolClient, direction);
        self
    }

    /// Asks to hear of the server responses of sessions in `direction`.
    pub fn register_report_protocol_server(&mut self, direction: Direction) -> (r: &mut Self)
        ensures
            r.registrations() == with_event(old(self).registrations(), FilterKind::Report, Phase::ProtocolServer, direction),
            registrations_wf(r.registrations()),
            r.sessions() == old(self).sessions(),
            *final(self) == *final(r),
    {
        self.register(FilterKind::Report, Phase::ProtocolServer, direction);
        self
    }

    /// Asks to hear of the filter responses of sessions in `direction`.
    pub fn register_report_filter_response(&mut self, direction: Direction) -> (r: &mut Self)
        ensures
            r.registrations() == with_event(old(self).registrations(), FilterKind::Report, Phase::FilterResponse, direction),
            registrations_wf(r.registrations()),
            r.sessions() == old(self).sessions(),
            *final(self) == *final(r),
    {
        self.register(FilterKind::Report, Phase::FilterResponse, direction);
        self
    }

    /// Asks to hear of the session timeouts of sessions in `direction`.
    pub fn register_report_timeout(&mut self, direction: Direction) -> (r: &mut Self)
        ensures
            r.registrations() == with_event(old(self).registrations(), FilterKind::Report, Phase::Timeout, direction),
            registrations_wf(r.registrations()),
            r.sessions() == old(self).sessions(),
            *final(self) == *final(r),
    {
        self.register(FilterKind::Report, Phase::Timeout, direction);
        self
    }
}

fn holds_registration(regs: &Vec<Registration>, reg: Registration) -> (r: bool)
    ensures
        r == regs@.contains(reg),
{
    let mut i: usize = 0;
    while i < regs.len()
        invariant
            0 <= i <= regs.len(),
            forall|j: int| 0 <= j < i ==> regs@[j] != reg,
        decreases regs.len() - i,
    {
        if regs[i] == reg {
            assert(regs@[i as int] == reg);
            return true;
        }
        i = i + 1;
    }
    false
}

fn add_registration(regs: &mut Vec<Registration>, kind: FilterKind, phase: Phase, direction: Direction)
    ensures
        final(regs)@ == with_registration(old(regs)@, Registration { kind, phase, direction }),
{
    let reg = Registration { kind, phase, direction };
    if !holds_registration(regs, reg) {
        regs.push(reg);
    }
}

fn ensure_disconnect_report(regs: &mut Vec<Registration>, direction: Direction)
    ensures
        final(regs)@ == with_registration(old(regs)@, disconnect_report(direction)),
{
    add_registration(regs, FilterKind::Report, Phase::LinkDisconnect, direction);
}

/// Adding a registration keeps a list well formed as long as the report of
/// the session's end in its direction is, or is then, in the list.
pub proof fn lemma_with_registration_wf(regs: Seq<Registration>, r: Registration)
    requires
        registrations_wf(regs),
        regs.contains(disconnect_report(r.direction)) || r == disconnect_report(r.direction),
    ensures
        registrations_wf(with_registration(regs, r)),
        regs.contains(r) ==> with_registration(regs, r) == regs,
{
    if !regs.contains(r) {
        let n = regs.push(r);
        assert forall|i: int, j: int| 0 <= i < n.len() && 0 <= j < n.len() && i != j implies n[i] != n[j] by {
            if i == regs.len() {
                assert(regs[j] == n[j]);
            } else if j == regs.len() {
                assert(regs[i] == n[i]);
            }
        }
        assert forall|i: int| 0 <= i < n.len() implies n.contains(disconnect_report(#[trigger] n[i].direction)) by {
            if i < regs.len() {
                let k = choose|k: int| 0 <= k < regs.len() && regs[k] == disconnect_report(regs[i].direction);
                assert(n[k] == regs[k]);
            } else if r == disconnect_report(r.direction) {
                assert(n[i] == r);
            } else {
                let k = choose|k: int| 0 <= k < regs.len() && regs[k] == disconnect_report(r.direction);
                assert(n[k] == regs[k]);
            }
        }
    }
}

/// Registering an event keeps the list well formed, and registering it
/// again changes nothing.
pub proof fn lemma_with_event_wf(regs: Seq<Registration>, kind: FilterKind, phase: Phase, direction: Direction)
    requires
        registrations_wf(regs),
    ensures
        registrations_wf(with_event(regs, kind, phase, direction)),
        with_event(with_event(regs, kind, phase, direction), kind, phase, direction) == with_event(
            regs,
            kind,
            phase,
            direction,
        ),
{
    let r = Registration { kind, phase, direction };
    let d = disconnect_report(direction);
    let once = with_registration(regs, r);
    if regs.contains(d) {
        lemma_with_registration_wf(regs, r);
        lemma_with_registration_wf(once, d);
    } else {
        lemma_with_registration_wf(regs, d);
        let with_d = with_registration(regs, d);
        if r == d {
            lemma_with_registration_wf(with_d, d);
        } else {
            assert(!regs.contains(r)) by {
                if regs.contains(r) {
                    let k = choose|k: int| 0 <= k < regs.len() && regs[k] == r;
                    assert(regs.contains(disconnect_report(regs[k].direction)));
                }
            }
            assert(once == regs.push(r));
            assert(!once.contains(d)) by {
                if once.contains(d) {
                    let k = choose|k: int| 0 <= k < once.len() && once[k] == d;
                    if k < regs.len() {
                        assert(regs[k] == once[k]);
                    }
                }
            }
            let twice = once.push(d);
            assert(registrations_wf(twice)) by {
                assert forall|i: int, j: int| 0 <= i < twice.len() && 0 <= j < twice.len() && i != j implies twice[i] != twice[j] by {
                    if i < regs.len() && j < regs.len() {
                        assert(twice[i] == regs[i] && twice[j] == regs[j]);
                    } else if i < regs.len() {
                        assert(twice[i] == regs[i]);
                        assert(regs.contains(regs[i]));
                    } else if j < regs.len() {
                        assert(twice[j] == regs[j]);
                        assert(regs.contains(regs[j]));
                    }
                }
                assert forall|i: int| 0 <= i < twice.len() implies twice.contains(disconnect_report(#[trigger] twice[i].direction)) by {
                    assert(twice[twice.len() - 1] == d);
                    if i < regs.len() {
                        assert(twice[i] == regs[i]);
                        let k = choose|k: int| 0 <= k < regs.len() && regs[k] == disconnect_report(regs[i].direction);
                        assert(twice[k] == regs[k]);
                    }
                }
            }
            assert(twice.contains(r)) by {
                assert(twice[regs.len() as int] == r);
            }
            assert(twice.contains(d)) by {
                assert(twice[twice.len() - 1] == d);
            }
        }
    }
    let e = with_event(regs, kind, phase, direction);
    assert(e.contains(r) && e.contains(d)) by {
        if regs.contains(r) {
            let k = choose|k: int| 0 <= k < regs.len() && regs[k] == r;
            assert(once[k] == r);
            let o2 = with_registration(once, d);
            assert(o2[k] == r);
        } else {
            assert(once[regs.len() as int] == r);
            let o2 = with_registration(once, d);
            assert(o2[regs.len() as int] == r);
        }
        let o2 = with_registration(once, d);
        if !once.contains(d) {
            assert(o2[once.len() as int] == d);
        }
    }
}

/// Registering an event keeps what was registered before, first and in
/// order; afterwards the event and the report of the session's end in its
/// direction are both registered, and nothing else was added.
pub proof fn lemma_with_event_extends(regs: Seq<Registration>, kind: FilterKind, phase: Phase, direction: Direction)
    ensures
        ({
            let e = with_event(regs, kind, phase, direction);
            &&& regs.len() <= e.len() <= regs.len() + 2
            &&& e.take(regs.len() as int) == regs
            &&& e.contains(Registration { kind, phase, direction })
            &&& e.contains(disconnect_report(direction))
            &&& forall|x: Registration| #[trigger] e.contains(x) ==> regs.contains(x) || x == Registration {
                kind,
                phase,
                direction,
            } || x == disconnect_report(direction)
        }),
{
    let r = Registration { kind, phase, direction };
    let d = disconnect_report(direction);
    let once = with_registration(regs, r);
    let e = with_registration(once, d);
    assert(once.take(regs.len() as int) =~= regs);
    assert(e.take(once.len() as int) =~= once);
    assert(e.take(regs.len() as int) =~= regs);
    assert(once.contains(r)) by {
        if !regs.contains(r) {
            assert(once[regs.len() as int] == r);
        }
    }
    assert(e.contains(r)) by {
        let k = choose|k: int| 0 <= k < once.len() && once[k] == r;
        assert(e[k] == once[k]);
    }
    assert(e.contains(d)) by {
        if !once.contains(d) {
            assert(e[once.len() as int] == d);
        }
    }
    assert forall|x: Registration| #[trigger] e.contains(x) implies regs.contains(x) || x == r || x == d by {
        let k = choose|k: int| 0 <= k < e.len() && e[k] == x;
        if k < once.len() {
            assert(once[k] == x);
            if k < regs.len() {
                assert(regs[k] == x);
            }
        }
    }
}

/// The wire name of an event kind.
pub open spec fn kind_name(k: FilterKind) -> Seq<char> {
    match k {
        FilterKind::Filter => "filter"@,
        FilterKind::Report => "report"@,
    }
}

/// The wire name of a direction.
pub open spec fn direction_name(d: Direction) -> Seq<char> {
    match d {
        Direction::Incoming => "smtp-in"@,
        Direction::Outgoing => "smtp-out"@,
    }
}

/// The line that registers `r`: `register|<kind>|<direction>|<phase>`.
pub open spec fn registration_text(r: Registration) -> Seq<char> {
    let with_kind = "register|"@ + kind_name(r.kind);
    let with_direction = with_kind.push('|') + direction_name(r.direction);
    (with_direction.push('|') + phase_name(r.phase)).push('\n')
}

/// What a filter sends before any event: one line per registration, in
/// order, then `register|ready`.
pub open spec fn registration_output(regs: Seq<Registration>) -> Seq<Seq<char>> {
    regs.map_values(|r: Registration| registration_text(r)).push("register|ready\n"@)
}

/// Texts of a list of strings.
pub open spec fn texts(v: Seq<String>) -> Seq<Seq<char>> {
    v.map_values(|s: String| s@)
}

fn kind_str(k: FilterKind) -> (s: &'static str)
    ensures
        s@ == kind_name(k),
{
    match k {
        FilterKind::Filter => "filter",
        FilterKind::Report => "report",
    }
}

fn direction_str(d: Direction) -> (s: &'static str)
    ensures
        s@ == direction_name(d),
{
    match d {
        Direction::Incoming => "smtp-in",
        Direction::Outgoing => "smtp-out",
    }
}

fn registration_line(r: Registration) -> (s: String)
    ensures
        s@ == registration_text(r),
{
    let mut s = String::from_str("register|");
    s.append(kind_str(r.kind));
    push_char(&mut s, '|');
    s.append(direction_str(r.direction));
    push_char(&mut s, '|');
    s.append(r.phase.as_str());
    push_char(&mut s, '\n');
    s
}

impl<F: Filter> SmtpFilterRunner<F> {
    /// The lines that register the filter's events with the daemon, ending
    /// with `register|ready`; `None` when nothing is registered.
    pub fn registration_lines(&self) -> (r: Option<Vec<String>>)
        ensures
            r is None <==> self.registrations().len() == 0,
            r matches Some(lines) ==> texts(lines@) == registration_output(self.registrations()),
    {
        if self.registrations.list.len() == 0 {
            return None;
        }
        let mut lines: Vec<String> = Vec::new();
        let mut i: usize = 0;
        while i < self.registrations.list.len()
            invariant
                0 <= i <= self.registrations.list.len(),
                texts(lines@) == self.registrations.list@.take(i as int).map_values(|r: Registration| registration_text(r)),
            decreases self.registrations.list.len() - i,
        {
            let ghost before = lines@;
            let line = registration_line(self.registrations.list[i]);
            lines.push(line);
            assert(texts(lines@) =~= texts(before).push(line@));
            assert(self.registrations.list@.take(i + 1) =~= self.registrations.list@.take(i as int).push(self.registrations.list@[i as int]));
            assert(texts(lines@) =~= self.registrations.list@.take(i + 1).map_values(|r: Registration| registration_text(r)));
            i = i + 1;
        }
        let ghost before = lines@;
        let ready = String::from_str("register|ready\n");
        lines.push(ready);
        assert(texts(lines@) =~= texts(before).push(ready@));
        assert(self.registrations.list@.take(i as int) =~= self.registrations.list@);
        assert(texts(lines@) =~= registration_output(self.registrations()));
        Some(lines)
    }
}

/// The parameters of a connection event (`rdns|fcrdns|src|dst`, the last
/// field running to the end): the reverse name, the forward-confirmed
/// status and the two addresses with their ports. The messages for missing
/// fields differ between the filter request and the report.
pub open spec fn connect_params(p: Seq<char>, report: bool) -> Result<
    (Seq<char>, Status, AddressView, AddressView),
    Seq<char>,
> {
    match split_once(p, '|') {
        None => Err(if report { "missing fcrdns"@ } else { "missing fcrdns in connect"@ }),
        Some((rdns, rest)) => match split_once(rest, '|') {
            None => Err(if report { "missing src"@ } else { "missing src in connect"@ }),
            Some((fcrdns_str, rest)) => match split_once(rest, '|') {
                None => Err(if report { "missing dst"@ } else { "missing dst in connect"@ }),
                Some((src_str, dst_str)) => match status_of_name(fcrdns_str) {
                    None => Err("invalid fcrdns: "@ + fcrdns_str),
                    Some(fcrdns) => match spec_parse_address(src_str, true) {
                        Err(m) => Err(m),
                        Ok(src) => match spec_parse_address(dst_str, true) {
                            Err(m) => Err(m),
                            Ok(dst) => Ok((rdns, fcrdns, src, dst)),
                        },
                    },
                },
            },
        },
    }
}

/// The parameters of an authentication report (`username|result`, split at
/// the last `|`).
pub open spec fn auth_params(p: Seq<char>) -> Result<(Seq<char>, AuthStatus), Seq<char>> {
    match find_last(p, '|') {
        None => Err("missing auth status"@),
        Some(pos) => {
            let status_str = p.skip(pos + 1);
            match auth_status_of_name(status_str) {
                None => Err("invalid auth status: "@ + status_str),
                Some(status) => Ok((p.take(pos), status)),
            }
        },
    }
}

/// A hexadecimal message id.
pub open spec fn msgid_of(s: Seq<char>) -> Result<u32, Seq<char>> {
    match parse_uint(s, 16, u32_max()) {
        Err(k) => Err(int_error_msg("invalid msgid: "@, k)),
        Ok(id) => Ok(id as u32),
    }
}

/// The parameter of a transaction start or rollback: a message id, white
/// space around it ignored.
pub open spec fn msgid_param(p: Seq<char>) -> Result<u32, Seq<char>> {
    msgid_of(trim(p))
}

/// The parameters of a sender or recipient report: the message id, the
/// address and the status; before protocol 0.6 as `msgid|address|status`,
/// from 0.6 on as `msgid|status|address`.
pub open spec fn tx_address_params(p: Seq<char>, version_minor: u32) -> Result<(u32, Seq<char>, Status), Seq<char>> {
    match split_once(p, '|') {
        None => Err("missing address in tx-mail"@),
        Some((msgid_str, rest)) => match msgid_of(msgid_str) {
            Err(m) => Err(m),
            Ok(msgid) => match split_once(rest, '|') {
                None => Err("missing status in tx-mail"@),
                Some((first, second)) => {
                    let (address, status_str) = if version_minor < 6 {
                        (first, second)
                    } else {
                        (second, first)
                    };
                    match status_of_name(status_str) {
                        None => Err("invalid status: "@ + status_str),
                        Some(status) => Ok((msgid, address, status)),
                    }
                },
            },
        },
    }
}

/// The parameters of an envelope report: `msgid|evpid`, both hexadecimal.
pub open spec fn envelope_params(p: Seq<char>) -> Result<(u32, u64), Seq<char>> {
    match split_once(p, '|') {
        None => Err("missing evpid in tx-envelope"@),
        Some((msgid_str, evpid_str)) => match msgid_of(msgid_str) {
            Err(m) => Err(m),
            Ok(msgid) => match parse_uint(evpid_str, 16, u64_max()) {
                Err(k) => Err(int_error_msg("invalid evpid: "@, k)),
                Ok(evpid) => Ok((msgid, evpid as u64)),
            },
        },
    }
}

/// The parameters of a DATA outcome report: `msgid|status`.
pub open spec fn tx_data_params(p: Seq<char>) -> Result<(u32, Status), Seq<char>> {
    match split_once(p, '|') {
        None => Err("missing status in tx-data"@),
        Some((msgid_str, status_str)) => match msgid_of(msgid_str) {
            Err(m) => Err(m),
            Ok(msgid) => match status_of_name(status_str) {
                None => Err("invalid status: "@ + status_str),
                Some(status) => Ok((msgid, status)),
            },
        },
    }
}

/// The parameters of a commit report: `msgid|size`, the size in decimal.
pub open spec fn commit_params(p: Seq<char>) -> Result<(u32, usize), Seq<char>> {
    match split_once(p, '|') {
        None => Err("missing size in tx-commit"@),
        Some((msgid_str, size_str)) => match msgid_of(msgid_str) {
            Err(m) => Err(m),
            Ok(msgid) => match parse_uint(size_str, 10, usize::MAX as nat) {
                Err(k) => Err(int_error_msg("invalid msg size: "@, k)),
                Ok(size) => Ok((msgid, size as usize)),
            },
        },
    }
}

fn parse_connect(v: &Vec<char>, lo: usize, report: bool) -> (r: Result<(String, Status, Address, Address), ParseError>)
    requires
        lo <= v.len(),
    ensures
        match r {
            Ok((rdns, fcrdns, src, dst)) => connect_params(v@.subrange(lo as int, v.len() as int), report)
                == Ok::<_, Seq<char>>((rdns@, fcrdns, src@, dst@)),
            Err(e) => connect_params(v@.subrange(lo as int, v.len() as int), report) == Err::<
                (Seq<char>, Status, AddressView, AddressView),
                _,
            >(e.0@),
        },
{
    let n = v.len();
    let p1 = match split_at_char(v, lo, n, '|') {
        Some(i) => i,
        None => {
            return Err(ParseError(String::from_str(if report { "missing fcrdns" } else { "missing fcrdns in connect" })));
        },
    };
    let p2 = match split_at_char(v, p1 + 1, n, '|') {
        Some(i) => i,
        None => {
            return Err(ParseError(String::from_str(if report { "missing src" } else { "missing src in connect" })));
        },
    };
    let p3 = match split_at_char(v, p2 + 1, n, '|') {
        Some(i) => i,
        None => {
            return Err(ParseError(String::from_str(if report { "missing dst" } else { "missing dst in connect" })));
        },
    };
    let fcrdns = match status_from_range(v, p1 + 1, p2) {
        Some(s) => s,
        None => {
            return Err(ParseError(concat_range("invalid fcrdns: ", v, p1 + 1, p2)));
        },
    };
    let src = match parse_address_range(v, p2 + 1, p3, true) {
        Ok(a) => a,
        Err(e) => {
            return Err(e);
        },
    };
    let dst = match parse_address_range(v, p3 + 1, n, true) {
        Ok(a) => a,
        Err(e) => {
            return Err(e);
        },
    };
    Ok((string_of_range(v, lo, p1), fcrdns, src, dst))
}

fn parse_filter_connect(v: &Vec<char>, lo: usize) -> (r: Result<(String, Status, Address, Address), ParseError>)
    requires
        lo <= v.len(),
    ensures
        match r {
            Ok((rdns, fcrdns, src, dst)) => connect_params(v@.subrange(lo as int, v.len() as int), false)
                == Ok::<_, Seq<char>>((rdns@, fcrdns, src@, dst@)),
            Err(e) => connect_params(v@.subrange(lo as int, v.len() as int), false) == Err::<
                (Seq<char>, Status, AddressView, AddressView),
                _,
            >(e.0@),
        },
{
    parse_connect(v, lo, false)
}

fn parse_report_link_connect(v: &Vec<char>, lo: usize) -> (r: Result<(String, Status, Address, Address), ParseError>)
    requires
        lo <= v.len(),
    ensures
        match r {
            Ok((rdns, fcrdns, src, dst)) => connect_params(v@.subrange(lo as int, v.len() as int), true)
                == Ok::<_, Seq<char>>((rdns@, fcrdns, src@, dst@)),
            Err(e) => connect_params(v@.subrange(lo as int, v.len() as int), true) == Err::<
                (Seq<char>, Status, AddressView, AddressView),
                _,
            >(e.0@),
        },
{
    parse_connect(v, lo, true)
}

fn parse_report_link_auth(v: &Vec<char>, lo: usize) -> (r: Result<(String, AuthStatus), ParseError>)
    requires
        lo <= v.len(),
    ensures
        match r {
            Ok((username, status)) => auth_params(v@.subrange(lo as int, v.len() as int)) == Ok::<_, Seq<char>>(
                (username@, status),
            ),
            Err(e) => auth_params(v@.subrange(lo as int, v.len() as int)) == Err::<(Seq<char>, AuthStatus), _>(e.0@),
        },
{
    let n = v.len();
    let ghost s = v@.subrange(lo as int, n as int);
    let pos = match find_char_last(v, lo, n, '|') {
        Some(i) => i,
        None => {
            return Err(ParseError(String::from_str("missing auth status")));
        },
    };
    assert(s.skip(pos - lo + 1) =~= v@.subrange(pos + 1, n as int));
    assert(s.take(pos - lo) =~= v@.subrange(lo as int, pos as int));
    let status = match auth_status_from_range(v, pos + 1, n) {
        Some(st) => st,
        None => {
            return Err(ParseError(concat_range("invalid auth status: ", v, pos + 1, n)));
        },
    };
    Ok((string_of_range(v, lo, pos), status))
}

fn msgid_range(v: &Vec<char>, lo: usize, hi: usize) -> (r: Result<u32, ParseError>)
    requires
        lo <= hi <= v.len(),
    ensures
        match r {
            Ok(id) => msgid_of(v@.subrange(lo as int, hi as int)) == Ok::<u32, Seq<char>>(id),
            Err(e) => msgid_of(v@.subrange(lo as int, hi as int)) == Err::<u32, _>(e.0@),
        },
{
    match parse_uint_range(v, lo, hi, 16, 0xffff_ffff) {
        Ok(id) => Ok(id as u32),
        Err(k) => Err(ParseError(concat_strs("invalid msgid: ", int_error_message(k)))),
    }
}

fn parse_msgid(v: &Vec<char>, lo: usize) -> (r: Result<u32, ParseError>)
    requires
        lo <= v.len(),
    ensures
        match r {
            Ok(id) => msgid_param(v@.subrange(lo as int, v.len() as int)) == Ok::<u32, Seq<char>>(id),
            Err(e) => msgid_param(v@.subrange(lo as int, v.len() as int)) == Err::<u32, _>(e.0@),
        },
{
    let (a, b) = trim_range(v, lo, v.len());
    msgid_range(v, a, b)
}

fn parse_report_tx_mail(v: &Vec<char>, lo: usize, version_minor: u32) -> (r: Result<(u32, String, Status), ParseError>)
    requires
        lo <= v.len(),
    ensures
        match r {
            Ok((msgid, address, status)) => tx_address_params(v@.subrange(lo as int, v.len() as int), version_minor)
                == Ok::<_, Seq<char>>((msgid, address@, status)),
            Err(e) => tx_address_params(v@.subrange(lo as int, v.len() as int), version_minor) == Err::<
                (u32, Seq<char>, Status),
                _,
            >(e.0@),
        },
{
    let n = v.len();
    let p1 = match split_at_char(v, lo, n, '|') {
        Some(i) => i,
        None => {
            return Err(ParseError(String::from_str("missing address in tx-mail")));
        },
    };
    let msgid = match msgid_range(v, lo, p1) {
        Ok(id) => id,
        Err(e) => {
            return Err(e);
        },
    };
    let p2 = match split_at_char(v, p1 + 1, n, '|') {
        Some(i) => i,
        None => {
            return Err(ParseError(String::from_str("missing status in tx-mail")));
        },
    };
    let (a_lo, a_hi, s_lo, s_hi) = if version_minor < 6 {
        (p1 + 1, p2, p2 + 1, n)
    } else {
        (p2 + 1, n, p1 + 1, p2)
    };
    let status = match status_from_range(v, s_lo, s_hi) {
        Some(st) => st,
        None => {
            return Err(ParseError(concat_range("invalid status: ", v, s_lo, s_hi)));
        },
    };
    Ok((msgid, string_of_range(v, a_lo, a_hi), status))
}

fn parse_report_tx_rcpt(v: &Vec<char>, lo: usize, version_minor: u32) -> (r: Result<(u32, String, Status), ParseError>)
    requires
        lo <= v.len(),
    ensures
        match r {
            Ok((msgid, address, status)) => tx_address_params(v@.subrange(lo as int, v.len() as int), version_minor)
                == Ok::<_, Seq<char>>((msgid, address@, status)),
            Err(e) => tx_address_params(v@.subrange(lo as int, v.len() as int), version_minor) == Err::<
                (u32, Seq<char>, Status),
                _,
            >(e.0@),
        },
{
    parse_report_tx_mail(v, lo, version_minor)
}

fn parse_report_tx_envelope(v: &Vec<char>, lo: usize) -> (r: Result<(u32, u64), ParseError>)
    requires
        lo <= v.len(),
    ensures
        match r {
            Ok(x) => envelope_params(v@.subrange(lo as int, v.len() as int)) == Ok::<_, Seq<char>>(x),
            Err(e) => envelope_params(v@.subrange(lo as int, v.len() as int)) == Err::<(u32, u64), _>(e.0@),
        },
{
    let n = v.len();
    let p = match split_at_char(v, lo, n, '|') {
        Some(i) => i,
        None => {
            return Err(ParseError(String::from_str("missing evpid in tx-envelope")));
        },
    };
    let msgid = match msgid_range(v, lo, p) {
        Ok(id) => id,
        Err(e) => {
            return Err(e);
        },
    };
    match parse_uint_range(v, p + 1, n, 16, 0xffff_ffff_ffff_ffff) {
        Ok(evpid) => Ok((msgid, evpid)),
        Err(k) => Err(ParseError(concat_strs("invalid evpid: ", int_error_message(k)))),
    }
}

fn parse_report_tx_data(v: &Vec<char>, lo: usize) -> (r: Result<(u32, Status), ParseError>)
    requires
        lo <= v.len(),
    ensures
        match r {
            Ok(x) => tx_data_params(v@.subrange(lo as int, v.len() as int)) == Ok::<_, Seq<char>>(x),
            Err(e) => tx_data_params(v@.subrange(lo as int, v.len() as int)) == Err::<(u32, Status), _>(e.0@),
        },
{
    let n = v.len();
    let p = match split_at_char(v, lo, n, '|') {
        Some(i) => i,
        None => {
            return Err(ParseError(String::from_str("missing status in tx-data")));
        },
    };
    let msgid = match msgid_range(v, lo, p) {
        Ok(id) => id,
        Err(e) => {
            return Err(e);
        },
    };
    match status_from_range(v, p + 1, n) {
        Some(st) => Ok((msgid, st)),
        None => Err(ParseError(concat_range("invalid status: ", v, p + 1, n))),
    }
}

fn parse_report_tx_commit(v: &Vec<char>, lo: usize) -> (r: Result<(u32, usize), ParseError>)
    requires
        lo <= v.len(),
    ensures
        match r {
            Ok(x) => commit_params(v@.subrange(lo as int, v.len() as int)) == Ok::<_, Seq<char>>(x),
            Err(e) => commit_params(v@.subrange(lo as int, v.len() as int)) == Err::<(u32, usize), _>(e.0@),
        },
{
    let n = v.len();
    let p = match split_at_char(v, lo, n, '|') {
        Some(i) => i,
        None => {
            return Err(ParseError(String::from_str("missing size in tx-commit")));
        },
    };
    let msgid = match msgid_range(v, lo, p) {
        Ok(id) => id,
        Err(e) => {
            return Err(e);
        },
    };
    match parse_uint_range(v, p + 1, n, 10, usize::MAX as u64) {
        Ok(size) => Ok((msgid, size as usize)),
        Err(k) => Err(ParseError(concat_strs("invalid msg size: ", int_error_message(k)))),
    }
}

/// What the parameters of an event read as, by value.
pub enum EventParamsView {
    /// Parameters that are passed on as they stand.
    Plain,
    Connect(Seq<char>, Status, AddressView, AddressView),
    Auth(Seq<char>, AuthStatus),
    MsgId(u32),
    TxAddress(u32, Seq<char>, Status),
    Envelope(u32, u64),
    TxData(u32, Status),
    Commit(u32, usize),
}

/// What the parameters of an event read as.
pub enum EventParams {
    /// Parameters that are passed on as they stand.
    Plain,
    Connect(String, Status, Address, Address),
    Auth(String, AuthStatus),
    MsgId(u32),
    TxAddress(u32, String, Status),
    Envelope(u32, u64),
    TxData(u32, Status),
    Commit(u32, usize),
}

impl View for EventParams {
    type V = EventParamsView;

    open spec fn view(&self) -> EventParamsView {
        match self {
            EventParams::Plain => EventParamsView::Plain,
            EventParams::Connect(a, b, c, d) => EventParamsView::Connect(a@, *b, c@, d@),
            EventParams::Auth(a, b) => EventParamsView::Auth(a@, *b),
            EventParams::MsgId(a) => EventParamsView::MsgId(*a),
            EventParams::TxAddress(a, b, c) => EventParamsView::TxAddress(*a, b@, *c),
            EventParams::Envelope(a, b) => EventParamsView::Envelope(*a, *b),
            EventParams::TxData(a, b) => EventParamsView::TxData(*a, *b),
            EventParams::Commit(a, b) => EventParamsView::Commit(*a, *b),
        }
    }
}

/// What the parameters `p` of an event of `kind`/`phase` read as (at
/// protocol minor version `version_minor`), or why they do not read.
pub open spec fn event_params(kind: FilterKind, phase: Phase, version_minor: u32, p: Seq<char>) -> Result<EventParamsView, Seq<char>> {
    match (kind, phase) {
        (FilterKind::Filter, Phase::Connect) => match connect_params(p, false) {
            Err(m) => Err(m),
            Ok((a, b, c, d)) => Ok(EventParamsView::Connect(a, b, c, d)),
        },
        (FilterKind::Report, Phase::LinkConnect) => match connect_params(p, true) {
            Err(m) => Err(m),
            Ok((a, b, c, d)) => Ok(EventParamsView::Connect(a, b, c, d)),
        },
        (FilterKind::Report, Phase::LinkAuth) => match auth_params(p) {
            Err(m) => Err(m),
            Ok((a, b)) => Ok(EventParamsView::Auth(a, b)),
        },
        (FilterKind::Report, Phase::TxBegin) | (FilterKind::Report, Phase::TxRollback) => match msgid_param(p) {
            Err(m) => Err(m),
            Ok(a) => Ok(EventParamsView::MsgId(a)),
        },
        (FilterKind::Report, Phase::TxMail) | (FilterKind::Report, Phase::TxRcpt) => match tx_address_params(p, version_minor) {
            Err(m) => Err(m),
            Ok((a, b, c)) => Ok(EventParamsView::TxAddress(a, b, c)),
        },
        (FilterKind::Report, Phase::TxEnvelope) => match envelope_params(p) {
            Err(m) => Err(m),
            Ok((a, b)) => Ok(EventParamsView::Envelope(a, b)),
        },
        (FilterKind::Report, Phase::TxData) => match tx_data_params(p) {
            Err(m) => Err(m),
            Ok((a, b)) => Ok(EventParamsView::TxData(a, b)),
        },
        (FilterKind::Report, Phase::TxCommit) => match commit_params(p) {
            Err(m) => Err(m),
            Ok((a, b)) => Ok(EventParamsView::Commit(a, b)),
        },
        _ => Ok(EventParamsView::Plain),
    }
}

/// The session as the filter's callback sees it after an event of
/// `kind`/`phase` with parameters `p` that read as `pv`: a connection sets
/// the reverse name, its status and both addresses; a greeting, an identity
/// or a TLS report sets that text; a passed authentication sets the user; a
/// transaction start sets the message id, a sender the sender, a recipient
/// adds a recipient, an envelope report the envelope id.
pub open spec fn session_seen(base: crate::types::SessionView, kind: FilterKind, phase: Phase, p: Seq<char>, pv: EventParamsView) -> crate::types::SessionView {
    match pv {
        EventParamsView::Connect(rdns, fcrdns, src, dst) => crate::types::SessionView {
            rdns: Some(rdns),
            fcrdns,
            src: Some(src),
            dst: Some(dst),
            ..base
        },
        EventParamsView::Auth(username, status) => if status == AuthStatus::Pass {
            crate::types::SessionView { username: Some(username), ..base }
        } else {
            base
        },
        EventParamsView::MsgId(msgid) => if phase == Phase::TxBegin {
            crate::types::SessionView { msgid: Some(msgid), ..base }
        } else {
            base
        },
        EventParamsView::TxAddress(_, address, _) => if phase == Phase::TxMail {
            crate::types::SessionView { mailfrom: Some(address), ..base }
        } else {
            crate::types::SessionView { rcptto: base.rcptto.push(address), ..base }
        },
        EventParamsView::Envelope(_, evpid) => crate::types::SessionView { evpid: Some(evpid), ..base },
        EventParamsView::Plain => if kind == FilterKind::Report && phase == Phase::LinkGreeting {
            crate::types::SessionView { greeting: Some(p), ..base }
        } else if kind == FilterKind::Report && phase == Phase::LinkIdentify {
            crate::types::SessionView { identity: Some(p), ..base }
        } else if kind == FilterKind::Report && phase == Phase::LinkTls {
            crate::types::SessionView { ciphers: Some(p), ..base }
        } else {
            base
        },
        _ => base,
    }
}

/// The session kept after the event: none once the session has ended; the
/// session with its transaction forgotten after a commit or a rollback;
/// otherwise the session the callback saw.
pub open spec fn session_kept(seen: crate::types::SessionView, kind: FilterKind, phase: Phase) -> Option<crate::types::SessionView> {
    if kind == FilterKind::Report && phase == Phase::LinkDisconnect {
        None
    } else if kind == FilterKind::Report && (phase == Phase::TxCommit || phase == Phase::TxRollback) {
        Some(crate::types::without_transaction(seen))
    } else {
        Some(seen)
    }
}

fn parse_params(v: &Vec<char>, lo: usize, kind: FilterKind, phase: Phase, version_minor: u32) -> (r: Result<EventParams, ParseError>)
    requires
        lo <= v.len(),
    ensures
        match r {
            Ok(ps) => event_params(kind, phase, version_minor, v@.subrange(lo as int, v.len() as int)) == Ok::<
                _,
                Seq<char>,
            >(ps@),
            Err(e) => event_params(kind, phase, version_minor, v@.subrange(lo as int, v.len() as int)) == Err::<
                EventParamsView,
                _,
            >(e.0@),
        },
{
    match (kind, phase) {
        (FilterKind::Filter, Phase::Connect) => match parse_filter_connect(v, lo) {
            Ok((a, b, c, d)) => Ok(EventParams::Connect(a, b, c, d)),
            Err(e) => Err(e),
        },
        (FilterKind::Report, Phase::LinkConnect) => match parse_report_link_connect(v, lo) {
            Ok((a, b, c, d)) => Ok(EventParams::Connect(a, b, c, d)),
            Err(e) => Err(e),
        },
        (FilterKind::Report, Phase::LinkAuth) => match parse_report_link_auth(v, lo) {
            Ok((a, b)) => Ok(EventParams::Auth(a, b)),
            Err(e) => Err(e),
        },
        (FilterKind::Report, Phase::TxBegin) | (FilterKind::Report, Phase::TxRollback) => match parse_msgid(v, lo) {
            Ok(a) => Ok(EventParams::MsgId(a)),
            Err(e) => Err(e),
        },
        (FilterKind::Report, Phase::TxMail) => match parse_report_tx_mail(v, lo, version_minor) {
            Ok((a, b, c)) => Ok(EventParams::TxAddress(a, b, c)),
            Err(e) => Err(e),
        },
        (FilterKind::Report, Phase::TxRcpt) => match parse_report_tx_rcpt(v, lo, version_minor) {
            Ok((a, b, c)) => Ok(EventParams::TxAddress(a, b, c)),
            Err(e) => Err(e),
        },
        (FilterKind::Report, Phase::TxEnvelope) => match parse_report_tx_envelope(v, lo) {
            Ok((a, b)) => Ok(EventParams::Envelope(a, b)),
            Err(e) => Err(e),
        },
        (FilterKind::Report, Phase::TxData) => match parse_report_tx_data(v, lo) {
            Ok((a, b)) => Ok(EventParams::TxData(a, b)),
            Err(e) => Err(e),
        },
        (FilterKind::Report, Phase::TxCommit) => match parse_report_tx_commit(v, lo) {
            Ok((a, b)) => Ok(EventParams::Commit(a, b)),
            Err(e) => Err(e),
        },
        _ => Ok(EventParams::Plain),
    }
}

/// The action text that answers a request with `r`: `proceed`, `junk`,
/// `reject|<code> <message>`, `reject|<code> <class>.<subject>.<detail>
/// <message>`, the same two forms of `disconnect|`, or `rewrite|<value>`;
/// none for `DataLine`, which answers no request.
pub open spec fn response_action(r: FilterResponse) -> Option<Seq<char>> {
    match r {
        FilterResponse::Proceed => Some("proceed"@),
        FilterResponse::Junk => Some("junk"@),
        FilterResponse::Reject { code, message } => Some(("reject|"@ + dec_text(code as nat)).push(' ') + message@),
        FilterResponse::RejectEnhanced { code, class, subject, detail, message } => Some(
            enhanced_action("reject|"@, code, class, subject, detail, message@),
        ),
        FilterResponse::Disconnect { code, message } => Some(("disconnect|"@ + dec_text(code as nat)).push(' ') + message@),
        FilterResponse::DisconnectEnhanced { code, class, subject, detail, message } => Some(
            enhanced_action("disconnect|"@, code, class, subject, detail, message@),
        ),
        FilterResponse::Rewrite(value) => Some("rewrite|"@ + value@),
        FilterResponse::DataLine(_) => None,
    }
}

/// `<verb><code> <class>.<subject>.<detail> <message>`.
pub open spec fn enhanced_action(verb: Seq<char>, code: u16, class: u8, subject: u16, detail: u16, message: Seq<char>) -> Seq<char> {
    let with_code = (verb + dec_text(code as nat)).push(' ');
    let with_class = (with_code + dec_text(class as nat)).push('.');
    let with_subject = (with_class + dec_text(subject as nat)).push('.');
    (with_subject + dec_text(detail as nat)).push(' ') + message
}

/// The message of the error that a `DataLine` answer to a request gives.
pub open spec fn misplaced_data_line() -> Seq<char> {
    "DataLine response should not be used here"@
}

/// The reply lines that answer request `token` of session `reqid` with `r`,
/// or the error when `r` answers no request.
pub open spec fn reply_outcome(reqid: u64, token: u64, r: FilterResponse) -> Result<Seq<Seq<char>>, Seq<char>> {
    match response_action(r) {
        Some(action) => Ok(seq![result_text(reqid, token, action)]),
        None => Err(misplaced_data_line()),
    }
}

fn push_enhanced(s: &mut String, code: u16, class: u8, subject: u16, detail: u16, message: &String)
    ensures
        final(s)@ == enhanced_action(old(s)@, code, class, subject, detail, message@),
{
    push_dec(s, code as u64);
    push_char(s, ' ');
    push_dec(s, class as u64);
    push_char(s, '.');
    push_dec(s, subject as u64);
    push_char(s, '.');
    push_dec(s, detail as u64);
    push_char(s, ' ');
    s.append(message.as_str());
}

/// The reply that answers request `token` of session `reqid` with
/// `response`; an error for a `DataLine` response.
pub fn write_filter_response(reqid: u64, token: u64, response: &FilterResponse) -> (r: Result<String, ParseError>)
    ensures
        match response_action(*response) {
            Some(action) => r matches Ok(s) && s@ == result_text(reqid, token, action),
            None => r matches Err(e) && e.0@ == misplaced_data_line(),
        },
{
    let action: String = match response {
        FilterResponse::Proceed => String::from_str("proceed"),
        FilterResponse::Junk => String::from_str("junk"),
        FilterResponse::Reject { code, message } => {
            let mut s = String::from_str("reject|");
            push_dec(&mut s, *code as u64);
            push_char(&mut s, ' ');
            s.append(message.as_str());
            s
        },
        FilterResponse::RejectEnhanced { code, class, subject, detail, message } => {
            let mut s = String::from_str("reject|");
            push_enhanced(&mut s, *code, *class, *subject, *detail, message);
            s
        },
        FilterResponse::Disconnect { code, message } => {
            let mut s = String::from_str("disconnect|");
            push_dec(&mut s, *code as u64);
            push_char(&mut s, ' ');
            s.append(message.as_str());
            s
        },
        FilterResponse::DisconnectEnhanced { code, class, subject, detail, message } => {
            let mut s = String::from_str("disconnect|");
            push_enhanced(&mut s, *code, *class, *subject, *detail, message);
            s
        },
        FilterResponse::Rewrite(value) => concat_strs("rewrite|", value.as_str()),
        FilterResponse::DataLine(_) => {
            return Err(ParseError(String::from_str("DataLine response should not be used here")));
        },
    };
    Ok(format_filter_result(reqid, token, action.as_str()))
}

fn copy_address(a: &Address) -> (r: Address)
    ensures
        r@ == a@,
{
    match a {
        Address::Ip(s) => Address::Ip(*s),
        Address::Unix(t) => Address::Unix(t.clone()),
    }
}

fn copy_text(t: &String) -> (r: String)
    ensures
        r@ == t@,
{
    t.clone()
}

fn apply_params(session: &mut Session, kind: FilterKind, phase: Phase, params: &str, ps: &EventParams)
    ensures
        final(session)@ == session_seen(old(session)@, kind, phase, params@, ps@),
{
    match ps {
        EventParams::Connect(rdns, fcrdns, src, dst) => {
            session.rdns = Some(copy_text(rdns));
            session.fcrdns = *fcrdns;
            session.src = Some(copy_address(src));
            session.dst = Some(copy_address(dst));
        },
        EventParams::Auth(username, status) => {
            if *status == AuthStatus::Pass {
                session.username = Some(copy_text(username));
            }
        },
        EventParams::MsgId(msgid) => {
            if phase == Phase::TxBegin {
                session.msgid = Some(*msgid);
            }
        },
        EventParams::TxAddress(_, address, _) => {
            if phase == Phase::TxMail {
                session.mailfrom = Some(copy_text(address));
            } else {
                let ghost before = session.rcptto@;
                session.rcptto.push(copy_text(address));
                assert(session.rcptto@.map_values(|s: String| s@) =~= before.map_values(|s: String| s@).push(
                    address@,
                ));
            }
        },
        EventParams::Envelope(_, evpid) => {
            session.evpid = Some(*evpid);
        },
        EventParams::Plain => {
            if kind == FilterKind::Report && phase == Phase::LinkGreeting {
                session.greeting = Some(String::from_str(params));
            } else if kind == FilterKind::Report && phase == Phase::LinkIdentify {
                session.identity = Some(String::from_str(params));
            } else if kind == FilterKind::Report && phase == Phase::LinkTls {
                session.ciphers = Some(String::from_str(params));
            }
        },
        _ => {},
    }
}

/// A request the filter answers with one reply.
pub open spec fn is_decision(kind: FilterKind, phase: Phase) -> bool {
    kind == FilterKind::Filter && (phase == Phase::Connect || phase == Phase::Helo || phase == Phase::Ehlo
        || phase == Phase::StartTls || phase == Phase::Auth || phase == Phase::MailFrom || phase
        == Phase::RcptTo || phase == Phase::Data || phase == Phase::Reset || phase == Phase::Quit
        || phase == Phase::Noop || phase == Phase::Help || phase == Phase::Wiz || phase == Phase::Commit)
}

/// The token an event's replies carry: its own, or 0 for a report.
pub open spec fn reply_token(event: Event) -> u64 {
    match event.token {
        Some(t) => t,
        None => 0,
    }
}

/// The lines of an output, or its error message.
pub open spec fn lines_result(r: Result<Vec<String>, ParseError>) -> Result<Seq<Seq<char>>, Seq<char>> {
    match r {
        Ok(lines) => Ok(texts(lines@)),
        Err(e) => Err(e.0@),
    }
}

/// The replies that send message lines `texts` for request `token` of
/// session `reqid`, in order.
pub open spec fn dataline_texts(reqid: u64, token: u64, texts: Seq<Seq<char>>) -> Seq<Seq<char>> {
    texts.map_values(|l: Seq<char>| dataline_text(reqid, token, l))
}

/// The lines are the replies that send some message lines for request
/// `token` of session `reqid`.
pub open spec fn data_lines_fit(reqid: u64, token: u64, lines: Seq<Seq<char>>) -> bool {
    exists|sent: Seq<Seq<char>>| #[trigger] dataline_texts(reqid, token, sent) == lines
}

/// The output of handling an event, whatever the filter answered: for a
/// request, the reply line of some answer (or the error of a `DataLine`
/// answer); for a message line, replacement lines of session `reqid` and
/// request `token`, as many as the filter gave; for anything else, nothing.
pub open spec fn output_fits(reqid: u64, token: u64, kind: FilterKind, phase: Phase, r: Result<Vec<String>, ParseError>) -> bool {
    if is_decision(kind, phase) {
        exists|resp: FilterResponse| lines_result(r) == #[trigger] reply_outcome(reqid, token, resp)
    } else if kind == FilterKind::Filter && phase == Phase::DataLine {
        r matches Ok(lines) && data_lines_fit(reqid, token, texts(lines@))
    } else {
        r matches Ok(lines) && lines.len() == 0
    }
}

fn reply(reqid: u64, token: u64, response: FilterResponse) -> (r: Result<Vec<String>, ParseError>)
    ensures
        lines_result(r) == reply_outcome(reqid, token, response),
{
    match write_filter_response(reqid, token, &response) {
        Ok(line) => {
            let mut lines: Vec<String> = Vec::new();
            lines.push(line);
            assert(texts(lines@) =~= seq![line@]);
            Ok(lines)
        },
        Err(e) => Err(e),
    }
}

fn data_lines(reqid: u64, token: u64, given: &Vec<String>) -> (r: Vec<String>)
    ensures
        r.len() == given.len(),
        forall|i: int| 0 <= i < r.len() ==> texts(r@)[i] == dataline_text(reqid, token, given@[i]@),
        data_lines_fit(reqid, token, texts(r@)),
        texts(r@) == dataline_texts(reqid, token, texts(given@)),
{
    let mut out: Vec<String> = Vec::new();
    let mut i: usize = 0;
    while i < given.len()
        invariant
            0 <= i <= given.len(),
            out.len() == i,
            forall|j: int| 0 <= j < i ==> texts(out@)[j] == dataline_text(reqid, token, given@[j]@),
        decreases given.len() - i,
    {
        let ghost before = out@;
        let line = format_filter_dataline(reqid, token, given[i].as_str());
        out.push(line);
        assert(texts(out@) =~= texts(before).push(line@));
        i = i + 1;
    }
    assert(dataline_texts(reqid, token, texts(given@)) =~= texts(out@));
    out
}

/// One call of a filter callback, with the arguments it is given besides
/// the session: one variant per callback of `Filter`, or `Nothing` for an
/// event that goes to no callback.
pub enum Callback {
    FilterConnect(String, Status, Address, Address),
    FilterHelo(String),
    FilterEhlo(String),
    FilterStartTls,
    FilterAuth(String),
    FilterMailFrom(String),
    FilterRcptTo(String),
    FilterData,
    FilterDataLine(String),
    FilterRset,
    FilterQuit,
    FilterNoop,
    FilterHelp,
    FilterWiz,
    FilterCommit,
    LinkConnect(Direction, String, Status, Address, Address),
    LinkDisconnect(Direction),
    LinkGreeting(Direction, String),
    LinkIdentify(Direction, String),
    LinkTls(Direction, String),
    LinkAuth(Direction, String, AuthStatus),
    TxBegin(Direction, u32),
    TxMail(Direction, u32, String, Status),
    TxRcpt(Direction, u32, String, Status),
    TxEnvelope(Direction, u32, u64),
    TxData(Direction, u32, Status),
    TxCommit(Direction, u32, usize),
    TxRollback(Direction, u32),
    ProtocolClient(Direction, String),
    ProtocolServer(Direction, String),
    FilterResponse(Direction, String),
    Timeout(Direction),
    Nothing,
}

/// A callback call with its texts and addresses taken by value.
pub enum CallbackView {
    FilterConnect(Seq<char>, Status, AddressView, AddressView),
    FilterHelo(Seq<char>),
    FilterEhlo(Seq<char>),
    FilterStartTls,
    FilterAuth(Seq<char>),
    FilterMailFrom(Seq<char>),
    FilterRcptTo(Seq<char>),
    FilterData,
    FilterDataLine(Seq<char>),
    FilterRset,
    FilterQuit,
    FilterNoop,
    FilterHelp,
    FilterWiz,
    FilterCommit,
    LinkConnect(Direction, Seq<char>, Status, AddressView, AddressView),
    LinkDisconnect(Direction),
    LinkGreeting(Direction, Seq<char>),
    LinkIdentify(Direction, Seq<char>),
    LinkTls(Direction, Seq<char>),
    LinkAuth(Direction, Seq<char>, AuthStatus),
    TxBegin(Direction, u32),
    TxMail(Direction, u32, Seq<char>, Status),
    TxRcpt(Direction, u32, Seq<char>, Status),
    TxEnvelope(Direction, u32, u64),
    TxData(Direction, u32, Status),
    TxCommit(Direction, u32, usize),
    TxRollback(Direction, u32),
    ProtocolClient(Direction, Seq<char>),
    ProtocolServer(Direction, Seq<char>),
    FilterResponse(Direction, Seq<char>),
    Timeout(Direction),
    Nothing,
}

impl View for Callback {
    type V = CallbackView;

    open spec fn view(&self) -> CallbackView {
        match self {
            Callback::FilterConnect(a, b, c, d) => CallbackView::FilterConnect(a@, *b, c@, d@),
            Callback::FilterHelo(a) => CallbackView::FilterHelo(a@),
            Callback::FilterEhlo(a) => CallbackView::FilterEhlo(a@),
            Callback::FilterStartTls => CallbackView::FilterStartTls,
            Callback::FilterAuth(a) => CallbackView::FilterAuth(a@),
            Callback::FilterMailFrom(a) => CallbackView::FilterMailFrom(a@),
            Callback::FilterRcptTo(a) => CallbackView::FilterRcptTo(a@),
            Callback::FilterData => CallbackView::FilterData,
            Callback::FilterDataLine(a) => CallbackView::FilterDataLine(a@),
            Callback::FilterRset => CallbackView::FilterRset,
            Callback::FilterQuit => CallbackView::FilterQuit,
            Callback::FilterNoop => CallbackView::FilterNoop,
            Callback::FilterHelp => CallbackView::FilterHelp,
            Callback::FilterWiz => CallbackView::FilterWiz,
            Callback::FilterCommit => CallbackView::FilterCommit,
            Callback::LinkConnect(d, a, b, c, e) => CallbackView::LinkConnect(*d, a@, *b, c@, e@),
            Callback::LinkDisconnect(d) => CallbackView::LinkDisconnect(*d),
            Callback::LinkGreeting(d, a) => CallbackView::LinkGreeting(*d, a@),
            Callback::LinkIdentify(d, a) => CallbackView::LinkIdentify(*d, a@),
            Callback::LinkTls(d, a) => CallbackView::LinkTls(*d, a@),
            Callback::LinkAuth(d, a, b) => CallbackView::LinkAuth(*d, a@, *b),
            Callback::TxBegin(d, m) => CallbackView::TxBegin(*d, *m),
            Callback::TxMail(d, m, a, b) => CallbackView::TxMail(*d, *m, a@, *b),
            Callback::TxRcpt(d, m, a, b) => CallbackView::TxRcpt(*d, *m, a@, *b),
            Callback::TxEnvelope(d, m, e) => CallbackView::TxEnvelope(*d, *m, *e),
            Callback::TxData(d, m, b) => CallbackView::TxData(*d, *m, *b),
            Callback::TxCommit(d, m, n) => CallbackView::TxCommit(*d, *m, *n),
            Callback::TxRollback(d, m) => CallbackView::TxRollback(*d, *m),
            Callback::ProtocolClient(d, a) => CallbackView::ProtocolClient(*d, a@),
            Callback::ProtocolServer(d, a) => CallbackView::ProtocolServer(*d, a@),
            Callback::FilterResponse(d, a) => CallbackView::FilterResponse(*d, a@),
            Callback::Timeout(d) => CallbackView::Timeout(*d),
            Callback::Nothing => CallbackView::Nothing,
        }
    }
}

/// The callback that an event of `kind`/`phase` in direction `d`, with
/// parameters `p` that read as `pv`, goes to, and what it is given: a
/// request's callback gets the raw parameters (a connection request its
/// parsed fields); a report's callback gets the direction and the raw
/// parameters or what they read as; a message line goes to
/// `on_filter_data_line` with the line.
pub open spec fn callback_of(kind: FilterKind, phase: Phase, d: Direction, p: Seq<char>, pv: EventParamsView) -> CallbackView {
    match kind {
        FilterKind::Filter => match phase {
            Phase::Connect => match pv {
                EventParamsView::Connect(a, b, c, e) => CallbackView::FilterConnect(a, b, c, e),
                _ => CallbackView::Nothing,
            },
            Phase::Helo => CallbackView::FilterHelo(p),
            Phase::Ehlo => CallbackView::FilterEhlo(p),
            Phase::StartTls => CallbackView::FilterStartTls,
            Phase::Auth => CallbackView::FilterAuth(p),
            Phase::MailFrom => CallbackView::FilterMailFrom(p),
            Phase::RcptTo => CallbackView::FilterRcptTo(p),
            Phase::Data => CallbackView::FilterData,
            Phase::DataLine => CallbackView::FilterDataLine(p),
            Phase::Reset => CallbackView::FilterRset,
            Phase::Quit => CallbackView::FilterQuit,
            Phase::Noop => CallbackView::FilterNoop,
            Phase::Help => CallbackView::FilterHelp,
            Phase::Wiz => CallbackView::FilterWiz,
            Phase::Commit => CallbackView::FilterCommit,
            _ => CallbackView::Nothing,
        },
        FilterKind::Report => match (phase, pv) {
            (Phase::LinkConnect, EventParamsView::Connect(a, b, c, e)) => CallbackView::LinkConnect(d, a, b, c, e),
            (Phase::LinkDisconnect, _) => CallbackView::LinkDisconnect(d),
            (Phase::LinkGreeting, _) => CallbackView::LinkGreeting(d, p),
            (Phase::LinkIdentify, _) => CallbackView::LinkIdentify(d, p),
            (Phase::LinkTls, _) => CallbackView::LinkTls(d, p),
            (Phase::LinkAuth, EventParamsView::Auth(a, b)) => CallbackView::LinkAuth(d, a, b),
            (Phase::TxBegin, EventParamsView::MsgId(m)) => CallbackView::TxBegin(d, m),
            (Phase::TxMail, EventParamsView::TxAddress(m, a, b)) => CallbackView::TxMail(d, m, a, b),
            (Phase::TxRcpt, EventParamsView::TxAddress(m, a, b)) => CallbackView::TxRcpt(d, m, a, b),
            (Phase::TxEnvelope, EventParamsView::Envelope(m, e)) => CallbackView::TxEnvelope(d, m, e),
            (Phase::TxData, EventParamsView::TxData(m, b)) => CallbackView::TxData(d, m, b),
            (Phase::TxCommit, EventParamsView::Commit(m, n)) => CallbackView::TxCommit(d, m, n),
            (Phase::TxRollback, EventParamsView::MsgId(m)) => CallbackView::TxRollback(d, m),
            (Phase::ProtocolClient, _) => CallbackView::ProtocolClient(d, p),
            (Phase::ProtocolServer, _) => CallbackView::ProtocolServer(d, p),
            (Phase::FilterResponse, _) => CallbackView::FilterResponse(d, p),
            (Phase::Timeout, _) => CallbackView::Timeout(d),
            _ => CallbackView::Nothing,
        },
    }
}

/// A call of one of the `on_filter_*` callbacks that decide on a request.
pub open spec fn is_request(c: CallbackView) -> bool {
    match c {
        CallbackView::FilterConnect(..) | CallbackView::FilterHelo(_) | CallbackView::FilterEhlo(_)
        | CallbackView::FilterStartTls | CallbackView::FilterAuth(_) | CallbackView::FilterMailFrom(_)
        | CallbackView::FilterRcptTo(_) | CallbackView::FilterData | CallbackView::FilterRset
        | CallbackView::FilterQuit | CallbackView::FilterNoop | CallbackView::FilterHelp
        | CallbackView::FilterWiz | CallbackView::FilterCommit => true,
        _ => false,
    }
}

impl Callback {
    /// Whether this is a call that decides on a request.
    pub fn is_request(&self) -> (r: bool)
        ensures
            r == is_request(self@),
    {
        match self {
            Callback::FilterConnect(..) | Callback::FilterHelo(_) | Callback::FilterEhlo(_)
            | Callback::FilterStartTls | Callback::FilterAuth(_) | Callback::FilterMailFrom(_)
            | Callback::FilterRcptTo(_) | Callback::FilterData | Callback::FilterRset
            | Callback::FilterQuit | Callback::FilterNoop | Callback::FilterHelp
            | Callback::FilterWiz | Callback::FilterCommit => true,
            _ => false,
        }
    }
}

/// The callback that `event`, with parameters `params` that read as `ps`,
/// goes to, with the arguments it is given besides the session.
pub fn callback_for(event: &Event, params: &str, ps: EventParams) -> (c: Callback)
    ensures
        c@ == callback_of(event.kind, event.phase, event.direction, params@, ps@),
{
    let d = event.direction;
    match event.kind {
        FilterKind::Filter => match event.phase {
            Phase::Connect => match ps {
                EventParams::Connect(a, b, c, e) => Callback::FilterConnect(a, b, c, e),
                _ => Callback::Nothing,
            },
            Phase::Helo => Callback::FilterHelo(String::from_str(params)),
            Phase::Ehlo => Callback::FilterEhlo(String::from_str(params)),
            Phase::StartTls => Callback::FilterStartTls,
            Phase::Auth => Callback::FilterAuth(String::from_str(params)),
            Phase::MailFrom => Callback::FilterMailFrom(String::from_str(params)),
            Phase::RcptTo => Callback::FilterRcptTo(String::from_str(params)),
            Phase::Data => Callback::FilterData,
            Phase::DataLine => Callback::FilterDataLine(String::from_str(params)),
            Phase::Reset => Callback::FilterRset,
            Phase::Quit => Callback::FilterQuit,
            Phase::Noop => Callback::FilterNoop,
            Phase::Help => Callback::FilterHelp,
            Phase::Wiz => Callback::FilterWiz,
            Phase::Commit => Callback::FilterCommit,
            _ => Callback::Nothing,
        },
        FilterKind::Report => match (event.phase, ps) {
            (Phase::LinkConnect, EventParams::Connect(a, b, c, e)) => Callback::LinkConnect(d, a, b, c, e),
            (Phase::LinkDisconnect, _) => Callback::LinkDisconnect(d),
            (Phase::LinkGreeting, _) => Callback::LinkGreeting(d, String::from_str(params)),
            (Phase::LinkIdentify, _) => Callback::LinkIdentify(d, String::from_str(params)),
            (Phase::LinkTls, _) => Callback::LinkTls(d, String::from_str(params)),
            (Phase::LinkAuth, EventParams::Auth(a, b)) => Callback::LinkAuth(d, a, b),
            (Phase::TxBegin, EventParams::MsgId(m)) => Callback::TxBegin(d, m),
            (Phase::TxMail, EventParams::TxAddress(m, a, b)) => Callback::TxMail(d, m, a, b),
            (Phase::TxRcpt, EventParams::TxAddress(m, a, b)) => Callback::TxRcpt(d, m, a, b),
            (Phase::TxEnvelope, EventParams::Envelope(m, e)) => Callback::TxEnvelope(d, m, e),
            (Phase::TxData, EventParams::TxData(m, b)) => Callback::TxData(d, m, b),
            (Phase::TxCommit, EventParams::Commit(m, n)) => Callback::TxCommit(d, m, n),
            (Phase::TxRollback, EventParams::MsgId(m)) => Callback::TxRollback(d, m),
            (Phase::ProtocolClient, _) => Callback::ProtocolClient(d, String::from_str(params)),
            (Phase::ProtocolServer, _) => Callback::ProtocolServer(d, String::from_str(params)),
            (Phase::FilterResponse, _) => Callback::FilterResponse(d, String::from_str(params)),
            (Phase::Timeout, _) => Callback::Timeout(d),
            _ => Callback::Nothing,
        },
    }
}

/// An event whose parameters read goes to a request callback exactly when
/// it is a request, and to `on_filter_data_line` exactly when it is a
/// message line.
pub proof fn lemma_callback_kind(kind: FilterKind, phase: Phase, version_minor: u32, d: Direction, p: Seq<char>, pv: EventParamsView)
    requires
        event_params(kind, phase, version_minor, p) == Ok::<_, Seq<char>>(pv),
    ensures
        is_request(callback_of(kind, phase, d, p, pv)) == is_decision(kind, phase),
        (callback_of(kind, phase, d, p, pv) is FilterDataLine) == (kind == FilterKind::Filter && phase
            == Phase::DataLine),
{
}

/// `r` is an answer that the filter callback named by the request call `c`
/// gives when called, on some filter, with `session` and `c`'s arguments
/// (`FilterMailFrom(from)` is answered by `on_filter_mail_from(session,
/// from)`, and so on); a call that is no request is answered `Proceed`.
pub open spec fn request_answer<F: Filter>(c: CallbackView, session: &Session, r: FilterResponse) -> bool {
    match c {
        CallbackView::FilterConnect(rdns, fcrdns, src, dst) => exists|m: &mut F, t: &str, a: &Address, b: &Address|
            t@ == rdns && a@ == src && b@ == dst && #[trigger] call_ensures(
                F::on_filter_connect,
                (m, session, t, fcrdns, a, b),
                r,
            ),
        CallbackView::FilterHelo(x) => exists|m: &mut F, t: &str|
            t@ == x && #[trigger] call_ensures(F::on_filter_helo, (m, session, t), r),
        CallbackView::FilterEhlo(x) => exists|m: &mut F, t: &str|
            t@ == x && #[trigger] call_ensures(F::on_filter_ehlo, (m, session, t), r),
        CallbackView::FilterStartTls => exists|m: &mut F| #[trigger] call_ensures(F::on_filter_starttls, (m, session), r),
        CallbackView::FilterAuth(x) => exists|m: &mut F, t: &str|
            t@ == x && #[trigger] call_ensures(F::on_filter_auth, (m, session, t), r),
        CallbackView::FilterMailFrom(x) => exists|m: &mut F, t: &str|
            t@ == x && #[trigger] call_ensures(F::on_filter_mail_from, (m, session, t), r),
        CallbackView::FilterRcptTo(x) => exists|m: &mut F, t: &str|
            t@ == x && #[trigger] call_ensures(F::on_filter_rcpt_to, (m, session, t), r),
        CallbackView::FilterData => exists|m: &mut F| #[trigger] call_ensures(F::on_filter_data, (m, session), r),
        CallbackView::FilterRset => exists|m: &mut F| #[trigger] call_ensures(F::on_filter_rset, (m, session), r),
        CallbackView::FilterQuit => exists|m: &mut F| #[trigger] call_ensures(F::on_filter_quit, (m, session), r),
        CallbackView::FilterNoop => exists|m: &mut F| #[trigger] call_ensures(F::on_filter_noop, (m, session), r),
        CallbackView::FilterHelp => exists|m: &mut F| #[trigger] call_ensures(F::on_filter_help, (m, session), r),
        CallbackView::FilterWiz => exists|m: &mut F| #[trigger] call_ensures(F::on_filter_wiz, (m, session), r),
        CallbackView::FilterCommit => exists|m: &mut F| #[trigger] call_ensures(F::on_filter_commit, (m, session), r),
        _ => r is Proceed,
    }
}

/// The report callback named by `c` has been called, on some filter, with
/// `session` and `c`'s arguments (`TxMail(d, m, a, s)` by
/// `on_report_tx_mail(session, d, m, a, s)`, and so on); a call that is no
/// report asks for nothing.
pub open spec fn report_made<F: Filter>(c: CallbackView, session: &Session) -> bool {
    match c {
        CallbackView::LinkConnect(d, rdns, fcrdns, src, dst) => exists|m: &mut F, t: &str, a: &Address, b: &Address|
            t@ == rdns && a@ == src && b@ == dst && #[trigger] call_ensures(
                F::on_report_link_connect,
                (m, session, d, t, fcrdns, a, b),
                (),
            ),
        CallbackView::LinkDisconnect(d) => exists|m: &mut F| #[trigger] call_ensures(F::on_report_link_disconnect, (m, session, d), ()),
        CallbackView::LinkGreeting(d, x) => exists|m: &mut F, t: &str|
            t@ == x && #[trigger] call_ensures(F::on_report_link_greeting, (m, session, d, t), ()),
        CallbackView::LinkIdentify(d, x) => exists|m: &mut F, t: &str|
            t@ == x && #[trigger] call_ensures(F::on_report_link_identify, (m, session, d, t), ()),
        CallbackView::LinkTls(d, x) => exists|m: &mut F, t: &str|
            t@ == x && #[trigger] call_ensures(F::on_report_link_tls, (m, session, d, t), ()),
        CallbackView::LinkAuth(d, x, st) => exists|m: &mut F, t: &str|
            t@ == x && #[trigger] call_ensures(F::on_report_link_auth, (m, session, d, t, st), ()),
        CallbackView::TxBegin(d, id) => exists|m: &mut F| #[trigger] call_ensures(F::on_report_tx_begin, (m, session, d, id), ()),
        CallbackView::TxMail(d, id, x, st) => exists|m: &mut F, t: &str|
            t@ == x && #[trigger] call_ensures(F::on_report_tx_mail, (m, session, d, id, t, st), ()),
        CallbackView::TxRcpt(d, id, x, st) => exists|m: &mut F, t: &str|
            t@ == x && #[trigger] call_ensures(F::on_report_tx_rcpt, (m, session, d, id, t, st), ()),
        CallbackView::TxEnvelope(d, id, e) => exists|m: &mut F| #[trigger] call_ensures(F::on_report_tx_envelope, (m, session, d, id, e), ()),
        CallbackView::TxData(d, id, st) => exists|m: &mut F| #[trigger] call_ensures(F::on_report_tx_data, (m, session, d, id, st), ()),
        CallbackView::TxCommit(d, id, n) => exists|m: &mut F| #[trigger] call_ensures(F::on_report_tx_commit, (m, session, d, id, n), ()),
        CallbackView::TxRollback(d, id) => exists|m: &mut F| #[trigger] call_ensures(F::on_report_tx_rollback, (m, session, d, id), ()),
        CallbackView::ProtocolClient(d, x) => exists|m: &mut F, t: &str|
            t@ == x && #[trigger] call_ensures(F::on_report_protocol_client, (m, session, d, t), ()),
        CallbackView::ProtocolServer(d, x) => exists|m: &mut F, t: &str|
            t@ == x && #[trigger] call_ensures(F::on_report_protocol_server, (m, session, d, t), ()),
        CallbackView::FilterResponse(d, x) => exists|m: &mut F, t: &str|
            t@ == x && #[trigger] call_ensures(F::on_report_filter_response, (m, session, d, t), ()),
        CallbackView::Timeout(d) => exists|m: &mut F| #[trigger] call_ensures(F::on_report_timeout, (m, session, d), ()),
        _ => true,
    }
}

/// What the filter is asked for call `c`, made with `session`, and what
/// comes of it in the output `r` for request `token` of session `reqid`: a
/// request is answered by its callback and the reply carries that answer;
/// a message line goes to `on_filter_data_line` and each line it gives is
/// sent back, in order; a report goes to its callback and nothing is sent.
pub open spec fn calls_made<F: Filter>(c: CallbackView, session: &Session, reqid: u64, token: u64, r: Result<Vec<String>, ParseError>) -> bool {
    if is_request(c) {
        exists|resp: FilterResponse| #[trigger] request_answer::<F>(c, session, resp) && lines_result(r) == reply_outcome(reqid, token, resp)
    } else if c is FilterDataLine {
        exists|m: &mut F, t: &str, given: Vec<String>|
            t@ == c->FilterDataLine_0 && #[trigger] call_ensures(F::on_filter_data_line, (m, session, t), given) && (r matches Ok(out)
                && texts(out@) == dataline_texts(reqid, token, texts(given@)))
    } else {
        report_made::<F>(c, session)
    }
}

/// What the filter is asked for event `ev` with parameters `p`, given the
/// sessions `before` it, and what comes of it in the output `r`: where the
/// parameters read, the callback that `callback_of` names is called with
/// the session as `session_seen` makes it, as `calls_made` says.
pub open spec fn event_calls<F: Filter>(before: Map<u64, SessionView>, ev: Event, p: Seq<char>, r: Result<Vec<String>, ParseError>) -> bool {
    match event_params(ev.kind, ev.phase, ev.version_minor, p) {
        Err(_) => true,
        Ok(pv) => exists|s: &Session|
            s@ == session_seen(session_or_new(before, ev.reqid), ev.kind, ev.phase, p, pv) && #[trigger] calls_made::<F>(
                callback_of(ev.kind, ev.phase, ev.direction, p, pv),
                s,
                ev.reqid,
                reply_token(ev),
                r,
            ),
    }
}

/// The configuration callback that `config_call_of` names for `line` has
/// been called, on some filter, with its arguments.
pub open spec fn config_calls<F: Filter>(line: Seq<char>) -> bool {
    match config_call_of(line) {
        ConfigCallView::Ready => exists|m: &mut F| #[trigger] call_ensures(F::on_config_ready, (m,), ()),
        ConfigCallView::Pair(k, v) => exists|m: &mut F, a: &str, b: &str|
            a@ == k && b@ == v && #[trigger] call_ensures(F::on_config, (m, a, b), ()),
        ConfigCallView::Nothing => true,
    }
}

/// What the filter is asked for `line`, given the sessions `before` it,
/// and what comes of it in the output `r` (see `config_calls` and
/// `event_calls`).
pub open spec fn line_calls<F: Filter>(before: Map<u64, SessionView>, line: Seq<char>, r: Result<Vec<String>, ParseError>) -> bool {
    if is_config_line(line) {
        config_calls::<F>(line)
    } else {
        match spec_parse_event(line) {
            Err(_) => true,
            Ok((ev, p)) => event_calls::<F>(before, ev, p, r),
        }
    }
}

impl<F: Filter> SmtpFilterRunner<F> {
    /// Hands the event to the filter's callback and turns its answer into
    /// output lines.
    fn notify(&mut self, session: &Session, event: &Event, params: &str, ps: EventParams) -> (r: Result<Vec<String>, ParseError>)
        requires
            event_params(event.kind, event.phase, event.version_minor, params@) == Ok::<_, Seq<char>>(ps@),
        ensures
            output_fits(event.reqid, reply_token(*event), event.kind, event.phase, r),
            calls_made::<F>(callback_of(event.kind, event.phase, event.direction, params@, ps@), session, event.reqid, reply_token(*event), r),
            final(self).registrations() == old(self).registrations(),
            final(self).sessions() == old(self).sessions(),
    {
        let reqid = event.reqid;
        let token = match event.token {
            Some(t) => t,
            None => 0,
        };
        assert(token == reply_token(*event));
        let kind = event.kind;
        let phase = event.phase;
        proof {
            lemma_callback_kind(kind, phase, event.version_minor, event.direction, params@, ps@);
        }
        let c = callback_for(event, params, ps);
        let ghost cv = c@;
        if c.is_request() {
            let response = self.decide(session, c);
            let r = reply(reqid, token, response);
            assert(lines_result(r) == reply_outcome(reqid, token, response));
            assert(output_fits(reqid, token, kind, phase, r));
            assert(request_answer::<F>(cv, session, response));
            r
        } else {
            match c {
                Callback::FilterDataLine(line) => {
                    let t = line.as_str();
                    let given = self.filter.on_filter_data_line(session, t);
                    let out = data_lines(reqid, token, &given);
                    assert(t@ == cv->FilterDataLine_0);
                    Ok(out)
                },
                other => {
                    self.report(session, other);
                    let none: Vec<String> = Vec::new();
                    assert(output_fits(reqid, token, kind, phase, Ok::<Vec<String>, ParseError>(none)));
                    Ok(none)
                },
            }
        }
    }

    /// Makes a request call `c` on the filter and gives its answer.
    fn decide(&mut self, session: &Session, c: Callback) -> (r: FilterResponse)
        ensures
            !is_request(c@) ==> r is Proceed,
            request_answer::<F>(c@, session, r),
            final(self).registrations() == old(self).registrations(),
            final(self).sessions() == old(self).sessions(),
    {
        match c {
            Callback::FilterConnect(rdns, fcrdns, src, dst) => self.filter.on_filter_connect(session, rdns.as_str(), fcrdns, &src, &dst),
            Callback::FilterHelo(identity) => self.filter.on_filter_helo(session, identity.as_str()),
            Callback::FilterEhlo(identity) => self.filter.on_filter_ehlo(session, identity.as_str()),
            Callback::FilterStartTls => self.filter.on_filter_starttls(session),
            Callback::FilterAuth(auth) => self.filter.on_filter_auth(session, auth.as_str()),
            Callback::FilterMailFrom(from) => self.filter.on_filter_mail_from(session, from.as_str()),
            Callback::FilterRcptTo(to) => self.filter.on_filter_rcpt_to(session, to.as_str()),
            Callback::FilterData => self.filter.on_filter_data(session),
            Callback::FilterRset => self.filter.on_filter_rset(session),
            Callback::FilterQuit => self.filter.on_filter_quit(session),
            Callback::FilterNoop => self.filter.on_filter_noop(session),
            Callback::FilterHelp => self.filter.on_filter_help(session),
            Callback::FilterWiz => self.filter.on_filter_wiz(session),
            Callback::FilterCommit => self.filter.on_filter_commit(session),
            _ => FilterResponse::Proceed,
        }
    }

    /// Makes a report call `c` on the filter.
    fn report(&mut self, session: &Session, c: Callback)
        ensures
            report_made::<F>(c@, session),
            final(self).registrations() == old(self).registrations(),
            final(self).sessions() == old(self).sessions(),
    {
        match c {
            Callback::LinkConnect(d, rdns, fcrdns, src, dst) => self.filter.on_report_link_connect(session, d, rdns.as_str(), fcrdns, &src, &dst),
            Callback::LinkDisconnect(d) => self.filter.on_report_link_disconnect(session, d),
            Callback::LinkGreeting(d, hostname) => self.filter.on_report_link_greeting(session, d, hostname.as_str()),
            Callback::LinkIdentify(d, identity) => self.filter.on_report_link_identify(session, d, identity.as_str()),
            Callback::LinkTls(d, ciphers) => self.filter.on_report_link_tls(session, d, ciphers.as_str()),
            Callback::LinkAuth(d, username, status) => self.filter.on_report_link_auth(session, d, username.as_str(), status),
            Callback::TxBegin(d, msgid) => self.filter.on_report_tx_begin(session, d, msgid),
            Callback::TxMail(d, msgid, address, status) => self.filter.on_report_tx_mail(session, d, msgid, address.as_str(), status),
            Callback::TxRcpt(d, msgid, address, status) => self.filter.on_report_tx_rcpt(session, d, msgid, address.as_str(), status),
            Callback::TxEnvelope(d, msgid, evpid) => self.filter.on_report_tx_envelope(session, d, msgid, evpid),
            Callback::TxData(d, msgid, status) => self.filter.on_report_tx_data(session, d, msgid, status),
            Callback::TxCommit(d, msgid, size) => self.filter.on_report_tx_commit(session, d, msgid, size),
            Callback::TxRollback(d, msgid) => self.filter.on_report_tx_rollback(session, d, msgid),
            Callback::ProtocolClient(d, line) => self.filter.on_report_protocol_client(session, d, line.as_str()),
            Callback::ProtocolServer(d, line) => self.filter.on_report_protocol_server(session, d, line.as_str()),
            Callback::FilterResponse(d, line) => self.filter.on_report_filter_response(session, d, line.as_str()),
            Callback::Timeout(d) => self.filter.on_report_timeout(session, d),
            _ => {},
        }
    }
}

/// A configuration line (`config|...`), which the daemon sends before any
/// event.
pub open spec fn is_config_line(line: Seq<char>) -> bool {
    line.len() >= 7 && line.take(7) == "config|"@
}

/// The session `id` of `sessions`, or a new one where there is none.
pub open spec fn session_or_new(sessions: Map<u64, SessionView>, id: u64) -> SessionView {
    if sessions.contains_key(id) {
        sessions[id]
    } else {
        crate::types::new_session(id)
    }
}

/// The sessions with session `id` set to `s`, or removed where `s` is none.
pub open spec fn with_session(sessions: Map<u64, SessionView>, id: u64, s: Option<SessionView>) -> Map<u64, SessionView> {
    match s {
        Some(s) => sessions.insert(id, s),
        None => sessions.remove(id),
    }
}

/// What handling `line` does, given the sessions `before` and `after` it
/// and its result `r`. A configuration line changes no session and gives no
/// output. A line that is no event is an error and changes no session. For
/// an event, its session is looked up (or started); parameters that do not
/// read are an error, with the session kept as it was (or newly started);
/// otherwise the session is updated as `session_seen` and `session_kept`
/// say, and the output is what `output_fits` allows.
pub open spec fn line_outcome(
    before: Map<u64, SessionView>,
    line: Seq<char>,
    after: Map<u64, SessionView>,
    r: Result<Vec<String>, ParseError>,
) -> bool {
    if is_config_line(line) {
        &&& after == before
        &&& r matches Ok(out) && out.len() == 0
    } else {
        match spec_parse_event(line) {
            Err(m) => after == before && lines_result(r) == Err::<Seq<Seq<char>>, Seq<char>>(m),
            Ok((ev, p)) => event_outcome(before, ev, p, after, r),
        }
    }
}

/// What handling event `ev` with parameters `p` does (see `line_outcome`).
pub open spec fn event_outcome(
    before: Map<u64, SessionView>,
    ev: Event,
    p: Seq<char>,
    after: Map<u64, SessionView>,
    r: Result<Vec<String>, ParseError>,
) -> bool {
    let base = session_or_new(before, ev.reqid);
    match event_params(ev.kind, ev.phase, ev.version_minor, p) {
        Err(m) => after == before.insert(ev.reqid, base) && lines_result(r) == Err::<Seq<Seq<char>>, Seq<char>>(m),
        Ok(pv) => after == with_session(
            before,
            ev.reqid,
            session_kept(session_seen(base, ev.kind, ev.phase, p, pv), ev.kind, ev.phase),
        ) && output_fits(ev.reqid, reply_token(ev), ev.kind, ev.phase, r),
    }
}

/// The callback a configuration line goes to: `on_config_ready` for
/// `config|ready`, `on_config(key, value)` for `config|key|value` (split at
/// the first `|` after `config|`), or none.
pub enum ConfigCall {
    Ready,
    Pair(String, String),
    Nothing,
}

/// A configuration callback call with its texts taken by value.
pub enum ConfigCallView {
    Ready,
    Pair(Seq<char>, Seq<char>),
    Nothing,
}

impl View for ConfigCall {
    type V = ConfigCallView;

    open spec fn view(&self) -> ConfigCallView {
        match self {
            ConfigCall::Ready => ConfigCallView::Ready,
            ConfigCall::Pair(k, v) => ConfigCallView::Pair(k@, v@),
            ConfigCall::Nothing => ConfigCallView::Nothing,
        }
    }
}

/// The configuration callback that `line` goes to.
pub open spec fn config_call_of(line: Seq<char>) -> ConfigCallView {
    if !is_config_line(line) {
        ConfigCallView::Nothing
    } else if line.skip(7) == "ready"@ {
        ConfigCallView::Ready
    } else {
        match split_once(line.skip(7), '|') {
            Some((key, value)) => ConfigCallView::Pair(key, value),
            None => ConfigCallView::Nothing,
        }
    }
}

/// The configuration callback that `line` goes to, with its arguments.
pub fn config_call(line: &str) -> (c: ConfigCall)
    ensures
        c@ == config_call_of(line@),
{
    let v = chars_of(line);
    let n = v.len();
    if !(n >= 7 && range_eq_str(&v, 0, 7, "config|")) {
        proof {
            if n >= 7 {
                assert(line@.take(7) =~= v@.subrange(0, 7));
            }
        }
        return ConfigCall::Nothing;
    }
    assert(line@.take(7) =~= v@.subrange(0, 7));
    assert(line@.skip(7) =~= v@.subrange(7, n as int));
    if range_eq_str(&v, 7, n, "ready") {
        return ConfigCall::Ready;
    }
    match split_at_char(&v, 7, n, '|') {
        Some(i) => ConfigCall::Pair(string_of_range(&v, 7, i), string_of_range(&v, i + 1, n)),
        None => ConfigCall::Nothing,
    }
}

impl<F: Filter> SmtpFilterRunner<F> {
    /// Makes the configuration call that `line` goes to.
    fn handle_config(&mut self, line: &str)
        ensures
            config_calls::<F>(line@),
            final(self).registrations() == old(self).registrations(),
            final(self).sessions() == old(self).sessions(),
    {
        match config_call(line) {
            ConfigCall::Ready => self.filter.on_config_ready(),
            ConfigCall::Pair(key, value) => self.filter.on_config(key.as_str(), value.as_str()),
            ConfigCall::Nothing => {},
        }
    }
}

impl<F: Filter> SmtpFilterRunner<F> {
    /// Handles one line from the daemon: a configuration line goes to the
    /// filter's `on_config*` callbacks; an event updates its session, goes
    /// to the filter's callback, and gives the reply lines to send back.
    pub fn handle_line(&mut self, line: &str) -> (r: Result<Vec<String>, ParseError>)
        requires
            !event_time_overflows(line@),
        ensures
            final(self).registrations() == old(self).registrations(),
            line_outcome(old(self).sessions(), line@, final(self).sessions(), r),
            line_calls::<F>(old(self).sessions(), line@, r),
    {
        let v = chars_of(line);
        if v.len() >= 7 && range_eq_str(&v, 0, 7, "config|") {
            assert(line@.take(7) =~= v@.subrange(0, 7));
            self.handle_config(line);
            let none: Vec<String> = Vec::new();
            return Ok(none);
        }
        proof {
            if v.len() >= 7 {
                assert(line@.take(7) =~= v@.subrange(0, 7));
            }
        }
        match parse_event(line) {
            Ok((event, params)) => self.handle_event(&event, params),
            Err(e) => Err(e),
        }
    }

    fn handle_event(&mut self, event: &Event, params: &str) -> (r: Result<Vec<String>, ParseError>)
        ensures
            final(self).registrations() == old(self).registrations(),
            event_outcome(old(self).sessions(), *event, params@, final(self).sessions(), r),
            event_calls::<F>(old(self).sessions(), *event, params@, r),
    {
        let pv = chars_of(params);
        assert(pv@.subrange(0, pv@.len() as int) =~= params@);
        let reqid = event.reqid;
        let ghost before = self.sessions();
        let mut session = match self.sessions.remove(&reqid) {
            Some(s) => s,
            None => Session::new(reqid),
        };
        assert(self.sessions() =~= before.remove(reqid));
        assert(session@ == session_or_new(before, reqid));
        let ps = match parse_params(&pv, 0, event.kind, event.phase, event.version_minor) {
            Ok(ps) => ps,
            Err(e) => {
                self.sessions.insert(reqid, session);
                assert(self.sessions() =~= before.insert(reqid, session_or_new(before, reqid)));
                return Err(e);
            },
        };
        let ghost base = session@;
        apply_params(&mut session, event.kind, event.phase, params, &ps);
        let out = self.notify(&session, event, params, ps);
        if event.kind == FilterKind::Report && event.phase == Phase::LinkDisconnect {
            assert(self.sessions() =~= before.remove(reqid));
        } else {
            if event.kind == FilterKind::Report && (event.phase == Phase::TxCommit || event.phase == Phase::TxRollback) {
                session.clear_transaction();
            }
            let ghost kept = session@;
            let ghost mid = self.sessions@;
            assert(mid.map_values(|s: Session| s@) =~= before.remove(reqid));
            self.sessions.insert(reqid, session);
            assert(self.sessions@ == mid.insert(reqid, session));
            assert(mid.insert(reqid, session).map_values(|s: Session| s@) =~= before.remove(reqid).insert(reqid, kept));
            assert(before.remove(reqid).insert(reqid, kept) =~= before.insert(reqid, kept));
            assert(self.sessions() == self.sessions@.map_values(|s: Session| s@));
        }
        out
    }
}

/// Every stored session is filed under its own session id.
pub open spec fn sessions_filed_by_id(sessions: Map<u64, SessionView>) -> bool {
    forall|id: u64| #[trigger] sessions.contains_key(id) ==> sessions[id].reqid == id
}

/// `line` is an event of session `id`.
pub open spec fn names_session(line: Seq<char>, id: u64) -> bool {
    !is_config_line(line) && (spec_parse_event(line) matches Ok((ev, _)) && ev.reqid == id)
}

/// Handling a line keeps every session filed under its own id.
pub proof fn lemma_sessions_stay_filed(
    before: Map<u64, SessionView>,
    line: Seq<char>,
    after: Map<u64, SessionView>,
    r: Result<Vec<String>, ParseError>,
)
    requires
        sessions_filed_by_id(before),
        line_outcome(before, line, after, r),
    ensures
        sessions_filed_by_id(after),
{
    if !is_config_line(line) {
        if let Ok((ev, p)) = spec_parse_event(line) {
            let base = session_or_new(before, ev.reqid);
            assert(base.reqid == ev.reqid);
            if let Ok(pv) = event_params(ev.kind, ev.phase, ev.version_minor, p) {
                let seen = session_seen(base, ev.kind, ev.phase, p, pv);
                assert(seen.reqid == ev.reqid);
            }
        }
    }
}

/// Handling a line changes no session but the one the line names: every
/// other session is kept, unchanged, and none is added.
pub proof fn lemma_other_sessions_untouched(
    before: Map<u64, SessionView>,
    line: Seq<char>,
    after: Map<u64, SessionView>,
    r: Result<Vec<String>, ParseError>,
    id: u64,
)
    requires
        line_outcome(before, line, after, r),
        !names_session(line, id),
    ensures
        after.contains_key(id) == before.contains_key(id),
        before.contains_key(id) ==> after[id] == before[id],
{
}

/// An event other than the end of a session leaves its session tracked,
/// even when its parameters do not read.
pub proof fn lemma_event_keeps_session(
    before: Map<u64, SessionView>,
    line: Seq<char>,
    after: Map<u64, SessionView>,
    r: Result<Vec<String>, ParseError>,
    ev: Event,
    p: Seq<char>,
)
    requires
        line_outcome(before, line, after, r),
        !is_config_line(line),
        spec_parse_event(line) == Ok::<(Event, Seq<char>), Seq<char>>((ev, p)),
        !(ev.kind == FilterKind::Report && ev.phase == Phase::LinkDisconnect),
    ensures
        after.contains_key(ev.reqid),
{
}

/// Once the end of a session is reported, the session is forgotten.
pub proof fn lemma_disconnect_forgets_session(
    before: Map<u64, SessionView>,
    line: Seq<char>,
    after: Map<u64, SessionView>,
    r: Result<Vec<String>, ParseError>,
    ev: Event,
    p: Seq<char>,
)
    requires
        line_outcome(before, line, after, r),
        !is_config_line(line),
        spec_parse_event(line) == Ok::<(Event, Seq<char>), Seq<char>>((ev, p)),
        ev.kind == FilterKind::Report,
        ev.phase == Phase::LinkDisconnect,
    ensures
        !after.contains_key(ev.reqid),
        r matches Ok(out) && out.len() == 0,
{
}

/// A committed or rolled back transaction is forgotten: the session keeps
/// no sender, no recipient, no envelope id and no message id.
pub proof fn lemma_transaction_end_clears(
    before: Map<u64, SessionView>,
    line: Seq<char>,
    after: Map<u64, SessionView>,
    r: Result<Vec<String>, ParseError>,
    ev: Event,
    p: Seq<char>,
)
    requires
        line_outcome(before, line, after, r),
        !is_config_line(line),
        spec_parse_event(line) == Ok::<(Event, Seq<char>), Seq<char>>((ev, p)),
        ev.kind == FilterKind::Report,
        ev.phase == Phase::TxCommit || ev.phase == Phase::TxRollback,
        event_params(ev.kind, ev.phase, ev.version_minor, p) is Ok,
    ensures
        after.contains_key(ev.reqid),
        after[ev.reqid].mailfrom is None,
        after[ev.reqid].rcptto.len() == 0,
        after[ev.reqid].evpid is None,
        after[ev.reqid].msgid is None,
{
}

/// Only a passed authentication names the session's user: a failed or
/// erroneous one leaves the user as it was.
pub proof fn lemma_failed_auth_keeps_user(
    before: Map<u64, SessionView>,
    line: Seq<char>,
    after: Map<u64, SessionView>,
    r: Result<Vec<String>, ParseError>,
    ev: Event,
    p: Seq<char>,
)
    requires
        line_outcome(before, line, after, r),
        !is_config_line(line),
        spec_parse_event(line) == Ok::<(Event, Seq<char>), Seq<char>>((ev, p)),
        ev.kind == FilterKind::Report,
        ev.phase == Phase::LinkAuth,
        !(auth_params(p) matches Ok((_, status)) && status == AuthStatus::Pass),
    ensures
        after.contains_key(ev.reqid),
        after[ev.reqid].username == session_or_new(before, ev.reqid).username,
{
}

/// A request gets exactly one reply, and it answers that session and that
/// request: unless the filter answered with a message line, the output is
/// one `filter-result` line carrying the event's session id and token.
pub proof fn lemma_request_answered_once(reqid: u64, token: u64, kind: FilterKind, phase: Phase, r: Result<Vec<String>, ParseError>)
    requires
        is_decision(kind, phase),
        output_fits(reqid, token, kind, phase, r),
    ensures
        r matches Ok(out) ==> out.len() == 1 && exists|action: Seq<char>| texts(out@)[0] == #[trigger] result_text(reqid, token, action),
        r matches Err(e) ==> e.0@ == misplaced_data_line(),
{
    let resp = choose|resp: FilterResponse| lines_result(r) == #[trigger] reply_outcome(reqid, token, resp);
    if let Ok(out) = r {
        let action = response_action(resp)->0;
        assert(texts(out@).len() == out@.len());
        assert(texts(out@)[0] == result_text(reqid, token, action));
    }
}

/// The event that `event_line` writes.
pub open spec fn line_event(
    kind: FilterKind,
    major: u32,
    minor: u32,
    secs: u64,
    nanos: u32,
    d: Direction,
    phase: Phase,
    reqid: u64,
    token: u64,
) -> Event {
    Event {
        kind,
        phase,
        version_major: major,
        version_minor: minor,
        timestamp: Timestamp { secs, nanos },
        direction: d,
        reqid,
        token: if kind == FilterKind::Filter { Some(token) } else { None },
    }
}

proof fn lemma_line_outcome_event(
    before: Map<u64, SessionView>,
    kind: FilterKind,
    major: u32,
    minor: u32,
    secs: u64,
    nanos: u32,
    d: Direction,
    phase: Phase,
    reqid: u64,
    token: u64,
    p: Seq<char>,
    after: Map<u64, SessionView>,
    res: Result<Vec<String>, ParseError>,
)
    requires
        nanos < 1_000_000_000,
        line_outcome(before, event_line(kind, major, minor, secs, nanos, d, phase, reqid, token, p), after, res),
    ensures
        event_outcome(before, line_event(kind, major, minor, secs, nanos, d, phase, reqid, token), p, after, res),
{
    reveal_strlit("config|");
    reveal_strlit("filter");
    reveal_strlit("report");
    let line = event_line(kind, major, minor, secs, nanos, d, phase, reqid, token, p);
    lemma_event_line_reads_back(kind, major, minor, secs, nanos, d, phase, reqid, token, p);
    assert(line[0] == kind_name(kind)[0]);
    if is_config_line(line) {
        assert(line[0] == line.take(7)[0]);
    }
}

proof fn lemma_hex_msgid(m: u32)
    ensures
        lacks(hex_text(m as nat), '|'),
        msgid_of(hex_text(m as nat)) == Ok::<u32, Seq<char>>(m),
        trim(hex_text(m as nat)) == hex_text(m as nat),
{
    let h = hex_text(m as nat);
    lemma_hex_text(m as nat, u32_max());
    assert forall|j: int| 0 <= j < h.len() implies h[j] != '|' && h[j] != '+' && !is_space(h[j]) by {
        assert(digit_value(h[j], 16) is Some);
    }
    assert(leading_space(h) == 0);
    assert(h.skip(0) =~= h);
    assert(trailing_space(h) == 0);
    assert(h.take(h.len() as int) =~= h);
}

/// An authentication report `user|result` (the user may hold `|`) goes to
/// `on_report_link_auth` with that user and result, gives no output, and
/// names the session's user exactly when the result is a pass.
#[verifier::rlimit(50)]
pub proof fn lemma_link_auth_line(
    before: Map<u64, SessionView>,
    major: u32,
    minor: u32,
    secs: u64,
    nanos: u32,
    d: Direction,
    reqid: u64,
    user: Seq<char>,
    st: AuthStatus,
    after: Map<u64, SessionView>,
    res: Result<Vec<String>, ParseError>,
)
    requires
        nanos < 1_000_000_000,
        line_outcome(
            before,
            event_line(FilterKind::Report, major, minor, secs, nanos, d, Phase::LinkAuth, reqid, 0, user + seq!['|'] + auth_status_name(st)),
            after,
            res,
        ),
    ensures
        ({
            let p = user + seq!['|'] + auth_status_name(st);
            let base = session_or_new(before, reqid);
            &&& event_params(FilterKind::Report, Phase::LinkAuth, minor, p) == Ok::<_, Seq<char>>(EventParamsView::Auth(user, st))
            &&& callback_of(FilterKind::Report, Phase::LinkAuth, d, p, EventParamsView::Auth(user, st)) == CallbackView::LinkAuth(d, user, st)
            &&& res matches Ok(out) && out.len() == 0
            &&& after == before.insert(reqid, if st == AuthStatus::Pass {
                SessionView { username: Some(user), ..base }
            } else {
                base
            })
        }),
{
    let name = auth_status_name(st);
    let p = user + seq!['|'] + name;
    lemma_line_outcome_event(before, FilterKind::Report, major, minor, secs, nanos, d, Phase::LinkAuth, reqid, 0, p, after, res);
    lemma_auth_status_name(st);
    assert forall|j: int| user.len() < j < p.len() implies p[j] != '|' by {
        assert(p[j] == name[j - user.len() - 1]);
    }
    assert(p[user.len() as int] == '|');
    lemma_find_last_at(p, '|', user.len() as int);
    assert(p.skip(user.len() as int + 1) =~= name);
    assert(p.take(user.len() as int) =~= user);
}

/// A recipient report of protocol 0.6 or later, `msgid|status|address`
/// (the address may hold `|`), goes to `on_report_tx_rcpt` with those
/// values, gives no output, and adds the address after the session's
/// recipients, changing nothing else.
#[verifier::rlimit(50)]
pub proof fn lemma_tx_rcpt_line(
    before: Map<u64, SessionView>,
    major: u32,
    minor: u32,
    secs: u64,
    nanos: u32,
    d: Direction,
    reqid: u64,
    msgid: u32,
    st: Status,
    address: Seq<char>,
    after: Map<u64, SessionView>,
    res: Result<Vec<String>, ParseError>,
)
    requires
        nanos < 1_000_000_000,
        minor >= 6,
        line_outcome(
            before,
            event_line(
                FilterKind::Report, major, minor, secs, nanos, d, Phase::TxRcpt, reqid, 0,
                hex_text(msgid as nat) + seq!['|'] + (status_name(st) + seq!['|'] + address),
            ),
            after,
            res,
        ),
    ensures
        ({
            let p = hex_text(msgid as nat) + seq!['|'] + (status_name(st) + seq!['|'] + address);
            let base = session_or_new(before, reqid);
            &&& event_params(FilterKind::Report, Phase::TxRcpt, minor, p) == Ok::<_, Seq<char>>(EventParamsView::TxAddress(msgid, address, st))
            &&& callback_of(FilterKind::Report, Phase::TxRcpt, d, p, EventParamsView::TxAddress(msgid, address, st))
                == CallbackView::TxRcpt(d, msgid, address, st)
            &&& res matches Ok(out) && out.len() == 0
            &&& after == before.insert(reqid, SessionView { rcptto: base.rcptto.push(address), ..base })
        }),
{
    let p = hex_text(msgid as nat) + seq!['|'] + (status_name(st) + seq!['|'] + address);
    lemma_line_outcome_event(before, FilterKind::Report, major, minor, secs, nanos, d, Phase::TxRcpt, reqid, 0, p, after, res);
    lemma_hex_msgid(msgid);
    lemma_status_name(st);
    lemma_split_once_at(hex_text(msgid as nat), '|', status_name(st) + seq!['|'] + address);
    lemma_split_once_at(status_name(st), '|', address);
}

/// A commit report `msgid|size` goes to `on_report_tx_commit` with that
/// message id and size, with the session as it was; it gives no output,
/// and the session then forgets its transaction.
#[verifier::rlimit(50)]
pub proof fn lemma_tx_commit_line(
    before: Map<u64, SessionView>,
    major: u32,
    minor: u32,
    secs: u64,
    nanos: u32,
    d: Direction,
    reqid: u64,
    msgid: u32,
    size: usize,
    after: Map<u64, SessionView>,
    res: Result<Vec<String>, ParseError>,
)
    requires
        nanos < 1_000_000_000,
        line_outcome(
            before,
            event_line(
                FilterKind::Report, major, minor, secs, nanos, d, Phase::TxCommit, reqid, 0,
                hex_text(msgid as nat) + seq!['|'] + dec_text(size as nat),
            ),
            after,
            res,
        ),
    ensures
        ({
            let p = hex_text(msgid as nat) + seq!['|'] + dec_text(size as nat);
            let base = session_or_new(before, reqid);
            &&& event_params(FilterKind::Report, Phase::TxCommit, minor, p) == Ok::<_, Seq<char>>(EventParamsView::Commit(msgid, size))
            &&& session_seen(base, FilterKind::Report, Phase::TxCommit, p, EventParamsView::Commit(msgid, size)) == base
            &&& callback_of(FilterKind::Report, Phase::TxCommit, d, p, EventParamsView::Commit(msgid, size))
                == CallbackView::TxCommit(d, msgid, size)
            &&& res matches Ok(out) && out.len() == 0
            &&& after == before.insert(reqid, without_transaction(base))
        }),
{
    let p = hex_text(msgid as nat) + seq!['|'] + dec_text(size as nat);
    lemma_line_outcome_event(before, FilterKind::Report, major, minor, secs, nanos, d, Phase::TxCommit, reqid, 0, p, after, res);
    lemma_hex_msgid(msgid);
    lemma_dec_text(size as nat, usize::MAX as nat);
    assert(digit_value(dec_text(size as nat)[0], 10) is Some);
    lemma_split_once_at(hex_text(msgid as nat), '|', dec_text(size as nat));
}

/// A rollback report `msgid` goes to `on_report_tx_rollback` with that
/// message id, with the session as it was; it gives no output, and the
/// session then forgets its transaction.
#[verifier::rlimit(50)]
pub proof fn lemma_tx_rollback_line(
    before: Map<u64, SessionView>,
    major: u32,
    minor: u32,
    secs: u64,
    nanos: u32,
    d: Direction,
    reqid: u64,
    msgid: u32,
    after: Map<u64, SessionView>,
    res: Result<Vec<String>, ParseError>,
)
    requires
        nanos < 1_000_000_000,
        line_outcome(
            before,
            event_line(FilterKind::Report, major, minor, secs, nanos, d, Phase::TxRollback, reqid, 0, hex_text(msgid as nat)),
            after,
            res,
        ),
    ensures
        ({
            let p = hex_text(msgid as nat);
            let base = session_or_new(before, reqid);
            &&& event_params(FilterKind::Report, Phase::TxRollback, minor, p) == Ok::<_, Seq<char>>(EventParamsView::MsgId(msgid))
            &&& session_seen(base, FilterKind::Report, Phase::TxRollback, p, EventParamsView::MsgId(msgid)) == base
            &&& callback_of(FilterKind::Report, Phase::TxRollback, d, p, EventParamsView::MsgId(msgid))
                == CallbackView::TxRollback(d, msgid)
            &&& res matches Ok(out) && out.len() == 0
            &&& after == before.insert(reqid, without_transaction(base))
        }),
{
    let p = hex_text(msgid as nat);
    lemma_line_outcome_event(before, FilterKind::Report, major, minor, secs, nanos, d, Phase::TxRollback, reqid, 0, p, after, res);
    lemma_hex_msgid(msgid);
}

/// A message line goes to `on_filter_data_line` with the line (which may
/// hold `|`); what is sent back is one `filter-dataline` reply of the same
/// session and request per line the filter gives, in order, and nothing
/// else; the session is kept as it was.
pub proof fn lemma_data_line_line(
    before: Map<u64, SessionView>,
    major: u32,
    minor: u32,
    secs: u64,
    nanos: u32,
    d: Direction,
    reqid: u64,
    token: u64,
    line: Seq<char>,
    after: Map<u64, SessionView>,
    res: Result<Vec<String>, ParseError>,
)
    requires
        nanos < 1_000_000_000,
        line_outcome(
            before,
            event_line(FilterKind::Filter, major, minor, secs, nanos, d, Phase::DataLine, reqid, token, line),
            after,
            res,
        ),
    ensures
        event_params(FilterKind::Filter, Phase::DataLine, minor, line) == Ok::<_, Seq<char>>(EventParamsView::Plain),
        callback_of(FilterKind::Filter, Phase::DataLine, d, line, EventParamsView::Plain) == CallbackView::FilterDataLine(line),
        res matches Ok(out) && exists|sent: Seq<Seq<char>>| #[trigger] dataline_texts(reqid, token, sent) == texts(out@),
        after == before.insert(reqid, session_or_new(before, reqid)),
{
    lemma_line_outcome_event(before, FilterKind::Filter, major, minor, secs, nanos, d, Phase::DataLine, reqid, token, line, after, res);
}

/// A request goes to its phase's `on_filter_*` callback (with the raw
/// parameters, or for a connection the fields they read as); what is sent
/// back is exactly one `filter-result` reply of that session and request,
/// unless the filter answered with a message line.
pub proof fn lemma_request_line(
    before: Map<u64, SessionView>,
    major: u32,
    minor: u32,
    secs: u64,
    nanos: u32,
    d: Direction,
    phase: Phase,
    reqid: u64,
    token: u64,
    p: Seq<char>,
    pv: EventParamsView,
    after: Map<u64, SessionView>,
    res: Result<Vec<String>, ParseError>,
)
    requires
        nanos < 1_000_000_000,
        is_decision(FilterKind::Filter, phase),
        event_params(FilterKind::Filter, phase, minor, p) == Ok::<_, Seq<char>>(pv),
        line_outcome(before, event_line(FilterKind::Filter, major, minor, secs, nanos, d, phase, reqid, token, p), after, res),
    ensures
        is_request(callback_of(FilterKind::Filter, phase, d, p, pv)),
        phase == Phase::Reset ==> callback_of(FilterKind::Filter, phase, d, p, pv) == CallbackView::FilterRset,
        phase == Phase::Helo ==> callback_of(FilterKind::Filter, phase, d, p, pv) == CallbackView::FilterHelo(p),
        res matches Ok(out) ==> out.len() == 1 && exists|action: Seq<char>| texts(out@)[0] == #[trigger] result_text(reqid, token, action),
        res matches Err(e) ==> e.0@ == misplaced_data_line(),
        after.contains_key(reqid),
{
    lemma_line_outcome_event(before, FilterKind::Filter, major, minor, secs, nanos, d, phase, reqid, token, p, after, res);
    lemma_callback_kind(FilterKind::Filter, phase, minor, d, p, pv);
    lemma_request_answered_once(reqid, token, FilterKind::Filter, phase, res);
}

proof fn lemma_event_line_parsed(
    kind: FilterKind,
    major: u32,
    minor: u32,
    secs: u64,
    nanos: u32,
    d: Direction,
    phase: Phase,
    reqid: u64,
    token: u64,
    p: Seq<char>,
)
    requires
        nanos < 1_000_000_000,
    ensures
        !is_config_line(event_line(kind, major, minor, secs, nanos, d, phase, reqid, token, p)),
        spec_parse_event(event_line(kind, major, minor, secs, nanos, d, phase, reqid, token, p)) == Ok::<_, Seq<char>>(
            (line_event(kind, major, minor, secs, nanos, d, phase, reqid, token), p),
        ),
{
    reveal_strlit("config|");
    reveal_strlit("filter");
    reveal_strlit("report");
    let line = event_line(kind, major, minor, secs, nanos, d, phase, reqid, token, p);
    lemma_event_line_reads_back(kind, major, minor, secs, nanos, d, phase, reqid, token, p);
    assert(line[0] == kind_name(kind)[0]);
    if is_config_line(line) {
        assert(line[0] == line.take(7)[0]);
    }
}

/// The reply to a request is the reply that carries an answer which the
/// callback named for the request gives, called with the session as the
/// request leaves it and the request's arguments.
pub proof fn lemma_request_reply<F: Filter>(
    before: Map<u64, SessionView>,
    line: Seq<char>,
    res: Result<Vec<String>, ParseError>,
    ev: Event,
    p: Seq<char>,
    pv: EventParamsView,
)
    requires
        line_calls::<F>(before, line, res),
        !is_config_line(line),
        spec_parse_event(line) == Ok::<_, Seq<char>>((ev, p)),
        is_decision(ev.kind, ev.phase),
        event_params(ev.kind, ev.phase, ev.version_minor, p) == Ok::<_, Seq<char>>(pv),
    ensures
        exists|s: &Session, resp: FilterResponse|
            s@ == session_seen(session_or_new(before, ev.reqid), ev.kind, ev.phase, p, pv) && #[trigger] request_answer::<F>(
                callback_of(ev.kind, ev.phase, ev.direction, p, pv),
                s,
                resp,
            ) && lines_result(res) == reply_outcome(ev.reqid, reply_token(ev), resp),
{
    lemma_callback_kind(ev.kind, ev.phase, ev.version_minor, ev.direction, p, pv);
    let c = callback_of(ev.kind, ev.phase, ev.direction, p, pv);
    let s = choose|s: &Session|
        s@ == session_seen(session_or_new(before, ev.reqid), ev.kind, ev.phase, p, pv) && #[trigger] calls_made::<F>(
            c,
            s,
            ev.reqid,
            reply_token(ev),
            res,
        );
    let resp = choose|resp: FilterResponse| #[trigger] request_answer::<F>(c, s, resp) && lines_result(res) == reply_outcome(ev.reqid, reply_token(ev), resp);
    assert(request_answer::<F>(c, s, resp));
}

/// A `MAIL FROM` request is answered by `on_filter_mail_from`, called with
/// the session and the sender text; the reply carries that answer for the
/// request's session and token.
pub proof fn lemma_mail_from_reply<F: Filter>(
    before: Map<u64, SessionView>,
    major: u32,
    minor: u32,
    secs: u64,
    nanos: u32,
    d: Direction,
    reqid: u64,
    token: u64,
    from: Seq<char>,
    res: Result<Vec<String>, ParseError>,
)
    requires
        nanos < 1_000_000_000,
        line_calls::<F>(before, event_line(FilterKind::Filter, major, minor, secs, nanos, d, Phase::MailFrom, reqid, token, from), res),
    ensures
        exists|m: &mut F, s: &Session, t: &str, resp: FilterResponse|
            s@ == session_or_new(before, reqid) && t@ == from && #[trigger] call_ensures(
                F::on_filter_mail_from,
                (m, s, t),
                resp,
            ) && lines_result(res) == reply_outcome(reqid, token, resp),
{
    lemma_event_line_parsed(FilterKind::Filter, major, minor, secs, nanos, d, Phase::MailFrom, reqid, token, from);
    let ev = line_event(FilterKind::Filter, major, minor, secs, nanos, d, Phase::MailFrom, reqid, token);
    let line = event_line(FilterKind::Filter, major, minor, secs, nanos, d, Phase::MailFrom, reqid, token, from);
    lemma_request_reply::<F>(before, line, res, ev, from, EventParamsView::Plain);
    let (s, resp) = choose|s: &Session, resp: FilterResponse|
        s@ == session_seen(session_or_new(before, reqid), ev.kind, ev.phase, from, EventParamsView::Plain) && #[trigger] request_answer::<F>(
            CallbackView::FilterMailFrom(from),
            s,
            resp,
        ) && lines_result(res) == reply_outcome(reqid, token, resp);
    let (m, t) = choose|m: &mut F, t: &str| t@ == from && #[trigger] call_ensures(F::on_filter_mail_from, (m, s, t), resp);
    assert(call_ensures(F::on_filter_mail_from, (m, s, t), resp));
}

/// A sender report of protocol 0.6 or later, `msgid|status|address` (the
/// address may hold `|`), goes to `on_report_tx_mail` with the direction,
/// the message id, the address and the status; the session it sees has
/// that sender.
pub proof fn lemma_tx_mail_report<F: Filter>(
    before: Map<u64, SessionView>,
    major: u32,
    minor: u32,
    secs: u64,
    nanos: u32,
    d: Direction,
    reqid: u64,
    msgid: u32,
    st: Status,
    address: Seq<char>,
    res: Result<Vec<String>, ParseError>,
)
    requires
        nanos < 1_000_000_000,
        minor >= 6,
        line_calls::<F>(
            before,
            event_line(
                FilterKind::Report, major, minor, secs, nanos, d, Phase::TxMail, reqid, 0,
                hex_text(msgid as nat) + seq!['|'] + (status_name(st) + seq!['|'] + address),
            ),
            res,
        ),
    ensures
        exists|m: &mut F, s: &Session, t: &str|
            s@ == (SessionView { mailfrom: Some(address), ..session_or_new(before, reqid) }) && t@ == address
                && #[trigger] call_ensures(F::on_report_tx_mail, (m, s, d, msgid, t, st), ()),
{
    let p = hex_text(msgid as nat) + seq!['|'] + (status_name(st) + seq!['|'] + address);
    lemma_event_line_parsed(FilterKind::Report, major, minor, secs, nanos, d, Phase::TxMail, reqid, 0, p);
    lemma_hex_msgid(msgid);
    lemma_status_name(st);
    lemma_split_once_at(hex_text(msgid as nat), '|', status_name(st) + seq!['|'] + address);
    lemma_split_once_at(status_name(st), '|', address);
    let pv = EventParamsView::TxAddress(msgid, address, st);
    assert(event_params(FilterKind::Report, Phase::TxMail, minor, p) == Ok::<_, Seq<char>>(pv));
    let c = CallbackView::TxMail(d, msgid, address, st);
    let base = session_or_new(before, reqid);
    let s = choose|s: &Session|
        s@ == session_seen(base, FilterKind::Report, Phase::TxMail, p, pv) && #[trigger] calls_made::<F>(c, s, reqid, 0, res);
    assert(calls_made::<F>(c, s, reqid, 0, res));
    let (m, t) = choose|m: &mut F, t: &str| t@ == address && #[trigger] call_ensures(F::on_report_tx_mail, (m, s, d, msgid, t, st), ());
    assert(call_ensures(F::on_report_tx_mail, (m, s, d, msgid, t, st), ()));
}

/// A connection event `rdns|fcrdns|src|dst`, request or report, with the
/// addresses written the way std displays them, leaves the session with
/// that reverse name and status, the source address from the third field
/// and the destination address from the fourth.
#[verifier::rlimit(50)]
pub proof fn lemma_connect_line(
    before: Map<u64, SessionView>,
    kind: FilterKind,
    major: u32,
    minor: u32,
    secs: u64,
    nanos: u32,
    d: Direction,
    reqid: u64,
    token: u64,
    rdns: Seq<char>,
    st: Status,
    src: SocketAddr,
    dst: SocketAddr,
    after: Map<u64, SessionView>,
    res: Result<Vec<String>, ParseError>,
)
    requires
        nanos < 1_000_000_000,
        lacks(rdns, '|'),
        line_outcome(
            before,
            event_line(
                kind, major, minor, secs, nanos, d, if kind == FilterKind::Filter { Phase::Connect } else { Phase::LinkConnect },
                reqid, token, rdns + seq!['|'] + (status_name(st) + seq!['|'] + (socket_text(src) + seq!['|'] + socket_text(dst))),
            ),
            after,
            res,
        ),
    ensures
        after.contains_key(reqid),
        after[reqid].rdns == Some(rdns),
        after[reqid].fcrdns == st,
        after[reqid].src == Some(AddressView::Ip(src)),
        after[reqid].dst == Some(AddressView::Ip(dst)),
        after[reqid] == (SessionView {
            rdns: Some(rdns),
            fcrdns: st,
            src: Some(AddressView::Ip(src)),
            dst: Some(AddressView::Ip(dst)),
            ..session_or_new(before, reqid)
        }),
{
    let phase = if kind == FilterKind::Filter { Phase::Connect } else { Phase::LinkConnect };
    let ts = socket_text(src);
    let td = socket_text(dst);
    let p = rdns + seq!['|'] + (status_name(st) + seq!['|'] + (ts + seq!['|'] + td));
    lemma_line_outcome_event(before, kind, major, minor, secs, nanos, d, phase, reqid, token, p, after, res);
    lemma_status_name(st);
    lemma_socket_text_plain(src);
    lemma_socket_text_roundtrip(src);
    lemma_socket_text_roundtrip(dst);
    lemma_split_once_at(rdns, '|', status_name(st) + seq!['|'] + (ts + seq!['|'] + td));
    lemma_split_once_at(status_name(st), '|', ts + seq!['|'] + td);
    lemma_split_once_at(ts, '|', td);
    assert(connect_params(p, kind == FilterKind::Report) == Ok::<_, Seq<char>>(
        (rdns, st, AddressView::Ip(src), AddressView::Ip(dst)),
    ));
}

/// `resp` is an answer that the callback OpenSMTPD's request `phase`
/// goes to gives, called on some filter with `session` and what the
/// request carries: `connect` goes to `on_filter_connect` with the fields
/// of its parameters, `helo`, `ehlo`, `auth`, `mail-from` and `rcpt-to` to
/// the callback of that name with the parameters, and the others to the
/// callback of their name with the session alone (`rset` to
/// `on_filter_rset`).
pub open spec fn phase_answer<F: Filter>(phase: Phase, session: &Session, p: Seq<char>, resp: FilterResponse) -> bool {
    match phase {
        Phase::Connect => match connect_params(p, false) {
            Ok((rdns, fcrdns, src, dst)) => exists|m: &mut F, t: &str, a: &Address, b: &Address|
                t@ == rdns && a@ == src && b@ == dst && #[trigger] call_ensures(
                    F::on_filter_connect,
                    (m, session, t, fcrdns, a, b),
                    resp,
                ),
            Err(_) => false,
        },
        Phase::Helo => exists|m: &mut F, t: &str| t@ == p && #[trigger] call_ensures(F::on_filter_helo, (m, session, t), resp),
        Phase::Ehlo => exists|m: &mut F, t: &str| t@ == p && #[trigger] call_ensures(F::on_filter_ehlo, (m, session, t), resp),
        Phase::StartTls => exists|m: &mut F| #[trigger] call_ensures(F::on_filter_starttls, (m, session), resp),
        Phase::Auth => exists|m: &mut F, t: &str| t@ == p && #[trigger] call_ensures(F::on_filter_auth, (m, session, t), resp),
        Phase::MailFrom => exists|m: &mut F, t: &str|
            t@ == p && #[trigger] call_ensures(F::on_filter_mail_from, (m, session, t), resp),
        Phase::RcptTo => exists|m: &mut F, t: &str| t@ == p && #[trigger] call_ensures(F::on_filter_rcpt_to, (m, session, t), resp),
        Phase::Data => exists|m: &mut F| #[trigger] call_ensures(F::on_filter_data, (m, session), resp),
        Phase::Reset => exists|m: &mut F| #[trigger] call_ensures(F::on_filter_rset, (m, session), resp),
        Phase::Quit => exists|m: &mut F| #[trigger] call_ensures(F::on_filter_quit, (m, session), resp),
        Phase::Noop => exists|m: &mut F| #[trigger] call_ensures(F::on_filter_noop, (m, session), resp),
        Phase::Help => exists|m: &mut F| #[trigger] call_ensures(F::on_filter_help, (m, session), resp),
        Phase::Wiz => exists|m: &mut F| #[trigger] call_ensures(F::on_filter_wiz, (m, session), resp),
        Phase::Commit => exists|m: &mut F| #[trigger] call_ensures(F::on_filter_commit, (m, session), resp),
        _ => false,
    }
}

/// Every request is answered by the callback of its phase (see
/// `phase_answer`), called with the session as the request leaves it; the
/// reply carries that answer for the request's session and token.
pub proof fn lemma_request_goes_to_its_callback<F: Filter>(
    before: Map<u64, SessionView>,
    line: Seq<char>,
    res: Result<Vec<String>, ParseError>,
    ev: Event,
    p: Seq<char>,
)
    requires
        line_calls::<F>(before, line, res),
        !is_config_line(line),
        spec_parse_event(line) == Ok::<_, Seq<char>>((ev, p)),
        is_decision(ev.kind, ev.phase),
        event_params(ev.kind, ev.phase, ev.version_minor, p) is Ok,
    ensures
        exists|s: &Session, resp: FilterResponse|
            s@ == session_seen(
                session_or_new(before, ev.reqid),
                ev.kind,
                ev.phase,
                p,
                event_params(ev.kind, ev.phase, ev.version_minor, p)->Ok_0,
            ) && #[trigger] phase_answer::<F>(ev.phase, s, p, resp) && lines_result(res) == reply_outcome(
                ev.reqid,
                reply_token(ev),
                resp,
            ),
{
    let pv = event_params(ev.kind, ev.phase, ev.version_minor, p)->Ok_0;
    lemma_request_reply::<F>(before, line, res, ev, p, pv);
    let (s, resp) = choose|s: &Session, resp: FilterResponse|
        s@ == session_seen(session_or_new(before, ev.reqid), ev.kind, ev.phase, p, pv) && #[trigger] request_answer::<F>(
            callback_of(ev.kind, ev.phase, ev.direction, p, pv),
            s,
            resp,
        ) && lines_result(res) == reply_outcome(ev.reqid, reply_token(ev), resp);
    assert(phase_answer::<F>(ev.phase, s, p, resp));
}

/// The report callback OpenSMTPD's report `phase` in direction `d` goes to
/// has been called, on some filter, with `session`, the direction and what
/// the report carries: each report goes to the `on_report_*` callback of
/// its name, with the fields its parameters read as (`tx-mail` to
/// `on_report_tx_mail` with the message id, address and status).
pub open spec fn phase_report<F: Filter>(phase: Phase, d: Direction, session: &Session, minor: u32, p: Seq<char>) -> bool {
    match phase {
        Phase::LinkConnect => match connect_params(p, true) {
            Ok((rdns, fcrdns, src, dst)) => exists|m: &mut F, t: &str, a: &Address, b: &Address|
                t@ == rdns && a@ == src && b@ == dst && #[trigger] call_ensures(
                    F::on_report_link_connect,
                    (m, session, d, t, fcrdns, a, b),
                    (),
                ),
            Err(_) => false,
        },
        Phase::LinkDisconnect => exists|m: &mut F| #[trigger] call_ensures(F::on_report_link_disconnect, (m, session, d), ()),
        Phase::LinkGreeting => exists|m: &mut F, t: &str|
            t@ == p && #[trigger] call_ensures(F::on_report_link_greeting, (m, session, d, t), ()),
        Phase::LinkIdentify => exists|m: &mut F, t: &str|
            t@ == p && #[trigger] call_ensures(F::on_report_link_identify, (m, session, d, t), ()),
        Phase::LinkTls => exists|m: &mut F, t: &str| t@ == p && #[trigger] call_ensures(F::on_report_link_tls, (m, session, d, t), ()),
        Phase::LinkAuth => match auth_params(p) {
            Ok((user, st)) => exists|m: &mut F, t: &str|
                t@ == user && #[trigger] call_ensures(F::on_report_link_auth, (m, session, d, t, st), ()),
            Err(_) => false,
        },
        Phase::TxBegin => match msgid_param(p) {
            Ok(id) => exists|m: &mut F| #[trigger] call_ensures(F::on_report_tx_begin, (m, session, d, id), ()),
            Err(_) => false,
        },
        Phase::TxMail => match tx_address_params(p, minor) {
            Ok((id, a, st)) => exists|m: &mut F, t: &str|
                t@ == a && #[trigger] call_ensures(F::on_report_tx_mail, (m, session, d, id, t, st), ()),
            Err(_) => false,
        },
        Phase::TxRcpt => match tx_address_params(p, minor) {
            Ok((id, a, st)) => exists|m: &mut F, t: &str|
                t@ == a && #[trigger] call_ensures(F::on_report_tx_rcpt, (m, session, d, id, t, st), ()),
            Err(_) => false,
        },
        Phase::TxEnvelope => match envelope_params(p) {
            Ok((id, e)) => exists|m: &mut F| #[trigger] call_ensures(F::on_report_tx_envelope, (m, session, d, id, e), ()),
            Err(_) => false,
        },
        Phase::TxData => match tx_data_params(p) {
            Ok((id, st)) => exists|m: &mut F| #[trigger] call_ensures(F::on_report_tx_data, (m, session, d, id, st), ()),
            Err(_) => false,
        },
        Phase::TxCommit => match commit_params(p) {
            Ok((id, n)) => exists|m: &mut F| #[trigger] call_ensures(F::on_report_tx_commit, (m, session, d, id, n), ()),
            Err(_) => false,
        },
        Phase::TxRollback => match msgid_param(p) {
            Ok(id) => exists|m: &mut F| #[trigger] call_ensures(F::on_report_tx_rollback, (m, session, d, id), ()),
            Err(_) => false,
        },
        Phase::ProtocolClient => exists|m: &mut F, t: &str|
            t@ == p && #[trigger] call_ensures(F::on_report_protocol_client, (m, session, d, t), ()),
        Phase::ProtocolServer => exists|m: &mut F, t: &str|
            t@ == p && #[trigger] call_ensures(F::on_report_protocol_server, (m, session, d, t), ()),
        Phase::FilterResponse => exists|m: &mut F, t: &str|
            t@ == p && #[trigger] call_ensures(F::on_report_filter_response, (m, session, d, t), ()),
        Phase::Timeout => exists|m: &mut F| #[trigger] call_ensures(F::on_report_timeout, (m, session, d), ()),
        _ => true,
    }
}

/// Every report goes to the callback of its phase (see `phase_report`),
/// called with the session as the report leaves it, and nothing is sent
/// back.
pub proof fn lemma_report_goes_to_its_callback<F: Filter>(
    before: Map<u64, SessionView>,
    line: Seq<char>,
    after: Map<u64, SessionView>,
    res: Result<Vec<String>, ParseError>,
    ev: Event,
    p: Seq<char>,
)
    requires
        line_calls::<F>(before, line, res),
        line_outcome(before, line, after, res),
        !is_config_line(line),
        spec_parse_event(line) == Ok::<_, Seq<char>>((ev, p)),
        ev.kind == FilterKind::Report,
        event_params(ev.kind, ev.phase, ev.version_minor, p) is Ok,
    ensures
        exists|s: &Session|
            s@ == session_seen(
                session_or_new(before, ev.reqid),
                ev.kind,
                ev.phase,
                p,
                event_params(ev.kind, ev.phase, ev.version_minor, p)->Ok_0,
            ) && #[trigger] phase_report::<F>(ev.phase, ev.direction, s, ev.version_minor, p),
        res matches Ok(out) && out.len() == 0,
{
    let pv = event_params(ev.kind, ev.phase, ev.version_minor, p)->Ok_0;
    lemma_callback_kind(ev.kind, ev.phase, ev.version_minor, ev.direction, p, pv);
    let c = callback_of(ev.kind, ev.phase, ev.direction, p, pv);
    let s = choose|s: &Session|
        s@ == session_seen(session_or_new(before, ev.reqid), ev.kind, ev.phase, p, pv) && #[trigger] calls_made::<F>(
            c,
            s,
            ev.reqid,
            reply_token(ev),
            res,
        );
    assert(report_made::<F>(c, s));
    assert(phase_report::<F>(ev.phase, ev.direction, s, ev.version_minor, p));
}

/// A greeting, identity or TLS report stores its text, whole, as the
/// session's greeting, identity or ciphers respectively, and changes
/// nothing else.
#[verifier::rlimit(50)]
pub proof fn lemma_link_text_line(
    before: Map<u64, SessionView>,
    major: u32,
    minor: u32,
    secs: u64,
    nanos: u32,
    d: Direction,
    phase: Phase,
    reqid: u64,
    text: Seq<char>,
    after: Map<u64, SessionView>,
    res: Result<Vec<String>, ParseError>,
)
    requires
        nanos < 1_000_000_000,
        phase == Phase::LinkGreeting || phase == Phase::LinkIdentify || phase == Phase::LinkTls,
        line_outcome(before, event_line(FilterKind::Report, major, minor, secs, nanos, d, phase, reqid, 0, text), after, res),
    ensures
        res matches Ok(out) && out.len() == 0,
        phase == Phase::LinkGreeting ==> after == before.insert(
            reqid,
            (SessionView { greeting: Some(text), ..session_or_new(before, reqid) }),
        ),
        phase == Phase::LinkIdentify ==> after == before.insert(
            reqid,
            (SessionView { identity: Some(text), ..session_or_new(before, reqid) }),
        ),
        phase == Phase::LinkTls ==> after == before.insert(
            reqid,
            (SessionView { ciphers: Some(text), ..session_or_new(before, reqid) }),
        ),
{
    lemma_line_outcome_event(before, FilterKind::Report, major, minor, secs, nanos, d, phase, reqid, 0, text, after, res);
}

/// A transaction start stores its message id, a sender report (protocol
/// 0.6 or later, `msgid|status|address`) its address as the sender, and an
/// envelope report (`msgid|evpid`) its envelope id; nothing else changes.
#[verifier::rlimit(50)]
pub proof fn lemma_tx_fields_line(
    before: Map<u64, SessionView>,
    major: u32,
    minor: u32,
    secs: u64,
    nanos: u32,
    d: Direction,
    phase: Phase,
    reqid: u64,
    msgid: u32,
    st: Status,
    address: Seq<char>,
    evpid: u64,
    after: Map<u64, SessionView>,
    res: Result<Vec<String>, ParseError>,
)
    requires
        nanos < 1_000_000_000,
        minor >= 6,
        phase == Phase::TxBegin || phase == Phase::TxMail || phase == Phase::TxEnvelope,
        line_outcome(
            before,
            event_line(
                FilterKind::Report, major, minor, secs, nanos, d, phase, reqid, 0,
                if phase == Phase::TxBegin {
                    hex_text(msgid as nat)
                } else if phase == Phase::TxMail {
                    hex_text(msgid as nat) + seq!['|'] + (status_name(st) + seq!['|'] + address)
                } else {
                    hex_text(msgid as nat) + seq!['|'] + hex_text(evpid as nat)
                },
            ),
            after,
            res,
        ),
    ensures
        res matches Ok(out) && out.len() == 0,
        phase == Phase::TxBegin ==> after == before.insert(
            reqid,
            (SessionView { msgid: Some(msgid), ..session_or_new(before, reqid) }),
        ),
        phase == Phase::TxMail ==> after == before.insert(
            reqid,
            (SessionView { mailfrom: Some(address), ..session_or_new(before, reqid) }),
        ),
        phase == Phase::TxEnvelope ==> after == before.insert(
            reqid,
            (SessionView { evpid: Some(evpid), ..session_or_new(before, reqid) }),
        ),
{
    let p = if phase == Phase::TxBegin {
        hex_text(msgid as nat)
    } else if phase == Phase::TxMail {
        hex_text(msgid as nat) + seq!['|'] + (status_name(st) + seq!['|'] + address)
    } else {
        hex_text(msgid as nat) + seq!['|'] + hex_text(evpid as nat)
    };
    lemma_line_outcome_event(before, FilterKind::Report, major, minor, secs, nanos, d, phase, reqid, 0, p, after, res);
    lemma_hex_msgid(msgid);
    if phase == Phase::TxMail {
        lemma_status_name(st);
        lemma_split_once_at(hex_text(msgid as nat), '|', status_name(st) + seq!['|'] + address);
        lemma_split_once_at(status_name(st), '|', address);
    } else if phase == Phase::TxEnvelope {
        lemma_hex_text(evpid as nat, u64_max());
        assert(digit_value(hex_text(evpid as nat)[0], 16) is Some);
        lemma_split_once_at(hex_text(msgid as nat), '|', hex_text(evpid as nat));
    }
}

/// What each answer tells the daemon: one `filter-result` reply for the
/// request, whose action is `proceed`, `junk`, `reject|<code> <message>`,
/// `reject|<code> <class>.<subject>.<detail> <message>`, `disconnect|...`
/// likewise, or `rewrite|<value>`; a message line is no answer and is an
/// error.
pub proof fn lemma_answer_actions(reqid: u64, token: u64, code: u16, class: u8, subject: u16, detail: u16, message: String)
    ensures
        reply_outcome(reqid, token, FilterResponse::Proceed) == Ok::<_, Seq<char>>(seq![result_text(reqid, token, "proceed"@)]),
        reply_outcome(reqid, token, FilterResponse::Junk) == Ok::<_, Seq<char>>(seq![result_text(reqid, token, "junk"@)]),
        reply_outcome(reqid, token, FilterResponse::Reject { code, message }) == Ok::<_, Seq<char>>(
            seq![result_text(reqid, token, "reject|"@ + dec_text(code as nat) + seq![' '] + message@)],
        ),
        reply_outcome(reqid, token, FilterResponse::Disconnect { code, message }) == Ok::<_, Seq<char>>(
            seq![result_text(reqid, token, "disconnect|"@ + dec_text(code as nat) + seq![' '] + message@)],
        ),
        reply_outcome(reqid, token, FilterResponse::RejectEnhanced { code, class, subject, detail, message }) == Ok::<_, Seq<char>>(
            seq![result_text(reqid, token, "reject|"@ + dec_text(code as nat) + seq![' '] + dec_text(class as nat) + seq!['.']
                + dec_text(subject as nat) + seq!['.'] + dec_text(detail as nat) + seq![' '] + message@)],
        ),
        reply_outcome(reqid, token, FilterResponse::DisconnectEnhanced { code, class, subject, detail, message }) == Ok::<_, Seq<char>>(
            seq![result_text(reqid, token, "disconnect|"@ + dec_text(code as nat) + seq![' '] + dec_text(class as nat) + seq!['.']
                + dec_text(subject as nat) + seq!['.'] + dec_text(detail as nat) + seq![' '] + message@)],
        ),
        reply_outcome(reqid, token, FilterResponse::Rewrite(message)) == Ok::<_, Seq<char>>(
            seq![result_text(reqid, token, "rewrite|"@ + message@)],
        ),
        reply_outcome(reqid, token, FilterResponse::DataLine(message)) == Err::<Seq<Seq<char>>, _>(
            "DataLine response should not be used here"@,
        ),
{
    assert(("reject|"@ + dec_text(code as nat)).push(' ') + message@ =~= "reject|"@ + dec_text(code as nat) + seq![' '] + message@);
    assert(("disconnect|"@ + dec_text(code as nat)).push(' ') + message@ =~= "disconnect|"@ + dec_text(code as nat) + seq![' ']
        + message@);
    assert(enhanced_action("reject|"@, code, class, subject, detail, message@) =~= "reject|"@ + dec_text(code as nat) + seq![' ']
        + dec_text(class as nat) + seq!['.'] + dec_text(subject as nat) + seq!['.'] + dec_text(detail as nat) + seq![' '] + message@);
    assert(enhanced_action("disconnect|"@, code, class, subject, detail, message@) =~= "disconnect|"@ + dec_text(code as nat)
        + seq![' '] + dec_text(class as nat) + seq!['.'] + dec_text(subject as nat) + seq!['.'] + dec_text(detail as nat) + seq![' ']
        + message@);
}

} // verus!
