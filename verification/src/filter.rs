//! What a filter answers, and the callbacks a filter implements.

use vstd::prelude::*;
use crate::types::{Address, AuthStatus, Direction, Session, Status};

verus! {

/// A filter's answer to a request: let the session go on, mark it as junk,
/// refuse the command (with a plain or an enhanced status code), drop the
/// connection, or rewrite the parameter. `DataLine` is not an answer to a
/// request: message lines are answered with the lines themselves.
pub enum FilterResponse {
    Proceed,
    Junk,
    Reject { code: u16, message: String },
    RejectEnhanced { code: u16, class: u8, subject: u16, detail: u16, message: String },
    Disconnect { code: u16, message: String },
    DisconnectEnhanced { code: u16, class: u8, subject: u16, detail: u16, message: String },
    Rewrite(String),
    DataLine(String),
}

/// The callbacks of a filter. Each `on_filter_*` method decides on one
/// request (by default: proceed); `on_filter_data_line` gives the lines to
/// send in place of one message line (by default: the line itself); the
/// `on_report_*` methods and `on_config*` observe (by default: nothing).
/// Every callback sees the session with what its event reports already
/// recorded; the end of a transaction is forgotten, and the end of a session
/// dropped, only after the callback.
#[allow(unused_variables)]
pub trait Filter {
    fn on_filter_connect(
        &mut self,
        session: &Session,
        rdns: &str,
        fcrdns: Status,
        src: &Address,
        dst: &Address,
    ) -> (r: FilterResponse)
        default_ensures
            r is Proceed,
    {
        FilterResponse::Proceed
    }

    fn on_filter_helo(&mut self, session: &Session, identity: &str) -> (r: FilterResponse)
        default_ensures
            r is Proceed,
    {
        FilterResponse::Proceed
    }

    fn on_filter_ehlo(&mut self, session: &Session, identity: &str) -> (r: FilterResponse)
        default_ensures
            r is Proceed,
    {
        FilterResponse::Proceed
    }

    fn on_filter_starttls(&mut self, session: &Session) -> (r: FilterResponse)
        default_ensures
            r is Proceed,
    {
        FilterResponse::Proceed
    }

    fn on_filter_auth(&mut self, session: &Session, auth: &str) -> (r: FilterResponse)
        default_ensures
            r is Proceed,
    {
        FilterResponse::Proceed
    }

    fn on_filter_mail_from(&mut self, session: &Session, from: &str) -> (r: FilterResponse)
        default_ensures
            r is Proceed,
    {
        FilterResponse::Proceed
    }

    fn on_filter_rcpt_to(&mut self, session: &Session, to: &str) -> (r: FilterResponse)
        default_ensures
            r is Proceed,
    {
        FilterResponse::Proceed
    }

    fn on_filter_data(&mut self, session: &Session) -> (r: FilterResponse)
        default_ensures
            r is Proceed,
    {
        FilterResponse::Proceed
    }

    fn on_filter_data_line(&mut self, session: &Session, line: &str) -> (r: Vec<String>)
        default_ensures
            r@.len() == 1,
            r@[0]@ == line@,
    {
        let mut lines: Vec<String> = Vec::new();
        lines.push(String::from_str(line));
        lines
    }

    fn on_filter_rset(&mut self, session: &Session) -> (r: FilterResponse)
        default_ensures
            r is Proceed,
    {
        FilterResponse::Proceed
    }

    fn on_filter_quit(&mut self, session: &Session) -> (r: FilterResponse)
        default_ensures
            r is Proceed,
    {
        FilterResponse::Proceed
    }

    fn on_filter_noop(&mut self, session: &Session) -> (r: FilterResponse)
        default_ensures
            r is Proceed,
    {
        FilterResponse::Proceed
    }

    fn on_filter_help(&mut self, session: &Session) -> (r: FilterResponse)
        default_ensures
            r is Proceed,
    {
        FilterResponse::Proceed
    }

    fn on_filter_wiz(&mut self, session: &Session) -> (r: FilterResponse)
        default_ensures
            r is Proceed,
    {
        FilterResponse::Proceed
    }

    fn on_filter_commit(&mut self, session: &Session) -> (r: FilterResponse)
        default_ensures
            r is Proceed,
    {
        FilterResponse::Proceed
    }

    fn on_report_link_connect(
        &mut self,
        session: &Session,
        direction: Direction,
        rdns: &str,
        fcrdns: Status,
        src: &Address,
        dst: &Address,
    ) {
    }

    fn on_report_link_disconnect(&mut self, session: &Session, direction: Direction) {
    }

    fn on_report_link_greeting(&mut self, session: &Session, direction: Direction, hostname: &str) {
    }

    fn on_report_link_identify(&mut self, session: &Session, direction: Direction, identity: &str) {
    }

    fn on_report_link_tls(&mut self, session: &Session, direction: Direction, ciphers: &str) {
    }

    fn on_report_link_auth(
        &mut self,
        session: &Session,
        direction: Direction,
        username: &str,
        result: AuthStatus,
    ) {
    }

    fn on_report_tx_begin(&mut self, session: &Session, direction: Direction, msgid: u32) {
    }

    fn on_report_tx_mail(
        &mut self,
        session: &Session,
        direction: Direction,
        msgid: u32,
        from: &str,
        status: Status,
    ) {
    }

    fn on_report_tx_rcpt(
        &mut self,
        session: &Session,
        direction: Direction,
        msgid: u32,
        to: &str,
        status: Status,
    ) {
    }

    fn on_report_tx_envelope(&mut self, session: &Session, direction: Direction, msgid: u32, evpid: u64) {
    }

    fn on_report_tx_data(&mut self, session: &Session, direction: Direction, msgid: u32, status: Status) {
    }

    fn on_report_tx_commit(
        &mut self,
        session: &Session,
        direction: Direction,
        msgid: u32,
        msg_size: usize,
    ) {
    }

    fn on_report_tx_rollback(&mut self, session: &Session, direction: Direction, msgid: u32) {
    }

    fn on_report_protocol_client(&mut self, session: &Session, direction: Direction, command: &str) {
    }

    fn on_report_protocol_server(&mut self, session: &Session, direction: Direction, response: &str) {
    }

    fn on_report_filter_response(&mut self, session: &Session, direction: Direction, response: &str) {
    }

    fn on_report_timeout(&mut self, session: &Session, direction: Direction) {
    }

    fn on_config(&mut self, key: &str, value: &str) {
    }

    fn on_config_ready(&mut self) {
    }
}

} // verus!
