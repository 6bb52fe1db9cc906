# opensmtpd_filter

A library for writing OpenSMTPD filters, verified with Verus. A filter is a
program that the mail daemon starts and talks to over a line protocol: the
filter registers the events it wants, then reads one event per line and
answers the requests among them.

## Layout

- `src/` — the verified library.
  - `types.rs`: event kinds, phases, statuses, directions and their wire
    names; timestamps, addresses and the per-session state.
  - `protocol.rs`: reading event lines and addresses, writing
    `filter-result` and `filter-dataline` replies.
  - `runner.rs`: the runner that keeps the registrations and the sessions,
    hands each line to the user's `Filter` and gives back the reply lines.
  - `filter.rs`: the `Filter` trait and `FilterResponse`.
  - `ip.rs`: IPv4 and IPv6 addresses, read in the forms std accepts and
    written the way std displays them.
  - `number.rs`, `text.rs`: integer text and character-level helpers.
- `tests/` — tests of the library.
- `app/` — the standard input/output loop around the runner, and
  conversions to std's address and time types.

Every public function states its result in its contract, except where the
result rests on the user's `Filter`: there the contract states which
callback a line goes to and with what (`callback_for`, `config_call`), and what becomes
of any answer the callback may give. The laws that
relate several functions (round trips of names, numbers and addresses, what
handling a line does to the sessions, what registering keeps) are public
proof functions next to the code they speak of.
