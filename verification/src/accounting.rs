//! The host's login accounting: who is logged in on which terminal.
//!
//! A record has fields of fixed width. A text that is longer than its field
//! is cut off at the field's end and is then not followed by a zero byte; a
//! shorter one is followed by zero bytes. A record is found in the log by its
//! terminal line, and where a line has several records the first one
//! counts. The log is changed record by record, never rewritten.

use crate::tty::{get_tty_name, tty_name_of};
use vstd::prelude::*;
use vstd::string::StringSliceAdditionalSpecFns;
use vstd::utf8::encode_utf8;

verus! {

/// The width of the field that names the terminal line.
pub const LINE_WIDTH: usize = 32;

/// The width of the field that identifies the terminal's slot.
pub const ID_WIDTH: usize = 4;

/// The width of the field that names the user.
pub const NAME_WIDTH: usize = 32;

/// The type of a record whose terminal waits for a login.
pub const LOGIN_PROCESS: i16 = 6;

/// The type of a record whose terminal runs a user's session.
pub const USER_PROCESS: i16 = 7;

/// The name that a record carries while nobody is logged in on its terminal.
pub const LOGOUT_NAME: &'static str = "LOGIN";

/// One entry of the accounting log.
#[derive(Clone, Copy, Debug, PartialEq, Eq)]
pub struct AccountingRecord {
    pub record_type: i16,
    pub pid: i32,
    pub line: [u8; LINE_WIDTH],
    pub id: [u8; ID_WIDTH],
    pub user: [u8; NAME_WIDTH],
    pub seconds: i32,
    pub microseconds: i32,
}

/// What a record holds, with the bytes of each field as a sequence.
pub struct RecordView {
    pub record_type: i16,
    pub pid: i32,
    pub line: Seq<u8>,
    pub id: Seq<u8>,
    pub user: Seq<u8>,
    pub seconds: i32,
    pub microseconds: i32,
}

impl View for AccountingRecord {
    type V = RecordView;

    open spec fn view(&self) -> RecordView {
        RecordView {
            record_type: self.record_type,
            pid: self.pid,
            line: self.line@,
            id: self.id@,
            user: self.user@,
            seconds: self.seconds,
            microseconds: self.microseconds,
        }
    }
}

/// The accounting log: its records, in the order of the file.
#[derive(Clone, Debug, PartialEq, Eq)]
pub struct AccountingLog {
    pub records: Vec<AccountingRecord>,
}

impl View for AccountingLog {
    type V = Seq<RecordView>;

    open spec fn view(&self) -> Seq<RecordView> {
        self.records@.map_values(|record: AccountingRecord| record@)
    }
}

/// What a field of `width` bytes holds for a text of the bytes `bytes`: the
/// bytes as far as they fit, then zeros.
pub open spec fn fixed_width(bytes: Seq<u8>, width: nat) -> Seq<u8> {
    Seq::new(
        width,
        |i: int|
            if i < bytes.len() {
                bytes[i]
            } else {
                0u8
            },
    )
}

/// The number of bytes of the text that `field` holds: those before its
/// first zero byte, or all of them where it holds no zero byte.
pub open spec fn text_len(field: Seq<u8>) -> nat
    decreases field.len(),
{
    if field.len() == 0 || field[0] == 0 {
        0
    } else {
        1 + text_len(field.skip(1))
    }
}

/// The bytes of the text that `field` holds.
pub open spec fn field_text(field: Seq<u8>) -> Seq<u8> {
    field.take(text_len(field) as int)
}

/// The text of a field ends at the field's end or before a zero byte, and
/// holds no zero byte.
pub proof fn lemma_text_len(field: Seq<u8>)
    ensures
        text_len(field) <= field.len(),
        forall|i: int| 0 <= i < text_len(field) ==> #[trigger] field[i] != 0,
        text_len(field) < field.len() ==> field[text_len(field) as int] == 0,
    decreases field.len(),
{
    if field.len() > 0 && field[0] != 0 {
        let rest = field.skip(1);
        lemma_text_len(rest);
        assert forall|i: int| 0 <= i < text_len(field) implies #[trigger] field[i] != 0 by {
            if i > 0 {
                assert(field[i] == rest[i - 1]);
            }
        }
        if text_len(field) < field.len() {
            assert(field[text_len(field) as int] == rest[text_len(rest) as int]);
        }
    }
}

/// The bytes before the first zero byte of `field` are `n` many, where the
/// first `n` bytes are not zero and the next one, if there is one, is.
pub proof fn lemma_text_len_is(field: Seq<u8>, n: int)
    requires
        0 <= n <= field.len(),
        forall|i: int| 0 <= i < n ==> #[trigger] field[i] != 0,
        n < field.len() ==> field[n] == 0,
    ensures
        text_len(field) == n,
    decreases n,
{
    if n > 0 {
        let rest = field.skip(1);
        assert(field[0] != 0);
        assert forall|i: int| 0 <= i < n - 1 implies #[trigger] rest[i] != 0 by {
            assert(rest[i] == field[i + 1]);
        }
        lemma_text_len_is(rest, n - 1);
    }
}

/// A text without zero byte is read back from its field as far as the field
/// has room for it.
pub proof fn lemma_field_reads_back(bytes: Seq<u8>, width: nat)
    requires
        forall|i: int| 0 <= i < bytes.len() ==> #[trigger] bytes[i] != 0,
    ensures
        field_text(fixed_width(bytes, width)) == if bytes.len() <= width {
            bytes
        } else {
            bytes.take(width as int)
        },
{
    let field = fixed_width(bytes, width);
    let n: int = if bytes.len() <= width {
        bytes.len() as int
    } else {
        width as int
    };
    assert forall|i: int| 0 <= i < n implies #[trigger] field[i] != 0 by {
        assert(field[i] == bytes[i]);
    }
    lemma_text_len_is(field, n);
    assert(field.take(n) =~= bytes.take(n));
    if bytes.len() <= width {
        assert(bytes.take(n) =~= bytes);
    }
}

/// The line field of the terminal named `tty_name`.
pub open spec fn line_field(tty_name: Seq<char>) -> Seq<u8> {
    fixed_width(encode_utf8(tty_name), LINE_WIDTH as nat)
}

/// The record of a login of `username` on the terminal `tty`, given with or
/// without its device directory, for the process `pid` at the given time.
/// The slot id holds the first bytes of the line.
pub open spec fn login_view(
    username: Seq<char>,
    tty: Seq<char>,
    pid: i32,
    seconds: i32,
    microseconds: i32,
) -> RecordView {
    RecordView {
        record_type: USER_PROCESS,
        pid,
        line: line_field(tty_name_of(tty)),
        id: fixed_width(encode_utf8(tty_name_of(tty)), ID_WIDTH as nat),
        user: fixed_width(encode_utf8(username), NAME_WIDTH as nat),
        seconds,
        microseconds,
    }
}

/// `before` marked as free: its type is that of a terminal that waits for a
/// login, its user is [`LOGOUT_NAME`], and nothing else is changed.
pub open spec fn logout_view(before: RecordView) -> RecordView {
    RecordView {
        record_type: LOGIN_PROCESS,
        user: fixed_width(encode_utf8(LOGOUT_NAME@), NAME_WIDTH as nat),
        ..before
    }
}

/// The index of the first record of `records` whose line field is `line`;
/// the number of records where there is none.
pub open spec fn position_of_line(records: Seq<RecordView>, line: Seq<u8>) -> int
    decreases records.len(),
{
    if records.len() == 0 {
        0
    } else if records[0].line == line {
        0
    } else {
        1 + position_of_line(records.skip(1), line)
    }
}

/// Whether some record of `records` has the line field `line`.
pub open spec fn has_line(records: Seq<RecordView>, line: Seq<u8>) -> bool {
    exists|i: int| 0 <= i < records.len() && (#[trigger] records[i]).line == line
}

/// The log `before` once `record` was written to it: `record` stands in the
/// place of the first record of its line, or, where its line had no record,
/// at the end. No other record is touched.
pub open spec fn log_after_login(before: Seq<RecordView>, record: RecordView) -> Seq<RecordView> {
    let at = position_of_line(before, record.line);
    if at < before.len() {
        before.update(at, record)
    } else {
        before.push(record)
    }
}

/// The log `before` once the terminal named `tty_name` was marked as free in
/// it: the first record of the terminal's line is marked and no other record
/// is touched; where the line has no record, the log is as it was.
pub open spec fn log_after_logout(before: Seq<RecordView>, tty_name: Seq<char>) -> Seq<RecordView> {
    let at = position_of_line(before, line_field(tty_name));
    if at < before.len() {
        before.update(at, logout_view(before[at]))
    } else {
        before
    }
}

/// [`position_of_line`] is the least index of a record with the line, and
/// the number of records where no record has it.
pub proof fn lemma_position_of_line(records: Seq<RecordView>, line: Seq<u8>, at: int)
    requires
        0 <= at <= records.len(),
        forall|j: int| 0 <= j < at ==> (#[trigger] records[j]).line != line,
        at < records.len() ==> records[at].line == line,
    ensures
        position_of_line(records, line) == at,
        has_line(records, line) == (at < records.len()),
    decreases at,
{
    if at > 0 {
        let rest = records.skip(1);
        assert(records[0].line != line);
        assert forall|j: int| 0 <= j < at - 1 implies (#[trigger] rest[j]).line != line by {
            assert(rest[j] == records[j + 1]);
        }
        lemma_position_of_line(rest, line, at - 1);
    }
    if at < records.len() {
        assert(records[at].line == line);
    }
}

/// Marking a terminal as free in a log that has no record of its line
/// changes nothing.
pub proof fn lemma_logout_without_record(before: Seq<RecordView>, tty_name: Seq<char>)
    requires
        !has_line(before, line_field(tty_name)),
    ensures
        log_after_logout(before, tty_name) == before,
{
    lemma_position_is_least(before, line_field(tty_name));
}

/// [`position_of_line`] is an index of a record with the line where there is
/// one, and the number of records where there is none.
pub proof fn lemma_position_is_least(records: Seq<RecordView>, line: Seq<u8>)
    ensures
        0 <= position_of_line(records, line) <= records.len(),
        has_line(records, line) == (position_of_line(records, line) < records.len()),
        position_of_line(records, line) < records.len() ==> records[position_of_line(
            records,
            line,
        )].line == line,
        forall|j: int|
            0 <= j < position_of_line(records, line) ==> (#[trigger] records[j]).line != line,
    decreases records.len(),
{
    if records.len() > 0 && records[0].line != line {
        let rest = records.skip(1);
        lemma_position_is_least(rest, line);
        let at = position_of_line(rest, line);
        assert forall|j: int| 0 <= j < at + 1 implies (#[trigger] records[j]).line != line by {
            if j > 0 {
                assert(rest[j - 1] == records[j]);
            }
        }
        if at < rest.len() {
            assert(rest[at] == records[at + 1]);
        }
        lemma_position_of_line(records, line, at + 1);
    } else if records.len() > 0 {
        lemma_position_of_line(records, line, 0);
    } else {
        lemma_position_of_line(records, line, 0);
    }
}

/// Writing a login touches the records of one line only: every record of
/// another line stays where and as it was, and the first record of the
/// login's line is the login.
pub proof fn lemma_login_touches_one_line(before: Seq<RecordView>, record: RecordView)
    ensures
        ({
            let after = log_after_login(before, record);
            &&& before.len() <= after.len() <= before.len() + 1
            &&& forall|i: int|
                0 <= i < before.len() && (#[trigger] before[i]).line != record.line ==> after[i]
                    == before[i]
            &&& position_of_line(after, record.line) == position_of_line(before, record.line)
            &&& after[position_of_line(after, record.line)] == record
        }),
{
    let at = position_of_line(before, record.line);
    let after = log_after_login(before, record);
    lemma_position_is_least(before, record.line);
    assert forall|j: int| 0 <= j < at implies (#[trigger] after[j]).line != record.line by {
        assert(after[j] == before[j]);
    }
    lemma_position_of_line(after, record.line, at);
}

/// Marking a terminal as free touches the records of one line only: every
/// record of another line stays where and as it was.
pub proof fn lemma_logout_touches_one_line(before: Seq<RecordView>, tty_name: Seq<char>)
    ensures
        ({
            let after = log_after_logout(before, tty_name);
            &&& after.len() == before.len()
            &&& forall|i: int|
                0 <= i < before.len() && (#[trigger] before[i]).line != line_field(tty_name)
                    ==> after[i] == before[i]
            &&& forall|i: int| 0 <= i < before.len() ==> (#[trigger] after[i]).line == before[i].line
        }),
{
    lemma_position_is_least(before, line_field(tty_name));
}

/// Marking two terminals of different lines as free gives the same log in
/// either order.
pub proof fn lemma_logouts_commute(before: Seq<RecordView>, first: Seq<char>, second: Seq<char>)
    requires
        line_field(first) != line_field(second),
    ensures
        log_after_logout(log_after_logout(before, first), second) == log_after_logout(
            log_after_logout(before, second),
            first,
        ),
{
    let a = line_field(first);
    let b = line_field(second);
    let at_a = position_of_line(before, a);
    let at_b = position_of_line(before, b);
    lemma_position_is_least(before, a);
    lemma_position_is_least(before, b);
    let after_a = log_after_logout(before, first);
    let after_b = log_after_logout(before, second);
    lemma_logout_touches_one_line(before, first);
    lemma_logout_touches_one_line(before, second);
    assert forall|j: int| 0 <= j < at_b implies (#[trigger] after_a[j]).line != b by {
        assert(after_a[j].line == before[j].line);
    }
    if at_b < before.len() {
        assert(after_a[at_b].line == before[at_b].line);
    }
    lemma_position_of_line(after_a, b, at_b);
    assert forall|j: int| 0 <= j < at_a implies (#[trigger] after_b[j]).line != a by {
        assert(after_b[j].line == before[j].line);
    }
    if at_a < before.len() {
        assert(after_b[at_a].line == before[at_a].line);
    }
    lemma_position_of_line(after_b, a, at_a);
    assert(log_after_logout(after_a, second) =~= log_after_logout(after_b, first));
}

/// The field of `N` bytes that holds `text`.
pub fn field<const N: usize>(text: &str) -> (out: [u8; N])
    ensures
        out@ == fixed_width(encode_utf8(text@), N as nat),
{
    let bytes = text.as_bytes();
    let mut out = [0u8;N];
    let mut i: usize = 0;
    while i < N && i < bytes.len()
        invariant
            i <= N,
            i <= bytes@.len(),
            bytes@ == text.spec_bytes(),
            forall|j: int| 0 <= j < i ==> out@[j] == bytes@[j],
            forall|j: int| i <= j < N ==> out@[j] == 0,
        decreases N - i,
    {
        out[i] = bytes[i];
        i += 1;
    }
    assert(out@ =~= fixed_width(encode_utf8(text@), N as nat));
    out
}

/// The bytes of the text that `field` holds: those before its first zero
/// byte, or all of them where it holds no zero byte.
pub fn text_of_field<const N: usize>(field: &[u8; N]) -> (text: Vec<u8>)
    ensures
        text@ == field_text(field@),
{
    let mut text: Vec<u8> = Vec::new();
    let mut i: usize = 0;
    while i < N && field[i] != 0
        invariant
            i <= N,
            text@ == field@.take(i as int),
            forall|j: int| 0 <= j < i ==> field@[j] != 0,
        decreases N - i,
    {
        text.push(field[i]);
        assert(text@ =~= field@.take(i + 1));
        i += 1;
    }
    proof {
        lemma_text_len_is(field@, i as int);
    }
    text
}

/// Whether two fields hold the same bytes.
pub fn same_field<const N: usize>(a: &[u8; N], b: &[u8; N]) -> (same: bool)
    ensures
        same == (a@ == b@),
{
    let mut i: usize = 0;
    while i < N
        invariant
            i <= N,
            forall|j: int| 0 <= j < i ==> a@[j] == b@[j],
        decreases N - i,
    {
        if a[i] != b[i] {
            return false;
        }
        i += 1;
    }
    assert(a@ =~= b@);
    true
}

impl AccountingLog {
    /// A log without records.
    pub fn new() -> (log: AccountingLog)
        ensures
            log@ == Seq::<RecordView>::empty(),
    {
        let log = AccountingLog { records: Vec::new() };
        assert(log@ =~= Seq::<RecordView>::empty());
        log
    }

    /// The index of the first record whose line field is `line`; the number
    /// of records where there is none.
    pub fn position(&self, line: &[u8; LINE_WIDTH]) -> (at: usize)
        ensures
            at == position_of_line(self@, line@),
            at <= self.records@.len(),
            has_line(self@, line@) == (at < self.records@.len()),
    {
        let mut at: usize = 0;
        while at < self.records.len()
            invariant
                at <= self.records@.len(),
                forall|j: int| 0 <= j < at ==> (#[trigger] self@[j]).line != line@,
            decreases self.records@.len() - at,
        {
            if same_field(&self.records[at].line, line) {
                proof {
                    lemma_position_of_line(self@, line@, at as int);
                }
                return at;
            }
            at += 1;
        }
        proof {
            lemma_position_of_line(self@, line@, at as int);
        }
        at
    }
}

/// The record of a login of `username` on the terminal `tty` for the process
/// `pid`, at the given time.
pub fn login_record(username: &str, tty: &str, pid: i32, seconds: i32, microseconds: i32) -> (record:
    AccountingRecord)
    ensures
        record@ == login_view(username@, tty@, pid, seconds, microseconds),
{
    let name = get_tty_name(tty);
    AccountingRecord {
        record_type: USER_PROCESS,
        pid,
        line: field::<LINE_WIDTH>(name.as_str()),
        id: field::<ID_WIDTH>(name.as_str()),
        user: field::<NAME_WIDTH>(username),
        seconds,
        microseconds,
    }
}

/// `record` marked as free.
pub fn logout_record(record: &AccountingRecord) -> (freed: AccountingRecord)
    ensures
        freed@ == logout_view(record@),
{
    AccountingRecord {
        record_type: LOGIN_PROCESS,
        pid: record.pid,
        line: record.line,
        id: record.id,
        user: field::<NAME_WIDTH>(LOGOUT_NAME),
        seconds: record.seconds,
        microseconds: record.microseconds,
    }
}

/// Writes the login of `username` on the terminal `tty` to `log`.
pub fn add_utmpx_entry(
    log: &mut AccountingLog,
    username: &str,
    tty: &str,
    pid: i32,
    seconds: i32,
    microseconds: i32,
)
    ensures
        final(log)@ == log_after_login(
            old(log)@,
            login_view(username@, tty@, pid, seconds, microseconds),
        ),
{
    let record = login_record(username, tty, pid, seconds, microseconds);
    let at = log.position(&record.line);
    if at < log.records.len() {
        log.records[at] = record;
    } else {
        log.records.push(record);
    }
    assert(log@ =~= log_after_login(old(log)@, record@));
}

/// Marks the terminal named `tty_name` as free in `log`, and says whether the
/// log had a record of the terminal. Where it had none, nothing is changed.
pub fn remove_utmpx_entry(log: &mut AccountingLog, tty_name: &str) -> (updated: bool)
    ensures
        final(log)@ == log_after_logout(old(log)@, tty_name@),
        updated == has_line(old(log)@, line_field(tty_name@)),
        !updated ==> final(log)@ == old(log)@,
{
    let line = field::<LINE_WIDTH>(tty_name);
    let at = log.position(&line);
    if at < log.records.len() {
        let freed = logout_record(&log.records[at]);
        log.records[at] = freed;
        assert(log@ =~= log_after_logout(old(log)@, tty_name@));
        true
    } else {
        false
    }
}

} // verus!
