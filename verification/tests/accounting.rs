use loginrs::accounting::{
    add_utmpx_entry, field, login_record, logout_record, remove_utmpx_entry, same_field,
    text_of_field, AccountingLog, AccountingRecord, ID_WIDTH, LINE_WIDTH, LOGIN_PROCESS,
    LOGOUT_NAME, NAME_WIDTH, USER_PROCESS,
};

fn padded<const N: usize>(text: &[u8]) -> [u8; N] {
    let mut out = [0u8; N];
    let mut i = 0;
    while i < N && i < text.len() {
        out[i] = text[i];
        i += 1;
    }
    out
}

fn getty(line: &str, pid: i32) -> AccountingRecord {
    AccountingRecord {
        record_type: LOGIN_PROCESS,
        pid,
        line: padded::<32>(line.as_bytes()),
        id: padded::<4>(line.as_bytes()),
        user: padded::<32>(b"LOGIN"),
        seconds: 100,
        microseconds: 5,
    }
}

#[test]
fn record_layout_constants() {
    assert_eq!(LOGIN_PROCESS, 6);
    assert_eq!(USER_PROCESS, 7);
    assert_eq!(LINE_WIDTH, 32);
    assert_eq!(ID_WIDTH, 4);
    assert_eq!(NAME_WIDTH, 32);
    assert_eq!(LOGOUT_NAME, "LOGIN");
}

#[test]
fn field_pads_a_short_text_with_zeros() {
    let out: [u8; 8] = field::<8>("tty3");
    assert_eq!(out, [b't', b't', b'y', b'3', 0, 0, 0, 0]);
    let out: [u8; 4] = field::<4>("");
    assert_eq!(out, [0, 0, 0, 0]);
}

#[test]
fn field_cuts_a_long_text_at_its_width() {
    let out: [u8; 4] = field::<4>("pts/12");
    assert_eq!(out, [b'p', b't', b's', b'/']);
    let out: [u8; 4] = field::<4>("tty3");
    assert_eq!(out, [b't', b't', b'y', b'3']);
    let out: [u8; 0] = field::<0>("tty3");
    assert_eq!(out, []);
}

#[test]
fn field_cuts_bytes_not_characters() {
    // Each of the three characters takes two bytes.
    let out: [u8; 3] = field::<3>("\u{e9}\u{e9}\u{e9}");
    assert_eq!(out, [0xc3, 0xa9, 0xc3]);
}

#[test]
fn text_is_read_back_from_a_field() {
    assert_eq!(text_of_field(&field::<8>("tty3")), b"tty3".to_vec());
    assert_eq!(text_of_field(&field::<4>("tty3")), b"tty3".to_vec());
    assert_eq!(text_of_field(&field::<4>("pts/12")), b"pts/".to_vec());
    assert_eq!(text_of_field(&field::<4>("")), Vec::<u8>::new());
    assert_eq!(text_of_field(&field::<0>("tty3")), Vec::<u8>::new());
    assert_eq!(text_of_field(&[0u8, b'a', b'b']), Vec::<u8>::new());
    assert_eq!(text_of_field(&[b'a', 0, b'b']), vec![b'a']);
    let record = login_record("alice", "/dev/tty3", 1, 2, 3);
    assert_eq!(text_of_field(&record.user), b"alice".to_vec());
    assert_eq!(text_of_field(&record.line), b"tty3".to_vec());
    assert_eq!(text_of_field(&record.id), b"tty3".to_vec());
    assert_eq!(text_of_field(&logout_record(&record).user), b"LOGIN".to_vec());
}

#[test]
fn same_field_compares_all_bytes() {
    assert!(same_field(&padded::<32>(b"tty3"), &padded::<32>(b"tty3")));
    assert!(!same_field(&padded::<32>(b"tty3"), &padded::<32>(b"tty4")));
    assert!(!same_field(&padded::<32>(b"tty3"), &padded::<32>(b"tty33")));
    let mut last = padded::<32>(b"tty3");
    last[31] = 1;
    assert!(!same_field(&padded::<32>(b"tty3"), &last));
    assert!(same_field(&padded::<0>(b""), &padded::<0>(b"x")));
}

#[test]
fn login_record_holds_the_login() {
    let record = login_record("alice", "/dev/tty3", 4242, 1700000000, 250000);
    assert_eq!(record.record_type, 7);
    assert_eq!(record.pid, 4242);
    assert_eq!(record.line, padded::<32>(b"tty3"));
    assert_eq!(record.id, padded::<4>(b"tty3"));
    assert_eq!(record.user, padded::<32>(b"alice"));
    assert_eq!(record.seconds, 1700000000);
    assert_eq!(record.microseconds, 250000);
}

#[test]
fn login_record_takes_the_short_name_as_well() {
    assert_eq!(login_record("alice", "tty3", 1, 2, 3), login_record("alice", "/dev/tty3", 1, 2, 3));
    let record = login_record("bob", "/dev/pts/12", -1, -2, -3);
    assert_eq!(record.line, padded::<32>(b"pts/12"));
    assert_eq!(record.id, padded::<4>(b"pts/"));
    assert_eq!(record.pid, -1);
    assert_eq!(record.seconds, -2);
    assert_eq!(record.microseconds, -3);
}

#[test]
fn login_record_truncates_long_names() {
    let user = "a-user-name-that-is-much-longer-than-the-field";
    let tty = "/dev/a-terminal-name-that-is-longer-than-its-field";
    let record = login_record(user, tty, 1, 0, 0);
    assert_eq!(&record.user[..], &user.as_bytes()[..32]);
    assert_eq!(&record.line[..], &tty.as_bytes()[5..37]);
    assert_eq!(&record.id[..], &tty.as_bytes()[5..9]);
    // A name of exactly the width fills the field and no zero follows it.
    let exact = "abcdefghijklmnopqrstuvwxyz012345";
    let record = login_record(exact, "tty1", 1, 0, 0);
    assert_eq!(&record.user[..], exact.as_bytes());
}

#[test]
fn logout_record_marks_the_terminal_free() {
    let login = login_record("alice", "/dev/tty3", 4242, 1700000000, 250000);
    let freed = logout_record(&login);
    assert_eq!(freed.record_type, 6);
    assert_eq!(freed.user, padded::<32>(b"LOGIN"));
    assert_eq!(freed.pid, 4242);
    assert_eq!(freed.line, login.line);
    assert_eq!(freed.id, login.id);
    assert_eq!(freed.seconds, 1700000000);
    assert_eq!(freed.microseconds, 250000);
    assert_eq!(logout_record(&freed), freed);
}

#[test]
fn login_is_appended_where_the_line_has_no_record() {
    let mut log = AccountingLog::new();
    assert_eq!(log.records.len(), 0);
    add_utmpx_entry(&mut log, "alice", "/dev/tty3", 4242, 10, 20);
    assert_eq!(log.records, vec![login_record("alice", "tty3", 4242, 10, 20)]);
    add_utmpx_entry(&mut log, "bob", "/dev/tty4", 4300, 11, 21);
    assert_eq!(
        log.records,
        vec![login_record("alice", "tty3", 4242, 10, 20), login_record("bob", "tty4", 4300, 11, 21)]
    );
}

#[test]
fn login_replaces_the_first_record_of_its_line() {
    let mut log = AccountingLog {
        records: vec![getty("tty1", 301), getty("tty3", 303), getty("tty3", 999)],
    };
    add_utmpx_entry(&mut log, "alice", "/dev/tty3", 4242, 10, 20);
    assert_eq!(
        log.records,
        vec![getty("tty1", 301), login_record("alice", "tty3", 4242, 10, 20), getty("tty3", 999)]
    );
}

#[test]
fn logout_rewrites_the_record_of_the_terminal() {
    let mut log = AccountingLog { records: vec![getty("tty1", 301)] };
    add_utmpx_entry(&mut log, "alice", "/dev/tty3", 4242, 10, 20);
    add_utmpx_entry(&mut log, "bob", "/dev/tty4", 4300, 11, 21);
    assert!(remove_utmpx_entry(&mut log, "tty3"));
    let mut freed = login_record("alice", "tty3", 4242, 10, 20);
    freed.record_type = 6;
    freed.user = padded::<32>(b"LOGIN");
    assert_eq!(
        log.records,
        vec![getty("tty1", 301), freed, login_record("bob", "tty4", 4300, 11, 21)]
    );
}

#[test]
fn logout_touches_the_first_record_of_the_line_only() {
    let first = login_record("alice", "tty3", 1, 0, 0);
    let second = login_record("carol", "tty3", 2, 0, 0);
    let mut log = AccountingLog { records: vec![first, second] };
    assert!(remove_utmpx_entry(&mut log, "tty3"));
    assert_eq!(log.records, vec![logout_record(&first), second]);
}

#[test]
fn logout_without_a_record_changes_nothing() {
    let mut log = AccountingLog::new();
    assert!(!remove_utmpx_entry(&mut log, "tty3"));
    assert_eq!(log.records, Vec::<AccountingRecord>::new());

    let records = vec![getty("tty1", 301), login_record("bob", "tty4", 4300, 11, 21)];
    let mut log = AccountingLog { records: records.clone() };
    assert!(!remove_utmpx_entry(&mut log, "tty3"));
    assert_eq!(log.records, records);
    assert!(!remove_utmpx_entry(&mut log, "tty"));
    assert!(!remove_utmpx_entry(&mut log, "tty11"));
    assert!(!remove_utmpx_entry(&mut log, "/dev/tty1"));
    assert_eq!(log.records, records);
}

#[test]
fn logout_twice_is_logout_once() {
    let mut log = AccountingLog::new();
    add_utmpx_entry(&mut log, "alice", "/dev/tty3", 4242, 10, 20);
    assert!(remove_utmpx_entry(&mut log, "tty3"));
    let once = log.clone();
    assert!(remove_utmpx_entry(&mut log, "tty3"));
    assert_eq!(log, once);
}

#[test]
fn terminals_are_told_apart_by_the_truncated_line() {
    let long_a = "a-terminal-name-that-is-longer-than-its-field-A";
    let long_b = "a-terminal-name-that-is-longer-than-its-field-B";
    let mut log = AccountingLog::new();
    add_utmpx_entry(&mut log, "alice", long_a, 1, 0, 0);
    add_utmpx_entry(&mut log, "bob", long_b, 2, 0, 0);
    // Both names are the same as far as the field holds them.
    assert_eq!(log.records, vec![login_record("bob", long_b, 2, 0, 0)]);
}

#[test]
fn position_is_the_first_record_of_the_line() {
    let log = AccountingLog {
        records: vec![getty("tty1", 1), getty("tty2", 2), getty("tty2", 3)],
    };
    assert_eq!(log.position(&padded::<32>(b"tty1")), 0);
    assert_eq!(log.position(&padded::<32>(b"tty2")), 1);
    assert_eq!(log.position(&padded::<32>(b"tty3")), 3);
    assert_eq!(AccountingLog::new().position(&padded::<32>(b"tty1")), 0);
}
