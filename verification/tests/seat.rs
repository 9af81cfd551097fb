use loginrs::seat::{
    fields_in, find_session_and_seat, get_session_and_seat, is_blank_char, line_end, range_is,
    resolve_binding, DEFAULT_SEAT, DEFAULT_SESSION,
};
use loginrs::text::chars_of;

fn pair(session: &str, seat: &str) -> (String, String) {
    (String::from(session), String::from(seat))
}

fn columns(line: &str) -> Vec<String> {
    let text = chars_of(line);
    let ranges = fields_in(&text, 0, text.len());
    let mut out = Vec::new();
    for (from, to) in ranges {
        out.push(text[from..to].iter().collect());
    }
    out
}

#[test]
fn listed_session_is_found_by_user_and_tty() {
    let listing = "1 1000 alice seat0 - tty2\n";
    assert_eq!(get_session_and_seat(listing, "tty2", "alice"), pair("1", "seat0"));
}

#[test]
fn four_column_line_of_the_listing_gives_the_default() {
    // The line has no sixth column, so it names no terminal but "-".
    let listing = "1  1000  seat0  tty2";
    assert_eq!(get_session_and_seat(listing, "tty2", "alice"), pair("1", "seat0"));
    assert_eq!(get_session_and_seat(listing, "tty2", "1000"), pair("1", "seat0"));
    assert!(find_session_and_seat(listing, "tty2", "alice").is_none());
    assert!(find_session_and_seat(listing, "tty2", "1000").is_none());
}

#[test]
fn default_binding_where_nothing_matches() {
    assert_eq!(get_session_and_seat("", "tty2", "alice"), pair("1", "seat0"));
    assert_eq!(
        get_session_and_seat("7 1000 bob seat3 - tty2\n", "tty2", "alice"),
        pair("1", "seat0")
    );
    assert_eq!(
        get_session_and_seat("7 1000 alice seat3 - tty4\n", "tty2", "alice"),
        pair("1", "seat0")
    );
    assert_eq!(DEFAULT_SESSION, "1");
    assert_eq!(DEFAULT_SEAT, "seat0");
}

#[test]
fn a_match_is_told_from_the_default_by_find() {
    let found = find_session_and_seat("1 1000 alice seat0 - tty2\n", "tty2", "alice").unwrap();
    assert_eq!(found.session_id, "1");
    assert_eq!(found.seat, "seat0");
    assert!(find_session_and_seat("1 1000 alice seat0 - tty2\n", "tty3", "alice").is_none());
}

#[test]
fn session_and_seat_come_from_the_matching_line() {
    let listing = "\
  3 1000 bob   seat0 1201 tty1 active no  -
 42 1001 alice seat7 1350 tty3 active no  -
 57 1002 carol seat1 1400 tty4 active no  -
";
    assert_eq!(get_session_and_seat(listing, "tty3", "alice"), pair("42", "seat7"));
    assert_eq!(get_session_and_seat(listing, "tty1", "bob"), pair("3", "seat0"));
    assert_eq!(get_session_and_seat(listing, "tty4", "carol"), pair("57", "seat1"));
    assert_eq!(get_session_and_seat(listing, "tty4", "alice"), pair("1", "seat0"));
}

#[test]
fn first_matching_line_wins() {
    let listing = "8 1001 alice seatA - tty3\n9 1001 alice seatB - tty3\n";
    assert_eq!(get_session_and_seat(listing, "tty3", "alice"), pair("8", "seatA"));
}

#[test]
fn lines_with_fewer_than_four_columns_are_skipped() {
    let listing = "alice tty3\n\n1 2 alice\n5 1001 alice seat2 - tty3\n";
    assert_eq!(get_session_and_seat(listing, "tty3", "alice"), pair("5", "seat2"));
    assert_eq!(get_session_and_seat("1 2 alice", "-", "alice"), pair("1", "seat0"));
    assert!(find_session_and_seat("1 2 alice", "-", "alice").is_none());
}

#[test]
fn a_line_without_a_sixth_column_names_the_terminal_dash() {
    let listing = "6 1001 alice seat4\n";
    let found = find_session_and_seat(listing, "-", "alice").unwrap();
    assert_eq!(found.session_id, "6");
    assert_eq!(found.seat, "seat4");
    let listing = "6 1001 alice seat4 x\n";
    let found = find_session_and_seat(listing, "-", "alice").unwrap();
    assert_eq!(found.session_id, "6");
    assert!(find_session_and_seat(listing, "x", "alice").is_none());
    // With a sixth column the dash is no longer assumed.
    assert!(find_session_and_seat("6 1001 alice seat4 x tty1\n", "-", "alice").is_none());
}

#[test]
fn the_user_column_is_the_third() {
    let listing = "alice alice bob seat0 - tty2\n";
    assert!(find_session_and_seat(listing, "tty2", "alice").is_none());
    let found = find_session_and_seat(listing, "tty2", "bob").unwrap();
    assert_eq!(found.session_id, "alice");
}

#[test]
fn columns_are_compared_whole() {
    let listing = "4 1001 alice2 seat0 - tty22\n";
    assert!(find_session_and_seat(listing, "tty2", "alice").is_none());
    assert!(find_session_and_seat(listing, "tty22", "alice").is_none());
    assert!(find_session_and_seat(listing, "tty2", "alice2").is_none());
    assert!(find_session_and_seat(listing, "tty22", "alice2").is_some());
}

#[test]
fn carriage_returns_and_tabs_separate_columns() {
    let listing = "4\t1001\talice\tseat9\t-\ttty3\r\n5 1 bob seat1 - tty1\r\n";
    assert_eq!(get_session_and_seat(listing, "tty3", "alice"), pair("4", "seat9"));
    assert_eq!(get_session_and_seat(listing, "tty1", "bob"), pair("5", "seat1"));
}

#[test]
fn a_listing_without_final_line_feed_is_read_to_its_end() {
    let listing = "1 1 bob seat1 - tty1\n9 1001 alice seat5 - tty3";
    assert_eq!(get_session_and_seat(listing, "tty3", "alice"), pair("9", "seat5"));
}

#[test]
fn columns_do_not_run_over_a_line_feed() {
    let listing = "1 1001 alice\nseat0 - tty3\n";
    assert!(find_session_and_seat(listing, "tty3", "alice").is_none());
}

#[test]
fn resolve_binding_gives_the_pair_as_a_record() {
    let binding = resolve_binding("12 1001 alice seat2 - tty3\n", "tty3", "alice");
    assert_eq!(binding.session_id, "12");
    assert_eq!(binding.seat, "seat2");
    let binding = resolve_binding("", "tty3", "alice");
    assert_eq!(binding.session_id, "1");
    assert_eq!(binding.seat, "seat0");
}

#[test]
fn lookup_agrees_with_lines_and_split_whitespace() {
    let listings = [
        "1 1000 alice seat0 - tty2\n",
        "  3 1000 bob seat0 1201 tty1 active\n 42 1001 alice seat7 1350 tty3\n",
        "1 2 alice seat0\r\n",
        "\n\n1 2 alice seat0 - -\n",
        "1\u{3000}2\u{a0}alice\u{2003}seat0 - tty2",
        "1 2 alice seat0 -\u{b}tty2\u{c}\n",
    ];
    for listing in listings {
        for (tty, user) in [("tty2", "alice"), ("-", "alice"), ("tty1", "bob"), ("tty3", "alice")] {
            let mut expected = pair("1", "seat0");
            for line in listing.lines() {
                let fields: Vec<&str> = line.split_whitespace().collect();
                if fields.len() < 4 {
                    continue;
                }
                let seen_tty = if fields.len() > 5 { fields[5] } else { "-" };
                if fields[2] == user && seen_tty == tty {
                    expected = pair(fields[0], fields[3]);
                    break;
                }
            }
            assert_eq!(get_session_and_seat(listing, tty, user), expected);
        }
    }
}

#[test]
fn blank_characters_are_those_of_the_standard_library() {
    let mut c = 0u32;
    while c <= 0x10ffff {
        if let Some(ch) = char::from_u32(c) {
            assert_eq!(is_blank_char(ch), ch.is_whitespace(), "U+{:04X}", c);
        }
        c += 1;
    }
}

#[test]
fn fields_in_cuts_a_line_into_columns() {
    assert_eq!(columns("  a bc   d "), vec!["a", "bc", "d"]);
    assert_eq!(columns(""), Vec::<String>::new());
    assert_eq!(columns("   \t "), Vec::<String>::new());
    assert_eq!(columns("one"), vec!["one"]);
    let text = chars_of("ab cd ef");
    assert_eq!(fields_in(&text, 3, 8), vec![(3, 5), (6, 8)]);
    assert_eq!(fields_in(&text, 1, 4), vec![(1, 2), (3, 4)]);
    assert_eq!(fields_in(&text, 2, 2), Vec::<(usize, usize)>::new());
}

#[test]
fn line_end_finds_the_next_line_feed() {
    let text = chars_of("ab\ncd\n\nef");
    assert_eq!(line_end(&text, 0), 2);
    assert_eq!(line_end(&text, 2), 2);
    assert_eq!(line_end(&text, 3), 5);
    assert_eq!(line_end(&text, 6), 6);
    assert_eq!(line_end(&text, 7), 9);
    assert_eq!(line_end(&text, 9), 9);
}

#[test]
fn range_is_compares_a_piece_of_text() {
    let text = chars_of("1 alice tty2");
    assert!(range_is(&text, 2, 7, &chars_of("alice")));
    assert!(!range_is(&text, 2, 7, &chars_of("alicf")));
    assert!(!range_is(&text, 2, 6, &chars_of("alice")));
    assert!(range_is(&text, 3, 3, &chars_of("")));
}
