//! The host's session and seat for a user on a terminal.
//!
//! The host lists its login sessions as text, one session to a line, in
//! columns that blank space separates: the session's id first, the user
//! third, the seat fourth and the terminal sixth. The first line that names
//! the user and the terminal gives the session and the seat.

use crate::text::chars_of;
use vstd::prelude::*;

verus! {

/// The logical session and the seat that the host has for a login.
#[derive(Clone, Debug)]
pub struct HostSessionBinding {
    pub session_id: String,
    pub seat: String,
}

/// The session id that is given where the host lists no session of the user
/// on the terminal.
pub const DEFAULT_SESSION: &'static str = "1";

/// The seat that is given where the host lists no session of the user on the
/// terminal.
pub const DEFAULT_SEAT: &'static str = "seat0";

/// What stands for the terminal of a line that has no sixth column.
pub const NO_TTY: &'static str = "-";

/// The column of the session id.
pub const SESSION_COLUMN: usize = 0;

/// The column of the user.
pub const USER_COLUMN: usize = 2;

/// The column of the seat.
pub const SEAT_COLUMN: usize = 3;

/// The column of the terminal.
pub const TTY_COLUMN: usize = 5;

/// The number of columns that a line needs to be looked at.
pub const MIN_COLUMNS: usize = 4;

/// Whether `c` is blank space: one of the characters to which Unicode gives
/// the property White_Space.
pub open spec fn is_blank(c: char) -> bool {
    let u = c as u32;
    ||| 0x09 <= u <= 0x0d
    ||| u == 0x20
    ||| u == 0x85
    ||| u == 0xa0
    ||| u == 0x1680
    ||| 0x2000 <= u <= 0x200a
    ||| u == 0x2028
    ||| u == 0x2029
    ||| u == 0x202f
    ||| u == 0x205f
    ||| u == 0x3000
}

/// The number of characters before the first blank of `text`.
pub open spec fn word_len(text: Seq<char>) -> nat
    decreases text.len(),
{
    if text.len() == 0 || is_blank(text[0]) {
        0
    } else {
        1 + word_len(text.skip(1))
    }
}

/// The columns of `line`: its longest runs of characters that are not blank.
pub open spec fn fields_of(line: Seq<char>) -> Seq<Seq<char>>
    decreases line.len(),
    via fields_of_decreases
{
    if line.len() == 0 {
        Seq::empty()
    } else if is_blank(line[0]) {
        fields_of(line.skip(1))
    } else {
        let n = word_len(line) as int;
        seq![line.take(n)] + fields_of(line.skip(n))
    }
}

/// A word is no longer than the text that it begins.
pub proof fn lemma_word_len_bound(text: Seq<char>)
    ensures
        word_len(text) <= text.len(),
    decreases text.len(),
{
    if text.len() > 0 && !is_blank(text[0]) {
        lemma_word_len_bound(text.skip(1));
    }
}

#[via_fn]
proof fn fields_of_decreases(line: Seq<char>) {
    if line.len() > 0 && !is_blank(line[0]) {
        lemma_word_len_bound(line);
    }
}

/// A word holds no blank, and what follows it is a blank or nothing.
pub proof fn lemma_word_holds_no_blank(text: Seq<char>)
    ensures
        word_len(text) <= text.len(),
        forall|i: int| 0 <= i < word_len(text) ==> !is_blank(#[trigger] text[i]),
        word_len(text) < text.len() ==> is_blank(text[word_len(text) as int]),
    decreases text.len(),
{
    if text.len() > 0 && !is_blank(text[0]) {
        let rest = text.skip(1);
        lemma_word_holds_no_blank(rest);
        assert forall|i: int| 0 <= i < word_len(text) implies !is_blank(#[trigger] text[i]) by {
            if i > 0 {
                assert(text[i] == rest[i - 1]);
            }
        }
        if word_len(text) < text.len() {
            assert(text[word_len(text) as int] == rest[word_len(rest) as int]);
        }
    }
}

/// Whether `text` holds at least one character and no blank.
pub open spec fn is_word(text: Seq<char>) -> bool {
    text.len() > 0 && forall|i: int| 0 <= i < text.len() ==> !is_blank(#[trigger] text[i])
}

/// Every column of a line holds at least one character and no blank.
pub proof fn lemma_fields_hold_no_blank(line: Seq<char>)
    ensures
        forall|k: int| 0 <= k < fields_of(line).len() ==> is_word(#[trigger] fields_of(line)[k]),
    decreases line.len(),
{
    if line.len() == 0 {
        assert(fields_of(line).len() == 0);
    } else if is_blank(line[0]) {
        lemma_fields_hold_no_blank(line.skip(1));
        assert(fields_of(line) == fields_of(line.skip(1)));
    } else {
        let n = word_len(line) as int;
        lemma_word_holds_no_blank(line);
        lemma_fields_hold_no_blank(line.skip(n));
        assert(fields_of(line) == seq![line.take(n)] + fields_of(line.skip(n)));
        let first = line.take(n);
        let rest = fields_of(line.skip(n));
        assert(is_word(first)) by {
            assert forall|i: int| 0 <= i < first.len() implies !is_blank(#[trigger] first[i]) by {
                assert(first[i] == line[i]);
            }
        }
        assert forall|k: int| 0 <= k < fields_of(line).len() implies is_word(
            #[trigger] fields_of(line)[k],
        ) by {
            if k == 0 {
                assert(fields_of(line)[0] == first);
            } else {
                assert(fields_of(line)[k] == rest[k - 1]);
            }
        }
    }
}

/// The number of characters before the first line feed of `text`.
pub open spec fn line_len(text: Seq<char>) -> nat
    decreases text.len(),
{
    if text.len() == 0 || text[0] == '\n' {
        0
    } else {
        1 + line_len(text.skip(1))
    }
}

/// A line is no longer than the text that it begins.
pub proof fn lemma_line_len_bound(text: Seq<char>)
    ensures
        line_len(text) <= text.len(),
    decreases text.len(),
{
    if text.len() > 0 && text[0] != '\n' {
        lemma_line_len_bound(text.skip(1));
    }
}

/// A line holds no line feed.
pub proof fn lemma_line_holds_no_line_feed(text: Seq<char>)
    ensures
        line_len(text) <= text.len(),
        forall|i: int| 0 <= i < line_len(text) ==> #[trigger] text[i] != '\n',
        line_len(text) < text.len() ==> text[line_len(text) as int] == '\n',
    decreases text.len(),
{
    if text.len() > 0 && text[0] != '\n' {
        let rest = text.skip(1);
        lemma_line_holds_no_line_feed(rest);
        assert forall|i: int| 0 <= i < line_len(text) implies #[trigger] text[i] != '\n' by {
            if i > 0 {
                assert(text[i] == rest[i - 1]);
            }
        }
        if line_len(text) < text.len() {
            assert(text[line_len(text) as int] == rest[line_len(rest) as int]);
        }
    }
}

/// The lines of `text`. A line ends at a line feed or at the end of the
/// text; no line follows the text's last line feed.
pub open spec fn lines_of(text: Seq<char>) -> Seq<Seq<char>>
    decreases text.len(),
    via lines_of_decreases
{
    if text.len() == 0 {
        Seq::empty()
    } else {
        let n = line_len(text) as int;
        if n < text.len() {
            seq![text.take(n)] + lines_of(text.skip(n + 1))
        } else {
            seq![text]
        }
    }
}

#[via_fn]
proof fn lines_of_decreases(text: Seq<char>) {
    lemma_line_len_bound(text);
}

/// The terminal that a line of the columns `fields` names.
pub open spec fn tty_column(fields: Seq<Seq<char>>) -> Seq<char> {
    if fields.len() > TTY_COLUMN {
        fields[TTY_COLUMN as int]
    } else {
        NO_TTY@
    }
}

/// The session id and the seat that `line` gives for `user` on `tty`, where
/// it names both.
pub open spec fn line_binding(line: Seq<char>, tty: Seq<char>, user: Seq<char>) -> Option<
    (Seq<char>, Seq<char>),
> {
    let fields = fields_of(line);
    if fields.len() >= MIN_COLUMNS && fields[USER_COLUMN as int] == user && tty_column(fields)
        == tty {
        Some((fields[SESSION_COLUMN as int], fields[SEAT_COLUMN as int]))
    } else {
        None
    }
}

/// What the first of `lines` that names `user` and `tty` gives.
pub open spec fn first_binding(lines: Seq<Seq<char>>, tty: Seq<char>, user: Seq<char>) -> Option<
    (Seq<char>, Seq<char>),
>
    decreases lines.len(),
{
    if lines.len() == 0 {
        None
    } else {
        match line_binding(lines[0], tty, user) {
            Some(found) => Some(found),
            None => first_binding(lines.skip(1), tty, user),
        }
    }
}

/// The first line that names the user and the terminal decides: its session
/// and seat are given, whatever the lines after it hold.
pub proof fn lemma_first_match_wins(
    lines: Seq<Seq<char>>,
    tty: Seq<char>,
    user: Seq<char>,
    at: int,
)
    requires
        0 <= at < lines.len(),
        line_binding(lines[at], tty, user) is Some,
        forall|j: int| 0 <= j < at ==> line_binding(#[trigger] lines[j], tty, user) is None,
    ensures
        first_binding(lines, tty, user) == line_binding(lines[at], tty, user),
    decreases at,
{
    if at > 0 {
        let rest = lines.skip(1);
        assert(line_binding(lines[0], tty, user) is None);
        assert forall|j: int| 0 <= j < at - 1 implies line_binding(
            #[trigger] rest[j],
            tty,
            user,
        ) is None by {
            assert(rest[j] == lines[j + 1]);
        }
        assert(rest[at - 1] == lines[at]);
        lemma_first_match_wins(rest, tty, user, at - 1);
    }
}

/// Where no line names the user and the terminal, nothing is found, and the
/// defaults are used.
pub proof fn lemma_no_match_gives_nothing(lines: Seq<Seq<char>>, tty: Seq<char>, user: Seq<char>)
    requires
        forall|j: int| 0 <= j < lines.len() ==> line_binding(#[trigger] lines[j], tty, user) is None,
    ensures
        first_binding(lines, tty, user) is None,
    decreases lines.len(),
{
    if lines.len() > 0 {
        let rest = lines.skip(1);
        assert(line_binding(lines[0], tty, user) is None);
        assert forall|j: int| 0 <= j < rest.len() implies line_binding(
            #[trigger] rest[j],
            tty,
            user,
        ) is None by {
            assert(rest[j] == lines[j + 1]);
        }
        lemma_no_match_gives_nothing(rest, tty, user);
    }
}

/// The session id and the seat that `listing` holds for `user` on `tty`.
pub open spec fn listed_binding(listing: Seq<char>, tty: Seq<char>, user: Seq<char>) -> Option<
    (Seq<char>, Seq<char>),
> {
    first_binding(lines_of(listing), tty, user)
}

/// The session id and the seat that are used for `user` on `tty`: those that
/// `listing` holds, and the defaults where it holds none.
pub open spec fn binding_of(listing: Seq<char>, tty: Seq<char>, user: Seq<char>) -> (
    Seq<char>,
    Seq<char>,
) {
    match listed_binding(listing, tty, user) {
        Some(found) => found,
        None => (DEFAULT_SESSION@, DEFAULT_SEAT@),
    }
}

/// Whether `c` is blank space.
pub fn is_blank_char(c: char) -> (blank: bool)
    ensures
        blank == is_blank(c),
{
    let u = c as u32;
    (0x09 <= u && u <= 0x0d) || u == 0x20 || u == 0x85 || u == 0xa0 || u == 0x1680 || (0x2000 <= u
        && u <= 0x200a) || u == 0x2028 || u == 0x2029 || u == 0x202f || u == 0x205f || u
        == 0x3000
}

/// The pieces of `text` that the index ranges `ranges` delimit.
pub open spec fn cuts(text: Seq<char>, ranges: Seq<(usize, usize)>) -> Seq<Seq<char>> {
    Seq::new(ranges.len(), |j: int| text.subrange(ranges[j].0 as int, ranges[j].1 as int))
}

/// Where the line that begins at `from` ends: at the next line feed, or at
/// the end of `text`.
pub fn line_end(text: &Vec<char>, from: usize) -> (end: usize)
    requires
        from <= text@.len(),
    ensures
        from <= end <= text@.len(),
        end - from == line_len(text@.skip(from as int)),
{
    let mut end = from;
    while end < text.len() && text[end] != '\n'
        invariant
            from <= end <= text@.len(),
            line_len(text@.skip(from as int)) == (end - from) + line_len(text@.skip(end as int)),
        decreases text@.len() - end,
    {
        proof {
            assert(text@.skip(end as int).skip(1) =~= text@.skip(end + 1));
        }
        end += 1;
    }
    end
}

/// Where the columns of the line from `from` to `to` begin and end.
pub fn fields_in(text: &Vec<char>, from: usize, to: usize) -> (ranges: Vec<(usize, usize)>)
    requires
        from <= to <= text@.len(),
    ensures
        cuts(text@, ranges@) == fields_of(text@.subrange(from as int, to as int)),
        forall|j: int|
            0 <= j < ranges@.len() ==> from <= (#[trigger] ranges@[j]).0 <= ranges@[j].1 <= to,
{
    let mut ranges: Vec<(usize, usize)> = Vec::new();
    let mut i = from;
    proof {
        assert(cuts(text@, ranges@) =~= Seq::empty());
    }
    while i < to
        invariant
            from <= i <= to <= text@.len(),
            fields_of(text@.subrange(from as int, to as int)) == cuts(text@, ranges@) + fields_of(
                text@.subrange(i as int, to as int),
            ),
            forall|j: int|
                0 <= j < ranges@.len() ==> from <= (#[trigger] ranges@[j]).0 <= ranges@[j].1 <= to,
        decreases to - i,
    {
        let ghost rest = text@.subrange(i as int, to as int);
        if is_blank_char(text[i]) {
            proof {
                assert(rest.skip(1) =~= text@.subrange(i + 1, to as int));
            }
            i += 1;
        } else {
            let mut end = i;
            while end < to && !is_blank_char(text[end])
                invariant
                    i <= end <= to <= text@.len(),
                    word_len(text@.subrange(i as int, to as int)) == (end - i) + word_len(
                        text@.subrange(end as int, to as int),
                    ),
                decreases to - end,
            {
                proof {
                    assert(text@.subrange(end as int, to as int).skip(1) =~= text@.subrange(
                        end + 1,
                        to as int,
                    ));
                }
                end += 1;
            }
            proof {
                let n = word_len(rest) as int;
                assert(n == end - i);
                assert(rest.take(n) =~= text@.subrange(i as int, end as int));
                assert(rest.skip(n) =~= text@.subrange(end as int, to as int));
                assert(cuts(text@, ranges@.push((i, end))) =~= cuts(text@, ranges@) + seq![
                    text@.subrange(i as int, end as int),
                ]);
                assert(cuts(text@, ranges@) + fields_of(rest) =~= cuts(
                    text@,
                    ranges@.push((i, end)),
                ) + fields_of(text@.subrange(end as int, to as int)));
            }
            ranges.push((i, end));
            i = end;
        }
    }
    proof {
        assert(text@.subrange(to as int, to as int) =~= Seq::empty());
        assert(cuts(text@, ranges@) + Seq::<Seq<char>>::empty() =~= cuts(text@, ranges@));
    }
    ranges
}

/// Whether the piece of `text` from `from` to `to` is `other`.
pub fn range_is(text: &Vec<char>, from: usize, to: usize, other: &Vec<char>) -> (same: bool)
    requires
        from <= to <= text@.len(),
    ensures
        same == (text@.subrange(from as int, to as int) == other@),
{
    if to - from != other.len() {
        return false;
    }
    let mut k: usize = 0;
    while k < other.len()
        invariant
            from <= to <= text@.len(),
            to - from == other@.len(),
            k <= other@.len(),
            forall|j: int| 0 <= j < k ==> text@[from + j] == other@[j],
        decreases other@.len() - k,
    {
        if text[from + k] != other[k] {
            proof {
                assert(text@.subrange(from as int, to as int)[k as int] != other@[k as int]);
            }
            return false;
        }
        k += 1;
    }
    proof {
        assert(text@.subrange(from as int, to as int) =~= other@);
    }
    true
}

/// The session and the seat that `listing` holds for `target_user` on
/// `target_tty`: those of the first line with at least four columns whose
/// third column is the user and whose sixth is the terminal. `None` where no
/// line is such a line. For a line of four or five columns, [`NO_TTY`] stands
/// in for the sixth.
pub fn find_session_and_seat(listing: &str, target_tty: &str, target_user: &str) -> (found: Option<
    HostSessionBinding,
>)
    ensures
        match found {
            Some(binding) => listed_binding(listing@, target_tty@, target_user@) == Some(
                (binding.session_id@, binding.seat@),
            ),
            None => listed_binding(listing@, target_tty@, target_user@) is None,
        },
{
    let text = chars_of(listing);
    let tty = chars_of(target_tty);
    let user = chars_of(target_user);
    let missing = chars_of(NO_TTY);
    let tty_is_missing = range_is(&missing, 0, missing.len(), &tty);
    let mut from: usize = 0;
    proof {
        assert(text@.skip(0) =~= text@);
        assert(missing@.subrange(0, missing@.len() as int) =~= missing@);
    }
    while from < text.len()
        invariant
            from <= text@.len(),
            text@ == listing@,
            tty@ == target_tty@,
            user@ == target_user@,
            tty_is_missing == (NO_TTY@ == tty@),
            listed_binding(listing@, target_tty@, target_user@) == first_binding(
                lines_of(text@.skip(from as int)),
                tty@,
                user@,
            ),
        decreases text@.len() - from,
    {
        let to = line_end(&text, from);
        let ghost rest = text@.skip(from as int);
        let ghost line = text@.subrange(from as int, to as int);
        proof {
            assert(rest.take(to - from) =~= line);
            if to < text@.len() {
                assert(rest.skip(to - from + 1) =~= text@.skip(to + 1));
                assert(lines_of(rest).skip(1) =~= lines_of(text@.skip(to + 1)));
            } else {
                assert(rest =~= line);
                assert(lines_of(rest).skip(1) =~= Seq::<Seq<char>>::empty());
                assert(text@.skip(text@.len() as int) =~= Seq::<char>::empty());
            }
            assert(lines_of(rest)[0] == line);
        }
        let fields = fields_in(&text, from, to);
        proof {
            assert(cuts(text@, fields@).len() == fields@.len());
            assert forall|j: int| 0 <= j < fields@.len() implies fields_of(line)[j]
                == text@.subrange(fields@[j].0 as int, fields@[j].1 as int) by {
                assert(cuts(text@, fields@)[j] == text@.subrange(
                    fields@[j].0 as int,
                    fields@[j].1 as int,
                ));
            }
        }
        if fields.len() >= MIN_COLUMNS {
            let names_user = range_is(&text, fields[USER_COLUMN].0, fields[USER_COLUMN].1, &user);
            let names_tty = if fields.len() > TTY_COLUMN {
                range_is(&text, fields[TTY_COLUMN].0, fields[TTY_COLUMN].1, &tty)
            } else {
                tty_is_missing
            };
            if names_user && names_tty {
                let session_id = listing.substring_char(
                    fields[SESSION_COLUMN].0,
                    fields[SESSION_COLUMN].1,
                ).to_owned();
                let seat = listing.substring_char(
                    fields[SEAT_COLUMN].0,
                    fields[SEAT_COLUMN].1,
                ).to_owned();
                return Some(HostSessionBinding { session_id, seat });
            }
        }
        from = if to < text.len() {
            to + 1
        } else {
            to
        };
    }
    proof {
        assert(text@.skip(from as int) =~= Seq::<char>::empty());
    }
    None
}

/// The session id and the seat of `target_user` on `target_tty`, given the
/// host's list of sessions: those of [`find_session_and_seat`], and
/// [`DEFAULT_SESSION`] with [`DEFAULT_SEAT`] where the list holds none. The
/// answer does not show which of the two it is.
pub fn get_session_and_seat(listing: &str, target_tty: &str, target_user: &str) -> (binding: (
    String,
    String,
))
    ensures
        (binding.0@, binding.1@) == binding_of(listing@, target_tty@, target_user@),
{
    match find_session_and_seat(listing, target_tty, target_user) {
        Some(found) => (found.session_id, found.seat),
        None => (DEFAULT_SESSION.to_owned(), DEFAULT_SEAT.to_owned()),
    }
}

/// The binding of `target_user` on `target_tty`, as [`get_session_and_seat`]
/// gives it.
pub fn resolve_binding(listing: &str, target_tty: &str, target_user: &str) -> (binding:
    HostSessionBinding)
    ensures
        (binding.session_id@, binding.seat@) == binding_of(listing@, target_tty@, target_user@),
{
    let (session_id, seat) = get_session_and_seat(listing, target_tty, target_user);
    HostSessionBinding { session_id, seat }
}

} // verus!
