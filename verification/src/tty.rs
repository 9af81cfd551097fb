//! The controlling terminal: its device path, its short name and its number.
//!
//! The device path comes from outside: it is what the link of the standard
//! input resolves to. Everything else is derived from the path.

use crate::text::{chars_of, decimal, digit_char};
use regex::Regex;
use vstd::prelude::*;

verus! {

/// What is known of the terminal that a launch runs on.
#[derive(Clone, Debug)]
pub struct TtyIdentity {
    /// The device path, such as `/dev/tty2`.
    pub path: String,
    /// The path without its device directory, such as `tty2`.
    pub name: String,
    /// The number that ends the path; `None` where the path ends in no digit.
    pub number: Option<i32>,
}

/// The path that stands for a terminal that could not be found out.
pub const UNKNOWN_TTY: &'static str = "/dev/tty?";

/// The pattern of a number that ends a text: its first group is a run of
/// digits, and nothing follows the run.
pub const TRAILING_NUMBER: &'static str = "(\\d+)$";

/// The device directory, with the slash that ends it.
pub open spec fn dev_dir() -> Seq<char> {
    seq!['/', 'd', 'e', 'v', '/']
}

/// Whether `path` begins with the device directory.
pub open spec fn in_dev_dir(path: Seq<char>) -> bool {
    path.len() >= 5 && path.take(5) == dev_dir()
}

/// The short name of the terminal at `path`: the path without the device
/// directory at its start, however often the directory is repeated there.
pub open spec fn tty_name_of(path: Seq<char>) -> Seq<char>
    decreases path.len(),
{
    if in_dev_dir(path) {
        tty_name_of(path.skip(5))
    } else {
        path
    }
}

/// The short name of a terminal does not begin with the device directory,
/// so that taking the short name twice gives what taking it once gives.
pub proof fn lemma_tty_name_is_stripped(path: Seq<char>)
    ensures
        !in_dev_dir(tty_name_of(path)),
        tty_name_of(tty_name_of(path)) == tty_name_of(path),
    decreases path.len(),
{
    if in_dev_dir(path) {
        lemma_tty_name_is_stripped(path.skip(5));
    }
}

/// The device path of a terminal, given what the link of the standard input
/// resolved to.
pub open spec fn tty_path_of(resolved: Option<String>) -> Seq<char> {
    match resolved {
        Some(target) => target@,
        None => UNKNOWN_TTY@,
    }
}

/// Whether `c` is one of `0` to `9`.
pub open spec fn is_ascii_digit(c: char) -> bool {
    '0' <= c <= '9'
}

/// The digit that `c` stands for.
pub open spec fn digit_value(c: char) -> nat
    recommends
        is_ascii_digit(c),
{
    (c as u32 - '0' as u32) as nat
}

/// Whether `text` is made of the digits `0` to `9` alone.
pub open spec fn all_ascii_digits(text: Seq<char>) -> bool {
    forall|i: int| 0 <= i < text.len() ==> is_ascii_digit(#[trigger] text[i])
}

/// The number that a decimal numeral stands for; leading zeros count for
/// nothing.
pub open spec fn decimal_value(digits: Seq<char>) -> nat
    decreases digits.len(),
{
    if digits.len() == 0 {
        0
    } else {
        decimal_value(digits.drop_last()) * 10 + digit_value(digits.last())
    }
}

/// The number of a terminal whose path ends in the run of digits `run`:
/// the run's value, where the run is a numeral that fits.
pub open spec fn run_number(run: Seq<char>) -> Option<i32> {
    if run.len() > 0 && all_ascii_digits(run) && decimal_value(run) <= i32::MAX {
        Some(decimal_value(run) as i32)
    } else {
        None
    }
}

/// Whether the class `\d` of the regex crate holds `c`, that is, whether
/// Unicode lists `c` as a decimal digit (general category Nd).
pub uninterp spec fn regex_digit(c: char) -> bool;

/// The longest run of characters that `wanted` holds of and that ends
/// `text`.
pub open spec fn trailing_run(text: Seq<char>, wanted: spec_fn(char) -> bool) -> Seq<char>
    decreases text.len(),
{
    if text.len() > 0 && wanted(text.last()) {
        trailing_run(text.drop_last(), wanted).push(text.last())
    } else {
        Seq::empty()
    }
}

/// The longest run of characters of the class `\d` that ends `text`.
pub open spec fn trailing_digits(text: Seq<char>) -> Seq<char> {
    trailing_run(text, |c: char| regex_digit(c))
}

/// The longest run of the digits `0` to `9` that ends `text`.
pub open spec fn trailing_ascii_digits(text: Seq<char>) -> Seq<char> {
    trailing_run(text, |c: char| is_ascii_digit(c))
}

/// Whether every character of `text` is an ASCII character.
pub open spec fn is_ascii_text(text: Seq<char>) -> bool {
    forall|i: int| 0 <= i < text.len() ==> (#[trigger] text[i] as u32) < 128
}

/// The number of the terminal at `path`.
pub open spec fn tty_number(path: Seq<char>) -> Option<i32> {
    run_number(trailing_digits(path))
}

/// The device path of the terminal, given what the link of the standard
/// input resolved to: the target, or [`UNKNOWN_TTY`] where it did not
/// resolve.
pub fn get_tty_path(resolved: Option<String>) -> (path: String)
    ensures
        path@ == tty_path_of(resolved),
{
    match resolved {
        Some(target) => target,
        None => UNKNOWN_TTY.to_owned(),
    }
}

/// The short name of the terminal at `tty_path`.
pub fn get_tty_name(tty_path: &str) -> (name: String)
    ensures
        name@ == tty_name_of(tty_path@),
{
    let chars = chars_of(tty_path);
    let len = chars.len();
    let mut start: usize = 0;
    proof {
        assert(chars@.skip(0) =~= chars@);
    }
    while len - start >= 5 && chars[start] == '/' && chars[start + 1] == 'd' && chars[start + 2]
        == 'e' && chars[start + 3] == 'v' && chars[start + 4] == '/'
        invariant
            start <= len,
            len == chars@.len(),
            chars@ == tty_path@,
            tty_name_of(tty_path@) == tty_name_of(chars@.skip(start as int)),
        decreases len - start,
    {
        proof {
            let rest = chars@.skip(start as int);
            assert(rest.take(5) =~= dev_dir());
            assert(rest.skip(5) =~= chars@.skip(start + 5));
        }
        start += 5;
    }
    proof {
        let rest = chars@.skip(start as int);
        if rest.len() >= 5 {
            assert(rest.take(5)[0] == rest[0]);
            assert(rest.take(5)[1] == rest[1]);
            assert(rest.take(5)[2] == rest[2]);
            assert(rest.take(5)[3] == rest[3]);
            assert(rest.take(5)[4] == rest[4]);
        }
        assert(!in_dev_dir(rest));
        assert(rest =~= tty_path@.subrange(start as int, len as int));
    }
    tty_path.substring_char(start, len).to_owned()
}

/// The text of the first group where [`TRAILING_NUMBER`] matches `text`.
///
/// Calls `Regex::new` of the regex crate on `pattern`, `Regex::captures` on
/// `text` and `Captures::get` for group 1. Believed of that search: the
/// group is the longest run of characters of the class `\d` that ends
/// `text`, and there is no match where `text` ends in no such character; of
/// the ASCII characters, the class holds the digits `0` to `9` and no other.
#[verifier::external_body]
fn first_group(pattern: &str, text: &str) -> (group: Option<String>)
    requires
        pattern@ == TRAILING_NUMBER@,
    ensures
        group matches Some(run) ==> 0 < run@.len() <= text@.len() && run@ == text@.skip(
            text@.len() - run@.len(),
        ),
        group matches Some(run) ==> forall|i: int|
            0 <= i < run@.len() ==> regex_digit(#[trigger] run@[i]) && ((run@[i] as u32) < 128
                ==> is_ascii_digit(run@[i])),
        group matches Some(run) ==> run@.len() < text@.len() ==> !regex_digit(
            text@[text@.len() - run@.len() - 1],
        ) && !is_ascii_digit(text@[text@.len() - run@.len() - 1]),
        group is None ==> text@.len() == 0 || (!regex_digit(text@.last()) && !is_ascii_digit(
            text@.last(),
        )),
{
    let re = Regex::new(pattern).ok()?;
    let captures = re.captures(text)?;
    match captures.get(1) {
        Some(found) => Some(found.as_str().to_owned()),
        None => None,
    }
}

/// [`trailing_run`] ends `text`, holds wanted characters alone, and the
/// character before it, if there is one, is not wanted.
pub proof fn lemma_trailing_run_is_longest(text: Seq<char>, wanted: spec_fn(char) -> bool)
    ensures
        ({
            let run = trailing_run(text, wanted);
            &&& run.len() <= text.len()
            &&& run == text.skip(text.len() - run.len())
            &&& forall|i: int| 0 <= i < run.len() ==> wanted(#[trigger] run[i])
            &&& run.len() < text.len() ==> !wanted(text[text.len() - run.len() - 1])
        }),
    decreases text.len(),
{
    let run = trailing_run(text, wanted);
    if text.len() > 0 && wanted(text.last()) {
        let shorter = text.drop_last();
        let before = trailing_run(shorter, wanted);
        lemma_trailing_run_is_longest(shorter, wanted);
        assert(run == before.push(text.last()));
        assert(run =~= text.skip(text.len() - run.len()));
        assert forall|i: int| 0 <= i < run.len() implies wanted(#[trigger] run[i]) by {
            if i < before.len() {
                assert(run[i] == before[i]);
            }
        }
        if run.len() < text.len() {
            assert(text[text.len() - run.len() - 1] == shorter[shorter.len() - before.len() - 1]);
        }
    } else {
        assert(run =~= text.skip(text.len() - run.len()));
    }
}

/// The numeral of a number reads back as the number.
pub proof fn lemma_decimal_reads_back(n: nat)
    ensures
        decimal(n).len() > 0,
        all_ascii_digits(decimal(n)),
        decimal_value(decimal(n)) == n,
    decreases n,
{
    let text = decimal(n);
    if n < 10 {
        assert(text.drop_last() =~= Seq::<char>::empty());
        assert(decimal_value(text.drop_last()) == 0);
        assert(text.last() == digit_char(n as int));
    } else {
        lemma_decimal_reads_back(n / 10);
        let head = decimal(n / 10);
        assert(text.drop_last() =~= head);
        assert(text.last() == digit_char((n % 10) as int));
        assert forall|i: int| 0 <= i < text.len() implies is_ascii_digit(#[trigger] text[i]) by {
            if i < head.len() {
                assert(text[i] == head[i]);
            }
        }
    }
}

/// A run that ends `text`, holds wanted characters alone and follows a
/// character that is not wanted is the longest such run.
pub proof fn lemma_trailing_run_found(text: Seq<char>, run: Seq<char>, wanted: spec_fn(char) -> bool)
    requires
        run.len() <= text.len(),
        run == text.skip(text.len() - run.len()),
        forall|i: int| 0 <= i < run.len() ==> wanted(#[trigger] run[i]),
        run.len() < text.len() ==> !wanted(text[text.len() - run.len() - 1]),
    ensures
        trailing_run(text, wanted) == run,
    decreases run.len(),
{
    if run.len() == 0 {
        assert(trailing_run(text, wanted) =~= run);
    } else {
        assert(text.last() == run.last());
        assert(wanted(run[run.len() - 1]));
        let shorter = text.drop_last();
        assert(run.drop_last() =~= shorter.skip(shorter.len() - (run.len() - 1)));
        assert forall|i: int| 0 <= i < run.drop_last().len() implies wanted(
            #[trigger] run.drop_last()[i],
        ) by {
            assert(run.drop_last()[i] == run[i]);
        }
        lemma_trailing_run_found(shorter, run.drop_last(), wanted);
        assert(trailing_run(text, wanted) =~= run);
    }
}

/// A numeral is worth at least as much as any of its beginnings.
proof fn lemma_decimal_value_grows(digits: Seq<char>, n: int)
    requires
        0 <= n <= digits.len(),
    ensures
        decimal_value(digits.take(n)) <= decimal_value(digits),
    decreases digits.len() - n,
{
    if n == digits.len() {
        assert(digits.take(n) =~= digits);
    } else {
        lemma_decimal_value_grows(digits.drop_last(), n);
        assert(digits.drop_last().take(n) =~= digits.take(n));
    }
}

/// The number that the run of digits `run` stands for: `None` where the run
/// is empty, holds anything but the digits `0` to `9`, or is worth more than
/// an `i32` holds.
pub fn number_of_run(run: &str) -> (number: Option<i32>)
    ensures
        number == run_number(run@),
        number matches Some(n) ==> n >= 0,
{
    let chars = chars_of(run);
    if chars.len() == 0 {
        return None;
    }
    let mut value: u32 = 0;
    let mut i: usize = 0;
    while i < chars.len()
        invariant
            i <= chars@.len(),
            chars@ == run@,
            all_ascii_digits(chars@.take(i as int)),
            value == decimal_value(chars@.take(i as int)),
            value <= i32::MAX,
        decreases chars@.len() - i,
    {
        let c = chars[i];
        if !('0' <= c && c <= '9') {
            return None;
        }
        let digit: u32 = c as u32 - '0' as u32;
        proof {
            let head = chars@.take(i + 1);
            assert(head.drop_last() =~= chars@.take(i as int));
            assert(head.last() == c);
            assert forall|j: int| 0 <= j < head.len() implies is_ascii_digit(#[trigger] head[j]) by {
                if j < i {
                    assert(chars@.take(i as int)[j] == head[j]);
                }
            }
            lemma_decimal_value_grows(chars@, i + 1);
        }
        if value > 214748364 || value * 10 > 2147483647 - digit {
            return None;
        }
        value = value * 10 + digit;
        i += 1;
    }
    proof {
        assert(chars@.take(i as int) =~= chars@);
    }
    Some(value as i32)
}

/// The number that ends `tty_path`, for a path that ends in digits.
///
/// The digits are found by the pattern [`TRAILING_NUMBER`]. `None` stands
/// for a path that ends in no digit, never zero; it is also the answer where
/// the digits are worth more than an `i32` holds, and where one of them is a
/// digit of another script than `0` to `9`.
pub fn get_tty_nr(tty_path: &str) -> (number: Option<i32>)
    ensures
        number == tty_number(tty_path@),
        number matches Some(n) ==> n >= 0,
        is_ascii_text(tty_path@) ==> number == run_number(trailing_ascii_digits(tty_path@)),
{
    match first_group(TRAILING_NUMBER, tty_path) {
        Some(run) => {
            proof {
                lemma_trailing_run_found(tty_path@, run@, |c: char| regex_digit(c));
                if is_ascii_text(tty_path@) {
                    assert forall|i: int| 0 <= i < run@.len() implies is_ascii_digit(
                        #[trigger] run@[i],
                    ) by {
                        assert(run@[i] == tty_path@[tty_path@.len() - run@.len() + i]);
                    }
                    lemma_trailing_run_found(tty_path@, run@, |c: char| is_ascii_digit(c));
                }
            }
            number_of_run(run.as_str())
        },
        None => None,
    }
}

/// What is known of the terminal, given what the link of the standard input
/// resolved to.
pub fn resolve_tty(resolved: Option<String>) -> (tty: TtyIdentity)
    ensures
        tty.path@ == tty_path_of(resolved),
        tty.name@ == tty_name_of(tty.path@),
        tty.number == tty_number(tty.path@),
{
    let path = get_tty_path(resolved);
    let name = get_tty_name(path.as_str());
    let number = get_tty_nr(path.as_str());
    TtyIdentity { path, name, number }
}

} // verus!
