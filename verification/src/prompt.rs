//! What a key does on the selection screen and in the password prompt.

use vstd::prelude::*;

verus! {

/// A key, as far as the login manager tells keys apart.
#[derive(Clone, Copy, Debug, PartialEq, Eq, Structural)]
pub enum Key {
    Up,
    Down,
    Left,
    Right,
    Enter,
    Backspace,
    Char(char),
    Other,
}

/// The entries that are selected: an index into the list of users and one
/// into the list of sessions.
#[derive(Clone, Copy, Debug, PartialEq, Eq, Structural)]
pub struct Selection {
    pub user: usize,
    pub session: usize,
}

/// The selection after `key`, with `users` users and `sessions` sessions to
/// choose from.
///
/// Up and Down move through the users and stop at either end. Left and
/// Right move through the sessions and go round at either end. No other key
/// moves the selection.
pub open spec fn moved(selection: Selection, key: Key, users: nat, sessions: nat) -> Selection {
    match key {
        Key::Up => Selection {
            user: if selection.user > 0 {
                (selection.user - 1) as usize
            } else {
                selection.user
            },
            ..selection
        },
        Key::Down => Selection {
            user: if selection.user + 1 < users {
                (selection.user + 1) as usize
            } else {
                selection.user
            },
            ..selection
        },
        Key::Left => Selection {
            session: if selection.session > 0 {
                (selection.session - 1) as usize
            } else if sessions > 0 {
                (sessions - 1) as usize
            } else {
                selection.session
            },
            ..selection
        },
        Key::Right => Selection {
            session: if sessions > 0 {
                ((selection.session + 1) % (sessions as int)) as usize
            } else {
                selection.session
            },
            ..selection
        },
        _ => selection,
    }
}

/// The selection after `key`.
pub fn move_selection(selection: Selection, key: Key, users: usize, sessions: usize) -> (next:
    Selection)
    ensures
        next == moved(selection, key, users as nat, sessions as nat),
        selection.user < users ==> next.user < users,
        selection.session < sessions ==> next.session < sessions,
{
    match key {
        Key::Up => Selection {
            user: if selection.user > 0 {
                selection.user - 1
            } else {
                selection.user
            },
            session: selection.session,
        },
        Key::Down => Selection {
            user: if selection.user < usize::MAX && selection.user + 1 < users {
                selection.user + 1
            } else {
                selection.user
            },
            session: selection.session,
        },
        Key::Left => Selection {
            user: selection.user,
            session: if selection.session > 0 {
                selection.session - 1
            } else if sessions > 0 {
                sessions - 1
            } else {
                selection.session
            },
        },
        Key::Right => {
            if sessions > 0 {
                let here = selection.session % sessions;
                let session = if here + 1 == sessions {
                    0
                } else {
                    here + 1
                };
                proof {
                    vstd::arithmetic::div_mod::lemma_add_mod_noop(
                        selection.session as int,
                        1,
                        sessions as int,
                    );
                    vstd::arithmetic::div_mod::lemma_small_mod(here as nat, sessions as nat);
                    if here + 1 == sessions {
                        vstd::arithmetic::div_mod::lemma_mod_self_0(sessions as int);
                    } else {
                        vstd::arithmetic::div_mod::lemma_small_mod(
                            (here + 1) as nat,
                            sessions as nat,
                        );
                    }
                    if sessions == 1 {
                        vstd::arithmetic::div_mod::lemma_small_mod(0, 1);
                    } else {
                        vstd::arithmetic::div_mod::lemma_small_mod(1, sessions as nat);
                    }
                }
                Selection { user: selection.user, session }
            } else {
                selection
            }
        },
        _ => selection,
    }
}

/// The password typed so far, after `key`: a character is added at the end,
/// Backspace takes the last character away, and any other key leaves the
/// password as it is.
pub open spec fn typed(password: Seq<char>, key: Key) -> Seq<char> {
    match key {
        Key::Char(c) => password.push(c),
        Key::Backspace => if password.len() > 0 {
            password.drop_last()
        } else {
            password
        },
        _ => password,
    }
}

/// Applies `key` to the password typed so far, and says whether the
/// password is complete: it is on Enter.
pub fn password_key(password: &mut Vec<char>, key: Key) -> (complete: bool)
    ensures
        final(password)@ == typed(old(password)@, key),
        complete == (key == Key::Enter),
{
    match key {
        Key::Enter => true,
        Key::Backspace => {
            password.pop();
            false
        },
        Key::Char(c) => {
            password.push(c);
            false
        },
        _ => false,
    }
}

} // verus!
