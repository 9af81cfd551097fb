//! The environment variables of a session, held as a value.
//!
//! An [`EnvironmentContext`] stands for the variables of a process. A launch
//! sets the session's variables in it and the teardown removes them; the
//! program around the library carries the result over to the real
//! environment.

use crate::identity::{Session, User};
use crate::seat::HostSessionBinding;
use crate::text::{decimal, int_text, push_decimal, push_int};
use crate::tty::TtyIdentity;
use vstd::prelude::*;

verus! {

pub const SHELL: &'static str = "SHELL";

pub const LOGNAME: &'static str = "LOGNAME";

pub const USER: &'static str = "USER";

pub const PWD: &'static str = "PWD";

pub const HOME: &'static str = "HOME";

pub const XDG_SESSION_TYPE: &'static str = "XDG_SESSION_TYPE";

pub const XDG_DATA_HOME: &'static str = "XDG_DATA_HOME";

pub const XDG_CONFIG_HOME: &'static str = "XDG_CONFIG_HOME";

pub const XDG_CACHE_HOME: &'static str = "XDG_CACHE_HOME";

pub const DBUS_SESSION_BUS_ADDRESS: &'static str = "DBUS_SESSION_BUS_ADDRESS";

pub const XDG_SESSION_CLASS: &'static str = "XDG_SESSION_CLASS";

pub const XDG_RUNTIME_DIR: &'static str = "XDG_RUNTIME_DIR";

pub const XDG_VTNR: &'static str = "XDG_VTNR";

pub const XDG_SEAT: &'static str = "XDG_SEAT";

pub const XDG_SESSION_ID: &'static str = "XDG_SESSION_ID";

/// The names of the variables that a session owns: the ten that a launch
/// always sets, then the five that it sets only where they are not set yet.
pub open spec fn owned_names() -> Seq<Seq<char>> {
    seq![
        SHELL@,
        LOGNAME@,
        USER@,
        PWD@,
        HOME@,
        XDG_SESSION_TYPE@,
        XDG_DATA_HOME@,
        XDG_CONFIG_HOME@,
        XDG_CACHE_HOME@,
        DBUS_SESSION_BUS_ADDRESS@,
        XDG_SESSION_CLASS@,
        XDG_RUNTIME_DIR@,
        XDG_VTNR@,
        XDG_SEAT@,
        XDG_SESSION_ID@,
    ]
}

/// The number that `XDG_VTNR` is given for a terminal: the terminal's own,
/// and zero where it has none.
pub open spec fn vt_number(number: Option<i32>) -> int {
    match number {
        Some(n) => n as int,
        None => 0,
    }
}

/// The variables that a launch sets whatever they held before.
pub open spec fn always_set(user: User, session: Session) -> Map<Seq<char>, Seq<char>> {
    map![
        SHELL@ => user.shell@,
        LOGNAME@ => user.name@,
        USER@ => user.name@,
        PWD@ => user.homedir@,
        HOME@ => user.homedir@,
        XDG_SESSION_TYPE@ => session.session_type.tag(),
        XDG_DATA_HOME@ => user.homedir@ + "/.local/share"@,
        XDG_CONFIG_HOME@ => user.homedir@ + "/.config"@,
        XDG_CACHE_HOME@ => user.homedir@ + "/.cache"@,
        DBUS_SESSION_BUS_ADDRESS@ => "unix:path=/run/user/"@ + decimal(user.uid as nat) + "/bus"@,
    ]
}

/// The variables that a launch sets only where nothing has set them yet, so
/// that what another part of the login has put there stays.
pub open spec fn set_if_absent(
    user: User,
    session_id: Seq<char>,
    seat: Seq<char>,
    number: Option<i32>,
) -> Map<Seq<char>, Seq<char>> {
    map![
        XDG_SESSION_CLASS@ => "user"@,
        XDG_RUNTIME_DIR@ => "/run/user/"@ + decimal(user.uid as nat),
        XDG_VTNR@ => int_text(vt_number(number)),
        XDG_SEAT@ => seat,
        XDG_SESSION_ID@ => session_id,
    ]
}

/// The environment of a session of `user` that is launched from `env`, on
/// the terminal of the number `number`, in the host's session `session_id`
/// on the seat `seat`.
pub open spec fn prepared(
    env: Map<Seq<char>, Seq<char>>,
    user: User,
    session: Session,
    session_id: Seq<char>,
    seat: Seq<char>,
    number: Option<i32>,
) -> Map<Seq<char>, Seq<char>> {
    set_if_absent(user, session_id, seat, number).union_prefer_right(env).union_prefer_right(
        always_set(user, session),
    )
}

/// The environment that is left of `env` when a session is over.
pub open spec fn cleared(env: Map<Seq<char>, Seq<char>>) -> Map<Seq<char>, Seq<char>> {
    env.remove_keys(owned_names().to_set())
}

/// A set of environment variables.
///
/// The entries are kept in the order in which they were set; where a name
/// occurs more than once, the entry set last is the one that counts.
#[derive(Clone, Debug)]
pub struct EnvironmentContext {
    entries: Vec<(String, String)>,
}

/// The variables that a list of entries stands for.
pub open spec fn variables_of(entries: Seq<(String, String)>) -> Map<Seq<char>, Seq<char>>
    decreases entries.len(),
{
    if entries.len() == 0 {
        Map::empty()
    } else {
        variables_of(entries.drop_last()).insert(entries.last().0@, entries.last().1@)
    }
}

impl View for EnvironmentContext {
    type V = Map<Seq<char>, Seq<char>>;

    closed spec fn view(&self) -> Map<Seq<char>, Seq<char>> {
        variables_of(self.entries@)
    }
}

proof fn lemma_variables_push(entries: Seq<(String, String)>, entry: (String, String))
    ensures
        variables_of(entries.push(entry)) == variables_of(entries).insert(entry.0@, entry.1@),
{
    assert(entries.push(entry).drop_last() =~= entries);
}

impl EnvironmentContext {
    /// An environment without variables.
    pub fn new() -> (env: EnvironmentContext)
        ensures
            env@ == Map::<Seq<char>, Seq<char>>::empty(),
    {
        EnvironmentContext { entries: Vec::new() }
    }

    /// The value of the variable `name`, if it is set.
    pub fn get(&self, name: &str) -> (value: Option<String>)
        ensures
            value is Some == self@.contains_key(name@),
            value matches Some(v) ==> v@ == self@[name@],
    {
        let mut i: usize = self.entries.len();
        proof {
            assert(self.entries@.take(i as int) =~= self.entries@);
        }
        while i > 0
            invariant
                i <= self.entries.len(),
                variables_of(self.entries@).contains_key(name@) == variables_of(
                    self.entries@.take(i as int),
                ).contains_key(name@),
                variables_of(self.entries@).contains_key(name@) ==> variables_of(
                    self.entries@,
                )[name@] == variables_of(self.entries@.take(i as int))[name@],
            decreases i,
        {
            proof {
                let head = self.entries@.take(i as int);
                assert(head.drop_last() =~= self.entries@.take(i - 1));
                assert(head.last() == self.entries@[i - 1]);
            }
            i -= 1;
            if crate::text::same_text(self.entries[i].0.as_str(), name) {
                return Some(self.entries[i].1.clone());
            }
        }
        proof {
            assert(self.entries@.take(0) =~= Seq::empty());
        }
        None
    }

    /// Whether the variable `name` is set.
    pub fn contains(&self, name: &str) -> (set: bool)
        ensures
            set == self@.contains_key(name@),
    {
        self.get(name).is_some()
    }

    /// Sets the variable `name` to `value`, whatever it held before.
    pub fn set(&mut self, name: &str, value: &str)
        ensures
            final(self)@ == old(self)@.insert(name@, value@),
    {
        self.remove(name);
        let ghost before = self.entries@;
        let entry = (name.to_owned(), value.to_owned());
        proof {
            lemma_variables_push(before, entry);
        }
        self.entries.push(entry);
        assert(self@ =~= old(self)@.insert(name@, value@));
    }

    /// Removes the variable `name`; nothing happens where it is not set.
    pub fn remove(&mut self, name: &str)
        ensures
            final(self)@ == old(self)@.remove(name@),
    {
        let mut kept: Vec<(String, String)> = Vec::new();
        let mut i: usize = 0;
        while i < self.entries.len()
            invariant
                i <= self.entries.len(),
                self.entries@ == old(self).entries@,
                variables_of(kept@) == variables_of(self.entries@.take(i as int)).remove(name@),
            decreases self.entries.len() - i,
        {
            proof {
                let head = self.entries@.take(i + 1);
                assert(head.drop_last() =~= self.entries@.take(i as int));
                assert(head.last() == self.entries@[i as int]);
            }
            if !crate::text::same_text(self.entries[i].0.as_str(), name) {
                let entry = (self.entries[i].0.clone(), self.entries[i].1.clone());
                proof {
                    lemma_variables_push(kept@, entry);
                }
                kept.push(entry);
                assert(variables_of(kept@) =~= variables_of(self.entries@.take(i + 1)).remove(
                    name@,
                ));
            } else {
                assert(variables_of(kept@) =~= variables_of(self.entries@.take(i + 1)).remove(
                    name@,
                ));
            }
            i += 1;
        }
        proof {
            assert(self.entries@.take(i as int) =~= self.entries@);
        }
        self.entries = kept;
    }
}

/// A launch sets, and a teardown removes, the same variables: the names in
/// [`owned_names`] and no others.
pub proof fn lemma_owned_names_are_the_variables_set(
    user: User,
    session: Session,
    session_id: Seq<char>,
    seat: Seq<char>,
    number: Option<i32>,
)
    ensures
        owned_names().to_set() == always_set(user, session).dom().union(
            set_if_absent(user, session_id, seat, number).dom(),
        ),
{
    let names = owned_names();
    let set = always_set(user, session).dom().union(set_if_absent(user, session_id, seat, number).dom());
    assert forall|k: Seq<char>| names.to_set().contains(k) <==> set.contains(k) by {
        if set.contains(k) {
            let i = if k == SHELL@ {
                0int
            } else if k == LOGNAME@ {
                1
            } else if k == USER@ {
                2
            } else if k == PWD@ {
                3
            } else if k == HOME@ {
                4
            } else if k == XDG_SESSION_TYPE@ {
                5
            } else if k == XDG_DATA_HOME@ {
                6
            } else if k == XDG_CONFIG_HOME@ {
                7
            } else if k == XDG_CACHE_HOME@ {
                8
            } else if k == DBUS_SESSION_BUS_ADDRESS@ {
                9
            } else if k == XDG_SESSION_CLASS@ {
                10
            } else if k == XDG_RUNTIME_DIR@ {
                11
            } else if k == XDG_VTNR@ {
                12
            } else if k == XDG_SEAT@ {
                13
            } else {
                14
            };
            assert(names[i] == k);
        }
    }
    assert(names.to_set() =~= set);
}

/// The names of the session's variables, in the order of [`owned_names`].
pub fn owned_keys() -> (keys: Vec<&'static str>)
    ensures
        keys@.len() == owned_names().len(),
        forall|i: int| 0 <= i < keys@.len() ==> (#[trigger] keys@[i])@ == owned_names()[i],
{
    let mut keys: Vec<&'static str> = Vec::new();
    keys.push(SHELL);
    keys.push(LOGNAME);
    keys.push(USER);
    keys.push(PWD);
    keys.push(HOME);
    keys.push(XDG_SESSION_TYPE);
    keys.push(XDG_DATA_HOME);
    keys.push(XDG_CONFIG_HOME);
    keys.push(XDG_CACHE_HOME);
    keys.push(DBUS_SESSION_BUS_ADDRESS);
    keys.push(XDG_SESSION_CLASS);
    keys.push(XDG_RUNTIME_DIR);
    keys.push(XDG_VTNR);
    keys.push(XDG_SEAT);
    keys.push(XDG_SESSION_ID);
    keys
}

proof fn lemma_names_differ()
    ensures
        USER@ != HOME@,
        XDG_CONFIG_HOME@ != XDG_RUNTIME_DIR@,
        XDG_CACHE_HOME@ != XDG_SESSION_ID@,
        XDG_VTNR@ != XDG_SEAT@,
        SHELL@.len() == 5,
        LOGNAME@.len() == 7,
        USER@.len() == 4,
        PWD@.len() == 3,
        HOME@.len() == 4,
        XDG_SESSION_TYPE@.len() == 16,
        XDG_DATA_HOME@.len() == 13,
        XDG_CONFIG_HOME@.len() == 15,
        XDG_CACHE_HOME@.len() == 14,
        DBUS_SESSION_BUS_ADDRESS@.len() == 24,
        XDG_SESSION_CLASS@.len() == 17,
        XDG_RUNTIME_DIR@.len() == 15,
        XDG_VTNR@.len() == 8,
        XDG_SEAT@.len() == 8,
        XDG_SESSION_ID@.len() == 14,
{
    reveal_strlit("SHELL");
    reveal_strlit("LOGNAME");
    reveal_strlit("USER");
    reveal_strlit("PWD");
    reveal_strlit("HOME");
    reveal_strlit("XDG_SESSION_TYPE");
    reveal_strlit("XDG_DATA_HOME");
    reveal_strlit("XDG_CONFIG_HOME");
    reveal_strlit("XDG_CACHE_HOME");
    reveal_strlit("DBUS_SESSION_BUS_ADDRESS");
    reveal_strlit("XDG_SESSION_CLASS");
    reveal_strlit("XDG_RUNTIME_DIR");
    reveal_strlit("XDG_VTNR");
    reveal_strlit("XDG_SEAT");
    reveal_strlit("XDG_SESSION_ID");
    assert(USER@[0] != HOME@[0]);
    assert(XDG_CONFIG_HOME@[4] != XDG_RUNTIME_DIR@[4]);
    assert(XDG_CACHE_HOME@[4] != XDG_SESSION_ID@[4]);
    assert(XDG_VTNR@[4] != XDG_SEAT@[4]);
}

/// Sets the variables of a session of `user` in `env`.
///
/// The variables of [`always_set`] replace what `env` held under their
/// names. Those of [`set_if_absent`] are set only where `env` holds nothing
/// under the name.
pub fn prepare_environment(
    env: &mut EnvironmentContext,
    user: &User,
    session: &Session,
    binding: &HostSessionBinding,
    tty: &TtyIdentity,
)
    ensures
        final(env)@ == prepared(
            old(env)@,
            *user,
            *session,
            binding.session_id@,
            binding.seat@,
            tty.number,
        ),
{
    let home = user.homedir.as_str();
    env.set(SHELL, user.shell.as_str());
    env.set(LOGNAME, user.name.as_str());
    env.set(USER, user.name.as_str());
    env.set(PWD, home);
    env.set(HOME, home);
    env.set(XDG_SESSION_TYPE, session.session_type.as_str());

    let data_home = user.homedir.clone().concat("/.local/share");
    env.set(XDG_DATA_HOME, data_home.as_str());
    let config_home = user.homedir.clone().concat("/.config");
    env.set(XDG_CONFIG_HOME, config_home.as_str());
    let cache_home = user.homedir.clone().concat("/.cache");
    env.set(XDG_CACHE_HOME, cache_home.as_str());

    let mut bus = "unix:path=/run/user/".to_owned();
    push_decimal(&mut bus, user.uid as u64);
    bus.append("/bus");
    env.set(DBUS_SESSION_BUS_ADDRESS, bus.as_str());

    if !env.contains(XDG_SESSION_CLASS) {
        env.set(XDG_SESSION_CLASS, "user");
    }
    if !env.contains(XDG_RUNTIME_DIR) {
        let mut runtime_dir = "/run/user/".to_owned();
        push_decimal(&mut runtime_dir, user.uid as u64);
        env.set(XDG_RUNTIME_DIR, runtime_dir.as_str());
    }
    if !env.contains(XDG_VTNR) {
        let number: i32 = match tty.number {
            Some(n) => n,
            None => 0,
        };
        let mut vtnr = String::new();
        push_int(&mut vtnr, number as i64);
        assert(vtnr@ =~= int_text(vt_number(tty.number)));
        env.set(XDG_VTNR, vtnr.as_str());
    }
    if !env.contains(XDG_SEAT) {
        env.set(XDG_SEAT, binding.seat.as_str());
    }
    if !env.contains(XDG_SESSION_ID) {
        env.set(XDG_SESSION_ID, binding.session_id.as_str());
    }
    proof {
        lemma_names_differ();
        assert(env@ =~= prepared(
            old(env)@,
            *user,
            *session,
            binding.session_id@,
            binding.seat@,
            tty.number,
        ));
    }
}

/// Removes every variable of the session from `env`, whoever set it and
/// whether or not a launch came as far as setting it.
pub fn env_reset(env: &mut EnvironmentContext)
    ensures
        final(env)@ == cleared(old(env)@),
{
    let keys = owned_keys();
    let mut i: usize = 0;
    while i < keys.len()
        invariant
            i <= keys@.len(),
            keys@.len() == owned_names().len(),
            forall|j: int| 0 <= j < keys@.len() ==> (#[trigger] keys@[j])@ == owned_names()[j],
            env@ == old(env)@.remove_keys(owned_names().take(i as int).to_set()),
        decreases keys@.len() - i,
    {
        env.remove(keys[i]);
        proof {
            let done = owned_names().take(i as int);
            let more = owned_names().take(i + 1);
            assert(more =~= done.push(owned_names()[i as int]));
            assert(more.to_set() =~= done.to_set().insert(owned_names()[i as int])) by {
                assert forall|k: Seq<char>| more.to_set().contains(k) <==> done.to_set().insert(
                    owned_names()[i as int],
                ).contains(k) by {
                    if more.contains(k) {
                        let j = choose|j: int| 0 <= j < more.len() && more[j] == k;
                        if j < i {
                            assert(done[j] == k);
                        }
                    }
                    if done.contains(k) {
                        let j = choose|j: int| 0 <= j < done.len() && done[j] == k;
                        assert(more[j] == k);
                    }
                    assert(more[i as int] == owned_names()[i as int]);
                }
            }
            assert(env@ =~= old(env)@.remove_keys(more.to_set()));
        }
        i += 1;
    }
    proof {
        assert(owned_names().take(i as int) =~= owned_names());
    }
}

/// Whatever an environment held before, none of the session's variables is
/// left in it once a session was launched from it and torn down again.
pub proof fn lemma_round_trip_clears_owned(
    env: Map<Seq<char>, Seq<char>>,
    user: User,
    session: Session,
    session_id: Seq<char>,
    seat: Seq<char>,
    number: Option<i32>,
    name: Seq<char>,
)
    requires
        owned_names().contains(name),
    ensures
        !cleared(prepared(env, user, session, session_id, seat, number)).contains_key(name),
        !cleared(env).contains_key(name),
{
}

/// A teardown leaves every variable that the session does not own as it
/// found it.
pub proof fn lemma_reset_keeps_other_variables(env: Map<Seq<char>, Seq<char>>, name: Seq<char>)
    requires
        !owned_names().contains(name),
    ensures
        cleared(env).contains_key(name) == env.contains_key(name),
        env.contains_key(name) ==> cleared(env)[name] == env[name],
{
}

/// A launch changes no variable but the session's own, so that the teardown
/// of a launched session leaves what the teardown of the environment before
/// the launch would have left.
pub proof fn lemma_round_trip_is_reset(
    env: Map<Seq<char>, Seq<char>>,
    user: User,
    session: Session,
    session_id: Seq<char>,
    seat: Seq<char>,
    number: Option<i32>,
)
    ensures
        cleared(prepared(env, user, session, session_id, seat, number)) == cleared(env),
{
    lemma_owned_names_are_the_variables_set(user, session, session_id, seat, number);
    assert(cleared(prepared(env, user, session, session_id, seat, number)) =~= cleared(env));
}

/// A teardown of what is torn down already changes nothing.
pub proof fn lemma_reset_is_idempotent(env: Map<Seq<char>, Seq<char>>)
    ensures
        cleared(cleared(env)) == cleared(env),
{
    assert(cleared(cleared(env)) =~= cleared(env));
}

/// A variable that is set only if absent keeps the value that it had before
/// the launch, and the teardown removes it all the same.
pub proof fn lemma_set_if_absent_keeps_value(
    env: Map<Seq<char>, Seq<char>>,
    user: User,
    session: Session,
    session_id: Seq<char>,
    seat: Seq<char>,
    number: Option<i32>,
    name: Seq<char>,
)
    requires
        set_if_absent(user, session_id, seat, number).contains_key(name),
        env.contains_key(name),
    ensures
        prepared(env, user, session, session_id, seat, number).contains_key(name),
        prepared(env, user, session, session_id, seat, number)[name] == env[name],
        !cleared(prepared(env, user, session, session_id, seat, number)).contains_key(name),
{
    lemma_names_differ();
    lemma_owned_names_are_the_variables_set(user, session, session_id, seat, number);
}

/// Where a variable that is set only if absent was not set before the
/// launch, the launch gives it the session's value.
pub proof fn lemma_set_if_absent_fills_gap(
    env: Map<Seq<char>, Seq<char>>,
    user: User,
    session: Session,
    session_id: Seq<char>,
    seat: Seq<char>,
    number: Option<i32>,
    name: Seq<char>,
)
    requires
        set_if_absent(user, session_id, seat, number).contains_key(name),
        !env.contains_key(name),
    ensures
        prepared(env, user, session, session_id, seat, number).contains_key(name),
        prepared(env, user, session, session_id, seat, number)[name] == set_if_absent(user, session_id, seat, number)[name],
{
    lemma_names_differ();
}

/// A variable that is always set holds the session's value after the
/// launch, whatever it held before.
pub proof fn lemma_always_set_overrides(
    env: Map<Seq<char>, Seq<char>>,
    user: User,
    session: Session,
    session_id: Seq<char>,
    seat: Seq<char>,
    number: Option<i32>,
    name: Seq<char>,
)
    requires
        always_set(user, session).contains_key(name),
    ensures
        prepared(env, user, session, session_id, seat, number).contains_key(name),
        prepared(env, user, session, session_id, seat, number)[name] == always_set(user, session)[name],
{
}

} // verus!
