use loginrs::environment::{env_reset, owned_keys, prepare_environment, EnvironmentContext};
use loginrs::identity::{Session, SessionType, User};
use loginrs::seat::HostSessionBinding;
use loginrs::tty::TtyIdentity;

fn alice() -> User {
    User {
        name: String::from("alice"),
        uid: 1001,
        gid: 1001,
        homedir: String::from("/home/alice"),
        shell: String::from("/bin/zsh"),
    }
}

fn bash() -> Session {
    Session {
        name: String::from("bash"),
        session_type: SessionType::Tty,
        cmd: String::from("/bin/bash"),
    }
}

fn binding() -> HostSessionBinding {
    HostSessionBinding { session_id: String::from("42"), seat: String::from("seat7") }
}

fn tty3() -> TtyIdentity {
    TtyIdentity { path: String::from("/dev/tty3"), name: String::from("tty3"), number: Some(3) }
}

fn value(env: &EnvironmentContext, name: &str) -> Option<String> {
    env.get(name)
}

#[test]
fn context_get_set_remove() {
    let mut env = EnvironmentContext::new();
    assert_eq!(env.get("PATH"), None);
    assert!(!env.contains("PATH"));
    env.set("PATH", "/usr/bin");
    assert_eq!(env.get("PATH"), Some(String::from("/usr/bin")));
    assert!(env.contains("PATH"));
    env.set("PATH", "/bin");
    assert_eq!(env.get("PATH"), Some(String::from("/bin")));
    env.set("TERM", "linux");
    env.remove("PATH");
    assert_eq!(env.get("PATH"), None);
    assert_eq!(env.get("TERM"), Some(String::from("linux")));
    env.remove("PATH");
    assert_eq!(env.get("PATH"), None);
    env.set("EMPTY", "");
    assert_eq!(env.get("EMPTY"), Some(String::new()));
}

#[test]
fn owned_keys_are_the_fifteen_session_variables() {
    assert_eq!(
        owned_keys(),
        vec![
            "SHELL",
            "LOGNAME",
            "USER",
            "PWD",
            "HOME",
            "XDG_SESSION_TYPE",
            "XDG_DATA_HOME",
            "XDG_CONFIG_HOME",
            "XDG_CACHE_HOME",
            "DBUS_SESSION_BUS_ADDRESS",
            "XDG_SESSION_CLASS",
            "XDG_RUNTIME_DIR",
            "XDG_VTNR",
            "XDG_SEAT",
            "XDG_SESSION_ID",
        ]
    );
}

#[test]
fn prepare_sets_every_variable_of_the_session() {
    let mut env = EnvironmentContext::new();
    prepare_environment(&mut env, &alice(), &bash(), &binding(), &tty3());
    let expected = [
        ("SHELL", "/bin/zsh"),
        ("LOGNAME", "alice"),
        ("USER", "alice"),
        ("PWD", "/home/alice"),
        ("HOME", "/home/alice"),
        ("XDG_SESSION_TYPE", "tty"),
        ("XDG_DATA_HOME", "/home/alice/.local/share"),
        ("XDG_CONFIG_HOME", "/home/alice/.config"),
        ("XDG_CACHE_HOME", "/home/alice/.cache"),
        ("DBUS_SESSION_BUS_ADDRESS", "unix:path=/run/user/1001/bus"),
        ("XDG_SESSION_CLASS", "user"),
        ("XDG_RUNTIME_DIR", "/run/user/1001"),
        ("XDG_VTNR", "3"),
        ("XDG_SEAT", "seat7"),
        ("XDG_SESSION_ID", "42"),
    ];
    for (name, text) in expected {
        assert_eq!(value(&env, name), Some(String::from(text)), "{}", name);
    }
    assert_eq!(value(&env, "XDG_CURRENT_DESKTOP"), None);
}

#[test]
fn prepare_names_the_session_type() {
    for (kind, tag) in
        [(SessionType::Tty, "tty"), (SessionType::X11, "x11"), (SessionType::Wayland, "wayland")]
    {
        assert_eq!(kind.as_str(), tag);
        let mut session = bash();
        session.session_type = kind;
        let mut env = EnvironmentContext::new();
        prepare_environment(&mut env, &alice(), &session, &binding(), &tty3());
        assert_eq!(value(&env, "XDG_SESSION_TYPE"), Some(String::from(tag)));
    }
}

#[test]
fn prepare_uses_zero_for_a_terminal_without_number() {
    let mut env = EnvironmentContext::new();
    let tty = TtyIdentity {
        path: String::from("/dev/tty?"),
        name: String::from("tty?"),
        number: None,
    };
    prepare_environment(&mut env, &alice(), &bash(), &binding(), &tty);
    assert_eq!(value(&env, "XDG_VTNR"), Some(String::from("0")));
}

#[test]
fn prepare_overwrites_the_variables_that_are_always_set() {
    let mut env = EnvironmentContext::new();
    for name in [
        "SHELL", "LOGNAME", "USER", "PWD", "HOME", "XDG_SESSION_TYPE", "XDG_DATA_HOME",
        "XDG_CONFIG_HOME", "XDG_CACHE_HOME", "DBUS_SESSION_BUS_ADDRESS",
    ] {
        env.set(name, "stale");
    }
    prepare_environment(&mut env, &alice(), &bash(), &binding(), &tty3());
    assert_eq!(value(&env, "SHELL"), Some(String::from("/bin/zsh")));
    assert_eq!(value(&env, "LOGNAME"), Some(String::from("alice")));
    assert_eq!(value(&env, "USER"), Some(String::from("alice")));
    assert_eq!(value(&env, "PWD"), Some(String::from("/home/alice")));
    assert_eq!(value(&env, "HOME"), Some(String::from("/home/alice")));
    assert_eq!(value(&env, "XDG_SESSION_TYPE"), Some(String::from("tty")));
    assert_eq!(value(&env, "XDG_DATA_HOME"), Some(String::from("/home/alice/.local/share")));
    assert_eq!(value(&env, "XDG_CONFIG_HOME"), Some(String::from("/home/alice/.config")));
    assert_eq!(value(&env, "XDG_CACHE_HOME"), Some(String::from("/home/alice/.cache")));
    assert_eq!(
        value(&env, "DBUS_SESSION_BUS_ADDRESS"),
        Some(String::from("unix:path=/run/user/1001/bus"))
    );
}

#[test]
fn prepare_keeps_a_seat_that_is_already_set() {
    let mut env = EnvironmentContext::new();
    env.set("XDG_SEAT", "seat-from-pam");
    prepare_environment(&mut env, &alice(), &bash(), &binding(), &tty3());
    assert_eq!(value(&env, "XDG_SEAT"), Some(String::from("seat-from-pam")));
    // The others of the five are still filled in.
    assert_eq!(value(&env, "XDG_SESSION_ID"), Some(String::from("42")));
    env_reset(&mut env);
    assert_eq!(value(&env, "XDG_SEAT"), None);
}

#[test]
fn prepare_keeps_each_of_the_five_that_is_already_set() {
    for name in
        ["XDG_SESSION_CLASS", "XDG_RUNTIME_DIR", "XDG_VTNR", "XDG_SEAT", "XDG_SESSION_ID"]
    {
        let mut env = EnvironmentContext::new();
        env.set(name, "");
        prepare_environment(&mut env, &alice(), &bash(), &binding(), &tty3());
        assert_eq!(value(&env, name), Some(String::new()), "{}", name);
        env_reset(&mut env);
        assert_eq!(value(&env, name), None, "{}", name);
    }
}

#[test]
fn round_trip_leaves_no_owned_variable() {
    let mut starts = Vec::new();
    starts.push(EnvironmentContext::new());
    let mut full = EnvironmentContext::new();
    for name in owned_keys() {
        full.set(name, "before");
    }
    full.set("PATH", "/usr/bin");
    starts.push(full);
    let mut partial = EnvironmentContext::new();
    partial.set("HOME", "/root");
    partial.set("XDG_VTNR", "9");
    partial.set("TERM", "linux");
    starts.push(partial);
    for mut env in starts {
        let path = env.get("PATH");
        let term = env.get("TERM");
        prepare_environment(&mut env, &alice(), &bash(), &binding(), &tty3());
        env_reset(&mut env);
        for name in owned_keys() {
            assert_eq!(env.get(name), None, "{}", name);
        }
        assert_eq!(env.get("PATH"), path);
        assert_eq!(env.get("TERM"), term);
    }
}

#[test]
fn reset_without_prepare_is_safe_and_idempotent() {
    let mut env = EnvironmentContext::new();
    env_reset(&mut env);
    assert_eq!(env.get("HOME"), None);
    env.set("HOME", "/root");
    env.set("LANG", "C");
    env.set("XDG_CURRENT_DESKTOP", "sway");
    env_reset(&mut env);
    env_reset(&mut env);
    assert_eq!(env.get("HOME"), None);
    assert_eq!(env.get("LANG"), Some(String::from("C")));
    assert_eq!(env.get("XDG_CURRENT_DESKTOP"), Some(String::from("sway")));
}

#[test]
fn prepare_leaves_other_variables_alone() {
    let mut env = EnvironmentContext::new();
    env.set("PATH", "/usr/bin");
    env.set("home", "lower");
    prepare_environment(&mut env, &alice(), &bash(), &binding(), &tty3());
    assert_eq!(env.get("PATH"), Some(String::from("/usr/bin")));
    assert_eq!(env.get("home"), Some(String::from("lower")));
}

#[test]
fn prepare_writes_large_user_ids_in_full() {
    let mut user = alice();
    user.uid = u32::MAX;
    let mut env = EnvironmentContext::new();
    prepare_environment(&mut env, &user, &bash(), &binding(), &tty3());
    assert_eq!(value(&env, "XDG_RUNTIME_DIR"), Some(String::from("/run/user/4294967295")));
    assert_eq!(
        value(&env, "DBUS_SESSION_BUS_ADDRESS"),
        Some(String::from("unix:path=/run/user/4294967295/bus"))
    );
}
