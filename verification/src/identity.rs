//! The records a launch is made for: who logs in, and what is started.

use vstd::prelude::*;

verus! {

/// A local account, as the user catalog supplies it.
#[derive(Clone, Debug)]
pub struct User {
    pub name: String,
    pub uid: u32,
    pub gid: u32,
    pub homedir: String,
    pub shell: String,
}

/// The kind of session, as `XDG_SESSION_TYPE` names it.
#[derive(Clone, Copy, Debug, PartialEq, Eq, Structural)]
pub enum SessionType {
    Tty,
    X11,
    Wayland,
}

/// A launchable target.
#[derive(Clone, Debug)]
pub struct Session {
    pub name: String,
    pub session_type: SessionType,
    pub cmd: String,
}

impl SessionType {
    /// The tag as it is written into the environment.
    pub open spec fn tag(self) -> Seq<char> {
        match self {
            SessionType::Tty => "tty"@,
            SessionType::X11 => "x11"@,
            SessionType::Wayland => "wayland"@,
        }
    }

    pub fn as_str(self) -> (tag: &'static str)
        ensures
            tag@ == self.tag(),
    {
        match self {
            SessionType::Tty => "tty",
            SessionType::X11 => "x11",
            SessionType::Wayland => "wayland",
        }
    }
}

} // verus!
