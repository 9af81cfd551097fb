//! What a launch changes on the host, held as a value: the owner of the
//! terminal device, the environment, the accounting log, the working
//! directory and the authentication session.

use crate::accounting::{AccountingLog, RecordView};
use crate::environment::EnvironmentContext;
use vstd::prelude::*;

verus! {

/// The owning user and group of the terminal device.
#[derive(Clone, Copy, Debug, PartialEq, Eq, Structural)]
pub struct DeviceOwnership {
    pub uid: u32,
    pub gid: u32,
}

/// Makes `user_uid` the owner of the device and leaves its group as it is.
pub fn change_tty_ownership(device: &mut DeviceOwnership, user_uid: u32)
    ensures
        *final(device) == (DeviceOwnership { uid: user_uid, gid: old(device).gid }),
{
    device.uid = user_uid;
}

/// The state of the host as far as a launch touches it.
#[derive(Clone, Debug)]
pub struct HostState {
    pub environment: EnvironmentContext,
    pub accounting: AccountingLog,
    pub terminal: DeviceOwnership,
    pub working_directory: String,
    /// Whether the authentication session of the login is still open.
    pub auth_session_open: bool,
}

/// The state of the host in mathematical terms.
pub struct HostView {
    pub environment: Map<Seq<char>, Seq<char>>,
    pub accounting: Seq<RecordView>,
    pub terminal: DeviceOwnership,
    pub working_directory: Seq<char>,
    pub auth_session_open: bool,
}

impl View for HostState {
    type V = HostView;

    open spec fn view(&self) -> HostView {
        HostView {
            environment: self.environment@,
            accounting: self.accounting@,
            terminal: self.terminal,
            working_directory: self.working_directory@,
            auth_session_open: self.auth_session_open,
        }
    }
}

} // verus!
