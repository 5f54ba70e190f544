use vstd::prelude::*;
use crate::keys::KEY_ENTER;

verus! {

/// The name of the virtual keyboard this daemon creates; devices with this
/// name are never grabbed.
pub const VIRTUAL_DEVICE_NAME: &'static str = "swhkd virtual output";

/// The group whose members can read raw input devices.
pub const INPUT_GROUP: &'static str = "input";

#[verifier::external_type_specification]
#[verifier::external_body]
pub struct ExDevice(evdev::Device);

/// Relies on evdev::Device::name: the name the device reported, if any.
#[verifier::external_body]
fn device_name(device: &evdev::Device) -> (r: Option<String>) {
    device.name().map(|n| n.to_owned())
}

/// Relies on evdev::Device::supported_keys and AttributeSetRef::contains:
/// whether the device reports the key among those it supports.
#[verifier::external_body]
fn device_supports_key(device: &evdev::Device, code: u16) -> (r: bool) {
    match device.supported_keys() {
        Some(keys) => keys.contains(evdev::Key::new(code)),
        None => false,
    }
}

pub open spec fn is_keyboard_spec(supports_enter: bool, name: Option<Seq<char>>) -> bool {
    supports_enter && name != Some(VIRTUAL_DEVICE_NAME@)
}

/// A device is taken for a keyboard when it supports the Enter key and is
/// not this daemon's own virtual output.
pub fn is_keyboard(supports_enter: bool, name: &Option<String>) -> (r: bool)
    ensures
        r == is_keyboard_spec(
            supports_enter,
            match name {
                Some(n) => Some(n@),
                None => None,
            },
        ),
{
    if !supports_enter {
        return false;
    }
    match name {
        Some(n) => {
            let own = VIRTUAL_DEVICE_NAME.to_owned();
            !(*n == own)
        },
        None => true,
    }
}

/// Reads the device's name and keys and decides with `is_keyboard`.
pub fn check_keyboard(device: &evdev::Device) -> bool {
    let supports_enter = device_supports_key(device, KEY_ENTER);
    let name = device_name(device);
    is_keyboard(supports_enter, &name)
}

/// The outcome of the privilege gate.
#[derive(Clone, Copy, Debug, PartialEq, Eq, Structural)]
pub enum Permission {
    /// Running as root: go on, with a warning.
    Privileged,
    /// Not root: refuse to run; `input_group` asks for the extra warning
    /// that the invoking user can read raw input devices.
    Refused { input_group: bool },
}

/// The privilege gate: only root may run the daemon; a refused user who is
/// in the input group is warned about it.
pub fn permission_check(is_root: bool, group_names: &Vec<String>) -> (r: Permission)
    ensures
        is_root ==> r == Permission::Privileged,
        !is_root ==> r == (Permission::Refused {
            input_group: exists|i: int|
                0 <= i < group_names.len() && (#[trigger] group_names@[i])@ == INPUT_GROUP@,
        }),
{
    if is_root {
        return Permission::Privileged;
    }
    let input = INPUT_GROUP.to_owned();
    let mut i: usize = 0;
    while i < group_names.len()
        invariant
            i <= group_names.len(),
            !is_root,
            input@ == INPUT_GROUP@,
            forall|j: int| 0 <= j < i ==> (#[trigger] group_names@[j])@ != INPUT_GROUP@,
        decreases group_names.len() - i,
    {
        if group_names[i] == input {
            return Permission::Refused { input_group: true };
        }
        i = i + 1;
    }
    Permission::Refused { input_group: false }
}

/// A running process as the single-instance guard sees it.
pub struct ProcessInfo {
    /// The process id in decimal.
    pub pid: String,
    /// Whether its executable is the current executable.
    pub same_executable: bool,
}

/// Another instance runs when some process has the recorded pid and runs
/// the same executable.
pub fn already_running(recorded_pid: &String, processes: &Vec<ProcessInfo>) -> (r: bool)
    ensures
        r == exists|i: int|
            0 <= i < processes.len() && (#[trigger] processes@[i]).pid@ == recorded_pid@
                && processes@[i].same_executable,
{
    let mut i: usize = 0;
    while i < processes.len()
        invariant
            i <= processes.len(),
            forall|j: int|
                0 <= j < i ==> !((#[trigger] processes@[j]).pid@ == recorded_pid@
                    && processes@[j].same_executable),
        decreases processes.len() - i,
    {
        if processes[i].pid == *recorded_pid && processes[i].same_executable {
            return true;
        }
        i = i + 1;
    }
    false
}

} // verus!
