//! Physical input devices as the router sees them: a path, a name, and
//! the keyboard classification derived from the device's capability
//! set. Enumerating devices and reading their metadata is platform
//! I/O and lives with the unverified device layer, which hands this
//! module plain values.

use vstd::prelude::*;

use crate::error::AppError;
use crate::keys::{KEY_LEFTALT, KEY_LEFTCTRL, KEY_LEFTSHIFT};

verus! {

/// Whether a capability set has every essential modifier of a main
/// keyboard: left Ctrl, left Shift and left Alt.
pub open spec fn spec_is_keyboard(supported_keys: Option<Seq<u16>>) -> bool {
    match supported_keys {
        Some(keys) => keys.contains(KEY_LEFTCTRL) && keys.contains(KEY_LEFTSHIFT)
            && keys.contains(KEY_LEFTALT),
        None => false,
    }
}

fn contains_code(keys: &Vec<u16>, code: u16) -> (r: bool)
    ensures
        r == keys@.contains(code),
{
    let n = keys.len();
    let mut i: usize = 0;
    while i < n
        invariant
            n == keys@.len(),
            i <= n,
            forall|j: int| 0 <= j < i ==> keys@[j] != code,
        decreases n - i,
    {
        if keys[i] == code {
            return true;
        }
        i += 1;
    }
    false
}

/// A discovered input device: its filesystem path, its reported name,
/// and whether its capability set classifies it as a keyboard.
pub struct InputDevice {
    pub path: String,
    pub name: String,
    pub is_keyboard: bool,
}

impl InputDevice {
    /// Classifies a device from its path, reported name and supported
    /// key codes (`None` when the device reports no key capability).
    pub fn new(path: String, name: String, supported_keys: Option<Vec<u16>>) -> (r: InputDevice)
        ensures
            r.path@ == path@,
            r.name@ == name@,
            r.is_keyboard == spec_is_keyboard(match supported_keys {
                Some(keys) => Some(keys@),
                None => None,
            }),
    {
        let is_keyboard = Self::is_keyboard(&supported_keys);
        InputDevice { path, name, is_keyboard }
    }

    /// The capability probe: a device counts as a keyboard exactly when
    /// it offers all three essential modifiers.
    pub fn is_keyboard(supported_keys: &Option<Vec<u16>>) -> (r: bool)
        ensures
            r == spec_is_keyboard(match supported_keys {
                Some(keys) => Some(keys@),
                None => None,
            }),
    {
        match supported_keys {
            Some(keys) => {
                contains_code(keys, KEY_LEFTCTRL) && contains_code(keys, KEY_LEFTSHIFT)
                    && contains_code(keys, KEY_LEFTALT)
            },
            None => false,
        }
    }
}

/// The devices of a candidate list that classify as keyboards, in the
/// order they were enumerated.
pub open spec fn spec_keyboards_of(devices: Seq<InputDevice>) -> Seq<InputDevice>
    decreases devices.len(),
{
    if devices.len() == 0 {
        Seq::empty()
    } else if devices[0].is_keyboard {
        seq![devices[0]] + spec_keyboards_of(devices.drop_first())
    } else {
        spec_keyboards_of(devices.drop_first())
    }
}

/// Keeps the keyboards of an enumerated candidate list, and fails with
/// `NoKeyboardsFound` exactly when there is none.
pub fn discover_keyboards(devices: Vec<InputDevice>) -> (r: Result<Vec<InputDevice>, AppError>)
    ensures
        match r {
            Ok(keyboards) => keyboards@ == spec_keyboards_of(devices@) && keyboards@.len() > 0,
            Err(e) => e == AppError::NoKeyboardsFound && spec_keyboards_of(devices@).len() == 0,
        },
{
    let ghost all = devices@;
    let mut rest = devices;
    let mut keyboards: Vec<InputDevice> = Vec::new();
    proof {
        assert(keyboards@ + spec_keyboards_of(rest@) =~= spec_keyboards_of(all));
    }
    while rest.len() > 0
        invariant
            spec_keyboards_of(all) == keyboards@ + spec_keyboards_of(rest@),
        decreases rest.len(),
    {
        let ghost r0 = rest@;
        let d = rest.remove(0);
        proof {
            assert(rest@ =~= r0.drop_first());
            assert(d == r0[0]);
        }
        if d.is_keyboard {
            let ghost k0 = keyboards@;
            keyboards.push(d);
            proof {
                assert(k0 + spec_keyboards_of(r0) =~= keyboards@ + spec_keyboards_of(rest@));
            }
        }
    }
    proof {
        assert(spec_keyboards_of(rest@).len() == 0);
        assert(keyboards@ + spec_keyboards_of(rest@) =~= keyboards@);
    }
    if keyboards.len() == 0 {
        Err(AppError::NoKeyboardsFound)
    } else {
        Ok(keyboards)
    }
}

} // verus!
