//! Choosing audio devices by name.

use vstd::prelude::*;
use crate::audio::types::AudioError;
use crate::text::{chars_of, contains_chars, spec_contains};

verus! {

/// Part of the name of the VB-Cable playback device, `CABLE Input (VB-Audio
/// Virtual Cable)`.
pub const VB_CABLE_INPUT_HINT: &'static str = "CABLE Input";

/// Whether `name` names a VB-Cable playback device.
pub open spec fn is_vb_cable(name: Seq<char>) -> bool {
    spec_contains(name, VB_CABLE_INPUT_HINT@)
}

/// `r` is the first of `outputs` that names a VB-Cable playback device, or
/// `None` when none does.
pub open spec fn first_vb_cable(outputs: Seq<String>, r: Option<String>) -> bool {
    match r {
        Some(name) => exists|i: int| {
            &&& 0 <= i < outputs.len()
            &&& #[trigger] outputs[i]@ == name@
            &&& is_vb_cable(name@)
            &&& forall|j: int| 0 <= j < i ==> !is_vb_cable(#[trigger] outputs[j]@)
        },
        None => forall|j: int| 0 <= j < outputs.len() ==> !is_vb_cable(#[trigger] outputs[j]@),
    }
}

/// The first of the output device names `outputs` that names a VB-Cable
/// playback device, if any.
pub fn detect_vb_cable(outputs: &Vec<String>) -> (r: Option<String>)
    ensures
        first_vb_cable(outputs@, r),
{
    let hint = chars_of(VB_CABLE_INPUT_HINT);
    let mut i: usize = 0;
    while i < outputs.len()
        invariant
            i <= outputs@.len(),
            hint@ == VB_CABLE_INPUT_HINT@,
            forall|j: int| 0 <= j < i ==> !is_vb_cable(#[trigger] outputs@[j]@),
        decreases outputs@.len() - i,
    {
        let name = chars_of(outputs[i].as_str());
        if contains_chars(&name, &hint) {
            let found = outputs[i].clone();
            assert(outputs@[i as int]@ == found@);
            return Some(found);
        }
        i = i + 1;
    }
    None
}

/// Index of the first device whose name could be read and equals `name`.
/// `names[i]` is `None` when the name of device `i` could not be read.
pub fn find_device(names: &Vec<Option<String>>, name: &str) -> (r: Option<usize>)
    ensures
        match r {
            Some(i) => {
                &&& i < names@.len()
                &&& names@[i as int] matches Some(n) && n@ == name@
                &&& forall|j: int| 0 <= j < i ==> !(#[trigger] names@[j] matches Some(n) && n@ == name@)
            },
            None => forall|j: int| 0 <= j < names@.len() ==> !(#[trigger] names@[j] matches Some(n) && n@ == name@),
        },
{
    let wanted = String::from_str(name);
    let mut i: usize = 0;
    while i < names.len()
        invariant
            i <= names@.len(),
            wanted@ == name@,
            forall|j: int| 0 <= j < i ==> !(#[trigger] names@[j] matches Some(n) && n@ == name@),
        decreases names@.len() - i,
    {
        match &names[i] {
            Some(n) => {
                if *n == wanted {
                    return Some(i);
                }
            },
            None => {},
        }
        i = i + 1;
    }
    None
}

/// The device to open for the name `name` among the device names `names`:
/// the first whose name equals it, or `DeviceNotFound(name)`.
pub fn select_device(names: &Vec<Option<String>>, name: &str) -> (r: Result<usize, AudioError>)
    ensures
        match r {
            Ok(i) => {
                &&& i < names@.len()
                &&& names@[i as int] matches Some(n) && n@ == name@
                &&& forall|j: int| 0 <= j < i ==> !(#[trigger] names@[j] matches Some(n) && n@ == name@)
            },
            Err(e) => {
                &&& e matches AudioError::DeviceNotFound(n) && n@ == name@
                &&& forall|j: int| 0 <= j < names@.len() ==> !(#[trigger] names@[j] matches Some(n) && n@ == name@)
            },
        },
{
    match find_device(names, name) {
        Some(i) => Ok(i),
        None => Err(AudioError::DeviceNotFound(String::from_str(name))),
    }
}

/// The devices offered to the user, and the VB-Cable device among the outputs.
pub struct Devices {
    pub inputs: Vec<String>,
    pub outputs: Vec<String>,
    pub vb_cable: Option<String>,
}

impl Devices {
    /// Gathers the input and output device names, and picks the VB-Cable
    /// playback device among the outputs.
    pub fn from_names(inputs: Vec<String>, outputs: Vec<String>) -> (d: Devices)
        ensures
            d.inputs == inputs,
            d.outputs == outputs,
            first_vb_cable(outputs@, d.vb_cable),
    {
        let vb_cable = detect_vb_cable(&outputs);
        Devices { inputs, outputs, vb_cable }
    }
}

} // verus!
