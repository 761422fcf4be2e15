//! The display catalog: from what the display driver reports to the list of
//! monitors, and from a wanted setting to the mode that the driver is asked
//! for.
//!
//! Nothing here talks to a driver. `enumerate_monitors` takes the driver's
//! report of one enumeration and builds the catalog; `set_resolution` and
//! `set_orientation` take the mode a device is in and say which mode to
//! request and which of its fields the request sets.

use vstd::prelude::*;
use vstd::string::StringExecFns;

use super::modes::{catalog_form, is_catalog_form};
use super::monitor::Monitor;
use super::orientation::Orientation;
use super::resolution::Resolution;
use crate::error::EnumerationError;
use crate::text::{decimal, decimal_text};

verus! {

/// The mode of a device as the driver reports it. The orientation is the
/// driver's number for it.
#[derive(Debug, Clone, Copy, PartialEq, Eq, Structural)]
pub struct DeviceMode {
    pub width: u32,
    pub height: u32,
    pub frequency: u32,
    pub bits_per_pixel: u32,
    pub orientation: u32,
    pub position_x: i32,
    pub position_y: i32,
}

/// One device of an enumeration.
#[derive(Debug)]
pub struct DeviceReport {
    /// The place of the device in the driver's enumeration, from zero.
    pub index: u32,
    /// The name under which the driver knows the device.
    pub device_name: String,
    /// The driver's state bits for the device.
    pub state_flags: u32,
    /// The description of the monitor on the device, where the driver gave
    /// one.
    pub description: Option<String>,
    /// The mode the device is in, where the driver could tell.
    pub current: Option<DeviceMode>,
    /// Every mode the driver lists for the device, as listed.
    pub modes: Vec<Resolution>,
}

/// A friendly name that the driver has on record for a device name.
#[derive(Debug)]
pub struct NameEntry {
    pub source: String,
    pub friendly: String,
}

/// What the driver reported in one enumeration.
#[derive(Debug)]
pub struct DriverReport {
    pub devices: Vec<DeviceReport>,
    pub names: Vec<NameEntry>,
}

/// Which fields of a mode a request sets.
#[derive(Debug, Clone, Copy, PartialEq, Eq, Structural)]
pub struct ModeFields {
    pub width: bool,
    pub height: bool,
    pub frequency: bool,
    pub bits_per_pixel: bool,
    pub orientation: bool,
}

/// A change of mode to ask the driver for: the full mode, and the fields of
/// it that the driver is to take.
#[derive(Debug, Clone, Copy, PartialEq, Eq, Structural)]
pub struct ModeRequest {
    pub mode: DeviceMode,
    pub fields: ModeFields,
}

/// The state bit of a device that is part of the desktop.
pub const ATTACHED_TO_DESKTOP: u32 = 0x1;

/// The state bit of the primary device.
pub const PRIMARY_DEVICE: u32 = 0x4;

/// Whether the state bits say that the device is part of the desktop.
pub open spec fn is_attached(state_flags: u32) -> bool {
    state_flags & ATTACHED_TO_DESKTOP != 0
}

/// Whether the state bits say that the device is the primary one.
pub open spec fn is_primary(state_flags: u32) -> bool {
    state_flags & PRIMARY_DEVICE != 0
}

/// Whether entry `i` gives a name to the device: it is for that device and
/// not empty.
pub open spec fn names_device(names: Seq<NameEntry>, device: Seq<char>, i: int) -> bool {
    0 <= i < names.len() && names[i].source@ == device && names[i].friendly@.len() > 0
}

/// Whether any entry gives a name to the device.
pub open spec fn is_named(names: Seq<NameEntry>, device: Seq<char>) -> bool {
    exists|i: int| names_device(names, device, i)
}

/// Entry `i` is the last one that gives a name to the device. Where the
/// driver has several names on record for a device, the last one counts.
pub open spec fn is_last_name(names: Seq<NameEntry>, device: Seq<char>, i: int) -> bool {
    &&& names_device(names, device, i)
    &&& forall|j: int| i < j < names.len() ==> !names_device(names, device, j)
}

/// The index of the last entry that gives a name to the device; meaningful
/// when `is_named` holds.
pub open spec fn last_name(names: Seq<NameEntry>, device: Seq<char>) -> int {
    choose|i: int| is_last_name(names, device, i)
}

/// The name of a device that has no other: "Display" and its number in the
/// enumeration, counted from one.
pub open spec fn numbered_name(index: u32) -> Seq<char> {
    "Display "@ + decimal((index + 1) as nat)
}

/// The name under which a device is shown: the friendly name on record, else
/// the monitor's description, else the numbered name. An empty text is no
/// name.
pub open spec fn display_name(device: DeviceReport, names: Seq<NameEntry>) -> Seq<char> {
    if is_named(names, device.device_name@) {
        names[last_name(names, device.device_name@)].friendly@
    } else {
        match device.description {
            Some(text) => if text@.len() > 0 {
                text@
            } else {
                numbered_name(device.index)
            },
            None => numbered_name(device.index),
        }
    }
}

/// Whether a device becomes a monitor of the catalog: it is attached to the
/// desktop and its current mode is known. Any other device is passed over.
pub open spec fn is_listed(device: DeviceReport) -> bool {
    is_attached(device.state_flags) && device.current is Some
}

/// The devices that become monitors, in the order of the enumeration.
pub open spec fn listed_devices(devices: Seq<DeviceReport>) -> Seq<DeviceReport> {
    devices.filter(|d: DeviceReport| is_listed(d))
}

/// `monitor` is the catalog entry for `device`.
pub open spec fn describes(device: DeviceReport, names: Seq<NameEntry>, monitor: Monitor) -> bool {
    &&& device.current matches Some(mode)
    &&& monitor.id@ == device.device_name@
    &&& monitor.device_name@ == device.device_name@
    &&& monitor.name@ == display_name(device, names)
    &&& monitor.current_resolution == (Resolution {
        width: mode.width,
        height: mode.height,
        frequency: mode.frequency,
        bits_per_pixel: mode.bits_per_pixel,
    })
    &&& monitor.current_orientation == Orientation::decode(mode.orientation)
    &&& monitor.position == (mode.position_x, mode.position_y)
    &&& monitor.is_primary == is_primary(device.state_flags)
    &&& is_catalog_form(device.modes@, monitor.available_resolutions@)
}

/// `monitors` is the catalog for an enumeration: one monitor for each listed
/// device, in the order of the enumeration.
pub open spec fn is_catalog_of(
    devices: Seq<DeviceReport>,
    names: Seq<NameEntry>,
    monitors: Seq<Monitor>,
) -> bool {
    &&& monitors.len() == listed_devices(devices).len()
    &&& forall|k: int|
        0 <= k < monitors.len() ==> describes(
            listed_devices(devices)[k],
            names,
            #[trigger] monitors[k],
        )
}

/// The mode to request for a new resolution: the current mode with the four
/// values of the resolution, and exactly those fields set.
pub open spec fn resolution_request(current: DeviceMode, resolution: Resolution) -> ModeRequest {
    ModeRequest {
        mode: DeviceMode {
            width: resolution.width,
            height: resolution.height,
            frequency: resolution.frequency,
            bits_per_pixel: resolution.bits_per_pixel,
            orientation: current.orientation,
            position_x: current.position_x,
            position_y: current.position_y,
        },
        fields: ModeFields {
            width: true,
            height: true,
            frequency: true,
            bits_per_pixel: true,
            orientation: false,
        },
    }
}

/// Whether turning a device in mode `current` to `target` exchanges the
/// axes: one of the two orientations is upright and the other is not.
pub open spec fn swaps_axes(current: DeviceMode, target: Orientation) -> bool {
    Orientation::decode(current.orientation).crosses_axis(target)
}

/// The mode to request for a new orientation. The driver takes dimensions
/// in the frame of the orientation the device is in, so a turn that
/// exchanges the axes asks for the current width as height and the current
/// height as width, and sets both; any other turn leaves the dimensions
/// alone and sets the orientation only.
pub open spec fn orientation_request(current: DeviceMode, target: Orientation) -> ModeRequest {
    let swap = swaps_axes(current, target);
    ModeRequest {
        mode: DeviceMode {
            width: if swap {
                current.height
            } else {
                current.width
            },
            height: if swap {
                current.width
            } else {
                current.height
            },
            frequency: current.frequency,
            bits_per_pixel: current.bits_per_pixel,
            orientation: target.code(),
            position_x: current.position_x,
            position_y: current.position_y,
        },
        fields: ModeFields {
            width: swap,
            height: swap,
            frequency: false,
            bits_per_pixel: false,
            orientation: true,
        },
    }
}

fn attached_flag(state_flags: u32) -> (set: bool)
    ensures
        set == is_attached(state_flags),
{
    state_flags & ATTACHED_TO_DESKTOP != 0
}

fn primary_flag(state_flags: u32) -> (set: bool)
    ensures
        set == is_primary(state_flags),
{
    state_flags & PRIMARY_DEVICE != 0
}

fn find_name(names: &Vec<NameEntry>, device: &String) -> (found: Option<usize>)
    ensures
        found is Some <==> is_named(names@, device@),
        found matches Some(i) ==> is_last_name(names@, device@, i as int) && i == last_name(
            names@,
            device@,
        ),
{
    let mut i: usize = names.len();
    while i > 0
        invariant
            i <= names.len(),
            forall|j: int| i <= j < names.len() ==> !names_device(names@, device@, j),
        decreases i,
    {
        i -= 1;
        if names[i].source == *device && !names[i].friendly.as_str().is_empty() {
            proof {
                assert(is_last_name(names@, device@, i as int));
                let l = last_name(names@, device@);
                assert(is_last_name(names@, device@, l));
                if l < i {
                    assert(names_device(names@, device@, i as int));
                } else if i < l {
                    assert(names_device(names@, device@, l));
                }
            }
            return Some(i);
        }
    }
    proof {
        if is_named(names@, device@) {
            let j = choose|j: int| names_device(names@, device@, j);
            assert(!names_device(names@, device@, j));
        }
    }
    None
}

fn numbered(index: u32) -> (name: String)
    ensures
        name@ == numbered_name(index),
{
    let mut name = String::from_str("Display ");
    name.append(decimal_text(index as u64 + 1).as_str());
    name
}

fn name_of(device: &DeviceReport, names: &Vec<NameEntry>) -> (name: String)
    ensures
        name@ == display_name(*device, names@),
{
    match find_name(names, &device.device_name) {
        Some(i) => names[i].friendly.clone(),
        None => match &device.description {
            Some(text) => if text.as_str().is_empty() {
                numbered(device.index)
            } else {
                text.clone()
            },
            None => numbered(device.index),
        },
    }
}

/// The catalog side of the display driver.
#[derive(Debug)]
pub struct DisplayManager;

impl DisplayManager {
    /// Builds the catalog from the driver's report of one enumeration.
    ///
    /// The catalog holds a monitor for every device that is attached to the
    /// desktop, in the order of the enumeration, with the mode it is in and
    /// its capability list in catalog form. A device whose current mode the
    /// driver could not tell is left out; it does not fail the enumeration.
    /// The only failure is that of the enumeration as a whole, which is
    /// handed on.
    pub fn enumerate_monitors(report: Result<DriverReport, String>) -> (catalog: Result<
        Vec<Monitor>,
        EnumerationError,
    >)
        ensures
            report matches Ok(found) ==> catalog is Ok && is_catalog_of(
                found.devices@,
                found.names@,
                catalog->Ok_0@,
            ),
            report matches Err(detail) ==> catalog is Err && catalog->Err_0.detail == detail,
    {
        match report {
            Err(detail) => Err(EnumerationError { detail }),
            Ok(found) => {
                let devices = &found.devices;
                let ghost keep = |d: DeviceReport| is_listed(d);
                let mut monitors: Vec<Monitor> = Vec::new();
                let mut i: usize = 0;
                proof {
                    reveal(Seq::filter);
                    assert(devices@.take(0) =~= Seq::<DeviceReport>::empty());
                }
                while i < devices.len()
                    invariant
                        i <= devices.len(),
                        keep == (|d: DeviceReport| is_listed(d)),
                        monitors@.len() == devices@.take(i as int).filter(keep).len(),
                        forall|k: int|
                            0 <= k < monitors@.len() ==> describes(
                                devices@.take(i as int).filter(keep)[k],
                                found.names@,
                                #[trigger] monitors@[k],
                            ),
                    decreases devices.len() - i,
                {
                    let device = &devices[i];
                    proof {
                        assert(devices@.take(i + 1) =~= devices@.take(i as int).push(*device));
                        devices@.take(i as int).lemma_filter_push(*device, keep);
                    }
                    if attached_flag(device.state_flags) {
                        match device.current {
                            Some(mode) => {
                                let monitor = Monitor {
                                    id: device.device_name.clone(),
                                    name: name_of(device, &found.names),
                                    device_name: device.device_name.clone(),
                                    current_resolution: Resolution {
                                        width: mode.width,
                                        height: mode.height,
                                        frequency: mode.frequency,
                                        bits_per_pixel: mode.bits_per_pixel,
                                    },
                                    current_orientation: Orientation::from_u32(mode.orientation),
                                    position: (mode.position_x, mode.position_y),
                                    is_primary: primary_flag(device.state_flags),
                                    available_resolutions: catalog_form(&device.modes),
                                };
                                monitors.push(monitor);
                            },
                            None => {},
                        }
                    }
                    i += 1;
                }
                proof {
                    assert(devices@.take(i as int) =~= devices@);
                }
                Ok(monitors)
            },
        }
    }

    /// The request that gives a device a new resolution.
    pub fn set_resolution(current: &DeviceMode, resolution: &Resolution) -> (request: ModeRequest)
        ensures
            request == resolution_request(*current, *resolution),
    {
        ModeRequest {
            mode: DeviceMode {
                width: resolution.width,
                height: resolution.height,
                frequency: resolution.frequency,
                bits_per_pixel: resolution.bits_per_pixel,
                orientation: current.orientation,
                position_x: current.position_x,
                position_y: current.position_y,
            },
            fields: ModeFields {
                width: true,
                height: true,
                frequency: true,
                bits_per_pixel: true,
                orientation: false,
            },
        }
    }

    /// The request that turns a device to a new orientation.
    pub fn set_orientation(current: &DeviceMode, orientation: Orientation) -> (request: ModeRequest)
        ensures
            request == orientation_request(*current, orientation),
    {
        let old_orientation = Orientation::from_u32(current.orientation);
        let swap = old_orientation.standing() != orientation.standing();
        let mut mode = *current;
        let mut fields = ModeFields {
            width: false,
            height: false,
            frequency: false,
            bits_per_pixel: false,
            orientation: true,
        };
        mode.orientation = orientation.to_u32();
        if swap {
            mode.width = current.height;
            mode.height = current.width;
            fields.width = true;
            fields.height = true;
        }
        ModeRequest { mode, fields }
    }
}

} // verus!
