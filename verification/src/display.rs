//! The shared contract with the virtual-display driver: the three IOCTL
//! codes, computed the way the driver's header computes them, and the
//! parameters a create or resize request carries. Opening the device
//! interface and issuing the requests are OS calls outside this library.

use vstd::prelude::*;
use crate::display_spec::DisplaySpec;

verus! {

/// `CTL_CODE` device type: unknown device.
pub const FILE_DEVICE_UNKNOWN: u32 = 0x22;

/// `CTL_CODE` transfer method: buffered.
pub const METHOD_BUFFERED: u32 = 0;

/// `CTL_CODE` required access: write.
pub const FILE_WRITE_DATA: u32 = 0x2;

/// The Win32 `CTL_CODE` macro's value.
pub open spec fn spec_ctl_code(device_type: u32, function: u32, method: u32, access: u32) -> u32 {
    (device_type << 16u32) | (access << 14u32) | (function << 2u32) | method
}

/// Computes an IOCTL code the way the Win32 `CTL_CODE` macro does.
pub fn ctl_code(device_type: u32, function: u32, method: u32, access: u32) -> (code: u32)
    ensures
        code == spec_ctl_code(device_type, function, method, access),
{
    (device_type << 16u32) | (access << 14u32) | (function << 2u32) | method
}

/// Creates the virtual display.
pub const IOCTL_OPENDISPLAY_CREATE_DISPLAY: u32 = (FILE_DEVICE_UNKNOWN << 16u32) | (FILE_WRITE_DATA << 14u32) | (0x800u32 << 2u32)
    | METHOD_BUFFERED;

/// Resizes the virtual display.
pub const IOCTL_OPENDISPLAY_RESIZE_DISPLAY: u32 = (FILE_DEVICE_UNKNOWN << 16u32) | (FILE_WRITE_DATA << 14u32) | (0x801u32 << 2u32)
    | METHOD_BUFFERED;

/// Destroys the virtual display.
pub const IOCTL_OPENDISPLAY_DESTROY_DISPLAY: u32 = (FILE_DEVICE_UNKNOWN << 16u32) | (FILE_WRITE_DATA << 14u32) | (0x802u32 << 2u32)
    | METHOD_BUFFERED;

/// The three codes are the driver's functions `0x800`..`0x802` on an
/// unknown device, buffered, with write access, and no two coincide.
pub proof fn lemma_ioctl_codes()
    ensures
        IOCTL_OPENDISPLAY_CREATE_DISPLAY == spec_ctl_code(FILE_DEVICE_UNKNOWN, 0x800, METHOD_BUFFERED, FILE_WRITE_DATA),
        IOCTL_OPENDISPLAY_RESIZE_DISPLAY == spec_ctl_code(FILE_DEVICE_UNKNOWN, 0x801, METHOD_BUFFERED, FILE_WRITE_DATA),
        IOCTL_OPENDISPLAY_DESTROY_DISPLAY == spec_ctl_code(FILE_DEVICE_UNKNOWN, 0x802, METHOD_BUFFERED, FILE_WRITE_DATA),
        IOCTL_OPENDISPLAY_CREATE_DISPLAY == 0x22A000,
        IOCTL_OPENDISPLAY_RESIZE_DISPLAY == 0x22A004,
        IOCTL_OPENDISPLAY_DESTROY_DISPLAY == 0x22A008,
{
    assert((0x22u32 << 16u32) | (0x2u32 << 14u32) | (0x800u32 << 2u32) | 0u32 == 0x22A000u32) by (bit_vector);
    assert((0x22u32 << 16u32) | (0x2u32 << 14u32) | (0x801u32 << 2u32) | 0u32 == 0x22A004u32) by (bit_vector);
    assert((0x22u32 << 16u32) | (0x2u32 << 14u32) | (0x802u32 << 2u32) | 0u32 == 0x22A008u32) by (bit_vector);
}

/// The refresh rate a display is created with: the handshake carries none,
/// and the driver requires one.
pub const DEFAULT_REFRESH_HZ: u32 = 60;

/// The parameters of a create or resize request, field for field as the
/// driver lays them out; `scale_factor` is the scale's number text.
#[derive(Debug, PartialEq, Eq)]
pub struct DisplayParams {
    pub width_px: u32,
    pub height_px: u32,
    pub refresh_hz: u32,
    pub scale_factor: String,
}

/// The request parameters for a display spec: its size and scale, at the
/// default refresh rate.
pub fn display_params(spec: &DisplaySpec) -> (p: DisplayParams)
    ensures
        p.width_px == spec.width_px,
        p.height_px == spec.height_px,
        p.refresh_hz == DEFAULT_REFRESH_HZ,
        p.scale_factor@ == spec.scale_factor@,
{
    DisplayParams {
        width_px: spec.width_px,
        height_px: spec.height_px,
        refresh_hz: DEFAULT_REFRESH_HZ,
        scale_factor: spec.scale_factor.clone(),
    }
}

} // verus!
