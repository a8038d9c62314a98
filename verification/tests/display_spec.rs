use opendisplay::display::{
    ctl_code, display_params, DEFAULT_REFRESH_HZ, FILE_DEVICE_UNKNOWN, FILE_WRITE_DATA, IOCTL_OPENDISPLAY_CREATE_DISPLAY,
    IOCTL_OPENDISPLAY_DESTROY_DISPLAY, IOCTL_OPENDISPLAY_RESIZE_DISPLAY, METHOD_BUFFERED,
};
use opendisplay::display_spec::{derive_display_spec, Orientation};
use opendisplay::protocol_session::PanelReport;

fn scale_text(value: f32) -> String {
    serde_json::to_string(&value).unwrap()
}

fn panel(pixels_wide: u32, pixels_high: u32, scale: f32) -> PanelReport {
    PanelReport { pixels_wide, pixels_high, scale: scale_text(scale), device: None, id: None }
}

fn scale_value(text: &str) -> f32 {
    text.parse::<f32>().unwrap()
}

#[test]
fn a_2x_panel_report_yields_scale_factor_2() {
    let spec = derive_display_spec(&panel(1170, 2532, 2.0));
    assert_eq!(scale_value(&spec.scale_factor), 2.0);
}

#[test]
fn a_3x_panel_report_yields_scale_factor_3() {
    let spec = derive_display_spec(&panel(1284, 2778, 3.0));
    assert_eq!(scale_value(&spec.scale_factor), 3.0);
}

#[test]
fn a_portrait_hello_yields_portrait_orientation_with_dimensions_unswapped() {
    let spec = derive_display_spec(&panel(750, 1334, 2.0));

    assert_eq!(spec.orientation, Orientation::Portrait);
    assert_eq!(spec.width_px, 750);
    assert_eq!(spec.height_px, 1334);
}

#[test]
fn a_landscape_hello_yields_landscape_orientation_with_dimensions_swapped() {
    let spec = derive_display_spec(&panel(1334, 750, 2.0));

    assert_eq!(spec.orientation, Orientation::Landscape);
    assert_eq!(spec.width_px, 1334);
    assert_eq!(spec.height_px, 750);
}

#[test]
fn a_square_panel_counts_as_portrait() {
    assert_eq!(derive_display_spec(&panel(800, 800, 1.0)).orientation, Orientation::Portrait);
}

#[test]
fn the_ioctl_codes_are_the_ctl_code_values() {
    assert_eq!(ctl_code(FILE_DEVICE_UNKNOWN, 0x800, METHOD_BUFFERED, FILE_WRITE_DATA), IOCTL_OPENDISPLAY_CREATE_DISPLAY);
    assert_eq!(IOCTL_OPENDISPLAY_CREATE_DISPLAY, 0x0022_A000);
    assert_eq!(IOCTL_OPENDISPLAY_RESIZE_DISPLAY, 0x0022_A004);
    assert_eq!(IOCTL_OPENDISPLAY_DESTROY_DISPLAY, 0x0022_A008);
}

#[test]
fn display_params_carry_the_spec_at_sixty_hertz() {
    let spec = derive_display_spec(&panel(1170, 2532, 3.0));
    let params = display_params(&spec);
    assert_eq!((params.width_px, params.height_px), (1170, 2532));
    assert_eq!(params.refresh_hz, DEFAULT_REFRESH_HZ);
    assert_eq!(params.refresh_hz, 60);
    assert_eq!(scale_value(&params.scale_factor), 3.0);
}
