use opendisplay::installer::autostart::{self, AutostartError, AutostartRegistrar, AUTOSTART_VALUE_NAME};
use opendisplay::installer::driver_install::{
    install_driver, DeviceInterfaceCheck, DriverInstallError, DriverPackageInstaller,
};
use opendisplay::installer::scheduled_task::{self, ScheduledTaskError, TaskScheduler, TASK_NAME};
use opendisplay::installer::uninstall::{
    find_published_name_for, removal_step, uninstall, AutostartRemover, DriverRemover, Removal, ScheduledTaskRemover,
    UninstallError,
};
use std::cell::RefCell;

struct FakeInstaller(std::io::Result<i32>, RefCell<Vec<String>>);
impl DriverPackageInstaller for FakeInstaller {
    fn install(&mut self, inf_path: &str) -> std::io::Result<i32> {
        self.1.borrow_mut().push(inf_path.to_string());
        match &self.0 {
            Ok(code) => Ok(*code),
            Err(_) => Err(std::io::Error::new(std::io::ErrorKind::NotFound, "no pnputil")),
        }
    }
}

struct FakeInterface(bool);
impl DeviceInterfaceCheck for FakeInterface {
    fn is_available(&mut self) -> bool {
        self.0
    }
}

fn installer(exit: std::io::Result<i32>) -> FakeInstaller {
    FakeInstaller(exit, RefCell::new(Vec::new()))
}

#[test]
fn a_missing_package_fails_before_anything_runs() {
    let mut inst = installer(Ok(0));
    let r = install_driver("C:\\drv\\opendisplay-idd.inf", false, &mut inst, &mut FakeInterface(true));
    assert_eq!(r, Err(DriverInstallError::PackageNotFound { path: "C:\\drv\\opendisplay-idd.inf".into() }));
    assert!(inst.1.borrow().is_empty());
}

#[test]
fn a_successful_install_with_the_interface_present_succeeds() {
    let mut inst = installer(Ok(0));
    assert_eq!(install_driver("x.inf", true, &mut inst, &mut FakeInterface(true)), Ok(()));
    assert_eq!(*inst.1.borrow(), vec!["x.inf".to_string()]);
}

#[test]
fn a_refused_package_reports_the_exit_code() {
    assert_eq!(
        install_driver("x.inf", true, &mut installer(Ok(5)), &mut FakeInterface(true)),
        Err(DriverInstallError::PnpUtilRejected { exit_code: 5 })
    );
    assert_eq!(
        install_driver("x.inf", true, &mut installer(Err(std::io::Error::new(std::io::ErrorKind::Other, "e"))), &mut FakeInterface(true)),
        Err(DriverInstallError::PnpUtilRejected { exit_code: -1 })
    );
}

#[test]
fn an_interface_that_never_appears_is_reported() {
    assert_eq!(
        install_driver("x.inf", true, &mut installer(Ok(0)), &mut FakeInterface(false)),
        Err(DriverInstallError::DeviceInterfaceNeverAppeared)
    );
}

#[test]
fn install_errors_describe_themselves() {
    assert_eq!(
        DriverInstallError::PnpUtilRejected { exit_code: -1 }.describe(),
        "Windows rejected the driver package (pnputil exit code -1) \u{2014} it may be corrupt or improperly signed"
    );
    assert_eq!(
        DriverInstallError::PackageNotFound { path: "p".into() }.describe(),
        "driver package not found at 'p' \u{2014} reinstall the app"
    );
    assert_eq!(
        AutostartError::WriteFailed { detail: "d".into() }.describe(),
        "failed to write the autostart entry: d"
    );
    assert_eq!(
        ScheduledTaskError::ServiceUnavailable.describe(),
        "could not reach the Windows Task Scheduler service"
    );
}

struct RecordingRegistrar(RefCell<Vec<(String, String)>>);
impl AutostartRegistrar for RecordingRegistrar {
    fn register(&mut self, value_name: &str, executable_path: &str) -> Result<(), AutostartError> {
        self.0.borrow_mut().push((value_name.into(), executable_path.into()));
        Ok(())
    }
}

impl TaskScheduler for RecordingRegistrar {
    fn register_logon_task(&mut self, task_name: &str, executable_path: &str) -> Result<(), ScheduledTaskError> {
        self.0.borrow_mut().push((task_name.into(), executable_path.into()));
        Err(ScheduledTaskError::RegistrationRejected { detail: "denied".into() })
    }
}

#[test]
fn registrations_use_the_fixed_names() {
    let mut r = RecordingRegistrar(RefCell::new(Vec::new()));
    autostart::register(&mut r, "tray.exe").unwrap();
    assert_eq!(
        scheduled_task::register(&mut r, "core.exe"),
        Err(ScheduledTaskError::RegistrationRejected { detail: "denied".into() })
    );
    assert_eq!(
        *r.0.borrow(),
        vec![
            (AUTOSTART_VALUE_NAME.to_string(), "tray.exe".to_string()),
            (TASK_NAME.to_string(), "core.exe".to_string())
        ]
    );
    assert_eq!(AUTOSTART_VALUE_NAME, "OpenDisplay Tray");
    assert_eq!(TASK_NAME, "OpenDisplay Core");
}

struct Steps {
    log: RefCell<Vec<String>>,
    fail_at: Option<&'static str>,
}
impl Steps {
    fn step(&self, name: &str) -> Result<(), String> {
        self.log.borrow_mut().push(name.to_string());
        if self.fail_at == Some(name) {
            Err(format!("{name} failed"))
        } else {
            Ok(())
        }
    }
}
impl DriverRemover for &Steps {
    fn remove(&mut self) -> Result<(), String> {
        self.step("driver")
    }
}
impl ScheduledTaskRemover for &Steps {
    fn remove(&mut self, task_name: &str) -> Result<(), String> {
        self.step(task_name)
    }
}
impl AutostartRemover for &Steps {
    fn remove(&mut self, value_name: &str) -> Result<(), String> {
        self.step(value_name)
    }
}

#[test]
fn uninstall_removes_everything_in_order() {
    let steps = Steps { log: RefCell::new(Vec::new()), fail_at: None };
    assert_eq!(uninstall(&mut &steps, &mut &steps, &mut &steps, &mut FakeInterface(false)), Ok(()));
    assert_eq!(*steps.log.borrow(), vec!["driver".to_string(), TASK_NAME.to_string(), AUTOSTART_VALUE_NAME.to_string()]);
}

#[test]
fn uninstall_stops_at_the_first_failure() {
    let steps = Steps { log: RefCell::new(Vec::new()), fail_at: Some(TASK_NAME) };
    assert_eq!(
        uninstall(&mut &steps, &mut &steps, &mut &steps, &mut FakeInterface(false)),
        Err(UninstallError::ScheduledTaskRemovalFailed { detail: format!("{TASK_NAME} failed") })
    );
    assert_eq!(steps.log.borrow().len(), 2);
}

#[test]
fn a_lingering_device_interface_is_reported() {
    let steps = Steps { log: RefCell::new(Vec::new()), fail_at: None };
    assert_eq!(uninstall(&mut &steps, &mut &steps, &mut &steps, &mut FakeInterface(true)), Err(UninstallError::OrphanedDeviceInterfaceRemains));
}

const LISTING: &str = "Microsoft PnP Utility\r\n\r\nPublished Name:     oem3.inf\r\nOriginal Name:      usbdriver.inf\r\nProvider Name:      Someone\r\n\r\nPublished Name:     oem7.inf\r\nOriginal Name:      OpenDisplay-IDD.INF\r\nProvider Name:      OpenDisplay\r\n";

#[test]
fn the_published_name_of_the_matching_package_is_found() {
    assert_eq!(find_published_name_for(LISTING, "opendisplay-idd.inf"), Some("oem7.inf".to_string()));
    assert_eq!(find_published_name_for(LISTING, "usbdriver.inf"), Some("oem3.inf".to_string()));
}

#[test]
fn an_absent_package_or_one_without_a_published_name_is_not_found() {
    assert_eq!(find_published_name_for(LISTING, "missing.inf"), None);
    assert_eq!(find_published_name_for("Original Name: opendisplay-idd.inf\n", "opendisplay-idd.inf"), None);
    assert_eq!(find_published_name_for("", "opendisplay-idd.inf"), None);
}

#[test]
fn each_removal_failure_names_its_removal_and_keeps_the_detail() {
    assert_eq!(removal_step(Removal::DriverPackage, Ok(())), Ok(()));
    assert_eq!(
        removal_step(Removal::DriverPackage, Err("in use".to_string())),
        Err(UninstallError::DriverRemovalFailed { detail: "in use".to_string() })
    );
    assert_eq!(
        removal_step(Removal::ScheduledTask, Err("denied".to_string())),
        Err(UninstallError::ScheduledTaskRemovalFailed { detail: "denied".to_string() })
    );
    assert_eq!(
        removal_step(Removal::Autostart, Err("locked".to_string())),
        Err(UninstallError::AutostartRemovalFailed { detail: "locked".to_string() })
    );
}
