use dab_radio::system::dependency_manager::DependencyManager;
use dab_radio::system::installer_checks::{
    check_blacklist, check_udev_rules, check_usb_device, count_passed, run_all_checks, CheckStatus,
    SystemProbes,
};

#[test]
fn required_packages_list() {
    assert_eq!(
        DependencyManager::required_packages(),
        vec!["rtl-sdr", "librtlsdr-dev", "libusb-1.0-0-dev", "avahi-daemon", "libavahi-client-dev"]
    );
}

#[test]
fn missing_packages_from_dpkg_output() {
    let ok = Some("Package: x\nStatus: install ok installed\n".to_string());
    let not = Some("Status: deinstall ok config-files\n".to_string());
    let outputs = vec![ok.clone(), not, None, ok.clone(), ok];
    assert_eq!(
        DependencyManager::check_missing_packages(&outputs),
        vec!["librtlsdr-dev".to_string(), "libusb-1.0-0-dev".to_string()]
    );
    assert!(!DependencyManager::package_installed(&None));
}

fn probes() -> SystemProbes {
    SystemProbes {
        rtl2832_driver_found: true,
        rtl_test_found: false,
        lsusb_output: Some("Bus 001 Device 004: ID 0bda:2838 Realtek RTL2838UHIDIR".to_string()),
        blacklist_file: None,
        lsmod_output: Some("dvb_usb_rtl28xxu 36864 0".to_string()),
        udev_rules_exist: false,
        pulseaudio_found: true,
        pipewire_found: false,
        avahi_browse_found: true,
    }
}

#[test]
fn all_checks_in_order() {
    let checks = run_all_checks(&probes());
    let names: Vec<&str> = checks.iter().map(|c| c.name.as_str()).collect();
    assert_eq!(
        names,
        vec![
            "RTL-SDR Kernel Driver",
            "RTL-SDR Tools",
            "RTL-SDR USB Device",
            "DVB Driver Blacklist",
            "Udev Rules",
            "Audio System",
            "mDNS (Avahi)"
        ]
    );
    let statuses: Vec<CheckStatus> = checks.iter().map(|c| c.status).collect();
    assert_eq!(
        statuses,
        vec![
            CheckStatus::Pass,
            CheckStatus::Fail,
            CheckStatus::Pass,
            CheckStatus::Fail,
            CheckStatus::Warning,
            CheckStatus::Pass,
            CheckStatus::Pass
        ]
    );
    assert_eq!(checks[5].message, "PulseAudio system available");
    assert!(checks[0].required && !checks[6].required);
    assert_eq!(count_passed(&checks), 4);
}

#[test]
fn usb_and_blacklist_checks() {
    assert_eq!(check_usb_device(&None).message, "Could not run lsusb to detect devices");
    assert_eq!(check_usb_device(&Some("nothing here".to_string())).status, CheckStatus::Warning);
    let c = check_blacklist(&Some("blacklist dvb_usb_rtl28xxu\n".to_string()), &None);
    assert_eq!(c.status, CheckStatus::Pass);
    assert_eq!(c.message, "dvb_usb_rtl28xxu is properly blacklisted");
    let c = check_blacklist(&None, &None);
    assert_eq!(c.message, "No conflicting DVB driver loaded");
    assert_eq!(check_udev_rules(true).status, CheckStatus::Pass);
}
