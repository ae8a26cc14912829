use vstd::prelude::*;
use vstd::string::*;

use crate::text::{str_contains, text_contains};

verus! {

#[derive(Debug, Clone, Copy, PartialEq, Eq)]
pub enum CheckStatus {
    Pass,
    Fail,
    Warning,
}

#[derive(Debug)]
pub struct SystemCheck {
    pub name: String,
    pub status: CheckStatus,
    pub message: String,
    pub required: bool,
}

/// A check as plain values: name, status, message, required.
pub type CheckView = (Seq<char>, CheckStatus, Seq<char>, bool);

pub open spec fn check_view(c: SystemCheck) -> CheckView {
    (c.name@, c.status, c.message@, c.required)
}

/// What the system probes found; gathered by the caller.
pub struct SystemProbes {
    /// `modinfo rtl2832` succeeded.
    pub rtl2832_driver_found: bool,
    /// `which rtl_test` succeeded.
    pub rtl_test_found: bool,
    /// What `lsusb` printed; None when it could not run.
    pub lsusb_output: Option<String>,
    /// The DVB blacklist file's contents; None when it could not be read.
    pub blacklist_file: Option<String>,
    /// What `lsmod` printed; None when it could not run.
    pub lsmod_output: Option<String>,
    /// The RTL-SDR udev rules file exists.
    pub udev_rules_exist: bool,
    /// `which pulseaudio` succeeded.
    pub pulseaudio_found: bool,
    /// `which pipewire` succeeded.
    pub pipewire_found: bool,
    /// `which avahi-browse` succeeded.
    pub avahi_browse_found: bool,
}

/// `text` is present and contains `needle`.
pub open spec fn output_contains(text: Option<String>, needle: &str) -> bool {
    match text {
        Some(t) => text_contains(t@, needle@),
        None => false,
    }
}

fn option_contains(text: &Option<String>, needle: &str) -> (b: bool)
    ensures
        b == output_contains(*text, needle),
{
    match text {
        Some(t) => str_contains(t.as_str(), needle),
        None => false,
    }
}

fn make_check(name: &str, status: CheckStatus, message: &str, required: bool) -> (c: SystemCheck)
    ensures
        check_view(c) == (name@, status, message@, required),
{
    SystemCheck { name: String::from_str(name), status, message: String::from_str(message), required }
}

pub open spec fn rtlsdr_driver_check_spec(found: bool) -> CheckView {
    if found {
        ("RTL-SDR Kernel Driver"@, CheckStatus::Pass, "rtl2832 driver available"@, true)
    } else {
        (
            "RTL-SDR Kernel Driver"@,
            CheckStatus::Warning,
            "rtl2832 kernel driver not found (may use librtlsdr directly)"@,
            true,
        )
    }
}

pub fn check_rtlsdr_driver(found: bool) -> (c: SystemCheck)
    ensures
        check_view(c) == rtlsdr_driver_check_spec(found),
{
    if found {
        make_check("RTL-SDR Kernel Driver", CheckStatus::Pass, "rtl2832 driver available", true)
    } else {
        make_check(
            "RTL-SDR Kernel Driver",
            CheckStatus::Warning,
            "rtl2832 kernel driver not found (may use librtlsdr directly)",
            true,
        )
    }
}

pub open spec fn rtlsdr_tools_check_spec(found: bool) -> CheckView {
    if found {
        ("RTL-SDR Tools"@, CheckStatus::Pass, "rtl-sdr tools installed"@, true)
    } else {
        (
            "RTL-SDR Tools"@,
            CheckStatus::Fail,
            "rtl-sdr tools not found. Install with: sudo apt install rtl-sdr"@,
            true,
        )
    }
}

pub fn check_rtlsdr_tools(found: bool) -> (c: SystemCheck)
    ensures
        check_view(c) == rtlsdr_tools_check_spec(found),
{
    if found {
        make_check("RTL-SDR Tools", CheckStatus::Pass, "rtl-sdr tools installed", true)
    } else {
        make_check(
            "RTL-SDR Tools",
            CheckStatus::Fail,
            "rtl-sdr tools not found. Install with: sudo apt install rtl-sdr",
            true,
        )
    }
}

/// `lsusb` lists an RTL2832U/RTL2838 dongle.
pub open spec fn rtlsdr_usb_listed(output: String) -> bool {
    ||| text_contains(output@, "0bda:2832"@)
    ||| text_contains(output@, "0bda:2838"@)
    ||| text_contains(output@, "RTL2838"@)
    ||| text_contains(output@, "RTL2832"@)
}

pub open spec fn usb_device_check_spec(lsusb_output: Option<String>) -> CheckView {
    match lsusb_output {
        Some(out) => if rtlsdr_usb_listed(out) {
            ("RTL-SDR USB Device"@, CheckStatus::Pass, "RTL-SDR USB device detected"@, true)
        } else {
            (
                "RTL-SDR USB Device"@,
                CheckStatus::Warning,
                "No RTL-SDR USB device detected. Please connect your SDR dongle."@,
                true,
            )
        },
        None => (
            "RTL-SDR USB Device"@,
            CheckStatus::Warning,
            "Could not run lsusb to detect devices"@,
            true,
        ),
    }
}

pub fn check_usb_device(lsusb_output: &Option<String>) -> (c: SystemCheck)
    ensures
        check_view(c) == usb_device_check_spec(*lsusb_output),
{
    match lsusb_output {
        Some(stdout) => {
            let s = stdout.as_str();
            if str_contains(s, "0bda:2832") || str_contains(s, "0bda:2838") || str_contains(
                s,
                "RTL2838",
            ) || str_contains(s, "RTL2832") {
                make_check("RTL-SDR USB Device", CheckStatus::Pass, "RTL-SDR USB device detected", true)
            } else {
                make_check(
                    "RTL-SDR USB Device",
                    CheckStatus::Warning,
                    "No RTL-SDR USB device detected. Please connect your SDR dongle.",
                    true,
                )
            }
        },
        None => make_check(
            "RTL-SDR USB Device",
            CheckStatus::Warning,
            "Could not run lsusb to detect devices",
            true,
        ),
    }
}

pub open spec fn blacklist_check_spec(blacklist_file: Option<String>, lsmod_output: Option<String>) -> CheckView {
    if output_contains(blacklist_file, "dvb_usb_rtl28xxu") {
        ("DVB Driver Blacklist"@, CheckStatus::Pass, "dvb_usb_rtl28xxu is properly blacklisted"@, false)
    } else if output_contains(lsmod_output, "dvb_usb_rtl28xxu") {
        (
            "DVB Driver Blacklist"@,
            CheckStatus::Fail,
            "dvb_usb_rtl28xxu is loaded and conflicts with RTL-SDR. Run installer to fix."@,
            false,
        )
    } else {
        ("DVB Driver Blacklist"@, CheckStatus::Pass, "No conflicting DVB driver loaded"@, false)
    }
}

/// Check if dvb_usb_rtl28xxu is blacklisted (it conflicts with librtlsdr)
pub fn check_blacklist(blacklist_file: &Option<String>, lsmod_output: &Option<String>) -> (c: SystemCheck)
    ensures
        check_view(c) == blacklist_check_spec(*blacklist_file, *lsmod_output),
{
    if option_contains(blacklist_file, "dvb_usb_rtl28xxu") {
        make_check(
            "DVB Driver Blacklist",
            CheckStatus::Pass,
            "dvb_usb_rtl28xxu is properly blacklisted",
            false,
        )
    } else {
        // Check if the module is loaded
        let loaded = option_contains(lsmod_output, "dvb_usb_rtl28xxu");
        if loaded {
            make_check(
                "DVB Driver Blacklist",
                CheckStatus::Fail,
                "dvb_usb_rtl28xxu is loaded and conflicts with RTL-SDR. Run installer to fix.",
                false,
            )
        } else {
            make_check(
                "DVB Driver Blacklist",
                CheckStatus::Pass,
                "No conflicting DVB driver loaded",
                false,
            )
        }
    }
}

pub open spec fn udev_rules_check_spec(exists: bool) -> CheckView {
    if exists {
        ("Udev Rules"@, CheckStatus::Pass, "RTL-SDR udev rules installed"@, false)
    } else {
        (
            "Udev Rules"@,
            CheckStatus::Warning,
            "RTL-SDR udev rules not found. Non-root access may not work."@,
            false,
        )
    }
}

pub fn check_udev_rules(exists: bool) -> (c: SystemCheck)
    ensures
        check_view(c) == udev_rules_check_spec(exists),
{
    if exists {
        make_check("Udev Rules", CheckStatus::Pass, "RTL-SDR udev rules installed", false)
    } else {
        make_check(
            "Udev Rules",
            CheckStatus::Warning,
            "RTL-SDR udev rules not found. Non-root access may not work.",
            false,
        )
    }
}

pub open spec fn audio_system_check_spec(has_pulse: bool, has_pipewire: bool) -> CheckView {
    if has_pipewire {
        ("Audio System"@, CheckStatus::Pass, "PipeWire audio system available"@, false)
    } else if has_pulse {
        ("Audio System"@, CheckStatus::Pass, "PulseAudio system available"@, false)
    } else {
        (
            "Audio System"@,
            CheckStatus::Warning,
            "No audio system detected. Local audio playback may not work."@,
            false,
        )
    }
}

/// Check for PulseAudio or PipeWire (PipeWire preferred)
pub fn check_audio_system(has_pulse: bool, has_pipewire: bool) -> (c: SystemCheck)
    ensures
        check_view(c) == audio_system_check_spec(has_pulse, has_pipewire),
{
    if has_pipewire {
        make_check("Audio System", CheckStatus::Pass, "PipeWire audio system available", false)
    } else if has_pulse {
        make_check("Audio System", CheckStatus::Pass, "PulseAudio system available", false)
    } else {
        make_check(
            "Audio System",
            CheckStatus::Warning,
            "No audio system detected. Local audio playback may not work.",
            false,
        )
    }
}

pub open spec fn avahi_check_spec(found: bool) -> CheckView {
    if found {
        (
            "mDNS (Avahi)"@,
            CheckStatus::Pass,
            "Avahi mDNS service available (needed for Chromecast/AirPlay)"@,
            false,
        )
    } else {
        (
            "mDNS (Avahi)"@,
            CheckStatus::Warning,
            "Avahi not found. Chromecast/AirPlay discovery may not work."@,
            false,
        )
    }
}

pub fn check_avahi(found: bool) -> (c: SystemCheck)
    ensures
        check_view(c) == avahi_check_spec(found),
{
    if found {
        make_check(
            "mDNS (Avahi)",
            CheckStatus::Pass,
            "Avahi mDNS service available (needed for Chromecast/AirPlay)",
            false,
        )
    } else {
        make_check(
            "mDNS (Avahi)",
            CheckStatus::Warning,
            "Avahi not found. Chromecast/AirPlay discovery may not work.",
            false,
        )
    }
}

/// All checks, in the order `run_all_checks` reports them.
pub open spec fn all_checks_spec(p: SystemProbes) -> Seq<CheckView> {
    seq![
        rtlsdr_driver_check_spec(p.rtl2832_driver_found),
        rtlsdr_tools_check_spec(p.rtl_test_found),
        usb_device_check_spec(p.lsusb_output),
        blacklist_check_spec(p.blacklist_file, p.lsmod_output),
        udev_rules_check_spec(p.udev_rules_exist),
        audio_system_check_spec(p.pulseaudio_found, p.pipewire_found),
        avahi_check_spec(p.avahi_browse_found),
    ]
}

/// Run all system dependency checks on what the probes found
pub fn run_all_checks(probes: &SystemProbes) -> (checks: Vec<SystemCheck>)
    ensures
        checks@.map_values(|c: SystemCheck| check_view(c)) == all_checks_spec(*probes),
{
    let mut checks: Vec<SystemCheck> = Vec::new();
    checks.push(check_rtlsdr_driver(probes.rtl2832_driver_found));
    checks.push(check_rtlsdr_tools(probes.rtl_test_found));
    checks.push(check_usb_device(&probes.lsusb_output));
    checks.push(check_blacklist(&probes.blacklist_file, &probes.lsmod_output));
    checks.push(check_udev_rules(probes.udev_rules_exist));
    checks.push(check_audio_system(probes.pulseaudio_found, probes.pipewire_found));
    checks.push(check_avahi(probes.avahi_browse_found));
    assert(checks@.map_values(|c: SystemCheck| check_view(c)) =~= all_checks_spec(*probes));
    checks
}

/// Number of checks that passed.
pub fn count_passed(checks: &Vec<SystemCheck>) -> (n: usize)
    ensures
        n == checks@.filter(|c: SystemCheck| c.status == CheckStatus::Pass).len(),
{
    let ghost pass = |c: SystemCheck| c.status == CheckStatus::Pass;
    let mut n: usize = 0;
    let len = checks.len();
    for i in 0..len
        invariant
            len == checks@.len(),
            pass == (|c: SystemCheck| c.status == CheckStatus::Pass),
            n == checks@.take(i as int).filter(pass).len(),
            n <= i,
    {
        reveal_with_fuel(Seq::<_>::filter, 1);
        assert(checks@.take(i + 1).drop_last() =~= checks@.take(i as int));
        if matches!(checks[i].status, CheckStatus::Pass) {
            n = n + 1;
        }
    }
    assert(checks@.take(len as int) =~= checks@);
    n
}


/// Every RTL-SDR dongle that `lsusb` can list is recognised: a listing that
/// names 0bda:2832, 0bda:2838, RTL2832 or RTL2838 passes the USB check.
pub proof fn lemma_rtlsdr_dongles_recognised(out: String)
    ensures
        text_contains(out@, "0bda:2832"@) || text_contains(out@, "0bda:2838"@) || text_contains(
            out@,
            "RTL2832"@,
        ) || text_contains(out@, "RTL2838"@) ==> usb_device_check_spec(Some(out)).1 == CheckStatus::Pass
            && usb_device_check_spec(Some(out)).2 == "RTL-SDR USB device detected"@,
{
}

} // verus!
