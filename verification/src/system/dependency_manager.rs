use vstd::prelude::*;
use vstd::string::*;

use crate::text::{str_contains, text_contains};

verus! {

/// Dependency installation and management
pub struct DependencyManager;

/// The system packages the radio needs.
pub open spec fn required_packages_spec() -> Seq<Seq<char>> {
    seq!["rtl-sdr"@, "librtlsdr-dev"@, "libusb-1.0-0-dev"@, "avahi-daemon"@, "libavahi-client-dev"@]
}

/// What `dpkg -s` prints for an installed package.
pub open spec fn dpkg_installed_marker() -> Seq<char> {
    "Status: install ok installed"@
}

/// A package counts as installed when `dpkg -s` ran and reported it
/// installed.
pub open spec fn package_installed_spec(dpkg_output: Option<String>) -> bool {
    match dpkg_output {
        Some(out) => text_contains(out@, dpkg_installed_marker()),
        None => false,
    }
}

impl DependencyManager {
    /// Get the list of required system packages
    pub fn required_packages() -> (pkgs: Vec<&'static str>)
        ensures
            pkgs@.len() == required_packages_spec().len(),
            forall|i: int| 0 <= i < pkgs@.len() ==> (#[trigger] pkgs@[i])@ == required_packages_spec()[i],
    {
        let mut pkgs: Vec<&'static str> = Vec::new();
        pkgs.push("rtl-sdr");
        pkgs.push("librtlsdr-dev");
        pkgs.push("libusb-1.0-0-dev");
        pkgs.push("avahi-daemon");
        pkgs.push("libavahi-client-dev");
        pkgs
    }

    /// Whether `dpkg -s` output (None: dpkg could not run) shows the package installed.
    pub fn package_installed(dpkg_output: &Option<String>) -> (b: bool)
        ensures
            b == package_installed_spec(*dpkg_output),
    {
        match dpkg_output {
            Some(out) => str_contains(out.as_str(), "Status: install ok installed"),
            None => false,
        }
    }

    /// Check which packages are missing, given what `dpkg -s` printed for
    /// each required package in turn (None where dpkg could not run).
    pub fn check_missing_packages(dpkg_outputs: &Vec<Option<String>>) -> (missing: Vec<String>)
        requires
            dpkg_outputs@.len() == required_packages_spec().len(),
        ensures
            missing@.map_values(|s: String| s@) == Seq::new(
                required_packages_spec().len(),
                |i: int| i,
            ).filter(|i: int| !package_installed_spec(dpkg_outputs@[i])).map_values(
                |i: int| required_packages_spec()[i],
            ),
    {
        let pkgs = Self::required_packages();
        let ghost idx = Seq::new(required_packages_spec().len(), |i: int| i);
        let ghost pred = |i: int| !package_installed_spec(dpkg_outputs@[i]);
        let mut missing: Vec<String> = Vec::new();
        let n = pkgs.len();
        for k in 0..n
            invariant
                n == pkgs@.len(),
                n == required_packages_spec().len(),
                n == dpkg_outputs@.len(),
                idx == Seq::new(required_packages_spec().len(), |i: int| i),
                pred == (|i: int| !package_installed_spec(dpkg_outputs@[i])),
                forall|i: int| 0 <= i < n ==> (#[trigger] pkgs@[i])@ == required_packages_spec()[i],
                missing@.map_values(|s: String| s@) == idx.take(k as int).filter(pred).map_values(
                    |i: int| required_packages_spec()[i],
                ),
        {
            reveal_with_fuel(Seq::<_>::filter, 1);
            let installed = Self::package_installed(&dpkg_outputs[k]);
            assert(idx.take(k + 1).drop_last() =~= idx.take(k as int));
            assert(idx.take(k + 1).last() == k);
            let ghost before = idx.take(k as int).filter(pred);
            assert(idx.take(k + 1).filter(pred) == if pred(k as int) {
                before.push(k as int)
            } else {
                before
            });
            let ghost prev = missing@;
            assert(pred(k as int) == !installed);
            if !installed {
                let name = String::from_str(pkgs[k]);
                assert(name@ == required_packages_spec()[k as int]);
                missing.push(name);
                assert(missing@ == prev.push(name));
                assert(missing@.map_values(|s: String| s@) =~= prev.map_values(|s: String| s@).push(name@));
                assert(before.push(k as int).map_values(|i: int| required_packages_spec()[i]) =~= before.map_values(|i: int| required_packages_spec()[i]).push(required_packages_spec()[k as int]));
            }
            assert(missing@.map_values(|s: String| s@) =~= idx.take(k + 1).filter(pred).map_values(
                |i: int| required_packages_spec()[i],
            ));
        }
        assert(idx.take(n as int) =~= idx);
        missing
    }
}

} // verus!
