use vstd::prelude::*;
use vstd::string::*;

use crate::casting::airplay::CastError;
use crate::services::app_state::CastDeviceInfo;

verus! {

/// Chromecast device discovered via mDNS
#[derive(Clone, Debug)]
pub struct ChromecastDevice {
    pub id: String,
    pub friendly_name: String,
    pub ip_addr: String,
    pub port: u16,
    pub model: String,
    pub is_connected: bool,
}

/// A Chromecast's display name: its "fn" property, else its full name.
pub open spec fn chromecast_name(fullname: Seq<char>, friendly_name: Option<String>) -> Seq<char> {
    match friendly_name {
        Some(f) => f@,
        None => fullname,
    }
}

/// A Chromecast's model: its "md" property, else "Chromecast".
pub open spec fn chromecast_model(model: Option<String>) -> Seq<char> {
    match model {
        Some(m) => m@,
        None => "Chromecast"@,
    }
}

/// The cast-device record of a Chromecast.
pub open spec fn chromecast_info_matches(info: CastDeviceInfo, id: Seq<char>, name: Seq<char>, connected: bool) -> bool {
    &&& info.id@ == id
    &&& info.name@ == name
    &&& info.device_type@ == "chromecast"@
    &&& info.is_connected == connected
}

/// Chromecast manager - handles discovery and casting
pub struct ChromecastManager {
    devices: Vec<ChromecastDevice>,
    active_session: Option<String>,
}

impl ChromecastManager {
    /// The discovered devices, in discovery order.
    pub closed spec fn devices_view(&self) -> Seq<ChromecastDevice> {
        self.devices@
    }

    /// The id of the device being streamed to, if any.
    pub closed spec fn session_view(&self) -> Option<Seq<char>> {
        match self.active_session {
            Some(s) => Some(s@),
            None => None,
        }
    }

    /// No two discovered devices share an id.
    pub open spec fn wf(&self) -> bool {
        forall|i: int, j: int|
            0 <= i < j < self.devices_view().len() ==> (#[trigger] self.devices_view()[i]).id@
                != (#[trigger] self.devices_view()[j]).id@
    }

    /// Some discovered device has id `id`.
    pub open spec fn has_device(&self, id: Seq<char>) -> bool {
        exists|i: int| 0 <= i < self.devices_view().len() && (#[trigger] self.devices_view()[i]).id@ == id
    }

    pub fn new() -> (m: Self)
        ensures
            m.wf(),
            m.devices_view().len() == 0,
            m.session_view() is None,
    {
        Self { devices: Vec::new(), active_session: None }
    }

    /// Position of the device with id `id`.
    fn position_of(&self, id: &str) -> (r: Option<usize>)
        ensures
            r matches Some(i) ==> i < self.devices_view().len() && self.devices_view()[i as int].id@ == id@,
            r is None ==> !self.has_device(id@),
    {
        let key = String::from_str(id);
        let n = self.devices.len();
        for i in 0..n
            invariant
                n == self.devices@.len(),
                key@ == id@,
                forall|j: int| 0 <= j < i ==> (#[trigger] self.devices@[j]).id@ != id@,
        {
            if self.devices[i].id == key {
                return Some(i);
            }
        }
        None
    }

    /// Record a Chromecast resolved by mDNS discovery, given its full name,
    /// the "fn" (friendly name) and "md" (model) TXT properties when present,
    /// address and port. It replaces any device with the same full name, else
    /// it is added at the end. Returns the device's cast-device record.
    pub fn record_discovered(
        &mut self,
        fullname: &str,
        friendly_name: Option<String>,
        ip_addr: String,
        port: u16,
        model: Option<String>,
    ) -> (info: CastDeviceInfo)
        requires
            old(self).wf(),
        ensures
            final(self).wf(),
            chromecast_info_matches(info, fullname@, chromecast_name(fullname@, friendly_name), false),
            final(self).has_device(fullname@),
            final(self).session_view() == old(self).session_view(),
            forall|d: ChromecastDevice|
                final(self).devices_view().contains(d) && d.id@ == fullname@ ==> {
                    &&& d.friendly_name@ == chromecast_name(fullname@, friendly_name)
                    &&& d.ip_addr@ == ip_addr@
                    &&& d.port == port
                    &&& d.model@ == chromecast_model(model)
                    &&& !d.is_connected
                },
            forall|d: ChromecastDevice|
                old(self).devices_view().contains(d) && d.id@ != fullname@ ==> final(self).devices_view().contains(d),
            forall|d: ChromecastDevice|
                final(self).devices_view().contains(d) && d.id@ != fullname@ ==> old(self).devices_view().contains(d),
    {
        let name = String::from_str(fullname);
        let friendly = match friendly_name {
            Some(f) => f,
            None => name.clone(),
        };
        let model = match model {
            Some(m) => m,
            None => String::from_str("Chromecast"),
        };
        let device = ChromecastDevice {
            id: name.clone(),
            friendly_name: friendly.clone(),
            ip_addr,
            port,
            model,
            is_connected: false,
        };
        let ghost old_devices = self.devices@;
        assert(old_devices == old(self).devices_view());
        match self.position_of(fullname) {
            Some(i) => {
                self.devices.set(i, device);
                assert forall|a: int, b: int|
                    0 <= a < b < self.devices@.len() implies (#[trigger] self.devices@[a]).id@
                    != (#[trigger] self.devices@[b]).id@ by {
                    assert(old(self).devices_view()[a].id@ != old(self).devices_view()[b].id@);
                }
                assert forall|d: ChromecastDevice|
                    old_devices.contains(d) && d.id@ != fullname@ implies self.devices@.contains(d) by {
                    let k = choose|k: int| 0 <= k < old_devices.len() && old_devices[k] == d;
                    assert(self.devices@[k] == d);
                }
                assert forall|d: ChromecastDevice|
                    self.devices@.contains(d) && d.id@ != fullname@ implies old_devices.contains(d) by {
                    let k = choose|k: int| 0 <= k < self.devices@.len() && self.devices@[k] == d;
                    assert(old_devices[k] == d);
                }
                assert(self.devices_view()[i as int].id@ == fullname@);
            },
            None => {
                self.devices.push(device);
                assert forall|a: int, b: int|
                    0 <= a < b < self.devices@.len() implies (#[trigger] self.devices@[a]).id@
                    != (#[trigger] self.devices@[b]).id@ by {
                    if b == old_devices.len() {
                        assert(old(self).devices_view()[a].id@ != fullname@);
                    } else {
                        assert(old(self).devices_view()[a].id@ != old(self).devices_view()[b].id@);
                    }
                }
                assert forall|d: ChromecastDevice|
                    old_devices.contains(d) && d.id@ != fullname@ implies self.devices@.contains(d) by {
                    let k = choose|k: int| 0 <= k < old_devices.len() && old_devices[k] == d;
                    assert(self.devices@[k] == d);
                }
                assert forall|d: ChromecastDevice|
                    self.devices@.contains(d) && d.id@ != fullname@ implies old_devices.contains(d) by {
                    let k = choose|k: int| 0 <= k < self.devices@.len() && self.devices@[k] == d;
                    assert(old_devices[k] == d);
                }
                assert(self.devices_view()[old_devices.len() as int].id@ == fullname@);
            },
        }
        CastDeviceInfo {
            id: name,
            name: friendly,
            device_type: String::from_str("chromecast"),
            is_connected: false,
        }
    }

    /// Cast audio to a specific Chromecast device: refused when no
    /// discovered device has this id, else it becomes the session.
    pub fn cast_to_device(&mut self, device_id: &str, stream_url: &str) -> (r: Result<(), CastError>)
        ensures
            final(self).devices_view() == old(self).devices_view(),
            old(self).has_device(device_id@) ==> r is Ok && final(self).session_view() == Some(
                device_id@,
            ),
            !old(self).has_device(device_id@) ==> (r matches Err(CastError::DeviceNotFound(id))
                && id@ == device_id@ && final(self).session_view() == old(self).session_view()),
    {
        match self.position_of(device_id) {
            Some(_) => {
                // Google Cast protocol (TLS connect on port 8009, CONNECT,
                // launch the media receiver, LOAD the stream URL); for
                // development the cast connection is simulated.
                self.active_session = Some(String::from_str(device_id));
                Ok(())
            },
            None => Err(CastError::DeviceNotFound(String::from_str(device_id))),
        }
    }

    /// Stop casting to the current device
    pub fn stop_casting(&mut self) -> (r: Result<(), CastError>)
        ensures
            r is Ok,
            final(self).session_view() is None,
            final(self).devices_view() == old(self).devices_view(),
    {
        self.active_session = None;
        Ok(())
    }

    /// Get list of discovered devices
    pub fn get_devices(&self) -> (infos: Vec<CastDeviceInfo>)
        ensures
            infos@.len() == self.devices_view().len(),
            forall|i: int|
                0 <= i < infos@.len() ==> chromecast_info_matches(
                    #[trigger] infos@[i],
                    self.devices_view()[i].id@,
                    self.devices_view()[i].friendly_name@,
                    self.devices_view()[i].is_connected,
                ),
    {
        let mut infos: Vec<CastDeviceInfo> = Vec::new();
        let n = self.devices.len();
        for i in 0..n
            invariant
                n == self.devices@.len(),
                infos@.len() == i,
                forall|k: int|
                    0 <= k < i ==> chromecast_info_matches(
                        #[trigger] infos@[k],
                        self.devices@[k].id@,
                        self.devices@[k].friendly_name@,
                        self.devices@[k].is_connected,
                    ),
        {
            let d = &self.devices[i];
            infos.push(
                CastDeviceInfo {
                    id: d.id.clone(),
                    name: d.friendly_name.clone(),
                    device_type: String::from_str("chromecast"),
                    is_connected: d.is_connected,
                },
            );
        }
        infos
    }

    /// Check if currently casting
    pub fn is_casting(&self) -> (b: bool)
        ensures
            b == self.session_view() is Some,
    {
        self.active_session.is_some()
    }
}

} // verus!
