use vstd::prelude::*;
use vstd::string::*;

use crate::services::app_state::CastDeviceInfo;
use crate::text::{index_of, index_of_char, prefix_before};

verus! {

/// Errors of the casting managers.
#[derive(Debug, Clone)]
pub enum CastError {
    /// No discovered device has this id.
    DeviceNotFound(String),
}

/// AirPlay device discovered via mDNS
#[derive(Clone, Debug)]
pub struct AirPlayDevice {
    pub id: String,
    pub name: String,
    pub ip_addr: String,
    pub port: u16,
    pub model: String,
    pub supports_audio: bool,
    pub is_connected: bool,
}

/// The display name of an AirPlay service: its full name is usually
/// "MAC@DeviceName._raop._tcp.local.", so the name is the part after the
/// first '@' (up to any further '@'), cut at the first '.'. Without an '@'
/// the whole full name is cut at its first '.'.
pub open spec fn airplay_display_name(fullname: Seq<char>) -> Seq<char> {
    let piece = match index_of(fullname, '@') {
        Some(i) => prefix_before(fullname.subrange(i as int + 1, fullname.len() as int), '@'),
        None => fullname,
    };
    prefix_before(piece, '.')
}

/// `s` cut at the first `c`.
fn prefix_before_char(s: &str, c: char) -> (p: &str)
    ensures
        p@ == prefix_before(s@, c),
{
    match index_of_char(s, c) {
        Some(i) => s.substring_char(0, i),
        None => s,
    }
}

/// AirPlay names are typically "MAC@DeviceName"
pub fn airplay_device_name(fullname: &str) -> (name: String)
    ensures
        name@ == airplay_display_name(fullname@),
{
    let n = fullname.unicode_len();
    let piece = match index_of_char(fullname, '@') {
        Some(i) => prefix_before_char(fullname.substring_char(i + 1, n), '@'),
        None => fullname,
    };
    String::from_str(prefix_before_char(piece, '.'))
}

/// The cast-device record of an AirPlay device.
pub open spec fn airplay_info_matches(info: CastDeviceInfo, id: Seq<char>, name: Seq<char>, connected: bool) -> bool {
    &&& info.id@ == id
    &&& info.name@ == name
    &&& info.device_type@ == "airplay"@
    &&& info.is_connected == connected
}

/// AirPlay manager - handles discovery and streaming via RAOP
pub struct AirPlayManager {
    devices: Vec<AirPlayDevice>,
    active_session: Option<String>,
}

impl AirPlayManager {
    /// The discovered devices, in discovery order.
    pub closed spec fn devices_view(&self) -> Seq<AirPlayDevice> {
        self.devices@
    }

    /// The id of the device being streamed to, if any.
    pub closed spec fn session_view(&self) -> Option<Seq<char>> {
        match self.active_session {
            Some(s) => Some(s@),
            None => None,
        }
    }

    /// No two discovered devices share an id.
    pub open spec fn wf(&self) -> bool {
        forall|i: int, j: int|
            0 <= i < j < self.devices_view().len() ==> (#[trigger] self.devices_view()[i]).id@
                != (#[trigger] self.devices_view()[j]).id@
    }

    /// Some discovered device has id `id`.
    pub open spec fn has_device(&self, id: Seq<char>) -> bool {
        exists|i: int| 0 <= i < self.devices_view().len() && (#[trigger] self.devices_view()[i]).id@ == id
    }

    pub fn new() -> (m: Self)
        ensures
            m.wf(),
            m.devices_view().len() == 0,
            m.session_view() is None,
    {
        Self { devices: Vec::new(), active_session: None }
    }

    /// Position of the device with id `id`.
    fn position_of(&self, id: &str) -> (r: Option<usize>)
        ensures
            r matches Some(i) ==> i < self.devices_view().len() && self.devices_view()[i as int].id@ == id@,
            r is None ==> !self.has_device(id@),
    {
        let key = String::from_str(id);
        let n = self.devices.len();
        for i in 0..n
            invariant
                n == self.devices@.len(),
                key@ == id@,
                forall|j: int| 0 <= j < i ==> (#[trigger] self.devices@[j]).id@ != id@,
        {
            if self.devices[i].id == key {
                return Some(i);
            }
        }
        None
    }

    /// Record a device resolved by mDNS discovery: it replaces any device
    /// with the same full name, else it is added at the end. Returns the
    /// device's cast-device record.
    pub fn record_discovered(&mut self, fullname: &str, ip_addr: String, port: u16) -> (info: CastDeviceInfo)
        requires
            old(self).wf(),
        ensures
            final(self).wf(),
            airplay_info_matches(info, fullname@, airplay_display_name(fullname@), false),
            final(self).has_device(fullname@),
            final(self).session_view() == old(self).session_view(),
            forall|d: AirPlayDevice|
                final(self).devices_view().contains(d) && d.id@ == fullname@ ==> {
                    &&& d.name@ == airplay_display_name(fullname@)
                    &&& d.ip_addr@ == ip_addr@
                    &&& d.port == port
                    &&& d.model@ == "AirPlay"@
                    &&& d.supports_audio
                    &&& !d.is_connected
                },
            forall|d: AirPlayDevice|
                old(self).devices_view().contains(d) && d.id@ != fullname@ ==> final(self).devices_view().contains(d),
            forall|d: AirPlayDevice|
                final(self).devices_view().contains(d) && d.id@ != fullname@ ==> old(self).devices_view().contains(d),
    {
        let name = airplay_device_name(fullname);
        let device = AirPlayDevice {
            id: String::from_str(fullname),
            name: name.clone(),
            ip_addr,
            port,
            model: String::from_str("AirPlay"),
            supports_audio: true,
            is_connected: false,
        };
        let ghost old_devices = self.devices@;
        assert(old_devices == old(self).devices_view());
        match self.position_of(fullname) {
            Some(i) => {
                self.devices.set(i, device);
                assert forall|a: int, b: int|
                    0 <= a < b < self.devices@.len() implies (#[trigger] self.devices@[a]).id@
                    != (#[trigger] self.devices@[b]).id@ by {
                    assert(old(self).devices_view()[a].id@ != old(self).devices_view()[b].id@);
                }
                assert(self.devices@[i as int].id@ == fullname@);
                assert forall|d: AirPlayDevice|
                    old_devices.contains(d) && d.id@ != fullname@ implies self.devices@.contains(d) by {
                    let k = choose|k: int| 0 <= k < old_devices.len() && old_devices[k] == d;
                    assert(self.devices@[k] == d);
                }
                assert forall|d: AirPlayDevice|
                    self.devices@.contains(d) && d.id@ != fullname@ implies old_devices.contains(d) by {
                    let k = choose|k: int| 0 <= k < self.devices@.len() && self.devices@[k] == d;
                    assert(old_devices[k] == d);
                }
                assert(self.devices@[i as int].id@ == fullname@);
                assert(self.devices_view()[i as int].id@ == fullname@);
            },
            None => {
                self.devices.push(device);
                assert forall|a: int, b: int|
                    0 <= a < b < self.devices@.len() implies (#[trigger] self.devices@[a]).id@
                    != (#[trigger] self.devices@[b]).id@ by {
                    if b == old_devices.len() {
                        assert(old(self).devices_view()[a].id@ != fullname@);
                    } else {
                        assert(old(self).devices_view()[a].id@ != old(self).devices_view()[b].id@);
                    }
                }
                assert forall|d: AirPlayDevice|
                    old_devices.contains(d) && d.id@ != fullname@ implies self.devices@.contains(d) by {
                    let k = choose|k: int| 0 <= k < old_devices.len() && old_devices[k] == d;
                    assert(self.devices@[k] == d);
                }
                assert forall|d: AirPlayDevice|
                    self.devices@.contains(d) && d.id@ != fullname@ implies old_devices.contains(d) by {
                    let k = choose|k: int| 0 <= k < self.devices@.len() && self.devices@[k] == d;
                    assert(old_devices[k] == d);
                }
                assert(self.devices_view()[old_devices.len() as int].id@ == fullname@);
            },
        }
        CastDeviceInfo {
            id: String::from_str(fullname),
            name,
            device_type: String::from_str("airplay"),
            is_connected: false,
        }
    }

    /// Stream audio to an AirPlay device using RAOP protocol: refused when
    /// no discovered device has this id, else it becomes the session.
    pub fn stream_to_device(&mut self, device_id: &str) -> (r: Result<(), CastError>)
        ensures
            final(self).devices_view() == old(self).devices_view(),
            old(self).has_device(device_id@) ==> r is Ok && final(self).session_view() == Some(
                device_id@,
            ),
            !old(self).has_device(device_id@) ==> (r matches Err(CastError::DeviceNotFound(id))
                && id@ == device_id@ && final(self).session_view() == old(self).session_view()),
    {
        match self.position_of(device_id) {
            Some(_) => {
                // RAOP protocol flow (OPTIONS, ANNOUNCE, SETUP, RECORD,
                // RTP audio, TEARDOWN); for development the connection is
                // simulated.
                self.active_session = Some(String::from_str(device_id));
                Ok(())
            },
            None => Err(CastError::DeviceNotFound(String::from_str(device_id))),
        }
    }

    /// Stop streaming to the current AirPlay device
    pub fn stop_streaming(&mut self) -> (r: Result<(), CastError>)
        ensures
            r is Ok,
            final(self).session_view() is None,
            final(self).devices_view() == old(self).devices_view(),
    {
        self.active_session = None;
        Ok(())
    }

    /// Get list of discovered devices
    pub fn get_devices(&self) -> (infos: Vec<CastDeviceInfo>)
        ensures
            infos@.len() == self.devices_view().len(),
            forall|i: int|
                0 <= i < infos@.len() ==> airplay_info_matches(
                    #[trigger] infos@[i],
                    self.devices_view()[i].id@,
                    self.devices_view()[i].name@,
                    self.devices_view()[i].is_connected,
                ),
    {
        let mut infos: Vec<CastDeviceInfo> = Vec::new();
        let n = self.devices.len();
        for i in 0..n
            invariant
                n == self.devices@.len(),
                infos@.len() == i,
                forall|k: int|
                    0 <= k < i ==> airplay_info_matches(
                        #[trigger] infos@[k],
                        self.devices@[k].id@,
                        self.devices@[k].name@,
                        self.devices@[k].is_connected,
                    ),
        {
            let d = &self.devices[i];
            infos.push(
                CastDeviceInfo {
                    id: d.id.clone(),
                    name: d.name.clone(),
                    device_type: String::from_str("airplay"),
                    is_connected: d.is_connected,
                },
            );
        }
        infos
    }

    /// Check if currently streaming
    pub fn is_streaming(&self) -> (b: bool)
        ensures
            b == self.session_view() is Some,
    {
        self.active_session.is_some()
    }
}

} // verus!
