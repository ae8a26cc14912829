use vstd::prelude::*;
use vstd::string::*;
use vstd::utf8::encode_utf8;

use crate::dsp::sdr_interface::{is_later, Timestamp};
use crate::text::{bytes_le, lemma_bytes_le_total, lemma_bytes_le_transitive, str_le};

verus! {

/// A discovered DAB+ station
#[derive(Clone, Debug)]
pub struct Station {
    /// The station's UUID, as its 128-bit value.
    pub id: u128,
    pub name: String,
    pub ensemble_name: String,
    pub ensemble_id: u16,
    pub service_id: u32,
    pub frequency: u32,
    pub block_name: String,
    /// IEEE-754 bit pattern of the signal strength (0.0 to 1.0).
    pub signal_strength_bits: u32,
    pub program_type: String,
    pub is_active: bool,
    pub bitrate: u32,
    pub codec: String,
    pub last_seen: Timestamp,
}

/// Dynamic Label Segment (scrolling text metadata)
#[derive(Clone, Debug)]
pub struct DlsInfo {
    pub text: String,
    pub charset: u8,
    pub updated_at: Timestamp,
}

/// Slideshow (MOT image) metadata
#[derive(Clone, Debug)]
pub struct SlsInfo {
    pub content_type: String,
    pub image_data_base64: String,
    pub width: u32,
    pub height: u32,
    pub updated_at: Timestamp,
}

/// Full metadata for a playing station
#[derive(Clone, Debug)]
pub struct StationMetadata {
    pub station_id: u128,
    pub dls: Option<DlsInfo>,
    pub sls: Option<SlsInfo>,
    /// IEEE-754 bit pattern of the signal quality.
    pub signal_quality_bits: u32,
    /// IEEE-754 bit pattern of the bit error rate.
    pub bit_error_rate_bits: u32,
    /// IEEE-754 bit pattern of the audio level in dB.
    pub audio_level_db_bits: u32,
}

/// Bit pattern of -60.0 dB, the audio level of fresh metadata.
pub const SILENT_AUDIO_LEVEL_DB_BITS: u32 = 0xC270_0000;

impl Station {
    /// An exact copy.
    pub fn duplicate(&self) -> (r: Station)
        ensures
            r == *self,
    {
        Station {
            id: self.id,
            name: self.name.clone(),
            ensemble_name: self.ensemble_name.clone(),
            ensemble_id: self.ensemble_id,
            service_id: self.service_id,
            frequency: self.frequency,
            block_name: self.block_name.clone(),
            signal_strength_bits: self.signal_strength_bits,
            program_type: self.program_type.clone(),
            is_active: self.is_active,
            bitrate: self.bitrate,
            codec: self.codec.clone(),
            last_seen: self.last_seen,
        }
    }
}

impl DlsInfo {
    /// An exact copy.
    pub fn duplicate(&self) -> (r: DlsInfo)
        ensures
            r == *self,
    {
        DlsInfo { text: self.text.clone(), charset: self.charset, updated_at: self.updated_at }
    }
}

impl SlsInfo {
    /// An exact copy.
    pub fn duplicate(&self) -> (r: SlsInfo)
        ensures
            r == *self,
    {
        SlsInfo {
            content_type: self.content_type.clone(),
            image_data_base64: self.image_data_base64.clone(),
            width: self.width,
            height: self.height,
            updated_at: self.updated_at,
        }
    }
}

impl StationMetadata {
    /// An exact copy.
    pub fn duplicate(&self) -> (r: StationMetadata)
        ensures
            r == *self,
    {
        let dls = match &self.dls {
            Some(d) => Some(d.duplicate()),
            None => None,
        };
        let sls = match &self.sls {
            Some(s) => Some(s.duplicate()),
            None => None,
        };
        StationMetadata {
            station_id: self.station_id,
            dls,
            sls,
            signal_quality_bits: self.signal_quality_bits,
            bit_error_rate_bits: self.bit_error_rate_bits,
            audio_level_db_bits: self.audio_level_db_bits,
        }
    }
}

/// Two stations are the same broadcast when they share service id and
/// frequency.
pub open spec fn same_broadcast(a: Station, b: Station) -> bool {
    a.service_id == b.service_id && a.frequency == b.frequency
}

/// No two stations share an id, and no two are the same broadcast.
pub open spec fn stations_wf(s: Seq<Station>) -> bool {
    forall|i: int, j: int|
        0 <= i < j < s.len() ==> (#[trigger] s[i]).id != (#[trigger] s[j]).id && !same_broadcast(
            s[i],
            s[j],
        )
}

/// Some station is the same broadcast as `st`.
pub open spec fn broadcast_present(s: Seq<Station>, st: Station) -> bool {
    exists|i: int| 0 <= i < s.len() && same_broadcast(#[trigger] s[i], st)
}

/// Where the station that is the same broadcast as `st` stands.
pub open spec fn broadcast_position(s: Seq<Station>, st: Station) -> int {
    choose|i: int| 0 <= i < s.len() && same_broadcast(#[trigger] s[i], st)
}

/// Some station has id `id`.
pub open spec fn id_present(s: Seq<Station>, id: u128) -> bool {
    exists|i: int| 0 <= i < s.len() && (#[trigger] s[i]).id == id
}

/// Where the station with id `id` stands.
pub open spec fn id_position(s: Seq<Station>, id: u128) -> int {
    choose|i: int| 0 <= i < s.len() && (#[trigger] s[i]).id == id
}

/// The station with id `id`, if any.
pub open spec fn station_lookup(s: Seq<Station>, id: u128) -> Option<Station> {
    if id_present(s, id) {
        Some(s[id_position(s, id)])
    } else {
        None
    }
}

/// `known` seen again as `seen`: its signal strength, activity and time
/// last seen are taken from `seen`, all else stays.
pub open spec fn refreshed(known: Station, seen: Station) -> Station {
    Station {
        id: known.id,
        name: known.name,
        ensemble_name: known.ensemble_name,
        ensemble_id: known.ensemble_id,
        service_id: known.service_id,
        frequency: known.frequency,
        block_name: known.block_name,
        signal_strength_bits: seen.signal_strength_bits,
        program_type: known.program_type,
        is_active: seen.is_active,
        bitrate: known.bitrate,
        codec: known.codec,
        last_seen: seen.last_seen,
    }
}

/// The stations after `st` is reported: a known broadcast is refreshed;
/// else `st` is stored under its id, replacing a station with that id or
/// added at the end.
pub open spec fn upserted(s: Seq<Station>, st: Station) -> Seq<Station> {
    if broadcast_present(s, st) {
        let k = broadcast_position(s, st);
        s.update(k, refreshed(s[k], st))
    } else if id_present(s, st.id) {
        s.update(id_position(s, st.id), st)
    } else {
        s.push(st)
    }
}

/// `a`'s name comes no later than `b`'s (byte order of the names).
pub open spec fn name_le(a: Station, b: Station) -> bool {
    bytes_le(encode_utf8(a.name@), encode_utf8(b.name@))
}

/// Sorted by name.
pub open spec fn sorted_by_name(s: Seq<Station>) -> bool {
    forall|i: int, j: int| 0 <= i < j < s.len() ==> name_le(#[trigger] s[i], #[trigger] s[j])
}

/// Whether a station was seen after `cutoff`.
pub open spec fn seen_after(cutoff: Timestamp) -> spec_fn(Station) -> bool {
    |st: Station| is_later(st.last_seen, cutoff)
}

/// Metadata entries: no two share a station id.
pub open spec fn metadata_wf(m: Seq<(u128, StationMetadata)>) -> bool {
    forall|i: int, j: int| 0 <= i < j < m.len() ==> (#[trigger] m[i]).0 != (#[trigger] m[j]).0
}

/// Some metadata entry is kept for `id`.
pub open spec fn metadata_present(m: Seq<(u128, StationMetadata)>, id: u128) -> bool {
    exists|i: int| 0 <= i < m.len() && (#[trigger] m[i]).0 == id
}

/// Where the metadata entry for `id` stands.
pub open spec fn metadata_position(m: Seq<(u128, StationMetadata)>, id: u128) -> int {
    choose|i: int| 0 <= i < m.len() && (#[trigger] m[i]).0 == id
}

/// The metadata kept for `id`, if any.
pub open spec fn metadata_lookup(m: Seq<(u128, StationMetadata)>, id: u128) -> Option<StationMetadata> {
    if metadata_present(m, id) {
        Some(m[metadata_position(m, id)].1)
    } else {
        None
    }
}

/// The entries after `md` is stored for `id`: it replaces the entry for
/// `id`, or is added at the end.
pub open spec fn metadata_stored(m: Seq<(u128, StationMetadata)>, id: u128, md: StationMetadata) -> Seq<
    (u128, StationMetadata),
> {
    if metadata_present(m, id) {
        m.update(metadata_position(m, id), (id, md))
    } else {
        m.push((id, md))
    }
}

/// Metadata of a station that nothing was reported for yet.
pub open spec fn fresh_metadata(id: u128) -> StationMetadata {
    StationMetadata {
        station_id: id,
        dls: None,
        sls: None,
        signal_quality_bits: 0,
        bit_error_rate_bits: 0,
        audio_level_db_bits: SILENT_AUDIO_LEVEL_DB_BITS,
    }
}

/// `md` with its dynamic label replaced by `dls`.
pub open spec fn with_dls(md: StationMetadata, dls: DlsInfo) -> StationMetadata {
    StationMetadata {
        station_id: md.station_id,
        dls: Some(dls),
        sls: md.sls,
        signal_quality_bits: md.signal_quality_bits,
        bit_error_rate_bits: md.bit_error_rate_bits,
        audio_level_db_bits: md.audio_level_db_bits,
    }
}

/// The entries after a dynamic label `dls` arrives for `id`: the kept
/// metadata, or fresh metadata, gets the label.
pub open spec fn dls_stored(m: Seq<(u128, StationMetadata)>, id: u128, dls: DlsInfo) -> Seq<
    (u128, StationMetadata),
> {
    let base = match metadata_lookup(m, id) {
        Some(md) => md,
        None => fresh_metadata(id),
    };
    metadata_stored(m, id, with_dls(base, dls))
}

/// Station registry
pub struct StationRegistry {
    stations: Vec<Station>,
    metadata: Vec<(u128, StationMetadata)>,
}

impl StationRegistry {
    /// The stations, in the order they were first stored.
    pub closed spec fn stations_view(&self) -> Seq<Station> {
        self.stations@
    }

    /// The metadata entries, keyed by station id.
    pub closed spec fn metadata_view(&self) -> Seq<(u128, StationMetadata)> {
        self.metadata@
    }

    /// Ids are unique, broadcasts are unique, metadata keys are unique.
    pub open spec fn wf(&self) -> bool {
        stations_wf(self.stations_view()) && metadata_wf(self.metadata_view())
    }

    pub fn new() -> (r: Self)
        ensures
            r.wf(),
            r.stations_view() == Seq::<Station>::empty(),
            r.metadata_view() == Seq::<(u128, StationMetadata)>::empty(),
    {
        Self { stations: Vec::new(), metadata: Vec::new() }
    }

    /// Position of the station that is the same broadcast as `st`.
    fn find_broadcast(&self, st: &Station) -> (r: Option<usize>)
        requires
            stations_wf(self.stations@),
        ensures
            r is None <==> !broadcast_present(self.stations@, *st),
            r matches Some(k) ==> k == broadcast_position(self.stations@, *st) && k
                < self.stations@.len(),
    {
        let n = self.stations.len();
        for i in 0..n
            invariant
                n == self.stations@.len(),
                stations_wf(self.stations@),
                forall|j: int| 0 <= j < i ==> !same_broadcast(#[trigger] self.stations@[j], *st),
        {
            if self.stations[i].service_id == st.service_id && self.stations[i].frequency == st.frequency {
                assert(same_broadcast(self.stations@[i as int], *st));
                let ghost k = broadcast_position(self.stations@, *st);
                assert(same_broadcast(self.stations@[k], *st));
                assert(k == i) by {
                    if k < i {
                        assert(!same_broadcast(self.stations@[k], self.stations@[i as int]));
                    } else if k > i {
                        assert(!same_broadcast(self.stations@[i as int], self.stations@[k]));
                    }
                }
                return Some(i);
            }
        }
        None
    }

    /// Position of the station with id `id`.
    fn find_id(&self, id: u128) -> (r: Option<usize>)
        requires
            stations_wf(self.stations@),
        ensures
            r is None <==> !id_present(self.stations@, id),
            r matches Some(k) ==> k == id_position(self.stations@, id) && k < self.stations@.len(),
    {
        let n = self.stations.len();
        for i in 0..n
            invariant
                n == self.stations@.len(),
                stations_wf(self.stations@),
                forall|j: int| 0 <= j < i ==> (#[trigger] self.stations@[j]).id != id,
        {
            if self.stations[i].id == id {
                assert(self.stations@[i as int].id == id);
                let ghost k = id_position(self.stations@, id);
                assert(k == i) by {
                    if k < i {
                        assert(self.stations@[k].id != self.stations@[i as int].id);
                    } else if k > i {
                        assert(self.stations@[i as int].id != self.stations@[k].id);
                    }
                }
                return Some(i);
            }
        }
        None
    }

    /// Add or update a station
    pub fn upsert_station(&mut self, station: Station)
        requires
            old(self).wf(),
        ensures
            final(self).wf(),
            final(self).stations_view() == upserted(old(self).stations_view(), station),
            final(self).metadata_view() == old(self).metadata_view(),
    {
        proof {
            lemma_upsert_keeps_registry_wf(self.stations@, station);
        }
        match self.find_broadcast(&station) {
            Some(k) => {
                let known = self.stations[k].duplicate();
                let updated = Station {
                    signal_strength_bits: station.signal_strength_bits,
                    is_active: station.is_active,
                    last_seen: station.last_seen,
                    ..known
                };
                self.stations.set(k, updated);
            },
            None => match self.find_id(station.id) {
                Some(j) => {
                    self.stations.set(j, station);
                },
                None => {
                    self.stations.push(station);
                },
            },
        }
    }

    /// Get all stations, sorted by name.
    pub fn get_all_stations(&self) -> (r: Vec<Station>)
        ensures
            r@.to_multiset() == self.stations_view().to_multiset(),
            sorted_by_name(r@),
    {
        let mut result: Vec<Station> = Vec::new();
        let n = self.stations.len();
        assert(result@ =~= self.stations@.subrange(0, 0));
        for i in 0..n
            invariant
                n == self.stations@.len(),
                result@.to_multiset() == self.stations@.subrange(0, i as int).to_multiset(),
                sorted_by_name(result@),
        {
            let st = self.stations[i].duplicate();
            let mut j: usize = 0;
            while j < result.len()
                invariant
                    j <= result@.len(),
                    forall|k: int| 0 <= k < j ==> name_le(#[trigger] result@[k], st),
                ensures
                    j <= result@.len(),
                    forall|k: int| 0 <= k < j ==> name_le(#[trigger] result@[k], st),
                    j < result@.len() ==> !name_le(result@[j as int], st),
                decreases result@.len() - j,
            {
                if !str_le(result[j].name.as_str(), st.name.as_str()) {
                    break;
                }
                assert(name_le(result@[j as int], st));
                j = j + 1;
            }
            let ghost before = result@;
            proof {
                lemma_insert_keeps_sorted(before, j as int, st);
                lemma_insert_to_multiset(before, j as int, st);
                assert(self.stations@.subrange(0, i + 1) =~= self.stations@.subrange(0, i as int).push(st));
                self.stations@.subrange(0, i as int).to_multiset_ensures();
            }
            result.insert(j, st);
        }
        assert(self.stations@.subrange(0, n as int) =~= self.stations@);
        result
    }

    /// Get a station by ID
    pub fn get_station(&self, id: u128) -> (r: Option<Station>)
        requires
            self.wf(),
        ensures
            r == station_lookup(self.stations_view(), id),
    {
        match self.find_id(id) {
            Some(k) => Some(self.stations[k].duplicate()),
            None => None,
        }
    }

    /// Find a station by service ID (one of them, where several
    /// frequencies carry the service).
    pub fn find_by_service_id(&self, service_id: u32) -> (r: Option<Station>)
        ensures
            r is None <==> !(exists|i: int|
                0 <= i < self.stations_view().len() && (#[trigger] self.stations_view()[i]).service_id
                    == service_id),
            r matches Some(st) ==> self.stations_view().contains(st) && st.service_id == service_id,
    {
        let n = self.stations.len();
        for i in 0..n
            invariant
                n == self.stations@.len(),
                forall|j: int| 0 <= j < i ==> (#[trigger] self.stations@[j]).service_id != service_id,
        {
            if self.stations[i].service_id == service_id {
                let st = self.stations[i].duplicate();
                assert(self.stations_view()[i as int].service_id == service_id);
                assert(self.stations_view()[i as int] == st);
                return Some(st);
            }
        }
        None
    }

    /// Position of the metadata entry for `id`.
    fn find_metadata(&self, id: u128) -> (r: Option<usize>)
        requires
            metadata_wf(self.metadata@),
        ensures
            r is None <==> !metadata_present(self.metadata@, id),
            r matches Some(k) ==> k == metadata_position(self.metadata@, id) && k
                < self.metadata@.len(),
    {
        let n = self.metadata.len();
        for i in 0..n
            invariant
                n == self.metadata@.len(),
                metadata_wf(self.metadata@),
                forall|j: int| 0 <= j < i ==> (#[trigger] self.metadata@[j]).0 != id,
        {
            if self.metadata[i].0 == id {
                assert(self.metadata@[i as int].0 == id);
                let ghost k = metadata_position(self.metadata@, id);
                assert(k == i) by {
                    if k < i {
                        assert(self.metadata@[k].0 != self.metadata@[i as int].0);
                    } else if k > i {
                        assert(self.metadata@[i as int].0 != self.metadata@[k].0);
                    }
                }
                return Some(i);
            }
        }
        None
    }

    /// Store `metadata` for `station_id`.
    fn store_metadata(&mut self, station_id: u128, metadata: StationMetadata)
        requires
            metadata_wf(old(self).metadata@),
        ensures
            final(self).metadata@ == metadata_stored(old(self).metadata@, station_id, metadata),
            metadata_wf(final(self).metadata@),
            final(self).stations@ == old(self).stations@,
    {
        proof {
            lemma_store_keeps_metadata_wf(self.metadata@, station_id, metadata);
        }
        match self.find_metadata(station_id) {
            Some(k) => {
                self.metadata.set(k, (station_id, metadata));
            },
            None => {
                self.metadata.push((station_id, metadata));
            },
        }
    }

    /// Update metadata for a station
    pub fn update_metadata(&mut self, station_id: u128, metadata: StationMetadata)
        requires
            old(self).wf(),
        ensures
            final(self).wf(),
            final(self).metadata_view() == metadata_stored(old(self).metadata_view(), station_id, metadata),
            final(self).stations_view() == old(self).stations_view(),
    {
        self.store_metadata(station_id, metadata);
    }

    /// Update the DLS text for a station, received at `now`.
    pub fn update_dls(&mut self, station_id: u128, text: String, now: Timestamp)
        requires
            old(self).wf(),
        ensures
            final(self).wf(),
            final(self).metadata_view() == dls_stored(
                old(self).metadata_view(),
                station_id,
                DlsInfo { text, charset: 0, updated_at: now },
            ),
            final(self).stations_view() == old(self).stations_view(),
    {
        let base = match self.find_metadata(station_id) {
            Some(k) => self.metadata[k].1.duplicate(),
            None => StationMetadata {
                station_id,
                dls: None,
                sls: None,
                signal_quality_bits: 0,
                bit_error_rate_bits: 0,
                audio_level_db_bits: SILENT_AUDIO_LEVEL_DB_BITS,
            },
        };
        let entry = StationMetadata { dls: Some(DlsInfo { text, charset: 0, updated_at: now }), ..base };
        self.store_metadata(station_id, entry);
    }

    /// Get metadata for a station
    pub fn get_metadata(&self, station_id: u128) -> (r: Option<StationMetadata>)
        requires
            self.wf(),
        ensures
            r == metadata_lookup(self.metadata_view(), station_id),
    {
        match self.find_metadata(station_id) {
            Some(k) => Some(self.metadata[k].1.duplicate()),
            None => None,
        }
    }

    /// Get station count
    pub fn station_count(&self) -> (n: usize)
        ensures
            n == self.stations_view().len(),
    {
        self.stations.len()
    }

    /// Remove the stations not seen after `cutoff`.
    pub fn prune_stale(&mut self, cutoff: Timestamp)
        requires
            old(self).wf(),
        ensures
            final(self).wf(),
            final(self).stations_view() == old(self).stations_view().filter(seen_after(cutoff)),
            final(self).metadata_view() == old(self).metadata_view(),
    {
        let ghost all = self.stations@;
        let ghost keep = seen_after(cutoff);
        let ghost mut origin: Seq<int> = Seq::empty();
        let mut kept: Vec<Station> = Vec::new();
        let n = self.stations.len();
        for i in 0..n
            invariant
                n == all.len(),
                all == self.stations@,
                stations_wf(all),
                keep == seen_after(cutoff),
                kept@ == all.subrange(0, i as int).filter(keep),
                origin.len() == kept@.len(),
                forall|k: int| 0 <= k < origin.len() ==> 0 <= #[trigger] origin[k] < i && kept@[k] == all[origin[k]],
                stations_wf(kept@),
        {
            let st = self.stations[i].duplicate();
            proof {
                assert(all.subrange(0, i + 1) =~= all.subrange(0, i as int).push(st));
                all.subrange(0, i as int).lemma_filter_push(st, keep);
            }
            if st.last_seen.is_after(&cutoff) {
                let ghost before = kept@;
                let ghost before_origin = origin;
                kept.push(st);
                proof {
                    origin = origin.push(i as int);
                }
                assert forall|a: int, b: int| 0 <= a < b < kept@.len() implies (#[trigger] kept@[a]).id != (
                #[trigger] kept@[b]).id && !same_broadcast(kept@[a], kept@[b]) by {
                    if b == before.len() {
                        let m = before_origin[a];
                        assert(all[m].id != all[i as int].id && !same_broadcast(all[m], all[i as int]));
                    } else {
                        assert(before[a].id != before[b].id);
                    }
                }
                assert forall|k: int| 0 <= k < origin.len() implies 0 <= #[trigger] origin[k] < i + 1 && kept@[k] == all[origin[k]] by {
                    if k < before.len() {
                        assert(before_origin[k] < i);
                    }
                }
            }
        }
        assert(all.subrange(0, n as int) =~= all);
        self.stations = kept;
    }

    /// Clear all stations and metadata (for a fresh scan)
    pub fn clear(&mut self)
        ensures
            final(self).wf(),
            final(self).stations_view() == Seq::<Station>::empty(),
            final(self).metadata_view() == Seq::<(u128, StationMetadata)>::empty(),
    {
        self.stations = Vec::new();
        self.metadata = Vec::new();
    }
}

/// After a station is reported it can be found by id: a new broadcast
/// under the station's own id, exactly as reported; a known broadcast
/// under its first id, refreshed, with the number of stations unchanged.
pub proof fn lemma_upsert_then_lookup(s: Seq<Station>, st: Station)
    requires
        stations_wf(s),
    ensures
        !broadcast_present(s, st) ==> station_lookup(upserted(s, st), st.id) == Some(st),
        broadcast_present(s, st) ==> {
            let known = s[broadcast_position(s, st)];
            &&& station_lookup(upserted(s, st), known.id) == Some(refreshed(known, st))
            &&& upserted(s, st).len() == s.len()
        },
{
    let u = upserted(s, st);
    lemma_upsert_keeps_registry_wf(s, st);
    if broadcast_present(s, st) {
        let k = broadcast_position(s, st);
        assert(u[k].id == s[k].id);
        lemma_lookup_at(u, k);
    } else if id_present(s, st.id) {
        let j = id_position(s, st.id);
        assert(u[j] == st);
        lemma_lookup_at(u, j);
    } else {
        assert(u[s.len() as int] == st);
        lemma_lookup_at(u, s.len() as int);
    }
}

/// In a registry with unique ids, the station at `k` is the one found
/// under its id.
pub proof fn lemma_lookup_at(s: Seq<Station>, k: int)
    requires
        stations_wf(s),
        0 <= k < s.len(),
    ensures
        station_lookup(s, s[k].id) == Some(s[k]),
{
    let id = s[k].id;
    assert(id_present(s, id));
    let p = id_position(s, id);
    if p < k {
        assert(s[p].id != s[k].id);
    } else if p > k {
        assert(s[k].id != s[p].id);
    }
}

/// Reporting the same station twice is the same as reporting it once.
pub proof fn lemma_upsert_idempotent(s: Seq<Station>, st: Station)
    requires
        stations_wf(s),
    ensures
        upserted(upserted(s, st), st) == upserted(s, st),
{
    let u = upserted(s, st);
    lemma_upsert_keeps_registry_wf(s, st);
    let p = if broadcast_present(s, st) {
        broadcast_position(s, st)
    } else if id_present(s, st.id) {
        id_position(s, st.id)
    } else {
        s.len() as int
    };
    assert(same_broadcast(u[p], st));
    assert(broadcast_present(u, st));
    let q = broadcast_position(u, st);
    if q < p {
        assert(!same_broadcast(u[q], u[p]));
    } else if q > p {
        assert(!same_broadcast(u[p], u[q]));
    }
    assert(refreshed(u[p], st) == u[p]);
    assert(upserted(u, st) =~= u);
}

/// After a dynamic label arrives for a station, the station's metadata
/// holds that label, and everything else it held before.
pub proof fn lemma_dls_then_lookup(m: Seq<(u128, StationMetadata)>, id: u128, dls: DlsInfo)
    requires
        metadata_wf(m),
    ensures
        metadata_lookup(dls_stored(m, id, dls), id) == Some(
            with_dls(
                match metadata_lookup(m, id) {
                    Some(md) => md,
                    None => fresh_metadata(id),
                },
                dls,
            ),
        ),
{
    let base = match metadata_lookup(m, id) {
        Some(md) => md,
        None => fresh_metadata(id),
    };
    lemma_store_then_lookup(m, id, with_dls(base, dls));
}

/// Metadata stored for a station is what is then found for it.
pub proof fn lemma_store_then_lookup(m: Seq<(u128, StationMetadata)>, id: u128, md: StationMetadata)
    requires
        metadata_wf(m),
    ensures
        metadata_lookup(metadata_stored(m, id, md), id) == Some(md),
{
    let u = metadata_stored(m, id, md);
    lemma_store_keeps_metadata_wf(m, id, md);
    let k = if metadata_present(m, id) {
        metadata_position(m, id)
    } else {
        m.len() as int
    };
    assert(u[k] == (id, md));
    assert(metadata_present(u, id));
    let p = metadata_position(u, id);
    if p < k {
        assert(u[p].0 != u[k].0);
    } else if p > k {
        assert(u[k].0 != u[p].0);
    }
}

/// Storing metadata keeps its keys unique.
pub proof fn lemma_store_keeps_metadata_wf(m: Seq<(u128, StationMetadata)>, id: u128, md: StationMetadata)
    requires
        metadata_wf(m),
    ensures
        metadata_wf(metadata_stored(m, id, md)),
{
    let u = metadata_stored(m, id, md);
    if metadata_present(m, id) {
        let k = metadata_position(m, id);
        assert forall|i: int, j: int| 0 <= i < j < u.len() implies (#[trigger] u[i]).0 != (#[trigger] u[j]).0 by {
            assert(m[i].0 != m[j].0);
        }
    } else {
        assert forall|i: int, j: int| 0 <= i < j < u.len() implies (#[trigger] u[i]).0 != (#[trigger] u[j]).0 by {
            if j < m.len() {
                assert(m[i].0 != m[j].0);
            }
        }
    }
}

/// Inserting `st` at `j`, after every station that sorts no later and
/// before the first that sorts later, keeps the order.
proof fn lemma_insert_keeps_sorted(s: Seq<Station>, j: int, st: Station)
    requires
        sorted_by_name(s),
        0 <= j <= s.len(),
        forall|k: int| 0 <= k < j ==> name_le(#[trigger] s[k], st),
        j < s.len() ==> !name_le(s[j], st),
    ensures
        sorted_by_name(s.insert(j, st)),
{
    let t = s.insert(j, st);
    s.insert_ensures(j, st);
    if j < s.len() {
        lemma_bytes_le_total(encode_utf8(s[j].name@), encode_utf8(st.name@));
    }
    assert forall|a: int, b: int| 0 <= a < b < t.len() implies name_le(#[trigger] t[a], #[trigger] t[b]) by {
        if b < j {
            assert(name_le(s[a], s[b]));
        } else if b == j {
            assert(name_le(s[a], st));
        } else if a < j {
            assert(name_le(s[a], st));
            assert(name_le(st, s[j]));
            assert(name_le(s[j], s[b - 1]) || j == b - 1);
            lemma_bytes_le_transitive(encode_utf8(s[a].name@), encode_utf8(st.name@), encode_utf8(s[j].name@));
            if j < b - 1 {
                lemma_bytes_le_transitive(encode_utf8(s[a].name@), encode_utf8(s[j].name@), encode_utf8(s[b - 1].name@));
            }
        } else if a == j {
            assert(name_le(st, s[j]));
            if j < b - 1 {
                assert(name_le(s[j], s[b - 1]));
                lemma_bytes_le_transitive(encode_utf8(st.name@), encode_utf8(s[j].name@), encode_utf8(s[b - 1].name@));
            }
        } else {
            assert(name_le(s[a - 1], s[b - 1]));
        }
    }
}

/// Inserting an element anywhere adds it to the multiset.
proof fn lemma_insert_to_multiset(s: Seq<Station>, j: int, st: Station)
    requires
        0 <= j <= s.len(),
    ensures
        s.insert(j, st).to_multiset() =~= s.to_multiset().insert(st),
{
    let t = s.insert(j, st);
    s.insert_ensures(j, st);
    t.to_multiset_ensures();
    assert(t.remove(j) =~= s);
    assert(t.contains(st)) by {
        assert(t[j] == st);
    }
}

/// Reporting a station keeps ids and broadcasts unique.
pub proof fn lemma_upsert_keeps_registry_wf(s: Seq<Station>, st: Station)
    requires
        stations_wf(s),
    ensures
        stations_wf(upserted(s, st)),
{
    let u = upserted(s, st);
    if broadcast_present(s, st) {
        let k = broadcast_position(s, st);
        assert forall|i: int, j: int| 0 <= i < j < u.len() implies (#[trigger] u[i]).id != (
        #[trigger] u[j]).id && !same_broadcast(u[i], u[j]) by {
            assert(s[i].id != s[j].id && !same_broadcast(s[i], s[j]));
        }
    } else if id_present(s, st.id) {
        let k = id_position(s, st.id);
        assert forall|i: int, j: int| 0 <= i < j < u.len() implies (#[trigger] u[i]).id != (
        #[trigger] u[j]).id && !same_broadcast(u[i], u[j]) by {
            assert(s[i].id != s[j].id && !same_broadcast(s[i], s[j]));
            if i == k {
                assert(!same_broadcast(s[j], st));
            }
            if j == k {
                assert(!same_broadcast(s[i], st));
            }
        }
    } else {
        assert forall|i: int, j: int| 0 <= i < j < u.len() implies (#[trigger] u[i]).id != (
        #[trigger] u[j]).id && !same_broadcast(u[i], u[j]) by {
            if j == s.len() {
                assert(s[i].id != st.id);
                assert(!same_broadcast(s[i], st));
            } else {
                assert(s[i].id != s[j].id && !same_broadcast(s[i], s[j]));
            }
        }
    }
}

} // verus!
