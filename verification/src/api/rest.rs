use vstd::prelude::*;

use crate::services::station_registry::{
    metadata_lookup, station_lookup, Station, StationMetadata, StationRegistry,
};

verus! {

/// The most scan passes a client may ask for.
pub const MAX_SCAN_PASSES: u32 = 10;

/// The number of passes a scan runs: the client's request capped at
/// `MAX_SCAN_PASSES`, or `default_passes` without a request.
pub fn scan_passes(default_passes: u32, requested: Option<u32>) -> (passes: u32)
    ensures
        passes == match requested {
            Some(p) => if p < MAX_SCAN_PASSES { p } else { MAX_SCAN_PASSES },
            None => default_passes,
        },
{
    match requested {
        Some(p) => if p < MAX_SCAN_PASSES {
            p
        } else {
            MAX_SCAN_PASSES
        },
        None => default_passes,
    }
}

/// The 128-bit value of the UUID that `s` spells, if it spells one.
pub uninterp spec fn uuid_spec(s: Seq<char>) -> Option<u128>;

/// Calls `uuid::Uuid::parse_str` and takes the UUID's 128-bit value.
/// Claims only that the result is a function of the text: which texts
/// `uuid` accepts (hyphenated, simple, braced, URN forms) is left unsaid.
#[verifier::external_body]
pub(crate) fn parse_station_id(s: &str) -> (r: Option<u128>)
    ensures
        r == uuid_spec(s@),
{
    match uuid::Uuid::parse_str(s) {
        Ok(id) => Some(id.as_u128()),
        Err(_) => None,
    }
}

/// The answer to a request that names a station in its path.
pub enum StationLookup {
    /// The path is not a station id.
    BadRequest,
    /// No station has that id.
    NotFound,
    Found(Station),
}

/// Look up the station a request path names: a bad id, no such station,
/// or the station.
pub fn station_request(id: &str, reg: &StationRegistry) -> (r: StationLookup)
    requires
        reg.wf(),
    ensures
        uuid_spec(id@) is None ==> r is BadRequest,
        uuid_spec(id@) matches Some(u) ==> match station_lookup(reg.stations_view(), u) {
            None => r is NotFound,
            Some(st) => r matches StationLookup::Found(found) && found == st,
        },
{
    match parse_station_id(id) {
        None => StationLookup::BadRequest,
        Some(u) => match reg.get_station(u) {
            None => StationLookup::NotFound,
            Some(st) => StationLookup::Found(st),
        },
    }
}

/// The answer to a request for a station's metadata.
pub enum MetadataLookup {
    /// The path is not a station id.
    BadRequest,
    /// Nothing is kept for the station with this id.
    Missing(u128),
    Found(StationMetadata),
}

/// Look up the metadata a request path names: a bad id, none kept, or the
/// metadata.
pub fn metadata_request(id: &str, reg: &StationRegistry) -> (r: MetadataLookup)
    requires
        reg.wf(),
    ensures
        uuid_spec(id@) is None ==> r is BadRequest,
        uuid_spec(id@) matches Some(u) ==> match metadata_lookup(reg.metadata_view(), u) {
            None => r == MetadataLookup::Missing(u),
            Some(md) => r matches MetadataLookup::Found(found) && found == md,
        },
{
    match parse_station_id(id) {
        None => MetadataLookup::BadRequest,
        Some(u) => match reg.get_metadata(u) {
            None => MetadataLookup::Missing(u),
            Some(md) => MetadataLookup::Found(md),
        },
    }
}

} // verus!
