use vstd::prelude::*;
use vstd::string::*;

use crate::api::rest::{parse_station_id, uuid_spec};

verus! {

/// What a WebSocket client asks for.
#[derive(Debug, Clone, PartialEq, Eq)]
pub enum WsAction {
    GetStations,
    GetStatus,
    GetMetadata,
    /// An action this server does not know.
    Unknown(String),
    /// A message without an action.
    NoAction,
}

/// Classify a client message by its "action" field.
pub fn ws_action(action: Option<&str>) -> (r: WsAction)
    ensures
        action is None ==> r == WsAction::NoAction,
        action matches Some(a) ==> {
            ||| a@ == "get_stations"@ && r == WsAction::GetStations
            ||| a@ == "get_status"@ && r == WsAction::GetStatus
            ||| a@ == "get_metadata"@ && r == WsAction::GetMetadata
            ||| a@ != "get_stations"@ && a@ != "get_status"@ && a@ != "get_metadata"@ && (r matches WsAction::Unknown(name) && name@ == a@)
        },
{
    match action {
        None => WsAction::NoAction,
        Some(a) => {
            let get_stations = String::from_str("get_stations");
            let get_status = String::from_str("get_status");
            let get_metadata = String::from_str("get_metadata");
            let name = String::from_str(a);
            if name == get_stations {
                WsAction::GetStations
            } else if name == get_status {
                WsAction::GetStatus
            } else if name == get_metadata {
                WsAction::GetMetadata
            } else {
                WsAction::Unknown(name)
            }
        },
    }
}

/// The text of an optional string.
pub open spec fn opt_text(s: Option<String>) -> Option<Seq<char>> {
    match s {
        Some(t) => Some(t@),
        None => None,
    }
}

/// What a client message holds, read as JSON: its "action" and
/// "station_id" string fields, each when present; `None` when the message
/// is not JSON.
pub uninterp spec fn ws_fields_spec(text: Seq<char>) -> Option<(Option<Seq<char>>, Option<Seq<char>>)>;

/// Calls `serde_json::from_str::<serde_json::Value>` on the message and
/// picks its "action" and "station_id" fields where they are strings
/// (`Value::get`, `Value::as_str`). Claims only that the result is a
/// function of the text: what JSON `serde_json` accepts is left unsaid.
#[verifier::external_body]
fn ws_fields(text: &str) -> (r: Option<(Option<String>, Option<String>)>)
    ensures
        match r {
            None => ws_fields_spec(text@) is None,
            Some((action, station_id)) => ws_fields_spec(text@) == Some((opt_text(action), opt_text(station_id))),
        },
{
    match serde_json::from_str::<serde_json::Value>(text) {
        Ok(v) => Some((
            v.get("action").and_then(serde_json::Value::as_str).map(String::from),
            v.get("station_id").and_then(serde_json::Value::as_str).map(String::from),
        )),
        Err(_) => None,
    }
}

/// A client message, as the server answers it.
pub enum WsRequest {
    Stations,
    Status,
    /// Metadata for the station with this id.
    Metadata(u128),
    /// A metadata request without a valid station id: not answered.
    MetadataWithoutId,
    /// An action this server does not know.
    Unknown(String),
    /// A JSON message without an action.
    NoAction,
    /// A message that is not JSON.
    NotJson,
}

/// `r` is the request a message with these fields makes.
pub open spec fn ws_request_of(r: WsRequest, fields: Option<(Option<Seq<char>>, Option<Seq<char>>)>) -> bool {
    match fields {
        None => r is NotJson,
        Some((None, _)) => r is NoAction,
        Some((Some(a), station_id)) => if a == "get_stations"@ {
            r is Stations
        } else if a == "get_status"@ {
            r is Status
        } else if a == "get_metadata"@ {
            match station_id {
                Some(i) => match uuid_spec(i) {
                    Some(u) => r == WsRequest::Metadata(u),
                    None => r is MetadataWithoutId,
                },
                None => r is MetadataWithoutId,
            }
        } else {
            r matches WsRequest::Unknown(name) && name@ == a
        },
    }
}

/// Read a client message: its JSON "action" field, and for a metadata
/// request its "station_id" as a UUID.
pub fn ws_request(text: &str) -> (r: WsRequest)
    ensures
        ws_request_of(r, ws_fields_spec(text@)),
{
    match ws_fields(text) {
        None => WsRequest::NotJson,
        Some((action, station_id)) => match action {
            None => WsRequest::NoAction,
            Some(a) => {
                let ghost fields = ws_fields_spec(text@);
                assert(fields == Some((Some(a@), opt_text(station_id))));
                proof {
                    reveal_strlit("get_stations");
                    reveal_strlit("get_status");
                    reveal_strlit("get_metadata");
                    assert("get_status"@[8] != "get_stations"@[8]);
                    assert("get_metadata"@[4] != "get_stations"@[4]);
                    assert("get_metadata"@[4] != "get_status"@[4]);
                }
                match ws_action(Some(a.as_str())) {
                WsAction::GetStations => WsRequest::Stations,
                WsAction::GetStatus => WsRequest::Status,
                WsAction::GetMetadata => match station_id {
                    Some(i) => match parse_station_id(i.as_str()) {
                        Some(u) => WsRequest::Metadata(u),
                        None => WsRequest::MetadataWithoutId,
                    },
                    None => WsRequest::MetadataWithoutId,
                },
                WsAction::Unknown(name) => WsRequest::Unknown(name),
                WsAction::NoAction => WsRequest::NoAction,
            }
            },
        },
    }
}

} // verus!
