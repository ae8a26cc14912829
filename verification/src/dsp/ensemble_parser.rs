use vstd::prelude::*;
use vstd::string::*;

use crate::dsp::error_correction::DspError;
use crate::dsp::sdr_interface::{IqBuffer, near_frequency, FREQUENCY_TOLERANCE_HZ};
use crate::text::{label_text, trimmed, utf8_lossy_spec};

verus! {

/// FIG (Fast Information Group) types used in DAB
#[derive(Debug, Clone, Copy, PartialEq, Eq)]
pub enum FigType {
    /// FIG 0 - Multiplex Configuration Information
    MCI,
    /// FIG 1 - Labels
    Labels,
    /// FIG 2 - Labels (extended character sets)
    Labels2,
    /// FIG 5 - FIDC (Fast Information Data Channel)
    FIDC,
    /// FIG 6 - Conditional Access
    CA,
}

/// Programme Type codes for DAB+
#[derive(Debug, Clone, Copy, PartialEq, Eq)]
pub enum ProgrammeType {
    /// PTy code 0 (its name is "None")
    NoProgrammeType,
    News,
    CurrentAffairs,
    Information,
    Sport,
    Education,
    Drama,
    Culture,
    Science,
    Talk,
    PopMusic,
    RockMusic,
    EasyListening,
    LightClassical,
    SeriousClassical,
    OtherMusic,
    Weather,
    Finance,
    ChildrensProgrammes,
    SocialAffairs,
    Religion,
    PhoneIn,
    Travel,
    Leisure,
    JazzMusic,
    CountryMusic,
    NationalMusic,
    OldiesMusic,
    FolkMusic,
    Documentary,
}

/// The programme type that a PTy code stands for; codes above 29 have none.
pub open spec fn programme_type_of(code: u8) -> ProgrammeType {
    match code {
        0 => ProgrammeType::NoProgrammeType,
        1 => ProgrammeType::News,
        2 => ProgrammeType::CurrentAffairs,
        3 => ProgrammeType::Information,
        4 => ProgrammeType::Sport,
        5 => ProgrammeType::Education,
        6 => ProgrammeType::Drama,
        7 => ProgrammeType::Culture,
        8 => ProgrammeType::Science,
        9 => ProgrammeType::Talk,
        10 => ProgrammeType::PopMusic,
        11 => ProgrammeType::RockMusic,
        12 => ProgrammeType::EasyListening,
        13 => ProgrammeType::LightClassical,
        14 => ProgrammeType::SeriousClassical,
        15 => ProgrammeType::OtherMusic,
        16 => ProgrammeType::Weather,
        17 => ProgrammeType::Finance,
        18 => ProgrammeType::ChildrensProgrammes,
        19 => ProgrammeType::SocialAffairs,
        20 => ProgrammeType::Religion,
        21 => ProgrammeType::PhoneIn,
        22 => ProgrammeType::Travel,
        23 => ProgrammeType::Leisure,
        24 => ProgrammeType::JazzMusic,
        25 => ProgrammeType::CountryMusic,
        26 => ProgrammeType::NationalMusic,
        27 => ProgrammeType::OldiesMusic,
        28 => ProgrammeType::FolkMusic,
        29 => ProgrammeType::Documentary,
        _ => ProgrammeType::NoProgrammeType,
    }
}

/// The name of a programme type (its variant name).
pub open spec fn programme_type_name(t: ProgrammeType) -> Seq<char> {
    match t {
        ProgrammeType::NoProgrammeType => "None"@,
        ProgrammeType::News => "News"@,
        ProgrammeType::CurrentAffairs => "CurrentAffairs"@,
        ProgrammeType::Information => "Information"@,
        ProgrammeType::Sport => "Sport"@,
        ProgrammeType::Education => "Education"@,
        ProgrammeType::Drama => "Drama"@,
        ProgrammeType::Culture => "Culture"@,
        ProgrammeType::Science => "Science"@,
        ProgrammeType::Talk => "Talk"@,
        ProgrammeType::PopMusic => "PopMusic"@,
        ProgrammeType::RockMusic => "RockMusic"@,
        ProgrammeType::EasyListening => "EasyListening"@,
        ProgrammeType::LightClassical => "LightClassical"@,
        ProgrammeType::SeriousClassical => "SeriousClassical"@,
        ProgrammeType::OtherMusic => "OtherMusic"@,
        ProgrammeType::Weather => "Weather"@,
        ProgrammeType::Finance => "Finance"@,
        ProgrammeType::ChildrensProgrammes => "ChildrensProgrammes"@,
        ProgrammeType::SocialAffairs => "SocialAffairs"@,
        ProgrammeType::Religion => "Religion"@,
        ProgrammeType::PhoneIn => "PhoneIn"@,
        ProgrammeType::Travel => "Travel"@,
        ProgrammeType::Leisure => "Leisure"@,
        ProgrammeType::JazzMusic => "JazzMusic"@,
        ProgrammeType::CountryMusic => "CountryMusic"@,
        ProgrammeType::NationalMusic => "NationalMusic"@,
        ProgrammeType::OldiesMusic => "OldiesMusic"@,
        ProgrammeType::FolkMusic => "FolkMusic"@,
        ProgrammeType::Documentary => "Documentary"@,
    }
}

impl ProgrammeType {
    pub fn from_pty_code(code: u8) -> (t: Self)
        ensures
            t == programme_type_of(code),
    {
        match code {
            0 => ProgrammeType::NoProgrammeType,
            1 => ProgrammeType::News,
            2 => ProgrammeType::CurrentAffairs,
            3 => ProgrammeType::Information,
            4 => ProgrammeType::Sport,
            5 => ProgrammeType::Education,
            6 => ProgrammeType::Drama,
            7 => ProgrammeType::Culture,
            8 => ProgrammeType::Science,
            9 => ProgrammeType::Talk,
            10 => ProgrammeType::PopMusic,
            11 => ProgrammeType::RockMusic,
            12 => ProgrammeType::EasyListening,
            13 => ProgrammeType::LightClassical,
            14 => ProgrammeType::SeriousClassical,
            15 => ProgrammeType::OtherMusic,
            16 => ProgrammeType::Weather,
            17 => ProgrammeType::Finance,
            18 => ProgrammeType::ChildrensProgrammes,
            19 => ProgrammeType::SocialAffairs,
            20 => ProgrammeType::Religion,
            21 => ProgrammeType::PhoneIn,
            22 => ProgrammeType::Travel,
            23 => ProgrammeType::Leisure,
            24 => ProgrammeType::JazzMusic,
            25 => ProgrammeType::CountryMusic,
            26 => ProgrammeType::NationalMusic,
            27 => ProgrammeType::OldiesMusic,
            28 => ProgrammeType::FolkMusic,
            29 => ProgrammeType::Documentary,
            _ => ProgrammeType::NoProgrammeType,
        }
    }

    /// The programme type's name, e.g. "PopMusic".
    pub fn to_string(&self) -> (s: String)
        ensures
            s@ == programme_type_name(*self),
    {
        match self {
            ProgrammeType::NoProgrammeType => String::from_str("None"),
            ProgrammeType::News => String::from_str("News"),
            ProgrammeType::CurrentAffairs => String::from_str("CurrentAffairs"),
            ProgrammeType::Information => String::from_str("Information"),
            ProgrammeType::Sport => String::from_str("Sport"),
            ProgrammeType::Education => String::from_str("Education"),
            ProgrammeType::Drama => String::from_str("Drama"),
            ProgrammeType::Culture => String::from_str("Culture"),
            ProgrammeType::Science => String::from_str("Science"),
            ProgrammeType::Talk => String::from_str("Talk"),
            ProgrammeType::PopMusic => String::from_str("PopMusic"),
            ProgrammeType::RockMusic => String::from_str("RockMusic"),
            ProgrammeType::EasyListening => String::from_str("EasyListening"),
            ProgrammeType::LightClassical => String::from_str("LightClassical"),
            ProgrammeType::SeriousClassical => String::from_str("SeriousClassical"),
            ProgrammeType::OtherMusic => String::from_str("OtherMusic"),
            ProgrammeType::Weather => String::from_str("Weather"),
            ProgrammeType::Finance => String::from_str("Finance"),
            ProgrammeType::ChildrensProgrammes => String::from_str("ChildrensProgrammes"),
            ProgrammeType::SocialAffairs => String::from_str("SocialAffairs"),
            ProgrammeType::Religion => String::from_str("Religion"),
            ProgrammeType::PhoneIn => String::from_str("PhoneIn"),
            ProgrammeType::Travel => String::from_str("Travel"),
            ProgrammeType::Leisure => String::from_str("Leisure"),
            ProgrammeType::JazzMusic => String::from_str("JazzMusic"),
            ProgrammeType::CountryMusic => String::from_str("CountryMusic"),
            ProgrammeType::NationalMusic => String::from_str("NationalMusic"),
            ProgrammeType::OldiesMusic => String::from_str("OldiesMusic"),
            ProgrammeType::FolkMusic => String::from_str("FolkMusic"),
            ProgrammeType::Documentary => String::from_str("Documentary"),
        }
    }
}

/// DAB Ensemble information
#[derive(Clone, Debug)]
pub struct EnsembleInfo {
    pub ensemble_id: u16,
    pub label: String,
    pub country_id: u8,
    pub services: Vec<ServiceInfo>,
    pub num_sub_channels: u8,
}

/// Individual service within an ensemble
#[derive(Clone, Debug)]
pub struct ServiceInfo {
    pub service_id: u32,
    pub label: String,
    pub program_type: String,
    pub is_audio: bool,
    pub sub_channel_id: u8,
    pub bitrate: u32,
    pub protection_level: u8,
}

/// ITU country code of Australia.
pub const AUSTRALIA_COUNTRY_ID: u8 = 0x09;

/// Protection level of every known service (EEP 3-A, typical for DAB+).
pub const DEFAULT_PROTECTION_LEVEL: u8 = 3;

/// A known service: label, service id, programme type, bitrate (kbit/s).
type KnownService = (&'static str, u32, &'static str, u32);

/// A known ensemble: centre frequency, label, services.
type KnownEnsemble = (u32, &'static str, Vec<KnownService>);

spec fn known_service_view(s: KnownService) -> (Seq<char>, u32, Seq<char>, u32) {
    (s.0@, s.1, s.2@, s.3)
}

spec fn known_ensemble_view(e: KnownEnsemble) -> (u32, Seq<char>, Seq<(Seq<char>, u32, Seq<char>, u32)>) {
    (e.0, e.1@, e.2@.map_values(|s: KnownService| known_service_view(s)))
}

pub open spec fn sydney_services_spec() -> Seq<(Seq<char>, u32, Seq<char>, u32)> {
    seq![
        ("triple j"@, 0x1001u32, "PopMusic"@, 64u32),
        ("Double J"@, 0x1002u32, "PopMusic"@, 64u32),
        ("ABC NEWS"@, 0x1003u32, "News"@, 48u32),
        ("ABC Classic"@, 0x1004u32, "SeriousClassical"@, 80u32),
        ("ABC Kids"@, 0x1005u32, "ChildrensProgrammes"@, 48u32),
        ("triple j Unearthed"@, 0x1006u32, "PopMusic"@, 48u32),
        ("KIIS 1065"@, 0x2001u32, "PopMusic"@, 64u32),
        ("WSFM 101.7"@, 0x2002u32, "OldiesMusic"@, 64u32),
        ("Nova 96.9"@, 0x2003u32, "PopMusic"@, 64u32),
        ("Smooth 95.3"@, 0x2004u32, "EasyListening"@, 64u32),
        ("2GB"@, 0x2005u32, "Talk"@, 48u32),
        ("2Day FM"@, 0x2006u32, "PopMusic"@, 64u32),
    ]
}

pub open spec fn sydney_2_services_spec() -> Seq<(Seq<char>, u32, Seq<char>, u32)> {
    seq![
        ("SBS Radio 1"@, 0x3001u32, "Information"@, 48u32),
        ("SBS Radio 2"@, 0x3002u32, "Information"@, 48u32),
        ("SBS Chill"@, 0x3003u32, "EasyListening"@, 48u32),
        ("SBS PopAsia"@, 0x3004u32, "PopMusic"@, 48u32),
        ("Sky News"@, 0x3005u32, "News"@, 48u32),
        ("CADA"@, 0x3006u32, "PopMusic"@, 64u32),
    ]
}

pub open spec fn melbourne_services_spec() -> Seq<(Seq<char>, u32, Seq<char>, u32)> {
    seq![
        ("triple j"@, 0x4001u32, "PopMusic"@, 64u32),
        ("Double J"@, 0x4002u32, "PopMusic"@, 64u32),
        ("ABC Melbourne"@, 0x4003u32, "Talk"@, 48u32),
        ("ABC Classic"@, 0x4004u32, "SeriousClassical"@, 80u32),
        ("ABC NewsRadio"@, 0x4005u32, "News"@, 48u32),
        ("Fox FM"@, 0x4006u32, "PopMusic"@, 64u32),
        ("Gold 104.3"@, 0x4007u32, "OldiesMusic"@, 64u32),
        ("Nova 100"@, 0x4008u32, "PopMusic"@, 64u32),
        ("Smooth 91.5"@, 0x4009u32, "EasyListening"@, 64u32),
        ("3AW"@, 0x400Au32, "Talk"@, 48u32),
        ("KIIS 101.1"@, 0x400Bu32, "PopMusic"@, 64u32),
    ]
}

pub open spec fn brisbane_services_spec() -> Seq<(Seq<char>, u32, Seq<char>, u32)> {
    seq![
        ("triple j"@, 0x5001u32, "PopMusic"@, 64u32),
        ("ABC Brisbane"@, 0x5002u32, "Talk"@, 48u32),
        ("ABC Classic"@, 0x5003u32, "SeriousClassical"@, 80u32),
        ("Nova 106.9"@, 0x5004u32, "PopMusic"@, 64u32),
        ("B105"@, 0x5005u32, "PopMusic"@, 64u32),
        ("97.3FM"@, 0x5006u32, "PopMusic"@, 64u32),
        ("4KQ"@, 0x5007u32, "OldiesMusic"@, 64u32),
        ("Hit 105"@, 0x5008u32, "PopMusic"@, 64u32),
    ]
}

pub open spec fn adelaide_services_spec() -> Seq<(Seq<char>, u32, Seq<char>, u32)> {
    seq![
        ("triple j"@, 0x6001u32, "PopMusic"@, 64u32),
        ("ABC Adelaide"@, 0x6002u32, "Talk"@, 48u32),
        ("ABC Classic"@, 0x6003u32, "SeriousClassical"@, 80u32),
        ("SAFM"@, 0x6004u32, "PopMusic"@, 64u32),
        ("Mix 102.3"@, 0x6005u32, "PopMusic"@, 64u32),
        ("Nova 91.9"@, 0x6006u32, "PopMusic"@, 64u32),
        ("5AA"@, 0x6007u32, "Talk"@, 48u32),
    ]
}

pub open spec fn perth_services_spec() -> Seq<(Seq<char>, u32, Seq<char>, u32)> {
    seq![
        ("triple j"@, 0x7001u32, "PopMusic"@, 64u32),
        ("ABC Perth"@, 0x7002u32, "Talk"@, 48u32),
        ("ABC Classic"@, 0x7003u32, "SeriousClassical"@, 80u32),
        ("Nova 93.7"@, 0x7004u32, "PopMusic"@, 64u32),
        ("Mix 94.5"@, 0x7005u32, "PopMusic"@, 64u32),
        ("96FM"@, 0x7006u32, "RockMusic"@, 64u32),
        ("6PR"@, 0x7007u32, "Talk"@, 48u32),
    ]
}

/// Australian DAB+ ensembles (simulated data for known configurations):
/// centre frequency, ensemble label, and (label, service id, programme type,
/// bitrate) of each service.
pub open spec fn australian_ensembles_spec() -> Seq<(u32, Seq<char>, Seq<(Seq<char>, u32, Seq<char>, u32)>)> {
    seq![
        (202_928_000u32, "Sydney DAB+"@, sydney_services_spec()),
        (204_640_000u32, "Sydney DAB+ 2"@, sydney_2_services_spec()),
        (206_352_000u32, "Melbourne DAB+"@, melbourne_services_spec()),
        (208_064_000u32, "Brisbane DAB+"@, brisbane_services_spec()),
        (209_936_000u32, "Adelaide DAB+"@, adelaide_services_spec()),
        (211_648_000u32, "Perth DAB+"@, perth_services_spec()),
    ]
}

fn sydney_services() -> (v: Vec<KnownService>)
    ensures
        v@.map_values(|s: KnownService| known_service_view(s)) == sydney_services_spec(),
{
    let mut v: Vec<KnownService> = Vec::new();
    v.push(("triple j", 0x1001, "PopMusic", 64));
    v.push(("Double J", 0x1002, "PopMusic", 64));
    v.push(("ABC NEWS", 0x1003, "News", 48));
    v.push(("ABC Classic", 0x1004, "SeriousClassical", 80));
    v.push(("ABC Kids", 0x1005, "ChildrensProgrammes", 48));
    v.push(("triple j Unearthed", 0x1006, "PopMusic", 48));
    v.push(("KIIS 1065", 0x2001, "PopMusic", 64));
    v.push(("WSFM 101.7", 0x2002, "OldiesMusic", 64));
    v.push(("Nova 96.9", 0x2003, "PopMusic", 64));
    v.push(("Smooth 95.3", 0x2004, "EasyListening", 64));
    v.push(("2GB", 0x2005, "Talk", 48));
    v.push(("2Day FM", 0x2006, "PopMusic", 64));
    assert(v@.map_values(|s: KnownService| known_service_view(s)) =~= sydney_services_spec());
    v
}

fn sydney_2_services() -> (v: Vec<KnownService>)
    ensures
        v@.map_values(|s: KnownService| known_service_view(s)) == sydney_2_services_spec(),
{
    let mut v: Vec<KnownService> = Vec::new();
    v.push(("SBS Radio 1", 0x3001, "Information", 48));
    v.push(("SBS Radio 2", 0x3002, "Information", 48));
    v.push(("SBS Chill", 0x3003, "EasyListening", 48));
    v.push(("SBS PopAsia", 0x3004, "PopMusic", 48));
    v.push(("Sky News", 0x3005, "News", 48));
    v.push(("CADA", 0x3006, "PopMusic", 64));
    assert(v@.map_values(|s: KnownService| known_service_view(s)) =~= sydney_2_services_spec());
    v
}

fn melbourne_services() -> (v: Vec<KnownService>)
    ensures
        v@.map_values(|s: KnownService| known_service_view(s)) == melbourne_services_spec(),
{
    let mut v: Vec<KnownService> = Vec::new();
    v.push(("triple j", 0x4001, "PopMusic", 64));
    v.push(("Double J", 0x4002, "PopMusic", 64));
    v.push(("ABC Melbourne", 0x4003, "Talk", 48));
    v.push(("ABC Classic", 0x4004, "SeriousClassical", 80));
    v.push(("ABC NewsRadio", 0x4005, "News", 48));
    v.push(("Fox FM", 0x4006, "PopMusic", 64));
    v.push(("Gold 104.3", 0x4007, "OldiesMusic", 64));
    v.push(("Nova 100", 0x4008, "PopMusic", 64));
    v.push(("Smooth 91.5", 0x4009, "EasyListening", 64));
    v.push(("3AW", 0x400A, "Talk", 48));
    v.push(("KIIS 101.1", 0x400B, "PopMusic", 64));
    assert(v@.map_values(|s: KnownService| known_service_view(s)) =~= melbourne_services_spec());
    v
}

fn brisbane_services() -> (v: Vec<KnownService>)
    ensures
        v@.map_values(|s: KnownService| known_service_view(s)) == brisbane_services_spec(),
{
    let mut v: Vec<KnownService> = Vec::new();
    v.push(("triple j", 0x5001, "PopMusic", 64));
    v.push(("ABC Brisbane", 0x5002, "Talk", 48));
    v.push(("ABC Classic", 0x5003, "SeriousClassical", 80));
    v.push(("Nova 106.9", 0x5004, "PopMusic", 64));
    v.push(("B105", 0x5005, "PopMusic", 64));
    v.push(("97.3FM", 0x5006, "PopMusic", 64));
    v.push(("4KQ", 0x5007, "OldiesMusic", 64));
    v.push(("Hit 105", 0x5008, "PopMusic", 64));
    assert(v@.map_values(|s: KnownService| known_service_view(s)) =~= brisbane_services_spec());
    v
}

fn adelaide_services() -> (v: Vec<KnownService>)
    ensures
        v@.map_values(|s: KnownService| known_service_view(s)) == adelaide_services_spec(),
{
    let mut v: Vec<KnownService> = Vec::new();
    v.push(("triple j", 0x6001, "PopMusic", 64));
    v.push(("ABC Adelaide", 0x6002, "Talk", 48));
    v.push(("ABC Classic", 0x6003, "SeriousClassical", 80));
    v.push(("SAFM", 0x6004, "PopMusic", 64));
    v.push(("Mix 102.3", 0x6005, "PopMusic", 64));
    v.push(("Nova 91.9", 0x6006, "PopMusic", 64));
    v.push(("5AA", 0x6007, "Talk", 48));
    assert(v@.map_values(|s: KnownService| known_service_view(s)) =~= adelaide_services_spec());
    v
}

fn perth_services() -> (v: Vec<KnownService>)
    ensures
        v@.map_values(|s: KnownService| known_service_view(s)) == perth_services_spec(),
{
    let mut v: Vec<KnownService> = Vec::new();
    v.push(("triple j", 0x7001, "PopMusic", 64));
    v.push(("ABC Perth", 0x7002, "Talk", 48));
    v.push(("ABC Classic", 0x7003, "SeriousClassical", 80));
    v.push(("Nova 93.7", 0x7004, "PopMusic", 64));
    v.push(("Mix 94.5", 0x7005, "PopMusic", 64));
    v.push(("96FM", 0x7006, "RockMusic", 64));
    v.push(("6PR", 0x7007, "Talk", 48));
    assert(v@.map_values(|s: KnownService| known_service_view(s)) =~= perth_services_spec());
    v
}

/// Australian DAB+ ensembles (simulated data for known configurations)
/// In production, this is populated from actual FIG parsing
fn get_australian_ensembles() -> (ensembles: Vec<KnownEnsemble>)
    ensures
        ensembles@.len() == australian_ensembles_spec().len(),
        forall|i: int|
            0 <= i < ensembles@.len() ==> known_ensemble_view(#[trigger] ensembles@[i])
                == australian_ensembles_spec()[i],
{
    let mut ensembles: Vec<KnownEnsemble> = Vec::new();
    ensembles.push((202_928_000, "Sydney DAB+", sydney_services()));
    ensembles.push((204_640_000, "Sydney DAB+ 2", sydney_2_services()));
    ensembles.push((206_352_000, "Melbourne DAB+", melbourne_services()));
    ensembles.push((208_064_000, "Brisbane DAB+", brisbane_services()));
    ensembles.push((209_936_000, "Adelaide DAB+", adelaide_services()));
    ensembles.push((211_648_000, "Perth DAB+", perth_services()));
    assert(ensembles@.map_values(|e: KnownEnsemble| known_ensemble_view(e)) =~= australian_ensembles_spec());
    assert forall|i: int| 0 <= i < ensembles@.len() implies known_ensemble_view(#[trigger] ensembles@[i])
        == australian_ensembles_spec()[i] by {
        assert(ensembles@.map_values(|e: KnownEnsemble| known_ensemble_view(e))[i] == known_ensemble_view(ensembles@[i]));
    }
    ensembles
}

/// `info` describes service number `idx` of a known ensemble.
pub open spec fn service_info_matches(info: ServiceInfo, entry: (Seq<char>, u32, Seq<char>, u32), idx: int) -> bool {
    &&& info.service_id == entry.1
    &&& info.label@ == entry.0
    &&& info.program_type@ == entry.2
    &&& info.is_audio
    &&& info.sub_channel_id == idx as u8
    &&& info.bitrate == entry.3
    &&& info.protection_level == DEFAULT_PROTECTION_LEVEL
}

/// `info` describes the known ensemble `entry`.
pub open spec fn ensemble_info_matches(
    info: EnsembleInfo,
    entry: (u32, Seq<char>, Seq<(Seq<char>, u32, Seq<char>, u32)>),
) -> bool {
    &&& info.ensemble_id == (entry.0 / 1000) as u16
    &&& info.label@ == entry.1
    &&& info.country_id == AUSTRALIA_COUNTRY_ID
    &&& info.num_sub_channels == entry.2.len() as u8
    &&& info.services@.len() == entry.2.len()
    &&& forall|k: int| 0 <= k < entry.2.len() ==> service_info_matches(#[trigger] info.services@[k], entry.2[k], k)
}

/// Index of the first known ensemble at or after `i` within 100 kHz of `freq`.
pub open spec fn ensemble_index_from(freq: u32, i: nat) -> Option<nat>
    decreases australian_ensembles_spec().len() - i,
{
    if i >= australian_ensembles_spec().len() {
        None
    } else if near_frequency(freq, australian_ensembles_spec()[i as int].0) {
        Some(i)
    } else {
        ensemble_index_from(freq, i + 1)
    }
}

/// What `parse_ensemble` finds at `freq`: the first known ensemble within
/// 100 kHz, if any.
pub open spec fn ensemble_at(freq: u32) -> Option<nat> {
    ensemble_index_from(freq, 0)
}

/// The `ServiceInfo` records of a known ensemble's services.
fn service_infos_of(services: &Vec<KnownService>) -> (infos: Vec<ServiceInfo>)
    ensures
        infos@.len() == services@.len(),
        forall|k: int|
            0 <= k < services@.len() ==> service_info_matches(
                #[trigger] infos@[k],
                known_service_view(services@[k]),
                k,
            ),
{
    let mut infos: Vec<ServiceInfo> = Vec::new();
    let n = services.len();
    for idx in 0..n
        invariant
            n == services@.len(),
            infos@.len() == idx,
            forall|k: int|
                0 <= k < idx ==> service_info_matches(
                    #[trigger] infos@[k],
                    known_service_view(services@[k]),
                    k,
                ),
    {
        let (name, sid, pty, bitrate) = services[idx];
        infos.push(
            ServiceInfo {
                service_id: sid,
                label: String::from_str(name),
                program_type: String::from_str(pty),
                is_audio: true,
                sub_channel_id: idx as u8,
                bitrate,
                protection_level: DEFAULT_PROTECTION_LEVEL,  // EEP 3-A typical for DAB+
            },
        );
    }
    infos
}

/// Parse an ensemble from IQ data
/// In production, this performs full OFDM demodulation, FIC decoding,
/// and FIG parsing to extract ensemble and service information.
/// For development, returns simulated Australian ensemble data: the first
/// known ensemble within 100 kHz of the buffer's centre frequency.
pub fn parse_ensemble(iq_data: &IqBuffer) -> (r: Result<Option<EnsembleInfo>, DspError>)
    ensures
        ensemble_at(iq_data.center_freq) is Some ==> (r matches Ok(Some(info))
            && ensemble_info_matches(
            info,
            australian_ensembles_spec()[ensemble_at(iq_data.center_freq)->0 as int],
        )),
        ensemble_at(iq_data.center_freq) is None ==> r matches Ok(None),
{
    let freq = iq_data.center_freq;
    // Look up known ensemble for this frequency
    let ensembles = get_australian_ensembles();
    let n = ensembles.len();
    for i in 0..n
        invariant
            n == ensembles@.len(),
            n == australian_ensembles_spec().len(),
            forall|j: int|
                0 <= j < n ==> known_ensemble_view(#[trigger] ensembles@[j])
                    == australian_ensembles_spec()[j],
            freq == iq_data.center_freq,
            ensemble_at(freq) == ensemble_index_from(freq, i as nat),
    {
        let ens_freq = ensembles[i].0;
        let diff = if freq > ens_freq {
            freq - ens_freq
        } else {
            ens_freq - freq
        };
        assert(known_ensemble_view(ensembles@[i as int]) == australian_ensembles_spec()[i as int]);
        if diff < FREQUENCY_TOLERANCE_HZ {
            let service_infos = service_infos_of(&ensembles[i].2);
            let num_sub_channels = service_infos.len() as u8;
            let info = EnsembleInfo {
                ensemble_id: (ens_freq / 1000) as u16,
                label: String::from_str(ensembles[i].1),
                country_id: AUSTRALIA_COUNTRY_ID,  // Australia ITU country code
                num_sub_channels,
                services: service_infos,
            };
            assert(ensembles@[i as int].2@.map_values(|s: KnownService| known_service_view(s)).len()
                == ensembles@[i as int].2@.len());
            assert forall|k: int| 0 <= k < info.services@.len() implies service_info_matches(
                #[trigger] info.services@[k],
                australian_ensembles_spec()[i as int].2[k],
                k,
            ) by {
                assert(ensembles@[i as int].2@.map_values(|s: KnownService| known_service_view(s))[k]
                    == known_service_view(ensembles@[i as int].2@[k]));
            }
            assert(near_frequency(freq, australian_ensembles_spec()[i as int].0));
            assert(ensemble_at(freq) == Some(i as nat));
            assert(ensemble_info_matches(info, australian_ensembles_spec()[i as int]));
            return Ok(Some(info));
        }
    }
    Ok(None)
}

/// Parse FIG Type 0 - Multiplex Configuration Information
/// Handles sub-channel organization, service components, etc.
/// An empty FIG is refused; otherwise its bytes are handed back.
pub fn parse_fig0(data: &[u8]) -> (r: Result<Vec<u8>, DspError>)
    ensures
        data@.len() == 0 ==> r == Err::<Vec<u8>, DspError>(DspError::EmptyFig0),
        data@.len() > 0 ==> (r matches Ok(bytes) && bytes@ == data@),
{
    if data.len() == 0 {
        return Err(DspError::EmptyFig0);
    }
    // FIG 0/0 - Ensemble information
    // FIG 0/1 - Sub-channel organization
    // FIG 0/2 - Service organization
    // FIG 0/3 - Service component in packet mode
    // FIG 0/8 - Service component global definition
    // FIG 0/13 - User application information
    // FIG 0/17 - Programme type
    Ok(vstd::slice::slice_to_vec(data))
}

/// The label a FIG 1 carries: the bytes after the character flag field,
/// decoded as UTF-8 and trimmed.
pub open spec fn fig1_label(data: Seq<u8>) -> Seq<char> {
    trimmed(utf8_lossy_spec(data.drop_first()))
}

/// Parse FIG Type 1 - Labels (short form, 16 chars)
/// FIGs shorter than two bytes are refused. Every character set (EBU Latin,
/// UTF-8 or unknown) is read as UTF-8.
pub fn parse_fig1(data: &[u8]) -> (r: Result<String, DspError>)
    ensures
        data@.len() < 2 ==> r == Err::<String, DspError>(DspError::Fig1TooShort),
        data@.len() >= 2 ==> (r matches Ok(label) && label@ == fig1_label(data@)),
{
    if data.len() < 2 {
        return Err(DspError::Fig1TooShort);
    }
    // Character flag field + label characters
    let charset = (data[0] >> 4) & 0x0F;
    let label_bytes = vstd::slice::slice_subrange(data, 1, data.len());
    assert(label_bytes@ =~= data@.drop_first());
    let label = if charset == 0 {
        // EBU Latin character set
        label_text(label_bytes)
    } else if charset == 15 {
        // UTF-8
        label_text(label_bytes)
    } else {
        // Unknown character set: read as UTF-8
        label_text(label_bytes)
    };
    Ok(label)
}

} // verus!
