//! What an application asks to advertise, and what is handed to BlueZ for it.

use std::collections::{BTreeMap, BTreeSet};
use std::time::Duration;
use vstd::prelude::*;

verus! {

/// The kinds of record in an advertising payload that the library knows.
#[derive(Debug, Clone, Copy, PartialEq, Eq, Structural)]
pub enum AdType {
    Flags,
    CompleteServiceUuids16,
    CompleteServiceUuids128,
    ShortLocalName,
    LongLocalName,
    ServiceData16,
    Appearance,
    ManufacturerData,
}

impl AdType {
    /// The number that stands for the kind in a payload, as the Bluetooth SIG assigned it.
    pub open spec fn spec_code(self) -> u8 {
        match self {
            AdType::Flags => 0x01,
            AdType::CompleteServiceUuids16 => 0x03,
            AdType::CompleteServiceUuids128 => 0x07,
            AdType::ShortLocalName => 0x08,
            AdType::LongLocalName => 0x09,
            AdType::ServiceData16 => 0x16,
            AdType::Appearance => 0x19,
            AdType::ManufacturerData => 0xff,
        }
    }

    /// Returns the number that stands for the kind in a payload.
    #[verifier::when_used_as_spec(spec_code)]
    pub fn code(self) -> (r: u8)
        ensures
            r == self.spec_code(),
    {
        match self {
            AdType::Flags => 0x01,
            AdType::CompleteServiceUuids16 => 0x03,
            AdType::CompleteServiceUuids128 => 0x07,
            AdType::ShortLocalName => 0x08,
            AdType::LongLocalName => 0x09,
            AdType::ServiceData16 => 0x16,
            AdType::Appearance => 0x19,
            AdType::ManufacturerData => 0xff,
        }
    }
}

/// How a device lets itself be discovered.
#[derive(Debug, Clone, Copy, PartialEq, Eq, Structural)]
pub enum DiscoverMode {
    NonDiscoverable,
    Limited,
    General,
}

impl DiscoverMode {
    /// The two low bits of the flags byte that stand for the mode.
    pub open spec fn spec_code(self) -> u8 {
        match self {
            DiscoverMode::NonDiscoverable => 0,
            DiscoverMode::Limited => 1,
            DiscoverMode::General => 2,
        }
    }

    /// Returns the two low bits of the flags byte that stand for the mode.
    #[verifier::when_used_as_spec(spec_code)]
    pub fn code(self) -> (r: u8)
        ensures
            r == self.spec_code(),
    {
        match self {
            DiscoverMode::NonDiscoverable => 0,
            DiscoverMode::Limited => 1,
            DiscoverMode::General => 2,
        }
    }
}

/// Which devices may connect.
#[derive(Debug, Clone, Copy, PartialEq, Eq, Structural)]
pub enum ConnectMode {
    NonConnectable,
    Directed,
    Undirected,
}

/// How to advertise.
#[derive(Debug, Clone, Copy)]
pub struct AdvertisementParams {
    pub connect_mode: ConnectMode,
    pub interval_min: Option<Duration>,
    pub interval_max: Option<Duration>,
}

impl Default for AdvertisementParams {
    fn default() -> (r: Self)
        ensures
            r.connect_mode == ConnectMode::Directed,
            r.interval_min is None,
            r.interval_max is None,
    {
        Self { connect_mode: ConnectMode::Directed, interval_min: None, interval_max: None }
    }
}

/// What an application asks to advertise. Payloads are in the format of the Bluetooth core
/// specification: records that each start with a length.
#[derive(Debug)]
pub struct AdvertisementRequest {
    pub params: AdvertisementParams,
    pub payload: Vec<u8>,
    pub scan_response_payload: Option<Vec<u8>>,
}

/// What an application asks to advertise beside the services and the name of its device.
#[derive(Debug)]
pub struct ServiceAdvertisement {
    /// Whether clients may connect. It is not passed on: to a peripheral they always may.
    pub is_connectable: bool,
    pub is_discoverable: bool,
    pub manufacturer_data: BTreeMap<u16, Vec<u8>>,
}

/// The kind of advertising packet.
#[derive(Debug, Clone, Copy, PartialEq, Eq, Structural)]
pub enum AdvertisementType {
    Broadcast,
    Peripheral,
}

/// The features that BlueZ is asked to add to the packet by itself.
#[derive(Debug, Clone, Copy, PartialEq, Eq, Structural)]
pub struct SystemIncludes {
    pub appearance: bool,
    pub local_name: bool,
}

/// An advertisement as BlueZ takes it. UUIDs are 128-bit values.
#[derive(Debug)]
pub struct Advertisement {
    pub advertisement_type: AdvertisementType,
    pub service_uuids: BTreeSet<u128>,
    pub manufacturer_data: BTreeMap<u16, Vec<u8>>,
    pub service_data: BTreeMap<u128, Vec<u8>>,
    pub discoverable: Option<bool>,
    pub system_includes: SystemIncludes,
    pub local_name: Option<String>,
    pub appearance: Option<u16>,
    pub min_interval: Option<Duration>,
    pub max_interval: Option<Duration>,
}

/// An advertisement, with mathematical sets, maps and sequences in its fields.
#[verifier::ext_equal]
pub struct AdvertisementView {
    pub advertisement_type: AdvertisementType,
    pub service_uuids: Set<u128>,
    pub manufacturer_data: Map<u16, Seq<u8>>,
    pub service_data: Map<u128, Seq<u8>>,
    pub discoverable: Option<bool>,
    pub system_includes: SystemIncludes,
    pub local_name: Option<Seq<char>>,
    pub appearance: Option<u16>,
    pub min_interval: Option<Duration>,
    pub max_interval: Option<Duration>,
}

impl View for Advertisement {
    type V = AdvertisementView;

    open spec fn view(&self) -> AdvertisementView {
        AdvertisementView {
            advertisement_type: self.advertisement_type,
            service_uuids: self.service_uuids@,
            manufacturer_data: self.manufacturer_data@.map_values(|v: Vec<u8>| v@),
            service_data: self.service_data@.map_values(|v: Vec<u8>| v@),
            discoverable: self.discoverable,
            system_includes: self.system_includes,
            local_name: match self.local_name {
                Some(name) => Some(name@),
                None => None,
            },
            appearance: self.appearance,
            min_interval: self.min_interval,
            max_interval: self.max_interval,
        }
    }
}

/// The advertisement that says nothing.
pub open spec fn empty_advertisement() -> AdvertisementView {
    AdvertisementView {
        advertisement_type: AdvertisementType::Peripheral,
        service_uuids: Set::empty(),
        manufacturer_data: Map::empty(),
        service_data: Map::empty(),
        discoverable: None,
        system_includes: SystemIncludes { appearance: false, local_name: false },
        local_name: None,
        appearance: None,
        min_interval: None,
        max_interval: None,
    }
}

impl Default for Advertisement {
    fn default() -> (r: Self)
        ensures
            r@ == empty_advertisement(),
    {
        let r = Self {
            advertisement_type: AdvertisementType::Peripheral,
            service_uuids: BTreeSet::new(),
            manufacturer_data: BTreeMap::new(),
            service_data: BTreeMap::new(),
            discoverable: None,
            system_includes: SystemIncludes { appearance: false, local_name: false },
            local_name: None,
            appearance: None,
            min_interval: None,
            max_interval: None,
        };
        assert(r@ =~= empty_advertisement());
        r
    }
}

} // verus!
