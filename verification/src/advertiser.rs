//! Reads advertising payloads and turns them into what BlueZ takes.

use crate::advertisement::{
    empty_advertisement, AdType, Advertisement, AdvertisementParams, AdvertisementRequest,
    AdvertisementView, ConnectMode, DiscoverMode, ServiceAdvertisement, SystemIncludes,
};
use crate::byte_reader::{le_value, read_remainder, read_u16_failure, ByteReader};
use crate::device_ident::DeviceIdent;
use crate::err_util::{generic_err, Error};
use crate::event::{Backend, Event, SystemError};
use crate::uuid_util::{long_form, uuid_from_u16};
use std::collections::BTreeSet;
use std::string::FromUtf8Error;
use std::sync::Arc;
use vstd::prelude::*;
use vstd::string::StringExecFns;

verus! {

/// The bits of the flags byte that tell how a device lets itself be discovered.
pub const DISCOVER_MODE_MASK: u8 = 0b0000_0011;

/// The error of bytes that are no UTF-8.
#[verifier::external_type_specification]
#[verifier::external_body]
pub struct ExFromUtf8Error(FromUtf8Error);

/// The description, in words, of why `bytes` are no UTF-8, as the error of `String::from_utf8`
/// displays it.
pub uninterp spec fn utf8_failure(bytes: Seq<u8>) -> Seq<char>;

/// `String::from_utf8` gives the characters that the bytes encode, and fails exactly on bytes
/// that are no valid UTF-8. Its error describes why they are not: what it displays depends on
/// the bytes alone. Which words these are is not said.
pub assume_specification[ String::from_utf8 ](vec: Vec<u8>) -> (r: Result<String, FromUtf8Error>)
    ensures
        r is Ok <==> vstd::utf8::valid_utf8(vec@),
        r matches Ok(s) ==> s@ == vstd::utf8::decode_utf8(vec@),
        r matches Err(e) ==> forall|s: String| #[trigger]
            vstd::string::to_string_from_display_ensures(&e, s) ==> s@ == utf8_failure(vec@),
;

/// Starts and stops advertisements. `S` is the way to the event loop.
#[derive(Debug, Clone)]
pub struct BluerAdvertiser<S> {
    pub tx: S,
    pub service_uuids: Arc<BTreeSet<u128>>,
    pub ident: Arc<DeviceIdent>,
}

/// The advertisement of a device that tells its services and its name.
pub open spec fn service_advertisement(
    service_uuids: Set<u128>,
    name: Option<Seq<char>>,
    advertisement: ServiceAdvertisement,
) -> AdvertisementView {
    AdvertisementView {
        service_uuids,
        manufacturer_data: advertisement.manufacturer_data@.map_values(|v: Vec<u8>| v@),
        discoverable: Some(advertisement.is_discoverable),
        local_name: name,
        ..empty_advertisement()
    }
}

impl<S> BluerAdvertiser<S> {
    /// Returns what is to be sent by `tx` to start the advertisement that `request` asks for.
    /// A request that cannot be met goes the way of an advertisement that did not start.
    pub fn request_start<B: Backend>(&self, request: AdvertisementRequest) -> (r: Event<B>)
        ensures
            match r {
                Event::RequestAdvStart(adv) => convertible(request) && adv@ == converted(request),
                Event::OnAdvStartResult(Err(SystemError::Generic(e))) => !convertible(request)
                    && convert_error_is(request, e.message@),
                _ => false,
            },
    {
        match AdvertisementFactory::convert(request) {
            Ok(adv) => Event::RequestAdvStart(adv),
            Err(e) => Event::OnAdvStartResult(Err(SystemError::Generic(e))),
        }
    }

    /// Returns what is to be sent by `tx` to start an advertisement that tells the services of
    /// the device and its name.
    pub fn request_start_for_services<B: Backend>(
        &self,
        advertisement: ServiceAdvertisement,
    ) -> (r: Event<B>)
        ensures
            r matches Event::RequestAdvStart(adv) && adv@ == service_advertisement(
                self.service_uuids@,
                self.ident.name_view(),
                advertisement,
            ),
    {
        let local_name = match &self.ident.name {
            Some(name) => Some(name.clone()),
            None => None,
        };
        let ghost manufacturer_data = advertisement.manufacturer_data@;
        let mut adv = Advertisement::default();
        adv.service_uuids = (*self.service_uuids).clone();
        adv.manufacturer_data = advertisement.manufacturer_data;
        adv.discoverable = Some(advertisement.is_discoverable);
        adv.local_name = local_name;
        assert(adv@.manufacturer_data =~= manufacturer_data.map_values(|v: Vec<u8>| v@));
        Event::RequestAdvStart(adv)
    }

    /// Returns what is to be sent by `tx` to stop advertising.
    pub fn request_stop<B: Backend>(&self) -> (r: Event<B>)
        ensures
            r == Event::<B>::RequestAdvStop,
    {
        Event::RequestAdvStop
    }
}

/// A record of an advertising payload.
#[derive(Debug)]
pub struct AdvertisementRecord {
    pub ad_type: u8,
    pub data: Vec<u8>,
}

/// A record, with a sequence in place of the vector.
pub struct RecordView {
    pub ad_type: u8,
    pub data: Seq<u8>,
}

impl View for AdvertisementRecord {
    type V = RecordView;

    open spec fn view(&self) -> RecordView {
        RecordView { ad_type: self.ad_type, data: self.data@ }
    }
}

/// A whole record stands at the start of `bytes`: a length of at least 1, and as many bytes
/// after it.
pub open spec fn has_record(bytes: Seq<u8>) -> bool {
    bytes.len() >= 1 && bytes[0] >= 1 && bytes.len() >= 1 + bytes[0]
}

/// The record at the start of `bytes`. Its first byte after the length is the type.
pub open spec fn first_record(bytes: Seq<u8>) -> RecordView {
    RecordView { ad_type: bytes[1], data: bytes.subrange(2, 1 + bytes[0]) }
}

/// The records of a payload. They end at a length of 0, or where a record is cut off.
pub open spec fn records(bytes: Seq<u8>) -> Seq<RecordView>
    decreases bytes.len(),
{
    if has_record(bytes) {
        seq![first_record(bytes)] + records(bytes.skip(1 + bytes[0]))
    } else {
        Seq::empty()
    }
}

/// Goes through the records of a payload.
pub struct AdvertisementIter<'a> {
    cursor: ByteReader<'a>,
}

impl<'a> AdvertisementIter<'a> {
    pub closed spec fn wf(self) -> bool {
        self.cursor.wf()
    }

    /// The part of the payload that is left.
    pub closed spec fn rest(self) -> Seq<u8> {
        self.cursor.rest()
    }

    pub fn new(data: &'a [u8]) -> (r: Self)
        ensures
            r.wf(),
            r.rest() == data@,
    {
        Self { cursor: ByteReader::new(data) }
    }

    /// Reads the next record, if a whole one is left. A length of 0 is gone past; a record
    /// that is cut off leaves nothing.
    pub fn next(&mut self) -> (r: Option<AdvertisementRecord>)
        requires
            old(self).wf(),
        ensures
            final(self).wf(),
            r is Some <==> has_record(old(self).rest()),
            r matches Some(record) ==> record@ == first_record(old(self).rest()),
            final(self).rest() == (if has_record(old(self).rest()) {
                old(self).rest().skip(1 + old(self).rest()[0])
            } else if old(self).rest().len() >= 1 && old(self).rest()[0] == 0 {
                old(self).rest().skip(1)
            } else {
                Seq::empty()
            }),
    {
        let ghost bytes = self.rest();
        let length = match self.cursor.read_u8() {
            Ok(v) => v,
            Err(_) => {
                return None;
            },
        };
        if length < 1 {
            return None;
        }
        let ad_type = match self.cursor.read_u8() {
            Ok(v) => v,
            Err(_) => {
                return None;
            },
        };
        assert(bytes.skip(1).skip(1) =~= bytes.skip(2));
        let data = match self.cursor.read_exact((length - 1) as usize) {
            Some(v) => v,
            None => {
                return None;
            },
        };
        proof {
            assert(bytes.skip(2).skip(length - 1) =~= bytes.skip(1 + length));
            assert(bytes.skip(2).take(length - 1) =~= bytes.subrange(2, 1 + length));
        }
        Some(AdvertisementRecord { ad_type, data })
    }
}

/// Why a record is refused. Where bytes could not be read or decoded, they are kept.
pub enum RecordError {
    FlagsMissingData,
    InvalidLocalName(Seq<u8>),
    InvalidAppearance(Seq<u8>),
    InvalidManufacturerId(Seq<u8>),
    InvalidServiceId(Seq<u8>),
}

impl RecordError {
    /// The message for this error. Where it goes back to a failed read or decoding, the words
    /// of that failure follow.
    pub open spec fn message(self) -> Seq<char> {
        match self {
            RecordError::FlagsMissingData => "Flags missing data!"@,
            RecordError::InvalidLocalName(bytes) => "invalid local name: "@ + utf8_failure(bytes),
            RecordError::InvalidAppearance(bytes) => "invalid appearance: "@ + read_u16_failure(
                bytes,
            ),
            RecordError::InvalidManufacturerId(bytes) => "invalid manufacturer id: "@
                + read_u16_failure(bytes),
            RecordError::InvalidServiceId(bytes) => "invalid service id: "@ + read_u16_failure(
                bytes,
            ),
        }
    }
}

/// The record names the device.
pub open spec fn is_local_name(record: RecordView) -> bool {
    record.ad_type == AdType::ShortLocalName.code() || record.ad_type
        == AdType::LongLocalName.code()
}

/// Why `record` is refused, if it is.
pub open spec fn record_error(record: RecordView) -> Option<RecordError> {
    if record.ad_type == AdType::Flags.code() && record.data.len() == 0 {
        Some(RecordError::FlagsMissingData)
    } else if is_local_name(record) && !vstd::utf8::valid_utf8(record.data) {
        Some(RecordError::InvalidLocalName(record.data))
    } else if record.ad_type == AdType::Appearance.code() && record.data.len() < 2 {
        Some(RecordError::InvalidAppearance(record.data))
    } else if record.ad_type == AdType::ManufacturerData.code() && record.data.len() < 2 {
        Some(RecordError::InvalidManufacturerId(record.data))
    } else if record.ad_type == AdType::ServiceData16.code() && record.data.len() < 2 {
        Some(RecordError::InvalidServiceId(record.data))
    } else {
        None
    }
}

/// The 16-bit number at the start of `data`.
pub open spec fn leading_u16(data: Seq<u8>) -> u16 {
    le_value(data.take(2)) as u16
}

/// The 128-bit number at the start of `data`.
pub open spec fn leading_u128(data: Seq<u8>) -> u128 {
    le_value(data.take(16)) as u128
}

/// The UUIDs in a list of short forms. An odd byte at the end counts for nothing.
pub open spec fn short_uuids(data: Seq<u8>) -> Set<u128>
    decreases data.len(),
{
    if data.len() < 2 {
        Set::empty()
    } else {
        short_uuids(data.skip(2)).insert(long_form(leading_u16(data)))
    }
}

/// The UUIDs in a list of long forms. Bytes at the end that make up no UUID count for nothing.
pub open spec fn long_uuids(data: Seq<u8>) -> Set<u128>
    decreases data.len(),
{
    if data.len() < 16 {
        Set::empty()
    } else {
        long_uuids(data.skip(16)).insert(leading_u128(data))
    }
}

/// What becomes of the advertisement `adv` by a record that is not refused.
pub open spec fn apply_record(adv: AdvertisementView, record: RecordView) -> AdvertisementView {
    let data = record.data;
    if record.ad_type == AdType::Flags.code() {
        AdvertisementView {
            discoverable: Some(
                data[0] & DISCOVER_MODE_MASK == DiscoverMode::General.code(),
            ),
            ..adv
        }
    } else if is_local_name(record) {
        AdvertisementView {
            local_name: match adv.local_name {
                Some(name) => Some(name),
                None => Some(vstd::utf8::decode_utf8(data)),
            },
            system_includes: SystemIncludes {
                local_name: true,
                ..adv.system_includes
            },
            ..adv
        }
    } else if record.ad_type == AdType::Appearance.code() {
        AdvertisementView {
            appearance: Some(leading_u16(data)),
            system_includes: SystemIncludes {
                appearance: true,
                ..adv.system_includes
            },
            ..adv
        }
    } else if record.ad_type == AdType::ManufacturerData.code() {
        AdvertisementView {
            manufacturer_data: adv.manufacturer_data.insert(leading_u16(data), data.skip(2)),
            ..adv
        }
    } else if record.ad_type == AdType::ServiceData16.code() {
        AdvertisementView {
            service_data: adv.service_data.insert(
                long_form(leading_u16(data)),
                data.skip(2),
            ),
            ..adv
        }
    } else if record.ad_type == AdType::CompleteServiceUuids16.code() {
        AdvertisementView {
            service_uuids: adv.service_uuids.union(short_uuids(data)),
            ..adv
        }
    } else if record.ad_type == AdType::CompleteServiceUuids128.code() {
        AdvertisementView { service_uuids: adv.service_uuids.union(long_uuids(data)), ..adv }
    } else {
        adv
    }
}

/// No record is refused.
pub open spec fn no_errors(rs: Seq<RecordView>) -> bool {
    forall|i: int| 0 <= i < rs.len() ==> record_error(#[trigger] rs[i]) is None
}

/// What becomes of the advertisement `adv` by one record after the other.
pub open spec fn apply_records(adv: AdvertisementView, rs: Seq<RecordView>) -> AdvertisementView
    decreases rs.len(),
{
    if rs.len() == 0 {
        adv
    } else {
        apply_record(apply_records(adv, rs.drop_last()), rs.last())
    }
}

/// Record `k` is the first one that is refused, and `message` tells why.
pub open spec fn refused_at(rs: Seq<RecordView>, k: int, message: Seq<char>) -> bool {
    &&& 0 <= k < rs.len()
    &&& no_errors(rs.take(k))
    &&& record_error(rs[k]) matches Some(error) && message == error.message()
}

/// The library knows what to do with records of this type.
pub open spec fn is_known(ad_type: u8) -> bool {
    ||| ad_type == AdType::Flags.code()
    ||| ad_type == AdType::CompleteServiceUuids16.code()
    ||| ad_type == AdType::CompleteServiceUuids128.code()
    ||| ad_type == AdType::ShortLocalName.code()
    ||| ad_type == AdType::LongLocalName.code()
    ||| ad_type == AdType::ServiceData16.code()
    ||| ad_type == AdType::Appearance.code()
    ||| ad_type == AdType::ManufacturerData.code()
}

/// The types that are not known among those of `rs`, in their order, up to the first record that
/// is refused.
pub open spec fn unknown_types(rs: Seq<RecordView>) -> Seq<u8>
    decreases rs.len(),
{
    if rs.len() == 0 || record_error(rs[0]) is Some {
        Seq::empty()
    } else if is_known(rs[0].ad_type) {
        unknown_types(rs.drop_first())
    } else {
        seq![rs[0].ad_type] + unknown_types(rs.drop_first())
    }
}

/// The words for a connect mode that is not supported.
pub open spec fn connect_mode_message(mode: ConnectMode) -> Seq<char> {
    match mode {
        ConnectMode::NonConnectable => "Unsupported connect_mode=NonConnectable"@,
        ConnectMode::Directed => "Unsupported connect_mode=Directed"@,
        ConnectMode::Undirected => "Unsupported connect_mode=Undirected"@,
    }
}

/// The advertisement that a request asks for, before its payload is read.
pub open spec fn base_advertisement(params: AdvertisementParams) -> AdvertisementView {
    AdvertisementView {
        min_interval: params.interval_min,
        max_interval: params.interval_max,
        ..empty_advertisement()
    }
}

/// The advertisement that a request asks for.
pub open spec fn converted(request: AdvertisementRequest) -> AdvertisementView {
    apply_records(base_advertisement(request.params), records(request.payload@))
}

/// The request can be met.
pub open spec fn convertible(request: AdvertisementRequest) -> bool {
    &&& request.scan_response_payload is None
    &&& request.params.connect_mode == ConnectMode::Directed
    &&& no_errors(records(request.payload@))
}

/// `message` is the error for a request that cannot be met: a scan response is refused before
/// the connect mode is looked at, and that before the payload.
pub open spec fn convert_error_is(request: AdvertisementRequest, message: Seq<char>) -> bool {
    if request.scan_response_payload is Some {
        message == "Scan response payload is not supported!"@
    } else if request.params.connect_mode != ConnectMode::Directed {
        message == connect_mode_message(request.params.connect_mode)
    } else {
        exists|k: int| #[trigger] refused_at(records(request.payload@), k, message)
    }
}

/// Builds an advertisement out of a request.
pub struct AdvertisementFactory {
    output: Advertisement,
}

impl AdvertisementFactory {
    /// The advertisement as far as it is built.
    pub closed spec fn output(self) -> AdvertisementView {
        self.output@
    }

    /// A factory that has taken in nothing yet.
    pub fn new() -> (r: Self)
        ensures
            r.output() == empty_advertisement(),
    {
        Self { output: Default::default() }
    }

    /// Hands out the advertisement as far as it is built.
    pub fn into_output(self) -> (r: Advertisement)
        ensures
            r@ == self.output(),
    {
        self.output
    }

    /// Builds the advertisement that `request` asks for.
    pub fn convert(request: AdvertisementRequest) -> (res: Result<Advertisement, Error>)
        ensures
            res is Ok <==> convertible(request),
            match res {
                Ok(adv) => adv@ == converted(request),
                Err(e) => convert_error_is(request, e.message@),
            },
    {
        if request.scan_response_payload.is_some() {
            return Err(generic_err("Scan response payload is not supported!"));
        }
        let mut me = Self::new();
        match me.process_params(request.params) {
            Ok(()) => {},
            Err(e) => {
                return Err(e);
            },
        }
        match me.process_payload(request.payload.as_slice()) {
            Ok(()) => {},
            Err(e) => {
                return Err(e);
            },
        }
        Ok(me.into_output())
    }

    /// The types of the records that conversion of `request` comes upon and does not know, in
    /// their order. A request that is refused before its payload is read has none.
    pub fn unknown_ad_types(request: &AdvertisementRequest) -> (r: Vec<u8>)
        ensures
            r@ == (if request.scan_response_payload is None && request.params.connect_mode
                == ConnectMode::Directed {
                unknown_types(records(request.payload@))
            } else {
                Seq::empty()
            }),
    {
        let mut types: Vec<u8> = Vec::new();
        let mut me = Self::new();
        if request.scan_response_payload.is_some() || me.process_params(request.params).is_err() {
            return types;
        }
        let mut iter = AdvertisementIter::new(request.payload.as_slice());
        let ghost wanted = unknown_types(records(request.payload@));
        assert(types@ + wanted =~= wanted);
        loop
            invariant
                iter.wf(),
                types@ + unknown_types(records(iter.rest())) == wanted,
                wanted == unknown_types(records(request.payload@)),
                request.scan_response_payload is None,
                request.params.connect_mode == ConnectMode::Directed,
            decreases iter.rest().len(),
        {
            let ghost rest = iter.rest();
            let ghost so_far = types@;
            match iter.next() {
                None => {
                    assert(types@ =~= wanted);
                    return types;
                },
                Some(next) => {
                    let ad_type = next.ad_type;
                    assert(records(rest).drop_first() =~= records(iter.rest()));
                    if me.process_ad_record(next).is_err() {
                        assert(types@ =~= wanted);
                        return types;
                    }
                    if !is_known_type(ad_type) {
                        types.push(ad_type);
                    }
                    assert(types@ + unknown_types(records(iter.rest())) =~= so_far + unknown_types(
                        records(rest),
                    ));
                },
            }
        }
    }

    /// Takes in the parameters of a request.
    pub fn process_params(&mut self, params: AdvertisementParams) -> (res: Result<(), Error>)
        ensures
            match res {
                Ok(()) => {
                    &&& params.connect_mode == ConnectMode::Directed
                    &&& final(self).output() == (AdvertisementView {
                        min_interval: params.interval_min,
                        max_interval: params.interval_max,
                        ..old(self).output()
                    })
                },
                Err(e) => {
                    &&& params.connect_mode != ConnectMode::Directed
                    &&& e.message@ == connect_mode_message(params.connect_mode)
                    &&& final(self).output() == old(self).output()
                },
            },
    {
        match params.connect_mode {
            ConnectMode::NonConnectable => {
                return Err(generic_err("Unsupported connect_mode=NonConnectable"));
            },
            ConnectMode::Undirected => {
                return Err(generic_err("Unsupported connect_mode=Undirected"));
            },
            ConnectMode::Directed => {},
        }
        self.output.min_interval = params.interval_min;
        self.output.max_interval = params.interval_max;
        Ok(())
    }

    /// Takes in the records of a payload, up to the first that is refused.
    pub fn process_payload(&mut self, payload: &[u8]) -> (res: Result<(), Error>)
        ensures
            match res {
                Ok(()) => {
                    &&& no_errors(records(payload@))
                    &&& final(self).output() == apply_records(
                        old(self).output(),
                        records(payload@),
                    )
                },
                Err(e) => exists|k: int|
                    {
                        &&& #[trigger] refused_at(records(payload@), k, e.message@)
                        &&& final(self).output() == apply_records(
                            old(self).output(),
                            records(payload@).take(k),
                        )
                    },
            },
    {
        let mut iter = AdvertisementIter::new(payload);
        let ghost all = records(payload@);
        let ghost mut count: int = 0;
        let ghost before = self.output();
        proof {
            assert(all.skip(0) =~= all);
        }
        loop
            invariant
                iter.wf(),
                all == records(payload@),
                0 <= count <= all.len(),
                all.skip(count) == records(iter.rest()),
                no_errors(all.take(count)),
                self.output() == apply_records(before, all.take(count)),
                before == old(self).output(),
            decreases iter.rest().len(),
        {
            let ghost rest = iter.rest();
            match iter.next() {
                None => {
                    assert(all.take(count) =~= all);
                    return Ok(());
                },
                Some(next) => {
                    proof {
                        assert(records(rest) == seq![next@] + records(iter.rest()));
                        assert(all.skip(count).len() > 0);
                        assert(all[count] == all.skip(count)[0]);
                        assert(all[count] == next@);
                        assert(all.take(count + 1).drop_last() =~= all.take(count));
                        assert(all.skip(count + 1) =~= all.skip(count).drop_first());
                        assert(records(rest).drop_first() =~= records(iter.rest()));
                    }
                    match self.process_ad_record(next) {
                        Ok(()) => {},
                        Err(e) => {
                            assert(refused_at(all, count, e.message@));
                            return Err(e);
                        },
                    }
                    proof {
                        count = count + 1;
                    }
                },
            }
        }
    }

    /// Takes in one record. A record of a kind that is not known changes nothing.
    pub fn process_ad_record(&mut self, record: AdvertisementRecord) -> (res: Result<(), Error>)
        ensures
            match res {
                Ok(()) => record_error(record@) is None && final(self).output() == apply_record(
                    old(self).output(),
                    record@,
                ),
                Err(e) => {
                    &&& record_error(record@) matches Some(error) && e.message@ == error.message()
                    &&& final(self).output() == old(self).output()
                },
            },
    {
        let ghost before = self.output@;
        let ghost wanted = apply_record(before, record@);
        let t = record.ad_type;
        if t == AdType::Flags.code() {
            if record.data.len() == 0 {
                return Err(generic_err("Flags missing data!"));
            }
            let flags = record.data[0];
            let is_discoverable = flags & DISCOVER_MODE_MASK == DiscoverMode::General.code();
            self.output.discoverable = Some(is_discoverable);
        } else if t == AdType::ShortLocalName.code() || t == AdType::LongLocalName.code() {
            let name = match String::from_utf8(record.data) {
                Ok(name) => name,
                Err(e) => {
                    return Err(detailed_err("invalid local name: ", e.to_string()));
                },
            };
            self.output.local_name.get_or_insert(name);
            self.output.system_includes.local_name = true;
        } else if t == AdType::Appearance.code() {
            let mut cursor = ByteReader::new(record.data.as_slice());
            let appearance = match cursor.read_u16() {
                Ok(v) => v,
                Err(e) => {
                    return Err(detailed_err("invalid appearance: ", e.to_string()));
                },
            };
            self.output.appearance = Some(appearance);
            self.output.system_includes.appearance = true;
        } else if t == AdType::ManufacturerData.code() {
            let mut cursor = ByteReader::new(record.data.as_slice());
            let manufacturer_id = match cursor.read_u16() {
                Ok(v) => v,
                Err(e) => {
                    return Err(detailed_err("invalid manufacturer id: ", e.to_string()));
                },
            };
            self.output.manufacturer_data.insert(manufacturer_id, read_remainder(cursor));
            assert(self.output@.manufacturer_data =~= wanted.manufacturer_data);
        } else if t == AdType::ServiceData16.code() {
            let mut cursor = ByteReader::new(record.data.as_slice());
            let service_uuid = match cursor.read_u16() {
                Ok(v) => v,
                Err(e) => {
                    return Err(detailed_err("invalid service id: ", e.to_string()));
                },
            };
            self.output.service_data.insert(uuid_from_u16(service_uuid), read_remainder(cursor));
            assert(self.output@.service_data =~= wanted.service_data);
        } else if t == AdType::CompleteServiceUuids16.code() {
            self.insert_short_uuids(record.data.as_slice());
        } else if t == AdType::CompleteServiceUuids128.code() {
            self.insert_long_uuids(record.data.as_slice());
        }
        assert(self.output@ =~= wanted);
        Ok(())
    }

    /// Adds the UUIDs in a list of short forms.
    fn insert_short_uuids(&mut self, data: &[u8])
        ensures
            final(self).output() == (AdvertisementView {
                service_uuids: old(self).output().service_uuids.union(short_uuids(data@)),
                ..old(self).output()
            }),
    {
        let mut cursor = ByteReader::new(data);
        let ghost before = self.output@;
        let ghost wanted = before.service_uuids.union(short_uuids(data@));
        let mut more = true;
        while more
            invariant
                cursor.wf(),
                self.output@ == (AdvertisementView {
                    service_uuids: self.output@.service_uuids,
                    ..before
                }),
                self.output@.service_uuids.union(short_uuids(cursor.rest())) == wanted,
                !more ==> cursor.rest().len() < 2,
            decreases cursor.rest().len() + (if more { 1int } else { 0 }),
        {
            let ghost rest = cursor.rest();
            let ghost so_far = self.output@.service_uuids;
            match cursor.read_u16() {
                Ok(uuid) => {
                    let long = uuid_from_u16(uuid);
                    self.output.service_uuids.insert(long);
                    assert(so_far.insert(long).union(short_uuids(rest.skip(2))) =~= so_far.union(
                        short_uuids(rest),
                    ));
                },
                Err(_) => {
                    more = false;
                },
            }
        }
        assert(self.output@.service_uuids =~= wanted);
    }

    /// Adds the UUIDs in a list of long forms.
    fn insert_long_uuids(&mut self, data: &[u8])
        ensures
            final(self).output() == (AdvertisementView {
                service_uuids: old(self).output().service_uuids.union(long_uuids(data@)),
                ..old(self).output()
            }),
    {
        let mut cursor = ByteReader::new(data);
        let ghost before = self.output@;
        let ghost wanted = before.service_uuids.union(long_uuids(data@));
        let mut more = true;
        while more
            invariant
                cursor.wf(),
                self.output@ == (AdvertisementView {
                    service_uuids: self.output@.service_uuids,
                    ..before
                }),
                self.output@.service_uuids.union(long_uuids(cursor.rest())) == wanted,
                !more ==> cursor.rest().len() < 16,
            decreases cursor.rest().len() + (if more { 1int } else { 0 }),
        {
            let ghost rest = cursor.rest();
            let ghost so_far = self.output@.service_uuids;
            match cursor.read_u128() {
                Ok(uuid) => {
                    self.output.service_uuids.insert(uuid);
                    assert(so_far.insert(uuid).union(long_uuids(rest.skip(16))) =~= so_far.union(
                        long_uuids(rest),
                    ));
                },
                Err(_) => {
                    more = false;
                },
            }
        }
        assert(self.output@.service_uuids =~= wanted);
    }
}

/// Tells whether the library knows what to do with records of this type.
fn is_known_type(ad_type: u8) -> (r: bool)
    ensures
        r == is_known(ad_type),
{
    ad_type == AdType::Flags.code() || ad_type == AdType::CompleteServiceUuids16.code() || ad_type
        == AdType::CompleteServiceUuids128.code() || ad_type == AdType::ShortLocalName.code()
        || ad_type == AdType::LongLocalName.code() || ad_type == AdType::ServiceData16.code()
        || ad_type == AdType::Appearance.code() || ad_type == AdType::ManufacturerData.code()
}

/// An error whose message goes on with the words of another failure.
pub fn detailed_err(what: &str, detail: String) -> (e: Error)
    ensures
        e.message@ == what@ + detail@,
{
    let message = what.to_owned().concat(detail.as_str());
    generic_err(message.as_str())
}

/// The bytes of a record in a payload: its length, its type and its data.
pub open spec fn encode_record(record: RecordView) -> Seq<u8> {
    seq![(1 + record.data.len()) as u8, record.ad_type] + record.data
}

/// The bytes of records, one after the other.
pub open spec fn encode_records(rs: Seq<RecordView>) -> Seq<u8>
    decreases rs.len(),
{
    if rs.len() == 0 {
        Seq::empty()
    } else {
        encode_record(rs[0]) + encode_records(rs.drop_first())
    }
}

/// What was written into a payload is read out of it: records whose length fits into its byte
/// come back in their order, and what follows them is read for itself.
pub proof fn law_records_round_trip(rs: Seq<RecordView>, tail: Seq<u8>)
    requires
        forall|i: int| 0 <= i < rs.len() ==> (#[trigger] rs[i]).data.len() < 255,
    ensures
        records(encode_records(rs) + tail) == rs + records(tail),
    decreases rs.len(),
{
    if rs.len() == 0 {
        assert(encode_records(rs) + tail =~= tail);
        assert(rs + records(tail) =~= records(tail));
    } else {
        let rest = rs.drop_first();
        assert forall|i: int| 0 <= i < rest.len() implies #[trigger] rest[i] == rs[i + 1] by {}
        law_records_round_trip(rest, tail);
        let bytes = encode_records(rs) + tail;
        let head = encode_record(rs[0]);
        let after = encode_records(rest) + tail;
        assert(bytes =~= head + after);
        assert(bytes[0] == 1 + rs[0].data.len());
        assert(bytes.skip(1 + bytes[0]) =~= after);
        assert(first_record(bytes).data =~= rs[0].data);
        assert(rs + records(tail) =~= seq![rs[0]] + (rest + records(tail)));
    }
}

/// A payload that holds records and nothing else gives back these records.
pub proof fn law_payload_read_back(rs: Seq<RecordView>)
    requires
        forall|i: int| 0 <= i < rs.len() ==> (#[trigger] rs[i]).data.len() < 255,
    ensures
        records(encode_records(rs)) == rs,
{
    law_records_round_trip(rs, Seq::empty());
    assert(encode_records(rs) + Seq::<u8>::empty() =~= encode_records(rs));
    assert(rs + records(Seq::empty()) =~= rs);
}

/// A payload ends at a length of 0: what follows it is not read.
pub proof fn law_zero_length_ends_payload(rs: Seq<RecordView>, padding: Seq<u8>)
    requires
        forall|i: int| 0 <= i < rs.len() ==> (#[trigger] rs[i]).data.len() < 255,
    ensures
        records(encode_records(rs) + (seq![0u8] + padding)) == rs,
{
    law_records_round_trip(rs, seq![0u8] + padding);
    assert(records(seq![0u8] + padding) =~= Seq::empty());
    assert(rs + Seq::<RecordView>::empty() =~= rs);
}

/// Records of types that are not known are never refused, and change nothing.
pub proof fn law_unknown_records_ignored(adv: AdvertisementView, record: RecordView)
    requires
        !is_known(record.ad_type),
    ensures
        record_error(record) is None,
        apply_record(adv, record) == adv,
{
}

/// Whatever a payload holds, it leaves the kind of packet and the intervals as they were, keeps
/// a name that is there already, and takes away no service and no data.
pub proof fn law_payload_only_adds(adv: AdvertisementView, rs: Seq<RecordView>)
    ensures
        ({
            let after = apply_records(adv, rs);
            &&& after.advertisement_type == adv.advertisement_type
            &&& after.min_interval == adv.min_interval
            &&& after.max_interval == adv.max_interval
            &&& adv.local_name is Some ==> after.local_name == adv.local_name
            &&& adv.discoverable is Some ==> after.discoverable is Some
            &&& adv.appearance is Some ==> after.appearance is Some
            &&& adv.service_uuids.subset_of(after.service_uuids)
            &&& adv.manufacturer_data.dom().subset_of(after.manufacturer_data.dom())
            &&& adv.service_data.dom().subset_of(after.service_data.dom())
        }),
    decreases rs.len(),
{
    if rs.len() > 0 {
        law_payload_only_adds(adv, rs.drop_last());
    }
}

/// The features that BlueZ is asked to add are those that a payload gives values for: a name is
/// there exactly if BlueZ is to add it, and so is an appearance.
pub proof fn law_includes_follow_values(params: AdvertisementParams, rs: Seq<RecordView>)
    ensures
        ({
            let adv = apply_records(base_advertisement(params), rs);
            &&& adv.system_includes.local_name <==> adv.local_name is Some
            &&& adv.system_includes.appearance <==> adv.appearance is Some
        }),
    decreases rs.len(),
{
    if rs.len() > 0 {
        law_includes_follow_values(params, rs.drop_last());
    }
}

/// Manufacturer data is advertised under the number that comes before it, low byte first. It
/// takes the place of what was there under that number, and leaves other data alone.
pub proof fn law_manufacturer_data(adv: AdvertisementView, low: u8, high: u8, data: Seq<u8>)
    ensures
        ({
            let record = RecordView {
                ad_type: AdType::ManufacturerData.code(),
                data: seq![low, high] + data,
            };
            &&& record_error(record) is None
            &&& apply_record(adv, record) == AdvertisementView {
                manufacturer_data: adv.manufacturer_data.insert((low + 256 * high) as u16, data),
                ..adv
            }
        }),
{
    let whole = seq![low, high] + data;
    assert(whole.take(2) =~= seq![low, high]);
    assert(whole.skip(2) =~= data);
    lemma_le_value_of_two(low, high);
}

/// Service data is advertised under the UUID whose short form comes before it, low byte first.
pub proof fn law_service_data(adv: AdvertisementView, low: u8, high: u8, data: Seq<u8>)
    ensures
        ({
            let record = RecordView {
                ad_type: AdType::ServiceData16.code(),
                data: seq![low, high] + data,
            };
            &&& record_error(record) is None
            &&& apply_record(adv, record) == AdvertisementView {
                service_data: adv.service_data.insert(long_form((low + 256 * high) as u16), data),
                ..adv
            }
        }),
{
    let whole = seq![low, high] + data;
    assert(whole.take(2) =~= seq![low, high]);
    assert(whole.skip(2) =~= data);
    lemma_le_value_of_two(low, high);
}

pub proof fn lemma_le_value_of_two(low: u8, high: u8)
    ensures
        le_value(seq![low, high]) == low + 256 * high,
{
    reveal_with_fuel(le_value, 3);
    let both = seq![low, high];
    assert(both.drop_first() =~= seq![high]);
    assert(seq![high].drop_first() =~= Seq::empty());
}

/// The modes that a flags byte stands for: a device is advertised as discoverable exactly in
/// the general mode, whatever the other bits of the byte are.
pub proof fn law_flags(adv: AdvertisementView, flags: u8, mode: DiscoverMode, more: Seq<u8>)
    requires
        flags & DISCOVER_MODE_MASK == mode.code(),
    ensures
        ({
            let record = RecordView { ad_type: AdType::Flags.code(), data: seq![flags] + more };
            &&& record_error(record) is None
            &&& apply_record(adv, record) == AdvertisementView {
                discoverable: Some(mode == DiscoverMode::General),
                ..adv
            }
        }),
{
}

/// UUID number `i` in a list of short forms, counted from 0.
pub open spec fn nth_short_uuid(data: Seq<u8>, i: int) -> u128 {
    long_form(leading_u16(data.skip(2 * i)))
}

/// A list of service UUIDs is read whole: each 16-bit number in it, low byte first, stands for
/// a service that is advertised, and nothing else does.
pub proof fn law_short_uuids(data: Seq<u8>, uuid: u128)
    ensures
        short_uuids(data).contains(uuid) <==> exists|i: int|
            0 <= i && 2 * i + 2 <= data.len() && uuid == #[trigger] nth_short_uuid(data, i),
    decreases data.len(),
{
    if data.len() >= 2 {
        let rest = data.skip(2);
        law_short_uuids(rest, uuid);
        assert(data.skip(0) =~= data);
        if exists|i: int|
            0 <= i && 2 * i + 2 <= data.len() && uuid == #[trigger] nth_short_uuid(data, i) {
            let i = choose|i: int|
                0 <= i && 2 * i + 2 <= data.len() && uuid == #[trigger] nth_short_uuid(data, i);
            if i > 0 {
                assert(rest.skip(2 * (i - 1)) =~= data.skip(2 * i));
                assert(uuid == nth_short_uuid(rest, i - 1));
            }
        }
        if short_uuids(data).contains(uuid) {
            if uuid != nth_short_uuid(data, 0) {
                let i = choose|i: int|
                    0 <= i && 2 * i + 2 <= rest.len() && uuid == #[trigger] nth_short_uuid(rest, i);
                assert(rest.skip(2 * i) =~= data.skip(2 * (i + 1)));
                assert(uuid == nth_short_uuid(data, i + 1));
            }
        }
    }
}

/// UUID number `i` in a list of long forms, counted from 0.
pub open spec fn nth_long_uuid(data: Seq<u8>, i: int) -> u128 {
    leading_u128(data.skip(16 * i))
}

/// A list of service UUIDs is read whole: each 128-bit number in it, low byte first, stands for
/// a service that is advertised, and nothing else does.
pub proof fn law_long_uuids(data: Seq<u8>, uuid: u128)
    ensures
        long_uuids(data).contains(uuid) <==> exists|i: int|
            0 <= i && 16 * i + 16 <= data.len() && uuid == #[trigger] nth_long_uuid(data, i),
    decreases data.len(),
{
    if data.len() >= 16 {
        let rest = data.skip(16);
        law_long_uuids(rest, uuid);
        assert(data.skip(0) =~= data);
        if exists|i: int|
            0 <= i && 16 * i + 16 <= data.len() && uuid == #[trigger] nth_long_uuid(data, i) {
            let i = choose|i: int|
                0 <= i && 16 * i + 16 <= data.len() && uuid == #[trigger] nth_long_uuid(data, i);
            if i > 0 {
                assert(rest.skip(16 * (i - 1)) =~= data.skip(16 * i));
                assert(uuid == nth_long_uuid(rest, i - 1));
            }
        }
        if long_uuids(data).contains(uuid) {
            if uuid != nth_long_uuid(data, 0) {
                let i = choose|i: int|
                    0 <= i && 16 * i + 16 <= rest.len() && uuid == #[trigger] nth_long_uuid(rest, i);
                assert(rest.skip(16 * i) =~= data.skip(16 * (i + 1)));
                assert(uuid == nth_long_uuid(data, i + 1));
            }
        }
    }
}

} // verus!
