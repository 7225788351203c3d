//! What is owed of an advertisement: that it says what the application asked to advertise.
//!
//! A payload grows record by record. The laws say what an empty payload gives, what one more
//! record of each kind changes, and what does not count. Each speaks of what the functions
//! themselves may return, for all arguments.

use crate::advertisement::{
    AdType, Advertisement, AdvertisementParams, AdvertisementRequest, AdvertisementType,
    AdvertisementView, ConnectMode, DiscoverMode, ServiceAdvertisement,
};
use crate::advertiser::{
    apply_record, detailed_err, first_record, is_known, law_long_uuids, law_short_uuids,
    lemma_le_value_of_two, long_uuids, no_errors, nth_long_uuid, nth_short_uuid, record_error,
    records, refused_at, short_uuids, unknown_types, utf8_failure, AdvertisementFactory,
    AdvertisementIter, AdvertisementRecord, BluerAdvertiser, RecordView,
};
use crate::byte_reader::{le_value, read_remainder, read_u16_failure, ByteReader};
use crate::err_util::Error;
use crate::event::{Backend, Event, SystemError};
use vstd::arithmetic::power::pow;
use vstd::prelude::*;

verus! {

/// The advertisement that tells the services of a device has its services and its name, the
/// manufacturer data of the request, and is discoverable exactly if the request says so, whatever
/// it says of connecting. It says nothing else.
pub proof fn law_services_advertised<S, B: Backend>(
    advertiser: BluerAdvertiser<S>,
    request: ServiceAdvertisement,
    event: Event<B>,
)
    requires
        call_ensures(
            BluerAdvertiser::<S>::request_start_for_services::<B>,
            (&advertiser, request),
            event,
        ),
    ensures
        event matches Event::RequestAdvStart(adv) && {
            &&& adv.discoverable == Some(true) <==> request.is_discoverable
            &&& adv.discoverable == Some(false) <==> !request.is_discoverable
            &&& adv.service_uuids@ == advertiser.service_uuids@
            &&& advertiser.ident.name is None ==> adv.local_name is None
            &&& advertiser.ident.name matches Some(name) ==> (adv.local_name matches Some(told)
                && told@ == name@)
            &&& adv.manufacturer_data@.dom() == request.manufacturer_data@.dom()
            &&& forall|id: u16| #[trigger]
                request.manufacturer_data@.contains_key(id) ==> adv.manufacturer_data@[id]@
                    == request.manufacturer_data@[id]@
            &&& adv.service_data@.dom() == Set::<u128>::empty()
            &&& adv.appearance is None
            &&& adv.advertisement_type == AdvertisementType::Peripheral
            &&& !adv.system_includes.local_name && !adv.system_includes.appearance
            &&& adv.min_interval is None && adv.max_interval is None
        },
{
    if let Event::RequestAdvStart(adv) = event {
        law_view_shows_all(adv);
        assert(adv.manufacturer_data@.dom() =~= request.manufacturer_data@.dom()) by {
            assert(adv@.manufacturer_data.dom() =~= adv.manufacturer_data@.dom());
            assert(adv@.manufacturer_data.dom() =~= request.manufacturer_data@.dom());
        }
        assert forall|id: u16| #[trigger]
            request.manufacturer_data@.contains_key(id) implies adv.manufacturer_data@[id]@
            == request.manufacturer_data@[id]@ by {
            assert(adv.manufacturer_data@.contains_key(id));
            assert(adv@.manufacturer_data[id] == adv.manufacturer_data@[id]@);
        }
        assert(adv.service_data@.dom() =~= Set::<u128>::empty()) by {
            assert(adv@.service_data.dom() =~= adv.service_data@.dom());
        }
    }
}

/// The view of an advertisement leaves nothing out: it has each field of the advertisement, with
/// sets, maps and sequences in place of collections.
pub proof fn law_view_shows_all(adv: Advertisement)
    ensures
        adv@.advertisement_type == adv.advertisement_type,
        adv@.service_uuids == adv.service_uuids@,
        adv@.discoverable == adv.discoverable,
        adv@.system_includes == adv.system_includes,
        adv@.appearance == adv.appearance,
        adv@.min_interval == adv.min_interval,
        adv@.max_interval == adv.max_interval,
        adv.local_name is None ==> adv@.local_name is None,
        adv.local_name matches Some(name) ==> adv@.local_name == Some(name@),
        adv@.manufacturer_data.dom() == adv.manufacturer_data@.dom(),
        forall|id: u16| #[trigger]
            adv.manufacturer_data@.contains_key(id) ==> adv@.manufacturer_data[id]
                == adv.manufacturer_data@[id]@,
        adv@.service_data.dom() == adv.service_data@.dom(),
        forall|uuid: u128| #[trigger]
            adv.service_data@.contains_key(uuid) ==> adv@.service_data[uuid]
                == adv.service_data@[uuid]@,
{
    assert(adv@.manufacturer_data.dom() =~= adv.manufacturer_data@.dom());
    assert(adv@.service_data.dom() =~= adv.service_data@.dom());
}

/// An empty payload gives an advertisement that says nothing but the intervals asked for, and a
/// request without a scan response, for a directed connection, is met then.
pub proof fn law_empty_payload(request: AdvertisementRequest, res: Result<Advertisement, Error>)
    requires
        call_ensures(AdvertisementFactory::convert, (request,), res),
        request.payload@.len() == 0,
    ensures
        res is Ok <==> request.scan_response_payload is None && request.params.connect_mode
            == ConnectMode::Directed,
        res matches Ok(adv) ==> {
            &&& adv@.min_interval == request.params.interval_min
            &&& adv@.max_interval == request.params.interval_max
            &&& adv@.advertisement_type == AdvertisementType::Peripheral
            &&& adv@.service_uuids == Set::<u128>::empty()
            &&& adv@.manufacturer_data == Map::<u16, Seq<u8>>::empty()
            &&& adv@.service_data == Map::<u128, Seq<u8>>::empty()
            &&& adv@.discoverable is None
            &&& adv@.local_name is None
            &&& adv@.appearance is None
            &&& !adv@.system_includes.local_name && !adv@.system_includes.appearance
        },
{
}

/// Who asks for nothing in particular gets a request that is not refused for its parameters, with
/// the intervals left to BlueZ.
pub proof fn law_default_params(params: AdvertisementParams)
    requires
        call_ensures(<AdvertisementParams as Default>::default, (), params),
    ensures
        params.connect_mode == ConnectMode::Directed,
        params.interval_min is None,
        params.interval_max is None,
{
}

/// A scan response is refused, whatever else is asked for. Without one, any connection but a
/// directed one is, whatever the payload.
pub proof fn law_request_refused(request: AdvertisementRequest, res: Result<Advertisement, Error>)
    requires
        call_ensures(AdvertisementFactory::convert, (request,), res),
    ensures
        request.scan_response_payload is Some ==> (res matches Err(e) && e.message@
            == "Scan response payload is not supported!"@),
        request.scan_response_payload is None && request.params.connect_mode
            == ConnectMode::NonConnectable ==> (res matches Err(e) && e.message@
            == "Unsupported connect_mode=NonConnectable"@),
        request.scan_response_payload is None && request.params.connect_mode
            == ConnectMode::Undirected ==> (res matches Err(e) && e.message@
            == "Unsupported connect_mode=Undirected"@),
{
}

/// `bytes` are records, one after the other: a length of at least 1, and as many bytes after it.
pub open spec fn is_whole(bytes: Seq<u8>) -> bool
    decreases bytes.len(),
{
    bytes.len() == 0 || (bytes[0] >= 1 && bytes.len() >= 1 + bytes[0] && is_whole(
        bytes.skip(1 + bytes[0]),
    ))
}

proof fn lemma_records_append(bytes: Seq<u8>, more: Seq<u8>)
    requires
        is_whole(bytes),
    ensures
        records(bytes + more) == records(bytes) + records(more),
    decreases bytes.len(),
{
    let both = bytes + more;
    if bytes.len() == 0 {
        assert(both =~= more);
        assert(records(bytes) + records(more) =~= records(more));
    } else {
        let rest = bytes.skip(1 + bytes[0]);
        lemma_records_append(rest, more);
        assert(both.skip(1 + both[0]) =~= rest + more);
        assert(first_record(both).data =~= first_record(bytes).data);
        assert(seq![first_record(bytes)] + (records(rest) + records(more)) =~= (seq![
            first_record(bytes),
        ] + records(rest)) + records(more));
    }
}

proof fn lemma_records_of_one(ad_type: u8, data: Seq<u8>, more: Seq<u8>)
    requires
        data.len() < 255,
    ensures
        records(seq![(1 + data.len()) as u8, ad_type] + data + more) == seq![
            RecordView { ad_type, data },
        ] + records(more),
{
    let bytes = seq![(1 + data.len()) as u8, ad_type] + data + more;
    assert(bytes[0] == 1 + data.len());
    assert(first_record(bytes).data =~= data);
    assert(bytes.skip(1 + bytes[0]) =~= more);
}

/// What one more record does to a request that can be met.
proof fn lemma_one_more(
    before: AdvertisementRequest,
    made: Advertisement,
    after: AdvertisementRequest,
    res: Result<Advertisement, Error>,
    ad_type: u8,
    data: Seq<u8>,
    more: Seq<u8>,
)
    requires
        call_ensures(AdvertisementFactory::convert, (before,), Ok(made)),
        call_ensures(AdvertisementFactory::convert, (after,), res),
        after.params == before.params,
        after.scan_response_payload is None,
        is_whole(before.payload@),
        data.len() < 255,
        after.payload@ == before.payload@ + (seq![(1 + data.len()) as u8, ad_type] + data + more),
    ensures
        ({
            let record = RecordView { ad_type, data };
            match record_error(record) {
                None => more.len() == 0 ==> (res matches Ok(adv) && adv@ == apply_record(
                    made@,
                    record,
                )),
                Some(error) => res matches Err(e) && e.message@ == error.message(),
            }
        }),
{
    let record = RecordView { ad_type, data };
    let done = records(before.payload@);
    let all = records(after.payload@);
    lemma_records_append(
        before.payload@,
        seq![(1 + data.len()) as u8, ad_type] + data + more,
    );
    lemma_records_of_one(ad_type, data, more);
    assert(all == done + (seq![record] + records(more)));
    assert(all[done.len() as int] == record);
    if record_error(record) is None {
        if more.len() == 0 {
            assert(all =~= done.push(record));
            assert(all.drop_last() =~= done);
            assert forall|i: int| 0 <= i < all.len() implies record_error(
                #[trigger] all[i],
            ) is None by {
                if i < done.len() {
                    assert(all[i] == done[i]);
                }
            }
        }
    } else {
        assert(!no_errors(all));
        if let Err(e) = res {
            let k = choose|k: int| #[trigger] refused_at(all, k, e.message@);
            if k < done.len() {
                assert(all[k] == done[k]);
            } else if k > done.len() {
                assert(all.take(k)[done.len() as int] == record);
            }
        }
    }
}

/// One more record of flags makes the device discoverable exactly if the lowest two bits of its
/// first byte are 2, the general mode, and changes nothing else.
pub proof fn law_one_more_flags(
    before: AdvertisementRequest,
    made: Advertisement,
    after: AdvertisementRequest,
    res: Result<Advertisement, Error>,
    data: Seq<u8>,
)
    requires
        call_ensures(AdvertisementFactory::convert, (before,), Ok(made)),
        call_ensures(AdvertisementFactory::convert, (after,), res),
        after.params == before.params,
        after.scan_response_payload is None,
        is_whole(before.payload@),
        1 <= data.len() < 255,
        after.payload@ == before.payload@ + (seq![(1 + data.len()) as u8, 0x01u8] + data),
    ensures
        res matches Ok(adv) && {
            &&& adv@.discoverable == Some(true) <==> data[0] % 4 == 2
            &&& adv@.discoverable == Some(false) <==> data[0] % 4 != 2
            &&& adv@ == AdvertisementView { discoverable: adv@.discoverable, ..made@ }
        },
{
    let more = Seq::<u8>::empty();
    assert(seq![(1 + data.len()) as u8, 0x01u8] + data + more =~= seq![
        (1 + data.len()) as u8,
        0x01u8,
    ] + data);
    lemma_one_more(before, made, after, res, 0x01, data, more);
    let flags = data[0];
    assert(flags & 3 == flags % 4) by (bit_vector);
}

/// One more record of a name, short or long, names the device if nothing did so before, and has
/// BlueZ add the name. It changes nothing else.
pub proof fn law_one_more_name(
    before: AdvertisementRequest,
    made: Advertisement,
    after: AdvertisementRequest,
    res: Result<Advertisement, Error>,
    ad_type: u8,
    data: Seq<u8>,
)
    requires
        call_ensures(AdvertisementFactory::convert, (before,), Ok(made)),
        call_ensures(AdvertisementFactory::convert, (after,), res),
        after.params == before.params,
        after.scan_response_payload is None,
        is_whole(before.payload@),
        data.len() < 255,
        ad_type == 0x08 || ad_type == 0x09,
        vstd::utf8::valid_utf8(data),
        after.payload@ == before.payload@ + (seq![(1 + data.len()) as u8, ad_type] + data),
    ensures
        res matches Ok(adv) && {
            &&& made@.local_name is Some ==> adv@.local_name == made@.local_name
            &&& made@.local_name is None ==> adv@.local_name == Some(
                vstd::utf8::decode_utf8(data),
            )
            &&& adv@.system_includes.local_name
            &&& adv@.system_includes.appearance == made@.system_includes.appearance
            &&& adv@ == AdvertisementView {
                local_name: adv@.local_name,
                system_includes: adv@.system_includes,
                ..made@
            }
        },
{
    let more = Seq::<u8>::empty();
    assert(seq![(1 + data.len()) as u8, ad_type] + data + more =~= seq![
        (1 + data.len()) as u8,
        ad_type,
    ] + data);
    lemma_one_more(before, made, after, res, ad_type, data, more);
}

/// One more record of an appearance tells the number in its first two bytes, low byte first, in
/// place of any before, and has BlueZ add it. It changes nothing else.
pub proof fn law_one_more_appearance(
    before: AdvertisementRequest,
    made: Advertisement,
    after: AdvertisementRequest,
    res: Result<Advertisement, Error>,
    data: Seq<u8>,
)
    requires
        call_ensures(AdvertisementFactory::convert, (before,), Ok(made)),
        call_ensures(AdvertisementFactory::convert, (after,), res),
        after.params == before.params,
        after.scan_response_payload is None,
        is_whole(before.payload@),
        2 <= data.len() < 255,
        after.payload@ == before.payload@ + (seq![(1 + data.len()) as u8, 0x19u8] + data),
    ensures
        res matches Ok(adv) && {
            &&& adv@.appearance matches Some(told) && told == data[0] + 256 * data[1]
            &&& adv@.system_includes.appearance
            &&& adv@.system_includes.local_name == made@.system_includes.local_name
            &&& adv@ == AdvertisementView {
                appearance: adv@.appearance,
                system_includes: adv@.system_includes,
                ..made@
            }
        },
{
    let more = Seq::<u8>::empty();
    assert(seq![(1 + data.len()) as u8, 0x19u8] + data + more =~= seq![
        (1 + data.len()) as u8,
        0x19u8,
    ] + data);
    lemma_one_more(before, made, after, res, 0x19, data, more);
    assert(data.take(2) =~= seq![data[0], data[1]]);
    lemma_le_value_of_two(data[0], data[1]);
}

/// One more record of manufacturer data tells the bytes after the first two, under the number in
/// these, low byte first. What was there under that number is gone, all else stays.
pub proof fn law_one_more_manufacturer_data(
    before: AdvertisementRequest,
    made: Advertisement,
    after: AdvertisementRequest,
    res: Result<Advertisement, Error>,
    data: Seq<u8>,
)
    requires
        call_ensures(AdvertisementFactory::convert, (before,), Ok(made)),
        call_ensures(AdvertisementFactory::convert, (after,), res),
        after.params == before.params,
        after.scan_response_payload is None,
        is_whole(before.payload@),
        2 <= data.len() < 255,
        after.payload@ == before.payload@ + (seq![(1 + data.len()) as u8, 0xffu8] + data),
    ensures
        res matches Ok(adv) && {
            let id = (data[0] + 256 * data[1]) as u16;
            &&& adv@.manufacturer_data == made@.manufacturer_data.insert(
                id,
                data.subrange(2, data.len() as int),
            )
            &&& adv@ == AdvertisementView { manufacturer_data: adv@.manufacturer_data, ..made@ }
        },
{
    let more = Seq::<u8>::empty();
    assert(seq![(1 + data.len()) as u8, 0xffu8] + data + more =~= seq![
        (1 + data.len()) as u8,
        0xffu8,
    ] + data);
    lemma_one_more(before, made, after, res, 0xff, data, more);
    assert(data.take(2) =~= seq![data[0], data[1]]);
    lemma_le_value_of_two(data[0], data[1]);
    assert(data.subrange(2, data.len() as int) =~= data.skip(2));
}

/// One more record of service data tells the bytes after the first two, under the UUID whose
/// first 32 bits are the number in these, low byte first. What was there under that UUID is gone,
/// all else stays.
pub proof fn law_one_more_service_data(
    before: AdvertisementRequest,
    made: Advertisement,
    after: AdvertisementRequest,
    res: Result<Advertisement, Error>,
    data: Seq<u8>,
)
    requires
        call_ensures(AdvertisementFactory::convert, (before,), Ok(made)),
        call_ensures(AdvertisementFactory::convert, (after,), res),
        after.params == before.params,
        after.scan_response_payload is None,
        is_whole(before.payload@),
        2 <= data.len() < 255,
        after.payload@ == before.payload@ + (seq![(1 + data.len()) as u8, 0x16u8] + data),
    ensures
        res matches Ok(adv) && exists|uuid: u128|
            {
                &&& uuid / 0x1_0000_0000_0000_0000_0000_0000 == data[0] + 256 * data[1]
                &&& uuid % 0x1_0000_0000_0000_0000_0000_0000 == 0x0000_1000_8000_0080_5f9b_34fb
                &&& adv@.service_data == #[trigger] made@.service_data.insert(
                    uuid,
                    data.subrange(2, data.len() as int),
                )
                &&& adv@ == AdvertisementView { service_data: adv@.service_data, ..made@ }
            },
{
    let more = Seq::<u8>::empty();
    assert(seq![(1 + data.len()) as u8, 0x16u8] + data + more =~= seq![
        (1 + data.len()) as u8,
        0x16u8,
    ] + data);
    lemma_one_more(before, made, after, res, 0x16, data, more);
    assert(data.take(2) =~= seq![data[0], data[1]]);
    lemma_le_value_of_two(data[0], data[1]);
    assert(data.subrange(2, data.len() as int) =~= data.skip(2));
    assert(data.skip(0) =~= data);
    let uuid = nth_short_uuid(data, 0);
    assert(uuid / 0x1_0000_0000_0000_0000_0000_0000 == data[0] + 256 * data[1]);
    assert(uuid % 0x1_0000_0000_0000_0000_0000_0000 == 0x0000_1000_8000_0080_5f9b_34fb);
    if let Ok(adv) = res {
        assert(adv@.service_data == made@.service_data.insert(
            uuid,
            data.subrange(2, data.len() as int),
        ));
    }
}

/// Number `i` of the 16-bit numbers in `data`, low byte first, counted from 0.
pub open spec fn nth_u16(data: Seq<u8>, i: int) -> int {
    data[2 * i] + 256 * data[2 * i + 1]
}

proof fn lemma_short_uuids_added(uuids: Set<u128>, data: Seq<u8>)
    ensures
        forall|uuid: u128| #[trigger]
            uuids.union(short_uuids(data)).contains(uuid) <==> uuids.contains(uuid) || {
                &&& uuid % 0x1_0000_0000_0000_0000_0000_0000 == 0x0000_1000_8000_0080_5f9b_34fb
                &&& exists|i: int|
                    0 <= i && 2 * i + 2 <= data.len() && #[trigger] nth_u16(data, i) == uuid
                        / 0x1_0000_0000_0000_0000_0000_0000
            },
{
    assert forall|i: int| 0 <= i && 2 * i + 2 <= data.len() implies {
        &&& #[trigger] nth_short_uuid(data, i) / 0x1_0000_0000_0000_0000_0000_0000 == nth_u16(
            data,
            i,
        )
        &&& nth_short_uuid(data, i) % 0x1_0000_0000_0000_0000_0000_0000
            == 0x0000_1000_8000_0080_5f9b_34fb
    } by {
        assert(data.skip(2 * i).take(2) =~= seq![data[2 * i], data[2 * i + 1]]);
        lemma_le_value_of_two(data[2 * i], data[2 * i + 1]);
    }
    assert forall|uuid: u128| #[trigger]
        uuids.union(short_uuids(data)).contains(uuid) <==> uuids.contains(uuid) || {
            &&& uuid % 0x1_0000_0000_0000_0000_0000_0000 == 0x0000_1000_8000_0080_5f9b_34fb
            &&& exists|i: int|
                0 <= i && 2 * i + 2 <= data.len() && #[trigger] nth_u16(data, i) == uuid
                    / 0x1_0000_0000_0000_0000_0000_0000
        } by {
        law_short_uuids(data, uuid);
        if exists|i: int|
            0 <= i && 2 * i + 2 <= data.len() && uuid == #[trigger] nth_short_uuid(data, i) {
            let i = choose|i: int|
                0 <= i && 2 * i + 2 <= data.len() && uuid == #[trigger] nth_short_uuid(data, i);
            assert(nth_u16(data, i) == uuid / 0x1_0000_0000_0000_0000_0000_0000);
        }
        if uuid % 0x1_0000_0000_0000_0000_0000_0000 == 0x0000_1000_8000_0080_5f9b_34fb && exists|
            i: int,
        |
            0 <= i && 2 * i + 2 <= data.len() && #[trigger] nth_u16(data, i) == uuid
                / 0x1_0000_0000_0000_0000_0000_0000 {
            let i = choose|i: int|
                0 <= i && 2 * i + 2 <= data.len() && #[trigger] nth_u16(data, i) == uuid
                    / 0x1_0000_0000_0000_0000_0000_0000;
            assert(uuid == nth_short_uuid(data, i));
        }
    }
}

/// One more list of short UUIDs adds the UUID of each 16-bit number in it, the first and the last
/// among them, to those that were there, and no other. An odd byte at the end does not count.
/// It changes nothing else.
pub proof fn law_one_more_short_uuids(
    before: AdvertisementRequest,
    made: Advertisement,
    after: AdvertisementRequest,
    res: Result<Advertisement, Error>,
    data: Seq<u8>,
)
    requires
        call_ensures(AdvertisementFactory::convert, (before,), Ok(made)),
        call_ensures(AdvertisementFactory::convert, (after,), res),
        after.params == before.params,
        after.scan_response_payload is None,
        is_whole(before.payload@),
        data.len() < 255,
        after.payload@ == before.payload@ + (seq![(1 + data.len()) as u8, 0x03u8] + data),
    ensures
        res matches Ok(adv) && {
            &&& adv@ == AdvertisementView { service_uuids: adv@.service_uuids, ..made@ }
            &&& forall|uuid: u128| #[trigger]
                adv@.service_uuids.contains(uuid) <==> made@.service_uuids.contains(uuid) || {
                    &&& uuid % 0x1_0000_0000_0000_0000_0000_0000 == 0x0000_1000_8000_0080_5f9b_34fb
                    &&& exists|i: int|
                        0 <= i && 2 * i + 2 <= data.len() && #[trigger] nth_u16(data, i) == uuid
                            / 0x1_0000_0000_0000_0000_0000_0000
                }
        },
{
    let more = Seq::<u8>::empty();
    assert(seq![(1 + data.len()) as u8, 0x03u8] + data + more =~= seq![
        (1 + data.len()) as u8,
        0x03u8,
    ] + data);
    lemma_one_more(before, made, after, res, 0x03, data, more);
    lemma_short_uuids_added(made@.service_uuids, data);
}

/// A number is read low byte first: the first byte counts once, and all that follows 256 times.
pub proof fn law_low_byte_first(first: u8, rest: Seq<u8>)
    ensures
        le_value(Seq::empty()) == 0,
        le_value(seq![first] + rest) == first + 256 * le_value(rest),
{
    assert((seq![first] + rest).drop_first() =~= rest);
}

proof fn lemma_le_value_bound(bytes: Seq<u8>)
    ensures
        le_value(bytes) < pow(256, bytes.len()),
    decreases bytes.len(),
{
    reveal(pow);
    if bytes.len() > 0 {
        lemma_le_value_bound(bytes.drop_first());
    }
}

proof fn lemma_sixteen_bytes_fit(bytes: Seq<u8>)
    requires
        bytes.len() == 16,
    ensures
        le_value(bytes) <= u128::MAX,
{
    lemma_le_value_bound(bytes);
    reveal_with_fuel(pow, 17);
}

/// Number `i` of the 128-bit numbers in `data`, low byte first, counted from 0.
pub open spec fn nth_u128(data: Seq<u8>, i: int) -> nat {
    le_value(data.subrange(16 * i, 16 * i + 16))
}

proof fn lemma_long_uuids_added(uuids: Set<u128>, data: Seq<u8>)
    ensures
        forall|uuid: u128| #[trigger]
            uuids.union(long_uuids(data)).contains(uuid) <==> uuids.contains(uuid) || exists|i: int|
                0 <= i && 16 * i + 16 <= data.len() && #[trigger] nth_u128(data, i) == uuid,
{
    assert forall|i: int| 0 <= i && 16 * i + 16 <= data.len() implies #[trigger] nth_long_uuid(
        data,
        i,
    ) == nth_u128(data, i) by {
        assert(data.skip(16 * i).take(16) =~= data.subrange(16 * i, 16 * i + 16));
        lemma_sixteen_bytes_fit(data.subrange(16 * i, 16 * i + 16));
    }
    assert forall|uuid: u128| #[trigger]
        uuids.union(long_uuids(data)).contains(uuid) <==> uuids.contains(uuid) || exists|i: int|
            0 <= i && 16 * i + 16 <= data.len() && #[trigger] nth_u128(data, i) == uuid by {
        law_long_uuids(data, uuid);
        if exists|i: int|
            0 <= i && 16 * i + 16 <= data.len() && uuid == #[trigger] nth_long_uuid(data, i) {
            let i = choose|i: int|
                0 <= i && 16 * i + 16 <= data.len() && uuid == #[trigger] nth_long_uuid(data, i);
            assert(nth_u128(data, i) == uuid);
        }
        if exists|i: int|
            0 <= i && 16 * i + 16 <= data.len() && #[trigger] nth_u128(data, i) == uuid {
            let i = choose|i: int|
                0 <= i && 16 * i + 16 <= data.len() && #[trigger] nth_u128(data, i) == uuid;
            assert(uuid == nth_long_uuid(data, i));
        }
    }
}

/// One more list of long UUIDs adds each 128-bit number in it, the first and the last among them,
/// to those that were there, and no other. Bytes at the end that make up no UUID do not count.
/// It changes nothing else.
pub proof fn law_one_more_long_uuids(
    before: AdvertisementRequest,
    made: Advertisement,
    after: AdvertisementRequest,
    res: Result<Advertisement, Error>,
    data: Seq<u8>,
)
    requires
        call_ensures(AdvertisementFactory::convert, (before,), Ok(made)),
        call_ensures(AdvertisementFactory::convert, (after,), res),
        after.params == before.params,
        after.scan_response_payload is None,
        is_whole(before.payload@),
        data.len() < 255,
        after.payload@ == before.payload@ + (seq![(1 + data.len()) as u8, 0x07u8] + data),
    ensures
        res matches Ok(adv) && {
            &&& adv@ == AdvertisementView { service_uuids: adv@.service_uuids, ..made@ }
            &&& forall|uuid: u128| #[trigger]
                adv@.service_uuids.contains(uuid) <==> made@.service_uuids.contains(uuid)
                    || exists|i: int|
                    0 <= i && 16 * i + 16 <= data.len() && #[trigger] nth_u128(data, i) == uuid
        },
{
    let more = Seq::<u8>::empty();
    assert(seq![(1 + data.len()) as u8, 0x07u8] + data + more =~= seq![
        (1 + data.len()) as u8,
        0x07u8,
    ] + data);
    lemma_one_more(before, made, after, res, 0x07, data, more);
    lemma_long_uuids_added(made@.service_uuids, data);
}

/// One more record of any other type changes nothing.
pub proof fn law_one_more_of_other_type(
    before: AdvertisementRequest,
    made: Advertisement,
    after: AdvertisementRequest,
    res: Result<Advertisement, Error>,
    ad_type: u8,
    data: Seq<u8>,
)
    requires
        call_ensures(AdvertisementFactory::convert, (before,), Ok(made)),
        call_ensures(AdvertisementFactory::convert, (after,), res),
        after.params == before.params,
        after.scan_response_payload is None,
        is_whole(before.payload@),
        data.len() < 255,
        ad_type != 0x01 && ad_type != 0x03 && ad_type != 0x07 && ad_type != 0x08,
        ad_type != 0x09 && ad_type != 0x16 && ad_type != 0x19 && ad_type != 0xff,
        after.payload@ == before.payload@ + (seq![(1 + data.len()) as u8, ad_type] + data),
    ensures
        res matches Ok(adv) && adv@ == made@,
{
    let more = Seq::<u8>::empty();
    assert(seq![(1 + data.len()) as u8, ad_type] + data + more =~= seq![
        (1 + data.len()) as u8,
        ad_type,
    ] + data);
    lemma_one_more(before, made, after, res, ad_type, data, more);
}

/// What follows the records of a payload and is no whole record does not count: nothing, a length
/// of 0 with whatever comes after it, or a record that is cut off.
pub proof fn law_end_of_payload(
    before: AdvertisementRequest,
    made: Result<Advertisement, Error>,
    after: AdvertisementRequest,
    res: Result<Advertisement, Error>,
    tail: Seq<u8>,
)
    requires
        call_ensures(AdvertisementFactory::convert, (before,), made),
        call_ensures(AdvertisementFactory::convert, (after,), res),
        after.params == before.params,
        after.scan_response_payload == before.scan_response_payload,
        is_whole(before.payload@),
        tail.len() == 0 || tail[0] == 0 || tail.len() < 1 + tail[0],
        after.payload@ == before.payload@ + tail,
    ensures
        made matches Ok(a) ==> (res matches Ok(b) && b@ == a@),
        made matches Err(e) ==> (res matches Err(e2) && e2.message@ == e.message@),
{
    lemma_records_append(before.payload@, tail);
    assert(records(tail) =~= Seq::empty());
    assert(records(after.payload@) =~= records(before.payload@));
    lemma_one_refusal(before, made, after, res);
}

/// Requests with the same records are refused with the same message.
proof fn lemma_one_refusal(
    before: AdvertisementRequest,
    made: Result<Advertisement, Error>,
    after: AdvertisementRequest,
    res: Result<Advertisement, Error>,
)
    requires
        call_ensures(AdvertisementFactory::convert, (before,), made),
        call_ensures(AdvertisementFactory::convert, (after,), res),
        after.params == before.params,
        after.scan_response_payload == before.scan_response_payload,
        records(after.payload@) == records(before.payload@),
    ensures
        made is Ok <==> res is Ok,
        made matches Err(e) ==> (res matches Err(e2) && e2.message@ == e.message@),
{
    let all = records(before.payload@);
    if let Err(e) = made {
        if let Err(e2) = res {
            if before.scan_response_payload is None && before.params.connect_mode
                == ConnectMode::Directed {
                let k = choose|k: int| #[trigger] refused_at(all, k, e.message@);
                let k2 = choose|k: int| #[trigger] refused_at(all, k, e2.message@);
                if k < k2 {
                    assert(all.take(k2)[k] == all[k]);
                } else if k2 < k {
                    assert(all.take(k)[k2] == all[k2]);
                }
            }
        }
    }
}

/// A record that is refused makes the whole request fail, whatever follows it: flags without a
/// byte, a name that is no UTF-8, and an appearance, manufacturer data or service data of less
/// than two bytes. The message tells which it was, and why it could not be read.
pub proof fn law_bad_record_refused(
    before: AdvertisementRequest,
    made: Advertisement,
    after: AdvertisementRequest,
    res: Result<Advertisement, Error>,
    ad_type: u8,
    data: Seq<u8>,
    more: Seq<u8>,
)
    requires
        call_ensures(AdvertisementFactory::convert, (before,), Ok(made)),
        call_ensures(AdvertisementFactory::convert, (after,), res),
        after.params == before.params,
        after.scan_response_payload is None,
        is_whole(before.payload@),
        data.len() < 255,
        after.payload@ == before.payload@ + (seq![(1 + data.len()) as u8, ad_type] + data + more),
    ensures
        ad_type == 0x01 && data.len() == 0 ==> (res matches Err(e) && e.message@
            == "Flags missing data!"@),
        (ad_type == 0x08 || ad_type == 0x09) && !vstd::utf8::valid_utf8(data) ==> (
        res matches Err(e) && e.message@ == "invalid local name: "@ + utf8_failure(data)),
        ad_type == 0x19 && data.len() < 2 ==> (res matches Err(e) && e.message@
            == "invalid appearance: "@ + read_u16_failure(data)),
        ad_type == 0xff && data.len() < 2 ==> (res matches Err(e) && e.message@
            == "invalid manufacturer id: "@ + read_u16_failure(data)),
        ad_type == 0x16 && data.len() < 2 ==> (res matches Err(e) && e.message@
            == "invalid service id: "@ + read_u16_failure(data)),
{
    lemma_one_more(before, made, after, res, ad_type, data, more);
}

/// The request of an application starts the advertisement that it converts to, or fails with the
/// error of the conversion.
pub proof fn law_start_requested<S, B: Backend>(
    advertiser: BluerAdvertiser<S>,
    request: AdvertisementRequest,
    event: Event<B>,
    res: Result<Advertisement, Error>,
)
    requires
        call_ensures(BluerAdvertiser::<S>::request_start::<B>, (&advertiser, request), event),
        call_ensures(AdvertisementFactory::convert, (request,), res),
    ensures
        res matches Ok(adv) ==> (event matches Event::RequestAdvStart(started) && started@ == adv@),
        res matches Err(e) ==> (event matches Event::OnAdvStartResult(
            Err(SystemError::Generic(told)),
        ) && told.message@ == e.message@),
{
    let all = records(request.payload@);
    if let Err(e) = res {
        if let Event::OnAdvStartResult(Err(SystemError::Generic(told))) = event {
            if request.scan_response_payload is None && request.params.connect_mode
                == ConnectMode::Directed {
                let k = choose|k: int| #[trigger] refused_at(all, k, e.message@);
                let k2 = choose|k: int| #[trigger] refused_at(all, k, told.message@);
                if k < k2 {
                    assert(all.take(k2)[k] == all[k]);
                } else if k2 < k {
                    assert(all.take(k)[k2] == all[k2]);
                }
            }
        }
    }
}

/// A request to stop asks for just that.
pub proof fn law_stop_requested<S, B: Backend>(advertiser: BluerAdvertiser<S>, event: Event<B>)
    requires
        call_ensures(BluerAdvertiser::<S>::request_stop::<B>, (&advertiser,), event),
    ensures
        event is RequestAdvStop,
{
}

/// The types that are told as unknown grow by one with one more record of such a type, and stay
/// as they are with any other record. There are none in an empty payload, and none where the
/// request is refused before its payload is read.
pub proof fn law_unknown_types_told(
    before: AdvertisementRequest,
    made: Advertisement,
    before_types: Vec<u8>,
    after: AdvertisementRequest,
    after_types: Vec<u8>,
    ad_type: u8,
    data: Seq<u8>,
)
    requires
        call_ensures(AdvertisementFactory::convert, (before,), Ok(made)),
        call_ensures(AdvertisementFactory::unknown_ad_types, (&before,), before_types),
        call_ensures(AdvertisementFactory::unknown_ad_types, (&after,), after_types),
        after.params == before.params,
        is_whole(before.payload@),
        data.len() < 255,
        after.payload@ == before.payload@ + (seq![(1 + data.len()) as u8, ad_type] + data),
    ensures
        before.payload@.len() == 0 ==> before_types@.len() == 0,
        after.scan_response_payload is Some ==> after_types@.len() == 0,
        after.scan_response_payload is None ==> {
            let known = ad_type == 0x01 || ad_type == 0x03 || ad_type == 0x07 || ad_type == 0x08
                || ad_type == 0x09 || ad_type == 0x16 || ad_type == 0x19 || ad_type == 0xff;
            &&& known ==> after_types@ == before_types@
            &&& !known ==> after_types@ == before_types@.push(ad_type)
        },
{
    let record = RecordView { ad_type, data };
    let done = records(before.payload@);
    let more = Seq::<u8>::empty();
    assert(seq![(1 + data.len()) as u8, ad_type] + data + more =~= seq![
        (1 + data.len()) as u8,
        ad_type,
    ] + data);
    lemma_records_append(before.payload@, seq![(1 + data.len()) as u8, ad_type] + data);
    lemma_records_of_one(ad_type, data, more);
    assert(records(more) =~= Seq::empty());
    assert(records(after.payload@) =~= done.push(record));
    lemma_unknown_types_push(done, record);
}

proof fn lemma_unknown_types_push(rs: Seq<RecordView>, record: RecordView)
    requires
        no_errors(rs),
    ensures
        unknown_types(rs.push(record)) == (if is_known(record.ad_type) {
            unknown_types(rs)
        } else {
            unknown_types(rs).push(record.ad_type)
        }),
    decreases rs.len(),
{
    let longer = rs.push(record);
    if rs.len() == 0 {
        assert(longer.drop_first() =~= rs);
        assert(longer[0] == record);
        assert(unknown_types(rs).push(record.ad_type) =~= seq![record.ad_type] + unknown_types(rs));
    } else {
        let rest = rs.drop_first();
        assert forall|i: int| 0 <= i < rest.len() implies record_error(
            #[trigger] rest[i],
        ) is None by {
            assert(rest[i] == rs[i + 1]);
        }
        lemma_unknown_types_push(rest, record);
        assert(longer.drop_first() =~= rest.push(record));
        assert(longer[0] == rs[0]);
        assert(record_error(rs[0]) is None);
        assert(unknown_types(longer) =~= if is_known(record.ad_type) {
            unknown_types(rs)
        } else {
            unknown_types(rs).push(record.ad_type)
        });
    }
}

/// A request that is refused before its payload is read has no unknown types to tell, and a
/// record that is refused ends the telling.
pub proof fn law_unknown_types_end(
    request: AdvertisementRequest,
    types: Vec<u8>,
    shorter: AdvertisementRequest,
    made: Advertisement,
    shorter_types: Vec<u8>,
    ad_type: u8,
    data: Seq<u8>,
    more: Seq<u8>,
)
    requires
        call_ensures(AdvertisementFactory::unknown_ad_types, (&request,), types),
        call_ensures(AdvertisementFactory::convert, (shorter,), Ok(made)),
        call_ensures(AdvertisementFactory::unknown_ad_types, (&shorter,), shorter_types),
        is_whole(shorter.payload@),
        data.len() < 255,
        request.payload@ == shorter.payload@ + (seq![(1 + data.len()) as u8, ad_type] + data
            + more),
    ensures
        request.params.connect_mode != ConnectMode::Directed ==> types@.len() == 0,
        request.scan_response_payload is Some ==> types@.len() == 0,
        request.params.connect_mode == ConnectMode::Directed
            && request.scan_response_payload is None ==> {
            &&& ad_type == 0x01 && data.len() == 0 ==> types@ == shorter_types@
            &&& (ad_type == 0x08 || ad_type == 0x09) && !vstd::utf8::valid_utf8(data) ==> types@
                == shorter_types@
            &&& (ad_type == 0x16 || ad_type == 0x19 || ad_type == 0xff) && data.len() < 2 ==> types@
                == shorter_types@
        },
{
    let record = RecordView { ad_type, data };
    let done = records(shorter.payload@);
    lemma_records_append(
        shorter.payload@,
        seq![(1 + data.len()) as u8, ad_type] + data + more,
    );
    lemma_records_of_one(ad_type, data, more);
    if record_error(record) is Some {
        lemma_unknown_types_stop(done, record, records(more));
    }
}

proof fn lemma_unknown_types_stop(
    rs: Seq<RecordView>,
    record: RecordView,
    more: Seq<RecordView>,
)
    requires
        no_errors(rs),
        record_error(record) is Some,
    ensures
        unknown_types(rs + (seq![record] + more)) == unknown_types(rs),
    decreases rs.len(),
{
    let longer = rs + (seq![record] + more);
    if rs.len() == 0 {
        assert(longer[0] == record);
    } else {
        let rest = rs.drop_first();
        assert forall|i: int| 0 <= i < rest.len() implies record_error(
            #[trigger] rest[i],
        ) is None by {
            assert(rest[i] == rs[i + 1]);
        }
        lemma_unknown_types_stop(rest, record, more);
        assert(longer.drop_first() =~= rest + (seq![record] + more));
        assert(longer[0] == rs[0]);
    }
}

/// The records of a payload come one by one: the first whole record is taken off the front, and
/// what is left is what follows it.
pub proof fn law_record_taken(
    data: &[u8],
    start: AdvertisementIter<'_>,
    after: AdvertisementIter<'_>,
    next: Option<AdvertisementRecord>,
    ad_type: u8,
    content: Seq<u8>,
    more: Seq<u8>,
)
    requires
        call_ensures(AdvertisementIter::new, (data,), start),
        exists|iter: &mut AdvertisementIter<'_>| #[trigger]
            call_ensures(AdvertisementIter::next, (iter,), next) && *iter == start && *final(iter)
                == after,
    ensures
        content.len() < 255 && data@ == seq![(1 + content.len()) as u8, ad_type] + content + more
            ==> {
            &&& next matches Some(record) && record.ad_type == ad_type && record.data@ == content
            &&& after.rest() == more
        },
        data@.len() == 0 || data@[0] == 0 || data@.len() < 1 + data@[0] ==> next is None,
{
    if content.len() < 255 && data@ == seq![(1 + content.len()) as u8, ad_type] + content + more {
        assert(data@[0] == 1 + content.len());
        assert(first_record(data@).data =~= content);
        assert(data@.skip(1 + data@[0]) =~= more);
    }
}

/// What a record does by itself, whatever its length and whatever was built before. Each kind
/// has its own field, and leaves all others alone.
pub proof fn law_record_taken_in(
    before: AdvertisementFactory,
    record: AdvertisementRecord,
    after: AdvertisementFactory,
    res: Result<(), Error>,
)
    requires
        exists|factory: &mut AdvertisementFactory| #[trigger]
            call_ensures(AdvertisementFactory::process_ad_record, (factory, record), res)
                && *factory == before && *final(factory) == after,
    ensures
        ({
            let t = record.ad_type;
            let data = record.data@;
            let a = before.output();
            let b = after.output();
            let is_name = t == 0x08 || t == 0x09;
            &&& res is Err <==> {
                ||| t == 0x01 && data.len() == 0
                ||| is_name && !vstd::utf8::valid_utf8(data)
                ||| (t == 0x19 || t == 0xff || t == 0x16) && data.len() < 2
            }
            &&& t != 0x01 ==> b.discoverable == a.discoverable
            &&& !is_name ==> b.local_name == a.local_name && b.system_includes.local_name
                == a.system_includes.local_name
            &&& t != 0x19 ==> b.appearance == a.appearance && b.system_includes.appearance
                == a.system_includes.appearance
            &&& t != 0xff ==> b.manufacturer_data == a.manufacturer_data
            &&& t != 0x16 ==> b.service_data == a.service_data
            &&& t != 0x03 && t != 0x07 ==> b.service_uuids == a.service_uuids
            &&& b.advertisement_type == a.advertisement_type
            &&& b.min_interval == a.min_interval && b.max_interval == a.max_interval
            &&& res is Ok && t == 0x01 ==> {
                &&& b.discoverable == Some(true) <==> data[0] % 4 == 2
                &&& b.discoverable == Some(false) <==> data[0] % 4 != 2
            }
            &&& res is Ok && is_name ==> {
                &&& a.local_name is Some ==> b.local_name == a.local_name
                &&& a.local_name is None ==> b.local_name == Some(vstd::utf8::decode_utf8(data))
                &&& b.system_includes.local_name
            }
            &&& res is Ok && t == 0x19 ==> {
                &&& b.appearance matches Some(told) && told == data[0] + 256 * data[1]
                &&& b.system_includes.appearance
            }
            &&& res is Ok && t == 0xff ==> b.manufacturer_data == a.manufacturer_data.insert(
                (data[0] + 256 * data[1]) as u16,
                data.subrange(2, data.len() as int),
            )
            &&& res is Ok && t == 0x16 ==> exists|uuid: u128|
                {
                    &&& uuid / 0x1_0000_0000_0000_0000_0000_0000 == data[0] + 256 * data[1]
                    &&& uuid % 0x1_0000_0000_0000_0000_0000_0000 == 0x0000_1000_8000_0080_5f9b_34fb
                    &&& b.service_data == #[trigger] a.service_data.insert(
                        uuid,
                        data.subrange(2, data.len() as int),
                    )
                }
            &&& t == 0x03 ==> forall|uuid: u128| #[trigger]
                b.service_uuids.contains(uuid) <==> a.service_uuids.contains(uuid) || {
                    &&& uuid % 0x1_0000_0000_0000_0000_0000_0000 == 0x0000_1000_8000_0080_5f9b_34fb
                    &&& exists|i: int|
                        0 <= i && 2 * i + 2 <= data.len() && #[trigger] nth_u16(data, i) == uuid
                            / 0x1_0000_0000_0000_0000_0000_0000
                }
            &&& t == 0x07 ==> forall|uuid: u128| #[trigger]
                b.service_uuids.contains(uuid) <==> a.service_uuids.contains(uuid) || exists|
                    i: int,
                |
                    0 <= i && 16 * i + 16 <= data.len() && #[trigger] nth_u128(data, i) == uuid
        }),
{
    let t = record.ad_type;
    let data = record.data@;
    let a = before.output();
    let b = after.output();
    if t == 0x01 && data.len() > 0 {
        let flags = data[0];
        assert(flags & 3 == flags % 4) by (bit_vector);
    }
    if data.len() >= 2 {
        assert(data.take(2) =~= seq![data[0], data[1]]);
        lemma_le_value_of_two(data[0], data[1]);
        assert(data.subrange(2, data.len() as int) =~= data.skip(2));
        if t == 0x16 {
            assert(data.skip(0) =~= data);
            let uuid = nth_short_uuid(data, 0);
            assert(uuid / 0x1_0000_0000_0000_0000_0000_0000 == data[0] + 256 * data[1]);
            assert(uuid % 0x1_0000_0000_0000_0000_0000_0000 == 0x0000_1000_8000_0080_5f9b_34fb);
            assert(b.service_data == a.service_data.insert(
                uuid,
                data.subrange(2, data.len() as int),
            ));
        }
    }
    if t == 0x03 {
        lemma_short_uuids_added(a.service_uuids, data);
    }
    if t == 0x07 {
        lemma_long_uuids_added(a.service_uuids, data);
    }
}

/// A record that is refused changes nothing in what was built before.
pub proof fn law_refused_record_changes_nothing(
    before: AdvertisementFactory,
    record: AdvertisementRecord,
    after: AdvertisementFactory,
    res: Result<(), Error>,
    adv_before: Advertisement,
    adv_after: Advertisement,
)
    requires
        exists|factory: &mut AdvertisementFactory| #[trigger]
            call_ensures(AdvertisementFactory::process_ad_record, (factory, record), res)
                && *factory == before && *final(factory) == after,
        call_ensures(AdvertisementFactory::into_output, (before,), adv_before),
        call_ensures(AdvertisementFactory::into_output, (after,), adv_after),
    ensures
        res is Err ==> adv_after@ == adv_before@,
{
}

/// Bytes are read from the front, as many as asked for and as they are, and what is left follows
/// them. Where there are too few, nothing is read and nothing is left.
pub proof fn law_bytes_taken(
    data: &[u8],
    start: ByteReader<'_>,
    count: usize,
    taken: Option<Vec<u8>>,
    after: ByteReader<'_>,
    rest: Vec<u8>,
)
    requires
        call_ensures(ByteReader::new, (data,), start),
        exists|reader: &mut ByteReader<'_>| #[trigger]
            call_ensures(ByteReader::read_exact, (reader, count), taken) && *reader == start
                && *final(reader) == after,
        call_ensures(read_remainder, (after,), rest),
    ensures
        count <= data@.len() ==> {
            &&& taken matches Some(bytes) && bytes@ == data@.subrange(0, count as int)
            &&& rest@ == data@.subrange(count as int, data@.len() as int)
        },
        count > data@.len() ==> taken is None && rest@.len() == 0,
{
    if count <= data@.len() {
        assert(data@.subrange(0, count as int) =~= data@.take(count as int));
        assert(data@.subrange(count as int, data@.len() as int) =~= data@.skip(count as int));
    }
}

/// An error that goes on with the words of another failure tells both.
pub proof fn law_words_follow(what: &str, detail: String, e: Error)
    requires
        call_ensures(detailed_err, (what, detail), e),
    ensures
        e.message@ == what@ + detail@,
{
}

/// The numbers that the Bluetooth SIG assigned to the types of records and to the modes in which
/// a device is discovered.
pub proof fn law_assigned_numbers(ad_type: AdType, mode: DiscoverMode, code: u8, mode_code: u8)
    requires
        call_ensures(AdType::code, (ad_type,), code),
        call_ensures(DiscoverMode::code, (mode,), mode_code),
    ensures
        code == 0x01 <==> ad_type == AdType::Flags,
        code == 0x03 <==> ad_type == AdType::CompleteServiceUuids16,
        code == 0x07 <==> ad_type == AdType::CompleteServiceUuids128,
        code == 0x08 <==> ad_type == AdType::ShortLocalName,
        code == 0x09 <==> ad_type == AdType::LongLocalName,
        code == 0x16 <==> ad_type == AdType::ServiceData16,
        code == 0x19 <==> ad_type == AdType::Appearance,
        code == 0xff <==> ad_type == AdType::ManufacturerData,
        mode_code == 0 <==> mode == DiscoverMode::NonDiscoverable,
        mode_code == 1 <==> mode == DiscoverMode::Limited,
        mode_code == 2 <==> mode == DiscoverMode::General,
{
}

} // verus!
