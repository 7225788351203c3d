use bluer_ble_peripheral::advertisement::{
    AdType, Advertisement, AdvertisementParams, AdvertisementRequest, AdvertisementType,
    ConnectMode, DiscoverMode, ServiceAdvertisement,
};
use bluer_ble_peripheral::advertiser::{
    detailed_err, AdvertisementFactory, AdvertisementIter, BluerAdvertiser,
};
use bluer_ble_peripheral::byte_reader::{read_remainder, ByteReader};
use bluer_ble_peripheral::device_ident::DeviceIdent;
use bluer_ble_peripheral::event::{Backend, Event, SystemError};
use std::collections::{BTreeMap, BTreeSet};
use std::sync::Arc;
use std::time::Duration;

struct NoBackend;

impl Backend for NoBackend {
    type SystemError = ();
    type ApplicationHandle = ();
    type AdvertisementHandle = ();
    type Advertiser = ();
    type Responder = ();
    type Writer = ();
}

/// The bytes of one record.
fn record(ad_type: AdType, data: &[u8]) -> Vec<u8> {
    let mut bytes = vec![1 + data.len() as u8, ad_type.code()];
    bytes.extend_from_slice(data);
    bytes
}

fn request(payload: Vec<u8>) -> AdvertisementRequest {
    AdvertisementRequest {
        params: AdvertisementParams::default(),
        payload,
        scan_response_payload: None,
    }
}

fn convert(payload: Vec<u8>) -> Advertisement {
    AdvertisementFactory::convert(request(payload)).unwrap()
}

fn refusal(payload: Vec<u8>) -> String {
    AdvertisementFactory::convert(request(payload)).unwrap_err().message
}

#[test]
fn test_flags() {
    let payload = record(AdType::Flags, &[DiscoverMode::NonDiscoverable.code()]);
    let req = AdvertisementRequest {
        params: AdvertisementParams::default(),
        payload,
        scan_response_payload: None,
    };

    let converted = AdvertisementFactory::convert(req).unwrap();

    assert_eq!(converted.discoverable, Some(false));
}

#[test]
fn test_manufacturer_data() {
    let mfg_id: u16 = 0x1234;
    let data = [0x1, 0x2, 0x3, 0x4];
    let mut bytes = mfg_id.to_le_bytes().to_vec();
    bytes.extend_from_slice(&data);
    let payload = record(AdType::ManufacturerData, &bytes);
    let req = AdvertisementRequest {
        params: AdvertisementParams::default(),
        payload,
        scan_response_payload: None,
    };

    let converted = AdvertisementFactory::convert(req).unwrap();

    let actual: Vec<_> = converted.manufacturer_data.into_iter().collect();
    assert_eq!(actual, vec![(mfg_id, data.to_vec())]);
}

#[test]
fn discoverable_only_in_general_mode() {
    for (flags, wanted) in [(0x00, false), (0x01, false), (0x02, true), (0x03, false)] {
        for other_bits in [0x00u8, 0x04, 0xfc] {
            let converted = convert(record(AdType::Flags, &[flags | other_bits]));
            assert_eq!(converted.discoverable, Some(wanted));
        }
    }
    assert_eq!(DiscoverMode::NonDiscoverable.code(), 0);
    assert_eq!(DiscoverMode::Limited.code(), 1);
    assert_eq!(DiscoverMode::General.code(), 2);
}

#[test]
fn ad_type_codes() {
    assert_eq!(AdType::Flags.code(), 0x01);
    assert_eq!(AdType::CompleteServiceUuids16.code(), 0x03);
    assert_eq!(AdType::CompleteServiceUuids128.code(), 0x07);
    assert_eq!(AdType::ShortLocalName.code(), 0x08);
    assert_eq!(AdType::LongLocalName.code(), 0x09);
    assert_eq!(AdType::ServiceData16.code(), 0x16);
    assert_eq!(AdType::Appearance.code(), 0x19);
    assert_eq!(AdType::ManufacturerData.code(), 0xff);
}

#[test]
fn empty_payload_says_nothing() {
    let converted = convert(vec![]);
    assert_eq!(converted.advertisement_type, AdvertisementType::Peripheral);
    assert!(converted.service_uuids.is_empty());
    assert!(converted.manufacturer_data.is_empty());
    assert!(converted.service_data.is_empty());
    assert_eq!(converted.discoverable, None);
    assert_eq!(converted.local_name, None);
    assert_eq!(converted.appearance, None);
    assert!(!converted.system_includes.local_name);
    assert!(!converted.system_includes.appearance);
}

#[test]
fn first_name_wins() {
    let mut payload = record(AdType::ShortLocalName, b"short");
    payload.extend(record(AdType::LongLocalName, "l\u{e4}nger".as_bytes()));
    let converted = convert(payload);
    assert_eq!(converted.local_name, Some("short".to_string()));
    assert!(converted.system_includes.local_name);
    assert!(!converted.system_includes.appearance);

    let converted = convert(record(AdType::LongLocalName, "l\u{e4}nger".as_bytes()));
    assert_eq!(converted.local_name, Some("l\u{e4}nger".to_string()));
}

#[test]
fn last_appearance_wins() {
    let mut payload = record(AdType::Appearance, &[0x01, 0x02]);
    payload.extend(record(AdType::Appearance, &[0x03, 0x04, 0xff]));
    let converted = convert(payload);
    assert_eq!(converted.appearance, Some(0x0403));
    assert!(converted.system_includes.appearance);
    assert!(!converted.system_includes.local_name);
}

#[test]
fn last_manufacturer_data_wins() {
    let mut payload = record(AdType::ManufacturerData, &[0x34, 0x12, 1]);
    payload.extend(record(AdType::ManufacturerData, &[0x35, 0x12, 2]));
    payload.extend(record(AdType::ManufacturerData, &[0x34, 0x12]));
    let converted = convert(payload);
    let actual: Vec<_> = converted.manufacturer_data.into_iter().collect();
    assert_eq!(actual, vec![(0x1234, vec![]), (0x1235, vec![2])]);
}

#[test]
fn service_data_goes_under_long_uuid() {
    let converted = convert(record(AdType::ServiceData16, &[0x0f, 0x18, 0x64]));
    let actual: Vec<_> = converted.service_data.into_iter().collect();
    assert_eq!(actual, vec![(0x0000180f_0000_1000_8000_00805f9b34fb, vec![0x64])]);
}

#[test]
fn lists_of_uuids() {
    let mut payload = record(AdType::CompleteServiceUuids16, &[0x0f, 0x18, 0x0a, 0x18, 0x77]);
    let long: u128 = 0x00112233_4455_6677_8899_aabbccddeeff;
    let mut data = long.to_le_bytes().to_vec();
    data.push(0x55);
    payload.extend(record(AdType::CompleteServiceUuids128, &data));
    let converted = convert(payload);
    let wanted = BTreeSet::from([
        0x0000180f_0000_1000_8000_00805f9b34fb,
        0x0000180a_0000_1000_8000_00805f9b34fb,
        long,
    ]);
    assert_eq!(converted.service_uuids, wanted);
}

#[test]
fn unknown_records_are_ignored() {
    let mut payload = vec![3, 0x0a, 1, 2];
    payload.extend(record(AdType::Flags, &[2]));
    let converted = convert(payload);
    assert_eq!(converted.discoverable, Some(true));
}

#[test]
fn unknown_types_are_told_up_to_first_refusal() {
    let mut payload = vec![3, 0x0a, 1, 2];
    payload.extend(record(AdType::Flags, &[2]));
    payload.extend([1, 0xfe, 1, 0x0a]);
    assert_eq!(AdvertisementFactory::unknown_ad_types(&request(payload.clone())), [0x0a, 0xfe, 0x0a]);

    payload.extend(record(AdType::Flags, &[]));
    payload.extend([1, 0xfd]);
    assert_eq!(AdvertisementFactory::unknown_ad_types(&request(payload.clone())), [0x0a, 0xfe, 0x0a]);

    let mut req = request(payload.clone());
    req.params.connect_mode = ConnectMode::Undirected;
    assert!(AdvertisementFactory::unknown_ad_types(&req).is_empty());

    let mut req = request(payload);
    req.scan_response_payload = Some(vec![]);
    assert!(AdvertisementFactory::unknown_ad_types(&req).is_empty());
}

#[test]
fn payload_ends_at_zero_length_or_cut_record() {
    let mut payload = record(AdType::Flags, &[2]);
    payload.push(0);
    payload.extend(record(AdType::Appearance, &[1, 2]));
    let converted = convert(payload);
    assert_eq!(converted.discoverable, Some(true));
    assert_eq!(converted.appearance, None);

    for cut in [vec![5], vec![5, 0x19], vec![4, 0x19, 1, 2]] {
        let mut payload = record(AdType::Flags, &[2]);
        payload.extend(cut);
        let converted = convert(payload);
        assert_eq!(converted.discoverable, Some(true));
        assert_eq!(converted.appearance, None);
    }
}

#[test]
fn records_come_back_in_order() {
    let mut payload = record(AdType::Appearance, &[1, 2]);
    payload.extend(record(AdType::Flags, &[]));
    payload.extend(record(AdType::ManufacturerData, &[7; 254]));
    let mut iter = AdvertisementIter::new(&payload);
    let first = iter.next().unwrap();
    assert_eq!((first.ad_type, first.data), (0x19, vec![1, 2]));
    let second = iter.next().unwrap();
    assert_eq!((second.ad_type, second.data), (0x01, vec![]));
    let third = iter.next().unwrap();
    assert_eq!((third.ad_type, third.data), (0xff, vec![7; 254]));
    assert!(iter.next().is_none());
}

#[test]
fn record_errors() {
    assert_eq!(refusal(record(AdType::Flags, &[])), "Flags missing data!");
    for (ad_type, name) in [
        (AdType::LongLocalName, vec![0xff]),
        (AdType::LongLocalName, vec![b'a', b'b', 0xff]),
        (AdType::ShortLocalName, vec![0xc3]),
    ] {
        let words = String::from_utf8(name.clone()).unwrap_err();
        assert_eq!(refusal(record(ad_type, &name)), format!("invalid local name: {words}"));
    }
    assert_eq!(
        refusal(record(AdType::LongLocalName, &[b'a', b'b', 0xff])),
        "invalid local name: invalid utf-8 sequence of 1 bytes from index 2"
    );
    for (ad_type, what) in [
        (AdType::Appearance, "invalid appearance: "),
        (AdType::ManufacturerData, "invalid manufacturer id: "),
        (AdType::ServiceData16, "invalid service id: "),
    ] {
        for data in [vec![], vec![1]] {
            let words = ByteReader::new(&data).read_u16().unwrap_err();
            let message = refusal(record(ad_type, &data));
            assert_eq!(message, format!("{what}{words}"));
            assert_eq!(message, format!("{what}failed to fill whole buffer"));
        }
    }
}

#[test]
fn words_of_failure_follow() {
    let e = detailed_err("invalid local name: ", "no letters".to_owned());
    assert_eq!(e.message, "invalid local name: no letters");
}

#[test]
fn first_refused_record_counts() {
    let mut payload = record(AdType::Flags, &[2]);
    payload.extend(record(AdType::ServiceData16, &[]));
    payload.extend(record(AdType::Flags, &[]));
    assert!(refusal(payload).starts_with("invalid service id: "));
}

#[test]
fn request_errors() {
    let mut req = request(vec![]);
    req.params.connect_mode = ConnectMode::Undirected;
    let e = AdvertisementFactory::convert(req).unwrap_err();
    assert_eq!(e.message, "Unsupported connect_mode=Undirected");

    let mut req = request(record(AdType::Flags, &[]));
    req.params.connect_mode = ConnectMode::NonConnectable;
    let e = AdvertisementFactory::convert(req).unwrap_err();
    assert_eq!(e.message, "Unsupported connect_mode=NonConnectable");

    let mut req = request(vec![]);
    req.params.connect_mode = ConnectMode::Undirected;
    req.scan_response_payload = Some(vec![]);
    let e = AdvertisementFactory::convert(req).unwrap_err();
    assert_eq!(e.message, "Scan response payload is not supported!");
}

#[test]
fn connect_mode_messages_follow_debug() {
    for mode in [ConnectMode::NonConnectable, ConnectMode::Undirected] {
        let mut req = request(vec![]);
        req.params.connect_mode = mode;
        let e = AdvertisementFactory::convert(req).unwrap_err();
        assert_eq!(e.message, format!("Unsupported connect_mode={mode:?}"));
    }
}

#[test]
fn intervals_are_passed_on() {
    let mut req = request(vec![]);
    req.params.interval_min = Some(Duration::from_millis(20));
    req.params.interval_max = Some(Duration::from_millis(40));
    let converted = AdvertisementFactory::convert(req).unwrap();
    assert_eq!(converted.min_interval, Some(Duration::from_millis(20)));
    assert_eq!(converted.max_interval, Some(Duration::from_millis(40)));
}

fn advertiser(name: Option<&str>) -> BluerAdvertiser<()> {
    BluerAdvertiser {
        tx: (),
        service_uuids: Arc::new(BTreeSet::from([5, 9])),
        ident: Arc::new(DeviceIdent { name: name.map(|n| n.to_string()), appearance: Some(3) }),
    }
}

#[test]
fn requests_to_start_and_stop() {
    match advertiser(None).request_start::<NoBackend>(request(record(AdType::Flags, &[2]))) {
        Event::RequestAdvStart(adv) => {
            assert_eq!(adv.discoverable, Some(true));
            assert!(adv.service_uuids.is_empty());
        }
        _ => panic!("expected a start request"),
    }
    match advertiser(None).request_start::<NoBackend>(request(record(AdType::Flags, &[]))) {
        Event::OnAdvStartResult(Err(SystemError::Generic(e))) => {
            assert_eq!(e.message, "Flags missing data!")
        }
        _ => panic!("expected a failed start"),
    }
    assert!(matches!(advertiser(None).request_stop::<NoBackend>(), Event::RequestAdvStop));
}

#[test]
fn request_to_start_for_services() {
    let advertisement = ServiceAdvertisement {
        is_connectable: true,
        is_discoverable: false,
        manufacturer_data: BTreeMap::from([(0xf00d, vec![0x21, 0x22])]),
    };
    match advertiser(Some("gatt_server")).request_start_for_services::<NoBackend>(advertisement) {
        Event::RequestAdvStart(adv) => {
            assert_eq!(adv.advertisement_type, AdvertisementType::Peripheral);
            assert_eq!(adv.service_uuids, BTreeSet::from([5, 9]));
            assert_eq!(adv.manufacturer_data, BTreeMap::from([(0xf00d, vec![0x21, 0x22])]));
            assert_eq!(adv.discoverable, Some(false));
            assert_eq!(adv.local_name, Some("gatt_server".to_string()));
            assert_eq!(adv.appearance, None);
        }
        _ => panic!("expected a start request"),
    }
}

#[test]
fn reader_reads_little_endian() {
    let data: Vec<u8> = (1..=22).collect();
    let mut reader = ByteReader::new(&data);
    assert_eq!(reader.read_u8().unwrap(), 0x01);
    assert_eq!(reader.read_u16().unwrap(), 0x0302);
    assert_eq!(reader.read_u128().unwrap(), 0x13121110_0f0e_0d0c_0b0a_090807060504);
    assert_eq!(reader.read_exact(2), Some(vec![20, 21]));
    assert_eq!(read_remainder(reader), vec![22]);
}

#[test]
fn failed_read_goes_to_end() {
    let mut reader = ByteReader::new(&[1, 2, 3]);
    assert!(reader.read_u128().is_err());
    assert!(reader.read_u8().is_err());
    assert_eq!(read_remainder(reader), Vec::<u8>::new());
    let mut reader = ByteReader::new(&[1]);
    assert!(reader.read_u16().is_err());
    let mut reader = ByteReader::new(&[1]);
    assert_eq!(reader.read_exact(2), None);
    assert_eq!(reader.read_exact(0), Some(vec![]));
}
