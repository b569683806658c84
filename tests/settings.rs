use bytes::BytesMut;
use h2_frames::head::{Error, Head, Kind, StreamId, HEADER_LEN};
use h2_frames::settings::{
    Setting, SettingId, Settings, SettingsFlags, SettingsOrder, DEFAULT_SETTING_STACK_SIZE,
    MAX_SETTING_ID,
};

fn extend_with_default(order: &mut SettingsOrder) {
    let mask: u16 = 1 << MAX_SETTING_ID;
    if order.mask & mask == mask {
        return;
    }
    order.extend(SettingId::default_ids());
}

#[test]
fn test_extend_with_default_only_adds_once() {
    let mut order = SettingsOrder::default();
    assert!(order.as_slice().is_empty());
    assert_eq!(order.mask, 0);

    extend_with_default(&mut order);
    assert_eq!(order.as_slice().len(), DEFAULT_SETTING_STACK_SIZE);

    let orig_order = order.clone();
    let n = order.as_slice().len();
    extend_with_default(&mut order);
    assert_eq!(order.as_slice().len(), n);
    assert_eq!(order, orig_order);
}

#[test]
fn test_extend_with_default_and_unknown_ids() {
    let mut order = SettingsOrder::default();
    extend_with_default(&mut order);
    order.extend(vec![SettingId::Unknown(10)]);
    assert_eq!(order.as_slice().len(), DEFAULT_SETTING_STACK_SIZE + 1);

    extend_with_default(&mut order);
    assert_eq!(order.as_slice().len(), DEFAULT_SETTING_STACK_SIZE + 1);

    order.extend(vec![SettingId::Unknown(10)]);
    assert_eq!(order.as_slice().len(), DEFAULT_SETTING_STACK_SIZE + 1);

    order.extend(vec![SettingId::Unknown(11)]);
    assert_eq!(order.as_slice().len(), DEFAULT_SETTING_STACK_SIZE + 2);

    order.extend(vec![SettingId::Unknown(15)]);
    assert_eq!(order.as_slice().len(), DEFAULT_SETTING_STACK_SIZE + 3);

    order.extend(vec![SettingId::Unknown(16)]);
    assert_eq!(order.as_slice().len(), DEFAULT_SETTING_STACK_SIZE + 3);
}

fn settings_head(flag: u8) -> Head {
    Head::new(Kind::Settings, flag, StreamId::zero())
}

fn record(code: u16, value: u32) -> Vec<u8> {
    let mut v = code.to_be_bytes().to_vec();
    v.extend_from_slice(&value.to_be_bytes());
    v
}

#[test]
fn order_dedup_and_no_bit_ids() {
    let mut order = SettingsOrder::new();
    order.push(SettingId::HeaderTableSize);
    order.push(SettingId::HeaderTableSize);
    assert_eq!(order.as_slice(), &[SettingId::HeaderTableSize]);
    assert_eq!(order.mask, 0b1);

    order.push(SettingId::Unknown(16));
    order.push(SettingId::Unknown(16));
    order.push(SettingId::Unknown(0));
    assert_eq!(order.len(), 1);
    assert_eq!(order.mask, 0b1);

    order.push(SettingId::EnableConnectProtocol);
    assert_eq!(order.as_slice(), &[SettingId::HeaderTableSize, SettingId::EnableConnectProtocol]);
    assert_eq!(order.mask, 0b1000_0001);
}

#[test]
fn setting_id_codes() {
    assert_eq!(SettingId::from_code(1), SettingId::HeaderTableSize);
    assert_eq!(SettingId::from_code(8), SettingId::EnableConnectProtocol);
    assert_eq!(SettingId::from_code(7), SettingId::Unknown(7));
    assert_eq!(SettingId::MaxHeaderListSize.code(), 6);
    assert_eq!(SettingId::Unknown(0x1234).code(), 0x1234);
    assert_eq!(SettingId::default_ids().len(), DEFAULT_SETTING_STACK_SIZE);
    assert_eq!(SettingId::default_ids()[7], SettingId::Unknown(9));
}

#[test]
fn setting_from_id_limits_unknown_codes() {
    assert_eq!(Setting::from_id(SettingId::Unknown(0), 1), None);
    assert_eq!(Setting::from_id(SettingId::Unknown(16), 1), None);
    let s = Setting::from_id(SettingId::Unknown(15), 3).unwrap();
    assert_eq!((s.id(), s.value()), (SettingId::Unknown(15), 3));
    let s = Setting::from_id(SettingId::EnablePush, 7).unwrap();
    assert_eq!(s.value(), 7);
}

#[test]
fn setting_encode_bytes() {
    let s = Setting::from_id(SettingId::MaxFrameSize, 0x0102_0304).unwrap();
    let mut buf = Vec::new();
    s.encode(&mut buf);
    assert_eq!(buf, vec![0, 5, 1, 2, 3, 4]);
}

#[test]
fn settings_flags() {
    assert!(!SettingsFlags::empty().is_ack());
    assert!(SettingsFlags::ack().is_ack());
    assert_eq!(SettingsFlags::load(0xff).bits(), 1);
    assert_eq!(SettingsFlags::load(0xfe).bits(), 0);
}

#[test]
fn settings_round_trip_known_fields() {
    let mut s = Settings::default();
    s.set_header_table_size(Some(4096));
    s.set_enable_push(false);
    s.set_initial_window_size(Some(65_535));
    s.set_max_concurrent_streams(Some(100));
    s.set_max_frame_size(Some(16_384));
    s.set_max_header_list_size(Some(0xffff_ffff));
    s.set_enable_connect_protocol(Some(1));
    let mut out = BytesMut::new();
    s.encode(&mut out);
    let buf = out.to_vec();
    assert_eq!(buf.len(), HEADER_LEN + 7 * 6);
    assert_eq!(&buf[..HEADER_LEN], &[0, 0, 42, 4, 0, 0, 0, 0, 0]);
    assert_eq!(&buf[HEADER_LEN..HEADER_LEN + 6], &record(1, 4096)[..]);
    assert_eq!(&buf[HEADER_LEN + 12..HEADER_LEN + 18], &record(4, 65_535)[..]);
    let loaded = Settings::load(Head::parse(&buf), &buf[HEADER_LEN..]).unwrap();
    assert_eq!(loaded, s);
    assert_eq!(loaded.is_push_enabled(), Some(false));
    assert_eq!(loaded.is_extended_connect_protocol_enabled(), Some(true));
    assert_eq!(loaded.max_header_list_size(), Some(0xffff_ffff));
    assert_eq!(loaded.max_frame_size(), Some(16_384));
    assert_eq!(loaded.initial_window_size(), Some(65_535));
    assert_eq!(loaded.max_concurrent_streams(), Some(100));
    assert_eq!(loaded.header_table_size(), Some(4096));
}

#[test]
fn settings_ack_round_trip() {
    let ack = Settings::ack();
    assert!(ack.is_ack());
    let mut out = BytesMut::new();
    ack.encode(&mut out);
    let buf = out.to_vec();
    assert_eq!(buf, vec![0, 0, 0, 4, 1, 0, 0, 0, 0]);
    let loaded = Settings::load(Head::parse(&buf), &buf[HEADER_LEN..]).unwrap();
    assert!(loaded.is_ack());
    assert_eq!(loaded.header_table_size(), None);
    assert_eq!(loaded.is_push_enabled(), None);
    assert_eq!(loaded.initial_window_size(), None);
    assert_eq!(loaded.max_frame_size(), None);
    assert!(loaded.unknown_settings().is_none());
}

#[test]
fn settings_enable_push_domain() {
    let head = settings_head(0);
    assert_eq!(Settings::load(head, &record(2, 2)), Err(Error::InvalidSettingValue));
    assert_eq!(Settings::load(head, &record(2, 0)).unwrap().is_push_enabled(), Some(false));
    assert_eq!(Settings::load(head, &record(2, 1)).unwrap().is_push_enabled(), Some(true));
}

#[test]
fn settings_value_domains() {
    let head = settings_head(0);
    assert_eq!(Settings::load(head, &record(4, 0x8000_0000)), Err(Error::InvalidSettingValue));
    assert_eq!(
        Settings::load(head, &record(4, 0x7fff_ffff)).unwrap().initial_window_size(),
        Some(0x7fff_ffff)
    );
    assert_eq!(Settings::load(head, &record(5, 16_383)), Err(Error::InvalidSettingValue));
    assert_eq!(Settings::load(head, &record(5, 0x100_0000)), Err(Error::InvalidSettingValue));
    assert_eq!(
        Settings::load(head, &record(5, 0xff_ffff)).unwrap().max_frame_size(),
        Some(0xff_ffff)
    );
    assert_eq!(Settings::load(head, &record(8, 2)), Err(Error::InvalidSettingValue));
}

#[test]
fn settings_load_errors() {
    let on_stream = Head::new(Kind::Settings, 0, StreamId::from(1));
    assert_eq!(Settings::load(on_stream, &[]), Err(Error::InvalidStreamId));
    assert_eq!(Settings::load(settings_head(1), &record(1, 1)), Err(Error::InvalidPayloadLength));
    assert_eq!(Settings::load(settings_head(0), &[0, 1, 0, 0, 0]), Err(Error::InvalidPayloadAckSettings));
}

#[test]
fn settings_load_unknown_and_dropped_ids() {
    let mut payload = record(9, 7);
    payload.extend(record(0x20, 1));
    payload.extend(record(9, 8));
    payload.extend(record(3, 50));
    let loaded = Settings::load(settings_head(0), &payload).unwrap();
    let nine = Setting::from_id(SettingId::Unknown(9), 7).unwrap();
    let nine_again = Setting::from_id(SettingId::Unknown(9), 8).unwrap();
    assert_eq!(loaded.unknown_settings().map(|l| l.to_vec()), Some(vec![nine, nine_again]));
    assert_eq!(loaded.max_concurrent_streams(), Some(50));
    assert!(!loaded.is_ack());
}

#[test]
fn settings_explicit_order_and_unknown() {
    let mut s = Settings::new();
    s.set_max_concurrent_streams(Some(10));
    s.set_header_table_size(Some(20));
    s.set_unknown_settings(vec![
        Setting::from_id(SettingId::Unknown(11), 30).unwrap(),
        Setting::from_id(SettingId::Unknown(11), 31).unwrap(),
    ]);
    let mut order = SettingsOrder::new();
    order.extend(vec![
        SettingId::Unknown(11),
        SettingId::MaxConcurrentStreams,
        SettingId::EnablePush,
        SettingId::HeaderTableSize,
    ]);
    s.set_settings_order(Some(order));
    let mut out = BytesMut::new();
    s.encode(&mut out);
    let buf = out.to_vec();
    let mut expected = vec![0, 0, 18, 4, 0, 0, 0, 0, 0];
    expected.extend(record(11, 30));
    expected.extend(record(3, 10));
    expected.extend(record(1, 20));
    assert_eq!(buf, expected);
    assert_eq!(s.in_order().len(), 3);
}

#[test]
fn settings_default_order_skips_unlisted_unknown() {
    let mut s = Settings::new();
    s.set_unknown_settings(vec![Setting::from_id(SettingId::Unknown(10), 1).unwrap()]);
    s.set_unknown_settings(vec![Setting::from_id(SettingId::Unknown(9), 2).unwrap()]);
    let mut out = BytesMut::new();
    s.encode(&mut out);
    let buf = out.to_vec();
    let mut expected = vec![0, 0, 6, 4, 0, 0, 0, 0, 0];
    expected.extend(record(9, 2));
    assert_eq!(buf, expected);
}

#[test]
fn settings_clone_keeps_unknown_and_order() {
    let mut s = Settings::new();
    s.set_unknown_settings(vec![Setting::from_id(SettingId::Unknown(12), 5).unwrap()]);
    let mut order = SettingsOrder::new();
    order.push(SettingId::Unknown(12));
    s.set_settings_order(Some(order));
    let copy = s.clone();
    assert_eq!(copy, s);
    assert_eq!(copy.unknown_settings().unwrap().len(), 1);
    assert_eq!(copy.settings_order.as_ref().unwrap().as_slice(), &[SettingId::Unknown(12)]);
}
