use libmpeg::Error;
use libmpeg::Packet;
use libmpeg::PAYLOAD_SIZE;
use libmpeg::PID_MAX;
use libmpeg::SYNC_BYTE;

fn pcr_packet() -> Packet {
    // adaptation field declared, non-zero length, clock-reference flag set
    let mut payload = [0u8; PAYLOAD_SIZE];
    payload[0] = 7;
    payload[1] = 0x10;
    Packet::from(([SYNC_BYTE, 0x00, 0x00, 0x20], payload))
}

#[test]
fn pid_zero() {
    let packet = Packet::from(([SYNC_BYTE, 0x00, 0x00, 0x00], [0xff; PAYLOAD_SIZE]));
    assert_eq!(0, packet.pid());
}

#[test]
fn pid_low_byte_only() {
    // bit 4 of header byte 1 is bit 12 of the 13-bit identifier
    let packet = Packet::from(([SYNC_BYTE, 0x10, 0x00, 0x00], [0xff; PAYLOAD_SIZE]));
    assert_eq!(4096, packet.pid());
}

#[test]
fn pid_high_byte_only() {
    let packet = Packet::from(([SYNC_BYTE, 0x00, 0xff, 0x00], [0xff; PAYLOAD_SIZE]));
    assert_eq!(255, packet.pid());
}

#[test]
fn pid_max() {
    let packet = Packet::null();
    assert_eq!(PID_MAX, packet.pid());
}

#[test]
fn indexing() {
    let packet = Packet::null();
    assert_eq!(0x47, packet.index(0));
    assert_eq!(0x1f, packet.index(1));
    assert_eq!(0xff, packet.index(2));
    assert_eq!(0x00, packet.index(3));
    assert_eq!(0xff, packet.index(4));
    assert_eq!(0xff, packet.index(104));
    assert_eq!(0xff, packet.index(187));
}

#[test]
#[should_panic]
fn indexing_out_of_bounds() {
    let packet = Packet::null();
    let _ = packet.index(188);
}

#[test]
fn identical_packets_are_equal() {
    let p1: Packet = Default::default();
    let p2: Packet = Default::default();
    assert_eq!(p1, p2);
}

#[test]
fn checked_indexing() {
    let packet = Packet::null();
    assert_eq!(packet.get(0), Ok(0x47));
    assert_eq!(packet.get(187), Ok(0xff));
    assert_eq!(packet.get(188), Err(Error::OutOfRange));
}

#[test]
fn round_trip() {
    // decode then re-serialize is the identity on the buffer
    let mut buf = [0u8; 188];
    for i in 0..188 {
        buf[i] = i as u8;
    }
    buf[0] = SYNC_BYTE;
    let packet = Packet::from_bytes(&buf).unwrap();
    let out = packet.to_bytes();
    assert_eq!(&out[..], &buf[..]);
}

#[test]
fn parse_same_bytes_twice_yields_equal_packets() {
    let buf = Packet::null().to_bytes();
    let p1 = Packet::from_bytes(&buf).unwrap();
    let p2 = Packet::from_bytes(&buf).unwrap();
    assert_eq!(p1, p2);
}

#[test]
fn bad_sync_byte() {
    let mut buf = [0u8; 188];
    buf[0] = 0x46;
    assert_eq!(Packet::from_bytes(&buf), Err(Error::BadSyncByte));
}

#[test]
fn null_packet_fields() {
    let packet = Packet::null();
    assert_eq!(PID_MAX, packet.pid());
    assert!(!packet.transport_error());
    assert!(!packet.has_payload_unit_start_indicator());
    assert!(!packet.transport_priority());
    assert_eq!(0, packet.scrambling_control());
    assert!(!packet.has_adaptation_field());
    assert!(!packet.has_payload());
    assert_eq!(0, packet.continuity_counter());
}

#[test]
fn plain_header_fields() {
    let packet = Packet::from(([SYNC_BYTE, 0x00, 0x00, 0x00], [0xff; PAYLOAD_SIZE]));
    assert_eq!(0, packet.pid());
    assert!(!packet.has_adaptation_field());
    assert!(!packet.has_payload());
}

#[test]
fn pcr_round_trip() {
    let mut packet = pcr_packet();
    assert!(packet.has_pcr());
    let value: u64 = 12345 * 300 + 123;
    assert!(packet.write_pcr(value));
    assert_eq!(packet.read_pcr(), value);
}

#[test]
fn pcr_round_trip_max() {
    // the largest representable value: 33-bit base, extension 299
    let mut packet = pcr_packet();
    let value: u64 = 0x1ffffffff * 300 + 299;
    assert!(packet.write_pcr(value));
    assert_eq!(packet.read_pcr(), value);
}

#[test]
fn pcr_absent() {
    let mut packet = Packet::null();
    assert!(!packet.has_pcr());
    assert_eq!(packet.read_pcr(), 0);
    assert!(!packet.write_pcr(42));
    // a refused write changes nothing
    assert_eq!(packet, Packet::null());
}

#[test]
fn pcr_flag_clear() {
    // adaptation field present, clock-reference flag clear
    let mut payload = [0u8; PAYLOAD_SIZE];
    payload[0] = 7;
    let packet = Packet::from(([SYNC_BYTE, 0x00, 0x00, 0x20], payload));
    assert!(!packet.has_pcr());
    assert_eq!(packet.read_pcr(), 0);
}

#[test]
fn discontinuity() {
    let mut packet = pcr_packet();
    assert!(packet.set_discontinuity());
    // the flag byte gains its top bit, nothing else moves
    assert_eq!(packet.index(5), 0x90);
    assert_eq!(packet.index(4), 7);
}

#[test]
fn discontinuity_without_adaptation_field() {
    let mut packet = Packet::null();
    assert!(!packet.set_discontinuity());
    assert_eq!(packet, Packet::null());
}

#[test]
fn dts_no_adaptation_field() {
    // payload-unit start, payload data, start code, video stream,
    // timestamp flag byte clear, 33-bit value 1000 at offset 9
    let mut payload = [0u8; PAYLOAD_SIZE];
    payload[2] = 1;
    payload[3] = 0xe0;
    payload[12] = 7;
    payload[13] = 0xd0;
    let packet = Packet::from(([SYNC_BYTE, 0x40, 0x00, 0x10], payload));
    assert!(packet.has_dts());
    assert_eq!(packet.read_dts(), 1000 * 300);
}

#[test]
fn dts_behind_adaptation_field() {
    // a 5-byte adaptation field pushes the sub-packet start to offset 6
    let mut payload = [0u8; PAYLOAD_SIZE];
    payload[0] = 5;
    payload[8] = 1;
    payload[9] = 0xc0;
    payload[18] = 7;
    payload[19] = 0xd0;
    let packet = Packet::from(([SYNC_BYTE, 0x40, 0x00, 0x30], payload));
    assert!(packet.has_dts());
    assert_eq!(packet.read_dts(), 1000 * 300);
}

#[test]
fn dts_max_value() {
    // all 33 bits set
    let mut payload = [0u8; PAYLOAD_SIZE];
    payload[2] = 1;
    payload[3] = 0xe0;
    payload[9] = 0x0e;
    payload[10] = 0xff;
    payload[11] = 0xfe;
    payload[12] = 0xff;
    payload[13] = 0xfe;
    let packet = Packet::from(([SYNC_BYTE, 0x40, 0x00, 0x10], payload));
    assert!(packet.has_dts());
    assert_eq!(packet.read_dts(), 0x1ffffffffu64 * 300);
}

#[test]
fn dts_absent() {
    // no start-code prefix: presence fails and the read yields the
    // zero sentinel
    let packet = Packet::from(([SYNC_BYTE, 0x40, 0x00, 0x10], [0xff; PAYLOAD_SIZE]));
    assert!(!packet.has_dts());
    assert_eq!(packet.read_dts(), 0);
    // no payload-unit start either
    let null = Packet::null();
    assert!(!null.has_dts());
    assert_eq!(null.read_dts(), 0);
}

#[test]
fn dts_wrong_stream_kind() {
    let mut payload = [0u8; PAYLOAD_SIZE];
    payload[2] = 1;
    payload[3] = 0x42;
    payload[12] = 7;
    payload[13] = 0xd0;
    let packet = Packet::from(([SYNC_BYTE, 0x40, 0x00, 0x10], payload));
    assert!(!packet.has_dts());
    assert_eq!(packet.read_dts(), 0);
}

#[test]
fn unequal_packets() {
    let p1 = Packet::null();
    let p2 = Packet::from(([SYNC_BYTE, 0x1f, 0xff, 0x01], [0xff; PAYLOAD_SIZE]));
    assert!(p1 != p2);
}
