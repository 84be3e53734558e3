use lemonbeatd::bigint::BigUint;
use lemonbeatd::error::Error;
use lemonbeatd::net::SocketAddr;
use lemonbeatd::net::SocketAddrV4;
use lemonbeatd::net::SocketAddrV6;
use lemonbeatd::traits::bitmask;
use lemonbeatd::traits::byte_order_of;
use lemonbeatd::traits::native_byte_order;
use lemonbeatd::traits::to_network_order;
use lemonbeatd::traits::ByteOrder;
use lemonbeatd::traits::Cursor;
use lemonbeatd::traits::Ds;
use lemonbeatd::traits::Flowinfo;
use lemonbeatd::traits::RangeChunks;
use lemonbeatd::traits::Sgtin96;
use lemonbeatd::traits::TrafficClass;

#[test]
fn rangechunks() {
    let mut iter = RangeChunks::new(2usize..10, 2);
    assert_eq!(iter.next(), Some(2..4));
    assert_eq!(iter.next(), Some(4..6));
    assert_eq!(iter.next(), Some(6..8));
    assert_eq!(iter.next(), Some(8..10));
    assert_eq!(iter.next(), None);

    let mut iter = RangeChunks::new(2usize..10, 3);
    assert_eq!(iter.next(), Some(2..5));
    assert_eq!(iter.next(), Some(5..8));
    assert_eq!(iter.next(), Some(8..10));

    let mut iter = RangeChunks::new(2usize..10, 100);
    assert_eq!(iter.next(), Some(2..10));
}

#[test]
fn sgtin_bitmask() {
    let sgtin = BigUint::from_bytes_be(&hex::decode("FFFFFFFFFFFFFFFFFFFFFFFF").unwrap());
    assert_eq!(sgtin.header(), 0b1111);
    assert_eq!(sgtin.item_reference(), 0b11111111111111111111);
    assert_eq!(sgtin.serial(), 0b11111111111111111111111111111111111111);
}

#[test]
fn range_pieces_have_no_gap() {
    let mut iter = RangeChunks::new(1u32..26, 10);
    let mut next = 1;
    while let Some(piece) = iter.next() {
        assert_eq!(piece.start, next);
        next = piece.end;
    }
    assert_eq!(next, 26);
    assert_eq!(RangeChunks::new(5u8..5, 3).next(), None);
}

#[test]
fn bitmasks() {
    assert_eq!(bitmask(0), 0);
    assert_eq!(bitmask(1), 1);
    assert_eq!(bitmask(38), 0x3f_ffff_ffff);
    assert_eq!(bitmask(64), u64::MAX);
}

#[test]
fn big_numbers() {
    let number = BigUint::from_bytes_be(&[0, 0, 1, 2]);
    assert_eq!(number.to_bytes_be(), vec![1, 2]);
    assert_eq!(number.to_u64(), Some(0x102));
    assert_eq!(number.shift_left(8).to_u64(), Some(0x10200));
    assert_eq!(number.shift_right(8).to_u64(), Some(1));
    assert_eq!(number.bitand(&BigUint::from_u64(0x1ff)).to_u64(), Some(0x102));
    assert_eq!(number.bitor(&BigUint::from_u64(0x21)).to_u64(), Some(0x123));
    assert_eq!(BigUint::from_bytes_be(&[]).to_bytes_be(), vec![0]);
    assert_eq!(BigUint::from_bytes_be(&[1, 0, 0, 0, 0, 0, 0, 0, 0]).to_u64(), None);
    assert!(BigUint::from_bytes_be(&[0, 7]) == BigUint::from_u64(7));
}

#[test]
fn traffic_classes() {
    let ds = Ds::from_bits(0b0111).unwrap();
    assert!(ds.contains(0b0011));
    assert!(ds.contains(0b0100));
    assert!(!ds.contains(0b1000));
    assert!(Ds::from_bits(0b1_0000).is_none());
    let mut class = TrafficClass::new(ds);
    assert_eq!(class.raw(), 0x1c);
    assert_eq!(class.ds().unwrap().bits(), 0b0111);
    class = TrafficClass::from_raw(0x1f);
    class.set_ds(Ds::from_bits(1).unwrap());
    assert_eq!(class.raw(), 0x07);
    assert!(TrafficClass::from_raw(0x40).ds().is_none());
}

#[test]
fn flow_information() {
    let class = TrafficClass::from_raw(0x1c);
    assert_eq!(Flowinfo::new_ordered(class, ByteOrder::Big).raw(), 0x01c0_0000);
    assert_eq!(Flowinfo::new_ordered(class, ByteOrder::Little).raw(), 0x0000_c001);
    for order in [ByteOrder::Big, ByteOrder::Little] {
        let flowinfo = Flowinfo::new_ordered(class, order);
        assert_eq!(flowinfo.traffic_class_ordered(order).raw(), 0x1c);
    }
    assert_eq!(Flowinfo::new(class).traffic_class().raw(), 0x1c);
    assert_eq!(Flowinfo::from_raw(7).raw(), 7);
    assert_eq!(to_network_order(0x0102_0304, ByteOrder::Little), 0x0403_0201);
    assert_eq!(to_network_order(0x0102_0304, ByteOrder::Big), 0x0102_0304);
    let expected = if is_big_endian() { ByteOrder::Big } else { ByteOrder::Little };
    assert_eq!(native_byte_order(), expected);
}

fn is_big_endian() -> bool {
    1u16.to_ne_bytes() == [0, 1]
}

#[test]
fn encrypted_addresses() {
    let mut addr = SocketAddr::V6(SocketAddrV6 { ip: 1, port: 20000, flowinfo: 0, scope_id: 0 });
    assert!(!addr.encrypted());
    let class = TrafficClass::new(Ds::from_bits(7).unwrap());
    assert_eq!(addr.set_flowinfo(Flowinfo::new(class).raw()), Ok(()));
    assert!(addr.encrypted());
    assert_eq!(addr.flowinfo().traffic_class().raw(), 0x1c);
    let mut v4 = SocketAddr::V4(SocketAddrV4 { ip: 1, port: 20000 });
    assert_eq!(v4.set_flowinfo(1), Err(Error::NoFlowinfo));
    assert!(!v4.encrypted());
    v4.set_port(5);
    assert_eq!(v4.port(), 5);
}

#[test]
fn cursor_reads_little_endian() {
    let data = [1u8, 2, 3, 4, 5, 6, 7, 8];
    let mut cursor = Cursor::new(&data);
    assert_eq!(cursor.read_u8(), Ok(1));
    assert_eq!(cursor.read_u16_le(), Ok(0x0302));
    assert_eq!(cursor.read_u32_le(), Ok(0x0706_0504));
    assert_eq!(cursor.position_usize(), 7);
    assert_eq!(cursor.remaining(), 1);
    assert_eq!(cursor.read_u16_le(), Err(Error::ShortRead));
    assert_eq!(cursor.take(1), Ok(&[8u8][..]));
    assert_eq!(cursor.read_u8(), Err(Error::ShortRead));
}

#[test]
fn shown_byte_order() {
    assert_eq!(byte_order_of(1), ByteOrder::Big);
    assert_eq!(byte_order_of(0x100), ByteOrder::Little);
    assert_eq!(byte_order_of(1u16.to_be()), native_byte_order());
}
