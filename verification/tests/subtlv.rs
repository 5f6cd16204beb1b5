use bytes::{Bytes, BytesMut};
use holo_area_proxy::packet::{AreaProxySystemIdStlv, SystemId};
use holo_area_proxy::subtlv::{tlv_encode_end, tlv_encode_start, TlvDecodeError};

#[test]
fn encode_writes_type_length_and_octets() {
    let stlv = AreaProxySystemIdStlv::new(SystemId::from_bytes([1, 2, 3, 4, 5, 6]));
    let mut buf = BytesMut::new();
    buf.extend_from_slice(&[0xff]);
    stlv.encode(&mut buf);
    assert_eq!(&buf[..], &[0xff, 1, 6, 1, 2, 3, 4, 5, 6]);
    assert_eq!(stlv.len(), 8);
    assert_eq!(*stlv.get(), SystemId::from_bytes([1, 2, 3, 4, 5, 6]));
}

#[test]
fn decode_reads_six_octets_and_advances() {
    let mut buf = Bytes::from_static(&[0, 0, 0, 0, 0, 0xa1, 9, 9]);
    let stlv = AreaProxySystemIdStlv::decode(6, &mut buf).unwrap();
    assert_eq!(stlv, AreaProxySystemIdStlv(SystemId::from_bytes([0, 0, 0, 0, 0, 0xa1])));
    assert_eq!(&buf[..], &[9, 9]);
}

#[test]
fn decode_rejects_wrong_length_without_consuming() {
    let mut buf = Bytes::from_static(&[1, 2, 3, 4, 5, 6, 7]);
    assert_eq!(
        AreaProxySystemIdStlv::decode(7, &mut buf),
        Err(TlvDecodeError::InvalidLength(7))
    );
    assert_eq!(buf.len(), 7);
}

#[test]
fn decode_rejects_short_buffer_without_consuming() {
    let mut buf = Bytes::from_static(&[1, 2, 3]);
    assert_eq!(
        AreaProxySystemIdStlv::decode(6, &mut buf),
        Err(TlvDecodeError::ReadOutOfBounds)
    );
    assert_eq!(&buf[..], &[1, 2, 3]);
}

#[test]
fn encode_then_decode_roundtrip() {
    let stlv = AreaProxySystemIdStlv(SystemId::from_bytes([0xde, 0xad, 0xbe, 0xef, 0, 7]));
    let mut out = BytesMut::new();
    stlv.encode(&mut out);
    out.extend_from_slice(&[42]);
    let mut input = out.freeze();
    let ty = input[0];
    let len = input[1];
    let mut value = input.split_off(2);
    assert_eq!(ty, 1);
    let back = AreaProxySystemIdStlv::decode(len, &mut value).unwrap();
    assert_eq!(back, stlv);
    assert_eq!(&value[..], &[42]);
}

#[test]
fn tlv_end_rewrites_length() {
    let mut buf = BytesMut::new();
    let start = tlv_encode_start(&mut buf, 20);
    assert_eq!(start, 0);
    assert_eq!(&buf[..], &[20, 0]);
    SystemId::from_bytes([1, 1, 1, 1, 1, 1]).encode(&mut buf);
    buf.extend_from_slice(&[2, 3]);
    tlv_encode_end(&mut buf, start);
    assert_eq!(buf[1], 8);
}
