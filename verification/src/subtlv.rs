//! Wire format of the Area Proxy System Identifier Sub-TLV (type 1): a type
//! octet, a length octet of 6, then the six octets of the Area Proxy System
//! ID.

use vstd::prelude::*;

use bytes::{Buf, Bytes, BytesMut, TryGetError};

use crate::packet::{AreaProxySystemIdStlv, SystemId};

verus! {

#[verifier::external_type_specification]
#[verifier::external_body]
pub struct ExBytes(Bytes);

#[verifier::external_type_specification]
#[verifier::external_body]
pub struct ExBytesMut(BytesMut);

#[verifier::external_type_specification]
#[verifier::external_body]
pub struct ExTryGetError(TryGetError);

/// The bytes a `Bytes` buffer has left to read, in order.
pub uninterp spec fn bytes_contents(b: Bytes) -> Seq<u8>;

/// The bytes written into a `BytesMut` buffer, in order.
pub uninterp spec fn bytes_mut_contents(b: BytesMut) -> Seq<u8>;

/// Reads six bytes.
///
/// Calls `Buf::try_copy_to_slice` of `Bytes` with a six-byte destination:
/// with at least six bytes left it copies the first six and advances past
/// them; with fewer it returns its error and leaves the buffer as it was.
#[verifier::external_body]
fn bytes_try_copy_six(buf: &mut Bytes) -> (r: Result<[u8; 6], TryGetError>)
    ensures
        bytes_contents(*old(buf)).len() >= 6 ==> (r matches Ok(a) && a@ == bytes_contents(
            *old(buf),
        ).take(6) && bytes_contents(*final(buf)) == bytes_contents(*old(buf)).skip(6)),
        bytes_contents(*old(buf)).len() < 6 ==> r is Err && bytes_contents(*final(buf))
            == bytes_contents(*old(buf)),
{
    let mut a = [0u8; 6];
    match buf.try_copy_to_slice(&mut a) {
        Ok(()) => Ok(a),
        Err(e) => Err(e),
    }
}

/// Number of bytes written so far.
///
/// Calls `BytesMut::len`.
#[verifier::external_body]
fn bytes_mut_len(buf: &BytesMut) -> (n: usize)
    ensures
        n == bytes_mut_contents(*buf).len(),
{
    buf.len()
}

/// Appends one byte.
///
/// Calls `BufMut::put_u8` of `BytesMut`, which appends the byte; it panics
/// only when the length would exceed `isize::MAX`.
#[verifier::external_body]
fn bytes_mut_put_u8(buf: &mut BytesMut, v: u8)
    requires
        bytes_mut_contents(*old(buf)).len() < isize::MAX,
    ensures
        bytes_mut_contents(*final(buf)) == bytes_mut_contents(*old(buf)).push(v),
{
    bytes::BufMut::put_u8(buf, v);
}

/// Appends a slice of bytes.
///
/// Calls `BufMut::put_slice` of `BytesMut`, which appends the slice; it
/// panics only when the length would exceed `isize::MAX`.
#[verifier::external_body]
fn bytes_mut_put_slice(buf: &mut BytesMut, src: &[u8])
    requires
        bytes_mut_contents(*old(buf)).len() + src@.len() <= isize::MAX,
    ensures
        bytes_mut_contents(*final(buf)) == bytes_mut_contents(*old(buf)) + src@,
{
    bytes::BufMut::put_slice(buf, src);
}

/// Overwrites the byte at position `i`.
///
/// Indexes the byte slice that `BytesMut` dereferences to.
#[verifier::external_body]
fn bytes_mut_set(buf: &mut BytesMut, i: usize, v: u8)
    requires
        i < bytes_mut_contents(*old(buf)).len(),
    ensures
        bytes_mut_contents(*final(buf)) == bytes_mut_contents(*old(buf)).update(i as int, v),
{
    buf[i] = v;
}

/// Size of a TLV header: type and length octets.
pub const TLV_HDR_SIZE: usize = 2;

/// Type of the Area Proxy System Identifier Sub-TLV.
pub const AREA_PROXY_STLV_SYSTEM_ID: u8 = 1;

/// Length of the Area Proxy System Identifier Sub-TLV value.
pub const AREA_PROXY_SYSTEM_ID_STLV_SIZE: u8 = 6;

/// Errors decoding a TLV.
#[derive(Clone, Copy, Debug, PartialEq, Eq, Structural)]
pub enum TlvDecodeError {
    /// The TLV length octet does not fit the TLV type.
    InvalidLength(u8),
    /// The buffer ends before the TLV value does.
    ReadOutOfBounds,
}

/// The System ID whose octets are the first six of `s`.
pub open spec fn system_id_of(s: Seq<u8>) -> SystemId
    recommends
        s.len() >= 6,
{
    SystemId(s[0], s[1], s[2], s[3], s[4], s[5])
}

/// Decoding the sub-TLV value given its length octet and the bytes that
/// follow the header: the decoded sub-TLV and the bytes left, or the error.
pub open spec fn decode_system_id_stlv(stlv_len: u8, input: Seq<u8>) -> Result<
    (AreaProxySystemIdStlv, Seq<u8>),
    TlvDecodeError,
> {
    if stlv_len != AREA_PROXY_SYSTEM_ID_STLV_SIZE {
        Err(TlvDecodeError::InvalidLength(stlv_len))
    } else if input.len() < 6 {
        Err(TlvDecodeError::ReadOutOfBounds)
    } else {
        Ok((AreaProxySystemIdStlv(system_id_of(input)), input.skip(6)))
    }
}

/// The encoding of the sub-TLV: type 1, length 6, the six octets.
pub open spec fn encode_system_id_stlv(stlv: AreaProxySystemIdStlv) -> Seq<u8> {
    seq![AREA_PROXY_STLV_SYSTEM_ID, AREA_PROXY_SYSTEM_ID_STLV_SIZE] + stlv.0.octets()
}

impl SystemId {
    /// Reads a System ID: the next six bytes of the buffer.
    pub fn decode(buf: &mut Bytes) -> (r: Result<SystemId, TlvDecodeError>)
        ensures
            bytes_contents(*old(buf)).len() >= 6 ==> r == Ok::<SystemId, TlvDecodeError>(
                system_id_of(bytes_contents(*old(buf))),
            ) && bytes_contents(*final(buf)) == bytes_contents(*old(buf)).skip(6),
            bytes_contents(*old(buf)).len() < 6 ==> r == Err::<SystemId, TlvDecodeError>(
                TlvDecodeError::ReadOutOfBounds,
            ) && bytes_contents(*final(buf)) == bytes_contents(*old(buf)),
    {
        match bytes_try_copy_six(buf) {
            Ok(a) => Ok(SystemId(a[0], a[1], a[2], a[3], a[4], a[5])),
            Err(_) => Err(TlvDecodeError::ReadOutOfBounds),
        }
    }

    /// Appends the six octets of the System ID.
    pub fn encode(&self, buf: &mut BytesMut)
        requires
            bytes_mut_contents(*old(buf)).len() + 6 <= isize::MAX,
        ensures
            bytes_mut_contents(*final(buf)) == bytes_mut_contents(*old(buf)) + self.octets(),
    {
        let b = self.to_bytes();
        bytes_mut_put_slice(buf, b.as_slice());
    }
}

/// Starts a TLV: appends its type and a placeholder length, and returns the
/// position of the type octet.
pub fn tlv_encode_start(buf: &mut BytesMut, tlv_type: u8) -> (start_pos: usize)
    requires
        bytes_mut_contents(*old(buf)).len() + 2 <= isize::MAX,
    ensures
        start_pos == bytes_mut_contents(*old(buf)).len(),
        bytes_mut_contents(*final(buf)) == bytes_mut_contents(*old(buf)) + seq![tlv_type, 0u8],
{
    let start_pos = bytes_mut_len(buf);
    bytes_mut_put_u8(buf, tlv_type);
    bytes_mut_put_u8(buf, 0);
    assert(bytes_mut_contents(*buf) =~= bytes_mut_contents(*old(buf)) + seq![tlv_type, 0u8]);
    start_pos
}

/// Ends a TLV: rewrites its length octet with the number of bytes written
/// after its header, truncated to eight bits.
pub fn tlv_encode_end(buf: &mut BytesMut, start_pos: usize)
    requires
        start_pos + TLV_HDR_SIZE <= bytes_mut_contents(*old(buf)).len(),
    ensures
        bytes_mut_contents(*final(buf)) == bytes_mut_contents(*old(buf)).update(
            start_pos + 1,
            ((bytes_mut_contents(*old(buf)).len() - start_pos - TLV_HDR_SIZE) % 256) as u8,
        ),
{
    let len = bytes_mut_len(buf);
    let value = ((len - start_pos - TLV_HDR_SIZE) % 256) as u8;
    bytes_mut_set(buf, start_pos + 1, value);
}

impl AreaProxySystemIdStlv {
    /// Builds the sub-TLV from a System ID.
    pub fn new(system_id: SystemId) -> (stlv: AreaProxySystemIdStlv)
        ensures
            stlv.0 == system_id,
    {
        AreaProxySystemIdStlv(system_id)
    }

    /// Decodes the sub-TLV value given its length octet: the length must be
    /// exactly 6 and six bytes must be left.
    pub fn decode(stlv_len: u8, buf: &mut Bytes) -> (r: Result<AreaProxySystemIdStlv, TlvDecodeError>)
        ensures
            match decode_system_id_stlv(stlv_len, bytes_contents(*old(buf))) {
                Ok((stlv, rest)) => r == Ok::<AreaProxySystemIdStlv, TlvDecodeError>(stlv)
                    && bytes_contents(*final(buf)) == rest,
                Err(e) => r == Err::<AreaProxySystemIdStlv, TlvDecodeError>(e) && bytes_contents(
                    *final(buf),
                ) == bytes_contents(*old(buf)),
            },
    {
        if stlv_len != AREA_PROXY_SYSTEM_ID_STLV_SIZE {
            return Err(TlvDecodeError::InvalidLength(stlv_len));
        }
        let system_id = match SystemId::decode(buf) {
            Ok(s) => s,
            Err(e) => return Err(e),
        };
        Ok(AreaProxySystemIdStlv(system_id))
    }

    /// Appends the sub-TLV: header with type 1 and length 6, then the six
    /// octets.
    pub fn encode(&self, buf: &mut BytesMut)
        requires
            bytes_mut_contents(*old(buf)).len() + 8 <= isize::MAX,
        ensures
            bytes_mut_contents(*final(buf)) == bytes_mut_contents(*old(buf))
                + encode_system_id_stlv(*self),
    {
        let ghost b0 = bytes_mut_contents(*buf);
        let start_pos = tlv_encode_start(buf, AREA_PROXY_STLV_SYSTEM_ID);
        self.0.encode(buf);
        tlv_encode_end(buf, start_pos);
        assert(bytes_mut_contents(*buf) =~= b0 + encode_system_id_stlv(*self));
    }

    /// Encoded length of the sub-TLV: header plus six octets.
    pub fn len(&self) -> (n: usize)
        ensures
            n == encode_system_id_stlv(*self).len(),
            n == 8,
    {
        TLV_HDR_SIZE + AREA_PROXY_SYSTEM_ID_STLV_SIZE as usize
    }

    /// The Area Proxy System ID carried by the sub-TLV.
    pub fn get(&self) -> (sid: &SystemId)
        ensures
            *sid == self.0,
    {
        &self.0
    }
}

/// Decoding what encoding wrote gives back the sub-TLV and leaves exactly the
/// bytes that followed it.
pub proof fn law_system_id_stlv_roundtrip(stlv: AreaProxySystemIdStlv, rest: Seq<u8>)
    ensures
        ({
            let enc = encode_system_id_stlv(stlv);
            &&& enc.len() == 8
            &&& enc[0] == AREA_PROXY_STLV_SYSTEM_ID
            &&& decode_system_id_stlv(enc[1], enc.skip(2) + rest) == Ok::<
                (AreaProxySystemIdStlv, Seq<u8>),
                TlvDecodeError,
            >((stlv, rest))
        }),
{
    let enc = encode_system_id_stlv(stlv);
    let input = enc.skip(2) + rest;
    assert(input.skip(6) =~= rest);
    assert(input[0] == stlv.0.0);
    assert(input[5] == stlv.0.5);
}

/// A length octet other than 6 is refused whatever follows, and the buffer
/// is left untouched.
pub proof fn law_system_id_stlv_rejects_length(stlv_len: u8, input: Seq<u8>)
    requires
        stlv_len != AREA_PROXY_SYSTEM_ID_STLV_SIZE,
    ensures
        decode_system_id_stlv(stlv_len, input) == Err::<(AreaProxySystemIdStlv, Seq<u8>), TlvDecodeError>(
            TlvDecodeError::InvalidLength(stlv_len),
        ),
{
}

} // verus!
