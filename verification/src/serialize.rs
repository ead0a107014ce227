//! Minimal little-endian serialization for kernel messages.

use vstd::prelude::*;
use vstd::utf8::*;
use vstd::string::StringSliceAdditionalSpecFns;

verus! {

/// The eight little-endian bytes of `v`.
pub open spec fn le_bytes_u64(v: u64) -> Seq<u8> {
    seq![
        v as u8,
        (v >> 8) as u8,
        (v >> 16) as u8,
        (v >> 24) as u8,
        (v >> 32) as u8,
        (v >> 40) as u8,
        (v >> 48) as u8,
        (v >> 56) as u8,
    ]
}

/// The four little-endian bytes of `v`.
pub open spec fn le_bytes_u32(v: u32) -> Seq<u8> {
    seq![v as u8, (v >> 8) as u8, (v >> 16) as u8, (v >> 24) as u8]
}

/// The `u64` whose little-endian encoding is the first eight bytes of `b`.
pub open spec fn u64_of_le(b: Seq<u8>) -> u64
    recommends
        b.len() >= 8,
{
    (b[0] as u64) | ((b[1] as u64) << 8) | ((b[2] as u64) << 16) | ((b[3] as u64) << 24) | ((
    b[4] as u64) << 32) | ((b[5] as u64) << 40) | ((b[6] as u64) << 48) | ((b[7] as u64) << 56)
}

/// The `u32` whose little-endian encoding is the first four bytes of `b`.
pub open spec fn u32_of_le(b: Seq<u8>) -> u32
    recommends
        b.len() >= 4,
{
    (b[0] as u32) | ((b[1] as u32) << 8) | ((b[2] as u32) << 16) | ((b[3] as u32) << 24)
}

/// Decoding the encoding of a `u64` gives the value back.
pub proof fn lemma_u64_roundtrip(v: u64)
    ensures
        u64_of_le(le_bytes_u64(v)) == v,
{
    let b = le_bytes_u64(v);
    let (b0, b1, b2, b3, b4, b5, b6, b7) = (b[0], b[1], b[2], b[3], b[4], b[5], b[6], b[7]);
    assert(b0 == v as u8 && b1 == (v >> 8) as u8 && b2 == (v >> 16) as u8 && b3 == (v >> 24) as u8
        && b4 == (v >> 32) as u8 && b5 == (v >> 40) as u8 && b6 == (v >> 48) as u8 && b7 == (v
        >> 56) as u8);
    assert((b0 as u64) | ((b1 as u64) << 8) | ((b2 as u64) << 16) | ((b3 as u64) << 24) | ((
    b4 as u64) << 32) | ((b5 as u64) << 40) | ((b6 as u64) << 48) | ((b7 as u64) << 56) == v)
        by (bit_vector)
        requires
            b0 == v as u8,
            b1 == (v >> 8) as u8,
            b2 == (v >> 16) as u8,
            b3 == (v >> 24) as u8,
            b4 == (v >> 32) as u8,
            b5 == (v >> 40) as u8,
            b6 == (v >> 48) as u8,
            b7 == (v >> 56) as u8,
    ;
}

/// Decoding the encoding of a `u32` gives the value back.
pub proof fn lemma_u32_roundtrip(v: u32)
    ensures
        u32_of_le(le_bytes_u32(v)) == v,
{
    let b = le_bytes_u32(v);
    let (b0, b1, b2, b3) = (b[0], b[1], b[2], b[3]);
    assert((b0 as u32) | ((b1 as u32) << 8) | ((b2 as u32) << 16) | ((b3 as u32) << 24) == v)
        by (bit_vector)
        requires
            b0 == v as u8,
            b1 == (v >> 8) as u8,
            b2 == (v >> 16) as u8,
            b3 == (v >> 24) as u8,
    ;
}

/// Writes `value` little-endian into the first eight bytes of `buf` and
/// returns 8; a buffer shorter than eight bytes is left alone and 0 returned.
pub fn serialize_u64(value: u64, buf: &mut [u8]) -> (written: usize)
    ensures
        old(buf)@.len() < 8 ==> written == 0 && final(buf)@ == old(buf)@,
        old(buf)@.len() >= 8 ==> written == 8 && final(buf)@ == le_bytes_u64(value) + old(
            buf,
        )@.subrange(8, old(buf)@.len() as int),
{
    if buf.len() < 8 {
        return 0;
    }
    buf[0] = value as u8;
    buf[1] = (value >> 8) as u8;
    buf[2] = (value >> 16) as u8;
    buf[3] = (value >> 24) as u8;
    buf[4] = (value >> 32) as u8;
    buf[5] = (value >> 40) as u8;
    buf[6] = (value >> 48) as u8;
    buf[7] = (value >> 56) as u8;
    assert(buf@ =~= le_bytes_u64(value) + old(buf)@.subrange(8, old(buf)@.len() as int));
    8
}


/// Writes `value` little-endian into the first four bytes of `buf` and
/// returns 4; a buffer shorter than four bytes is left alone and 0 returned.
pub fn serialize_u32(value: u32, buf: &mut [u8]) -> (written: usize)
    ensures
        old(buf)@.len() < 4 ==> written == 0 && final(buf)@ == old(buf)@,
        old(buf)@.len() >= 4 ==> written == 4 && final(buf)@ == le_bytes_u32(value) + old(
            buf,
        )@.subrange(4, old(buf)@.len() as int),
{
    if buf.len() < 4 {
        return 0;
    }
    buf[0] = value as u8;
    buf[1] = (value >> 8) as u8;
    buf[2] = (value >> 16) as u8;
    buf[3] = (value >> 24) as u8;
    assert(buf@ =~= le_bytes_u32(value) + old(buf)@.subrange(4, old(buf)@.len() as int));
    4
}

/// Reads a little-endian `u64` from the first eight bytes of `buf`;
/// `None` when `buf` is shorter than eight bytes.
pub fn deserialize_u64(buf: &[u8]) -> (r: Option<u64>)
    ensures
        r == (if buf@.len() < 8 {
            None
        } else {
            Some(u64_of_le(buf@))
        }),
{
    if buf.len() < 8 {
        return None;
    }
    Some(
        (buf[0] as u64) | ((buf[1] as u64) << 8) | ((buf[2] as u64) << 16) | ((buf[3] as u64)
            << 24) | ((buf[4] as u64) << 32) | ((buf[5] as u64) << 40) | ((buf[6] as u64) << 48)
            | ((buf[7] as u64) << 56),
    )
}

/// Reads a little-endian `u32` from the first four bytes of `buf`;
/// `None` when `buf` is shorter than four bytes.
pub fn deserialize_u32(buf: &[u8]) -> (r: Option<u32>)
    ensures
        r == (if buf@.len() < 4 {
            None
        } else {
            Some(u32_of_le(buf@))
        }),
{
    if buf.len() < 4 {
        return None;
    }
    Some((buf[0] as u32) | ((buf[1] as u32) << 8) | ((buf[2] as u32) << 16) | ((buf[3] as u32)
        << 24))
}


/// A message in the simple IPC wire format: a 24-byte header followed by
/// `data_len` bytes of payload.
pub struct SimpleMessage {
    pub message_type: u32,
    pub sender_id: u64,
    pub receiver_id: u64,
    pub data_len: u32,
    pub data: Vec<u8>,
}

/// The wire encoding of a message whose payload is `data`.
pub open spec fn encode_message(
    message_type: u32,
    sender_id: u64,
    receiver_id: u64,
    data_len: u32,
    data: Seq<u8>,
) -> Seq<u8> {
    le_bytes_u32(message_type) + le_bytes_u64(sender_id) + le_bytes_u64(receiver_id)
        + le_bytes_u32(data_len) + data.take(data_len as int)
}

/// How many leading bytes of the encoding are written into a buffer of
/// length `buf_len` before the writer finds that the next field does not fit.
pub open spec fn message_prefix_written(buf_len: int, data_len: int) -> int {
    if buf_len < 4 {
        0
    } else if buf_len < 12 {
        4
    } else if buf_len < 20 {
        12
    } else if buf_len < 24 {
        20
    } else if buf_len < 24 + data_len {
        24
    } else {
        24 + data_len
    }
}

/// The fields of a message parsed from the front of `b`, with the number
/// of bytes it takes; `None` when `b` is too short for the header or payload.
pub open spec fn parse_message(b: Seq<u8>) -> Option<(u32, u64, u64, u32, Seq<u8>, int)> {
    if b.len() < 24 {
        None
    } else {
        let dl = u32_of_le(b.subrange(20, b.len() as int));
        if b.len() < 24 + dl {
            None
        } else {
            Some(
                (
                    u32_of_le(b),
                    u64_of_le(b.subrange(4, b.len() as int)),
                    u64_of_le(b.subrange(12, b.len() as int)),
                    dl,
                    b.subrange(24, 24 + dl),
                    24 + dl,
                ),
            )
        }
    }
}

fn write_u32_at(buf: &mut [u8], off: usize, v: u32)
    requires
        off + 4 <= old(buf)@.len(),
    ensures
        final(buf)@ == old(buf)@.subrange(0, off as int) + le_bytes_u32(v) + old(buf)@.subrange(
            off + 4,
            old(buf)@.len() as int,
        ),
{
    buf[off] = v as u8;
    buf[off + 1] = (v >> 8) as u8;
    buf[off + 2] = (v >> 16) as u8;
    buf[off + 3] = (v >> 24) as u8;
    assert(buf@ =~= old(buf)@.subrange(0, off as int) + le_bytes_u32(v) + old(buf)@.subrange(
        off + 4,
        old(buf)@.len() as int,
    ));
}

fn write_u64_at(buf: &mut [u8], off: usize, v: u64)
    requires
        off + 8 <= old(buf)@.len(),
    ensures
        final(buf)@ == old(buf)@.subrange(0, off as int) + le_bytes_u64(v) + old(buf)@.subrange(
            off + 8,
            old(buf)@.len() as int,
        ),
{
    buf[off] = v as u8;
    buf[off + 1] = (v >> 8) as u8;
    buf[off + 2] = (v >> 16) as u8;
    buf[off + 3] = (v >> 24) as u8;
    buf[off + 4] = (v >> 32) as u8;
    buf[off + 5] = (v >> 40) as u8;
    buf[off + 6] = (v >> 48) as u8;
    buf[off + 7] = (v >> 56) as u8;
    assert(buf@ =~= old(buf)@.subrange(0, off as int) + le_bytes_u64(v) + old(buf)@.subrange(
        off + 8,
        old(buf)@.len() as int,
    ));
}

fn read_u32_at(buf: &[u8], off: usize) -> (r: u32)
    requires
        off + 4 <= buf@.len(),
    ensures
        r == u32_of_le(buf@.subrange(off as int, buf@.len() as int)),
{
    (buf[off] as u32) | ((buf[off + 1] as u32) << 8) | ((buf[off + 2] as u32) << 16) | ((buf[off
        + 3] as u32) << 24)
}

fn read_u64_at(buf: &[u8], off: usize) -> (r: u64)
    requires
        off + 8 <= buf@.len(),
    ensures
        r == u64_of_le(buf@.subrange(off as int, buf@.len() as int)),
{
    (buf[off] as u64) | ((buf[off + 1] as u64) << 8) | ((buf[off + 2] as u64) << 16) | ((buf[off
        + 3] as u64) << 24) | ((buf[off + 4] as u64) << 32) | ((buf[off + 5] as u64) << 40) | ((
    buf[off + 6] as u64) << 48) | ((buf[off + 7] as u64) << 56)
}

/// Writes the encoding of `msg` into `buf`. Fields are written in order and
/// the writer stops at the first one that does not fit, returning `None`;
/// when everything fits it returns the encoded length `24 + data_len`.
pub fn serialize_message(msg: &SimpleMessage, buf: &mut [u8]) -> (r: Option<usize>)
    requires
        msg.data@.len() >= msg.data_len,
    ensures
        ({
            let enc = encode_message(
                msg.message_type,
                msg.sender_id,
                msg.receiver_id,
                msg.data_len,
                msg.data@,
            );
            let k = message_prefix_written(old(buf)@.len() as int, msg.data_len as int);
            &&& r == (if old(buf)@.len() >= 24 + msg.data_len {
                Some((24 + msg.data_len) as usize)
            } else {
                None
            })
            &&& final(buf)@ == enc.take(k) + old(buf)@.skip(k)
        }),
{
    let ghost enc = encode_message(
        msg.message_type,
        msg.sender_id,
        msg.receiver_id,
        msg.data_len,
        msg.data@,
    );
    let ghost len = buf@.len();
    if 4 > buf.len() {
        assert(buf@ =~= enc.take(0) + old(buf)@.skip(0));
        return None;
    }
    write_u32_at(buf, 0, msg.message_type);
    assert(buf@ =~= enc.take(4) + old(buf)@.skip(4));
    if 12 > buf.len() {
        return None;
    }
    write_u64_at(buf, 4, msg.sender_id);
    assert(buf@ =~= enc.take(12) + old(buf)@.skip(12));
    if 20 > buf.len() {
        return None;
    }
    write_u64_at(buf, 12, msg.receiver_id);
    assert(buf@ =~= enc.take(20) + old(buf)@.skip(20));
    if 24 > buf.len() {
        return None;
    }
    write_u32_at(buf, 20, msg.data_len);
    assert(buf@ =~= enc.take(24) + old(buf)@.skip(24));
    let dl = msg.data_len as usize;
    if dl > buf.len() - 24 {
        return None;
    }
    let mut i: usize = 0;
    while i < dl
        invariant
            i <= dl,
            dl == msg.data_len,
            24 + dl <= buf.len(),
            buf@.len() == len,
            len == old(buf)@.len(),
            msg.data@.len() >= dl,
            enc == encode_message(
                msg.message_type,
                msg.sender_id,
                msg.receiver_id,
                msg.data_len,
                msg.data@,
            ),
            buf@ =~= enc.take(24 + i) + old(buf)@.skip(24 + i),
        decreases dl - i,
    {
        buf[24 + i] = msg.data[i];
        i = i + 1;
        assert(buf@ =~= enc.take(24 + i) + old(buf)@.skip(24 + i));
    }
    Some(24 + dl)
}

/// Parses a message from the front of `buf`; see [`parse_message`].
pub fn deserialize_message(buf: &[u8]) -> (r: Option<(SimpleMessage, usize)>)
    ensures
        match r {
            None => parse_message(buf@) is None,
            Some((m, n)) => parse_message(buf@) == Some(
                (m.message_type, m.sender_id, m.receiver_id, m.data_len, m.data@, n as int),
            ),
        },
{
    if buf.len() < 24 {
        return None;
    }
    let message_type = read_u32_at(buf, 0);
    let sender_id = read_u64_at(buf, 4);
    let receiver_id = read_u64_at(buf, 12);
    let data_len = read_u32_at(buf, 20);
    assert(u32_of_le(buf@) == u32_of_le(buf@.subrange(0, buf@.len() as int)));
    let dl = data_len as usize;
    if dl > buf.len() - 24 {
        return None;
    }
    let mut data: Vec<u8> = Vec::new();
    let mut i: usize = 0;
    while i < dl
        invariant
            i <= dl,
            24 + dl <= buf.len(),
            data@ =~= buf@.subrange(24, 24 + i),
        decreases dl - i,
    {
        data.push(buf[24 + i]);
        i = i + 1;
    }
    Some((SimpleMessage { message_type, sender_id, receiver_id, data_len, data }, 24 + dl))
}

/// Decoding what [`serialize_message`] wrote gives the message back, its
/// payload cut to `data_len` bytes, whatever follows in the buffer.
pub proof fn lemma_message_roundtrip(
    message_type: u32,
    sender_id: u64,
    receiver_id: u64,
    data_len: u32,
    data: Seq<u8>,
    rest: Seq<u8>,
)
    requires
        data.len() >= data_len,
    ensures
        parse_message(encode_message(message_type, sender_id, receiver_id, data_len, data) + rest)
            == Some(
            (
                message_type,
                sender_id,
                receiver_id,
                data_len,
                data.take(data_len as int),
                24 + data_len,
            ),
        ),
{
    let b = encode_message(message_type, sender_id, receiver_id, data_len, data) + rest;
    lemma_u32_roundtrip(message_type);
    lemma_u64_roundtrip(sender_id);
    lemma_u64_roundtrip(receiver_id);
    lemma_u32_roundtrip(data_len);
    assert(b.subrange(0, 4) =~= le_bytes_u32(message_type));
    assert(b.subrange(4, b.len() as int).subrange(0, 8) =~= le_bytes_u64(sender_id));
    assert(b.subrange(12, b.len() as int).subrange(0, 8) =~= le_bytes_u64(receiver_id));
    assert(b.subrange(20, b.len() as int).subrange(0, 4) =~= le_bytes_u32(data_len));
    assert(b.subrange(24, 24 + data_len) =~= data.take(data_len as int));
}


/// Writes `value` length-prefixed: its byte length as a little-endian `u32`,
/// then its bytes. Returns the number of bytes written, or `None` (buffer
/// untouched) when the buffer is shorter than that.
pub fn serialize_string(value: &str, buf: &mut [u8]) -> (r: Option<usize>)
    ensures
        ({
            let bytes = value.spec_bytes();
            let n = 4 + bytes.len();
            &&& old(buf)@.len() < n ==> r is None && final(buf)@ == old(buf)@
            &&& old(buf)@.len() >= n ==> r == Some(n as usize) && final(buf)@ == le_bytes_u32(
                bytes.len() as u32,
            ) + bytes + old(buf)@.skip(n as int)
        }),
{
    let bytes = value.as_bytes();
    let len = bytes.len();
    if buf.len() < 4 || buf.len() - 4 < len {
        return None;
    }
    let written = serialize_u32(len as u32, buf);
    let ghost start = buf@;
    let mut i: usize = 0;
    while i < len
        invariant
            i <= len,
            len == bytes@.len(),
            4 + len <= buf.len(),
            buf@.len() == old(buf)@.len(),
            start == le_bytes_u32(len as u32) + old(buf)@.skip(4),
            buf@ =~= le_bytes_u32(len as u32) + bytes@.take(i as int) + old(buf)@.skip(4 + i),
        decreases len - i,
    {
        buf[4 + i] = bytes[i];
        i = i + 1;
        assert(buf@ =~= le_bytes_u32(len as u32) + bytes@.take(i as int) + old(buf)@.skip(4 + i));
    }
    assert(bytes@.take(len as int) =~= bytes@);
    Some(4 + len)
}

/// `String::from_utf8`, keeping the string when the bytes are valid UTF-8.
#[verifier::external_body]
fn string_from_utf8(bytes: Vec<u8>) -> (r: Option<String>)
    ensures
        r is Some <==> valid_utf8(bytes@),
        r matches Some(s) ==> s@ == decode_utf8(bytes@),
{
    String::from_utf8(bytes).ok()
}

/// Reads a length-prefixed UTF-8 string from the front of `buf`, returning
/// it with the number of bytes it took; `None` when the buffer is too short
/// or the bytes are not valid UTF-8.
pub fn deserialize_string(buf: &[u8]) -> (r: Option<(String, usize)>)
    ensures
        ({
            let ok = buf@.len() >= 4 && buf@.len() >= 4 + u32_of_le(buf@) && valid_utf8(
                buf@.subrange(4, 4 + u32_of_le(buf@)),
            );
            &&& r is Some <==> ok
            &&& r matches Some((s, n)) ==> n == 4 + u32_of_le(buf@) && s@ == decode_utf8(
                buf@.subrange(4, n as int),
            )
        }),
{
    let len = match deserialize_u32(buf) {
        Some(l) => l as usize,
        None => return None,
    };
    if buf.len() - 4 < len {
        return None;
    }
    let mut bytes: Vec<u8> = Vec::new();
    let mut i: usize = 0;
    while i < len
        invariant
            i <= len,
            4 + len <= buf.len(),
            bytes@ =~= buf@.subrange(4, 4 + i),
        decreases len - i,
    {
        bytes.push(buf[4 + i]);
        i = i + 1;
    }
    match string_from_utf8(bytes) {
        Some(s) => Some((s, 4 + len)),
        None => None,
    }
}

/// Encoding the `u64` read from eight bytes gives those bytes back.
pub proof fn lemma_le_bytes_roundtrip(b: Seq<u8>)
    requires
        b.len() >= 8,
    ensures
        le_bytes_u64(u64_of_le(b)) == b.take(8),
{
    let (b0, b1, b2, b3, b4, b5, b6, b7) = (b[0], b[1], b[2], b[3], b[4], b[5], b[6], b[7]);
    let v = u64_of_le(b);
    assert(v == (b0 as u64) | ((b1 as u64) << 8) | ((b2 as u64) << 16) | ((b3 as u64) << 24) | ((
    b4 as u64) << 32) | ((b5 as u64) << 40) | ((b6 as u64) << 48) | ((b7 as u64) << 56));
    assert(v as u8 == b0 && (v >> 8) as u8 == b1 && (v >> 16) as u8 == b2 && (v >> 24) as u8 == b3
        && (v >> 32) as u8 == b4 && (v >> 40) as u8 == b5 && (v >> 48) as u8 == b6 && (v >> 56) as u8
        == b7) by (bit_vector)
        requires
            v == (b0 as u64) | ((b1 as u64) << 8) | ((b2 as u64) << 16) | ((b3 as u64) << 24) | ((
            b4 as u64) << 32) | ((b5 as u64) << 40) | ((b6 as u64) << 48) | ((b7 as u64) << 56),
    ;
    assert(le_bytes_u64(v) =~= b.take(8));
}

/// A string written by [`serialize_string`] is read back whole by
/// [`deserialize_string`], whatever follows it in the buffer: the bytes
/// `le_bytes_u32(n) + encode_utf8(s) + rest` decode to `s`, taking
/// `4 + n` bytes.
pub proof fn lemma_string_roundtrip(s: Seq<char>, rest: Seq<u8>)
    requires
        encode_utf8(s).len() <= u32::MAX,
    ensures
        ({
            let bytes = encode_utf8(s);
            let b = le_bytes_u32(bytes.len() as u32) + bytes + rest;
            &&& b.len() >= 4
            &&& u32_of_le(b) == bytes.len()
            &&& b.len() >= 4 + u32_of_le(b)
            &&& b.subrange(4, 4 + u32_of_le(b)) == bytes
            &&& valid_utf8(bytes)
            &&& decode_utf8(b.subrange(4, 4 + u32_of_le(b))) == s
        }),
{
    let bytes = encode_utf8(s);
    let n = bytes.len() as u32;
    let b = le_bytes_u32(n) + bytes + rest;
    lemma_u32_roundtrip(n);
    assert(b.subrange(0, 4) =~= le_bytes_u32(n));
    assert(u32_of_le(b) == u32_of_le(le_bytes_u32(n)));
    assert(b.subrange(4, 4 + n) =~= bytes);
    encode_utf8_valid_utf8(s);
    encode_utf8_decode_utf8(s);
}

} // verus!
