//! A small binary protocol: the magic string `MyProtocol`, a two-byte
//! endianness tag (`LE` or `BE`), then a payload of 32-bit words in the
//! declared byte order. Encoding and decoding work on bytes; reading and
//! writing files around them is the caller's business.

use vstd::prelude::*;

verus! {

/// Why a byte string is not a protocol message.
#[derive(Debug, PartialEq, Eq, Structural)]
pub enum ProtocolError {
    /// The message does not open with the magic string.
    BadMagic,
    /// The two bytes after the magic are neither `LE` nor `BE`.
    BadEndianness,
    /// The payload is not a whole number of 32-bit words.
    TruncatedPayload,
}

/// Whether `data` opens with the magic string `MyProtocol`.
pub open spec fn has_magic(data: Seq<u8>) -> bool {
    &&& data.len() >= 10
    &&& data[0] == 77  // M
    &&& data[1] == 121  // y
    &&& data[2] == 80  // P
    &&& data[3] == 114  // r
    &&& data[4] == 111  // o
    &&& data[5] == 116  // t
    &&& data[6] == 111  // o
    &&& data[7] == 99  // c
    &&& data[8] == 111  // o
    &&& data[9] == 108  // l
}

/// Whether the tag after the magic declares little-endian words.
pub open spec fn has_little_endian_tag(data: Seq<u8>) -> bool {
    data.len() >= 12 && data[10] == 76 && data[11] == 69  // LE
}

/// Whether the tag after the magic declares big-endian words.
pub open spec fn has_big_endian_tag(data: Seq<u8>) -> bool {
    data.len() >= 12 && data[10] == 66 && data[11] == 69  // BE
}

/// A well-formed message: magic, a known endianness tag, and a payload of
/// whole words.
pub open spec fn valid_protocol(data: Seq<u8>) -> bool {
    &&& has_magic(data)
    &&& (has_little_endian_tag(data) || has_big_endian_tag(data))
    &&& (data.len() - 12) % 4 == 0
}

/// The number a word's four bytes denote, least significant byte first.
pub open spec fn le_word(b0: u8, b1: u8, b2: u8, b3: u8) -> int {
    b0 + 256 * b1 + 65536 * b2 + 16777216 * b3
}

/// How many words the payload carries.
pub open spec fn payload_len(data: Seq<u8>) -> int {
    (data.len() - 12) / 4
}

/// The `k`-th payload word of a message, read in its declared byte order.
pub open spec fn payload_word(data: Seq<u8>, k: int) -> int {
    let p = 12 + 4 * k;
    if has_little_endian_tag(data) {
        le_word(data[p], data[p + 1], data[p + 2], data[p + 3])
    } else {
        le_word(data[p + 3], data[p + 2], data[p + 1], data[p])
    }
}

/// Joins a word's four bytes, least significant first.
fn word_from_bytes(b0: u8, b1: u8, b2: u8, b3: u8) -> (w: u32)
    ensures
        w == le_word(b0, b1, b2, b3),
{
    (b0 as u32) + 256 * (b1 as u32) + 65536 * (b2 as u32) + 16777216 * (b3 as u32)
}

/// Whether `data` opens with the magic string.
fn check_magic(data: &[u8]) -> (r: bool)
    ensures
        r == has_magic(data@),
{
    data.len() >= 10 && data[0] == 77 && data[1] == 121 && data[2] == 80 && data[3] == 114
        && data[4] == 111 && data[5] == 116 && data[6] == 111 && data[7] == 99 && data[8] == 111
        && data[9] == 108
}

/// Decodes a protocol message into its payload words. Succeeds exactly on
/// well-formed messages and says what is malformed about the rest: no magic,
/// an unknown endianness tag, or a payload cut off inside a word.
pub fn read_protocol(data: &[u8]) -> (r: Result<Vec<u32>, ProtocolError>)
    ensures
        r is Ok <==> valid_protocol(data@),
        r matches Ok(payload) ==> {
            &&& payload@.len() == payload_len(data@)
            &&& forall|k: int| 0 <= k < payload@.len() ==> payload@[k] == payload_word(data@, k)
        },
        r == Err::<Vec<u32>, ProtocolError>(ProtocolError::BadMagic) <==> !has_magic(data@),
        r == Err::<Vec<u32>, ProtocolError>(ProtocolError::BadEndianness) <==> has_magic(data@)
            && !(has_little_endian_tag(data@) || has_big_endian_tag(data@)),
        r == Err::<Vec<u32>, ProtocolError>(ProtocolError::TruncatedPayload) <==> has_magic(data@)
            && (has_little_endian_tag(data@) || has_big_endian_tag(data@)) && (data@.len() - 12) % 4
            != 0,
{
    if !check_magic(data) {
        return Err(ProtocolError::BadMagic);
    }
    let n = data.len();
    let little_endian: bool = if n >= 12 && data[10] == 76 && data[11] == 69 {
        true
    } else if n >= 12 && data[10] == 66 && data[11] == 69 {
        false
    } else {
        return Err(ProtocolError::BadEndianness);
    };
    if (n - 12) % 4 != 0 {
        return Err(ProtocolError::TruncatedPayload);
    }
    let mut payload: Vec<u32> = Vec::new();
    let mut p: usize = 12;
    while p < n
        invariant
            12 <= p <= n == data@.len(),
            (n - 12) % 4 == 0,
            (p - 12) % 4 == 0,
            little_endian == has_little_endian_tag(data@),
            little_endian || has_big_endian_tag(data@),
            payload@.len() == (p - 12) / 4,
            forall|k: int| 0 <= k < payload@.len() ==> payload@[k] == payload_word(data@, k),
        decreases n - p,
    {
        let w = if little_endian {
            word_from_bytes(data[p], data[p + 1], data[p + 2], data[p + 3])
        } else {
            word_from_bytes(data[p + 3], data[p + 2], data[p + 1], data[p])
        };
        proof {
            assert(12 + 4 * ((p - 12) / 4) == p);
        }
        payload.push(w);
        p = p + 4;
    }
    Ok(payload)
}

/// Encodes a message: magic, the requested endianness tag, then every payload
/// word in that byte order. Decoding gives the same words back.
pub fn write_protocol(payload: &[u32], little_endian: bool) -> (r: Vec<u8>)
    ensures
        valid_protocol(r@),
        has_little_endian_tag(r@) == little_endian,
        payload_len(r@) == payload@.len(),
        forall|k: int| 0 <= k < payload@.len() ==> payload_word(r@, k) == payload@[k],
{
    let mut data: Vec<u8> = vec![77, 121, 80, 114, 111, 116, 111, 99, 111, 108];
    if little_endian {
        data.push(76);
    } else {
        data.push(66);
    }
    data.push(69);
    let n = payload.len();
    let mut i: usize = 0;
    while i < n
        invariant
            i <= n == payload@.len(),
            data@.len() == 12 + 4 * i,
            has_magic(data@),
            has_little_endian_tag(data@) == little_endian,
            little_endian || has_big_endian_tag(data@),
            forall|k: int| 0 <= k < i ==> payload_word(data@, k) == payload@[k],
        decreases n - i,
    {
        let w = payload[i];
        let b0 = (w % 256) as u8;
        let b1 = ((w / 256) % 256) as u8;
        let b2 = ((w / 65536) % 256) as u8;
        let b3 = ((w / 16777216) % 256) as u8;
        proof {
            assert(le_word(b0, b1, b2, b3) == w) by (nonlinear_arith)
                requires
                    b0 == w % 256,
                    b1 == (w / 256) % 256,
                    b2 == (w / 65536) % 256,
                    b3 == (w / 16777216) % 256,
                    w <= u32::MAX,
            ;
        }
        let ghost before = data@;
        if little_endian {
            data.push(b0);
            data.push(b1);
            data.push(b2);
            data.push(b3);
        } else {
            data.push(b3);
            data.push(b2);
            data.push(b1);
            data.push(b0);
        }
        proof {
            assert(forall|j: int| 0 <= j < before.len() ==> data@[j] == before[j]);
            assert(payload_word(data@, i as int) == payload@[i as int]);
            assert(forall|k: int| 0 <= k < i ==> payload_word(data@, k) == payload@[k]);
        }
        i = i + 1;
    }
    proof {
        assert((data@.len() - 12) % 4 == 0);
    }
    data
}

} // verus!
