use vstd::prelude::*;
use vstd::bytes::lemma_auto_spec_u32_to_from_le_bytes;
use vstd::bytes::lemma_auto_spec_u64_to_from_le_bytes;
use vstd::bytes::spec_u32_to_le_bytes;
use vstd::bytes::spec_u64_to_le_bytes;
use vstd::bytes::u32_from_le_bytes;
use vstd::bytes::u32_to_le_bytes;
use vstd::bytes::u64_from_le_bytes;
use vstd::bytes::u64_to_le_bytes;
use crate::bytesutil::bytes_eq;
use crate::bytesutil::sub_bytes;
use crate::state::Memo;
use crate::state::MemoView;
use crate::state::spec_space;

verus! {

/// A signed timestamp reinterpreted as its two's-complement 64-bit value.
pub open spec fn spec_i64_as_u64(x: i64) -> u64 {
    if x >= 0 {
        x as u64
    } else {
        (x + 0x1_0000_0000_0000_0000) as u64
    }
}

/// Little-endian encoding of a signed 64-bit value, via two's complement.
pub open spec fn spec_i64_to_le_bytes(x: i64) -> Seq<u8> {
    spec_u64_to_le_bytes(spec_i64_as_u64(x))
}

/// Encodes a signed 64-bit value as its 8 little-endian two's-complement
/// bytes.
pub fn i64_to_le_bytes(x: i64) -> (r: Vec<u8>)
    ensures
        r@ == spec_i64_to_le_bytes(x),
        r@.len() == 8,
{
    let reinterpreted: u64 = if x >= 0 {
        x as u64
    } else {
        let distance_from_top: u64 = (-(x + 1)) as u64;
        u64::MAX - distance_from_top
    };
    proof {
        assert(reinterpreted == spec_i64_as_u64(x));
        lemma_auto_spec_u64_to_from_le_bytes();
    }
    u64_to_le_bytes(reinterpreted)
}

/// The 8-byte type tag that opens every persisted record, keeping this record
/// type apart from anything else in the same storage domain: the bytes of
/// `"memorecd"`.
pub open spec fn record_type_tag() -> Seq<u8> {
    seq![109u8, 101u8, 109u8, 111u8, 114u8, 101u8, 99u8, 100u8]
}

fn record_tag_bytes() -> (r: Vec<u8>)
    ensures
        r@ == record_type_tag(),
{
    let mut v: Vec<u8> = Vec::new();
    v.push(109);
    v.push(101);
    v.push(109);
    v.push(111);
    v.push(114);
    v.push(101);
    v.push(99);
    v.push(100);
    proof {
        assert(v@ =~= record_type_tag());
    }
    v
}

/// The persisted bytes of a record: the 8-byte type tag, the 32-byte author,
/// the 4-byte little-endian payload length, the payload, the 8-byte
/// little-endian timestamp, the 8-byte little-endian nonce and the bump byte.
pub open spec fn spec_encode_record(m: MemoView) -> Seq<u8> {
    record_type_tag() + m.author + spec_u32_to_le_bytes(m.text.len() as u32) + m.text
        + spec_i64_to_le_bytes(m.timestamp) + spec_u64_to_le_bytes(m.nonce) + seq![m.bump]
}

/// Lays a record out byte-exactly as it is persisted; the result fills the
/// allocated storage size exactly.
pub fn encode_record(memo: &Memo) -> (r: Vec<u8>)
    requires
        memo@.wf(),
    ensures
        r@ == spec_encode_record(memo@),
        r@.len() == spec_space(memo@.text.len()),
{
    proof {
        lemma_auto_spec_u32_to_from_le_bytes();
        lemma_auto_spec_u64_to_from_le_bytes();
    }
    let mut out = record_tag_bytes();
    let mut author = memo.author.clone();
    out.append(&mut author);
    let mut len_bytes = u32_to_le_bytes(memo.text.len() as u32);
    out.append(&mut len_bytes);
    let mut text = memo.text.clone();
    out.append(&mut text);
    let mut ts_bytes = i64_to_le_bytes(memo.timestamp);
    out.append(&mut ts_bytes);
    let mut nonce_bytes = u64_to_le_bytes(memo.nonce);
    out.append(&mut nonce_bytes);
    out.push(memo.bump);
    proof {
        assert(out@ =~= spec_encode_record(memo@));
    }
    out
}

/// How every well-formed record's encoding is laid out: its exact length and
/// the position of every field.
proof fn lemma_encode_shape(m: MemoView)
    requires
        m.wf(),
    ensures
        ({
            let e = spec_encode_record(m);
            let len = m.text.len() as int;
            &&& e.len() == 61 + len
            &&& e.subrange(0, 8) == record_type_tag()
            &&& e.subrange(8, 40) == m.author
            &&& e.subrange(40, 44) == spec_u32_to_le_bytes(m.text.len() as u32)
            &&& e.subrange(44, 44 + len) == m.text
            &&& e.subrange(44 + len, 52 + len) == spec_i64_to_le_bytes(m.timestamp)
            &&& e.subrange(52 + len, 60 + len) == spec_u64_to_le_bytes(m.nonce)
            &&& e[60 + len] == m.bump
        }),
{
    lemma_auto_spec_u32_to_from_le_bytes();
    lemma_auto_spec_u64_to_from_le_bytes();
    let e = spec_encode_record(m);
    let len = m.text.len() as int;
    assert(e.subrange(0, 8) =~= record_type_tag());
    assert(e.subrange(8, 40) =~= m.author);
    assert(e.subrange(40, 44) =~= spec_u32_to_le_bytes(m.text.len() as u32));
    assert(e.subrange(44, 44 + len) =~= m.text);
    assert(e.subrange(44 + len, 52 + len) =~= spec_i64_to_le_bytes(m.timestamp));
    assert(e.subrange(52 + len, 60 + len) =~= spec_u64_to_le_bytes(m.nonce));
}

fn i64_from_two_complement(v: u64) -> (r: i64)
    ensures
        spec_i64_as_u64(r) == v,
{
    if v <= i64::MAX as u64 {
        v as i64
    } else {
        let distance_from_top: u64 = u64::MAX - v;
        -(distance_from_top as i64) - 1
    }
}

/// Parses persisted bytes back into a record: accepts exactly the encodings of
/// well-formed records, and hands back the one record the bytes spell.
pub fn decode_record(bytes: &Vec<u8>) -> (r: Option<Memo>)
    ensures
        match r {
            Some(memo) => memo@.wf() && bytes@ == spec_encode_record(memo@),
            None => forall|m: MemoView| m.wf() ==> bytes@ != #[trigger] spec_encode_record(m),
        },
{
    if bytes.len() < 62 || bytes.len() > 341 {
        proof {
            assert forall|m: MemoView| m.wf() implies bytes@ != #[trigger] spec_encode_record(
                m,
            ) by {
                lemma_encode_shape(m);
            }
        }
        return None;
    }
    let tag = record_tag_bytes();
    let found_tag = sub_bytes(bytes, 0, 8);
    if !bytes_eq(&found_tag, &tag) {
        proof {
            assert forall|m: MemoView| m.wf() implies bytes@ != #[trigger] spec_encode_record(
                m,
            ) by {
                lemma_encode_shape(m);
                if bytes@ == spec_encode_record(m) {
                    assert(bytes@.subrange(0, 8) == spec_encode_record(m).subrange(0, 8));
                }
            }
        }
        return None;
    }
    let len_bytes = sub_bytes(bytes, 40, 44);
    let declared = u32_from_le_bytes(len_bytes.as_slice());
    if declared == 0 || declared > 280 {
        proof {
            lemma_auto_spec_u32_to_from_le_bytes();
            assert forall|m: MemoView| m.wf() implies bytes@ != #[trigger] spec_encode_record(
                m,
            ) by {
                lemma_encode_shape(m);
                if bytes@ == spec_encode_record(m) {
                    assert(bytes@.subrange(40, 44) == spec_u32_to_le_bytes(m.text.len() as u32));
                    assert(declared == m.text.len() as u32);
                }
            }
        }
        return None;
    }
    let payload_len = declared as usize;
    if bytes.len() != 61 + payload_len {
        proof {
            lemma_auto_spec_u32_to_from_le_bytes();
            assert forall|m: MemoView| m.wf() implies bytes@ != #[trigger] spec_encode_record(
                m,
            ) by {
                lemma_encode_shape(m);
                if bytes@ == spec_encode_record(m) {
                    assert(bytes@.subrange(40, 44) == spec_u32_to_le_bytes(m.text.len() as u32));
                    assert(declared == m.text.len() as u32);
                }
            }
        }
        return None;
    }
    let author = sub_bytes(bytes, 8, 40);
    let text = sub_bytes(bytes, 44, 44 + payload_len);
    let ts_bytes = sub_bytes(bytes, 44 + payload_len, 52 + payload_len);
    let ts_reinterpreted = u64_from_le_bytes(ts_bytes.as_slice());
    let timestamp = i64_from_two_complement(ts_reinterpreted);
    let nonce_bytes = sub_bytes(bytes, 52 + payload_len, 60 + payload_len);
    let nonce = u64_from_le_bytes(nonce_bytes.as_slice());
    let bump = bytes[60 + payload_len];
    let memo = Memo { author, text, timestamp, nonce, bump };
    proof {
        lemma_auto_spec_u32_to_from_le_bytes();
        lemma_auto_spec_u64_to_from_le_bytes();
        let len = payload_len as int;
        assert(spec_u32_to_le_bytes(memo@.text.len() as u32) == bytes@.subrange(40, 44));
        assert(spec_i64_to_le_bytes(memo.timestamp) == bytes@.subrange(44 + len, 52 + len));
        assert(spec_u64_to_le_bytes(memo.nonce) == bytes@.subrange(52 + len, 60 + len));
        assert(bytes@ =~= spec_encode_record(memo@));
    }
    Some(memo)
}

/// No two distinct well-formed records persist as the same bytes: the layout
/// is injective.
pub proof fn lemma_encode_injective(m1: MemoView, m2: MemoView)
    requires
        m1.wf(),
        m2.wf(),
        spec_encode_record(m1) == spec_encode_record(m2),
    ensures
        m1 == m2,
{
    lemma_auto_spec_u32_to_from_le_bytes();
    lemma_auto_spec_u64_to_from_le_bytes();
    lemma_encode_shape(m1);
    lemma_encode_shape(m2);
    assert(m1.text.len() == m2.text.len()) by {
        assert(spec_u32_to_le_bytes(m1.text.len() as u32) == spec_u32_to_le_bytes(
            m2.text.len() as u32,
        ));
    }
    assert(spec_i64_as_u64(m1.timestamp) == spec_i64_as_u64(m2.timestamp));
    assert(m1.timestamp == m2.timestamp);
}

} // verus!

