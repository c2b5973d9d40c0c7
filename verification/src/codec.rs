use vstd::bytes::{
    lemma_auto_spec_u64_to_from_le_bytes, spec_u64_from_le_bytes, spec_u64_to_le_bytes,
    u64_from_le_bytes, u64_to_le_bytes,
};
use vstd::prelude::*;
use vstd::slice::{slice_index_get, slice_subrange, slice_to_vec};
use vstd::string::StrSliceExecFns;
use vstd::utf8::{decode_utf8, encode_utf8, encode_utf8_decode_utf8, encode_utf8_valid_utf8,
    valid_utf8};

use crate::records::{Debt, DebtModel, Escrow, EscrowModel};

verus! {

/// Design limit: no stored record may encode to more than this many bytes.
pub const MAX_RECORD_BYTES: usize = 1024;

/// Leading byte that marks an encoded debt record.
pub const DEBT_TAG: u8 = 1;

/// Leading byte that marks an encoded escrow record.
pub const ESCROW_TAG: u8 = 2;

/// Fixed part of a debt encoding: tag, id, amount, created_at, and the two
/// text lengths, each length and integer as eight little-endian bytes.
pub const DEBT_HEADER_BYTES: usize = 41;

/// Fixed (and entire) size of an escrow encoding.
pub const ESCROW_BYTES: usize = 25;

/// The byte encoding of a debt record: a tag byte, the three integers, the
/// byte lengths of the two texts, then the texts in UTF-8.
pub open spec fn spec_encode_debt(d: DebtModel) -> Seq<u8> {
    seq![DEBT_TAG] + spec_u64_to_le_bytes(d.id) + spec_u64_to_le_bytes(d.amount)
        + spec_u64_to_le_bytes(d.created_at)
        + spec_u64_to_le_bytes(encode_utf8(d.debtor).len() as u64)
        + spec_u64_to_le_bytes(encode_utf8(d.creditor).len() as u64) + encode_utf8(d.debtor)
        + encode_utf8(d.creditor)
}

/// The decoding of a byte sequence as a debt record: `None` unless the tag,
/// the lengths and the UTF-8 texts are exactly as `spec_encode_debt` lays
/// them out.
pub open spec fn spec_decode_debt(b: Seq<u8>) -> Option<DebtModel> {
    if b.len() < DEBT_HEADER_BYTES {
        None
    } else if b[0] != DEBT_TAG {
        None
    } else {
        let id = spec_u64_from_le_bytes(b.subrange(1, 9));
        let amount = spec_u64_from_le_bytes(b.subrange(9, 17));
        let created_at = spec_u64_from_le_bytes(b.subrange(17, 25));
        let dlen = spec_u64_from_le_bytes(b.subrange(25, 33)) as int;
        let clen = spec_u64_from_le_bytes(b.subrange(33, 41)) as int;
        if b.len() != DEBT_HEADER_BYTES + dlen + clen {
            None
        } else {
            let dbytes = b.subrange(41, 41 + dlen);
            let cbytes = b.subrange(41 + dlen, 41 + dlen + clen);
            if valid_utf8(dbytes) && valid_utf8(cbytes) {
                Some(
                    DebtModel {
                        id,
                        debtor: decode_utf8(dbytes),
                        creditor: decode_utf8(cbytes),
                        amount,
                        created_at,
                    },
                )
            } else {
                None
            }
        }
    }
}

/// The byte encoding of an escrow record: a tag byte and the three integers.
pub open spec fn spec_encode_escrow(e: EscrowModel) -> Seq<u8> {
    seq![ESCROW_TAG] + spec_u64_to_le_bytes(e.debt_id) + spec_u64_to_le_bytes(e.amount)
        + spec_u64_to_le_bytes(e.created_at)
}

/// The decoding of a byte sequence as an escrow record.
pub open spec fn spec_decode_escrow(b: Seq<u8>) -> Option<EscrowModel> {
    if b.len() != ESCROW_BYTES {
        None
    } else if b[0] != ESCROW_TAG {
        None
    } else {
        Some(
            EscrowModel {
                debt_id: spec_u64_from_le_bytes(b.subrange(1, 9)),
                amount: spec_u64_from_le_bytes(b.subrange(9, 17)),
                created_at: spec_u64_from_le_bytes(b.subrange(17, 25)),
            },
        )
    }
}

/// Relies on `String::from_utf8`: it returns `Ok` exactly on valid UTF-8,
/// and the returned string's bytes are the input bytes.
#[verifier::external_body]
fn string_from_utf8(v: Vec<u8>) -> (r: Option<String>)
    ensures
        match r {
            Some(s) => valid_utf8(v@) && s@ == decode_utf8(v@),
            None => !valid_utf8(v@),
        },
{
    String::from_utf8(v).ok()
}

/// Encodes a debt record to bytes.
pub fn encode_debt(d: &Debt) -> (r: Vec<u8>)
    ensures
        r@ == spec_encode_debt(d@),
{
    let mut out: Vec<u8> = Vec::new();
    out.push(DEBT_TAG);
    let mut id_b = u64_to_le_bytes(d.id);
    out.append(&mut id_b);
    let mut am_b = u64_to_le_bytes(d.amount);
    out.append(&mut am_b);
    let mut cr_b = u64_to_le_bytes(d.created_at);
    out.append(&mut cr_b);
    let mut db = d.debtor.as_str().as_bytes_vec();
    let mut cb = d.creditor.as_str().as_bytes_vec();
    let mut dl_b = u64_to_le_bytes(db.len() as u64);
    out.append(&mut dl_b);
    let mut cl_b = u64_to_le_bytes(cb.len() as u64);
    out.append(&mut cl_b);
    out.append(&mut db);
    out.append(&mut cb);
    assert(out@ =~= spec_encode_debt(d@));
    out
}

/// Encodes an escrow record to bytes.
pub fn encode_escrow(e: &Escrow) -> (r: Vec<u8>)
    ensures
        r@ == spec_encode_escrow(e@),
        r@.len() == ESCROW_BYTES,
{
    let mut out: Vec<u8> = Vec::new();
    out.push(ESCROW_TAG);
    let mut id_b = u64_to_le_bytes(e.debt_id);
    out.append(&mut id_b);
    let mut am_b = u64_to_le_bytes(e.amount);
    out.append(&mut am_b);
    let mut cr_b = u64_to_le_bytes(e.created_at);
    out.append(&mut cr_b);
    proof {
        lemma_auto_spec_u64_to_from_le_bytes();
    }
    assert(out@ =~= spec_encode_escrow(e@));
    out
}

/// Decodes bytes as a debt record; `None` on any malformed input.
pub fn decode_debt(b: &[u8]) -> (r: Option<Debt>)
    ensures
        match r {
            Some(d) => spec_decode_debt(b@) == Some(d@),
            None => spec_decode_debt(b@) is None,
        },
{
    proof {
        lemma_auto_spec_u64_to_from_le_bytes();
    }
    let n = b.len();
    if n < DEBT_HEADER_BYTES {
        return None;
    }
    if *slice_index_get(b, 0) != DEBT_TAG {
        return None;
    }
    let id = u64_from_le_bytes(slice_subrange(b, 1, 9));
    let amount = u64_from_le_bytes(slice_subrange(b, 9, 17));
    let created_at = u64_from_le_bytes(slice_subrange(b, 17, 25));
    let dlen = u64_from_le_bytes(slice_subrange(b, 25, 33));
    let clen = u64_from_le_bytes(slice_subrange(b, 33, 41));
    let rest = (n - DEBT_HEADER_BYTES) as u64;
    if dlen > rest || clen != rest - dlen {
        assert(b@.len() != DEBT_HEADER_BYTES + dlen + clen);
        return None;
    }
    let dend = DEBT_HEADER_BYTES + dlen as usize;
    let dbytes = slice_to_vec(slice_subrange(b, DEBT_HEADER_BYTES, dend));
    let cbytes = slice_to_vec(slice_subrange(b, dend, n));
    let debtor = match string_from_utf8(dbytes) {
        Some(s) => s,
        None => {
            return None;
        },
    };
    let creditor = match string_from_utf8(cbytes) {
        Some(s) => s,
        None => {
            return None;
        },
    };
    Some(Debt { id, debtor, creditor, amount, created_at })
}

/// Decodes bytes as an escrow record; `None` on any malformed input.
pub fn decode_escrow(b: &[u8]) -> (r: Option<Escrow>)
    ensures
        match r {
            Some(e) => spec_decode_escrow(b@) == Some(e@),
            None => spec_decode_escrow(b@) is None,
        },
{
    proof {
        lemma_auto_spec_u64_to_from_le_bytes();
    }
    if b.len() != ESCROW_BYTES {
        return None;
    }
    if *slice_index_get(b, 0) != ESCROW_TAG {
        return None;
    }
    let debt_id = u64_from_le_bytes(slice_subrange(b, 1, 9));
    let amount = u64_from_le_bytes(slice_subrange(b, 9, 17));
    let created_at = u64_from_le_bytes(slice_subrange(b, 17, 25));
    Some(Escrow { debt_id, amount, created_at })
}

/// An encoded debt takes the fixed header plus the UTF-8 bytes of its texts.
pub proof fn lemma_debt_encoded_len(d: DebtModel)
    ensures
        spec_encode_debt(d).len() == DEBT_HEADER_BYTES + encode_utf8(d.debtor).len()
            + encode_utf8(d.creditor).len(),
{
    lemma_auto_spec_u64_to_from_le_bytes();
}

/// Law: decoding an encoded debt gives the debt back, for every record whose
/// texts' UTF-8 forms have a representable length.
pub proof fn lemma_debt_round_trip(d: DebtModel)
    requires
        encode_utf8(d.debtor).len() <= u64::MAX,
        encode_utf8(d.creditor).len() <= u64::MAX,
    ensures
        spec_decode_debt(spec_encode_debt(d)) == Some(d),
{
    lemma_auto_spec_u64_to_from_le_bytes();
    broadcast use encode_utf8_valid_utf8, encode_utf8_decode_utf8;

    let db = encode_utf8(d.debtor);
    let cb = encode_utf8(d.creditor);
    let b = spec_encode_debt(d);
    assert(b.len() == DEBT_HEADER_BYTES + db.len() + cb.len());
    assert(b[0] == DEBT_TAG);
    assert(b.subrange(1, 9) =~= spec_u64_to_le_bytes(d.id));
    assert(b.subrange(9, 17) =~= spec_u64_to_le_bytes(d.amount));
    assert(b.subrange(17, 25) =~= spec_u64_to_le_bytes(d.created_at));
    assert(b.subrange(25, 33) =~= spec_u64_to_le_bytes(db.len() as u64));
    assert(b.subrange(33, 41) =~= spec_u64_to_le_bytes(cb.len() as u64));
    assert(b.subrange(41, 41 + db.len() as int) =~= db);
    assert(b.subrange(41 + db.len() as int, 41 + db.len() + cb.len() as int) =~= cb);
}

/// Law: decoding an encoded escrow gives the escrow back, for every record.
pub proof fn lemma_escrow_round_trip(e: EscrowModel)
    ensures
        spec_decode_escrow(spec_encode_escrow(e)) == Some(e),
{
    lemma_auto_spec_u64_to_from_le_bytes();
    let b = spec_encode_escrow(e);
    assert(b.len() == ESCROW_BYTES);
    assert(b[0] == ESCROW_TAG);
    assert(b.subrange(1, 9) =~= spec_u64_to_le_bytes(e.debt_id));
    assert(b.subrange(9, 17) =~= spec_u64_to_le_bytes(e.amount));
    assert(b.subrange(17, 25) =~= spec_u64_to_le_bytes(e.created_at));
}

} // verus!
