use vstd::prelude::*;

use crate::types::{
    byte_strings, BlockHeaderInfo, BlockHeaderModel, ChunkHeaderInfo, ChunkHeaderModel, StateWitness,
    StateWitnessModel,
};

verus! {

/// The eight little-endian bytes of `n`.
pub open spec fn u64_le(n: u64) -> Seq<u8> {
    seq![
        n as u8,
        (n >> 8u64) as u8,
        (n >> 16u64) as u8,
        (n >> 24u64) as u8,
        (n >> 32u64) as u8,
        (n >> 40u64) as u8,
        (n >> 48u64) as u8,
        (n >> 56u64) as u8,
    ]
}

/// The number whose little-endian bytes are the first eight of `s`.
pub open spec fn le_u64(s: Seq<u8>) -> u64
    recommends
        s.len() >= 8,
{
    (s[0] as u64) | ((s[1] as u64) << 8u64) | ((s[2] as u64) << 16u64) | ((s[3] as u64)
        << 24u64) | ((s[4] as u64) << 32u64) | ((s[5] as u64) << 40u64) | ((s[6] as u64)
        << 48u64) | ((s[7] as u64) << 56u64)
}

pub proof fn lemma_le_u64_of_u64_le(n: u64)
    ensures
        le_u64(u64_le(n)) == n,
{
    let s = u64_le(n);
    let (b0, b1, b2, b3, b4, b5, b6, b7) = (s[0], s[1], s[2], s[3], s[4], s[5], s[6], s[7]);
    assert((b0 as u64) | ((b1 as u64) << 8u64) | ((b2 as u64) << 16u64) | ((b3 as u64) << 24u64)
        | ((b4 as u64) << 32u64) | ((b5 as u64) << 40u64) | ((b6 as u64) << 48u64) | ((b7 as u64)
        << 56u64) == n) by (bit_vector)
        requires
            b0 == n as u8,
            b1 == (n >> 8u64) as u8,
            b2 == (n >> 16u64) as u8,
            b3 == (n >> 24u64) as u8,
            b4 == (n >> 32u64) as u8,
            b5 == (n >> 40u64) as u8,
            b6 == (n >> 48u64) as u8,
            b7 == (n >> 56u64) as u8,
    ;
}

/// A byte string: its length as eight little-endian bytes, then the bytes.
pub open spec fn enc_bytes(b: Seq<u8>) -> Seq<u8> {
    u64_le(b.len() as u64) + b
}

/// The byte strings of `s`, each encoded, one after the other.
pub open spec fn enc_items(s: Seq<Seq<u8>>) -> Seq<u8>
    decreases s.len(),
{
    if s.len() == 0 {
        Seq::empty()
    } else {
        enc_items(s.drop_last()) + enc_bytes(s.last())
    }
}

/// A list of byte strings: the count, then the items.
pub open spec fn enc_list(s: Seq<Seq<u8>>) -> Seq<u8> {
    u64_le(s.len() as u64) + enc_items(s)
}

pub open spec fn enc_block_header(h: BlockHeaderModel) -> Seq<u8> {
    enc_bytes(h.hash) + (enc_bytes(h.prev_hash) + u64_le(h.height))
}

pub open spec fn enc_chunk_header(c: ChunkHeaderModel) -> Seq<u8> {
    enc_bytes(c.chunk_hash) + (enc_bytes(c.prev_block_hash) + (enc_bytes(c.prev_state_root) + (
    u64_le(c.shard_id) + (u64_le(c.height_created) + u64_le(c.height_included)))))
}

/// The byte form of a state witness.
pub open spec fn encode_witness(w: StateWitnessModel) -> Seq<u8> {
    enc_bytes(w.chunk_producer) + (enc_block_header(w.prev_block_header) + (enc_chunk_header(
        w.prev_chunk_header,
    ) + (enc_chunk_header(w.chunk_header) + (enc_list(w.transactions) + enc_list(
        w.storage_proof,
    )))))
}

pub open spec fn parse_u64(s: Seq<u8>) -> Option<(u64, Seq<u8>)> {
    if s.len() >= 8 {
        Some((le_u64(s), s.skip(8)))
    } else {
        None
    }
}

pub open spec fn parse_bytes(s: Seq<u8>) -> Option<(Seq<u8>, Seq<u8>)> {
    match parse_u64(s) {
        Some((n, r)) => if n <= r.len() {
            Some((r.take(n as int), r.skip(n as int)))
        } else {
            None
        },
        None => None,
    }
}

/// Reads `k` encoded byte strings from the front of `s`.
pub open spec fn parse_items(k: nat, s: Seq<u8>) -> Option<(Seq<Seq<u8>>, Seq<u8>)>
    decreases k,
{
    if k == 0 {
        Some((Seq::empty(), s))
    } else {
        match parse_items((k - 1) as nat, s) {
            Some((items, r)) => match parse_bytes(r) {
                Some((b, r2)) => Some((items.push(b), r2)),
                None => None,
            },
            None => None,
        }
    }
}

#[verifier::opaque]
pub open spec fn parse_list(s: Seq<u8>) -> Option<(Seq<Seq<u8>>, Seq<u8>)> {
    match parse_u64(s) {
        Some((n, r)) => parse_items(n as nat, r),
        None => None,
    }
}

#[verifier::opaque]
pub open spec fn parse_block_header(s: Seq<u8>) -> Option<(BlockHeaderModel, Seq<u8>)> {
    match parse_bytes(s) {
        Some((hash, r1)) => match parse_bytes(r1) {
            Some((prev_hash, r2)) => match parse_u64(r2) {
                Some((height, r3)) => Some(
                    (BlockHeaderModel { hash, prev_hash, height }, r3),
                ),
                None => None,
            },
            None => None,
        },
        None => None,
    }
}

#[verifier::opaque]
pub open spec fn parse_chunk_header(s: Seq<u8>) -> Option<(ChunkHeaderModel, Seq<u8>)> {
    match parse_bytes(s) {
        Some((chunk_hash, r1)) => match parse_bytes(r1) {
            Some((prev_block_hash, r2)) => match parse_bytes(r2) {
                Some((prev_state_root, r3)) => match parse_u64(r3) {
                    Some((shard_id, r4)) => match parse_u64(r4) {
                        Some((height_created, r5)) => match parse_u64(r5) {
                            Some((height_included, r6)) => Some(
                                (
                                    ChunkHeaderModel {
                                        chunk_hash,
                                        prev_block_hash,
                                        prev_state_root,
                                        shard_id,
                                        height_created,
                                        height_included,
                                    },
                                    r6,
                                ),
                            ),
                            None => None,
                        },
                        None => None,
                    },
                    None => None,
                },
                None => None,
            },
            None => None,
        },
        None => None,
    }
}

pub open spec fn parse_witness(s: Seq<u8>) -> Option<(StateWitnessModel, Seq<u8>)> {
    match parse_bytes(s) {
        Some((chunk_producer, r1)) => match parse_block_header(r1) {
            Some((prev_block_header, r2)) => match parse_chunk_header(r2) {
                Some((prev_chunk_header, r3)) => match parse_chunk_header(r3) {
                    Some((chunk_header, r4)) => match parse_list(r4) {
                        Some((transactions, r5)) => match parse_list(r5) {
                            Some((storage_proof, r6)) => Some(
                                (
                                    StateWitnessModel {
                                        chunk_producer,
                                        prev_block_header,
                                        prev_chunk_header,
                                        chunk_header,
                                        transactions,
                                        storage_proof,
                                    },
                                    r6,
                                ),
                            ),
                            None => None,
                        },
                        None => None,
                    },
                    None => None,
                },
                None => None,
            },
            None => None,
        },
        None => None,
    }
}

/// The witness that `s` encodes: all of `s`, nothing left over.
pub open spec fn decode_witness(s: Seq<u8>) -> Option<StateWitnessModel> {
    match parse_witness(s) {
        Some((w, rest)) => if rest.len() == 0 {
            Some(w)
        } else {
            None
        },
        None => None,
    }
}

/// Every length in the witness can be written as a `u64`.
pub open spec fn witness_fits(w: StateWitnessModel) -> bool {
    &&& w.chunk_producer.len() <= u64::MAX
    &&& block_header_fits(w.prev_block_header)
    &&& chunk_header_fits(w.prev_chunk_header)
    &&& chunk_header_fits(w.chunk_header)
    &&& list_fits(w.transactions)
    &&& list_fits(w.storage_proof)
}

pub open spec fn block_header_fits(h: BlockHeaderModel) -> bool {
    h.hash.len() <= u64::MAX && h.prev_hash.len() <= u64::MAX
}

pub open spec fn chunk_header_fits(c: ChunkHeaderModel) -> bool {
    &&& c.chunk_hash.len() <= u64::MAX
    &&& c.prev_block_hash.len() <= u64::MAX
    &&& c.prev_state_root.len() <= u64::MAX
}

pub open spec fn list_fits(s: Seq<Seq<u8>>) -> bool {
    s.len() <= u64::MAX && forall|i: int| 0 <= i < s.len() ==> #[trigger] s[i].len() <= u64::MAX
}

proof fn lemma_parse_u64(n: u64, rest: Seq<u8>)
    ensures
        parse_u64(u64_le(n) + rest) == Some((n, rest)),
{
    let s = u64_le(n) + rest;
    lemma_le_u64_of_u64_le(n);
    assert(le_u64(s) == le_u64(u64_le(n))) by {
        assert forall|i: int| 0 <= i < 8 implies s[i] == u64_le(n)[i] by {}
    }
    assert(s.skip(8) =~= rest);
}

proof fn lemma_parse_bytes(b: Seq<u8>, rest: Seq<u8>)
    requires
        b.len() <= u64::MAX,
    ensures
        parse_bytes(enc_bytes(b) + rest) == Some((b, rest)),
{
    let n = b.len() as u64;
    assert(enc_bytes(b) + rest =~= u64_le(n) + (b + rest));
    lemma_parse_u64(n, b + rest);
    assert((b + rest).take(n as int) =~= b);
    assert((b + rest).skip(n as int) =~= rest);
}

proof fn lemma_parse_items(s: Seq<Seq<u8>>, rest: Seq<u8>)
    requires
        list_fits(s),
    ensures
        parse_items(s.len(), enc_items(s) + rest) == Some((s, rest)),
    decreases s.len(),
{
    if s.len() > 0 {
        let init = s.drop_last();
        let tail = enc_bytes(s.last()) + rest;
        assert(enc_items(s) + rest =~= enc_items(init) + tail);
        assert(list_fits(init)) by {
            assert forall|i: int| 0 <= i < init.len() implies #[trigger] init[i].len() <= u64::MAX by {
                assert(init[i] == s[i]);
            }
        }
        lemma_parse_items(init, tail);
        assert(s.last() == s[s.len() - 1]);
        lemma_parse_bytes(s.last(), rest);
        assert(init.push(s.last()) =~= s);
    } else {
        assert(enc_items(s) + rest =~= rest);
        assert(s =~= Seq::<Seq<u8>>::empty());
    }
}

proof fn lemma_parse_list(s: Seq<Seq<u8>>, rest: Seq<u8>)
    requires
        list_fits(s),
    ensures
        parse_list(enc_list(s) + rest) == Some((s, rest)),
{
    reveal(parse_list);
    assert(enc_list(s) + rest =~= u64_le(s.len() as u64) + (enc_items(s) + rest));
    lemma_parse_u64(s.len() as u64, enc_items(s) + rest);
    lemma_parse_items(s, rest);
}

proof fn lemma_parse_block_header(h: BlockHeaderModel, rest: Seq<u8>)
    requires
        block_header_fits(h),
    ensures
        parse_block_header(enc_block_header(h) + rest) == Some((h, rest)),
{
    reveal(parse_block_header);
    let r2 = u64_le(h.height) + rest;
    let r1 = enc_bytes(h.prev_hash) + r2;
    assert(enc_block_header(h) + rest =~= enc_bytes(h.hash) + r1);
    lemma_parse_bytes(h.hash, r1);
    lemma_parse_bytes(h.prev_hash, r2);
    lemma_parse_u64(h.height, rest);
}

proof fn lemma_parse_chunk_header(c: ChunkHeaderModel, rest: Seq<u8>)
    requires
        chunk_header_fits(c),
    ensures
        parse_chunk_header(enc_chunk_header(c) + rest) == Some((c, rest)),
{
    reveal(parse_chunk_header);
    let r5 = u64_le(c.height_included) + rest;
    let r4 = u64_le(c.height_created) + r5;
    let r3 = u64_le(c.shard_id) + r4;
    let r2 = enc_bytes(c.prev_state_root) + r3;
    let r1 = enc_bytes(c.prev_block_hash) + r2;
    assert(enc_chunk_header(c) + rest =~= enc_bytes(c.chunk_hash) + r1);
    lemma_parse_bytes(c.chunk_hash, r1);
    lemma_parse_bytes(c.prev_block_hash, r2);
    lemma_parse_bytes(c.prev_state_root, r3);
    lemma_parse_u64(c.shard_id, r4);
    lemma_parse_u64(c.height_created, r5);
    lemma_parse_u64(c.height_included, rest);
}

/// Decoding the encoding of a witness gives the witness back, field for field.
pub proof fn lemma_decode_encode(w: StateWitnessModel)
    requires
        witness_fits(w),
    ensures
        decode_witness(encode_witness(w)) == Some(w),
{
    let e: Seq<u8> = Seq::empty();
    let r5 = enc_list(w.storage_proof);
    let r4 = enc_list(w.transactions) + r5;
    let r3 = enc_chunk_header(w.chunk_header) + r4;
    let r2 = enc_chunk_header(w.prev_chunk_header) + r3;
    let r1 = enc_block_header(w.prev_block_header) + r2;
    assert(encode_witness(w) =~= enc_bytes(w.chunk_producer) + r1);
    assert(r5 =~= r5 + e);
    lemma_parse_bytes(w.chunk_producer, r1);
    lemma_parse_block_header(w.prev_block_header, r2);
    lemma_parse_chunk_header(w.prev_chunk_header, r3);
    lemma_parse_chunk_header(w.chunk_header, r4);
    lemma_parse_list(w.transactions, r5);
    lemma_parse_list(w.storage_proof, e);
}

fn push_u64(out: &mut Vec<u8>, n: u64)
    ensures
        final(out)@ == old(out)@ + u64_le(n),
{
    out.push(n as u8);
    out.push((n >> 8u64) as u8);
    out.push((n >> 16u64) as u8);
    out.push((n >> 24u64) as u8);
    out.push((n >> 32u64) as u8);
    out.push((n >> 40u64) as u8);
    out.push((n >> 48u64) as u8);
    out.push((n >> 56u64) as u8);
    assert(final(out)@ =~= old(out)@ + u64_le(n));
}

fn push_bytes(out: &mut Vec<u8>, b: &Vec<u8>)
    ensures
        final(out)@ == old(out)@ + enc_bytes(b@),
{
    push_u64(out, b.len() as u64);
    let ghost mid = out@;
    let mut i: usize = 0;
    while i < b.len()
        invariant
            i <= b.len(),
            out@ == mid + b@.take(i as int),
        decreases b.len() - i,
    {
        out.push(b[i]);
        i = i + 1;
        assert(out@ =~= mid + b@.take(i as int));
    }
    assert(b@.take(i as int) =~= b@);
    assert(out@ =~= old(out)@ + enc_bytes(b@));
}

fn push_list(out: &mut Vec<u8>, s: &Vec<Vec<u8>>)
    ensures
        final(out)@ == old(out)@ + enc_list(byte_strings(s@)),
{
    let ghost items = byte_strings(s@);
    push_u64(out, s.len() as u64);
    let ghost mid = out@;
    let mut i: usize = 0;
    assert(items.take(0) =~= Seq::<Seq<u8>>::empty());
    assert(out@ =~= mid + enc_items(items.take(0)));
    while i < s.len()
        invariant
            i <= s.len(),
            items == byte_strings(s@),
            out@ == mid + enc_items(items.take(i as int)),
        decreases s.len() - i,
    {
        push_bytes(out, &s[i]);
        assert(items.take(i + 1).drop_last() =~= items.take(i as int));
        assert(items.take(i + 1).last() == s@[i as int]@);
        i = i + 1;
        assert(out@ =~= mid + enc_items(items.take(i as int)));
    }
    assert(items.take(i as int) =~= items);
    assert(out@ =~= old(out)@ + enc_list(items));
}

fn push_block_header(out: &mut Vec<u8>, h: &BlockHeaderInfo)
    ensures
        final(out)@ == old(out)@ + enc_block_header(h@),
{
    push_bytes(out, &h.hash);
    push_bytes(out, &h.prev_hash);
    push_u64(out, h.height);
    assert(final(out)@ =~= old(out)@ + enc_block_header(h@));
}

fn push_chunk_header(out: &mut Vec<u8>, c: &ChunkHeaderInfo)
    ensures
        final(out)@ == old(out)@ + enc_chunk_header(c@),
{
    push_bytes(out, &c.chunk_hash);
    push_bytes(out, &c.prev_block_hash);
    push_bytes(out, &c.prev_state_root);
    push_u64(out, c.shard_id);
    push_u64(out, c.height_created);
    push_u64(out, c.height_included);
    assert(final(out)@ =~= old(out)@ + enc_chunk_header(c@));
}

/// A state witness in byte form.
pub struct EncodedStateWitness {
    pub bytes: Vec<u8>,
}

impl EncodedStateWitness {
    /// Writes the witness out; the bytes depend on the witness's contents alone.
    pub fn encode(w: &StateWitness) -> (r: EncodedStateWitness)
        ensures
            r.bytes@ == encode_witness(w@),
    {
        let mut out: Vec<u8> = Vec::new();
        push_bytes(&mut out, &w.chunk_producer);
        push_block_header(&mut out, &w.prev_block_header);
        push_chunk_header(&mut out, &w.prev_chunk_header);
        push_chunk_header(&mut out, &w.chunk_header);
        push_list(&mut out, &w.transactions);
        push_list(&mut out, &w.storage_proof);
        assert(out@ =~= encode_witness(w@));
        EncodedStateWitness { bytes: out }
    }

    pub fn size_bytes(&self) -> (r: usize)
        ensures
            r == self.bytes@.len(),
    {
        self.bytes.len()
    }
}

fn read_u64(buf: &Vec<u8>, pos: usize) -> (r: Option<(u64, usize)>)
    requires
        pos <= buf@.len(),
    ensures
        r is None <==> parse_u64(buf@.skip(pos as int)) is None,
        r matches Some((v, p)) ==> p <= buf@.len() && parse_u64(buf@.skip(pos as int)) == Some(
            (v, buf@.skip(p as int)),
        ),
{
    if buf.len() - pos < 8 {
        return None;
    }
    let ghost s = buf@.skip(pos as int);
    let v = (buf[pos] as u64) | ((buf[pos + 1] as u64) << 8u64) | ((buf[pos + 2] as u64) << 16u64)
        | ((buf[pos + 3] as u64) << 24u64) | ((buf[pos + 4] as u64) << 32u64) | ((buf[pos + 5] as u64)
        << 40u64) | ((buf[pos + 6] as u64) << 48u64) | ((buf[pos + 7] as u64) << 56u64);
    assert(s[0] == buf@[pos as int] && s[1] == buf@[pos + 1] && s[2] == buf@[pos + 2] && s[3]
        == buf@[pos + 3] && s[4] == buf@[pos + 4] && s[5] == buf@[pos + 5] && s[6] == buf@[pos + 6]
        && s[7] == buf@[pos + 7]);
    assert(s.skip(8) =~= buf@.skip(pos + 8));
    Some((v, pos + 8))
}

fn read_bytes(buf: &Vec<u8>, pos: usize) -> (r: Option<(Vec<u8>, usize)>)
    requires
        pos <= buf@.len(),
    ensures
        r is None <==> parse_bytes(buf@.skip(pos as int)) is None,
        r matches Some((v, p)) ==> p <= buf@.len() && parse_bytes(buf@.skip(pos as int)) == Some(
            (v@, buf@.skip(p as int)),
        ),
{
    let (n, start) = match read_u64(buf, pos) {
        Some(x) => x,
        None => return None,
    };
    if n > (buf.len() - start) as u64 {
        return None;
    }
    let end = start + n as usize;
    let mut out: Vec<u8> = Vec::new();
    let mut i: usize = start;
    while i < end
        invariant
            start <= i <= end <= buf@.len(),
            out@ == buf@.subrange(start as int, i as int),
        decreases end - i,
    {
        out.push(buf[i]);
        i = i + 1;
        assert(out@ =~= buf@.subrange(start as int, i as int));
    }
    assert(buf@.skip(start as int).take(n as int) =~= out@);
    assert(buf@.skip(start as int).skip(n as int) =~= buf@.skip(end as int));
    Some((out, end))
}

proof fn lemma_parse_items_stays_none(k: nat, m: nat, s: Seq<u8>)
    requires
        k <= m,
        parse_items(k, s) is None,
    ensures
        parse_items(m, s) is None,
    decreases m - k,
{
    if k < m {
        lemma_parse_items_stays_none(k, (m - 1) as nat, s);
    }
}

fn read_list(buf: &Vec<u8>, pos: usize) -> (r: Option<(Vec<Vec<u8>>, usize)>)
    requires
        pos <= buf@.len(),
    ensures
        r is None <==> parse_list(buf@.skip(pos as int)) is None,
        r matches Some((v, p)) ==> p <= buf@.len() && parse_list(buf@.skip(pos as int)) == Some(
            (byte_strings(v@), buf@.skip(p as int)),
        ),
{
    reveal(parse_list);
    let (count, start) = match read_u64(buf, pos) {
        Some(x) => x,
        None => return None,
    };
    let ghost s = buf@.skip(start as int);
    assert(parse_list(buf@.skip(pos as int)) == parse_items(count as nat, s));
    let mut items: Vec<Vec<u8>> = Vec::new();
    let mut p: usize = start;
    let mut i: u64 = 0;
    assert(byte_strings(items@) =~= Seq::<Seq<u8>>::empty());
    while i < count
        invariant
            i <= count,
            p <= buf@.len(),
            s == buf@.skip(start as int),
            parse_list(buf@.skip(pos as int)) == parse_items(count as nat, s),
            parse_items(i as nat, s) == Some((byte_strings(items@), buf@.skip(p as int))),
        decreases count - i,
    {
        match read_bytes(buf, p) {
            Some((b, next)) => {
                assert(byte_strings(items@.push(b)) =~= byte_strings(items@).push(b@));
                items.push(b);
                p = next;
                i = i + 1;
            },
            None => {
                assert(parse_items((i + 1) as nat, s) is None);
                proof {
                    lemma_parse_items_stays_none((i + 1) as nat, count as nat, s);
                }
                return None;
            },
        }
    }
    Some((items, p))
}

fn read_block_header(buf: &Vec<u8>, pos: usize) -> (r: Option<(BlockHeaderInfo, usize)>)
    requires
        pos <= buf@.len(),
    ensures
        r is None <==> parse_block_header(buf@.skip(pos as int)) is None,
        r matches Some((v, p)) ==> p <= buf@.len() && parse_block_header(buf@.skip(pos as int))
            == Some((v@, buf@.skip(p as int))),
{
    reveal(parse_block_header);
    let (hash, p1) = match read_bytes(buf, pos) {
        Some(x) => x,
        None => return None,
    };
    let (prev_hash, p2) = match read_bytes(buf, p1) {
        Some(x) => x,
        None => return None,
    };
    let (height, p3) = match read_u64(buf, p2) {
        Some(x) => x,
        None => return None,
    };
    Some((BlockHeaderInfo { hash, prev_hash, height }, p3))
}

fn read_chunk_header(buf: &Vec<u8>, pos: usize) -> (r: Option<(ChunkHeaderInfo, usize)>)
    requires
        pos <= buf@.len(),
    ensures
        r is None <==> parse_chunk_header(buf@.skip(pos as int)) is None,
        r matches Some((v, p)) ==> p <= buf@.len() && parse_chunk_header(buf@.skip(pos as int))
            == Some((v@, buf@.skip(p as int))),
{
    reveal(parse_chunk_header);
    let (chunk_hash, p1) = match read_bytes(buf, pos) {
        Some(x) => x,
        None => return None,
    };
    let (prev_block_hash, p2) = match read_bytes(buf, p1) {
        Some(x) => x,
        None => return None,
    };
    let (prev_state_root, p3) = match read_bytes(buf, p2) {
        Some(x) => x,
        None => return None,
    };
    let (shard_id, p4) = match read_u64(buf, p3) {
        Some(x) => x,
        None => return None,
    };
    let (height_created, p5) = match read_u64(buf, p4) {
        Some(x) => x,
        None => return None,
    };
    let (height_included, p6) = match read_u64(buf, p5) {
        Some(x) => x,
        None => return None,
    };
    Some(
        (
            ChunkHeaderInfo {
                chunk_hash,
                prev_block_hash,
                prev_state_root,
                shard_id,
                height_created,
                height_included,
            },
            p6,
        ),
    )
}

impl EncodedStateWitness {
    /// Reads the witness back; fails unless the bytes are exactly one encoded witness.
    pub fn decode(&self) -> (r: Option<StateWitness>)
        ensures
            r is None <==> decode_witness(self.bytes@) is None,
            r matches Some(w) ==> decode_witness(self.bytes@) == Some(w@),
    {
        let buf = &self.bytes;
        assert(buf@.skip(0) =~= buf@);
        let (chunk_producer, p1) = match read_bytes(buf, 0) {
            Some(x) => x,
            None => return None,
        };
        let (prev_block_header, p2) = match read_block_header(buf, p1) {
            Some(x) => x,
            None => return None,
        };
        let (prev_chunk_header, p3) = match read_chunk_header(buf, p2) {
            Some(x) => x,
            None => return None,
        };
        let (chunk_header, p4) = match read_chunk_header(buf, p3) {
            Some(x) => x,
            None => return None,
        };
        let (transactions, p5) = match read_list(buf, p4) {
            Some(x) => x,
            None => return None,
        };
        let (storage_proof, p6) = match read_list(buf, p5) {
            Some(x) => x,
            None => return None,
        };
        if p6 != buf.len() {
            return None;
        }
        Some(
            StateWitness {
                chunk_producer,
                prev_block_header,
                prev_chunk_header,
                chunk_header,
                transactions,
                storage_proof,
            },
        )
    }
}

/// Every witness held in memory can be encoded: none of its lengths exceeds a `u64`.
pub proof fn lemma_witness_fits(w: &StateWitness)
    ensures
        witness_fits(w@),
{
    assert(w.chunk_producer.len() == w@.chunk_producer.len());
    assert(w.prev_block_header.hash.len() == w@.prev_block_header.hash.len());
    assert(w.prev_block_header.prev_hash.len() == w@.prev_block_header.prev_hash.len());
    assert(w.prev_chunk_header.chunk_hash.len() == w@.prev_chunk_header.chunk_hash.len());
    assert(w.prev_chunk_header.prev_block_hash.len() == w@.prev_chunk_header.prev_block_hash.len());
    assert(w.prev_chunk_header.prev_state_root.len() == w@.prev_chunk_header.prev_state_root.len());
    assert(w.chunk_header.chunk_hash.len() == w@.chunk_header.chunk_hash.len());
    assert(w.chunk_header.prev_block_hash.len() == w@.chunk_header.prev_block_hash.len());
    assert(w.chunk_header.prev_state_root.len() == w@.chunk_header.prev_state_root.len());
    assert(w.transactions.len() == w@.transactions.len());
    assert(w.storage_proof.len() == w@.storage_proof.len());
    assert forall|i: int| 0 <= i < w@.transactions.len() implies #[trigger] w@.transactions[i].len()
        <= u64::MAX by {
        assert(w@.transactions[i] == w.transactions@[i]@);
        assert(w.transactions@[i].len() == w.transactions@[i]@.len());
    }
    assert forall|i: int| 0 <= i < w@.storage_proof.len() implies #[trigger] w@.storage_proof[i].len()
        <= u64::MAX by {
        assert(w@.storage_proof[i] == w.storage_proof@[i]@);
        assert(w.storage_proof@[i].len() == w.storage_proof@[i]@.len());
    }
}

/// Encoding is a function of the witness's contents: equal witnesses give equal bytes.
pub proof fn lemma_encode_deterministic(w1: StateWitnessModel, w2: StateWitnessModel)
    requires
        w1 == w2,
    ensures
        encode_witness(w1) == encode_witness(w2),
{
}

/// Whatever a validator decides of a witness, it decides the same of the witness read back
/// from its encoding: encoding loses nothing that validation could look at.
pub proof fn lemma_round_trip_keeps_verdict(
    w: StateWitnessModel,
    accepts: spec_fn(StateWitnessModel) -> bool,
)
    requires
        witness_fits(w),
    ensures
        decode_witness(encode_witness(w)) is Some,
        accepts(decode_witness(encode_witness(w)).unwrap()) == accepts(w),
{
    lemma_decode_encode(w);
}

} // verus!
