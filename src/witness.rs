use vstd::prelude::*;

use crate::types::{
    byte_strings, BlockHeaderInfo, BlockHeaderModel, ChunkHeaderInfo, ChunkHeaderModel, ChunkInfo,
    ChunkModel, StateWitness, StateWitnessModel,
};

verus! {

/// The producer named in shadow witnesses. Shadow validation attributes a chunk to no
/// particular account, so a fixed one stands in: `alice.near`.
pub open spec fn placeholder_producer() -> Seq<u8> {
    seq![97u8, 108u8, 105u8, 99u8, 101u8, 46u8, 110u8, 101u8, 97u8, 114u8]
}

pub fn placeholder_chunk_producer() -> (r: Vec<u8>)
    ensures
        r@ == placeholder_producer(),
{
    let r: Vec<u8> = vec![97u8, 108u8, 105u8, 99u8, 101u8, 46u8, 110u8, 101u8, 97u8, 114u8];
    assert(r@ =~= placeholder_producer());
    r
}

/// Where transaction validation reads state from.
#[derive(PartialEq, Eq, Structural, Clone, Copy, Debug)]
pub enum StorageDataSource {
    /// The durable database, with no in-memory overlay.
    Db,
    /// The durable database, reading the trie only.
    DbTrieOnly,
}

/// How transaction validation reads state.
pub struct RuntimeStorageConfig {
    pub state_root: Vec<u8>,
    pub use_flat_storage: bool,
    pub source: StorageDataSource,
    /// Key/value records laid over the state before reading.
    pub state_patch: Vec<(Vec<u8>, Vec<u8>)>,
}

/// The configuration under which a chunk's transactions are validated to record their
/// storage proof: the chunk's prior state root, flat storage, the database, no patch.
pub fn transactions_storage_config(chunk_header: &ChunkHeaderInfo) -> (r: RuntimeStorageConfig)
    ensures
        r.state_root@ == chunk_header@.prev_state_root,
        r.use_flat_storage,
        r.source == StorageDataSource::Db,
        r.state_patch@.len() == 0,
{
    RuntimeStorageConfig {
        state_root: chunk_header.prev_state_root.clone(),
        use_flat_storage: true,
        source: StorageDataSource::Db,
        state_patch: Vec::new(),
    }
}

pub open spec fn shadow_witness(
    prev_block_header: BlockHeaderModel,
    prev_chunk_header: ChunkHeaderModel,
    chunk: ChunkModel,
    storage_proof: Seq<Seq<u8>>,
) -> StateWitnessModel {
    StateWitnessModel {
        chunk_producer: placeholder_producer(),
        prev_block_header,
        prev_chunk_header,
        chunk_header: chunk.header,
        transactions: chunk.transactions,
        storage_proof,
    }
}

fn copy_byte_strings(v: &Vec<Vec<u8>>) -> (r: Vec<Vec<u8>>)
    ensures
        byte_strings(r@) == byte_strings(v@),
{
    let mut r: Vec<Vec<u8>> = Vec::new();
    let mut i: usize = 0;
    while i < v.len()
        invariant
            i <= v@.len(),
            byte_strings(r@) == byte_strings(v@.take(i as int)),
        decreases v.len() - i,
    {
        let item = v[i].clone();
        assert(item@ =~= v@[i as int]@);
        let ghost before = r@;
        r.push(item);
        assert(byte_strings(r@) =~= byte_strings(before).push(item@));
        assert(v@.take(i + 1) =~= v@.take(i as int).push(v@[i as int]));
        assert(byte_strings(v@.take(i + 1)) =~= byte_strings(v@.take(i as int)).push(v@[i as int]@));
        assert(byte_strings(r@) =~= byte_strings(v@.take(i + 1)));
        i = i + 1;
    }
    assert(v@.take(i as int) =~= v@);
    r
}

/// Assembles the witness that the chunk's producer would have sent, from the chunk, the
/// headers it follows and the storage proof recorded for its transactions.
pub fn build_state_witness(
    prev_block_header: &BlockHeaderInfo,
    prev_chunk_header: &ChunkHeaderInfo,
    chunk: &ChunkInfo,
    storage_proof: Vec<Vec<u8>>,
) -> (r: StateWitness)
    ensures
        r@ == shadow_witness(
            prev_block_header@,
            prev_chunk_header@,
            chunk@,
            byte_strings(storage_proof@),
        ),
{
    StateWitness {
        chunk_producer: placeholder_chunk_producer(),
        prev_block_header: prev_block_header.copy(),
        prev_chunk_header: prev_chunk_header.copy(),
        chunk_header: chunk.header.copy(),
        transactions: copy_byte_strings(&chunk.transactions),
        storage_proof,
    }
}

} // verus!
