use vstd::prelude::*;

verus! {

/// Identifier of a shard within an epoch's shard layout.
pub type ShardId = u64;

/// The contents of a list of byte strings (transactions, trie nodes).
pub open spec fn byte_strings(v: Seq<Vec<u8>>) -> Seq<Seq<u8>> {
    v.map_values(|b: Vec<u8>| b@)
}

/// Header of a block, reduced to what shadow validation reads.
pub struct BlockHeaderInfo {
    pub hash: Vec<u8>,
    pub prev_hash: Vec<u8>,
    pub height: u64,
}

pub struct BlockHeaderModel {
    pub hash: Seq<u8>,
    pub prev_hash: Seq<u8>,
    pub height: u64,
}

impl View for BlockHeaderInfo {
    type V = BlockHeaderModel;

    open spec fn view(&self) -> BlockHeaderModel {
        BlockHeaderModel { hash: self.hash@, prev_hash: self.prev_hash@, height: self.height }
    }
}

/// Per-shard descriptor of a chunk, as listed in a block.
pub struct ChunkHeaderInfo {
    pub chunk_hash: Vec<u8>,
    pub prev_block_hash: Vec<u8>,
    /// The state root that the chunk transitions from.
    pub prev_state_root: Vec<u8>,
    pub shard_id: ShardId,
    pub height_created: u64,
    /// Height of the block that first included the chunk.
    pub height_included: u64,
}

pub struct ChunkHeaderModel {
    pub chunk_hash: Seq<u8>,
    pub prev_block_hash: Seq<u8>,
    pub prev_state_root: Seq<u8>,
    pub shard_id: ShardId,
    pub height_created: u64,
    pub height_included: u64,
}

impl View for ChunkHeaderInfo {
    type V = ChunkHeaderModel;

    open spec fn view(&self) -> ChunkHeaderModel {
        ChunkHeaderModel {
            chunk_hash: self.chunk_hash@,
            prev_block_hash: self.prev_block_hash@,
            prev_state_root: self.prev_state_root@,
            shard_id: self.shard_id,
            height_created: self.height_created,
            height_included: self.height_included,
        }
    }
}

impl ChunkHeaderModel {
    /// A chunk is new at a height when the block at that height is the one that included it;
    /// otherwise the block carries the shard's previous chunk over.
    pub open spec fn is_new_at(self, height: u64) -> bool {
        self.height_included == height
    }
}

impl ChunkHeaderInfo {
    pub fn is_new_chunk(&self, block_height: u64) -> (r: bool)
        ensures
            r == self@.is_new_at(block_height),
    {
        self.height_included == block_height
    }

    pub fn copy(&self) -> (r: ChunkHeaderInfo)
        ensures
            r@ == self@,
    {
        ChunkHeaderInfo {
            chunk_hash: self.chunk_hash.clone(),
            prev_block_hash: self.prev_block_hash.clone(),
            prev_state_root: self.prev_state_root.clone(),
            shard_id: self.shard_id,
            height_created: self.height_created,
            height_included: self.height_included,
        }
    }
}

impl BlockHeaderInfo {
    pub fn copy(&self) -> (r: BlockHeaderInfo)
        ensures
            r@ == self@,
    {
        BlockHeaderInfo {
            hash: self.hash.clone(),
            prev_hash: self.prev_hash.clone(),
            height: self.height,
        }
    }
}

/// A block: its header and one chunk header per shard, in shard order.
pub struct BlockInfo {
    pub header: BlockHeaderInfo,
    pub chunks: Vec<ChunkHeaderInfo>,
}

pub struct BlockModel {
    pub header: BlockHeaderModel,
    pub chunks: Seq<ChunkHeaderModel>,
}

impl View for BlockInfo {
    type V = BlockModel;

    open spec fn view(&self) -> BlockModel {
        BlockModel {
            header: self.header@,
            chunks: self.chunks@.map_values(|c: ChunkHeaderInfo| c@),
        }
    }
}

/// The full body of a chunk: its header and its transactions, each as signed bytes.
pub struct ChunkInfo {
    pub header: ChunkHeaderInfo,
    pub transactions: Vec<Vec<u8>>,
}

pub struct ChunkModel {
    pub header: ChunkHeaderModel,
    pub transactions: Seq<Seq<u8>>,
}

impl View for ChunkInfo {
    type V = ChunkModel;

    open spec fn view(&self) -> ChunkModel {
        ChunkModel { header: self.header@, transactions: byte_strings(self.transactions@) }
    }
}

/// What a chunk producer broadcasts so that a validator can re-execute the chunk's
/// state transition without holding the state.
pub struct StateWitness {
    pub chunk_producer: Vec<u8>,
    pub prev_block_header: BlockHeaderInfo,
    pub prev_chunk_header: ChunkHeaderInfo,
    pub chunk_header: ChunkHeaderInfo,
    pub transactions: Vec<Vec<u8>>,
    /// Trie nodes read while the transactions were validated.
    pub storage_proof: Vec<Vec<u8>>,
}

pub struct StateWitnessModel {
    pub chunk_producer: Seq<u8>,
    pub prev_block_header: BlockHeaderModel,
    pub prev_chunk_header: ChunkHeaderModel,
    pub chunk_header: ChunkHeaderModel,
    pub transactions: Seq<Seq<u8>>,
    pub storage_proof: Seq<Seq<u8>>,
}

impl View for StateWitness {
    type V = StateWitnessModel;

    open spec fn view(&self) -> StateWitnessModel {
        StateWitnessModel {
            chunk_producer: self.chunk_producer@,
            prev_block_header: self.prev_block_header@,
            prev_chunk_header: self.prev_chunk_header@,
            chunk_header: self.chunk_header@,
            transactions: byte_strings(self.transactions@),
            storage_proof: byte_strings(self.storage_proof@),
        }
    }
}

} // verus!
