use vstd::prelude::*;

use crate::codec::{encode_witness, lemma_decode_encode, lemma_witness_fits, EncodedStateWitness};
use crate::types::{
    byte_strings, BlockHeaderInfo, BlockInfo, BlockModel, ChunkHeaderInfo, ChunkHeaderModel,
    ChunkInfo, StateWitness,
};
use crate::witness::{
    build_state_witness, shadow_witness, transactions_storage_config, RuntimeStorageConfig,
};

verus! {

/// Why a shadow validation did not get through.
#[derive(PartialEq, Eq, Structural, Clone, Copy, Debug)]
pub enum ShadowError {
    /// The block's predecessor is not in storage; nothing of the block is validated.
    PrevBlockNotFound,
    /// The body of a new chunk is not in storage.
    ChunkNotFound,
    /// The previous block lists no chunk for the chunk's shard.
    MissingPrevChunk,
    /// The body of the shard's previous chunk is not in storage.
    LastChunkNotFound,
    /// Validating the transactions produced no storage proof.
    StorageProofUnavailable,
    /// The encoded witness did not decode.
    DecodeFailed,
    /// Pre-validation rejected the witness.
    PreValidationFailed,
    /// Full validation rejected the witness.
    FullValidationFailed,
}

/// Positions, in shard order, of the first `n` chunks of the block that are new at its height.
pub open spec fn new_chunk_positions_upto(b: BlockModel, n: int) -> Seq<usize>
    decreases n,
{
    if n <= 0 {
        Seq::empty()
    } else if b.chunks[n - 1].is_new_at(b.header.height) {
        new_chunk_positions_upto(b, n - 1).push((n - 1) as usize)
    } else {
        new_chunk_positions_upto(b, n - 1)
    }
}

/// Positions of the block's chunks that are new at its height; the others are carried over.
pub open spec fn new_chunk_positions(b: BlockModel) -> Seq<usize> {
    new_chunk_positions_upto(b, b.chunks.len() as int)
}

pub fn select_new_chunks(block: &BlockInfo) -> (r: Vec<usize>)
    ensures
        r@ == new_chunk_positions(block@),
{
    let mut r: Vec<usize> = Vec::new();
    let mut i: usize = 0;
    while i < block.chunks.len()
        invariant
            i <= block.chunks@.len(),
            r@ == new_chunk_positions_upto(block@, i as int),
        decreases block.chunks.len() - i,
    {
        if block.chunks[i].is_new_chunk(block.header.height) {
            r.push(i);
        }
        i = i + 1;
    }
    r
}

/// The previous block's chunk header for a shard: the one at the shard's position.
pub open spec fn prev_chunk_for(prev: BlockModel, shard_id: u64) -> Option<ChunkHeaderModel> {
    if shard_id < prev.chunks.len() {
        Some(prev.chunks[shard_id as int])
    } else {
        None
    }
}

/// Where a chunk's shadow validation stands. Each stage names the outside work to do next.
#[derive(PartialEq, Eq, Structural, Clone, Copy, Debug)]
pub enum ChunkStage {
    /// Fetch the shard's previous chunk body, by `last_chunk_hash`.
    FetchLastChunk,
    /// Validate the transactions under `storage_config` to record their storage proof.
    PrepareTransactions,
    /// Pre-validate the witness.
    PreValidate,
    /// Full validation is handed to the worker pool; nothing more is awaited.
    Submitted,
    /// The attempt stopped; the error is to be logged and counted.
    Failed(ShadowError),
}

/// The error a stage records, if it is a failure.
pub open spec fn stage_failure(stage: ChunkStage) -> Option<ShadowError> {
    match stage {
        ChunkStage::Failed(e) => Some(e),
        _ => None,
    }
}

/// One chunk's shadow validation: the inputs it was started with and what it has built.
pub struct ChunkAttempt {
    pub stage: ChunkStage,
    pub prev_block_header: BlockHeaderInfo,
    pub prev_chunk_header: ChunkHeaderInfo,
    pub chunk: ChunkInfo,
    pub last_chunk_transactions: Vec<Vec<u8>>,
    pub witness: Option<StateWitness>,
    pub encoded: Option<EncodedStateWitness>,
}

impl ChunkAttempt {
    /// Once a witness is built, it is kept with its encoding.
    pub open spec fn wf(&self) -> bool {
        (self.stage == ChunkStage::PreValidate || self.stage == ChunkStage::Submitted) ==> (
        self.witness matches Some(w) && self.encoded matches Some(e) && e.bytes@ == encode_witness(
            w@,
        ))
    }

    /// The inputs of the attempt are those of `other`.
    pub open spec fn same_inputs(&self, other: &ChunkAttempt) -> bool {
        &&& self.prev_block_header@ == other.prev_block_header@
        &&& self.prev_chunk_header@ == other.prev_chunk_header@
        &&& self.chunk@ == other.chunk@
    }

    /// Starts the attempt for a new chunk, given the previous block and what storage returned
    /// for the chunk's body.
    pub fn start(prev_block: &BlockInfo, chunk: Option<ChunkInfo>) -> (r: Result<
        ChunkAttempt,
        ShadowError,
    >)
        ensures
            chunk is None ==> r == Err::<ChunkAttempt, ShadowError>(ShadowError::ChunkNotFound),
            chunk matches Some(c) ==> match prev_chunk_for(prev_block@, c@.header.shard_id) {
                None => r == Err::<ChunkAttempt, ShadowError>(ShadowError::MissingPrevChunk),
                Some(h) => (r matches Ok(a) && a.wf() && a.stage == ChunkStage::FetchLastChunk
                    && a.prev_block_header@ == prev_block@.header && a.prev_chunk_header@ == h
                    && a.chunk@ == c@ && a.witness is None && a.encoded is None),
            },
    {
        let chunk = match chunk {
            Some(c) => c,
            None => return Err(ShadowError::ChunkNotFound),
        };
        let shard_id = chunk.header.shard_id;
        if shard_id >= prev_block.chunks.len() as u64 {
            return Err(ShadowError::MissingPrevChunk);
        }
        let prev_chunk_header = prev_block.chunks[shard_id as usize].copy();
        Ok(
            ChunkAttempt {
                stage: ChunkStage::FetchLastChunk,
                prev_block_header: prev_block.header.copy(),
                prev_chunk_header,
                chunk,
                last_chunk_transactions: Vec::new(),
                witness: None,
                encoded: None,
            },
        )
    }

    /// Hash of the shard's previous chunk, whose body is fetched next.
    pub fn last_chunk_hash(&self) -> (r: &Vec<u8>)
        ensures
            r@ == self.prev_chunk_header@.chunk_hash,
    {
        &self.prev_chunk_header.chunk_hash
    }

    /// Takes what storage returned for the shard's previous chunk.
    pub fn on_last_chunk(&mut self, last_chunk: Option<ChunkInfo>)
        requires
            old(self).stage == ChunkStage::FetchLastChunk,
        ensures
            final(self).same_inputs(old(self)),
            final(self).wf(),
            final(self).witness == old(self).witness,
            final(self).encoded == old(self).encoded,
            last_chunk is None ==> final(self).stage == ChunkStage::Failed(
                ShadowError::LastChunkNotFound,
            ),
            last_chunk matches Some(c) ==> final(self).stage == ChunkStage::PrepareTransactions
                && byte_strings(final(self).last_chunk_transactions@) == c@.transactions,
    {
        match last_chunk {
            Some(c) => {
                self.last_chunk_transactions = c.transactions;
                self.stage = ChunkStage::PrepareTransactions;
            },
            None => {
                self.stage = ChunkStage::Failed(ShadowError::LastChunkNotFound);
            },
        }
    }

    /// The configuration under which the transactions are validated.
    pub fn storage_config(&self) -> (r: RuntimeStorageConfig)
        ensures
            r.state_root@ == self.chunk@.header.prev_state_root,
            r.use_flat_storage,
            r.source == crate::witness::StorageDataSource::Db,
            r.state_patch@.len() == 0,
    {
        transactions_storage_config(&self.chunk.header)
    }

    /// Takes the storage proof that validating the transactions recorded, if any; builds the
    /// witness, encodes it and checks that the encoding decodes.
    pub fn on_storage_proof(&mut self, storage_proof: Option<Vec<Vec<u8>>>)
        requires
            old(self).stage == ChunkStage::PrepareTransactions,
        ensures
            final(self).same_inputs(old(self)),
            final(self).wf(),
            storage_proof is None ==> final(self).stage == ChunkStage::Failed(
                ShadowError::StorageProofUnavailable,
            ) && final(self).witness == old(self).witness && final(self).encoded == old(
                self,
            ).encoded,
            storage_proof matches Some(p) ==> final(self).stage == ChunkStage::PreValidate
                && final(self).witness is Some && final(self).witness.unwrap()@ == shadow_witness(
                old(self).prev_block_header@,
                old(self).prev_chunk_header@,
                old(self).chunk@,
                byte_strings(p@),
            ),
    {
        let storage_proof = match storage_proof {
            Some(p) => p,
            None => {
                self.stage = ChunkStage::Failed(ShadowError::StorageProofUnavailable);
                return;
            },
        };
        let witness = build_state_witness(
            &self.prev_block_header,
            &self.prev_chunk_header,
            &self.chunk,
            storage_proof,
        );
        let encoded = EncodedStateWitness::encode(&witness);
        proof {
            lemma_witness_fits(&witness);
            lemma_decode_encode(witness@);
        }
        if encoded.decode().is_none() {
            self.stage = ChunkStage::Failed(ShadowError::DecodeFailed);
            return;
        }
        self.witness = Some(witness);
        self.encoded = Some(encoded);
        self.stage = ChunkStage::PreValidate;
    }

    /// Takes the verdict of pre-validation. Only an accepted witness goes on to full validation.
    pub fn on_pre_validation(&mut self, accepted: bool)
        requires
            old(self).stage == ChunkStage::PreValidate,
            old(self).wf(),
        ensures
            final(self).same_inputs(old(self)),
            final(self).wf(),
            final(self).witness == old(self).witness,
            final(self).encoded == old(self).encoded,
            accepted ==> final(self).stage == ChunkStage::Submitted,
            !accepted ==> final(self).stage == ChunkStage::Failed(ShadowError::PreValidationFailed),
    {
        if accepted {
            self.stage = ChunkStage::Submitted;
        } else {
            self.stage = ChunkStage::Failed(ShadowError::PreValidationFailed);
        }
    }

    /// The error the attempt stopped on, if it stopped.
    pub fn failure(&self) -> (r: Option<ShadowError>)
        ensures
            r == stage_failure(self.stage),
    {
        match self.stage {
            ChunkStage::Failed(e) => Some(e),
            _ => None,
        }
    }

    /// Hands the witness over to full validation.
    pub fn take_witness(self) -> (r: StateWitness)
        requires
            self.stage == ChunkStage::Submitted,
            self.wf(),
        ensures
            self.witness == Some(r),
    {
        self.witness.unwrap()
    }
}

/// The progress of shadow-validating the new chunks of one block.
pub struct BlockRunState {
    pub positions: Seq<usize>,
    pub next: nat,
    pub failures: nat,
}

impl BlockRunState {
    /// The state once the current chunk's attempt has ended, failed or not.
    pub open spec fn finish(self, failed: bool) -> BlockRunState {
        BlockRunState {
            positions: self.positions,
            next: self.next + 1,
            failures: if failed {
                self.failures + 1
            } else {
                self.failures
            },
        }
    }

    /// The state once the attempts have ended with the given outcomes, in order.
    pub open spec fn finish_all(self, failed: Seq<bool>) -> BlockRunState
        decreases failed.len(),
    {
        if failed.len() == 0 {
            self
        } else {
            self.finish_all(failed.drop_last()).finish(failed.last())
        }
    }
}

/// How many of the outcomes are failures.
pub open spec fn count_failed(failed: Seq<bool>) -> nat
    decreases failed.len(),
{
    if failed.len() == 0 {
        0
    } else {
        count_failed(failed.drop_last()) + if failed.last() {
            1nat
        } else {
            0nat
        }
    }
}

/// Shadow validation of one block: the block, its predecessor, the positions of its new
/// chunks, how many of them have been attempted and how many of those failed.
pub struct BlockRun {
    pub block: BlockInfo,
    pub prev_block: BlockInfo,
    pub positions: Vec<usize>,
    pub next: usize,
    pub failures: usize,
}

impl View for BlockRun {
    type V = BlockRunState;

    open spec fn view(&self) -> BlockRunState {
        BlockRunState {
            positions: self.positions@,
            next: self.next as nat,
            failures: self.failures as nat,
        }
    }
}

proof fn lemma_positions_in_block(b: BlockModel, n: int)
    requires
        0 <= n <= b.chunks.len(),
        b.chunks.len() <= usize::MAX,
    ensures
        new_chunk_positions_upto(b, n).len() <= n,
        forall|k: int|
            0 <= k < new_chunk_positions_upto(b, n).len() ==> #[trigger] new_chunk_positions_upto(
                b,
                n,
            )[k] < n && b.chunks[new_chunk_positions_upto(b, n)[k] as int].is_new_at(
                b.header.height,
            ),
    decreases n,
{
    if n > 0 {
        lemma_positions_in_block(b, n - 1);
        let prev = new_chunk_positions_upto(b, n - 1);
        let cur = new_chunk_positions_upto(b, n);
        assert forall|k: int| 0 <= k < cur.len() implies #[trigger] cur[k] < n
            && b.chunks[cur[k] as int].is_new_at(b.header.height) by {
            if k < prev.len() {
                assert(cur[k] == prev[k]);
            } else {
                assert(cur[k] == (n - 1) as usize);
            }
        }
    }
}

impl BlockRun {
    pub open spec fn wf(&self) -> bool {
        &&& self.positions@ == new_chunk_positions(self.block@)
        &&& self.failures <= self.next <= self.positions@.len()
    }

    /// Starts shadow validation of a block, given what storage returned for its predecessor.
    /// Without the predecessor nothing of the block is validated.
    pub fn start(block: BlockInfo, prev_block: Option<BlockInfo>) -> (r: Result<
        BlockRun,
        ShadowError,
    >)
        ensures
            prev_block is None ==> r == Err::<BlockRun, ShadowError>(
                ShadowError::PrevBlockNotFound,
            ),
            prev_block matches Some(p) ==> (r matches Ok(run) && run.wf() && run.block@ == block@
                && run.prev_block@ == p@ && run@.next == 0 && run@.failures == 0),
    {
        let prev_block = match prev_block {
            Some(p) => p,
            None => return Err(ShadowError::PrevBlockNotFound),
        };
        let positions = select_new_chunks(&block);
        Ok(BlockRun { block, prev_block, positions, next: 0, failures: 0 })
    }

    /// Whether every new chunk has been attempted.
    pub fn is_done(&self) -> (r: bool)
        ensures
            r == (self@.next >= self@.positions.len()),
    {
        self.next >= self.positions.len()
    }

    /// The header of the new chunk to attempt next, whose body is fetched from storage.
    pub fn next_chunk_header(&self) -> (r: &ChunkHeaderInfo)
        requires
            self.wf(),
            self@.next < self@.positions.len(),
        ensures
            r@ == self.block@.chunks[self@.positions[self@.next as int] as int],
            r@.is_new_at(self.block@.header.height),
    {
        proof {
            assert(self.block.chunks@.len() == self.block.chunks.len());
            lemma_positions_in_block(self.block@, self.block@.chunks.len() as int);
        }
        &self.block.chunks[self.positions[self.next]]
    }

    /// Starts the attempt for the next new chunk, given what storage returned for its body.
    pub fn begin_chunk(&self, chunk: Option<ChunkInfo>) -> (r: Result<ChunkAttempt, ShadowError>)
        ensures
            chunk is None ==> r == Err::<ChunkAttempt, ShadowError>(ShadowError::ChunkNotFound),
            chunk matches Some(c) ==> match prev_chunk_for(self.prev_block@, c@.header.shard_id) {
                None => r == Err::<ChunkAttempt, ShadowError>(ShadowError::MissingPrevChunk),
                Some(h) => (r matches Ok(a) && a.wf() && a.stage == ChunkStage::FetchLastChunk
                    && a.prev_block_header@ == self.prev_block@.header && a.prev_chunk_header@ == h
                    && a.chunk@ == c@ && a.witness is None && a.encoded is None),
            },
    {
        ChunkAttempt::start(&self.prev_block, chunk)
    }

    /// Ends the current chunk's attempt; a failure is counted and the run moves on either way.
    pub fn finish_chunk(&mut self, failed: bool)
        requires
            old(self).wf(),
            old(self)@.next < old(self)@.positions.len(),
        ensures
            final(self).wf(),
            final(self)@ == old(self)@.finish(failed),
            final(self).block@ == old(self).block@,
            final(self).prev_block@ == old(self).prev_block@,
    {
        assert(self.positions@.len() == self.positions.len());
        if failed {
            self.failures = self.failures + 1;
        }
        self.next = self.next + 1;
    }
}

/// Whatever each chunk's attempt comes to, every new chunk of the block is attempted in turn:
/// after `j` attempts the run stands at the `j`-th chunk, and at the end the failures counted
/// are exactly the failed attempts.
pub proof fn lemma_every_chunk_attempted(s: BlockRunState, failed: Seq<bool>)
    requires
        s.next == 0,
        s.failures == 0,
    ensures
        forall|j: int|
            0 <= j <= failed.len() ==> (#[trigger] s.finish_all(failed.take(j))).next == j
                && s.finish_all(failed.take(j)).positions == s.positions,
        s.finish_all(failed).failures == count_failed(failed),
    decreases failed.len(),
{
    if failed.len() > 0 {
        let init = failed.drop_last();
        lemma_every_chunk_attempted(s, init);
        assert forall|j: int| 0 <= j <= failed.len() implies (#[trigger] s.finish_all(
            failed.take(j),
        )).next == j && s.finish_all(failed.take(j)).positions == s.positions by {
            if j < failed.len() {
                assert(failed.take(j) =~= init.take(j));
            } else {
                assert(failed.take(j) =~= failed);
                assert(init.take(j - 1) =~= init);
            }
        }
    } else {
        assert forall|j: int| 0 <= j <= failed.len() implies (#[trigger] s.finish_all(
            failed.take(j),
        )).next == j && s.finish_all(failed.take(j)).positions == s.positions by {
            assert(failed.take(j).len() == 0);
        }
    }
}

} // verus!
