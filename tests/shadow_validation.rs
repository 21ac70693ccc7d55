use shadow_validation::codec::EncodedStateWitness;
use shadow_validation::shadow::{BlockRun, ChunkAttempt, ChunkStage, ShadowError};
use shadow_validation::types::{BlockHeaderInfo, BlockInfo, ChunkHeaderInfo, ChunkInfo};
use shadow_validation::witness::{
    build_state_witness, placeholder_chunk_producer, transactions_storage_config,
    StorageDataSource,
};

fn hash(tag: u8) -> Vec<u8> {
    vec![tag; 32]
}

fn chunk_header(shard_id: u64, height_included: u64, tag: u8) -> ChunkHeaderInfo {
    ChunkHeaderInfo {
        chunk_hash: hash(tag),
        prev_block_hash: hash(tag.wrapping_add(100)),
        prev_state_root: hash(tag.wrapping_add(200)),
        shard_id,
        height_created: height_included,
        height_included,
    }
}

fn block(height: u64, tag: u8, new_shards: &[bool]) -> BlockInfo {
    let chunks = new_shards
        .iter()
        .enumerate()
        .map(|(i, &is_new)| {
            let included = if is_new { height } else { height - 1 };
            chunk_header(i as u64, included, tag + i as u8)
        })
        .collect();
    BlockInfo {
        header: BlockHeaderInfo { hash: hash(tag), prev_hash: hash(tag - 1), height },
        chunks,
    }
}

fn body(header: &ChunkHeaderInfo, txs: &[&[u8]]) -> ChunkInfo {
    ChunkInfo { header: header.copy(), transactions: txs.iter().map(|t| t.to_vec()).collect() }
}

fn run_with_prev(new_shards: &[bool]) -> BlockRun {
    let prev = block(9, 10, &[true; 4]);
    let cur = block(10, 50, new_shards);
    match BlockRun::start(cur, Some(prev)) {
        Ok(run) => run,
        Err(e) => panic!("unexpected {:?}", e),
    }
}

fn attempt_until_pre_validation(run: &BlockRun, proof: Option<Vec<Vec<u8>>>) -> ChunkAttempt {
    let header = run.next_chunk_header().copy();
    let mut a = run.begin_chunk(Some(body(&header, &[b"tx1", b"tx2"]))).unwrap();
    assert_eq!(a.stage, ChunkStage::FetchLastChunk);
    let last = run.prev_block.chunks[header.shard_id as usize].copy();
    assert_eq!(a.last_chunk_hash(), &last.chunk_hash);
    a.on_last_chunk(Some(body(&last, &[b"old"])));
    assert_eq!(a.stage, ChunkStage::PrepareTransactions);
    a.on_storage_proof(proof);
    a
}

fn sample_witness() -> shadow_validation::types::StateWitness {
    let prev = block(9, 10, &[true, true]);
    let header = chunk_header(1, 10, 77);
    build_state_witness(
        &prev.header,
        &prev.chunks[1],
        &body(&header, &[b"a", b"bc"]),
        vec![vec![1, 2, 3], vec![], vec![9]],
    )
}

#[test]
fn only_new_chunks_are_selected() {
    let run = run_with_prev(&[false, false, true, false]);
    assert_eq!(run.positions, vec![2]);
    assert_eq!(run.next_chunk_header().shard_id, 2);
}

#[test]
fn no_new_chunks_means_nothing_to_do() {
    let run = run_with_prev(&[false, false, false]);
    assert!(run.positions.is_empty());
    assert!(run.is_done());
}

#[test]
fn missing_prev_block_stops_the_block() {
    let cur = block(10, 50, &[true, true]);
    match BlockRun::start(cur, None) {
        Err(e) => assert_eq!(e, ShadowError::PrevBlockNotFound),
        Ok(_) => panic!("expected an error"),
    }
}

#[test]
fn missing_chunk_body_fails_only_that_chunk() {
    let mut run = run_with_prev(&[true, true]);
    match run.begin_chunk(None) {
        Err(e) => assert_eq!(e, ShadowError::ChunkNotFound),
        Ok(_) => panic!("expected an error"),
    }
    run.finish_chunk(true);
    assert!(!run.is_done());
    let a = attempt_until_pre_validation(&run, Some(vec![vec![5]]));
    assert_eq!(a.stage, ChunkStage::PreValidate);
    run.finish_chunk(false);
    assert!(run.is_done());
    assert_eq!(run.failures, 1);
}

#[test]
fn missing_prev_chunk_header() {
    let prev = block(9, 10, &[true]);
    let header = chunk_header(3, 10, 60);
    match ChunkAttempt::start(&prev, Some(body(&header, &[]))) {
        Err(e) => assert_eq!(e, ShadowError::MissingPrevChunk),
        Ok(_) => panic!("expected an error"),
    }
}

#[test]
fn missing_last_chunk_counts_one_failure() {
    let mut run = run_with_prev(&[false, true, false, false]);
    let header = run.next_chunk_header().copy();
    let mut a = run.begin_chunk(Some(body(&header, &[b"tx"]))).unwrap();
    a.on_last_chunk(None);
    assert_eq!(a.stage, ChunkStage::Failed(ShadowError::LastChunkNotFound));
    assert_eq!(a.failure(), Some(ShadowError::LastChunkNotFound));
    assert!(a.witness.is_none());
    run.finish_chunk(a.failure().is_some());
    assert_eq!(run.failures, 1);
    assert!(run.is_done());
}

#[test]
fn proof_failure_does_not_stop_next_shard() {
    let mut run = run_with_prev(&[true, true]);
    let a = attempt_until_pre_validation(&run, None);
    assert_eq!(a.stage, ChunkStage::Failed(ShadowError::StorageProofUnavailable));
    run.finish_chunk(a.failure().is_some());
    let mut b = attempt_until_pre_validation(&run, Some(vec![vec![1, 2]]));
    assert_eq!(b.stage, ChunkStage::PreValidate);
    b.on_pre_validation(true);
    assert_eq!(b.stage, ChunkStage::Submitted);
    assert_eq!(b.failure(), None);
    run.finish_chunk(b.failure().is_some());
    assert_eq!(run.failures, 1);
    assert_eq!(run.next, 2);
    let w = b.take_witness();
    assert_eq!(w.chunk_header.shard_id, 1);
    assert_eq!(w.storage_proof, vec![vec![1, 2]]);
}

#[test]
fn pre_validation_rejection_is_not_submitted() {
    let mut run = run_with_prev(&[true]);
    let mut a = attempt_until_pre_validation(&run, Some(vec![vec![4]]));
    let encoded_before = a.encoded.as_ref().unwrap().bytes.clone();
    a.on_pre_validation(false);
    assert_eq!(a.stage, ChunkStage::Failed(ShadowError::PreValidationFailed));
    assert_ne!(a.stage, ChunkStage::Submitted);
    assert_eq!(a.encoded.as_ref().unwrap().bytes, encoded_before);
    run.finish_chunk(a.failure().is_some());
    assert_eq!(run.failures, 1);
}

#[test]
fn built_witness_encodes_and_holds_its_parts() {
    let run = run_with_prev(&[true]);
    let a = attempt_until_pre_validation(&run, Some(vec![vec![7, 7]]));
    let w = a.witness.as_ref().unwrap();
    assert_eq!(w.chunk_producer, b"alice.near".to_vec());
    assert_eq!(w.transactions, vec![b"tx1".to_vec(), b"tx2".to_vec()]);
    assert_eq!(w.prev_block_header.height, 9);
    assert_eq!(w.chunk_header.height_included, 10);
    assert_eq!(a.encoded.as_ref().unwrap().bytes, EncodedStateWitness::encode(w).bytes);
}

#[test]
fn storage_config_reads_prior_state_from_db() {
    let header = chunk_header(0, 5, 3);
    let config = transactions_storage_config(&header);
    assert_eq!(config.state_root, header.prev_state_root);
    assert!(config.use_flat_storage);
    assert_eq!(config.source, StorageDataSource::Db);
    assert!(config.state_patch.is_empty());
}

#[test]
fn placeholder_producer_is_alice() {
    assert_eq!(placeholder_chunk_producer(), b"alice.near".to_vec());
}

#[test]
fn encoding_twice_gives_identical_bytes() {
    let w = sample_witness();
    let e1 = EncodedStateWitness::encode(&w);
    let e2 = EncodedStateWitness::encode(&w);
    assert_eq!(e1.bytes, e2.bytes);
    assert_eq!(e1.size_bytes(), e1.bytes.len());
}

#[test]
fn encoding_starts_with_producer_length_and_name() {
    let w = sample_witness();
    let e = EncodedStateWitness::encode(&w);
    assert_eq!(&e.bytes[0..8], &[10, 0, 0, 0, 0, 0, 0, 0]);
    assert_eq!(&e.bytes[8..18], b"alice.near");
    // 18 + two 32-byte hashes with lengths + height, then three of them for each chunk
    // header with three integers, then the two lists.
    let block_header = 8 + 32 + 8 + 32 + 8;
    let chunk_header = 3 * (8 + 32) + 3 * 8;
    let txs = 8 + (8 + 1) + (8 + 2);
    let proof = 8 + (8 + 3) + 8 + (8 + 1);
    assert_eq!(e.size_bytes(), 18 + block_header + 2 * chunk_header + txs + proof);
}

#[test]
fn decode_of_encode_gives_the_witness_back() {
    let w = sample_witness();
    let d = EncodedStateWitness::encode(&w).decode().unwrap();
    assert_eq!(d.chunk_producer, w.chunk_producer);
    assert_eq!(d.prev_block_header.hash, w.prev_block_header.hash);
    assert_eq!(d.prev_block_header.prev_hash, w.prev_block_header.prev_hash);
    assert_eq!(d.prev_block_header.height, w.prev_block_header.height);
    for (x, y) in [(&d.prev_chunk_header, &w.prev_chunk_header), (&d.chunk_header, &w.chunk_header)]
    {
        assert_eq!(x.chunk_hash, y.chunk_hash);
        assert_eq!(x.prev_block_hash, y.prev_block_hash);
        assert_eq!(x.prev_state_root, y.prev_state_root);
        assert_eq!(x.shard_id, y.shard_id);
        assert_eq!(x.height_created, y.height_created);
        assert_eq!(x.height_included, y.height_included);
    }
    assert_eq!(d.transactions, w.transactions);
    assert_eq!(d.storage_proof, w.storage_proof);
}

#[test]
fn decode_rejects_truncated_or_padded_bytes() {
    let w = sample_witness();
    let e = EncodedStateWitness::encode(&w);
    let mut short = e.bytes.clone();
    short.pop();
    assert!(EncodedStateWitness { bytes: short }.decode().is_none());
    let mut long = e.bytes.clone();
    long.push(0);
    assert!(EncodedStateWitness { bytes: long }.decode().is_none());
    assert!(EncodedStateWitness { bytes: vec![] }.decode().is_none());
}

#[test]
fn decode_rejects_oversized_length() {
    let mut bytes = vec![0xff; 8];
    bytes.extend_from_slice(b"alice.near");
    assert!(EncodedStateWitness { bytes }.decode().is_none());
}
