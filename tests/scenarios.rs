use download_engine::engine::{ChunkWorker, Decision, DownloadEngine, ProbeReply, ProbeStep};

fn source(len: usize) -> Vec<u8> {
    (0..len).map(|i| (i * 31 % 251) as u8).collect()
}

/// Runs the chunk workers of a ranged download over `remote` in memory, each one
/// receiving its range in segments of `segment` bytes, in reverse chunk order.
/// A chunk whose status is not accepted writes nothing. Returns the file and
/// the outcome of each chunk.
fn run_ranged(
    engine: &DownloadEngine,
    remote: &[u8],
    mut file: Vec<u8>,
    statuses: &dyn Fn(usize) -> u16,
    segment: usize,
) -> (Vec<u8>, Vec<bool>) {
    let total = match DownloadEngine::probe_after_head(Some(ProbeReply {
        status: 200,
        content_length: Some(remote.len() as u64),
    })) {
        ProbeStep::Known(n) => n,
        ProbeStep::QueryGet => panic!("size should be known"),
    };
    let existing = if file.is_empty() { None } else { Some(file.len() as u64) };
    let (existing_bytes, chunks) = match engine.after_probe(total, existing) {
        Decision::Ranged { existing_bytes, chunks } => (existing_bytes, chunks),
        Decision::Fallback => panic!("expected a ranged download"),
    };
    assert_eq!(existing_bytes as usize, file.len());
    let mut outcomes = vec![false; chunks.len()];
    for (i, range) in chunks.iter().enumerate().rev() {
        if !ChunkWorker::accepts_status(statuses(i)) {
            continue;
        }
        let mut worker = ChunkWorker::new(*range);
        let body = &remote[range.start as usize..=range.end as usize];
        for seg in body.chunks(segment) {
            let at = worker.place_segment(seg.len() as u64).unwrap() as usize;
            if file.len() < at + seg.len() {
                file.resize(at + seg.len(), 0);
            }
            file[at..at + seg.len()].copy_from_slice(seg);
        }
        outcomes[i] = true;
    }
    (file, outcomes)
}

#[test]
fn fresh_download_writes_the_whole_resource() {
    let remote = source(1_000_000);
    let engine = DownloadEngine::new(300_000);
    assert_eq!(engine.plan(1_000_000, 0).len(), 4);
    let (file, outcomes) = run_ranged(&engine, &remote, Vec::new(), &|_| 206, 65_536);
    assert_eq!(file.len(), 1_000_000);
    assert!(file == remote);
    assert!(DownloadEngine::finish(&outcomes).is_complete());
}

#[test]
fn resumed_download_keeps_the_existing_prefix() {
    let remote = source(1_000_000);
    let prefix: Vec<u8> = vec![0xAB; 300_000];
    let engine = DownloadEngine::new(300_000);
    let chunks = engine.plan(1_000_000, 300_000);
    assert_eq!(chunks.len(), 3);
    assert_eq!(chunks[0].start, 300_000);
    let (file, _) = run_ranged(&engine, &remote, prefix.clone(), &|_| 206, 40_000);
    assert_eq!(file.len(), 1_000_000);
    assert!(file[..300_000] == prefix[..]);
    assert!(file[300_000..] == remote[300_000..]);
}

#[test]
fn unknown_length_uses_the_fallback() {
    let none = Some(ProbeReply { status: 200, content_length: None });
    assert_eq!(DownloadEngine::probe_after_head(none), ProbeStep::QueryGet);
    let total = DownloadEngine::probe_after_get(none);
    assert_eq!(total, 0);
    let engine = DownloadEngine::new(300_000);
    assert!(matches!(engine.after_probe(total, Some(5)), Decision::Fallback));
}

#[test]
fn failed_chunk_leaves_a_gap_yet_the_download_finishes() {
    let remote = vec![0xFFu8; 1_000_000];
    let engine = DownloadEngine::new(300_000);
    let (file, outcomes) =
        run_ranged(&engine, &remote, Vec::new(), &|i| if i == 1 { 404 } else { 206 }, 100_000);
    assert!(file[300_000..600_000].iter().all(|&b| b == 0));
    assert!(file != remote);
    let report = DownloadEngine::finish(&outcomes);
    assert_eq!(report.chunks_failed, 1);
    assert_eq!(report.chunks_completed, 3);
    assert!(!report.is_complete());
}
