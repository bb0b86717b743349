use paperless_bridge::bridge::PollEvent;
use paperless_bridge::bridge::PollRecord;
use paperless_bridge::bridge::UploadOutcome;
use paperless_bridge::bridge::run_upload;
use paperless_bridge::bridge::UploadBridge;
use paperless_bridge::bridge::POLL_DEADLINE_MS;
use paperless_bridge::client::JobState;
use paperless_bridge::staging::StagedFile;
use paperless_bridge::staging::file_name_hint;
use paperless_bridge::stub::PaperlessStorage;
use paperless_bridge::stub::StorageOpError;
use paperless_bridge::client::PaperlessClient;

fn observed(state: JobState, elapsed_ms: u64) -> PollRecord {
    PollRecord { event: PollEvent::Observed(state), elapsed_ms }
}

fn lookup_failed(elapsed_ms: u64) -> PollRecord {
    PollRecord { event: PollEvent::LookupFailed, elapsed_ms }
}

fn chunks_of(total: usize) -> Vec<Vec<u8>> {
    let mut left = total;
    let mut out = Vec::new();
    while left > 0 {
        let take = left.min(4096);
        out.push(vec![7u8; take]);
        left -= take;
    }
    out
}

#[test]
fn staged_byte_count_matches_input_length() {
    for total in [0usize, 1, 17, 4096, 4097, 10000] {
        let chunks = chunks_of(total);
        let polls = vec![observed(JobState::Succeeded, 1000)];
        let (outcome, bridge) = run_upload(0, &chunks, true, true, &polls, POLL_DEADLINE_MS);
        assert_eq!(outcome, Some(UploadOutcome::Succeeded(total as u64)));
        assert_eq!(bridge.staged.byte_len, total as u64);
        assert!(bridge.staged.removed);
    }
}

#[test]
fn resumed_upload_is_presized_to_the_offset() {
    let mut bridge = UploadBridge::new(POLL_DEADLINE_MS);
    bridge.presize(100);
    assert_eq!(bridge.staged.byte_len, 100);
    bridge.write_chunk(&[9u8; 50]);
    assert_eq!(bridge.staged.byte_len, 150);
}

#[test]
fn resumed_upload_final_length_is_offset_plus_streamed() {
    let chunks = vec![vec![9u8; 50]];
    let polls = vec![observed(JobState::Succeeded, 1000)];
    let (outcome, bridge) = run_upload(100, &chunks, true, true, &polls, POLL_DEADLINE_MS);
    assert_eq!(outcome, Some(UploadOutcome::Succeeded(50)));
    assert_eq!(bridge.staged.byte_len, 150);
}

#[test]
fn pending_pending_succeeded_within_deadline_succeeds() {
    let chunks = chunks_of(10);
    let polls = vec![
        observed(JobState::Pending, 1000),
        observed(JobState::Pending, 2000),
        observed(JobState::Succeeded, 3000),
    ];
    let (outcome, _) = run_upload(0, &chunks, true, true, &polls, POLL_DEADLINE_MS);
    assert_eq!(outcome, Some(UploadOutcome::Succeeded(10)));
}

#[test]
fn only_pending_past_deadline_times_out() {
    let chunks = chunks_of(10);
    let polls = vec![
        observed(JobState::Pending, 1000),
        observed(JobState::Pending, 5000),
        observed(JobState::Pending, 11000),
    ];
    let (outcome, bridge) = run_upload(0, &chunks, true, true, &polls, POLL_DEADLINE_MS);
    assert_eq!(outcome, Some(UploadOutcome::TimedOut));
    assert!(bridge.staged.removed);
}

#[test]
fn reported_failure_is_a_remote_failure() {
    let chunks = chunks_of(10);
    let polls = vec![observed(JobState::Failed, 1000)];
    let (outcome, bridge) = run_upload(0, &chunks, true, true, &polls, POLL_DEADLINE_MS);
    assert_eq!(outcome, Some(UploadOutcome::RemoteFailed));
    assert!(bridge.staged.removed);

    let polls = vec![observed(JobState::Cancelled, 1000)];
    let (outcome, _) = run_upload(0, &chunks, true, true, &polls, POLL_DEADLINE_MS);
    assert_eq!(outcome, Some(UploadOutcome::RemoteFailed));
}

#[test]
fn transient_lookup_error_is_absorbed() {
    let chunks = chunks_of(10);
    let polls = vec![lookup_failed(1000), observed(JobState::Succeeded, 2000)];
    let (outcome, _) = run_upload(0, &chunks, true, true, &polls, POLL_DEADLINE_MS);
    assert_eq!(outcome, Some(UploadOutcome::Succeeded(10)));
}

#[test]
fn lookup_errors_past_the_deadline_fail_locally() {
    let chunks = chunks_of(10);
    let polls = vec![lookup_failed(1000), lookup_failed(10001)];
    let (outcome, bridge) = run_upload(0, &chunks, true, true, &polls, POLL_DEADLINE_MS);
    assert_eq!(outcome, Some(UploadOutcome::LocalFailed));
    assert!(bridge.staged.removed);
}

#[test]
fn running_within_deadline_keeps_polling() {
    let chunks = chunks_of(10);
    let polls = vec![
        observed(JobState::Running, 1000),
        observed(JobState::Succeeded, 2000),
    ];
    let (outcome, _) = run_upload(0, &chunks, true, true, &polls, POLL_DEADLINE_MS);
    assert_eq!(outcome, Some(UploadOutcome::Succeeded(10)));
}

#[test]
fn reported_terminal_states_decide_even_past_the_deadline() {
    let chunks = chunks_of(10);
    let polls = vec![observed(JobState::Succeeded, 20000)];
    let (outcome, _) = run_upload(0, &chunks, true, true, &polls, POLL_DEADLINE_MS);
    assert_eq!(outcome, Some(UploadOutcome::Succeeded(10)));

    let polls = vec![observed(JobState::Failed, 20000)];
    let (outcome, _) = run_upload(0, &chunks, true, true, &polls, POLL_DEADLINE_MS);
    assert_eq!(outcome, Some(UploadOutcome::RemoteFailed));
}

#[test]
fn the_deadline_boundary_itself_still_waits() {
    let chunks = chunks_of(10);
    let polls = vec![
        observed(JobState::Pending, POLL_DEADLINE_MS),
        observed(JobState::Succeeded, POLL_DEADLINE_MS),
    ];
    let (outcome, _) = run_upload(0, &chunks, true, true, &polls, POLL_DEADLINE_MS);
    assert_eq!(outcome, Some(UploadOutcome::Succeeded(10)));

    let polls = vec![lookup_failed(POLL_DEADLINE_MS)];
    let (outcome, _) = run_upload(0, &chunks, true, true, &polls, POLL_DEADLINE_MS);
    assert_eq!(outcome, None);
}

#[test]
fn undecided_polls_leave_the_upload_open() {
    let chunks = chunks_of(10);
    let polls = vec![observed(JobState::Pending, 1000)];
    let (outcome, bridge) = run_upload(0, &chunks, true, true, &polls, POLL_DEADLINE_MS);
    assert_eq!(outcome, None);
    assert!(!bridge.staged.removed);
}

#[test]
fn staging_error_fails_locally_and_releases_the_file() {
    let chunks = chunks_of(10);
    let polls = Vec::new();
    let (outcome, bridge) = run_upload(0, &chunks, false, true, &polls, POLL_DEADLINE_MS);
    assert_eq!(outcome, Some(UploadOutcome::LocalFailed));
    assert!(bridge.staged.removed);
}

#[test]
fn rejected_submission_fails_locally_and_releases_the_file() {
    let chunks = chunks_of(10);
    let polls = Vec::new();
    let (outcome, bridge) = run_upload(0, &chunks, true, false, &polls, POLL_DEADLINE_MS);
    assert_eq!(outcome, Some(UploadOutcome::LocalFailed));
    assert!(bridge.staged.removed);
}

#[test]
fn every_terminal_state_releases_the_staged_file() {
    let chunks = chunks_of(10);
    let succeed = vec![observed(JobState::Succeeded, 1000)];
    let fail = vec![observed(JobState::Failed, 1000)];
    let timeout = vec![observed(JobState::Pending, 11000)];
    let cases: Vec<(bool, bool, &Vec<PollRecord>)> = vec![
        (true, true, &succeed),
        (true, true, &fail),
        (true, true, &timeout),
        (false, true, &succeed),
        (true, false, &succeed),
    ];
    for (staging_ok, submit_ok, polls) in cases {
        let (outcome, bridge) = run_upload(0, &chunks, staging_ok, submit_ok, polls, POLL_DEADLINE_MS);
        assert!(outcome.is_some());
        assert!(bridge.staged.removed);
    }
}

#[test]
fn staged_file_models_set_len_and_append() {
    let mut f = StagedFile::create();
    assert_eq!(f.len(), 0);
    f.set_len(4);
    assert_eq!(f.len(), 4);
    f.append(&[1, 2]);
    assert_eq!(f.len(), 6);
    f.set_len(3);
    assert_eq!(f.len(), 3);
    f.remove();
    assert!(f.removed);
    assert_eq!(f.len(), 3);
}

#[test]
fn file_name_hint_takes_the_base_name() {
    assert_eq!(file_name_hint("dir/sub/doc.pdf"), Some("doc.pdf".to_string()));
    assert_eq!(file_name_hint("doc.pdf"), Some("doc.pdf".to_string()));
    assert_eq!(file_name_hint("dir/"), Some("dir".to_string()));
    assert_eq!(file_name_hint("dir//"), Some("dir".to_string()));
    assert_eq!(file_name_hint(""), None);
    assert_eq!(file_name_hint("///"), None);
    assert_eq!(file_name_hint("."), None);
    assert_eq!(file_name_hint("a/.."), None);
    assert_eq!(file_name_hint("a/b/."), None);
}

#[test]
fn stub_operations_answer_without_crashing() {
    let storage = PaperlessStorage::new(PaperlessClient::new("https://p.example.com", "tok"));
    let meta = storage.metadata("/anything").unwrap();
    assert_eq!(meta.len(), 0);
    assert!(meta.is_dir());
    assert!(!meta.is_file());
    assert!(!meta.is_symlink());
    assert_eq!(meta.uid(), 0);
    assert_eq!(meta.gid(), 0);
    assert_eq!(storage.list("/").unwrap().len(), 0);
    assert_eq!(storage.get("/x"), Err(StorageOpError::Unsupported));
    assert_eq!(storage.del("/x"), Err(StorageOpError::Unsupported));
    assert_eq!(storage.mkd("/x"), Err(StorageOpError::Unsupported));
    assert_eq!(storage.rename("/x", "/y"), Err(StorageOpError::Unsupported));
    assert_eq!(storage.rmd("/x"), Err(StorageOpError::Unsupported));
    assert_eq!(storage.cwd("/anywhere"), Ok(()));
}
