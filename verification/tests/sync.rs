use base64::Engine;
use risu::crypto::{decrypt, encrypt, SecretKey};
use risu::db::{DbReply, DbRequest, Note, Tables};
use risu::keystore::KeyStore;
use risu::sync::{
    accept_change, adopt_salt, after_network_error, after_push, after_refresh, after_response,
    check_push_status, check_status, cleanup_e2e, decide_sync, decision_status, decrypt_changes,
    endpoint_url, page_request, poll_not_found, poll_path, prepare_push, process_page, pull_path,
    push_enabled, read_poll_status, should_pull, status_after_sync, status_without_plan, ApiError,
    AuthMeResponse, FailureStep, PageAction, Plan, PollRead, PullNext, PullResult, PushOutcome,
    PushStep, ResponseStep, SyncDecision, SyncStatus, BACKOFF_STEP_MS, MAX_ATTEMPTS, MAX_PAGES,
    REQUEST_TIMEOUT_SECS,
};

fn key() -> SecretKey {
    SecretKey::new([0x5a; 32])
}

fn other_key() -> SecretKey {
    SecretKey::new([0x5b; 32])
}

fn note(id: &str, content: &str, updated_at: &str, is_encrypted: i32) -> Note {
    Note {
        id: id.to_string(),
        content: content.to_string(),
        updated_at: updated_at.to_string(),
        is_deleted: 0,
        is_synced: 0,
        is_encrypted,
    }
}

fn sealed(id: &str, plaintext: &str, updated_at: &str, k: &SecretKey) -> Note {
    note(id, &encrypt(plaintext, k.as_bytes()).unwrap(), updated_at, 1)
}

fn me(plan: &str, salt: Option<&str>) -> AuthMeResponse {
    AuthMeResponse {
        _id: "u1".to_string(),
        plan: plan.to_string(),
        subscription_status: "active".to_string(),
        subscription_end_date: None,
        encryption_salt: salt.map(|s| s.to_string()),
        encryption_validator: None,
    }
}

fn page(changes: Vec<Note>, has_more: bool, next_cursor: &str) -> PullResult {
    PullResult { changes, has_more, next_cursor: next_cursor.to_string() }
}

fn apply(tables: &mut Tables, action: PageAction) {
    if let Some(request) = page_request(action) {
        tables.handle(request);
    }
}

#[test]
fn every_status_has_its_label() {
    assert_eq!(SyncStatus::Synced.as_str(), "Synced");
    assert_eq!(SyncStatus::Syncing.as_str(), "Syncing...");
    assert_eq!(SyncStatus::Offline.as_str(), "Offline");
    assert_eq!(SyncStatus::Error.as_str(), "Error");
    assert_eq!(SyncStatus::Unlocking.as_str(), "Unlocking...");
    assert_eq!(SyncStatus::Unlocked.as_str(), "Unlocked");
    assert_eq!(SyncStatus::PaymentRequired.as_str(), "Upgrade Required");
}

#[test]
fn plans_are_parsed_and_unknown_plans_are_free() {
    assert_eq!(Plan::parse("free"), Plan::Free);
    assert_eq!(Plan::parse("pro"), Plan::Pro);
    assert_eq!(Plan::parse("dev"), Plan::Dev);
    assert_eq!(Plan::parse("enterprise"), Plan::Free);
    assert_eq!(Plan::parse(""), Plan::Free);
    assert_eq!(Plan::parse("PRO"), Plan::Free);
    assert!(!Plan::Free.is_paid());
    assert!(Plan::Pro.is_paid());
    assert!(Plan::Dev.is_paid());
    assert_eq!(Plan::Dev.display_name(), "Early bird");
    assert_eq!(Plan::Pro.display_name(), "Pro");
    assert_eq!(Plan::Free.display_name(), "free");
}

#[test]
fn a_first_401_asks_for_a_refresh() {
    assert_eq!(after_response(401, 1), ResponseStep::Refresh);
    assert_eq!(after_response(401, 2), ResponseStep::Deliver);
    assert_eq!(after_response(401, 3), ResponseStep::Deliver);
    assert_eq!(after_refresh(true), ResponseStep::RetryAfter { delay_ms: 0 });
    assert_eq!(after_refresh(false), ResponseStep::Deliver);
}

#[test]
fn server_errors_are_retried_with_growing_waits() {
    assert_eq!(after_response(500, 1), ResponseStep::RetryAfter { delay_ms: 500 });
    assert_eq!(after_response(503, 2), ResponseStep::RetryAfter { delay_ms: 1000 });
    assert_eq!(after_response(599, 2), ResponseStep::RetryAfter { delay_ms: 1000 });
    assert_eq!(after_response(500, 3), ResponseStep::Deliver);
    assert_eq!(after_response(600, 1), ResponseStep::Deliver);
    assert_eq!(after_response(499, 1), ResponseStep::Deliver);
}

#[test]
fn other_responses_are_delivered_at_once() {
    for status in [200, 201, 400, 403, 404, 409, 429] {
        for attempts in 1..=3 {
            assert_eq!(after_response(status, attempts), ResponseStep::Deliver);
        }
    }
}

#[test]
fn network_errors_are_retried_up_to_three_attempts() {
    assert_eq!(after_network_error(1), FailureStep::RetryAfter { delay_ms: 500 });
    assert_eq!(after_network_error(2), FailureStep::RetryAfter { delay_ms: 1000 });
    assert_eq!(after_network_error(3), FailureStep::GiveUp);
    assert_eq!(MAX_ATTEMPTS, 3);
    assert_eq!(BACKOFF_STEP_MS, 500);
    assert_eq!(REQUEST_TIMEOUT_SECS, 10);
}

#[test]
fn statuses_are_read_as_results() {
    assert_eq!(check_status(200), Ok(()));
    assert_eq!(check_status(401), Err(ApiError::Unauthenticated));
    assert_eq!(check_status(403), Err(ApiError::Http { status: 403 }));
    assert_eq!(check_status(500), Err(ApiError::Http { status: 500 }));
    assert_eq!(check_status(204), Err(ApiError::Http { status: 204 }));
}

#[test]
fn a_403_on_push_is_payment_required() {
    assert_eq!(check_push_status(403), Err(ApiError::PaymentRequired));
    assert_eq!(check_push_status(200), Ok(()));
    assert_eq!(check_push_status(401), Err(ApiError::Unauthenticated));
    assert_eq!(check_push_status(500), Err(ApiError::Http { status: 500 }));
}

#[test]
fn poll_responses_are_read_by_status() {
    assert_eq!(read_poll_status(404), PollRead::NotFound);
    assert_eq!(read_poll_status(200), PollRead::Body);
    assert_eq!(read_poll_status(500), PollRead::Failed { status: 500 });
    let gone = poll_not_found();
    assert_eq!((gone.status.as_str(), gone.token.as_str(), gone.refresh_token.as_str()), ("not_found", "", ""));
}

#[test]
fn paths_are_built_from_their_parts() {
    assert_eq!(pull_path("2024-01-01T00:00:00Z"), "/sync/pull?since=2024-01-01T00:00:00Z");
    assert_eq!(poll_path("abc"), "/auth/poll?session=abc");
    assert_eq!(endpoint_url("https://risu-api.laiosys.dev", "/auth/me"), "https://risu-api.laiosys.dev/auth/me");
}

#[test]
fn the_free_plan_cleans_up_and_goes_offline() {
    for (salt, has_key) in [(true, true), (true, false), (false, false)] {
        let decision = decide_sync(&me("free", Some("remote")), salt, has_key);
        assert!(matches!(decision, SyncDecision::Cleanup));
        assert_eq!(decision_status(&decision), Some(SyncStatus::Offline));
    }
    assert!(matches!(decide_sync(&me("unknown", None), true, true), SyncDecision::Cleanup));
}

#[test]
fn a_paid_plan_adopts_the_salt_of_the_service() {
    let decision = decide_sync(&me("pro", Some("remote-salt")), false, true);
    assert_eq!(decision_status(&decision), None);
    match decision {
        SyncDecision::AdoptSalt { salt } => {
            assert_eq!(salt, "remote-salt");
            assert!(matches!(
                adopt_salt(salt),
                DbRequest::SetKV { key, value } if key == "encryption_salt" && value == "remote-salt"
            ));
        }
        _ => panic!("the salt of the service is adopted"),
    }
}

#[test]
fn a_paid_plan_without_any_salt_needs_setup() {
    let decision = decide_sync(&me("dev", None), false, false);
    assert!(matches!(decision, SyncDecision::SetupRequired));
    assert_eq!(decision_status(&decision), Some(SyncStatus::Offline));
}

#[test]
fn a_paid_plan_without_key_is_locked() {
    let decision = decide_sync(&me("pro", Some("s")), true, false);
    assert!(matches!(decision, SyncDecision::Locked));
    assert_eq!(decision_status(&decision), Some(SyncStatus::Offline));
}

#[test]
fn a_paid_plan_with_salt_and_key_syncs() {
    let decision = decide_sync(&me("dev", None), true, true);
    assert!(matches!(decision, SyncDecision::Sync));
    assert_eq!(decision_status(&decision), Some(SyncStatus::Syncing));
}

#[test]
fn without_token_or_plan_no_sync_runs() {
    assert_eq!(status_without_plan(""), SyncStatus::Offline);
    assert_eq!(status_without_plan("some.id.token"), SyncStatus::Error);
}

#[test]
fn cleanup_removes_the_salt_and_the_key() {
    let mut keys = KeyStore::new();
    keys.set(key());
    let mut tables = Tables::empty();
    tables.set_salt("salt");
    tables.set_last_synced("2024-01-01T00:00:00Z");
    let request = cleanup_e2e(&mut keys);
    assert!(matches!(&request, DbRequest::DeleteKV { key } if key == "encryption_salt"));
    tables.handle(request);
    assert!(keys.get().is_none());
    assert!(!keys.is_unlocked());
    assert_eq!(tables.get_salt(), None);
    assert_eq!(tables.get_cursor(), "2024-01-01T00:00:00Z");
}

#[test]
fn a_sync_ends_with_the_status_of_its_result() {
    assert_eq!(status_after_sync(Ok(())), SyncStatus::Synced);
    assert_eq!(status_after_sync(Err(ApiError::PaymentRequired)), SyncStatus::PaymentRequired);
    assert_eq!(status_after_sync(Err(ApiError::Network)), SyncStatus::Error);
    assert_eq!(status_after_sync(Err(ApiError::Unauthenticated)), SyncStatus::Error);
    assert_eq!(status_after_sync(Err(ApiError::Decode)), SyncStatus::Error);
    assert_eq!(status_after_sync(Err(ApiError::Http { status: 500 })), SyncStatus::Error);
}

#[test]
fn a_pull_runs_only_when_the_service_is_ahead() {
    assert!(should_pull("1970-01-01T00:00:00Z", "2024-01-01T00:00:00Z"));
    assert!(!should_pull("2024-01-01T00:00:00Z", "2024-01-01T00:00:00Z"));
    assert!(!should_pull("2024-01-02T00:00:00Z", "2024-01-01T00:00:00Z"));
}

#[test]
fn an_encrypted_change_is_stored_as_plaintext() {
    let k = key();
    let change = Note { is_deleted: 1, is_synced: 1, ..sealed("n1", "hello", "2024-01-01T00:00:00Z", &k) };
    let accepted = accept_change(&change, Some(&k)).unwrap();
    assert_eq!(accepted.id, "n1");
    assert_eq!(accepted.content, "hello");
    assert_eq!(accepted.updated_at, "2024-01-01T00:00:00Z");
    assert_eq!((accepted.is_deleted, accepted.is_synced, accepted.is_encrypted), (1, 1, 0));
}

#[test]
fn changes_that_cannot_be_accepted_are_dropped() {
    let k = key();
    assert!(accept_change(&note("n1", "plaintext from the service", "t", 0), Some(&k)).is_none());
    assert!(accept_change(&sealed("n1", "hello", "t", &other_key()), Some(&k)).is_none());
    assert!(accept_change(&sealed("n1", "hello", "t", &k), None).is_none());
    assert!(accept_change(&note("n1", "not a payload", "t", 1), Some(&k)).is_none());
    let flagged_two = Note { is_encrypted: 2, ..sealed("n1", "hello", "t", &k) };
    assert!(accept_change(&flagged_two, Some(&k)).is_none());
}

#[test]
fn the_batch_keeps_page_order_and_drops_the_rest() {
    let k = key();
    let changes = vec![
        sealed("a", "one", "t1", &k),
        note("b", "plain", "t2", 0),
        sealed("c", "three", "t3", &other_key()),
        sealed("d", "four", "t4", &k),
    ];
    let batch = decrypt_changes(&changes, Some(&k));
    let got: Vec<(&str, &str, i32)> = batch.iter().map(|n| (n.id.as_str(), n.content.as_str(), n.is_encrypted)).collect();
    assert_eq!(got, vec![("a", "one", 0), ("d", "four", 0)]);
    assert!(decrypt_changes(&changes, None).is_empty());
    assert!(decrypt_changes(&Vec::new(), Some(&k)).is_empty());
}

#[test]
fn a_page_with_accepted_changes_is_one_upsert_with_its_cursor() {
    let k = key();
    let (action, next) = process_page(page(vec![sealed("a", "one", "t1", &k)], true, "c2"), Some(&k), "c1", 1);
    match &action {
        PageAction::Upsert { notes, cursor } => {
            assert_eq!(notes.len(), 1);
            assert_eq!(notes[0].content, "one");
            assert_eq!(cursor, "c2");
        }
        _ => panic!("the batch is applied with its cursor"),
    }
    assert!(matches!(next, PullNext::Fetch { cursor } if cursor == "c2"));
    assert!(matches!(
        page_request(action),
        Some(DbRequest::PullUpsertNotes { notes, cursor }) if notes.len() == 1 && cursor == "c2"
    ));
}

#[test]
fn a_page_of_which_nothing_is_accepted_moves_the_cursor_alone() {
    let k = key();
    let (action, next) = process_page(page(vec![note("a", "plain", "t1", 0)], false, "c2"), Some(&k), "c1", 1);
    assert!(matches!(&action, PageAction::AdvanceCursor { cursor } if cursor == "c2"));
    assert!(matches!(next, PullNext::Done));
    assert!(matches!(
        page_request(action),
        Some(DbRequest::SetKV { key, value }) if key == "last_synced_at" && value == "c2"
    ));
}

#[test]
fn an_empty_page_stores_nothing() {
    let k = key();
    let (action, next) = process_page(page(Vec::new(), false, "c2"), Some(&k), "c1", 1);
    assert!(matches!(&action, PageAction::Nothing));
    assert!(matches!(next, PullNext::Done));
    assert!(page_request(action).is_none());
}

#[test]
fn the_pull_stops_at_a_fixed_point_at_the_last_page_and_after_a_hundred_pages() {
    let k = key();
    let (_, next) = process_page(page(Vec::new(), true, "c1"), Some(&k), "c1", 1);
    assert!(matches!(next, PullNext::Done));
    let (_, next) = process_page(page(Vec::new(), false, "c2"), Some(&k), "c1", 1);
    assert!(matches!(next, PullNext::Done));
    let (_, next) = process_page(page(Vec::new(), true, "c2"), Some(&k), "c1", 99);
    assert!(matches!(next, PullNext::Fetch { cursor } if cursor == "c2"));
    let (_, next) = process_page(page(Vec::new(), true, "c2"), Some(&k), "c1", 100);
    assert!(matches!(next, PullNext::Done));
    assert_eq!(MAX_PAGES, 100);
}

#[test]
fn paged_pull_ends_with_the_newer_note_and_the_last_cursor() {
    let k = key();
    let mut tables = Tables::empty();
    let page_a = page(vec![sealed("n1", "from page A", "t=2", &k)], true, "t=2");
    let page_b = page(vec![sealed("n1", "from page B", "t=1", &k)], false, "t=3");
    let cursor = tables.get_cursor();
    let (action, next) = process_page(page_a, Some(&k), &cursor, 1);
    apply(&mut tables, action);
    let cursor = match next {
        PullNext::Fetch { cursor } => cursor,
        PullNext::Done => panic!("page A announces more"),
    };
    assert_eq!(cursor, "t=2");
    let (action, next) = process_page(page_b, Some(&k), &cursor, 2);
    apply(&mut tables, action);
    assert!(matches!(next, PullNext::Done));
    let n1 = tables.get_note("n1").unwrap();
    assert_eq!(n1.content, "from page A");
    assert_eq!((n1.is_encrypted, n1.is_synced), (0, 1));
    assert_eq!(tables.get_kv("last_synced_at"), Some("t=3".to_string()));
}

#[test]
fn the_cursor_does_not_move_backwards_over_a_pull() {
    let k = key();
    let mut tables = Tables::empty();
    let pages = vec![
        page(vec![sealed("a", "one", "2024-01-01T00:00:00Z", &k)], true, "2024-01-01T00:00:00Z"),
        page(vec![note("b", "plain", "2024-01-02T00:00:00Z", 0)], true, "2024-01-02T00:00:00Z"),
        page(Vec::new(), true, "2024-01-03T00:00:00Z"),
        page(vec![sealed("c", "three", "2024-01-04T00:00:00Z", &k)], false, "2024-01-04T00:00:00Z"),
    ];
    let mut fetched = 0;
    let mut cursor = tables.get_cursor();
    for p in pages {
        fetched += 1;
        let before = tables.get_cursor();
        let (action, next) = process_page(p, Some(&k), &cursor, fetched);
        apply(&mut tables, action);
        assert!(tables.get_cursor() >= before);
        match next {
            PullNext::Fetch { cursor: c } => cursor = c,
            PullNext::Done => break,
        }
    }
    assert_eq!(fetched, 4);
    assert_eq!(tables.get_cursor(), "2024-01-04T00:00:00Z");
    assert!(tables.get_note("a").is_some());
    assert!(tables.get_note("b").is_none());
    assert!(tables.get_note("c").is_some());
}

#[test]
fn nothing_is_pushed_on_the_free_plan() {
    assert!(!push_enabled(Plan::Free));
    assert!(push_enabled(Plan::Pro));
    assert!(push_enabled(Plan::Dev));
}

#[test]
fn a_pushed_note_holds_ciphertext_of_the_latest_content() {
    let k = key();
    let latest = Note { is_deleted: 1, ..note("n1", "the latest text", "2024-01-01T00:00:00Z", 0) };
    match prepare_push(Some(latest), Some(&k)) {
        PushStep::Send { note } => {
            assert_eq!(note.id, "n1");
            assert_eq!(note.updated_at, "2024-01-01T00:00:00Z");
            assert_eq!((note.is_deleted, note.is_synced, note.is_encrypted), (1, 0, 1));
            assert_ne!(note.content, "the latest text");
            let payload = base64::engine::general_purpose::STANDARD.decode(&note.content).unwrap();
            assert!(payload.len() >= 12);
            assert_eq!(payload.len(), 12 + "the latest text".len() + 16);
            assert_eq!(decrypt(&note.content, k.as_bytes()), Ok("the latest text".to_string()));
        }
        PushStep::Skip => panic!("a note with a key is sent"),
    }
}

#[test]
fn an_empty_note_is_still_pushed_as_ciphertext() {
    let k = key();
    match prepare_push(Some(note("n1", "", "t", 0)), Some(&k)) {
        PushStep::Send { note } => {
            assert_eq!(note.is_encrypted, 1);
            assert_eq!(base64::engine::general_purpose::STANDARD.decode(&note.content).unwrap().len(), 28);
        }
        PushStep::Skip => panic!("a note with a key is sent"),
    }
}

#[test]
fn nothing_is_pushed_without_key_or_row() {
    let k = key();
    assert!(matches!(prepare_push(None, Some(&k)), PushStep::Skip));
    assert!(matches!(prepare_push(Some(note("n1", "text", "t", 0)), None), PushStep::Skip));
    assert!(matches!(prepare_push(None, None), PushStep::Skip));
}

#[test]
fn the_push_sends_the_row_as_it_is_when_read_again() {
    let k = key();
    let mut tables = Tables::empty();
    tables.save_note_at("n1".to_string(), "text at t=10", false, "t=10");
    let unsynced = tables.get_unsynced_notes();
    assert_eq!(unsynced.len(), 1);
    assert_eq!(unsynced[0].content, "text at t=10");
    tables.save_note_at("n1".to_string(), "text at t=11", false, "t=11");
    match prepare_push(tables.get_note(&unsynced[0].id), Some(&k)) {
        PushStep::Send { note } => {
            assert_eq!(note.updated_at, "t=11");
            assert_eq!(decrypt(&note.content, k.as_bytes()), Ok("text at t=11".to_string()));
        }
        PushStep::Skip => panic!("the edited note is sent"),
    }
}

#[test]
fn a_successful_push_marks_the_note_synced() {
    let mut tables = Tables::empty();
    tables.save_note_at("n1".to_string(), "text", false, "t");
    match after_push("n1".to_string(), 200) {
        PushOutcome::Acknowledged { request } => {
            assert!(matches!(&request, DbRequest::MarkAsSynced { id } if id == "n1"));
            assert!(matches!(tables.handle(request), DbReply::Done));
        }
        PushOutcome::Abort { .. } => panic!("200 is a success"),
    }
    assert!(tables.get_unsynced_notes().is_empty());
}

#[test]
fn a_refused_push_ends_with_payment_required_and_leaves_notes_unsynced() {
    let k = key();
    let mut tables = Tables::empty();
    tables.save_note_at("n1".to_string(), "one", false, "t1");
    tables.save_note_at("n2".to_string(), "two", false, "t2");
    let mut events = vec![SyncStatus::Syncing];
    let mut result = Ok(());
    for unsynced in tables.get_unsynced_notes() {
        let sent = match prepare_push(tables.get_note(&unsynced.id), Some(&k)) {
            PushStep::Send { note } => note,
            PushStep::Skip => continue,
        };
        match after_push(sent.id, 403) {
            PushOutcome::Acknowledged { request } => {
                tables.handle(request);
            }
            PushOutcome::Abort { error } => {
                result = Err(error);
                break;
            }
        }
    }
    assert_eq!(result, Err(ApiError::PaymentRequired));
    events.push(status_after_sync(result));
    assert_eq!(events, vec![SyncStatus::Syncing, SyncStatus::PaymentRequired]);
    let unsynced = tables.get_unsynced_notes();
    assert_eq!(unsynced.len(), 2);
    assert!(unsynced.iter().all(|n| n.is_synced == 0));
}

#[test]
fn other_push_failures_end_the_push_with_their_error() {
    assert!(matches!(after_push("n".to_string(), 500), PushOutcome::Abort { error } if error == ApiError::Http { status: 500 }));
    assert!(matches!(after_push("n".to_string(), 401), PushOutcome::Abort { error } if error == ApiError::Unauthenticated));
    assert!(matches!(after_push("n".to_string(), 403), PushOutcome::Abort { error } if error == ApiError::PaymentRequired));
}
