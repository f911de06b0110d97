use risu::controller::{
    check_setup_input, check_validator, complete_e2e, decide_save, prepare_e2e,
    prepare_e2e_with_salt, save_request, should_check_account, should_reset_remote, unlock,
    unlock_status, AccountStep, ActivePane, E2eStatus, PollStep, SaveStep, Session, SetupInput,
    StatusEffects, UnlockError, SENTINEL,
};
use risu::crypto::{decrypt, derive_key, encrypt, CryptoError, SecretKey};
use risu::db::{DbRequest, Note, Tables};
use risu::keystore::KeyStore;
use risu::sync::{prepare_push, AuthMeResponse, Plan, PushStep, SyncStatus};

const ZERO_SALT: &str = "AAAAAAAAAAAAAAAAAAAAAA==";

fn note(id: &str, content: &str) -> Note {
    Note {
        id: id.to_string(),
        content: content.to_string(),
        updated_at: "2024-01-01T00:00:00Z".to_string(),
        is_deleted: 0,
        is_synced: 1,
        is_encrypted: 0,
    }
}

fn me(plan: &str, salt: Option<&str>) -> AuthMeResponse {
    AuthMeResponse {
        _id: "u1".to_string(),
        plan: plan.to_string(),
        subscription_status: "active".to_string(),
        subscription_end_date: Some("2030-01-01".to_string()),
        encryption_salt: salt.map(|s| s.to_string()),
        encryption_validator: None,
    }
}

fn no_effects() -> StatusEffects {
    StatusEffects {
        refresh_notes: false,
        update_editor: false,
        trigger_sync: false,
        reject_passphrase: false,
        clear_error: false,
    }
}

#[test]
fn the_sentinel_is_the_documented_text() {
    assert_eq!(SENTINEL, "RISU-VALID");
}

#[test]
fn unlock_with_the_right_passphrase_installs_the_key() {
    let key = derive_key("correct horse", ZERO_SALT).ok().unwrap();
    let validator = encrypt("RISU-VALID", key.as_bytes()).unwrap();
    let mut keys = KeyStore::new();
    assert_eq!(unlock("correct horse", Some(ZERO_SALT), Some(&validator), &mut keys), Ok(()));
    assert_eq!(keys.get().unwrap().as_bytes(), key.as_bytes());
}

#[test]
fn unlock_with_a_wrong_passphrase_leaves_the_key_store_empty() {
    let key = derive_key("correct horse", ZERO_SALT).ok().unwrap();
    let validator = encrypt("RISU-VALID", key.as_bytes()).unwrap();
    let mut keys = KeyStore::new();
    assert_eq!(
        unlock("wrong", Some(ZERO_SALT), Some(&validator), &mut keys),
        Err(UnlockError::InvalidPassphrase)
    );
    assert!(keys.get().is_none());
}

#[test]
fn unlock_rejects_a_validator_that_holds_another_text() {
    let key = derive_key("pw", ZERO_SALT).ok().unwrap();
    let validator = encrypt("RISU-VALID ", key.as_bytes()).unwrap();
    let mut keys = KeyStore::new();
    keys.set(SecretKey::new([9u8; 32]));
    assert_eq!(
        unlock("pw", Some(ZERO_SALT), Some(&validator), &mut keys),
        Err(UnlockError::InvalidPassphrase)
    );
    assert_eq!(keys.get().unwrap().as_bytes(), &[9u8; 32]);
    assert_eq!(
        unlock("pw", Some(ZERO_SALT), Some("not a payload"), &mut keys),
        Err(UnlockError::InvalidPassphrase)
    );
    assert_eq!(keys.get().unwrap().as_bytes(), &[9u8; 32]);
}

#[test]
fn unlock_without_validator_installs_the_derived_key() {
    let mut keys = KeyStore::new();
    assert_eq!(unlock("pw", Some(ZERO_SALT), None, &mut keys), Ok(()));
    let expected = derive_key("pw", ZERO_SALT).ok().unwrap();
    assert_eq!(keys.get().unwrap().as_bytes(), expected.as_bytes());
}

#[test]
fn unlock_needs_a_passphrase_and_a_salt() {
    let mut keys = KeyStore::new();
    assert_eq!(unlock("", Some(ZERO_SALT), None, &mut keys), Err(UnlockError::EmptyPassphrase));
    assert_eq!(unlock("", None, None, &mut keys), Err(UnlockError::EmptyPassphrase));
    assert_eq!(unlock("pw", None, None, &mut keys), Err(UnlockError::MissingSalt));
    assert_eq!(
        unlock("pw", Some("not base64!"), None, &mut keys),
        Err(UnlockError::KeyDerivation { cause: CryptoError::InvalidInput })
    );
    assert_eq!(
        unlock("pw", Some("AAAA"), None, &mut keys),
        Err(UnlockError::KeyDerivation { cause: CryptoError::KeyDerivation })
    );
    assert!(keys.get().is_none());
}

#[test]
fn the_validator_must_open_to_the_sentinel() {
    assert!(check_validator(Ok("RISU-VALID".to_string())));
    assert!(!check_validator(Ok("risu-valid".to_string())));
    assert!(!check_validator(Ok(String::new())));
    assert!(!check_validator(Err(CryptoError::IntegrityFailure)));
}

#[test]
fn an_unlock_ends_with_unlocked_or_error() {
    assert_eq!(unlock_status(Ok(())), SyncStatus::Unlocked);
    assert_eq!(unlock_status(Err(UnlockError::InvalidPassphrase)), SyncStatus::Error);
    assert_eq!(unlock_status(Err(UnlockError::MissingSalt)), SyncStatus::Error);
    assert_eq!(unlock_status(Err(UnlockError::EmptyPassphrase)), SyncStatus::Error);
}

#[test]
fn setup_input_is_checked_before_anything_is_derived() {
    assert_eq!(check_setup_input("", ""), SetupInput::Empty);
    assert_eq!(check_setup_input("", "x"), SetupInput::Empty);
    assert_eq!(check_setup_input("pw", "pW"), SetupInput::Mismatch);
    assert_eq!(check_setup_input("pw", ""), SetupInput::Mismatch);
    assert_eq!(check_setup_input("pw", "pw"), SetupInput::Ready);
}

#[test]
fn enabling_encryption_end_to_end() {
    // The controller prepares salt, key and validator.
    let setup = prepare_e2e("my passphrase").ok().unwrap();
    let salt = setup.salt.clone();
    let validator = setup.validator.clone();
    let key_bytes = *setup.key.as_bytes();
    assert_eq!(decrypt(&validator, &key_bytes), Ok("RISU-VALID".to_string()));

    // After the service took them, the salt is stored, the notes are marked
    // and the key is installed.
    let mut tables = Tables::empty();
    tables.pull_upsert_notes(&vec![note("live", "plain text"), Note { is_deleted: 1, ..note("dead", "gone") }], "c");
    let mut keys = KeyStore::new();
    let (store_salt, mark_notes) = complete_e2e(setup, &mut keys);
    assert!(matches!(&store_salt, DbRequest::SetKV { key, value } if key == "encryption_salt" && *value == salt));
    assert!(matches!(&mark_notes, DbRequest::SetNotesEncryptedStatus { is_encrypted: 1 }));
    tables.handle(store_salt);
    tables.handle(mark_notes);
    assert_eq!(tables.get_salt(), Some(salt.clone()));
    let live = tables.get_note("live").unwrap();
    assert_eq!((live.is_encrypted, live.is_synced), (1, 0));
    let dead = tables.get_note("dead").unwrap();
    assert_eq!((dead.is_encrypted, dead.is_synced), (0, 1));
    assert_eq!(keys.get().unwrap().as_bytes(), &key_bytes);

    // The next push sends ciphertext that another device of the account,
    // unlocking with the same passphrase, decrypts to the original text.
    let installed = keys.get().unwrap();
    let sent = match prepare_push(tables.get_note("live"), Some(&installed)) {
        PushStep::Send { note } => note,
        PushStep::Skip => panic!("the marked note is sent"),
    };
    assert_eq!(sent.is_encrypted, 1);
    let mut other_device = KeyStore::new();
    assert_eq!(unlock("my passphrase", Some(&salt), Some(&validator), &mut other_device), Ok(()));
    let other_key = other_device.get().unwrap();
    assert_eq!(decrypt(&sent.content, other_key.as_bytes()), Ok("plain text".to_string()));
}

#[test]
fn a_setup_with_a_given_salt_derives_from_that_salt() {
    let setup = prepare_e2e_with_salt("pw", ZERO_SALT.to_string()).ok().unwrap();
    assert_eq!(setup.salt, ZERO_SALT);
    let expected = derive_key("pw", ZERO_SALT).ok().unwrap();
    assert_eq!(setup.key.as_bytes(), expected.as_bytes());
    assert_eq!(decrypt(&setup.validator, expected.as_bytes()), Ok(SENTINEL.to_string()));
    assert_eq!(
        prepare_e2e_with_salt("pw", "not base64!".to_string()).err(),
        Some(CryptoError::InvalidInput)
    );
}

#[test]
fn blank_text_deletes_the_current_note() {
    let notes = vec![note("n1", "text")];
    assert!(matches!(
        decide_save(" \n\t", Some("n1"), &notes, E2eStatus::Unlocked),
        SaveStep::Delete { id } if id == "n1"
    ));
    assert!(matches!(decide_save("", Some("n1"), &notes, E2eStatus::Disabled), SaveStep::Delete { .. }));
    assert!(matches!(decide_save("  ", None, &notes, E2eStatus::Unlocked), SaveStep::Refresh));
}

#[test]
fn unchanged_text_is_not_saved_again() {
    let notes = vec![note("n1", "text"), note("n2", "other")];
    assert!(matches!(decide_save("text", Some("n1"), &notes, E2eStatus::Unlocked), SaveStep::Unchanged));
    assert!(matches!(decide_save("other", Some("n2"), &notes, E2eStatus::Disabled), SaveStep::Unchanged));
    assert!(matches!(decide_save("text ", Some("n1"), &notes, E2eStatus::Unlocked), SaveStep::Save { .. }));
    assert!(matches!(decide_save("text", Some("n2"), &notes, E2eStatus::Unlocked), SaveStep::Save { .. }));
    assert!(matches!(decide_save("text", Some("n3"), &notes, E2eStatus::Unlocked), SaveStep::Save { .. }));
    assert!(matches!(decide_save("text", None, &notes, E2eStatus::Unlocked), SaveStep::Save { id: None, .. }));
}

#[test]
fn changed_text_is_saved_and_marked_for_encryption_unless_disabled() {
    let notes = vec![note("n1", "text")];
    for (status, flag) in [
        (E2eStatus::Disabled, false),
        (E2eStatus::SetupRequired, true),
        (E2eStatus::Locked, true),
        (E2eStatus::Unlocking, true),
        (E2eStatus::Unlocked, true),
        (E2eStatus::UpgradeRequired, true),
    ] {
        match decide_save("new text", Some("n1"), &notes, status) {
            SaveStep::Save { id, content, is_encrypted } => {
                assert_eq!(id, Some("n1".to_string()));
                assert_eq!(content, "new text");
                assert_eq!(is_encrypted, flag);
            }
            _ => panic!("changed text is saved"),
        }
    }
}

#[test]
fn save_steps_become_repository_requests() {
    assert!(save_request(SaveStep::Refresh).is_none());
    assert!(save_request(SaveStep::Unchanged).is_none());
    assert!(matches!(
        save_request(SaveStep::Delete { id: "n1".to_string() }),
        Some(DbRequest::DeleteNote { id }) if id == "n1"
    ));
    assert!(matches!(
        save_request(SaveStep::Save { id: None, content: "c".to_string(), is_encrypted: true }),
        Some(DbRequest::SaveNote { id: None, content, is_encrypted: true }) if content == "c"
    ));
}

#[test]
fn the_session_starts_on_the_list_and_offline() {
    let s = Session::new(true);
    assert_eq!(s.active_pane, ActivePane::List);
    assert_eq!(s.e2e_status, E2eStatus::Disabled);
    assert_eq!(s.sync_status, SyncStatus::Offline);
    assert!(s.logged_in);
    assert_eq!(s.plan, None);
    assert!(!s.is_loading && !s.pending_sync_end && !s.polling_login && !s.polling_subscription);
}

#[test]
fn syncing_starts_the_indicator() {
    let mut s = Session { pending_sync_end: true, ..Session::new(true) };
    assert_eq!(s.on_status(SyncStatus::Syncing), no_effects());
    assert_eq!(s, Session { sync_status: SyncStatus::Syncing, sync_timer_running: true, pending_sync_end: false, ..Session::new(true) });
}

#[test]
fn synced_reads_the_notes_again_and_waits_for_the_indicator() {
    let mut s = Session { sync_status: SyncStatus::Syncing, sync_timer_running: true, ..Session::new(true) };
    let effects = s.on_status(SyncStatus::Synced);
    assert_eq!(effects, StatusEffects { refresh_notes: true, update_editor: true, ..no_effects() });
    assert_eq!(s.sync_status, SyncStatus::Syncing);
    assert!(s.pending_sync_end);
    assert!(!s.show_sync_end(false));
    assert_eq!(s.sync_status, SyncStatus::Syncing);
    assert!(s.show_sync_end(true));
    assert_eq!(s.sync_status, SyncStatus::Synced);
    assert!(!s.pending_sync_end && !s.sync_timer_running);
    assert!(!s.show_sync_end(true));

    let mut editing = Session { active_pane: ActivePane::Editor, ..Session::new(true) };
    let effects = editing.on_status(SyncStatus::Synced);
    assert_eq!(effects, StatusEffects { refresh_notes: true, update_editor: false, ..no_effects() });
    assert!(editing.show_sync_end(false));
}

#[test]
fn unlocking_and_unlocked_move_the_encryption_state() {
    let mut s = Session { active_pane: ActivePane::PassphraseInput, is_loading: true, e2e_status: E2eStatus::Locked, ..Session::new(true) };
    assert_eq!(s.on_status(SyncStatus::Unlocking), no_effects());
    assert_eq!((s.e2e_status, s.sync_status), (E2eStatus::Unlocking, SyncStatus::Unlocking));
    let effects = s.on_status(SyncStatus::Unlocked);
    assert_eq!(effects, StatusEffects { trigger_sync: true, clear_error: true, ..no_effects() });
    assert_eq!(s.e2e_status, E2eStatus::Unlocked);
    assert_eq!(s.sync_status, SyncStatus::Synced);
    assert_eq!(s.active_pane, ActivePane::List);
    assert!(!s.is_loading && s.pending_sync_end);

    let mut elsewhere = Session { active_pane: ActivePane::Editor, ..Session::new(true) };
    let effects = elsewhere.on_status(SyncStatus::Unlocked);
    assert_eq!(effects, StatusEffects { trigger_sync: true, ..no_effects() });
    assert_eq!(elsewhere.active_pane, ActivePane::Editor);
}

#[test]
fn an_error_at_the_passphrase_prompt_rejects_the_passphrase() {
    let mut s = Session { active_pane: ActivePane::PassphraseInput, is_loading: true, ..Session::new(true) };
    let effects = s.on_status(SyncStatus::Error);
    assert_eq!(effects, StatusEffects { reject_passphrase: true, ..no_effects() });
    assert_eq!(s.sync_status, SyncStatus::Error);
    assert_eq!(s.active_pane, ActivePane::PassphraseInput);
    assert!(!s.is_loading);
    let mut list = Session::new(true);
    assert_eq!(list.on_status(SyncStatus::Error), no_effects());
}

#[test]
fn payment_required_opens_the_status_dialog() {
    let mut s = Session { is_loading: true, e2e_status: E2eStatus::Unlocked, ..Session::new(true) };
    assert_eq!(s.on_status(SyncStatus::PaymentRequired), no_effects());
    assert_eq!(s.sync_status, SyncStatus::PaymentRequired);
    assert_eq!(s.e2e_status, E2eStatus::UpgradeRequired);
    assert_eq!(s.active_pane, ActivePane::StatusDialog);
    assert!(!s.is_loading);
}

#[test]
fn offline_stops_the_indicator() {
    let mut s = Session { sync_status: SyncStatus::Syncing, sync_timer_running: true, pending_sync_end: true, ..Session::new(true) };
    assert_eq!(s.on_status(SyncStatus::Offline), no_effects());
    assert_eq!(s, Session::new(true));
}

#[test]
fn the_account_is_looked_up_only_online_and_logged_in() {
    assert!(should_check_account(false, true));
    assert!(!should_check_account(true, true));
    assert!(!should_check_account(false, false));
    assert!(!should_check_account(true, false));
}

#[test]
fn a_paid_account_with_salt_and_key_syncs() {
    let mut s = Session { is_loading: true, ..Session::new(true) };
    let step = s.on_account(&me("pro", Some("salt")), true, Some("stored".to_string()), false);
    assert!(matches!(step, AccountStep::Sync { salt } if salt == "salt"));
    assert_eq!(s.e2e_status, E2eStatus::Unlocked);
    assert_eq!(s.plan, Some(Plan::Pro));
    assert_eq!(s.active_pane, ActivePane::List);
    assert!(!s.is_loading);
}

#[test]
fn a_paid_account_with_salt_unlocks_with_the_stored_passphrase() {
    let mut s = Session { active_pane: ActivePane::StatusDialog, ..Session::new(true) };
    let step = s.on_account(&me("dev", Some("salt")), false, Some("stored".to_string()), false);
    assert!(matches!(step, AccountStep::Unlock { salt, passphrase } if salt == "salt" && passphrase == "stored"));
    assert_eq!(s.e2e_status, E2eStatus::Locked);
    assert_eq!(s.plan, Some(Plan::Dev));
    assert_eq!(s.active_pane, ActivePane::StatusDialog);
}

#[test]
fn a_paid_account_with_salt_asks_for_the_passphrase() {
    let mut s = Session::new(true);
    let step = s.on_account(&me("pro", Some("salt")), false, None, false);
    assert!(matches!(step, AccountStep::Prompt { salt } if salt == "salt"));
    assert_eq!(s.e2e_status, E2eStatus::Locked);
    assert_eq!(s.active_pane, ActivePane::PassphraseInput);
}

#[test]
fn a_paid_account_without_salt_is_set_up() {
    let mut s = Session::new(true);
    let step = s.on_account(&me("pro", None), false, Some("stored".to_string()), true);
    assert!(matches!(step, AccountStep::Setup));
    assert_eq!(s.e2e_status, E2eStatus::SetupRequired);
    assert_eq!(s.active_pane, ActivePane::E2ESetup);
}

#[test]
fn a_free_account_disables_encryption_and_cleans_up() {
    let mut s = Session { e2e_status: E2eStatus::Unlocked, active_pane: ActivePane::Login, ..Session::new(true) };
    let step = s.on_account(&me("free", Some("stale salt")), true, Some("stored".to_string()), true);
    assert!(matches!(step, AccountStep::Cleanup));
    assert_eq!(s.e2e_status, E2eStatus::Disabled);
    assert_eq!(s.plan, Some(Plan::Free));
    assert_eq!(s.active_pane, ActivePane::List);
}

#[test]
fn a_failed_lookup_leaves_the_session_as_it_is() {
    let mut s = Session { is_loading: true, active_pane: ActivePane::Login, e2e_status: E2eStatus::Locked, ..Session::new(true) };
    s.on_account_error(false);
    assert_eq!(s, Session { active_pane: ActivePane::Login, e2e_status: E2eStatus::Locked, ..Session::new(true) });
    s.on_account_error(true);
    assert_eq!(s.active_pane, ActivePane::List);
}

#[test]
fn the_login_poll_ends_on_success_or_expiry() {
    let polling = Session { polling_login: true, active_pane: ActivePane::Login, ..Session::new(false) };
    let mut s = polling;
    assert_eq!(s.on_poll("pending"), PollStep::Pending);
    assert_eq!(s, polling);
    assert_eq!(s.on_poll("not_found"), PollStep::Expired);
    assert_eq!(s, Session { polling_login: false, ..polling });
    let mut s = polling;
    assert_eq!(s.on_poll("success"), PollStep::LoggedIn);
    assert_eq!(s, Session { polling_login: false, logged_in: true, is_loading: true, ..polling });
}

#[test]
fn an_upgrade_ends_the_wait_for_a_subscription() {
    let waiting = Session { polling_subscription: true, plan: Some(Plan::Free), ..Session::new(true) };
    let mut s = waiting;
    assert!(!s.on_subscription_check("free"));
    assert_eq!(s, waiting);
    assert!(s.on_subscription_check("pro"));
    assert_eq!(s, Session { polling_subscription: false, plan: Some(Plan::Pro), ..waiting });
    assert!(!s.on_subscription_check("dev"));
    assert_eq!(s.plan, Some(Plan::Dev));
    let mut unknown = Session { polling_subscription: true, ..Session::new(true) };
    assert!(unknown.on_subscription_check("dev"));
    assert!(!unknown.polling_subscription);
}

#[test]
fn logout_forgets_the_account_and_the_key() {
    let mut keys = KeyStore::new();
    keys.set(SecretKey::new([3u8; 32]));
    let before = Session { plan: Some(Plan::Pro), e2e_status: E2eStatus::Unlocked, sync_status: SyncStatus::Synced, active_pane: ActivePane::StatusDialog, ..Session::new(true) };
    let mut s = before;
    s.logout(&mut keys);
    assert!(keys.get().is_none());
    assert_eq!(s, Session { active_pane: ActivePane::StatusDialog, ..Session::new(false) });
}

#[test]
fn the_service_is_reset_only_when_logged_in() {
    assert!(should_reset_remote("some.id.token"));
    assert!(!should_reset_remote(""));
}

#[test]
fn encryption_states_have_their_names() {
    assert_eq!(E2eStatus::Disabled.as_str(), "Disabled");
    assert_eq!(E2eStatus::SetupRequired.as_str(), "Setup Required");
    assert_eq!(E2eStatus::Locked.as_str(), "Locked");
    assert_eq!(E2eStatus::Unlocking.as_str(), "Unlocking...");
    assert_eq!(E2eStatus::Unlocked.as_str(), "Unlocked");
    assert_eq!(E2eStatus::UpgradeRequired.as_str(), "Upgrade Required");
}
