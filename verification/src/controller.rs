//! The controller: what a user's intent, an account lookup or a status event
//! asks of the repository, the key store and the session.
//!
//! The controller performs no input or output. It takes what was typed or
//! fetched and returns what to do, together with the new state of the session.

use vstd::prelude::*;
use vstd::string::*;
use crate::crypto::{
    base64_decode, base64_encode, decrypt, derive_key, encrypt, generate_salt, sealable,
    spec_decrypt, spec_derive_key, CryptoError, SecretKey, SALT_LEN,
};
use vstd::utf8::{encode_utf8, is_ascii_chars, is_ascii_chars_encode_utf8};
use crate::db::{DbRequest, Note, KEY_ENCRYPTION_SALT};
use crate::keystore::KeyStore;
use crate::sync::{opt_view, AuthMeResponse, Plan, SyncStatus};
use crate::text::{str_eq, str_to_string, str_trim, trimmed};

verus! {

/// The plaintext of the validator: the text that an account's validator must
/// decrypt to under the right key.
pub const SENTINEL: &'static str = "RISU-VALID";

/// A login session is polled every this many seconds.
pub const LOGIN_POLL_SECS: u64 = 2;

/// While a subscription change is awaited the account is looked up every this
/// many seconds.
pub const SUBSCRIPTION_POLL_SECS: u64 = 3;

/// The `Syncing` indicator stays visible for at least this many milliseconds.
pub const SYNC_INDICATOR_MIN_MS: u64 = 700;

/// At shutdown a running sync is given this many seconds to finish.
pub const SHUTDOWN_GRACE_SECS: u64 = 1;

// ---------------------------------------------------------------------------
// Session state
// ---------------------------------------------------------------------------

/// Where the user's input goes.
#[derive(Debug, Clone, Copy, PartialEq, Eq, Structural)]
pub enum ActivePane {
    List,
    Editor,
    Login,
    DeleteConfirm,
    ClearConfirm,
    Search,
    StatusDialog,
    PassphraseInput,
    E2ESetup,
}

/// The state of end-to-end encryption on this device.
#[derive(Debug, Clone, Copy, PartialEq, Eq, Structural)]
pub enum E2eStatus {
    /// The account has no right to encryption, or nobody is logged in.
    Disabled,
    /// The account may encrypt but has no salt yet.
    SetupRequired,
    /// The salt is known, the key is not.
    Locked,
    /// A key is being derived and checked.
    Unlocking,
    /// The key is installed.
    Unlocked,
    /// The service refused a push for want of a paid plan.
    UpgradeRequired,
}

impl E2eStatus {
    /// The name under which the state is shown.
    pub fn as_str(&self) -> (s: &'static str)
        ensures
            s@ == match *self {
                E2eStatus::Disabled => "Disabled"@,
                E2eStatus::SetupRequired => "Setup Required"@,
                E2eStatus::Locked => "Locked"@,
                E2eStatus::Unlocking => "Unlocking..."@,
                E2eStatus::Unlocked => "Unlocked"@,
                E2eStatus::UpgradeRequired => "Upgrade Required"@,
            },
    {
        match self {
            E2eStatus::Disabled => "Disabled",
            E2eStatus::SetupRequired => "Setup Required",
            E2eStatus::Locked => "Locked",
            E2eStatus::Unlocking => "Unlocking...",
            E2eStatus::Unlocked => "Unlocked",
            E2eStatus::UpgradeRequired => "Upgrade Required",
        }
    }

    /// Whether notes saved in this state are marked for encryption: in every
    /// state but `Disabled`.
    pub open spec fn encrypts(self) -> bool {
        self != E2eStatus::Disabled
    }
}

/// The part of the application's state that authentication, unlocking and
/// status events act on.
#[derive(Debug, Clone, Copy, PartialEq, Eq, Structural)]
pub struct Session {
    pub active_pane: ActivePane,
    pub e2e_status: E2eStatus,
    pub sync_status: SyncStatus,
    /// An account lookup or a key derivation is under way.
    pub is_loading: bool,
    /// A sync has ended and `Synced` is to be shown once the `Syncing`
    /// indicator has been visible long enough.
    pub pending_sync_end: bool,
    /// The time since `Syncing` was reported is being measured.
    pub sync_timer_running: bool,
    pub polling_login: bool,
    pub polling_subscription: bool,
    pub logged_in: bool,
    pub plan: Option<Plan>,
}

/// What a status event asks for besides the change of state.
#[derive(Debug, Clone, Copy, PartialEq, Eq, Structural)]
pub struct StatusEffects {
    /// Read the notes again.
    pub refresh_notes: bool,
    /// When the notes are read again, also load the selected note into the editor.
    pub update_editor: bool,
    /// Ask for a sync.
    pub trigger_sync: bool,
    /// Empty the passphrase prompt and say that the passphrase was wrong.
    pub reject_passphrase: bool,
    /// Forget the last error shown.
    pub clear_error: bool,
}

impl StatusEffects {
    /// No effect at all.
    pub open spec fn none() -> StatusEffects {
        StatusEffects {
            refresh_notes: false,
            update_editor: false,
            trigger_sync: false,
            reject_passphrase: false,
            clear_error: false,
        }
    }
}

impl Session {
    /// The session at startup: the list is shown, nothing is known of the account.
    pub open spec fn initial(logged_in: bool) -> Session {
        Session {
            active_pane: ActivePane::List,
            e2e_status: E2eStatus::Disabled,
            sync_status: SyncStatus::Offline,
            is_loading: false,
            pending_sync_end: false,
            sync_timer_running: false,
            polling_login: false,
            polling_subscription: false,
            logged_in,
            plan: None,
        }
    }

    /// The session at startup.
    pub fn new(logged_in: bool) -> (r: Session)
        ensures
            r == Session::initial(logged_in),
    {
        Session {
            active_pane: ActivePane::List,
            e2e_status: E2eStatus::Disabled,
            sync_status: SyncStatus::Offline,
            is_loading: false,
            pending_sync_end: false,
            sync_timer_running: false,
            polling_login: false,
            polling_subscription: false,
            logged_in,
            plan: None,
        }
    }

    /// The session after a status event.
    pub open spec fn after_status(self, status: SyncStatus) -> Session {
        match status {
            SyncStatus::Syncing => Session {
                sync_status: SyncStatus::Syncing,
                sync_timer_running: true,
                pending_sync_end: false,
                ..self
            },
            SyncStatus::Synced => Session { pending_sync_end: true, ..self },
            SyncStatus::Unlocking => Session {
                e2e_status: E2eStatus::Unlocking,
                sync_status: SyncStatus::Unlocking,
                ..self
            },
            SyncStatus::Unlocked => Session {
                e2e_status: E2eStatus::Unlocked,
                sync_status: SyncStatus::Synced,
                is_loading: false,
                pending_sync_end: true,
                active_pane: if self.active_pane == ActivePane::PassphraseInput {
                    ActivePane::List
                } else {
                    self.active_pane
                },
                ..self
            },
            SyncStatus::Error => Session {
                sync_status: SyncStatus::Error,
                is_loading: false,
                ..self
            },
            SyncStatus::PaymentRequired => Session {
                sync_status: SyncStatus::PaymentRequired,
                is_loading: false,
                e2e_status: E2eStatus::UpgradeRequired,
                active_pane: ActivePane::StatusDialog,
                ..self
            },
            SyncStatus::Offline => Session {
                sync_status: SyncStatus::Offline,
                sync_timer_running: false,
                pending_sync_end: false,
                ..self
            },
        }
    }

    /// What a status event asks for besides the change of state.
    pub open spec fn status_effects(self, status: SyncStatus) -> StatusEffects {
        match status {
            SyncStatus::Synced => StatusEffects {
                refresh_notes: true,
                update_editor: self.active_pane != ActivePane::Editor,
                ..StatusEffects::none()
            },
            SyncStatus::Unlocked => StatusEffects {
                trigger_sync: true,
                clear_error: self.active_pane == ActivePane::PassphraseInput,
                ..StatusEffects::none()
            },
            SyncStatus::Error => StatusEffects {
                reject_passphrase: self.active_pane == ActivePane::PassphraseInput,
                ..StatusEffects::none()
            },
            _ => StatusEffects::none(),
        }
    }

    /// Takes a status event from the reconciliation engine or from an unlock.
    ///
    /// `Unlocked` installs nothing itself: the key is in the key store by
    /// then. It leaves the passphrase prompt and asks for a sync. `Error`
    /// while the passphrase prompt is open means the passphrase was wrong.
    /// `PaymentRequired` opens the status dialog so that the user can upgrade.
    pub fn on_status(&mut self, status: SyncStatus) -> (r: StatusEffects)
        ensures
            *final(self) == old(self).after_status(status),
            r == old(self).status_effects(status),
    {
        let none = StatusEffects {
            refresh_notes: false,
            update_editor: false,
            trigger_sync: false,
            reject_passphrase: false,
            clear_error: false,
        };
        let in_prompt = self.active_pane == ActivePane::PassphraseInput;
        match status {
            SyncStatus::Syncing => {
                self.sync_status = SyncStatus::Syncing;
                self.sync_timer_running = true;
                self.pending_sync_end = false;
                none
            },
            SyncStatus::Synced => {
                self.pending_sync_end = true;
                StatusEffects {
                    refresh_notes: true,
                    update_editor: self.active_pane != ActivePane::Editor,
                    ..none
                }
            },
            SyncStatus::Unlocking => {
                self.e2e_status = E2eStatus::Unlocking;
                self.sync_status = SyncStatus::Unlocking;
                none
            },
            SyncStatus::Unlocked => {
                self.e2e_status = E2eStatus::Unlocked;
                self.sync_status = SyncStatus::Synced;
                self.is_loading = false;
                self.pending_sync_end = true;
                if in_prompt {
                    self.active_pane = ActivePane::List;
                }
                StatusEffects { trigger_sync: true, clear_error: in_prompt, ..none }
            },
            SyncStatus::Error => {
                self.sync_status = SyncStatus::Error;
                self.is_loading = false;
                StatusEffects { reject_passphrase: in_prompt, ..none }
            },
            SyncStatus::PaymentRequired => {
                self.sync_status = SyncStatus::PaymentRequired;
                self.is_loading = false;
                self.e2e_status = E2eStatus::UpgradeRequired;
                self.active_pane = ActivePane::StatusDialog;
                none
            },
            SyncStatus::Offline => {
                self.sync_status = SyncStatus::Offline;
                self.sync_timer_running = false;
                self.pending_sync_end = false;
                none
            },
        }
    }

    /// Shows `Synced` once a sync has ended and the `Syncing` indicator has
    /// been visible long enough. Returns whether anything changed.
    pub fn show_sync_end(&mut self, shown_long_enough: bool) -> (changed: bool)
        ensures
            changed == (old(self).pending_sync_end && (shown_long_enough
                || !old(self).sync_timer_running)),
            *final(self) == if changed {
                Session {
                    sync_status: SyncStatus::Synced,
                    sync_timer_running: false,
                    pending_sync_end: false,
                    ..*old(self)
                }
            } else {
                *old(self)
            },
    {
        if self.pending_sync_end && (shown_long_enough || !self.sync_timer_running) {
            self.sync_status = SyncStatus::Synced;
            self.sync_timer_running = false;
            self.pending_sync_end = false;
            true
        } else {
            false
        }
    }
}

// ---------------------------------------------------------------------------
// Account check
// ---------------------------------------------------------------------------

/// What an account lookup asks for.
pub enum AccountStep {
    /// Paid plan with a salt, key already installed: store the salt, ask for a sync.
    Sync { salt: String },
    /// Paid plan with a salt, a passphrase is stored: store the salt, unlock
    /// with the passphrase in the background.
    Unlock { salt: String, passphrase: String },
    /// Paid plan with a salt, no passphrase stored: store the salt, ask the
    /// user for the passphrase.
    Prompt { salt: String },
    /// Paid plan without a salt: encryption has to be set up.
    Setup,
    /// Free plan: remove stale encryption material.
    Cleanup,
}

/// Whether the account is looked up at all: not in offline mode and not
/// without a login.
pub fn should_check_account(offline_mode: bool, logged_in: bool) -> (r: bool)
    ensures
        r == (!offline_mode && logged_in),
{
    !offline_mode && logged_in
}

/// What an account lookup asks for, given the plan, the salt on the service,
/// whether a key is installed and the stored passphrase.
pub open spec fn account_step_is(
    step: AccountStep,
    plan: Plan,
    remote_salt: Option<Seq<char>>,
    has_key: bool,
    passphrase: Option<Seq<char>>,
) -> bool {
    if !plan.paid() {
        step is Cleanup
    } else {
        match remote_salt {
            None => step is Setup,
            Some(salt) => if has_key {
                step matches AccountStep::Sync { salt: stored } && stored@ == salt
            } else {
                match passphrase {
                    Some(text) => step matches AccountStep::Unlock { salt: stored, passphrase: held }
                        && stored@ == salt && held@ == text,
                    None => step matches AccountStep::Prompt { salt: stored } && stored@ == salt,
                }
            },
        }
    }
}

impl Session {
    /// The session after an account lookup succeeded. `after_login` says that
    /// the lookup follows a login, which always ends on the list unless a
    /// passphrase or a setup is asked for.
    pub open spec fn after_account(
        self,
        plan: Plan,
        has_salt: bool,
        has_key: bool,
        has_passphrase: bool,
        after_login: bool,
    ) -> Session {
        let base = Session { plan: Some(plan), is_loading: false, ..self };
        let home = if after_login {
            ActivePane::List
        } else {
            self.active_pane
        };
        if !plan.paid() {
            Session { e2e_status: E2eStatus::Disabled, active_pane: home, ..base }
        } else if !has_salt {
            Session {
                e2e_status: E2eStatus::SetupRequired,
                active_pane: ActivePane::E2ESetup,
                ..base
            }
        } else if has_key {
            Session { e2e_status: E2eStatus::Unlocked, active_pane: home, ..base }
        } else if has_passphrase {
            Session { e2e_status: E2eStatus::Locked, active_pane: home, ..base }
        } else {
            Session {
                e2e_status: E2eStatus::Locked,
                active_pane: ActivePane::PassphraseInput,
                ..base
            }
        }
    }

    /// Takes the account as the service describes it.
    ///
    /// On a paid plan with a salt the salt is stored locally; then the key
    /// store decides: unlocked already, unlock with the stored passphrase, or
    /// ask for the passphrase. A paid plan without a salt leads to the setup.
    /// The free plan disables encryption and cleans up.
    pub fn on_account(
        &mut self,
        me: &AuthMeResponse,
        has_key: bool,
        saved_passphrase: Option<String>,
        after_login: bool,
    ) -> (r: AccountStep)
        ensures
            account_step_is(
                r,
                Plan::of(me.plan@),
                opt_view(me.encryption_salt),
                has_key,
                opt_view(saved_passphrase),
            ),
            *final(self) == old(self).after_account(
                Plan::of(me.plan@),
                me.encryption_salt is Some,
                has_key,
                saved_passphrase is Some,
                after_login,
            ),
    {
        let plan = Plan::parse(me.plan.as_str());
        self.plan = Some(plan);
        self.is_loading = false;
        if after_login {
            self.active_pane = ActivePane::List;
        }
        if !plan.is_paid() {
            self.e2e_status = E2eStatus::Disabled;
            return AccountStep::Cleanup;
        }
        match &me.encryption_salt {
            None => {
                self.e2e_status = E2eStatus::SetupRequired;
                self.active_pane = ActivePane::E2ESetup;
                AccountStep::Setup
            },
            Some(salt) => {
                if has_key {
                    self.e2e_status = E2eStatus::Unlocked;
                    AccountStep::Sync { salt: salt.clone() }
                } else {
                    self.e2e_status = E2eStatus::Locked;
                    match saved_passphrase {
                        Some(passphrase) => AccountStep::Unlock { salt: salt.clone(), passphrase },
                        None => {
                            self.active_pane = ActivePane::PassphraseInput;
                            AccountStep::Prompt { salt: salt.clone() }
                        },
                    }
                }
            },
        }
    }

    /// Takes the failure of an account lookup: nothing is known of the
    /// account, the session goes on as it is. After a login the list is shown.
    pub fn on_account_error(&mut self, after_login: bool)
        ensures
            *final(self) == (Session {
                is_loading: false,
                active_pane: if after_login {
                    ActivePane::List
                } else {
                    old(self).active_pane
                },
                ..*old(self)
            }),
    {
        self.is_loading = false;
        if after_login {
            self.active_pane = ActivePane::List;
        }
    }

    /// Takes the plan seen while waiting for a subscription change. Returns
    /// whether an upgrade from the free plan to a paid one was seen, in which
    /// case the waiting ends and the account is to be looked up.
    pub fn on_subscription_check(&mut self, new_plan: &str) -> (upgraded: bool)
        ensures
            upgraded == ((old(self).plan is None || old(self).plan == Some(Plan::Free)) && Plan::of(
                new_plan@,
            ).paid()),
            *final(self) == (Session {
                plan: Some(Plan::of(new_plan@)),
                polling_subscription: old(self).polling_subscription && !upgraded,
                ..*old(self)
            }),
    {
        let plan = Plan::parse(new_plan);
        let was_free = match self.plan {
            None => true,
            Some(Plan::Free) => true,
            Some(_) => false,
        };
        let upgraded = was_free && plan.is_paid();
        if upgraded {
            self.polling_subscription = false;
        }
        self.plan = Some(plan);
        upgraded
    }

    /// Logout: forgets the account and empties the key store. The notes stay.
    /// Deleting the stored tokens and passphrase is the caller's part.
    pub fn logout(&mut self, keys: &mut KeyStore)
        ensures
            final(keys)@ is None,
            *final(self) == (Session {
                logged_in: false,
                plan: None,
                e2e_status: E2eStatus::Disabled,
                sync_status: SyncStatus::Offline,
                ..*old(self)
            }),
    {
        keys.clear();
        self.logged_in = false;
        self.plan = None;
        self.e2e_status = E2eStatus::Disabled;
        self.sync_status = SyncStatus::Offline;
    }
}

// ---------------------------------------------------------------------------
// Login
// ---------------------------------------------------------------------------

/// What the state of a login session asks for.
#[derive(Debug, Clone, Copy, PartialEq, Eq, Structural)]
pub enum PollStep {
    /// The user has logged in: store the tokens, look up the account.
    LoggedIn,
    /// The session is gone: stop polling and report that it expired.
    Expired,
    /// Nothing yet: poll again.
    Pending,
}

impl Session {
    /// Takes the state of the login session as the service reports it:
    /// `success` ends the polling with a login, `not_found` ends it without,
    /// anything else keeps it going.
    pub fn on_poll(&mut self, status: &str) -> (r: PollStep)
        ensures
            r == if status@ == "success"@ {
                PollStep::LoggedIn
            } else if status@ == "not_found"@ {
                PollStep::Expired
            } else {
                PollStep::Pending
            },
            *final(self) == match r {
                PollStep::LoggedIn => Session {
                    polling_login: false,
                    logged_in: true,
                    is_loading: true,
                    ..*old(self)
                },
                PollStep::Expired => Session { polling_login: false, ..*old(self) },
                PollStep::Pending => *old(self),
            },
    {
        if str_eq(status, "success") {
            self.polling_login = false;
            self.logged_in = true;
            self.is_loading = true;
            PollStep::LoggedIn
        } else if str_eq(status, "not_found") {
            self.polling_login = false;
            PollStep::Expired
        } else {
            PollStep::Pending
        }
    }
}

// ---------------------------------------------------------------------------
// Unlock
// ---------------------------------------------------------------------------

/// Why an unlock did not install a key.
#[derive(Debug, Clone, Copy, PartialEq, Eq, Structural)]
pub enum UnlockError {
    /// No passphrase was given.
    EmptyPassphrase,
    /// The repository holds no salt.
    MissingSalt,
    /// The validator does not decrypt to the sentinel under the derived key.
    InvalidPassphrase,
    /// The key could not be derived.
    KeyDerivation { cause: CryptoError },
}

/// Whether an opened validator proves the key right: it must be the sentinel.
pub open spec fn validator_accepts(opened: Result<Seq<char>, CryptoError>) -> bool {
    opened == Ok::<Seq<char>, CryptoError>(SENTINEL@)
}

/// The key that an unlock installs, or why it installs none.
pub open spec fn spec_unlock(
    passphrase: Seq<char>,
    salt: Option<Seq<char>>,
    validator: Option<Seq<char>>,
) -> Result<Seq<u8>, UnlockError> {
    if passphrase.len() == 0 {
        Err(UnlockError::EmptyPassphrase)
    } else {
        match salt {
            None => Err(UnlockError::MissingSalt),
            Some(salt_b64) => match spec_derive_key(passphrase, salt_b64) {
                Err(cause) => Err(UnlockError::KeyDerivation { cause }),
                Ok(key) => match validator {
                    None => Ok(key),
                    Some(payload) => if validator_accepts(spec_decrypt(payload, key)) {
                        Ok(key)
                    } else {
                        Err(UnlockError::InvalidPassphrase)
                    },
                },
            },
        }
    }
}

/// The view of an optional text.
pub open spec fn str_opt_view(text: Option<&str>) -> Option<Seq<char>> {
    match text {
        Some(t) => Some(t@),
        None => None,
    }
}

/// Decides whether an opened validator proves the key right.
pub fn check_validator(opened: Result<String, CryptoError>) -> (r: bool)
    ensures
        r == match opened {
            Ok(text) => text@ == SENTINEL@,
            Err(_) => false,
        },
{
    match opened {
        Ok(text) => str_eq(text.as_str(), SENTINEL),
        Err(_) => false,
    }
}

/// Unlock: derives the key from the passphrase and the salt, checks it against
/// the validator where the service has one, and installs it.
///
/// The key store is touched only on success. A validator that does not
/// decrypt to the sentinel, whether the key is wrong or the validator was
/// tampered with, gives `InvalidPassphrase`.
pub fn unlock(
    passphrase: &str,
    salt: Option<&str>,
    validator: Option<&str>,
    keys: &mut KeyStore,
) -> (r: Result<(), UnlockError>)
    ensures
        match r {
            Ok(_) => spec_unlock(passphrase@, str_opt_view(salt), str_opt_view(validator)) is Ok
                && final(keys)@ == Some(
                spec_unlock(passphrase@, str_opt_view(salt), str_opt_view(validator))->Ok_0,
            ),
            Err(e) => spec_unlock(passphrase@, str_opt_view(salt), str_opt_view(validator)) == Err::<
                Seq<u8>,
                UnlockError,
            >(e) && final(keys)@ == old(keys)@,
        },
{
    if passphrase.is_empty() {
        return Err(UnlockError::EmptyPassphrase);
    }
    let salt_b64 = match salt {
        None => {
            return Err(UnlockError::MissingSalt);
        },
        Some(text) => text,
    };
    let key = match derive_key(passphrase, salt_b64) {
        Err(cause) => {
            return Err(UnlockError::KeyDerivation { cause });
        },
        Ok(key) => key,
    };
    if let Some(payload) = validator {
        if !check_validator(decrypt(payload, key.as_bytes())) {
            return Err(UnlockError::InvalidPassphrase);
        }
    }
    keys.set(key);
    Ok(())
}

/// The status with which an unlock ends.
pub fn unlock_status(result: Result<(), UnlockError>) -> (r: SyncStatus)
    ensures
        r == if result is Ok {
            SyncStatus::Unlocked
        } else {
            SyncStatus::Error
        },
{
    match result {
        Ok(_) => SyncStatus::Unlocked,
        Err(_) => SyncStatus::Error,
    }
}

// ---------------------------------------------------------------------------
// Enabling encryption
// ---------------------------------------------------------------------------

/// What the two passphrase fields of the setup hold.
#[derive(Debug, Clone, Copy, PartialEq, Eq, Structural)]
pub enum SetupInput {
    /// The first field is empty.
    Empty,
    /// The fields differ.
    Mismatch,
    /// The fields agree on a passphrase.
    Ready,
}

/// Reads the two passphrase fields of the setup.
pub fn check_setup_input(passphrase: &str, confirmation: &str) -> (r: SetupInput)
    ensures
        r == if passphrase@.len() == 0 {
            SetupInput::Empty
        } else if passphrase@ != confirmation@ {
            SetupInput::Mismatch
        } else {
            SetupInput::Ready
        },
{
    if passphrase.is_empty() {
        SetupInput::Empty
    } else if !str_eq(passphrase, confirmation) {
        SetupInput::Mismatch
    } else {
        SetupInput::Ready
    }
}

/// What a first-time enable sends to the service and keeps for afterwards.
pub struct E2eSetup {
    /// The account's new salt, base64 of 16 random bytes.
    pub salt: String,
    /// The sentinel encrypted under the key.
    pub validator: String,
    /// The key derived from the passphrase and the salt.
    pub key: SecretKey,
}

impl E2eSetup {
    /// The setup is consistent: the key is what the passphrase and the salt
    /// give, and the validator decrypts to the sentinel under it. An unlock with
    /// the same passphrase, salt and validator therefore succeeds with this key.
    pub open spec fn matches_passphrase(self, passphrase: Seq<char>) -> bool {
        &&& passphrase.len() > 0
        &&& spec_derive_key(passphrase, self.salt@) == Ok::<Seq<u8>, CryptoError>(self.key@)
        &&& validator_accepts(spec_decrypt(self.validator@, self.key@))
        &&& spec_unlock(passphrase, Some(self.salt@), Some(self.validator@)) == Ok::<
            Seq<u8>,
            UnlockError,
        >(self.key@)
    }
}

/// The sentinel is short enough to be encrypted.
proof fn lemma_sentinel_is_sealable()
    ensures
        sealable(SENTINEL@),
{
    reveal_strlit("RISU-VALID");
    assert(is_ascii_chars(SENTINEL@));
    is_ascii_chars_encode_utf8(SENTINEL@);
}

/// Prepares a first-time enable with the salt given: derives the key and
/// encrypts the sentinel under it.
pub fn prepare_e2e_with_salt(passphrase: &str, salt: String) -> (r: Result<E2eSetup, CryptoError>)
    requires
        passphrase@.len() > 0,
    ensures
        match r {
            Ok(setup) => setup.salt@ == salt@ && setup.matches_passphrase(passphrase@),
            Err(e) => spec_derive_key(passphrase@, salt@) == Err::<Seq<u8>, CryptoError>(e),
        },
{
    let key = match derive_key(passphrase, salt.as_str()) {
        Ok(key) => key,
        Err(e) => {
            return Err(e);
        },
    };
    proof {
        lemma_sentinel_is_sealable();
    }
    match encrypt(SENTINEL, key.as_bytes()) {
        Ok(validator) => Ok(E2eSetup { salt, validator, key }),
        Err(e) => Err(e),
    }
}

/// Prepares a first-time enable: generates the salt, derives the key and
/// encrypts the sentinel under it. What comes back is sent to the service as
/// `{salt, validator}`; see `complete_e2e` for what follows its consent.
pub fn prepare_e2e(passphrase: &str) -> (r: Result<E2eSetup, CryptoError>)
    requires
        passphrase@.len() > 0,
    ensures
        r matches Ok(setup) ==> {
            &&& setup.matches_passphrase(passphrase@)
            &&& base64_decode(setup.salt@) matches Some(bytes) && bytes.len() == SALT_LEN
        },
        r matches Err(e) ==> e == CryptoError::KeyDerivation,
        exists|salt: Seq<u8>|
            salt.len() == SALT_LEN && match r {
                Ok(setup) => setup.salt@ == #[trigger] base64_encode(salt),
                Err(e) => spec_derive_key(passphrase@, #[trigger] base64_encode(salt)) == Err::<
                    Seq<u8>,
                    CryptoError,
                >(e),
            },
{
    let salt = generate_salt();
    let ghost drawn = salt@;
    let r = prepare_e2e_with_salt(passphrase, salt);
    proof {
        let bytes = choose|bytes: Seq<u8>|
            bytes.len() == SALT_LEN && drawn == #[trigger] base64_encode(bytes) && base64_decode(
                drawn,
            ) == Some(bytes);
        assert(bytes.len() == SALT_LEN && match r {
            Ok(setup) => setup.salt@ == base64_encode(bytes),
            Err(e) => spec_derive_key(passphrase@, base64_encode(bytes)) == Err::<
                Seq<u8>,
                CryptoError,
            >(e),
        });
    }
    r
}

/// Completes a first-time enable after the service took the salt and the
/// validator: installs the key and returns the two repository requests that
/// store the salt and mark every live note encrypted and unsynced, so that all
/// of them are sent again as ciphertext. Storing the passphrase is the
/// caller's part.
pub fn complete_e2e(setup: E2eSetup, keys: &mut KeyStore) -> (r: (DbRequest, DbRequest))
    ensures
        final(keys)@ == Some(setup.key@),
        r.0 matches DbRequest::SetKV { key, value } && key@ == KEY_ENCRYPTION_SALT@ && value@
            == setup.salt@,
        r.1 matches DbRequest::SetNotesEncryptedStatus { is_encrypted } && is_encrypted == 1,
{
    keys.set(setup.key);
    (
        DbRequest::SetKV { key: str_to_string(KEY_ENCRYPTION_SALT), value: setup.salt },
        DbRequest::SetNotesEncryptedStatus { is_encrypted: 1 },
    )
}

// ---------------------------------------------------------------------------
// Save
// ---------------------------------------------------------------------------

/// What a save of the editor's text asks for.
#[allow(inconsistent_fields)]
pub enum SaveStep {
    /// The text is blank and there is no current note: only read the notes again.
    Refresh,
    /// The text is what the current note already holds: nothing to do.
    Unchanged,
    /// The text is blank: delete the current note, then ask for a sync.
    Delete { id: String },
    /// Save the text, under the current id if there is one, then ask for a sync.
    Save { id: Option<String>, content: String, is_encrypted: bool },
}

/// The content of the first note with this id in a list, if there is one.
pub open spec fn known_content(notes: Seq<Note>, id: Seq<char>) -> Option<Seq<char>>
    decreases notes.len(),
{
    if notes.len() == 0 {
        None
    } else if notes.first().id@ == id {
        Some(notes.first().content@)
    } else {
        known_content(notes.drop_first(), id)
    }
}

/// What a save asks for, given the editor's text, the current note's id, the
/// notes as last read and the state of encryption.
pub open spec fn save_step_is(
    step: SaveStep,
    content: Seq<char>,
    current_id: Option<Seq<char>>,
    notes: Seq<Note>,
    e2e_status: E2eStatus,
) -> bool {
    if trimmed(content).len() == 0 {
        match current_id {
            Some(id) => step matches SaveStep::Delete { id: gone } && gone@ == id,
            None => step is Refresh,
        }
    } else if current_id is Some && known_content(notes, current_id->0) == Some(content) {
        step is Unchanged
    } else {
        &&& step matches SaveStep::Save { id, content: text, is_encrypted }
        &&& opt_view(id) == current_id
        &&& text@ == content
        &&& is_encrypted == e2e_status.encrypts()
    }
}

fn find_content<'a>(notes: &'a Vec<Note>, id: &str) -> (r: Option<&'a str>)
    ensures
        str_opt_view(r) == known_content(notes@, id@),
{
    let mut i: usize = 0;
    assert(notes@.skip(0) == notes@);
    while i < notes.len()
        invariant
            i <= notes@.len(),
            known_content(notes@, id@) == known_content(notes@.skip(i as int), id@),
        decreases notes@.len() - i,
    {
        proof {
            assert(notes@.skip(i as int).first() == notes@[i as int]);
            assert(notes@.skip(i as int).drop_first() == notes@.skip(i + 1));
        }
        if str_eq(notes[i].id.as_str(), id) {
            return Some(notes[i].content.as_str());
        }
        i = i + 1;
    }
    None
}

/// Save: decides what saving the editor's text means.
///
/// Blank text deletes the current note. Text that the current note already
/// holds, going by the notes as last read, is not saved again. Anything else is
/// saved, marked for encryption unless encryption is disabled.
pub fn decide_save(
    content: &str,
    current_id: Option<&str>,
    notes: &Vec<Note>,
    e2e_status: E2eStatus,
) -> (r: SaveStep)
    ensures
        save_step_is(r, content@, str_opt_view(current_id), notes@, e2e_status),
{
    if str_trim(content).is_empty() {
        return match current_id {
            Some(id) => SaveStep::Delete { id: str_to_string(id) },
            None => SaveStep::Refresh,
        };
    }
    let id = match current_id {
        Some(id) => {
            if let Some(known) = find_content(notes, id) {
                if str_eq(known, content) {
                    return SaveStep::Unchanged;
                }
            }
            Some(str_to_string(id))
        },
        None => None,
    };
    SaveStep::Save {
        id,
        content: str_to_string(content),
        is_encrypted: e2e_status != E2eStatus::Disabled,
    }
}

/// The repository request that carries out a save step, if it asks for one.
pub fn save_request(step: SaveStep) -> (r: Option<DbRequest>)
    ensures
        match step {
            SaveStep::Refresh => r is None,
            SaveStep::Unchanged => r is None,
            SaveStep::Delete { id } => r matches Some(DbRequest::DeleteNote { id: gone }) && gone@
                == id@,
            SaveStep::Save { id, content, is_encrypted } => r matches Some(
                DbRequest::SaveNote { id: under, content: text, is_encrypted: flag },
            ) && under == id && text@ == content@ && flag == is_encrypted,
        },
{
    match step {
        SaveStep::Refresh => None,
        SaveStep::Unchanged => None,
        SaveStep::Delete { id } => Some(DbRequest::DeleteNote { id }),
        SaveStep::Save { id, content, is_encrypted } => Some(
            DbRequest::SaveNote { id, content, is_encrypted },
        ),
    }
}

/// Clear all data: whether the data on the service is reset first, which is
/// tried whenever someone is logged in. The local tables are cleared in any case.
pub fn should_reset_remote(token: &str) -> (r: bool)
    ensures
        r == (token@.len() > 0),
{
    !token.is_empty()
}

} // verus!
