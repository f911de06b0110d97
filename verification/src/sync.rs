//! The reconciliation engine: when a sync may run, what a pulled page does to
//! the repository, and what is pushed.
//!
//! Network requests are made elsewhere. The functions here take what a request
//! returned and decide what happens next: which repository request to send,
//! which page to fetch, which status to report.

use vstd::prelude::*;
use vstd::string::*;
use crate::crypto::{
    base64_decode, decrypt, encrypt, sealable, spec_decrypt, CryptoError, SecretKey, NONCE_LEN,
};
use crate::db::{
    note_views, request_outcome, DbReply, DbRequest, Note, NoteView, StoreState,
    KEY_ENCRYPTION_SALT, KEY_LAST_SYNCED_AT,
};
use crate::keystore::KeyStore;
use crate::text::{
    lemma_text_before_irreflexive, str_after, str_eq, str_to_string, text_after, text_at_most,
};

verus! {

// ---------------------------------------------------------------------------
// Status
// ---------------------------------------------------------------------------

/// The closed set of states the reconciliation engine reports to its observers.
#[derive(Debug, Clone, Copy, PartialEq, Eq, Structural)]
pub enum SyncStatus {
    Synced,
    Syncing,
    Offline,
    Error,
    Unlocking,
    Unlocked,
    PaymentRequired,
}

impl SyncStatus {
    /// The label shown for each status.
    pub open spec fn label(self) -> Seq<char> {
        match self {
            SyncStatus::Synced => "Synced"@,
            SyncStatus::Syncing => "Syncing..."@,
            SyncStatus::Offline => "Offline"@,
            SyncStatus::Error => "Error"@,
            SyncStatus::Unlocking => "Unlocking..."@,
            SyncStatus::Unlocked => "Unlocked"@,
            SyncStatus::PaymentRequired => "Upgrade Required"@,
        }
    }

    /// Returns the label of this status.
    pub fn as_str(&self) -> (s: &'static str)
        ensures
            s@ == self.label(),
    {
        match self {
            SyncStatus::Synced => "Synced",
            SyncStatus::Syncing => "Syncing...",
            SyncStatus::Offline => "Offline",
            SyncStatus::Error => "Error",
            SyncStatus::Unlocking => "Unlocking...",
            SyncStatus::Unlocked => "Unlocked",
            SyncStatus::PaymentRequired => "Upgrade Required",
        }
    }
}

// ---------------------------------------------------------------------------
// Plan
// ---------------------------------------------------------------------------

/// The subscription plan of an account. `Pro` and `Dev` are paid.
#[derive(Debug, Clone, Copy, PartialEq, Eq, Structural)]
pub enum Plan {
    Free,
    Pro,
    Dev,
}

impl Plan {
    /// The plan that a plan text of the service stands for. A text that is
    /// neither `pro` nor `dev` counts as the free plan.
    pub open spec fn of(text: Seq<char>) -> Plan {
        if text == "pro"@ {
            Plan::Pro
        } else if text == "dev"@ {
            Plan::Dev
        } else {
            Plan::Free
        }
    }

    /// Whether the plan grants sync and encryption.
    pub open spec fn paid(self) -> bool {
        self != Plan::Free
    }

    /// Reads a plan text of the service. Unknown texts count as the free plan.
    pub fn parse(text: &str) -> (r: Plan)
        ensures
            r == Plan::of(text@),
    {
        if str_eq(text, "pro") {
            Plan::Pro
        } else if str_eq(text, "dev") {
            Plan::Dev
        } else {
            Plan::Free
        }
    }

    /// Whether the plan grants sync and encryption.
    pub fn is_paid(&self) -> (r: bool)
        ensures
            r == self.paid(),
    {
        match self {
            Plan::Free => false,
            Plan::Pro => true,
            Plan::Dev => true,
        }
    }

    /// The name under which the plan is shown.
    pub fn display_name(&self) -> (s: &'static str)
        ensures
            s@ == match *self {
                Plan::Free => "free"@,
                Plan::Pro => "Pro"@,
                Plan::Dev => "Early bird"@,
            },
    {
        match self {
            Plan::Free => "free",
            Plan::Pro => "Pro",
            Plan::Dev => "Early bird",
        }
    }
}

// ---------------------------------------------------------------------------
// Wire values
// ---------------------------------------------------------------------------

/// The account as `/auth/me` describes it.
pub struct AuthMeResponse {
    pub _id: String,
    pub plan: String,
    pub subscription_status: String,
    pub subscription_end_date: Option<String>,
    pub encryption_salt: Option<String>,
    pub encryption_validator: Option<String>,
}

/// A login session as `/auth/init` opens it.
pub struct LoginSession {
    pub session_id: String,
    pub url: String,
}

/// The state of a login session as `/auth/poll` reports it.
pub struct PollResult {
    pub status: String,
    pub token: String,
    pub refresh_token: String,
}

/// One page of changes as `/sync/pull` returns it.
pub struct PullResult {
    pub changes: Vec<Note>,
    pub has_more: bool,
    pub next_cursor: String,
}

// ---------------------------------------------------------------------------
// Request policy
// ---------------------------------------------------------------------------

/// A request is attempted at most this many times.
pub const MAX_ATTEMPTS: u32 = 3;

/// The wait before the next attempt is this many milliseconds times the number
/// of attempts made.
pub const BACKOFF_STEP_MS: u64 = 500;

/// Every request is given up after this many seconds.
pub const REQUEST_TIMEOUT_SECS: u64 = 10;

/// The status of a response whose token has expired.
pub const STATUS_UNAUTHORIZED: u16 = 401;

/// The status with which a push is refused for want of a paid plan.
pub const STATUS_FORBIDDEN: u16 = 403;

/// The status of a login session that the service no longer knows.
pub const STATUS_NOT_FOUND: u16 = 404;

/// The status of a successful response.
pub const STATUS_OK: u16 = 200;

/// How a request failed.
#[derive(Debug, Clone, Copy, PartialEq, Eq, Structural)]
pub enum ApiError {
    /// No response: connection failure or timeout, after every attempt.
    Network,
    /// The service answered 401 and the token could not be refreshed.
    Unauthenticated,
    /// The service refused a push with 403.
    PaymentRequired,
    /// The service answered with another status than 200.
    Http { status: u16 },
    /// The body of a 200 response could not be read.
    Decode,
}

/// What to do after an attempt that got a response.
#[derive(Debug, Clone, Copy, PartialEq, Eq, Structural)]
pub enum ResponseStep {
    /// Refresh the token; then see `after_refresh`.
    Refresh,
    /// Wait, then attempt again.
    RetryAfter { delay_ms: u64 },
    /// Hand the response to the caller.
    Deliver,
}

/// What to do after an attempt that got no response.
#[derive(Debug, Clone, Copy, PartialEq, Eq, Structural)]
pub enum FailureStep {
    /// Wait, then attempt again.
    RetryAfter { delay_ms: u64 },
    /// Give up with a network error.
    GiveUp,
}

/// Whether a status is in the 5xx range.
pub open spec fn server_error(status: u16) -> bool {
    500 <= status <= 599
}

/// The wait after the given number of attempts: 500 ms, 1000 ms, 1500 ms.
pub open spec fn backoff_ms(attempts: u32) -> int {
    BACKOFF_STEP_MS * attempts
}

/// What follows an attempt that got a response with this status.
pub open spec fn spec_after_response(status: u16, attempts: u32) -> ResponseStep {
    if status == STATUS_UNAUTHORIZED && attempts == 1 {
        ResponseStep::Refresh
    } else if server_error(status) && attempts < MAX_ATTEMPTS {
        ResponseStep::RetryAfter { delay_ms: backoff_ms(attempts) as u64 }
    } else {
        ResponseStep::Deliver
    }
}

/// Decides what follows an attempt that got a response. `attempts` counts the
/// attempts made so far, this one included.
///
/// A 401 on the first attempt asks for a token refresh. A 5xx is retried after
/// a wait of 500 ms times `attempts`, as long as fewer than three attempts were
/// made. Any other response, a 4xx other than that first 401 included, goes to
/// the caller as it is.
pub fn after_response(status: u16, attempts: u32) -> (r: ResponseStep)
    requires
        1 <= attempts <= MAX_ATTEMPTS,
    ensures
        r == spec_after_response(status, attempts),
{
    if status == STATUS_UNAUTHORIZED && attempts == 1 {
        ResponseStep::Refresh
    } else if status >= 500 && status <= 599 && attempts < MAX_ATTEMPTS {
        let n: u64 = attempts.into();
        ResponseStep::RetryAfter { delay_ms: BACKOFF_STEP_MS * n }
    } else {
        ResponseStep::Deliver
    }
}

/// Decides what follows the token refresh that a first 401 asked for: attempt
/// again at once where the refresh succeeded, otherwise hand the 401 to the
/// caller.
pub fn after_refresh(refreshed: bool) -> (r: ResponseStep)
    ensures
        r == if refreshed {
            ResponseStep::RetryAfter { delay_ms: 0 }
        } else {
            ResponseStep::Deliver
        },
{
    if refreshed {
        ResponseStep::RetryAfter { delay_ms: 0 }
    } else {
        ResponseStep::Deliver
    }
}

/// Decides what follows an attempt that got no response: wait 500 ms times
/// `attempts` and attempt again, or give up after the third attempt.
pub fn after_network_error(attempts: u32) -> (r: FailureStep)
    requires
        1 <= attempts <= MAX_ATTEMPTS,
    ensures
        r == if attempts < MAX_ATTEMPTS {
            FailureStep::RetryAfter { delay_ms: backoff_ms(attempts) as u64 }
        } else {
            FailureStep::GiveUp
        },
{
    if attempts < MAX_ATTEMPTS {
        let n: u64 = attempts.into();
        FailureStep::RetryAfter { delay_ms: BACKOFF_STEP_MS * n }
    } else {
        FailureStep::GiveUp
    }
}

/// Reads the status of a delivered response: 200 is success, 401 means the
/// token expired and could not be refreshed, anything else is an HTTP failure.
pub fn check_status(status: u16) -> (r: Result<(), ApiError>)
    ensures
        r == if status == STATUS_OK {
            Ok::<(), ApiError>(())
        } else if status == STATUS_UNAUTHORIZED {
            Err::<(), ApiError>(ApiError::Unauthenticated)
        } else {
            Err::<(), ApiError>(ApiError::Http { status })
        },
{
    if status == STATUS_OK {
        Ok(())
    } else if status == STATUS_UNAUTHORIZED {
        Err(ApiError::Unauthenticated)
    } else {
        Err(ApiError::Http { status })
    }
}

/// Reads the status of a delivered `/sync/push` response: as `check_status`,
/// but a 403 is `PaymentRequired`.
pub fn check_push_status(status: u16) -> (r: Result<(), ApiError>)
    ensures
        r == if status == STATUS_FORBIDDEN {
            Err::<(), ApiError>(ApiError::PaymentRequired)
        } else if status == STATUS_OK {
            Ok::<(), ApiError>(())
        } else if status == STATUS_UNAUTHORIZED {
            Err::<(), ApiError>(ApiError::Unauthenticated)
        } else {
            Err::<(), ApiError>(ApiError::Http { status })
        },
{
    if status == STATUS_FORBIDDEN {
        Err(ApiError::PaymentRequired)
    } else {
        check_status(status)
    }
}

/// How to read a `/auth/poll` response.
#[derive(Debug, Clone, Copy, PartialEq, Eq, Structural)]
pub enum PollRead {
    /// 404: the session is gone; the result is `not_found` with empty tokens.
    NotFound,
    /// 200: the body holds the result.
    Body,
    /// Any other status is a failure.
    Failed { status: u16 },
}

/// Decides how a `/auth/poll` response is read.
pub fn read_poll_status(status: u16) -> (r: PollRead)
    ensures
        r == if status == STATUS_NOT_FOUND {
            PollRead::NotFound
        } else if status == STATUS_OK {
            PollRead::Body
        } else {
            PollRead::Failed { status }
        },
{
    if status == STATUS_NOT_FOUND {
        PollRead::NotFound
    } else if status == STATUS_OK {
        PollRead::Body
    } else {
        PollRead::Failed { status }
    }
}

/// The result that stands for a login session the service no longer knows.
pub fn poll_not_found() -> (r: PollResult)
    ensures
        r.status@ == "not_found"@,
        r.token@ == Seq::<char>::empty(),
        r.refresh_token@ == Seq::<char>::empty(),
{
    PollResult {
        status: str_to_string("not_found"),
        token: String::new(),
        refresh_token: String::new(),
    }
}

/// The path of a pull request for the changes since a cursor.
pub fn pull_path(since: &str) -> (r: String)
    ensures
        r@ == "/sync/pull?since="@ + since@,
{
    str_to_string("/sync/pull?since=").concat(since)
}

/// The path of a poll request for a login session.
pub fn poll_path(session_id: &str) -> (r: String)
    ensures
        r@ == "/auth/poll?session="@ + session_id@,
{
    str_to_string("/auth/poll?session=").concat(session_id)
}

/// The address of a path on the service.
pub fn endpoint_url(base_url: &str, path: &str) -> (r: String)
    ensures
        r@ == base_url@ + path@,
{
    str_to_string(base_url).concat(path)
}

// ---------------------------------------------------------------------------
// May a sync run?
// ---------------------------------------------------------------------------

/// What a sync attempt does once the plan is known.
pub enum SyncDecision {
    /// Free plan: remove the local salt, the stored passphrase and the key;
    /// report `Offline`.
    Cleanup,
    /// Paid plan, no salt locally but one on the service: store it locally,
    /// then decide again.
    AdoptSalt { salt: String },
    /// Paid plan, no salt anywhere: encryption has to be set up first; report
    /// `Offline`.
    SetupRequired,
    /// Paid plan, salt present, no key installed: locked; report `Offline`.
    Locked,
    /// Paid plan, salt and key present: report `Syncing`, pull, push.
    Sync,
}

/// What is decided for a plan, the salts and the key store's state.
pub open spec fn sync_decision_is(
    decision: SyncDecision,
    plan: Plan,
    local_salt: bool,
    remote_salt: Option<Seq<char>>,
    has_key: bool,
) -> bool {
    if !plan.paid() {
        decision is Cleanup
    } else if !local_salt {
        match remote_salt {
            Some(salt) => decision matches SyncDecision::AdoptSalt { salt: adopted } && adopted@
                == salt,
            None => decision is SetupRequired,
        }
    } else if !has_key {
        decision is Locked
    } else {
        decision is Sync
    }
}

/// The view of an optional text.
pub open spec fn opt_view(text: Option<String>) -> Option<Seq<char>> {
    match text {
        Some(t) => Some(t@),
        None => None,
    }
}

/// Decides, for a fetched account, whether a sync may run.
///
/// On the free plan sync is off and encryption material is cleaned up. On a
/// paid plan a sync needs the salt locally and a key in the key store.
pub fn decide_sync(me: &AuthMeResponse, local_salt_present: bool, has_key: bool) -> (r: SyncDecision)
    ensures
        sync_decision_is(
            r,
            Plan::of(me.plan@),
            local_salt_present,
            opt_view(me.encryption_salt),
            has_key,
        ),
{
    let plan = Plan::parse(me.plan.as_str());
    if !plan.is_paid() {
        SyncDecision::Cleanup
    } else if !local_salt_present {
        match &me.encryption_salt {
            Some(salt) => SyncDecision::AdoptSalt { salt: salt.clone() },
            None => SyncDecision::SetupRequired,
        }
    } else if !has_key {
        SyncDecision::Locked
    } else {
        SyncDecision::Sync
    }
}

/// The status that a decision reports before anything else happens;
/// none for `AdoptSalt`, after which the decision is taken again.
pub fn decision_status(decision: &SyncDecision) -> (r: Option<SyncStatus>)
    ensures
        r == match *decision {
            SyncDecision::Cleanup => Some(SyncStatus::Offline),
            SyncDecision::AdoptSalt { .. } => None::<SyncStatus>,
            SyncDecision::SetupRequired => Some(SyncStatus::Offline),
            SyncDecision::Locked => Some(SyncStatus::Offline),
            SyncDecision::Sync => Some(SyncStatus::Syncing),
        },
{
    match decision {
        SyncDecision::Cleanup => Some(SyncStatus::Offline),
        SyncDecision::AdoptSalt { .. } => None,
        SyncDecision::SetupRequired => Some(SyncStatus::Offline),
        SyncDecision::Locked => Some(SyncStatus::Offline),
        SyncDecision::Sync => Some(SyncStatus::Syncing),
    }
}

/// The status with which a sync attempt ends before the plan is known: with
/// no token it is `Offline`, with a failed plan fetch it is `Error`.
pub fn status_without_plan(token: &str) -> (r: SyncStatus)
    ensures
        r == if token@.len() == 0 {
            SyncStatus::Offline
        } else {
            SyncStatus::Error
        },
{
    if token.is_empty() {
        SyncStatus::Offline
    } else {
        SyncStatus::Error
    }
}

/// Cleans up encryption material after a free plan was observed: empties the
/// key store and returns the repository request that removes the local salt.
/// The stored passphrase is the caller's to delete.
pub fn cleanup_e2e(keys: &mut KeyStore) -> (r: DbRequest)
    ensures
        final(keys)@ is None,
        r matches DbRequest::DeleteKV { key } && key@ == KEY_ENCRYPTION_SALT@,
{
    keys.clear();
    DbRequest::DeleteKV { key: str_to_string(KEY_ENCRYPTION_SALT) }
}

/// After the cleanup request was answered the repository holds no salt.
pub proof fn lemma_cleanup_removes_salt(
    before: StoreState,
    request: DbRequest,
    after: StoreState,
    reply: DbReply,
)
    requires
        request matches DbRequest::DeleteKV { key } && key@ == KEY_ENCRYPTION_SALT@,
        request_outcome(before, request, after, reply),
    ensures
        !after.kv.contains_key(KEY_ENCRYPTION_SALT@),
        after.notes == before.notes,
{
}

/// The repository request that stores a salt adopted from the service.
pub fn adopt_salt(salt: String) -> (r: DbRequest)
    ensures
        r matches DbRequest::SetKV { key, value } && key@ == KEY_ENCRYPTION_SALT@ && value@ == salt@,
{
    DbRequest::SetKV { key: str_to_string(KEY_ENCRYPTION_SALT), value: salt }
}

/// The status with which a sync that was allowed to run ends.
pub fn status_after_sync(result: Result<(), ApiError>) -> (r: SyncStatus)
    ensures
        r == match result {
            Ok(_) => SyncStatus::Synced,
            Err(ApiError::PaymentRequired) => SyncStatus::PaymentRequired,
            Err(_) => SyncStatus::Error,
        },
{
    match result {
        Ok(_) => SyncStatus::Synced,
        Err(ApiError::PaymentRequired) => SyncStatus::PaymentRequired,
        Err(_) => SyncStatus::Error,
    }
}

// ---------------------------------------------------------------------------
// Pull
// ---------------------------------------------------------------------------

/// A pull fetches at most this many pages.
pub const MAX_PAGES: usize = 100;

/// Whether the service has changes that the repository has not seen: its
/// `last_updated_at` is strictly later than the cursor.
pub fn should_pull(cursor: &str, server_last_updated_at: &str) -> (r: bool)
    ensures
        r == text_after(server_last_updated_at@, cursor@),
{
    str_after(server_last_updated_at, cursor)
}

/// What a pulled change becomes locally: a change marked encrypted whose
/// content decrypts under the key is stored as plaintext. Every other change is
/// dropped: plaintext from the service, a change that does not decrypt, or any
/// change while no key is installed.
pub open spec fn accepted_change(change: NoteView, key: Option<Seq<u8>>) -> Option<NoteView> {
    if change.is_encrypted == 1 && key is Some {
        match spec_decrypt(change.content, key->0) {
            Ok(plaintext) => Some(NoteView { content: plaintext, is_encrypted: 0, ..change }),
            Err(_) => None,
        }
    } else {
        None
    }
}

/// The batch that a page's changes give: the accepted changes, in page order.
pub open spec fn page_batch(changes: Seq<NoteView>, key: Option<Seq<u8>>) -> Seq<NoteView>
    decreases changes.len(),
{
    if changes.len() == 0 {
        Seq::empty()
    } else {
        let head = page_batch(changes.drop_last(), key);
        match accepted_change(changes.last(), key) {
            Some(note) => head.push(note),
            None => head,
        }
    }
}

/// The view of an optional key.
pub open spec fn key_view(key: Option<&SecretKey>) -> Option<Seq<u8>> {
    match key {
        Some(k) => Some(k@),
        None => None,
    }
}

/// Decrypts one pulled change for local storage, or drops it.
pub fn accept_change(change: &Note, key: Option<&SecretKey>) -> (r: Option<Note>)
    ensures
        match r {
            Some(note) => accepted_change(change@, key_view(key)) == Some(note@),
            None => accepted_change(change@, key_view(key)) is None,
        },
{
    if change.is_encrypted != 1 {
        return None;
    }
    match key {
        None => None,
        Some(k) => match decrypt(change.content.as_str(), k.as_bytes()) {
            Ok(plaintext) => Some(
                Note {
                    id: change.id.clone(),
                    content: plaintext,
                    updated_at: change.updated_at.clone(),
                    is_deleted: change.is_deleted,
                    is_synced: change.is_synced,
                    is_encrypted: 0,
                },
            ),
            Err(_) => None,
        },
    }
}

/// Decrypts the changes of a page: the batch to apply, in page order.
pub fn decrypt_changes(changes: &Vec<Note>, key: Option<&SecretKey>) -> (r: Vec<Note>)
    ensures
        note_views(r@) == page_batch(note_views(changes@), key_view(key)),
        forall|k: int| 0 <= k < r@.len() ==> (#[trigger] r@[k]).is_encrypted == 0,
{
    let ghost all = note_views(changes@);
    let mut out: Vec<Note> = Vec::new();
    let mut i: usize = 0;
    while i < changes.len()
        invariant
            i <= changes@.len(),
            all == note_views(changes@),
            note_views(out@) == page_batch(all.take(i as int), key_view(key)),
            forall|k: int| 0 <= k < out@.len() ==> (#[trigger] out@[k]).is_encrypted == 0,
        decreases changes@.len() - i,
    {
        proof {
            assert(all.take(i + 1).drop_last() == all.take(i as int));
            assert(all.take(i + 1).last() == changes@[i as int]@);
        }
        let ghost before = out@;
        match accept_change(&changes[i], key) {
            Some(note) => {
                out.push(note);
                assert(note_views(out@) == note_views(before).push(note@));
            },
            None => {},
        }
        i = i + 1;
    }
    assert(all.take(i as int) == all);
    out
}

/// What a page asks of the repository.
pub enum PageAction {
    /// The page was empty: nothing to store.
    Nothing,
    /// No change of the page could be accepted: only the cursor moves, so that
    /// the same page is not fetched forever.
    AdvanceCursor { cursor: String },
    /// Apply the batch and move the cursor, as one repository request.
    Upsert { notes: Vec<Note>, cursor: String },
}

/// What follows a page.
pub enum PullNext {
    /// Fetch the next page, from this cursor.
    Fetch { cursor: String },
    /// The pull is complete.
    Done,
}

/// What a page asks of the repository, given its changes and its cursor.
pub open spec fn page_action_is(
    action: PageAction,
    changes: Seq<NoteView>,
    key: Option<Seq<u8>>,
    next_cursor: Seq<char>,
) -> bool {
    let batch = page_batch(changes, key);
    if batch.len() > 0 {
        action matches PageAction::Upsert { notes, cursor } && note_views(notes@) == batch
            && cursor@ == next_cursor
    } else if changes.len() > 0 {
        action matches PageAction::AdvanceCursor { cursor } && cursor@ == next_cursor
    } else {
        action is Nothing
    }
}

/// Whether another page is fetched after a page: the service has more, the
/// cursor moved, and fewer than 100 pages were fetched.
pub open spec fn pull_continues(
    has_more: bool,
    next_cursor: Seq<char>,
    current_cursor: Seq<char>,
    pages_fetched: int,
) -> bool {
    has_more && next_cursor != current_cursor && pages_fetched < MAX_PAGES
}

/// What follows a page, given whether the pull continues.
pub open spec fn pull_next_is(next: PullNext, continues: bool, next_cursor: Seq<char>) -> bool {
    if continues {
        next matches PullNext::Fetch { cursor } && cursor@ == next_cursor
    } else {
        next is Done
    }
}

/// The repository after a page was handled.
pub open spec fn store_after_page(
    store: StoreState,
    changes: Seq<NoteView>,
    key: Option<Seq<u8>>,
    next_cursor: Seq<char>,
) -> StoreState {
    let batch = page_batch(changes, key);
    if batch.len() > 0 {
        store.pull_upsert(batch, next_cursor)
    } else if changes.len() > 0 {
        StoreState { notes: store.notes, kv: store.kv.insert(KEY_LAST_SYNCED_AT@, next_cursor) }
    } else {
        store
    }
}

/// Handles one pulled page.
///
/// `current_cursor` is the cursor the page was fetched with, `pages_fetched`
/// the number of pages fetched so far, this one included. The changes are
/// decrypted with the key; what cannot be accepted is dropped. A non-empty
/// batch goes to the repository together with the page's cursor; a page of
/// which nothing was accepted moves the cursor alone; an empty page stores
/// nothing. The pull goes on while the service has more, the cursor moved and
/// fewer than 100 pages were fetched.
pub fn process_page(
    page: PullResult,
    key: Option<&SecretKey>,
    current_cursor: &str,
    pages_fetched: usize,
) -> (r: (PageAction, PullNext))
    ensures
        page_action_is(r.0, note_views(page.changes@), key_view(key), page.next_cursor@),
        pull_next_is(
            r.1,
            pull_continues(page.has_more, page.next_cursor@, current_cursor@, pages_fetched as int),
            page.next_cursor@,
        ),
{
    let batch = decrypt_changes(&page.changes, key);
    let continues = page.has_more && !str_eq(page.next_cursor.as_str(), current_cursor)
        && pages_fetched < MAX_PAGES;
    let next = if continues {
        PullNext::Fetch { cursor: page.next_cursor.clone() }
    } else {
        PullNext::Done
    };
    let action = if batch.len() > 0 {
        PageAction::Upsert { notes: batch, cursor: page.next_cursor }
    } else if page.changes.len() > 0 {
        PageAction::AdvanceCursor { cursor: page.next_cursor }
    } else {
        PageAction::Nothing
    };
    (action, next)
}

/// Whether `request` is what carries out a page action.
pub open spec fn page_request_is(action: PageAction, request: Option<DbRequest>) -> bool {
    match action {
        PageAction::Nothing => request is None,
        PageAction::AdvanceCursor { cursor } => {
            &&& request matches Some(DbRequest::SetKV { key, value })
            &&& key@ == KEY_LAST_SYNCED_AT@
            &&& value@ == cursor@
        },
        PageAction::Upsert { notes, cursor } => {
            &&& request matches Some(DbRequest::PullUpsertNotes { notes: batch, cursor: stored })
            &&& batch@ == notes@
            &&& stored@ == cursor@
        },
    }
}

/// The repository request that carries out a page action, if it asks for one.
pub fn page_request(action: PageAction) -> (r: Option<DbRequest>)
    ensures
        page_request_is(action, r),
{
    match action {
        PageAction::Nothing => None,
        PageAction::AdvanceCursor { cursor } => Some(
            DbRequest::SetKV { key: str_to_string(KEY_LAST_SYNCED_AT), value: cursor },
        ),
        PageAction::Upsert { notes, cursor } => Some(DbRequest::PullUpsertNotes { notes, cursor }),
    }
}

/// Handling a page and answering the request it asks for leaves the repository
/// as `store_after_page` says.
pub proof fn lemma_page_request_stores_page(
    before: StoreState,
    changes: Seq<NoteView>,
    key: Option<Seq<u8>>,
    next_cursor: Seq<char>,
    action: PageAction,
    request: Option<DbRequest>,
    after: StoreState,
    reply: DbReply,
)
    requires
        page_action_is(action, changes, key, next_cursor),
        page_request_is(action, request),
        match request {
            Some(req) => request_outcome(before, req, after, reply),
            None => after == before,
        },
    ensures
        after == store_after_page(before, changes, key, next_cursor),
{
}

/// Every note that a page stores is plaintext that came out of a change marked
/// encrypted: plaintext from the service never reaches the repository.
pub proof fn lemma_page_batch_is_decrypted(changes: Seq<NoteView>, key: Option<Seq<u8>>)
    ensures
        forall|k: int|
            0 <= k < page_batch(changes, key).len() ==> {
                let note = #[trigger] page_batch(changes, key)[k];
                &&& note.is_encrypted == 0
                &&& exists|j: int|
                    0 <= j < changes.len() && (#[trigger] changes[j]).is_encrypted == 1
                        && accepted_change(changes[j], key) == Some(note)
            },
    decreases changes.len(),
{
    if changes.len() > 0 {
        let head = changes.drop_last();
        lemma_page_batch_is_decrypted(head, key);
        let batch = page_batch(changes, key);
        assert forall|k: int| 0 <= k < batch.len() implies {
            let note = #[trigger] batch[k];
            &&& note.is_encrypted == 0
            &&& exists|j: int|
                0 <= j < changes.len() && (#[trigger] changes[j]).is_encrypted == 1
                    && accepted_change(changes[j], key) == Some(note)
        } by {
            let note = batch[k];
            if k < page_batch(head, key).len() {
                assert(note == page_batch(head, key)[k]);
                let j = choose|j: int|
                    0 <= j < head.len() && (#[trigger] head[j]).is_encrypted == 1 && accepted_change(
                        head[j],
                        key,
                    ) == Some(note);
                assert(changes[j] == head[j]);
            } else {
                assert(accepted_change(changes[changes.len() - 1], key) == Some(note));
            }
        }
    }
}

/// The cursor and the batch move together: after a page the repository either
/// holds the whole batch with the page's cursor, or is as it was before, which
/// happens only for an empty page.
pub proof fn lemma_page_is_atomic(
    store: StoreState,
    changes: Seq<NoteView>,
    key: Option<Seq<u8>>,
    next_cursor: Seq<char>,
)
    ensures
        ({
            let after = store_after_page(store, changes, key, next_cursor);
            if changes.len() > 0 {
                &&& after.cursor() == next_cursor
                &&& after.notes == store.upsert_batch(page_batch(changes, key)).notes
            } else {
                after == store
            }
        }),
{
    let batch = page_batch(changes, key);
    let after = store_after_page(store, changes, key, next_cursor);
    if changes.len() > 0 && batch.len() == 0 {
        assert(store.upsert_batch(batch) == store);
    }
}

/// The cursor never moves backwards: where the page's cursor is not earlier
/// than the repository's, the repository's cursor after the page is not earlier
/// than before.
pub proof fn lemma_page_keeps_cursor_order(
    store: StoreState,
    changes: Seq<NoteView>,
    key: Option<Seq<u8>>,
    next_cursor: Seq<char>,
)
    requires
        text_at_most(store.cursor(), next_cursor),
    ensures
        text_at_most(store.cursor(), store_after_page(store, changes, key, next_cursor).cursor()),
{
    lemma_page_is_atomic(store, changes, key, next_cursor);
    lemma_text_before_irreflexive(store.cursor());
}

/// What a page holds, as far as the repository is concerned.
pub struct PageView {
    pub changes: Seq<NoteView>,
    pub next_cursor: Seq<char>,
}

/// The repository after the pages of a pull were handled, first to last.
pub open spec fn store_after_pull(store: StoreState, pages: Seq<PageView>, key: Option<Seq<u8>>) -> StoreState
    decreases pages.len(),
{
    if pages.len() == 0 {
        store
    } else {
        store_after_page(
            store_after_pull(store, pages.drop_last(), key),
            pages.last().changes,
            key,
            pages.last().next_cursor,
        )
    }
}

/// Whether no page of a pull has a cursor earlier than `start`.
pub open spec fn cursors_not_before(start: Seq<char>, pages: Seq<PageView>) -> bool {
    forall|i: int| 0 <= i < pages.len() ==> text_at_most(start, (#[trigger] pages[i]).next_cursor)
}

proof fn lemma_cursor_after_pull(store: StoreState, pages: Seq<PageView>, key: Option<Seq<u8>>)
    ensures
        ({
            let cursor = store_after_pull(store, pages, key).cursor();
            cursor == store.cursor() || exists|j: int|
                0 <= j < pages.len() && cursor == (#[trigger] pages[j]).next_cursor
        }),
    decreases pages.len(),
{
    if pages.len() > 0 {
        let head = pages.drop_last();
        let before = store_after_pull(store, head, key);
        lemma_cursor_after_pull(store, head, key);
        lemma_page_is_atomic(before, pages.last().changes, key, pages.last().next_cursor);
        let cursor = store_after_pull(store, pages, key).cursor();
        if pages.last().changes.len() > 0 {
            assert(cursor == pages[pages.len() - 1].next_cursor);
        } else if before.cursor() != store.cursor() {
            let j = choose|j: int|
                0 <= j < head.len() && before.cursor() == (#[trigger] head[j]).next_cursor;
            assert(cursor == pages[j].next_cursor);
        }
    }
}

/// The cursor never moves backwards over a pull: where no page has a cursor
/// earlier than the repository's, the repository's cursor after the pull is
/// not earlier than before.
pub proof fn lemma_pull_keeps_cursor_order(
    store: StoreState,
    pages: Seq<PageView>,
    key: Option<Seq<u8>>,
)
    requires
        cursors_not_before(store.cursor(), pages),
    ensures
        text_at_most(store.cursor(), store_after_pull(store, pages, key).cursor()),
{
    lemma_cursor_after_pull(store, pages, key);
    lemma_text_before_irreflexive(store.cursor());
}

// ---------------------------------------------------------------------------
// Push
// ---------------------------------------------------------------------------

/// Whether anything is pushed on this plan: nothing on the free plan.
pub fn push_enabled(plan: Plan) -> (r: bool)
    ensures
        r == plan.paid(),
{
    plan.is_paid()
}

/// What is done for one unsynced note.
pub enum PushStep {
    /// Nothing is sent: the row is gone, no key is installed, or the content
    /// is too long to be encrypted.
    Skip,
    /// Send this note, which holds ciphertext.
    Send { note: Note },
}

/// Whether `sent` is the wire form of `latest` under `key`: the same note with
/// its content replaced by a ciphertext that decrypts to it, marked encrypted.
pub open spec fn wire_form_of(sent: NoteView, latest: NoteView, key: Seq<u8>) -> bool {
    &&& sent.id == latest.id
    &&& sent.updated_at == latest.updated_at
    &&& sent.is_deleted == latest.is_deleted
    &&& sent.is_synced == latest.is_synced
    &&& sent.is_encrypted == 1
    &&& spec_decrypt(sent.content, key) == Ok::<Seq<char>, CryptoError>(latest.content)
    &&& base64_decode(sent.content) matches Some(payload) && payload.len() >= NONCE_LEN
    &&& sent.content != latest.content
}

/// Prepares the push of one unsynced note.
///
/// `latest` is the row as the repository holds it now, read again just before
/// the push so that an edit made since the sync began is what is sent. The
/// content is always encrypted under the installed key; without a key nothing
/// is sent.
pub fn prepare_push(latest: Option<Note>, key: Option<&SecretKey>) -> (r: PushStep)
    ensures
        match r {
            PushStep::Send { note } => {
                &&& latest is Some
                &&& key is Some
                &&& wire_form_of(note@, latest->0@, key->0@)
            },
            PushStep::Skip => latest is None || key is None || !sealable(latest->0@.content),
        },
{
    match latest {
        None => PushStep::Skip,
        Some(row) => match key {
            None => PushStep::Skip,
            Some(k) => match encrypt(row.content.as_str(), k.as_bytes()) {
                Ok(ciphertext) => {
                    assert(ciphertext@.len() > row.content@.len());
                    PushStep::Send {
                        note: Note {
                            id: row.id,
                            content: ciphertext,
                            updated_at: row.updated_at,
                            is_deleted: row.is_deleted,
                            is_synced: row.is_synced,
                            is_encrypted: 1,
                        },
                    }
                },
                Err(_) => PushStep::Skip,
            },
        },
    }
}

/// What follows the push of one note.
pub enum PushOutcome {
    /// The service took the note: mark it synced with this request, go on.
    Acknowledged { request: DbRequest },
    /// The push is over, with this error. The note stays unsynced.
    Abort { error: ApiError },
}

/// Decides what follows the push of the note with this id, given the status of
/// the response: success marks the note synced; a 403 ends the push with
/// `PaymentRequired`; any other status ends it with that failure.
pub fn after_push(id: String, status: u16) -> (r: PushOutcome)
    ensures
        match r {
            PushOutcome::Acknowledged { request } => {
                &&& status == STATUS_OK
                &&& request matches DbRequest::MarkAsSynced { id: marked }
                &&& marked@ == id@
            },
            PushOutcome::Abort { error } => status != STATUS_OK && error == if status
                == STATUS_FORBIDDEN {
                ApiError::PaymentRequired
            } else if status == STATUS_UNAUTHORIZED {
                ApiError::Unauthenticated
            } else {
                ApiError::Http { status }
            },
        },
{
    match check_push_status(status) {
        Ok(_) => PushOutcome::Acknowledged { request: DbRequest::MarkAsSynced { id } },
        Err(error) => PushOutcome::Abort { error },
    }
}

} // verus!
