//! The conversation store as one process uses it: from within a session, and
//! with a queue of prompts of its own.

use crate::ambient::{now_nanos, now_text, random_u128, random_u16, random_u32, random_u64};
use crate::digest::{blake3_hex, blake3_hex_of};
use crate::language::Language;
use crate::paths::{below, join_path, lies_in, path_lies_in};
use crate::state::access::same_grant;
use crate::state::assets::{describe_artifact, is_one_component, new_artifact, one_component};
use crate::state::checkpoint::artifact_of;
use crate::state::compact::archived;
use crate::state::db::{outcome, ConversationDb, DbModel};
use crate::state::error::{StateError, StateErrorKind, StateErrorModel};
use crate::state::queue::Preceding;
use crate::state::redo::RedoRequest;
use crate::state::rows::EvictedRow;
use crate::state::salvage::{writes, ArtifactPlace, FoundFile};
use crate::state::sessions::{CURRENT_SESSION_POINTER, REPL_SESSION_POINTER};
use crate::state::turns::{
    is_running, running_in, running_in_except, turn_except, turn_of, visible_turn,
    visible_turn_except,
};
use crate::state::types::{
    ArtifactAsset, ArtifactAssetData, EvictedTurn, ImageAsset, PlatformAccessActor,
    PlatformAccessGrant, PlatformAccessGrantKey, PlatformAccessGrantKeyModel,
    PlatformAccessGrantModel, PlatformPluginScopeKey,
    PlatformSessionBinding, PlatformSessionBindingKey, PruneStats, QueuedPrompt, QueuedPromptModel,
    RedoCandidate, RedoInputKind, RedoStart, RunningTurnQueueTarget, RunningTurnQueueTargetModel,
    SessionOverview, SessionOverviewModel, SessionRecord, StaleTurnRecovery, Turn, TurnModel,
    TurnRedoCheckpointPayload, TurnReplay, TurnTokens, GLOBAL_PLATFORM_ACCOUNT_SCOPE,
};
use crate::table::{any, append, map_rows, select, Row};
use crate::text::{decimal, decimal_text, hex, hex_text, long_decimal_text, same, trim, trimmed};
use crate::textset::ascending;
use vstd::prelude::*;

verus! {

/// What the handles on one store share: the tables, an index of who was granted
/// what, and the sessions that they are in.
pub struct SharedState {
    pub conv_db: ConversationDb,
    pub platform_access: Vec<PlatformAccessGrantKey>,
    pub entered: Vec<String>,
}

/// The model of [`SharedState`].
pub struct SharedModel {
    pub db: DbModel,
    pub access: Set<PlatformAccessGrantKeyModel>,
    /// The sessions that handles are in. Handles that point at the same place
    /// are always in the same session.
    pub entered: Seq<Seq<char>>,
}

impl View for SharedState {
    type V = SharedModel;

    open spec fn view(&self) -> SharedModel {
        SharedModel {
            db: self.conv_db@,
            access: self.platform_access.deep_view().to_set(),
            entered: self.entered.deep_view(),
        }
    }
}

/// What was granted, without who granted it.
pub open spec fn granted(grants: Seq<PlatformAccessGrantModel>) -> Set<
    PlatformAccessGrantKeyModel,
> {
    grants.map_values(|g: PlatformAccessGrantModel| g.key).to_set()
}

impl SharedModel {
    /// Whether a handle is one on this store.
    pub open spec fn knows(self, store: StoreModel) -> bool {
        store.pointer < self.entered.len()
    }

    /// The session that a handle is in; that of a handle on another store is
    /// the empty one.
    pub open spec fn session(self, store: StoreModel) -> Seq<char> {
        if self.knows(store) {
            self.entered[store.pointer as int]
        } else {
            Seq::empty()
        }
    }

    /// With a handle, and all that point where it points, in another session.
    pub open spec fn adopted(self, store: StoreModel, session_id: Seq<char>) -> SharedModel {
        if self.knows(store) {
            SharedModel {
                entered: self.entered.update(store.pointer as int, session_id),
                ..self
            }
        } else {
            self
        }
    }

    /// With a session that a handle of its own is in.
    pub open spec fn with_entered(self, session_id: Seq<char>) -> SharedModel {
        SharedModel { entered: self.entered.push(session_id), ..self }
    }

    /// Whether the index holds exactly what was granted.
    pub open spec fn consistent(self) -> bool {
        self.access == granted(self.db.grants)
    }

    /// Whether a subject was granted a permission, on one account or on all.
    pub open spec fn allows(self, key: PlatformAccessGrantKeyModel) -> bool {
        self.access.contains(key) || self.access.contains(
            PlatformAccessGrantKeyModel { account_scope: GLOBAL_PLATFORM_ACCOUNT_SCOPE@, ..key },
        )
    }

    pub open spec fn authorizes(self, authorization: PlatformAccessAuthorizationModel) -> bool {
        authorization.statically_authorized || self.allows(authorization.dynamic_key)
    }

    /// A grant, and whether it was news.
    pub open spec fn grant(
        self,
        key: PlatformAccessGrantKeyModel,
        actor: crate::state::types::PlatformAccessActorModel,
        audit_id: Seq<char>,
        now: Seq<char>,
    ) -> (SharedModel, bool) {
        let (db, added) = self.db.add_platform_access_grant(key, actor, audit_id, now);
        let access = if added {
            self.access.insert(key)
        } else {
            self.access
        };
        (SharedModel { db, access, ..self }, added)
    }

    /// The end of a grant, and whether there was one.
    pub open spec fn revoke(
        self,
        key: PlatformAccessGrantKeyModel,
        actor: crate::state::types::PlatformAccessActorModel,
        audit_id: Seq<char>,
        now: Seq<char>,
    ) -> (SharedModel, bool) {
        let (db, removed) = self.db.remove_platform_access_grant(key, actor, audit_id, now);
        (SharedModel { db, access: self.access.remove(key), ..self }, removed)
    }
}

/// On whose word an access list may be read or changed.
pub struct PlatformAccessAuthorization {
    /// Whether the configuration already allows it.
    pub statically_authorized: bool,
    /// The grant that allows it otherwise.
    pub dynamic_key: PlatformAccessGrantKey,
}

/// The model of [`PlatformAccessAuthorization`].
pub struct PlatformAccessAuthorizationModel {
    pub statically_authorized: bool,
    pub dynamic_key: PlatformAccessGrantKeyModel,
}

impl DeepView for PlatformAccessAuthorization {
    type V = PlatformAccessAuthorizationModel;

    open spec fn deep_view(&self) -> PlatformAccessAuthorizationModel {
        PlatformAccessAuthorizationModel {
            statically_authorized: self.statically_authorized,
            dynamic_key: self.dynamic_key.deep_view(),
        }
    }
}

/// A change of an access list.
#[derive(Debug, Clone, Copy, PartialEq, Eq, Structural)]
pub enum PlatformAccessMutation {
    Grant,
    Revoke,
}

/// What became of a change of an access list.
#[derive(Debug, Clone, Copy, PartialEq, Eq, Structural)]
pub enum PlatformAccessMutationResult {
    Unauthorized,
    Changed,
    Unchanged,
}

/// What a new system prompt asks for.
#[derive(Debug, Clone, Copy, PartialEq, Eq, Structural)]
pub enum PromptChange {
    /// The prompt is the one that the session has seen.
    Unchanged,
    /// The session has none recorded yet, and takes this one.
    Recorded,
    /// The session has seen another: the usage of the last request is forgotten
    /// and the new prompt recorded. The history stays.
    ColdStart,
}

/// What a changed index says of a key.
proof fn lemma_index_insert(
    before: Seq<PlatformAccessGrantKeyModel>,
    key: PlatformAccessGrantKeyModel,
)
    ensures
        before.push(key).to_set() == before.to_set().insert(key),
{
    let after = before.push(key);
    assert forall|k: PlatformAccessGrantKeyModel| after.to_set().contains(k)
        == before.to_set().insert(key).contains(k) by {
        if before.contains(k) {
            let i = before.index_of(k);
            assert(after[i] == k);
        }
        assert(after[before.len() as int] == key);
    }
    assert(after.to_set() =~= before.to_set().insert(key));
}

/// The keys of an index other than `key`.
fn without_key(index: &Vec<PlatformAccessGrantKey>, key: &PlatformAccessGrantKey) -> (out: Vec<
    PlatformAccessGrantKey,
>)
    ensures
        out.deep_view().to_set() == index.deep_view().to_set().remove(key.deep_view()),
{
    let mut out: Vec<PlatformAccessGrantKey> = Vec::new();
    let mut i: usize = 0;
    assert(out.deep_view().to_set() =~= index.deep_view().take(0).to_set().remove(key.deep_view()));
    while i < index.len()
        invariant
            i <= index.len(),
            out.deep_view().to_set() == index.deep_view().take(i as int).to_set().remove(
                key.deep_view(),
            ),
        decreases index.len() - i,
    {
        let ghost all = index.deep_view();
        let ghost done = out.deep_view();
        proof {
            assert(all.take(i + 1) =~= all.take(i as int).push(index[i as int].deep_view()));
            lemma_index_insert(all.take(i as int), index[i as int].deep_view());
            lemma_index_insert(done, index[i as int].deep_view());
        }
        if !same_grant(&index[i], key) {
            out.push(index[i].dup());
            assert(out.deep_view() =~= done.push(index[i as int].deep_view()));
        }
        assert(out.deep_view().to_set() =~= all.take(i + 1).to_set().remove(key.deep_view()));
        i += 1;
    }
    assert(index.deep_view().take(i as int) =~= index.deep_view());
    out
}

fn holds_key(index: &Vec<PlatformAccessGrantKey>, key: &PlatformAccessGrantKey) -> (found: bool)
    ensures
        found == index.deep_view().to_set().contains(key.deep_view()),
{
    let mut i: usize = 0;
    while i < index.len()
        invariant
            i <= index.len(),
            forall|j: int| 0 <= j < i ==> #[trigger] index.deep_view()[j] != key.deep_view(),
        decreases index.len() - i,
    {
        assert(index.deep_view()[i as int] == index[i as int].deep_view());
        if same_grant(&index[i], key) {
            assert(index.deep_view().contains(key.deep_view()));
            return true;
        }
        i += 1;
    }
    false
}

impl SharedState {
    /// The shared state over the tables of a store.
    pub fn new(conv_db: ConversationDb) -> (shared: SharedState)
        ensures
            shared@.db == conv_db@,
            shared@.consistent(),
            shared@.entered.len() == 0,
    {
        let key_of = |g: &PlatformAccessGrant| -> (k: PlatformAccessGrantKey)
            ensures
                k.deep_view() == (|g: PlatformAccessGrantModel| g.key)(g.deep_view()),
            { g.key.dup() };
        let platform_access = map_rows(
            &conv_db.grants,
            &key_of,
            Ghost(|g: PlatformAccessGrantModel| g.key),
        );
        SharedState { conv_db, platform_access, entered: Vec::new() }
    }

    fn allows(&self, key: &PlatformAccessGrantKey) -> (yes: bool)
        ensures
            yes == self@.allows(key.deep_view()),
    {
        let global = PlatformAccessGrantKey {
            platform: key.platform.clone(),
            account_scope: GLOBAL_PLATFORM_ACCOUNT_SCOPE.to_owned(),
            permission: key.permission.clone(),
            subject_kind: key.subject_kind.clone(),
            subject_id: key.subject_id.clone(),
        };
        holds_key(&self.platform_access, &global) || holds_key(&self.platform_access, key)
    }

    /// Grants a permission, at a given time and under a given audit id.
    pub fn grant(
        &mut self,
        key: &PlatformAccessGrantKey,
        actor: &PlatformAccessActor,
        audit_id: &str,
        now: &str,
    ) -> (added: bool)
        ensures
            (final(self)@, added) == old(self)@.grant(
                key.deep_view(),
                actor.deep_view(),
                audit_id@,
                now@,
            ),
    {
        let added = self.conv_db.add_platform_access_grant(key, actor, audit_id, now);
        if added {
            let ghost before = self.platform_access.deep_view();
            self.platform_access.push(key.dup());
            proof {
                lemma_index_insert(before, key.deep_view());
                assert(self.platform_access.deep_view() =~= before.push(key.deep_view()));
            }
        }
        added
    }

    /// Takes a permission back, at a given time and under a given audit id.
    pub fn revoke(
        &mut self,
        key: &PlatformAccessGrantKey,
        actor: &PlatformAccessActor,
        audit_id: &str,
        now: &str,
    ) -> (removed: bool)
        ensures
            (final(self)@, removed) == old(self)@.revoke(
                key.deep_view(),
                actor.deep_view(),
                audit_id@,
                now@,
            ),
    {
        self.platform_access = without_key(&self.platform_access, key);
        self.conv_db.remove_platform_access_grant(key, actor, audit_id, now)
    }
}

/// The id of a queue that a process opened at some time.
pub open spec fn queue_id(pid: u32, nanos: u128, salt: u64) -> Seq<char> {
    "queue_"@ + decimal(pid as nat) + "_"@ + decimal(nanos as nat) + "_"@ + decimal(salt as nat)
}

pub open spec fn new_session_id(millis: u128, salt: u32) -> Seq<char> {
    "sess_"@ + decimal(millis as nat) + "_"@ + hex(salt as nat, 8)
}

pub open spec fn new_summary_id(millis: u128, salt: u16) -> Seq<char> {
    "summary_"@ + decimal(millis as nat) + "_"@ + decimal(salt as nat)
}

pub open spec fn new_audit_id(salt: u128) -> Seq<char> {
    "access-audit-"@ + hex(salt as nat, 32)
}

fn queue_id_text(pid: u32, nanos: u128, salt: u64) -> (id: String)
    ensures
        id@ == queue_id(pid, nanos, salt),
{
    "queue_".to_owned().concat(decimal_text(pid as u64).as_str()).concat("_").concat(
        long_decimal_text(nanos).as_str(),
    ).concat("_").concat(decimal_text(salt).as_str())
}

fn session_id_text(millis: u128, salt: u32) -> (id: String)
    ensures
        id@ == new_session_id(millis, salt),
{
    "sess_".to_owned().concat(long_decimal_text(millis).as_str()).concat("_").concat(
        hex_text(salt as u128, 8).as_str(),
    )
}

fn summary_id_text(millis: u128, salt: u16) -> (id: String)
    ensures
        id@ == new_summary_id(millis, salt),
{
    "summary_".to_owned().concat(long_decimal_text(millis).as_str()).concat("_").concat(
        decimal_text(salt as u64).as_str(),
    )
}

fn audit_id_text(salt: u128) -> (id: String)
    ensures
        id@ == new_audit_id(salt),
{
    "access-audit-".to_owned().concat(hex_text(salt, 32).as_str())
}

/// A handle on the store, as one run of the program holds it.
pub struct StateStore {
    state_dir: String,
    artifacts_dir: String,
    pointer: usize,
    queue_session_id: String,
    queue_owner_pid: u32,
}

/// The model of [`StateStore`].
pub struct StoreModel {
    pub state_dir: Seq<char>,
    pub artifacts_dir: Seq<char>,
    /// Where it is recorded which session the handle is in.
    pub pointer: usize,
    /// The queue whose prompts belong to it.
    pub queue_session_id: Seq<char>,
    pub queue_owner_pid: u32,
}

impl View for StateStore {
    type V = StoreModel;

    closed spec fn view(&self) -> StoreModel {
        StoreModel {
            state_dir: self.state_dir@,
            artifacts_dir: self.artifacts_dir@,
            pointer: self.pointer,
            queue_session_id: self.queue_session_id@,
            queue_owner_pid: self.queue_owner_pid,
        }
    }
}

impl StoreModel {
    /// The directory of a session's own files. A session id that is not one
    /// plain name has none.
    pub open spec fn artifact_dir(self, session_id: Seq<char>) -> Result<
        Seq<char>,
        StateErrorModel,
    > {
        if one_component(session_id) {
            Ok(below(self.artifacts_dir, session_id))
        } else {
            Err(StateErrorModel::plain(StateErrorKind::InvalidSessionDir))
        }
    }

    /// The directories of the sessions before the first that has none.
    pub open spec fn artifact_dirs(self, session_ids: Seq<Seq<char>>) -> Seq<Seq<char>>
        decreases session_ids.len(),
    {
        if session_ids.len() == 0 || !one_component(session_ids[0]) {
            Seq::empty()
        } else {
            seq![below(self.artifacts_dir, session_ids[0])] + self.artifact_dirs(
                session_ids.skip(1),
            )
        }
    }
}

/// Directories that are to be removed, in this order. Where `failure` is set,
/// a session after them has no directory, and no later one is removed.
pub struct DirRemoval {
    pub dirs: Vec<String>,
    pub failure: Option<StateError>,
}

/// Whether a removal names what is owed for `session_ids`.
pub open spec fn removes(
    removal: DirRemoval,
    store: StoreModel,
    session_ids: Seq<Seq<char>>,
) -> bool {
    &&& removal.dirs.deep_view() == store.artifact_dirs(session_ids)
    &&& match removal.failure {
        Some(error) => {
            &&& removal.dirs.len() < session_ids.len()
            &&& error@ == StateErrorModel::plain(StateErrorKind::InvalidSessionDir)
        },
        None => removal.dirs.len() == session_ids.len(),
    }
}

/// A turn that is no summary.
pub open spec fn no_summary() -> spec_fn(TurnModel) -> bool {
    |t: TurnModel| !t.is_summary
}

/// The ids of some sessions.
pub open spec fn session_ids_of(list: Seq<SessionOverviewModel>) -> Seq<Seq<char>> {
    list.map_values(|s: SessionOverviewModel| s.record.session_id)
}

impl Clone for StateStore {
    /// A second handle that goes wherever the first goes.
    fn clone(&self) -> (store: StateStore)
        ensures
            store@ == self@,
    {
        StateStore {
            state_dir: self.state_dir.clone(),
            artifacts_dir: self.artifacts_dir.clone(),
            pointer: self.pointer,
            queue_session_id: self.queue_session_id.clone(),
            queue_owner_pid: self.queue_owner_pid,
        }
    }
}

impl SharedState {
    /// Makes a place for the session that a handle is in.
    fn enter(&mut self, session_id: String) -> (pointer: usize)
        ensures
            final(self)@ == old(self)@.with_entered(session_id@),
            pointer == old(self)@.entered.len(),
    {
        let pointer: usize = self.entered.len();
        append(&mut self.entered, session_id);
        pointer
    }
}

impl StateStore {
    /// Opens the store for a process: it enters the session that was current,
    /// opens a queue, and drops the prompts that wait in the queues of processes
    /// that are gone. `alive` are the processes that are not.
    pub fn new(
        shared: &mut SharedState,
        state_dir: &str,
        data_dir: &str,
        pid: u32,
        alive: &Vec<u32>,
        language: Language,
    ) -> (store: StateStore)
        ensures
            store@.state_dir == state_dir@,
            store@.artifacts_dir == below(data_dir@, "artifacts"@),
            store@.queue_owner_pid == pid,
            exists|nanos: u128, salt: u64|
                store@.queue_session_id == #[trigger] queue_id(pid, nanos, salt),
            store@.pointer == old(shared)@.entered.len(),
            exists|now: Seq<char>|
                {
                    let (db, session_id) = #[trigger] old(shared)@.db.resolve_current_session(
                        now,
                        language,
                    );
                    &&& final(shared)@ == (SharedModel {
                        db: db.discard_stale_queued_prompts(store@.queue_session_id, alive@).0,
                        ..old(shared)@
                    }).with_entered(session_id)
                    &&& final(shared)@.session(store@) == session_id
                },
    {
        let now = now_text();
        let nanos: u128 = now_nanos();
        let salt: u64 = random_u64();
        let session_id = shared.conv_db.resolve_current_session(now.as_str(), language);
        let queue_session_id = queue_id_text(pid, nanos, salt);
        let _ = shared.conv_db.discard_stale_queued_prompts(queue_session_id.as_str(), alive);
        let ghost found = old(shared)@.db.resolve_current_session(now@, language);
        let ghost resolved = SharedModel {
            db: found.0.discard_stale_queued_prompts(queue_session_id@, alive@).0,
            ..old(shared)@
        };
        assert(shared@ == resolved);
        let pointer: usize = shared.enter(session_id);
        assert(shared@ == resolved.with_entered(found.1));
        StateStore {
            state_dir: state_dir.to_owned(),
            artifacts_dir: join_path(data_dir, "artifacts"),
            pointer,
            queue_session_id,
            queue_owner_pid: pid,
        }
    }

    /// The session that the handle is in.
    pub fn session_id(&self, shared: &SharedState) -> (id: String)
        ensures
            id@ == shared@.session(self@),
    {
        if self.pointer < shared.entered.len() {
            assert(shared.entered.deep_view()[self.pointer as int] == shared.entered[self.pointer
                as int]@);
            shared.entered[self.pointer].clone()
        } else {
            String::new()
        }
    }

    /// The session that the handle is in.
    pub fn session(&self, shared: &SharedState) -> (id: String)
        ensures
            id@ == shared@.session(self@),
    {
        self.session_id(shared)
    }

    pub fn state_dir(&self) -> (dir: &str)
        ensures
            dir@ == self@.state_dir,
    {
        self.state_dir.as_str()
    }

    /// Enters another session, with all handles that were cloned from this one
    /// or that this one was cloned from. The pointer to the current session is
    /// the caller's to record.
    pub fn adopt_session(&self, shared: &mut SharedState, session_id: &str)
        ensures
            final(shared)@ == old(shared)@.adopted(self@, session_id@),
    {
        if self.pointer < shared.entered.len() {
            let ghost before = shared.entered.deep_view();
            shared.entered.set(self.pointer, session_id.to_owned());
            assert(shared.entered.deep_view() =~= before.update(
                self.pointer as int,
                session_id@,
            ));
        }
    }

    /// A second handle, in `session_id` whatever session the first is in. Turns
    /// that run at the same time each hold one.
    pub fn pinned(&self, shared: &mut SharedState, session_id: &str) -> (store: StateStore)
        ensures
            final(shared)@ == old(shared)@.with_entered(session_id@),
            store@ == (StoreModel { pointer: store@.pointer, ..self@ }),
            store@.pointer == old(shared)@.entered.len(),
            final(shared)@.session(store@) == session_id@,
    {
        let pointer: usize = shared.enter(session_id.to_owned());
        StateStore {
            state_dir: self.state_dir.clone(),
            artifacts_dir: self.artifacts_dir.clone(),
            pointer,
            queue_session_id: self.queue_session_id.clone(),
            queue_owner_pid: self.queue_owner_pid,
        }
    }

    /// Like [`StateStore::pinned`], with a queue of its own, so that turns that
    /// run in one session do not take up each other's prompts.
    pub fn pinned_for_turn(&self, shared: &mut SharedState, session_id: &str) -> (store: StateStore)
        ensures
            final(shared)@ == old(shared)@.with_entered(session_id@),
            store@.pointer == old(shared)@.entered.len(),
            final(shared)@.session(store@) == session_id@,
            exists|nanos: u128, salt: u64|
                store@ == (StoreModel {
                    pointer: store@.pointer,
                    queue_session_id: #[trigger] queue_id(self@.queue_owner_pid, nanos, salt),
                    ..self@
                }),
    {
        let nanos: u128 = now_nanos();
        let salt: u64 = random_u64();
        let mut store = self.pinned(shared, session_id);
        store.queue_session_id = queue_id_text(self.queue_owner_pid, nanos, salt);
        store
    }

    /// Where a prompt for a turn of this handle is queued.
    pub fn queue_target(&self, turn_id: &str) -> (target: RunningTurnQueueTarget)
        ensures
            target.deep_view() == (RunningTurnQueueTargetModel {
                turn_id: turn_id@,
                queue_session_id: Some(self@.queue_session_id),
                owner_pid: Some(self@.queue_owner_pid),
            }),
    {
        RunningTurnQueueTarget {
            turn_id: turn_id.to_owned(),
            queue_session_id: Some(self.queue_session_id.clone()),
            owner_pid: Some(self.queue_owner_pid),
        }
    }

    /// Enters another session and records it as the current one.
    pub fn switch_session(&self, shared: &mut SharedState, session_id: &str) -> (result: Result<
        (),
        StateError,
    >)
        ensures
            outcome(
                result,
                old(shared)@.db,
                final(shared)@.db,
                old(shared)@.db.set_current_session(session_id@),
            ),
            final(shared)@.access == old(shared)@.access,
            final(shared)@.entered == if result is Ok {
                old(shared)@.adopted(self@, session_id@).entered
            } else {
                old(shared)@.entered
            },
    {
        match shared.conv_db.set_current_session(session_id) {
            Ok(()) => {
                self.adopt_session(shared, session_id);
                Ok(())
            },
            Err(error) => Err(error),
        }
    }

    /// Whether a subject was granted a permission, on this account or on every
    /// account of the platform.
    pub fn has_platform_access_grant(
        &self,
        shared: &SharedState,
        platform: &str,
        account_id: &str,
        permission: &str,
        subject_kind: &str,
        subject_id: &str,
    ) -> (yes: bool)
        ensures
            yes == shared@.allows(
                PlatformAccessGrantKeyModel {
                    platform: platform@,
                    account_scope: account_id@,
                    permission: permission@,
                    subject_kind: subject_kind@,
                    subject_id: subject_id@,
                },
            ),
    {
        let key = PlatformAccessGrantKey {
            platform: platform.to_owned(),
            account_scope: account_id.to_owned(),
            permission: permission.to_owned(),
            subject_kind: subject_kind.to_owned(),
            subject_id: subject_id.to_owned(),
        };
        shared.allows(&key)
    }

    pub fn platform_access_grants(&self, shared: &SharedState, platform: &str) -> (list: Vec<
        PlatformAccessGrant,
    >)
        ensures
            list.deep_view() == shared@.db.platform_access_grants(Some(platform@)),
    {
        shared.conv_db.platform_access_grants(Some(platform))
    }

    pub fn platform_access_authorized(
        &self,
        shared: &SharedState,
        authorization: &PlatformAccessAuthorization,
    ) -> (yes: bool)
        ensures
            yes == shared@.authorizes(authorization.deep_view()),
    {
        authorization.statically_authorized || shared.allows(&authorization.dynamic_key)
    }

    /// The grants on a platform, for those who may read them.
    pub fn platform_access_grants_if_authorized(
        &self,
        shared: &SharedState,
        platform: &str,
        authorization: &PlatformAccessAuthorization,
    ) -> (list: Option<Vec<PlatformAccessGrant>>)
        ensures
            list.deep_view() == if shared@.authorizes(authorization.deep_view()) {
                Some(shared@.db.platform_access_grants(Some(platform@)))
            } else {
                None
            },
    {
        if self.platform_access_authorized(shared, authorization) {
            Some(shared.conv_db.platform_access_grants(Some(platform)))
        } else {
            None
        }
    }

    /// Changes a grant, for those who may.
    pub fn mutate_platform_access_grant_if_authorized(
        &self,
        shared: &mut SharedState,
        key: &PlatformAccessGrantKey,
        actor: &PlatformAccessActor,
        operation: PlatformAccessMutation,
        authorization: &PlatformAccessAuthorization,
    ) -> (result: PlatformAccessMutationResult)
        ensures
            (result == PlatformAccessMutationResult::Unauthorized) == !old(shared)@.authorizes(
                authorization.deep_view(),
            ),
            result == PlatformAccessMutationResult::Unauthorized ==> final(shared)@ == old(shared)@,
            result != PlatformAccessMutationResult::Unauthorized && operation
                == PlatformAccessMutation::Grant ==> exists|salt: u128, now: Seq<char>|
                (final(shared)@, result == PlatformAccessMutationResult::Changed) == #[trigger] old(
                    shared,
                )@.grant(key.deep_view(), actor.deep_view(), new_audit_id(salt), now),
            result != PlatformAccessMutationResult::Unauthorized && operation
                == PlatformAccessMutation::Revoke ==> exists|salt: u128, now: Seq<char>|
                (final(shared)@, result == PlatformAccessMutationResult::Changed) == #[trigger] old(
                    shared,
                )@.revoke(key.deep_view(), actor.deep_view(), new_audit_id(salt), now),
    {
        if !self.platform_access_authorized(shared, authorization) {
            return PlatformAccessMutationResult::Unauthorized;
        }
        let changed = match operation {
            PlatformAccessMutation::Grant => self.add_platform_access_grant(shared, key, actor),
            PlatformAccessMutation::Revoke => self.remove_platform_access_grant(shared, key, actor),
        };
        if changed {
            PlatformAccessMutationResult::Changed
        } else {
            PlatformAccessMutationResult::Unchanged
        }
    }

    pub fn add_platform_access_grant(
        &self,
        shared: &mut SharedState,
        key: &PlatformAccessGrantKey,
        actor: &PlatformAccessActor,
    ) -> (added: bool)
        ensures
            exists|salt: u128, now: Seq<char>|
                (final(shared)@, added) == #[trigger] old(shared)@.grant(
                    key.deep_view(),
                    actor.deep_view(),
                    new_audit_id(salt),
                    now,
                ),
    {
        let salt: u128 = random_u128();
        let now = now_text();
        let audit_id = audit_id_text(salt);
        shared.grant(key, actor, audit_id.as_str(), now.as_str())
    }

    pub fn remove_platform_access_grant(
        &self,
        shared: &mut SharedState,
        key: &PlatformAccessGrantKey,
        actor: &PlatformAccessActor,
    ) -> (removed: bool)
        ensures
            exists|salt: u128, now: Seq<char>|
                (final(shared)@, removed) == #[trigger] old(shared)@.revoke(
                    key.deep_view(),
                    actor.deep_view(),
                    new_audit_id(salt),
                    now,
                ),
    {
        let salt: u128 = random_u128();
        let now = now_text();
        let audit_id = audit_id_text(salt);
        shared.revoke(key, actor, audit_id.as_str(), now.as_str())
    }

    /// Deletes what belongs to a persona. The sessions' own directories are
    /// named for removal.
    pub fn delete_persona_scope(
        &self,
        shared: &mut SharedState,
        scope: &str,
    ) -> (removal: DirRemoval)
        ensures
            final(shared)@.db == old(shared)@.db.without_persona(scope@),
            final(shared)@.access == old(shared)@.access,
            final(shared)@.entered == old(shared)@.entered,
            removes(
                removal,
                self@,
                session_ids_of(old(shared)@.db.list_sessions(scope@, false)),
            ),
    {
        let sessions = shared.conv_db.list_sessions(scope);
        let id_of = |s: &SessionOverview| -> (id: String)
            ensures
                id.deep_view() == (|s: SessionOverviewModel| s.record.session_id)(s.deep_view()),
            { s.record.session_id.clone() };
        let ids = map_rows(
            &sessions,
            &id_of,
            Ghost(|s: SessionOverviewModel| s.record.session_id),
        );
        shared.conv_db.delete_persona_scope(scope);
        self.remove_artifact_session_dirs(&ids)
    }

    /// Deletes a session. Its own directory is named for removal.
    pub fn delete_session(&self, shared: &mut SharedState, session_id: &str) -> (result: Result<
        String,
        StateError,
    >)
        ensures
            match old(shared)@.db.delete_session(session_id@) {
                Ok((db, _)) => {
                    &&& final(shared)@.db == db
                    &&& match self@.artifact_dir(session_id@) {
                        Ok(dir) => result matches Ok(got) && got@ == dir,
                        Err(error) => result matches Err(got) && got@ == error,
                    }
                },
                Err(error) => {
                    &&& result matches Err(got)
                    &&& got@ == error
                    &&& final(shared)@.db == old(shared)@.db
                },
            },
            final(shared)@.access == old(shared)@.access,
            final(shared)@.entered == old(shared)@.entered,
    {
        match shared.conv_db.delete_session(session_id) {
            Ok(()) => self.remove_artifact_session_dir(session_id),
            Err(error) => Err(error),
        }
    }

    /// The directory that goes when a session's files do.
    pub fn remove_artifact_session_dir(&self, session_id: &str) -> (result: Result<
        String,
        StateError,
    >)
        ensures
            match self@.artifact_dir(session_id@) {
                Ok(dir) => result matches Ok(got) && got@ == dir,
                Err(error) => result matches Err(got) && got@ == error,
            },
    {
        if is_one_component(session_id) {
            Ok(join_path(self.artifacts_dir.as_str(), session_id))
        } else {
            Err(StateError::plain(StateErrorKind::InvalidSessionDir))
        }
    }

    /// The directories that go when the files of some sessions do, up to the
    /// first session that has none.
    pub fn remove_artifact_session_dirs(&self, session_ids: &Vec<String>) -> (removal: DirRemoval)
        ensures
            removes(removal, self@, session_ids.deep_view()),
    {
        let mut dirs: Vec<String> = Vec::new();
        let mut i: usize = 0;
        let ghost ids = session_ids.deep_view();
        assert(ids.skip(0) =~= ids);
        assert(dirs.deep_view() + self@.artifact_dirs(ids) =~= self@.artifact_dirs(ids));
        while i < session_ids.len()
            invariant
                i <= session_ids.len(),
                dirs.len() == i,
                ids == session_ids.deep_view(),
                dirs.deep_view() + self@.artifact_dirs(ids.skip(i as int)) == self@.artifact_dirs(
                    ids,
                ),
            decreases session_ids.len() - i,
        {
            let ghost before = dirs.deep_view();
            assert(ids.skip(i as int)[0] == session_ids[i as int]@);
            assert(ids.skip(i as int).skip(1) =~= ids.skip(i + 1));
            match self.remove_artifact_session_dir(session_ids[i].as_str()) {
                Ok(dir) => {
                    dirs.push(dir);
                    assert(dirs.deep_view() =~= before.push(dir@));
                    assert(dirs.deep_view() + self@.artifact_dirs(ids.skip(i + 1)) =~= before + (
                    seq![dir@] + self@.artifact_dirs(ids.skip(i + 1))));
                },
                Err(error) => {
                    assert(before + Seq::<Seq<char>>::empty() =~= before);
                    return DirRemoval { dirs, failure: Some(error) };
                },
            }
            i += 1;
        }
        assert(ids.skip(i as int) =~= Seq::<Seq<char>>::empty());
        assert(dirs.deep_view() + Seq::<Seq<char>>::empty() =~= dirs.deep_view());
        DirRemoval { dirs, failure: None }
    }

    /// Clears what a persona's sessions hold, and names their directories for
    /// removal.
    pub fn reset_persona_contexts(
        &self,
        shared: &mut SharedState,
        persona: &str,
        platform: &str,
    ) -> (reset: (Vec<String>, DirRemoval))
        ensures
            old(shared)@.db.are_reset_ids(persona@, platform@, reset.0.deep_view()),
            final(shared)@.db == old(shared)@.db.contexts_reset(reset.0.deep_view()),
            final(shared)@.access == old(shared)@.access,
            final(shared)@.entered == old(shared)@.entered,
            removes(reset.1, self@, reset.0.deep_view()),
    {
        let ids = shared.conv_db.reset_persona_contexts(persona, platform);
        let removal = self.remove_artifact_session_dirs(&ids);
        (ids, removal)
    }

    /// Clears this session alone, and names its directory for removal.
    pub fn clear_session_content(&self, shared: &mut SharedState) -> (result: Result<
        String,
        StateError,
    >)
        ensures
            final(shared)@.db == old(shared)@.db.reset(old(shared)@.session(self@)),
            final(shared)@.access == old(shared)@.access,
            final(shared)@.entered == old(shared)@.entered,
            match self@.artifact_dir(old(shared)@.session(self@)) {
                Ok(dir) => result matches Ok(got) && got@ == dir,
                Err(error) => result matches Err(got) && got@ == error,
            },
    {
        let session_id = self.session_id(shared);
        shared.conv_db.reset(session_id.as_str());
        self.remove_artifact_session_dir(session_id.as_str())
    }

    /// The queue and the process that a prompt for a running turn goes to.
    pub fn queue_address(&self, target: &RunningTurnQueueTarget) -> (result: Result<
        (String, u32),
        StateError,
    >)
        ensures
            match (target.deep_view().queue_session_id, target.deep_view().owner_pid) {
                (None, _) => result matches Err(error) && error@ == StateErrorModel::plain(
                    StateErrorKind::NoQueueSession,
                ),
                (Some(_), None) => result matches Err(error) && error@ == StateErrorModel::plain(
                    StateErrorKind::NoOwnerProcess,
                ),
                (Some(queue), Some(pid)) => result matches Ok(got) && got.0@ == queue && got.1
                    == pid,
            },
    {
        match (&target.queue_session_id, target.owner_pid) {
            (None, _) => Err(StateError::plain(StateErrorKind::NoQueueSession)),
            (Some(_), None) => Err(StateError::plain(StateErrorKind::NoOwnerProcess)),
            (Some(queue), Some(pid)) => Ok((queue.clone(), pid)),
        }
    }

    /// What a system prompt with this fingerprint asks for. `recorded` is what
    /// the session's fingerprint file holds, where there is one; `before_sessions`
    /// tells whether a fingerprint from before there were sessions lies about.
    pub fn reset_if_prompt_changed(
        &self,
        fingerprint: &str,
        recorded: Option<&str>,
        before_sessions: bool,
    ) -> (change: PromptChange)
        ensures
            change == match recorded.deep_view() {
                None => if before_sessions {
                    PromptChange::Recorded
                } else if fingerprint@.len() == 0 {
                    PromptChange::Unchanged
                } else {
                    PromptChange::ColdStart
                },
                Some(text) => if trimmed(text) == fingerprint@ {
                    PromptChange::Unchanged
                } else {
                    PromptChange::ColdStart
                },
            },
    {
        match recorded {
            None => if before_sessions {
                PromptChange::Recorded
            } else if fingerprint.unicode_len() == 0 {
                PromptChange::Unchanged
            } else {
                PromptChange::ColdStart
            },
            Some(text) => {
                let text = trim(text);
                if same(text.as_str(), fingerprint) {
                    PromptChange::Unchanged
                } else {
                    PromptChange::ColdStart
                }
            },
        }
    }

    pub fn conversation_file(&self) -> (path: String)
        ensures
            path@ == below(self@.state_dir, "conversation.jsonl"@),
    {
        join_path(self.state_dir.as_str(), "conversation.jsonl")
    }

    pub fn usage_file(&self) -> (path: String)
        ensures
            path@ == below(self@.state_dir, "usage.json"@),
    {
        join_path(self.state_dir.as_str(), "usage.json")
    }

    pub fn profile_file(&self) -> (path: String)
        ensures
            path@ == below(self@.state_dir, "profile.md"@),
    {
        join_path(self.state_dir.as_str(), "profile.md")
    }

    pub fn usage_history_file(&self) -> (path: String)
        ensures
            path@ == below(self@.state_dir, "usage-history.jsonl"@),
    {
        join_path(self.state_dir.as_str(), "usage-history.jsonl")
    }

    /// Where the fingerprint of the prompt that this session has seen is kept.
    pub fn prompt_fingerprint_file(&self, shared: &SharedState) -> (path: String)
        ensures
            path@ == below(
                below(self@.state_dir, "prompt-fingerprints"@),
                blake3_hex(vstd::utf8::encode_utf8(shared@.session(self@))) + ".sha256"@,
            ),
    {
        let session_id = self.session_id(shared);
        let key = blake3_hex_of(session_id.as_str().as_bytes());
        let dir = join_path(self.state_dir.as_str(), "prompt-fingerprints");
        let name = key.concat(".sha256");
        join_path(dir.as_str(), name.as_str())
    }

    /// What is stored of a file that a turn produced.
    pub fn save_artifact_asset(
        &self,
        shared: &SharedState,
        turn_id: &str,
        tool_id: Option<&str>,
        source_key: &str,
        file_name: &str,
        mime: &str,
        kind: &str,
        size: usize,
        title: &str,
    ) -> (result: Result<ArtifactAsset, StateError>)
        ensures
            exists|now: Seq<char>|
                match #[trigger] new_artifact(
                    shared@.session(self@),
                    turn_id@,
                    tool_id.deep_view(),
                    source_key@,
                    file_name@,
                    lies_in(source_key@, below(self@.artifacts_dir, shared@.session(self@))),
                    (mime@, kind@),
                    size as nat,
                    title@,
                    now,
                ) {
                    Ok(asset) => result matches Ok(got) && got.deep_view() == asset,
                    Err(error) => result matches Err(got) && got@ == error,
                },
    {
        let session_id = self.session_id(shared);
        let now = now_text();
        let own_dir = join_path(self.artifacts_dir.as_str(), session_id.as_str());
        let managed = path_lies_in(source_key, own_dir.as_str());
        let result = describe_artifact(
            session_id.as_str(),
            turn_id,
            tool_id,
            source_key,
            file_name,
            managed,
            mime,
            kind,
            size,
            title,
            now.as_str(),
        );
        proof {
            let described = new_artifact(
                shared@.session(self@),
                turn_id@,
                tool_id.deep_view(),
                source_key@,
                file_name@,
                lies_in(source_key@, below(self@.artifacts_dir, shared@.session(self@))),
                (mime@, kind@),
                size as nat,
                title@,
                now@,
            );
            assert(match described {
                Ok(asset) => result matches Ok(got) && got.deep_view() == asset,
                Err(error) => result matches Err(got) && got@ == error,
            });
        }
        result
    }

    /// Takes over the files that an interrupted generation had produced, of
    /// those that were found. Images are stored; produced files are returned, to
    /// be stored by the caller.
    pub fn recover_journal_assets(
        &self,
        shared: &mut SharedState,
        session_id: &str,
        turn_id: &str,
        files: &Vec<FoundFile>,
    ) -> (made: Vec<ArtifactAssetData>)
        ensures
            exists|stamps: Seq<(u128, u64)>, now: Seq<char>|
                (final(shared)@.db, made.deep_view()) == #[trigger] old(
                    shared,
                )@.db.recover_journal_assets(
                    (
                        old(shared)@.session(self@),
                        below(self@.artifacts_dir, old(shared)@.session(self@)),
                    ),
                    session_id@,
                    turn_id@,
                    files.deep_view(),
                    stamps,
                    now,
                ),
            final(shared)@.access == old(shared)@.access,
            final(shared)@.entered == old(shared)@.entered,
    {
        assert(shared@.db == shared.conv_db@);
        let now = now_text();
        let own_session = self.session_id(shared);
        let own_dir = join_path(self.artifacts_dir.as_str(), own_session.as_str());
        let n: usize = shared.conv_db.journal_len(session_id, turn_id);
        let mut stamps: Vec<(u128, u64)> = Vec::new();
        while stamps.len() < n
            invariant
                stamps.len() <= n,
            decreases n - stamps.len(),
        {
            let nanos: u128 = now_nanos();
            let salt: u64 = random_u64();
            stamps.push((nanos, salt));
        }
        shared.conv_db.recover_journal_assets(
            own_session.as_str(),
            own_dir.as_str(),
            session_id,
            turn_id,
            files,
            &stamps,
            now.as_str(),
        )
    }

    /// What it takes for a session's own directory to hold what its turns
    /// produced, after a redo of `turn_id` was given up: the files to write, and
    /// then those of `entries` to remove.
    pub fn reconcile_managed_artifacts_for_turn(
        &self,
        shared: &SharedState,
        session_id: &str,
        turn_id: &str,
        places: &Vec<ArtifactPlace>,
        entries: &Vec<String>,
    ) -> (result: Result<(Vec<(String, Vec<u8>)>, Vec<String>), StateError>)
        ensures
            if one_component(session_id@) {
                &&& result matches Ok(plan)
                &&& plan.0.deep_view() == writes(
                    shared@.db.artifacts.filter(artifact_of(turn_id@)),
                    places.deep_view(),
                )
                &&& plan.1.deep_view() == entries.deep_view().filter(
                    shared@.db.superfluous(session_id@, places.deep_view()),
                )
            } else {
                result matches Err(error) && error@ == StateErrorModel::plain(
                    StateErrorKind::InvalidRecoveryDir,
                )
            },
    {
        if !is_one_component(session_id) {
            return Err(StateError::plain(StateErrorKind::InvalidRecoveryDir));
        }
        let restored = shared.conv_db.artifacts_to_restore(turn_id, places);
        let idle = shared.conv_db.artifacts_to_remove(session_id, places, entries);
        Ok((restored, idle))
    }

    /// Whether any session has a running turn.
    pub fn has_any_running_turns(&self, shared: &SharedState) -> (yes: bool)
        ensures
            yes == any(shared@.db.turns, is_running()),
    {
        shared.conv_db.has_any_running_turns()
    }

    /// The session that a persona's terminal is in.
    pub fn persona_current_session(
        &self,
        shared: &SharedState,
        persona: &str,
    ) -> (session: Option<String>)
        ensures
            session.deep_view() == shared@.db.pointed_session(CURRENT_SESSION_POINTER@, persona@),
    {
        shared.conv_db.persona_current_session(persona)
    }

    pub fn set_persona_current_session(
        &self,
        shared: &mut SharedState,
        persona: &str,
        session_id: &str,
    )
        ensures
            final(shared)@.db == old(shared)@.db.with_pointer(
                CURRENT_SESSION_POINTER@,
                persona@,
                session_id@,
            ),
            final(shared)@.access == old(shared)@.access,
            final(shared)@.entered == old(shared)@.entered,
    {
        shared.conv_db.set_persona_current_session(persona, session_id)
    }

    /// The session that a persona's interactive prompt was last in, or `None` when
    /// that pointer is unset or stale.
    pub fn repl_session(&self, shared: &SharedState, persona: &str) -> (session: Option<String>)
        ensures
            session.deep_view() == shared@.db.pointed_session(REPL_SESSION_POINTER@, persona@),
    {
        shared.conv_db.repl_session(persona)
    }

    pub fn set_repl_session(&self, shared: &mut SharedState, persona: &str, session_id: &str)
        ensures
            final(shared)@.db == old(shared)@.db.with_pointer(
                REPL_SESSION_POINTER@,
                persona@,
                session_id@,
            ),
            final(shared)@.access == old(shared)@.access,
            final(shared)@.entered == old(shared)@.entered,
    {
        shared.conv_db.set_repl_session(persona, session_id)
    }

    /// Gives the sessions that belong to no persona to `persona`.
    pub fn adopt_sessions_for_persona(&self, shared: &mut SharedState, persona: &str)
        ensures
            final(shared)@.db == old(shared)@.db.adopted_by(persona@),
            final(shared)@.access == old(shared)@.access,
            final(shared)@.entered == old(shared)@.entered,
    {
        shared.conv_db.adopt_sessions_for_persona(persona)
    }

    pub fn rename_persona_scope(
        &self,
        shared: &mut SharedState,
        old_scope: &str,
        new_scope: &str,
    ) -> (result: Result<(), StateError>)
        ensures
            outcome(
                result,
                old(shared)@.db,
                final(shared)@.db,
                old(shared)@.db.rename_persona_scope(old_scope@, new_scope@),
            ),
            final(shared)@.access == old(shared)@.access,
            final(shared)@.entered == old(shared)@.entered,
    {
        shared.conv_db.rename_persona_scope(old_scope, new_scope)
    }

    pub fn session_record(
        &self,
        shared: &SharedState,
        session_id: &str,
    ) -> (record: Option<SessionRecord>)
        ensures
            record.deep_view() == shared@.db.session_record(session_id@),
    {
        shared.conv_db.session_record(session_id)
    }

    pub fn list_sessions(&self, shared: &SharedState, persona: &str) -> (list: Vec<SessionOverview>)
        ensures
            list.deep_view() == shared@.db.list_sessions(persona@, false),
    {
        shared.conv_db.list_sessions(persona)
    }

    pub fn list_local_sessions(
        &self,
        shared: &SharedState,
        persona: &str,
    ) -> (list: Vec<SessionOverview>)
        ensures
            list.deep_view() == shared@.db.list_sessions(persona@, true),
    {
        shared.conv_db.list_local_sessions(persona)
    }

    pub fn background_report_replies_after(
        &self,
        shared: &SharedState,
        session_id: &str,
        after_seq: i64,
    ) -> (list: Vec<(i64, String, String, String)>)
        ensures
            list.deep_view() == shared@.db.background_report_replies_after(session_id@, after_seq),
    {
        shared.conv_db.background_report_replies_after(session_id, after_seq)
    }

    pub fn latest_turn_seq(&self, shared: &SharedState, session_id: &str) -> (seq: i64)
        ensures
            seq == shared@.db.latest_turn_seq(session_id@),
    {
        shared.conv_db.latest_turn_seq(session_id)
    }

    pub fn oldest_visible_turn_timestamp(
        &self,
        shared: &SharedState,
        excluding_turn_id: &str,
    ) -> (timestamp: Option<String>)
        ensures
            timestamp.deep_view() == shared@.db.oldest_visible_turn_timestamp(
                shared@.session(self@),
                excluding_turn_id@,
            ),
    {
        let session_id = self.session_id(shared);
        shared.conv_db.oldest_visible_turn_timestamp(session_id.as_str(), excluding_turn_id)
    }

    pub fn is_platform_session(&self, shared: &SharedState, session_id: &str) -> (bound: bool)
        ensures
            bound == shared@.db.is_platform_session(session_id@),
    {
        shared.conv_db.is_platform_session(session_id)
    }

    pub fn persona_reset_session_ids(
        &self,
        shared: &SharedState,
        persona: &str,
        platform: &str,
    ) -> (ids: Vec<String>)
        ensures
            shared@.db.are_reset_ids(persona@, platform@, ids.deep_view()),
    {
        shared.conv_db.persona_reset_session_ids(persona, platform)
    }

    pub fn platform_session_bindings(
        &self,
        shared: &SharedState,
        persona: &str,
        platform: &str,
    ) -> (list: Vec<PlatformSessionBinding>)
        ensures
            list.deep_view() == shared@.db.platform_session_bindings(persona@, platform@),
    {
        shared.conv_db.platform_session_bindings(persona, platform)
    }

    /// Makes a session under a new id.
    pub fn create_session(
        &self,
        shared: &mut SharedState,
        persona: &str,
        name: &str,
        kind: &str,
        parent_session_id: Option<&str>,
    ) -> (result: Result<SessionRecord, StateError>)
        ensures
            exists|millis: u128, salt: u32, now: Seq<char>|
                outcome(
                    result,
                    old(shared)@.db,
                    final(shared)@.db,
                    #[trigger] old(shared)@.db.create_session(
                        new_session_id(millis, salt),
                        persona@,
                        name@,
                        kind@,
                        parent_session_id.deep_view(),
                        now,
                    ),
                ),
            final(shared)@.access == old(shared)@.access,
            final(shared)@.entered == old(shared)@.entered,
    {
        assert(shared@.db == shared.conv_db@);
        let millis: u128 = now_nanos() / 1000000;
        let salt: u32 = random_u32();
        let now = now_text();
        let id = session_id_text(millis, salt);
        shared.conv_db.create_session(
            id.as_str(),
            persona,
            name,
            kind,
            parent_session_id,
            now.as_str(),
        )
    }

    pub fn create_or_get_platform_session(
        &self,
        shared: &mut SharedState,
        key: &PlatformSessionBindingKey,
        name: &str,
    ) -> (result: Result<(SessionRecord, bool), StateError>)
        ensures
            exists|millis: u128, salt: u32, now: Seq<char>|
                outcome(
                    result,
                    old(shared)@.db,
                    final(shared)@.db,
                    #[trigger] old(shared)@.db.create_or_get_platform_session(
                        key.deep_view(),
                        name@,
                        new_session_id(millis, salt),
                        now,
                    ),
                ),
            final(shared)@.access == old(shared)@.access,
            final(shared)@.entered == old(shared)@.entered,
    {
        assert(shared@.db == shared.conv_db@);
        let millis: u128 = now_nanos() / 1000000;
        let salt: u32 = random_u32();
        let now = now_text();
        let id = session_id_text(millis, salt);
        shared.conv_db.create_or_get_platform_session(key, name, id.as_str(), now.as_str())
    }

    pub fn touch_session(&self, shared: &mut SharedState, session_id: &str)
        ensures
            exists|now: Seq<char>|
                final(shared)@.db == #[trigger] old(shared)@.db.touch_session(session_id@, now),
            final(shared)@.access == old(shared)@.access,
            final(shared)@.entered == old(shared)@.entered,
    {
        assert(shared@.db == shared.conv_db@);
        let now = now_text();
        shared.conv_db.touch_session(session_id, now.as_str());
    }

    pub fn find_session_by_name(
        &self,
        shared: &SharedState,
        persona: &str,
        name: &str,
    ) -> (found: Option<SessionRecord>)
        ensures
            found.deep_view() == shared@.db.find_session_by_name(persona@, name@, false),
    {
        shared.conv_db.find_session_by_name(persona, name)
    }

    pub fn find_local_session_by_name(
        &self,
        shared: &SharedState,
        persona: &str,
        name: &str,
    ) -> (found: Option<SessionRecord>)
        ensures
            found.deep_view() == shared@.db.find_session_by_name(persona@, name@, true),
    {
        shared.conv_db.find_local_session_by_name(persona, name)
    }

    pub fn find_platform_session_binding(
        &self,
        shared: &SharedState,
        key: &PlatformSessionBindingKey,
    ) -> (session: Option<String>)
        ensures
            session.deep_view() == shared@.db.bound_session(key.deep_view()),
    {
        shared.conv_db.find_platform_session_binding(key)
    }

    pub fn bind_platform_session(
        &self,
        shared: &mut SharedState,
        key: &PlatformSessionBindingKey,
        session_id: &str,
    ) -> (result: Result<(), StateError>)
        ensures
            exists|now: Seq<char>|
                outcome(
                    result,
                    old(shared)@.db,
                    final(shared)@.db,
                    #[trigger] old(shared)@.db.bind_platform_session(
                        key.deep_view(),
                        session_id@,
                        now,
                    ),
                ),
            final(shared)@.access == old(shared)@.access,
            final(shared)@.entered == old(shared)@.entered,
    {
        assert(shared@.db == shared.conv_db@);
        let now = now_text();
        shared.conv_db.bind_platform_session(key, session_id, now.as_str())
    }

    pub fn claim_platform_session(
        &self,
        shared: &mut SharedState,
        key: &PlatformSessionBindingKey,
        candidate_session_id: &str,
    ) -> (result: Result<String, StateError>)
        ensures
            exists|now: Seq<char>|
                outcome(
                    result,
                    old(shared)@.db,
                    final(shared)@.db,
                    #[trigger] old(shared)@.db.claim_platform_session(
                        key.deep_view(),
                        candidate_session_id@,
                        now,
                    ),
                ),
            final(shared)@.access == old(shared)@.access,
            final(shared)@.entered == old(shared)@.entered,
    {
        assert(shared@.db == shared.conv_db@);
        let now = now_text();
        shared.conv_db.claim_platform_session(key, candidate_session_id, now.as_str())
    }

    pub fn unbind_platform_session(
        &self,
        shared: &mut SharedState,
        key: &PlatformSessionBindingKey,
    ) -> (unbound: bool)
        ensures
            (
                final(shared)@.db,
                unbound,
            ) == old(shared)@.db.unbind_platform_session(key.deep_view()),
            final(shared)@.access == old(shared)@.access,
            final(shared)@.entered == old(shared)@.entered,
    {
        shared.conv_db.unbind_platform_session(key)
    }

    pub fn plugin_get_json(
        &self,
        shared: &SharedState,
        scope: &PlatformPluginScopeKey,
        key: &str,
    ) -> (found: Option<String>)
        ensures
            found.deep_view() == match shared@.db.plugin_row(scope.deep_view(), key@) {
                Some(row) => Some(row.value_json),
                None => None,
            },
    {
        shared.conv_db.plugin_get_json(scope, key)
    }

    pub fn plugin_json_revision(
        &self,
        shared: &SharedState,
        scope: &PlatformPluginScopeKey,
        key: &str,
    ) -> (found: Option<String>)
        ensures
            found.deep_view() == match shared@.db.plugin_row(scope.deep_view(), key@) {
                Some(row) => Some(row.updated_at),
                None => None,
            },
    {
        shared.conv_db.plugin_json_revision(scope, key)
    }

    pub fn plugin_get_json_with_revision(
        &self,
        shared: &SharedState,
        scope: &PlatformPluginScopeKey,
        key: &str,
    ) -> (found: Option<(String, String)>)
        ensures
            found.deep_view() == match shared@.db.plugin_row(scope.deep_view(), key@) {
                Some(row) => Some((row.value_json, row.updated_at)),
                None => None,
            },
    {
        shared.conv_db.plugin_get_json_with_revision(scope, key)
    }

    pub fn plugin_put_json(
        &self,
        shared: &mut SharedState,
        scope: &PlatformPluginScopeKey,
        key: &str,
        value_json: &str,
    )
        ensures
            exists|now: Seq<char>|
                final(shared)@.db == #[trigger] old(shared)@.db.plugin_put_json(
                    scope.deep_view(),
                    key@,
                    value_json@,
                    now,
                ),
            final(shared)@.access == old(shared)@.access,
            final(shared)@.entered == old(shared)@.entered,
    {
        assert(shared@.db == shared.conv_db@);
        let now = now_text();
        shared.conv_db.plugin_put_json(scope, key, value_json, now.as_str());
    }

    pub fn plugin_update_json(
        &self,
        shared: &mut SharedState,
        scope: &PlatformPluginScopeKey,
        key: &str,
        current_json: Option<&str>,
        next_json: Option<&str>,
    )
        ensures
            exists|now: Seq<char>|
                final(shared)@.db == #[trigger] old(shared)@.db.plugin_update_json(
                    scope.deep_view(),
                    key@,
                    current_json.deep_view(),
                    next_json.deep_view(),
                    now,
                ),
            final(shared)@.access == old(shared)@.access,
            final(shared)@.entered == old(shared)@.entered,
    {
        assert(shared@.db == shared.conv_db@);
        let now = now_text();
        shared.conv_db.plugin_update_json(scope, key, current_json, next_json, now.as_str());
    }

    pub fn plugin_delete_key(
        &self,
        shared: &mut SharedState,
        scope: &PlatformPluginScopeKey,
        key: &str,
    ) -> (deleted: bool)
        ensures
            (
                final(shared)@.db,
                deleted,
            ) == old(shared)@.db.plugin_delete_key(scope.deep_view(), key@),
            final(shared)@.access == old(shared)@.access,
            final(shared)@.entered == old(shared)@.entered,
    {
        shared.conv_db.plugin_delete_key(scope, key)
    }

    pub fn plugin_delete_scope(
        &self,
        shared: &mut SharedState,
        scope: &PlatformPluginScopeKey,
    ) -> (deleted: usize)
        ensures
            (
                final(shared)@.db,
                deleted as nat,
            ) == old(shared)@.db.plugin_delete_scope(scope.deep_view()),
            final(shared)@.access == old(shared)@.access,
            final(shared)@.entered == old(shared)@.entered,
    {
        shared.conv_db.plugin_delete_scope(scope)
    }

    /// The JSON text of a session's own model pool, where it has one.
    pub fn session_model_override(
        &self,
        shared: &SharedState,
        session_id: &str,
    ) -> (pool: Option<String>)
        ensures
            pool.deep_view() == match shared@.db.session_row(session_id@) {
                Some(row) => row.model_override,
                None => None,
            },
    {
        shared.conv_db.session_model_override(session_id)
    }

    /// Where a prompt for the running turn of this session is queued.
    pub fn running_turn_queue_target(
        &self,
        shared: &SharedState,
    ) -> (target: Option<RunningTurnQueueTarget>)
        ensures
            target.deep_view() == match shared@.db.running_turn_queue_target(shared@.session(self@)) {
                Some((turn_id, queue_session_id, owner_pid)) => Some(
                    RunningTurnQueueTargetModel { turn_id, queue_session_id, owner_pid },
                ),
                None => None,
            },
    {
        let session_id = self.session_id(shared);
        match shared.conv_db.running_turn_queue_target(session_id.as_str()) {
            Some((turn_id, queue_session_id, owner_pid)) => Some(
                RunningTurnQueueTarget { turn_id, queue_session_id, owner_pid },
            ),
            None => None,
        }
    }

    /// Withdraws a prompt that waits for a running turn.
    pub fn remove_queued_prompt_for_target(
        &self,
        shared: &mut SharedState,
        target: &RunningTurnQueueTarget,
        prompt_id: &str,
    ) -> (removed: bool)
        ensures
            (final(shared)@.db, removed) == match target.deep_view().queue_session_id {
                Some(queue) => old(shared)@.db.remove_queued_prompt(
                    old(shared)@.session(self@),
                    prompt_id@,
                    queue,
                ),
                None => (old(shared)@.db, false),
            },
            final(shared)@.access == old(shared)@.access,
            final(shared)@.entered == old(shared)@.entered,
    {
        let session_id = self.session_id(shared);
        match &target.queue_session_id {
            Some(queue) => shared.conv_db.remove_queued_prompt(
                session_id.as_str(),
                prompt_id,
                queue.as_str(),
            ),
            None => false,
        }
    }

    /// The prompts that wait for a running turn.
    pub fn load_queued_prompts_for_target(
        &self,
        shared: &SharedState,
        target: &RunningTurnQueueTarget,
    ) -> (prompts: Vec<QueuedPrompt>)
        ensures
            prompts.deep_view() == match target.deep_view().queue_session_id {
                Some(queue) => shared@.db.queued_prompts_of(shared@.session(self@), queue),
                None => Seq::empty(),
            },
    {
        let session_id = self.session_id(shared);
        match &target.queue_session_id {
            Some(queue) => shared.conv_db.load_queued_prompts(
                session_id.as_str(),
                queue.as_str(),
            ),
            None => {
                let none: Vec<QueuedPrompt> = Vec::new();
                assert(none.deep_view() =~= Seq::<QueuedPromptModel>::empty());
                none
            },
        }
    }

    /// The prompts that wait in this queue.
    pub fn load_queued_prompts(&self, shared: &SharedState) -> (prompts: Vec<QueuedPrompt>)
        ensures
            prompts.deep_view() == shared@.db.queued_prompts_of(
                shared@.session(self@),
                self@.queue_session_id,
            ),
    {
        let session_id = self.session_id(shared);
        shared.conv_db.load_queued_prompts(session_id.as_str(), self.queue_session_id.as_str())
    }

    /// Hands queued prompts to a running turn.
    pub fn consume_queued_prompts(
        &self,
        shared: &mut SharedState,
        turn_id: &str,
        prompts: &Vec<(String, String)>,
        preceding_assistant_content: Option<&str>,
        preceding_assistant_reasoning: Option<&str>,
    ) -> (result: Result<(), StateError>)
        ensures
            exists|now: Seq<char>|
                outcome(
                    result,
                    old(shared)@.db,
                    final(shared)@.db,
                    #[trigger] old(shared)@.db.consume_queued_prompts(
                        old(shared)@.session(self@),
                        turn_id@,
                        prompts.deep_view(),
                        (
                            Preceding {
                                content: preceding_assistant_content.deep_view(),
                                reasoning: preceding_assistant_reasoning.deep_view(),
                                provider_id: None,
                                model: None,
                            }
                        ),
                        self@.queue_session_id,
                        None,
                        now,
                    ),
                ),
            final(shared)@.access == old(shared)@.access,
            final(shared)@.entered == old(shared)@.entered,
    {
        let session_id = self.session_id(shared);
        assert(shared@.db == shared.conv_db@);
        assert(self@.queue_session_id == self.queue_session_id@);
        let now = now_text();
        shared.conv_db.consume_queued_prompts(
            session_id.as_str(),
            turn_id,
            prompts,
            preceding_assistant_content,
            preceding_assistant_reasoning,
            None,
            None,
            self.queue_session_id.as_str(),
            now.as_str(),
        )
    }

    /// The same, with the provider and model that answered before.
    pub fn consume_queued_prompts_with_model(
        &self,
        shared: &mut SharedState,
        turn_id: &str,
        prompts: &Vec<(String, String)>,
        preceding_assistant_content: Option<&str>,
        preceding_assistant_reasoning: Option<&str>,
        preceding_assistant_provider_id: Option<&str>,
        preceding_assistant_model: Option<&str>,
    ) -> (result: Result<(), StateError>)
        ensures
            exists|now: Seq<char>|
                outcome(
                    result,
                    old(shared)@.db,
                    final(shared)@.db,
                    #[trigger] old(shared)@.db.consume_queued_prompts(
                        old(shared)@.session(self@),
                        turn_id@,
                        prompts.deep_view(),
                        (
                            Preceding {
                                content: preceding_assistant_content.deep_view(),
                                reasoning: preceding_assistant_reasoning.deep_view(),
                                provider_id: preceding_assistant_provider_id.deep_view(),
                                model: preceding_assistant_model.deep_view(),
                            }
                        ),
                        self@.queue_session_id,
                        None,
                        now,
                    ),
                ),
            final(shared)@.access == old(shared)@.access,
            final(shared)@.entered == old(shared)@.entered,
    {
        let session_id = self.session_id(shared);
        assert(shared@.db == shared.conv_db@);
        assert(self@.queue_session_id == self.queue_session_id@);
        let now = now_text();
        shared.conv_db.consume_queued_prompts(
            session_id.as_str(),
            turn_id,
            prompts,
            preceding_assistant_content,
            preceding_assistant_reasoning,
            preceding_assistant_provider_id,
            preceding_assistant_model,
            self.queue_session_id.as_str(),
            now.as_str(),
        )
    }

    /// The same, with a checkpoint to redo the turn from.
    pub fn consume_queued_prompts_with_checkpoint(
        &self,
        shared: &mut SharedState,
        turn_id: &str,
        prompts: &Vec<(String, String)>,
        preceding_assistant_content: Option<&str>,
        preceding_assistant_reasoning: Option<&str>,
        preceding_assistant_provider_id: Option<&str>,
        preceding_assistant_model: Option<&str>,
        checkpoint: TurnRedoCheckpointPayload,
    ) -> (result: Result<(), StateError>)
        ensures
            exists|now: Seq<char>|
                outcome(
                    result,
                    old(shared)@.db,
                    final(shared)@.db,
                    #[trigger] old(shared)@.db.consume_queued_prompts(
                        old(shared)@.session(self@),
                        turn_id@,
                        prompts.deep_view(),
                        (
                            Preceding {
                                content: preceding_assistant_content.deep_view(),
                                reasoning: preceding_assistant_reasoning.deep_view(),
                                provider_id: preceding_assistant_provider_id.deep_view(),
                                model: preceding_assistant_model.deep_view(),
                            }
                        ),
                        self@.queue_session_id,
                        Some(checkpoint.deep_view()),
                        now,
                    ),
                ),
            final(shared)@.access == old(shared)@.access,
            final(shared)@.entered == old(shared)@.entered,
    {
        let session_id = self.session_id(shared);
        assert(shared@.db == shared.conv_db@);
        assert(self@.queue_session_id == self.queue_session_id@);
        let now = now_text();
        shared.conv_db.consume_queued_prompts_with_checkpoint(
            session_id.as_str(),
            turn_id,
            prompts,
            preceding_assistant_content,
            preceding_assistant_reasoning,
            preceding_assistant_provider_id,
            preceding_assistant_model,
            self.queue_session_id.as_str(),
            &Some(checkpoint),
            now.as_str(),
        )
    }

    /// Withdraws every prompt that waits in this queue, and names them.
    pub fn delete_queued_prompts(&self, shared: &mut SharedState) -> (ids: Vec<String>)
        ensures
            (final(shared)@.db, ids.deep_view()) == old(shared)@.db.delete_queued_prompts(
                old(shared)@.session(self@),
                self@.queue_session_id,
            ),
            final(shared)@.access == old(shared)@.access,
            final(shared)@.entered == old(shared)@.entered,
    {
        let session_id = self.session_id(shared);
        shared.conv_db.delete_queued_prompts(
            session_id.as_str(),
            self.queue_session_id.as_str(),
        )
    }

    pub fn discard_queued_prompts(
        &self,
        shared: &mut SharedState,
    ) -> (result: Result<usize, StateError>)
        ensures
            exists|now: Seq<char>|
                outcome(
                    result,
                    old(shared)@.db,
                    final(shared)@.db,
                    #[trigger] old(shared)@.db.discard_queued_prompts(
                        old(shared)@.session(self@),
                        self@.queue_session_id,
                        now,
                    ),
                ),
            final(shared)@.access == old(shared)@.access,
            final(shared)@.entered == old(shared)@.entered,
    {
        let session_id = self.session_id(shared);
        assert(shared@.db == shared.conv_db@);
        assert(self@.queue_session_id == self.queue_session_id@);
        let now = now_text();
        shared.conv_db.discard_queued_prompts(
            session_id.as_str(),
            self.queue_session_id.as_str(),
            now.as_str(),
        )
    }

    pub fn remove_queued_prompt(&self, shared: &mut SharedState, prompt_id: &str) -> (removed: bool)
        ensures
            (final(shared)@.db, removed) == old(shared)@.db.remove_queued_prompt(
                old(shared)@.session(self@),
                prompt_id@,
                self@.queue_session_id,
            ),
            final(shared)@.access == old(shared)@.access,
            final(shared)@.entered == old(shared)@.entered,
    {
        let session_id = self.session_id(shared);
        shared.conv_db.remove_queued_prompt(
            session_id.as_str(),
            prompt_id,
            self.queue_session_id.as_str(),
        )
    }

    pub fn load_session_loaded_tools(&self, shared: &SharedState) -> (names: Vec<String>)
        ensures
            ascending(names.deep_view()),
            names.deep_view().to_set() == shared@.db.item_names(shared@.session(self@), "tool"@).to_set(),
    {
        let session_id = self.session_id(shared);
        shared.conv_db.load_session_loaded_items(session_id.as_str(), "tool")
    }

    pub fn load_session_loaded_tools_with_sources(
        &self,
        shared: &SharedState,
    ) -> (items: Vec<(String, Option<String>)>)
        ensures
            items.deep_view() == shared@.db.items_with_sources(shared@.session(self@), "tool"@),
    {
        let session_id = self.session_id(shared);
        shared.conv_db.load_session_loaded_items_with_sources(session_id.as_str(), "tool")
    }

    pub fn add_session_loaded_tools(
        &self,
        shared: &mut SharedState,
        names: &Vec<String>,
        source_turn_id: Option<&str>,
    )
        ensures
            exists|now: Seq<char>|
                final(shared)@.db == (
                    #[trigger] old(shared)@.db.items_added(
                        old(shared)@.session(self@),
                        "tool"@,
                        names.deep_view(),
                        source_turn_id.deep_view(),
                        now,
                        names.len() as nat,
                    )
                ).0,
            final(shared)@.access == old(shared)@.access,
            final(shared)@.entered == old(shared)@.entered,
    {
        let session_id = self.session_id(shared);
        assert(shared@.db == shared.conv_db@);
        let now = now_text();
        shared.conv_db.add_session_loaded_items(
            session_id.as_str(),
            "tool",
            names,
            source_turn_id,
            now.as_str(),
        );
    }

    pub fn add_session_loaded_targets(
        &self,
        shared: &mut SharedState,
        names: &Vec<String>,
        source_turn_id: Option<&str>,
    )
        ensures
            exists|now: Seq<char>|
                final(shared)@.db == (
                    #[trigger] old(shared)@.db.items_added(
                        old(shared)@.session(self@),
                        "target"@,
                        names.deep_view(),
                        source_turn_id.deep_view(),
                        now,
                        names.len() as nat,
                    )
                ).0,
            final(shared)@.access == old(shared)@.access,
            final(shared)@.entered == old(shared)@.entered,
    {
        let session_id = self.session_id(shared);
        assert(shared@.db == shared.conv_db@);
        let now = now_text();
        shared.conv_db.add_session_loaded_items(
            session_id.as_str(),
            "target",
            names,
            source_turn_id,
            now.as_str(),
        );
    }

    /// Puts the running turns in order that no live process works on. What was
    /// recovered is returned, so that the files of each turn can follow.
    pub fn recover_stale_turns(
        &self,
        shared: &mut SharedState,
        alive: &Vec<u32>,
    ) -> (result: Result<Vec<StaleTurnRecovery>, StateError>)
        ensures
            exists|now: Seq<char>|
                outcome(
                    result,
                    old(shared)@.db,
                    final(shared)@.db,
                    #[trigger] old(shared)@.db.recover_stale_running_turns(alive@, now),
                ),
            final(shared)@.access == old(shared)@.access,
            final(shared)@.entered == old(shared)@.entered,
    {
        assert(shared@.db == shared.conv_db@);
        let now = now_text();
        shared.conv_db.recover_stale_running_turns(alive, now.as_str())
    }

    /// The turns of this session without the summaries.
    pub fn load_conversation(&self, shared: &SharedState) -> (turns: Vec<Turn>)
        ensures
            turns.deep_view() == shared@.db.turns_where(turn_of(shared@.session(self@))).filter(
                no_summary(),
            ),
    {
        let turns = self.load_turns(shared);
        let plain = |t: &Turn| -> (b: bool)
            ensures
                b == no_summary()(t.deep_view()),
            { !t.is_summary };
        select(&turns, &plain, Ghost(no_summary()))
    }

    /// The last `limit` of the entries of this session's conversation, which are
    /// made of [`StateStore::load_conversation`].
    pub fn history<E>(&self, entries: Vec<E>, limit: usize) -> (latest: Vec<E>)
        ensures
            latest@ == if entries.len() <= limit {
                entries@
            } else {
                entries@.skip(entries.len() - limit)
            },
    {
        let ghost all = entries@;
        let mut entries = entries;
        let start: usize = if entries.len() <= limit {
            0
        } else {
            entries.len() - limit
        };
        let latest = entries.split_off(start);
        assert(latest@ =~= all.skip(start as int));
        assert(all.skip(0) =~= all);
        latest
    }

    pub fn load_turns(&self, shared: &SharedState) -> (turns: Vec<Turn>)
        ensures
            turns.deep_view() == shared@.db.turns_where(turn_of(shared@.session(self@))),
    {
        let session_id = self.session_id(shared);
        shared.conv_db.load_turns(session_id.as_str())
    }

    pub fn load_turns_excluding(
        &self,
        shared: &SharedState,
        exclude_turn_id: &str,
    ) -> (turns: Vec<Turn>)
        ensures
            turns.deep_view() == shared@.db.turns_where(
                turn_except(shared@.session(self@), exclude_turn_id@),
            ),
    {
        let session_id = self.session_id(shared);
        shared.conv_db.load_turns_excluding(session_id.as_str(), exclude_turn_id)
    }

    pub fn load_visible_turns(&self, shared: &SharedState) -> (turns: Vec<Turn>)
        ensures
            turns.deep_view() == shared@.db.turns_where(visible_turn(shared@.session(self@))),
    {
        let session_id = self.session_id(shared);
        shared.conv_db.load_visible_turns(session_id.as_str())
    }

    pub fn load_visible_turns_excluding(
        &self,
        shared: &SharedState,
        exclude_turn_id: &str,
    ) -> (turns: Vec<Turn>)
        ensures
            turns.deep_view() == shared@.db.turns_where(
                visible_turn_except(shared@.session(self@), exclude_turn_id@),
            ),
    {
        let session_id = self.session_id(shared);
        shared.conv_db.load_visible_turns_excluding(session_id.as_str(), exclude_turn_id)
    }

    /// The transcripts of this session's last `limit` turns.
    pub fn session_replay(&self, shared: &SharedState, limit: usize) -> (turns: Vec<TurnReplay>)
        ensures
            turns.deep_view() == shared@.db.session_replay(shared@.session(self@), limit as nat),
    {
        let session_id = self.session_id(shared);
        shared.conv_db.session_replay(session_id.as_str(), limit)
    }

    pub fn hide_turns_before_seq(&self, shared: &mut SharedState, seq: i64) -> (affected: usize)
        ensures
            (
                final(shared)@.db,
                affected as nat,
            ) == old(shared)@.db.hide_turns_before_seq(old(shared)@.session(self@), seq),
            final(shared)@.access == old(shared)@.access,
            final(shared)@.entered == old(shared)@.entered,
    {
        let session_id = self.session_id(shared);
        shared.conv_db.hide_turns_before_seq(session_id.as_str(), seq)
    }

    pub fn insert_summary_turn(
        &self,
        shared: &mut SharedState,
        summary: &str,
        tokens: TurnTokens,
        token_usage_estimated: bool,
    ) -> (result: Result<(), StateError>)
        ensures
            exists|millis: u128, salt: u16, now: Seq<char>|
                outcome(
                    result,
                    old(shared)@.db,
                    final(shared)@.db,
                    #[trigger] old(shared)@.db.insert_summary_turn(
                        old(shared)@.session(self@),
                        summary@,
                        tokens.deep_view(),
                        token_usage_estimated,
                        new_summary_id(millis, salt),
                        now,
                    ),
                ),
            final(shared)@.access == old(shared)@.access,
            final(shared)@.entered == old(shared)@.entered,
    {
        let session_id = self.session_id(shared);
        assert(shared@.db == shared.conv_db@);
        let millis: u128 = now_nanos() / 1000000;
        let salt: u16 = random_u16();
        let now = now_text();
        let id = summary_id_text(millis, salt);
        shared.conv_db.insert_summary_turn(
            session_id.as_str(),
            summary,
            &tokens,
            token_usage_estimated,
            id.as_str(),
            now.as_str(),
        )
    }

    pub fn load_last_summary(&self, shared: &SharedState) -> (summary: Option<Turn>)
        ensures
            summary.deep_view() == shared@.db.last_summary(shared@.session(self@)),
    {
        let session_id = self.session_id(shared);
        shared.conv_db.load_last_summary(session_id.as_str())
    }

    pub fn prune_stale_tool_reports(
        &self,
        shared: &mut SharedState,
        protect_recent: usize,
        min_saved_chars: usize,
    ) -> (stats: PruneStats)
        ensures
            (
                final(shared)@.db,
                (stats.turns as nat, stats.saved_chars),
            ) == old(shared)@.db.prune_stale_tool_reports(old(shared)@.session(self@), protect_recent, min_saved_chars),
            final(shared)@.access == old(shared)@.access,
            final(shared)@.entered == old(shared)@.entered,
    {
        let session_id = self.session_id(shared);
        shared.conv_db.prune_stale_tool_reports(
            session_id.as_str(),
            protect_recent,
            min_saved_chars,
        )
    }

    /// When this session last sent a request, in seconds.
    pub fn session_last_request_at(&self, shared: &SharedState) -> (stamp: Option<i64>)
        ensures
            stamp == match shared@.db.session_row(shared@.session(self@)) {
                Some(row) => row.last_request_at,
                None => None,
            },
    {
        let session_id = self.session_id(shared);
        match shared.conv_db.session_row(session_id.as_str()) {
            Some(row) => row.last_request_at,
            None => None,
        }
    }

    pub fn replace_visible_with_summary(
        &self,
        shared: &mut SharedState,
        fold_turn_ids: &Vec<String>,
        visible_turn_ids: &Vec<String>,
        summary: &str,
        tokens: TurnTokens,
        token_usage_estimated: bool,
        footprint_json: Option<&str>,
    ) -> (result: Result<(), StateError>)
        ensures
            exists|millis: u128, salt: u16, now: Seq<char>|
                outcome(
                    result,
                    old(shared)@.db,
                    final(shared)@.db,
                    #[trigger] old(shared)@.db.replace_visible_with_summary(
                        old(shared)@.session(self@),
                        fold_turn_ids.deep_view(),
                        visible_turn_ids.deep_view(),
                        summary@,
                        tokens.deep_view(),
                        token_usage_estimated,
                        footprint_json.deep_view(),
                        new_summary_id(millis, salt),
                        now,
                    ),
                ),
            result is Ok ==> old(shared)@.db.folds_reversibly(
                old(shared)@.session(self@),
                fold_turn_ids.deep_view(),
            ),
            final(shared)@.access == old(shared)@.access,
            final(shared)@.entered == old(shared)@.entered,
    {
        let session_id = self.session_id(shared);
        assert(shared@.db == shared.conv_db@);
        let millis: u128 = now_nanos() / 1000000;
        let salt: u16 = random_u16();
        let now = now_text();
        let id = summary_id_text(millis, salt);
        shared.conv_db.replace_visible_with_summary(
            session_id.as_str(),
            fold_turn_ids,
            visible_turn_ids,
            summary,
            &tokens,
            token_usage_estimated,
            footprint_json,
            id.as_str(),
            now.as_str(),
        )
    }

    pub fn oldest_evictable_visible_turns(
        &self,
        shared: &SharedState,
        count: usize,
    ) -> (turns: Vec<Turn>)
        ensures
            turns.deep_view() == shared@.db.oldest_evictable(shared@.session(self@), count as nat),
    {
        let session_id = self.session_id(shared);
        shared.conv_db.oldest_evictable_visible_turns(session_id.as_str(), count)
    }

    pub fn delete_visible_turns(
        &self,
        shared: &mut SharedState,
        turn_ids: &Vec<String>,
    ) -> (result: Result<usize, StateError>)
        ensures
            outcome(
                result,
                old(shared)@.db,
                final(shared)@.db,
                old(shared)@.db.delete_visible_turns(old(shared)@.session(self@), turn_ids.deep_view(), None),
            ),
            final(shared)@.access == old(shared)@.access,
            final(shared)@.entered == old(shared)@.entered,
    {
        let session_id = self.session_id(shared);
        shared.conv_db.delete_visible_turns(session_id.as_str(), turn_ids)
    }

    pub fn delete_visible_turns_checked(
        &self,
        shared: &mut SharedState,
        turn_ids: &Vec<String>,
        expected_loaded_tools: &Option<Vec<(String, Option<String>)>>,
    ) -> (result: Result<usize, StateError>)
        ensures
            outcome(
                result,
                old(shared)@.db,
                final(shared)@.db,
                old(shared)@.db.delete_visible_turns(
                    old(shared)@.session(self@),
                    turn_ids.deep_view(),
                    expected_loaded_tools.deep_view(),
                ),
            ),
            final(shared)@.access == old(shared)@.access,
            final(shared)@.entered == old(shared)@.entered,
    {
        let session_id = self.session_id(shared);
        shared.conv_db.delete_visible_turns_checked(
            session_id.as_str(),
            turn_ids,
            expected_loaded_tools,
        )
    }

    pub fn archive_and_delete_visible_turns(
        &self,
        shared: &mut SharedState,
        archive: &mut Vec<EvictedRow>,
        turns: &Vec<EvictedTurn>,
        turn_ids: &Vec<String>,
        expected_loaded_tools: &Option<Vec<(String, Option<String>)>>,
    ) -> (result: Result<usize, StateError>)
        ensures
            outcome(
                result,
                old(shared)@.db,
                final(shared)@.db,
                old(shared)@.db.delete_visible_turns(
                    old(shared)@.session(self@),
                    turn_ids.deep_view(),
                    expected_loaded_tools.deep_view(),
                ),
            ),
            result is Ok && turn_ids.len() > 0 ==> exists|now: Seq<char>|
                final(archive).deep_view() == #[trigger] archived(
                    old(archive).deep_view(),
                    turns.deep_view(),
                    now,
                ),
            result is Err || turn_ids.len() == 0 ==> final(archive).deep_view() == old(
                archive,
            ).deep_view(),
            final(shared)@.access == old(shared)@.access,
            final(shared)@.entered == old(shared)@.entered,
    {
        let session_id = self.session_id(shared);
        assert(shared@.db == shared.conv_db@);
        let now = now_text();
        shared.conv_db.archive_and_delete_visible_turns(
            session_id.as_str(),
            archive,
            turns,
            turn_ids,
            expected_loaded_tools,
            now.as_str(),
        )
    }

    pub fn undo_last_turn(&self, shared: &mut SharedState) -> (undone: (usize, Option<String>))
        ensures
            (
                final(shared)@.db,
                undone.deep_view(),
            ) == old(shared)@.db.undo_last_turn(old(shared)@.session(self@)),
            final(shared)@.access == old(shared)@.access,
            final(shared)@.entered == old(shared)@.entered,
    {
        let session_id = self.session_id(shared);
        shared.conv_db.undo_last_turn(session_id.as_str())
    }

    pub fn redo_candidate(&self, shared: &SharedState) -> (candidate: Option<RedoCandidate>)
        ensures
            candidate.deep_view() == shared@.db.redo_candidate(shared@.session(self@)),
    {
        let session_id = self.session_id(shared);
        shared.conv_db.redo_candidate(session_id.as_str())
    }

    pub fn load_redo_batch_prompts(
        &self,
        shared: &SharedState,
        turn_id: &str,
        prompt_ids: &Vec<String>,
    ) -> (result: Result<Vec<QueuedPrompt>, StateError>)
        ensures
            match shared@.db.load_redo_batch_prompts(shared@.session(self@), turn_id@, prompt_ids.deep_view()) {
                Ok(prompts) => result matches Ok(got) && got.deep_view() == prompts,
                Err(error) => result matches Err(got) && got@ == error,
            },
    {
        let session_id = self.session_id(shared);
        shared.conv_db.load_redo_batch_prompts(session_id.as_str(), turn_id, prompt_ids)
    }

    pub fn begin_redo(
        &self,
        shared: &mut SharedState,
        turn_id: &str,
        input_id: &str,
        input_kind: RedoInputKind,
        expected_revision: i64,
        content: &str,
        display_content: &str,
        owner_pid: u32,
    ) -> (result: Result<RedoStart, StateError>)
        ensures
            exists|now: Seq<char>|
                outcome(
                    result,
                    old(shared)@.db,
                    final(shared)@.db,
                    #[trigger] old(shared)@.db.begin_redo(
                        (
                            RedoRequest {
                                session_id: old(shared)@.session(self@),
                                turn_id: turn_id@,
                                input_id: input_id@,
                                input_kind,
                                expected_revision,
                                content: content@,
                                display_content: display_content@,
                                owner_pid,
                                queue: self@.queue_session_id,
                            }
                        ),
                        now,
                    ),
                ),
            final(shared)@.access == old(shared)@.access,
            final(shared)@.entered == old(shared)@.entered,
    {
        let session_id = self.session_id(shared);
        assert(shared@.db == shared.conv_db@);
        assert(self@.queue_session_id == self.queue_session_id@);
        let now = now_text();
        shared.conv_db.begin_redo(
            session_id.as_str(),
            turn_id,
            input_id,
            input_kind,
            expected_revision,
            content,
            display_content,
            owner_pid,
            self.queue_session_id.as_str(),
            now.as_str(),
        )
    }

    /// What this session has cost over its whole life.
    pub fn session_cumulative_tokens(
        &self,
        shared: &SharedState,
    ) -> (result: Result<u64, StateError>)
        ensures
            match shared@.db.token_totals(shared@.session(self@)) {
                Ok(tokens) => result == Ok::<u64, StateError>(tokens.total),
                Err(error) => result matches Err(got) && got@ == error,
            },
    {
        let session_id = self.session_id(shared);
        shared.conv_db.session_token_total(session_id.as_str())
    }

    pub fn session_cumulative_token_totals(
        &self,
        shared: &SharedState,
    ) -> (result: Result<TurnTokens, StateError>)
        ensures
            match shared@.db.token_totals(shared@.session(self@)) {
                Ok(tokens) => result matches Ok(got) && got.deep_view() == tokens,
                Err(error) => result matches Err(got) && got@ == error,
            },
    {
        let session_id = self.session_id(shared);
        shared.conv_db.session_token_totals(session_id.as_str())
    }

    pub fn has_running_turns(&self, shared: &SharedState) -> (yes: bool)
        ensures
            yes == any(shared@.db.turns, running_in(shared@.session(self@))),
    {
        let session_id = self.session_id(shared);
        shared.conv_db.has_running_turns(session_id.as_str())
    }

    pub fn running_turn_summaries(&self, shared: &SharedState) -> (list: Vec<String>)
        ensures
            list.deep_view() == shared@.db.running_summaries(running_in(shared@.session(self@))),
    {
        let session_id = self.session_id(shared);
        shared.conv_db.running_turn_summaries(session_id.as_str())
    }

    pub fn running_turn_summaries_excluding(
        &self,
        shared: &SharedState,
        exclude_turn_id: &str,
    ) -> (list: Vec<String>)
        ensures
            list.deep_view() == shared@.db.running_summaries(
                running_in_except(shared@.session(self@), exclude_turn_id@),
            ),
    {
        let session_id = self.session_id(shared);
        shared.conv_db.running_turn_summaries_excluding(session_id.as_str(), exclude_turn_id)
    }

    /// Takes the lines of an old conversation over into this session.
    pub fn migrate_from_jsonl(
        &self,
        shared: &mut SharedState,
        lines: &Vec<String>,
    ) -> (result: Result<usize, StateError>)
        ensures
            exists|now: Seq<char>| {
                let (db, expected) = #[trigger] old(shared)@.db.migrate_from_jsonl(
                    old(shared)@.session(self@),
                    lines.deep_view(),
                    now,
                );
                &&& final(shared)@.db == db
                &&& match expected {
                    Ok(n) => result matches Ok(got) && got == n,
                    Err(error) => result matches Err(got) && got@ == error,
                }
            },
            final(shared)@.access == old(shared)@.access,
            final(shared)@.entered == old(shared)@.entered,
    {
        let session_id = self.session_id(shared);
        assert(shared@.db == shared.conv_db@);
        let now = now_text();
        shared.conv_db.migrate_from_jsonl(session_id.as_str(), lines, now.as_str())
    }

    /// Stores an image that a turn produced.
    pub fn save_image_asset(
        &self,
        shared: &mut SharedState,
        turn_id: &str,
        tool_id: Option<&str>,
        file_name: &str,
        bytes: &Vec<u8>,
        alt: &str,
    ) -> (result: Result<ImageAsset, StateError>)
        ensures
            exists|nanos: u128, salt: u64, now: Seq<char>|
                outcome(
                    result,
                    old(shared)@.db,
                    final(shared)@.db,
                    #[trigger] old(shared)@.db.save_image_asset(
                        turn_id@,
                        tool_id.deep_view(),
                        file_name@,
                        bytes@,
                        alt@,
                        nanos,
                        salt,
                        now,
                    ),
                ),
            final(shared)@.access == old(shared)@.access,
            final(shared)@.entered == old(shared)@.entered,
    {
        assert(shared@.db == shared.conv_db@);
        let nanos: u128 = now_nanos();
        let salt: u64 = random_u64();
        let now = now_text();
        shared.conv_db.save_image_asset(
            turn_id,
            tool_id,
            file_name,
            bytes,
            alt,
            nanos,
            salt,
            now.as_str(),
        )
    }
}

} // verus!
