//! The keys of the tables, and what their rows refer to.

use crate::facts::{lemma_filter_contains, lemma_map_change};
use crate::state::cascade::{
    artifact_among, backup_among, checkpoint_among, event_among, image_among, question_among,
    segment_among, session_id_of, turn_id_of,
};
use crate::state::checkpoint::item_of;
use crate::state::db::DbModel;
use crate::state::queue::prompt_id_of;
use crate::state::rows::{
    AppStateRowModel, BackupRowModel, BindingRowModel, CheckpointRowModel, JournalEventRowModel,
    JournalSegmentRowModel, LoadedItemRowModel, PluginKvRowModel, QuestionRowModel,
    SessionRowModel, TurnRowModel,
};
use crate::state::types::{
    ArtifactAssetDataModel, ImageAssetDataModel, PlatformAccessGrantKeyModel,
    PlatformAccessGrantModel, PlatformPluginScopeKeyModel,
};
use crate::table::{any, change_where, insert_ordered, not, order_by, put};
use vstd::prelude::*;

verus! {

/// Whether no two rows have the same key.
pub open spec fn unique<V, K>(s: Seq<V>, key: spec_fn(V) -> K) -> bool {
    s.map_values(key).no_duplicates()
}

/// Whether every row refers to one of `ids`.
pub open spec fn tied<V>(
    s: Seq<V>,
    to: spec_fn(V) -> Seq<char>,
    ids: Seq<Seq<char>>,
) -> bool {
    forall|i: int| 0 <= i < s.len() ==> ids.contains(to(#[trigger] s[i]))
}

pub open spec fn grant_key() -> spec_fn(PlatformAccessGrantModel) -> PlatformAccessGrantKeyModel {
    |r: PlatformAccessGrantModel| r.key
}

pub open spec fn plugin_key() -> spec_fn(PluginKvRowModel) -> (
    PlatformPluginScopeKeyModel,
    Seq<char>,
) {
    |r: PluginKvRowModel| (r.scope, r.key)
}

/// The platform, the account, the kind of conversation, the conversation, the
/// participant and the persona.
pub open spec fn binding_key() -> spec_fn(BindingRowModel) -> (
    Seq<char>,
    Seq<char>,
    Seq<char>,
    Seq<char>,
    Seq<char>,
    Seq<char>,
) {
    |r: BindingRowModel|
        (
            r.platform,
            r.account_id,
            r.conversation_kind,
            r.conversation_id,
            r.participant_id,
            r.persona,
        )
}

pub open spec fn item_key() -> spec_fn(LoadedItemRowModel) -> (Seq<char>, Seq<char>, Seq<char>) {
    |r: LoadedItemRowModel| (r.session_id, r.kind, r.name)
}

pub open spec fn app_key() -> spec_fn(AppStateRowModel) -> Seq<char> {
    |r: AppStateRowModel| r.key
}

pub open spec fn bound_to() -> spec_fn(BindingRowModel) -> Seq<char> {
    |r: BindingRowModel| r.session_id
}

pub open spec fn segment_turn() -> spec_fn(JournalSegmentRowModel) -> Seq<char> {
    |r: JournalSegmentRowModel| r.turn_id
}

pub open spec fn event_turn() -> spec_fn(JournalEventRowModel) -> Seq<char> {
    |r: JournalEventRowModel| r.turn_id
}

pub open spec fn checkpoint_turn() -> spec_fn(CheckpointRowModel) -> Seq<char> {
    |r: CheckpointRowModel| r.turn_id
}

pub open spec fn backup_turn() -> spec_fn(BackupRowModel) -> Seq<char> {
    |r: BackupRowModel| r.turn_id
}

pub open spec fn question_turn() -> spec_fn(QuestionRowModel) -> Seq<char> {
    |r: QuestionRowModel| r.turn_id
}

pub open spec fn image_turn() -> spec_fn(ImageAssetDataModel) -> Seq<char> {
    |r: ImageAssetDataModel| r.asset.turn_id
}

pub open spec fn artifact_turn() -> spec_fn(ArtifactAssetDataModel) -> Seq<char> {
    |r: ArtifactAssetDataModel| r.asset.turn_id
}

impl DbModel {
    pub open spec fn session_ids(self) -> Seq<Seq<char>> {
        self.sessions.map_values(session_id_of())
    }

    pub open spec fn turn_ids(self) -> Seq<Seq<char>> {
        self.turns.map_values(turn_id_of())
    }

    /// Whether no key occurs twice: no session, turn, prompt, grant, value of a
    /// plugin, value of the application or item that a session has loaded, and no
    /// conversation that is bound.
    pub open spec fn keyed(self) -> bool {
        &&& unique(self.sessions, session_id_of())
        &&& unique(self.turns, turn_id_of())
        &&& unique(self.queued_prompts, prompt_id_of())
        &&& unique(self.grants, grant_key())
        &&& unique(self.plugin_kv, plugin_key())
        &&& unique(self.app_state, app_key())
        &&& unique(self.bindings, binding_key())
        &&& unique(self.loaded_items, item_key())
    }

    /// Whether all that hangs off a turn hangs off one of `ids`.
    pub open spec fn children_of(self, ids: Seq<Seq<char>>) -> bool {
        &&& tied(self.segments, segment_turn(), ids)
        &&& tied(self.events, event_turn(), ids)
        &&& tied(self.checkpoints, checkpoint_turn(), ids)
        &&& tied(self.backups, backup_turn(), ids)
        &&& tied(self.questions, question_turn(), ids)
        &&& tied(self.question_backups, question_turn(), ids)
        &&& tied(self.images, image_turn(), ids)
        &&& tied(self.image_backups, image_turn(), ids)
        &&& tied(self.artifacts, artifact_turn(), ids)
        &&& tied(self.artifact_backups, artifact_turn(), ids)
    }

    /// Whether no key occurs twice, conversations are bound to sessions that
    /// exist, and what hangs off a turn hangs off one that exists.
    pub open spec fn well_formed(self) -> bool {
        &&& self.keyed()
        &&& tied(self.bindings, bound_to(), self.session_ids())
        &&& self.children_of(self.turn_ids())
    }
}

pub proof fn lemma_contains_key<V, K>(s: Seq<V>, key: spec_fn(V) -> K, i: int)
    requires
        0 <= i < s.len(),
    ensures
        s.map_values(key).contains(key(s[i])),
{
    assert(s.map_values(key)[i] == key(s[i]));
}

pub proof fn lemma_unique_at<V, K>(s: Seq<V>, key: spec_fn(V) -> K, i: int, j: int)
    requires
        unique(s, key),
        0 <= i < s.len(),
        0 <= j < s.len(),
        key(s[i]) == key(s[j]),
    ensures
        i == j,
{
    assert(s.map_values(key)[i] == s.map_values(key)[j]);
}

pub proof fn lemma_unique_push<V, K>(s: Seq<V>, v: V, key: spec_fn(V) -> K)
    requires
        unique(s, key),
        !s.map_values(key).contains(key(v)),
    ensures
        unique(s.push(v), key),
{
    let keys = s.map_values(key);
    assert(s.push(v).map_values(key) =~= keys.push(key(v)));
    let after = keys.push(key(v));
    assert forall|i: int, j: int| 0 <= i < after.len() && 0 <= j < after.len() && i
        != j implies after[i] != after[j] by {
        if i == keys.len() {
            assert(keys.contains(keys[j]));
        } else if j == keys.len() {
            assert(keys.contains(keys[i]));
        }
    }
}

pub proof fn lemma_unique_filter<V, K>(s: Seq<V>, p: spec_fn(V) -> bool, key: spec_fn(V) -> K)
    requires
        unique(s, key),
    ensures
        unique(s.filter(p), key),
    decreases s.len(),
{
    reveal(Seq::filter);
    if s.len() > 0 {
        let rest = s.drop_last();
        assert(rest.map_values(key) =~= s.map_values(key).drop_last());
        lemma_unique_filter(rest, p, key);
        if p(s.last()) {
            let kept = rest.filter(p);
            let keys = kept.map_values(key);
            if keys.contains(key(s.last())) {
                let i = keys.index_of(key(s.last()));
                assert(kept.contains(kept[i]));
                lemma_filter_contains(rest, p, kept[i]);
                let j = rest.index_of(kept[i]);
                lemma_unique_at(s, key, j, s.len() - 1);
            }
            lemma_unique_push(kept, s.last(), key);
        }
    } else {
        assert(s.filter(p).map_values(key) =~= Seq::<K>::empty());
    }
}

pub proof fn lemma_unique_change<V, K>(
    s: Seq<V>,
    p: spec_fn(V) -> bool,
    f: spec_fn(V) -> V,
    key: spec_fn(V) -> K,
)
    requires
        unique(s, key),
        forall|v: V| p(v) ==> key(#[trigger] f(v)) == key(v),
    ensures
        unique(change_where(s, p, f), key),
        change_where(s, p, f).map_values(key) == s.map_values(key),
{
    lemma_map_change(s, p, f, key);
}

pub proof fn lemma_unique_put<V, K>(
    s: Seq<V>,
    p: spec_fn(V) -> bool,
    f: spec_fn(V) -> V,
    v: V,
    key: spec_fn(V) -> K,
)
    requires
        unique(s, key),
        forall|w: V| p(w) ==> key(#[trigger] f(w)) == key(w),
        forall|w: V| key(w) == key(v) ==> #[trigger] p(w),
    ensures
        unique(put(s, p, f, v), key),
{
    if any(s, p) {
        lemma_unique_change(s, p, f, key);
    } else {
        if s.map_values(key).contains(key(v)) {
            let i = s.map_values(key).index_of(key(v));
            assert(p(s[i]));
        }
        lemma_unique_push(s, v, key);
    }
}

/// Rows that get a key that no row had.
pub proof fn lemma_unique_rekeyed<V, K>(
    s: Seq<V>,
    p: spec_fn(V) -> bool,
    f: spec_fn(V) -> V,
    key: spec_fn(V) -> K,
)
    requires
        unique(s, key),
        forall|i: int, j: int|
            0 <= i < s.len() && 0 <= j < s.len() && i != j && p(#[trigger] s[i]) ==> key(f(s[i]))
                != key(if p(#[trigger] s[j]) {
                f(s[j])
            } else {
                s[j]
            }),
    ensures
        unique(change_where(s, p, f), key),
{
    let t = change_where(s, p, f);
    let keys = t.map_values(key);
    assert forall|i: int, j: int| 0 <= i < keys.len() && 0 <= j < keys.len() && i
        != j implies keys[i] != keys[j] by {
        let a = s[i];
        let b = s[j];
        if !p(a) && !p(b) {
            if key(a) == key(b) {
                lemma_unique_at(s, key, i, j);
            }
        }
    }
}

pub proof fn lemma_tied_filter<V>(
    s: Seq<V>,
    p: spec_fn(V) -> bool,
    to: spec_fn(V) -> Seq<char>,
    ids: Seq<Seq<char>>,
)
    requires
        tied(s, to, ids),
    ensures
        tied(s.filter(p), to, ids),
{
    lemma_tied_cut(s, p, to, ids, Seq::empty(), ids);
}

/// What does not refer to an id that is gone refers to one that is left.
pub proof fn lemma_tied_cut<V>(
    s: Seq<V>,
    p: spec_fn(V) -> bool,
    to: spec_fn(V) -> Seq<char>,
    ids: Seq<Seq<char>>,
    gone: Seq<Seq<char>>,
    left: Seq<Seq<char>>,
)
    requires
        tied(s, to, ids),
        forall|v: V| #[trigger] p(v) ==> !gone.contains(to(v)),
        forall|id: Seq<char>| #[trigger] ids.contains(id) && !gone.contains(id) ==> left.contains(id),
    ensures
        tied(s.filter(p), to, left),
{
    let t = s.filter(p);
    assert forall|i: int| 0 <= i < t.len() implies left.contains(to(#[trigger] t[i])) by {
        assert(t.contains(t[i]));
        lemma_filter_contains(s, p, t[i]);
        let j = s.index_of(t[i]);
        assert(ids.contains(to(s[j])));
    }
}

pub proof fn lemma_tied_wider<V>(
    s: Seq<V>,
    to: spec_fn(V) -> Seq<char>,
    ids: Seq<Seq<char>>,
    more: Seq<Seq<char>>,
)
    requires
        tied(s, to, ids),
        forall|id: Seq<char>| #[trigger] ids.contains(id) ==> more.contains(id),
    ensures
        tied(s, to, more),
{
}

pub proof fn lemma_tied_change<V>(
    s: Seq<V>,
    p: spec_fn(V) -> bool,
    f: spec_fn(V) -> V,
    to: spec_fn(V) -> Seq<char>,
    ids: Seq<Seq<char>>,
)
    requires
        tied(s, to, ids),
        forall|v: V| p(v) ==> ids.contains(to(#[trigger] f(v))) || to(f(v)) == to(v),
    ensures
        tied(change_where(s, p, f), to, ids),
{
    let t = change_where(s, p, f);
    assert forall|i: int| 0 <= i < t.len() implies ids.contains(to(#[trigger] t[i])) by {
        assert(ids.contains(to(s[i])));
    }
}

pub proof fn lemma_tied_concat<V>(
    a: Seq<V>,
    b: Seq<V>,
    to: spec_fn(V) -> Seq<char>,
    ids: Seq<Seq<char>>,
)
    requires
        tied(a, to, ids),
        tied(b, to, ids),
    ensures
        tied(a + b, to, ids),
{
    let t = a + b;
    assert forall|i: int| 0 <= i < t.len() implies ids.contains(to(#[trigger] t[i])) by {
        if i >= a.len() {
            assert(t[i] == b[i - a.len()]);
        } else {
            assert(t[i] == a[i]);
        }
    }
}

pub proof fn lemma_children_wider(db: DbModel, ids: Seq<Seq<char>>, more: Seq<Seq<char>>)
    requires
        db.children_of(ids),
        forall|id: Seq<char>| #[trigger] ids.contains(id) ==> more.contains(id),
    ensures
        db.children_of(more),
{
    lemma_tied_wider(db.segments, segment_turn(), ids, more);
    lemma_tied_wider(db.events, event_turn(), ids, more);
    lemma_tied_wider(db.checkpoints, checkpoint_turn(), ids, more);
    lemma_tied_wider(db.backups, backup_turn(), ids, more);
    lemma_tied_wider(db.questions, question_turn(), ids, more);
    lemma_tied_wider(db.question_backups, question_turn(), ids, more);
    lemma_tied_wider(db.images, image_turn(), ids, more);
    lemma_tied_wider(db.image_backups, image_turn(), ids, more);
    lemma_tied_wider(db.artifacts, artifact_turn(), ids, more);
    lemma_tied_wider(db.artifact_backups, artifact_turn(), ids, more);
}

pub proof fn lemma_children_cut(
    db: DbModel,
    ids: Seq<Seq<char>>,
    gone: Seq<Seq<char>>,
    left: Seq<Seq<char>>,
)
    requires
        db.children_of(ids),
        forall|id: Seq<char>| #[trigger] ids.contains(id) && !gone.contains(id) ==> left.contains(id),
    ensures
        db.without_children(gone).children_of(left),
{
    lemma_tied_cut(db.segments, not(segment_among(gone)), segment_turn(), ids, gone, left);
    lemma_tied_cut(db.events, not(event_among(gone)), event_turn(), ids, gone, left);
    lemma_tied_cut(
        db.checkpoints,
        not(checkpoint_among(gone)),
        checkpoint_turn(),
        ids,
        gone,
        left,
    );
    lemma_tied_cut(db.backups, not(backup_among(gone)), backup_turn(), ids, gone, left);
    lemma_tied_cut(db.questions, not(question_among(gone)), question_turn(), ids, gone, left);
    lemma_tied_cut(
        db.question_backups,
        not(question_among(gone)),
        question_turn(),
        ids,
        gone,
        left,
    );
    lemma_tied_cut(db.images, not(image_among(gone)), image_turn(), ids, gone, left);
    lemma_tied_cut(db.image_backups, not(image_among(gone)), image_turn(), ids, gone, left);
    lemma_tied_cut(db.artifacts, not(artifact_among(gone)), artifact_turn(), ids, gone, left);
    lemma_tied_cut(
        db.artifact_backups,
        not(artifact_among(gone)),
        artifact_turn(),
        ids,
        gone,
        left,
    );
}

/// The keys that a filter leaves, and those that it takes out.
pub proof fn lemma_keys_left<V>(s: Seq<V>, p: spec_fn(V) -> bool, key: spec_fn(V) -> Seq<char>)
    ensures
        forall|id: Seq<char>| #[trigger]
            s.map_values(key).contains(id) && !s.filter(p).map_values(key).contains(id)
                ==> s.filter(not(p)).map_values(key).contains(id),
{
    let keys = s.map_values(key);
    assert forall|id: Seq<char>| #[trigger] keys.contains(id) && !s.filter(p).map_values(
        key,
    ).contains(id) implies s.filter(not(p)).map_values(key).contains(id) by {
        let i = keys.index_of(id);
        let v = s[i];
        assert(s.contains(v));
        lemma_filter_contains(s, p, v);
        lemma_filter_contains(s, not(p), v);
        if p(v) {
            lemma_contains_key(s.filter(p), key, s.filter(p).index_of(v));
        } else {
            lemma_contains_key(s.filter(not(p)), key, s.filter(not(p)).index_of(v));
        }
    }
}

pub proof fn lemma_sessions_changed(
    db: DbModel,
    p: spec_fn(SessionRowModel) -> bool,
    f: spec_fn(SessionRowModel) -> SessionRowModel,
)
    requires
        db.well_formed(),
        forall|r: SessionRowModel|
            p(r) ==> (#[trigger] f(r)).record.session_id == r.record.session_id,
    ensures
        (DbModel { sessions: change_where(db.sessions, p, f), ..db }).well_formed(),
{
    lemma_unique_change(db.sessions, p, f, session_id_of());
}

pub proof fn lemma_turns_changed(
    db: DbModel,
    p: spec_fn(TurnRowModel) -> bool,
    f: spec_fn(TurnRowModel) -> TurnRowModel,
)
    requires
        db.well_formed(),
        forall|r: TurnRowModel| p(r) ==> (#[trigger] f(r)).turn_id == r.turn_id,
    ensures
        (DbModel { turns: change_where(db.turns, p, f), ..db }).well_formed(),
{
    lemma_unique_change(db.turns, p, f, turn_id_of());
}

pub proof fn lemma_tied_push<V>(
    s: Seq<V>,
    v: V,
    to: spec_fn(V) -> Seq<char>,
    ids: Seq<Seq<char>>,
)
    requires
        tied(s, to, ids),
        ids.contains(to(v)),
    ensures
        tied(s.push(v), to, ids),
{
}

pub proof fn lemma_insert_keys<V, K>(s: Seq<V>, v: V, lt: spec_fn(V, V) -> bool, key: spec_fn(V) -> K)
    requires
        unique(s, key),
        !s.map_values(key).contains(key(v)),
    ensures
        unique(insert_ordered(s, v, lt), key),
        forall|k: K| #[trigger]
            insert_ordered(s, v, lt).map_values(key).contains(k) == (s.map_values(key).contains(k)
                || k == key(v)),
    decreases s.len(),
{
    let out = insert_ordered(s, v, lt);
    if s.len() == 0 || !lt(v, s.last()) {
        lemma_unique_push(s, v, key);
        lemma_keys_push(s, v, key);
    } else {
        let rest = s.drop_last();
        assert(rest.push(s.last()) =~= s);
        assert(rest.map_values(key) =~= s.map_values(key).drop_last());
        lemma_keys_push(rest, s.last(), key);
        assert(s.map_values(key).contains(key(s.last())));
        if rest.map_values(key).contains(key(s.last())) {
            let i = rest.map_values(key).index_of(key(s.last()));
            lemma_unique_at(s, key, i, s.len() - 1);
        }
        lemma_insert_keys(rest, v, lt, key);
        lemma_unique_push(insert_ordered(rest, v, lt), s.last(), key);
        lemma_keys_push(insert_ordered(rest, v, lt), s.last(), key);
    }
}

pub proof fn lemma_keys_push<V, K>(s: Seq<V>, v: V, key: spec_fn(V) -> K)
    ensures
        forall|k: K| #[trigger]
            s.push(v).map_values(key).contains(k) == (s.map_values(key).contains(k) || k == key(v)),
{
    let keys = s.map_values(key);
    let more = s.push(v).map_values(key);
    assert forall|k: K| #[trigger] more.contains(k) == (keys.contains(k) || k == key(v)) by {
        if keys.contains(k) {
            assert(more[keys.index_of(k)] == k);
        }
        if k == key(v) {
            assert(more[s.len() as int] == k);
        }
        if more.contains(k) {
            let i = more.index_of(k);
            if i < s.len() {
                assert(keys[i] == k);
            }
        }
    }
}

/// Ordering rows keeps their keys apart.
pub proof fn lemma_unique_ordered<V, K>(s: Seq<V>, lt: spec_fn(V, V) -> bool, key: spec_fn(V) -> K)
    requires
        unique(s, key),
    ensures
        unique(order_by(s, lt), key),
        forall|k: K| #[trigger]
            order_by(s, lt).map_values(key).contains(k) == s.map_values(key).contains(k),
    decreases s.len(),
{
    if s.len() > 0 {
        let rest = s.drop_last();
        assert(rest.push(s.last()) =~= s);
        assert(rest.map_values(key) =~= s.map_values(key).drop_last());
        lemma_unique_ordered(rest, lt, key);
        lemma_keys_push(rest, s.last(), key);
        if rest.map_values(key).contains(key(s.last())) {
            let i = rest.map_values(key).index_of(key(s.last()));
            lemma_unique_at(s, key, i, s.len() - 1);
        }
        lemma_insert_keys(order_by(rest, lt), s.last(), lt, key);
    }
}

/// The items of a session give way to others.
pub proof fn lemma_items_replaced(
    items: Seq<LoadedItemRowModel>,
    session_id: Seq<char>,
    more: Seq<LoadedItemRowModel>,
)
    requires
        unique(items, item_key()),
        unique(more, item_key()),
        forall|i: int| 0 <= i < more.len() ==> (#[trigger] more[i]).session_id == session_id,
    ensures
        unique(items.filter(not(item_of(session_id))) + more, item_key()),
{
    let left = items.filter(not(item_of(session_id)));
    let all = left + more;
    let keys = all.map_values(item_key());
    lemma_unique_filter(items, not(item_of(session_id)), item_key());
    assert forall|i: int, j: int| 0 <= i < j < keys.len() implies keys[i] != keys[j] by {
        if keys[i] == keys[j] {
            if j < left.len() {
                lemma_unique_at(left, item_key(), i, j);
            } else if i >= left.len() {
                lemma_unique_at(more, item_key(), i - left.len(), j - left.len());
            } else {
                assert(left.contains(left[i]));
                lemma_filter_contains(items, not(item_of(session_id)), left[i]);
                assert(more[j - left.len()].session_id == session_id);
            }
        }
    }
}

} // verus!
