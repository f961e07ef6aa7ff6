//! Laws of what is let through: pictures of a library, files of the memory, messages
//! and pictures that pages send, and the sessions that a reset reaches.

use crate::facts::{lemma_filter_contains, lemma_filter_none};
use crate::paths::below;
use crate::state::db::DbModel;
use crate::state::size::{report_size, sum, turn_size};
use crate::state::types::{QueuedPromptAttachmentModel, TurnModel};
use crate::text::{byte_len, trimmed};
use crate::tools::memes::{
    expanded, found, hash_begins, hash_of, in_use, loaded_from, merged, required, LoadedMemeModel,
    MemeItemModel, MemeSource,
};
use crate::tools::memory::{index_line, index_of, MemoryMetaModel, MemoryType, WriteMode};
use crate::tools::memory_tools::{mode_given, MemoryTool};
use crate::web::actor::{active_providers, idle_action, provider_ids, ActorCommandModel, IdleAction};
use crate::web::auth::{mutation_check, AuthModel};
use crate::web::error::ApiErrorModel;
use crate::web::handlers::{answered_early, LoginReplyModel, MAX_PASSWORD_CHARS};
use crate::web::media::{avatar_check, upload_check, ImageKind, MAX_AVATAR_BYTES};
use crate::web::models::{ActiveProviderModelConfigModel, DisplayConfigModel, WebImageInputModel};
use crate::web::requests::{message_check, mode_check, turn_check};
use crate::web::types::{
    as_attachment, base64_decoded, content_check, page_display, readable, AgentMode,
};
use crate::web::util::{access_addresses, LOCALHOST};
use crate::words::stands_at;
use vstd::prelude::*;

verus! {

/// Whether a picture of the user is in use.
pub open spec fn owned(
    user: Seq<MemeItemModel>,
    disabled: Seq<Seq<char>>,
    hash: Seq<char>,
) -> bool {
    !disabled.contains(hash) && exists|i: int|
        0 <= i < user.len() && (#[trigger] user[i]).hash == hash
}

/// A library holds every picture of the user that is not disabled, and every one that
/// comes with the program, is not disabled and is not the user's own, each where it
/// lies.
pub proof fn law_library_holds_what_is_in_use(
    user: Seq<MemeItemModel>,
    user_dir: Seq<char>,
    builtin: Seq<MemeItemModel>,
    builtin_dir: Seq<char>,
    disabled: Seq<Seq<char>>,
    item: MemeItemModel,
    path: Seq<char>,
)
    ensures
        ({
            let all = merged(user, user_dir, builtin, builtin_dir, disabled);
            &&& all.contains((LoadedMemeModel { item, path, source: MemeSource::User }))
                <==> user.contains(item) && !disabled.contains(item.hash) && path == below(
                user_dir,
                item.file,
            )
            &&& all.contains((LoadedMemeModel { item, path, source: MemeSource::Builtin }))
                <==> builtin.contains(item) && !disabled.contains(item.hash) && !owned(
                user,
                disabled,
                item.hash,
            ) && path == below(builtin_dir, item.file)
        }),
{
    let p = in_use(disabled);
    let own = user.filter(p);
    let hashes = own.map_values(hash_of());
    let q = in_use(disabled + hashes);
    let rest = builtin.filter(q);
    let first_part = own.map_values(loaded_from(user_dir, MemeSource::User));
    let second_part = rest.map_values(loaded_from(builtin_dir, MemeSource::Builtin));
    let all = merged(user, user_dir, builtin, builtin_dir, disabled);
    lemma_filter_contains(user, p, item);
    lemma_filter_contains(builtin, q, item);
    assert((disabled + hashes).contains(item.hash) <==> disabled.contains(item.hash)
        || hashes.contains(item.hash)) by {
        if disabled.contains(item.hash) {
            let k = disabled.index_of(item.hash);
            assert((disabled + hashes)[k] == item.hash);
        }
        if hashes.contains(item.hash) {
            let k = hashes.index_of(item.hash);
            assert((disabled + hashes)[disabled.len() + k] == item.hash);
        }
        if (disabled + hashes).contains(item.hash) {
            let k = (disabled + hashes).index_of(item.hash);
            if k < disabled.len() {
                assert(disabled[k] == item.hash);
            } else {
                assert(hashes[k - disabled.len()] == item.hash);
            }
        }
    }
    if hashes.contains(item.hash) {
        let k = hashes.index_of(item.hash);
        assert(own.contains(own[k]));
        lemma_filter_contains(user, p, own[k]);
        let i = user.index_of(own[k]);
        assert(user[i].hash == item.hash);
    }
    if owned(user, disabled, item.hash) {
        let i = choose|i: int| 0 <= i < user.len() && (#[trigger] user[i]).hash == item.hash;
        assert(user.contains(user[i]));
        lemma_filter_contains(user, p, user[i]);
        let k = own.index_of(user[i]);
        assert(hashes[k] == item.hash);
    }
    let mine = LoadedMemeModel { item, path, source: MemeSource::User };
    let theirs = LoadedMemeModel { item, path, source: MemeSource::Builtin };
    if all.contains(mine) {
        let k = all.index_of(mine);
        if k < first_part.len() {
            assert(first_part[k] == mine);
            assert(own[k] == item);
        } else {
            assert(second_part[k - first_part.len()] == mine);
        }
    }
    if own.contains(item) && path == below(user_dir, item.file) {
        let k = own.index_of(item);
        assert(all[k] == mine);
    }
    if all.contains(theirs) {
        let k = all.index_of(theirs);
        if k < first_part.len() {
            assert(first_part[k] == theirs);
        } else {
            assert(second_part[k - first_part.len()] == theirs);
            assert(rest[k - first_part.len()] == item);
        }
    }
    if rest.contains(item) && path == below(builtin_dir, item.file) {
        let k = rest.index_of(item);
        assert(all[first_part.len() + k] == theirs);
    }
}

/// A picture is found by how its hash begins, if no other begins so; where several do,
/// none is found, and an error says so.
pub proof fn law_picture_is_found_by_its_hash(
    memes: Seq<LoadedMemeModel>,
    requested: Seq<char>,
    full: bool,
    min_len: usize,
    i: int,
    j: int,
)
    requires
        byte_len(requested) > 0,
        full || byte_len(requested) >= min_len,
        0 <= i < memes.len(),
        requested.is_prefix_of(memes[i].item.hash),
    ensures
        (forall|k: int|
            0 <= k < memes.len() && k != i ==> !requested.is_prefix_of(
                (#[trigger] memes[k]).item.hash,
            )) ==> found(memes, requested, full, min_len) == Ok::<
            Option<LoadedMemeModel>,
            Seq<char>,
        >(Some(memes[i])),
        0 <= j < memes.len() && j != i && requested.is_prefix_of(memes[j].item.hash) ==> found(
            memes,
            requested,
            full,
            min_len,
        ) is Err,
{
    let p = hash_begins(requested);
    lemma_matches(memes, p, i);
    if forall|k: int|
        0 <= k < memes.len() && k != i ==> !requested.is_prefix_of(
            (#[trigger] memes[k]).item.hash,
        ) {
        assert forall|k: int| 0 <= k < memes.len() && k != i implies !p(#[trigger] memes[k]) by {}
        lemma_only_match(memes, p, i);
    }
    if 0 <= j < memes.len() && j != i && p(memes[j]) {
        if i < j {
            lemma_two_match(memes, p, i, j);
        } else {
            lemma_two_match(memes, p, j, i);
        }
    }
}

proof fn lemma_matches(s: Seq<LoadedMemeModel>, p: spec_fn(LoadedMemeModel) -> bool, i: int)
    requires
        0 <= i < s.len(),
        p(s[i]),
    ensures
        s.filter(p).len() > 0,
{
    assert(s.contains(s[i]));
    lemma_filter_contains(s, p, s[i]);
}

proof fn lemma_only_match(s: Seq<LoadedMemeModel>, p: spec_fn(LoadedMemeModel) -> bool, i: int)
    requires
        0 <= i < s.len(),
        p(s[i]),
        forall|k: int| 0 <= k < s.len() && k != i ==> !p(#[trigger] s[k]),
    ensures
        s.filter(p) == seq![s[i]],
    decreases s.len(),
{
    reveal(Seq::filter);
    let rest = s.drop_last();
    if i < s.len() - 1 {
        assert(rest[i] == s[i]);
        assert(!p(s[s.len() - 1]));
        assert forall|k: int| 0 <= k < rest.len() && k != i implies !p(#[trigger] rest[k]) by {
            assert(rest[k] == s[k]);
        }
        lemma_only_match(rest, p, i);
    } else {
        assert forall|k: int| 0 <= k < rest.len() implies !p(#[trigger] rest[k]) by {
            assert(rest[k] == s[k]);
        }
        lemma_filter_none(rest, p);
        assert(s.filter(p) =~= seq![s[i]]);
    }
}

proof fn lemma_two_match(s: Seq<LoadedMemeModel>, p: spec_fn(LoadedMemeModel) -> bool, i: int, j: int)
    requires
        0 <= i < j < s.len(),
        p(s[i]),
        p(s[j]),
    ensures
        s.filter(p).len() > 1,
    decreases s.len(),
{
    reveal(Seq::filter);
    let rest = s.drop_last();
    assert(rest[i] == s[i]);
    if j < s.len() - 1 {
        assert(rest[j] == s[j]);
        lemma_two_match(rest, p, i, j);
    } else {
        lemma_matches(rest, p, i);
    }
}

/// A path that was written down lies below the home directory where it says so, where
/// it says where it is absolute, and else below the directory at work.
pub proof fn law_written_paths_are_expanded(
    rest: Seq<char>,
    home: Seq<char>,
    workdir: Seq<char>,
    value: Seq<char>,
)
    ensures
        trimmed(value) == "~/"@ + rest ==> expanded(value, Some(home), workdir) == below(
            home,
            rest,
        ),
        "/"@.is_prefix_of(trimmed(value)) ==> expanded(value, Some(home), workdir) == trimmed(
            value,
        ) && expanded(value, None, workdir) == trimmed(value),
        !"/"@.is_prefix_of(trimmed(value)) ==> expanded(value, None, workdir) == below(
            workdir,
            trimmed(value),
        ),
{
    reveal_strlit("~/");
    reveal_strlit("/");
    let path = trimmed(value);
    if path == "~/"@ + rest {
        assert("~/"@ =~= path.subrange(0, 2));
        assert(path.skip(2) =~= rest);
    }
    if "/"@.is_prefix_of(path) {
        assert("/"@[0] == path.subrange(0, 1)[0]);
        if "~/"@.is_prefix_of(path) {
            assert("~/"@[0] == path.subrange(0, 2)[0]);
        }
    }
}

/// What a call must say is taken trimmed, and is missed where it is blank.
pub proof fn law_what_must_be_said(value: Option<Seq<char>>, key: Seq<char>)
    ensures
        required(value, key) is Ok <==> (value matches Some(text) && trimmed(text).len() > 0),
        required(value, key) matches Ok(said) ==> (value matches Some(text) && said == trimmed(
            text,
        )),
{
}

/// The index of the memory tells of every shard what it is called, of what type it is,
/// and what it is about, in one line.
pub proof fn law_index_tells_every_shard(metas: Seq<MemoryMetaModel>, n: nat, i: int)
    requires
        0 <= i < n <= metas.len(),
    ensures
        exists|at: int| #[trigger]
            stands_at(
                index_of(metas, n),
                at,
                "- ["@ + metas[i].title + "] ("@ + metas[i].memory_type.word() + ") - "@
                    + metas[i].description + "\n"@,
            ),
    decreases n,
{
    let line = index_line(metas[i]);
    let before = index_of(metas, (n - 1) as nat);
    let all = index_of(metas, n);
    if i < n - 1 {
        law_index_tells_every_shard(metas, (n - 1) as nat, i);
        let at = choose|at: int| #[trigger] stands_at(before, at, line);
        assert(all.subrange(at, at + line.len()) =~= before.subrange(at, at + line.len()));
        assert(stands_at(all, at, line));
    } else {
        assert(all.subrange(before.len() as int, before.len() as int + line.len()) =~= line);
        assert(stands_at(all, before.len() as int, line));
    }
}

/// A type is known by its word, and no two have one; so are the tools of the memory.
pub proof fn law_words_of_the_memory(a: MemoryType, b: MemoryType, s: MemoryTool, t: MemoryTool)
    ensures
        MemoryType::of_word(a.word()) == Some(a),
        a.word() == b.word() ==> a == b,
        s.writes() <==> s == MemoryTool::Write || s == MemoryTool::Delete,
        MemoryTool::all().contains(s),
        mode_given(Some(Some("create"@))) == WriteMode::Create,
        mode_given(Some(Some("update"@))) == WriteMode::Update,
        mode_given(Some(Some("append"@))) == WriteMode::Append,
        mode_given(None) == WriteMode::Create,
{
    reveal_strlit("user");
    reveal_strlit("feedback");
    reveal_strlit("project");
    reveal_strlit("reference");
    reveal_strlit("create");
    reveal_strlit("update");
    reveal_strlit("append");
    assert("user"@.len() == 4);
    assert("feedback"@.len() == 8);
    assert("project"@.len() == 7);
    assert("reference"@.len() == 9);
    assert("update"@[0] == 'u');
    assert("append"@[0] == 'a');
    assert("create"@[0] == 'c');
    let all = MemoryTool::all();
    assert(all[0] == MemoryTool::List);
    assert(all[1] == MemoryTool::Read);
    assert(all[2] == MemoryTool::Write);
    assert(all[3] == MemoryTool::Delete);
    assert(all[4] == MemoryTool::Search);
    assert(all[5] == MemoryTool::Index);
}

/// What a page asks for is done only if it may change anything; then its message and
/// its mode are taken as they are from anyone.
pub proof fn law_message_needs_the_right_page(
    auth: AuthModel,
    cookies: Seq<Option<Seq<char>>>,
    origins: Seq<Option<Seq<char>>>,
    host: Option<Seq<char>>,
    content: Seq<char>,
    mode: AgentMode,
)
    ensures
        mutation_check(auth, cookies, origins, host) is Err ==> turn_check(
            auth,
            cookies,
            origins,
            host,
            content,
            mode.word(),
        ) is Err,
        mutation_check(auth, cookies, origins, host) is Ok && content_check(content) is Ok ==> (
        turn_check(auth, cookies, origins, host, content, mode.word()) matches Ok(request)
            && request.content == trimmed(content) && request.mode == mode),
        content_check(content) is Err ==> message_check(content, mode.word()) is Err,
{
    lemma_modes(mode);
}

/// The word of a mode stands for it.
proof fn lemma_modes(mode: AgentMode)
    ensures
        mode_check(mode.word()) == Ok::<AgentMode, ApiErrorModel>(mode),
{
    reveal_strlit("normal");
    reveal_strlit("plan");
    reveal_strlit("chat");
    assert("normal"@[0] == 'n');
    assert("plan"@[0] == 'p');
    assert("chat"@[0] == 'c');
}

/// The password of a page is looked at only where the page may log in, one is asked
/// for, and it is not too long; a page that need not log in goes on as it is.
pub proof fn law_when_a_password_is_looked_at(allowed: bool, required: bool, chars: nat)
    ensures
        answered_early(allowed, required, chars) is None <==> allowed && required && chars
            <= MAX_PASSWORD_CHARS,
        allowed && !required ==> answered_early(allowed, required, chars) == Some(
            LoginReplyModel::NotNeeded,
        ),
        !allowed ==> (answered_early(allowed, required, chars) matches Some(reply)
            && reply is Refused),
{
}

/// A picture of a persona is shown if it is not too large and is in a known format; it
/// is taken, under its digest and the ending of its format, if it also holds anything.
pub proof fn law_which_pictures_are_taken(
    length: nat,
    limit: nat,
    kind: Option<ImageKind>,
    hash: Seq<char>,
)
    ensures
        avatar_check(length, kind) is Ok <==> length <= MAX_AVATAR_BYTES && (kind matches Some(k)
            && k != ImageKind::Other),
        upload_check(length, limit, kind, hash) is Ok <==> 0 < length <= limit && (
        kind matches Some(k) && k != ImageKind::Other),
        upload_check(length, limit, kind, hash) matches Ok(name) ==> (hash + "."@).is_prefix_of(
            name,
        ),
        kind == Some(ImageKind::Png) && 0 < length <= limit ==> upload_check(
            length,
            limit,
            kind,
            hash,
        ) == Ok::<Seq<char>, ApiErrorModel>(hash + "."@ + "png"@),
        kind == Some(ImageKind::Png) && length <= MAX_AVATAR_BYTES ==> avatar_check(length, kind)
            == Ok::<Seq<char>, ApiErrorModel>("image/png"@),
{
    if let Ok(name) = upload_check(length, limit, kind, hash) {
        assert(name.take((hash + "."@).len() as int) =~= hash + "."@);
    }
}

/// Whether a picture that waits is one that came and can be read, as it came.
pub open spec fn came_readable(
    images: Seq<WebImageInputModel>,
    kept: QueuedPromptAttachmentModel,
) -> bool {
    exists|j: int|
        0 <= j < images.len() && base64_decoded((#[trigger] images[j]).data_base64) is Some && kept
            == (QueuedPromptAttachmentModel::Binary {
            mime: images[j].mime,
            data_base64: images[j].data_base64,
        })
}

/// The pictures that wait with a message are those that can be read, with their type
/// and their bytes as they came.
pub proof fn law_readable_pictures_wait(
    images: Seq<WebImageInputModel>,
    picture: QueuedPromptAttachmentModel,
)
    ensures
        images.filter(readable()).map_values(as_attachment()).contains(picture) <==> came_readable(
            images,
            picture,
        ),
{
    let p = readable();
    let some = images.filter(p);
    let kept = some.map_values(as_attachment());
    if kept.contains(picture) {
        let k = kept.index_of(picture);
        assert(kept[k] == as_attachment()(some[k]));
        assert(some.contains(some[k]));
        lemma_filter_contains(images, p, some[k]);
        let j = images.index_of(some[k]);
        assert(base64_decoded(images[j].data_base64) is Some);
    }
    if came_readable(images, picture) {
        let j = choose|j: int|
            0 <= j < images.len() && base64_decoded((#[trigger] images[j]).data_base64) is Some
                && picture == (QueuedPromptAttachmentModel::Binary {
                mime: images[j].mime,
                data_base64: images[j].data_base64,
            });
        assert(images.contains(images[j]));
        lemma_filter_contains(images, p, images[j]);
        let k = some.index_of(images[j]);
        assert(kept[k] == picture);
    }
}

/// The conversation is made shorter before models are chosen that bring another
/// provider, and only then.
pub proof fn law_other_providers_start_shorter(
    models: Seq<ActiveProviderModelConfigModel>,
    active: Option<Seq<ActiveProviderModelConfigModel>>,
    provider: Seq<char>,
    i: int,
)
    ensures
        active is None && 0 <= i < models.len() && models[i].provider_id != provider
            ==> idle_action(
            Some((ActorCommandModel::SetModels { models })),
            active,
            provider,
        ) == IdleAction::CompactThenSetModels,
        active is None && models.len() > 0 && (forall|j: int|
            0 <= j < models.len() ==> (#[trigger] models[j]).provider_id == provider)
            ==> idle_action(
            Some((ActorCommandModel::SetModels { models })),
            active,
            provider,
        ) == IdleAction::SetModels,
        active == Some(models) ==> idle_action(
            Some((ActorCommandModel::SetModels { models })),
            active,
            provider,
        ) == IdleAction::SetModels,
{
    let ids = provider_ids(models);
    let used = active_providers(active, provider);
    if active is None && 0 <= i < models.len() && models[i].provider_id != provider {
        assert(ids.contains(models[i].provider_id));
        assert(!used.contains(models[i].provider_id));
    }
    if active is None && models.len() > 0 && forall|j: int|
        0 <= j < models.len() ==> (#[trigger] models[j]).provider_id == provider {
        assert(models[0].provider_id == provider);
        assert(ids =~= used);
    }
}

/// The model behind a reply is named only where several take turns and it is asked
/// for.
pub proof fn law_when_the_model_is_named(display: DisplayConfigModel, models: usize)
    ensures
        models <= 1 ==> !page_display(display, models).show_mixed_model_endpoint,
        models > 1 ==> (page_display(display, models).show_mixed_model_endpoint <==> (
        display.mixed_model_endpoint_display == "interactive"@
            || display.mixed_model_endpoint_display == "all"@)),
        page_display(display, models).reasoning == display.reasoning,
        page_display(display, models).tool_calls == display.tool_calls,
        page_display(display, models).readable_tool_names == display.readable_tool_names,
        page_display(display, models).command_output_lines == display.command_output_lines,
{
}

/// The pages are reached at the machine itself, and from outside only where that was
/// asked for, at every address that the machine has.
pub proof fn law_where_the_pages_are_reached(lan: Seq<u32>, address: u32)
    ensures
        access_addresses(lan, false).contains(LOCALHOST),
        access_addresses(lan, true).contains(LOCALHOST),
        access_addresses(lan, false).contains(address) ==> address == LOCALHOST,
        lan.contains(address) && address != 0 ==> access_addresses(lan, true).contains(address),
        !lan.contains(address) && address != LOCALHOST ==> !access_addresses(lan, true).contains(
            address,
        ),
{
}

/// A reset of a persona reaches its local sessions of a user, what they began and what
/// that began; it does not reach a session of a user on another platform, or one of
/// another persona.
pub proof fn law_reset_reaches_what_descends(
    db: DbModel,
    persona: Seq<char>,
    platform: Seq<char>,
    i: int,
    depth: nat,
)
    requires
        0 <= i < db.sessions.len(),
    ensures
        ({
            let record = db.sessions[i].record;
            &&& record.persona == persona && record.kind == "user"@ && !db.is_platform_session(
                record.session_id,
            ) ==> db.in_reset(persona, platform, record.session_id)
            &&& record.persona == persona && (record.parent_session_id matches Some(parent)
                && db.in_reset(persona, platform, parent)) ==> db.in_reset(
                persona,
                platform,
                record.session_id,
            )
            &&& db.in_reset(persona, platform, record.session_id) ==> exists|j: int|
                0 <= j < db.sessions.len() && (
                #[trigger] db.sessions[j]).record.session_id == record.session_id
                    && db.sessions[j].record.persona == persona
        }),
{
    let record = db.sessions[i].record;
    let id = record.session_id;
    if record.persona == persona && record.kind == "user"@ && !db.is_platform_session(id) {
        assert(db.reset_root(persona, platform, db.sessions[i]));
        assert(db.reset_target(persona, platform, id, 0));
    }
    if record.persona == persona && (record.parent_session_id matches Some(parent) && db.in_reset(
        persona,
        platform,
        parent,
    )) {
        let parent = record.parent_session_id->0;
        let steps = choose|steps: nat| db.reset_target(persona, platform, parent, steps);
        assert(db.reset_target(persona, platform, id, steps + 1));
    }
    if db.in_reset(persona, platform, id) {
        let steps = choose|steps: nat| db.reset_target(persona, platform, id, steps);
        assert(db.reset_target(persona, platform, id, steps));
    }
}

/// A turn that says more is as much larger, wherever it says it.
pub proof fn law_size_counts_every_part(turn: TurnModel, more: Seq<char>)
    ensures
        turn_size()((TurnModel { user_content: turn.user_content + more, ..turn }))
            == turn_size()(turn) + more.len(),
        turn_size()((TurnModel { assistant_content: turn.assistant_content + more, ..turn }))
            == turn_size()(turn) + more.len(),
        turn.assistant_reasoning is None ==> turn_size()(
            (TurnModel { assistant_reasoning: Some(more), ..turn }),
        ) == turn_size()(turn) + more.len(),
        turn_size()((TurnModel { tool_reports: turn.tool_reports.push(more), ..turn }))
            == turn_size()(turn) + more.len(),
{
    let reports = turn.tool_reports.push(more);
    assert(reports.drop_last() =~= turn.tool_reports);
    assert(sum(reports, report_size()) == sum(turn.tool_reports, report_size()) + more.len());
}

} // verus!
