//! Laws of the documents that personas are written in, and of the sessions that pages
//! and terminals work with.

use crate::facts::{lemma_filter_contains, lemma_first, lemma_order_contains};
use crate::laws::listed::lemma_text_order;
use crate::laws::texts::{law_trimming_takes_white_ends, lemma_blank, lemma_leading, lemma_trailing};
use crate::state::db::DbModel;
use crate::state::store::{SharedModel, StoreModel};
use crate::state::types::{RunningTurnQueueTargetModel, SessionOverviewModel, SessionRecordModel};
use crate::table::{any, first, lemma_order_by_in_order, order_by, orders};
use crate::text::{control, precedes, trimmed, white};
use crate::web::handlers::fit_id;
use crate::web::manager::ManagerModel;
use crate::web::models::{PromptDocumentModel, PromptDocumentsModel};
use crate::web::prompts::{
    by_first, by_name, canonical, content_of, document_check, document_named, documents_check,
    file_text, fit_name, is_document, name_of, original_names, prompts_check, read_as, represents,
    scope_changes, separates_path,
};
use crate::web::requests::{session_edits, target_of, waiting, withdrawn, SessionEditModel};
use crate::web::sessions::{later, listed, meant, page_session, SessionRefModel, DEV_PERSONA};
use crate::web::types::is_control_fn;
use crate::web::util::{MAX_PROMPT_DOCUMENTS, MAX_PROMPT_DOCUMENT_CHARS};
use crate::words::{is_char, some_char};
use vstd::prelude::*;

verus! {

/// Whether the first `n` documents each have a fit name and content, and none has the
/// name of another, now or before.
pub open spec fn stand_together(documents: Seq<PromptDocumentModel>, n: int) -> bool {
    &&& forall|i: int|
        0 <= i < n ==> {
            let d = #[trigger] documents[i];
            &&& fit_name(d.name)
            &&& d.content.len() <= MAX_PROMPT_DOCUMENT_CHARS
            &&& !d.content.contains('\0')
            &&& d.original_name matches Some(name) ==> fit_name(name)
        }
    &&& forall|i: int, j: int|
        0 <= i < j < n ==> {
            let a = #[trigger] documents[i];
            let b = #[trigger] documents[j];
            &&& a.name != b.name
            &&& a.original_name is Some ==> a.original_name != b.original_name
        }
}

proof fn lemma_originals(documents: Seq<PromptDocumentModel>, n: nat, name: Seq<char>)
    requires
        n <= documents.len(),
    ensures
        original_names(documents, n).contains(name) <==> exists|i: int|
            0 <= i < n && (#[trigger] documents[i]).original_name == Some(name),
    decreases n,
{
    if n > 0 {
        lemma_originals(documents, (n - 1) as nat, name);
        let before = original_names(documents, (n - 1) as nat);
        let all = original_names(documents, n);
        if before.contains(name) {
            let k = before.index_of(name);
            assert(all[k] == name);
        }
        if documents[n - 1].original_name == Some(name) {
            assert(all[before.len() as int] == name);
        }
        if all.contains(name) && !before.contains(name) {
            let k = all.index_of(name);
            if k < before.len() {
                assert(before[k] == name);
            }
        }
    }
}

proof fn lemma_stand_together(documents: Seq<PromptDocumentModel>, kind: Seq<char>, n: nat)
    requires
        n <= documents.len(),
    ensures
        documents_check(documents, kind, n) is Ok <==> stand_together(documents, n as int),
    decreases n,
{
    if n > 0 {
        lemma_stand_together(documents, kind, (n - 1) as nat);
        let d = documents[n - 1];
        let names = documents.take(n - 1).map_values(name_of());
        let p = is_char('\0');
        if some_char(d.content, p) {
            let k = choose|k: int| 0 <= k < d.content.len() && p(#[trigger] d.content[k]);
            assert(d.content[k] == '\0');
        } else if d.content.contains('\0') {
            let k = d.content.index_of('\0');
            assert(p(d.content[k]));
        }
        if names.contains(d.name) {
            let k = names.index_of(d.name);
            assert(documents[k].name == d.name);
        } else {
            assert forall|i: int| 0 <= i < n - 1 implies (#[trigger] documents[i]).name != d.name by {
                assert(names[i] == documents[i].name);
            }
        }
        if let Some(name) = d.original_name {
            lemma_originals(documents, (n - 1) as nat, name);
        }
        let checked = document_check(
            d,
            names,
            original_names(documents, (n - 1) as nat),
            kind,
        );
        if documents_check(documents, kind, (n - 1) as nat) is Ok && checked is Ok {
            assert forall|i: int, j: int| 0 <= i < j < n implies {
                let a = #[trigger] documents[i];
                let b = #[trigger] documents[j];
                &&& a.name != b.name
                &&& a.original_name is Some ==> a.original_name != b.original_name
            } by {}
        }
        if stand_together(documents, n as int) {
            assert(stand_together(documents, n - 1));
            if let Some(name) = d.original_name {
                if original_names(documents, (n - 1) as nat).contains(name) {
                    let i = choose|i: int|
                        0 <= i < n - 1 && (#[trigger] documents[i]).original_name == Some(name);
                    assert(documents[i].original_name != documents[n - 1].original_name);
                }
            }
        }
    }
}

/// Documents are kept if there are not too many, each is fit, none has the name of
/// another, and those that are in use are among them; no others are.
pub proof fn law_which_documents_are_kept(
    personas: Seq<PromptDocumentModel>,
    identities: Seq<PromptDocumentModel>,
    persona: Seq<char>,
    identity: Seq<char>,
    prompts: PromptDocumentsModel,
)
    requires
        prompts.personas == personas,
        prompts.identities == identities,
    ensures
        prompts_check(persona, identity, prompts) is Ok <==> {
            &&& personas.len() <= MAX_PROMPT_DOCUMENTS
            &&& identities.len() <= MAX_PROMPT_DOCUMENTS
            &&& stand_together(personas, personas.len() as int)
            &&& stand_together(identities, identities.len() as int)
            &&& trimmed(persona).len() > 0 ==> exists|i: int|
                0 <= i < personas.len() && (#[trigger] personas[i]).name == persona
            &&& trimmed(identity).len() > 0 ==> exists|i: int|
                0 <= i < identities.len() && (#[trigger] identities[i]).name == identity
        },
{
    lemma_stand_together(personas, "persona"@, personas.len());
    lemma_stand_together(identities, "identity"@, identities.len());
    lemma_named(personas, persona);
    lemma_named(identities, identity);
}

proof fn lemma_named(documents: Seq<PromptDocumentModel>, name: Seq<char>)
    ensures
        any(documents, document_named(name)) <==> exists|i: int|
            0 <= i < documents.len() && (#[trigger] documents[i]).name == name,
{
    let p = document_named(name);
    if any(documents, p) {
        let i = choose|i: int| 0 <= i < documents.len() && p(#[trigger] documents[i]);
        assert(documents[i].name == name);
    }
    if exists|i: int| 0 <= i < documents.len() && (#[trigger] documents[i]).name == name {
        let i = choose|i: int| 0 <= i < documents.len() && (#[trigger] documents[i]).name == name;
        assert(p(documents[i]));
    }
}

/// The name of a document leads to no other directory, and shows what it is.
pub proof fn law_name_stays_in_its_directory(name: Seq<char>, i: int)
    requires
        fit_name(name),
        0 <= i < name.len(),
    ensures
        name[i] != '/' && name[i] != '\\' && !control(name[i]),
        name[0] != '.',
        ".md"@.is_suffix_of(name),
{
    assert(!separates_path()(name[i]));
    assert(!is_control_fn()(name[i]));
    reveal_strlit(".");
    if name[0] == '.' {
        assert("."@ =~= name.subrange(0, 1));
        assert("."@.is_prefix_of(name));
    }
}

/// The documents of a directory are read from the files with the right ending, each
/// under its name and with what the file holds, in the order of their names.
pub proof fn law_documents_are_read(files: Seq<(Seq<char>, Seq<char>)>, document: PromptDocumentModel)
    ensures
        ({
            let read = order_by(files.filter(is_document()).map_values(read_as()), by_name());
            &&& read.contains(document) <==> exists|i: int|
                0 <= i < files.len() && (#[trigger] files[i]).0 == document.name && files[i].1
                    == document.content && document.original_name == Some(document.name)
                    && ".md"@.is_suffix_of(document.name)
            &&& forall|i: int, j: int|
                0 <= i < j < read.len() ==> !precedes(
                    (#[trigger] read[j]).name,
                    (#[trigger] read[i]).name,
                )
        }),
{
    let p = is_document();
    let kept = files.filter(p);
    let all = kept.map_values(read_as());
    let lt = by_name();
    assert(orders(lt)) by {
        assert forall|a: PromptDocumentModel, b: PromptDocumentModel| #[trigger]
            lt(a, b) implies !lt(b, a) by {
            lemma_text_order(a.name, b.name, b.name);
        }
        assert forall|a: PromptDocumentModel, b: PromptDocumentModel, c: PromptDocumentModel|
            !(#[trigger] lt(b, a)) && !(#[trigger] lt(c, b)) implies !lt(c, a) by {
            lemma_text_order(a.name, b.name, c.name);
        }
    }
    lemma_order_by_in_order(all, lt);
    lemma_order_contains(all, lt, document);
    let read = order_by(all, lt);
    assert forall|i: int, j: int| 0 <= i < j < read.len() implies !precedes(
        (#[trigger] read[j]).name,
        (#[trigger] read[i]).name,
    ) by {
        assert(!lt(read[j], read[i]));
    }
    if all.contains(document) {
        let k = all.index_of(document);
        assert(read_as()(kept[k]) == document);
        assert(kept.contains(kept[k]));
        lemma_filter_contains(files, p, kept[k]);
        let i = files.index_of(kept[k]);
        assert(files[i].0 == document.name);
    }
    if exists|i: int|
        0 <= i < files.len() && (#[trigger] files[i]).0 == document.name && files[i].1
            == document.content && document.original_name == Some(document.name)
            && ".md"@.is_suffix_of(document.name) {
        let i = choose|i: int|
            0 <= i < files.len() && (#[trigger] files[i]).0 == document.name && files[i].1
                == document.content && document.original_name == Some(document.name)
                && ".md"@.is_suffix_of(document.name);
        assert(files.contains(files[i]));
        lemma_filter_contains(files, p, files[i]);
        let k = kept.index_of(files[i]);
        assert(all[k] == document);
    }
}

/// Documents are compared by their names and by what they hold.
pub proof fn law_documents_are_compared_by_content(
    documents: Seq<PromptDocumentModel>,
    name: Seq<char>,
    content: Seq<char>,
)
    ensures
        canonical(documents).contains((name, content)) <==> exists|i: int|
            0 <= i < documents.len() && (#[trigger] documents[i]).name == name
                && documents[i].content == content,
{
    let all = documents.map_values(content_of());
    lemma_order_contains(all, by_first(), (name, content));
    if all.contains((name, content)) {
        let i = all.index_of((name, content));
        assert(documents[i].name == name);
    }
    if exists|i: int|
        0 <= i < documents.len() && (#[trigger] documents[i]).name == name && documents[i].content
            == content {
        let i = choose|i: int|
            0 <= i < documents.len() && (#[trigger] documents[i]).name == name
                && documents[i].content == content;
        assert(all[i] == (name, content));
    }
}

/// Whether the document that was called `old` is called `new` among `next`.
pub open spec fn became(
    next: Seq<PromptDocumentModel>,
    old_name: Seq<char>,
    new_name: Seq<char>,
) -> bool {
    exists|j: int|
        0 <= j < next.len() && (#[trigger] next[j]).name == new_name && next[j].original_name
            == Some(old_name)
}

/// Whether no document among `next` is what became of the one called `name`.
pub open spec fn is_gone(next: Seq<PromptDocumentModel>, name: Seq<char>) -> bool {
    forall|j: int|
        0 <= j < next.len() ==> (#[trigger] next[j]).original_name != Some(name) && (
        next[j].original_name is None ==> next[j].name != name)
}

/// What belongs to a persona moves where the persona has another name now, and is
/// given up where the persona is gone; where it keeps its name nothing moves.
pub proof fn law_what_moves_with_a_persona(
    current: Seq<PromptDocumentModel>,
    next: Seq<PromptDocumentModel>,
    n: nat,
    old_name: Seq<char>,
    new_name: Seq<char>,
    i: int,
)
    requires
        0 <= i < n <= current.len(),
        current[i].name == old_name,
    ensures
        scope_changes(current, next, n).contains((old_name, None)) <==> is_gone(next, old_name),
        scope_changes(current, next, n).contains((old_name, Some(new_name))) ==> new_name
            != old_name && became(next, old_name, new_name),
        (forall|j: int, k: int|
            0 <= j < k < next.len() && (#[trigger] next[j]).original_name is Some
                ==> next[j].original_name != (#[trigger] next[k]).original_name) && (forall|j: int|
            0 <= j < next.len() && (#[trigger] next[j]).original_name is None ==> next[j].name
                != old_name) && new_name != old_name && became(next, old_name, new_name)
            ==> scope_changes(current, next, n).contains((old_name, Some(new_name))),
    decreases n,
{
    let p = represents(old_name);
    lemma_first(next, p);
    let found = first(next, p);
    lemma_changes(current, next, n, old_name, None);
    lemma_changes(current, next, n, old_name, Some(new_name));
    if found is Some {
        let j = next.index_of(found->0);
        assert(p(next[j]));
        if next[j].original_name == Some(old_name) && next[j].name == new_name {
            assert(became(next, old_name, new_name));
        }
    }
    if is_gone(next, old_name) && any(next, p) {
        let j = choose|j: int| 0 <= j < next.len() && p(#[trigger] next[j]);
        assert(false);
    }
    if !any(next, p) {
        assert forall|j: int| 0 <= j < next.len() implies (#[trigger] next[j]).original_name
            != Some(old_name) && (next[j].original_name is None ==> next[j].name != old_name) by {
            assert(!p(next[j]));
        }
    }
    if became(next, old_name, new_name) {
        let j = choose|j: int|
            0 <= j < next.len() && (#[trigger] next[j]).name == new_name && next[j].original_name
                == Some(old_name);
        assert(p(next[j]));
        assert(found is Some);
        let k = next.index_of(found->0);
        assert(next[k] == found->0);
        assert(p(next[k]));
        if (forall|a: int, b: int|
            0 <= a < b < next.len() && (#[trigger] next[a]).original_name is Some
                ==> next[a].original_name != (#[trigger] next[b]).original_name) && (forall|a: int|
            0 <= a < next.len() && (#[trigger] next[a]).original_name is None ==> next[a].name
                != old_name) {
            assert(next[k].original_name == Some(old_name));
            if j < k {
                assert(next[j].original_name != next[k].original_name);
            } else if k < j {
                assert(next[k].original_name != next[j].original_name);
            }
            assert(found->0 == next[j]);
        }
    }
}

proof fn lemma_changes(
    current: Seq<PromptDocumentModel>,
    next: Seq<PromptDocumentModel>,
    n: nat,
    name: Seq<char>,
    to: Option<Seq<char>>,
)
    requires
        n <= current.len(),
    ensures
        scope_changes(current, next, n).contains((name, to)) <==> (exists|i: int|
            0 <= i < n && (#[trigger] current[i]).name == name) && (match first(
            next,
            represents(name),
        ) {
            Some(document) => document.name != name && to == Some(document.name),
            None => to is None,
        }),
    decreases n,
{
    if n > 0 {
        lemma_changes(current, next, (n - 1) as nat, name, to);
        let before = scope_changes(current, next, (n - 1) as nat);
        let all = scope_changes(current, next, n);
        if before.contains((name, to)) {
            let k = before.index_of((name, to));
            assert(all[k] == (name, to));
        }
        if all.contains((name, to)) && !before.contains((name, to)) {
            let k = all.index_of((name, to));
            if k < before.len() {
                assert(before[k] == (name, to));
            }
            assert(current[n - 1].name == name);
        }
        if current[n - 1].name == name && all.len() == before.len() + 1 {
            assert(all.last() == all[before.len() as int]);
        }
    }
}

/// The file of a document holds its text, without white space at the end but for one
/// end of line; a blank document has an empty file.
pub proof fn law_file_ends_with_one_line(content: Seq<char>)
    ensures
        trimmed(content).len() == 0 ==> file_text(content).len() == 0,
        file_text(content).len() > 0 ==> {
            let text = file_text(content).drop_last();
            &&& file_text(content).last() == '\n'
            &&& text.is_prefix_of(content)
            &&& text.len() > 0
            &&& !white(text.last())
            &&& forall|k: int|
                text.len() <= k < content.len() ==> white(#[trigger] content[k])
        },
{
    reveal_strlit("\n");
    let j = lemma_trailing(content);
    let text = content.take(j);
    if text.len() > 0 {
        assert(file_text(content).drop_last() =~= text);
        let i = lemma_leading(content);
        law_trimming_takes_white_ends(content);
        if trimmed(content).len() == 0 {
            lemma_blank(content);
            assert(white(content[j - 1]));
        }
        assert(text.last() == content[j - 1]);
    }
}

/// A session that a page may work with is one of a user, of the persona in use or of
/// those who work on the assistant, and of no platform.
pub proof fn law_page_works_with_its_sessions(
    db: DbModel,
    session_id: Seq<char>,
    persona: Seq<char>,
    record: SessionRecordModel,
)
    requires
        db.session_record(session_id) == Some(record),
    ensures
        page_session(db, session_id, persona) is Ok <==> record.kind == "user"@ && (record.persona
            == persona || record.persona == DEV_PERSONA@) && !db.is_platform_session(session_id),
        page_session(db, session_id, persona) matches Ok(got) ==> got == record,
{
}

/// A terminal that names a session by its id works with it whatever persona it is of,
/// but not with one of a platform or of another kind.
pub proof fn law_terminal_names_a_session(
    db: DbModel,
    current: Seq<char>,
    session_id: Seq<char>,
    persona: Seq<char>,
    kinds: Seq<Seq<char>>,
    record: SessionRecordModel,
)
    requires
        db.session_record(session_id) == Some(record),
    ensures
        meant(db, current, SessionRefModel::Id(session_id), persona, kinds) == (if kinds.contains(
            record.kind,
        ) && !db.is_platform_session(record.session_id) {
            Some(record)
        } else {
            None
        }),
        meant(db, session_id, SessionRefModel::Current, persona, kinds) == (if kinds.contains(
            record.kind,
        ) && !db.is_platform_session(record.session_id) && (record.persona == persona
            || record.persona == DEV_PERSONA@) {
            Some(record)
        } else {
            None
        }),
{
}

/// A page lists the sessions of the persona and those of the work on the assistant,
/// the last one used first.
pub proof fn law_page_lists_sessions(
    db: DbModel,
    persona: Seq<char>,
    overview: SessionOverviewModel,
)
    ensures
        listed(db, persona).contains(overview) <==> db.list_sessions(persona, true).contains(
            overview,
        ) || db.list_sessions(DEV_PERSONA@, true).contains(overview),
        forall|i: int, j: int|
            0 <= i < j < listed(db, persona).len() ==> !precedes(
                (#[trigger] listed(db, persona)[i]).record.updated_at,
                (#[trigger] listed(db, persona)[j]).record.updated_at,
            ),
{
    let own = db.list_sessions(persona, true);
    let dev = db.list_sessions(DEV_PERSONA@, true);
    let all = if persona != DEV_PERSONA@ {
        own + dev
    } else {
        own
    };
    let lt = later();
    assert(orders(lt)) by {
        assert forall|a: SessionOverviewModel, b: SessionOverviewModel| #[trigger]
            lt(a, b) implies !lt(b, a) by {
            lemma_text_order(b.record.updated_at, a.record.updated_at, a.record.updated_at);
        }
        assert forall|a: SessionOverviewModel, b: SessionOverviewModel, c: SessionOverviewModel|
            !(#[trigger] lt(b, a)) && !(#[trigger] lt(c, b)) implies !lt(c, a) by {
            lemma_text_order(c.record.updated_at, b.record.updated_at, a.record.updated_at);
        }
    }
    lemma_order_by_in_order(all, lt);
    lemma_order_contains(all, lt, overview);
    let list = listed(db, persona);
    assert forall|i: int, j: int| 0 <= i < j < list.len() implies !precedes(
        (#[trigger] list[i]).record.updated_at,
        (#[trigger] list[j]).record.updated_at,
    ) by {
        assert(!lt(list[j], list[i]));
    }
    if own.contains(overview) {
        let k = own.index_of(overview);
        assert(all[k] == overview);
    }
    if dev.contains(overview) && persona != DEV_PERSONA@ {
        let k = dev.index_of(overview);
        assert(all[own.len() + k] == overview);
    }
    if all.contains(overview) {
        let k = all.index_of(overview);
        if k < own.len() {
            assert(own[k] == overview);
        } else {
            assert(dev[k - own.len()] == overview);
        }
    }
}

/// A page that renames a session, or binds it to a directory, has that done, the name
/// first; a blank directory unbinds it, and what it does not mention stays.
pub proof fn law_session_is_changed_as_the_page_asks(
    name: Option<Seq<char>>,
    workspace: Option<Seq<char>>,
    new_name: Seq<char>,
)
    ensures
        session_edits(name, workspace).contains(SessionEditModel::Rename(new_name)) <==> name
            == Some(new_name),
        workspace matches Some(path) ==> session_edits(name, workspace).contains(
            SessionEditModel::Workspace(
                if trimmed(path).len() == 0 {
                    None
                } else {
                    Some(path)
                },
            ),
        ),
        session_edits(name, workspace).len() == (if name is Some {
            1int
        } else {
            0
        }) + (if workspace is Some {
            1int
        } else {
            0
        }),
{
    let edits = session_edits(name, workspace);
    if let Some(given) = name {
        assert(edits[0] == SessionEditModel::Rename(given));
    }
    if let Some(path) = workspace {
        assert(edits.last() == edits[edits.len() - 1]);
    }
}

/// The messages that a page sees waiting are those for the turn of another process
/// where this one runs none, and else its own; it can take back those, and no others.
pub proof fn law_page_sees_the_messages_of_the_running_turn(
    shared: SharedModel,
    store: StoreModel,
    manager: ManagerModel,
    target: RunningTurnQueueTargetModel,
    queue: Seq<char>,
    prompt_id: Seq<char>,
)
    requires
        fit_id(prompt_id),
    ensures
        manager.active_run_id is None && target_of(shared.db, shared.session(store)) == Some(target)
            && target.queue_session_id == Some(queue) ==> {
            &&& waiting(shared, store, manager) == shared.db.queued_prompts_of(
                shared.session(store),
                queue,
            )
            &&& withdrawn(shared, store, manager, prompt_id) == shared.db.remove_queued_prompt(
                shared.session(store),
                prompt_id,
                queue,
            )
        },
        manager.active_run_id is Some || target_of(shared.db, shared.session(store)) is None ==> {
            &&& waiting(shared, store, manager) == shared.db.queued_prompts_of(
                shared.session(store),
                store.queue_session_id,
            )
            &&& withdrawn(shared, store, manager, prompt_id) == shared.db.remove_queued_prompt(
                shared.session(store),
                prompt_id,
                store.queue_session_id,
            )
        },
{
}

} // verus!
