//! The documents that system prompts are made of, as a page edits them.

use crate::paths::{below, join_path, paths_are_same, same_path};
use crate::table::{
    any, exists_row, first, first_row, map_rows, order_by, put, put_row, select, sorted, Row,
};
use crate::text::{
    before, byte_len, drop_end, drop_trailing, is_blank, is_white, is_white_fn, one_of, precedes,
    same, trim, trimmed,
};
use crate::web::error::{checked, ApiError, ApiErrorModel, StatusCode};
use crate::web::models::{
    PromptDocument, PromptDocumentModel, PromptDocuments, PromptDocumentsModel,
};
use crate::web::types::{has_control, is_control_fn};
use crate::web::util::{MAX_PROMPT_DOCUMENTS, MAX_PROMPT_DOCUMENT_CHARS};
use crate::words::{any_char, ends_with, is_char, some_char, starts_with};
use vstd::prelude::*;

verus! {

/// What every document is called at its end.
pub const DOCUMENT_ENDING: &'static str = ".md";

/// How long the name of a document may be, in bytes.
pub const MAX_DOCUMENT_NAME: usize = 240;

pub open spec fn separates_path() -> spec_fn(char) -> bool {
    |c: char| c == '/' || c == '\\'
}

/// Whether a text may be the name of a document: the name of a file that is
/// neither hidden nor in another directory.
pub open spec fn fit_name(name: Seq<char>) -> bool {
    &&& name == trimmed(name)
    &&& DOCUMENT_ENDING@.is_suffix_of(name)
    &&& 3 < byte_len(name) <= MAX_DOCUMENT_NAME
    &&& !"."@.is_prefix_of(name)
    &&& !some_char(name, separates_path())
    &&& !some_char(name, is_control_fn())
}

pub open spec fn name_check(name: Seq<char>, kind: Seq<char>) -> Result<(), ApiErrorModel> {
    if fit_name(name) {
        Ok(())
    } else {
        Err(ApiErrorModel::bad("invalid "@ + kind + " document name: "@ + name))
    }
}

/// Whether a text may be the name of a document.
pub fn validate_prompt_document_name(name: &str, kind: &str) -> (result: Result<(), ApiError>)
    ensures
        checked(result, name_check(name@, kind@)),
{
    let parts = |c: char| -> (b: bool)
        ensures
            b == separates_path()(c),
        { c == '/' || c == '\\' };
    let fit = same(name, trim(name).as_str()) && ends_with(name, DOCUMENT_ENDING) && name.len()
        <= MAX_DOCUMENT_NAME && name.len() > 3 && !starts_with(name, ".") && !any_char(
        name,
        &parts,
        Ghost(separates_path()),
    ) && !has_control(name);
    if fit {
        Ok(())
    } else {
        Err(
            ApiError::bad(
                "invalid ".to_owned().concat(kind).concat(" document name: ").concat(name),
            ),
        )
    }
}

/// The names that the first `n` documents had when they were read.
pub open spec fn original_names(documents: Seq<PromptDocumentModel>, n: nat) -> Seq<Seq<char>>
    decreases n,
{
    if n == 0 {
        Seq::empty()
    } else {
        match documents[n - 1].original_name {
            Some(name) => original_names(documents, (n - 1) as nat).push(name),
            None => original_names(documents, (n - 1) as nat),
        }
    }
}

pub open spec fn name_of() -> spec_fn(PromptDocumentModel) -> Seq<char> {
    |d: PromptDocumentModel| d.name
}

/// Whether a document may stand behind `names`, and behind those that were once
/// called `originals`.
pub open spec fn document_check(
    document: PromptDocumentModel,
    names: Seq<Seq<char>>,
    originals: Seq<Seq<char>>,
    kind: Seq<char>,
) -> Result<(), ApiErrorModel> {
    match name_check(document.name, kind) {
        Err(error) => Err(error),
        Ok(_) => if names.contains(document.name) {
            Err(ApiErrorModel::bad("duplicate "@ + kind + " document: "@ + document.name))
        } else if document.content.len() > MAX_PROMPT_DOCUMENT_CHARS || some_char(
            document.content,
            is_char('\0'),
        ) {
            Err(
                ApiErrorModel::new(
                    StatusCode::PayloadTooLarge,
                    kind + " document is too large: "@ + document.name,
                ),
            )
        } else {
            match document.original_name {
                None => Ok(()),
                Some(original) => match name_check(original, kind) {
                    Err(error) => Err(error),
                    Ok(_) => if originals.contains(original) {
                        Err(
                            ApiErrorModel::bad(
                                "duplicate original "@ + kind + " document: "@ + original,
                            ),
                        )
                    } else {
                        Ok(())
                    },
                },
            }
        },
    }
}

/// Whether the first `n` documents may stand together.
pub open spec fn documents_check(
    documents: Seq<PromptDocumentModel>,
    kind: Seq<char>,
    n: nat,
) -> Result<(), ApiErrorModel>
    decreases n,
{
    if n == 0 {
        Ok(())
    } else {
        match documents_check(documents, kind, (n - 1) as nat) {
            Err(error) => Err(error),
            Ok(_) => document_check(
                documents[n - 1],
                documents.take(n - 1).map_values(name_of()),
                original_names(documents, (n - 1) as nat),
                kind,
            ),
        }
    }
}

/// Whether documents may stand together.
pub open spec fn list_check(documents: Seq<PromptDocumentModel>, kind: Seq<char>) -> Result<
    (),
    ApiErrorModel,
> {
    if documents.len() > MAX_PROMPT_DOCUMENTS {
        Err(
            ApiErrorModel::new(
                StatusCode::PayloadTooLarge,
                "at most 128 "@ + kind + " documents are allowed"@,
            ),
        )
    } else {
        documents_check(documents, kind, documents.len())
    }
}

proof fn lemma_documents_fail(documents: Seq<PromptDocumentModel>, kind: Seq<char>, n: nat)
    requires
        n <= documents.len(),
        documents_check(documents, kind, n) is Err,
    ensures
        documents_check(documents, kind, documents.len()) == documents_check(documents, kind, n),
    decreases documents.len() - n,
{
    if n < documents.len() {
        lemma_documents_fail(documents, kind, n + 1);
    }
}

fn check_document(
    document: &PromptDocument,
    names: &Vec<String>,
    originals: &Vec<String>,
    kind: &str,
) -> (result: Result<(), ApiError>)
    ensures
        checked(
            result,
            document_check(document.deep_view(), names.deep_view(), originals.deep_view(), kind@),
        ),
{
    let name = document.name.as_str();
    if let Err(error) = validate_prompt_document_name(name, kind) {
        return Err(error);
    }
    if one_of(names, name) {
        return Err(
            ApiError::bad("duplicate ".to_owned().concat(kind).concat(" document: ").concat(name)),
        );
    }
    let zero = |c: char| -> (b: bool)
        ensures
            b == is_char('\0')(c),
        { c == '\0' };
    if document.content.as_str().unicode_len() > MAX_PROMPT_DOCUMENT_CHARS || any_char(
        document.content.as_str(),
        &zero,
        Ghost(is_char('\0')),
    ) {
        return Err(
            ApiError::new(
                StatusCode::PayloadTooLarge,
                kind.to_owned().concat(" document is too large: ").concat(name).as_str(),
            ),
        );
    }
    if let Some(original) = &document.original_name {
        if let Err(error) = validate_prompt_document_name(original.as_str(), kind) {
            return Err(error);
        }
        if one_of(originals, original.as_str()) {
            return Err(
                ApiError::bad(
                    "duplicate original ".to_owned().concat(kind).concat(" document: ").concat(
                        original.as_str(),
                    ),
                ),
            );
        }
    }
    Ok(())
}

/// Whether documents may stand together.
pub fn validate_prompt_document_list(kind: &str, documents: &Vec<PromptDocument>) -> (result:
    Result<(), ApiError>)
    ensures
        checked(result, list_check(documents.deep_view(), kind@)),
{
    if documents.len() > MAX_PROMPT_DOCUMENTS {
        return Err(
            ApiError::new(
                StatusCode::PayloadTooLarge,
                "at most 128 ".to_owned().concat(kind).concat(" documents are allowed").as_str(),
            ),
        );
    }
    let mut names: Vec<String> = Vec::new();
    let mut originals: Vec<String> = Vec::new();
    let mut i: usize = 0;
    let ghost all = documents.deep_view();
    assert(names.deep_view() =~= all.take(0).map_values(name_of()));
    assert(originals.deep_view() =~= original_names(all, 0));
    while i < documents.len()
        invariant
            i <= documents.len() <= MAX_PROMPT_DOCUMENTS,
            all == documents.deep_view(),
            names.deep_view() == all.take(i as int).map_values(name_of()),
            originals.deep_view() == original_names(all, i as nat),
            documents_check(all, kind@, i as nat) is Ok,
        decreases documents.len() - i,
    {
        let document = &documents[i];
        assert(all[i as int] == document.deep_view());
        if let Err(error) = check_document(document, &names, &originals, kind) {
            proof {
                lemma_documents_fail(all, kind@, (i + 1) as nat);
            }
            return Err(error);
        }
        let ghost named = names.deep_view();
        let ghost known = originals.deep_view();
        let name = document.name.clone();
        names.push(name);
        assert(names.deep_view() =~= named.push(name.deep_view()));
        assert(all.take(i + 1).map_values(name_of()) =~= named.push(name.deep_view()));
        if let Some(original) = &document.original_name {
            let copy = original.clone();
            originals.push(copy);
            assert(originals.deep_view() =~= known.push(copy.deep_view()));
        }
        i += 1;
    }
    Ok(())
}

pub open spec fn document_named(name: Seq<char>) -> spec_fn(PromptDocumentModel) -> bool {
    |d: PromptDocumentModel| d.name == name
}

/// Whether a document is chosen that there is not.
pub open spec fn chosen_in_vain(active: Seq<char>, documents: Seq<PromptDocumentModel>) -> bool {
    trimmed(active).len() > 0 && !any(documents, document_named(active))
}

fn is_chosen_in_vain(active: &str, documents: &Vec<PromptDocument>) -> (yes: bool)
    ensures
        yes == chosen_in_vain(active@, documents.deep_view()),
{
    let named = |d: &PromptDocument| -> (b: bool)
        ensures
            b == document_named(active@)(d.deep_view()),
        { same(d.name.as_str(), active) };
    !is_blank(active) && !exists_row(documents, &named, Ghost(document_named(active@)))
}

/// Whether the documents may be kept while these two are the active ones.
pub open spec fn prompts_check(
    active_persona: Seq<char>,
    active_identity: Seq<char>,
    prompts: PromptDocumentsModel,
) -> Result<(), ApiErrorModel> {
    match list_check(prompts.personas, "persona"@) {
        Err(error) => Err(error),
        Ok(_) => match list_check(prompts.identities, "identity"@) {
            Err(error) => Err(error),
            Ok(_) => if chosen_in_vain(active_persona, prompts.personas) {
                Err(ApiErrorModel::bad("the active persona does not exist"@))
            } else if chosen_in_vain(active_identity, prompts.identities) {
                Err(ApiErrorModel::bad("the active identity does not exist"@))
            } else {
                Ok(())
            },
        },
    }
}

/// Whether the documents may be kept while these two are the active ones.
pub fn validate_prompt_documents(
    active_persona: &str,
    active_identity: &str,
    prompts: &PromptDocuments,
) -> (result: Result<(), ApiError>)
    ensures
        checked(
            result,
            prompts_check(active_persona@, active_identity@, prompts.deep_view()),
        ),
{
    if let Err(error) = validate_prompt_document_list("persona", &prompts.personas) {
        return Err(error);
    }
    if let Err(error) = validate_prompt_document_list("identity", &prompts.identities) {
        return Err(error);
    }
    if is_chosen_in_vain(active_persona, &prompts.personas) {
        return Err(ApiError::bad("the active persona does not exist".to_owned()));
    }
    if is_chosen_in_vain(active_identity, &prompts.identities) {
        return Err(ApiError::bad("the active identity does not exist".to_owned()));
    }
    Ok(())
}

pub open spec fn is_document() -> spec_fn((Seq<char>, Seq<char>)) -> bool {
    |file: (Seq<char>, Seq<char>)| DOCUMENT_ENDING@.is_suffix_of(file.0)
}

pub open spec fn read_as() -> spec_fn((Seq<char>, Seq<char>)) -> PromptDocumentModel {
    |file: (Seq<char>, Seq<char>)|
        PromptDocumentModel { name: file.0, content: file.1, original_name: Some(file.0) }
}

pub open spec fn by_name() -> spec_fn(PromptDocumentModel, PromptDocumentModel) -> bool {
    |a: PromptDocumentModel, b: PromptDocumentModel| precedes(a.name, b.name)
}

/// The documents among the files of a directory, each its name and what it
/// holds, by name.
pub fn read_prompt_document_dir(files: &Vec<(String, String)>) -> (documents: Vec<PromptDocument>)
    ensures
        documents.deep_view() == order_by(
            files.deep_view().filter(is_document()).map_values(read_as()),
            by_name(),
        ),
{
    let test = |file: &(String, String)| -> (b: bool)
        ensures
            b == is_document()(file.deep_view()),
        { ends_with(file.0.as_str(), DOCUMENT_ENDING) };
    let read = |file: &(String, String)| -> (d: PromptDocument)
        ensures
            d.deep_view() == read_as()(file.deep_view()),
        {
            PromptDocument {
                name: file.0.clone(),
                content: file.1.clone(),
                original_name: Some(file.0.clone()),
            }
        };
    let order = |a: &PromptDocument, b: &PromptDocument| -> (less: bool)
        ensures
            less == by_name()(a.deep_view(), b.deep_view()),
        { before(a.name.as_str(), b.name.as_str()) };
    let found = select(files, &test, Ghost(is_document()));
    let documents = map_rows(&found, &read, Ghost(read_as()));
    sorted(&documents, &order, Ghost(by_name()))
}

pub open spec fn content_of() -> spec_fn(PromptDocumentModel) -> (Seq<char>, Seq<char>) {
    |d: PromptDocumentModel| (d.name, d.content)
}

pub open spec fn by_first() -> spec_fn((Seq<char>, Seq<char>), (Seq<char>, Seq<char>)) -> bool {
    |a: (Seq<char>, Seq<char>), b: (Seq<char>, Seq<char>)| precedes(a.0, b.0)
}

/// The names of documents and what they hold, by name.
pub open spec fn canonical(documents: Seq<PromptDocumentModel>) -> Seq<(Seq<char>, Seq<char>)> {
    order_by(documents.map_values(content_of()), by_first())
}

/// The names of documents and what they hold, by name.
pub fn canonical_prompt_documents(documents: &Vec<PromptDocument>) -> (pairs: Vec<
    (String, String),
>)
    ensures
        pairs.deep_view() == canonical(documents.deep_view()),
{
    let content = |d: &PromptDocument| -> (pair: (String, String))
        ensures
            pair.deep_view() == content_of()(d.deep_view()),
        { (d.name.clone(), d.content.clone()) };
    let order = |a: &(String, String), b: &(String, String)| -> (less: bool)
        ensures
            less == by_first()(a.deep_view(), b.deep_view()),
        { before(a.0.as_str(), b.0.as_str()) };
    let pairs = map_rows(documents, &content, Ghost(content_of()));
    sorted(&pairs, &order, Ghost(by_first()))
}

fn same_pairs(a: &Vec<(String, String)>, b: &Vec<(String, String)>) -> (equal: bool)
    ensures
        equal == (a.deep_view() == b.deep_view()),
{
    if a.len() != b.len() {
        assert(a.deep_view().len() != b.deep_view().len());
        return false;
    }
    let mut i: usize = 0;
    while i < a.len()
        invariant
            i <= a.len(),
            a.len() == b.len(),
            forall|j: int| 0 <= j < i ==> #[trigger] a.deep_view()[j] == b.deep_view()[j],
        decreases a.len() - i,
    {
        assert(a.deep_view()[i as int] == a[i as int].deep_view());
        assert(b.deep_view()[i as int] == b[i as int].deep_view());
        if !same(a[i].0.as_str(), b[i].0.as_str()) || !same(a[i].1.as_str(), b[i].1.as_str()) {
            return false;
        }
        i += 1;
    }
    assert(a.deep_view() =~= b.deep_view());
    true
}

/// Whether documents differ in more than their order.
pub fn prompt_documents_changed(current: &PromptDocuments, candidate: &PromptDocuments) -> (changed:
    bool)
    ensures
        changed == (canonical(current.deep_view().personas) != canonical(
            candidate.deep_view().personas,
        ) || canonical(current.deep_view().identities) != canonical(
            candidate.deep_view().identities,
        )),
{
    !same_pairs(
        &canonical_prompt_documents(&current.personas),
        &canonical_prompt_documents(&candidate.personas),
    ) || !same_pairs(
        &canonical_prompt_documents(&current.identities),
        &canonical_prompt_documents(&candidate.identities),
    )
}

/// Whether a document is what became of the one called `name`.
pub open spec fn represents(name: Seq<char>) -> spec_fn(PromptDocumentModel) -> bool {
    |d: PromptDocumentModel|
        match d.original_name {
            Some(original) => original == name,
            None => d.name == name,
        }
}

fn representative(documents: &Vec<PromptDocument>, name: &str) -> (found: Option<PromptDocument>)
    ensures
        found.deep_view() == first(documents.deep_view(), represents(name@)),
{
    let this = |d: &PromptDocument| -> (b: bool)
        ensures
            b == represents(name@)(d.deep_view()),
        {
            match &d.original_name {
                Some(original) => same(original.as_str(), name),
                None => same(d.name.as_str(), name),
            }
        };
    first_row(documents, &this, Ghost(represents(name@)))
}

/// What becomes of the first `n` personas that do not keep their name: each with
/// its new name, if it has one.
pub open spec fn scope_changes(
    current: Seq<PromptDocumentModel>,
    next: Seq<PromptDocumentModel>,
    n: nat,
) -> Seq<(Seq<char>, Option<Seq<char>>)>
    decreases n,
{
    if n == 0 {
        Seq::empty()
    } else {
        let done = scope_changes(current, next, (n - 1) as nat);
        let name = current[n - 1].name;
        match first(next, represents(name)) {
            Some(document) => if document.name != name {
                done.push((name, Some(document.name)))
            } else {
                done
            },
            None => done.push((name, None)),
        }
    }
}

/// The personas whose memory and skills move, each with the name that they move
/// to, or with none where the persona is gone.
pub fn persona_scope_changes(current: &Vec<PromptDocument>, next: &Vec<PromptDocument>) -> (changes:
    Vec<(String, Option<String>)>)
    ensures
        changes.deep_view() == scope_changes(
            current.deep_view(),
            next.deep_view(),
            current.deep_view().len(),
        ),
{
    let mut changes: Vec<(String, Option<String>)> = Vec::new();
    let mut i: usize = 0;
    let ghost all = current.deep_view();
    assert(changes.deep_view() =~= scope_changes(all, next.deep_view(), 0));
    while i < current.len()
        invariant
            i <= current.len(),
            all == current.deep_view(),
            changes.deep_view() == scope_changes(all, next.deep_view(), i as nat),
        decreases current.len() - i,
    {
        let ghost done = changes.deep_view();
        assert(all[i as int] == current[i as int].deep_view());
        let name = &current[i].name;
        match representative(next, name.as_str()) {
            Some(document) => {
                if !same(document.name.as_str(), name.as_str()) {
                    let change = (name.clone(), Some(document.name));
                    changes.push(change);
                    assert(changes.deep_view() =~= done.push(change.deep_view()));
                }
            },
            None => {
                let change = (name.clone(), None);
                changes.push(change);
                assert(changes.deep_view() =~= done.push(change.deep_view()));
            },
        }
        i += 1;
    }
    changes
}

/// What a document's file holds: its text, and an end of line behind it.
pub open spec fn file_text(content: Seq<char>) -> Seq<char> {
    let text = drop_trailing(content, is_white_fn());
    if text.len() == 0 {
        text
    } else {
        text + "\n"@
    }
}

fn text_for_file(content: &str) -> (text: String)
    ensures
        text@ == file_text(content@),
{
    let space = |c: char| -> (b: bool)
        ensures
            b == is_white_fn()(c),
        { is_white(c) };
    let text = drop_end(content, &space, Ghost(is_white_fn()));
    if text.as_str().is_empty() {
        text
    } else {
        text.concat("\n")
    }
}

pub open spec fn at_path(path: Seq<char>) -> spec_fn((Seq<char>, Option<Seq<char>>)) -> bool {
    |m: (Seq<char>, Option<Seq<char>>)| same_path(m.0, path)
}

pub open spec fn holding(text: Option<Seq<char>>) -> spec_fn(
    (Seq<char>, Option<Seq<char>>),
) -> (Seq<char>, Option<Seq<char>>) {
    |m: (Seq<char>, Option<Seq<char>>)| (m.0, text)
}

/// `mutations`, and the files of the first `n` documents written.
pub open spec fn with_written(
    mutations: Seq<(Seq<char>, Option<Seq<char>>)>,
    documents: Seq<PromptDocumentModel>,
    dir: Seq<char>,
    n: nat,
) -> Seq<(Seq<char>, Option<Seq<char>>)>
    decreases n,
{
    if n == 0 {
        mutations
    } else {
        let path = below(dir, documents[n - 1].name);
        let text = Some(file_text(documents[n - 1].content));
        put(
            with_written(mutations, documents, dir, (n - 1) as nat),
            at_path(path),
            holding(text),
            (path, text),
        )
    }
}

/// `mutations`, and the files of the first `n` documents removed that no
/// document of `next` keeps where they are.
pub open spec fn with_removed(
    mutations: Seq<(Seq<char>, Option<Seq<char>>)>,
    documents: Seq<PromptDocumentModel>,
    next: Seq<PromptDocumentModel>,
    dir: Seq<char>,
    next_dir: Seq<char>,
    n: nat,
) -> Seq<(Seq<char>, Option<Seq<char>>)>
    decreases n,
{
    if n == 0 {
        mutations
    } else {
        let done = with_removed(mutations, documents, next, dir, next_dir, (n - 1) as nat);
        let path = below(dir, documents[n - 1].name);
        let kept = match first(next, represents(documents[n - 1].name)) {
            Some(document) => same_path(below(next_dir, document.name), path),
            None => false,
        };
        if kept || any(done, at_path(path)) {
            done
        } else {
            done.push((path, None))
        }
    }
}

/// Adds to `mutations` the files that are written, with what they hold, and
/// those that are removed, when documents take the place of others.
pub fn collect_prompt_file_mutations(
    current: &Vec<PromptDocument>,
    next: &Vec<PromptDocument>,
    current_dir: &str,
    next_dir: &str,
    mutations: &mut Vec<(String, Option<String>)>,
)
    ensures
        final(mutations).deep_view() == with_removed(
            with_written(
                old(mutations).deep_view(),
                next.deep_view(),
                next_dir@,
                next.deep_view().len(),
            ),
            current.deep_view(),
            next.deep_view(),
            current_dir@,
            next_dir@,
            current.deep_view().len(),
        ),
{
    let ghost start = mutations.deep_view();
    let ghost all = next.deep_view();
    let mut i: usize = 0;
    while i < next.len()
        invariant
            i <= next.len(),
            all == next.deep_view(),
            mutations.deep_view() == with_written(start, all, next_dir@, i as nat),
        decreases next.len() - i,
    {
        assert(all[i as int] == next[i as int].deep_view());
        let path = join_path(next_dir, next[i].name.as_str());
        let text = Some(text_for_file(next[i].content.as_str()));
        let here = |m: &(String, Option<String>)| -> (b: bool)
            ensures
                b == at_path(path@)(m.deep_view()),
            { paths_are_same(m.0.as_str(), path.as_str()) };
        let write = |m: &(String, Option<String>)| -> (n: (String, Option<String>))
            ensures
                n.deep_view() == holding(text.deep_view())(m.deep_view()),
            { (m.0.clone(), text.dup()) };
        put_row(
            mutations,
            &here,
            &write,
            (path.clone(), text.dup()),
            Ghost(at_path(path@)),
            Ghost(holding(text.deep_view())),
        );
        i += 1;
    }
    let ghost written = mutations.deep_view();
    let ghost old_ones = current.deep_view();
    let mut k: usize = 0;
    while k < current.len()
        invariant
            k <= current.len(),
            all == next.deep_view(),
            old_ones == current.deep_view(),
            mutations.deep_view() == with_removed(
                written,
                old_ones,
                all,
                current_dir@,
                next_dir@,
                k as nat,
            ),
        decreases current.len() - k,
    {
        let ghost done = mutations.deep_view();
        assert(old_ones[k as int] == current[k as int].deep_view());
        let path = join_path(current_dir, current[k].name.as_str());
        let kept = match representative(next, current[k].name.as_str()) {
            Some(document) => paths_are_same(
                join_path(next_dir, document.name.as_str()).as_str(),
                path.as_str(),
            ),
            None => false,
        };
        let here = |m: &(String, Option<String>)| -> (b: bool)
            ensures
                b == at_path(path@)(m.deep_view()),
            { paths_are_same(m.0.as_str(), path.as_str()) };
        if !kept && !exists_row(mutations, &here, Ghost(at_path(path@))) {
            let removal = (path.clone(), None);
            mutations.push(removal);
            assert(mutations.deep_view() =~= done.push(removal.deep_view()));
        }
        k += 1;
    }
}

} // verus!
