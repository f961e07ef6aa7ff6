//! Laws of the secrets of the configuration, and of which configuration may be
//! used.

use crate::facts::{lemma_filter_contains, lemma_first};
use crate::table::{any, first};
use crate::text::{control, trimmed};
use crate::web::answers::{holds_control, normalized, trimmed_answer, unanswered};
use crate::web::config::{
    candidate_check, ids_fault, list_is_set, model_is, mutation_of, of_field, pictures_fault,
    provider_field, provider_named, provider_states, restored_key, restored_providers,
    says_something_fn, secret_check, secret_fields, secret_list, separates_secrets, unknown_field,
    ProviderSecretModel, SecretConfigModel, SecretMutationModel, ANYSEARCH_KEYS, EXCHANGE_RATE_KEY,
    FIRECRAWL_KEYS, IMAGE_GENERATION_KEYS, TAVILY_KEYS,
};
use crate::web::error::ApiErrorModel;
use crate::web::models::{ActiveProviderModelConfigModel, QuestionRequestModel};
use crate::web::types::is_control_fn;
use crate::words::{not_empty, pieces, some_char, trimming};
use vstd::prelude::*;

verus! {

/// Whether `m` is what a page first says of a field.
pub open spec fn says_of(
    mutations: Seq<(Seq<char>, SecretMutationModel)>,
    field: Seq<char>,
    m: SecretMutationModel,
) -> bool {
    exists|j: int|
        0 <= j < mutations.len() && (#[trigger] mutations[j]).0 == field && mutations[j].1 == m
            && forall|k: int| 0 <= k < j ==> (#[trigger] mutations[k]).0 != field
}

/// Whether a page says nothing of a field.
pub open spec fn says_nothing_of(
    mutations: Seq<(Seq<char>, SecretMutationModel)>,
    field: Seq<char>,
) -> bool {
    forall|k: int| 0 <= k < mutations.len() ==> (#[trigger] mutations[k]).0 != field
}

proof fn lemma_said(
    mutations: Seq<(Seq<char>, SecretMutationModel)>,
    field: Seq<char>,
    m: SecretMutationModel,
)
    ensures
        says_of(mutations, field, m) ==> mutation_of(mutations, field) == Some(m),
        says_nothing_of(mutations, field) ==> mutation_of(mutations, field) is None,
    decreases mutations.len(),
{
    let p = of_field(field);
    lemma_first(mutations, p);
    if says_of(mutations, field, m) {
        let j = choose|j: int|
            0 <= j < mutations.len() && (#[trigger] mutations[j]).0 == field && mutations[j].1 == m
                && forall|k: int| 0 <= k < j ==> (#[trigger] mutations[k]).0 != field;
        assert(p(mutations[j]));
        lemma_first_is(mutations, p, j);
    }
}

/// The first row that fits is found where none before it does.
pub proof fn lemma_first_is<V>(s: Seq<V>, p: spec_fn(V) -> bool, j: int)
    requires
        0 <= j < s.len(),
        p(s[j]),
        forall|k: int| 0 <= k < j ==> !p(#[trigger] s[k]),
    ensures
        first(s, p) == Some(s[j]),
    decreases s.len(),
{
    if j > 0 {
        assert(!p(s[0]));
        let rest = s.drop_first();
        assert(rest[j - 1] == s[j]);
        assert forall|k: int| 0 <= k < j - 1 implies !p(#[trigger] rest[k]) by {
            assert(rest[k] == s[k + 1]);
        }
        lemma_first_is(rest, p, j - 1);
    }
}

/// The first `n` providers have the keys that they get.
proof fn lemma_restored_at(
    candidate: Seq<ProviderSecretModel>,
    current: Seq<ProviderSecretModel>,
    mutations: Seq<(Seq<char>, SecretMutationModel)>,
    n: nat,
)
    requires
        n <= candidate.len(),
    ensures
        restored_providers(candidate, current, mutations, n) matches Ok(done) ==> {
            &&& done.len() == n
            &&& forall|i: int|
                0 <= i < n ==> {
                    &&& (#[trigger] done[i]).id == candidate[i].id
                    &&& restored_key(candidate[i], i as nat, current, mutations) == Ok::<
                        Option<Seq<char>>,
                        ApiErrorModel,
                    >(done[i].api_key)
                }
        },
        (forall|i: int|
            0 <= i < n ==> restored_key(
                #[trigger] candidate[i],
                i as nat,
                current,
                mutations,
            ) is Ok) ==> restored_providers(candidate, current, mutations, n) is Ok,
        restored_providers(candidate, current, mutations, n) is Ok ==> forall|i: int|
            0 <= i < n ==> restored_key(
                #[trigger] candidate[i],
                i as nat,
                current,
                mutations,
            ) is Ok,
    decreases n,
{
    if n > 0 {
        lemma_restored_at(candidate, current, mutations, (n - 1) as nat);
        let _ = candidate[n - 1];
    }
}

/// A page that replaces the key of a provider, or clears it, finds it so; the other
/// providers keep the keys that they have by their names.
pub proof fn law_key_of_a_provider_is_set(
    candidate: SecretConfigModel,
    current: SecretConfigModel,
    mutations: Seq<(Seq<char>, SecretMutationModel)>,
    after: SecretConfigModel,
    i: int,
    value: Seq<char>,
    k: int,
)
    requires
        candidate.restored(current, mutations) == Ok::<
            SecretConfigModel,
            ApiErrorModel,
        >(after),
        0 <= i < candidate.providers.len(),
    ensures
        after.providers.len() == candidate.providers.len(),
        after.providers[i].id == candidate.providers[i].id,
        says_of(
            mutations,
            provider_field(i as nat),
            SecretMutationModel::Replace(value),
        ) ==> after.providers[i].api_key == (if trimmed(value).len() > 0 {
            Some(trimmed(value))
        } else {
            None
        }),
        says_of(mutations, provider_field(i as nat), SecretMutationModel::Clear)
            ==> after.providers[i].api_key is None,
        says_nothing_of(mutations, provider_field(i as nat)) && 0 <= k < current.providers.len()
            && current.providers[k].id == candidate.providers[i].id && (forall|j: int|
            0 <= j < k ==> (#[trigger] current.providers[j]).id != candidate.providers[i].id)
            ==> after.providers[i].api_key == current.providers[k].api_key,
        says_nothing_of(mutations, provider_field(i as nat)) && (forall|j: int|
            0 <= j < current.providers.len() ==> (#[trigger] current.providers[j]).id
                != candidate.providers[i].id) ==> after.providers[i].api_key is None,
{
    let field = provider_field(i as nat);
    let n = candidate.providers.len();
    lemma_restored_at(candidate.providers, current.providers, mutations, n);
    lemma_said(mutations, field, SecretMutationModel::Replace(value));
    lemma_said(mutations, field, SecretMutationModel::Clear);
    let _ = after.providers[i];
    let p = provider_named(candidate.providers[i].id);
    lemma_first(current.providers, p);
    if 0 <= k < current.providers.len() && p(current.providers[k]) && forall|j: int|
        0 <= j < k ==> (#[trigger] current.providers[j]).id != candidate.providers[i].id {
        lemma_first_is(current.providers, p, k);
    }
}

/// What stands in a text between commas and ends of lines.
pub open spec fn between_commas(value: Seq<char>) -> Seq<Seq<char>> {
    pieces(value, |c: char| c == ',' || c == '\n' || c == '\r')
}

/// Whether a list of secrets is what a page asked for: what stood between commas and
/// ends of lines, trimmed, and nothing that is blank.
pub open spec fn lists(keys: Seq<Seq<char>>, value: Seq<char>) -> bool {
    forall|key: Seq<char>| #[trigger]
        keys.contains(key) <==> key.len() > 0 && exists|i: int|
            0 <= i < between_commas(value).len() && trimmed(
                #[trigger] between_commas(value)[i],
            ) == key
}

/// A list as a page has dealt with it: replaced, cleared, or left.
pub open spec fn dealt_with(
    before: Seq<Seq<char>>,
    after: Seq<Seq<char>>,
    mutations: Seq<(Seq<char>, SecretMutationModel)>,
    field: Seq<char>,
    value: Seq<char>,
) -> bool {
    &&& says_of(mutations, field, SecretMutationModel::Replace(value)) ==> lists(after, value)
    &&& says_of(mutations, field, SecretMutationModel::Clear) ==> after.len() == 0
    &&& says_nothing_of(mutations, field) ==> after == before
}

proof fn lemma_lists(value: Seq<char>, field: Seq<char>)
    ensures
        secret_list(value, field) matches Ok(keys) ==> lists(keys, value),
{
    let p = |c: char| c == ',' || c == '\n' || c == '\r';
    assert(separates_secrets() =~= p);
    let parts = between_commas(value).map_values(trimming());
    if let Ok(keys) = secret_list(value, field) {
        assert forall|key: Seq<char>| #[trigger]
            keys.contains(key) <==> key.len() > 0 && exists|i: int|
                0 <= i < between_commas(value).len() && trimmed(#[trigger] between_commas(value)[i])
                    == key by {
            lemma_filter_contains(parts, not_empty(), key);
            if parts.contains(key) {
                let i = parts.index_of(key);
                assert(parts[i] == trimmed(between_commas(value)[i]));
            }
            if exists|i: int|
                0 <= i < between_commas(value).len() && trimmed(#[trigger] between_commas(value)[i]) == key {
                let i = choose|i: int|
                    0 <= i < between_commas(value).len() && trimmed(#[trigger] between_commas(value)[i])
                        == key;
                assert(parts[i] == key);
            }
        }
    }
}

/// Each list of keys, and the key of the exchange rates, is what the page made of it
/// under its own name.
pub proof fn law_other_keys_are_set(
    candidate: SecretConfigModel,
    current: SecretConfigModel,
    mutations: Seq<(Seq<char>, SecretMutationModel)>,
    after: SecretConfigModel,
    value: Seq<char>,
)
    requires
        candidate.restored(current, mutations) == Ok::<
            SecretConfigModel,
            ApiErrorModel,
        >(after),
    ensures
        dealt_with(
            current.tavily_api_keys,
            after.tavily_api_keys,
            mutations,
            TAVILY_KEYS@,
            value,
        ),
        dealt_with(
            current.firecrawl_api_keys,
            after.firecrawl_api_keys,
            mutations,
            FIRECRAWL_KEYS@,
            value,
        ),
        dealt_with(
            current.anysearch_api_keys,
            after.anysearch_api_keys,
            mutations,
            ANYSEARCH_KEYS@,
            value,
        ),
        dealt_with(
            current.image_generation_api_keys,
            after.image_generation_api_keys,
            mutations,
            IMAGE_GENERATION_KEYS@,
            value,
        ),
        says_of(
            mutations,
            EXCHANGE_RATE_KEY@,
            SecretMutationModel::Replace(value),
        ) ==> after.exchange_rate_api_key == trimmed(value),
        says_of(mutations, EXCHANGE_RATE_KEY@, SecretMutationModel::Clear)
            ==> after.exchange_rate_api_key.len() == 0,
        says_nothing_of(mutations, EXCHANGE_RATE_KEY@) ==> after.exchange_rate_api_key
            == current.exchange_rate_api_key,
{
    let fields = seq![
        TAVILY_KEYS@,
        FIRECRAWL_KEYS@,
        ANYSEARCH_KEYS@,
        IMAGE_GENERATION_KEYS@,
        EXCHANGE_RATE_KEY@,
    ];
    assert forall|i: int| 0 <= i < fields.len() implies {
        let field = #[trigger] fields[i];
        &&& says_of(mutations, field, SecretMutationModel::Replace(value)) ==> mutation_of(
            mutations,
            field,
        ) == Some(SecretMutationModel::Replace(value))
        &&& says_of(mutations, field, SecretMutationModel::Clear) ==> mutation_of(mutations, field)
            == Some(SecretMutationModel::Clear)
        &&& says_nothing_of(mutations, field) ==> mutation_of(mutations, field) is None
        &&& secret_list(value, field) matches Ok(keys) ==> lists(keys, value)
    } by {
        lemma_said(mutations, fields[i], SecretMutationModel::Replace(value));
        lemma_said(mutations, fields[i], SecretMutationModel::Clear);
        lemma_lists(value, fields[i]);
    }
    assert(fields[0] == TAVILY_KEYS@);
    assert(fields[1] == FIRECRAWL_KEYS@);
    assert(fields[2] == ANYSEARCH_KEYS@);
    assert(fields[3] == IMAGE_GENERATION_KEYS@);
    assert(fields[4] == EXCHANGE_RATE_KEY@);
    if says_of(mutations, EXCHANGE_RATE_KEY@, SecretMutationModel::Replace(value)) {
        if trimmed(value).len() == 0 {
            assert(trimmed(value) =~= Seq::<char>::empty());
        }
    }
}

/// Whether a page asks for secrets of fields that there are, and for none that cannot
/// be one.
pub open spec fn asks_well(
    mutations: Seq<(Seq<char>, SecretMutationModel)>,
    fields: Seq<Seq<char>>,
) -> bool {
    forall|j: int|
        0 <= j < mutations.len() ==> fields.contains((#[trigger] mutations[j]).0) && (
        mutations[j].1 matches SecretMutationModel::Replace(value) ==> secret_check(
            value,
            mutations[j].0,
        ) is Ok)
}

/// What a page asks of the secrets is done where it names fields that there are and
/// texts that can be secrets; a field that there is not is refused.
pub proof fn law_secrets_can_be_set(
    candidate: SecretConfigModel,
    current: SecretConfigModel,
    mutations: Seq<(Seq<char>, SecretMutationModel)>,
    j: int,
)
    ensures
        asks_well(mutations, secret_fields(candidate.providers.len())) ==> candidate.restored(
            current,
            mutations,
        ) is Ok,
        0 <= j < mutations.len() && !secret_fields(candidate.providers.len()).contains(
            mutations[j].0,
        ) ==> candidate.restored(current, mutations) is Err,
{
    let known = secret_fields(candidate.providers.len());
    let q = unknown_field(known);
    lemma_first(mutations, q);
    lemma_restored_at(
        candidate.providers,
        current.providers,
        mutations,
        candidate.providers.len(),
    );
    if 0 <= j < mutations.len() && !known.contains(mutations[j].0) {
        assert(q(mutations[j]));
    }
    if asks_well(mutations, known) {
        assert forall|field: Seq<char>| true implies (#[trigger] mutation_of(
            mutations,
            field,
        ) matches Some(SecretMutationModel::Replace(value)) ==> secret_check(value, field) is Ok) by {
            lemma_first(mutations, of_field(field));
            if let Some(found) = first(mutations, of_field(field)) {
                let k = mutations.index_of(found);
                assert(mutations[k] == found);
            }
        }
        assert forall|i: int| 0 <= i < candidate.providers.len() implies restored_key(
            #[trigger] candidate.providers[i],
            i as nat,
            current.providers,
            mutations,
        ) is Ok by {
            let _ = mutation_of(mutations, provider_field(i as nat));
        }
        let _ = mutation_of(mutations, TAVILY_KEYS@);
        let _ = mutation_of(mutations, FIRECRAWL_KEYS@);
        let _ = mutation_of(mutations, ANYSEARCH_KEYS@);
        let _ = mutation_of(mutations, IMAGE_GENERATION_KEYS@);
        let _ = mutation_of(mutations, EXCHANGE_RATE_KEY@);
        if first(mutations, q) is Some {
            let k = mutations.index_of(first(mutations, q)->0);
            assert(known.contains(mutations[k].0));
        }
    }
}

/// Whether one of some secrets is not blank.
pub open spec fn some_secret(values: Seq<Seq<char>>) -> bool {
    exists|i: int| 0 <= i < values.len() && trimmed(#[trigger] values[i]).len() > 0
}

proof fn lemma_states_at(providers: Seq<ProviderSecretModel>, n: nat)
    requires
        n <= providers.len(),
    ensures
        provider_states(providers, n).len() == n,
        forall|i: int|
            0 <= i < n ==> #[trigger] provider_states(providers, n)[i] == (
                provider_field(i as nat),
                providers[i].api_key matches Some(key) && trimmed(key).len() > 0,
            ),
    decreases n,
{
    if n > 0 {
        lemma_states_at(providers, (n - 1) as nat);
    }
}

/// A page is told of each secret, under its name, whether it is set.
pub proof fn law_page_is_told_which_secrets_are_set(config: SecretConfigModel, i: int)
    ensures
        0 <= i < config.providers.len() ==> config.states().contains(
            (
                provider_field(i as nat),
                config.providers[i].api_key matches Some(key) && trimmed(key).len() > 0,
            ),
        ),
        config.states().contains((TAVILY_KEYS@, some_secret(config.tavily_api_keys))),
        config.states().contains((FIRECRAWL_KEYS@, some_secret(config.firecrawl_api_keys))),
        config.states().contains((ANYSEARCH_KEYS@, some_secret(config.anysearch_api_keys))),
        config.states().contains(
            (IMAGE_GENERATION_KEYS@, some_secret(config.image_generation_api_keys)),
        ),
        config.states().contains(
            (EXCHANGE_RATE_KEY@, trimmed(config.exchange_rate_api_key).len() > 0),
        ),
        config.states().len() == config.providers.len() + 5,
{
    let n = config.providers.len() as int;
    lemma_states_at(config.providers, config.providers.len());
    lemma_set(config.tavily_api_keys);
    lemma_set(config.firecrawl_api_keys);
    lemma_set(config.anysearch_api_keys);
    lemma_set(config.image_generation_api_keys);
    let states = config.states();
    if 0 <= i < n {
        assert(states[i] == provider_states(config.providers, config.providers.len())[i]);
    }
    assert(states[n].0 == TAVILY_KEYS@);
    assert(states[n + 1].0 == FIRECRAWL_KEYS@);
    assert(states[n + 2].0 == ANYSEARCH_KEYS@);
    assert(states[n + 3].0 == EXCHANGE_RATE_KEY@);
    assert(states[n + 4].0 == IMAGE_GENERATION_KEYS@);
}

proof fn lemma_set(values: Seq<Seq<char>>)
    ensures
        list_is_set(values) == some_secret(values),
{
    let p = says_something_fn();
    if some_secret(values) {
        let i = choose|i: int| 0 <= i < values.len() && trimmed(#[trigger] values[i]).len() > 0;
        assert(p(values[i]));
    }
    if any(values, p) {
        let i = choose|i: int| 0 <= i < values.len() && p(#[trigger] values[i]);
        assert(trimmed(values[i]).len() > 0);
    }
}

proof fn lemma_ids(ids: Seq<Seq<char>>, n: nat)
    requires
        n <= ids.len(),
    ensures
        ids_fault(ids, n) is None <==> forall|i: int, j: int|
            0 <= i < j < n ==> trimmed(#[trigger] ids[i]) != trimmed(#[trigger] ids[j]),
    decreases n,
{
    if n > 0 {
        lemma_ids(ids, (n - 1) as nat);
        if exists|j: int| 0 <= j < n - 1 && trimmed(#[trigger] ids[j]) == trimmed(ids[n - 1]) {
            let j = choose|j: int| 0 <= j < n - 1 && trimmed(#[trigger] ids[j]) == trimmed(ids[n - 1]);
            assert(!(trimmed(ids[j]) != trimmed(ids[n - 1])));
        }
    }
}

proof fn lemma_pictures(
    active: Seq<ActiveProviderModelConfigModel>,
    choices: Seq<ActiveProviderModelConfigModel>,
    n: nat,
)
    requires
        n <= active.len(),
    ensures
        pictures_fault(active, choices, n) is None <==> {
            &&& forall|i: int, j: int|
                0 <= i < j < n ==> (#[trigger] active[i]) != (#[trigger] active[j])
            &&& forall|i: int| 0 <= i < n ==> choices.contains(#[trigger] active[i])
        },
    decreases n,
{
    if n > 0 {
        lemma_pictures(active, choices, (n - 1) as nat);
        let p = model_is(active[n - 1]);
        let before = active.take(n - 1);
        if any(before, p) {
            let j = choose|j: int| 0 <= j < before.len() && p(#[trigger] before[j]);
            assert(active[j] == before[j]);
            assert(active[j] == active[n - 1]);
        } else {
            assert forall|i: int| 0 <= i < n - 1 implies (#[trigger] active[i]) != active[n - 1] by {
                assert(!p(before[i]));
            }
        }
        if any(choices, p) {
            let j = choose|j: int| 0 <= j < choices.len() && p(#[trigger] choices[j]);
            assert(choices[j] == active[n - 1]);
        }
        if choices.contains(active[n - 1]) {
            let j = choices.index_of(active[n - 1]);
            assert(p(choices[j]));
        }
    }
}

/// A configuration may be used if nothing is wrong with it as a whole or with its
/// models, no two providers have one id, and the models that read pictures are
/// offered and are named once; no other may.
pub proof fn law_which_configuration_may_be_used(
    fault: Option<Seq<char>>,
    ids: Seq<Seq<char>>,
    active_fault: Option<Seq<char>>,
    active: Seq<ActiveProviderModelConfigModel>,
    choices: Seq<ActiveProviderModelConfigModel>,
)
    ensures
        candidate_check(fault, ids, active_fault, active, choices) is Ok <==> {
            &&& fault is None
            &&& active_fault is None
            &&& forall|i: int, j: int|
                0 <= i < j < ids.len() ==> trimmed(#[trigger] ids[i]) != trimmed(#[trigger] ids[j])
            &&& forall|i: int, j: int|
                0 <= i < j < active.len() ==> (#[trigger] active[i]) != (#[trigger] active[j])
            &&& forall|i: int| 0 <= i < active.len() ==> choices.contains(#[trigger] active[i])
        },
{
    lemma_ids(ids, ids.len());
    lemma_pictures(active, choices, active.len());
}

/// Answers are taken, trimmed and in their order, if every question has one, the one
/// who asks finds nothing wrong with them, and none holds a control character within
/// it; no others are.
pub proof fn law_answers_are_taken_trimmed(
    request: QuestionRequestModel,
    answers: Seq<Seq<Seq<char>>>,
    fault: Option<Seq<char>>,
    i: int,
    j: int,
    k: int,
)
    ensures
        normalized(request, answers, fault) matches Ok(taken) ==> {
            &&& fault is None
            &&& taken.len() == answers.len()
            &&& taken.len() >= request.questions.len()
            &&& 0 <= i < request.questions.len() ==> answers[i].len() > 0
            &&& 0 <= i < answers.len() ==> taken[i].len() == answers[i].len()
            &&& 0 <= i < answers.len() && 0 <= j < answers[i].len() ==> taken[i][j] == trimmed(
                answers[i][j],
            )
            &&& 0 <= i < answers.len() && 0 <= j < answers[i].len() && 0 <= k < trimmed(
                answers[i][j],
            ).len() ==> !control(trimmed(answers[i][j])[k])
        },
        fault is None && answers.len() >= request.questions.len() && (forall|a: int|
            0 <= a < request.questions.len() ==> (#[trigger] answers[a]).len() > 0) && (forall|
            a: int,
            b: int,
            c: int,
        |
            0 <= a < answers.len() && 0 <= b < answers[a].len() && 0 <= c < trimmed(
                answers[a][b],
            ).len() ==> !control(#[trigger] trimmed(answers[a][b])[c]))
            ==> normalized(request, answers, fault) is Ok,
{
    let done = answers.map_values(trimmed_answer());
    let p = is_control_fn();
    if let Ok(taken) = normalized(request, answers, fault) {
        if 0 <= i < request.questions.len() {
            assert(done[i].len() == answers[i].len());
        }
        if 0 <= i < answers.len() && 0 <= j < answers[i].len() {
            assert(done[i][j] == trimmed(answers[i][j]));
            assert(!some_char(done[i][j], p));
            if 0 <= k < done[i][j].len() {
                assert(!p(done[i][j][k]));
            }
        }
    }
    if holds_control(done) {
        let (a, b) = choose|a: int, b: int|
            0 <= a < done.len() && 0 <= b < done[a].len() && some_char(
                #[trigger] done[a][b],
                p,
            );
        let c = choose|c: int| 0 <= c < done[a][b].len() && p(#[trigger] done[a][b][c]);
        assert(done[a][b] == trimmed(answers[a][b]));
        assert(control(trimmed(answers[a][b])[c]));
    }
    if unanswered(request.questions.len(), done) && answers.len()
        >= request.questions.len() {
        let a = choose|a: int| 0 <= a < request.questions.len() && (#[trigger] done[a]).len() == 0;
        assert(answers[a].len() == 0);
    }
}

} // verus!
