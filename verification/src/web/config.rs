//! The configuration as a page sees it and changes it.

use crate::table::{any, exists_row, first, first_row, map_rows, Row};
use crate::text::{decimal, decimal_text, is_blank, one_of, same, trim, trimmed};
use crate::web::error::{checked, ApiError, ApiErrorModel};
use crate::web::models::{ActiveProviderModelConfig, ActiveProviderModelConfigModel};
use crate::web::types::{has_unfit, unfit_for_content};
use crate::web::util::{safe_error_message, shown_error, MAX_SECRET_CHARS};
use crate::words::{not_empty, pieces, some_char, split_where, trim_all, trimming};
use vstd::prelude::*;

verus! {

/// A provider of models and the key that it is used with.
pub struct ProviderSecret {
    pub id: String,
    pub api_key: Option<String>,
}

/// The model of [`ProviderSecret`].
#[verifier::ext_equal]
pub struct ProviderSecretModel {
    pub id: Seq<char>,
    pub api_key: Option<Seq<char>>,
}

impl DeepView for ProviderSecret {
    type V = ProviderSecretModel;

    open spec fn deep_view(&self) -> ProviderSecretModel {
        ProviderSecretModel {
            id: self.id.deep_view(),
            api_key: self.api_key.deep_view(),
        }
    }
}

impl Row for ProviderSecret {
    fn dup(&self) -> (copy: Self) {
        ProviderSecret {
            id: self.id.dup(),
            api_key: self.api_key.dup(),
        }
    }
}

/// What of the configuration is secret.
pub struct SecretConfig {
    pub providers: Vec<ProviderSecret>,
    pub tavily_api_keys: Vec<String>,
    pub firecrawl_api_keys: Vec<String>,
    pub anysearch_api_keys: Vec<String>,
    pub image_generation_api_keys: Vec<String>,
    pub exchange_rate_api_key: String,
}

/// The model of [`SecretConfig`].
#[verifier::ext_equal]
pub struct SecretConfigModel {
    pub providers: Seq<ProviderSecretModel>,
    pub tavily_api_keys: Seq<Seq<char>>,
    pub firecrawl_api_keys: Seq<Seq<char>>,
    pub anysearch_api_keys: Seq<Seq<char>>,
    pub image_generation_api_keys: Seq<Seq<char>>,
    pub exchange_rate_api_key: Seq<char>,
}

impl DeepView for SecretConfig {
    type V = SecretConfigModel;

    open spec fn deep_view(&self) -> SecretConfigModel {
        SecretConfigModel {
            providers: self.providers.deep_view(),
            tavily_api_keys: self.tavily_api_keys.deep_view(),
            firecrawl_api_keys: self.firecrawl_api_keys.deep_view(),
            anysearch_api_keys: self.anysearch_api_keys.deep_view(),
            image_generation_api_keys: self.image_generation_api_keys.deep_view(),
            exchange_rate_api_key: self.exchange_rate_api_key.deep_view(),
        }
    }
}

impl Row for SecretConfig {
    fn dup(&self) -> (copy: Self) {
        SecretConfig {
            providers: self.providers.dup(),
            tavily_api_keys: self.tavily_api_keys.dup(),
            firecrawl_api_keys: self.firecrawl_api_keys.dup(),
            anysearch_api_keys: self.anysearch_api_keys.dup(),
            image_generation_api_keys: self.image_generation_api_keys.dup(),
            exchange_rate_api_key: self.exchange_rate_api_key.dup(),
        }
    }
}

/// What a page does to a secret.
pub enum SecretMutation {
    Replace(String),
    Clear,
}

/// The model of [`SecretMutation`].
#[verifier::ext_equal]
pub enum SecretMutationModel {
    Replace(Seq<char>),
    Clear,
}

impl DeepView for SecretMutation {
    type V = SecretMutationModel;

    open spec fn deep_view(&self) -> SecretMutationModel {
        match self {
            SecretMutation::Replace(text) => SecretMutationModel::Replace(text@),
            SecretMutation::Clear => SecretMutationModel::Clear,
        }
    }
}

impl Row for SecretMutation {
    fn dup(&self) -> (copy: Self) {
        match self {
            SecretMutation::Replace(text) => SecretMutation::Replace(text.clone()),
            SecretMutation::Clear => SecretMutation::Clear,
        }
    }
}

pub const TAVILY_KEYS: &'static str = "plugins.web.tavily_api_keys";

pub const FIRECRAWL_KEYS: &'static str = "plugins.web.firecrawl_api_keys";

pub const ANYSEARCH_KEYS: &'static str = "plugins.web.anysearch_api_keys";

pub const EXCHANGE_RATE_KEY: &'static str = "plugins.exchange_rate.api_key";

pub const IMAGE_GENERATION_KEYS: &'static str = "plugins.image_generation.api_keys";

/// The field of the key of the provider at `index`.
pub open spec fn provider_field(index: nat) -> Seq<char> {
    "providers."@ + decimal(index) + ".api_key"@
}

fn provider_field_text(index: usize) -> (field: String)
    ensures
        field@ == provider_field(index as nat),
{
    "providers.".to_owned().concat(decimal_text(index as u64).as_str()).concat(".api_key")
}

/// Whether a text says something.
pub open spec fn says_something(text: Seq<char>) -> bool {
    trimmed(text).len() > 0
}

pub open spec fn says_something_fn() -> spec_fn(Seq<char>) -> bool {
    |text: Seq<char>| says_something(text)
}

/// Whether some secret of a list says something.
pub open spec fn list_is_set(values: Seq<Seq<char>>) -> bool {
    any(values, says_something_fn())
}

fn is_list_set(values: &Vec<String>) -> (yes: bool)
    ensures
        yes == list_is_set(values.deep_view()),
{
    let says = |text: &String| -> (b: bool)
        ensures
            b == says_something_fn()(text.deep_view()),
        { !is_blank(text.as_str()) };
    exists_row(values, &says, Ghost(says_something_fn()))
}

/// Which secrets of the first `n` providers are set.
pub open spec fn provider_states(providers: Seq<ProviderSecretModel>, n: nat) -> Seq<
    (Seq<char>, bool),
>
    decreases n,
{
    if n == 0 {
        Seq::empty()
    } else {
        provider_states(providers, (n - 1) as nat).push(
            (
                provider_field((n - 1) as nat),
                match providers[n - 1].api_key {
                    Some(key) => says_something(key),
                    None => false,
                },
            ),
        )
    }
}

pub open spec fn without_key() -> spec_fn(ProviderSecretModel) -> ProviderSecretModel {
    |p: ProviderSecretModel| ProviderSecretModel { api_key: None, ..p }
}

impl SecretConfigModel {
    /// The configuration without its secrets.
    pub open spec fn redacted(self) -> SecretConfigModel {
        SecretConfigModel {
            providers: self.providers.map_values(without_key()),
            tavily_api_keys: Seq::empty(),
            firecrawl_api_keys: Seq::empty(),
            anysearch_api_keys: Seq::empty(),
            image_generation_api_keys: Seq::empty(),
            exchange_rate_api_key: Seq::empty(),
        }
    }

    /// Which secrets are set.
    pub open spec fn states(self) -> Seq<(Seq<char>, bool)> {
        provider_states(self.providers, self.providers.len()) + seq![
            (TAVILY_KEYS@, list_is_set(self.tavily_api_keys)),
            (FIRECRAWL_KEYS@, list_is_set(self.firecrawl_api_keys)),
            (ANYSEARCH_KEYS@, list_is_set(self.anysearch_api_keys)),
            (EXCHANGE_RATE_KEY@, says_something(self.exchange_rate_api_key)),
            (IMAGE_GENERATION_KEYS@, list_is_set(self.image_generation_api_keys)),
        ]
    }
}

/// The configuration as a page is shown it: without its secrets, and with word
/// of which are set.
pub fn config_response(config: &SecretConfig) -> (shown: (SecretConfig, Vec<(String, bool)>))
    ensures
        shown.0.deep_view() == config.deep_view().redacted(),
        shown.1.deep_view() == config.deep_view().states(),
{
    let bare = |p: &ProviderSecret| -> (q: ProviderSecret)
        ensures
            q.deep_view() == without_key()(p.deep_view()),
        { ProviderSecret { id: p.id.clone(), api_key: None } };
    let providers = map_rows(&config.providers, &bare, Ghost(without_key()));
    let mut states: Vec<(String, bool)> = Vec::new();
    let mut i: usize = 0;
    let ghost all = config.deep_view().providers;
    assert(states.deep_view() =~= provider_states(all, 0));
    while i < config.providers.len()
        invariant
            i <= config.providers.len(),
            all == config.deep_view().providers,
            states.deep_view() == provider_states(all, i as nat),
        decreases config.providers.len() - i,
    {
        let ghost before = states.deep_view();
        assert(all[i as int] == config.providers[i as int].deep_view());
        let set = match &config.providers[i].api_key {
            Some(key) => !is_blank(key.as_str()),
            None => false,
        };
        let state = (provider_field_text(i), set);
        states.push(state);
        assert(states.deep_view() =~= before.push(state.deep_view()));
        i += 1;
    }
    let ghost before = states.deep_view();
    states.push((TAVILY_KEYS.to_owned(), is_list_set(&config.tavily_api_keys)));
    states.push((FIRECRAWL_KEYS.to_owned(), is_list_set(&config.firecrawl_api_keys)));
    states.push((ANYSEARCH_KEYS.to_owned(), is_list_set(&config.anysearch_api_keys)));
    states.push((EXCHANGE_RATE_KEY.to_owned(), !is_blank(config.exchange_rate_api_key.as_str())));
    states.push((IMAGE_GENERATION_KEYS.to_owned(), is_list_set(&config.image_generation_api_keys)));
    assert(states.deep_view() =~= config.deep_view().states());
    let shown = SecretConfig {
        providers,
        tavily_api_keys: Vec::new(),
        firecrawl_api_keys: Vec::new(),
        anysearch_api_keys: Vec::new(),
        image_generation_api_keys: Vec::new(),
        exchange_rate_api_key: String::new(),
    };
    assert(shown.deep_view() =~= config.deep_view().redacted());
    (shown, states)
}

/// Whether a text may be a secret, or why not.
pub open spec fn secret_check(value: Seq<char>, field: Seq<char>) -> Result<(), ApiErrorModel> {
    if value.len() > MAX_SECRET_CHARS || some_char(value, unfit_for_content()) {
        Err(ApiErrorModel::bad(field + " is invalid"@))
    } else {
        Ok(())
    }
}

/// Whether a text may be a secret.
pub fn validate_secret_text(value: &str, field: &str) -> (result: Result<(), ApiError>)
    ensures
        checked(result, secret_check(value@, field@)),
{
    if value.unicode_len() > MAX_SECRET_CHARS || has_unfit(value) {
        Err(ApiError::bad(field.to_owned().concat(" is invalid")))
    } else {
        Ok(())
    }
}

/// A secret as it is kept, or why it is not.
pub open spec fn single_secret(value: Seq<char>, field: Seq<char>) -> Result<
    Option<Seq<char>>,
    ApiErrorModel,
> {
    match secret_check(value, field) {
        Err(error) => Err(error),
        Ok(_) => if says_something(value) {
            Ok(Some(trimmed(value)))
        } else {
            Ok(None)
        },
    }
}

/// A secret as it is kept.
pub fn normalize_single_secret(value: &str, field: &str) -> (result: Result<
    Option<String>,
    ApiError,
>)
    ensures
        checked(result, single_secret(value@, field@)),
{
    match validate_secret_text(value, field) {
        Err(error) => Err(error),
        Ok(()) => {
            let text = trim(value);
            if text.as_str().is_empty() {
                Ok(None)
            } else {
                Ok(Some(text))
            }
        },
    }
}

pub open spec fn separates_secrets() -> spec_fn(char) -> bool {
    |c: char| c == ',' || c == '\n' || c == '\r'
}

/// A list of secrets as it is kept, or why it is not.
pub open spec fn secret_list(value: Seq<char>, field: Seq<char>) -> Result<
    Seq<Seq<char>>,
    ApiErrorModel,
> {
    match secret_check(value, field) {
        Err(error) => Err(error),
        Ok(_) => Ok(
            pieces(value, separates_secrets()).map_values(trimming()).filter(not_empty()),
        ),
    }
}

/// A list of secrets as it is kept: what stands between commas and ends of
/// lines.
pub fn parse_secret_list(value: &str, field: &str) -> (result: Result<Vec<String>, ApiError>)
    ensures
        checked(result, secret_list(value@, field@)),
{
    match validate_secret_text(value, field) {
        Err(error) => Err(error),
        Ok(()) => {
            let here = |c: char| -> (b: bool)
                ensures
                    b == separates_secrets()(c),
                { c == ',' || c == '\n' || c == '\r' };
            let parts = split_where(value, &here, Ghost(separates_secrets()));
            Ok(trim_all(&parts))
        },
    }
}

pub open spec fn of_field(field: Seq<char>) -> spec_fn((Seq<char>, SecretMutationModel)) -> bool {
    |m: (Seq<char>, SecretMutationModel)| m.0 == field
}

pub open spec fn mutation_of(
    mutations: Seq<(Seq<char>, SecretMutationModel)>,
    field: Seq<char>,
) -> Option<SecretMutationModel> {
    match first(mutations, of_field(field)) {
        Some(mutation) => Some(mutation.1),
        None => None,
    }
}

fn find_mutation(mutations: &Vec<(String, SecretMutation)>, field: &str) -> (found: Option<
    SecretMutation,
>)
    ensures
        found.deep_view() == mutation_of(mutations.deep_view(), field@),
{
    let this = |m: &(String, SecretMutation)| -> (b: bool)
        ensures
            b == of_field(field@)(m.deep_view()),
        { same(m.0.as_str(), field) };
    match first_row(mutations, &this, Ghost(of_field(field@))) {
        Some(mutation) => Some(mutation.1),
        None => None,
    }
}

pub open spec fn provider_named(id: Seq<char>) -> spec_fn(ProviderSecretModel) -> bool {
    |p: ProviderSecretModel| p.id == id
}

/// The key that a provider has by its id, wherever it stands.
pub open spec fn known_key(current: Seq<ProviderSecretModel>, id: Seq<char>) -> Option<Seq<char>> {
    match first(current, provider_named(id)) {
        Some(provider) => provider.api_key,
        None => None,
    }
}

/// The key that the provider at `index` gets.
pub open spec fn restored_key(
    provider: ProviderSecretModel,
    index: nat,
    current: Seq<ProviderSecretModel>,
    mutations: Seq<(Seq<char>, SecretMutationModel)>,
) -> Result<Option<Seq<char>>, ApiErrorModel> {
    match mutation_of(mutations, provider_field(index)) {
        Some(SecretMutationModel::Replace(value)) => single_secret(value, provider_field(index)),
        Some(SecretMutationModel::Clear) => Ok(None),
        None => Ok(known_key(current, provider.id)),
    }
}

/// The first `n` providers with their keys.
pub open spec fn restored_providers(
    candidate: Seq<ProviderSecretModel>,
    current: Seq<ProviderSecretModel>,
    mutations: Seq<(Seq<char>, SecretMutationModel)>,
    n: nat,
) -> Result<Seq<ProviderSecretModel>, ApiErrorModel>
    decreases n,
{
    if n == 0 {
        Ok(Seq::empty())
    } else {
        match restored_providers(candidate, current, mutations, (n - 1) as nat) {
            Err(error) => Err(error),
            Ok(done) => match restored_key(
                candidate[n - 1],
                (n - 1) as nat,
                current,
                mutations,
            ) {
                Err(error) => Err(error),
                Ok(api_key) => Ok(
                    done.push(ProviderSecretModel { id: candidate[n - 1].id, api_key }),
                ),
            },
        }
    }
}

/// A list of secrets after a page has dealt with it.
pub open spec fn restored_list(
    current: Seq<Seq<char>>,
    mutations: Seq<(Seq<char>, SecretMutationModel)>,
    field: Seq<char>,
) -> Result<Seq<Seq<char>>, ApiErrorModel> {
    match mutation_of(mutations, field) {
        Some(SecretMutationModel::Replace(value)) => secret_list(value, field),
        Some(SecretMutationModel::Clear) => Ok(Seq::empty()),
        None => Ok(current),
    }
}

fn restore_secret_list(
    current: &Vec<String>,
    mutations: &Vec<(String, SecretMutation)>,
    field: &str,
) -> (result: Result<Vec<String>, ApiError>)
    ensures
        checked(result, restored_list(current.deep_view(), mutations.deep_view(), field@)),
{
    match find_mutation(mutations, field) {
        Some(SecretMutation::Replace(value)) => parse_secret_list(value.as_str(), field),
        Some(SecretMutation::Clear) => {
            let none: Vec<String> = Vec::new();
            assert(none.deep_view() =~= Seq::<Seq<char>>::empty());
            Ok(none)
        },
        None => Ok(current.dup()),
    }
}

/// The single key of the exchange rates after a page has dealt with it.
pub open spec fn restored_exchange(
    current: Seq<char>,
    mutations: Seq<(Seq<char>, SecretMutationModel)>,
) -> Result<Seq<char>, ApiErrorModel> {
    match mutation_of(mutations, EXCHANGE_RATE_KEY@) {
        Some(SecretMutationModel::Replace(value)) => match single_secret(value, EXCHANGE_RATE_KEY@) {
            Err(error) => Err(error),
            Ok(Some(key)) => Ok(key),
            Ok(None) => Ok(Seq::empty()),
        },
        Some(SecretMutationModel::Clear) => Ok(Seq::empty()),
        None => Ok(current),
    }
}

/// The fields of a configuration with `n` providers that hold a secret.
pub open spec fn secret_fields(n: nat) -> Seq<Seq<char>> {
    Seq::new(n, |i: int| provider_field(i as nat)) + seq![
        TAVILY_KEYS@,
        FIRECRAWL_KEYS@,
        ANYSEARCH_KEYS@,
        IMAGE_GENERATION_KEYS@,
        EXCHANGE_RATE_KEY@,
    ]
}

pub open spec fn unknown_field(known: Seq<Seq<char>>) -> spec_fn(
    (Seq<char>, SecretMutationModel),
) -> bool {
    |m: (Seq<char>, SecretMutationModel)| !known.contains(m.0)
}

impl SecretConfigModel {
    /// The configuration with the secrets that it has now, but for those that a
    /// page sets or clears.
    pub open spec fn restored(
        self,
        current: SecretConfigModel,
        mutations: Seq<(Seq<char>, SecretMutationModel)>,
    ) -> Result<SecretConfigModel, ApiErrorModel> {
        match restored_providers(
            self.providers,
            current.providers,
            mutations,
            self.providers.len(),
        ) {
            Err(error) => Err(error),
            Ok(providers) => match restored_list(current.tavily_api_keys, mutations, TAVILY_KEYS@) {
                Err(error) => Err(error),
                Ok(tavily_api_keys) => match restored_list(
                    current.firecrawl_api_keys,
                    mutations,
                    FIRECRAWL_KEYS@,
                ) {
                    Err(error) => Err(error),
                    Ok(firecrawl_api_keys) => match restored_list(
                        current.anysearch_api_keys,
                        mutations,
                        ANYSEARCH_KEYS@,
                    ) {
                        Err(error) => Err(error),
                        Ok(anysearch_api_keys) => match restored_list(
                            current.image_generation_api_keys,
                            mutations,
                            IMAGE_GENERATION_KEYS@,
                        ) {
                            Err(error) => Err(error),
                            Ok(image_generation_api_keys) => match restored_exchange(
                                current.exchange_rate_api_key,
                                mutations,
                            ) {
                                Err(error) => Err(error),
                                Ok(exchange_rate_api_key) => match first(
                                    mutations,
                                    unknown_field(secret_fields(self.providers.len())),
                                ) {
                                    Some(mutation) => Err(
                                        ApiErrorModel::bad(
                                            "unknown secret field: "@ + mutation.0,
                                        ),
                                    ),
                                    None => Ok(
                                        SecretConfigModel {
                                            providers,
                                            tavily_api_keys,
                                            firecrawl_api_keys,
                                            anysearch_api_keys,
                                            image_generation_api_keys,
                                            exchange_rate_api_key,
                                        },
                                    ),
                                },
                            },
                        },
                    },
                },
            },
        }
    }
}

fn field_names(n: usize) -> (names: Vec<String>)
    ensures
        names.deep_view() == secret_fields(n as nat),
{
    let mut names: Vec<String> = Vec::new();
    let mut i: usize = 0;
    while i < n
        invariant
            i <= n,
            names.len() == i,
            forall|j: int| 0 <= j < i ==> #[trigger] names[j]@ == provider_field(j as nat),
        decreases n - i,
    {
        names.push(provider_field_text(i));
        i += 1;
    }
    names.push(TAVILY_KEYS.to_owned());
    names.push(FIRECRAWL_KEYS.to_owned());
    names.push(ANYSEARCH_KEYS.to_owned());
    names.push(IMAGE_GENERATION_KEYS.to_owned());
    names.push(EXCHANGE_RATE_KEY.to_owned());
    assert(names.deep_view() =~= secret_fields(n as nat));
    names
}

fn restore_providers(
    candidate: &Vec<ProviderSecret>,
    current: &Vec<ProviderSecret>,
    mutations: &Vec<(String, SecretMutation)>,
) -> (result: Result<Vec<ProviderSecret>, ApiError>)
    ensures
        checked(
            result,
            restored_providers(
                candidate.deep_view(),
                current.deep_view(),
                mutations.deep_view(),
                candidate.deep_view().len(),
            ),
        ),
{
    let mut done: Vec<ProviderSecret> = Vec::new();
    let mut i: usize = 0;
    let ghost all = candidate.deep_view();
    let ghost known = current.deep_view();
    let ghost changes = mutations.deep_view();
    assert(done.deep_view() =~= Seq::<ProviderSecretModel>::empty());
    while i < candidate.len()
        invariant
            i <= candidate.len(),
            all == candidate.deep_view(),
            known == current.deep_view(),
            changes == mutations.deep_view(),
            restored_providers(all, known, changes, i as nat) == Ok::<
                Seq<ProviderSecretModel>,
                ApiErrorModel,
            >(done.deep_view()),
        decreases candidate.len() - i,
    {
        let ghost before = done.deep_view();
        assert(all[i as int] == candidate[i as int].deep_view());
        proof {
            lemma_restore_fails(all, known, changes, (i + 1) as nat);
        }
        let field = provider_field_text(i);
        let id = &candidate[i].id;
        let api_key = match find_mutation(mutations, field.as_str()) {
            Some(SecretMutation::Replace(value)) => {
                match normalize_single_secret(value.as_str(), field.as_str()) {
                    Ok(key) => key,
                    Err(error) => return Err(error),
                }
            },
            Some(SecretMutation::Clear) => None,
            None => {
                let this = |p: &ProviderSecret| -> (b: bool)
                    ensures
                        b == provider_named(id@)(p.deep_view()),
                    { same(p.id.as_str(), id.as_str()) };
                match first_row(current, &this, Ghost(provider_named(id@))) {
                    Some(provider) => provider.api_key,
                    None => None,
                }
            },
        };
        let provider = ProviderSecret { id: id.clone(), api_key };
        done.push(provider);
        assert(done.deep_view() =~= before.push(provider.deep_view()));
        i += 1;
    }
    Ok(done)
}

/// What is wrong with the first providers is wrong with all.
proof fn lemma_restore_fails(
    candidate: Seq<ProviderSecretModel>,
    current: Seq<ProviderSecretModel>,
    mutations: Seq<(Seq<char>, SecretMutationModel)>,
    n: nat,
)
    requires
        n <= candidate.len(),
    ensures
        restored_providers(candidate, current, mutations, n) matches Err(error)
            ==> restored_providers(candidate, current, mutations, candidate.len()) == Err::<
            Seq<ProviderSecretModel>,
            ApiErrorModel,
        >(error),
    decreases candidate.len() - n,
{
    if n < candidate.len() {
        lemma_restore_fails(candidate, current, mutations, n + 1);
    }
}

/// The configuration that a page sent, with the secrets that it was not shown.
pub fn restore_config_secrets(
    candidate: &SecretConfig,
    current: &SecretConfig,
    mutations: &Vec<(String, SecretMutation)>,
) -> (result: Result<SecretConfig, ApiError>)
    ensures
        checked(
            result,
            candidate.deep_view().restored(current.deep_view(), mutations.deep_view()),
        ),
{
    let providers = match restore_providers(&candidate.providers, &current.providers, mutations) {
        Ok(providers) => providers,
        Err(error) => return Err(error),
    };
    let tavily_api_keys = match restore_secret_list(
        &current.tavily_api_keys,
        mutations,
        TAVILY_KEYS,
    ) {
        Ok(list) => list,
        Err(error) => return Err(error),
    };
    let firecrawl_api_keys = match restore_secret_list(
        &current.firecrawl_api_keys,
        mutations,
        FIRECRAWL_KEYS,
    ) {
        Ok(list) => list,
        Err(error) => return Err(error),
    };
    let anysearch_api_keys = match restore_secret_list(
        &current.anysearch_api_keys,
        mutations,
        ANYSEARCH_KEYS,
    ) {
        Ok(list) => list,
        Err(error) => return Err(error),
    };
    let image_generation_api_keys = match restore_secret_list(
        &current.image_generation_api_keys,
        mutations,
        IMAGE_GENERATION_KEYS,
    ) {
        Ok(list) => list,
        Err(error) => return Err(error),
    };
    let exchange_rate_api_key = match find_mutation(mutations, EXCHANGE_RATE_KEY) {
        Some(SecretMutation::Replace(value)) => {
            match normalize_single_secret(value.as_str(), EXCHANGE_RATE_KEY) {
                Ok(Some(key)) => key,
                Ok(None) => String::new(),
                Err(error) => return Err(error),
            }
        },
        Some(SecretMutation::Clear) => String::new(),
        None => current.exchange_rate_api_key.clone(),
    };
    let known = field_names(candidate.providers.len());
    let strange = |m: &(String, SecretMutation)| -> (b: bool)
        ensures
            b == unknown_field(known.deep_view())(m.deep_view()),
        { !one_of(&known, m.0.as_str()) };
    if let Some(mutation) = first_row(mutations, &strange, Ghost(unknown_field(known.deep_view()))) {
        return Err(
            ApiError::bad("unknown secret field: ".to_owned().concat(mutation.0.as_str())),
        );
    }
    Ok(
        SecretConfig {
            providers,
            tavily_api_keys,
            firecrawl_api_keys,
            anysearch_api_keys,
            image_generation_api_keys,
            exchange_rate_api_key,
        },
    )
}

pub open spec fn model_is(model: ActiveProviderModelConfigModel) -> spec_fn(
    ActiveProviderModelConfigModel,
) -> bool {
    |m: ActiveProviderModelConfigModel| m == model
}

/// What is wrong with the first `n` provider ids: one occurs twice.
pub open spec fn ids_fault(ids: Seq<Seq<char>>, n: nat) -> Option<Seq<char>>
    decreases n,
{
    if n == 0 {
        None
    } else {
        let before = ids_fault(ids, (n - 1) as nat);
        if before is Some {
            before
        } else if exists|j: int| 0 <= j < n - 1 && trimmed(#[trigger] ids[j]) == trimmed(ids[n - 1]) {
            Some(ids[n - 1])
        } else {
            None
        }
    }
}

/// What is wrong with the first `n` models that read pictures: one is not
/// offered, or occurs twice.
pub open spec fn pictures_fault(
    active: Seq<ActiveProviderModelConfigModel>,
    choices: Seq<ActiveProviderModelConfigModel>,
    n: nat,
) -> Option<ActiveProviderModelConfigModel>
    decreases n,
{
    if n == 0 {
        None
    } else {
        let before = pictures_fault(active, choices, (n - 1) as nat);
        if before is Some {
            before
        } else if any(active.take(n - 1), model_is(active[n - 1])) || !any(
            choices,
            model_is(active[n - 1]),
        ) {
            Some(active[n - 1])
        } else {
            None
        }
    }
}

/// Whether a configuration may be used. `fault` and `active_fault` are what is
/// found wrong with it as a whole, and with its active models.
pub open spec fn candidate_check(
    fault: Option<Seq<char>>,
    provider_ids: Seq<Seq<char>>,
    active_fault: Option<Seq<char>>,
    active_multimodal: Seq<ActiveProviderModelConfigModel>,
    choices: Seq<ActiveProviderModelConfigModel>,
) -> Result<(), ApiErrorModel> {
    match fault {
        Some(fault) => Err(
            ApiErrorModel::bad("invalid configuration: "@ + shown_error(fault)),
        ),
        None => match ids_fault(provider_ids, provider_ids.len()) {
            Some(id) => Err(ApiErrorModel::bad("duplicate provider id: "@ + id)),
            None => match active_fault {
                Some(fault) => Err(ApiErrorModel::bad(shown_error(fault))),
                None => match pictures_fault(
                    active_multimodal,
                    choices,
                    active_multimodal.len(),
                ) {
                    Some(model) => Err(
                        ApiErrorModel::bad(
                            "invalid multimodal provider/model: "@ + model.provider_id + " / "@
                                + model.model,
                        ),
                    ),
                    None => Ok(()),
                },
            },
        },
    }
}

fn find_ids_fault(ids: &Vec<String>) -> (fault: Option<String>)
    ensures
        fault.deep_view() == ids_fault(ids.deep_view(), ids.deep_view().len()),
{
    let mut i: usize = 0;
    let ghost all = ids.deep_view();
    while i < ids.len()
        invariant
            i <= ids.len(),
            all == ids.deep_view(),
            ids_fault(all, i as nat) is None,
        decreases ids.len() - i,
    {
        let mine = trim(ids[i].as_str());
        assert(all[i as int] == ids[i as int]@);
        let mut j: usize = 0;
        while j < i
            invariant
                j <= i < ids.len(),
                all == ids.deep_view(),
                all[i as int] == ids[i as int]@,
                mine@ == trimmed(all[i as int]),
                ids_fault(all, i as nat) is None,
                forall|k: int| 0 <= k < j ==> trimmed(#[trigger] all[k]) != mine@,
            decreases i - j,
        {
            assert(all[j as int] == ids[j as int]@);
            let other = trim(ids[j].as_str());
            if same(other.as_str(), mine.as_str()) {
                proof {
                    lemma_ids_fault_stays(all, (i + 1) as nat);
                }
                return Some(ids[i].clone());
            }
            j += 1;
        }
        i += 1;
    }
    None
}

proof fn lemma_ids_fault_stays(ids: Seq<Seq<char>>, n: nat)
    requires
        n <= ids.len(),
        ids_fault(ids, n) is Some,
    ensures
        ids_fault(ids, ids.len()) == ids_fault(ids, n),
    decreases ids.len() - n,
{
    if n < ids.len() {
        lemma_ids_fault_stays(ids, n + 1);
    }
}

proof fn lemma_pictures_fault_stays(
    active: Seq<ActiveProviderModelConfigModel>,
    choices: Seq<ActiveProviderModelConfigModel>,
    n: nat,
)
    requires
        n <= active.len(),
        pictures_fault(active, choices, n) is Some,
    ensures
        pictures_fault(active, choices, active.len()) == pictures_fault(active, choices, n),
    decreases active.len() - n,
{
    if n < active.len() {
        lemma_pictures_fault_stays(active, choices, n + 1);
    }
}

fn find_pictures_fault(
    active: &Vec<ActiveProviderModelConfig>,
    choices: &Vec<ActiveProviderModelConfig>,
) -> (fault: Option<ActiveProviderModelConfig>)
    ensures
        fault.deep_view() == pictures_fault(
            active.deep_view(),
            choices.deep_view(),
            active.deep_view().len(),
        ),
{
    let mut seen: Vec<ActiveProviderModelConfig> = Vec::new();
    let mut i: usize = 0;
    let ghost all = active.deep_view();
    assert(seen.deep_view() =~= all.take(0));
    while i < active.len()
        invariant
            i <= active.len(),
            all == active.deep_view(),
            seen.deep_view() == all.take(i as int),
            pictures_fault(all, choices.deep_view(), i as nat) is None,
        decreases active.len() - i,
    {
        let ghost before = seen.deep_view();
        let model = &active[i];
        assert(all[i as int] == model.deep_view());
        let same_model = |m: &ActiveProviderModelConfig| -> (b: bool)
            ensures
                b == model_is(model.deep_view())(m.deep_view()),
            {
                same(m.provider_id.as_str(), model.provider_id.as_str()) && same(
                    m.model.as_str(),
                    model.model.as_str(),
                )
            };
        let twice = exists_row(&seen, &same_model, Ghost(model_is(model.deep_view())));
        let offered = exists_row(choices, &same_model, Ghost(model_is(model.deep_view())));
        if twice || !offered {
            proof {
                lemma_pictures_fault_stays(all, choices.deep_view(), (i + 1) as nat);
            }
            return Some(model.dup());
        }
        seen.push(model.dup());
        assert(seen.deep_view() =~= before.push(model.deep_view()));
        assert(all.take(i + 1) =~= all.take(i as int).push(all[i as int]));
        i += 1;
    }
    None
}

/// Whether a configuration may be used. `fault` and `active_fault` are what is
/// found wrong with it as a whole, and with its active models; `active_multimodal`
/// are the models that read pictures, of the `choices` that there are.
pub fn validate_config_candidate(
    fault: Option<&str>,
    provider_ids: &Vec<String>,
    active_fault: Option<&str>,
    active_multimodal: &Vec<ActiveProviderModelConfig>,
    choices: &Vec<ActiveProviderModelConfig>,
) -> (result: Result<(), ApiError>)
    ensures
        checked(
            result,
            candidate_check(
                fault.deep_view(),
                provider_ids.deep_view(),
                active_fault.deep_view(),
                active_multimodal.deep_view(),
                choices.deep_view(),
            ),
        ),
{
    if let Some(fault) = fault {
        let message = safe_error_message(fault);
        return Err(ApiError::bad("invalid configuration: ".to_owned().concat(message.as_str())));
    }
    if let Some(id) = find_ids_fault(provider_ids) {
        return Err(ApiError::bad("duplicate provider id: ".to_owned().concat(id.as_str())));
    }
    if let Some(fault) = active_fault {
        return Err(ApiError::bad(safe_error_message(fault)));
    }
    if let Some(model) = find_pictures_fault(active_multimodal, choices) {
        return Err(
            ApiError::bad(
                "invalid multimodal provider/model: ".to_owned().concat(
                    model.provider_id.as_str(),
                ).concat(" / ").concat(model.model.as_str()),
            ),
        );
    }
    Ok(())
}

} // verus!
