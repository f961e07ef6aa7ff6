//! Logins, and where a request may come from.

use crate::digest::{sha256, sha256_of};
use crate::table::{first, first_row, put, put_row, Row};
use crate::text::{same, trim, trimmed};
use crate::textset::{ascending, insert_text};
use crate::web::error::{checked, ApiError, ApiErrorModel, StatusCode};
use crate::web::util::{
    base64_url, random_token, url_safe_text, AUTH_COOKIE, LOGIN_ATTEMPT_LIMIT, LOGIN_WINDOW,
};
use crate::words::{cut, is_char, pieces, split_at_char, split_once};
use vstd::prelude::*;

verus! {

/// How many logins are remembered at once.
pub const MAX_SESSIONS: usize = 64;

/// The failed logins of one peer since a point in time, which is counted in
/// milliseconds.
pub struct LoginAttempt {
    pub peer: String,
    pub window_started: u64,
    pub failures: u8,
}

/// The model of [`LoginAttempt`].
#[verifier::ext_equal]
pub struct LoginAttemptModel {
    pub peer: Seq<char>,
    pub window_started: u64,
    pub failures: u8,
}

impl DeepView for LoginAttempt {
    type V = LoginAttemptModel;

    open spec fn deep_view(&self) -> LoginAttemptModel {
        LoginAttemptModel {
            peer: self.peer@,
            window_started: self.window_started,
            failures: self.failures,
        }
    }
}

impl Row for LoginAttempt {
    fn dup(&self) -> (copy: Self) {
        LoginAttempt {
            peer: self.peer.clone(),
            window_started: self.window_started,
            failures: self.failures,
        }
    }
}

/// Why a login was refused.
#[derive(Debug, Clone, Copy, PartialEq, Eq, Structural)]
pub enum LoginFailure {
    Invalid,
    RateLimited,
}

/// Who is logged in, and who has failed to.
pub struct WebAuth {
    password_digest: Option<Vec<u8>>,
    sessions: Vec<String>,
    attempts: Vec<LoginAttempt>,
}

/// The model of [`WebAuth`].
#[verifier::ext_equal]
pub struct AuthModel {
    /// The digest of the password, where there is one.
    pub digest: Option<Seq<u8>>,
    /// The tokens of those who are logged in, in order.
    pub sessions: Seq<Seq<char>>,
    pub attempts: Seq<LoginAttemptModel>,
}

impl View for WebAuth {
    type V = AuthModel;

    closed spec fn view(&self) -> AuthModel {
        AuthModel {
            digest: match self.password_digest {
                Some(digest) => Some(digest@),
                None => None,
            },
            sessions: self.sessions.deep_view(),
            attempts: self.attempts.deep_view(),
        }
    }
}

pub open spec fn of_peer(peer: Seq<char>) -> spec_fn(LoginAttemptModel) -> bool {
    |a: LoginAttemptModel| a.peer == peer
}

pub open spec fn becomes(attempt: LoginAttemptModel) -> spec_fn(
    LoginAttemptModel,
) -> LoginAttemptModel {
    |a: LoginAttemptModel| attempt
}

/// How long ago `then` was, in milliseconds.
pub open spec fn elapsed(now: u64, then: u64) -> nat {
    if now < then {
        0
    } else {
        (now - then) as nat
    }
}

/// One more, but no more than the largest number.
pub open spec fn one_more(n: u8) -> u8 {
    if n == u8::MAX {
        n
    } else {
        (n + 1) as u8
    }
}

/// The digest of a password.
pub open spec fn digest_of(password: Seq<char>) -> Seq<u8> {
    sha256(vstd::utf8::encode_utf8(password))
}

impl AuthModel {
    /// The tokens are in order, without repetition.
    pub open spec fn well_formed(self) -> bool {
        ascending(self.sessions)
    }

    pub open spec fn authenticates(self, supplied: Option<Seq<char>>) -> bool {
        self.digest is None || match supplied {
            Some(token) => self.sessions.contains(token),
            None => false,
        }
    }

    /// The failed logins of a peer. Those of a window that is over do not count.
    pub open spec fn attempt_of(self, peer: Seq<char>, now: u64) -> LoginAttemptModel {
        let fresh = LoginAttemptModel { peer, window_started: now, failures: 0 };
        match first(self.attempts, of_peer(peer)) {
            Some(attempt) => if elapsed(now, attempt.window_started) >= LOGIN_WINDOW {
                fresh
            } else {
                LoginAttemptModel { peer, ..attempt }
            },
            None => fresh,
        }
    }

    pub open spec fn with_attempt(self, attempt: LoginAttemptModel) -> AuthModel {
        AuthModel {
            attempts: put(self.attempts, of_peer(attempt.peer), becomes(attempt), attempt),
            ..self
        }
    }

    /// Whether `after` is this with one more login remembered. Where there are
    /// too many, only the new one is.
    pub open spec fn logged_in(self, after: AuthModel, token: Seq<char>) -> bool {
        let all = self.sessions.to_set().insert(token);
        &&& after.digest == self.digest
        &&& after.attempts == self.attempts
        &&& ascending(after.sessions)
        &&& after.sessions.to_set() == if all.len() > MAX_SESSIONS {
            set![token]
        } else {
            all
        }
    }

    /// Whether a login leads to `after` and gives `result`, where `token` is the
    /// next token.
    pub open spec fn login(
        self,
        peer: Seq<char>,
        password: Seq<char>,
        now: u64,
        token: Seq<char>,
        after: AuthModel,
        result: Result<Seq<char>, LoginFailure>,
    ) -> bool {
        let attempt = self.attempt_of(peer, now);
        match self.digest {
            None => after == self && result == Ok::<Seq<char>, LoginFailure>(Seq::empty()),
            Some(digest) => if attempt.failures >= LOGIN_ATTEMPT_LIMIT {
                &&& after == self.with_attempt(attempt)
                &&& result == Err::<Seq<char>, LoginFailure>(LoginFailure::RateLimited)
            } else if digest_of(password) != digest {
                &&& after == self.with_attempt(attempt).with_attempt(
                    LoginAttemptModel { failures: one_more(attempt.failures), ..attempt },
                )
                &&& result == Err::<Seq<char>, LoginFailure>(LoginFailure::Invalid)
            } else {
                &&& self.with_attempt(attempt).logged_in(after, token)
                &&& result == Ok::<Seq<char>, LoginFailure>(token)
            },
        }
    }
}

fn is_peer(a: &LoginAttempt, peer: &str) -> (b: bool)
    ensures
        b == of_peer(peer@)(a.deep_view()),
{
    same(a.peer.as_str(), peer)
}

impl WebAuth {
    /// Nobody is logged in. Without a password everybody counts as such.
    pub fn new(password: Option<&str>) -> (auth: WebAuth)
        ensures
            auth@.well_formed(),
            auth@ == (AuthModel {
                digest: match password.deep_view() {
                    Some(password) => Some(digest_of(password)),
                    None => None,
                },
                sessions: Seq::empty(),
                attempts: Seq::empty(),
            }),
    {
        let auth = WebAuth {
            password_digest: match password {
                Some(password) => Some(sha256_of(password.as_bytes())),
                None => None,
            },
            sessions: Vec::new(),
            attempts: Vec::new(),
        };
        assert(auth@.sessions =~= Seq::<Seq<char>>::empty());
        assert(auth@.attempts =~= Seq::<LoginAttemptModel>::empty());
        auth
    }

    pub fn required(&self) -> (yes: bool)
        ensures
            yes == self@.digest is Some,
    {
        self.password_digest.is_some()
    }

    /// Whether a token is that of a login.
    pub fn is_authenticated(&self, supplied: Option<&str>) -> (yes: bool)
        ensures
            yes == self@.authenticates(supplied.deep_view()),
    {
        if !self.required() {
            return true;
        }
        match supplied {
            Some(token) => crate::text::one_of(&self.sessions, token),
            None => false,
        }
    }

    fn put_attempt(&mut self, attempt: LoginAttempt)
        ensures
            final(self)@ == old(self)@.with_attempt(attempt.deep_view()),
    {
        let mine = |a: &LoginAttempt| -> (b: bool)
            ensures
                b == of_peer(attempt.peer@)(a.deep_view()),
            { is_peer(a, attempt.peer.as_str()) };
        let new = |a: &LoginAttempt| -> (b: LoginAttempt)
            ensures
                b.deep_view() == becomes(attempt.deep_view())(a.deep_view()),
            { attempt.dup() };
        put_row(
            &mut self.attempts,
            &mine,
            &new,
            attempt.dup(),
            Ghost(of_peer(attempt.peer@)),
            Ghost(becomes(attempt.deep_view())),
        );
    }

    fn attempt_of(&self, peer: &str, now: u64) -> (attempt: LoginAttempt)
        ensures
            attempt.deep_view() == self@.attempt_of(peer@, now),
    {
        let mine = |a: &LoginAttempt| -> (b: bool)
            ensures
                b == of_peer(peer@)(a.deep_view()),
            { is_peer(a, peer) };
        match first_row(&self.attempts, &mine, Ghost(of_peer(peer@))) {
            Some(attempt) => {
                let gone: u64 = if now < attempt.window_started {
                    0
                } else {
                    now - attempt.window_started
                };
                if gone >= LOGIN_WINDOW {
                    LoginAttempt { peer: peer.to_owned(), window_started: now, failures: 0 }
                } else {
                    LoginAttempt {
                        peer: peer.to_owned(),
                        window_started: attempt.window_started,
                        failures: attempt.failures,
                    }
                }
            },
            None => LoginAttempt { peer: peer.to_owned(), window_started: now, failures: 0 },
        }
    }

    /// Lets a peer in who knows the password, and remembers the token. `now` is
    /// the time in milliseconds.
    pub fn login_with(&mut self, peer: &str, password: &str, now: u64, token: String) -> (result:
        Result<String, LoginFailure>)
        requires
            old(self)@.well_formed(),
        ensures
            final(self)@.well_formed(),
            old(self)@.login(
                peer@,
                password@,
                now,
                token@,
                final(self)@,
                match result {
                    Ok(token) => Ok(token@),
                    Err(failure) => Err(failure),
                },
            ),
    {
        let expected = match &self.password_digest {
            Some(digest) => {
                let copy = digest.dup();
                assert(copy@ =~= copy.deep_view());
                assert(digest@ =~= digest.deep_view());
                copy
            },
            None => return Ok(String::new()),
        };
        let attempt = self.attempt_of(peer, now);
        self.put_attempt(attempt.dup());
        if attempt.failures >= LOGIN_ATTEMPT_LIMIT {
            return Err(LoginFailure::RateLimited);
        }
        let supplied = sha256_of(password.as_bytes());
        if !constant_time_eq(supplied.as_slice(), expected.as_slice()) {
            let failures: u8 = if attempt.failures == u8::MAX {
                attempt.failures
            } else {
                attempt.failures + 1
            };
            let failed = LoginAttempt {
                peer: attempt.peer,
                window_started: attempt.window_started,
                failures,
            };
            self.put_attempt(failed);
            return Err(LoginFailure::Invalid);
        }
        let ghost before = self@;
        insert_text(&mut self.sessions, token.as_str());
        proof {
            lemma_ascending_len(self.sessions.deep_view());
        }
        if self.sessions.len() > MAX_SESSIONS {
            let mut only: Vec<String> = Vec::new();
            only.push(token.clone());
            proof {
                assert(only.deep_view() =~= seq![token@]);
                assert(seq![token@].to_set() =~= set![token@]) by {
                    assert(seq![token@][0] == token@);
                }
            }
            self.sessions = only;
        }
        assert(before.logged_in(self@, token@));
        Ok(token)
    }

    /// Lets a peer in who knows the password, and makes a token that the peer is
    /// known by from then on. `now` is the time in milliseconds.
    pub fn login(&mut self, peer: &str, password: &str, now: u64) -> (result: Result<
        String,
        LoginFailure,
    >)
        requires
            old(self)@.well_formed(),
        ensures
            final(self)@.well_formed(),
            exists|drawn: Seq<u8>|
                drawn.len() == 32 && url_safe_text(base64_url(drawn)) && old(self)@.login(
                    peer@,
                    password@,
                    now,
                    #[trigger] base64_url(drawn),
                    final(self)@,
                    match result {
                        Ok(token) => Ok(token@),
                        Err(failure) => Err(failure),
                    },
                ),
    {
        let token = random_token(32);
        self.login_with(peer, password, now, token)
    }
}

/// A sequence in order has no repetitions.
proof fn lemma_ascending_len(s: Seq<Seq<char>>)
    requires
        ascending(s),
    ensures
        s.to_set().len() == s.len(),
{
    assert(s.no_duplicates()) by {
        assert forall|i: int, j: int| 0 <= i < s.len() && 0 <= j < s.len() && i != j implies s[i]
            != s[j] by {
            if i < j {
                crate::textset::lemma_precedes_irreflexive(s[i]);
                assert(crate::text::precedes(s[i], s[j]));
            } else {
                crate::textset::lemma_precedes_irreflexive(s[i]);
                assert(crate::text::precedes(s[j], s[i]));
            }
        }
    }
    s.unique_seq_to_set();
}

/// Whether two byte strings are equal. The time it takes depends on their
/// lengths alone.
pub fn constant_time_eq(left: &[u8], right: &[u8]) -> (equal: bool)
    ensures
        equal == (left@ == right@),
{
    let n: usize = left.len();
    let m: usize = right.len();
    let mut difference: usize = n ^ m;
    let length: usize = if n > m {
        n
    } else {
        m
    };
    assert((n ^ m) == 0usize <==> n == m) by (bit_vector);
    let mut i: usize = 0;
    while i < length
        invariant
            i <= length,
            n == left.len(),
            m == right.len(),
            length == if n > m {
                n
            } else {
                m
            },
            difference == 0 <==> (n == m && forall|j: int|
                0 <= j < i && j < n && j < m ==> left@[j] == right@[j]),
        decreases length - i,
    {
        let a: u8 = if i < n {
            left[i]
        } else {
            0
        };
        let b: u8 = if i < m {
            right[i]
        } else {
            0
        };
        let x: usize = (a ^ b) as usize;
        let before: usize = difference;
        assert((a ^ b) == 0u8 <==> a == b) by (bit_vector);
        assert((before | x) == 0usize <==> (before == 0usize && x == 0usize)) by (bit_vector);
        difference = before | x;
        i += 1;
    }
    assert(difference == 0 ==> left@ =~= right@);
    difference == 0
}

/// The headers of a request that decide who may do what. Where a header is not
/// text, `None` stands for its value.
pub struct RequestHeaders {
    pub cookies: Vec<Option<String>>,
    pub origins: Vec<Option<String>>,
    /// The first `Host` header.
    pub host: Option<String>,
}

/// The value of a cookie in one of the pieces of a header.
pub open spec fn pair_value(pair: Seq<char>, name: Seq<char>) -> Option<Seq<char>> {
    match cut(trimmed(pair), '=') {
        Some((key, value)) => if trimmed(key) == name {
            Some(trimmed(value))
        } else {
            None
        },
        None => None,
    }
}

/// The value of a cookie: that of the first piece that names it.
pub open spec fn pairs_value(pairs: Seq<Seq<char>>, name: Seq<char>) -> Option<Seq<char>>
    decreases pairs.len(),
{
    if pairs.len() == 0 {
        None
    } else if pair_value(pairs[0], name) is Some {
        pair_value(pairs[0], name)
    } else {
        pairs_value(pairs.drop_first(), name)
    }
}

/// The value of a cookie in the headers that are text.
pub open spec fn cookie(headers: Seq<Option<Seq<char>>>, name: Seq<char>) -> Option<Seq<char>>
    decreases headers.len(),
{
    if headers.len() == 0 {
        None
    } else {
        let here = match headers[0] {
            Some(header) => pairs_value(pieces(header, is_char(';')), name),
            None => None,
        };
        if here is Some {
            here
        } else {
            cookie(headers.drop_first(), name)
        }
    }
}

fn value_in(header: &str, name: &str) -> (value: Option<String>)
    ensures
        value.deep_view() == pairs_value(pieces(header@, is_char(';')), name@),
{
    let pairs = split_at_char(header, ';');
    let ghost all = pairs.deep_view();
    let mut i: usize = 0;
    assert(all.skip(0) =~= all);
    while i < pairs.len()
        invariant
            i <= pairs.len(),
            all == pairs.deep_view(),
            all == pieces(header@, is_char(';')),
            pairs_value(all, name@) == pairs_value(all.skip(i as int), name@),
        decreases pairs.len() - i,
    {
        assert(all.skip(i as int)[0] == pairs[i as int]@);
        assert(all.skip(i as int).drop_first() =~= all.skip(i + 1));
        let pair = trim(pairs[i].as_str());
        if let Some((key, value)) = split_once(pair.as_str(), '=') {
            assert(cut(pair@, '=') == Some((key@, value@)));
            let key = trim(key.as_str());
            if same(key.as_str(), name) {
                let found = trim(value.as_str());
                assert(pair_value(all[i as int], name@) == Some(found@));
                return Some(found);
            }
        }
        i += 1;
    }
    None
}

/// The value of a cookie of a request.
pub fn cookie_value(headers: &RequestHeaders, name: &str) -> (value: Option<String>)
    ensures
        value.deep_view() == cookie(headers.cookies.deep_view(), name@),
{
    let ghost all = headers.cookies.deep_view();
    let mut i: usize = 0;
    assert(all.skip(0) =~= all);
    while i < headers.cookies.len()
        invariant
            i <= headers.cookies.len(),
            all == headers.cookies.deep_view(),
            cookie(all, name@) == cookie(all.skip(i as int), name@),
        decreases headers.cookies.len() - i,
    {
        assert(all.skip(i as int)[0] == headers.cookies[i as int].deep_view());
        assert(all.skip(i as int).drop_first() =~= all.skip(i + 1));
        if let Some(header) = &headers.cookies[i] {
            let found = value_in(header.as_str(), name);
            if found.is_some() {
                return found;
            }
        }
        i += 1;
    }
    None
}

/// Whether a request comes from a page of this server: it names no origin, or
/// one only, and that is the host it was sent to.
pub open spec fn same_origin(origins: Seq<Option<Seq<char>>>, host: Option<Seq<char>>) -> bool {
    origins.len() == 0 || origins.len() == 1 && match (origins[0], host) {
        (Some(origin), Some(host)) => origin == "http://"@ + host,
        _ => false,
    }
}

/// Whether a request comes from a page of this server.
pub fn origin_is_allowed(headers: &RequestHeaders) -> (yes: bool)
    ensures
        yes == same_origin(headers.origins.deep_view(), headers.host.deep_view()),
{
    if headers.origins.len() == 0 {
        return true;
    }
    if headers.origins.len() > 1 {
        return false;
    }
    assert(headers.origins.deep_view()[0] == headers.origins[0].deep_view());
    match (&headers.origins[0], &headers.host) {
        (Some(origin), Some(host)) => {
            let expected = "http://".to_owned().concat(host.as_str());
            same(origin.as_str(), expected.as_str())
        },
        _ => false,
    }
}

/// Whether a request may be answered.
pub open spec fn auth_check(auth: AuthModel, cookies: Seq<Option<Seq<char>>>) -> Result<
    (),
    ApiErrorModel,
> {
    if auth.authenticates(cookie(cookies, AUTH_COOKIE@)) {
        Ok(())
    } else {
        Err(ApiErrorModel::new(StatusCode::Unauthorized, "authentication required"@))
    }
}

/// Whether a request may change something.
pub open spec fn mutation_check(
    auth: AuthModel,
    cookies: Seq<Option<Seq<char>>>,
    origins: Seq<Option<Seq<char>>>,
    host: Option<Seq<char>>,
) -> Result<(), ApiErrorModel> {
    match auth_check(auth, cookies) {
        Err(error) => Err(error),
        Ok(_) => if same_origin(origins, host) {
            Ok(())
        } else {
            Err(ApiErrorModel::new(StatusCode::Forbidden, "request origin is not allowed"@))
        },
    }
}

/// Whether a request may be answered.
pub fn require_auth(headers: &RequestHeaders, auth: &WebAuth) -> (result: Result<(), ApiError>)
    ensures
        checked(result, auth_check(auth@, headers.cookies.deep_view())),
{
    let cookie = cookie_value(headers, AUTH_COOKIE);
    let token = match &cookie {
        Some(token) => Some(token.as_str()),
        None => None,
    };
    if auth.is_authenticated(token) {
        Ok(())
    } else {
        Err(ApiError::new(StatusCode::Unauthorized, "authentication required"))
    }
}

/// Whether a request may change something.
pub fn require_mutation(headers: &RequestHeaders, auth: &WebAuth) -> (result: Result<(), ApiError>)
    ensures
        checked(
            result,
            mutation_check(
                auth@,
                headers.cookies.deep_view(),
                headers.origins.deep_view(),
                headers.host.deep_view(),
            ),
        ),
{
    match require_auth(headers, auth) {
        Err(error) => Err(error),
        Ok(()) => if origin_is_allowed(headers) {
            Ok(())
        } else {
            Err(ApiError::new(StatusCode::Forbidden, "request origin is not allowed"))
        },
    }
}

} // verus!
