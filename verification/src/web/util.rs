//! Limits, tokens and messages of the web interface.

use crate::text::{
    at_most, control, decimal, decimal_text, is_blank, is_control, keep_chars, take_chars, trimmed,
};
use vstd::prelude::*;

verus! {

/// How large a request may be, in bytes.
pub const JSON_BODY_LIMIT: usize = 4194304;

/// How long a message may be.
pub const MAX_CONTENT_CHARS: usize = 20000;

/// How long a prompt document may be.
pub const MAX_PROMPT_DOCUMENT_CHARS: usize = 200000;

/// How many prompt documents of a kind there may be.
pub const MAX_PROMPT_DOCUMENTS: usize = 128;

/// How long the text of a secret may be.
pub const MAX_SECRET_CHARS: usize = 100000;

/// How many events are kept for those who come back.
pub const EVENT_CAPACITY: usize = 4096;

/// The cookie that holds the token of a login.
pub const AUTH_COOKIE: &'static str = "gqy_session";

/// How long failed logins are remembered, in milliseconds.
pub const LOGIN_WINDOW: u64 = 60000;

/// How many failed logins are one too many.
pub const LOGIN_ATTEMPT_LIMIT: u8 = 5;

/// The text that `base64` writes for some bytes in the alphabet that is safe in
/// URLs, without padding.
pub uninterp spec fn base64_url(bytes: Seq<u8>) -> Seq<char>;

/// A letter or digit of ASCII, a dash or an underscore.
pub open spec fn url_safe(c: char) -> bool {
    'A' <= c <= 'Z' || 'a' <= c <= 'z' || '0' <= c <= '9' || c == '-' || c == '_'
}

/// Whether a text is made of characters that are safe in URLs.
pub open spec fn url_safe_text(s: Seq<char>) -> bool {
    forall|i: int| 0 <= i < s.len() ==> url_safe(#[trigger] s[i])
}

/// How many random bytes are drawn at most, so that their text fits in memory on
/// every machine.
pub const MAX_TOKEN_BYTES: usize = 0x20000000;

/// `base64`'s `URL_SAFE_NO_PAD` engine, which writes nothing but the characters
/// of its alphabet and panics where the length of the text would not fit.
#[verifier::external_body]
pub(crate) fn encode_base64_url(bytes: &Vec<u8>) -> (text: String)
    requires
        bytes.len() <= MAX_TOKEN_BYTES,
    ensures
        text@ == base64_url(bytes@),
        url_safe_text(text@),
{
    base64::Engine::encode(&base64::engine::general_purpose::URL_SAFE_NO_PAD, bytes)
}

/// `rand::rngs::OsRng`, filling a buffer of `n` bytes. Nothing is promised of
/// the bytes. It panics where the operating system has no random bytes to give.
#[verifier::external_body]
pub(crate) fn random_bytes(n: usize) -> (bytes: Vec<u8>)
    requires
        n <= MAX_TOKEN_BYTES,
    ensures
        bytes.len() == n,
{
    let mut buffer = vec![0u8; n];
    rand::RngCore::fill_bytes(&mut rand::rngs::OsRng, &mut buffer);
    buffer
}

/// The text of some random bytes.
pub fn random_token(bytes: usize) -> (token: String)
    requires
        bytes <= MAX_TOKEN_BYTES,
    ensures
        url_safe_text(token@),
        exists|drawn: Seq<u8>| drawn.len() == bytes && token@ == #[trigger] base64_url(drawn),
{
    let buffer = random_bytes(bytes);
    encode_base64_url(&buffer)
}

/// An id with a random end.
pub fn random_id(prefix: &str, bytes: usize) -> (id: String)
    requires
        bytes <= MAX_TOKEN_BYTES,
    ensures
        exists|drawn: Seq<u8>|
            drawn.len() == bytes && id@ == prefix@ + "_"@ + #[trigger] base64_url(drawn),
{
    let token = random_token(bytes);
    prefix.to_owned().concat("_").concat(token.as_str())
}

/// A character that may stand in a message: a control character only where it
/// ends a line or is a tab.
pub open spec fn fit_to_show() -> spec_fn(char) -> bool {
    |c: char| !control(c) || c == '\n' || c == '\t'
}

/// What a user is told of a failure.
pub open spec fn shown_error(message: Seq<char>) -> Seq<char> {
    let shown = at_most(message.filter(fit_to_show()), 1000);
    if trimmed(shown).len() == 0 {
        "operation failed"@
    } else {
        shown
    }
}

/// What a user is told of a failure.
pub fn safe_error_message(error: &str) -> (message: String)
    ensures
        message@ == shown_error(error@),
{
    let fit = |c: char| -> (b: bool)
        ensures
            b == fit_to_show()(c),
        { !is_control(c) || c == '\n' || c == '\t' };
    let kept = keep_chars(error, &fit, Ghost(fit_to_show()));
    let message = take_chars(kept.as_str(), 1000);
    if is_blank(message.as_str()) {
        "operation failed".to_owned()
    } else {
        message
    }
}

/// The address of the machine itself, as a number.
pub const LOCALHOST: u32 = 0x7f000001;

/// Whether numbers grow from one to the next.
pub open spec fn growing(s: Seq<u32>) -> bool {
    forall|i: int, j: int| 0 <= i < j < s.len() ==> s[i] < s[j]
}

/// An address in the notation with four numbers.
pub open spec fn dotted(address: u32) -> Seq<char> {
    decimal(address as nat / 0x1000000) + "."@ + decimal(address as nat / 0x10000 % 256) + "."@
        + decimal(address as nat / 0x100 % 256) + "."@ + decimal(address as nat % 256)
}

/// Where the interface is reached at an address.
pub open spec fn access_url(port: u16) -> spec_fn(u32) -> Seq<char> {
    |address: u32| "http://"@ + dotted(address) + ":"@ + decimal(port as nat)
}

fn access_url_text(address: u32, port: u16) -> (url: String)
    ensures
        url@ == access_url(port)(address),
{
    let a = decimal_text((address / 0x1000000) as u64);
    let b = decimal_text((address / 0x10000 % 256) as u64);
    let c = decimal_text((address / 0x100 % 256) as u64);
    let d = decimal_text((address % 256) as u64);
    let text = a.concat(".").concat(b.as_str()).concat(".").concat(c.as_str()).concat(".").concat(
        d.as_str(),
    );
    "http://".to_owned().concat(text.as_str()).concat(":").concat(
        decimal_text(port as u64).as_str(),
    )
}

fn insert_address(set: &mut Vec<u32>, address: u32)
    requires
        growing(old(set)@),
    ensures
        growing(final(set)@),
        final(set)@.to_set() == old(set)@.to_set().insert(address),
{
    let ghost before = set@;
    let mut i: usize = 0;
    while i < set.len() && set[i] < address
        invariant
            i <= set.len(),
            set@ == before,
            growing(before),
            forall|j: int| 0 <= j < i ==> set@[j] < address,
        ensures
            i == set.len() || set@[i as int] >= address,
        decreases set.len() - i,
    {
        i += 1;
    }
    if i < set.len() && set[i] == address {
        assert(before.contains(address));
        assert(before.to_set() =~= before.to_set().insert(address));
        return;
    }
    set.insert(i, address);
    assert(set@ == before.insert(i as int, address));
    assert(set@.to_set() =~= before.to_set().insert(address)) by {
        assert forall|a: u32| set@.to_set().contains(a) == before.to_set().insert(address).contains(
            a,
        ) by {
            if before.contains(a) {
                let k = before.index_of(a);
                if k < i {
                    assert(set@[k] == a);
                } else {
                    assert(set@[k + 1] == a);
                }
            }
            assert(set@[i as int] == address);
            if set@.contains(a) && a != address {
                let k = set@.index_of(a);
                if k < i {
                    assert(before[k] == a);
                } else {
                    assert(before[k - 1] == a);
                }
            }
        }
    }
}

/// The addresses at which the interface is reached: the machine itself, and
/// where it is open to the network every other address of it.
pub open spec fn access_addresses(lan: Seq<u32>, include_lan: bool) -> Set<u32> {
    Set::new(|a: u32| a == LOCALHOST || include_lan && a != 0 && lan.contains(a))
}

/// Where the interface is reached, in the order of the addresses. `lan` are the
/// addresses of the machine's interfaces.
pub fn web_access_urls(lan: &Vec<u32>, port: u16, include_lan: bool) -> (urls: Vec<String>)
    ensures
        exists|addresses: Seq<u32>|
            growing(addresses) && addresses.to_set() == access_addresses(lan@, include_lan)
                && urls.deep_view() == #[trigger] addresses.map_values(access_url(port)),
{
    let mut set: Vec<u32> = Vec::new();
    set.push(LOCALHOST);
    let mut i: usize = 0;
    assert(set@.to_set() =~= access_addresses(lan@.take(0), include_lan)) by {
        assert(set@[0] == LOCALHOST);
    }
    while i < lan.len()
        invariant
            i <= lan.len(),
            growing(set@),
            set@.to_set() == access_addresses(lan@.take(i as int), include_lan),
        decreases lan.len() - i,
    {
        let ghost before = set@;
        if include_lan && lan[i] != 0 {
            insert_address(&mut set, lan[i]);
        }
        proof {
            let next = lan@.take(i + 1);
            assert(next =~= lan@.take(i as int).push(lan@[i as int]));
            assert forall|a: u32| next.contains(a) == (lan@.take(i as int).contains(a) || a
                == lan@[i as int]) by {
                assert(next[i as int] == lan@[i as int]);
                if lan@.take(i as int).contains(a) {
                    assert(next[lan@.take(i as int).index_of(a)] == a);
                }
                if next.contains(a) && a != lan@[i as int] {
                    assert(lan@.take(i as int)[next.index_of(a)] == a);
                }
            }
            assert(set@.to_set() =~= access_addresses(next, include_lan));
        }
        i += 1;
    }
    assert(lan@.take(i as int) =~= lan@);
    let mut urls: Vec<String> = Vec::new();
    let mut k: usize = 0;
    while k < set.len()
        invariant
            k <= set.len(),
            urls.len() == k,
            forall|j: int| 0 <= j < k ==> #[trigger] urls[j]@ == access_url(port)(set@[j]),
        decreases set.len() - k,
    {
        urls.push(access_url_text(set[k], port));
        k += 1;
    }
    assert(urls.deep_view() =~= set@.map_values(access_url(port)));
    urls
}

} // verus!
