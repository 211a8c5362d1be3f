//! Short-code generation: URL normalization, hashing and base-62 encoding.

use std::collections::hash_map::DefaultHasher;
use std::hash::Hash;
use std::hash::Hasher;
use vstd::prelude::*;
use vstd::std_specs::hash::*;
use vstd::string::*;

verus! {

/// The scheme that is stripped from a URL before it is hashed and stored.
pub open spec fn scheme() -> Seq<char> {
    seq!['h', 't', 't', 'p', ':', '/', '/']
}

/// A URL without its leading `http://`, if it has one. Only one leading
/// scheme is removed.
pub open spec fn normalized(url: Seq<char>) -> Seq<char> {
    if scheme().is_prefix_of(url) {
        url.skip(scheme().len() as int)
    } else {
        url
    }
}

/// Whether `text` begins with `prefix`, compared character by character.
pub fn starts_with(text: &str, prefix: &str) -> (found: bool)
    ensures
        found == prefix@.is_prefix_of(text@),
{
    let text_len = text.unicode_len();
    let prefix_len = prefix.unicode_len();
    if text_len < prefix_len {
        return false;
    }
    let mut i: usize = 0;
    while i < prefix_len
        invariant
            i <= prefix_len,
            prefix_len == prefix@.len(),
            text_len == text@.len(),
            prefix_len <= text_len,
            forall|j: int| 0 <= j < i ==> text@[j] == prefix@[j],
        decreases prefix_len - i,
    {
        if text.get_char(i) != prefix.get_char(i) {
            assert(text@.subrange(0, prefix@.len() as int)[i as int] != prefix@[i as int]);
            return false;
        }
        i += 1;
    }
    assert(text@.subrange(0, prefix@.len() as int) =~= prefix@);
    true
}

/// Strips a leading `http://` from `url`, giving the text that is hashed,
/// stored and replicated.
pub fn normalize(url: &str) -> (target: String)
    ensures
        target@ == normalized(url@),
{
    proof {
        reveal_strlit("http://");
        assert("http://"@ =~= scheme());
    }
    if starts_with(url, "http://") {
        let len = url.unicode_len();
        let rest = url.substring_char(7, len);
        assert(rest@ =~= url@.skip(7));
        String::from_str(rest)
    } else {
        String::from_str(url)
    }
}

/// The writes that hashing a `str` makes to a hasher, as a function of the
/// text alone.
pub uninterp spec fn str_hash_feed(text: Seq<char>) -> Seq<Seq<u8>>;

/// Calls `<str as Hash>::hash` on a `DefaultHasher`. The contract claims that
/// the hasher's record of writes grows by a sequence of writes that depends
/// on the text only; it does not say what those writes are.
#[verifier::external_body]
fn feed_str(state: &mut DefaultHasher, text: &str)
    ensures
        final(state)@ == old(state)@ + str_hash_feed(text@),
{
    text.hash(state);
}

/// The 64-bit hash of a normalized URL: the value a freshly made
/// `DefaultHasher` finishes with after the text was hashed into it.
pub open spec fn url_hash(target: Seq<char>) -> u64 {
    DefaultHasher::spec_finish(str_hash_feed(target))
}

/// Hashes a normalized URL with a freshly made `DefaultHasher`, which is not
/// seeded: equal texts give equal hashes.
pub fn hash_target(target: &str) -> (hash: u64)
    ensures
        hash == url_hash(target@),
{
    let mut state = DefaultHasher::new();
    feed_str(&mut state, target);
    assert(state@ =~= str_hash_feed(target@));
    state.finish()
}

/// The 62 digits of the code alphabet, least digit value first.
pub open spec fn base62_alphabet() -> Seq<char> {
    "ABCDEFGHIJKLMNOPQRSTUVWXYZabcdefghijklmnopqrstuvwxyz0123456789"@
}

/// The base-62 numeral of `number`, most significant digit first. Zero has
/// the empty numeral.
pub open spec fn base62_digits(number: nat) -> Seq<char>
    decreases number,
{
    if number == 0 {
        Seq::empty()
    } else {
        base62_digits(number / 62).push(base62_alphabet()[(number % 62) as int])
    }
}

/// Calls `base62num::encode`. The contract claims that the result is the
/// base-62 numeral of the number over the alphabet `A-Z`, `a-z`, `0-9`, most
/// significant digit first, and empty for zero.
#[verifier::external_body]
fn base62_encode(number: usize) -> (text: String)
    ensures
        text@ == base62_digits(number as nat),
{
    base62num::encode(number)
}

/// The code that stands for a hash value: its base-62 numeral, taken at the
/// machine's word size.
pub open spec fn code_of_hash(hash: u64) -> Seq<char> {
    base62_digits((hash as usize) as nat)
}

/// Encodes a hash value as a short code.
pub fn encode_hash(hash: u64) -> (code: String)
    ensures
        code@ == code_of_hash(hash),
{
    base62_encode(hash as usize)
}

/// The code first tried for a normalized URL.
pub open spec fn code_of(target: Seq<char>) -> Seq<char> {
    code_of_hash(url_hash(target))
}

/// The longest base-62 numeral of a 64-bit number.
pub const MAX_CODE_LEN: usize = 11;

/// Whether `c` is an ASCII letter or digit.
pub open spec fn is_alphanumeric(c: char) -> bool {
    ('A' <= c && c <= 'Z') || ('a' <= c && c <= 'z') || ('0' <= c && c <= '9')
}

/// Whether `text` can stand in a URL path as it is: letters and digits only.
pub open spec fn is_url_safe(text: Seq<char>) -> bool {
    forall|i: int| 0 <= i < text.len() ==> is_alphanumeric(#[trigger] text[i])
}

/// Every digit of a base-62 numeral is a letter or a digit.
pub proof fn lemma_base62_digits_url_safe(number: nat)
    ensures
        is_url_safe(base62_digits(number)),
    decreases number,
{
    if number != 0 {
        lemma_base62_digits_url_safe(number / 62);
        reveal_strlit("ABCDEFGHIJKLMNOPQRSTUVWXYZabcdefghijklmnopqrstuvwxyz0123456789");
        assert(is_alphanumeric(base62_alphabet()[(number % 62) as int]));
    }
}

/// The powers of 62.
pub open spec fn pow62(exponent: nat) -> nat
    decreases exponent,
{
    if exponent == 0 {
        1
    } else {
        62 * pow62((exponent - 1) as nat)
    }
}

/// A number below the `length`-th power of 62 has at most `length` digits.
pub proof fn lemma_base62_digits_len(number: nat, length: nat)
    requires
        number < pow62(length),
    ensures
        base62_digits(number).len() <= length,
    decreases length,
{
    if number != 0 {
        lemma_base62_digits_len(number / 62, (length - 1) as nat);
    }
}

/// The code of a hash value is short and safe to put in a URL.
pub proof fn lemma_code_of_hash_short_and_safe(hash: u64)
    ensures
        code_of_hash(hash).len() <= MAX_CODE_LEN,
        is_url_safe(code_of_hash(hash)),
{
    let number = (hash as usize) as nat;
    lemma_base62_digits_url_safe(number);
    assert(pow62(11) > u64::MAX) by {
        reveal_with_fuel(pow62, 12);
    }
    lemma_base62_digits_len(number, 11);
}

/// Assigns the initial short code to a normalized URL. The code depends on
/// the text alone, never on what a store holds; it has at most
/// [`MAX_CODE_LEN`] characters, all of them letters or digits.
pub fn assign(target: &str) -> (code: String)
    ensures
        code@ == code_of(target@),
        code@.len() <= MAX_CODE_LEN,
        is_url_safe(code@),
{
    proof {
        lemma_code_of_hash_short_and_safe(url_hash(target@));
    }
    encode_hash(hash_target(target))
}

} // verus!
