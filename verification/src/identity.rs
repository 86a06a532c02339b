//! The text of identity files that hold an endpoint's secret key.
use vstd::prelude::*;

use crate::text::{digit_char, is_white_space, trim, trim_end_text, trim_start_text, trim_text};

verus! {

/// The lower-case hexadecimal digit for `n < 16`.
pub open spec fn hex_digit(n: nat) -> char {
    if n < 10 {
        digit_char(n)
    } else if n == 10 {
        'a'
    } else if n == 11 {
        'b'
    } else if n == 12 {
        'c'
    } else if n == 13 {
        'd'
    } else if n == 14 {
        'e'
    } else {
        'f'
    }
}

/// Each byte of `b` as two lower-case hexadecimal digits, high digit first.
pub open spec fn hex_lower(b: Seq<u8>) -> Seq<char>
    decreases b.len(),
{
    if b.len() == 0 {
        Seq::empty()
    } else {
        hex_lower(b.drop_last()) + seq![
            hex_digit((b.last() / 16) as nat),
            hex_digit((b.last() % 16) as nat),
        ]
    }
}

/// The key that `iroh` parses from `text`, if any.
pub uninterp spec fn secret_key_text(text: Seq<char>) -> Option<Seq<u8>>;

/// `text` is the hex text of some 32 bytes.
pub open spec fn is_hex_key_text(text: Seq<char>) -> bool {
    exists|b: Seq<u8>| b.len() == 32 && text == hex_lower(b)
}

/// `hex::encode`: each byte as two lower-case hexadecimal digits, high digit
/// first, as the crate documents and its source shows.
#[verifier::external_body]
fn hex_encode(data: &[u8]) -> (s: String)
    ensures
        s@ == hex_lower(data@),
{
    hex::encode(data)
}

/// `iroh::SecretKey::from_str`, giving the key's bytes. The result is named
/// by `secret_key_text`; the source decodes 64 characters as lower-case hex
/// (any other length as base32), and a signing key built from 32 bytes gives
/// back those bytes, so the hex text of 32 bytes parses to them. What it
/// returns for other texts is left unsaid.
#[verifier::external_body]
fn parse_secret_key(text: &str) -> (r: Option<[u8; 32]>)
    ensures
        r matches Some(k) ==> secret_key_text(text@) == Some(k@),
        r is None ==> secret_key_text(text@) is None,
        r is Some || !is_hex_key_text(text@),
        r matches Some(k) ==> (is_hex_key_text(text@) ==> text@ == hex_lower(k@)),
{
    match <iroh::SecretKey as std::str::FromStr>::from_str(text) {
        Ok(key) => Some(key.to_bytes()),
        Err(_) => None,
    }
}

/// Why an identity file could not be used.
#[derive(Debug, Clone, Copy, PartialEq, Eq, Structural)]
pub enum IdentityError {
    /// The file does not hold a key.
    NotAKey,
}

/// The text of an identity file for `key`: its hex digits and a newline.
pub open spec fn identity_text(key: Seq<u8>) -> Seq<char> {
    hex_lower(key).push('\n')
}

/// `raw` is the text written for some key.
pub open spec fn is_identity_text(raw: Seq<char>) -> bool {
    exists|k: Seq<u8>| k.len() == 32 && raw == identity_text(k)
}

/// The text written to an identity file for `key`.
pub fn identity_file_text(key: &[u8; 32]) -> (s: String)
    ensures
        s@ == identity_text(key@),
{
    let mut s = hex_encode(key.as_slice());
    crate::text::push_char(&mut s, '\n');
    s
}

/// The key held by an identity file's text; surrounding white space is ignored.
pub fn parse_identity(raw: &str) -> (r: Result<[u8; 32], IdentityError>)
    ensures
        r matches Ok(k) ==> secret_key_text(trim_text(raw@)) == Some(k@),
        r is Err ==> secret_key_text(trim_text(raw@)) is None,
        is_identity_text(raw@) ==> r is Ok,
        r matches Ok(k) ==> (is_identity_text(raw@) ==> raw@ == identity_text(k@)),
{
    let text = trim(raw);
    proof {
        if is_identity_text(raw@) {
            let k = choose|k: Seq<u8>| k.len() == 32 && raw@ == identity_text(k);
            lemma_identity_text_trims(k);
        }
    }
    match parse_secret_key(text.as_str()) {
        Some(k) => Ok(k),
        None => Err(IdentityError::NotAKey),
    }
}

// ---------------------------------------------------------------------------
// Laws
// ---------------------------------------------------------------------------

proof fn lemma_hex_len(b: Seq<u8>)
    ensures
        hex_lower(b).len() == 2 * b.len(),
    decreases b.len(),
{
    if b.len() > 0 {
        lemma_hex_len(b.drop_last());
    }
}

proof fn lemma_hex_chars_not_space(b: Seq<u8>)
    ensures
        forall|i: int| 0 <= i < hex_lower(b).len() ==> !is_white_space(#[trigger] hex_lower(b)[i]),
    decreases b.len(),
{
    if b.len() > 0 {
        lemma_hex_chars_not_space(b.drop_last());
        let p = hex_lower(b.drop_last());
        let h = hex_lower(b);
        assert forall|i: int| 0 <= i < h.len() implies !is_white_space(#[trigger] h[i]) by {
            if i < p.len() {
                assert(h[i] == p[i]);
            }
        }
    }
}

proof fn lemma_hex_digit_injective(a: nat, b: nat)
    requires
        a < 16,
        b < 16,
        hex_digit(a) == hex_digit(b),
    ensures
        a == b,
{
}

/// Different byte strings of one length have different hex texts.
pub proof fn lemma_hex_injective(a: Seq<u8>, b: Seq<u8>)
    requires
        a.len() == b.len(),
        hex_lower(a) == hex_lower(b),
    ensures
        a == b,
    decreases a.len(),
{
    if a.len() > 0 {
        lemma_hex_len(a.drop_last());
        lemma_hex_len(b.drop_last());
        let ha = hex_lower(a);
        let n = ha.len();
        assert(ha[n - 2] == hex_digit((a.last() / 16) as nat));
        assert(ha[n - 1] == hex_digit((a.last() % 16) as nat));
        assert(hex_lower(b)[n - 2] == hex_digit((b.last() / 16) as nat));
        assert(hex_lower(b)[n - 1] == hex_digit((b.last() % 16) as nat));
        lemma_hex_digit_injective((a.last() / 16) as nat, (b.last() / 16) as nat);
        lemma_hex_digit_injective((a.last() % 16) as nat, (b.last() % 16) as nat);
        assert(hex_lower(a.drop_last()) =~= ha.take(n - 2));
        assert(hex_lower(b.drop_last()) =~= hex_lower(b).take(n - 2));
        lemma_hex_injective(a.drop_last(), b.drop_last());
        assert(a =~= a.drop_last().push(a.last()));
        assert(b =~= b.drop_last().push(b.last()));
    }
}

/// The text written for a key, stripped of surrounding white space, is the
/// key's hex text, which names that key alone.
pub proof fn lemma_identity_text_trims(key: Seq<u8>)
    ensures
        trim_text(identity_text(key)) == hex_lower(key),
        forall|k: Seq<u8>|
            k.len() == key.len() && hex_lower(k) == hex_lower(key) ==> k == key,
{
    let h = hex_lower(key);
    let t = identity_text(key);
    lemma_hex_chars_not_space(key);
    assert(is_white_space('\n'));
    if h.len() == 0 {
        assert(t.drop_first() =~= h);
        assert(trim_start_text(h) == h);
    } else {
        assert(t[0] == h[0]);
        assert(trim_start_text(t) == t);
        assert(t.drop_last() =~= h);
        assert(trim_end_text(h) == h);
    }
    assert forall|k: Seq<u8>| k.len() == key.len() && hex_lower(k) == hex_lower(key) implies k
        == key by {
        lemma_hex_injective(k, key);
    }
}

} // verus!
