use vstd::prelude::*;
use vstd::utf8::encode_utf8;

verus! {

/// The SHA-256 digest of a byte sequence.
pub uninterp spec fn sha256_of(data: Seq<u8>) -> Seq<u8>;

/// A text with its leading and trailing whitespace removed.
pub uninterp spec fn trimmed_of(s: Seq<char>) -> Seq<char>;

/// The lowercase hexadecimal digit of a value below 16.
pub open spec fn hex_digit(v: int) -> char {
    seq!['0', '1', '2', '3', '4', '5', '6', '7', '8', '9', 'a', 'b', 'c', 'd', 'e', 'f'][v]
}

/// Lowercase hexadecimal text of a byte sequence: two digits per byte, high
/// nibble first.
pub open spec fn hex_of(b: Seq<u8>) -> Seq<char>
    decreases b.len(),
{
    if b.len() == 0 {
        Seq::empty()
    } else {
        seq![hex_digit(b[0] as int / 16), hex_digit(b[0] as int % 16)] + hex_of(b.drop_first())
    }
}

/// The lookup key of a username: the hex SHA-256 of its trimmed UTF-8 bytes.
pub open spec fn identity_of(username: Seq<char>) -> Seq<char> {
    hex_of(sha256_of(encode_utf8(trimmed_of(username))))
}

/// The verifier of a password under a key: the hex SHA-256 of the key bytes
/// followed by the password's UTF-8 bytes.
pub open spec fn verifier_of(key: Seq<u8>, password: Seq<char>) -> Seq<char> {
    hex_of(sha256_of(key + encode_utf8(password)))
}

/// Relies on sha2::Sha256 (`Digest::digest`): the SHA-256 digest of `data`,
/// which is 32 bytes long.
#[verifier::external_body]
fn sha256(data: &[u8]) -> (r: Vec<u8>)
    ensures
        r@ == sha256_of(data@),
        r@.len() == 32,
{
    <sha2::Sha256 as sha2::Digest>::digest(data).to_vec()
}

/// Relies on hex::encode: lowercase hex, two digits per byte, in order.
#[verifier::external_body]
fn hex_encode(data: &[u8]) -> (r: String)
    ensures
        r@ == hex_of(data@),
{
    hex::encode(data)
}

/// Relies on str::trim: the text without leading and trailing whitespace.
#[verifier::external_body]
fn trim_text(s: &str) -> (r: &str)
    ensures
        r@ == trimmed_of(s@),
{
    s.trim()
}

/// The hex text has two digits per byte.
pub proof fn lemma_hex_len(b: Seq<u8>)
    ensures
        hex_of(b).len() == 2 * b.len(),
    decreases b.len(),
{
    if b.len() > 0 {
        lemma_hex_len(b.drop_first());
    }
}

/// Distinct byte sequences have distinct hex texts.
pub proof fn lemma_hex_injective(a: Seq<u8>, b: Seq<u8>)
    ensures
        hex_of(a) == hex_of(b) ==> a == b,
    decreases a.len(),
{
    if hex_of(a) == hex_of(b) {
        lemma_hex_len(a);
        lemma_hex_len(b);
        if a.len() > 0 {
            let ha = hex_of(a);
            let hb = hex_of(b);
            assert(ha[0] == hb[0] && ha[1] == hb[1]);
            assert(a[0] == b[0]) by {
                assert(a[0] / 16 == b[0] / 16);
                assert(a[0] % 16 == b[0] % 16);
            }
            assert(ha.subrange(2, ha.len() as int) =~= hex_of(a.drop_first()));
            assert(hb.subrange(2, hb.len() as int) =~= hex_of(b.drop_first()));
            lemma_hex_injective(a.drop_first(), b.drop_first());
            assert(a =~= seq![a[0]] + a.drop_first());
            assert(b =~= seq![b[0]] + b.drop_first());
        } else {
            assert(a =~= b);
        }
    }
}

/// The identity digest of a username: the lookup key under which its record
/// is stored.
pub fn identity_digest(username: &str) -> (r: String)
    ensures
        r@ == identity_of(username@),
        r@.len() == 64,
{
    let trimmed = trim_text(username);
    let digest = sha256(trimmed.as_bytes());
    proof {
        lemma_hex_len(digest@);
    }
    hex_encode(digest.as_slice())
}

/// The key held by a resource: the SHA-256 digest of its whole content.
pub fn image_key(content: &[u8]) -> (r: Vec<u8>)
    ensures
        r@ == sha256_of(content@),
        r@.len() == 32,
{
    sha256(content)
}

/// The credential digest of a password under a key.
pub fn credential_digest(key: &[u8], password: &str) -> (r: String)
    ensures
        r@ == verifier_of(key@, password@),
        r@.len() == 64,
{
    let pw = password.as_bytes();
    let mut data: Vec<u8> = Vec::new();
    let mut i: usize = 0;
    while i < key.len()
        invariant
            i <= key@.len(),
            data@ == key@.subrange(0, i as int),
        decreases key@.len() - i,
    {
        data.push(key[i]);
        i = i + 1;
    }
    let mut j: usize = 0;
    while j < pw.len()
        invariant
            j <= pw@.len(),
            data@ == key@ + pw@.subrange(0, j as int),
        decreases pw@.len() - j,
    {
        data.push(pw[j]);
        j = j + 1;
        proof {
            assert(pw@.subrange(0, j as int) =~= pw@.subrange(0, j - 1) + seq![pw@[j - 1]]);
            assert(data@ =~= key@ + pw@.subrange(0, j as int));
        }
    }
    proof {
        assert(key@.subrange(0, key@.len() as int) =~= key@);
        assert(pw@.subrange(0, pw@.len() as int) =~= pw@);
    }
    let digest = sha256(data.as_slice());
    proof {
        lemma_hex_len(digest@);
    }
    hex_encode(digest.as_slice())
}

} // verus!
