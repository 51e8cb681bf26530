use vstd::prelude::*;

use crate::errors::AuthError;

verus! {

/// Number of characters in each freshly minted token field: 32
/// hexadecimal digits carry 128 bits of entropy.
pub const TOKEN_FIELD_LEN: usize = 32;

/// The alphabet of token fields: lowercase hexadecimal digits.
/// The delimiter `':'` is deliberately outside this alphabet, so the
/// split of a cookie value into key and body is unambiguous.
pub open spec fn is_hex_char(c: char) -> bool {
    ('0' <= c && c <= '9') || ('a' <= c && c <= 'f')
}

/// A token field is one or more characters of the hexadecimal alphabet.
pub open spec fn valid_field(s: Seq<char>) -> bool {
    s.len() > 0 && forall|i: int| 0 <= i < s.len() ==> is_hex_char(#[trigger] s[i])
}

/// The single opaque string exchanged with the browser: the public key,
/// the delimiter, then the secret body.
pub open spec fn encoding_of(key: Seq<char>, body: Seq<char>) -> Seq<char> {
    key + seq![':'] + body
}

/// A cookie value is decodable when it is the encoding of some pair of
/// valid fields.
pub open spec fn decodable(s: Seq<char>) -> bool {
    exists|k: Seq<char>, b: Seq<char>|
        valid_field(k) && valid_field(b) && s == encoding_of(k, b)
}

/// One authenticated session: `key` publicly names the cache slot,
/// `body` is the secret compared against the slot to prove possession.
pub struct Token {
    pub key: String,
    pub body: String,
}

impl Token {
    /// Both halves are nonempty strings over the field alphabet.
    pub open spec fn wf(self) -> bool {
        valid_field(self.key@) && valid_field(self.body@)
    }

    /// Serialize the token into the cookie value.
    pub fn encode(&self) -> (r: String)
        ensures
            r@ == encoding_of(self.key@, self.body@),
    {
        let mut r = self.key.clone();
        r.append(":");
        r.append(self.body.as_str());
        proof {
            reveal_strlit(":");
            assert(r@ =~= encoding_of(self.key@, self.body@));
        }
        r
    }

    /// Compare the secret half against a cached body in constant time:
    /// both strings are always walked to the end, with no
    /// data-dependent early exit.
    pub fn eq_body(&self, cached: &str) -> (r: bool)
        ensures
            r == (self.body@ == cached@),
    {
        constant_time_str_eq(self.body.as_str(), cached)
    }
}

fn is_hex_char_exec(c: char) -> (r: bool)
    ensures
        r == is_hex_char(c),
{
    ('0' <= c && c <= '9') || ('a' <= c && c <= 'f')
}

/// Index of the first character at or after `from` that is not in the
/// field alphabet, or the length of the string when there is none.
fn first_non_hex_from(s: &str, from: usize) -> (i: usize)
    requires
        from <= s@.len(),
    ensures
        from <= i <= s@.len(),
        forall|j: int| from <= j < i ==> is_hex_char(#[trigger] s@[j]),
        i < s@.len() ==> !is_hex_char(s@[i as int]),
{
    let n = s.unicode_len();
    let mut i: usize = from;
    while i < n
        invariant
            n == s@.len(),
            from <= i <= n,
            forall|j: int| from <= j < i ==> is_hex_char(#[trigger] s@[j]),
        decreases n - i,
    {
        let c = s.get_char(i);
        if !is_hex_char_exec(c) {
            return i;
        }
        i += 1;
    }
    i
}

/// Parse a cookie value back into a token.
///
/// Malformed values (no delimiter, an empty field, a character outside
/// the field alphabet) are a routine outcome for attacker-supplied
/// cookies and are reported as an error value, never as a panic.
pub fn decode(s: &str) -> (r: Result<Token, AuthError>)
    ensures
        match r {
            Ok(t) => t.wf() && s@ == encoding_of(t.key@, t.body@),
            Err(e) => e == AuthError::Malformed && !decodable(s@),
        },
{
    let n = s.unicode_len();
    let i = first_non_hex_from(s, 0);
    if i == n {
        // every character is in the field alphabet, so no position can
        // hold the delimiter
        proof {
            assert(!decodable(s@)) by {
                if decodable(s@) {
                    let (k, b) = choose|k: Seq<char>, b: Seq<char>|
                        valid_field(k) && valid_field(b) && s@ == encoding_of(k, b);
                    assert(s@[k.len() as int] == ':');
                    assert(is_hex_char(s@[k.len() as int]));
                }
            }
        }
        return Err(AuthError::Malformed);
    }
    let c = s.get_char(i);
    if c != ':' {
        // a character that is neither in the alphabet nor the delimiter
        proof {
            assert(!decodable(s@)) by {
                if decodable(s@) {
                    let (k, b) = choose|k: Seq<char>, b: Seq<char>|
                        valid_field(k) && valid_field(b) && s@ == encoding_of(k, b);
                    if i < k.len() {
                        assert(s@[i as int] == k[i as int]);
                    } else if i == k.len() {
                        assert(s@[i as int] == ':');
                    } else {
                        assert(s@[i as int] == b[i - k.len() - 1]);
                    }
                }
            }
        }
        return Err(AuthError::Malformed);
    }
    if i == 0 {
        // empty key
        proof {
            assert(!decodable(s@)) by {
                if decodable(s@) {
                    let (k, b) = choose|k: Seq<char>, b: Seq<char>|
                        valid_field(k) && valid_field(b) && s@ == encoding_of(k, b);
                    if k.len() == 0 {
                        assert(s@[0] == ':');
                        assert(is_hex_char(s@[0]));
                    } else {
                        assert(s@[0] == k[0]);
                        assert(is_hex_char(s@[0]));
                    }
                }
            }
        }
        return Err(AuthError::Malformed);
    }
    // in any decomposition the delimiter position is forced to i: all
    // earlier characters are in the alphabet and the alphabet excludes
    // the delimiter
    proof {
        assert forall|k: Seq<char>, b: Seq<char>|
            valid_field(k) && valid_field(b) && s@ == encoding_of(k, b) implies k.len() == i by {
            if k.len() < i {
                assert(s@[k.len() as int] == ':');
                assert(is_hex_char(s@[k.len() as int]));
            }
            if k.len() > i {
                assert(s@[i as int] == k[i as int]);
                assert(is_hex_char(s@[i as int]));
            }
        }
    }
    if i + 1 == n {
        // empty body
        proof {
            assert(!decodable(s@)) by {
                if decodable(s@) {
                    let (k, b) = choose|k: Seq<char>, b: Seq<char>|
                        valid_field(k) && valid_field(b) && s@ == encoding_of(k, b);
                    assert(k.len() == i);
                    assert(b.len() == 0);
                }
            }
        }
        return Err(AuthError::Malformed);
    }
    let j = first_non_hex_from(s, i + 1);
    if j < n {
        // a character outside the alphabet after the delimiter
        proof {
            assert(!decodable(s@)) by {
                if decodable(s@) {
                    let (k, b) = choose|k: Seq<char>, b: Seq<char>|
                        valid_field(k) && valid_field(b) && s@ == encoding_of(k, b);
                    assert(k.len() == i);
                    assert(s@[j as int] == b[j - i - 1]);
                    assert(is_hex_char(s@[j as int]));
                }
            }
        }
        return Err(AuthError::Malformed);
    }
    let key = s.substring_char(0, i).to_owned();
    let body = s.substring_char(i + 1, n).to_owned();
    proof {
        assert(s@ =~= encoding_of(key@, body@));
    }
    Ok(Token { key, body })
}

/// The delimiter never occurs in a valid field, so the encoding is
/// injective: equal cookie values can only come from equal key/body
/// pairs. Together with the contracts of `encode` and `decode` this is
/// the round-trip law: decoding an encoded token gives back exactly
/// that token.
pub proof fn lemma_encoding_injective(k1: Seq<char>, b1: Seq<char>, k2: Seq<char>, b2: Seq<char>)
    requires
        valid_field(k1),
        valid_field(b1),
        valid_field(k2),
        valid_field(b2),
        encoding_of(k1, b1) == encoding_of(k2, b2),
    ensures
        k1 == k2,
        b1 == b2,
{
    let s = encoding_of(k1, b1);
    assert(s[k1.len() as int] == ':');
    assert(s[k2.len() as int] == ':');
    if k1.len() < k2.len() {
        assert(s[k1.len() as int] == k2[k1.len() as int]);
        assert(is_hex_char(s[k1.len() as int]));
    }
    if k2.len() < k1.len() {
        assert(s[k2.len() as int] == k1[k2.len() as int]);
        assert(is_hex_char(s[k2.len() as int]));
    }
    assert(k1.len() == k2.len());
    assert forall|p: int| 0 <= p < k1.len() implies k1[p] == k2[p] by {
        assert(s[p] == k1[p]);
        assert(s[p] == k2[p]);
    }
    assert(k1 =~= k2);
    assert(encoding_of(k1, b1).len() == k1.len() + 1 + b1.len());
    assert(encoding_of(k2, b2).len() == k2.len() + 1 + b2.len());
    assert(b1.len() == b2.len());
    assert forall|p: int| 0 <= p < b1.len() implies b1[p] == b2[p] by {
        assert(s[k1.len() + 1 + p] == b1[p]);
        assert(s[k1.len() + 1 + p] == b2[p]);
    }
    assert(b1 =~= b2);
}

/// Every encoding of two valid fields parses: `decode` cannot report
/// an error on a value `encode` produced.
pub proof fn lemma_encoding_decodable(k: Seq<char>, b: Seq<char>)
    requires
        valid_field(k),
        valid_field(b),
    ensures
        decodable(encoding_of(k, b)),
{
}

/// Constant-time string equality: both strings are walked to the end
/// whatever their contents, so the running time does not reveal the
/// position of the first mismatch.
pub fn constant_time_str_eq(a: &str, b: &str) -> (r: bool)
    ensures
        r == (a@ == b@),
{
    let n = a.unicode_len();
    let m = b.unicode_len();
    if n != m {
        return false;
    }
    let mut acc: u32 = 0;
    let mut i: usize = 0;
    while i < n
        invariant
            n == a@.len(),
            n == b@.len(),
            i <= n,
            (acc == 0) == (forall|j: int| 0 <= j < i ==> a@[j] == b@[j]),
        decreases n - i,
    {
        let ca = a.get_char(i);
        let cb = b.get_char(i);
        let x = (ca as u32) ^ (cb as u32);
        proof {
            let ua = ca as u32;
            let ub = cb as u32;
            assert((ua ^ ub == 0) == (ua == ub)) by (bit_vector);
            assert((acc | x == 0) == (acc == 0 && x == 0)) by (bit_vector);
        }
        acc = acc | x;
        i += 1;
    }
    if acc == 0 {
        proof {
            assert(a@ =~= b@);
        }
        true
    } else {
        false
    }
}

/// Map a value below 16 to its lowercase hexadecimal digit.
fn hex_digit(v: u8) -> (r: &'static str)
    requires
        v < 16,
    ensures
        r@.len() == 1,
        is_hex_char(r@[0]),
{
    proof {
        reveal_strlit("0");
        reveal_strlit("1");
        reveal_strlit("2");
        reveal_strlit("3");
        reveal_strlit("4");
        reveal_strlit("5");
        reveal_strlit("6");
        reveal_strlit("7");
        reveal_strlit("8");
        reveal_strlit("9");
        reveal_strlit("a");
        reveal_strlit("b");
        reveal_strlit("c");
        reveal_strlit("d");
        reveal_strlit("e");
        reveal_strlit("f");
    }
    match v {
        0 => "0",
        1 => "1",
        2 => "2",
        3 => "3",
        4 => "4",
        5 => "5",
        6 => "6",
        7 => "7",
        8 => "8",
        9 => "9",
        10 => "a",
        11 => "b",
        12 => "c",
        13 => "d",
        14 => "e",
        _ => "f",
    }
}

/// Relies on `rand_core::OsRng` (through `RngCore::fill_bytes`): the
/// buffer is filled from the operating system's cryptographically
/// secure random source. Nothing can be promised of the values; the
/// length of the buffer is unchanged.
#[verifier::external_body]
fn fill_random_bytes(buf: &mut Vec<u8>)
    ensures
        final(buf)@.len() == old(buf)@.len(),
{
    rand_core::RngCore::fill_bytes(&mut rand_core::OsRng, buf.as_mut_slice());
}

/// Draw one fresh token field: 16 random bytes from the system's
/// secure source, written as 32 lowercase hexadecimal digits.
fn random_field() -> (r: String)
    ensures
        valid_field(r@),
        r@.len() == TOKEN_FIELD_LEN,
{
    let mut bytes: Vec<u8> = Vec::new();
    let mut k: usize = 0;
    while k < 16
        invariant
            bytes@.len() == k,
            k <= 16,
        decreases 16 - k,
    {
        bytes.push(0u8);
        k += 1;
    }
    fill_random_bytes(&mut bytes);
    let mut s = String::new();
    let mut j: usize = 0;
    while j < 16
        invariant
            bytes@.len() == 16,
            j <= 16,
            s@.len() == 2 * j,
            forall|p: int| 0 <= p < s@.len() ==> is_hex_char(#[trigger] s@[p]),
        decreases 16 - j,
    {
        let b = bytes[j];
        let hi = b >> 4;
        let lo = b & 15;
        proof {
            assert(b >> 4 < 16 && b & 15 < 16) by (bit_vector);
        }
        s.append(hex_digit(hi));
        s.append(hex_digit(lo));
        j += 1;
    }
    s
}

/// Mint a fresh session token: key and body are drawn independently
/// from a cryptographically secure source, 128 bits of entropy each.
/// The username is accepted for potential future audit binding but is
/// deliberately not embedded in the token value, so the cookie leaks
/// no identity.
pub fn mint(_user: &str) -> (t: Token)
    ensures
        t.wf(),
        t.key@.len() == TOKEN_FIELD_LEN,
        t.body@.len() == TOKEN_FIELD_LEN,
{
    let key = random_field();
    let body = random_field();
    Token { key, body }
}

} // verus!
