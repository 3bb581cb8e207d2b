//! Identifier codec: converts between the numeric paste identifier and its
//! short textual token, and parses a combined "id[.extension]" path segment.
//!
//! A token is exactly [`TOKEN_LEN`] characters drawn from a 62-character
//! alphabet (`a`-`z`, `A`-`Z`, `0`-`9`). The first character carries the
//! least significant digit. Every well-formed token denotes a value below
//! [`ID_POOL`], so parsing a token produced by the encoder recovers the
//! identifier exactly.

use vstd::prelude::*;
use vstd::string::StrSliceExecFns;
use vstd::string::StringExecFns;
use crate::Entry;
use crate::Error;

verus! {

broadcast use vstd::string::group_string_axioms;

/// Length of every identifier token, in characters.
pub const TOKEN_LEN: usize = 6;

/// Number of distinct identifiers: 62 to the power of `TOKEN_LEN`.
pub const ID_POOL: u64 = 62 * 62 * 62 * 62 * 62 * 62;

/// Digit value of one token character, by code point:
/// `a`-`z` map to 0-25, `A`-`Z` to 26-51, `0`-`9` to 52-61; -1 otherwise.
pub open spec fn spec_digit_of_char(c: char) -> int {
    let v = c as u32;
    if 97 <= v && v <= 122 {
        v - 97
    } else if 65 <= v && v <= 90 {
        v - 65 + 26
    } else if 48 <= v && v <= 57 {
        v - 48 + 52
    } else {
        -1
    }
}

/// ASCII byte of the token character for a digit value.
pub open spec fn spec_byte_of_digit(d: int) -> u8 {
    if 0 <= d < 26 {
        (97 + d) as u8
    } else if 26 <= d < 52 {
        (65 + (d - 26)) as u8
    } else if 52 <= d < 62 {
        (48 + (d - 52)) as u8
    } else {
        32
    }
}

/// Token character for a digit value.
pub open spec fn spec_char_of_digit(d: int) -> char {
    spec_byte_of_digit(d) as char
}

/// Whether `c` belongs to the token alphabet.
pub open spec fn is_token_char(c: char) -> bool {
    spec_digit_of_char(c) >= 0
}

/// 62 to the power of `k`.
pub open spec fn pow62(k: nat) -> int
    decreases k,
{
    if k == 0 {
        1
    } else {
        62 * pow62((k - 1) as nat)
    }
}

/// The token of `n`, `len` characters long, least significant digit first.
pub open spec fn spec_token(n: int, len: nat) -> Seq<char>
    decreases len,
{
    if len == 0 {
        Seq::empty()
    } else {
        seq![spec_char_of_digit(n % 62)] + spec_token(n / 62, (len - 1) as nat)
    }
}

/// The value denoted by a character sequence read as a token.
pub open spec fn spec_token_value(s: Seq<char>) -> int
    decreases s.len(),
{
    if s.len() == 0 {
        0
    } else {
        spec_digit_of_char(s.first()) + 62 * spec_token_value(s.drop_first())
    }
}

/// A well-formed token: exactly `TOKEN_LEN` characters of the alphabet.
pub open spec fn valid_token(s: Seq<char>) -> bool {
    &&& s.len() == TOKEN_LEN
    &&& forall|i: int| 0 <= i < s.len() ==> is_token_char(#[trigger] s[i])
}

proof fn lemma_pow62_positive(k: nat)
    ensures
        pow62(k) >= 1,
    decreases k,
{
    if k > 0 {
        lemma_pow62_positive((k - 1) as nat);
    }
}

proof fn lemma_pow62_six()
    ensures
        pow62(6) == ID_POOL,
{
    assert(pow62(0) == 1);
    assert(pow62(1) == 62);
    assert(pow62(2) == 62 * 62);
    assert(pow62(3) == 62 * 62 * 62);
    assert(pow62(4) == 62 * 62 * 62 * 62);
    assert(pow62(5) == 62 * 62 * 62 * 62 * 62);
    assert(pow62(6) == 62 * 62 * 62 * 62 * 62 * 62);
}

/// Encoding a digit and reading it back is the identity.
proof fn lemma_digit_roundtrip(d: int)
    requires
        0 <= d < 62,
    ensures
        is_token_char(spec_char_of_digit(d)),
        spec_digit_of_char(spec_char_of_digit(d)) == d,
{
}

/// Round trip of the codec: the token of any identifier in the pool
/// denotes that identifier again.
pub proof fn lemma_token_roundtrip(n: int, len: nat)
    requires
        0 <= n < pow62(len),
    ensures
        spec_token(n, len).len() == len,
        forall|i: int| 0 <= i < len ==> is_token_char(#[trigger] spec_token(n, len)[i]),
        spec_token_value(spec_token(n, len)) == n,
    decreases len,
{
    if len > 0 {
        lemma_digit_roundtrip(n % 62);
        assert(0 <= n / 62 < pow62((len - 1) as nat)) by {
            lemma_pow62_positive((len - 1) as nat);
        };
        lemma_token_roundtrip(n / 62, (len - 1) as nat);
        let s = spec_token(n, len);
        let rest = spec_token(n / 62, (len - 1) as nat);
        assert(s.first() == spec_char_of_digit(n % 62));
        assert(s.drop_first() =~= rest);
        assert(spec_token_value(s) == spec_digit_of_char(spec_char_of_digit(n % 62)) + 62 * (n
            / 62));
    }
}

proof fn lemma_token_value_nonneg(s: Seq<char>)
    requires
        forall|i: int| 0 <= i < s.len() ==> is_token_char(#[trigger] s[i]),
    ensures
        spec_token_value(s) >= 0,
    decreases s.len(),
{
    if s.len() > 0 {
        assert(is_token_char(s[0]));
        assert(forall|i: int|
            0 <= i < s.drop_first().len() ==> is_token_char(#[trigger] s.drop_first()[i]));
        lemma_token_value_nonneg(s.drop_first());
    }
}

/// Reading back a token character and encoding it again is the identity.
proof fn lemma_char_roundtrip(c: char)
    requires
        is_token_char(c),
    ensures
        spec_char_of_digit(spec_digit_of_char(c)) == c,
{
}

/// Tokens are canonical: encoding the value a well-formed character
/// sequence denotes yields that sequence again.
pub proof fn lemma_token_canonical(s: Seq<char>)
    requires
        forall|i: int| 0 <= i < s.len() ==> is_token_char(#[trigger] s[i]),
    ensures
        spec_token(spec_token_value(s), s.len()) == s,
    decreases s.len(),
{
    if s.len() > 0 {
        let rest = s.drop_first();
        assert(is_token_char(s[0]));
        assert(forall|i: int| 0 <= i < rest.len() ==> is_token_char(#[trigger] rest[i]));
        lemma_token_value_nonneg(rest);
        let d = spec_digit_of_char(s.first());
        let v = spec_token_value(s);
        assert(v == d + 62 * spec_token_value(rest));
        assert(v % 62 == d && v / 62 == spec_token_value(rest)) by {
            vstd::arithmetic::div_mod::lemma_fundamental_div_mod_converse(
                v,
                62,
                spec_token_value(rest),
                d,
            );
        };
        lemma_char_roundtrip(s.first());
        lemma_token_canonical(rest);
        assert(spec_token(v, s.len()) =~= s);
    }
}

/// Opaque numeric handle for an Entry, externally represented as a short
/// token. Two identifiers are equal iff their numeric values are equal.
#[derive(Clone, Copy, Debug, PartialEq, Eq, Hash, Structural)]
pub struct Id {
    n: u64,
}

/// Relies on `rand::random`: draws a pseudo-random value from the
/// thread-local generator. Nothing is promised of the result.
#[verifier::external_body]
fn random_u32() -> u32 {
    rand::random::<u32>()
}

/// The characters with the same code points as the given bytes.
pub open spec fn chars_of_bytes(b: Seq<u8>) -> Seq<char> {
    b.map_values(|x: u8| x as char)
}

/// Relies on `String::from_utf8`: a sequence of bytes below 0x80 is valid
/// UTF-8 and decodes to the characters with the same code points.
#[verifier::external_body]
fn string_from_ascii(bytes: Vec<u8>) -> (r: String)
    requires
        forall|i: int| 0 <= i < bytes@.len() ==> bytes@[i] < 128,
    ensures
        r@ == chars_of_bytes(bytes@),
{
    String::from_utf8(bytes).unwrap_or_default()
}

fn byte_of_digit(d: u8) -> (b: u8)
    requires
        d < 62,
    ensures
        b == spec_byte_of_digit(d as int),
        b < 128,
{
    if d < 26 {
        97 + d
    } else if d < 52 {
        65 + (d - 26)
    } else {
        48 + (d - 52)
    }
}

fn char_digit(c: char) -> (d: Option<u8>)
    ensures
        match d {
            Some(v) => v < 62 && spec_digit_of_char(c) == v as int,
            None => spec_digit_of_char(c) == -1,
        },
{
    let v = c as u32;
    if 97 <= v && v <= 122 {
        Some((v - 97) as u8)
    } else if 65 <= v && v <= 90 {
        Some((v - 65 + 26) as u8)
    } else if 48 <= v && v <= 57 {
        Some((v - 48 + 52) as u8)
    } else {
        None
    }
}

impl Id {
    /// The numeric value of this identifier.
    pub closed spec fn spec_value(self) -> u64 {
        self.n
    }

    /// Well-formed identifiers lie below the pool size.
    pub open spec fn wf(self) -> bool {
        self.spec_value() < ID_POOL
    }

    pub fn value(&self) -> (n: u64)
        ensures
            n == self.spec_value(),
    {
        self.n
    }

    /// Builds the identifier with the given numeric value. Every `u32`
    /// lies inside the pool.
    pub fn from_u32(n: u32) -> (id: Id)
        ensures
            id.wf(),
            id.spec_value() == n as u64,
    {
        Id { n: n as u64 }
    }

    /// Produces a pseudo-randomly chosen identifier. Uniqueness is not
    /// guaranteed here; the storage layer enforces it at insertion.
    pub fn generate() -> (id: Id)
        ensures
            id.wf(),
    {
        Id::from_u32(random_u32())
    }

    /// Renders the external token of this identifier.
    pub fn to_token(&self) -> (s: String)
        requires
            self.wf(),
        ensures
            s@ == spec_token(self.spec_value() as int, TOKEN_LEN as nat),
            valid_token(s@),
    {
        let mut bytes: Vec<u8> = Vec::new();
        let mut m: u64 = self.n;
        let mut i: usize = 0;
        while i < TOKEN_LEN
            invariant
                i <= TOKEN_LEN,
                bytes@.len() == i,
                forall|j: int| 0 <= j < i ==> bytes@[j] < 128,
                chars_of_bytes(bytes@) + spec_token(m as int, (TOKEN_LEN - i) as nat)
                    == spec_token(self.spec_value() as int, TOKEN_LEN as nat),
            decreases TOKEN_LEN - i,
        {
            let ghost prev = bytes@;
            let ghost prev_m = m as int;
            let d: u64 = m % 62;
            bytes.push(byte_of_digit(d as u8));
            m = m / 62;
            i = i + 1;
            proof {
                assert(chars_of_bytes(bytes@) =~= chars_of_bytes(prev) + seq![
                    spec_char_of_digit(prev_m % 62),
                ]);
                assert(spec_token(prev_m, (TOKEN_LEN - (i - 1)) as nat) == seq![
                    spec_char_of_digit(prev_m % 62),
                ] + spec_token(prev_m / 62, (TOKEN_LEN - i) as nat));
                assert(chars_of_bytes(prev) + spec_token(prev_m, (TOKEN_LEN - (i - 1)) as nat)
                    =~= chars_of_bytes(bytes@) + spec_token(m as int, (TOKEN_LEN - i) as nat));
            }
        }
        proof {
            assert(spec_token(m as int, 0) =~= Seq::<char>::empty());
            assert(chars_of_bytes(bytes@) =~= spec_token(
                self.spec_value() as int,
                TOKEN_LEN as nat,
            ));
            lemma_pow62_six();
            lemma_token_roundtrip(self.spec_value() as int, TOKEN_LEN as nat);
        }
        string_from_ascii(bytes)
    }

    /// Parses a token back into an identifier. Fails with
    /// `InvalidIdentifier` on a wrong length or a character outside the
    /// alphabet.
    pub fn parse(s: &str) -> (r: Result<Id, Error>)
        ensures
            match r {
                Ok(id) => {
                    &&& valid_token(s@)
                    &&& id.wf()
                    &&& id.spec_value() as int == spec_token_value(s@)
                },
                Err(e) => {
                    &&& e == Error::InvalidIdentifier
                    &&& !valid_token(s@)
                },
            },
    {
        let len = s.unicode_len();
        if len != TOKEN_LEN {
            return Err(Error::InvalidIdentifier);
        }
        let mut i: usize = 0;
        while i < TOKEN_LEN
            invariant
                i <= TOKEN_LEN,
                s@.len() == TOKEN_LEN,
                forall|j: int| 0 <= j < i ==> is_token_char(#[trigger] s@[j]),
            decreases TOKEN_LEN - i,
        {
            let c = s.get_char(i);
            if char_digit(c).is_none() {
                return Err(Error::InvalidIdentifier);
            }
            i = i + 1;
        }
        assert(valid_token(s@));
        let ghost whole = s@;
        let mut acc: u64 = 0;
        let mut k: usize = TOKEN_LEN;
        while k > 0
            invariant
                k <= TOKEN_LEN,
                s@.len() == TOKEN_LEN,
                valid_token(s@),
                acc as int == spec_token_value(s@.skip(k as int)),
                (acc as int) < pow62((TOKEN_LEN - k) as nat),
            decreases k,
        {
            k = k - 1;
            let c = s.get_char(k);
            let d = match char_digit(c) {
                Some(d) => d,
                None => {
                    // unreachable: every character was checked above
                    return Err(Error::InvalidIdentifier);
                },
            };
            proof {
                let tail = s@.skip(k as int);
                assert(tail.first() == s@[k as int]);
                assert(tail.drop_first() =~= s@.skip(k as int + 1));
                assert(spec_token_value(tail) == spec_digit_of_char(s@[k as int]) + 62
                    * spec_token_value(s@.skip(k as int + 1)));
                lemma_pow62_six();
                lemma_pow62_positive((TOKEN_LEN - k) as nat);
                assert(pow62((TOKEN_LEN - k) as nat) == 62 * pow62((TOKEN_LEN - k - 1) as nat));
                assert(pow62((TOKEN_LEN - k) as nat) <= pow62(6)) by {
                    lemma_pow62_monotone((TOKEN_LEN - k) as nat, 6);
                };
            }
            acc = acc * 62 + d as u64;
        }
        proof {
            assert(s@.skip(0) =~= s@);
            lemma_pow62_six();
            lemma_pow62_monotone(TOKEN_LEN as nat, 6);
        }
        Ok(Id { n: acc })
    }

    /// Renders the external URL path for this identifier, appending the
    /// entry's extension when present.
    pub fn to_url_path(&self, entry: &Entry) -> (s: String)
        requires
            self.wf(),
        ensures
            s@ == spec_url_path(self.spec_value() as int, opt_string_view(entry.extension)),
    {
        let token = self.to_token();
        let mut out = String::from_str("/");
        proof {
            reveal_strlit("/");
            assert(out@ =~= seq!['/']);
        }
        out.append(token.as_str());
        match &entry.extension {
            Some(ext) => {
                out.append(".");
                proof {
                    reveal_strlit(".");
                    assert("."@ =~= seq!['.']);
                }
                out.append(ext.as_str());
            },
            None => {},
        }
        out
    }
}

proof fn lemma_pow62_monotone(a: nat, b: nat)
    requires
        a <= b,
    ensures
        pow62(a) <= pow62(b),
    decreases b,
{
    if a < b {
        lemma_pow62_monotone(a, (b - 1) as nat);
        lemma_pow62_positive(a);
        lemma_pow62_positive((b - 1) as nat);
    }
}

/// `d` is the position of the first `.` in `s`.
pub open spec fn is_first_dot(s: Seq<char>, d: int) -> bool {
    &&& 0 <= d < s.len()
    &&& s[d] == '.'
    &&& forall|j: int| 0 <= j < d ==> s[j] != '.'
}

/// `s` contains a `.`.
pub open spec fn has_dot(s: Seq<char>) -> bool {
    exists|d: int| is_first_dot(s, d)
}

/// The position of the first `.` in `s`.
pub open spec fn first_dot(s: Seq<char>) -> int {
    choose|d: int| is_first_dot(s, d)
}

/// The identifier portion of a path segment: everything before the first
/// `.`, or the whole segment when there is none.
pub open spec fn id_part(s: Seq<char>) -> Seq<char> {
    if has_dot(s) {
        s.take(first_dot(s))
    } else {
        s
    }
}

/// The extension portion of a path segment: everything after the first
/// `.`, when there is one.
pub open spec fn ext_part(s: Seq<char>) -> Option<Seq<char>> {
    if has_dot(s) {
        Some(s.skip(first_dot(s) + 1))
    } else {
        None
    }
}

proof fn lemma_first_dot_unique(s: Seq<char>, d: int)
    requires
        is_first_dot(s, d),
    ensures
        has_dot(s),
        first_dot(s) == d,
{
    assert(has_dot(s));
    let d2 = first_dot(s);
    assert(is_first_dot(s, d2));
    if d < d2 {
        assert(s[d] != '.');
    }
    if d2 < d {
        assert(s[d2] != '.');
    }
}

/// A parsed path segment: an identifier and an optional extension
/// override used for rendering and download.
#[derive(Clone, Debug)]
pub struct Key {
    /// The identifier used for storage lookups.
    pub id: Id,
    /// The requested extension, overriding the entry's own when present.
    pub extension: Option<String>,
}

/// Splits a path segment on the first `.` into an identifier token and an
/// optional extension. Fails with `InvalidIdentifier` when the identifier
/// portion is malformed, and with `IllegalCharacters` when the extension
/// portion is not ASCII.
pub fn parse_key(s: &str) -> (r: Result<Key, Error>)
    ensures
        match r {
            Ok(k) => {
                &&& valid_token(id_part(s@))
                &&& k.id.wf()
                &&& k.id.spec_value() as int == spec_token_value(id_part(s@))
                &&& opt_string_view(k.extension) == ext_part(s@)
                &&& (ext_part(s@) matches Some(e) ==> vstd::utf8::is_ascii_chars(e))
            },
            Err(e) => {
                &&& (e == Error::InvalidIdentifier || e == Error::IllegalCharacters)
                &&& (e == Error::InvalidIdentifier <==> !valid_token(id_part(s@)))
                &&& (e == Error::IllegalCharacters ==> valid_token(id_part(s@)) && (ext_part(
                    s@,
                ) matches Some(x) && !vstd::utf8::is_ascii_chars(x)))
            },
        },
{
    let len = s.unicode_len();
    let mut dot_idx: usize = len;
    let mut i: usize = 0;
    while i < len
        invariant
            i <= len,
            len == s@.len(),
            dot_idx == len || dot_idx < i,
            dot_idx == len ==> forall|j: int| 0 <= j < i ==> s@[j] != '.',
            dot_idx < len ==> is_first_dot(s@, dot_idx as int),
        decreases len - i,
    {
        let c = s.get_char(i);
        if c == '.' && dot_idx == len {
            dot_idx = i;
        }
        i = i + 1;
    }
    if dot_idx == len {
        proof {
            assert(!has_dot(s@)) by {
                if has_dot(s@) {
                    let d = first_dot(s@);
                    assert(is_first_dot(s@, d));
                    assert(s@[d] != '.');
                }
            };
            assert(id_part(s@) =~= s@);
        }
        match Id::parse(s) {
            Ok(id) => Ok(Key { id, extension: None }),
            Err(e) => Err(e),
        }
    } else {
        proof {
            lemma_first_dot_unique(s@, dot_idx as int);
        }
        let id_str = s.substring_char(0, dot_idx);
        let ext_str = s.substring_char(dot_idx + 1, len);
        proof {
            assert(id_str@ =~= id_part(s@));
            assert(ext_str@ =~= ext_part(s@).unwrap());
        }
        let id = match Id::parse(id_str) {
            Ok(id) => id,
            Err(e) => {
                return Err(e);
            },
        };
        if !ext_str.is_ascii() {
            return Err(Error::IllegalCharacters);
        }
        Ok(Key { id, extension: Some(String::from_str(ext_str)) })
    }
}

/// Checks an extension requested for download: it must be ASCII, else
/// the request is refused with `IllegalCharacters`.
pub fn check_extension(extension: &str) -> (r: Result<(), Error>)
    ensures
        r is Ok <==> vstd::utf8::is_ascii_chars(extension@),
        r is Err ==> r == Err::<(), Error>(Error::IllegalCharacters),
{
    if extension.is_ascii() {
        Ok(())
    } else {
        Err(Error::IllegalCharacters)
    }
}

/// The path a successful insertion redirects to: the burn notice page
/// for a burn-after-reading entry, the paste's own path otherwise.
pub fn insert_redirect_path(id: &Id, entry: &Entry) -> (s: String)
    requires
        id.wf(),
    ensures
        s@ == if entry.burn_after_reading == Some(true) {
            "/burn"@ + spec_url_path(id.spec_value() as int, opt_string_view(entry.extension))
        } else {
            spec_url_path(id.spec_value() as int, opt_string_view(entry.extension))
        },
{
    let url = id.to_url_path(entry);
    match entry.burn_after_reading {
        Some(true) => {
            let mut out = String::from_str("/burn");
            out.append(url.as_str());
            out
        },
        _ => url,
    }
}

/// The view of an optional string.
pub open spec fn opt_string_view(o: Option<String>) -> Option<Seq<char>> {
    match o {
        Some(s) => Some(s@),
        None => None,
    }
}

/// The URL path of an identifier with an optional extension:
/// "/token" or "/token.extension".
pub open spec fn spec_url_path(id_val: int, ext: Option<Seq<char>>) -> Seq<char> {
    let base = seq!['/'] + spec_token(id_val, TOKEN_LEN as nat);
    match ext {
        Some(e) => base + seq!['.'] + e,
        None => base,
    }
}

} // verus!
