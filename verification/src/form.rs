//! Conversion of a submitted paste form into an entry.
//!
//! The form carries `expires` as free text: the word "burn" requests
//! burn-after-reading, a positive decimal number an expiry in seconds,
//! and zero or anything unparseable no expiry at all.

use vstd::prelude::*;
use vstd::string::StrSliceExecFns;
use vstd::string::StringExecFns;
use crate::Entry;

verus! {

broadcast use vstd::string::group_string_axioms;

/// Whether `c` is a decimal digit.
pub open spec fn is_digit_char(c: char) -> bool {
    48 <= c as u32 && c as u32 <= 57
}

/// Whether every character of `s` is a decimal digit.
pub open spec fn all_digits(s: Seq<char>) -> bool {
    forall|i: int| 0 <= i < s.len() ==> is_digit_char(#[trigger] s[i])
}

/// The number denoted by a sequence of decimal digits, most significant
/// first.
pub open spec fn spec_dec_value(s: Seq<char>) -> int
    decreases s.len(),
{
    if s.len() == 0 {
        0
    } else {
        spec_dec_value(s.drop_last()) * 10 + (s.last() as u32 - 48)
    }
}

/// The digit portion of a decimal text: the text after one optional
/// leading plus sign.
pub open spec fn spec_unsigned_digits(s: Seq<char>) -> Seq<char> {
    if s.len() > 0 && s[0] == '+' {
        s.drop_first()
    } else {
        s
    }
}

/// The expiry a form's `expires` text denotes: a positive decimal number
/// (with one optional leading plus sign) that fits in `u32`, or none.
pub open spec fn spec_form_expires(s: Seq<char>) -> Option<u32> {
    let d = spec_unsigned_digits(s);
    if d.len() > 0 && all_digits(d) && 0 < spec_dec_value(d) && spec_dec_value(d) <= u32::MAX {
        Some(spec_dec_value(d) as u32)
    } else {
        None
    }
}

proof fn lemma_dec_value_nonneg(s: Seq<char>)
    requires
        all_digits(s),
    ensures
        spec_dec_value(s) >= 0,
    decreases s.len(),
{
    if s.len() > 0 {
        assert(is_digit_char(s.last()));
        assert(forall|i: int|
            0 <= i < s.drop_last().len() ==> is_digit_char(#[trigger] s.drop_last()[i]));
        lemma_dec_value_nonneg(s.drop_last());
    }
}

proof fn lemma_dec_value_prefix(s: Seq<char>, i: int)
    requires
        all_digits(s),
        0 <= i <= s.len(),
    ensures
        spec_dec_value(s.take(i)) <= spec_dec_value(s),
    decreases s.len() - i,
{
    if i < s.len() {
        let t = s.take(s.len() - 1);
        assert(forall|j: int| 0 <= j < t.len() ==> is_digit_char(#[trigger] t[j]));
        lemma_dec_value_prefix(t, i);
        assert(t.take(i) =~= s.take(i));
        assert(s.drop_last() =~= t);
        lemma_dec_value_nonneg(t);
        assert(is_digit_char(s.last()));
        assert(s.last() as u32 >= 48);
        assert(spec_dec_value(s) == spec_dec_value(t) * 10 + (s.last() as u32 - 48));
        assert(spec_dec_value(t) * 10 >= spec_dec_value(t));
        assert(spec_dec_value(s) >= spec_dec_value(t));
    } else {
        assert(s.take(i) =~= s);
    }
}

/// Parses a decimal number: one optional leading plus sign followed by
/// digits. Returns the value exactly when the digit portion is nonempty,
/// all digits, and its value fits in `u32`.
pub fn parse_u32(s: &str) -> (r: Option<u32>)
    ensures
        ({
            let d = spec_unsigned_digits(s@);
            match r {
                Some(v) => {
                    &&& d.len() > 0
                    &&& all_digits(d)
                    &&& v as int == spec_dec_value(d)
                },
                None => d.len() == 0 || !all_digits(d) || spec_dec_value(d) > u32::MAX,
            }
        }),
{
    let len = s.unicode_len();
    if len > 0 && s.get_char(0) == '+' {
        let digits = s.substring_char(1, len);
        proof {
            assert(digits@ =~= spec_unsigned_digits(s@));
        }
        parse_digits(digits)
    } else {
        proof {
            assert(s@ =~= spec_unsigned_digits(s@));
        }
        parse_digits(s)
    }
}

/// Parses a nonempty, all-digit decimal text whose value fits in `u32`.
fn parse_digits(s: &str) -> (r: Option<u32>)
    ensures
        match r {
            Some(v) => {
                &&& s@.len() > 0
                &&& all_digits(s@)
                &&& v as int == spec_dec_value(s@)
            },
            None => s@.len() == 0 || !all_digits(s@) || spec_dec_value(s@) > u32::MAX,
        },
{
    let len = s.unicode_len();
    if len == 0 {
        return None;
    }
    let mut acc: u32 = 0;
    let mut i: usize = 0;
    while i < len
        invariant
            i <= len,
            len == s@.len(),
            forall|j: int| 0 <= j < i ==> is_digit_char(#[trigger] s@[j]),
            acc as int == spec_dec_value(s@.take(i as int)),
        decreases len - i,
    {
        let c = s.get_char(i);
        let v = c as u32;
        if !(48 <= v && v <= 57) {
            return None;
        }
        let d: u32 = v - 48;
        if acc > (u32::MAX - d) / 10 {
            proof {
                assert(spec_dec_value(s@.take(i as int)) * 10 + d > u32::MAX);
                assert(s@.take(i as int + 1).drop_last() =~= s@.take(i as int));
                assert(s@.take(i as int + 1).last() == s@[i as int]);
                assert(spec_dec_value(s@.take(i as int + 1)) > u32::MAX);
                if all_digits(s@) {
                    lemma_dec_value_prefix(s@, i as int + 1);
                }
            }
            return None;
        }
        proof {
            assert(s@.take(i as int + 1).drop_last() =~= s@.take(i as int));
            assert(s@.take(i as int + 1).last() == s@[i as int]);
        }
        acc = acc * 10 + d;
        i = i + 1;
    }
    proof {
        assert(s@.take(len as int) =~= s@);
    }
    Some(acc)
}

/// A paste as submitted by the web form: raw content, an optional
/// extension, and the `expires` selection as free text.
pub struct FormEntry {
    pub text: String,
    pub extension: Option<String>,
    pub expires: String,
}

impl FormEntry {
    /// Builds the entry a form submission denotes: `expires` equal to
    /// "burn" requests burn-after-reading; a positive decimal `expires`
    /// becomes the expiry in seconds; zero or unparseable text means no
    /// expiry. The entry starts with zero seconds since creation.
    pub fn into_entry(self) -> (e: Entry)
        ensures
            e.text == self.text,
            e.extension == self.extension,
            e.expires == spec_form_expires(self.expires@),
            e.burn_after_reading == Some(self.expires@ == "burn"@),
            e.seconds_since_creation == 0,
    {
        let burn_word = String::from_str("burn");
        let burn_after_reading = Some(self.expires == burn_word);
        let expires = match parse_u32(self.expires.as_str()) {
            Some(0) => None,
            Some(secs) => Some(secs),
            None => None,
        };
        proof {
            let d = spec_unsigned_digits(self.expires@);
            if spec_dec_value(d) == 0 && all_digits(d) && d.len() > 0 {
                assert(spec_form_expires(self.expires@) is None);
            }
        }
        Entry {
            text: self.text,
            extension: self.extension,
            expires,
            burn_after_reading,
            seconds_since_creation: 0,
        }
    }
}

} // verus!
