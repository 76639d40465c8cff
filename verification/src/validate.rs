//! Validation of account, character and room fields, and the protocol limits.

use vstd::prelude::*;
use crate::json::{Json, JsonView};
use crate::text::has_char;

verus! {

pub const CHAT_MESSAGE_MAX_LENGTH: usize = 2000;
pub const CHAT_ROOM_DESCRIPTION_MAX_LENGTH: usize = 300;
pub const OWNERSHIP_DELAY_MS: i64 = 604_800_000;
pub const LOVERSHIP_DELAY_MS: i64 = 604_800_000;
pub const DIFFICULTY_DELAY_MS: i64 = 604_800_000;
pub const ROOM_LIMIT_DEFAULT: i32 = 10;
pub const ROOM_LIMIT_MINIMUM: i32 = 2;
pub const ROOM_LIMIT_MAXIMUM: i32 = 20;

pub const ACCOUNT_EMAIL_PATTERN: &'static str = r"^[a-zA-Z0-9@.!#$%&'*+/=?^_`{|}~-]{5,100}$";
pub const ACCOUNT_NAME_PATTERN: &'static str = r"^[a-zA-Z0-9]{1,20}$";
pub const ACCOUNT_PASSWORD_PATTERN: &'static str = r"^[a-zA-Z0-9]{1,20}$";
pub const ACCOUNT_RESET_NUMBER_PATTERN: &'static str = r"^[0-9]{1,20}$";
pub const CHARACTER_NAME_PATTERN: &'static str = r"^[a-zA-Z ]{1,20}$";
pub const CHARACTER_NICKNAME_PATTERN: &'static str = r"^[\p{L}\p{Nd}\p{Z}'-]+$";
pub const CHAT_ROOM_NAME_PATTERN: &'static str = r"^[\x20-\x7E]{1,20}$";

pub open spec fn is_digit(c: char) -> bool {
    '0' <= c && c <= '9'
}

pub open spec fn is_ascii_letter(c: char) -> bool {
    ('a' <= c && c <= 'z') || ('A' <= c && c <= 'Z')
}

pub open spec fn is_ascii_alnum(c: char) -> bool {
    is_ascii_letter(c) || is_digit(c)
}

/// A printable ASCII character, space to tilde.
pub open spec fn is_printable_ascii(c: char) -> bool {
    ' ' <= c && c <= '~'
}

/// A character of the e-mail pattern's class.
pub open spec fn is_email_char(c: char) -> bool {
    is_ascii_alnum(c) || c == '@' || c == '.' || c == '!' || c == '#' || c == '$' || c == '%'
        || c == '&' || c == '\'' || c == '*' || c == '+' || c == '/' || c == '=' || c == '?'
        || c == '^' || c == '_' || c == '`' || c == '{' || c == '|' || c == '}' || c == '~'
        || c == '-'
}

/// The whole text is a run of `lo` to `hi` characters, each satisfying `class`.
pub open spec fn class_run(s: Seq<char>, lo: nat, hi: nat, class: spec_fn(char) -> bool) -> bool {
    lo <= s.len() <= hi && forall|i: int| 0 <= i < s.len() ==> #[trigger] class(s[i])
}

/// Whether `regex::Regex::is_match` reports a match of `pattern` in `text`.
pub uninterp spec fn regex_is_match(pattern: Seq<char>, text: Seq<char>) -> bool;

/// Compiles `pattern` with `regex::Regex::new` and tests `text` with
/// `Regex::is_match`; a pattern that does not compile matches nothing. The
/// result is named. For the anchored character-class patterns of this module
/// the regex syntax documentation fixes the answer, which is stated: the whole
/// text must be a run of the class with the bounded number of characters.
/// The nickname pattern uses Unicode classes, of which nothing is stated.
#[verifier::external_body]
fn regex_full_match(pattern: &str, text: &str) -> (r: bool)
    ensures
        r == regex_is_match(pattern@, text@),
        pattern@ == ACCOUNT_NAME_PATTERN@ ==> r == class_run(text@, 1, 20, |c: char| is_ascii_alnum(c)),
        pattern@ == ACCOUNT_PASSWORD_PATTERN@ ==> r == class_run(text@, 1, 20, |c: char| is_ascii_alnum(c)),
        pattern@ == ACCOUNT_RESET_NUMBER_PATTERN@ ==> r == class_run(text@, 1, 20, |c: char| is_digit(c)),
        pattern@ == CHARACTER_NAME_PATTERN@ ==> r == class_run(text@, 1, 20, |c: char| is_ascii_letter(c) || c == ' '),
        pattern@ == CHAT_ROOM_NAME_PATTERN@ ==> r == class_run(text@, 1, 20, |c: char| is_printable_ascii(c)),
        pattern@ == ACCOUNT_EMAIL_PATTERN@ ==> r == class_run(text@, 5, 100, |c: char| is_email_char(c)),
{
    match regex::Regex::new(pattern) {
        Ok(re) => re.is_match(text),
        Err(_) => false,
    }
}

pub open spec fn spec_is_account_name(s: Seq<char>) -> bool {
    class_run(s, 1, 20, |c: char| is_ascii_alnum(c))
}

pub open spec fn spec_is_account_password(s: Seq<char>) -> bool {
    class_run(s, 1, 20, |c: char| is_ascii_alnum(c))
}

pub open spec fn spec_is_reset_number(s: Seq<char>) -> bool {
    class_run(s, 1, 20, |c: char| is_digit(c))
}

pub open spec fn spec_is_character_name(s: Seq<char>) -> bool {
    class_run(s, 1, 20, |c: char| is_ascii_letter(c) || c == ' ')
}

pub open spec fn spec_is_chat_room_name(s: Seq<char>) -> bool {
    class_run(s, 1, 20, |c: char| is_printable_ascii(c))
}

/// Number of occurrences of `c` in `s`.
pub open spec fn count_char(s: Seq<char>, c: char) -> nat
    decreases s.len(),
{
    if s.len() == 0 {
        0
    } else {
        count_char(s.drop_last(), c) + if s.last() == c { 1nat } else { 0nat }
    }
}

/// An e-mail address: a run of 5 to 100 characters of the address class with
/// exactly one `@`, and a `.` somewhere after it.
pub open spec fn spec_is_email_valid(s: Seq<char>) -> bool {
    &&& class_run(s, 5, 100, |c: char| is_email_char(c))
    &&& count_char(s, '@') == 1
    &&& exists|i: int| 0 <= i < s.len() && s[i] == '@' && has_char(s.subrange(i + 1, s.len() as int), '.')
}

pub fn is_account_name(s: &str) -> (r: bool)
    ensures
        r == spec_is_account_name(s@),
{
    regex_full_match(ACCOUNT_NAME_PATTERN, s)
}

pub fn is_account_password(s: &str) -> (r: bool)
    ensures
        r == spec_is_account_password(s@),
{
    regex_full_match(ACCOUNT_PASSWORD_PATTERN, s)
}

pub fn is_character_name(s: &str) -> (r: bool)
    ensures
        r == spec_is_character_name(s@),
{
    regex_full_match(CHARACTER_NAME_PATTERN, s)
}

/// Letters, decimal digits, separators, apostrophes and hyphens, at least one.
pub fn is_character_nickname(s: &str) -> (r: bool)
    ensures
        r == regex_is_match(CHARACTER_NICKNAME_PATTERN@, s@),
{
    regex_full_match(CHARACTER_NICKNAME_PATTERN, s)
}

pub fn is_chat_room_name(s: &str) -> (r: bool)
    ensures
        r == spec_is_chat_room_name(s@),
{
    regex_full_match(CHAT_ROOM_NAME_PATTERN, s)
}

pub fn is_reset_number(s: &str) -> (r: bool)
    ensures
        r == spec_is_reset_number(s@),
{
    regex_full_match(ACCOUNT_RESET_NUMBER_PATTERN, s)
}

proof fn lemma_count_char_prefix(s: Seq<char>, c: char, i: int)
    requires
        0 <= i < s.len(),
    ensures
        count_char(s.take(i + 1), c) == count_char(s.take(i), c) + if s[i] == c { 1nat } else { 0nat },
{
    assert(s.take(i + 1).drop_last() =~= s.take(i));
}

pub fn is_email_valid(email: &str) -> (r: bool)
    ensures
        r == spec_is_email_valid(email@),
{
    if !regex_full_match(ACCOUNT_EMAIL_PATTERN, email) {
        return false;
    }
    let v = crate::text::chars_of(email);
    // Count the `@` signs and find the first one.
    let mut ats: usize = 0;
    let mut first_at: usize = 0;
    let mut i: usize = 0;
    while i < v.len()
        invariant
            i <= v.len() <= 100,
            v@ == email@,
            ats == count_char(v@.take(i as int), '@'),
            ats <= i,
            ats >= 1 ==> first_at < i && v@[first_at as int] == '@',
            ats == 0 ==> forall|j: int| 0 <= j < i ==> v@[j] != '@',
            ats >= 1 ==> forall|j: int| 0 <= j < first_at ==> v@[j] != '@',
        decreases v.len() - i,
    {
        proof {
            lemma_count_char_prefix(v@, '@', i as int);
        }
        if v[i] == '@' {
            if ats == 0 {
                first_at = i;
            }
            ats += 1;
        }
        i += 1;
    }
    assert(v@.take(v@.len() as int) =~= v@);
    if ats != 1 {
        return false;
    }
    // The one `@` is at `first_at`; look for a `.` after it.
    let mut j: usize = first_at + 1;
    while j < v.len()
        invariant
            first_at < v.len(),
            first_at + 1 <= j <= v.len(),
            v@ == email@,
            forall|m: int| first_at + 1 <= m < j ==> v@[m] != '.',
            v@[first_at as int] == '@',
            count_char(email@, '@') == 1,
            class_run(email@, 5, 100, |c: char| is_email_char(c)),
        decreases v.len() - j,
    {
        if v[j] == '.' {
            assert(v@.subrange(first_at + 1, v@.len() as int)[j - first_at - 1] == '.');
            assert(has_char(v@.subrange(first_at + 1, v@.len() as int), '.'));
            assert(0 <= first_at < v@.len() && v@[first_at as int] == '@' && has_char(v@.subrange(first_at + 1, v@.len() as int), '.'));
            return true;
        }
        j += 1;
    }
    proof {
        assert forall|k: int| 0 <= k < v@.len() && v@[k] == '@' implies !has_char(v@.subrange(k + 1, v@.len() as int), '.') by {
            if k != first_at {
                // A second `@` would make the count exceed one.
                lemma_two_ats(v@, first_at as int, k);
            }
            assert forall|m: int| 0 <= m < v@.len() - (k + 1) implies #[trigger] v@.subrange(k + 1, v@.len() as int)[m] != '.' by {
                assert(v@.subrange(k + 1, v@.len() as int)[m] == v@[k + 1 + m]);
            }
        }
    }
    false
}

proof fn lemma_count_ge_two(s: Seq<char>, c: char, a: int, b: int)
    requires
        0 <= a < b < s.len(),
        s[a] == c,
        s[b] == c,
    ensures
        count_char(s, c) >= 2,
    decreases s.len(),
{
    if b < s.len() - 1 {
        lemma_count_ge_two(s.drop_last(), c, a, b);
    } else {
        lemma_count_ge_one(s.drop_last(), c, a);
    }
}

proof fn lemma_count_ge_one(s: Seq<char>, c: char, a: int)
    requires
        0 <= a < s.len(),
        s[a] == c,
    ensures
        count_char(s, c) >= 1,
    decreases s.len(),
{
    if a < s.len() - 1 {
        lemma_count_ge_one(s.drop_last(), c, a);
    }
}

proof fn lemma_two_ats(s: Seq<char>, a: int, k: int)
    requires
        0 <= a < s.len(),
        0 <= k < s.len(),
        a != k,
        s[a] == '@',
        s[k] == '@',
    ensures
        count_char(s, '@') >= 2,
{
    if a < k {
        lemma_count_ge_two(s, '@', a, k);
    } else {
        lemma_count_ge_two(s, '@', k, a);
    }
}

/// `Value::is_object`.
pub fn is_simple_object(value: &Json) -> (r: bool)
    ensures
        r == (value@ is Object),
{
    value.is_object()
}

} // verus!
