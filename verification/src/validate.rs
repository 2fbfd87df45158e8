//! Validation of text typed into the wizard: port numbers and git ref names.

use vstd::prelude::*;

use crate::text::chars_of;

verus! {

// --- Port numbers ---

/// Reported for a port that is not made of digits.
pub const PORT_NOT_A_NUMBER: &'static str = "Port must be a number.";

/// Reported for a port outside `1..=65535`.
pub const PORT_OUT_OF_RANGE: &'static str = "Port must be between 1 and 65535.";

/// An ASCII decimal digit.
pub open spec fn is_digit(c: char) -> bool {
    '0' <= c && c <= '9'
}

/// Every character is an ASCII decimal digit.
pub open spec fn all_digits(s: Seq<char>) -> bool {
    forall|i: int| 0 <= i < s.len() ==> is_digit(#[trigger] s[i])
}

/// The number a string of decimal digits stands for.
pub open spec fn decimal_value(s: Seq<char>) -> nat
    decreases s.len(),
{
    if s.len() == 0 {
        0
    } else {
        decimal_value(s.drop_last()) * 10 + ((s.last() as int - '0' as int) as nat)
    }
}

/// The problem with a port typed by the user, if any: empty input is fine
/// (it means "the default port"); otherwise the input must be all digits and
/// denote a number in `1..=65535`.
pub open spec fn spec_port_problem(s: Seq<char>) -> Option<Seq<char>> {
    if s.len() == 0 {
        None
    } else if !all_digits(s) {
        Some(PORT_NOT_A_NUMBER@)
    } else if 1 <= decimal_value(s) <= 65535 {
        None
    } else {
        Some(PORT_OUT_OF_RANGE@)
    }
}

/// The message of an optional problem, as characters.
pub open spec fn message_view(m: Option<&'static str>) -> Option<Seq<char>> {
    match m {
        Some(s) => Some(s@),
        None => None,
    }
}

/// Validates a port typed into a port input (see [`spec_port_problem`]).
pub fn port_problem(value: &str) -> (r: Option<&'static str>)
    ensures
        message_view(r) == spec_port_problem(value@),
{
    let chars = chars_of(value);
    if chars.len() == 0 {
        return None;
    }
    let mut i: usize = 0;
    while i < chars.len()
        invariant
            i <= chars.len(),
            chars@ == value@,
            forall|j: int| 0 <= j < i ==> is_digit(#[trigger] chars@[j]),
        decreases chars.len() - i,
    {
        let c = chars[i];
        if !('0' <= c && c <= '9') {
            assert(!is_digit(chars@[i as int]));
            return Some(PORT_NOT_A_NUMBER);
        }
        i = i + 1;
    }
    assert(all_digits(value@));
    let mut acc: u32 = 0;
    let mut k: usize = 0;
    assert(value@.subrange(0, 0) =~= Seq::<char>::empty());
    while k < chars.len()
        invariant
            k <= chars.len(),
            chars@ == value@,
            all_digits(value@),
            acc <= 655359,
            decimal_value(value@.subrange(0, k as int)) <= 65535 ==> acc == decimal_value(
                value@.subrange(0, k as int),
            ),
            decimal_value(value@.subrange(0, k as int)) > 65535 ==> acc > 65535,
        decreases chars.len() - k,
    {
        let c = chars[k];
        assert(is_digit(value@[k as int]));
        let digit: u32 = (c as u32) - ('0' as u32);
        let ghost prev = value@.subrange(0, k as int);
        let ghost next = value@.subrange(0, k + 1);
        assert(next.drop_last() =~= prev);
        assert(next.last() == c);
        assert(decimal_value(next) == decimal_value(prev) * 10 + digit);
        assert(decimal_value(prev) * 10 >= decimal_value(prev)) by (nonlinear_arith);
        if acc <= 65535 {
            acc = acc * 10 + digit;
        }
        k = k + 1;
    }
    assert(value@.subrange(0, chars.len() as int) =~= value@);
    if 1 <= acc && acc <= 65535 {
        None
    } else {
        Some(PORT_OUT_OF_RANGE)
    }
}

// --- Git ref names ---

pub const NAME_EMPTY: &'static str = "Name cannot be empty.";
pub const NAME_SPACE_OR_CONTROL: &'static str = "Name cannot contain spaces or control characters.";
pub const NAME_FORBIDDEN_CHAR: &'static str = "Name cannot contain ~ ^ : ? * [ or \\.";
pub const NAME_DOUBLE_DOT: &'static str = "Name cannot contain \"..\".";
pub const NAME_AT_BRACE: &'static str = "Name cannot contain \"@{\".";
pub const NAME_DOUBLE_SLASH: &'static str = "Name cannot contain \"//\".";
pub const NAME_BAD_START: &'static str = "Name cannot start with '-', '.' or '/'.";
pub const NAME_BAD_END: &'static str = "Name cannot end with '/' or '.'.";
pub const NAME_LOCK_SUFFIX: &'static str = "Name cannot end with \".lock\".";
pub const NAME_AT: &'static str = "Name cannot be \"@\".";

/// A space or an ASCII control character.
pub open spec fn is_space_or_control(c: char) -> bool {
    c == ' ' || (c as u32) < 0x20 || (c as u32) == 0x7f
}

/// A character git does not allow anywhere in a ref name.
pub open spec fn is_forbidden_char(c: char) -> bool {
    c == '~' || c == '^' || c == ':' || c == '?' || c == '*' || c == '[' || c == '\\'
}

/// Whether `a` is directly followed by `b` somewhere in `s`.
pub open spec fn has_pair(s: Seq<char>, a: char, b: char) -> bool {
    exists|i: int| 0 <= i && i + 1 < s.len() && #[trigger] s[i] == a && s[i + 1] == b
}

/// Whether `s` ends with ".lock".
pub open spec fn ends_with_lock(s: Seq<char>) -> bool {
    s.len() >= 5 && s.subrange(s.len() - 5, s.len() as int) == ".lock"@
}

/// The problem with a branch (or other git ref) name, if any, following the
/// rules of `git check-ref-format`; the first rule broken is reported.
pub open spec fn spec_branch_name_problem(s: Seq<char>) -> Option<Seq<char>> {
    if s.len() == 0 {
        Some(NAME_EMPTY@)
    } else if exists|i: int| 0 <= i < s.len() && is_space_or_control(#[trigger] s[i]) {
        Some(NAME_SPACE_OR_CONTROL@)
    } else if exists|i: int| 0 <= i < s.len() && is_forbidden_char(#[trigger] s[i]) {
        Some(NAME_FORBIDDEN_CHAR@)
    } else if has_pair(s, '.', '.') {
        Some(NAME_DOUBLE_DOT@)
    } else if has_pair(s, '@', '{') {
        Some(NAME_AT_BRACE@)
    } else if has_pair(s, '/', '/') {
        Some(NAME_DOUBLE_SLASH@)
    } else if s[0] == '-' || s[0] == '.' || s[0] == '/' {
        Some(NAME_BAD_START@)
    } else if s.last() == '/' || s.last() == '.' {
        Some(NAME_BAD_END@)
    } else if ends_with_lock(s) {
        Some(NAME_LOCK_SUFFIX@)
    } else if s == seq!['@'] {
        Some(NAME_AT@)
    } else {
        None
    }
}

fn find_space_or_control(s: &Vec<char>) -> (r: bool)
    ensures
        r == exists|i: int| 0 <= i < s@.len() && is_space_or_control(#[trigger] s@[i]),
{
    let mut i: usize = 0;
    while i < s.len()
        invariant
            i <= s.len(),
            forall|j: int| 0 <= j < i ==> !is_space_or_control(#[trigger] s@[j]),
        decreases s.len() - i,
    {
        let c = s[i];
        if c == ' ' || (c as u32) < 0x20 || (c as u32) == 0x7f {
            assert(is_space_or_control(s@[i as int]));
            return true;
        }
        i = i + 1;
    }
    false
}

fn find_forbidden_char(s: &Vec<char>) -> (r: bool)
    ensures
        r == exists|i: int| 0 <= i < s@.len() && is_forbidden_char(#[trigger] s@[i]),
{
    let mut i: usize = 0;
    while i < s.len()
        invariant
            i <= s.len(),
            forall|j: int| 0 <= j < i ==> !is_forbidden_char(#[trigger] s@[j]),
        decreases s.len() - i,
    {
        let c = s[i];
        if c == '~' || c == '^' || c == ':' || c == '?' || c == '*' || c == '[' || c == '\\' {
            assert(is_forbidden_char(s@[i as int]));
            return true;
        }
        i = i + 1;
    }
    false
}

fn find_pair(s: &Vec<char>, a: char, b: char) -> (r: bool)
    ensures
        r == has_pair(s@, a, b),
{
    let mut i: usize = 0;
    while i < s.len()
        invariant
            i <= s.len(),
            forall|j: int| 0 <= j < i && j + 1 < s@.len() ==> !(#[trigger] s@[j] == a && s@[j + 1] == b),
        decreases s.len() - i,
    {
        if i + 1 < s.len() && s[i] == a && s[i + 1] == b {
            return true;
        }
        i = i + 1;
    }
    false
}

/// Validates a branch or other git ref name (see [`spec_branch_name_problem`]).
pub fn branch_name_problem(name: &str) -> (r: Option<&'static str>)
    ensures
        message_view(r) == spec_branch_name_problem(name@),
{
    let s = chars_of(name);
    let n = s.len();
    if n == 0 {
        return Some(NAME_EMPTY);
    }
    if find_space_or_control(&s) {
        return Some(NAME_SPACE_OR_CONTROL);
    }
    if find_forbidden_char(&s) {
        return Some(NAME_FORBIDDEN_CHAR);
    }
    if find_pair(&s, '.', '.') {
        return Some(NAME_DOUBLE_DOT);
    }
    if find_pair(&s, '@', '{') {
        return Some(NAME_AT_BRACE);
    }
    if find_pair(&s, '/', '/') {
        return Some(NAME_DOUBLE_SLASH);
    }
    let first = s[0];
    if first == '-' || first == '.' || first == '/' {
        return Some(NAME_BAD_START);
    }
    let last = s[n - 1];
    if last == '/' || last == '.' {
        return Some(NAME_BAD_END);
    }
    if n >= 5 && s[n - 5] == '.' && s[n - 4] == 'l' && s[n - 3] == 'o' && s[n - 2] == 'c' && s[n
        - 1] == 'k' {
        proof {
            reveal_strlit(".lock");
            assert(name@.subrange(n - 5, n as int) =~= ".lock"@);
        }
        return Some(NAME_LOCK_SUFFIX);
    }
    proof {
        reveal_strlit(".lock");
        if ends_with_lock(name@) {
            assert(name@.subrange(n - 5, n as int)[0] == name@[n - 5]);
            assert(name@.subrange(n - 5, n as int)[4] == name@[n - 1]);
            assert(name@.subrange(n - 5, n as int)[1] == name@[n - 4]);
            assert(name@.subrange(n - 5, n as int)[2] == name@[n - 3]);
            assert(name@.subrange(n - 5, n as int)[3] == name@[n - 2]);
        }
    }
    if n == 1 && first == '@' {
        assert(name@ =~= seq!['@']);
        return Some(NAME_AT);
    }
    None
}

/// Reported for a remote with an empty name.
pub const REMOTE_NAME_EMPTY: &'static str = "Remote name cannot be empty.";

/// The problem with a remote name, if any: it must be non-empty and a valid
/// git ref name.
pub open spec fn spec_remote_name_problem(s: Seq<char>) -> Option<Seq<char>> {
    if s.len() == 0 {
        Some(REMOTE_NAME_EMPTY@)
    } else {
        spec_branch_name_problem(s)
    }
}

/// Validates a remote name (see [`spec_remote_name_problem`]).
pub fn remote_name_problem(name: &str) -> (r: Option<&'static str>)
    ensures
        message_view(r) == spec_remote_name_problem(name@),
{
    if name.is_empty() {
        return Some(REMOTE_NAME_EMPTY);
    }
    branch_name_problem(name)
}

} // verus!
