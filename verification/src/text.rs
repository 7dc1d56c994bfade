//! Character-level text utilities shared by the analyzers: trimming,
//! folding of line breaks, per-category case normalization, and page-number
//! parsing. Every function here is specified exactly over `Seq<char>`.

use vstd::prelude::*;

verus! {

/// Characters treated as blank when trimming a match.
pub open spec fn is_space_char(c: char) -> bool {
    c == ' ' || c == '\t' || c == '\n' || c == '\r' || c == '\u{b}' || c == '\u{c}'
}

/// `s` with its leading blank characters removed.
pub open spec fn trim_start_spec(s: Seq<char>) -> Seq<char>
    decreases s.len(),
{
    if s.len() == 0 {
        s
    } else if is_space_char(s[0]) {
        trim_start_spec(s.drop_first())
    } else {
        s
    }
}

/// `s` with its trailing blank characters removed.
pub open spec fn trim_end_spec(s: Seq<char>) -> Seq<char>
    decreases s.len(),
{
    if s.len() == 0 {
        s
    } else if is_space_char(s.last()) {
        trim_end_spec(s.drop_last())
    } else {
        s
    }
}

/// `s` with leading and trailing blank characters removed.
pub open spec fn trim_spec(s: Seq<char>) -> Seq<char> {
    trim_end_spec(trim_start_spec(s))
}

proof fn lemma_trim_start_at(s: Seq<char>, a: int)
    requires
        0 <= a <= s.len(),
        forall|j: int| 0 <= j < a ==> is_space_char(s[j]),
        a < s.len() ==> !is_space_char(s[a]),
    ensures
        trim_start_spec(s) == s.subrange(a, s.len() as int),
    decreases a,
{
    if a == 0 {
        assert(s.subrange(0, s.len() as int) =~= s);
    } else {
        lemma_trim_start_at(s.drop_first(), a - 1);
        assert(s.drop_first().subrange(a - 1, s.drop_first().len() as int) =~= s.subrange(
            a,
            s.len() as int,
        ));
    }
}

proof fn lemma_trim_end_at(s: Seq<char>, b: int)
    requires
        0 <= b <= s.len(),
        forall|j: int| b <= j < s.len() ==> is_space_char(s[j]),
        b > 0 ==> !is_space_char(s[b - 1]),
    ensures
        trim_end_spec(s) == s.subrange(0, b),
    decreases s.len() - b,
{
    if b == s.len() {
        if s.len() == 0 {
            assert(s.subrange(0, 0) =~= s);
        } else {
            assert(s.subrange(0, s.len() as int) =~= s);
        }
    } else {
        lemma_trim_end_at(s.drop_last(), b);
        assert(s.drop_last().subrange(0, b) =~= s.subrange(0, b));
    }
}

/// True when `c` is blank in the sense of [`is_space_char`].
pub fn is_space(c: char) -> (r: bool)
    ensures
        r == is_space_char(c),
{
    c == ' ' || c == '\t' || c == '\n' || c == '\r' || c == '\u{b}' || c == '\u{c}'
}

/// A copy of `s` with leading and trailing blank characters removed.
pub fn trim(s: &str) -> (r: String)
    ensures
        r@ == trim_spec(s@),
{
    let n = s.unicode_len();
    let mut a: usize = 0;
    while a < n && is_space(s.get_char(a))
        invariant
            0 <= a <= n,
            n == s@.len(),
            forall|j: int| 0 <= j < a ==> is_space_char(s@[j]),
        decreases n - a,
    {
        a = a + 1;
    }
    let mut b: usize = n;
    while b > a && is_space(s.get_char(b - 1))
        invariant
            a <= b <= n,
            n == s@.len(),
            forall|j: int| b <= j < n ==> is_space_char(s@[j]),
        decreases b,
    {
        b = b - 1;
    }
    proof {
        lemma_trim_start_at(s@, a as int);
        let t = s@.subrange(a as int, s@.len() as int);
        lemma_trim_end_at(t, b - a);
        assert(t.subrange(0, b - a) =~= s@.subrange(a as int, b as int));
    }
    let r = s.substring_char(a, b);
    r.to_owned()
}

/// The upper-case form of an ASCII letter; every other character is kept.
pub open spec fn upper_char(c: char) -> char {
    if 'a' <= c && c <= 'z' {
        (((c as u32) - 32) as u32) as char
    } else {
        c
    }
}

/// A line break folded to a plain space; every other character is kept.
pub open spec fn fold_nl_char(c: char) -> char {
    if c == '\n' {
        ' '
    } else {
        c
    }
}

/// The character for categories that fold case: line breaks become spaces,
/// ASCII letters are upper-cased.
pub open spec fn upper_nl_char(c: char) -> char {
    if c == '\n' {
        ' '
    } else {
        upper_char(c)
    }
}

/// The character for the one category that also identifies separators: line
/// breaks and the interchangeable separators `-` and `_` become spaces,
/// ASCII letters are upper-cased.
pub open spec fn upper_sep_char(c: char) -> char {
    if c == '\n' || c == '-' || c == '_' {
        ' '
    } else {
        upper_char(c)
    }
}

/// Trimmed, with internal line breaks folded to single spaces; source
/// casing is preserved.
pub open spec fn normalize_plain_spec(s: Seq<char>) -> Seq<char> {
    trim_spec(s).map_values(|c: char| fold_nl_char(c))
}

/// Trimmed, line breaks folded to spaces, and upper-cased.
pub open spec fn normalize_upper_spec(s: Seq<char>) -> Seq<char> {
    trim_spec(s).map_values(|c: char| upper_nl_char(c))
}

/// Trimmed, line breaks and the separators `-` and `_` folded to spaces,
/// and upper-cased: differently separated spellings of one mention
/// coincide.
pub open spec fn normalize_upper_sep_spec(s: Seq<char>) -> Seq<char> {
    trim_spec(s).map_values(|c: char| upper_sep_char(c))
}

/// True when `c` is an ASCII decimal digit.
pub open spec fn is_digit_char(c: char) -> bool {
    '0' <= c && c <= '9'
}

/// The numeric value of an ASCII decimal digit.
pub open spec fn digit_val(c: char) -> int {
    (c as u32) - ('0' as u32)
}

/// True when every character of `s` is an ASCII decimal digit.
pub open spec fn all_digits(s: Seq<char>) -> bool {
    forall|i: int| 0 <= i < s.len() ==> is_digit_char(s[i])
}

/// The number written in decimal by the digits of `s`.
pub open spec fn digits_val(s: Seq<char>) -> int
    decreases s.len(),
{
    if s.len() == 0 {
        0
    } else {
        digits_val(s.drop_last()) * 10 + digit_val(s.last())
    }
}

/// The page number denoted by `s`: its decimal value when `s` is a nonempty
/// string of digits whose value fits, and the default 0 otherwise.
pub open spec fn parse_page_spec(s: Seq<char>) -> u32 {
    if s.len() > 0 && all_digits(s) && digits_val(s) <= u32::MAX {
        digits_val(s) as u32
    } else {
        0
    }
}

proof fn lemma_digits_val_nonneg(s: Seq<char>)
    requires
        all_digits(s),
    ensures
        digits_val(s) >= 0,
    decreases s.len(),
{
    if s.len() > 0 {
        assert(all_digits(s.drop_last()));
        lemma_digits_val_nonneg(s.drop_last());
    }
}

/// Parses a trailing page number: the decimal value of `s` when it is a
/// nonempty digit string whose value fits in a `u32`, and 0 otherwise.
pub fn parse_page(s: &str) -> (r: u32)
    ensures
        r == parse_page_spec(s@),
{
    let n = s.unicode_len();
    if n == 0 {
        return 0;
    }
    let mut acc: u32 = 0;
    let mut over = false;
    let mut i: usize = 0;
    while i < n
        invariant
            0 <= i <= n,
            n == s@.len(),
            n > 0,
            forall|j: int| 0 <= j < i ==> is_digit_char(s@[j]),
            !over ==> acc == digits_val(s@.subrange(0, i as int)),
            over ==> digits_val(s@.subrange(0, i as int)) > u32::MAX,
            over ==> all_digits(s@.subrange(0, i as int)),
        decreases n - i,
    {
        let c = s.get_char(i);
        if !('0' <= c && c <= '9') {
            assert(!is_digit_char(s@[i as int]));
            return 0;
        }
        let d: u32 = (c as u32) - 48;
        proof {
            assert(s@.subrange(0, i + 1).drop_last() =~= s@.subrange(0, i as int));
            assert(s@.subrange(0, i + 1).last() == s@[i as int]);
            assert(d == digit_val(s@[i as int]));
        }
        if over {
            proof {
                lemma_digits_val_nonneg(s@.subrange(0, i as int));
            }
        } else {
            if acc > 429496729 || (acc == 429496729 && d > 5) {
                over = true;
            } else {
                acc = acc * 10 + d;
            }
        }
        i = i + 1;
    }
    proof {
        assert(s@.subrange(0, n as int) =~= s@);
    }
    if over {
        0
    } else {
        acc
    }
}

/// Appends one character. Relies on `String::push`, which appends exactly
/// the given character to the end of the string.
#[verifier::external_body]
fn push_char(s: &mut String, c: char)
    ensures
        final(s)@ == old(s)@.push(c),
{
    s.push(c);
}

fn upper(c: char) -> (r: char)
    ensures
        r == upper_char(c),
{
    if 'a' <= c && c <= 'z' {
        proof {
            vstd::utf8::char_is_scalar(c);
        }
        ((c as u32) - 32) as u8 as char
    } else {
        c
    }
}

/// The normalized form of a match for a category that preserves casing.
pub fn normalize_plain(s: &str) -> (r: String)
    ensures
        r@ == normalize_plain_spec(s@),
{
    let t = trim(s);
    let n = t.as_str().unicode_len();
    let mut out = String::new();
    let mut i: usize = 0;
    while i < n
        invariant
            0 <= i <= n,
            n == t@.len(),
            t@ == trim_spec(s@),
            out@ == t@.subrange(0, i as int).map_values(|c: char| fold_nl_char(c)),
        decreases n - i,
    {
        let c = t.as_str().get_char(i);
        let d = if c == '\n' {
            ' '
        } else {
            c
        };
        push_char(&mut out, d);
        proof {
            assert(t@.subrange(0, i + 1).map_values(|c: char| fold_nl_char(c)) =~= t@.subrange(
                0,
                i as int,
            ).map_values(|c: char| fold_nl_char(c)).push(fold_nl_char(t@[i as int])));
        }
        i = i + 1;
    }
    proof {
        assert(t@.subrange(0, n as int) =~= t@);
    }
    out
}

/// The normalized form of a match for a category that folds case.
pub fn normalize_upper(s: &str) -> (r: String)
    ensures
        r@ == normalize_upper_spec(s@),
{
    let t = trim(s);
    let n = t.as_str().unicode_len();
    let mut out = String::new();
    let mut i: usize = 0;
    while i < n
        invariant
            0 <= i <= n,
            n == t@.len(),
            t@ == trim_spec(s@),
            out@ == t@.subrange(0, i as int).map_values(|c: char| upper_nl_char(c)),
        decreases n - i,
    {
        let c = t.as_str().get_char(i);
        let d = if c == '\n' {
            ' '
        } else {
            upper(c)
        };
        push_char(&mut out, d);
        proof {
            assert(t@.subrange(0, i + 1).map_values(|c: char| upper_nl_char(c)) =~= t@.subrange(
                0,
                i as int,
            ).map_values(|c: char| upper_nl_char(c)).push(upper_nl_char(t@[i as int])));
        }
        i = i + 1;
    }
    proof {
        assert(t@.subrange(0, n as int) =~= t@);
    }
    out
}

/// The normalized form of a match for the category that also folds the
/// separators `-` and `_`.
pub fn normalize_upper_sep(s: &str) -> (r: String)
    ensures
        r@ == normalize_upper_sep_spec(s@),
{
    let t = trim(s);
    let n = t.as_str().unicode_len();
    let mut out = String::new();
    let mut i: usize = 0;
    while i < n
        invariant
            0 <= i <= n,
            n == t@.len(),
            t@ == trim_spec(s@),
            out@ == t@.subrange(0, i as int).map_values(|c: char| upper_sep_char(c)),
        decreases n - i,
    {
        let c = t.as_str().get_char(i);
        let d = if c == '\n' || c == '-' || c == '_' {
            ' '
        } else {
            upper(c)
        };
        push_char(&mut out, d);
        proof {
            assert(t@.subrange(0, i + 1).map_values(|c: char| upper_sep_char(c)) =~= t@.subrange(
                0,
                i as int,
            ).map_values(|c: char| upper_sep_char(c)).push(upper_sep_char(t@[i as int])));
        }
        i = i + 1;
    }
    proof {
        assert(t@.subrange(0, n as int) =~= t@);
    }
    out
}

} // verus!
