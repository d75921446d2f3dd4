//! Character-level text primitives shared by the parsers: whitespace
//! trimming, first-occurrence search, decimal numbers, case-insensitive
//! comparison and line splitting.

use vstd::prelude::*;
use vstd::string::*;

verus! {

/// Whitespace as it occurs in the control output: blanks, tabs and the
/// carriage return left by CRLF line endings.
pub open spec fn is_space(c: char) -> bool {
    c == ' ' || c == '\t' || c == '\r'
}

/// A key/value separator of the listing format.
pub open spec fn is_sep(c: char) -> bool {
    c == ':' || c == '='
}

pub open spec fn is_digit(c: char) -> bool {
    '0' <= c && c <= '9'
}

/// The classes of characters the parsers search for.
#[derive(Clone, Copy, Debug, PartialEq, Eq, Structural)]
pub enum CharClass {
    Sep,
    Hash,
    Space,
    Colon,
    CloseAngle,
    NonDigit,
    NonSpace,
}

pub open spec fn in_class(c: char, k: CharClass) -> bool {
    match k {
        CharClass::Sep => is_sep(c),
        CharClass::Hash => c == '#',
        CharClass::Space => c == ' ',
        CharClass::Colon => c == ':',
        CharClass::CloseAngle => c == '>',
        CharClass::NonDigit => !is_digit(c),
        CharClass::NonSpace => !is_space(c),
    }
}

/// Index of the first character of `s` in class `k`, or -1 when none is.
pub open spec fn find_class(s: Seq<char>, k: CharClass) -> int
    decreases s.len(),
{
    if s.len() == 0 {
        -1
    } else if in_class(s[0], k) {
        0
    } else {
        let r = find_class(s.drop_first(), k);
        if r < 0 {
            -1
        } else {
            r + 1
        }
    }
}

/// `find_class` is characterized by the first index whose character is in
/// the class: scanning up to such an index pins the result down.
pub proof fn lemma_find_class(s: Seq<char>, k: CharClass, i: int)
    requires
        0 <= i <= s.len(),
        forall|j: int| 0 <= j < i ==> !in_class(s[j], k),
        i == s.len() || in_class(s[i], k),
    ensures
        find_class(s, k) == if i == s.len() { -1 as int } else { i },
    decreases i,
{
    if i == 0 {
    } else {
        assert(!in_class(s[0], k));
        let t = s.drop_first();
        assert(forall|j: int| 0 <= j < i - 1 ==> t[j] == s[j + 1] && !in_class(t[j], k));
        if i < s.len() {
            assert(t[i - 1] == s[i]);
        }
        lemma_find_class(t, k, i - 1);
    }
}

pub fn exec_in_class(c: char, k: CharClass) -> (r: bool)
    ensures
        r == in_class(c, k),
{
    match k {
        CharClass::Sep => c == ':' || c == '=',
        CharClass::Hash => c == '#',
        CharClass::Space => c == ' ',
        CharClass::Colon => c == ':',
        CharClass::CloseAngle => c == '>',
        CharClass::NonDigit => !('0' <= c && c <= '9'),
        CharClass::NonSpace => !(c == ' ' || c == '\t' || c == '\r'),
    }
}

/// First index at or after `from` whose character is in class `k`.
pub fn find_from(s: &str, from: usize, k: CharClass) -> (r: Option<usize>)
    requires
        from <= s@.len(),
    ensures
        match r {
            Some(i) => from <= i < s@.len() && in_class(s@[i as int], k) && (forall|j: int|
                from <= j < i ==> !in_class(s@[j], k)),
            None => forall|j: int| from <= j < s@.len() ==> !in_class(s@[j], k),
        },
{
    let n = s.unicode_len();
    let mut i: usize = from;
    while i < n
        invariant
            from <= i <= n,
            n == s@.len(),
            forall|j: int| from <= j < i ==> !in_class(s@[j], k),
        decreases n - i,
    {
        let c = s.get_char(i);
        if exec_in_class(c, k) {
            return Some(i);
        }
        i = i + 1;
    }
    None
}

/// Pins `find_class` on a subrange from the characterization that
/// `find_from` establishes.
pub proof fn lemma_find_class_sub(s: Seq<char>, from: int, to: int, k: CharClass, r: Option<usize>)
    requires
        0 <= from <= to <= s.len(),
        match r {
            Some(i) => from <= i < to && in_class(s[i as int], k) && (forall|j: int|
                from <= j < i ==> !in_class(s[j], k)),
            None => forall|j: int| from <= j < to ==> !in_class(s[j], k),
        },
    ensures
        find_class(s.subrange(from, to), k) == match r {
            Some(i) => i - from,
            None => -1 as int,
        },
{
    let t = s.subrange(from, to);
    match r {
        Some(i) => {
            assert(forall|j: int| 0 <= j < i - from ==> t[j] == s[j + from]);
            lemma_find_class(t, k, i - from);
        },
        None => {
            assert(forall|j: int| 0 <= j < t.len() ==> t[j] == s[j + from]);
            lemma_find_class(t, k, t.len() as int);
        },
    }
}

/// `s` with leading whitespace removed.
pub open spec fn trim_start_spec(s: Seq<char>) -> Seq<char>
    decreases s.len(),
{
    if s.len() > 0 && is_space(s[0]) {
        trim_start_spec(s.drop_first())
    } else {
        s
    }
}

/// `s` with trailing whitespace removed.
pub open spec fn trim_end_spec(s: Seq<char>) -> Seq<char>
    decreases s.len(),
{
    if s.len() > 0 && is_space(s.last()) {
        trim_end_spec(s.drop_last())
    } else {
        s
    }
}

/// `s` with whitespace removed from both ends.
pub open spec fn trim_spec(s: Seq<char>) -> Seq<char> {
    trim_end_spec(trim_start_spec(s))
}

pub proof fn lemma_trim_start(s: Seq<char>, i: int)
    requires
        0 <= i <= s.len(),
        forall|j: int| 0 <= j < i ==> is_space(s[j]),
        i == s.len() || !is_space(s[i]),
    ensures
        trim_start_spec(s) =~= s.subrange(i, s.len() as int),
    decreases i,
{
    if i == 0 {
    } else {
        let t = s.drop_first();
        assert(forall|j: int| 0 <= j < i - 1 ==> t[j] == s[j + 1] && is_space(t[j]));
        if i < s.len() {
            assert(t[i - 1] == s[i]);
        }
        lemma_trim_start(t, i - 1);
        assert(t.subrange(i - 1, t.len() as int) =~= s.subrange(i, s.len() as int));
    }
}

pub proof fn lemma_trim_end(s: Seq<char>, i: int)
    requires
        0 <= i <= s.len(),
        forall|j: int| i <= j < s.len() ==> is_space(s[j]),
        i == 0 || !is_space(s[i - 1]),
    ensures
        trim_end_spec(s) =~= s.subrange(0, i),
    decreases s.len() - i,
{
    if i == s.len() {
    } else {
        let t = s.drop_last();
        assert(is_space(s.last()));
        assert(forall|j: int| i <= j < t.len() ==> t[j] == s[j] && is_space(t[j]));
        if i > 0 {
            assert(t[i - 1] == s[i - 1]);
        }
        lemma_trim_end(t, i);
        assert(t.subrange(0, i) =~= s.subrange(0, i));
    }
}

/// Trims whitespace from both ends of a string slice.
pub fn trim_str<'a>(s: &'a str) -> (r: &'a str)
    ensures
        r@ =~= trim_spec(s@),
{
    let n = s.unicode_len();
    let mut a: usize = 0;
    while a < n && exec_in_class(s.get_char(a), CharClass::NonSpace) == false
        invariant
            0 <= a <= n,
            n == s@.len(),
            forall|j: int| 0 <= j < a ==> is_space(s@[j]),
        decreases n - a,
    {
        a = a + 1;
    }
    proof {
        lemma_trim_start(s@, a as int);
    }
    let mut b: usize = n;
    while b > a && exec_in_class(s.get_char(b - 1), CharClass::NonSpace) == false
        invariant
            a <= b <= n,
            n == s@.len(),
            forall|j: int| 0 <= j < a ==> is_space(s@[j]),
            forall|j: int| b <= j < n ==> is_space(s@[j]),
        decreases b,
    {
        b = b - 1;
    }
    let ghost st = s@.subrange(a as int, n as int);
    proof {
        assert(forall|j: int| b - a <= j < st.len() ==> st[j] == s@[j + a] && is_space(st[j]));
        if b > a {
            assert(st[b - a - 1] == s@[b - 1 as int]);
        }
        lemma_trim_end(st, b - a);
        assert(st.subrange(0, b - a) =~= s@.subrange(a as int, b as int));
    }
    s.substring_char(a, b)
}

/// The numeric value of a sequence of decimal digits.
pub open spec fn dec_val(s: Seq<char>) -> nat
    decreases s.len(),
{
    if s.len() == 0 {
        0
    } else {
        dec_val(s.drop_last()) * 10 + (s.last() as int - '0' as int) as nat
    }
}

pub open spec fn all_digits(s: Seq<char>) -> bool {
    forall|i: int| 0 <= i < s.len() ==> is_digit(s[i])
}

/// The value a non-empty, all-digit sequence denotes, when it fits in u64.
pub open spec fn parse_u64_spec(s: Seq<char>) -> Option<u64> {
    if s.len() > 0 && all_digits(s) && dec_val(s) <= u64::MAX {
        Some(dec_val(s) as u64)
    } else {
        None
    }
}

/// A longer digit prefix never denotes a smaller value.
pub proof fn lemma_dec_val_prefix(s: Seq<char>, i: int)
    requires
        0 <= i <= s.len(),
    ensures
        dec_val(s.subrange(0, i)) <= dec_val(s),
    decreases s.len() - i,
{
    if i == s.len() {
        assert(s.subrange(0, i) =~= s);
    } else {
        let t = s.subrange(0, i + 1);
        assert(t.drop_last() =~= s.subrange(0, i));
        assert(dec_val(s.subrange(0, i)) <= dec_val(t));
        lemma_dec_val_prefix(s, i + 1);
        assert(s.subrange(0, i + 1) =~= t);
    }
}

/// Reads a whole string as an unsigned decimal number: `Some` exactly when
/// the string is non-empty, all digits, and the value fits in `u64`.
pub fn parse_u64(s: &str) -> (r: Option<u64>)
    ensures
        r == parse_u64_spec(s@),
{
    let n = s.unicode_len();
    if n == 0 {
        return None;
    }
    let mut i: usize = 0;
    let mut v: u64 = 0;
    while i < n
        invariant
            0 <= i <= n,
            n == s@.len(),
            forall|j: int| 0 <= j < i ==> is_digit(s@[j]),
            v == dec_val(s@.subrange(0, i as int)),
        decreases n - i,
    {
        let c = s.get_char(i);
        if !('0' <= c && c <= '9') {
            assert(!is_digit(s@[i as int]));
            return None;
        }
        let d: u64 = (c as u8 - '0' as u8) as u64;
        proof {
            assert(s@.subrange(0, i + 1 as int).drop_last() =~= s@.subrange(0, i as int));
        }
        if v > (u64::MAX - d) / 10 {
            proof {
                let w = dec_val(s@.subrange(0, i + 1 as int));
                assert(w == v * 10 + d);
                assert(v >= (u64::MAX - d) / 10 + 1);
                assert(((u64::MAX - d) / 10 + 1) * 10 + d > u64::MAX) by (nonlinear_arith)
                    requires
                        0 <= d <= 9,
                ;
                assert(v * 10 + d >= ((u64::MAX - d) / 10 + 1) * 10 + d) by (nonlinear_arith)
                    requires
                        v >= (u64::MAX - d) / 10 + 1,
                        0 <= d,
                ;
                lemma_dec_val_prefix(s@, i + 1);
            }
            return None;
        }
        proof {
            assert(v * 10 + d <= ((u64::MAX - d) / 10) * 10 + d) by (nonlinear_arith)
                requires
                    v <= (u64::MAX - d) / 10,
                    0 <= d,
            ;
            assert(((u64::MAX - d) / 10) * 10 + d <= u64::MAX) by (nonlinear_arith)
                requires
                    0 <= d <= 9,
            ;
        }
        v = v * 10 + d;
        i = i + 1;
    }
    proof {
        assert(s@.subrange(0, n as int) =~= s@);
    }
    Some(v)
}

/// Case folding for the ASCII letters; every other character is unchanged.
pub open spec fn lower_char(c: char) -> char {
    if 'A' <= c && c <= 'Z' {
        ((c as u8) + 32) as char
    } else {
        c
    }
}

/// Equality of two character sequences up to ASCII case.
pub open spec fn seq_eq_ci(a: Seq<char>, b: Seq<char>) -> bool {
    a.len() == b.len() && (forall|i: int| 0 <= i < a.len() ==> lower_char(a[i]) == lower_char(b[i]))
}

fn exec_lower_char(c: char) -> (r: char)
    ensures
        r == lower_char(c),
{
    if 'A' <= c && c <= 'Z' {
        ((c as u8) + 32) as char
    } else {
        c
    }
}

/// Compares two strings for equality up to ASCII case.
pub fn eq_ignore_ascii_case(a: &str, b: &str) -> (r: bool)
    ensures
        r == seq_eq_ci(a@, b@),
{
    let na = a.unicode_len();
    let nb = b.unicode_len();
    if na != nb {
        return false;
    }
    let mut i: usize = 0;
    while i < na
        invariant
            0 <= i <= na,
            na == a@.len(),
            na == b@.len(),
            forall|j: int| 0 <= j < i ==> lower_char(a@[j]) == lower_char(b@[j]),
        decreases na - i,
    {
        if exec_lower_char(a.get_char(i)) != exec_lower_char(b.get_char(i)) {
            return false;
        }
        i = i + 1;
    }
    true
}

/// Plain string equality.
pub fn str_eq(a: &str, b: &str) -> (r: bool)
    ensures
        r == (a@ == b@),
{
    let na = a.unicode_len();
    let nb = b.unicode_len();
    if na != nb {
        return false;
    }
    let mut i: usize = 0;
    while i < na
        invariant
            0 <= i <= na,
            na == a@.len(),
            na == b@.len(),
            forall|j: int| 0 <= j < i ==> a@[j] == b@[j],
        decreases na - i,
    {
        if a.get_char(i) != b.get_char(i) {
            return false;
        }
        i = i + 1;
    }
    proof {
        assert(a@ =~= b@);
    }
    true
}

/// The trimmed lines of `t`: text is split at every newline, a trailing
/// newline ends the last line rather than opening an empty one, and each
/// line is trimmed of surrounding whitespace.
pub open spec fn split_lines_aux(t: Seq<char>, cur: Seq<char>) -> Seq<Seq<char>>
    decreases t.len(),
{
    if t.len() == 0 {
        if cur.len() == 0 {
            Seq::empty()
        } else {
            seq![trim_spec(cur)]
        }
    } else if t[0] == '\n' {
        seq![trim_spec(cur)] + split_lines_aux(t.drop_first(), Seq::empty())
    } else {
        split_lines_aux(t.drop_first(), cur.push(t[0]))
    }
}

pub open spec fn split_lines(t: Seq<char>) -> Seq<Seq<char>> {
    split_lines_aux(t, Seq::empty())
}

/// The views of a vector of owned lines.
pub open spec fn line_views(v: Seq<String>) -> Seq<Seq<char>> {
    v.map_values(|s: String| s@)
}

/// Splits `text` into its trimmed lines.
pub fn split_trimmed_lines(text: &str) -> (r: Vec<String>)
    ensures
        line_views(r@) =~= split_lines(text@),
{
    let n = text.unicode_len();
    let mut out: Vec<String> = Vec::new();
    let mut start: usize = 0;
    let mut i: usize = 0;
    proof {
        assert(text@.subrange(0, n as int) =~= text@);
        assert(text@.subrange(0, 0) =~= Seq::<char>::empty());
        assert(line_views(out@) + split_lines_aux(text@, Seq::empty()) =~= split_lines(text@));
    }
    while i < n
        invariant
            0 <= start <= i <= n,
            n == text@.len(),
            line_views(out@) + split_lines_aux(
                text@.subrange(i as int, n as int),
                text@.subrange(start as int, i as int),
            ) =~= split_lines(text@),
        decreases n - i,
    {
        let ghost rest = text@.subrange(i as int, n as int);
        let ghost cur = text@.subrange(start as int, i as int);
        proof {
            assert(rest.len() > 0);
            assert(rest[0] == text@[i as int]);
            assert(rest.drop_first() =~= text@.subrange(i + 1 as int, n as int));
        }
        let c = text.get_char(i);
        if c == '\n' {
            proof {
                assert(split_lines_aux(rest, cur) == seq![trim_spec(cur)] + split_lines_aux(
                    rest.drop_first(),
                    Seq::empty(),
                ));
            }
            let line = trim_str(text.substring_char(start, i)).to_owned();
            out.push(line);
            proof {
                assert(line@ == trim_spec(cur));
                assert(line_views(out@) =~= line_views(out@.drop_last()).push(trim_spec(cur)));
                assert(text@.subrange(i + 1 as int, i + 1 as int) =~= Seq::<char>::empty());
                assert(line_views(out@) + split_lines_aux(
                    text@.subrange(i + 1 as int, n as int),
                    Seq::empty(),
                ) =~= line_views(out@.drop_last()) + split_lines_aux(rest, cur));
            }
            start = i + 1;
        } else {
            proof {
                assert(cur.push(text@[i as int]) =~= text@.subrange(start as int, i + 1 as int));
                assert(split_lines_aux(rest, cur) == split_lines_aux(
                    text@.subrange(i + 1 as int, n as int),
                    text@.subrange(start as int, i + 1 as int),
                ));
            }
        }
        i = i + 1;
    }
    let ghost rest = text@.subrange(n as int, n as int);
    let ghost cur = text@.subrange(start as int, n as int);
    proof {
        assert(rest.len() == 0);
    }
    if start < n {
        let line = trim_str(text.substring_char(start, n)).to_owned();
        out.push(line);
        proof {
            assert(cur.len() > 0);
            assert(line_views(out@) =~= line_views(out@.drop_last()).push(trim_spec(cur)));
        }
    } else {
        proof {
            assert(cur.len() == 0);
        }
    }
    out
}

} // verus!
