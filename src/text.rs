//! Character-level scanning: whitespace-separated words, slash-separated
//! fields, and the numeric forms that OBJ directives carry.
use vstd::prelude::*;

verus! {

/// The Unicode `White_Space` property, which `char::is_whitespace` reports.
pub open spec fn is_space(c: char) -> bool {
    ('\u{9}' <= c && c <= '\u{d}') || c == ' ' || c == '\u{85}' || c == '\u{a0}'
        || c == '\u{1680}' || ('\u{2000}' <= c && c <= '\u{200a}') || c == '\u{2028}'
        || c == '\u{2029}' || c == '\u{202f}' || c == '\u{205f}' || c == '\u{3000}'
}

/// A separator of the given kind: a slash when `slash`, else white space.
pub open spec fn is_sep(slash: bool, c: char) -> bool {
    if slash {
        c == '/'
    } else {
        is_space(c)
    }
}

/// Scans `s` from the left: the pieces completed so far and the open piece.
/// Slash splitting keeps empty pieces; white-space splitting drops them.
pub open spec fn scan(s: Seq<char>, slash: bool) -> (Seq<Seq<char>>, Seq<char>)
    decreases s.len(),
{
    if s.len() == 0 {
        (Seq::empty(), Seq::empty())
    } else {
        let prev = scan(s.drop_last(), slash);
        let c = s.last();
        if is_sep(slash, c) {
            if slash || prev.1.len() > 0 {
                (prev.0.push(prev.1), Seq::empty())
            } else {
                (prev.0, Seq::empty())
            }
        } else {
            (prev.0, prev.1.push(c))
        }
    }
}

/// The pieces of `s` between separators.
pub open spec fn pieces(s: Seq<char>, slash: bool) -> Seq<Seq<char>> {
    let st = scan(s, slash);
    if slash || st.1.len() > 0 {
        st.0.push(st.1)
    } else {
        st.0
    }
}

/// The maximal runs of non-space characters of `s`, in order.
pub open spec fn words(s: Seq<char>) -> Seq<Seq<char>> {
    pieces(s, false)
}

/// The fields of `s` between slashes, empty ones included.
pub open spec fn slash_fields(s: Seq<char>) -> Seq<Seq<char>> {
    pieces(s, true)
}

/// The character views of a sequence of strings.
pub open spec fn views(v: Seq<String>) -> Seq<Seq<char>> {
    v.map_values(|s: String| s@)
}

pub fn is_space_char(c: char) -> (r: bool)
    ensures
        r == is_space(c),
{
    ('\u{9}' <= c && c <= '\u{d}') || c == ' ' || c == '\u{85}' || c == '\u{a0}' || c
        == '\u{1680}' || ('\u{2000}' <= c && c <= '\u{200a}') || c == '\u{2028}' || c
        == '\u{2029}' || c == '\u{202f}' || c == '\u{205f}' || c == '\u{3000}'
}

fn is_sep_char(slash: bool, c: char) -> (r: bool)
    ensures
        r == is_sep(slash, c),
{
    if slash {
        c == '/'
    } else {
        is_space_char(c)
    }
}

proof fn lemma_views_push(v: Seq<String>, s: String)
    ensures
        views(v.push(s)) == views(v).push(s@),
{
    assert(views(v.push(s)) =~= views(v).push(s@));
}

/// Splits `s` into its pieces: words when `slash` is false, slash-separated
/// fields when it is true.
pub fn split_pieces(s: &str, slash: bool) -> (r: Vec<String>)
    ensures
        views(r@) == pieces(s@, slash),
{
    let n = s.unicode_len();
    let mut out: Vec<String> = Vec::new();
    let mut start: usize = 0;
    let mut i: usize = 0;
    while i < n
        invariant
            n == s@.len(),
            start <= i <= n,
            scan(s@.take(i as int), slash) == (views(out@), s@.subrange(start as int, i as int)),
        decreases n - i,
    {
        let c = s.get_char(i);
        proof {
            assert(s@.take(i + 1).drop_last() =~= s@.take(i as int));
            assert(s@.take(i + 1).last() == c);
        }
        if is_sep_char(slash, c) {
            if slash || start < i {
                let piece = String::from_str(s.substring_char(start, i));
                proof {
                    lemma_views_push(out@, piece);
                }
                out.push(piece);
            }
            start = i + 1;
            proof {
                assert(s@.subrange(start as int, i + 1) =~= Seq::<char>::empty());
            }
        } else {
            proof {
                assert(s@.subrange(start as int, i + 1) =~= s@.subrange(start as int, i as int).push(c));
            }
        }
        i = i + 1;
    }
    assert(s@.take(n as int) =~= s@);
    if slash || start < n {
        let piece = String::from_str(s.substring_char(start, n));
        proof {
            lemma_views_push(out@, piece);
        }
        out.push(piece);
    }
    out
}

/// Whether two strings hold the same characters.
pub fn same_text(a: &str, b: &str) -> (r: bool)
    ensures
        r == (a@ == b@),
{
    let n = a.unicode_len();
    if n != b.unicode_len() {
        return false;
    }
    let mut i: usize = 0;
    while i < n
        invariant
            n == a@.len() == b@.len(),
            i <= n,
            forall|j: int| 0 <= j < i ==> a@[j] == b@[j],
        decreases n - i,
    {
        if a.get_char(i) != b.get_char(i) {
            return false;
        }
        i = i + 1;
    }
    assert(a@ =~= b@);
    true
}

pub open spec fn is_digit(c: char) -> bool {
    '0' <= c && c <= '9'
}

pub open spec fn all_digits(s: Seq<char>) -> bool {
    forall|i: int| 0 <= i < s.len() ==> is_digit(#[trigger] s[i])
}

/// The number that a string of decimal digits writes.
pub open spec fn digits_value(s: Seq<char>) -> nat
    decreases s.len(),
{
    if s.len() == 0 {
        0
    } else {
        digits_value(s.drop_last()) * 10 + ((s.last() as int) - ('0' as int)) as nat
    }
}

/// The digits of an index field, after an optional leading `+`.
pub open spec fn index_digits(s: Seq<char>) -> Seq<char> {
    if s.len() > 0 && s[0] == '+' {
        s.skip(1)
    } else {
        s
    }
}

/// The value of an index field: an optional `+` and one or more decimal
/// digits, whose value fits in `usize`.
pub open spec fn index_value(s: Seq<char>) -> Option<usize> {
    let d = index_digits(s);
    if d.len() > 0 && all_digits(d) && digits_value(d) <= usize::MAX {
        Some(digits_value(d) as usize)
    } else {
        None
    }
}

proof fn lemma_digits_value_grows(s: Seq<char>, i: int)
    requires
        0 <= i <= s.len(),
        all_digits(s),
    ensures
        digits_value(s.take(i)) <= digits_value(s),
    decreases s.len() - i,
{
    if i < s.len() {
        lemma_digits_value_grows(s, i + 1);
        assert(s.take(i + 1).drop_last() =~= s.take(i));
        assert(is_digit(s[i]));
    } else {
        assert(s.take(i) =~= s);
    }
}

/// Reads an index field of a face corner.
pub fn parse_index(s: &str) -> (r: Option<usize>)
    ensures
        r == index_value(s@),
{
    let n = s.unicode_len();
    let mut i: usize = 0;
    if n > 0 && s.get_char(0) == '+' {
        i = 1;
    }
    let ghost d = index_digits(s@);
    assert(d =~= s@.skip(i as int));
    if i == n {
        return None;
    }
    let i0 = i;
    let mut value: usize = 0;
    while i < n
        invariant
            n == s@.len(),
            d == s@.skip(i0 as int),
            d == index_digits(s@),
            i0 <= i <= n,
            i0 < n,
            all_digits(s@.subrange(i0 as int, i as int)),
            value == digits_value(s@.subrange(i0 as int, i as int)),
        decreases n - i,
    {
        let c = s.get_char(i);
        let ghost pre = s@.subrange(i0 as int, i as int);
        assert(s@.subrange(i0 as int, i + 1).drop_last() =~= pre);
        if c < '0' || c > '9' {
            assert(d[i - i0] == c);
            assert(!is_digit(d[i - i0]));
            return None;
        }
        let digit = (c as u32 - '0' as u32) as usize;
        assert(s@.subrange(i0 as int, i + 1).last() == c);
        assert(digits_value(s@.subrange(i0 as int, i + 1)) == value * 10 + digit);
        if value > (usize::MAX - digit) / 10 {
            proof {
                assert(value * 10 + digit > usize::MAX) by (nonlinear_arith)
                    requires
                        value > (usize::MAX - digit) / 10,
                        digit <= 9,
                ;
                assert(all_digits(s@.subrange(i0 as int, i + 1)));
                if all_digits(d) {
                    assert(d.take(i + 1 - i0) =~= s@.subrange(i0 as int, i + 1));
                    lemma_digits_value_grows(d, i + 1 - i0);
                }
            }
            return None;
        }
        value = value * 10 + digit;
        i = i + 1;
    }
    assert(s@.subrange(i0 as int, n as int) =~= d);
    Some(value)
}

/// `c` is the lower-case letter `w`, or its ASCII upper case.
pub open spec fn same_letter(c: char, w: char) -> bool {
    c == w || ('A' <= c && c <= 'Z' && (c as u32) + 32 == (w as u32))
}

pub open spec fn is_word_ignoring_case(s: Seq<char>, w: Seq<char>) -> bool {
    s.len() == w.len() && forall|i: int| 0 <= i < s.len() ==> same_letter(#[trigger] s[i], w[i])
}

pub open spec fn is_exp_mark(c: char) -> bool {
    c == 'e' || c == 'E'
}

/// `Digit+ | Digit+ '.' Digit* | Digit* '.' Digit+`: digits and at most one
/// point, with at least one digit.
pub open spec fn is_mantissa(s: Seq<char>) -> bool {
    &&& forall|i: int| 0 <= i < s.len() ==> is_digit(#[trigger] s[i]) || s[i] == '.'
    &&& forall|i: int, j: int| 0 <= i < j < s.len() && #[trigger] s[i] == '.' ==> #[trigger] s[j] != '.'
    &&& exists|i: int| 0 <= i < s.len() && is_digit(#[trigger] s[i])
}

/// `Sign? Digit+`
pub open spec fn is_exponent(s: Seq<char>) -> bool {
    let d = if s.len() > 0 && (s[0] == '+' || s[0] == '-') {
        s.skip(1)
    } else {
        s
    };
    d.len() > 0 && all_digits(d)
}

/// `Mantissa (('e' | 'E') Exponent)?`
pub open spec fn is_decimal(s: Seq<char>) -> bool {
    is_mantissa(s) || exists|m: int|
        0 <= m < s.len() && is_exp_mark(s[m]) && is_mantissa(#[trigger] s.take(m)) && is_exponent(
            s.skip(m + 1),
        )
}

/// `inf | infinity | nan | Decimal`, the words in any case.
pub open spec fn is_unsigned_float(s: Seq<char>) -> bool {
    is_word_ignoring_case(s, seq!['i', 'n', 'f'])
        || is_word_ignoring_case(s, seq!['i', 'n', 'f', 'i', 'n', 'i', 't', 'y'])
        || is_word_ignoring_case(s, seq!['n', 'a', 'n']) || is_decimal(s)
}

/// The text of a floating-point number as Rust's `f32` parser reads it: an
/// optional sign before an unsigned float, with nothing around it.
pub open spec fn is_float_text(s: Seq<char>) -> bool {
    if s.len() > 0 && (s[0] == '+' || s[0] == '-') {
        is_unsigned_float(s.skip(1))
    } else {
        is_unsigned_float(s)
    }
}

fn is_word_ignoring_case_exec(s: &str, w: &str) -> (r: bool)
    ensures
        r == is_word_ignoring_case(s@, w@),
{
    let n = s.unicode_len();
    if n != w.unicode_len() {
        return false;
    }
    let mut i: usize = 0;
    while i < n
        invariant
            n == s@.len() == w@.len(),
            i <= n,
            forall|j: int| 0 <= j < i ==> same_letter(#[trigger] s@[j], w@[j]),
        decreases n - i,
    {
        let c = s.get_char(i);
        let d = w.get_char(i);
        if !(c == d || ('A' <= c && c <= 'Z' && (c as u32) + 32 == (d as u32))) {
            return false;
        }
        i = i + 1;
    }
    true
}

fn all_digits_exec(s: &str) -> (r: bool)
    ensures
        r == all_digits(s@),
{
    let n = s.unicode_len();
    let mut i: usize = 0;
    while i < n
        invariant
            n == s@.len(),
            i <= n,
            forall|j: int| 0 <= j < i ==> is_digit(#[trigger] s@[j]),
        decreases n - i,
    {
        let c = s.get_char(i);
        if c < '0' || c > '9' {
            assert(!is_digit(s@[i as int]));
            return false;
        }
        i = i + 1;
    }
    true
}

fn is_mantissa_exec(s: &str) -> (r: bool)
    ensures
        r == is_mantissa(s@),
{
    let n = s.unicode_len();
    let mut i: usize = 0;
    let mut seen_digit = false;
    let mut dot: Option<usize> = None;
    while i < n
        invariant
            n == s@.len(),
            i <= n,
            forall|j: int| 0 <= j < i ==> is_digit(#[trigger] s@[j]) || s@[j] == '.',
            seen_digit == exists|j: int| 0 <= j < i && is_digit(#[trigger] s@[j]),
            match dot {
                Some(d) => d < i && s@[d as int] == '.' && forall|j: int|
                    0 <= j < i && j != d ==> #[trigger] s@[j] != '.',
                None => forall|j: int| 0 <= j < i ==> #[trigger] s@[j] != '.',
            },
        decreases n - i,
    {
        let c = s.get_char(i);
        if '0' <= c && c <= '9' {
            seen_digit = true;
        } else if c == '.' {
            if dot.is_some() {
                return false;
            }
            dot = Some(i);
        } else {
            return false;
        }
        i = i + 1;
    }
    seen_digit
}

fn is_exponent_exec(s: &str) -> (r: bool)
    ensures
        r == is_exponent(s@),
{
    let n = s.unicode_len();
    if n > 0 && (s.get_char(0) == '+' || s.get_char(0) == '-') {
        all_digits_exec(s.substring_char(1, n)) && n > 1
    } else {
        assert(s@.subrange(0, n as int) =~= s@);
        n > 0 && all_digits_exec(s)
    }
}

fn is_decimal_exec(s: &str) -> (r: bool)
    ensures
        r == is_decimal(s@),
{
    let n = s.unicode_len();
    let mut m: usize = 0;
    while m < n && !(s.get_char(m) == 'e' || s.get_char(m) == 'E')
        invariant
            n == s@.len(),
            m <= n,
            forall|j: int| 0 <= j < m ==> !is_exp_mark(#[trigger] s@[j]),
        decreases n - m,
    {
        m = m + 1;
    }
    if m == n {
        assert forall|k: int| 0 <= k < n implies !is_exp_mark(#[trigger] s@[k]) by {}
        is_mantissa_exec(s)
    } else {
        let head = s.substring_char(0, m);
        let tail = s.substring_char(m + 1, n);
        assert(head@ =~= s@.take(m as int));
        assert(tail@ =~= s@.skip(m + 1));
        assert(is_exp_mark(s@[m as int]));
        assert(!is_mantissa(s@)) by {
            if is_mantissa(s@) {
                assert(is_digit(s@[m as int]) || s@[m as int] == '.');
            }
        }
        proof {
            assert forall|k: int|
                0 <= k < s@.len() && is_exp_mark(s@[k]) && is_mantissa(#[trigger] s@.take(k)) implies k
                == m by {
                if k > m {
                    assert(s@.take(k)[m as int] == s@[m as int]);
                }
            }
        }
        is_mantissa_exec(head) && is_exponent_exec(tail)
    }
}

/// Whether `s` is the text of a floating-point number.
pub fn is_number(s: &str) -> (r: bool)
    ensures
        r == is_float_text(s@),
{
    let n = s.unicode_len();
    let mut start: usize = 0;
    if n > 0 && (s.get_char(0) == '+' || s.get_char(0) == '-') {
        start = 1;
    }
    let u = s.substring_char(start, n);
    assert(u@ =~= if start == 1 { s@.skip(1) } else { s@ });
    proof {
        reveal_strlit("inf");
        reveal_strlit("infinity");
        reveal_strlit("nan");
    }
    assert("inf"@ =~= seq!['i', 'n', 'f']);
    assert("infinity"@ =~= seq!['i', 'n', 'f', 'i', 'n', 'i', 't', 'y']);
    assert("nan"@ =~= seq!['n', 'a', 'n']);
    is_word_ignoring_case_exec(u, "inf") || is_word_ignoring_case_exec(u, "infinity")
        || is_word_ignoring_case_exec(u, "nan") || is_decimal_exec(u)
}

} // verus!
