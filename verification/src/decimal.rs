//! The grammar of the texts that denote a floating-point number in base ten,
//! and a recogniser for it. It is the grammar that Rust's standard library
//! documents for its parser of such numbers, so a text is recognised here
//! exactly when that parser accepts it.

use vstd::prelude::*;
use vstd::string::*;

verus! {

/// A decimal digit.
pub open spec fn is_digit(c: char) -> bool {
    '0' <= c <= '9'
}

/// A plus or minus sign.
pub open spec fn is_sign(c: char) -> bool {
    c == '+' || c == '-'
}

/// Every character of `s` is a decimal digit.
pub open spec fn all_digits(s: Seq<char>) -> bool {
    forall|i: int| 0 <= i < s.len() ==> is_digit(#[trigger] s[i])
}

/// `Digit+ | Digit+ '.' Digit* | Digit* '.' Digit+`: digits with at most one
/// point among them, and at least one digit.
pub open spec fn is_mantissa(s: Seq<char>) -> bool {
    ||| s.len() > 0 && all_digits(s)
    ||| exists|k: int|
        #![trigger s.take(k)]
        0 <= k < s.len() && s.len() > 1 && s[k] == '.' && all_digits(s.take(k)) && all_digits(
            s.skip(k + 1),
        )
}

/// `'e' Sign? Digit+`, the letter in either case.
pub open spec fn is_exponent(s: Seq<char>) -> bool {
    &&& s.len() > 0
    &&& s[0] == 'e' || s[0] == 'E'
    &&& {
        let digits = if s.len() > 1 && is_sign(s[1]) {
            s.skip(2)
        } else {
            s.skip(1)
        };
        digits.len() > 0 && all_digits(digits)
    }
}

/// A mantissa, optionally followed by an exponent.
pub open spec fn is_number(s: Seq<char>) -> bool {
    exists|k: int|
        #![trigger s.take(k)]
        0 <= k <= s.len() && is_mantissa(s.take(k)) && (k == s.len() || is_exponent(s.skip(k)))
}

/// The lower-case form of an ASCII letter; any other character unchanged.
pub open spec fn ascii_lower(c: char) -> char {
    if 'A' <= c <= 'Z' {
        ((c as u32) + 32) as char
    } else {
        c
    }
}

/// `s` spells the lower-case `word` when ASCII case is ignored.
pub open spec fn spells(s: Seq<char>, word: Seq<char>) -> bool {
    &&& s.len() == word.len()
    &&& forall|i: int| 0 <= i < s.len() ==> ascii_lower(#[trigger] s[i]) == word[i]
}

/// One of the names of the values that are no numbers.
pub open spec fn is_special(s: Seq<char>) -> bool {
    spells(s, "inf"@) || spells(s, "infinity"@) || spells(s, "nan"@)
}

/// The texts that denote a floating-point number in base ten:
/// `Sign? ( 'inf' | 'infinity' | 'nan' | Number )`, letters in either case.
/// White space, before or after, is no part of such a text.
pub open spec fn is_float_text(s: Seq<char>) -> bool {
    let body = if s.len() > 0 && is_sign(s[0]) {
        s.drop_first()
    } else {
        s
    };
    is_special(body) || is_number(body)
}

/// The first position at or after `i` that holds no digit.
spec fn digit_run(s: Seq<char>, i: int) -> int
    decreases s.len() - i,
{
    if 0 <= i < s.len() && is_digit(s[i]) {
        digit_run(s, i + 1)
    } else {
        i
    }
}

proof fn lemma_digit_run(s: Seq<char>, i: int)
    requires
        0 <= i <= s.len(),
    ensures
        i <= digit_run(s, i) <= s.len(),
        forall|j: int| i <= j < digit_run(s, i) ==> is_digit(#[trigger] s[j]),
        digit_run(s, i) < s.len() ==> !is_digit(s[digit_run(s, i)]),
    decreases s.len() - i,
{
    if i < s.len() && is_digit(s[i]) {
        lemma_digit_run(s, i + 1);
    }
}

proof fn lemma_digit_run_is(s: Seq<char>, i: int, r: int)
    requires
        0 <= i <= r <= s.len(),
        forall|j: int| i <= j < r ==> is_digit(#[trigger] s[j]),
        r < s.len() ==> !is_digit(s[r]),
    ensures
        digit_run(s, i) == r,
    decreases r - i,
{
    if i < r {
        lemma_digit_run_is(s, i + 1, r);
    }
}

/// Where the exponent's digits start, for an exponent that starts at `at`.
spec fn exponent_digits(s: Seq<char>, at: int) -> int {
    if at + 1 < s.len() && is_sign(s[at + 1]) {
        at + 2
    } else {
        at + 1
    }
}

/// The exponent read from the left, starting at `at`.
spec fn exponent_at(s: Seq<char>, at: int) -> bool {
    &&& 0 <= at < s.len()
    &&& s[at] == 'e' || s[at] == 'E'
    &&& exponent_digits(s, at) < s.len()
    &&& digit_run(s, exponent_digits(s, at)) == s.len()
}

proof fn lemma_exponent_at(s: Seq<char>, at: int)
    requires
        0 <= at < s.len(),
    ensures
        exponent_at(s, at) == is_exponent(s.skip(at)),
{
    let t = s.skip(at);
    let c = exponent_digits(s, at);
    let digits = if t.len() > 1 && is_sign(t[1]) {
        t.skip(2)
    } else {
        t.skip(1)
    };
    if c <= s.len() {
        lemma_digit_run(s, c);
        if digits.len() > 0 && all_digits(digits) {
            assert forall|j: int| c <= j < s.len() implies is_digit(#[trigger] s[j]) by {
                assert(s[j] == digits[j - c]);
            }
            lemma_digit_run_is(s, c, s.len() as int);
        }
    }
}

/// Where the mantissa ends when `s` is read from the left.
spec fn mantissa_end(s: Seq<char>) -> int {
    let a = digit_run(s, 0);
    if a < s.len() && s[a] == '.' {
        digit_run(s, a + 1)
    } else {
        a
    }
}

/// How many digits the mantissa holds when `s` is read from the left.
spec fn mantissa_digits(s: Seq<char>) -> int {
    let a = digit_run(s, 0);
    if a < s.len() && s[a] == '.' {
        mantissa_end(s) - 1
    } else {
        a
    }
}

/// A number read from the left: the longest run of digits, a point and more
/// digits if a point follows, then the exponent or the end.
spec fn number_shape(s: Seq<char>) -> bool {
    &&& mantissa_digits(s) > 0
    &&& mantissa_end(s) == s.len() || exponent_at(s, mantissa_end(s))
}

proof fn lemma_mantissa_bounds(s: Seq<char>)
    ensures
        0 <= digit_run(s, 0) <= mantissa_end(s) <= s.len(),
{
    lemma_digit_run(s, 0);
    let a = digit_run(s, 0);
    if a < s.len() && s[a] == '.' {
        lemma_digit_run(s, a + 1);
    }
}

proof fn lemma_shape_is_number(s: Seq<char>)
    requires
        number_shape(s),
    ensures
        is_number(s),
{
    lemma_mantissa_bounds(s);
    lemma_digit_run(s, 0);
    let a = digit_run(s, 0);
    let b = mantissa_end(s);
    let m = s.take(b);
    if a < s.len() && s[a] == '.' {
        lemma_digit_run(s, a + 1);
        assert(all_digits(m.take(a)));
    }
    if b < s.len() {
        lemma_exponent_at(s, b);
    }
}

proof fn lemma_number_is_shape(s: Seq<char>)
    requires
        is_number(s),
    ensures
        number_shape(s),
{
    let k = choose|k: int|
        #![trigger s.take(k)]
        0 <= k <= s.len() && is_mantissa(s.take(k)) && (k == s.len() || is_exponent(s.skip(k)));
    let m = s.take(k);
    if m.len() > 0 && all_digits(m) {
        assert forall|j: int| 0 <= j < k implies is_digit(#[trigger] s[j]) by {
            assert(s[j] == m[j]);
        }
        lemma_digit_run_is(s, 0, k);
    } else {
        let d = choose|d: int|
            #![trigger m.take(d)]
            0 <= d < m.len() && m.len() > 1 && m[d] == '.' && all_digits(m.take(d)) && all_digits(
                m.skip(d + 1),
            );
        assert forall|j: int| 0 <= j < d implies is_digit(#[trigger] s[j]) by {
            assert(s[j] == m.take(d)[j]);
        }
        lemma_digit_run_is(s, 0, d);
        assert forall|j: int| d + 1 <= j < k implies is_digit(#[trigger] s[j]) by {
            assert(s[j] == m.skip(d + 1)[j - (d + 1)]);
        }
        lemma_digit_run_is(s, d + 1, k);
    }
    if k < s.len() {
        lemma_exponent_at(s, k);
    }
}

/// Every text of the grammar is made of ASCII characters.
proof fn lemma_float_text_is_ascii(s: Seq<char>)
    requires
        is_float_text(s),
    ensures
        vstd::utf8::is_ascii_chars(s),
{
    let body = if s.len() > 0 && is_sign(s[0]) {
        s.drop_first()
    } else {
        s
    };
    assert forall|i: int| 0 <= i < body.len() implies '\0' <= #[trigger] body[i] <= '\u{7f}' by {
        if is_special(body) {
            reveal_strlit("inf");
            reveal_strlit("infinity");
            reveal_strlit("nan");
        } else {
            lemma_number_is_shape(body);
            lemma_mantissa_bounds(body);
            lemma_digit_run(body, 0);
            let a = digit_run(body, 0);
            let b = mantissa_end(body);
            if a < body.len() && body[a] == '.' {
                lemma_digit_run(body, a + 1);
            }
            if b < body.len() {
                let c = exponent_digits(body, b);
                lemma_digit_run(body, c);
            }
        }
    }
    assert forall|i: int| 0 <= i < s.len() implies '\0' <= #[trigger] s[i] <= '\u{7f}' by {
        if s.len() > 0 && is_sign(s[0]) {
            if i > 0 {
                assert(s[i] == body[i - 1]);
            }
        }
    }
}

/// The character at position `i` of an ASCII text.
fn ascii_at(s: &str, i: usize) -> (c: u8)
    requires
        s.is_ascii(),
        i < s@.len(),
    ensures
        c < 128,
        c as char == s@[i as int],
{
    s.get_ascii(i)
}

/// The lower-case form of an ASCII letter; any other byte unchanged.
fn lower_byte(b: u8) -> (r: u8)
    requires
        b < 128,
    ensures
        r < 128,
        r as char == ascii_lower(b as char),
{
    if 65 <= b && b <= 90 {
        b + 32
    } else {
        b
    }
}

fn is_digit_byte(b: u8) -> (r: bool)
    requires
        b < 128,
    ensures
        r == is_digit(b as char),
{
    48 <= b && b <= 57
}

fn is_sign_byte(b: u8) -> (r: bool)
    requires
        b < 128,
    ensures
        r == is_sign(b as char),
{
    b == 43 || b == 45
}

/// Whether the text from `from` on spells `word`, ASCII case ignored.
fn spells_from(s: &str, n: usize, from: usize, word: &str) -> (r: bool)
    requires
        s.is_ascii(),
        word.is_ascii(),
        n == s@.len(),
        from <= n,
    ensures
        r == spells(s@.skip(from as int), word@),
{
    let m = word.unicode_len();
    if n - from != m {
        return false;
    }
    let ghost tail = s@.skip(from as int);
    let mut i: usize = 0;
    while i < m
        invariant
            s.is_ascii(),
            word.is_ascii(),
            n == s@.len(),
            from <= n,
            m == word@.len(),
            n - from == m,
            tail == s@.skip(from as int),
            i <= m,
            forall|j: int| 0 <= j < i ==> ascii_lower(#[trigger] tail[j]) == word@[j],
        decreases m - i,
    {
        let c = lower_byte(ascii_at(s, from + i));
        let w = ascii_at(word, i);
        if c != w {
            assert(ascii_lower(tail[i as int]) != word@[i as int]);
            return false;
        }
        i = i + 1;
    }
    true
}

/// The end of the run of digits that starts at `from`.
fn digits_end(s: &str, n: usize, from: usize) -> (end: usize)
    requires
        s.is_ascii(),
        n == s@.len(),
        from <= n,
    ensures
        from <= end <= n,
        end == digit_run(s@, from as int),
{
    let mut i: usize = from;
    while i < n && is_digit_byte(ascii_at(s, i))
        invariant
            s.is_ascii(),
            n == s@.len(),
            from <= i <= n,
            digit_run(s@, from as int) == digit_run(s@, i as int),
        decreases n - i,
    {
        i = i + 1;
    }
    i
}

/// Moves the question from a text to its tail: the two are read alike.
proof fn lemma_digit_run_skip(s: Seq<char>, from: int, i: int)
    requires
        0 <= from <= i <= s.len(),
    ensures
        digit_run(s.skip(from), i - from) == digit_run(s, i) - from,
    decreases s.len() - i,
{
    if i < s.len() && is_digit(s[i]) {
        lemma_digit_run_skip(s, from, i + 1);
    }
}

/// Whether the text from `from` on is a number of the grammar.
fn number_from(s: &str, n: usize, from: usize) -> (r: bool)
    requires
        s.is_ascii(),
        n == s@.len(),
        from <= n,
    ensures
        r == is_number(s@.skip(from as int)),
{
    let ghost t = s@.skip(from as int);
    let a = digits_end(s, n, from);
    let mut end: usize = a;
    let mut digits: usize = a - from;
    proof {
        lemma_digit_run_skip(s@, from as int, from as int);
        lemma_mantissa_bounds(t);
    }
    if a < n && ascii_at(s, a) == 46 {
        end = digits_end(s, n, a + 1);
        digits = end - from - 1;
        proof {
            lemma_digit_run_skip(s@, from as int, a + 1);
        }
    }
    let mut shaped: bool = digits > 0;
    if shaped && end < n {
        let e = ascii_at(s, end);
        if e == 101 || e == 69 {
            let mut c: usize = end + 1;
            if c < n && is_sign_byte(ascii_at(s, c)) {
                c = c + 1;
            }
            if c < n {
                let stop = digits_end(s, n, c);
                proof {
                    lemma_digit_run_skip(s@, from as int, c as int);
                }
                shaped = stop == n;
            } else {
                shaped = false;
            }
        } else {
            shaped = false;
        }
    }
    proof {
        if shaped {
            lemma_shape_is_number(t);
        } else if is_number(t) {
            lemma_number_is_shape(t);
        }
    }
    shaped
}

/// Decides whether `s` denotes a floating-point number in base ten.
pub fn parses_as_float(s: &str) -> (r: bool)
    ensures
        r == is_float_text(s@),
{
    if !s.is_ascii() {
        proof {
            if is_float_text(s@) {
                lemma_float_text_is_ascii(s@);
            }
        }
        return false;
    }
    let n = s.unicode_len();
    let mut from: usize = 0;
    if n > 0 && is_sign_byte(ascii_at(s, 0)) {
        from = 1;
    }
    proof {
        reveal_strlit("inf");
        reveal_strlit("infinity");
        reveal_strlit("nan");
        assert(s@.skip(0) =~= s@);
    }
    spells_from(s, n, from, "inf") || spells_from(s, n, from, "infinity") || spells_from(
        s,
        n,
        from,
        "nan",
    ) || number_from(s, n, from)
}

} // verus!
