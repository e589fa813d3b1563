//! Text primitives over sequences of characters: whitespace, lines, words,
//! trimming, ASCII case folding, decimal numbers.
//!
//! Each spec function states what the matching `str` operation of the
//! standard library computes; each executable function is proved against it.
use vstd::prelude::*;
use vstd::string::*;

verus! {

// ===================== characters =====================

/// The characters with the Unicode `White_Space` property, the set that
/// `char::is_whitespace` accepts.
pub open spec fn is_space(c: char) -> bool {
    let v = c as u32;
    ||| v == 0x20
    ||| 0x09 <= v && v <= 0x0D
    ||| v == 0x85
    ||| v == 0xA0
    ||| v == 0x1680
    ||| 0x2000 <= v && v <= 0x200A
    ||| v == 0x2028
    ||| v == 0x2029
    ||| v == 0x202F
    ||| v == 0x205F
    ||| v == 0x3000
}

pub fn is_space_char(c: char) -> (b: bool)
    ensures
        b == is_space(c),
{
    let v: u32 = c as u32;
    v == 0x20 || (0x09 <= v && v <= 0x0D) || v == 0x85 || v == 0xA0 || v == 0x1680 || (0x2000
        <= v && v <= 0x200A) || v == 0x2028 || v == 0x2029 || v == 0x202F || v == 0x205F || v
        == 0x3000
}

/// An ASCII decimal digit.
pub open spec fn is_digit(c: char) -> bool {
    48 <= c as u32 && c as u32 <= 57
}

pub open spec fn digit_value(c: char) -> int {
    c as u32 - 48
}

/// The code of `c` after ASCII lower-casing (`char::to_ascii_lowercase`):
/// `A`..`Z` become `a`..`z`, every other character is unchanged.
pub open spec fn ascii_lower_code(c: char) -> u32 {
    let v = c as u32;
    if 65 <= v && v <= 90 {
        (v + 32) as u32
    } else {
        v
    }
}

pub fn ascii_lower_code_of(c: char) -> (r: u32)
    ensures
        r == ascii_lower_code(c),
{
    let v: u32 = c as u32;
    if 65 <= v && v <= 90 {
        v + 32
    } else {
        v
    }
}

// ===================== prefixes that satisfy a predicate =====================

/// Length of the longest prefix of `s` whose characters all satisfy `p`.
pub open spec fn span_while(s: Seq<char>, p: spec_fn(char) -> bool) -> nat
    decreases s.len(),
{
    if s.len() == 0 || !p(s[0]) {
        0
    } else {
        1 + span_while(s.drop_first(), p)
    }
}

pub proof fn lemma_span_while_bounded(s: Seq<char>, p: spec_fn(char) -> bool)
    ensures
        span_while(s, p) <= s.len(),
    decreases s.len(),
{
    if s.len() > 0 && p(s[0]) {
        lemma_span_while_bounded(s.drop_first(), p);
    }
}

/// A prefix of length `e` whose characters satisfy `p`, followed by the end
/// of `s` or by a character that fails `p`, is the longest such prefix.
pub proof fn lemma_span_while_exact(s: Seq<char>, p: spec_fn(char) -> bool, e: int)
    requires
        0 <= e <= s.len(),
        forall|k: int| 0 <= k < e ==> p(#[trigger] s[k]),
        e == s.len() || !p(s[e]),
    ensures
        span_while(s, p) == e,
    decreases e,
{
    if e > 0 {
        let t = s.drop_first();
        assert forall|k: int| 0 <= k < e - 1 implies p(#[trigger] t[k]) by {
            assert(t[k] == s[k + 1]);
        }
        if e < s.len() {
            assert(t[e - 1] == s[e]);
        }
        lemma_span_while_exact(t, p, e - 1);
    }
}

pub open spec fn not_newline() -> spec_fn(char) -> bool {
    |c: char| c != '\n'
}

pub open spec fn not_space() -> spec_fn(char) -> bool {
    |c: char| !is_space(c)
}

pub open spec fn space() -> spec_fn(char) -> bool {
    |c: char| is_space(c)
}

// ===================== lines =====================

/// The lines of `s`, as `str::lines` yields them: the pieces between line
/// feeds, where a final line feed does not start another, empty, line.
/// A carriage return before a line feed stays in its line here; every user
/// of lines in this crate treats it as the whitespace it is.
pub open spec fn lines(s: Seq<char>) -> Seq<Seq<char>>
    decreases s.len(),
{
    if s.len() == 0 {
        seq![]
    } else if span_while(s, not_newline()) >= s.len() {
        seq![s]
    } else {
        seq![s.take(span_while(s, not_newline()) as int)] + lines(
            s.skip(span_while(s, not_newline()) + 1 as int),
        )
    }
}

/// The first line of `s[pos..]`, and what follows it.
pub proof fn lemma_lines_step(s: Seq<char>, pos: int, end: int)
    requires
        0 <= pos < end <= s.len() || 0 <= pos == end < s.len(),
        forall|k: int| pos <= k < end ==> s[k] != '\n',
        end == s.len() || s[end] == '\n',
    ensures
        lines(s.skip(pos)) == seq![s.subrange(pos, end)] + (if end < s.len() {
            lines(s.skip(end + 1))
        } else {
            Seq::<Seq<char>>::empty()
        }),
{
    let t = s.skip(pos);
    assert forall|k: int| 0 <= k < end - pos implies (not_newline())(#[trigger] t[k]) by {
        assert(t[k] == s[pos + k]);
    }
    if end < s.len() {
        assert(t[end - pos] == s[end]);
    }
    lemma_span_while_exact(t, not_newline(), end - pos);
    if end < s.len() {
        assert(t.take(end - pos) =~= s.subrange(pos, end));
        assert(t.skip(end - pos + 1) =~= s.skip(end + 1));
    } else {
        assert(t =~= s.subrange(pos, end));
    }
}

/// Index of the line feed that ends the line starting at `pos`, or the
/// length of `v` when that line is the last one.
pub fn line_end(v: &Vec<char>, pos: usize) -> (end: usize)
    requires
        pos <= v.len(),
    ensures
        pos <= end <= v.len(),
        forall|k: int| pos <= k < end ==> v@[k] != '\n',
        end == v.len() || v@[end as int] == '\n',
{
    let mut end = pos;
    while end < v.len() && v[end] != '\n'
        invariant
            pos <= end <= v.len(),
            forall|k: int| pos <= k < end ==> v@[k] != '\n',
        decreases v.len() - end,
    {
        end = end + 1;
    }
    end
}

// ===================== words =====================

/// The words of `s`, as `str::split_whitespace` yields them: the maximal
/// runs of non-whitespace characters, in order.
pub open spec fn words(s: Seq<char>) -> Seq<Seq<char>>
    decreases s.len(),
{
    if s.len() == 0 {
        seq![]
    } else if is_space(s[0]) {
        words(s.drop_first())
    } else {
        let n = span_while(s, not_space());
        proof {
            lemma_span_while_bounded(s, not_space());
        }
        seq![s.take(n as int)] + words(s.skip(n as int))
    }
}

/// The words of `v[lo..hi]`, each given by its bounds in `v`.
pub fn word_spans(v: &Vec<char>, lo: usize, hi: usize) -> (spans: Vec<(usize, usize)>)
    requires
        lo <= hi <= v.len(),
    ensures
        spans.len() == words(v@.subrange(lo as int, hi as int)).len(),
        forall|k: int|
            0 <= k < spans.len() ==> lo <= (#[trigger] spans@[k]).0 <= spans@[k].1 <= hi
                && v@.subrange(spans@[k].0 as int, spans@[k].1 as int) == words(
                v@.subrange(lo as int, hi as int),
            )[k],
{
    let ghost whole = words(v@.subrange(lo as int, hi as int));
    let mut spans: Vec<(usize, usize)> = Vec::new();
    let mut i = lo;
    while i < hi
        invariant
            lo <= i <= hi <= v.len(),
            whole == words(v@.subrange(lo as int, hi as int)),
            spans.len() + words(v@.subrange(i as int, hi as int)).len() == whole.len(),
            forall|k: int|
                0 <= k < spans.len() ==> lo <= (#[trigger] spans@[k]).0 <= spans@[k].1 <= i
                    && v@.subrange(spans@[k].0 as int, spans@[k].1 as int) == whole[k],
            forall|k: int|
                0 <= k < words(v@.subrange(i as int, hi as int)).len() ==> #[trigger] words(
                    v@.subrange(i as int, hi as int),
                )[k] == whole[spans.len() + k],
        decreases hi - i,
    {
        let ghost rest = v@.subrange(i as int, hi as int);
        if is_space_char(v[i]) {
            assert(rest.drop_first() =~= v@.subrange(i + 1, hi as int));
            i = i + 1;
        } else {
            let start = i;
            while i < hi && !is_space_char(v[i])
                invariant
                    start <= i <= hi <= v.len(),
                    forall|k: int| start <= k < i ==> !is_space(#[trigger] v@[k]),
                decreases hi - i,
            {
                i = i + 1;
            }
            proof {
                assert forall|k: int| 0 <= k < i - start implies (not_space())(
                    #[trigger] rest[k],
                ) by {
                    assert(rest[k] == v@[start + k]);
                }
                if i < hi {
                    assert(rest[i - start] == v@[i as int]);
                }
                lemma_span_while_exact(rest, not_space(), i - start);
                assert(rest.take(i - start) =~= v@.subrange(start as int, i as int));
                assert(rest.skip(i - start) =~= v@.subrange(i as int, hi as int));
                let tail = words(v@.subrange(i as int, hi as int));
                assert(words(rest) == seq![v@.subrange(start as int, i as int)] + tail);
                assert(words(rest)[0] == v@.subrange(start as int, i as int));
                assert forall|k: int| 0 <= k < tail.len() implies #[trigger] tail[k]
                    == whole[spans.len() + 1 + k] by {
                    assert(tail[k] == words(rest)[k + 1]);
                }
            }
            spans.push((start, i));
        }
    }
    proof {
        assert(v@.subrange(i as int, hi as int).len() == 0);
    }
    spans
}

// ===================== trimming =====================

/// `s` without its leading whitespace.
pub open spec fn trim_start(s: Seq<char>) -> Seq<char> {
    s.skip(span_while(s, space()) as int)
}

/// `s` without its trailing whitespace.
pub open spec fn trim_end(s: Seq<char>) -> Seq<char>
    decreases s.len(),
{
    if s.len() > 0 && is_space(s.last()) {
        trim_end(s.drop_last())
    } else {
        s
    }
}

/// `s` without leading and trailing whitespace, as `str::trim` gives it.
pub open spec fn trim(s: Seq<char>) -> Seq<char> {
    trim_end(trim_start(s))
}

/// Bounds in `v` of `trim(v[lo..hi])`.
pub fn trim_bounds(v: &Vec<char>, lo: usize, hi: usize) -> (r: (usize, usize))
    requires
        lo <= hi <= v.len(),
    ensures
        lo <= r.0 <= r.1 <= hi,
        v@.subrange(r.0 as int, r.1 as int) == trim(v@.subrange(lo as int, hi as int)),
{
    let ghost s = v@.subrange(lo as int, hi as int);
    let mut a = lo;
    while a < hi && is_space_char(v[a])
        invariant
            lo <= a <= hi <= v.len(),
            forall|k: int| lo <= k < a ==> is_space(#[trigger] v@[k]),
        decreases hi - a,
    {
        a = a + 1;
    }
    proof {
        assert forall|k: int| 0 <= k < a - lo implies (space())(#[trigger] s[k]) by {
            assert(s[k] == v@[lo + k]);
        }
        if a < hi {
            assert(s[a - lo] == v@[a as int]);
        }
        lemma_span_while_exact(s, space(), a - lo);
        assert(trim_start(s) =~= v@.subrange(a as int, hi as int));
    }
    let mut b = hi;
    while b > a && is_space_char(v[b - 1])
        invariant
            lo <= a <= b <= hi <= v.len(),
            trim(s) == trim_end(v@.subrange(a as int, b as int)),
        decreases b - a,
    {
        proof {
            let t = v@.subrange(a as int, b as int);
            assert(t.last() == v@[b - 1]);
            assert(t.drop_last() =~= v@.subrange(a as int, b - 1));
        }
        b = b - 1;
    }
    proof {
        let t = v@.subrange(a as int, b as int);
        if b > a {
            assert(t.last() == v@[b - 1]);
        }
    }
    (a, b)
}

// ===================== comparisons =====================

/// `str::eq_ignore_ascii_case`: equal once both sides are ASCII lower-cased.
pub open spec fn eq_ignore_ascii_case(a: Seq<char>, b: Seq<char>) -> bool {
    &&& a.len() == b.len()
    &&& forall|k: int| 0 <= k < a.len() ==> ascii_lower_code(a[k]) == ascii_lower_code(b[k])
}

/// `str::ends_with`.
pub open spec fn ends_with(s: Seq<char>, suffix: Seq<char>) -> bool {
    suffix.len() <= s.len() && s.skip(s.len() - suffix.len()) == suffix
}

pub fn range_eq_ignore_ascii_case(v: &Vec<char>, lo: usize, hi: usize, pat: &Vec<char>) -> (b:
    bool)
    requires
        lo <= hi <= v.len(),
    ensures
        b == eq_ignore_ascii_case(v@.subrange(lo as int, hi as int), pat@),
{
    let ghost s = v@.subrange(lo as int, hi as int);
    if hi - lo != pat.len() {
        return false;
    }
    let mut k: usize = 0;
    while k < pat.len()
        invariant
            hi - lo == pat.len(),
            lo <= hi <= v.len(),
            s == v@.subrange(lo as int, hi as int),
            k <= pat.len(),
            forall|j: int| 0 <= j < k ==> ascii_lower_code(s[j]) == ascii_lower_code(pat@[j]),
        decreases pat.len() - k,
    {
        if ascii_lower_code_of(v[lo + k]) != ascii_lower_code_of(pat[k]) {
            assert(s[k as int] == v@[lo + k]);
            return false;
        }
        k = k + 1;
    }
    true
}

pub fn range_ends_with(v: &Vec<char>, lo: usize, hi: usize, suffix: &Vec<char>) -> (b: bool)
    requires
        lo <= hi <= v.len(),
    ensures
        b == ends_with(v@.subrange(lo as int, hi as int), suffix@),
{
    let ghost s = v@.subrange(lo as int, hi as int);
    if suffix.len() > hi - lo {
        return false;
    }
    let start = hi - suffix.len();
    let mut k: usize = 0;
    while k < suffix.len()
        invariant
            lo <= start <= hi <= v.len(),
            start + suffix.len() == hi,
            s == v@.subrange(lo as int, hi as int),
            k <= suffix.len(),
            forall|j: int| 0 <= j < k ==> v@[start + j] == suffix@[j],
        decreases suffix.len() - k,
    {
        if v[start + k] != suffix[k] {
            assert(s.skip(s.len() - suffix.len())[k as int] == v@[start + k]);
            return false;
        }
        k = k + 1;
    }
    assert(s.skip(s.len() - suffix.len()) =~= suffix@);
    true
}

/// Whether `a` and `b` are the same text.
pub fn same_text(a: &str, b: &str) -> (r: bool)
    ensures
        r == (a@ == b@),
{
    let x = chars_of(a);
    let y = chars_of(b);
    if x.len() != y.len() {
        return false;
    }
    let mut k: usize = 0;
    while k < x.len()
        invariant
            x.len() == y.len(),
            x@ == a@,
            y@ == b@,
            k <= x.len(),
            forall|j: int| 0 <= j < k ==> x@[j] == y@[j],
        decreases x.len() - k,
    {
        if x[k] != y[k] {
            assert(x@[k as int] != y@[k as int]);
            return false;
        }
        k = k + 1;
    }
    assert(x@ =~= y@);
    true
}

// ===================== copying =====================

/// The characters of `s`, in order.
pub fn chars_of(s: &str) -> (v: Vec<char>)
    ensures
        v@ == s@,
{
    let mut v: Vec<char> = Vec::new();
    for c in it: s.chars()
        invariant
            v@ == it.seq().take(it.index() as int),
            it.seq() == s@,
    {
        v.push(c);
    }
    v
}

/// The part `s[lo..hi]` (counted in characters) as an owned string.
pub fn substring_owned(s: &str, lo: usize, hi: usize) -> (r: String)
    requires
        lo <= hi <= s@.len(),
    ensures
        r@ == s@.subrange(lo as int, hi as int),
{
    String::from_str(s.substring_char(lo, hi))
}

// ===================== decimal numbers =====================

/// The digit character for `d`, for `0 <= d < 10`.
pub open spec fn digit_char(d: int) -> char {
    ((d + 48) as u32) as char
}

/// The decimal text of `n`, without sign or leading zeros, as `{}`
/// formats an unsigned integer.
pub open spec fn decimal(n: nat) -> Seq<char>
    decreases n,
{
    if n < 10 {
        seq![digit_char(n as int)]
    } else {
        decimal(n / 10).push(digit_char((n % 10) as int))
    }
}

fn digit_str(d: u32) -> (s: &'static str)
    requires
        d < 10,
    ensures
        s@ == seq![digit_char(d as int)],
{
    proof {
        reveal_strlit("0");
        reveal_strlit("1");
        reveal_strlit("2");
        reveal_strlit("3");
        reveal_strlit("4");
        reveal_strlit("5");
        reveal_strlit("6");
        reveal_strlit("7");
        reveal_strlit("8");
        reveal_strlit("9");
    }
    if d == 0 {
        "0"
    } else if d == 1 {
        "1"
    } else if d == 2 {
        "2"
    } else if d == 3 {
        "3"
    } else if d == 4 {
        "4"
    } else if d == 5 {
        "5"
    } else if d == 6 {
        "6"
    } else if d == 7 {
        "7"
    } else if d == 8 {
        "8"
    } else {
        "9"
    }
}

/// Appends the decimal text of `n` to `out`.
pub fn push_decimal(out: &mut String, n: u32)
    ensures
        final(out)@ == old(out)@ + decimal(n as nat),
    decreases n,
{
    if n >= 10 {
        push_decimal(out, n / 10);
    }
    out.append(digit_str(n % 10));
    proof {
        if n >= 10 {
            assert(old(out)@ + decimal(n as nat) =~= old(out)@ + decimal((n / 10) as nat) + seq![
                digit_char((n % 10) as int),
            ]);
        }
    }
}

/// The decimal text of `n`.
pub fn decimal_string(n: u32) -> (s: String)
    ensures
        s@ == decimal(n as nat),
{
    let mut s = String::new();
    push_decimal(&mut s, n);
    assert(s@ =~= decimal(n as nat));
    s
}

// ===================== parsing unsigned integers =====================

/// Why `str::parse::<u32>` refused a text (`core::num::IntErrorKind`).
#[derive(Clone, Copy, Debug, PartialEq, Eq)]
pub enum IntParseError {
    /// The text is empty.
    Empty,
    /// A character that is not a decimal digit, or a lone sign.
    InvalidDigit,
    /// The value exceeds `u32::MAX`.
    PosOverflow,
}

/// Reads the decimal digits of `body` after the value `acc` read so far;
/// stops at the first character that is no digit, or at the first digit
/// that takes the value past `u32::MAX`, as the standard library does.
pub open spec fn read_digits(body: Seq<char>, acc: int) -> Result<int, IntParseError>
    decreases body.len(),
{
    if body.len() == 0 {
        Ok(acc)
    } else if !is_digit(body[0]) {
        Err(IntParseError::InvalidDigit)
    } else if acc * 10 + digit_value(body[0]) > u32::MAX {
        Err(IntParseError::PosOverflow)
    } else {
        read_digits(body.drop_first(), acc * 10 + digit_value(body[0]))
    }
}

/// What `str::parse::<u32>` gives for `s`: an optional leading `+`, then
/// one or more decimal digits whose value fits in 32 bits.
pub open spec fn parse_u32(s: Seq<char>) -> Result<u32, IntParseError> {
    if s.len() == 0 {
        Err(IntParseError::Empty)
    } else if s.len() == 1 && (s[0] == '+' || s[0] == '-') {
        Err(IntParseError::InvalidDigit)
    } else {
        let body = if s[0] == '+' {
            s.drop_first()
        } else {
            s
        };
        match read_digits(body, 0) {
            Ok(v) => Ok(v as u32),
            Err(e) => Err(e),
        }
    }
}

/// `v[lo..hi]` read as a `u32`, as `str::parse::<u32>` reads it.
pub fn parse_u32_range(v: &Vec<char>, lo: usize, hi: usize) -> (r: Result<u32, IntParseError>)
    requires
        lo <= hi <= v.len(),
    ensures
        r == parse_u32(v@.subrange(lo as int, hi as int)),
{
    let ghost s = v@.subrange(lo as int, hi as int);
    if lo == hi {
        return Err(IntParseError::Empty);
    }
    if hi - lo == 1 && (v[lo] == '+' || v[lo] == '-') {
        assert(s[0] == v@[lo as int]);
        return Err(IntParseError::InvalidDigit);
    }
    assert(s[0] == v@[lo as int]);
    let mut i = if v[lo] == '+' {
        lo + 1
    } else {
        lo
    };
    proof {
        if v@[lo as int] == '+' {
            assert(s.drop_first() =~= v@.subrange(i as int, hi as int));
        } else {
            assert(s =~= v@.subrange(i as int, hi as int));
        }
    }
    let ghost body = v@.subrange(i as int, hi as int);
    let mut acc: u32 = 0;
    while i < hi
        invariant
            lo <= i <= hi <= v.len(),
            s == v@.subrange(lo as int, hi as int),
            parse_u32(s) == (match read_digits(body, 0) {
                Ok(v) => Ok(v as u32),
                Err(e) => Err(e),
            }),
            read_digits(body, 0) == read_digits(v@.subrange(i as int, hi as int), acc as int),
        decreases hi - i,
    {
        let ghost rest = v@.subrange(i as int, hi as int);
        assert(rest[0] == v@[i as int]);
        let c = v[i];
        let code: u32 = c as u32;
        assert(code == rest[0] as u32);
        if code < 48 || code > 57 {
            assert(!is_digit(rest[0]));
            return Err(IntParseError::InvalidDigit);
        }
        let next: u64 = acc as u64 * 10 + (code - 48) as u64;
        assert(next == acc * 10 + digit_value(rest[0]));
        if next > 0xFFFF_FFFF {
            return Err(IntParseError::PosOverflow);
        }
        assert(rest.drop_first() =~= v@.subrange(i + 1, hi as int));
        acc = next as u32;
        i = i + 1;
    }
    proof {
        assert(v@.subrange(i as int, hi as int).len() == 0);
    }
    Ok(acc)
}

/// The message that `ParseIntError` displays for each kind of failure.
pub open spec fn int_error_text(e: IntParseError) -> Seq<char> {
    match e {
        IntParseError::Empty => "cannot parse integer from empty string"@,
        IntParseError::InvalidDigit => "invalid digit found in string"@,
        IntParseError::PosOverflow => "number too large to fit in target type"@,
    }
}

pub fn int_error_message(e: IntParseError) -> (s: &'static str)
    ensures
        s@ == int_error_text(e),
{
    match e {
        IntParseError::Empty => "cannot parse integer from empty string",
        IntParseError::InvalidDigit => "invalid digit found in string",
        IntParseError::PosOverflow => "number too large to fit in target type",
    }
}

// ===================== facts about printed numbers and words =====================

/// Every character of a decimal text is a digit.
pub proof fn lemma_decimal_digits(n: nat)
    ensures
        decimal(n).len() > 0,
        forall|k: int| 0 <= k < decimal(n).len() ==> is_digit(#[trigger] decimal(n)[k]),
    decreases n,
{
    if n >= 10 {
        lemma_decimal_digits(n / 10);
        let d = decimal(n / 10);
        assert forall|k: int| 0 <= k < decimal(n).len() implies is_digit(
            #[trigger] decimal(n)[k],
        ) by {
            if k < d.len() {
                assert(decimal(n)[k] == d[k]);
            }
        }
    }
}

/// Reading one more character after `s`.
proof fn lemma_read_digits_push(s: Seq<char>, c: char, acc: int)
    ensures
        read_digits(s.push(c), acc) == (match read_digits(s, acc) {
            Err(e) => Err(e),
            Ok(v) => if !is_digit(c) {
                Err(IntParseError::InvalidDigit)
            } else if v * 10 + digit_value(c) > u32::MAX {
                Err(IntParseError::PosOverflow)
            } else {
                Ok(v * 10 + digit_value(c))
            },
        }),
    decreases s.len(),
{
    let t = s.push(c);
    reveal_with_fuel(read_digits, 2);
    if s.len() == 0 {
        assert(t.drop_first() =~= Seq::<char>::empty());
    } else {
        assert(t[0] == s[0]);
        assert(t.drop_first() =~= s.drop_first().push(c));
        if is_digit(s[0]) && acc * 10 + digit_value(s[0]) <= u32::MAX {
            lemma_read_digits_push(s.drop_first(), c, acc * 10 + digit_value(s[0]));
        }
    }
}

proof fn lemma_digit_char(d: int)
    requires
        0 <= d < 10,
    ensures
        is_digit(digit_char(d)),
        digit_value(digit_char(d)) == d,
{
    assert(digit_char(d) as u32 == (d + 48) as u32);
}

proof fn lemma_read_decimal(n: nat)
    requires
        n <= u32::MAX,
    ensures
        read_digits(decimal(n), 0) == Ok::<int, IntParseError>(n as int),
    decreases n,
{
    lemma_digit_char((n % 10) as int);
    if n < 10 {
        let s = decimal(n);
        reveal_with_fuel(read_digits, 2);
        assert(s.drop_first() =~= Seq::<char>::empty());
    } else {
        lemma_read_decimal(n / 10);
        lemma_read_digits_push(decimal(n / 10), digit_char((n % 10) as int), 0);
    }
}

/// Reading back a printed number gives the number.
pub proof fn lemma_parse_decimal(n: u32)
    ensures
        parse_u32(decimal(n as nat)) == Ok::<u32, IntParseError>(n),
{
    lemma_decimal_digits(n as nat);
    lemma_read_decimal(n as nat);
    assert(is_digit(decimal(n as nat)[0]));
}

/// A word followed by whitespace, or by nothing, is the first word.
pub proof fn lemma_words_cons(w: Seq<char>, rest: Seq<char>)
    requires
        w.len() > 0,
        forall|k: int| 0 <= k < w.len() ==> !is_space(#[trigger] w[k]),
        rest.len() == 0 || is_space(rest[0]),
    ensures
        words(w + rest) == seq![w] + words(rest),
{
    let s = w + rest;
    assert forall|k: int| 0 <= k < w.len() implies (not_space())(#[trigger] s[k]) by {
        assert(s[k] == w[k]);
    }
    if rest.len() > 0 {
        assert(s[w.len() as int] == rest[0]);
    }
    lemma_span_while_exact(s, not_space(), w.len() as int);
    assert(s[0] == w[0]);
    assert(s.take(w.len() as int) =~= w);
    assert(s.skip(w.len() as int) =~= rest);
}

/// Leading whitespace does not change the words.
pub proof fn lemma_words_skip_space(c: char, rest: Seq<char>)
    requires
        is_space(c),
    ensures
        words(seq![c] + rest) == words(rest),
{
    let s = seq![c] + rest;
    assert(s[0] == c);
    assert(s.drop_first() =~= rest);
}

/// A text without line feeds, ended by one, is a single line.
pub proof fn lemma_single_line(s: Seq<char>)
    requires
        forall|k: int| 0 <= k < s.len() ==> #[trigger] s[k] != '\n',
    ensures
        lines(s.push('\n')) == seq![s],
{
    let t = s.push('\n');
    assert forall|k: int| 0 <= k < s.len() implies #[trigger] t[k] != '\n' by {
        assert(t[k] == s[k]);
    }
    lemma_lines_step(t, 0, s.len() as int);
    assert(t.skip(0) =~= t);
    assert(t.subrange(0, s.len() as int) =~= s);
    assert(t.skip(s.len() + 1int) =~= Seq::<char>::empty());
}

// ===================== laws of the text primitives =====================

proof fn lemma_span_while_prefix(s: Seq<char>, p: spec_fn(char) -> bool)
    ensures
        span_while(s, p) <= s.len(),
        forall|k: int| 0 <= k < span_while(s, p) ==> p(#[trigger] s[k]),
        span_while(s, p) < s.len() ==> !p(s[span_while(s, p) as int]),
    decreases s.len(),
{
    if s.len() > 0 && p(s[0]) {
        let t = s.drop_first();
        lemma_span_while_prefix(t, p);
        assert forall|k: int| 0 <= k < span_while(s, p) implies p(#[trigger] s[k]) by {
            if k > 0 {
                assert(s[k] == t[k - 1]);
            }
        }
        if span_while(s, p) < s.len() {
            assert(s[span_while(s, p) as int] == t[span_while(t, p) as int]);
        }
    }
}

/// Every word is a non-empty run of characters none of which is whitespace.
pub proof fn lemma_words_are_runs(s: Seq<char>)
    ensures
        forall|k: int| 0 <= k < words(s).len() ==> (#[trigger] words(s)[k]).len() > 0,
        forall|k: int, i: int|
            0 <= k < words(s).len() && 0 <= i < words(s)[k].len() ==> !is_space(
                #[trigger] words(s)[k][i],
            ),
    decreases s.len(),
{
    if s.len() > 0 {
        if is_space(s[0]) {
            lemma_words_are_runs(s.drop_first());
            assert(words(s) == words(s.drop_first()));
        } else {
            let n = span_while(s, not_space());
            lemma_span_while_prefix(s, not_space());
            assert((not_space())(s[0]));
            assert(n > 0);
            lemma_words_are_runs(s.skip(n as int));
            let w = words(s);
            let rest = words(s.skip(n as int));
            assert(w == seq![s.take(n as int)] + rest);
            assert forall|k: int| 0 <= k < w.len() implies (#[trigger] w[k]).len() > 0 by {
                if k > 0 {
                    assert(w[k] == rest[k - 1]);
                }
            }
            assert forall|k: int, i: int| 0 <= k < w.len() && 0 <= i < w[k].len() implies !is_space(
                #[trigger] w[k][i],
            ) by {
                if k > 0 {
                    assert(w[k] == rest[k - 1]);
                } else {
                    assert(w[0][i] == s[i]);
                    assert((not_space())(s[i]));
                }
            }
        }
    }
}

/// No line holds a line feed.
pub proof fn lemma_lines_have_no_newline(s: Seq<char>)
    ensures
        forall|k: int, i: int|
            0 <= k < lines(s).len() && 0 <= i < lines(s)[k].len() ==> #[trigger] lines(s)[k][i]
                != '\n',
    decreases s.len(),
{
    if s.len() > 0 {
        let n = span_while(s, not_newline());
        lemma_span_while_prefix(s, not_newline());
        let l = lines(s);
        if n >= s.len() {
            assert forall|k: int, i: int| 0 <= k < l.len() && 0 <= i < l[k].len() implies #[trigger] l[k][i]
                != '\n' by {
                assert((not_newline())(s[i]));
            }
        } else {
            let rest = lines(s.skip(n + 1int));
            lemma_lines_have_no_newline(s.skip(n + 1int));
            assert(l == seq![s.take(n as int)] + rest);
            assert forall|k: int, i: int| 0 <= k < l.len() && 0 <= i < l[k].len() implies #[trigger] l[k][i]
                != '\n' by {
                if k > 0 {
                    assert(l[k] == rest[k - 1]);
                } else {
                    assert(l[0][i] == s[i]);
                    assert((not_newline())(s[i]));
                }
            }
        }
    }
}

proof fn lemma_trim_end_cut(t: Seq<char>)
    ensures
        exists|b: int|
            0 <= b <= t.len() && trim_end(t) == t.take(b) && (b == 0 || !is_space(t[b - 1]))
                && forall|k: int| b <= k < t.len() ==> is_space(#[trigger] t[k]),
    decreases t.len(),
{
    if t.len() > 0 && is_space(t.last()) {
        let u = t.drop_last();
        lemma_trim_end_cut(u);
        let b = choose|b: int|
            0 <= b <= u.len() && trim_end(u) == u.take(b) && (b == 0 || !is_space(u[b - 1]))
                && forall|k: int| b <= k < u.len() ==> is_space(#[trigger] u[k]);
        assert(u.take(b) =~= t.take(b));
        if b > 0 {
            assert(u[b - 1] == t[b - 1]);
        }
        assert forall|k: int| b <= k < t.len() implies is_space(#[trigger] t[k]) by {
            if k < u.len() {
                assert(u[k] == t[k]);
            }
        }
    } else {
        assert(t.take(t.len() as int) =~= t);
        if t.len() > 0 {
            assert(t[t.len() - 1] == t.last());
        }
    }
}

/// Trimming keeps a contiguous part of the text, drops only whitespace
/// around it, and leaves neither end on whitespace.
pub proof fn lemma_trim_cuts_whitespace(s: Seq<char>)
    ensures
        exists|a: int, b: int|
            0 <= a <= b <= s.len() && trim(s) == s.subrange(a, b) && (forall|k: int|
                0 <= k < a ==> is_space(#[trigger] s[k])) && (forall|k: int|
                b <= k < s.len() ==> is_space(#[trigger] s[k])),
        trim(s).len() > 0 ==> !is_space(trim(s)[0]) && !is_space(trim(s).last()),
{
    let a = span_while(s, space()) as int;
    lemma_span_while_prefix(s, space());
    let t = s.skip(a);
    lemma_trim_end_cut(t);
    let b = choose|b: int|
        0 <= b <= t.len() && trim_end(t) == t.take(b) && (b == 0 || !is_space(t[b - 1])) && forall|
            k: int,
        | b <= k < t.len() ==> is_space(#[trigger] t[k]);
    assert(t.take(b) =~= s.subrange(a, a + b));
    assert forall|k: int| 0 <= k < a implies is_space(#[trigger] s[k]) by {
        assert((space())(s[k]));
    }
    assert forall|k: int| a + b <= k < s.len() implies is_space(#[trigger] s[k]) by {
        assert(s[k] == t[k - a]);
    }
    if b > 0 {
        assert(trim(s)[0] == s[a]);
        assert(!(space())(s[a]));
        assert(trim(s).last() == t[b - 1]);
    }
}

proof fn lemma_read_digits_all_digits(body: Seq<char>, acc: int)
    ensures
        read_digits(body, acc) is Ok ==> forall|k: int| 0 <= k < body.len() ==> is_digit(
            #[trigger] body[k],
        ),
    decreases body.len(),
{
    if body.len() > 0 && is_digit(body[0]) && acc * 10 + digit_value(body[0]) <= u32::MAX {
        let t = body.drop_first();
        lemma_read_digits_all_digits(t, acc * 10 + digit_value(body[0]));
        assert forall|k: int| 0 <= k < body.len() && read_digits(body, acc) is Ok implies is_digit(
            #[trigger] body[k],
        ) by {
            if k > 0 {
                assert(body[k] == t[k - 1]);
            }
        }
    }
}

/// A text reads as a number only when it is decimal digits, with at most a
/// leading `+` before them.
pub proof fn lemma_parsed_text_is_digits(s: Seq<char>)
    ensures
        parse_u32(s) is Ok ==> s.len() > 0 && (s[0] == '+' ==> s.len() >= 2) && forall|k: int|
            0 <= k < s.len() ==> is_digit(#[trigger] s[k]) || (k == 0 && s[0] == '+'),
{
    if s.len() > 0 && !(s.len() == 1 && (s[0] == '+' || s[0] == '-')) {
        let body = if s[0] == '+' {
            s.drop_first()
        } else {
            s
        };
        lemma_read_digits_all_digits(body, 0);
        if parse_u32(s) is Ok {
            assert forall|k: int| 0 <= k < s.len() implies is_digit(#[trigger] s[k]) || (k == 0
                && s[0] == '+') by {
                if s[0] == '+' {
                    if k > 0 {
                        assert(s[k] == body[k - 1]);
                    }
                } else {
                    assert(s[k] == body[k]);
                }
            }
        }
    }
}

// ===================== results that carry text =====================

/// A result whose error is a string, with the error seen as characters.
pub open spec fn err_text<T>(r: Result<T, String>) -> Result<T, Seq<char>> {
    match r {
        Ok(v) => Ok(v),
        Err(e) => Err(e@),
    }
}

/// A result of two strings, both seen as characters.
pub open spec fn texts(r: Result<String, String>) -> Result<Seq<char>, Seq<char>> {
    match r {
        Ok(v) => Ok(v@),
        Err(e) => Err(e@),
    }
}

} // verus!
