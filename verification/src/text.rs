//! Text handling on character sequences: splitting, searching, trimming, and decimal numbers.
use vstd::prelude::*;

verus! {

/// `String::push` of the standard library: appends one character.
pub assume_specification[ String::push ](s: &mut String, c: char)
    ensures
        final(s)@ == old(s)@.push(c),
;

/// The contents of a sequence of strings.
pub open spec fn texts(v: Seq<String>) -> Seq<Seq<char>> {
    v.map_values(|s: String| s@)
}

/// Appending a string appends its contents.
pub proof fn lemma_texts_push(v: Seq<String>, s: String)
    ensures
        texts(v.push(s)) == texts(v).push(s@),
{
    assert(texts(v.push(s)) =~= texts(v).push(s@));
}

/// Whether two strings have the same contents.
pub fn str_eq(a: &str, b: &str) -> (r: bool)
    ensures
        r == (a@ == b@),
{
    let x: String = a.to_owned();
    let y: String = b.to_owned();
    x == y
}

/// The characters of a string.
pub fn to_chars(s: &str) -> (r: Vec<char>)
    ensures
        r@ == s@,
{
    let mut v: Vec<char> = Vec::new();
    for c in it: s.chars()
        invariant
            it.seq() == s@,
            v@ == s@.take(it.index() as int),
    {
        v.push(c);
        assert(v@ =~= s@.take(it.index() + 1));
    }
    assert(s@.take(s@.len() as int) =~= s@);
    v
}

/// The string made of the characters from `from` up to but not including `to`.
pub fn from_chars(chars: &Vec<char>, from: usize, to: usize) -> (r: String)
    requires
        from <= to <= chars@.len(),
    ensures
        r@ == chars@.subrange(from as int, to as int),
{
    let mut s: String = String::new();
    let mut i: usize = from;
    while i < to
        invariant
            from <= i <= to <= chars@.len(),
            s@ == chars@.subrange(from as int, i as int),
        decreases to - i,
    {
        s.push(chars[i]);
        i = i + 1;
        assert(s@ =~= chars@.subrange(from as int, i as int));
    }
    s
}

/// The concatenation of two strings.
pub fn concat(a: &str, b: &str) -> (r: String)
    ensures
        r@ == a@ + b@,
{
    let mut s: String = a.to_owned();
    s.append(b);
    s
}

// ---------------------------------------------------------------------------
// Splitting
// ---------------------------------------------------------------------------

/// The pieces of a text between the occurrences of `sep`; adjacent separators have an empty piece
/// between them, and there is always one piece more than there are separators.
pub open spec fn pieces(s: Seq<char>, sep: char) -> Seq<Seq<char>>
    decreases s.len(),
{
    if s.len() == 0 {
        seq![Seq::<char>::empty()]
    } else {
        let before = pieces(s.drop_last(), sep);
        if s.last() == sep {
            before.push(Seq::<char>::empty())
        } else {
            before.drop_last().push(before.last().push(s.last()))
        }
    }
}

proof fn lemma_pieces_nonempty(s: Seq<char>, sep: char)
    ensures
        pieces(s, sep).len() > 0,
    decreases s.len(),
{
    if s.len() > 0 {
        lemma_pieces_nonempty(s.drop_last(), sep);
    }
}

/// The pieces of two texts with a separator between them are the pieces of the one and of the
/// other.
pub proof fn lemma_pieces_joined(a: Seq<char>, b: Seq<char>, sep: char)
    ensures
        pieces(a.push(sep) + b, sep) == pieces(a, sep) + pieces(b, sep),
    decreases b.len(),
{
    let all = a.push(sep) + b;
    if b.len() == 0 {
        assert(all =~= a.push(sep));
        assert(all.drop_last() =~= a);
        assert(pieces(all, sep) =~= pieces(a, sep) + pieces(b, sep));
    } else {
        let c = b.drop_last();
        assert(all.drop_last() =~= a.push(sep) + c);
        lemma_pieces_joined(a, c, sep);
        lemma_pieces_nonempty(c, sep);
        let left = pieces(a, sep);
        let right = pieces(c, sep);
        assert((left + right).last() == right.last());
        assert((left + right).drop_last() =~= left + right.drop_last());
        assert(pieces(all, sep) =~= left + pieces(b, sep));
    }
}

/// The characters with the Unicode property `White_Space`.
pub open spec fn is_whitespace(c: char) -> bool {
    let u = c as u32;
    ||| 0x9 <= u <= 0xd
    ||| u == 0x20
    ||| u == 0x85
    ||| u == 0xa0
    ||| u == 0x1680
    ||| 0x2000 <= u <= 0x200a
    ||| u == 0x2028
    ||| u == 0x2029
    ||| u == 0x202f
    ||| u == 0x205f
    ||| u == 0x3000
}

/// Whether a character is white space.
pub fn char_is_whitespace(c: char) -> (r: bool)
    ensures
        r == is_whitespace(c),
{
    let u: u32 = c as u32;
    (0x9 <= u && u <= 0xd) || u == 0x20 || u == 0x85 || u == 0xa0 || u == 0x1680 || (0x2000 <= u
        && u <= 0x200a) || u == 0x2028 || u == 0x2029 || u == 0x202f || u == 0x205f || u == 0x3000
}

/// The lines of a text, as separated by line feeds.
pub open spec fn lines(s: Seq<char>) -> Seq<Seq<char>> {
    pieces(s, '\n')
}

/// The pieces of a text between white space; some may be empty.
pub open spec fn blank_separated(s: Seq<char>) -> Seq<Seq<char>>
    decreases s.len(),
{
    if s.len() == 0 {
        seq![Seq::<char>::empty()]
    } else {
        let before = blank_separated(s.drop_last());
        if is_whitespace(s.last()) {
            before.push(Seq::<char>::empty())
        } else {
            before.drop_last().push(before.last().push(s.last()))
        }
    }
}

/// The words of a text: the non-empty pieces between white space.
pub open spec fn words(s: Seq<char>) -> Seq<Seq<char>> {
    blank_separated(s).filter(|w: Seq<char>| w.len() > 0)
}

/// Splits a text at each occurrence of a character.
pub fn split_on(s: &str, sep: char) -> (r: Vec<String>)
    ensures
        texts(r@) == pieces(s@, sep),
{
    let mut out: Vec<String> = Vec::new();
    let mut cur: String = String::new();
    for c in it: s.chars()
        invariant
            it.seq() == s@,
            texts(out@).push(cur@) == pieces(s@.take(it.index() as int), sep),
    {
        let ghost done = s@.take(it.index() as int);
        let ghost next = s@.take(it.index() + 1);
        proof {
            assert(next.drop_last() =~= done);
            assert(next.last() == c);
            assert(texts(out@).push(cur@).last() == cur@);
            assert(texts(out@).push(cur@).drop_last() =~= texts(out@));
        }
        if c == sep {
            proof {
                lemma_texts_push(out@, cur);
            }
            out.push(cur);
            cur = String::new();
        } else {
            cur.push(c);
        }
        assert(texts(out@).push(cur@) =~= pieces(next, sep));
    }
    assert(s@.take(s@.len() as int) =~= s@);
    proof {
        lemma_texts_push(out@, cur);
    }
    out.push(cur);
    out
}

/// Splits a text at line feeds.
pub fn split_lines(s: &str) -> (r: Vec<String>)
    ensures
        texts(r@) == lines(s@),
{
    split_on(s, '\n')
}

/// Splits a text into its words.
pub fn split_whitespace(s: &str) -> (r: Vec<String>)
    ensures
        texts(r@) == words(s@),
{
    let ghost keep = |w: Seq<char>| w.len() > 0;
    let mut out: Vec<String> = Vec::new();
    let mut cur: String = String::new();
    let ghost mut parts: Seq<Seq<char>> = Seq::empty();
    proof {
        reveal_with_fuel(Seq::filter, 2);
    }
    for c in it: s.chars()
        invariant
            it.seq() == s@,
            keep == (|w: Seq<char>| w.len() > 0),
            parts.push(cur@) == blank_separated(s@.take(it.index() as int)),
            texts(out@) == parts.filter(keep),
    {
        let ghost done = s@.take(it.index() as int);
        let ghost next = s@.take(it.index() + 1);
        proof {
            assert(next.drop_last() =~= done);
            assert(next.last() == c);
            assert(parts.push(cur@).last() == cur@);
            assert(parts.push(cur@).drop_last() =~= parts);
        }
        if char_is_whitespace(c) {
            proof {
                lemma_filter_push(parts, cur@, keep);
                lemma_texts_push(out@, cur);
                parts = parts.push(cur@);
            }
            if !cur.as_str().is_empty() {
                out.push(cur);
            }
            cur = String::new();
        } else {
            cur.push(c);
        }
        assert(parts.push(cur@) =~= blank_separated(next));
    }
    assert(s@.take(s@.len() as int) =~= s@);
    proof {
        lemma_filter_push(parts, cur@, keep);
        lemma_texts_push(out@, cur);
    }
    if !cur.as_str().is_empty() {
        out.push(cur);
    }
    out
}

pub proof fn lemma_filter_push<A>(s: Seq<A>, x: A, p: spec_fn(A) -> bool)
    ensures
        s.push(x).filter(p) == if p(x) {
            s.filter(p).push(x)
        } else {
            s.filter(p)
        },
{
    reveal(Seq::filter);
    assert(s.push(x).drop_last() =~= s);
    assert(s.push(x).last() == x);
}

// ---------------------------------------------------------------------------
// Searching and trimming
// ---------------------------------------------------------------------------

/// Whether `pattern` occurs in `s` at position `at`.
pub open spec fn occurs_at(s: Seq<char>, pattern: Seq<char>, at: int) -> bool {
    0 <= at && at + pattern.len() <= s.len() && s.subrange(at, at + pattern.len()) == pattern
}

/// Whether `pattern` occurs in `s`.
pub open spec fn contains_text(s: Seq<char>, pattern: Seq<char>) -> bool {
    exists|at: int| occurs_at(s, pattern, at)
}

/// Whether `pattern` occurs in `text`.
pub fn contains(text: &str, pattern: &str) -> (r: bool)
    ensures
        r == contains_text(text@, pattern@),
{
    let s: Vec<char> = to_chars(text);
    let p: Vec<char> = to_chars(pattern);
    let n: usize = p.len();
    if n > s.len() {
        return false;
    }
    let mut at: usize = 0;
    while at <= s.len() - n
        invariant
            s@ == text@,
            p@ == pattern@,
            n == p@.len(),
            n <= s@.len(),
            at <= s@.len() - n + 1,
            forall|k: int| 0 <= k < at ==> !occurs_at(text@, pattern@, k),
        decreases s@.len() - n + 1 - at,
    {
        let mut j: usize = 0;
        while j < n && s[at + j] == p[j]
            invariant
                s@ == text@,
                p@ == pattern@,
                n == p@.len(),
                n <= s@.len(),
                at + n <= s.len(),
                j <= n,
                forall|k: int| 0 <= k < j ==> s@[at + k] == p@[k],
            decreases n - j,
        {
            j = j + 1;
        }
        if j == n {
            assert(s@.subrange(at as int, at + n) =~= p@);
            assert(occurs_at(text@, pattern@, at as int));
            return true;
        }
        assert(!occurs_at(text@, pattern@, at as int)) by {
            if occurs_at(text@, pattern@, at as int) {
                assert(s@.subrange(at as int, at + n)[j as int] == p@[j as int]);
            }
        }
        at = at + 1;
    }
    false
}

/// The position of the first occurrence of `c`, or the length of `s` where there is none.
pub open spec fn first_index(s: Seq<char>, c: char) -> int
    decreases s.len(),
{
    if s.len() == 0 || s[0] == c {
        0
    } else {
        1 + first_index(s.skip(1), c)
    }
}

/// What `first_index` means.
pub proof fn lemma_first_index(s: Seq<char>, c: char, i: int)
    requires
        0 <= i <= s.len(),
        i < s.len() ==> s[i] == c,
        forall|k: int| 0 <= k < i ==> s[k] != c,
    ensures
        first_index(s, c) == i,
    decreases s.len(),
{
    if s.len() > 0 && s[0] != c {
        assert forall|k: int| 0 <= k < i - 1 implies s.skip(1)[k] != c by {
            assert(s.skip(1)[k] == s[k + 1]);
        }
        lemma_first_index(s.skip(1), c, i - 1);
    }
}

/// The part of a text before the first `c`; the whole text where there is no `c`.
pub open spec fn before_first(s: Seq<char>, c: char) -> Seq<char> {
    s.take(first_index(s, c))
}

/// Cuts a text before the first occurrence of `c`.
pub fn cut_before_first(text: &str, c: char) -> (r: String)
    ensures
        r@ == before_first(text@, c),
{
    let s: Vec<char> = to_chars(text);
    let mut i: usize = 0;
    while i < s.len() && s[i] != c
        invariant
            s@ == text@,
            i <= s@.len(),
            forall|k: int| 0 <= k < i ==> s@[k] != c,
        decreases s@.len() - i,
    {
        i = i + 1;
    }
    proof {
        lemma_first_index(s@, c, i as int);
    }
    from_chars(&s, 0, i)
}

/// The position of the last occurrence of `c`, or -1 where there is none.
pub open spec fn last_index(s: Seq<char>, c: char) -> int
    decreases s.len(),
{
    if s.len() == 0 {
        -1
    } else if s.last() == c {
        s.len() - 1
    } else {
        last_index(s.drop_last(), c)
    }
}

pub proof fn lemma_last_index(s: Seq<char>, c: char)
    ensures
        -1 <= last_index(s, c) < s.len(),
        last_index(s, c) >= 0 ==> s[last_index(s, c)] == c,
        forall|k: int| last_index(s, c) < k < s.len() ==> s[k] != c,
    decreases s.len(),
{
    if s.len() > 0 && s.last() != c {
        lemma_last_index(s.drop_last(), c);
        assert forall|k: int| last_index(s, c) < k < s.len() implies s[k] != c by {
            if k < s.len() - 1 {
                assert(s.drop_last()[k] == s[k]);
            }
        }
    }
}

/// A text without the characters `c` that it starts with.
pub open spec fn trim_start(s: Seq<char>, c: char) -> Seq<char>
    decreases s.len(),
{
    if s.len() > 0 && s[0] == c {
        trim_start(s.skip(1), c)
    } else {
        s
    }
}

/// A text without the characters `c` that it ends with.
pub open spec fn trim_end(s: Seq<char>, c: char) -> Seq<char>
    decreases s.len(),
{
    if s.len() > 0 && s.last() == c {
        trim_end(s.drop_last(), c)
    } else {
        s
    }
}

/// The part of `chars` from `from` to `to`, without leading `open` and without trailing `close`.
pub fn trim_brackets(chars: &Vec<char>, from: usize, to: usize, opening: char, closing: char) -> (r:
    String)
    requires
        from <= to <= chars@.len(),
    ensures
        r@ == trim_end(trim_start(chars@.subrange(from as int, to as int), opening), closing),
{
    let ghost whole = chars@.subrange(from as int, to as int);
    let mut a: usize = from;
    while a < to && chars[a] == opening
        invariant
            from <= a <= to <= chars@.len(),
            trim_start(whole, opening) == trim_start(
                chars@.subrange(a as int, to as int),
                opening,
            ),
        decreases to - a,
    {
        assert(chars@.subrange(a as int, to as int).skip(1) =~= chars@.subrange(a + 1, to as int));
        a = a + 1;
    }
    let ghost mid = chars@.subrange(a as int, to as int);
    assert(trim_start(whole, opening) == mid);
    let mut b: usize = to;
    while b > a && chars[b - 1] == closing
        invariant
            a <= b <= to <= chars@.len(),
            trim_end(mid, closing) == trim_end(chars@.subrange(a as int, b as int), closing),
        decreases b,
    {
        assert(chars@.subrange(a as int, b as int).drop_last() =~= chars@.subrange(
            a as int,
            b - 1,
        ));
        b = b - 1;
    }
    from_chars(chars, a, b)
}

// ---------------------------------------------------------------------------
// Decimal numbers
// ---------------------------------------------------------------------------

/// Whether a character is an ASCII decimal digit.
pub open spec fn is_digit(c: char) -> bool {
    '0' <= c <= '9'
}

/// The value of a decimal digit.
pub open spec fn digit_value(c: char) -> nat
    recommends
        is_digit(c),
{
    (c as u32 - 48) as nat
}

/// The decimal digit of a value below ten.
pub open spec fn digit_char(d: nat) -> char
    recommends
        d < 10,
{
    (48 + d) as char
}

pub open spec fn all_digits(s: Seq<char>) -> bool {
    forall|i: int| 0 <= i < s.len() ==> is_digit(#[trigger] s[i])
}

/// The number that a sequence of digits denotes.
pub open spec fn digits_value(s: Seq<char>) -> nat
    decreases s.len(),
{
    if s.len() == 0 {
        0
    } else {
        10 * digits_value(s.drop_last()) + digit_value(s.last())
    }
}

/// The decimal notation of a number, without leading zeros.
pub open spec fn decimal(n: nat) -> Seq<char>
    decreases n,
{
    if n < 10 {
        seq![digit_char(n)]
    } else {
        decimal(n / 10).push(digit_char(n % 10))
    }
}

/// The decimal notation of an integer, with a minus sign where it is negative.
pub open spec fn signed_decimal(n: int) -> Seq<char> {
    if n < 0 {
        seq!['-'] + decimal((-n) as nat)
    } else {
        decimal(n as nat)
    }
}

/// The decimal notation of a number.
pub fn u64_to_text(n: u64) -> (r: String)
    ensures
        r@ == decimal(n as nat),
    decreases n,
{
    let d: u8 = (n % 10) as u8;
    let c: char = (48u8 + d) as char;
    assert(c == digit_char((n % 10) as nat));
    let mut s: String = if n < 10 {
        String::new()
    } else {
        u64_to_text(n / 10)
    };
    s.push(c);
    assert(s@ =~= decimal(n as nat));
    s
}

/// The decimal notation of an integer.
pub fn i32_to_text(n: i32) -> (r: String)
    ensures
        r@ == signed_decimal(n as int),
{
    if n < 0 {
        let m: u64 = (-(n as i64)) as u64;
        let mut s: String = String::new();
        s.push('-');
        let digits: String = u64_to_text(m);
        s.append(digits.as_str());
        assert(s@ =~= signed_decimal(n as int));
        s
    } else {
        u64_to_text(n as u64)
    }
}

/// The number that a text denotes: an optional plus sign and at least one digit, with a value of
/// at most `max`.
pub open spec fn parse_unsigned(s: Seq<char>, max: nat) -> Option<nat> {
    let body = if s.len() > 0 && s[0] == '+' {
        s.skip(1)
    } else {
        s
    };
    if body.len() > 0 && all_digits(body) && digits_value(body) <= max {
        Some(digits_value(body))
    } else {
        None
    }
}

/// The integer that a text denotes: an optional sign and at least one digit, with a value from
/// `min` to `max`.
pub open spec fn parse_signed(s: Seq<char>, min: int, max: int) -> Option<int> {
    let signed = s.len() > 0 && (s[0] == '+' || s[0] == '-');
    let body = if signed {
        s.skip(1)
    } else {
        s
    };
    let value = if signed && s[0] == '-' {
        -(digits_value(body) as int)
    } else {
        digits_value(body) as int
    };
    if body.len() > 0 && all_digits(body) && min <= value <= max {
        Some(value)
    } else {
        None
    }
}

/// The value never shrinks when digits follow.
pub proof fn lemma_digits_value_monotone(s: Seq<char>, k: int)
    requires
        0 <= k <= s.len(),
    ensures
        digits_value(s.take(k)) <= digits_value(s),
    decreases s.len() - k,
{
    if k == s.len() {
        assert(s.take(k) =~= s);
    } else {
        lemma_digits_value_monotone(s, k + 1);
        assert(s.take(k + 1).drop_last() =~= s.take(k));
    }
}

/// Decodes the digits of `chars` from `from` on: `Some` of their value where there is at least
/// one character, all are digits and the value is at most `max`.
fn decode_digits(chars: &Vec<char>, from: usize, max: u64) -> (r: Option<u64>)
    requires
        from <= chars@.len(),
    ensures
        ({
            let body = chars@.skip(from as int);
            match r {
                Some(v) => body.len() > 0 && all_digits(body) && digits_value(body) == v && v
                    <= max,
                None => !(body.len() > 0 && all_digits(body) && digits_value(body) <= max),
            }
        }),
{
    let ghost body = chars@.skip(from as int);
    if from == chars.len() {
        return None;
    }
    let mut value: u64 = 0;
    let mut i: usize = from;
    while i < chars.len()
        invariant
            from <= i <= chars@.len(),
            body == chars@.skip(from as int),
            all_digits(body.take(i - from)),
            value == digits_value(body.take(i - from)),
            value <= max,
        decreases chars@.len() - i,
    {
        let c: char = chars[i];
        assert(body[i - from] == c);
        if !('0' <= c && c <= '9') {
            assert(!is_digit(body[i - from]));
            return None;
        }
        let d: u64 = (c as u32 - 48) as u64;
        let ghost next = body.take(i + 1 - from);
        assert(next.drop_last() =~= body.take(i - from));
        assert(next.last() == c);
        assert(digits_value(next) == 10 * value + d);
        assert(all_digits(next)) by {
            assert forall|k: int| 0 <= k < next.len() implies is_digit(#[trigger] next[k]) by {
                if k < i - from {
                    assert(body.take(i - from)[k] == next[k]);
                }
            }
        }
        let wide: u128 = 10 * (value as u128) + (d as u128);
        if wide > max as u128 {
            proof {
                lemma_digits_value_monotone(body, i + 1 - from);
            }
            return None;
        }
        value = wide as u64;
        i = i + 1;
    }
    assert(body.take(body.len() as int) =~= body);
    Some(value)
}

/// Parses an unsigned 16-bit number.
pub fn parse_u16(chars: &Vec<char>) -> (r: Option<u16>)
    ensures
        match r {
            Some(v) => parse_unsigned(chars@, u16::MAX as nat) == Some(v as nat),
            None => parse_unsigned(chars@, u16::MAX as nat) is None,
        },
{
    assert(chars@.skip(0) =~= chars@);
    let from: usize = if chars.len() > 0 && chars[0] == '+' {
        1
    } else {
        0
    };
    match decode_digits(chars, from, 65535) {
        Some(v) => Some(v as u16),
        None => None,
    }
}

/// Parses a signed 64-bit number.
pub fn parse_i64(text: &str) -> (r: Option<i64>)
    ensures
        match r {
            Some(v) => parse_signed(text@, i64::MIN as int, i64::MAX as int) == Some(v as int),
            None => parse_signed(text@, i64::MIN as int, i64::MAX as int) is None,
        },
{
    let chars: Vec<char> = to_chars(text);
    assert(chars@.skip(0) =~= chars@);
    let negative: bool = chars.len() > 0 && chars[0] == '-';
    let plus: bool = chars.len() > 0 && chars[0] == '+';
    if negative {
        match decode_digits(&chars, 1, 0x8000_0000_0000_0000) {
            Some(v) => {
                let wide: i128 = -(v as i128);
                Some(wide as i64)
            },
            None => None,
        }
    } else {
        let from: usize = if plus {
            1
        } else {
            0
        };
        match decode_digits(&chars, from, 0x7fff_ffff_ffff_ffff) {
            Some(v) => Some(v as i64),
            None => None,
        }
    }
}

/// Reading back the decimal notation of a number gives that number.
pub proof fn decimal_parses_back(n: nat, max: nat)
    requires
        n <= max,
    ensures
        parse_unsigned(decimal(n), max) == Some(n),
{
    lemma_decimal(n);
    assert(is_digit(decimal(n)[0]));
}

/// Decimal notation is made of digits and denotes its number.
pub proof fn lemma_decimal(n: nat)
    ensures
        decimal(n).len() > 0,
        all_digits(decimal(n)),
        digits_value(decimal(n)) == n,
    decreases n,
{
    if n < 10 {
        assert(decimal(n).drop_last() =~= Seq::<char>::empty());
        assert(digits_value(decimal(n).drop_last()) == 0);
    } else {
        lemma_decimal(n / 10);
        assert(decimal(n).drop_last() =~= decimal(n / 10));
        assert forall|k: int| 0 <= k < decimal(n).len() implies is_digit(
            #[trigger] decimal(n)[k],
        ) by {
            if k < decimal(n / 10).len() {
                assert(decimal(n)[k] == decimal(n / 10)[k]);
            }
        }
    }
}

// ---------------------------------------------------------------------------
// Laws
// ---------------------------------------------------------------------------

/// A text without a separator is one piece, the text itself. Together with how the pieces of joined
/// texts go together, this tells the pieces of every text.
pub proof fn texts_without_separator_are_one_piece(s: Seq<char>, sep: char)
    requires
        forall|i: int| 0 <= i < s.len() ==> s[i] != sep,
    ensures
        pieces(s, sep) == seq![s],
    decreases s.len(),
{
    if s.len() > 0 {
        let before = s.drop_last();
        assert forall|i: int| 0 <= i < before.len() implies before[i] != sep by {
            assert(before[i] == s[i]);
        }
        texts_without_separator_are_one_piece(before, sep);
        assert(before.push(s.last()) =~= s);
        assert(pieces(s, sep) =~= seq![s]);
    } else {
        assert(s =~= Seq::<char>::empty());
    }
}

proof fn lemma_blanks_nonempty(s: Seq<char>)
    ensures
        blank_separated(s).len() > 0,
    decreases s.len(),
{
    if s.len() > 0 {
        lemma_blanks_nonempty(s.drop_last());
    }
}

proof fn lemma_blanks_joined(a: Seq<char>, blank: char, b: Seq<char>)
    requires
        is_whitespace(blank),
    ensures
        blank_separated(a.push(blank) + b) == blank_separated(a) + blank_separated(b),
    decreases b.len(),
{
    let all = a.push(blank) + b;
    if b.len() == 0 {
        assert(all =~= a.push(blank));
        assert(all.drop_last() =~= a);
        assert(blank_separated(all) =~= blank_separated(a) + blank_separated(b));
    } else {
        let c = b.drop_last();
        assert(all.drop_last() =~= a.push(blank) + c);
        lemma_blanks_joined(a, blank, c);
        lemma_blanks_nonempty(c);
        let left = blank_separated(a);
        let right = blank_separated(c);
        assert((left + right).last() == right.last());
        assert((left + right).drop_last() =~= left + right.drop_last());
        assert(blank_separated(all) =~= left + blank_separated(b));
    }
}

proof fn lemma_filter_joined<A>(a: Seq<A>, b: Seq<A>, p: spec_fn(A) -> bool)
    ensures
        (a + b).filter(p) == a.filter(p) + b.filter(p),
    decreases b.len(),
{
    if b.len() == 0 {
        assert(a + b =~= a);
        reveal(Seq::filter);
        assert((a + b).filter(p) =~= a.filter(p) + b.filter(p));
    } else {
        let c = b.drop_last();
        lemma_filter_joined(a, c, p);
        lemma_filter_push(c, b.last(), p);
        lemma_filter_push(a + c, b.last(), p);
        assert(c.push(b.last()) =~= b);
        assert((a + c).push(b.last()) =~= a + b);
        assert((a + b).filter(p) =~= a.filter(p) + b.filter(p));
    }
}

/// Nothing has no words.
pub proof fn nothing_has_no_words()
    ensures
        words(Seq::empty()) == Seq::<Seq<char>>::empty(),
{
    let keep = |w: Seq<char>| w.len() > 0;
    let none = Seq::<Seq<char>>::empty();
    lemma_filter_push(none, Seq::<char>::empty(), keep);
    assert(none.push(Seq::<char>::empty()) =~= seq![Seq::<char>::empty()]);
    reveal(Seq::filter);
    assert(none.filter(keep) =~= none);
}

/// A text without white space is one word, the text itself.
pub proof fn texts_without_blanks_are_one_word(s: Seq<char>)
    requires
        s.len() > 0,
        forall|i: int| 0 <= i < s.len() ==> !is_whitespace(s[i]),
    ensures
        words(s) == seq![s],
{
    lemma_unbroken(s);
    let keep = |w: Seq<char>| w.len() > 0;
    let none = Seq::<Seq<char>>::empty();
    lemma_filter_push(none, s, keep);
    assert(none.push(s) =~= seq![s]);
    reveal(Seq::filter);
    assert(none.filter(keep) =~= none);
    assert(words(s) =~= seq![s]);
}

proof fn lemma_unbroken(s: Seq<char>)
    requires
        forall|i: int| 0 <= i < s.len() ==> !is_whitespace(s[i]),
    ensures
        blank_separated(s) == seq![s],
    decreases s.len(),
{
    if s.len() > 0 {
        let before = s.drop_last();
        assert forall|i: int| 0 <= i < before.len() implies !is_whitespace(before[i]) by {
            assert(before[i] == s[i]);
        }
        lemma_unbroken(before);
        assert(before.push(s.last()) =~= s);
        assert(blank_separated(s) =~= seq![s]);
    } else {
        assert(s =~= Seq::<char>::empty());
    }
}

/// The words of two texts with white space between them are the words of the one and of the other.
pub proof fn blanks_separate_words(a: Seq<char>, blank: char, b: Seq<char>)
    requires
        is_whitespace(blank),
    ensures
        words(a.push(blank) + b) == words(a) + words(b),
{
    lemma_blanks_joined(a, blank, b);
    lemma_filter_joined(
        blank_separated(a),
        blank_separated(b),
        |w: Seq<char>| w.len() > 0,
    );
}

/// White space is what Unicode counts as such: five controls, the next line, the plain space and the
/// separators of spaces, lines and paragraphs.
pub proof fn white_space_is_known(c: char)
    ensures
        is_whitespace(c) <==> ('\t' <= c <= '\r' || c == ' ' || c == '\u{85}' || c == '\u{a0}' || c
            == '\u{1680}' || '\u{2000}' <= c <= '\u{200a}' || c == '\u{2028}' || c == '\u{2029}'
            || c == '\u{202f}' || c == '\u{205f}' || c == '\u{3000}'),
{
}

/// Trimming the start takes off a character as often as a text starts with it, and nothing else.
pub proof fn trimming_the_start_takes_one_character_off(s: Seq<char>, c: char)
    ensures
        ({
            let t = trim_start(s, c);
            let n = s.len() - t.len();
            &&& 0 <= n <= s.len()
            &&& s.skip(n) == t
            &&& forall|i: int| 0 <= i < n ==> s[i] == c
            &&& t.len() > 0 ==> t[0] != c
        }),
    decreases s.len(),
{
    if s.len() > 0 && s[0] == c {
        let rest = s.skip(1);
        trimming_the_start_takes_one_character_off(rest, c);
        let t = trim_start(s, c);
        let n = s.len() - t.len();
        assert(rest.skip(n - 1) =~= s.skip(n));
        assert forall|i: int| 0 <= i < n implies s[i] == c by {
            if i > 0 {
                assert(rest[i - 1] == s[i]);
            }
        }
    } else {
        assert(s.skip(0) =~= s);
    }
}

/// Trimming the end takes off a character as often as a text ends with it, and nothing else.
pub proof fn trimming_the_end_takes_one_character_off(s: Seq<char>, c: char)
    ensures
        ({
            let t = trim_end(s, c);
            &&& t.len() <= s.len()
            &&& s.take(t.len() as int) == t
            &&& forall|i: int| t.len() <= i < s.len() ==> s[i] == c
            &&& t.len() > 0 ==> t.last() != c
        }),
    decreases s.len(),
{
    if s.len() > 0 && s.last() == c {
        let rest = s.drop_last();
        trimming_the_end_takes_one_character_off(rest, c);
        let t = trim_end(s, c);
        assert(rest.take(t.len() as int) =~= s.take(t.len() as int));
        assert forall|i: int| t.len() <= i < s.len() implies s[i] == c by {
            if i < rest.len() {
                assert(rest[i] == s[i]);
            }
        }
    } else {
        assert(s.take(s.len() as int) =~= s);
    }
}

/// A further digit makes the number that digits denote ten times as large and adds the digit.
pub proof fn digits_count_by_tens(s: Seq<char>, c: char)
    requires
        '0' <= c <= '9',
    ensures
        digits_value(Seq::empty()) == 0,
        digits_value(s.push(c)) == 10 * digits_value(s) + (c as int - '0' as int),
{
    assert(s.push(c).drop_last() =~= s);
}

/// Decimal notation is made of digits, denotes its number and has no leading zero but for zero
/// itself; a negative number has a minus sign before the notation of its opposite.
pub proof fn decimal_notation_is_plain(n: nat)
    ensures
        decimal(n).len() > 0,
        forall|i: int| 0 <= i < decimal(n).len() ==> '0' <= #[trigger] decimal(n)[i] <= '9',
        digits_value(decimal(n)) == n,
        decimal(n)[0] == '0' ==> n == 0 && decimal(n).len() == 1,
        signed_decimal(n as int) == decimal(n),
        n > 0 ==> signed_decimal(-(n as int)) == seq!['-'] + decimal(n),
    decreases n,
{
    lemma_decimal(n);
    assert forall|i: int| 0 <= i < decimal(n).len() implies '0' <= #[trigger] decimal(n)[i]
        <= '9' by {
        assert(is_digit(decimal(n)[i]));
    }
    if n >= 10 {
        decimal_notation_is_plain(n / 10);
        assert(decimal(n)[0] == decimal(n / 10)[0]);
    }
}

/// Digits, with a plus sign before them or not, are read as the number that they denote, unless that
/// is too large.
pub proof fn digits_are_read(digits: Seq<char>, max: nat)
    requires
        digits.len() > 0,
        forall|i: int| 0 <= i < digits.len() ==> '0' <= #[trigger] digits[i] <= '9',
    ensures
        ({
            let n = digits_value(digits);
            let outcome = if n <= max {
                Some(n)
            } else {
                None
            };
            &&& parse_unsigned(digits, max) == outcome
            &&& parse_unsigned(seq!['+'] + digits, max) == outcome
            &&& parse_unsigned(seq!['-'] + digits, max) is None
        }),
{
    assert(!is_digit((seq!['-'] + digits)[0]));
    assert(all_digits(digits)) by {
        assert forall|i: int| 0 <= i < digits.len() implies is_digit(#[trigger] digits[i]) by {
            assert('0' <= digits[i] <= '9');
        }
    }
    assert('0' <= digits[0] <= '9');
    assert((seq!['+'] + digits).skip(1) =~= digits);
}

/// Digits are read as the integer that they denote, with a minus sign before them as its opposite,
/// unless that is out of range.
pub proof fn signed_digits_are_read(digits: Seq<char>, min: int, max: int)
    requires
        digits.len() > 0,
        forall|i: int| 0 <= i < digits.len() ==> '0' <= #[trigger] digits[i] <= '9',
    ensures
        ({
            let n = digits_value(digits) as int;
            let positive = if min <= n <= max {
                Some(n)
            } else {
                None
            };
            let negative = if min <= -n <= max {
                Some(-n)
            } else {
                None
            };
            &&& parse_signed(digits, min, max) == positive
            &&& parse_signed(seq!['+'] + digits, min, max) == positive
            &&& parse_signed(seq!['-'] + digits, min, max) == negative
        }),
{
    assert(all_digits(digits)) by {
        assert forall|i: int| 0 <= i < digits.len() implies is_digit(#[trigger] digits[i]) by {
            assert('0' <= digits[i] <= '9');
        }
    }
    assert('0' <= digits[0] <= '9');
    assert((seq!['+'] + digits).skip(1) =~= digits);
    assert((seq!['-'] + digits).skip(1) =~= digits);
}

/// Nothing but digits with one sign before them is read as a number: not an empty text, not a sign
/// alone, not a text with any other character.
pub proof fn other_texts_are_no_numbers(s: Seq<char>, at: int, max: nat, low: int, high: int)
    requires
        s.len() == 0 || s.len() == 1 && !('0' <= s[0] <= '9') || 0 <= at < s.len() && !('0' <= s[at]
            <= '9') && !(at == 0 && (s[0] == '+' || s[0] == '-')),
    ensures
        parse_unsigned(s, max) is None,
        parse_signed(s, low, high) is None,
        s.len() > 0 && s[0] == '-' ==> parse_unsigned(s, max) is None,
{
    if s.len() > 0 {
        if s.len() > 1 || ('0' <= s[0] <= '9') {
            assert(!is_digit(s[at]));
            if at > 0 {
                assert(s.skip(1)[at - 1] == s[at]);
            }
        } else {
            assert(!is_digit(s[0]));
        }
    }
}

/// What stands before the first occurrence of a character has no such character, and where there is
/// one it follows just there.
pub proof fn texts_are_cut_at_the_first_occurrence(s: Seq<char>, c: char)
    ensures
        ({
            let t = before_first(s, c);
            &&& t.len() <= s.len()
            &&& s.take(t.len() as int) == t
            &&& forall|i: int| 0 <= i < t.len() ==> t[i] != c
            &&& t.len() < s.len() ==> s[t.len() as int] == c
        }),
    decreases s.len(),
{
    if s.len() > 0 && s[0] != c {
        let rest = s.skip(1);
        texts_are_cut_at_the_first_occurrence(rest, c);
        let t = before_first(s, c);
        let u = before_first(rest, c);
        assert(0 <= first_index(rest, c) <= rest.len()) by {
            lemma_first_index_bounds(rest, c);
        }
        assert(t =~= seq![s[0]] + u);
        assert forall|i: int| 0 <= i < t.len() implies t[i] != c by {
            if i > 0 {
                assert(t[i] == u[i - 1]);
            }
        }
        if t.len() < s.len() {
            assert(s[t.len() as int] == rest[u.len() as int]);
        }
        assert(s.take(t.len() as int) =~= t);
    } else {
        assert(before_first(s, c) =~= Seq::<char>::empty());
    }
}

proof fn lemma_first_index_bounds(s: Seq<char>, c: char)
    ensures
        0 <= first_index(s, c) <= s.len(),
    decreases s.len(),
{
    if s.len() > 0 && s[0] != c {
        lemma_first_index_bounds(s.skip(1), c);
    }
}

/// The contents of strings are theirs, one by one.
pub proof fn contents_are_kept(v: Seq<String>, i: int)
    ensures
        texts(v).len() == v.len(),
        0 <= i < v.len() ==> texts(v)[i] == v[i]@,
{
}

/// Lines end at line feeds and nowhere else.
pub proof fn line_feeds_separate_lines(a: Seq<char>, b: Seq<char>)
    ensures
        lines(a.push('\n') + b) == lines(a) + lines(b),
        (forall|i: int| 0 <= i < a.len() ==> a[i] != '\n') ==> lines(a) == seq![a],
{
    lemma_pieces_joined(a, b, '\n');
    if forall|i: int| 0 <= i < a.len() ==> a[i] != '\n' {
        texts_without_separator_are_one_piece(a, '\n');
    }
}

/// A pattern occurs in a text exactly where the text is something, the pattern and something more.
pub proof fn patterns_occur_within(a: Seq<char>, pattern: Seq<char>, b: Seq<char>, s: Seq<char>)
    ensures
        contains_text(a + pattern + b, pattern),
        (forall|at: int|
            0 <= at && at + pattern.len() <= s.len() ==> #[trigger] s.subrange(
                at,
                at + pattern.len(),
            ) != pattern) ==> !contains_text(s, pattern),
{
    let whole = a + pattern + b;
    let at = a.len() as int;
    assert(whole.subrange(at, at + pattern.len()) =~= pattern);
    assert(occurs_at(whole, pattern, at));
}

} // verus!
