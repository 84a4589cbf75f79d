//! Text primitives of the converter: trimming, decimal numbers, comparison.
//!
//! Every function states its result over the characters of its arguments
//! (`Seq<char>`, the view of `str` and `String`).

use vstd::prelude::*;

verus! {

/// `String::push` appends one character and changes nothing else.
pub assume_specification[ String::push ](s: &mut String, ch: char)
    ensures
        final(s)@ == old(s)@.push(ch),
;

/// The upper-case form that `str::to_uppercase` gives to a text. It follows
/// the Unicode case tables, so it is named here and not spelled out.
pub uninterp spec fn uppercased(s: Seq<char>) -> Seq<char>;

/// `str::to_uppercase` returns the upper-case form of its argument; the
/// result depends on the characters of the argument alone.
pub assume_specification[ str::to_uppercase ](s: &str) -> (upper: String)
    ensures
        upper@ == uppercased(s@),
;

/// White space in the sense of Unicode's `White_Space` property.
pub open spec fn is_whitespace(c: char) -> bool {
    let u = c as u32;
    ||| 0x09 <= u <= 0x0D
    ||| u == 0x20
    ||| u == 0x85
    ||| u == 0xA0
    ||| u == 0x1680
    ||| 0x2000 <= u <= 0x200A
    ||| u == 0x2028
    ||| u == 0x2029
    ||| u == 0x202F
    ||| u == 0x205F
    ||| u == 0x3000
}

/// `s` without the characters satisfying `drop` that it starts with.
pub open spec fn strip_leading(s: Seq<char>, drop: spec_fn(char) -> bool) -> Seq<char>
    decreases s.len(),
{
    if s.len() > 0 && drop(s[0]) {
        strip_leading(s.skip(1), drop)
    } else {
        s
    }
}

/// `s` without the characters satisfying `drop` that it ends with.
pub open spec fn strip_trailing(s: Seq<char>, drop: spec_fn(char) -> bool) -> Seq<char>
    decreases s.len(),
{
    if s.len() > 0 && drop(s.last()) {
        strip_trailing(s.drop_last(), drop)
    } else {
        s
    }
}

/// `s` without leading and trailing white space.
pub open spec fn trimmed(s: Seq<char>) -> Seq<char> {
    strip_trailing(strip_leading(s, |c: char| is_whitespace(c)), |c: char| is_whitespace(c))
}

/// `s` without the zero characters it starts with.
pub open spec fn without_leading_zeros(s: Seq<char>) -> Seq<char> {
    strip_leading(s, |c: char| c == '0')
}

/// Dropping a prefix of length `k` whose characters all satisfy `drop`, and
/// that is followed by a character that does not, is `strip_leading`.
pub proof fn lemma_strip_leading(s: Seq<char>, drop: spec_fn(char) -> bool, k: int)
    requires
        0 <= k <= s.len(),
        forall|i: int| 0 <= i < k ==> drop(#[trigger] s[i]),
        k < s.len() ==> !drop(s[k]),
    ensures
        strip_leading(s, drop) == s.skip(k),
    decreases k,
{
    if k == 0 {
        assert(s.skip(0) =~= s);
    } else {
        let rest = s.skip(1);
        assert forall|i: int| 0 <= i < k - 1 implies drop(#[trigger] rest[i]) by {
            assert(rest[i] == s[i + 1]);
        }
        lemma_strip_leading(rest, drop, k - 1);
        assert(rest.skip(k - 1) =~= s.skip(k));
    }
}

/// Keeping a prefix of length `k` that does not end in a character
/// satisfying `drop`, where all later characters do, is `strip_trailing`.
pub proof fn lemma_strip_trailing(s: Seq<char>, drop: spec_fn(char) -> bool, k: int)
    requires
        0 <= k <= s.len(),
        forall|i: int| k <= i < s.len() ==> drop(#[trigger] s[i]),
        k > 0 ==> !drop(s[k - 1]),
    ensures
        strip_trailing(s, drop) == s.take(k),
    decreases s.len() - k,
{
    if k == s.len() {
        assert(s.take(k) =~= s);
    } else {
        let rest = s.drop_last();
        lemma_strip_trailing(rest, drop, k);
        assert(rest.take(k) =~= s.take(k));
    }
}

/// What `strip_leading` returns is an end piece of `s` that does not start
/// with a character satisfying `drop`.
pub proof fn lemma_strip_leading_shape(s: Seq<char>, drop: spec_fn(char) -> bool)
    ensures
        strip_leading(s, drop).len() <= s.len(),
        strip_leading(s, drop) == s.skip(s.len() - strip_leading(s, drop).len()),
        strip_leading(s, drop).len() > 0 ==> !drop(strip_leading(s, drop)[0]),
    decreases s.len(),
{
    if s.len() > 0 && drop(s[0]) {
        let rest = s.skip(1);
        lemma_strip_leading_shape(rest, drop);
        let r = strip_leading(rest, drop);
        assert(rest.skip(rest.len() - r.len()) =~= s.skip(s.len() - r.len()));
    } else {
        assert(s.skip(0) =~= s);
    }
}

/// What `strip_trailing` returns is a start piece of `s` that does not end
/// in a character satisfying `drop`.
pub proof fn lemma_strip_trailing_shape(s: Seq<char>, drop: spec_fn(char) -> bool)
    ensures
        strip_trailing(s, drop).len() <= s.len(),
        strip_trailing(s, drop) == s.take(strip_trailing(s, drop).len() as int),
        strip_trailing(s, drop).len() > 0 ==> !drop(strip_trailing(s, drop).last()),
    decreases s.len(),
{
    if s.len() > 0 && drop(s.last()) {
        let rest = s.drop_last();
        lemma_strip_trailing_shape(rest, drop);
        let r = strip_trailing(rest, drop);
        assert(rest.take(r.len() as int) =~= s.take(r.len() as int));
    } else {
        assert(s.take(s.len() as int) =~= s);
    }
}

/// Trimming a trimmed text changes nothing.
pub proof fn lemma_trimmed_idempotent(s: Seq<char>)
    ensures
        trimmed(trimmed(s)) == trimmed(s),
{
    let ws = |c: char| is_whitespace(c);
    let u = strip_leading(s, ws);
    let t = strip_trailing(u, ws);
    lemma_strip_leading_shape(s, ws);
    lemma_strip_trailing_shape(u, ws);
    assert(t == trimmed(s));
    if t.len() > 0 {
        assert(t[0] == u[0]);
        assert(strip_leading(t, ws) == t);
    } else {
        assert(strip_leading(t, ws) == t);
    }
    assert(strip_trailing(t, ws) == t);
}

/// `s` without its first `count` characters; empty when it has no more.
pub open spec fn without_first(s: Seq<char>, count: nat) -> Seq<char> {
    if count <= s.len() {
        s.skip(count as int)
    } else {
        Seq::empty()
    }
}

/// The first `count` characters of `s`; all of `s` when it has no more.
pub open spec fn first_of(s: Seq<char>, count: nat) -> Seq<char> {
    if count <= s.len() {
        s.take(count as int)
    } else {
        s
    }
}

/// The characters of an optional text.
pub open spec fn optional_chars(text: Option<String>) -> Option<Seq<char>> {
    match text {
        Some(text) => Some(text@),
        None => None,
    }
}

/// The characters of a text, in order.
pub fn to_chars(s: &str) -> (chars: Vec<char>)
    ensures
        chars@ == s@,
{
    let mut chars: Vec<char> = Vec::new();
    let source = s.chars();
    for c in it: source
        invariant
            chars@ == it.seq().take(it.index() as int),
            it.seq() == s@,
    {
        chars.push(c);
    }
    chars
}

/// The text made of `chars[from..to]`.
pub(crate) fn from_chars(chars: &Vec<char>, from: usize, to: usize) -> (s: String)
    requires
        from <= to <= chars.len(),
    ensures
        s@ == chars@.subrange(from as int, to as int),
{
    let mut s = String::new();
    let mut i: usize = from;
    while i < to
        invariant
            from <= i <= to <= chars.len(),
            s@ == chars@.subrange(from as int, i as int),
        decreases to - i,
    {
        s.push(chars[i]);
        i += 1;
    }
    s
}

/// Whether two texts hold the same characters.
pub fn str_eq(a: &str, b: &str) -> (same: bool)
    ensures
        same == (a@ == b@),
{
    let x = to_chars(a);
    let y = to_chars(b);
    if x.len() != y.len() {
        return false;
    }
    let mut i: usize = 0;
    while i < x.len()
        invariant
            i <= x.len(),
            x.len() == y.len(),
            x@ == a@,
            y@ == b@,
            forall|j: int| 0 <= j < i ==> x@[j] == y@[j],
        decreases x.len() - i,
    {
        if x[i] != y[i] {
            return false;
        }
        i += 1;
    }
    assert(x@ =~= y@);
    true
}

/// Whether `c` is white space.
pub fn char_is_whitespace(c: char) -> (b: bool)
    ensures
        b == is_whitespace(c),
{
    let u: u32 = c as u32;
    (0x09 <= u && u <= 0x0D) || u == 0x20 || u == 0x85 || u == 0xA0 || u == 0x1680 || (0x2000 <= u
        && u <= 0x200A) || u == 0x2028 || u == 0x2029 || u == 0x202F || u == 0x205F || u == 0x3000
}

/// A copy of `s` without leading and trailing white space.
pub fn trim(s: &str) -> (t: String)
    ensures
        t@ == trimmed(s@),
{
    let chars = to_chars(s);
    let mut start: usize = 0;
    while start < chars.len() && char_is_whitespace(chars[start])
        invariant
            start <= chars.len(),
            forall|i: int| 0 <= i < start ==> is_whitespace(#[trigger] chars@[i]),
        decreases chars.len() - start,
    {
        start += 1;
    }
    let mut end: usize = chars.len();
    while end > start && char_is_whitespace(chars[end - 1])
        invariant
            start <= end <= chars.len(),
            forall|i: int| end <= i < chars.len() ==> is_whitespace(#[trigger] chars@[i]),
        decreases end,
    {
        end -= 1;
    }
    proof {
        let ws = |c: char| is_whitespace(c);
        lemma_strip_leading(chars@, ws, start as int);
        let rest = chars@.skip(start as int);
        assert forall|i: int| end - start <= i < rest.len() implies ws(#[trigger] rest[i]) by {
            assert(rest[i] == chars@[i + start]);
        }
        lemma_strip_trailing(rest, ws, end - start);
        assert(rest.take(end - start) =~= chars@.subrange(start as int, end as int));
    }
    from_chars(&chars, start, end)
}

/// A copy of `s` without the zero characters it starts with.
pub fn strip_leading_zeros(s: &str) -> (t: String)
    ensures
        t@ == without_leading_zeros(s@),
{
    let chars = to_chars(s);
    let mut start: usize = 0;
    while start < chars.len() && chars[start] == '0'
        invariant
            start <= chars.len(),
            forall|i: int| 0 <= i < start ==> #[trigger] chars@[i] == '0',
        decreases chars.len() - start,
    {
        start += 1;
    }
    proof {
        lemma_strip_leading(chars@, |c: char| c == '0', start as int);
        assert(chars@.skip(start as int) =~= chars@.subrange(start as int, chars.len() as int));
    }
    from_chars(&chars, start, chars.len())
}

/// Whether `c` is one of the ten decimal digits.
pub open spec fn is_digit(c: char) -> bool {
    '0' <= c <= '9'
}

/// The number that the digit `c` stands for.
pub open spec fn digit_value(c: char) -> nat {
    if is_digit(c) {
        (c as u32 - '0' as u32) as nat
    } else {
        0
    }
}

/// The digit that stands for `d`, for `d` below ten.
pub open spec fn digit_char(d: nat) -> char {
    ((d + 48) as u8) as char
}

/// Whether `s` holds decimal digits only.
pub open spec fn all_digits(s: Seq<char>) -> bool {
    forall|i: int| 0 <= i < s.len() ==> is_digit(#[trigger] s[i])
}

/// The number that a sequence of decimal digits denotes; 0 for none.
pub open spec fn decimal_value(s: Seq<char>) -> nat
    decreases s.len(),
{
    if s.len() == 0 {
        0
    } else {
        10 * decimal_value(s.drop_last()) + digit_value(s.last())
    }
}

/// `s` without the one plus sign that it may start with.
pub open spec fn without_sign(s: Seq<char>) -> Seq<char> {
    if s.len() > 0 && s[0] == '+' {
        s.skip(1)
    } else {
        s
    }
}

/// The value of `s` read as an unsigned decimal number no greater than
/// `max`: an optional plus sign, then one digit or more, nothing else.
pub open spec fn parse_unsigned(s: Seq<char>, max: nat) -> Option<nat> {
    let digits = without_sign(s);
    if digits.len() > 0 && all_digits(digits) && decimal_value(digits) <= max {
        Some(decimal_value(digits))
    } else {
        None
    }
}

/// The decimal digits of `n`, most significant first, without leading zeros.
pub open spec fn decimal_digits(n: nat) -> Seq<char>
    decreases n,
{
    if n < 10 {
        seq![digit_char(n)]
    } else {
        decimal_digits(n / 10).push(digit_char(n % 10))
    }
}

/// `count` zero characters.
pub open spec fn zeros(count: nat) -> Seq<char> {
    Seq::new(count, |i: int| '0')
}

/// The decimal digits of `n`, with zeros in front up to `width` characters.
pub open spec fn zero_padded(n: nat, width: nat) -> Seq<char> {
    let digits = decimal_digits(n);
    if digits.len() >= width {
        digits
    } else {
        zeros((width - digits.len()) as nat) + digits
    }
}

/// A prefix of a digit sequence denotes no more than the whole.
pub proof fn lemma_decimal_value_prefix(s: Seq<char>, k: int)
    requires
        0 <= k <= s.len(),
    ensures
        decimal_value(s.take(k)) <= decimal_value(s),
    decreases s.len() - k,
{
    if k == s.len() {
        assert(s.take(k) =~= s);
    } else {
        lemma_decimal_value_prefix(s.drop_last(), k);
        assert(s.drop_last().take(k) =~= s.take(k));
    }
}

/// The decimal digits of a number are digits, do not start with a zero
/// unless the number is 0, and denote the number.
pub proof fn lemma_decimal_digits(n: nat)
    ensures
        decimal_digits(n).len() >= 1,
        all_digits(decimal_digits(n)),
        decimal_value(decimal_digits(n)) == n,
        n > 0 ==> decimal_digits(n)[0] != '0',
    decreases n,
{
    let last = digit_char(n % 10);
    assert(is_digit(last) && digit_value(last) == n % 10);
    if n < 10 {
        assert(decimal_digits(n).drop_last() =~= Seq::<char>::empty());
        assert(decimal_value(decimal_digits(n)) == 10 * decimal_value(Seq::<char>::empty()) + n);
    } else {
        let front = decimal_digits(n / 10);
        lemma_decimal_digits(n / 10);
        assert(front.push(last).drop_last() =~= front);
        assert(front.push(last)[0] == front[0]);
    }
}

/// The decimal digits of a number read back as that number.
pub proof fn lemma_parse_decimal_digits(n: nat, max: nat)
    requires
        n <= max,
    ensures
        parse_unsigned(decimal_digits(n), max) == Some(n),
{
    lemma_decimal_digits(n);
    assert(is_digit(decimal_digits(n)[0]));
}

/// Zeros in front of a text that does not start with a zero are its
/// leading zeros.
pub proof fn lemma_without_leading_zeros(count: nat, s: Seq<char>)
    requires
        s.len() > 0 ==> s[0] != '0',
    ensures
        without_leading_zeros(zeros(count) + s) == s,
{
    let all = zeros(count) + s;
    lemma_strip_leading(all, |c: char| c == '0', count as int);
    assert(all.skip(count as int) =~= s);
}

/// The digit for `d`.
pub(crate) fn digit_to_char(d: u8) -> (c: char)
    requires
        d < 10,
    ensures
        c == digit_char(d as nat),
        is_digit(c),
        digit_value(c) == d,
{
    (d + 48) as char
}

/// Reads `s` as an unsigned decimal number no greater than `max`.
pub fn parse_decimal(s: &str, max: u64) -> (value: Option<u64>)
    ensures
        match value {
            Some(v) => parse_unsigned(s@, max as nat) == Some(v as nat),
            None => parse_unsigned(s@, max as nat) is None,
        },
{
    let chars = to_chars(s);
    let n = chars.len();
    let start: usize = if n > 0 && chars[0] == '+' {
        1
    } else {
        0
    };
    if start == n {
        return None;
    }
    let ghost digits = without_sign(s@);
    assert(digits =~= chars@.subrange(start as int, n as int));
    let mut acc: u64 = 0;
    let mut i: usize = start;
    while i < n
        invariant
            start <= i <= n,
            n == chars.len(),
            digits == chars@.subrange(start as int, n as int),
            digits == without_sign(s@),
            digits.len() > 0,
            all_digits(digits.take(i - start)),
            acc == decimal_value(digits.take(i - start)),
            acc <= max,
        decreases n - i,
    {
        let c = chars[i];
        if !(c >= '0' && c <= '9') {
            assert(!is_digit(digits[i - start]));
            return None;
        }
        let d: u64 = (c as u32 - '0' as u32) as u64;
        let next: u128 = acc as u128 * 10 + d as u128;
        proof {
            let longer = digits.take(i + 1 - start);
            assert(longer.drop_last() =~= digits.take(i - start));
            assert(longer.last() == c);
            assert(next == decimal_value(longer));
            lemma_decimal_value_prefix(digits, i + 1 - start);
        }
        if next > max as u128 {
            return None;
        }
        acc = next as u64;
        i += 1;
    }
    assert(digits.take(n - start) =~= digits);
    Some(acc)
}

/// Appends the decimal digits of `n` to `out`.
pub fn push_decimal(out: &mut String, n: u64)
    ensures
        final(out)@ == old(out)@ + decimal_digits(n as nat),
    decreases n,
{
    if n >= 10 {
        push_decimal(out, n / 10);
    }
    out.push(digit_to_char((n % 10) as u8));
}

/// Appends the decimal digits of `n` to `out`, after as many zeros as are
/// needed to fill `width` characters.
pub fn push_zero_padded(out: &mut String, n: u64, width: usize)
    ensures
        final(out)@ == old(out)@ + zero_padded(n as nat, width as nat),
{
    let mut digits = String::new();
    push_decimal(&mut digits, n);
    assert(digits@ =~= decimal_digits(n as nat));
    let len = digits.as_str().unicode_len();
    let mut i: usize = len;
    while i < width
        invariant
            len <= i,
            len < width ==> i <= width,
            len >= width ==> i == len,
            out@ == old(out)@ + zeros((i - len) as nat),
        decreases width - i,
    {
        out.push('0');
        i += 1;
        assert(zeros((i - 1 - len) as nat).push('0') =~= zeros((i - len) as nat));
    }
    let ghost padding = zeros((i - len) as nat);
    out.append(digits.as_str());
    assert(out@ =~= old(out)@ + (padding + digits@));
    assert(len >= width ==> padding + digits@ =~= digits@);
}

/// A copy of `s` without its first `count` characters.
pub fn skip_chars(s: &str, count: usize) -> (t: String)
    ensures
        t@ == without_first(s@, count as nat),
{
    let chars = to_chars(s);
    if count <= chars.len() {
        let t = from_chars(&chars, count, chars.len());
        assert(t@ =~= s@.skip(count as int));
        t
    } else {
        String::new()
    }
}

/// A copy of the first `count` characters of `s`.
pub fn take_chars(s: &str, count: usize) -> (t: String)
    ensures
        t@ == first_of(s@, count as nat),
{
    let chars = to_chars(s);
    if count <= chars.len() {
        let t = from_chars(&chars, 0, count);
        assert(t@ =~= s@.take(count as int));
        t
    } else {
        s.to_owned()
    }
}

} // verus!
