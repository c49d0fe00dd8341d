//! Small text formats shared by the tools: decimal integers (written and read
//! back), whitespace trimming, ASCII case folding, and the character classes
//! std defines.

use vstd::prelude::*;

verus! {

// ---------------------------------------------------------------------------
// Character classes from std
// ---------------------------------------------------------------------------

/// The Unicode `White_Space` property (`char::is_whitespace`): the control
/// characters TAB through CR, SPACE, NEXT LINE, NO-BREAK SPACE, OGHAM SPACE
/// MARK, the spaces EN QUAD through HAIR SPACE, LINE and PARAGRAPH SEPARATOR,
/// NARROW NO-BREAK SPACE, MEDIUM MATHEMATICAL SPACE and IDEOGRAPHIC SPACE.
pub open spec fn is_white(c: char) -> bool {
    let n = c as u32;
    ||| 0x09 <= n <= 0x0D
    ||| n == 0x20
    ||| n == 0x85
    ||| n == 0xA0
    ||| n == 0x1680
    ||| 0x2000 <= n <= 0x200A
    ||| n == 0x2028
    ||| n == 0x2029
    ||| n == 0x202F
    ||| n == 0x205F
    ||| n == 0x3000
}

/// The `Alphabetic ∪ Numeric` classes, as `char::is_alphanumeric` decides them.
pub uninterp spec fn is_alnum(c: char) -> bool;

/// Whether `c` has the Unicode `White_Space` property (what
/// `char::is_whitespace` answers).
pub(crate) fn char_is_whitespace(c: char) -> (b: bool)
    ensures
        b == is_white(c),
{
    let n: u32 = c as u32;
    (0x09 <= n && n <= 0x0D) || n == 0x20 || n == 0x85 || n == 0xA0 || n == 0x1680
        || (0x2000 <= n && n <= 0x200A) || n == 0x2028 || n == 0x2029 || n == 0x202F
        || n == 0x205F || n == 0x3000
}

/// `char::is_alphanumeric`: whether `c` is alphabetic or numeric (Unicode).
/// The contract claims that the answer is [`is_alnum`] of `c`, a function of
/// `c` alone; which characters qualify is left to std's tables.
#[verifier::external_body]
pub(crate) fn char_is_alphanumeric(c: char) -> (b: bool)
    ensures
        b == is_alnum(c),
{
    c.is_alphanumeric()
}

/// `String::push`: appends one character at the end. The contract claims
/// exactly that: the new string is the old one followed by `c`.
#[verifier::external_body]
pub(crate) fn push_char(s: &mut String, c: char)
    ensures
        final(s)@ == old(s)@.push(c),
{
    s.push(c);
}

// ---------------------------------------------------------------------------
// Reading a string
// ---------------------------------------------------------------------------

/// The characters of `s`, in order.
pub(crate) fn chars_of(s: &str) -> (v: Vec<char>)
    ensures
        v@ == s@,
{
    let n = s.unicode_len();
    let mut v: Vec<char> = Vec::new();
    let mut i: usize = 0;
    while i < n
        invariant
            n == s@.len(),
            i <= n,
            v@ == s@.subrange(0, i as int),
        decreases n - i,
    {
        let c = s.get_char(i);
        v.push(c);
        i = i + 1;
    }
    v
}

/// The string made of the characters `v`.
pub(crate) fn string_of(v: &Vec<char>) -> (s: String)
    ensures
        s@ == v@,
{
    let mut s = String::new();
    let mut i: usize = 0;
    while i < v.len()
        invariant
            i <= v.len(),
            s@ == v@.subrange(0, i as int),
        decreases v.len() - i,
    {
        push_char(&mut s, v[i]);
        i = i + 1;
    }
    s
}

/// `a ++ b` as a new string.
pub(crate) fn concat_str(a: &str, b: &str) -> (s: String)
    ensures
        s@ == a@ + b@,
{
    let mut s = String::from_str(a);
    s.append(b);
    s
}

// ---------------------------------------------------------------------------
// Decimal integers
// ---------------------------------------------------------------------------

/// The ASCII digit for `d < 10`.
pub open spec fn digit_char(d: nat) -> char {
    (48 + d) as char
}

/// Whether `c` is one of `'0'..='9'`.
pub open spec fn is_digit(c: char) -> bool {
    '0' <= c && c <= '9'
}

/// The value of the ASCII digit `c`.
pub open spec fn digit_value(c: char) -> nat {
    (c as int - 48) as nat
}

/// The shortest decimal writing of `n` (no sign, no leading zero) — what
/// `format!("{n}")` writes for an unsigned integer.
pub open spec fn decimal(n: nat) -> Seq<char>
    decreases n,
{
    if n < 10 {
        seq![digit_char(n)]
    } else {
        decimal(n / 10).push(digit_char(n % 10))
    }
}

/// Whether `s` is a non-empty run of ASCII digits.
pub open spec fn all_digits(s: Seq<char>) -> bool {
    s.len() > 0 && forall|i: int| 0 <= i < s.len() ==> is_digit(#[trigger] s[i])
}

/// The value of a run of ASCII digits, most significant first.
pub open spec fn digits_value(s: Seq<char>) -> nat
    decreases s.len(),
{
    if s.len() == 0 {
        0
    } else {
        digits_value(s.drop_last()) * 10 + digit_value(s.last())
    }
}

/// What `str::parse` gives for an unsigned integer type whose largest value is
/// `max`: an optional leading `+`, then at least one ASCII digit and nothing
/// else, whose value does not exceed `max`; `None` for anything else.
pub open spec fn parse_unsigned(s: Seq<char>, max: nat) -> Option<nat> {
    let body = if s.len() > 0 && s[0] == '+' {
        s.drop_first()
    } else {
        s
    };
    if all_digits(body) && digits_value(body) <= max {
        Some(digits_value(body))
    } else {
        None
    }
}

proof fn lemma_digit_roundtrip(d: nat)
    requires
        d < 10,
    ensures
        is_digit(digit_char(d)),
        digit_value(digit_char(d)) == d,
{
    assert(digit_char(d) as int == 48 + d);
}

proof fn lemma_decimal_digits(n: nat)
    ensures
        all_digits(decimal(n)),
        digits_value(decimal(n)) == n,
        decimal(n).len() >= 1,
    decreases n,
{
    lemma_digit_roundtrip(n % 10);
    if n < 10 {
        assert(decimal(n) =~= seq![digit_char(n)]);
        assert(seq![digit_char(n)].drop_last() =~= Seq::<char>::empty());
        assert(digits_value(decimal(n)) == digits_value(Seq::<char>::empty()) * 10 + digit_value(
            digit_char(n),
        ));
    } else {
        lemma_decimal_digits(n / 10);
        let d = decimal(n / 10);
        assert(decimal(n) == d.push(digit_char(n % 10)));
        assert(d.push(digit_char(n % 10)).drop_last() =~= d);
        assert forall|i: int| 0 <= i < decimal(n).len() implies is_digit(
            #[trigger] decimal(n)[i],
        ) by {
            if i < d.len() {
                assert(decimal(n)[i] == d[i]);
            }
        }
    }
}

/// Written in decimal and read back, an unsigned integer comes back unchanged.
pub proof fn lemma_parse_decimal(n: nat, max: nat)
    requires
        n <= max,
    ensures
        parse_unsigned(decimal(n), max) == Some(n),
{
    lemma_decimal_digits(n);
    assert(decimal(n)[0] != '+');
}

fn push_decimal(s: &mut String, n: u64)
    ensures
        final(s)@ == old(s)@ + decimal(n as nat),
    decreases n,
{
    if n >= 10 {
        push_decimal(s, n / 10);
    }
    let d = (n % 10) as u32;
    let c = char_from_digit(d);
    push_char(s, c);
    proof {
        if n >= 10 {
            assert(decimal(n as nat) == decimal((n / 10) as nat).push(digit_char((n % 10) as nat)));
        } else {
            assert(decimal(n as nat) =~= seq![digit_char(n as nat)]);
        }
    }
}

fn char_from_digit(d: u32) -> (c: char)
    requires
        d < 10,
    ensures
        c == digit_char(d as nat),
{
    match d {
        0 => '0',
        1 => '1',
        2 => '2',
        3 => '3',
        4 => '4',
        5 => '5',
        6 => '6',
        7 => '7',
        8 => '8',
        _ => '9',
    }
}

/// Appends the decimal writing of `n` to `s`.
pub(crate) fn append_decimal(s: &mut String, n: u64)
    ensures
        final(s)@ == old(s)@ + decimal(n as nat),
{
    push_decimal(s, n);
}

/// The decimal writing of `n` (`n.to_string()`).
pub fn format_decimal(n: u64) -> (s: String)
    ensures
        s@ == decimal(n as nat),
{
    let mut s = String::new();
    push_decimal(&mut s, n);
    assert(s@ =~= decimal(n as nat));
    s
}

/// `str::parse::<u64>` restricted to `[0, max]`: the value of `s` when it is an
/// optional `+` followed by decimal digits whose value is at most `max`.
pub(crate) fn parse_bounded(s: &Vec<char>, max: u64) -> (r: Option<u64>)
    ensures
        match parse_unsigned(s@, max as nat) {
            Some(v) => r == Some(v as u64),
            None => r is None,
        },
{
    let n = s.len();
    let start: usize = if n > 0 && s[0] == '+' {
        1
    } else {
        0
    };
    let ghost body = if s@.len() > 0 && s@[0] == '+' {
        s@.drop_first()
    } else {
        s@
    };
    assert(body =~= s@.subrange(start as int, n as int));
    if start == n {
        return None;
    }
    let mut acc: u64 = 0;
    let mut i: usize = start;
    while i < n
        invariant
            start <= i <= n,
            n == s@.len(),
            start < n,
            body =~= s@.subrange(start as int, n as int),
            body == (if s@.len() > 0 && s@[0] == '+' {
                s@.drop_first()
            } else {
                s@
            }),
            acc as nat == digits_value(s@.subrange(start as int, i as int)),
            acc <= max,
            forall|k: int| start <= k < i ==> is_digit(#[trigger] s@[k]),
        decreases n - i,
    {
        let c = s[i];
        let ghost pre = s@.subrange(start as int, i as int);
        let ghost next = s@.subrange(start as int, i + 1);
        assert(next.drop_last() =~= pre);
        assert(next.last() == c);
        if !('0' <= c && c <= '9') {
            assert(body[i - start] == c);
            assert(!is_digit(body[i - start]));
            assert(!all_digits(body));
            return None;
        }
        let d = (c as u32 - 48) as u64;
        let wide: u128 = (acc as u128) * 10 + (d as u128);
        assert(digits_value(next) == acc * 10 + d);
        if wide > max as u128 {
            proof {
                if all_digits(body) {
                    lemma_prefix_value_bounds(body, (i + 1 - start) as nat);
                    assert(body.subrange(0, (i + 1 - start) as int) =~= next);
                    assert(digits_value(body) > max);
                }
            }
            return None;
        }
        acc = acc * 10 + d;
        i = i + 1;
    }
    assert(s@.subrange(start as int, n as int) =~= body);
    Some(acc)
}

/// The value of a digit run is at least the value of any of its prefixes.
proof fn lemma_prefix_value_bounds(s: Seq<char>, k: nat)
    requires
        k <= s.len(),
        forall|i: int| 0 <= i < s.len() ==> is_digit(#[trigger] s[i]),
    ensures
        digits_value(s) >= digits_value(s.subrange(0, k as int)),
    decreases s.len(),
{
    if k == s.len() {
        assert(s.subrange(0, k as int) =~= s);
    } else {
        lemma_prefix_value_bounds(s.drop_last(), k);
        assert(s.drop_last().subrange(0, k as int) =~= s.subrange(0, k as int));
    }
}

// ---------------------------------------------------------------------------
// Trimming and ASCII case
// ---------------------------------------------------------------------------

/// `s` without its leading whitespace.
pub open spec fn trim_start(s: Seq<char>) -> Seq<char>
    decreases s.len(),
{
    if s.len() > 0 && is_white(s[0]) {
        trim_start(s.drop_first())
    } else {
        s
    }
}

/// `s` without its trailing whitespace.
pub open spec fn trim_end(s: Seq<char>) -> Seq<char>
    decreases s.len(),
{
    if s.len() > 0 && is_white(s.last()) {
        trim_end(s.drop_last())
    } else {
        s
    }
}

/// `s` without its leading and trailing whitespace (`str::trim`).
pub open spec fn trimmed(s: Seq<char>) -> Seq<char> {
    trim_end(trim_start(s))
}

/// `str::trim` over a character sequence.
pub(crate) fn trim_chars(s: &Vec<char>) -> (t: Vec<char>)
    ensures
        t@ == trimmed(s@),
{
    let n = s.len();
    let mut i: usize = 0;
    assert(s@.subrange(0, n as int) =~= s@);
    while i < n && char_is_whitespace(s[i])
        invariant
            n == s@.len(),
            i <= n,
            trim_start(s@) == trim_start(s@.subrange(i as int, n as int)),
        decreases n - i,
    {
        assert(s@.subrange(i as int, n as int).drop_first() =~= s@.subrange(i + 1, n as int));
        i = i + 1;
    }
    let ghost u = s@.subrange(i as int, n as int);
    assert(trim_start(s@) == u);
    let mut j: usize = n;
    while j > i && char_is_whitespace(s[j - 1])
        invariant
            n == s@.len(),
            i <= j <= n,
            u == s@.subrange(i as int, n as int),
            trim_end(u) == trim_end(s@.subrange(i as int, j as int)),
        decreases j - i,
    {
        assert(s@.subrange(i as int, j as int).drop_last() =~= s@.subrange(i as int, j - 1));
        j = j - 1;
    }
    let mut t: Vec<char> = Vec::new();
    let mut k: usize = i;
    while k < j
        invariant
            n == s@.len(),
            i <= k <= j <= n,
            t@ == s@.subrange(i as int, k as int),
        decreases j - k,
    {
        t.push(s[k]);
        k = k + 1;
    }
    t
}

/// ASCII lower case of one character (`char::to_ascii_lowercase`).
pub open spec fn ascii_lower(c: char) -> char {
    if 'A' <= c && c <= 'Z' {
        (c as int + 32) as char
    } else {
        c
    }
}

/// ASCII lower case of every character.
pub open spec fn ascii_lower_seq(s: Seq<char>) -> Seq<char> {
    Seq::new(s.len(), |i: int| ascii_lower(s[i]))
}

/// Whether `a` and `b` are equal up to ASCII case (`str::eq_ignore_ascii_case`).
pub open spec fn eq_ignore_case(a: Seq<char>, b: Seq<char>) -> bool {
    ascii_lower_seq(a) == ascii_lower_seq(b)
}

pub(crate) fn lower_char(c: char) -> (l: char)
    ensures
        l == ascii_lower(c),
{
    if 'A' <= c && c <= 'Z' {
        let code = c as u32 + 32;
        assert(code < 0xD800);
        let l = char_from_ascii(code);
        l
    } else {
        c
    }
}

fn char_from_ascii(code: u32) -> (c: char)
    requires
        97 <= code <= 122,
    ensures
        c as int == code,
{
    let b = code as u8;
    let c = b as char;
    c
}

/// ASCII lower case of every character of `s`.
pub(crate) fn lower_chars(s: &Vec<char>) -> (t: Vec<char>)
    ensures
        t@ == ascii_lower_seq(s@),
{
    let mut t: Vec<char> = Vec::new();
    let mut i: usize = 0;
    while i < s.len()
        invariant
            i <= s.len(),
            t@.len() == i,
            forall|k: int| 0 <= k < i ==> t@[k] == ascii_lower(s@[k]),
        decreases s.len() - i,
    {
        let l = lower_char(s[i]);
        t.push(l);
        i = i + 1;
    }
    assert(t@ =~= ascii_lower_seq(s@));
    t
}

/// `str::eq_ignore_ascii_case` over character sequences.
pub(crate) fn chars_eq_ignore_case(a: &Vec<char>, b: &Vec<char>) -> (r: bool)
    ensures
        r == eq_ignore_case(a@, b@),
{
    if a.len() != b.len() {
        assert(ascii_lower_seq(a@).len() != ascii_lower_seq(b@).len());
        return false;
    }
    let mut i: usize = 0;
    while i < a.len()
        invariant
            a.len() == b.len(),
            i <= a.len(),
            forall|k: int| 0 <= k < i ==> ascii_lower(a@[k]) == ascii_lower(b@[k]),
        decreases a.len() - i,
    {
        let x = lower_char(a[i]);
        let y = lower_char(b[i]);
        if x != y {
            assert(ascii_lower_seq(a@)[i as int] != ascii_lower_seq(b@)[i as int]);
            return false;
        }
        i = i + 1;
    }
    assert(ascii_lower_seq(a@) =~= ascii_lower_seq(b@));
    true
}

/// Whether `v` equals the string literal-like sequence `lit`.
pub(crate) fn chars_eq(a: &Vec<char>, b: &Vec<char>) -> (r: bool)
    ensures
        r == (a@ == b@),
{
    if a.len() != b.len() {
        return false;
    }
    let mut i: usize = 0;
    while i < a.len()
        invariant
            a.len() == b.len(),
            i <= a.len(),
            forall|k: int| 0 <= k < i ==> a@[k] == b@[k],
        decreases a.len() - i,
    {
        if a[i] != b[i] {
            return false;
        }
        i = i + 1;
    }
    assert(a@ =~= b@);
    true
}


// ---------------------------------------------------------------------------
// Floating-point literals, as `str::parse` accepts them
// ---------------------------------------------------------------------------

/// Whether every character of `s` is an ASCII digit (`s` may be empty).
pub open spec fn digits_only(s: Seq<char>) -> bool {
    forall|i: int| 0 <= i < s.len() ==> is_digit(#[trigger] s[i])
}

/// `Digit+ | Digit+ '.' Digit* | Digit* '.' Digit+`: digits with at most one
/// point, and at least one digit.
pub open spec fn is_mantissa(t: Seq<char>) -> bool {
    ||| (t.len() > 0 && digits_only(t))
    ||| exists|p: int|
        0 <= p < t.len() && t[p] == '.' && digits_only(t.take(p)) && digits_only(t.skip(p + 1))
            && t.len() >= 2
}

/// `'e' Sign? Digit+`, the `e` in either case.
pub open spec fn is_exponent(e: Seq<char>) -> bool {
    &&& e.len() >= 2
    &&& (e[0] == 'e' || e[0] == 'E')
    &&& {
        let r = e.skip(1);
        let d = if r[0] == '+' || r[0] == '-' {
            r.skip(1)
        } else {
            r
        };
        d.len() > 0 && digits_only(d)
    }
}

/// A mantissa, optionally followed by an exponent.
pub open spec fn is_decimal_number(s: Seq<char>) -> bool {
    ||| is_mantissa(s)
    ||| exists|m: int| 0 < m < s.len() && is_mantissa(s.take(m)) && is_exponent(#[trigger] s.skip(m))
}

/// Whether `str::parse` reads `s` as a floating-point number: an optional sign,
/// then `inf`, `infinity` or `nan` in any ASCII case, or a decimal number (no
/// surrounding whitespace).
pub open spec fn float_text(s: Seq<char>) -> bool {
    let body = if s.len() > 0 && (s[0] == '+' || s[0] == '-') {
        s.skip(1)
    } else {
        s
    };
    ||| eq_ignore_case(body, "inf"@)
    ||| eq_ignore_case(body, "infinity"@)
    ||| eq_ignore_case(body, "nan"@)
    ||| is_decimal_number(body)
}

/// Whether `t` is a mantissa.
fn mantissa_ok(t: &Vec<char>, start: usize, end: usize) -> (b: bool)
    requires
        start <= end <= t@.len(),
    ensures
        b == is_mantissa(t@.subrange(start as int, end as int)),
{
    let ghost u = t@.subrange(start as int, end as int);
    let mut dot: Option<usize> = None;
    let mut i: usize = start;
    while i < end
        invariant
            start <= i <= end <= t@.len(),
            u == t@.subrange(start as int, end as int),
            forall|k: int| start <= k < i && t@[k] != '.' ==> is_digit(#[trigger] t@[k]),
            match dot {
                None => forall|k: int| start <= k < i ==> #[trigger] t@[k] != '.',
                Some(p) => start <= p < i && t@[p as int] == '.' && forall|k: int|
                    start <= k < i && k != p ==> #[trigger] t@[k] != '.',
            },
        decreases end - i,
    {
        let c = t[i];
        if c == '.' {
            if dot.is_some() {
                proof {
                    let p = dot.unwrap();
                    assert forall|q: int|
                        0 <= q < u.len() && u[q] == '.' && digits_only(u.take(q)) implies !digits_only(
                            u.skip(q + 1),
                        ) by {
                        if q + start < p {
                            assert(u.skip(q + 1)[p - start - q - 1] == '.');
                        } else if q + start == p {
                            assert(u.skip(q + 1)[i - start - q - 1] == '.');
                        } else {
                            assert(u.take(q)[p - start] == '.');
                        }
                    }
                    assert(u[p - start] == '.');
                    assert(!digits_only(u));
                }
                return false;
            }
            dot = Some(i);
        } else if !('0' <= c && c <= '9') {
            proof {
                assert(u[i - start] == c);
                assert(!digits_only(u));
                assert forall|q: int|
                    0 <= q < u.len() && u[q] == '.' && digits_only(u.take(q)) implies !digits_only(
                        u.skip(q + 1),
                    ) by {
                    if q + start < i {
                        assert(u.skip(q + 1)[i - start - q - 1] == c);
                    } else {
                        assert(u.take(q)[i - start] == c);
                    }
                }
            }
            return false;
        }
        i = i + 1;
    }
    match dot {
        None => {
            assert(digits_only(u));
            proof {
                assert forall|q: int| 0 <= q < u.len() implies u[q] != '.' by {
                    assert(t@[q + start] != '.');
                }
            }
            end > start
        },
        Some(p) => {
            proof {
                assert(u[p - start] == '.');
                assert(!digits_only(u));
                assert(digits_only(u.take(p - start)));
                assert(digits_only(u.skip(p - start + 1)));
            }
            end - start >= 2
        },
    }
}

/// Whether `t[start..end]` is an exponent.
fn exponent_ok(t: &Vec<char>, start: usize, end: usize) -> (b: bool)
    requires
        start <= end <= t@.len(),
    ensures
        b == is_exponent(t@.subrange(start as int, end as int)),
{
    let ghost e = t@.subrange(start as int, end as int);
    if end - start < 2 {
        return false;
    }
    if !(t[start] == 'e' || t[start] == 'E') {
        return false;
    }
    let ghost r = e.skip(1);
    let s1 = start + 1;
    let from = if t[s1] == '+' || t[s1] == '-' {
        s1 + 1
    } else {
        s1
    };
    let ghost d = if r[0] == '+' || r[0] == '-' {
        r.skip(1)
    } else {
        r
    };
    assert(d =~= t@.subrange(from as int, end as int));
    if from == end {
        return false;
    }
    let mut i: usize = from;
    while i < end
        invariant
            from <= i <= end <= t@.len(),
            d == t@.subrange(from as int, end as int),
            e == t@.subrange(start as int, end as int),
            e.len() >= 2,
            e[0] == 'e' || e[0] == 'E',
            r == e.skip(1),
            d == (if r[0] == '+' || r[0] == '-' {
                r.skip(1)
            } else {
                r
            }),
            forall|k: int| from <= k < i ==> is_digit(#[trigger] t@[k]),
        decreases end - i,
    {
        if !('0' <= t[i] && t[i] <= '9') {
            assert(d[i - from] == t@[i as int]);
            return false;
        }
        i = i + 1;
    }
    assert(digits_only(d)) by {
        assert forall|k: int| 0 <= k < d.len() implies is_digit(#[trigger] d[k]) by {
            assert(d[k] == t@[k + from]);
        }
    }
    true
}

/// A mantissa holds no `e`, so a decimal number splits at its first `e`.
proof fn lemma_split_at_first_e(s: Seq<char>, m: int, first: int)
    requires
        0 < m < s.len(),
        is_mantissa(s.take(m)),
        is_exponent(s.skip(m)),
        0 <= first <= s.len(),
        forall|k: int| 0 <= k < first ==> s[k] != 'e' && s[k] != 'E',
        first < s.len() ==> (s[first] == 'e' || s[first] == 'E'),
    ensures
        m == first,
{
    assert(s.skip(m)[0] == s[m]);
    if first < m {
        let t = s.take(m);
        assert(t[first] == s[first]);
        if t.len() > 0 && digits_only(t) {
            assert(is_digit(t[first]));
        } else {
            let p = choose|p: int|
                0 <= p < t.len() && t[p] == '.' && digits_only(t.take(p)) && digits_only(t.skip(p + 1))
                    && t.len() >= 2;
            if first < p {
                assert(t.take(p)[first] == t[first]);
                assert(is_digit(t.take(p)[first]));
            } else if first == p {
            } else {
                assert(t.skip(p + 1)[first - p - 1] == t[first]);
                assert(is_digit(t.skip(p + 1)[first - p - 1]));
            }
        }
    }
}

/// Whether `str::parse` reads `s` as a floating-point number.
pub(crate) fn is_float_text(s: &Vec<char>) -> (b: bool)
    ensures
        b == float_text(s@),
{
    let n = s.len();
    let start: usize = if n > 0 && (s[0] == '+' || s[0] == '-') {
        1
    } else {
        0
    };
    let ghost body = if s@.len() > 0 && (s@[0] == '+' || s@[0] == '-') {
        s@.skip(1)
    } else {
        s@
    };
    let mut b: Vec<char> = Vec::new();
    let mut i: usize = start;
    while i < n
        invariant
            start <= i <= n,
            n == s@.len(),
            b@ == s@.subrange(start as int, i as int),
        decreases n - i,
    {
        b.push(s[i]);
        i = i + 1;
    }
    assert(b@ =~= body);
    let inf = chars_of("inf");
    let infinity = chars_of("infinity");
    let nan = chars_of("nan");
    if chars_eq_ignore_case(&b, &inf) || chars_eq_ignore_case(&b, &infinity) || chars_eq_ignore_case(
        &b,
        &nan,
    ) {
        return true;
    }
    let len = b.len();
    let mut first: usize = 0;
    while first < len && b[first] != 'e' && b[first] != 'E'
        invariant
            first <= len,
            len == b@.len(),
            forall|k: int| 0 <= k < first ==> b@[k] != 'e' && b@[k] != 'E',
        decreases len - first,
    {
        first = first + 1;
    }
    assert(b@.subrange(0, len as int) =~= b@);
    if first == len {
        let ok = mantissa_ok(&b, 0, len);
        proof {
            if exists|m: int| 0 < m < body.len() && is_mantissa(body.take(m)) && is_exponent(
                #[trigger] body.skip(m),
            ) {
                let m = choose|m: int|
                    0 < m < body.len() && is_mantissa(body.take(m)) && is_exponent(#[trigger] body.skip(m));
                lemma_split_at_first_e(body, m, first as int);
            }
        }
        return ok;
    }
    let ok = mantissa_ok(&b, 0, first) && exponent_ok(&b, first, len);
    proof {
        assert(b@.subrange(0, first as int) =~= body.take(first as int));
        assert(b@.subrange(first as int, len as int) =~= body.skip(first as int));
        if is_mantissa(body) {
            // the mantissa alone holds no `e`
            let t = body;
            if t.len() > 0 && digits_only(t) {
                assert(is_digit(t[first as int]));
            } else {
                let p = choose|p: int|
                    0 <= p < t.len() && t[p] == '.' && digits_only(t.take(p)) && digits_only(t.skip(p + 1))
                        && t.len() >= 2;
                if (first as int) < p {
                    assert(t.take(p)[first as int] == t[first as int]);
                    assert(is_digit(t.take(p)[first as int]));
                } else if (first as int) > p {
                    assert(t.skip(p + 1)[first - p - 1] == t[first as int]);
                    assert(is_digit(t.skip(p + 1)[first - p - 1]));
                }
            }
        }
        if exists|m: int| 0 < m < body.len() && is_mantissa(body.take(m)) && is_exponent(
            #[trigger] body.skip(m),
        ) {
            let m = choose|m: int|
                0 < m < body.len() && is_mantissa(body.take(m)) && is_exponent(#[trigger] body.skip(m));
            lemma_split_at_first_e(body, m, first as int);
        }
        if ok {
            if first == 0 {
                assert(!is_mantissa(body.take(0)));
            }
            assert(is_exponent(body.skip(first as int)));
        }
    }
    ok
}

} // verus!
