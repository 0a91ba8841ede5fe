//! Character and string helpers shared by the display and export code:
//! Unicode whitespace, trimming, ASCII case folding, decimal rendering and
//! joining.
use vstd::prelude::*;

verus! {

/// The Unicode `White_Space` property, which `char::is_whitespace` and
/// `str::trim` use.
pub open spec fn is_space(c: char) -> bool {
    let n = c as u32;
    ||| (0x9 <= n && n <= 0xd)
    ||| n == 0x20
    ||| n == 0x85
    ||| n == 0xa0
    ||| n == 0x1680
    ||| (0x2000 <= n && n <= 0x200a)
    ||| n == 0x2028
    ||| n == 0x2029
    ||| n == 0x202f
    ||| n == 0x205f
    ||| n == 0x3000
}

/// Whether every character of `s` is whitespace (so that trimming leaves nothing).
pub open spec fn all_space(s: Seq<char>) -> bool {
    forall|i: int| 0 <= i < s.len() ==> is_space(#[trigger] s[i])
}

/// Number of leading whitespace characters.
pub open spec fn leading_space(s: Seq<char>) -> int
    decreases s.len(),
{
    if s.len() == 0 {
        0
    } else if is_space(s[0]) {
        1 + leading_space(s.drop_first())
    } else {
        0
    }
}

/// Number of trailing whitespace characters.
pub open spec fn trailing_space(s: Seq<char>) -> int
    decreases s.len(),
{
    if s.len() == 0 {
        0
    } else if is_space(s.last()) {
        1 + trailing_space(s.drop_last())
    } else {
        0
    }
}

/// `s` with trailing whitespace removed (`str::trim_end`).
pub open spec fn trim_end_spec(s: Seq<char>) -> Seq<char> {
    s.subrange(0, s.len() - trailing_space(s))
}

/// `s` with leading and trailing whitespace removed (`str::trim`).
pub open spec fn trim_spec(s: Seq<char>) -> Seq<char> {
    let t = trim_end_spec(s);
    t.subrange(leading_space(t), t.len() as int)
}

/// The ASCII decimal digit for `d` (0..=9).
pub open spec fn digit_char(d: int) -> char {
    (d + 48) as char
}

/// Decimal rendering of a natural number, as `Display` prints it.
pub open spec fn decimal(n: nat) -> Seq<char>
    decreases n,
{
    if n < 10 {
        seq![digit_char(n as int)]
    } else {
        decimal(n / 10).push(digit_char((n % 10) as int))
    }
}

/// Decimal rendering of an integer, with a leading `-` when negative.
pub open spec fn signed_decimal(n: int) -> Seq<char> {
    if n < 0 {
        seq!['-'] + decimal((-n) as nat)
    } else {
        decimal(n as nat)
    }
}

/// `n` rendered with at least two digits, zero-padded (`{:02}`).
pub open spec fn two_digits(n: nat) -> Seq<char> {
    if n < 10 {
        seq!['0', digit_char(n as int)]
    } else {
        decimal(n)
    }
}

/// ASCII lower-casing of one character (`char::to_ascii_lowercase`).
pub open spec fn ascii_lower(c: char) -> char {
    if 'A' <= c && c <= 'Z' {
        ((c as u32) + 32) as char
    } else {
        c
    }
}

/// Case-insensitive ASCII equality (`str::eq_ignore_ascii_case`).
pub open spec fn eq_ignore_ascii_case_spec(a: Seq<char>, b: Seq<char>) -> bool {
    &&& a.len() == b.len()
    &&& forall|i: int| 0 <= i < a.len() ==> ascii_lower(#[trigger] a[i]) == ascii_lower(b[i])
}

/// The elements of `parts` joined with `sep` between neighbours (`[String]::join`).
pub open spec fn join_spec(parts: Seq<Seq<char>>, sep: Seq<char>) -> Seq<char>
    decreases parts.len(),
{
    if parts.len() == 0 {
        Seq::empty()
    } else if parts.len() == 1 {
        parts[0]
    } else {
        join_spec(parts.drop_last(), sep) + sep + parts.last()
    }
}

/// Appends one character (`String::push`).
#[verifier::external_body]
pub(crate) fn push_char(s: &mut String, c: char)
    ensures
        final(s)@ == old(s)@.push(c),
{
    s.push(c);
}

/// Decides the Unicode `White_Space` property of a character.
pub fn is_whitespace(c: char) -> (r: bool)
    ensures
        r == is_space(c),
{
    let n = c as u32;
    (0x9 <= n && n <= 0xd) || n == 0x20 || n == 0x85 || n == 0xa0 || n == 0x1680 || (0x2000 <= n
        && n <= 0x200a) || n == 0x2028 || n == 0x2029 || n == 0x202f || n == 0x205f || n == 0x3000
}

/// The characters of a string slice, one per Unicode scalar value.
pub fn chars_of(s: &str) -> (r: Vec<char>)
    ensures
        r@ == s@,
{
    let mut out: Vec<char> = Vec::new();
    let n = s.unicode_len();
    let mut i: usize = 0;
    while i < n
        invariant
            n == s@.len(),
            i <= n,
            out@ == s@.subrange(0, i as int),
        decreases n - i,
    {
        let c = s.get_char(i);
        out.push(c);
        i = i + 1;
        assert(out@ =~= s@.subrange(0, i as int));
    }
    assert(out@ =~= s@);
    out
}

/// Builds a string from a vector of characters.
pub fn string_from_chars(cs: &Vec<char>) -> (r: String)
    ensures
        r@ == cs@,
{
    let mut out = String::new();
    let mut i: usize = 0;
    while i < cs.len()
        invariant
            i <= cs.len(),
            out@ == cs@.subrange(0, i as int),
        decreases cs.len() - i,
    {
        push_char(&mut out, cs[i]);
        i = i + 1;
        assert(out@ =~= cs@.subrange(0, i as int));
    }
    assert(out@ =~= cs@);
    out
}

/// Appends all characters of `t` to `s`.
pub fn push_str(s: &mut String, t: &str)
    ensures
        final(s)@ == old(s)@ + t@,
{
    s.append(t);
}

proof fn lemma_trailing_bounds(s: Seq<char>)
    ensures
        0 <= trailing_space(s) <= s.len(),
        forall|i: int| s.len() - trailing_space(s) <= i < s.len() ==> is_space(#[trigger] s[i]),
        trailing_space(s) < s.len() ==> !is_space(s[s.len() - trailing_space(s) - 1]),
    decreases s.len(),
{
    if s.len() > 0 && is_space(s.last()) {
        lemma_trailing_bounds(s.drop_last());
        assert forall|i: int| s.len() - trailing_space(s) <= i < s.len() implies is_space(
            #[trigger] s[i],
        ) by {
            if i < s.len() - 1 {
                assert(s[i] == s.drop_last()[i]);
            }
        }
        if trailing_space(s) < s.len() {
            assert(s[s.len() - trailing_space(s) - 1] == s.drop_last()[s.drop_last().len()
                - trailing_space(s.drop_last()) - 1]);
        }
    }
}

proof fn lemma_leading_bounds(s: Seq<char>)
    ensures
        0 <= leading_space(s) <= s.len(),
        forall|i: int| 0 <= i < leading_space(s) ==> is_space(#[trigger] s[i]),
        leading_space(s) < s.len() ==> !is_space(s[leading_space(s)]),
    decreases s.len(),
{
    if s.len() > 0 && is_space(s[0]) {
        lemma_leading_bounds(s.drop_first());
        assert forall|i: int| 0 <= i < leading_space(s) implies is_space(#[trigger] s[i]) by {
            if i > 0 {
                assert(s[i] == s.drop_first()[i - 1]);
            }
        }
        if leading_space(s) < s.len() {
            assert(s[leading_space(s)] == s.drop_first()[leading_space(s.drop_first())]);
        }
    }
}

/// A trailing run of whitespace of length `k` followed by a non-space (or the
/// start) is exactly what `trailing_space` counts.
proof fn lemma_trailing_exact(s: Seq<char>, k: int)
    requires
        0 <= k <= s.len(),
        forall|i: int| s.len() - k <= i < s.len() ==> is_space(#[trigger] s[i]),
        k < s.len() ==> !is_space(s[s.len() - k - 1]),
    ensures
        trailing_space(s) == k,
    decreases s.len(),
{
    if k > 0 {
        assert(is_space(s[s.len() - 1]));
        let t = s.drop_last();
        assert forall|i: int| t.len() - (k - 1) <= i < t.len() implies is_space(#[trigger] t[i]) by {
            assert(t[i] == s[i]);
        }
        if k - 1 < t.len() {
            assert(t[t.len() - (k - 1) - 1] == s[s.len() - k - 1]);
        }
        lemma_trailing_exact(t, k - 1);
    }
}

proof fn lemma_leading_exact(s: Seq<char>, k: int)
    requires
        0 <= k <= s.len(),
        forall|i: int| 0 <= i < k ==> is_space(#[trigger] s[i]),
        k < s.len() ==> !is_space(s[k]),
    ensures
        leading_space(s) == k,
    decreases s.len(),
{
    if k > 0 {
        assert(is_space(s[0]));
        let t = s.drop_first();
        assert forall|i: int| 0 <= i < k - 1 implies is_space(#[trigger] t[i]) by {
            assert(t[i] == s[i + 1]);
        }
        if k - 1 < t.len() {
            assert(t[k - 1] == s[k]);
        }
        lemma_leading_exact(t, k - 1);
    }
}

/// Trimming gives the empty string exactly when every character is whitespace.
pub proof fn lemma_trim_empty_iff_all_space(s: Seq<char>)
    ensures
        trim_spec(s).len() == 0 <==> all_space(s),
{
    lemma_trailing_bounds(s);
    let t = trim_end_spec(s);
    lemma_leading_bounds(t);
    if all_space(s) {
        lemma_trailing_exact(s, s.len() as int);
        assert(t.len() == 0);
    }
    if trim_spec(s).len() == 0 {
        assert forall|i: int| 0 <= i < s.len() implies is_space(#[trigger] s[i]) by {
            if i < t.len() {
                assert(t[i] == s[i]);
            }
        }
    }
}

/// A text that neither begins nor ends with whitespace is its own trim.
pub proof fn lemma_trim_fixed(s: Seq<char>)
    requires
        s.len() > 0,
        !is_space(s[0]),
        !is_space(s.last()),
    ensures
        trim_spec(s) == s,
{
    lemma_trailing_exact(s, 0);
    assert(trim_end_spec(s) =~= s);
    lemma_leading_exact(s, 0);
    assert(trim_spec(s) =~= s);
}

/// A trimmed text, when not empty, begins and ends with a non-space, so
/// trimming it again changes nothing.
pub proof fn lemma_trim_trimmed(s: Seq<char>)
    ensures
        trim_spec(s).len() > 0 ==> !is_space(trim_spec(s)[0]) && !is_space(trim_spec(s).last()),
        trim_spec(trim_spec(s)) == trim_spec(s),
{
    lemma_trailing_bounds(s);
    let e = trim_end_spec(s);
    lemma_leading_bounds(e);
    let t = trim_spec(s);
    if t.len() > 0 {
        assert(t[0] == e[leading_space(e)]);
        assert(t.last() == s[s.len() - trailing_space(s) - 1]);
        lemma_trim_fixed(t);
    } else {
        assert(trim_end_spec(t) =~= t);
        assert(trim_spec(t) =~= t);
    }
}

/// Removes leading and trailing Unicode whitespace (`str::trim`).
pub fn trim_chars(s: &Vec<char>) -> (r: Vec<char>)
    ensures
        r@ == trim_spec(s@),
{
    let n = s.len();
    let mut end = n;
    while end > 0 && is_whitespace(s[end - 1])
        invariant
            end <= n,
            n == s@.len(),
            forall|i: int| end <= i < n ==> is_space(#[trigger] s@[i]),
        decreases end,
    {
        end = end - 1;
    }
    proof {
        lemma_trailing_exact(s@, (n - end) as int);
    }
    let ghost t = trim_end_spec(s@);
    assert(t =~= s@.subrange(0, end as int));
    let mut start: usize = 0;
    while start < end && is_whitespace(s[start])
        invariant
            start <= end,
            end <= n,
            n == s@.len(),
            forall|i: int| 0 <= i < start ==> is_space(#[trigger] s@[i]),
        decreases end - start,
    {
        start = start + 1;
    }
    proof {
        assert forall|i: int| 0 <= i < start implies is_space(#[trigger] t[i]) by {
            assert(t[i] == s@[i]);
        }
        if start < end {
            assert(t[start as int] == s@[start as int]);
        }
        lemma_leading_exact(t, start as int);
    }
    let mut out: Vec<char> = Vec::new();
    let mut i = start;
    while i < end
        invariant
            start <= i <= end,
            end <= n,
            n == s@.len(),
            out@ == s@.subrange(start as int, i as int),
        decreases end - i,
    {
        out.push(s[i]);
        i = i + 1;
        assert(out@ =~= s@.subrange(start as int, i as int));
    }
    assert(out@ =~= trim_spec(s@));
    out
}

/// Whether a string is empty or only whitespace (`s.trim().is_empty()`).
pub fn is_blank(s: &str) -> (r: bool)
    ensures
        r == all_space(s@),
        r == (trim_spec(s@).len() == 0),
{
    proof {
        lemma_trim_empty_iff_all_space(s@);
    }
    let cs = chars_of(s);
    let mut i: usize = 0;
    while i < cs.len()
        invariant
            i <= cs.len(),
            cs@ == s@,
            trim_spec(s@).len() == 0 <==> all_space(s@),
            forall|j: int| 0 <= j < i ==> is_space(#[trigger] s@[j]),
        decreases cs.len() - i,
    {
        if !is_whitespace(cs[i]) {
            assert(!is_space(s@[i as int]));
            return false;
        }
        i = i + 1;
    }
    true
}

/// Trims a string slice into a new string (`s.trim().to_string()`).
pub fn trim_string(s: &str) -> (r: String)
    ensures
        r@ == trim_spec(s@),
{
    let cs = chars_of(s);
    let t = trim_chars(&cs);
    string_from_chars(&t)
}

/// Case-insensitive ASCII comparison (`str::eq_ignore_ascii_case`).
pub fn eq_ignore_ascii_case(a: &str, b: &str) -> (r: bool)
    ensures
        r == eq_ignore_ascii_case_spec(a@, b@),
{
    let x = chars_of(a);
    let y = chars_of(b);
    if x.len() != y.len() {
        return false;
    }
    let mut i: usize = 0;
    while i < x.len()
        invariant
            i <= x.len(),
            x.len() == y.len(),
            x@ == a@,
            y@ == b@,
            forall|j: int| 0 <= j < i ==> ascii_lower(#[trigger] a@[j]) == ascii_lower(b@[j]),
        decreases x.len() - i,
    {
        if to_ascii_lower(x[i]) != to_ascii_lower(y[i]) {
            return false;
        }
        i = i + 1;
    }
    true
}

/// ASCII lower-casing of one character.
pub fn to_ascii_lower(c: char) -> (r: char)
    ensures
        r == ascii_lower(c),
{
    if 'A' <= c && c <= 'Z' {
        let n = (c as u32) + 32;
        proof {
            assert(0x61 <= n <= 0x7a);
        }
        char_from_ascii(n)
    } else {
        c
    }
}

/// The character with the given ASCII code.
fn char_from_ascii(n: u32) -> (r: char)
    requires
        n < 128,
    ensures
        r == n as char,
{
    let b = n as u8;
    b as char
}

/// The ASCII digit for `d`.
pub fn digit(d: u64) -> (r: char)
    requires
        d < 10,
    ensures
        r == digit_char(d as int),
{
    char_from_ascii((d + 48) as u32)
}

/// Appends the decimal rendering of `n`.
pub fn push_decimal(s: &mut String, n: u64)
    ensures
        final(s)@ == old(s)@ + decimal(n as nat),
    decreases n,
{
    if n >= 10 {
        push_decimal(s, n / 10);
    }
    let ghost mid = s@;
    push_char(s, digit(n % 10));
    proof {
        if n >= 10 {
            assert(s@ =~= old(s)@ + decimal(n as nat));
        } else {
            assert(s@ =~= old(s)@ + decimal(n as nat));
        }
    }
}

/// Appends the decimal rendering of a signed number.
pub fn push_signed_decimal(s: &mut String, n: i64)
    ensures
        final(s)@ == old(s)@ + signed_decimal(n as int),
{
    if n < 0 {
        push_char(s, '-');
        let m: u64 = if n == i64::MIN {
            9223372036854775808u64
        } else {
            (-n) as u64
        };
        push_decimal(s, m);
        assert(s@ =~= old(s)@ + signed_decimal(n as int));
    } else {
        push_decimal(s, n as u64);
    }
}

/// Appends `n` with at least two digits (`{:02}`).
pub fn push_two_digits(s: &mut String, n: u64)
    ensures
        final(s)@ == old(s)@ + two_digits(n as nat),
{
    if n < 10 {
        push_char(s, '0');
        push_char(s, digit(n));
        assert(s@ =~= old(s)@ + two_digits(n as nat));
    } else {
        push_decimal(s, n);
    }
}

/// The decimal rendering of an unsigned number (`n.to_string()`).
pub fn decimal_string(n: u64) -> (r: String)
    ensures
        r@ == decimal(n as nat),
{
    let mut s = String::new();
    push_decimal(&mut s, n);
    assert(s@ =~= decimal(n as nat));
    s
}

/// Joins strings with a separator (`parts.join(sep)`).
pub fn join(parts: &Vec<String>, sep: &str) -> (r: String)
    ensures
        r@ == join_spec(parts@.map_values(|p: String| p@), sep@),
{
    let ghost views = parts@.map_values(|p: String| p@);
    let mut out = String::new();
    let mut i: usize = 0;
    while i < parts.len()
        invariant
            i <= parts.len(),
            views == parts@.map_values(|p: String| p@),
            out@ == join_spec(views.subrange(0, i as int), sep@),
        decreases parts.len() - i,
    {
        let ghost before = views.subrange(0, i as int);
        let ghost after = views.subrange(0, i + 1);
        assert(after.drop_last() =~= before);
        assert(after.last() == parts@[i as int]@);
        if i > 0 {
            push_str(&mut out, sep);
        }
        push_str(&mut out, parts[i].as_str());
        i = i + 1;
        proof {
            if i == 1 {
                assert(out@ =~= join_spec(after, sep@));
            }
        }
    }
    assert(views.subrange(0, parts.len() as int) =~= views);
    out
}

/// An ASCII decimal digit.
pub open spec fn is_digit(c: char) -> bool {
    '0' <= c && c <= '9'
}

/// Why a text is not a `usize` (`std::num::IntErrorKind`).
#[derive(Clone, Copy, Debug, PartialEq, Eq, Structural)]
pub enum ParseUsizeError {
    /// The text is empty.
    Empty,
    /// A character is not a digit (a lone `+` included).
    InvalidDigit,
    /// The value exceeds `usize::MAX`.
    PosOverflow,
}

/// Reading the digits `d` from left to right after the value `acc`: the
/// first non-digit is refused, and so is the first digit that takes the
/// value past `usize::MAX`.
pub open spec fn digits_scan(d: Seq<char>, acc: nat) -> Result<nat, ParseUsizeError>
    decreases d.len(),
{
    if d.len() == 0 {
        Ok(acc)
    } else if !is_digit(d[0]) {
        Err(ParseUsizeError::InvalidDigit)
    } else {
        let v = acc * 10 + ((d[0] as u32) - 48) as nat;
        if v > usize::MAX {
            Err(ParseUsizeError::PosOverflow)
        } else {
            digits_scan(d.drop_first(), v)
        }
    }
}

/// What `str::parse::<usize>` gives: an optional `+` followed by decimal
/// digits whose value fits in `usize`.
pub open spec fn usize_parse_spec(s: Seq<char>) -> Result<nat, ParseUsizeError> {
    if s.len() == 0 {
        Err(ParseUsizeError::Empty)
    } else if s[0] == '+' {
        if s.len() == 1 {
            Err(ParseUsizeError::InvalidDigit)
        } else {
            digits_scan(s.drop_first(), 0)
        }
    } else {
        digits_scan(s, 0)
    }
}

impl ParseUsizeError {
    /// The message `std` shows for this error.
    pub open spec fn message_spec(self) -> Seq<char> {
        match self {
            ParseUsizeError::Empty => "cannot parse integer from empty string"@,
            ParseUsizeError::InvalidDigit => "invalid digit found in string"@,
            ParseUsizeError::PosOverflow => "number too large to fit in target type"@,
        }
    }

    /// The message `std` shows for this error.
    pub fn message(&self) -> (r: String)
        ensures
            r@ == self.message_spec(),
    {
        match self {
            ParseUsizeError::Empty => String::from_str("cannot parse integer from empty string"),
            ParseUsizeError::InvalidDigit => String::from_str("invalid digit found in string"),
            ParseUsizeError::PosOverflow => String::from_str("number too large to fit in target type"),
        }
    }
}

/// The value that a scan of digits accepts fits in `usize`.
pub proof fn lemma_digits_scan_fits(d: Seq<char>, acc: nat)
    requires
        acc <= usize::MAX,
    ensures
        digits_scan(d, acc) matches Ok(v) ==> v <= usize::MAX,
    decreases d.len(),
{
    if d.len() > 0 && is_digit(d[0]) {
        let v = acc * 10 + ((d[0] as u32) - 48) as nat;
        if v <= usize::MAX {
            lemma_digits_scan_fits(d.drop_first(), v);
        }
    }
}

/// Parses a `usize` as `str::parse::<usize>` does.
pub fn parse_usize(s: &str) -> (r: Result<usize, ParseUsizeError>)
    ensures
        usize_parse_spec(s@) matches Ok(v) ==> v <= usize::MAX,
        match usize_parse_spec(s@) {
            Ok(v) => r == Ok::<usize, ParseUsizeError>(v as usize),
            Err(e) => r == Err::<usize, ParseUsizeError>(e),
        },
{
    proof {
        if s@.len() > 0 && s@[0] == '+' {
            lemma_digits_scan_fits(s@.drop_first(), 0);
        } else {
            lemma_digits_scan_fits(s@, 0);
        }
    }
    let cs = chars_of(s);
    if cs.len() == 0 {
        return Err(ParseUsizeError::Empty);
    }
    let mut i: usize = 0;
    if cs[0] == '+' {
        if cs.len() == 1 {
            return Err(ParseUsizeError::InvalidDigit);
        }
        i = 1;
    }
    proof {
        if i == 1 {
            assert(cs@.skip(1) =~= s@.drop_first());
        } else {
            assert(cs@.skip(0) =~= s@);
        }
    }
    let mut acc: usize = 0;
    while i < cs.len()
        invariant
            i <= cs.len(),
            cs@ == s@,
            usize_parse_spec(s@) == digits_scan(cs@.skip(i as int), acc as nat),
        decreases cs.len() - i,
    {
        let ghost rest = cs@.skip(i as int);
        assert(rest[0] == cs@[i as int]);
        assert(rest.drop_first() =~= cs@.skip(i + 1));
        let c = cs[i];
        if !('0' <= c && c <= '9') {
            return Err(ParseUsizeError::InvalidDigit);
        }
        let digit = (c as u32 - 48) as usize;
        if acc > (usize::MAX - digit) / 10 {
            assert(acc * 10 + digit > usize::MAX) by (nonlinear_arith)
                requires
                    acc > (usize::MAX - digit) / 10,
                    digit <= 9,
            ;
            return Err(ParseUsizeError::PosOverflow);
        }
        assert(acc * 10 + digit <= usize::MAX) by (nonlinear_arith)
            requires
                acc <= (usize::MAX - digit) / 10,
                digit <= 9,
        ;
        acc = acc * 10 + digit;
        i = i + 1;
    }
    assert(cs@.skip(cs.len() as int) =~= Seq::<char>::empty());
    Ok(acc)
}

/// A text split at every `sep` (`str::split(sep)`); an empty text gives one
/// empty piece.
pub open spec fn split_on(s: Seq<char>, sep: char) -> Seq<Seq<char>>
    decreases s.len(),
{
    if s.len() == 0 {
        seq![Seq::empty()]
    } else {
        let parts = split_on(s.drop_last(), sep);
        if s.last() == sep {
            parts.push(Seq::empty())
        } else {
            parts.update(parts.len() - 1, parts.last().push(s.last()))
        }
    }
}

/// Splits a text at every `sep` (`str::split(sep)`).
pub fn split_on_char(text: &str, sep: char) -> (r: Vec<String>)
    ensures
        r@.map_values(|p: String| p@) == split_on(text@, sep),
{
    let cs = chars_of(text);
    let mut parts: Vec<String> = Vec::new();
    let mut current: Vec<char> = Vec::new();
    let mut i: usize = 0;
    while i < cs.len()
        invariant
            i <= cs.len(),
            cs@ == text@,
            parts@.map_values(|p: String| p@).push(current@) == split_on(cs@.take(i as int), sep),
        decreases cs.len() - i,
    {
        let ghost pre = cs@.take(i + 1);
        assert(pre.drop_last() =~= cs@.take(i as int));
        let c = cs[i];
        let ghost before = parts@.map_values(|p: String| p@);
        let ghost old_cur = current@;
        if c == sep {
            let done = string_from_chars(&current);
            parts.push(done);
            current = Vec::new();
            assert(parts@.map_values(|p: String| p@) =~= before.push(old_cur));
            assert(parts@.map_values(|p: String| p@).push(current@) =~= before.push(old_cur).push(
                Seq::empty(),
            ));
        } else {
            current.push(c);
            assert(before.push(current@) =~= before.push(old_cur).update(
                before.len() as int,
                old_cur.push(c),
            ));
        }
        i = i + 1;
    }
    assert(cs@.take(cs.len() as int) =~= cs@);
    let ghost before = parts@.map_values(|p: String| p@);
    let last = string_from_chars(&current);
    parts.push(last);
    assert(parts@.map_values(|p: String| p@) =~= before.push(current@));
    parts
}

/// `s` without its trailing `\r` and `\n` characters
/// (`trim_end_matches(&['\r', '\n'][..])`).
pub open spec fn strip_line_end(s: Seq<char>) -> Seq<char>
    decreases s.len(),
{
    if s.len() > 0 && (s.last() == '\r' || s.last() == '\n') {
        strip_line_end(s.drop_last())
    } else {
        s
    }
}

/// Removes trailing `\r` and `\n` characters.
pub fn strip_line_end_text(s: &str) -> (r: String)
    ensures
        r@ == strip_line_end(s@),
{
    let cs = chars_of(s);
    let mut n = cs.len();
    assert(cs@.take(n as int) =~= s@);
    while n > 0 && (cs[n - 1] == '\r' || cs[n - 1] == '\n')
        invariant
            n <= cs.len(),
            cs@ == s@,
            strip_line_end(s@) == strip_line_end(cs@.take(n as int)),
        decreases n,
    {
        assert(cs@.take(n as int).drop_last() =~= cs@.take(n - 1));
        n = n - 1;
    }
    let mut out: Vec<char> = Vec::new();
    let mut i: usize = 0;
    while i < n
        invariant
            i <= n <= cs.len(),
            out@ == cs@.take(i as int),
        decreases n - i,
    {
        out.push(cs[i]);
        i = i + 1;
        assert(out@ =~= cs@.take(i as int));
    }
    string_from_chars(&out)
}

/// Whether two texts are equal, character by character.
pub fn text_equal(a: &str, b: &str) -> (r: bool)
    ensures
        r == (a@ == b@),
{
    let x = chars_of(a);
    let y = chars_of(b);
    if x.len() != y.len() {
        return false;
    }
    let mut i: usize = 0;
    while i < x.len()
        invariant
            i <= x.len(),
            x.len() == y.len(),
            x@ == a@,
            y@ == b@,
            forall|k: int| 0 <= k < i ==> x@[k] == y@[k],
        decreases x.len() - i,
    {
        if x[i] != y[i] {
            return false;
        }
        i = i + 1;
    }
    assert(x@ =~= y@);
    true
}

/// What `str::parse::<bool>` gives: `true` or `false` exactly, else nothing.
pub open spec fn bool_parse_spec(s: Seq<char>) -> Option<bool> {
    if s == "true"@ {
        Some(true)
    } else if s == "false"@ {
        Some(false)
    } else {
        None
    }
}

/// Parses `true` or `false` as `str::parse::<bool>` does.
pub fn parse_bool(s: &str) -> (r: Option<bool>)
    ensures
        r == bool_parse_spec(s@),
{
    if text_equal(s, "true") {
        Some(true)
    } else if text_equal(s, "false") {
        Some(false)
    } else {
        None
    }
}

} // verus!
