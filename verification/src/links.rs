//! Predecessor link notation, as the planning engine prints it: a list of
//! links separated by `;` or `,`, each a task number optionally followed by
//! a relation (`FS`, `FF`, `SS`, `SF`) and a lag such as `+2d` or `-4.5h`.
use crate::text::{ascii_lower, chars_of, is_digit, push_str, string_from_chars, trim_chars, trim_spec};
use vstd::prelude::*;

verus! {

/// How a link ties the successor to its predecessor.
#[derive(Clone, Copy, PartialEq, Eq, Debug)]
pub enum DependencyRelation {
    /// Finish to start.
    Fs,
    /// Finish to finish.
    Ff,
    /// Start to start.
    Ss,
    /// Start to finish.
    Sf,
}

/// A lag as written: its sign, its decimal amount (digits with at most one
/// point) and the length of its unit in milliseconds. The lag in
/// milliseconds is `amount * unit_millis`, negated when `negative`, rounded
/// to the nearest whole number.
#[derive(Clone, Debug)]
pub struct LagSpec {
    pub negative: bool,
    pub amount: String,
    pub unit_millis: u32,
}

/// One predecessor link; `lag` is `None` when none was written.
#[derive(Clone, Debug)]
pub struct DependencyLink {
    pub predecessor: usize,
    pub relation: DependencyRelation,
    pub lag: Option<LagSpec>,
}

/// Why a link text was refused; each carries the offending text.
#[derive(Clone, Debug)]
pub enum LinkError {
    /// The link does not start with a task number.
    MissingPredecessor(String),
    /// The task number does not fit in a `usize`.
    PredecessorTooLarge(String),
    /// The text after the number is not a known relation.
    UnknownRelation(String),
    /// The lag amount is not a decimal number.
    InvalidLagValue(String),
    /// The lag unit is missing or unknown.
    InvalidLagUnit(String),
}

/// The kinds of [`LinkError`], for specifications.
#[derive(PartialEq, Eq)]
pub enum LinkErrorKind {
    MissingPredecessor,
    PredecessorTooLarge,
    UnknownRelation,
    InvalidLagValue,
    InvalidLagUnit,
}

impl LinkError {
    /// The kind and the text of the error.
    pub open spec fn kind_text(self) -> (LinkErrorKind, Seq<char>) {
        match self {
            LinkError::MissingPredecessor(t) => (LinkErrorKind::MissingPredecessor, t@),
            LinkError::PredecessorTooLarge(t) => (LinkErrorKind::PredecessorTooLarge, t@),
            LinkError::UnknownRelation(t) => (LinkErrorKind::UnknownRelation, t@),
            LinkError::InvalidLagValue(t) => (LinkErrorKind::InvalidLagValue, t@),
            LinkError::InvalidLagUnit(t) => (LinkErrorKind::InvalidLagUnit, t@),
        }
    }
}

/// The specification-level content of a lag: sign, amount text and
/// milliseconds per unit.
pub type LagView = (bool, Seq<char>, u32);

/// The specification-level content of a link.
pub type LinkView = (nat, DependencyRelation, Option<LagView>);

impl LagSpec {
    pub open spec fn view_of(self) -> LagView {
        (self.negative, self.amount@, self.unit_millis)
    }
}

impl DependencyLink {
    pub open spec fn view_of(self) -> LinkView {
        (
            self.predecessor as nat,
            self.relation,
            match self.lag {
                Some(l) => Some(l.view_of()),
                None => None,
            },
        )
    }
}

/// Number of leading ASCII digits.
pub open spec fn digit_prefix(s: Seq<char>) -> int
    decreases s.len(),
{
    if s.len() > 0 && is_digit(s[0]) {
        1 + digit_prefix(s.drop_first())
    } else {
        0
    }
}

/// The value of a string of decimal digits.
pub open spec fn digits_value(s: Seq<char>) -> nat
    decreases s.len(),
{
    if s.len() == 0 {
        0
    } else {
        digits_value(s.drop_last()) * 10 + ((s.last() as u32) - 48) as nat
    }
}

/// Number of leading `+` and `-` characters.
pub open spec fn sign_prefix(s: Seq<char>) -> int
    decreases s.len(),
{
    if s.len() > 0 && (s[0] == '+' || s[0] == '-') {
        1 + sign_prefix(s.drop_first())
    } else {
        0
    }
}

/// Number of leading characters that are ASCII digits or `.`.
pub open spec fn number_prefix(s: Seq<char>) -> int
    decreases s.len(),
{
    if s.len() > 0 && (is_digit(s[0]) || s[0] == '.') {
        1 + number_prefix(s.drop_first())
    } else {
        0
    }
}

/// Number of `.` characters.
pub open spec fn dot_count(s: Seq<char>) -> nat
    decreases s.len(),
{
    if s.len() == 0 {
        0
    } else {
        dot_count(s.drop_last()) + if s.last() == '.' {
            1nat
        } else {
            0nat
        }
    }
}

/// Whether a string of digits and points is a decimal literal that
/// `f64::from_str` accepts: `Digit+`, `Digit+ '.' Digit*` or
/// `Digit* '.' Digit+`, that is non-empty, at most one point, and not the
/// point alone.
pub open spec fn decimal_literal_ok(s: Seq<char>) -> bool {
    s.len() > 0 && dot_count(s) <= 1 && s != seq!['.']
}

/// The length in milliseconds of a lag unit, chosen by its first letters
/// after ASCII lower-casing: `ms`, `s`, `m`, `h` or `d`.
pub open spec fn unit_millis_spec(unit: Seq<char>) -> Option<u32> {
    if unit.len() >= 2 && ascii_lower(unit[0]) == 'm' && ascii_lower(unit[1]) == 's' {
        Some(1)
    } else if unit.len() >= 1 && ascii_lower(unit[0]) == 's' {
        Some(1000)
    } else if unit.len() >= 1 && ascii_lower(unit[0]) == 'm' {
        Some(60000)
    } else if unit.len() >= 1 && ascii_lower(unit[0]) == 'h' {
        Some(3600000)
    } else if unit.len() >= 1 && ascii_lower(unit[0]) == 'd' {
        Some(86400000)
    } else {
        None
    }
}

/// Parse of a lag text such as `+2d` or `-4.5 hours`.
pub open spec fn lag_spec(text: Seq<char>) -> Result<LagView, (LinkErrorKind, Seq<char>)> {
    let t = trim_spec(text);
    let negative = t.len() > 0 && t[0] == '-';
    let numeric = t.skip(sign_prefix(t));
    let k = number_prefix(numeric);
    let number = numeric.take(k);
    let unit = trim_spec(numeric.skip(k));
    if !decimal_literal_ok(number) {
        Err((LinkErrorKind::InvalidLagValue, t))
    } else {
        match unit_millis_spec(unit) {
            None => Err((LinkErrorKind::InvalidLagUnit, t)),
            Some(ms) => Ok((negative, number, ms)),
        }
    }
}

/// The relation written at the start of `rest`, if it is a known one.
pub open spec fn relation_spec(rest: Seq<char>) -> Option<DependencyRelation> {
    if rest.len() >= 2 && rest[0] == 'F' && rest[1] == 'S' {
        Some(DependencyRelation::Fs)
    } else if rest.len() >= 2 && rest[0] == 'F' && rest[1] == 'F' {
        Some(DependencyRelation::Ff)
    } else if rest.len() >= 2 && rest[0] == 'S' && rest[1] == 'S' {
        Some(DependencyRelation::Ss)
    } else if rest.len() >= 2 && rest[0] == 'S' && rest[1] == 'F' {
        Some(DependencyRelation::Sf)
    } else {
        None
    }
}

/// Parse of one link text such as `12`, `12FS` or `12SS+2d`. A bare number
/// is a finish-to-start link without lag.
pub open spec fn link_spec(text: Seq<char>) -> Result<LinkView, (LinkErrorKind, Seq<char>)> {
    let k = digit_prefix(text);
    if k == 0 {
        Err((LinkErrorKind::MissingPredecessor, text))
    } else if digits_value(text.take(k)) > usize::MAX {
        Err((LinkErrorKind::PredecessorTooLarge, text))
    } else {
        let pred = digits_value(text.take(k));
        let rest = trim_spec(text.skip(k));
        if rest.len() == 0 {
            Ok((pred, DependencyRelation::Fs, None))
        } else {
            match relation_spec(rest) {
                None => Err((LinkErrorKind::UnknownRelation, text)),
                Some(rel) => {
                    let lag_text = trim_spec(rest.skip(2));
                    if lag_text.len() == 0 {
                        Ok((pred, rel, None))
                    } else {
                        match lag_spec(lag_text) {
                            Err(e) => Err(e),
                            Ok(l) => Ok((pred, rel, Some(l))),
                        }
                    }
                },
            }
        }
    }
}

/// A link list split at every `;` and `,`.
pub open spec fn split_links(s: Seq<char>) -> Seq<Seq<char>>
    decreases s.len(),
{
    if s.len() == 0 {
        seq![Seq::empty()]
    } else {
        let parts = split_links(s.drop_last());
        let c = s.last();
        if c == ';' || c == ',' {
            parts.push(Seq::empty())
        } else {
            parts.update(parts.len() - 1, parts.last().push(c))
        }
    }
}

/// Parse of the pieces of a link list: blank pieces are skipped and the
/// first refused piece decides the error.
pub open spec fn pieces_spec(ps: Seq<Seq<char>>) -> Result<Seq<LinkView>, (LinkErrorKind, Seq<char>)>
    decreases ps.len(),
{
    if ps.len() == 0 {
        Ok(Seq::empty())
    } else {
        let link = trim_spec(ps[0]);
        if link.len() == 0 {
            pieces_spec(ps.drop_first())
        } else {
            match link_spec(link) {
                Err(e) => Err(e),
                Ok(l) => match pieces_spec(ps.drop_first()) {
                    Err(e) => Err(e),
                    Ok(rest) => Ok(seq![l] + rest),
                },
            }
        }
    }
}

/// Parse of a whole link list; a blank list has no links.
pub open spec fn links_spec(text: Seq<char>) -> Result<Seq<LinkView>, (LinkErrorKind, Seq<char>)> {
    if trim_spec(text).len() == 0 {
        Ok(Seq::empty())
    } else {
        pieces_spec(split_links(text))
    }
}

/// The relation code of the MSPDI project format: FF 0, FS 1, SF 2, SS 3.
pub open spec fn relation_code(relation: DependencyRelation) -> int {
    match relation {
        DependencyRelation::Ff => 0,
        DependencyRelation::Fs => 1,
        DependencyRelation::Sf => 2,
        DependencyRelation::Ss => 3,
    }
}

/// The relation code of the MSPDI project format.
pub fn predecessor_type_code(relation: DependencyRelation) -> (r: i32)
    ensures
        r == relation_code(relation),
{
    match relation {
        DependencyRelation::Ff => 0,
        DependencyRelation::Fs => 1,
        DependencyRelation::Sf => 2,
        DependencyRelation::Ss => 3,
    }
}

fn is_ascii_digit(c: char) -> (r: bool)
    ensures
        r == is_digit(c),
{
    '0' <= c && c <= '9'
}

proof fn lemma_digit_prefix(s: Seq<char>)
    ensures
        0 <= digit_prefix(s) <= s.len(),
        forall|i: int| 0 <= i < digit_prefix(s) ==> is_digit(#[trigger] s[i]),
        digit_prefix(s) < s.len() ==> !is_digit(s[digit_prefix(s)]),
    decreases s.len(),
{
    if s.len() > 0 && is_digit(s[0]) {
        lemma_digit_prefix(s.drop_first());
        assert forall|i: int| 0 <= i < digit_prefix(s) implies is_digit(#[trigger] s[i]) by {
            if i > 0 {
                assert(s[i] == s.drop_first()[i - 1]);
            }
        }
        if digit_prefix(s) < s.len() {
            assert(s[digit_prefix(s)] == s.drop_first()[digit_prefix(s.drop_first())]);
        }
    }
}

proof fn lemma_number_prefix(s: Seq<char>)
    ensures
        0 <= number_prefix(s) <= s.len(),
        forall|i: int| 0 <= i < number_prefix(s) ==> is_digit(#[trigger] s[i]) || s[i] == '.',
        number_prefix(s) < s.len() ==> !(is_digit(s[number_prefix(s)]) || s[number_prefix(s)] == '.'),
    decreases s.len(),
{
    if s.len() > 0 && (is_digit(s[0]) || s[0] == '.') {
        lemma_number_prefix(s.drop_first());
        assert forall|i: int| 0 <= i < number_prefix(s) implies is_digit(#[trigger] s[i]) || s[i] == '.' by {
            if i > 0 {
                assert(s[i] == s.drop_first()[i - 1]);
            }
        }
        if number_prefix(s) < s.len() {
            assert(s[number_prefix(s)] == s.drop_first()[number_prefix(s.drop_first())]);
        }
    }
}

proof fn lemma_sign_prefix(s: Seq<char>)
    ensures
        0 <= sign_prefix(s) <= s.len(),
        forall|i: int| 0 <= i < sign_prefix(s) ==> (#[trigger] s[i] == '+' || s[i] == '-'),
        sign_prefix(s) < s.len() ==> !(s[sign_prefix(s)] == '+' || s[sign_prefix(s)] == '-'),
    decreases s.len(),
{
    if s.len() > 0 && (s[0] == '+' || s[0] == '-') {
        lemma_sign_prefix(s.drop_first());
        assert forall|i: int| 0 <= i < sign_prefix(s) implies (#[trigger] s[i] == '+' || s[i] == '-') by {
            if i > 0 {
                assert(s[i] == s.drop_first()[i - 1]);
            }
        }
        if sign_prefix(s) < s.len() {
            assert(s[sign_prefix(s)] == s.drop_first()[sign_prefix(s.drop_first())]);
        }
    }
}

/// A run of `k` leading characters with a property, ended by one without it,
/// is what the prefix counters count.
proof fn lemma_prefix_exact(s: Seq<char>, k: int, which: int)
    requires
        0 <= k <= s.len(),
        0 <= which <= 2,
        which == 0 ==> forall|i: int| 0 <= i < k ==> is_digit(#[trigger] s[i]),
        which == 0 ==> (k < s.len() ==> !is_digit(s[k])),
        which == 1 ==> forall|i: int| 0 <= i < k ==> (#[trigger] s[i] == '+' || s[i] == '-'),
        which == 1 ==> (k < s.len() ==> !(s[k] == '+' || s[k] == '-')),
        which == 2 ==> forall|i: int| 0 <= i < k ==> is_digit(#[trigger] s[i]) || s[i] == '.',
        which == 2 ==> (k < s.len() ==> !(is_digit(s[k]) || s[k] == '.')),
    ensures
        which == 0 ==> digit_prefix(s) == k,
        which == 1 ==> sign_prefix(s) == k,
        which == 2 ==> number_prefix(s) == k,
    decreases k,
{
    if k > 0 {
        let t = s.drop_first();
        assert forall|i: int| 0 <= i < k - 1 implies t[i] == s[i + 1] by {}
        if k - 1 < t.len() {
            assert(t[k - 1] == s[k]);
        }
        lemma_prefix_exact(t, k - 1, which);
    }
}

/// The value of the decimal digits `s[0..n)`, or `None` when it exceeds `usize::MAX`.
fn parse_digits(s: &Vec<char>, n: usize) -> (r: Option<usize>)
    requires
        n <= s.len(),
        forall|i: int| 0 <= i < n ==> is_digit(#[trigger] s@[i]),
    ensures
        match r {
            Some(v) => v == digits_value(s@.take(n as int)),
            None => digits_value(s@.take(n as int)) > usize::MAX,
        },
{
    let mut v: usize = 0;
    let mut i: usize = 0;
    while i < n
        invariant
            i <= n,
            n <= s.len(),
            forall|i: int| 0 <= i < n ==> is_digit(#[trigger] s@[i]),
            v == digits_value(s@.take(i as int)),
        decreases n - i,
    {
        let d = (s[i] as u32 - 48) as usize;
        proof {
            assert(is_digit(s@[i as int]));
            let pre = s@.take(i + 1);
            assert(pre.drop_last() =~= s@.take(i as int));
            assert(pre.last() == s@[i as int]);
        }
        if v > (usize::MAX - d) / 10 {
            proof {
                lemma_digits_value_grows(s@, i as int, n as int);
            }
            return None;
        }
        v = v * 10 + d;
        i = i + 1;
    }
    Some(v)
}

/// Appending digits never makes a decimal value smaller.
proof fn lemma_digits_value_grows(s: Seq<char>, i: int, n: int)
    requires
        0 <= i < n <= s.len(),
        forall|k: int| 0 <= k < n ==> is_digit(#[trigger] s[k]),
    ensures
        digits_value(s.take(n)) >= digits_value(s.take(i + 1)),
    decreases n - i,
{
    if n > i + 1 {
        lemma_digits_value_grows(s, i, n - 1);
        let pre = s.take(n);
        assert(pre.drop_last() =~= s.take(n - 1));
    }
}

/// The number of `.` among `s[0..n)`.
fn count_dots(s: &Vec<char>, n: usize) -> (r: usize)
    requires
        n <= s.len(),
    ensures
        r == dot_count(s@.take(n as int)),
{
    let mut c: usize = 0;
    let mut i: usize = 0;
    while i < n
        invariant
            i <= n,
            n <= s.len(),
            c == dot_count(s@.take(i as int)),
            c <= i,
        decreases n - i,
    {
        proof {
            let pre = s@.take(i + 1);
            assert(pre.drop_last() =~= s@.take(i as int));
        }
        if s[i] == '.' {
            c = c + 1;
        }
        i = i + 1;
    }
    c
}

/// The sub-vector `s[from..to)`.
fn slice_chars(s: &Vec<char>, from: usize, to: usize) -> (r: Vec<char>)
    requires
        from <= to <= s.len(),
    ensures
        r@ == s@.subrange(from as int, to as int),
{
    let mut out: Vec<char> = Vec::new();
    let mut i = from;
    while i < to
        invariant
            from <= i <= to,
            to <= s.len(),
            out@ == s@.subrange(from as int, i as int),
        decreases to - i,
    {
        out.push(s[i]);
        i = i + 1;
        assert(out@ =~= s@.subrange(from as int, i as int));
    }
    out
}

/// Parses a lag text such as `+2d` or `-4.5 hours`.
pub fn parse_dependency_lag(text: &str) -> (r: Result<LagSpec, LinkError>)
    ensures
        match lag_spec(text@) {
            Ok(v) => r matches Ok(l) && l.view_of() == v,
            Err(e) => r matches Err(x) && x.kind_text() == e,
        },
{
    let raw = chars_of(text);
    let t = trim_chars(&raw);
    let t_text = string_from_chars(&t);
    let negative = t.len() > 0 && t[0] == '-';
    let mut s: usize = 0;
    while s < t.len() && (t[s] == '+' || t[s] == '-')
        invariant
            s <= t.len(),
            forall|i: int| 0 <= i < s ==> (#[trigger] t@[i] == '+' || t@[i] == '-'),
        decreases t.len() - s,
    {
        s = s + 1;
    }
    proof {
        lemma_prefix_exact(t@, s as int, 1);
    }
    let numeric = slice_chars(&t, s, t.len());
    assert(numeric@ =~= t@.skip(s as int));
    let mut k: usize = 0;
    while k < numeric.len() && (is_ascii_digit(numeric[k]) || numeric[k] == '.')
        invariant
            k <= numeric.len(),
            forall|i: int| 0 <= i < k ==> is_digit(#[trigger] numeric@[i]) || numeric@[i] == '.',
        decreases numeric.len() - k,
    {
        k = k + 1;
    }
    proof {
        lemma_prefix_exact(numeric@, k as int, 2);
    }
    let number = slice_chars(&numeric, 0, k);
    assert(number@ =~= numeric@.take(k as int));
    let unit_raw = slice_chars(&numeric, k, numeric.len());
    assert(unit_raw@ =~= numeric@.skip(k as int));
    let unit = trim_chars(&unit_raw);
    let dots = count_dots(&number, number.len());
    assert(number@.take(number.len() as int) =~= number@);
    let literal_ok = number.len() > 0 && dots <= 1 && !(number.len() == 1 && number[0] == '.');
    proof {
        if number.len() == 1 && number@[0] == '.' {
            assert(number@ =~= seq!['.']);
        }
        if number@ == seq!['.'] {
            assert(number@[0] == '.');
        }
    }
    if !literal_ok {
        return Err(LinkError::InvalidLagValue(t_text));
    }
    let ms: u32 = if unit.len() >= 2 && crate::text::to_ascii_lower(unit[0]) == 'm'
        && crate::text::to_ascii_lower(unit[1]) == 's' {
        1
    } else if unit.len() >= 1 && crate::text::to_ascii_lower(unit[0]) == 's' {
        1000
    } else if unit.len() >= 1 && crate::text::to_ascii_lower(unit[0]) == 'm' {
        60000
    } else if unit.len() >= 1 && crate::text::to_ascii_lower(unit[0]) == 'h' {
        3600000
    } else if unit.len() >= 1 && crate::text::to_ascii_lower(unit[0]) == 'd' {
        86400000
    } else {
        return Err(LinkError::InvalidLagUnit(t_text));
    };
    Ok(LagSpec { negative, amount: string_from_chars(&number), unit_millis: ms })
}

/// Parses one link text such as `12`, `12FS` or `12SS+2d`.
pub fn parse_dependency_link(text: &str) -> (r: Result<DependencyLink, LinkError>)
    ensures
        match link_spec(text@) {
            Ok(v) => r matches Ok(l) && l.view_of() == v,
            Err(e) => r matches Err(x) && x.kind_text() == e,
        },
{
    let cs = chars_of(text);
    let mut k: usize = 0;
    while k < cs.len() && is_ascii_digit(cs[k])
        invariant
            k <= cs.len(),
            forall|i: int| 0 <= i < k ==> is_digit(#[trigger] cs@[i]),
        decreases cs.len() - k,
    {
        k = k + 1;
    }
    proof {
        lemma_prefix_exact(cs@, k as int, 0);
    }
    if k == 0 {
        return Err(LinkError::MissingPredecessor(string_from_chars(&cs)));
    }
    let predecessor = match parse_digits(&cs, k) {
        Some(v) => v,
        None => {
            return Err(LinkError::PredecessorTooLarge(string_from_chars(&cs)));
        },
    };
    let tail = slice_chars(&cs, k, cs.len());
    assert(tail@ =~= cs@.skip(k as int));
    let rest = trim_chars(&tail);
    if rest.len() == 0 {
        return Ok(DependencyLink { predecessor, relation: DependencyRelation::Fs, lag: None });
    }
    let relation = if rest.len() >= 2 && rest[0] == 'F' && rest[1] == 'S' {
        DependencyRelation::Fs
    } else if rest.len() >= 2 && rest[0] == 'F' && rest[1] == 'F' {
        DependencyRelation::Ff
    } else if rest.len() >= 2 && rest[0] == 'S' && rest[1] == 'S' {
        DependencyRelation::Ss
    } else if rest.len() >= 2 && rest[0] == 'S' && rest[1] == 'F' {
        DependencyRelation::Sf
    } else {
        return Err(LinkError::UnknownRelation(string_from_chars(&cs)));
    };
    let after = slice_chars(&rest, 2, rest.len());
    assert(after@ =~= rest@.skip(2));
    let lag_chars = trim_chars(&after);
    if lag_chars.len() == 0 {
        return Ok(DependencyLink { predecessor, relation, lag: None });
    }
    let lag_text = string_from_chars(&lag_chars);
    match parse_dependency_lag(lag_text.as_str()) {
        Ok(l) => Ok(DependencyLink { predecessor, relation, lag: Some(l) }),
        Err(e) => Err(e),
    }
}

/// Splits a link list at every `;` and `,`.
fn split_link_list(cs: &Vec<char>) -> (r: Vec<Vec<char>>)
    ensures
        r@.map_values(|p: Vec<char>| p@) == split_links(cs@),
{
    let mut parts: Vec<Vec<char>> = Vec::new();
    let mut current: Vec<char> = Vec::new();
    let mut i: usize = 0;
    while i < cs.len()
        invariant
            i <= cs.len(),
            parts@.map_values(|p: Vec<char>| p@).push(current@) == split_links(cs@.take(i as int)),
        decreases cs.len() - i,
    {
        let ghost pre = cs@.take(i + 1);
        assert(pre.drop_last() =~= cs@.take(i as int));
        let c = cs[i];
        if c == ';' || c == ',' {
            let done = current;
            let ghost before = parts@.map_values(|p: Vec<char>| p@);
            parts.push(done);
            current = Vec::new();
            assert(parts@.map_values(|p: Vec<char>| p@) =~= before.push(done@));
            assert(parts@.map_values(|p: Vec<char>| p@).push(current@) =~= before.push(done@).push(
                Seq::empty(),
            ));
        } else {
            let ghost before = parts@.map_values(|p: Vec<char>| p@);
            let ghost old_cur = current@;
            current.push(c);
            assert(before.push(current@) =~= before.push(old_cur).update(
                before.len() as int,
                old_cur.push(c),
            ));
        }
        i = i + 1;
    }
    assert(cs@.take(cs.len() as int) =~= cs@);
    let ghost before = parts@.map_values(|p: Vec<char>| p@);
    parts.push(current);
    assert(parts@.map_values(|p: Vec<char>| p@) =~= before.push(current@));
    parts
}

/// Parses a predecessor list such as `3, 7FS+1d; 9SS`.
pub fn parse_dependency_links(text: &str) -> (r: Result<Vec<DependencyLink>, LinkError>)
    ensures
        match links_spec(text@) {
            Ok(v) => r matches Ok(ls) && ls@.map_values(|l: DependencyLink| l.view_of()) == v,
            Err(e) => r matches Err(x) && x.kind_text() == e,
        },
{
    let cs = chars_of(text);
    let trimmed = trim_chars(&cs);
    if trimmed.len() == 0 {
        let out: Vec<DependencyLink> = Vec::new();
        assert(out@.map_values(|l: DependencyLink| l.view_of()) =~= Seq::<LinkView>::empty());
        return Ok(out);
    }
    let pieces = split_link_list(&cs);
    let ghost ps = split_links(text@);
    proof {
        assert(ps.skip(0) =~= ps);
        if let Ok(v) = pieces_spec(ps) {
            assert(Seq::<LinkView>::empty() + v =~= v);
        }
    }
    let mut out: Vec<DependencyLink> = Vec::new();
    let mut i: usize = 0;
    while i < pieces.len()
        invariant
            i <= pieces.len(),
            pieces@.map_values(|p: Vec<char>| p@) == ps,
            links_spec(text@) == pieces_spec(ps),
            match pieces_spec(ps) {
                Ok(v) => pieces_spec(ps.skip(i as int)) matches Ok(w) && v == out@.map_values(
                    |l: DependencyLink| l.view_of(),
                ) + w,
                Err(e) => pieces_spec(ps.skip(i as int)) == Err::<Seq<LinkView>, _>(e),
            },
        decreases pieces.len() - i,
    {
        let ghost sk = ps.skip(i as int);
        assert(sk[0] == pieces@[i as int]@);
        assert(sk.drop_first() =~= ps.skip(i + 1));
        let link = trim_chars(&pieces[i]);
        if link.len() > 0 {
            let link_text = string_from_chars(&link);
            match parse_dependency_link(link_text.as_str()) {
                Ok(l) => {
                    let ghost before = out@.map_values(|l: DependencyLink| l.view_of());
                    out.push(l);
                    assert(out@.map_values(|l: DependencyLink| l.view_of()) =~= before.push(
                        l.view_of(),
                    ));
                    proof {
                        if let Ok(w) = pieces_spec(sk) {
                            let w2 = pieces_spec(ps.skip(i + 1))->Ok_0;
                            assert(w =~= seq![l.view_of()] + w2);
                            assert(before + w =~= before.push(l.view_of()) + w2);
                        }
                    }
                },
                Err(e) => {
                    assert(pieces_spec(sk) == Err::<Seq<LinkView>, (LinkErrorKind, Seq<char>)>(
                        e.kind_text(),
                    ));
                    return Err(e);
                },
            }
        }
        i = i + 1;
    }
    proof {
        assert(ps.skip(pieces.len() as int) =~= Seq::<Seq<char>>::empty());
        if let Ok(v) = pieces_spec(ps) {
            assert(v =~= out@.map_values(|l: DependencyLink| l.view_of()));
        }
    }
    Ok(out)
}

/// The number part of a trimmed lag text: after its leading signs, the
/// leading digits and points.
pub open spec fn lag_number(text: Seq<char>) -> Seq<char> {
    let numeric = text.skip(sign_prefix(text));
    numeric.take(number_prefix(numeric))
}

/// The message of a refused link: the link (or lag) text with the reason,
/// and for a task number or lag amount the message of the number parser.
pub open spec fn link_error_message(kind: LinkErrorKind, text: Seq<char>) -> Seq<char> {
    match kind {
        LinkErrorKind::MissingPredecessor => "Invalid predecessor link: "@ + text,
        LinkErrorKind::PredecessorTooLarge => "Invalid predecessor id in link '"@ + text
            + "': number too large to fit in target type"@,
        LinkErrorKind::UnknownRelation => "Invalid dependency relation in link: "@ + text,
        LinkErrorKind::InvalidLagValue => "Invalid lag value '"@ + text + "': "@ + if lag_number(
            text,
        ).len() == 0 {
            "cannot parse float from empty string"@
        } else {
            "invalid float literal"@
        },
        LinkErrorKind::InvalidLagUnit => "Invalid lag unit in link: "@ + text,
    }
}

fn lag_number_is_empty(text: &str) -> (r: bool)
    ensures
        r == (lag_number(text@).len() == 0),
{
    let cs = chars_of(text);
    let mut s: usize = 0;
    while s < cs.len() && (cs[s] == '+' || cs[s] == '-')
        invariant
            s <= cs.len(),
            cs@ == text@,
            forall|i: int| 0 <= i < s ==> (#[trigger] cs@[i] == '+' || cs@[i] == '-'),
        decreases cs.len() - s,
    {
        s = s + 1;
    }
    proof {
        lemma_prefix_exact(cs@, s as int, 1);
        lemma_number_prefix(cs@.skip(s as int));
        if s < cs.len() {
            assert(cs@.skip(s as int)[0] == cs@[s as int]);
        }
    }
    s >= cs.len() || !(is_ascii_digit(cs[s]) || cs[s] == '.')
}

impl LinkError {
    /// The message of the error (see [`link_error_message`]).
    pub fn message(&self) -> (r: String)
        ensures
            r@ == link_error_message(self.kind_text().0, self.kind_text().1),
    {
        let mut out = String::new();
        match self {
            LinkError::MissingPredecessor(t) => {
                push_str(&mut out, "Invalid predecessor link: ");
                push_str(&mut out, t.as_str());
            },
            LinkError::PredecessorTooLarge(t) => {
                push_str(&mut out, "Invalid predecessor id in link '");
                push_str(&mut out, t.as_str());
                push_str(&mut out, "': number too large to fit in target type");
            },
            LinkError::UnknownRelation(t) => {
                push_str(&mut out, "Invalid dependency relation in link: ");
                push_str(&mut out, t.as_str());
            },
            LinkError::InvalidLagValue(t) => {
                push_str(&mut out, "Invalid lag value '");
                push_str(&mut out, t.as_str());
                push_str(&mut out, "': ");
                if lag_number_is_empty(t.as_str()) {
                    push_str(&mut out, "cannot parse float from empty string");
                } else {
                    push_str(&mut out, "invalid float literal");
                }
            },
            LinkError::InvalidLagUnit(t) => {
                push_str(&mut out, "Invalid lag unit in link: ");
                push_str(&mut out, t.as_str());
            },
        }
        assert(out@ =~= link_error_message(self.kind_text().0, self.kind_text().1));
        out
    }
}

} // verus!
