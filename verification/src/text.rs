//! Text helpers: words, trimming, splitting, joining and decimal numbers,
//! each specified over sequences of characters.

use vstd::prelude::*;
use vstd::string::*;

verus! {

/// Whether `char::is_whitespace` holds of `c` (the Unicode property `White_Space`).
pub uninterp spec fn white_space(c: char) -> bool;

/// Whether `char::is_alphanumeric` holds of `c` (a Unicode letter or number).
pub uninterp spec fn alphanumeric(c: char) -> bool;

/// Trusted: `char::is_whitespace`. The contract only gives the answer its name.
#[verifier::external_body]
pub(crate) fn is_white_space(c: char) -> (b: bool)
    ensures
        b == white_space(c),
{
    c.is_whitespace()
}

/// Trusted: `char::is_alphanumeric`. The contract only gives the answer its name.
#[verifier::external_body]
pub(crate) fn is_alphanumeric(c: char) -> (b: bool)
    ensures
        b == alphanumeric(c),
{
    c.is_alphanumeric()
}

/// Trusted: `String::push`, which appends one character to the end of the string.
#[verifier::external_body]
pub(crate) fn push_char(s: &mut String, c: char)
    ensures
        final(s)@ == old(s)@.push(c),
{
    s.push(c)
}

/// The character sequences of a sequence of strings.
pub open spec fn texts(v: Seq<String>) -> Seq<Seq<char>> {
    Seq::new(v.len(), |i: int| v[i]@)
}

/// `texts` follows `push`.
pub proof fn lemma_texts_push(v: Seq<String>, s: String)
    ensures
        texts(v.push(s)) == texts(v).push(s@),
{
    assert(texts(v.push(s)) =~= texts(v).push(s@));
}

/// The deep view of a list of strings is the list of their characters.
pub proof fn lemma_deep_view_is_texts(v: Vec<String>)
    ensures
        v.deep_view() == texts(v@),
{
    assert(v.deep_view() =~= texts(v@));
}

/// The characters of `s`, in order.
pub(crate) fn chars_of(s: &str) -> (r: Vec<char>)
    ensures
        r@ == s@,
{
    let mut out: Vec<char> = Vec::new();
    let chars = s.chars();
    for c in it: chars
        invariant
            it.seq() == s@,
            out@ == s@.take(it.index()),
    {
        out.push(c);
        assert(s@.take(it.index() + 1) == s@.take(it.index()).push(c));
    }
    assert(s@.take(s@.len() as int) == s@);
    out
}

/// The string made of `chars[from..to]`.
pub(crate) fn string_of(chars: &Vec<char>, from: usize, to: usize) -> (r: String)
    requires
        from <= to <= chars.len(),
    ensures
        r@ == chars@.subrange(from as int, to as int),
{
    let mut out = String::new();
    let mut i: usize = from;
    while i < to
        invariant
            from <= i <= to <= chars.len(),
            out@ == chars@.subrange(from as int, i as int),
        decreases to - i,
    {
        push_char(&mut out, chars[i]);
        i = i + 1;
        assert(chars@.subrange(from as int, i as int) == chars@.subrange(from as int, i - 1).push(
            chars@[i - 1],
        ));
    }
    out
}

/// A copy of a list of strings.
pub fn copy_strings(v: &Vec<String>) -> (r: Vec<String>)
    ensures
        texts(r@) == texts(v@),
        r@.len() == v@.len(),
{
    let mut out: Vec<String> = Vec::new();
    let mut i: usize = 0;
    while i < v.len()
        invariant
            i <= v.len(),
            out@ == v@.take(i as int),
        decreases v.len() - i,
    {
        out.push(v[i].clone());
        i = i + 1;
        assert(v@.take(i as int) == v@.take(i - 1).push(v@[i - 1]));
    }
    assert(v@.take(v.len() as int) == v@);
    out
}

// ---------------------------------------------------------------------------
// Words
// ---------------------------------------------------------------------------

/// The first index at or after `from` that holds white space, or the length of `s`
/// when there is none.
pub open spec fn next_space(s: Seq<char>, from: int) -> int
    decreases s.len() - from,
{
    if from >= s.len() || white_space(s[from]) {
        from
    } else {
        next_space(s, from + 1)
    }
}

/// `next_space` stays within the sequence and passes over no white space.
pub proof fn lemma_next_space(s: Seq<char>, from: int)
    requires
        0 <= from <= s.len(),
    ensures
        from <= next_space(s, from) <= s.len(),
        next_space(s, from) < s.len() ==> white_space(s[next_space(s, from)]),
        forall|k: int| from <= k < next_space(s, from) ==> !white_space(s[k]),
    decreases s.len() - from,
{
    if from >= s.len() || white_space(s[from]) {
    } else {
        lemma_next_space(s, from + 1);
    }
}

/// The words of `s` that start at or after `from`: the maximal runs of characters
/// that are not white space, left to right.
pub open spec fn words_from(s: Seq<char>, from: int) -> Seq<Seq<char>>
    decreases s.len() - from,
    via words_from_decreases
{
    if from < 0 || from >= s.len() {
        Seq::empty()
    } else if white_space(s[from]) {
        words_from(s, from + 1)
    } else {
        seq![s.subrange(from, next_space(s, from))] + words_from(s, next_space(s, from))
    }
}

#[via_fn]
proof fn words_from_decreases(s: Seq<char>, from: int) {
    if 0 <= from < s.len() && !white_space(s[from]) {
        lemma_next_space(s, from + 1);
    }
}

/// The words of `s`: what `str::split_whitespace` yields.
pub open spec fn words(s: Seq<char>) -> Seq<Seq<char>> {
    words_from(s, 0)
}

/// The words of `s`, split at white space as `str::split_whitespace` does.
pub fn split_words(s: &str) -> (r: Vec<String>)
    ensures
        texts(r@) == words(s@),
{
    let chars = chars_of(s);
    let n = chars.len();
    let mut out: Vec<String> = Vec::new();
    let mut i: usize = 0;
    while i < n
        invariant
            n == chars.len(),
            chars@ == s@,
            i <= n,
            texts(out@) + words_from(s@, i as int) == words(s@),
        decreases n - i,
    {
        if is_white_space(chars[i]) {
            i = i + 1;
        } else {
            let mut j: usize = i + 1;
            while j < n && !is_white_space(chars[j])
                invariant
                    n == chars.len(),
                    chars@ == s@,
                    i < j <= n,
                    next_space(s@, j as int) == next_space(s@, i as int),
                decreases n - j,
            {
                j = j + 1;
            }
            let word = string_of(&chars, i, j);
            proof {
                lemma_texts_push(out@, word);
                assert(texts(out@).push(word@) + words_from(s@, j as int) =~= texts(out@) + (
                seq![word@] + words_from(s@, j as int)));
            }
            out.push(word);
            i = j;
        }
    }
    assert(texts(out@) + Seq::<Seq<char>>::empty() =~= texts(out@));
    out
}

// ---------------------------------------------------------------------------
// Filtering
// ---------------------------------------------------------------------------

/// The alphanumeric characters of `s`, in order.
pub open spec fn alphanumerics(s: Seq<char>) -> Seq<char> {
    s.filter(|c: char| alphanumeric(c))
}

/// Every character that `alphanumerics` keeps is alphanumeric.
pub proof fn lemma_alphanumerics(s: Seq<char>)
    ensures
        forall|i: int|
            0 <= i < alphanumerics(s).len() ==> alphanumeric(#[trigger] alphanumerics(s)[i]),
        alphanumerics(s).len() <= s.len(),
{
    let p = |c: char| alphanumeric(c);
    s.lemma_filter_len(p);
    assert forall|i: int| 0 <= i < alphanumerics(s).len() implies alphanumeric(
        #[trigger] alphanumerics(s)[i],
    ) by {
        s.lemma_filter_pred(p, i);
    }
}

/// `s` without the characters that are not alphanumeric.
pub fn keep_alphanumeric(s: &str) -> (r: String)
    ensures
        r@ == alphanumerics(s@),
{
    let mut out = String::new();
    let chars = s.chars();
    for c in it: chars
        invariant
            it.seq() == s@,
            out@ == alphanumerics(s@.take(it.index())),
    {
        proof {
            reveal(Seq::filter);
            assert(s@.take(it.index() + 1) == s@.take(it.index()).push(c));
            assert(s@.take(it.index()).push(c).drop_last() == s@.take(it.index()));
        }
        if is_alphanumeric(c) {
            push_char(&mut out, c);
        }
    }
    proof {
        reveal(Seq::filter);
        assert(s@.take(s@.len() as int) == s@);
    }
    out
}

// ---------------------------------------------------------------------------
// Joining
// ---------------------------------------------------------------------------

/// The parts in order, with `sep` between each two neighbours.
pub open spec fn joined(parts: Seq<Seq<char>>, sep: Seq<char>) -> Seq<char>
    decreases parts.len(),
{
    if parts.len() == 0 {
        Seq::empty()
    } else if parts.len() == 1 {
        parts[0]
    } else {
        joined(parts.drop_last(), sep) + sep + parts.last()
    }
}

/// The strings of `parts` joined with `sep`, as `[String]::join` does.
pub fn join(parts: &Vec<String>, sep: &str) -> (r: String)
    ensures
        r@ == joined(texts(parts@), sep@),
{
    let mut out = String::new();
    let mut i: usize = 0;
    while i < parts.len()
        invariant
            i <= parts.len(),
            out@ == joined(texts(parts@).take(i as int), sep@),
        decreases parts.len() - i,
    {
        let ghost before = texts(parts@).take(i as int);
        let ghost after = texts(parts@).take(i + 1);
        proof {
            assert(after.drop_last() =~= before);
            assert(after.last() == parts@[i as int]@);
        }
        if i > 0 {
            out.append(sep);
        }
        out.append(parts[i].as_str());
        proof {
            if i == 0 {
                assert(after[0] == parts@[0]@);
                assert(out@ =~= after[0]);
            }
        }
        i = i + 1;
    }
    assert(texts(parts@).take(parts.len() as int) =~= texts(parts@));
    out
}

// ---------------------------------------------------------------------------
// Decimal numbers
// ---------------------------------------------------------------------------

/// The character of the decimal digit `d`.
pub open spec fn digit(d: nat) -> char {
    if d == 0 {
        '0'
    } else if d == 1 {
        '1'
    } else if d == 2 {
        '2'
    } else if d == 3 {
        '3'
    } else if d == 4 {
        '4'
    } else if d == 5 {
        '5'
    } else if d == 6 {
        '6'
    } else if d == 7 {
        '7'
    } else if d == 8 {
        '8'
    } else {
        '9'
    }
}

/// The value of a decimal digit, if `c` is one of `0` to `9`.
pub open spec fn digit_value(c: char) -> Option<nat> {
    if c == '0' {
        Some(0)
    } else if c == '1' {
        Some(1)
    } else if c == '2' {
        Some(2)
    } else if c == '3' {
        Some(3)
    } else if c == '4' {
        Some(4)
    } else if c == '5' {
        Some(5)
    } else if c == '6' {
        Some(6)
    } else if c == '7' {
        Some(7)
    } else if c == '8' {
        Some(8)
    } else if c == '9' {
        Some(9)
    } else {
        None
    }
}

/// `n` in decimal, without sign or leading zeros.
pub open spec fn decimal(n: nat) -> Seq<char>
    decreases n,
{
    if n < 10 {
        seq![digit(n)]
    } else {
        decimal(n / 10).push(digit(n % 10))
    }
}

/// Whether every character of `s` is a decimal digit.
pub open spec fn all_digits(s: Seq<char>) -> bool {
    forall|i: int| 0 <= i < s.len() ==> (#[trigger] digit_value(s[i])) is Some
}

/// The number that the digits of `s` spell; a character that is no digit counts as zero.
pub open spec fn digits_value(s: Seq<char>) -> nat
    decreases s.len(),
{
    if s.len() == 0 {
        0
    } else {
        digits_value(s.drop_last()) * 10 + match digit_value(s.last()) {
            Some(d) => d,
            None => 0,
        }
    }
}

/// `s` without a leading `+`.
pub open spec fn unsigned_part(s: Seq<char>) -> Seq<char> {
    if s.len() > 0 && s[0] == '+' {
        s.drop_first()
    } else {
        s
    }
}

/// What `str::parse::<u32>` makes of `s`: an optional `+`, then one or more decimal
/// digits whose value fits; anything else is no number.
pub open spec fn parsed_u32(s: Seq<char>) -> Option<u32> {
    let body = unsigned_part(s);
    if body.len() > 0 && all_digits(body) && digits_value(body) <= u32::MAX {
        Some(digits_value(body) as u32)
    } else {
        None
    }
}

fn digit_char(d: u64) -> (c: char)
    requires
        d < 10,
    ensures
        c == digit(d as nat),
{
    if d == 0 {
        '0'
    } else if d == 1 {
        '1'
    } else if d == 2 {
        '2'
    } else if d == 3 {
        '3'
    } else if d == 4 {
        '4'
    } else if d == 5 {
        '5'
    } else if d == 6 {
        '6'
    } else if d == 7 {
        '7'
    } else if d == 8 {
        '8'
    } else {
        '9'
    }
}

fn value_of_digit(c: char) -> (r: Option<u64>)
    ensures
        match r {
            Some(d) => digit_value(c) == Some(d as nat) && d < 10,
            None => digit_value(c) is None,
        },
{
    if c == '0' {
        Some(0)
    } else if c == '1' {
        Some(1)
    } else if c == '2' {
        Some(2)
    } else if c == '3' {
        Some(3)
    } else if c == '4' {
        Some(4)
    } else if c == '5' {
        Some(5)
    } else if c == '6' {
        Some(6)
    } else if c == '7' {
        Some(7)
    } else if c == '8' {
        Some(8)
    } else if c == '9' {
        Some(9)
    } else {
        None
    }
}

/// `n` written in decimal.
pub fn to_decimal(n: u64) -> (r: String)
    ensures
        r@ == decimal(n as nat),
    decreases n,
{
    if n < 10 {
        let mut out = String::new();
        push_char(&mut out, digit_char(n));
        assert(out@ =~= seq![digit(n as nat)]);
        out
    } else {
        let mut out = to_decimal(n / 10);
        push_char(&mut out, digit_char(n % 10));
        out
    }
}

proof fn lemma_digits_value_grows(s: Seq<char>, k: int)
    requires
        0 <= k <= s.len(),
    ensures
        digits_value(s.take(k)) <= digits_value(s),
    decreases s.len() - k,
{
    if k == s.len() {
        assert(s.take(k) =~= s);
    } else {
        lemma_digits_value_grows(s, k + 1);
        assert(s.take(k + 1).drop_last() =~= s.take(k));
    }
}

/// The number that `s` spells, as `str::parse::<u32>` reads it.
pub fn parse_u32(s: &str) -> (r: Option<u32>)
    ensures
        r == parsed_u32(s@),
{
    let chars = chars_of(s);
    let n = chars.len();
    let start: usize = if n > 0 && chars[0] == '+' {
        1
    } else {
        0
    };
    let ghost body = s@.subrange(start as int, n as int);
    assert(body =~= unsigned_part(s@));
    if start == n {
        return None;
    }
    let mut acc: u64 = 0;
    let mut i: usize = start;
    while i < n
        invariant
            n == chars.len(),
            chars@ == s@,
            start <= i <= n,
            body == s@.subrange(start as int, n as int),
            body == unsigned_part(s@),
            acc == digits_value(body.take(i - start)),
            acc <= u32::MAX,
            forall|k: int| 0 <= k < i - start ==> (#[trigger] digit_value(body[k])) is Some,
        decreases n - i,
    {
        let ghost prefix = body.take(i - start + 1);
        proof {
            assert(prefix.drop_last() =~= body.take(i - start));
            assert(prefix.last() == chars@[i as int]);
            assert(body[i - start] == chars@[i as int]);
            lemma_digits_value_grows(body, i - start + 1);
        }
        match value_of_digit(chars[i]) {
            None => {
                assert(digit_value(body[i - start]) is None);
                return None;
            },
            Some(d) => {
                let next: u64 = acc * 10 + d;
                if next > 0xffff_ffff {
                    return None;
                }
                acc = next;
            },
        }
        i = i + 1;
    }
    assert(body.take(n - start) =~= body);
    Some(acc as u32)
}

// ---------------------------------------------------------------------------
// Cutting at a separator
// ---------------------------------------------------------------------------

/// The first index at or after `from` that holds `sep`, or the length of `s`.
pub open spec fn next_sep(s: Seq<char>, sep: char, from: int) -> int
    decreases s.len() - from,
{
    if from >= s.len() || s[from] == sep {
        from
    } else {
        next_sep(s, sep, from + 1)
    }
}

/// `next_sep` stays within the sequence and passes over no separator.
pub proof fn lemma_next_sep(s: Seq<char>, sep: char, from: int)
    requires
        0 <= from <= s.len(),
    ensures
        from <= next_sep(s, sep, from) <= s.len(),
        next_sep(s, sep, from) < s.len() ==> s[next_sep(s, sep, from)] == sep,
        forall|k: int| from <= k < next_sep(s, sep, from) ==> s[k] != sep,
    decreases s.len() - from,
{
    if from >= s.len() || s[from] == sep {
    } else {
        lemma_next_sep(s, sep, from + 1);
    }
}

/// The pieces of `s` from `from` on, cut at every `sep`; there is always at least one.
pub open spec fn pieces_from(s: Seq<char>, sep: char, from: int) -> Seq<Seq<char>>
    decreases s.len() - from,
    via pieces_from_decreases
{
    if from < 0 || from > s.len() {
        Seq::empty()
    } else if next_sep(s, sep, from) >= s.len() {
        seq![s.subrange(from, s.len() as int)]
    } else {
        seq![s.subrange(from, next_sep(s, sep, from))] + pieces_from(
            s,
            sep,
            next_sep(s, sep, from) + 1,
        )
    }
}

#[via_fn]
proof fn pieces_from_decreases(s: Seq<char>, sep: char, from: int) {
    if 0 <= from <= s.len() {
        lemma_next_sep(s, sep, from);
    }
}

/// The pieces of `s` cut at every `sep`: what `str::split` yields for a character.
pub open spec fn pieces(s: Seq<char>, sep: char) -> Seq<Seq<char>> {
    pieces_from(s, sep, 0)
}

/// The part of `s` before the first `sep`; all of `s` when it holds none.
pub open spec fn before_first(s: Seq<char>, sep: char) -> Seq<char> {
    s.take(next_sep(s, sep, 0))
}

/// The index just behind the last `sep` in `s`, or 0 when it holds none.
pub open spec fn after_last_index(s: Seq<char>, sep: char) -> int
    decreases s.len(),
{
    if s.len() == 0 || s.last() == sep {
        s.len() as int
    } else {
        after_last_index(s.drop_last(), sep)
    }
}

/// The part of `s` behind the last `sep`; all of `s` when it holds none.
pub open spec fn after_last(s: Seq<char>, sep: char) -> Seq<char> {
    s.skip(after_last_index(s, sep))
}

/// The part of `s` before the first `sep`.
pub fn cut_before_first(s: &str, sep: char) -> (r: String)
    ensures
        r@ == before_first(s@, sep),
{
    let chars = chars_of(s);
    let n = chars.len();
    let mut i: usize = 0;
    while i < n && chars[i] != sep
        invariant
            n == chars.len(),
            chars@ == s@,
            i <= n,
            next_sep(s@, sep, i as int) == next_sep(s@, sep, 0),
        decreases n - i,
    {
        i = i + 1;
    }
    string_of(&chars, 0, i)
}

/// The part of `s` behind the last `sep`.
pub fn cut_after_last(s: &str, sep: char) -> (r: String)
    ensures
        r@ == after_last(s@, sep),
{
    let chars = chars_of(s);
    let n = chars.len();
    let mut i: usize = n;
    assert(s@.take(n as int) =~= s@);
    while i > 0 && chars[i - 1] != sep
        invariant
            n == chars.len(),
            chars@ == s@,
            i <= n,
            after_last_index(s@, sep) == after_last_index(s@.take(i as int), sep),
        decreases i,
    {
        proof {
            assert(s@.take(i as int).drop_last() =~= s@.take(i - 1));
        }
        i = i - 1;
    }
    proof {
        assert(s@.take(n as int) =~= s@);
        if i > 0 {
            assert(s@.take(i as int).last() == sep);
        }
    }
    string_of(&chars, i, n)
}

/// The pieces of `s` cut at every `sep`, as `str::split` does.
pub fn split_at_char(s: &str, sep: char) -> (r: Vec<String>)
    ensures
        texts(r@) == pieces(s@, sep),
{
    let chars = chars_of(s);
    let n = chars.len();
    let mut out: Vec<String> = Vec::new();
    let mut start: usize = 0;
    let mut i: usize = 0;
    while i < n
        invariant
            n == chars.len(),
            chars@ == s@,
            start <= i <= n,
            next_sep(s@, sep, i as int) == next_sep(s@, sep, start as int),
            texts(out@) + pieces_from(s@, sep, start as int) == pieces(s@, sep),
        decreases n - i,
    {
        if chars[i] == sep {
            let piece = string_of(&chars, start, i);
            proof {
                lemma_texts_push(out@, piece);
                assert(texts(out@).push(piece@) + pieces_from(s@, sep, i + 1) =~= texts(out@) + (
                seq![piece@] + pieces_from(s@, sep, i + 1)));
            }
            out.push(piece);
            start = i + 1;
        }
        i = i + 1;
    }
    let piece = string_of(&chars, start, n);
    proof {
        lemma_texts_push(out@, piece);
        assert(texts(out@).push(piece@) =~= texts(out@) + seq![piece@]);
    }
    out.push(piece);
    out
}

// ---------------------------------------------------------------------------
// Trimming
// ---------------------------------------------------------------------------

/// The first index at or after `from` that holds no white space, or the length of `s`.
pub open spec fn next_solid(s: Seq<char>, from: int) -> int
    decreases s.len() - from,
{
    if from >= s.len() || !white_space(s[from]) {
        from
    } else {
        next_solid(s, from + 1)
    }
}

/// The length of `s` without its trailing white space.
pub open spec fn solid_end(s: Seq<char>) -> int
    decreases s.len(),
{
    if s.len() == 0 || !white_space(s.last()) {
        s.len() as int
    } else {
        solid_end(s.drop_last())
    }
}

/// `s` without leading and trailing white space: what `str::trim` yields.
pub open spec fn trimmed(s: Seq<char>) -> Seq<char> {
    let body = s.take(solid_end(s));
    body.skip(next_solid(body, 0))
}

/// `s` without leading and trailing white space, as `str::trim` does.
pub fn trim(s: &str) -> (r: String)
    ensures
        r@ == trimmed(s@),
{
    let chars = chars_of(s);
    let n = chars.len();
    let mut end: usize = n;
    assert(s@.take(n as int) =~= s@);
    while end > 0 && is_white_space(chars[end - 1])
        invariant
            n == chars.len(),
            chars@ == s@,
            end <= n,
            solid_end(s@) == solid_end(s@.take(end as int)),
        decreases end,
    {
        proof {
            assert(s@.take(end as int).drop_last() =~= s@.take(end - 1));
        }
        end = end - 1;
    }
    proof {
        assert(s@.take(n as int) =~= s@);
        if end > 0 {
            assert(s@.take(end as int).last() == s@[end - 1]);
        }
        assert(solid_end(s@) == end);
    }
    let ghost body = s@.take(end as int);
    let mut start: usize = 0;
    while start < end && is_white_space(chars[start])
        invariant
            n == chars.len(),
            chars@ == s@,
            start <= end <= n,
            body == s@.take(end as int),
            next_solid(body, start as int) == next_solid(body, 0),
        decreases end - start,
    {
        start = start + 1;
    }
    proof {
        assert(next_solid(body, 0) == start);
        assert(s@.subrange(start as int, end as int) =~= body.skip(start as int));
    }
    string_of(&chars, start, end)
}

} // verus!
