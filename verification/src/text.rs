//! Character-level text model shared by every parser of the library.
//!
//! Text is modelled as `Seq<char>` (the view of `str` and `String`). The spec
//! functions here state what the usual string operations mean; the executable
//! functions compute them on `Vec<char>` and are proved against those specs.
use vstd::prelude::*;

verus! {

broadcast use vstd::string::group_string_axioms;

// ---------------------------------------------------------------------------
// Spec model
// ---------------------------------------------------------------------------

/// `p` occurs in `s` starting at index `i`.
pub open spec fn matches_at(s: Seq<char>, p: Seq<char>, i: int) -> bool {
    0 <= i && i + p.len() <= s.len() && s.subrange(i, i + p.len()) == p
}

pub open spec fn starts_with(s: Seq<char>, p: Seq<char>) -> bool {
    matches_at(s, p, 0)
}

pub open spec fn ends_with(s: Seq<char>, p: Seq<char>) -> bool {
    p.len() <= s.len() && matches_at(s, p, s.len() - p.len())
}

/// First index `>= i` at which `p` occurs in `s`.
pub open spec fn find_from(s: Seq<char>, p: Seq<char>, i: int) -> Option<int>
    decreases s.len() - i,
{
    if i < 0 || i + p.len() > s.len() {
        None
    } else if p.len() == 0 || s.subrange(i, i + p.len()) == p {
        Some(i)
    } else {
        find_from(s, p, i + 1)
    }
}

/// First occurrence of `p` in `s` (`str::find`).
pub open spec fn find(s: Seq<char>, p: Seq<char>) -> Option<int> {
    find_from(s, p, 0)
}

/// `str::contains`.
pub open spec fn contains(s: Seq<char>, p: Seq<char>) -> bool {
    find(s, p) is Some
}

/// The text after a prefix `p` (`str::strip_prefix`).
pub open spec fn strip_prefix(s: Seq<char>, p: Seq<char>) -> Option<Seq<char>> {
    if starts_with(s, p) {
        Some(s.skip(p.len() as int))
    } else {
        None
    }
}

/// Splitting at every occurrence of one character (`str::split(char)`).
pub open spec fn split_char(s: Seq<char>, c: char) -> Seq<Seq<char>>
    decreases s.len(),
{
    if s.len() == 0 {
        seq![Seq::<char>::empty()]
    } else {
        let prev = split_char(s.drop_last(), c);
        if s.last() == c {
            prev.push(Seq::<char>::empty())
        } else {
            prev.update(prev.len() - 1, prev.last().push(s.last()))
        }
    }
}

/// Splitting at every non-overlapping occurrence of a non-empty pattern,
/// scanning from the left (`str::split(&str)`).
pub open spec fn split_str(s: Seq<char>, p: Seq<char>) -> Seq<Seq<char>>
    decreases s.len(),
{
    if p.len() == 0 {
        seq![s]
    } else {
        match find(s, p) {
            Some(i) => if 0 <= i && i + p.len() <= s.len() {
                seq![s.take(i)] + split_str(s.skip(i + p.len()), p)
            } else {
                seq![s]
            },
            None => seq![s],
        }
    }
}

/// At most `n` pieces: the first `n - 1` separators split, the rest stays
/// whole (`str::splitn(n, char)`).
pub open spec fn splitn_char(s: Seq<char>, n: nat, c: char) -> Seq<Seq<char>>
    decreases n,
{
    if n == 0 {
        Seq::empty()
    } else if n == 1 {
        seq![s]
    } else {
        match find(s, seq![c]) {
            Some(i) => if 0 <= i < s.len() {
                seq![s.take(i)] + splitn_char(s.skip(i + 1), (n - 1) as nat, c)
            } else {
                seq![s]
            },
            None => seq![s],
        }
    }
}

/// One trailing carriage return removed.
pub open spec fn strip_cr(l: Seq<char>) -> Seq<char> {
    if l.len() > 0 && l.last() == '\r' {
        l.drop_last()
    } else {
        l
    }
}

/// `str::lines`: pieces between `\n`, each ended by `\n` or `\r\n`; a final
/// line ending adds no empty line, and the empty text has no lines.
pub open spec fn lines(s: Seq<char>) -> Seq<Seq<char>> {
    let parts = split_char(s, '\n');
    let body = parts.take(parts.len() - 1).map_values(|l: Seq<char>| strip_cr(l));
    if parts.last().len() == 0 {
        body
    } else {
        body.push(parts.last())
    }
}

/// Unicode `White_Space` (`char::is_whitespace`).
pub open spec fn is_ws(c: char) -> bool {
    ||| '\t' <= c <= '\r'
    ||| c == ' '
    ||| c == '\u{85}'
    ||| c == '\u{a0}'
    ||| c == '\u{1680}'
    ||| '\u{2000}' <= c <= '\u{200a}'
    ||| c == '\u{2028}'
    ||| c == '\u{2029}'
    ||| c == '\u{202f}'
    ||| c == '\u{205f}'
    ||| c == '\u{3000}'
}

/// General category `Cc` (`char::is_control`).
pub open spec fn is_control(c: char) -> bool {
    c <= '\u{1f}' || ('\u{7f}' <= c && c <= '\u{9f}')
}

/// Trailing white space removed (`str::trim_end`).
pub open spec fn trim_end(s: Seq<char>) -> Seq<char>
    decreases s.len(),
{
    if s.len() > 0 && is_ws(s.last()) {
        trim_end(s.drop_last())
    } else {
        s
    }
}

/// Leading white space removed (`str::trim_start`).
pub open spec fn trim_start(s: Seq<char>) -> Seq<char>
    decreases s.len(),
{
    if s.len() > 0 && is_ws(s[0]) {
        trim_start(s.drop_first())
    } else {
        s
    }
}

/// `str::trim`.
pub open spec fn trim(s: Seq<char>) -> Seq<char> {
    trim_start(trim_end(s))
}

/// A character of the ASCII range (one UTF-8 byte).
pub open spec fn ascii_char(c: char) -> bool {
    (c as u32) < 128
}

pub open spec fn is_digit(c: char) -> bool {
    '0' <= c <= '9'
}

pub open spec fn all_digits(s: Seq<char>) -> bool {
    forall|i: int| 0 <= i < s.len() ==> is_digit(#[trigger] s[i])
}

/// Decimal value of a digit string.
pub open spec fn digits_value(s: Seq<char>) -> nat
    decreases s.len(),
{
    if s.len() == 0 {
        0
    } else {
        digits_value(s.drop_last()) * 10 + ((s.last() as nat) - ('0' as nat)) as nat
    }
}

/// Unsigned decimal parse with an optional `+` and an upper bound
/// (`u32::from_str`, `usize::from_str`, ...).
pub open spec fn parse_unsigned(s: Seq<char>, max: nat) -> Option<nat> {
    let d = if s.len() > 0 && s[0] == '+' {
        s.drop_first()
    } else {
        s
    };
    if d.len() > 0 && all_digits(d) && digits_value(d) <= max {
        Some(digits_value(d))
    } else {
        None
    }
}

/// The piece before the first occurrence of `c` (`s.split(c).next()`).
pub open spec fn before_char(s: Seq<char>, c: char) -> Seq<char> {
    match find(s, seq![c]) {
        Some(i) => s.take(i),
        None => s,
    }
}

/// The piece after the last occurrence of `c` (`s.rsplit(c).next()`).
pub open spec fn after_last_char(s: Seq<char>, c: char) -> Seq<char>
    decreases s.len(),
{
    if s.len() == 0 {
        s
    } else if s.last() == c {
        Seq::empty()
    } else {
        after_last_char(s.drop_last(), c).push(s.last())
    }
}

/// Every leading `c` removed (`str::trim_start_matches(char)`).
pub open spec fn trim_start_char(s: Seq<char>, c: char) -> Seq<char>
    decreases s.len(),
{
    if s.len() > 0 && s[0] == c {
        trim_start_char(s.drop_first(), c)
    } else {
        s
    }
}

/// The character of a decimal digit.
pub open spec fn digit_char(d: nat) -> char {
    ((d + 48) as u8) as char
}

/// Decimal representation of a number (`format!("{}", n)`).
pub open spec fn dec(n: nat) -> Seq<char>
    decreases n,
{
    if n < 10 {
        seq![digit_char(n)]
    } else {
        dec(n / 10).push(digit_char(n % 10))
    }
}

/// Every trailing `c` removed (`str::trim_end_matches(char)`).
pub open spec fn trim_end_char(s: Seq<char>, c: char) -> Seq<char>
    decreases s.len(),
{
    if s.len() > 0 && s.last() == c {
        trim_end_char(s.drop_last(), c)
    } else {
        s
    }
}

/// The text before a suffix `p` (`str::strip_suffix`).
pub open spec fn strip_suffix(s: Seq<char>, p: Seq<char>) -> Option<Seq<char>> {
    if ends_with(s, p) {
        Some(s.take(s.len() - p.len()))
    } else {
        None
    }
}

/// Words between runs of white space (`str::split_whitespace`): the state
/// after a prefix is the finished words and the word in progress.
pub open spec fn ws_words_state(s: Seq<char>) -> (Seq<Seq<char>>, Seq<char>)
    decreases s.len(),
{
    if s.len() == 0 {
        (Seq::empty(), Seq::empty())
    } else {
        let (done, cur) = ws_words_state(s.drop_last());
        if is_ws(s.last()) {
            if cur.len() > 0 {
                (done.push(cur), Seq::empty())
            } else {
                (done, cur)
            }
        } else {
            (done, cur.push(s.last()))
        }
    }
}

/// `str::split_whitespace`.
pub open spec fn split_ws(s: Seq<char>) -> Seq<Seq<char>> {
    let (done, cur) = ws_words_state(s);
    if cur.len() > 0 {
        done.push(cur)
    } else {
        done
    }
}

/// Lower-case ASCII letters (`str::to_ascii_lowercase`).
pub open spec fn ascii_lower(s: Seq<char>) -> Seq<char> {
    s.map_values(|c: char| if 'A' <= c <= 'Z' { (((c as u8) + 32) as u8) as char } else { c })
}

/// The non-empty pieces of a split.
pub open spec fn non_empty(ps: Seq<Seq<char>>) -> Seq<Seq<char>> {
    ps.filter_map(|p: Seq<char>| if p.len() > 0 { Some(p) } else { None })
}

// ---------------------------------------------------------------------------
// Lemmas
// ---------------------------------------------------------------------------

pub proof fn lemma_find_from_bounds(s: Seq<char>, p: Seq<char>, i: int)
    requires
        0 <= i,
    ensures
        find_from(s, p, i) matches Some(k) ==> i <= k && k + p.len() <= s.len() && matches_at(
            s,
            p,
            k,
        ),
        find_from(s, p, i) is None ==> forall|k: int|
            i <= k && k + p.len() <= s.len() ==> !matches_at(s, p, k),
    decreases s.len() - i,
{
    if i < 0 || i + p.len() > s.len() {
    } else if p.len() == 0 || s.subrange(i, i + p.len()) == p {
        if p.len() == 0 {
            assert(s.subrange(i, i) =~= p);
        }
    } else {
        lemma_find_from_bounds(s, p, i + 1);
    }
}

pub proof fn lemma_find_bounds(s: Seq<char>, p: Seq<char>)
    ensures
        find(s, p) matches Some(k) ==> 0 <= k && k + p.len() <= s.len() && matches_at(s, p, k),
        find(s, p) is None ==> forall|k: int| 0 <= k && k + p.len() <= s.len() ==> !matches_at(s, p, k),
{
    lemma_find_from_bounds(s, p, 0);
}

/// A number written in decimal reads back as itself.
pub proof fn lemma_dec_digits(n: nat)
    ensures
        dec(n).len() > 0,
        all_digits(dec(n)),
        digits_value(dec(n)) == n,
        dec(n)[0] != '+',
    decreases n,
{
    if n < 10 {
        assert(dec(n) =~= seq![digit_char(n)]);
        assert(digit_char(n) as nat == n + 48);
        assert(dec(n).drop_last() =~= Seq::<char>::empty());
        assert(digits_value(Seq::<char>::empty()) == 0);
        assert(dec(n).last() == digit_char(n));
        assert(digits_value(dec(n)) == digits_value(dec(n).drop_last()) * 10 + ((dec(n).last() as nat)
            - ('0' as nat)) as nat);
    } else {
        lemma_dec_digits(n / 10);
        let d = dec(n / 10);
        assert(dec(n).drop_last() =~= d);
        assert(digit_char(n % 10) as nat == n % 10 + 48);
        assert(dec(n).last() == digit_char(n % 10));
        assert(digits_value(dec(n)) == digits_value(d) * 10 + n % 10);
        assert((n / 10) * 10 + n % 10 == n);
        assert forall|i: int| 0 <= i < dec(n).len() implies is_digit(#[trigger] dec(n)[i]) by {
            if i < d.len() {
                assert(dec(n)[i] == d[i]);
            }
        }
        assert(dec(n)[0] == d[0]);
    }
}

/// `parse_unsigned` of a decimal number within the bound gives the number.
pub proof fn lemma_parse_dec(n: nat, max: nat)
    requires
        n <= max,
    ensures
        parse_unsigned(dec(n), max) == Some(n),
{
    lemma_dec_digits(n);
}

/// An element that the mapping keeps is in the filtered sequence.
pub proof fn lemma_filter_map_keeps<A, B>(s: Seq<A>, f: spec_fn(A) -> Option<B>, i: int)
    requires
        0 <= i < s.len(),
        f(s[i]) is Some,
    ensures
        s.filter_map(f).contains(f(s[i])->0),
    decreases s.len(),
{
    let rest = s.drop_last();
    if i == s.len() - 1 {
        let r = rest.filter_map(f) + seq![f(s[i])->0];
        assert(s.filter_map(f) == r);
        assert(r[r.len() - 1] == f(s[i])->0);
    } else {
        assert(rest[i] == s[i]);
        lemma_filter_map_keeps(rest, f, i);
        let k = choose|k: int| 0 <= k < rest.filter_map(f).len() && rest.filter_map(f)[k] == f(s[i])->0;
        match f(s.last()) {
            Some(v) => {
                assert((rest.filter_map(f) + seq![v])[k] == f(s[i])->0);
            },
            None => {},
        }
    }
}

pub proof fn lemma_split_char_nonempty(s: Seq<char>, c: char)
    ensures
        split_char(s, c).len() >= 1,
    decreases s.len(),
{
    if s.len() > 0 {
        lemma_split_char_nonempty(s.drop_last(), c);
    }
}

/// No piece of a split holds the separator.
pub proof fn lemma_split_char_free(s: Seq<char>, c: char)
    ensures
        forall|i: int, j: int|
            0 <= i < split_char(s, c).len() && 0 <= j < split_char(s, c)[i].len()
                ==> #[trigger] split_char(s, c)[i][j] != c,
    decreases s.len(),
{
    if s.len() > 0 {
        lemma_split_char_free(s.drop_last(), c);
        lemma_split_char_nonempty(s.drop_last(), c);
    }
}

pub proof fn lemma_trim_end_prefix(s: Seq<char>)
    ensures
        trim_end(s).len() <= s.len(),
        trim_end(s) =~= s.take(trim_end(s).len() as int),
    decreases s.len(),
{
    if s.len() > 0 && is_ws(s.last()) {
        lemma_trim_end_prefix(s.drop_last());
    }
}

pub proof fn lemma_digits_value_monotone(s: Seq<char>, k: int)
    requires
        0 <= k <= s.len(),
        all_digits(s),
    ensures
        digits_value(s.take(k)) <= digits_value(s),
    decreases s.len() - k,
{
    if k < s.len() {
        lemma_digits_value_monotone(s, k + 1);
        assert(s.take(k + 1).drop_last() =~= s.take(k));
        assert(is_digit(s[k]));
    } else {
        assert(s.take(k) =~= s);
    }
}

// ---------------------------------------------------------------------------
// Executable operations
// ---------------------------------------------------------------------------

/// Appends one character (std `String::push`).
#[verifier::external_body]
pub(crate) fn push_char(s: &mut String, c: char)
    ensures
        final(s)@ == old(s)@.push(c),
{
    s.push(c);
}

/// The characters of a string slice.
pub fn chars_of(s: &str) -> (v: Vec<char>)
    ensures
        v@ == s@,
{
    let mut v: Vec<char> = Vec::new();
    for c in it: s.chars()
        invariant
            v@ == it.seq().take(it.index() as int),
    {
        v.push(c);
    }
    v
}

/// The string made of `v[lo..hi]`.
pub fn string_of(v: &[char], lo: usize, hi: usize) -> (s: String)
    requires
        lo <= hi <= v@.len(),
    ensures
        s@ == v@.subrange(lo as int, hi as int),
{
    let mut s = String::new();
    let mut i = lo;
    while i < hi
        invariant
            lo <= i <= hi <= v@.len(),
            s@ == v@.subrange(lo as int, i as int),
        decreases hi - i,
    {
        push_char(&mut s, v[i]);
        assert(v@.subrange(lo as int, i + 1) =~= v@.subrange(lo as int, i as int).push(v@[i as int]));
        i = i + 1;
    }
    s
}

/// The string made of all of `v`.
pub fn string_of_all(v: &[char]) -> (s: String)
    ensures
        s@ == v@,
{
    let s = string_of(v, 0, v.len());
    assert(v@.subrange(0, v@.len() as int) =~= v@);
    s
}

/// The sub-vector `v[lo..hi]`.
pub fn slice_vec(v: &[char], lo: usize, hi: usize) -> (r: Vec<char>)
    requires
        lo <= hi <= v@.len(),
    ensures
        r@ == v@.subrange(lo as int, hi as int),
{
    let mut r: Vec<char> = Vec::new();
    let mut i = lo;
    while i < hi
        invariant
            lo <= i <= hi <= v@.len(),
            r@ == v@.subrange(lo as int, i as int),
        decreases hi - i,
    {
        r.push(v[i]);
        assert(v@.subrange(lo as int, i + 1) =~= v@.subrange(lo as int, i as int).push(v@[i as int]));
        i = i + 1;
    }
    r
}

/// Does `p` occur in `s` at index `i`?
pub fn matches_at_exec(s: &[char], p: &[char], i: usize) -> (b: bool)
    ensures
        b == matches_at(s@, p@, i as int),
{
    if i > s.len() || p.len() > s.len() - i {
        return false;
    }
    let mut j: usize = 0;
    while j < p.len()
        invariant
            i + p.len() <= s.len(),
            j <= p.len(),
            forall|k: int| 0 <= k < j ==> s@[i + k] == p@[k],
        decreases p@.len() - j,
    {
        if s[i + j] != p[j] {
            assert(s@.subrange(i as int, i + p@.len())[j as int] != p@[j as int]);
            return false;
        }
        j = j + 1;
    }
    assert(s@.subrange(i as int, i + p@.len()) =~= p@);
    true
}

/// First index `>= from` at which `p` occurs in `s`.
pub fn find_from_exec(s: &[char], p: &[char], from: usize) -> (r: Option<usize>)
    ensures
        r matches Some(k) ==> find_from(s@, p@, from as int) == Some(k as int),
        r is None ==> find_from(s@, p@, from as int) is None,
{
    let mut i = from;
    loop
        invariant
            from <= i,
            find_from(s@, p@, from as int) == find_from(s@, p@, i as int),
        decreases s@.len() + 1 - i,
    {
        if i > s.len() || p.len() > s.len() - i {
            return None;
        }
        if p.len() == 0 || matches_at_exec(s, p, i) {
            return Some(i);
        }
        i = i + 1;
    }
}

/// First character index of a pattern.
pub fn find_exec(s: &[char], p: &[char]) -> (r: Option<usize>)
    ensures
        r matches Some(k) ==> find(s@, p@) == Some(k as int),
        r is None ==> find(s@, p@) is None,
{
    find_from_exec(s, p, 0)
}

pub fn starts_with_exec(s: &[char], p: &[char]) -> (b: bool)
    ensures
        b == starts_with(s@, p@),
{
    matches_at_exec(s, p, 0)
}

pub fn ends_with_exec(s: &[char], p: &[char]) -> (b: bool)
    ensures
        b == ends_with(s@, p@),
{
    if p.len() > s.len() {
        false
    } else {
        matches_at_exec(s, p, s.len() - p.len())
    }
}

pub fn contains_exec(s: &[char], p: &[char]) -> (b: bool)
    ensures
        b == contains(s@, p@),
{
    find_exec(s, p).is_some()
}

/// `str::split(char)`.
pub fn split_char_exec(s: &[char], c: char) -> (r: Vec<Vec<char>>)
    ensures
        r@.len() == split_char(s@, c).len(),
        forall|i: int| 0 <= i < r@.len() ==> #[trigger] r@[i]@ == split_char(s@, c)[i],
{
    let mut r: Vec<Vec<char>> = Vec::new();
    let mut cur: Vec<char> = Vec::new();
    let mut i: usize = 0;
    assert(s@.take(0) =~= Seq::<char>::empty());
    while i < s.len()
        invariant
            i <= s@.len(),
            r@.len() + 1 == split_char(s@.take(i as int), c).len(),
            forall|k: int| 0 <= k < r@.len() ==> #[trigger] r@[k]@ == split_char(s@.take(i as int), c)[k],
            cur@ == split_char(s@.take(i as int), c).last(),
        decreases s@.len() - i,
    {
        let ghost prev = split_char(s@.take(i as int), c);
        proof {
            lemma_split_char_nonempty(s@.take(i as int), c);
        }
        assert(s@.take(i + 1).drop_last() =~= s@.take(i as int));
        if s[i] == c {
            r.push(cur);
            cur = Vec::new();
        } else {
            cur.push(s[i]);
        }
        i = i + 1;
    }
    assert(s@.take(s@.len() as int) =~= s@);
    proof {
        lemma_split_char_nonempty(s@, c);
    }
    r.push(cur);
    r
}

/// `str::lines`.
pub fn lines_exec(s: &[char]) -> (r: Vec<Vec<char>>)
    ensures
        r@.len() == lines(s@).len(),
        forall|i: int| 0 <= i < r@.len() ==> #[trigger] r@[i]@ == lines(s@)[i],
{
    let parts = split_char_exec(s, '\n');
    proof {
        lemma_split_char_nonempty(s@, '\n');
    }
    let ghost sp = split_char(s@, '\n');
    let n = parts.len();
    let mut r: Vec<Vec<char>> = Vec::new();
    let mut i: usize = 0;
    while i + 1 < n
        invariant
            n == parts@.len() == sp.len() >= 1,
            forall|k: int| 0 <= k < n ==> #[trigger] parts@[k]@ == sp[k],
            i + 1 <= n,
            r@.len() == i,
            forall|k: int| 0 <= k < i ==> #[trigger] r@[k]@ == strip_cr(sp[k]),
        decreases n - i,
    {
        let p = &parts[i];
        let l = p.len();
        if l > 0 && p[l - 1] == '\r' {
            let q = slice_vec(p.as_slice(), 0, l - 1);
            assert(q@ =~= p@.drop_last());
            r.push(q);
        } else {
            let q = slice_vec(p.as_slice(), 0, l);
            assert(q@ =~= p@);
            r.push(q);
        }
        i = i + 1;
    }
    let last = &parts[n - 1];
    if last.len() > 0 {
        let q = slice_vec(last.as_slice(), 0, last.len());
        assert(q@ =~= last@);
        r.push(q);
    }
    assert(r@.len() == lines(s@).len());
    r
}

pub fn is_ws_exec(c: char) -> (b: bool)
    ensures
        b == is_ws(c),
{
    ('\t' <= c && c <= '\r') || c == ' ' || c == '\u{85}' || c == '\u{a0}' || c == '\u{1680}' || (
    '\u{2000}' <= c && c <= '\u{200a}') || c == '\u{2028}' || c == '\u{2029}' || c == '\u{202f}'
        || c == '\u{205f}' || c == '\u{3000}'
}

pub fn is_control_exec(c: char) -> (b: bool)
    ensures
        b == is_control(c),
{
    c <= '\u{1f}' || ('\u{7f}' <= c && c <= '\u{9f}')
}

/// Length of `trim_end(s[lo..hi])`, as an end index.
pub fn trim_end_index(s: &[char], lo: usize, hi: usize) -> (e: usize)
    requires
        lo <= hi <= s@.len(),
    ensures
        lo <= e <= hi,
        trim_end(s@.subrange(lo as int, hi as int)) == s@.subrange(lo as int, e as int),
{
    let mut e = hi;
    while e > lo && is_ws_exec(s[e - 1])
        invariant
            lo <= e <= hi <= s@.len(),
            trim_end(s@.subrange(lo as int, hi as int)) == trim_end(s@.subrange(lo as int, e as int)),
        decreases e,
    {
        assert(s@.subrange(lo as int, e as int).drop_last() =~= s@.subrange(lo as int, e - 1));
        e = e - 1;
    }
    e
}

/// Start index of `trim_start(s[lo..hi])`.
pub fn trim_start_index(s: &[char], lo: usize, hi: usize) -> (b: usize)
    requires
        lo <= hi <= s@.len(),
    ensures
        lo <= b <= hi,
        trim_start(s@.subrange(lo as int, hi as int)) == s@.subrange(b as int, hi as int),
{
    let mut b = lo;
    while b < hi && is_ws_exec(s[b])
        invariant
            lo <= b <= hi <= s@.len(),
            trim_start(s@.subrange(lo as int, hi as int)) == trim_start(s@.subrange(b as int, hi as int)),
        decreases hi - b,
    {
        assert(s@.subrange(b as int, hi as int).drop_first() =~= s@.subrange(b + 1, hi as int));
        b = b + 1;
    }
    b
}

/// `str::trim` of the whole of `s`, as a new vector.
pub fn trim_exec(s: &[char]) -> (r: Vec<char>)
    ensures
        r@ == trim(s@),
{
    let e = trim_end_index(s, 0, s.len());
    let b = trim_start_index(s, 0, e);
    assert(s@.subrange(0, s@.len() as int) =~= s@);
    slice_vec(s, b, e)
}

/// `str::trim_end` of the whole of `s`, as a new vector.
pub fn trim_end_exec(s: &[char]) -> (r: Vec<char>)
    ensures
        r@ == trim_end(s@),
{
    let e = trim_end_index(s, 0, s.len());
    assert(s@.subrange(0, s@.len() as int) =~= s@);
    slice_vec(s, 0, e)
}

/// Unsigned decimal parse bounded by `max`.
pub fn parse_unsigned_exec(s: &[char], max: u64) -> (r: Option<u64>)
    requires
        9 <= max,
    ensures
        r matches Some(v) ==> parse_unsigned(s@, max as nat) == Some(v as nat),
        r is None ==> parse_unsigned(s@, max as nat) is None,
{
    let start: usize = if s.len() > 0 && s[0] == '+' {
        1
    } else {
        0
    };
    let ghost d = if s@.len() > 0 && s@[0] == '+' {
        s@.drop_first()
    } else {
        s@
    };
    assert(d =~= s@.skip(start as int));
    if start >= s.len() {
        return None;
    }
    let mut v: u64 = 0;
    let mut i = start;
    assert(d.take(0) =~= Seq::<char>::empty());
    while i < s.len()
        invariant
            start <= i <= s@.len(),
            9 <= max,
            d == (if s@.len() > 0 && s@[0] == '+' {
                s@.drop_first()
            } else {
                s@
            }),
            d == s@.skip(start as int),
            d.len() == s@.len() - start,
            all_digits(d.take(i - start)),
            v as nat == digits_value(d.take(i - start)),
            v <= max,
        decreases s@.len() - i,
    {
        let c = s[i];
        assert(d.take(i - start + 1).drop_last() =~= d.take(i - start));
        assert(d[i - start] == c);
        if !('0' <= c && c <= '9') {
            assert(!is_digit(d[i - start]));
            assert(!all_digits(d));
            return None;
        }
        let digit = (c as u64) - ('0' as u64);
        if v > (max - digit) / 10 {
            proof {
                assert(all_digits(d.take(i - start + 1)));
                assert(digits_value(d.take(i - start + 1)) == v * 10 + digit);
                assert(v * 10 + digit > max) by (nonlinear_arith)
                    requires
                        v > (max - digit) / 10,
                        digit <= 9,
                        digit <= max,
                ;
                if all_digits(d) {
                    lemma_digits_value_monotone(d, i - start + 1);
                }
            }
            return None;
        }
        proof {
            assert(v * 10 + digit <= max) by (nonlinear_arith)
                requires
                    v <= (max - digit) / 10,
                    digit <= max,
            ;
        }
        v = v * 10 + digit;
        i = i + 1;
    }
    assert(d.take(s@.len() - start) =~= d);
    Some(v)
}


/// `s.split(c).next()`: the text before the first `c`.
pub fn before_char_exec(s: &[char], c: char) -> (r: Vec<char>)
    ensures
        r@ == before_char(s@, c),
{
    let p = vec![c];
    assert(p@ =~= seq![c]);
    match find_exec(s, p.as_slice()) {
        Some(i) => {
            proof {
                lemma_find_bounds(s@, p@);
            }
            let r = slice_vec(s, 0, i);
            assert(r@ =~= s@.take(i as int));
            r
        },
        None => {
            let r = slice_vec(s, 0, s.len());
            assert(r@ =~= s@);
            r
        },
    }
}

/// `s.rsplit(c).next()`: the text after the last `c`.
pub fn after_last_char_exec(s: &[char], c: char) -> (r: Vec<char>)
    ensures
        r@ == after_last_char(s@, c),
{
    let mut b = s.len();
    assert(s@.take(b as int) =~= s@);
    assert(s@.skip(b as int) =~= Seq::<char>::empty());
    assert(after_last_char(s@, c) + Seq::<char>::empty() =~= after_last_char(s@, c));
    while b > 0 && s[b - 1] != c
        invariant
            b <= s@.len(),
            after_last_char(s@, c) == after_last_char(s@.take(b as int), c) + s@.skip(b as int),
        decreases b,
    {
        let ghost t = s@.take(b as int);
        assert(t.drop_last() =~= s@.take(b - 1));
        assert(s@.skip(b - 1) =~= seq![s@[b - 1]] + s@.skip(b as int));
        assert(after_last_char(t, c) == after_last_char(t.drop_last(), c).push(t.last()));
        assert(after_last_char(t.drop_last(), c).push(t.last()) + s@.skip(b as int)
            =~= after_last_char(t.drop_last(), c) + s@.skip(b - 1));
        b = b - 1;
    }
    proof {
        if b > 0 {
            assert(after_last_char(s@.take(b as int), c) =~= Seq::<char>::empty());
        } else {
            assert(s@.take(0) =~= Seq::<char>::empty());
        }
        assert(Seq::<char>::empty() + s@.skip(b as int) =~= s@.skip(b as int));
        assert(s@.skip(b as int) =~= s@.subrange(b as int, s@.len() as int));
    }
    slice_vec(s, b, s.len())
}

/// Index of the first character that is not `c`.
pub fn trim_start_char_index(s: &[char], c: char) -> (b: usize)
    ensures
        b <= s@.len(),
        trim_start_char(s@, c) == s@.skip(b as int),
{
    let mut b: usize = 0;
    assert(s@.skip(0) =~= s@);
    while b < s.len() && s[b] == c
        invariant
            b <= s@.len(),
            trim_start_char(s@, c) == trim_start_char(s@.skip(b as int), c),
        decreases s@.len() - b,
    {
        assert(s@.skip(b as int).drop_first() =~= s@.skip(b + 1));
        b = b + 1;
    }
    b
}

/// `str::trim_start_matches(char)`.
pub fn trim_start_char_exec(s: &[char], c: char) -> (r: Vec<char>)
    ensures
        r@ == trim_start_char(s@, c),
{
    let b = trim_start_char_index(s, c);
    assert(s@.skip(b as int) =~= s@.subrange(b as int, s@.len() as int));
    slice_vec(s, b, s.len())
}

/// Appends the decimal representation of `n`.
pub fn push_dec(out: &mut Vec<char>, n: u64)
    ensures
        final(out)@ == old(out)@ + dec(n as nat),
    decreases n,
{
    if n < 10 {
        out.push(((n as u8) + 48u8) as char);
        assert(old(out)@.push(digit_char(n as nat)) =~= old(out)@ + seq![digit_char(n as nat)]);
    } else {
        push_dec(out, n / 10);
        out.push((((n % 10) as u8) + 48u8) as char);
        assert(old(out)@ + dec((n / 10) as nat) + seq![digit_char((n % 10) as nat)] =~= old(out)@ + dec(
            n as nat,
        ));
    }
}

/// Appends every character of `t`.
pub fn push_all(out: &mut Vec<char>, t: &[char])
    ensures
        final(out)@ == old(out)@ + t@,
{
    let mut i: usize = 0;
    while i < t.len()
        invariant
            i <= t@.len(),
            out@ == old(out)@ + t@.take(i as int),
        decreases t@.len() - i,
    {
        out.push(t[i]);
        assert(t@.take(i + 1) =~= t@.take(i as int).push(t@[i as int]));
        i = i + 1;
    }
    assert(t@.take(t@.len() as int) =~= t@);
}

/// Appends the characters of a string slice.
pub fn push_str(out: &mut Vec<char>, t: &str)
    ensures
        final(out)@ == old(out)@ + t@,
{
    let v = chars_of(t);
    push_all(out, v.as_slice());
}

/// Vectors with the same characters.
pub fn chars_eq(a: &[char], b: &[char]) -> (r: bool)
    ensures
        r == (a@ == b@),
{
    if a.len() != b.len() {
        return false;
    }
    let r = matches_at_exec(a, b, 0);
    assert(r ==> a@ =~= b@) by {
        if r {
            assert(a@.subrange(0, b@.len() as int) =~= a@);
        }
    }
    assert(a@ == b@ ==> a@.subrange(0, b@.len() as int) =~= b@);
    r
}

/// Index after the last character that is not `c`.
pub fn trim_end_char_exec(s: &[char], c: char) -> (r: Vec<char>)
    ensures
        r@ == trim_end_char(s@, c),
{
    let mut e = s.len();
    assert(s@.take(e as int) =~= s@);
    while e > 0 && s[e - 1] == c
        invariant
            e <= s@.len(),
            trim_end_char(s@, c) == trim_end_char(s@.take(e as int), c),
        decreases e,
    {
        assert(s@.take(e as int).drop_last() =~= s@.take(e - 1));
        e = e - 1;
    }
    assert(s@.take(e as int) =~= s@.subrange(0, e as int));
    slice_vec(s, 0, e)
}

/// `str::strip_prefix`.
pub fn strip_prefix_exec(s: &[char], p: &[char]) -> (r: Option<Vec<char>>)
    ensures
        r matches Some(t) ==> strip_prefix(s@, p@) == Some(t@),
        r is None ==> strip_prefix(s@, p@) is None,
{
    if starts_with_exec(s, p) {
        let t = slice_vec(s, p.len(), s.len());
        assert(t@ =~= s@.skip(p@.len() as int));
        Some(t)
    } else {
        None
    }
}

/// `str::strip_suffix`.
pub fn strip_suffix_exec(s: &[char], p: &[char]) -> (r: Option<Vec<char>>)
    ensures
        r matches Some(t) ==> strip_suffix(s@, p@) == Some(t@),
        r is None ==> strip_suffix(s@, p@) is None,
{
    if ends_with_exec(s, p) {
        let t = slice_vec(s, 0, s.len() - p.len());
        assert(t@ =~= s@.take(s@.len() - p@.len()));
        Some(t)
    } else {
        None
    }
}

/// `str::splitn(n, char)`.
pub fn splitn_char_exec(s: &[char], n: usize, c: char) -> (r: Vec<Vec<char>>)
    ensures
        r@.len() == splitn_char(s@, n as nat, c).len(),
        forall|i: int| 0 <= i < r@.len() ==> #[trigger] r@[i]@ == splitn_char(s@, n as nat, c)[i],
{
    let mut r: Vec<Vec<char>> = Vec::new();
    if n == 0 {
        return r;
    }
    let cv = vec![c];
    assert(cv@ =~= seq![c]);
    let mut rest = slice_vec(s, 0, s.len());
    assert(rest@ =~= s@);
    let mut k: usize = n;
    while k > 1
        invariant
            1 <= k <= n,
            cv@ == seq![c],
            r@.len() + splitn_char(rest@, k as nat, c).len() == splitn_char(s@, n as nat, c).len(),
            forall|i: int| 0 <= i < r@.len() ==> #[trigger] r@[i]@ == splitn_char(s@, n as nat, c)[i],
            forall|i: int|
                0 <= i < splitn_char(rest@, k as nat, c).len() ==> #[trigger] splitn_char(
                    rest@,
                    k as nat,
                    c,
                )[i] == splitn_char(s@, n as nat, c)[r@.len() + i],
        decreases k,
    {
        match find_exec(rest.as_slice(), cv.as_slice()) {
            Some(i) => {
                proof {
                    lemma_find_bounds(rest@, cv@);
                }
                let rl = rest.len();
                assert(i + 1 <= rl);
                let head = slice_vec(rest.as_slice(), 0, i);
                let tail = slice_vec(rest.as_slice(), i + 1, rl);
                assert(head@ =~= rest@.take(i as int));
                assert(tail@ =~= rest@.skip(i + 1));
                let ghost old_rest = rest@;
                let ghost old_k = k;
                let ghost ln: int = r@.len() as int;
                assert(splitn_char(old_rest, k as nat, c) == seq![head@] + splitn_char(
                    tail@,
                    (k - 1) as nat,
                    c,
                ));
                assert(splitn_char(old_rest, k as nat, c)[0] == splitn_char(s@, n as nat, c)[ln + 0]);
                r.push(head);
                rest = tail;
                k = k - 1;
                assert forall|j: int|
                    0 <= j < splitn_char(rest@, k as nat, c).len() implies #[trigger] splitn_char(
                    rest@,
                    k as nat,
                    c,
                )[j] == splitn_char(s@, n as nat, c)[r@.len() + j] by {
                    assert(splitn_char(rest@, k as nat, c)[j] == splitn_char(old_rest, old_k as nat, c)[j
                        + 1]);
                }
            },
            None => {
                assert(splitn_char(rest@, k as nat, c) == seq![rest@]);
                let ghost old_len: int = r@.len() as int;
                assert(splitn_char(rest@, k as nat, c)[0] == splitn_char(s@, n as nat, c)[old_len + 0]);
                r.push(rest);
                return r;
            },
        }
    }
    assert(splitn_char(rest@, k as nat, c) == seq![rest@]);
    let ghost old_len: int = r@.len() as int;
    assert(splitn_char(rest@, k as nat, c)[0] == splitn_char(s@, n as nat, c)[old_len + 0]);
    r.push(rest);
    r
}

/// `str::split(&str)` for a non-empty pattern.
pub fn split_str_exec(s: &[char], p: &[char]) -> (r: Vec<Vec<char>>)
    requires
        p@.len() > 0,
    ensures
        r@.len() == split_str(s@, p@).len(),
        forall|i: int| 0 <= i < r@.len() ==> #[trigger] r@[i]@ == split_str(s@, p@)[i],
{
    let mut r: Vec<Vec<char>> = Vec::new();
    let mut rest = slice_vec(s, 0, s.len());
    assert(rest@ =~= s@);
    loop
        invariant
            p@.len() > 0,
            r@.len() + split_str(rest@, p@).len() == split_str(s@, p@).len(),
            forall|i: int| 0 <= i < r@.len() ==> #[trigger] r@[i]@ == split_str(s@, p@)[i],
            forall|i: int|
                0 <= i < split_str(rest@, p@).len() ==> #[trigger] split_str(rest@, p@)[i]
                    == split_str(s@, p@)[r@.len() + i],
        decreases rest@.len(),
    {
        match find_exec(rest.as_slice(), p) {
            Some(i) => {
                proof {
                    lemma_find_bounds(rest@, p@);
                }
                let rl = rest.len();
                assert(i + p.len() <= rl);
                let head = slice_vec(rest.as_slice(), 0, i);
                let tail = slice_vec(rest.as_slice(), i + p.len(), rl);
                assert(head@ =~= rest@.take(i as int));
                assert(tail@ =~= rest@.skip(i + p@.len()));
                let ghost old_rest = rest@;
                let ghost ln: int = r@.len() as int;
                assert(split_str(old_rest, p@) == seq![head@] + split_str(tail@, p@));
                assert(split_str(old_rest, p@)[0] == split_str(s@, p@)[ln + 0]);
                r.push(head);
                rest = tail;
                assert forall|j: int|
                    0 <= j < split_str(rest@, p@).len() implies #[trigger] split_str(rest@, p@)[j]
                    == split_str(s@, p@)[r@.len() + j] by {
                    assert(split_str(rest@, p@)[j] == split_str(old_rest, p@)[j + 1]);
                }
            },
            None => {
                assert(split_str(rest@, p@) == seq![rest@]);
                let ghost old_len: int = r@.len() as int;
                assert(split_str(rest@, p@)[0] == split_str(s@, p@)[old_len + 0]);
                r.push(rest);
                return r;
            },
        }
    }
}

/// `str::split_whitespace`.
pub fn split_ws_exec(s: &[char]) -> (r: Vec<Vec<char>>)
    ensures
        r@.len() == split_ws(s@).len(),
        forall|i: int| 0 <= i < r@.len() ==> #[trigger] r@[i]@ == split_ws(s@)[i],
{
    let mut r: Vec<Vec<char>> = Vec::new();
    let mut cur: Vec<char> = Vec::new();
    let mut i: usize = 0;
    assert(s@.take(0) =~= Seq::<char>::empty());
    while i < s.len()
        invariant
            i <= s@.len(),
            r@.len() == ws_words_state(s@.take(i as int)).0.len(),
            forall|k: int| 0 <= k < r@.len() ==> #[trigger] r@[k]@ == ws_words_state(s@.take(i as int)).0[k],
            cur@ == ws_words_state(s@.take(i as int)).1,
        decreases s@.len() - i,
    {
        assert(s@.take(i + 1).drop_last() =~= s@.take(i as int));
        if is_ws_exec(s[i]) {
            if cur.len() > 0 {
                r.push(cur);
                cur = Vec::new();
            }
        } else {
            cur.push(s[i]);
        }
        i = i + 1;
    }
    assert(s@.take(s@.len() as int) =~= s@);
    if cur.len() > 0 {
        r.push(cur);
    }
    r
}

/// `str::to_ascii_lowercase`.
pub fn ascii_lower_exec(s: &[char]) -> (r: Vec<char>)
    ensures
        r@ == ascii_lower(s@),
{
    let mut r: Vec<char> = Vec::new();
    let mut i: usize = 0;
    while i < s.len()
        invariant
            i <= s@.len(),
            r@ == ascii_lower(s@.take(i as int)),
        decreases s@.len() - i,
    {
        let c = s[i];
        let d = if 'A' <= c && c <= 'Z' {
            ((c as u8) + 32) as char
        } else {
            c
        };
        r.push(d);
        assert(ascii_lower(s@.take(i + 1)) =~= ascii_lower(s@.take(i as int)).push(d));
        i = i + 1;
    }
    assert(s@.take(s@.len() as int) =~= s@);
    r
}

/// The characters equal a string literal.
pub fn eq_lit(v: &[char], lit: &str) -> (b: bool)
    ensures
        b == (v@ == lit@),
{
    let l = chars_of(lit);
    chars_eq(v, l.as_slice())
}

/// Starts with a string literal.
pub fn starts_lit(v: &[char], lit: &str) -> (b: bool)
    ensures
        b == starts_with(v@, lit@),
{
    let l = chars_of(lit);
    starts_with_exec(v, l.as_slice())
}

/// Ends with a string literal.
pub fn ends_lit(v: &[char], lit: &str) -> (b: bool)
    ensures
        b == ends_with(v@, lit@),
{
    let l = chars_of(lit);
    ends_with_exec(v, l.as_slice())
}

/// Contains a string literal.
pub fn contains_lit(v: &[char], lit: &str) -> (b: bool)
    ensures
        b == contains(v@, lit@),
{
    let l = chars_of(lit);
    contains_exec(v, l.as_slice())
}

/// `str::strip_prefix` of a string literal.
pub fn strip_lit(v: &[char], lit: &str) -> (r: Option<Vec<char>>)
    ensures
        r matches Some(t) ==> strip_prefix(v@, lit@) == Some(t@),
        r is None ==> strip_prefix(v@, lit@) is None,
{
    let l = chars_of(lit);
    strip_prefix_exec(v, l.as_slice())
}

/// An ASCII character.
pub fn is_ascii_exec(c: char) -> (b: bool)
    ensures
        b == ascii_char(c),
{
    (c as u32) < 128
}


// ---------------------------------------------------------------------------
// Order and byte length of text
// ---------------------------------------------------------------------------

/// `str`'s `<`: lexicographic by code point (UTF-8 byte order agrees with it).
pub open spec fn lex_lt(a: Seq<char>, b: Seq<char>) -> bool
    decreases a.len(),
{
    if b.len() == 0 {
        false
    } else if a.len() == 0 {
        true
    } else if a[0] != b[0] {
        a[0] < b[0]
    } else {
        lex_lt(a.drop_first(), b.drop_first())
    }
}

pub proof fn lemma_lex_irreflexive(a: Seq<char>)
    ensures
        !lex_lt(a, a),
    decreases a.len(),
{
    if a.len() > 0 {
        lemma_lex_irreflexive(a.drop_first());
    }
}

pub proof fn lemma_lex_asymmetric(a: Seq<char>, b: Seq<char>)
    ensures
        lex_lt(a, b) ==> !lex_lt(b, a),
    decreases a.len(),
{
    if a.len() > 0 && b.len() > 0 && a[0] == b[0] {
        lemma_lex_asymmetric(a.drop_first(), b.drop_first());
    }
}

pub proof fn lemma_lex_transitive(a: Seq<char>, b: Seq<char>, c: Seq<char>)
    ensures
        lex_lt(a, b) && lex_lt(b, c) ==> lex_lt(a, c),
    decreases a.len(),
{
    if a.len() > 0 && b.len() > 0 && c.len() > 0 {
        lemma_lex_transitive(a.drop_first(), b.drop_first(), c.drop_first());
    }
}

pub proof fn lemma_lex_total(a: Seq<char>, b: Seq<char>)
    ensures
        a != b ==> lex_lt(a, b) || lex_lt(b, a),
    decreases a.len(),
{
    if a.len() > 0 && b.len() > 0 && a[0] == b[0] {
        lemma_lex_total(a.drop_first(), b.drop_first());
        if a.drop_first() == b.drop_first() {
            assert(a =~= seq![a[0]] + a.drop_first());
            assert(b =~= seq![b[0]] + b.drop_first());
        }
    } else if a.len() == 0 && b.len() == 0 {
        assert(a =~= b);
    }
}

/// `a < b` on text.
pub fn lex_lt_exec(a: &[char], b: &[char]) -> (r: bool)
    ensures
        r == lex_lt(a@, b@),
{
    let mut i: usize = 0;
    assert(a@.skip(0) =~= a@ && b@.skip(0) =~= b@);
    while i < a.len() && i < b.len() && a[i] == b[i]
        invariant
            i <= a@.len(),
            i <= b@.len(),
            lex_lt(a@, b@) == lex_lt(a@.skip(i as int), b@.skip(i as int)),
        decreases a@.len() - i,
    {
        assert(a@.skip(i as int).drop_first() =~= a@.skip(i + 1));
        assert(b@.skip(i as int).drop_first() =~= b@.skip(i + 1));
        i = i + 1;
    }
    if i == b.len() {
        false
    } else if i == a.len() {
        true
    } else {
        a[i] < b[i]
    }
}

/// The number of UTF-8 bytes of a character.
pub open spec fn utf8_width(c: char) -> nat {
    if (c as u32) < 0x80 {
        1
    } else if (c as u32) < 0x800 {
        2
    } else if (c as u32) < 0x10000 {
        3
    } else {
        4
    }
}

/// Where the first `n` UTF-8 bytes of a text end.
pub enum ByteCut {
    /// The text has fewer than `n` bytes.
    Short,
    /// The first `k` characters take exactly `n` bytes.
    At(nat),
    /// Byte `n` falls inside a character (`&s[..n]` panics there).
    Inside,
}

pub open spec fn cut_bytes(s: Seq<char>, n: nat) -> ByteCut
    decreases s.len(),
{
    if n == 0 {
        ByteCut::At(0)
    } else if s.len() == 0 {
        ByteCut::Short
    } else if utf8_width(s[0]) > n {
        ByteCut::Inside
    } else {
        match cut_bytes(s.drop_first(), (n - utf8_width(s[0])) as nat) {
            ByteCut::At(k) => ByteCut::At(k + 1),
            other => other,
        }
    }
}

/// `ByteCut` with the count of characters as a machine integer.
pub enum CutAt {
    Short,
    At(usize),
    Inside,
}

impl View for CutAt {
    type V = ByteCut;

    open spec fn view(&self) -> ByteCut {
        match self {
            CutAt::Short => ByteCut::Short,
            CutAt::At(k) => ByteCut::At(*k as nat),
            CutAt::Inside => ByteCut::Inside,
        }
    }
}

pub fn utf8_width_exec(c: char) -> (w: usize)
    ensures
        w == utf8_width(c),
{
    let u = c as u32;
    if u < 0x80 {
        1
    } else if u < 0x800 {
        2
    } else if u < 0x10000 {
        3
    } else {
        4
    }
}

/// `cut_bytes`, computed.
pub fn cut_bytes_exec(s: &[char], n: usize) -> (r: CutAt)
    ensures
        r@ == cut_bytes(s@, n as nat),
        r matches CutAt::At(k) ==> k <= s@.len(),
{
    let mut i: usize = 0;
    let mut rem: usize = n;
    assert(s@.skip(0) =~= s@);
    while rem > 0 && i < s.len() && utf8_width_exec(s[i]) <= rem
        invariant
            i <= s@.len(),
            rem <= n,
            cut_bytes(s@, n as nat) == (match cut_bytes(s@.skip(i as int), rem as nat) {
                ByteCut::At(k) => ByteCut::At(k + i as nat),
                other => other,
            }),
        decreases s@.len() - i,
    {
        assert(s@.skip(i as int).drop_first() =~= s@.skip(i + 1));
        assert(s@.skip(i as int)[0] == s@[i as int]);
        let w = utf8_width_exec(s[i]);
        rem = rem - w;
        i = i + 1;
    }
    if rem == 0 {
        CutAt::At(i)
    } else if i == s.len() {
        assert(s@.skip(i as int).len() == 0);
        CutAt::Short
    } else {
        assert(s@.skip(i as int)[0] == s@[i as int]);
        CutAt::Inside
    }
}

/// `i64::from_str`: an optional sign, then decimal digits, within range.
pub open spec fn parse_i64(s: Seq<char>) -> Option<i64> {
    if s.len() > 0 && s[0] == '-' {
        let d = s.drop_first();
        if d.len() > 0 && all_digits(d) && digits_value(d) <= 0x8000_0000_0000_0000 {
            Some((-(digits_value(d) as int)) as i64)
        } else {
            None
        }
    } else {
        match parse_unsigned(s, i64::MAX as nat) {
            Some(v) => Some(v as i64),
            None => None,
        }
    }
}

pub fn parse_i64_exec(s: &[char]) -> (r: Option<i64>)
    ensures
        r == parse_i64(s@),
{
    if s.len() > 0 && s[0] == '-' {
        let d = slice_vec(s, 1, s.len());
        assert(d@ =~= s@.drop_first());
        if d.len() == 0 || d[0] == '+' {
            assert(d@.len() > 0 ==> !is_digit(d@[0]));
            return None;
        }
        match parse_unsigned_exec(d.as_slice(), 0x8000_0000_0000_0000u64) {
            Some(v) => {
                if v == 0x8000_0000_0000_0000u64 {
                    Some(i64::MIN)
                } else {
                    Some(-(v as i64))
                }
            },
            None => None,
        }
    } else {
        match parse_unsigned_exec(s, i64::MAX as u64) {
            Some(v) => Some(v as i64),
            None => None,
        }
    }
}

} // verus!
