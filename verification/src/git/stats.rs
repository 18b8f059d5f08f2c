//! Repository statistics from `git log --numstat` output: commits,
//! insertions and deletions per author, and activity by weekday, hour, month
//! and day.
use vstd::prelude::*;
use super::hunk::{
    arg, strs,
};
use super::types::{
    AuthorStat, AuthorStatV, DayEntry, MonthEntry, RepoStats, RepoStatsV,
};
use crate::text::{
    ByteCut, CutAt, dec, push_dec, push_str, chars_eq, chars_of, cut_bytes, cut_bytes_exec, lex_lt,
    lex_lt_exec, lines, lines_exec, parse_unsigned, parse_unsigned_exec, slice_vec, split_char,
    split_char_exec, splitn_char, splitn_char_exec, strip_lit, strip_prefix, string_of_all,
    lemma_lex_irreflexive, lemma_lex_total, lemma_lex_transitive,
};

verus! {

/// What is gathered about one author (keyed by e-mail).
pub struct AuthorAcc {
    pub name: Seq<char>,
    pub email: Seq<char>,
    pub commits: int,
    pub insertions: int,
    pub deletions: int,
    /// The distinct commit dates, in order of first appearance.
    pub days: Seq<Seq<char>>,
    pub first: Seq<char>,
    pub last: Seq<char>,
}

/// The statistics after a prefix of the log lines.
pub struct StatsState {
    /// Authors in order of first appearance.
    pub authors: Seq<AuthorAcc>,
    /// The distinct commit dates.
    pub days: Seq<Seq<char>>,
    pub weekday: Seq<int>,
    pub hour: Seq<int>,
    pub months: Map<Seq<char>, int>,
    pub day_counts: Map<Seq<char>, int>,
    /// The author of the latest commit header; numstat lines count for them.
    pub cur_email: Seq<char>,
    /// A counter went past `u32::MAX`, or a month was cut inside a character:
    /// no statistics can be given.
    pub fails: bool,
}

pub open spec fn author_index(s: Seq<AuthorAcc>, email: Seq<char>) -> Option<int>
    decreases s.len(),
{
    if s.len() == 0 {
        None
    } else {
        match author_index(s.drop_last(), email) {
            Some(i) => Some(i),
            None => if s.last().email == email {
                Some(s.len() - 1)
            } else {
                None
            },
        }
    }
}

pub open spec fn with_day(ds: Seq<Seq<char>>, d: Seq<char>) -> Seq<Seq<char>> {
    if ds.contains(d) {
        ds
    } else {
        ds.push(d)
    }
}

pub open spec fn count_of(m: Map<Seq<char>, int>, k: Seq<char>) -> int {
    if m.contains_key(k) {
        m[k]
    } else {
        0
    }
}

pub open spec fn bump(m: Map<Seq<char>, int>, k: Seq<char>) -> Map<Seq<char>, int> {
    m.insert(k, count_of(m, k) + 1)
}

/// `s.parse::<usize>().unwrap_or(0)`.
pub open spec fn usize_or_zero(s: Seq<char>) -> int {
    match parse_unsigned(s, usize::MAX as nat) {
        Some(v) => v as int,
        None => 0,
    }
}

/// The month of a date: its first 7 bytes.
pub open spec fn month_of(ymd: Seq<char>) -> Option<Seq<char>> {
    match cut_bytes(ymd, 7) {
        ByteCut::At(k) => Some(ymd.take(k as int)),
        _ => None,
    }
}

/// A commit header `<email>\x01<name>\x01<YYYY-MM-DD HH W>`; headers with
/// fewer fields are skipped.
pub open spec fn commit_step(st: StatsState, rest: Seq<char>) -> StatsState {
    let parts = splitn_char(rest, 3, '\u{1}');
    let dp = if parts.len() >= 3 {
        split_char(parts[2], ' ')
    } else {
        Seq::empty()
    };
    if parts.len() < 3 || dp.len() < 3 {
        st
    } else {
        let email = parts[0];
        let name = parts[1];
        let ymd = dp[0];
        let h = if usize_or_zero(dp[1]) < 23 {
            usize_or_zero(dp[1])
        } else {
            23
        };
        let w = (usize_or_zero(dp[2]) + 6) % 7;
        let weekday = st.weekday.update(w, st.weekday[w] + 1);
        let hour = st.hour.update(h, st.hour[h] + 1);
        let months = match month_of(ymd) {
            Some(m) => bump(st.months, m),
            None => st.months,
        };
        let day_counts = bump(st.day_counts, ymd);
        let (authors, commits) = match author_index(st.authors, email) {
            Some(i) => {
                let a = st.authors[i];
                (
                    st.authors.update(
                        i,
                        AuthorAcc {
                            name,
                            commits: a.commits + 1,
                            days: with_day(a.days, ymd),
                            first: if lex_lt(ymd, a.first) {
                                ymd
                            } else {
                                a.first
                            },
                            last: if lex_lt(a.last, ymd) {
                                ymd
                            } else {
                                a.last
                            },
                            ..a
                        },
                    ),
                    a.commits + 1,
                )
            },
            None => (
                st.authors.push(
                    AuthorAcc {
                        name,
                        email,
                        commits: 1,
                        insertions: 0,
                        deletions: 0,
                        days: seq![ymd],
                        first: ymd,
                        last: ymd,
                    },
                ),
                1,
            ),
        };
        StatsState {
            authors,
            days: with_day(st.days, ymd),
            weekday,
            hour,
            months,
            day_counts,
            cur_email: email,
            fails: st.fails || cut_bytes(ymd, 7) is Inside || weekday[w] > u32::MAX || hour[h]
                > u32::MAX || (month_of(ymd) matches Some(m) && months[m] > u32::MAX)
                || day_counts[ymd] > u32::MAX || commits > u32::MAX,
        }
    }
}

/// A numstat line `<ins>\t<del>\t<file>` adds to the current author; binary
/// files (`-\t-\t...`) and other lines change nothing.
pub open spec fn numstat_step(st: StatsState, line: Seq<char>) -> StatsState {
    let parts = splitn_char(line, 3, '\t');
    if parts.len() >= 2 {
        match (parse_unsigned(parts[0], u32::MAX as nat), parse_unsigned(parts[1], u32::MAX as nat)) {
            (Some(ins), Some(del)) => match author_index(st.authors, st.cur_email) {
                Some(i) => {
                    let a = st.authors[i];
                    let a2 = AuthorAcc {
                        insertions: a.insertions + ins,
                        deletions: a.deletions + del,
                        ..a
                    };
                    StatsState {
                        authors: st.authors.update(i, a2),
                        fails: st.fails || a2.insertions > u32::MAX || a2.deletions > u32::MAX,
                        ..st
                    }
                },
                None => st,
            },
            _ => st,
        }
    } else {
        st
    }
}

pub open spec fn stats_step(st: StatsState, line: Seq<char>) -> StatsState {
    match strip_prefix(line, "COMMIT\u{1}"@) {
        Some(rest) => commit_step(st, rest),
        None => numstat_step(st, line),
    }
}

pub open spec fn stats_init() -> StatsState {
    StatsState {
        authors: Seq::empty(),
        days: Seq::empty(),
        weekday: Seq::new(7, |i: int| 0int),
        hour: Seq::new(24, |i: int| 0int),
        months: Map::empty(),
        day_counts: Map::empty(),
        cur_email: Seq::empty(),
        fails: false,
    }
}

pub open spec fn stats_fold(ls: Seq<Seq<char>>) -> StatsState
    decreases ls.len(),
{
    if ls.len() == 0 {
        stats_init()
    } else {
        stats_step(stats_fold(ls.drop_last()), ls.last())
    }
}

pub open spec fn total(s: Seq<int>) -> int
    decreases s.len(),
{
    if s.len() == 0 {
        0
    } else {
        total(s.drop_last()) + s.last()
    }
}

pub open spec fn commits_of(s: Seq<AuthorAcc>) -> Seq<int> {
    s.map_values(|a: AuthorAcc| a.commits)
}

pub open spec fn insertions_of(s: Seq<AuthorAcc>) -> Seq<int> {
    s.map_values(|a: AuthorAcc| a.insertions)
}

pub open spec fn deletions_of(s: Seq<AuthorAcc>) -> Seq<int> {
    s.map_values(|a: AuthorAcc| a.deletions)
}

/// The earliest first date of all authors ("" when there is none).
pub open spec fn min_first(s: Seq<AuthorAcc>) -> Seq<char>
    decreases s.len(),
{
    if s.len() == 0 {
        Seq::empty()
    } else if s.len() == 1 {
        s[0].first
    } else if lex_lt(s.last().first, min_first(s.drop_last())) {
        s.last().first
    } else {
        min_first(s.drop_last())
    }
}

/// The latest last date of all authors ("" when there is none).
pub open spec fn max_last(s: Seq<AuthorAcc>) -> Seq<char>
    decreases s.len(),
{
    if s.len() == 0 {
        Seq::empty()
    } else if s.len() == 1 {
        s[0].last
    } else if lex_lt(max_last(s.drop_last()), s.last().last) {
        s.last().last
    } else {
        max_last(s.drop_last())
    }
}

pub open spec fn author_stat(a: AuthorAcc) -> AuthorStatV {
    AuthorStatV {
        name: a.name,
        email: a.email,
        commits: a.commits as u32,
        insertions: a.insertions as u32,
        deletions: a.deletions as u32,
        active_days: a.days.len() as u32,
        first_date: a.first,
        last_date: a.last,
    }
}

/// The first place in a list sorted by descending commits where `c` goes
/// after every entry with at least `c` commits.
pub open spec fn desc_slot(s: Seq<AuthorStatV>, c: u32) -> int
    decreases s.len(),
{
    if s.len() == 0 {
        0
    } else if s[0].commits < c {
        0
    } else {
        1 + desc_slot(s.drop_first(), c)
    }
}

/// Stable sort by descending commits.
pub open spec fn sort_desc(s: Seq<AuthorStatV>) -> Seq<AuthorStatV>
    decreases s.len(),
{
    if s.len() == 0 {
        s
    } else {
        let r = sort_desc(s.drop_last());
        r.insert(desc_slot(r, s.last().commits), s.last())
    }
}

/// A table of counts sorted by strictly increasing key that lists exactly
/// the entries of `m`.
pub open spec fn table_of(t: Seq<(Seq<char>, u32)>, m: Map<Seq<char>, int>) -> bool {
    &&& forall|i: int, j: int| 0 <= i < j < t.len() ==> lex_lt(#[trigger] t[i].0, #[trigger] t[j].0)
    &&& forall|i: int|
        0 <= i < t.len() ==> m.contains_key(#[trigger] t[i].0) && m[t[i].0] == t[i].1 as int
    &&& forall|k: Seq<char>|
        #[trigger] m.contains_key(k) ==> exists|i: int| 0 <= i < t.len() && #[trigger] t[i].0 == k
}

/// No statistics can be given: a counter or a total went past `u32::MAX`,
/// or a month was cut inside a character.
pub open spec fn stats_fail(out: Seq<char>) -> bool {
    let st = stats_fold(lines(out));
    st.fails || total(commits_of(st.authors)) > u32::MAX || total(insertions_of(st.authors))
        > u32::MAX || total(deletions_of(st.authors)) > u32::MAX
}

/// What the statistics of a log are, when `stats_fail` does not hold.
pub open spec fn stats_match(r: RepoStatsV, out: Seq<char>) -> bool {
    let st = stats_fold(lines(out));
    &&& r.total_commits == total(commits_of(st.authors))
    &&& r.total_insertions == total(insertions_of(st.authors))
    &&& r.total_deletions == total(deletions_of(st.authors))
    &&& r.first_commit_date == min_first(st.authors)
    &&& r.last_commit_date == max_last(st.authors)
    &&& r.active_days == st.days.len() as u32
    &&& r.total_authors == st.authors.len() as u32
    &&& r.authors == sort_desc(st.authors.map_values(|a: AuthorAcc| author_stat(a)))
    &&& r.by_weekday == st.weekday.map_values(|x: int| x as u32)
    &&& r.by_hour == st.hour.map_values(|x: int| x as u32)
    &&& table_of(r.by_month, st.months)
    &&& table_of(r.by_day, st.day_counts)
}

// ---------------------------------------------------------------------------
// Executable state
// ---------------------------------------------------------------------------

pub open spec fn seqs(v: Seq<Vec<char>>) -> Seq<Seq<char>> {
    v.map_values(|x: Vec<char>| x@)
}

/// One author while the log is read.
struct Acc {
    name: Vec<char>,
    email: Vec<char>,
    commits: u32,
    insertions: u32,
    deletions: u32,
    days: Vec<Vec<char>>,
    first: Vec<char>,
    last: Vec<char>,
}

impl View for Acc {
    type V = AuthorAcc;

    closed spec fn view(&self) -> AuthorAcc {
        AuthorAcc {
            name: self.name@,
            email: self.email@,
            commits: self.commits as int,
            insertions: self.insertions as int,
            deletions: self.deletions as int,
            days: seqs(self.days@),
            first: self.first@,
            last: self.last@,
        }
    }
}

spec fn accs(v: Seq<Acc>) -> Seq<AuthorAcc> {
    v.map_values(|a: Acc| a@)
}

/// One row of a count table.
struct Tally {
    key: Vec<char>,
    count: u32,
}

impl View for Tally {
    type V = (Seq<char>, u32);

    closed spec fn view(&self) -> (Seq<char>, u32) {
        (self.key@, self.count)
    }
}

spec fn tallies(v: Seq<Tally>) -> Seq<(Seq<char>, u32)> {
    v.map_values(|t: Tally| t@)
}

fn contains_seq(ds: &Vec<Vec<char>>, d: &[char]) -> (r: bool)
    ensures
        r == seqs(ds@).contains(d@),
{
    let mut i: usize = 0;
    while i < ds.len()
        invariant
            i <= ds@.len(),
            forall|k: int| 0 <= k < i ==> #[trigger] seqs(ds@)[k] != d@,
        decreases ds@.len() - i,
    {
        if chars_eq(ds[i].as_slice(), d) {
            assert(seqs(ds@)[i as int] == d@);
            return true;
        }
        i = i + 1;
    }
    proof {
        if seqs(ds@).contains(d@) {
            let k = choose|k: int| 0 <= k < seqs(ds@).len() && seqs(ds@)[k] == d@;
            assert(seqs(ds@)[k] != d@);
        }
    }
    false
}

fn add_day(ds: &mut Vec<Vec<char>>, d: &[char])
    ensures
        seqs(final(ds)@) == with_day(seqs(old(ds)@), d@),
{
    if !contains_seq(ds, d) {
        let v = slice_vec(d, 0, d.len());
        assert(v@ =~= d@);
        ds.push(v);
        assert(seqs(ds@) =~= seqs(old(ds)@).push(d@));
    }
}

proof fn lemma_author_index_extend(s: Seq<AuthorAcc>, j: int, e: Seq<char>)
    requires
        0 <= j <= s.len(),
        author_index(s.take(j), e) is Some,
    ensures
        author_index(s, e) == author_index(s.take(j), e),
    decreases s.len() - j,
{
    if j < s.len() {
        assert(s.take(j + 1).drop_last() =~= s.take(j));
        lemma_author_index_extend(s, j + 1, e);
    } else {
        assert(s.take(j) =~= s);
    }
}

proof fn lemma_author_index_bounds(s: Seq<AuthorAcc>, e: Seq<char>)
    ensures
        author_index(s, e) matches Some(i) ==> 0 <= i < s.len() && s[i].email == e,
    decreases s.len(),
{
    if s.len() > 0 {
        lemma_author_index_bounds(s.drop_last(), e);
    }
}

fn find_author(v: &Vec<Acc>, email: &[char]) -> (r: Option<usize>)
    ensures
        r matches Some(i) ==> author_index(accs(v@), email@) == Some(i as int) && i < v@.len(),
        r is None ==> author_index(accs(v@), email@) is None,
{
    let ghost s = accs(v@);
    let mut i: usize = 0;
    assert(s.take(0) =~= Seq::<AuthorAcc>::empty());
    while i < v.len()
        invariant
            i <= v@.len(),
            s == accs(v@),
            author_index(s.take(i as int), email@) is None,
        decreases v@.len() - i,
    {
        assert(s.take(i + 1).drop_last() =~= s.take(i as int));
        assert(s[i as int] == v@[i as int]@);
        if chars_eq(v[i].email.as_slice(), email) {
            proof {
                lemma_author_index_extend(s, i + 1, email@);
            }
            return Some(i);
        }
        i = i + 1;
    }
    assert(s.take(i as int) =~= s);
    None
}

/// Counts one more `key` in a sorted table; `false` when the count would go
/// past `u32::MAX` (the table is then unchanged).
fn tally_bump(t: &mut Vec<Tally>, key: &[char], Ghost(m): Ghost<Map<Seq<char>, int>>) -> (ok: bool)
    requires
        table_of(tallies(old(t)@), m),
    ensures
        ok ==> table_of(tallies(final(t)@), bump(m, key@)) && count_of(m, key@) + 1 <= u32::MAX,
        !ok ==> count_of(m, key@) + 1 > u32::MAX,
{
    let ghost tv = tallies(t@);
    let mut j: usize = 0;
    while j < t.len() && lex_lt_exec(t[j].key.as_slice(), key)
        invariant
            j <= t@.len(),
            tv == tallies(t@),
            table_of(tv, m),
            forall|k: int| 0 <= k < j ==> lex_lt(#[trigger] tv[k].0, key@),
        decreases t@.len() - j,
    {
        j = j + 1;
    }
    if j < t.len() && chars_eq(t[j].key.as_slice(), key) {
        assert(tv[j as int].0 == key@);
        let c = t[j].count;
        if c == u32::MAX {
            return false;
        }
        t[j].count = c + 1;
        let ghost m2 = bump(m, key@);
        assert(tallies(t@) =~= tv.update(j as int, (key@, (c + 1) as u32)));
        assert forall|k: Seq<char>| #[trigger] m2.contains_key(k) implies exists|i: int|
            0 <= i < tallies(t@).len() && #[trigger] tallies(t@)[i].0 == k by {
            if k != key@ {
                let i = choose|i: int| 0 <= i < tv.len() && #[trigger] tv[i].0 == k;
                assert(tallies(t@)[i].0 == k);
            } else {
                assert(tallies(t@)[j as int].0 == k);
            }
        }
        true
    } else {
        proof {
            if m.contains_key(key@) {
                let i = choose|i: int| 0 <= i < tv.len() && #[trigger] tv[i].0 == key@;
                lemma_lex_irreflexive(key@);
                if i > j {
                    assert(lex_lt(tv[j as int].0, tv[i].0));
                }
            }
        }
        let nk = slice_vec(key, 0, key.len());
        assert(nk@ =~= key@);
        t.insert(j, Tally { key: nk, count: 1 });
        let ghost nt = tallies(t@);
        let ghost m2 = bump(m, key@);
        assert(nt =~= tv.insert(j as int, (key@, 1u32)));
        proof {
            if j < tv.len() {
                lemma_lex_total(tv[j as int].0, key@);
            }
            assert forall|a: int, b: int| 0 <= a < b < nt.len() implies lex_lt(
                #[trigger] nt[a].0,
                #[trigger] nt[b].0,
            ) by {
                if b < j {
                } else if b == j {
                } else if a < j {
                    // a < j < b: nt[a] < key < tv[j] <= tv[b - 1]
                    lemma_lex_transitive(nt[a].0, key@, tv[j as int].0);
                    if b - 1 > j {
                        lemma_lex_transitive(nt[a].0, tv[j as int].0, tv[b - 1].0);
                    }
                } else if a == j {
                    if b - 1 > j {
                        lemma_lex_transitive(key@, tv[j as int].0, tv[b - 1].0);
                    }
                } else {
                    assert(lex_lt(tv[a - 1].0, tv[b - 1].0));
                }
            }
            assert forall|k: Seq<char>| #[trigger] m2.contains_key(k) implies exists|i: int|
                0 <= i < nt.len() && #[trigger] nt[i].0 == k by {
                if k != key@ {
                    let i = choose|i: int| 0 <= i < tv.len() && #[trigger] tv[i].0 == k;
                    if i < j {
                        assert(nt[i].0 == k);
                    } else {
                        assert(nt[i + 1].0 == k);
                    }
                } else {
                    assert(nt[j as int].0 == k);
                }
            }
        }
        true
    }
}

spec fn ints(v: Seq<u32>) -> Seq<int> {
    v.map_values(|x: u32| x as int)
}

/// Everything gathered while the log is read.
struct Gather {
    authors: Vec<Acc>,
    days: Vec<Vec<char>>,
    weekday: Vec<u32>,
    hour: Vec<u32>,
    months: Vec<Tally>,
    day_counts: Vec<Tally>,
    cur_email: Vec<char>,
}

spec fn gather_matches(g: Gather, st: StatsState) -> bool {
    &&& accs(g.authors@) == st.authors
    &&& seqs(g.days@) == st.days
    &&& g.weekday@.len() == 7
    &&& g.hour@.len() == 24
    &&& ints(g.weekday@) == st.weekday
    &&& ints(g.hour@) == st.hour
    &&& table_of(tallies(g.months@), st.months)
    &&& table_of(tallies(g.day_counts@), st.day_counts)
    &&& g.cur_email@ == st.cur_email
    &&& !st.fails
}

fn usize_or_zero_exec(s: &[char]) -> (r: usize)
    ensures
        r as int == usize_or_zero(s@),
{
    match parse_unsigned_exec(s, usize::MAX as u64) {
        Some(v) => v as usize,
        None => 0,
    }
}

fn copy_chars(s: &[char]) -> (r: Vec<char>)
    ensures
        r@ == s@,
{
    let r = slice_vec(s, 0, s.len());
    assert(r@ =~= s@);
    r
}

/// Bumps one counter of a fixed table; `false` when it would pass `u32::MAX`.
fn bump_slot(v: &mut Vec<u32>, i: usize) -> (ok: bool)
    requires
        i < old(v)@.len(),
    ensures
        ok ==> ints(final(v)@) == ints(old(v)@).update(i as int, old(v)@[i as int] + 1),
        ok ==> final(v)@.len() == old(v)@.len(),
        !ok ==> old(v)@[i as int] + 1 > u32::MAX,
{
    let c = v[i];
    if c == u32::MAX {
        return false;
    }
    v[i] = c + 1;
    assert(ints(v@) =~= ints(old(v)@).update(i as int, old(v)@[i as int] + 1));
    true
}

/// A commit header line (after `COMMIT\x01`); `false` when the state fails.
fn commit_line(g: &mut Gather, rest: &[char], Ghost(st): Ghost<StatsState>) -> (ok: bool)
    requires
        gather_matches(*old(g), st),
    ensures
        ok ==> gather_matches(*final(g), commit_step(st, rest@)),
        !ok ==> commit_step(st, rest@).fails,
{
    let parts = splitn_char_exec(rest, 3, '\u{1}');
    if parts.len() < 3 {
        return true;
    }
    let dp = split_char_exec(parts[2].as_slice(), ' ');
    if dp.len() < 3 {
        return true;
    }
    let ghost st2 = commit_step(st, rest@);
    let email = parts[0].as_slice();
    let name = parts[1].as_slice();
    let ymd = dp[0].as_slice();
    let hv = usize_or_zero_exec(dp[1].as_slice());
    let h: usize = if hv < 23 {
        hv
    } else {
        23
    };
    let wv = usize_or_zero_exec(dp[2].as_slice());
    let w: usize = ((wv % 7) + 6) % 7;
    assert(w as int == (usize_or_zero(dp@[2]@) + 6) % 7) by (nonlinear_arith)
        requires
            wv as int == usize_or_zero(dp@[2]@),
            w == ((wv % 7) + 6) % 7,
    ;
    if !bump_slot(&mut g.weekday, w) {
        return false;
    }
    if !bump_slot(&mut g.hour, h) {
        return false;
    }
    match cut_bytes_exec(ymd, 7) {
        CutAt::Inside => {
            return false;
        },
        CutAt::At(k) => {
            let mk = slice_vec(ymd, 0, k);
            assert(mk@ =~= ymd@.take(k as int));
            if !tally_bump(&mut g.months, mk.as_slice(), Ghost(st.months)) {
                return false;
            }
        },
        CutAt::Short => {},
    }
    if !tally_bump(&mut g.day_counts, ymd, Ghost(st.day_counts)) {
        return false;
    }
    add_day(&mut g.days, ymd);
    let ghost prev = accs(g.authors@);
    match find_author(&g.authors, email) {
        Some(i) => {
            let a = &mut g.authors[i];
            if a.commits == u32::MAX {
                return false;
            }
            a.commits = a.commits + 1;
            a.name = copy_chars(name);
            add_day(&mut a.days, ymd);
            if lex_lt_exec(ymd, a.first.as_slice()) {
                a.first = copy_chars(ymd);
            }
            if lex_lt_exec(a.last.as_slice(), ymd) {
                a.last = copy_chars(ymd);
            }
            assert(accs(g.authors@) =~= prev.update(i as int, st2.authors[i as int]));
        },
        None => {
            let mut ds: Vec<Vec<char>> = Vec::new();
            ds.push(copy_chars(ymd));
            assert(seqs(ds@) =~= seq![ymd@]);
            let a = Acc {
                name: copy_chars(name),
                email: copy_chars(email),
                commits: 1,
                insertions: 0,
                deletions: 0,
                days: ds,
                first: copy_chars(ymd),
                last: copy_chars(ymd),
            };
            g.authors.push(a);
            assert(accs(g.authors@) =~= prev.push(st2.authors.last()));
        },
    }
    g.cur_email = copy_chars(email);
    true
}

/// A numstat line; `false` when a count of the current author would pass
/// `u32::MAX`.
fn numstat_line(g: &mut Gather, line: &[char], Ghost(st): Ghost<StatsState>) -> (ok: bool)
    requires
        gather_matches(*old(g), st),
    ensures
        ok ==> gather_matches(*final(g), numstat_step(st, line@)),
        !ok ==> numstat_step(st, line@).fails,
{
    let parts = splitn_char_exec(line, 3, '\t');
    if parts.len() < 2 {
        return true;
    }
    let ins = parse_unsigned_exec(parts[0].as_slice(), u32::MAX as u64);
    let del = parse_unsigned_exec(parts[1].as_slice(), u32::MAX as u64);
    match (ins, del) {
        (Some(iv), Some(dv)) => {
            match find_author(&g.authors, g.cur_email.as_slice()) {
                Some(i) => {
                    let ghost prev = accs(g.authors@);
                    let ghost st2 = numstat_step(st, line@);
                    let a = &mut g.authors[i];
                    if iv > (u32::MAX - a.insertions) as u64 || dv > (u32::MAX - a.deletions) as u64 {
                        return false;
                    }
                    a.insertions = a.insertions + iv as u32;
                    a.deletions = a.deletions + dv as u32;
                    assert(accs(g.authors@) =~= prev.update(i as int, st2.authors[i as int]));
                    true
                },
                None => true,
            }
        },
        _ => true,
    }
}

proof fn lemma_fails_sticky(ls: Seq<Seq<char>>, k: int)
    requires
        0 <= k <= ls.len(),
        stats_fold(ls.take(k)).fails,
    ensures
        stats_fold(ls).fails,
    decreases ls.len() - k,
{
    if k < ls.len() {
        assert(ls.take(k + 1).drop_last() =~= ls.take(k));
        lemma_fails_sticky(ls, k + 1);
    } else {
        assert(ls.take(k) =~= ls);
    }
}

proof fn lemma_total_prefix(s: Seq<int>, k: int)
    requires
        0 <= k <= s.len(),
        forall|i: int| 0 <= i < s.len() ==> 0 <= #[trigger] s[i],
    ensures
        total(s.take(k)) <= total(s),
    decreases s.len() - k,
{
    if k < s.len() {
        assert(s.take(k + 1).drop_last() =~= s.take(k));
        lemma_total_prefix(s, k + 1);
    } else {
        assert(s.take(k) =~= s);
    }
}

/// The three totals over all authors; `None` when one passes `u32::MAX`.
fn totals(v: &Vec<Acc>) -> (r: Option<(u32, u32, u32)>)
    ensures
        r is None <==> (total(commits_of(accs(v@))) > u32::MAX || total(insertions_of(accs(v@)))
            > u32::MAX || total(deletions_of(accs(v@))) > u32::MAX),
        r matches Some(t) ==> t.0 == total(commits_of(accs(v@))) && t.1 == total(
            insertions_of(accs(v@)),
        ) && t.2 == total(deletions_of(accs(v@))),
{
    let ghost a = accs(v@);
    let ghost cs = commits_of(a);
    let ghost is = insertions_of(a);
    let ghost ds = deletions_of(a);
    let mut c: u32 = 0;
    let mut ins: u32 = 0;
    let mut del: u32 = 0;
    let mut k: usize = 0;
    assert(cs.take(0) =~= Seq::<int>::empty());
    assert(is.take(0) =~= Seq::<int>::empty());
    assert(ds.take(0) =~= Seq::<int>::empty());
    while k < v.len()
        invariant
            k <= v@.len(),
            a == accs(v@),
            cs == commits_of(a),
            is == insertions_of(a),
            ds == deletions_of(a),
            c == total(cs.take(k as int)),
            ins == total(is.take(k as int)),
            del == total(ds.take(k as int)),
        decreases v@.len() - k,
    {
        assert(cs.take(k + 1).drop_last() =~= cs.take(k as int));
        assert(is.take(k + 1).drop_last() =~= is.take(k as int));
        assert(ds.take(k + 1).drop_last() =~= ds.take(k as int));
        assert(a[k as int] == v@[k as int]@);
        let x = &v[k];
        if x.commits > u32::MAX - c || x.insertions > u32::MAX - ins || x.deletions > u32::MAX
            - del {
            proof {
                lemma_total_prefix(cs, k + 1);
                lemma_total_prefix(is, k + 1);
                lemma_total_prefix(ds, k + 1);
            }
            return None;
        }
        c = c + x.commits;
        ins = ins + x.insertions;
        del = del + x.deletions;
        k = k + 1;
    }
    assert(cs.take(k as int) =~= cs);
    assert(is.take(k as int) =~= is);
    assert(ds.take(k as int) =~= ds);
    Some((c, ins, del))
}

fn first_and_last(v: &Vec<Acc>) -> (r: (Vec<char>, Vec<char>))
    ensures
        r.0@ == min_first(accs(v@)),
        r.1@ == max_last(accs(v@)),
{
    let ghost a = accs(v@);
    if v.len() == 0 {
        return (Vec::new(), Vec::new());
    }
    let mut lo = copy_chars(v[0].first.as_slice());
    let mut hi = copy_chars(v[0].last.as_slice());
    let mut k: usize = 1;
    assert(a.take(1).len() == 1);
    while k < v.len()
        invariant
            1 <= k <= v@.len(),
            a == accs(v@),
            lo@ == min_first(a.take(k as int)),
            hi@ == max_last(a.take(k as int)),
        decreases v@.len() - k,
    {
        assert(a.take(k + 1).drop_last() =~= a.take(k as int));
        assert(a[k as int] == v@[k as int]@);
        if lex_lt_exec(v[k].first.as_slice(), lo.as_slice()) {
            lo = copy_chars(v[k].first.as_slice());
        }
        if lex_lt_exec(hi.as_slice(), v[k].last.as_slice()) {
            hi = copy_chars(v[k].last.as_slice());
        }
        k = k + 1;
    }
    assert(a.take(k as int) =~= a);
    (lo, hi)
}

spec fn stats_view(v: Seq<AuthorStat>) -> Seq<AuthorStatV> {
    v.map_values(|a: AuthorStat| a@)
}

fn author_stat_of(x: &Acc) -> (r: AuthorStat)
    ensures
        r@ == author_stat(x@),
{
    AuthorStat {
        name: string_of_all(x.name.as_slice()),
        email: string_of_all(x.email.as_slice()),
        commits: x.commits,
        insertions: x.insertions,
        deletions: x.deletions,
        active_days: x.days.len() as u32,
        first_date: string_of_all(x.first.as_slice()),
        last_date: string_of_all(x.last.as_slice()),
    }
}

fn desc_slot_exec(r: &Vec<AuthorStat>, c: u32) -> (j: usize)
    ensures
        j as int == desc_slot(stats_view(r@), c),
        j <= r@.len(),
{
    let ghost s = stats_view(r@);
    let mut j: usize = 0;
    assert(s.skip(0) =~= s);
    while j < r.len() && !(r[j].commits < c)
        invariant
            j <= r@.len(),
            s == stats_view(r@),
            desc_slot(s, c) == j + desc_slot(s.skip(j as int), c),
        decreases r@.len() - j,
    {
        assert(s.skip(j as int).drop_first() =~= s.skip(j + 1));
        assert(s.skip(j as int)[0] == r@[j as int]@);
        j = j + 1;
    }
    if j < r.len() {
        assert(s.skip(j as int)[0] == r@[j as int]@);
    }
    j
}

/// The authors as reported: sorted by descending commits, stable.
fn sorted_authors(v: &Vec<Acc>) -> (r: Vec<AuthorStat>)
    ensures
        stats_view(r@) == sort_desc(accs(v@).map_values(|a: AuthorAcc| author_stat(a))),
{
    let ghost all = accs(v@).map_values(|a: AuthorAcc| author_stat(a));
    let mut r: Vec<AuthorStat> = Vec::new();
    let mut k: usize = 0;
    assert(all.take(0) =~= Seq::<AuthorStatV>::empty());
    while k < v.len()
        invariant
            k <= v@.len(),
            all == accs(v@).map_values(|a: AuthorAcc| author_stat(a)),
            stats_view(r@) == sort_desc(all.take(k as int)),
        decreases v@.len() - k,
    {
        assert(all.take(k + 1).drop_last() =~= all.take(k as int));
        let x = author_stat_of(&v[k]);
        assert(x@ == all[k as int]);
        let j = desc_slot_exec(&r, x.commits);
        let ghost prev = stats_view(r@);
        r.insert(j, x);
        assert(stats_view(r@) =~= prev.insert(j as int, all[k as int]));
        k = k + 1;
    }
    assert(all.take(k as int) =~= all);
    r
}

fn month_entries(t: &Vec<Tally>) -> (r: Vec<MonthEntry>)
    ensures
        r@.map_values(|m: MonthEntry| m@) == tallies(t@),
{
    let mut r: Vec<MonthEntry> = Vec::new();
    let mut k: usize = 0;
    while k < t.len()
        invariant
            k <= t@.len(),
            r@.map_values(|m: MonthEntry| m@) == tallies(t@).take(k as int),
        decreases t@.len() - k,
    {
        let e = MonthEntry { month: string_of_all(t[k].key.as_slice()), commits: t[k].count };
        let ghost ev = e@;
        assert(tallies(t@)[k as int] == ev);
        r.push(e);
        assert(tallies(t@).take(k + 1) =~= tallies(t@).take(k as int).push(ev));
        assert(r@.map_values(|m: MonthEntry| m@) =~= tallies(t@).take(k + 1));
        k = k + 1;
    }
    assert(tallies(t@).take(k as int) =~= tallies(t@));
    r
}

fn day_entries(t: &Vec<Tally>) -> (r: Vec<DayEntry>)
    ensures
        r@.map_values(|d: DayEntry| d@) == tallies(t@),
{
    let mut r: Vec<DayEntry> = Vec::new();
    let mut k: usize = 0;
    while k < t.len()
        invariant
            k <= t@.len(),
            r@.map_values(|d: DayEntry| d@) == tallies(t@).take(k as int),
        decreases t@.len() - k,
    {
        let e = DayEntry { date: string_of_all(t[k].key.as_slice()), count: t[k].count };
        let ghost ev = e@;
        assert(tallies(t@)[k as int] == ev);
        r.push(e);
        assert(tallies(t@).take(k + 1) =~= tallies(t@).take(k as int).push(ev));
        assert(r@.map_values(|d: DayEntry| d@) =~= tallies(t@).take(k + 1));
        k = k + 1;
    }
    assert(tallies(t@).take(k as int) =~= tallies(t@));
    r
}

/// Statistics of `git log --format=COMMIT%x01%ae%x01%an%x01%ad
/// --date=format:%Y-%m-%d %H %w --numstat` output; `None` exactly when the
/// computation fails (a count past `u32::MAX`, a month cut inside a
/// character).
pub fn repo_stats(output: &str) -> (r: Option<RepoStats>)
    ensures
        r is None <==> stats_fail(output@),
        r matches Some(s) ==> stats_match(s@, output@),
{
    let tv = chars_of(output);
    let ls = lines_exec(tv.as_slice());
    let ghost sl = lines(output@);
    let mut g = Gather {
        authors: Vec::new(),
        days: Vec::new(),
        weekday: vec![0u32; 7],
        hour: vec![0u32; 24],
        months: Vec::new(),
        day_counts: Vec::new(),
        cur_email: Vec::new(),
    };
    proof {
        assert(sl.take(0) =~= Seq::<Seq<char>>::empty());
        assert(accs(g.authors@) =~= Seq::<AuthorAcc>::empty());
        assert(seqs(g.days@) =~= Seq::<Seq<char>>::empty());
        assert(ints(g.weekday@) =~= stats_init().weekday);
        assert(ints(g.hour@) =~= stats_init().hour);
        assert(tallies(g.months@) =~= Seq::<(Seq<char>, u32)>::empty());
        assert(tallies(g.day_counts@) =~= Seq::<(Seq<char>, u32)>::empty());
    }
    let mut i: usize = 0;
    while i < ls.len()
        invariant
            i <= ls@.len() == sl.len(),
            sl == lines(output@),
            forall|k: int| 0 <= k < ls@.len() ==> #[trigger] ls@[k]@ == sl[k],
            gather_matches(g, stats_fold(sl.take(i as int))),
        decreases ls@.len() - i,
    {
        let ghost st0 = stats_fold(sl.take(i as int));
        assert(sl.take(i + 1).drop_last() =~= sl.take(i as int));
        assert(sl.take(i + 1).last() == sl[i as int]);
        assert(ls@[i as int]@ == sl[i as int]);
        let line = ls[i].as_slice();
        let ok = match strip_lit(line, "COMMIT\u{1}") {
            Some(rest) => commit_line(&mut g, rest.as_slice(), Ghost(st0)),
            None => numstat_line(&mut g, line, Ghost(st0)),
        };
        if !ok {
            proof {
                lemma_fails_sticky(sl, i + 1);
            }
            return None;
        }
        i = i + 1;
    }
    assert(sl.take(i as int) =~= sl);
    let ghost st = stats_fold(sl);
    let (tc, ti, td) = match totals(&g.authors) {
        Some(t) => t,
        None => {
            return None;
        },
    };
    let (lo, hi) = first_and_last(&g.authors);
    let authors = sorted_authors(&g.authors);
    let by_month = month_entries(&g.months);
    let by_day = day_entries(&g.day_counts);
    let total_authors = g.authors.len() as u32;
    let active_days = g.days.len() as u32;
    let r = RepoStats {
        total_commits: tc,
        total_insertions: ti,
        total_deletions: td,
        first_commit_date: string_of_all(lo.as_slice()),
        last_commit_date: string_of_all(hi.as_slice()),
        active_days,
        total_authors,
        authors,
        by_weekday: g.weekday,
        by_hour: g.hour,
        by_month,
        by_day,
    };
    assert(r@.by_weekday =~= st.weekday.map_values(|x: int| x as u32));
    assert(r@.by_hour =~= st.hour.map_values(|x: int| x as u32));
    assert(r@.authors == stats_view(r.authors@));
    Some(r)
}

/// `git log` arguments of the statistics, limited to the last `since_days`
/// days when given.
pub open spec fn spec_stats_args(since_days: Option<u32>) -> Seq<Seq<char>> {
    let base = seq![
        "log"@,
        "--format=COMMIT%x01%ae%x01%an%x01%ad"@,
        "--date=format:%Y-%m-%d %H %w"@,
        "--numstat"@,
    ];
    match since_days {
        Some(d) => base.push("--after="@ + dec(d as nat) + " days ago"@),
        None => base,
    }
}

pub fn repo_stats_args(since_days: Option<u32>) -> (a: Vec<String>)
    ensures
        strs(a@) == spec_stats_args(since_days),
{
    let mut a = vec![
        arg("log"),
        arg("--format=COMMIT%x01%ae%x01%an%x01%ad"),
        arg("--date=format:%Y-%m-%d %H %w"),
        arg("--numstat"),
    ];
    if let Some(d) = since_days {
        let mut v: Vec<char> = Vec::new();
        push_str(&mut v, "--after=");
        push_dec(&mut v, d as u64);
        push_str(&mut v, " days ago");
        a.push(string_of_all(v.as_slice()));
    }
    assert(strs(a@) =~= spec_stats_args(since_days));
    a
}

// ---------------------------------------------------------------------------
// Laws
// ---------------------------------------------------------------------------

proof fn lemma_total_update(s: Seq<int>, i: int, v: int)
    requires
        0 <= i < s.len(),
    ensures
        total(s.update(i, v)) == total(s) - s[i] + v,
    decreases s.len(),
{
    if i < s.len() - 1 {
        assert(s.update(i, v).drop_last() =~= s.drop_last().update(i, v));
        lemma_total_update(s.drop_last(), i, v);
    } else {
        assert(s.update(i, v).drop_last() =~= s.drop_last());
    }
}

proof fn lemma_total_zero(n: nat)
    ensures
        total(Seq::new(n, |i: int| 0int)) == 0,
    decreases n,
{
    if n > 0 {
        assert(Seq::new(n, |i: int| 0int).drop_last() =~= Seq::new((n - 1) as nat, |i: int| 0int));
        lemma_total_zero((n - 1) as nat);
    }
}

proof fn lemma_counts_fold(ls: Seq<Seq<char>>)
    ensures
        total(stats_fold(ls).weekday) == total(commits_of(stats_fold(ls).authors)),
        total(stats_fold(ls).hour) == total(commits_of(stats_fold(ls).authors)),
        stats_fold(ls).weekday.len() == 7,
        stats_fold(ls).hour.len() == 24,
    decreases ls.len(),
{
    if ls.len() == 0 {
        lemma_total_zero(7);
        lemma_total_zero(24);
        assert(commits_of(stats_init().authors) =~= Seq::<int>::empty());
    } else {
        lemma_counts_fold(ls.drop_last());
        let st = stats_fold(ls.drop_last());
        let line = ls.last();
        match strip_prefix(line, "COMMIT\u{1}"@) {
            Some(rest) => {
                let parts = splitn_char(rest, 3, '\u{1}');
                if parts.len() >= 3 && split_char(parts[2], ' ').len() >= 3 {
                    let dp = split_char(parts[2], ' ');
                    let ymd = dp[0];
                    let h = if usize_or_zero(dp[1]) < 23 {
                        usize_or_zero(dp[1])
                    } else {
                        23
                    };
                    let w = (usize_or_zero(dp[2]) + 6) % 7;
                    lemma_total_update(st.weekday, w, st.weekday[w] + 1);
                    lemma_total_update(st.hour, h, st.hour[h] + 1);
                    let email = parts[0];
                    let st2 = commit_step(st, rest);
                    match author_index(st.authors, email) {
                        Some(i) => {
                            lemma_author_index_bounds(st.authors, email);
                            assert(commits_of(st2.authors) =~= commits_of(st.authors).update(
                                i,
                                st.authors[i].commits + 1,
                            ));
                            lemma_total_update(commits_of(st.authors), i, st.authors[i].commits + 1);
                        },
                        None => {
                            assert(commits_of(st2.authors) =~= commits_of(st.authors).push(1));
                            assert(commits_of(st2.authors).drop_last() =~= commits_of(st.authors));
                        },
                    }
                }
            },
            None => {
                let st2 = numstat_step(st, line);
                let parts = splitn_char(line, 3, '\t');
                if parts.len() >= 2 {
                    match author_index(st.authors, st.cur_email) {
                        Some(i) => {
                            lemma_author_index_bounds(st.authors, st.cur_email);
                            assert(commits_of(st2.authors) =~= commits_of(st.authors));
                        },
                        None => {},
                    }
                }
            },
        }
    }
}

/// Every commit that the statistics count is counted once by weekday, once
/// by hour and once for its author, so the three tallies sum to the same
/// number.
pub proof fn law_commit_tallies_agree(out: Seq<char>)
    ensures
        total(stats_fold(lines(out)).weekday) == total(commits_of(stats_fold(lines(out)).authors)),
        total(stats_fold(lines(out)).hour) == total(commits_of(stats_fold(lines(out)).authors)),
{
    lemma_counts_fold(lines(out));
}

proof fn lemma_desc_slot(s: Seq<AuthorStatV>, c: u32)
    ensures
        0 <= desc_slot(s, c) <= s.len(),
        forall|i: int| 0 <= i < desc_slot(s, c) ==> #[trigger] s[i].commits >= c,
        desc_slot(s, c) < s.len() ==> s[desc_slot(s, c)].commits < c,
    decreases s.len(),
{
    if s.len() > 0 && s[0].commits >= c {
        lemma_desc_slot(s.drop_first(), c);
        assert forall|i: int| 0 <= i < desc_slot(s, c) implies #[trigger] s[i].commits >= c by {
            if i > 0 {
                assert(s[i] == s.drop_first()[i - 1]);
            }
        }
    }
}

/// Sorting keeps every author and orders them by descending commits.
pub proof fn law_authors_sorted(s: Seq<AuthorStatV>)
    ensures
        sort_desc(s).len() == s.len(),
        sort_desc(s).to_multiset() == s.to_multiset(),
        forall|i: int, j: int|
            0 <= i < j < sort_desc(s).len() ==> #[trigger] sort_desc(s)[i].commits
                >= #[trigger] sort_desc(s)[j].commits,
    decreases s.len(),
{
    if s.len() > 0 {
        law_authors_sorted(s.drop_last());
        let r = sort_desc(s.drop_last());
        let x = s.last();
        let p = desc_slot(r, x.commits);
        lemma_desc_slot(r, x.commits);
        let q = r.insert(p, x);
        assert forall|i: int, j: int| 0 <= i < j < q.len() implies #[trigger] q[i].commits
            >= #[trigger] q[j].commits by {
            if j < p {
            } else if j == p {
            } else if i < p {
                assert(q[i] == r[i]);
                assert(q[j] == r[j - 1]);
                if i < j - 1 {
                    assert(r[i].commits >= r[j - 1].commits);
                }
            } else if i == p {
                assert(q[j] == r[j - 1]);
                if p < j - 1 {
                    assert(r[p].commits >= r[j - 1].commits);
                }
            } else {
                assert(r[i - 1].commits >= r[j - 1].commits);
            }
        }
        vstd::seq_lib::to_multiset_insert(r, p, x);
        vstd::seq_lib::to_multiset_build(s.drop_last(), x);
        assert(s.drop_last().push(x) =~= s);
    }
}

} // verus!
