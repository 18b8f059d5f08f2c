//! `git blame --porcelain` parsing: the author, time and summary of the
//! commit that last touched each line.
use vstd::prelude::*;
use super::hunk::{arg, strs};
use super::types::{BlameLine, BlameLineV};
use crate::text::{
    chars_eq, chars_of, eq_lit, parse_i64, parse_i64_exec, parse_unsigned, parse_unsigned_exec,
    slice_vec, split_char, split_char_exec, splitn_char, splitn_char_exec, string_of_all,
};

verus! {

/// An ASCII hexadecimal digit.
pub open spec fn is_hex(c: char) -> bool {
    ('0' <= c <= '9') || ('a' <= c <= 'f') || ('A' <= c <= 'F')
}

/// A full commit id: 40 hexadecimal digits.
pub open spec fn is_sha(key: Seq<char>) -> bool {
    key.len() == 40 && forall|i: int| 0 <= i < key.len() ==> is_hex(#[trigger] key[i])
}

/// What is known of a commit: author, author time, summary.
pub type CommitMeta = (Seq<char>, i64, Seq<char>);

/// The parser's state after a prefix of the lines.
pub struct BlameState {
    pub out: Seq<BlameLineV>,
    /// Metadata per commit id; git sends it once per commit.
    pub cache: Map<Seq<char>, CommitMeta>,
    pub oid: Seq<char>,
    pub final_line: u32,
    pub author: Option<Seq<char>>,
    pub time: Option<i64>,
    pub summary: Option<Seq<char>>,
}

/// The first 8 characters of a commit id.
pub open spec fn short_of(oid: Seq<char>) -> Seq<char> {
    if oid.len() >= 8 {
        oid.take(8)
    } else {
        oid
    }
}

/// The final line number of a group header `<sha> <orig> <final> [n]`: the
/// second field after the id, 0 when it does not parse.
pub open spec fn final_line_of(val: Seq<char>) -> u32 {
    let f = split_char(val, ' ');
    if f.len() >= 2 {
        match parse_unsigned(f[1], u32::MAX as nat) {
            Some(v) => v as u32,
            None => 0,
        }
    } else {
        0
    }
}

pub open spec fn or_empty(o: Option<Seq<char>>) -> Seq<char> {
    match o {
        Some(s) => s,
        None => Seq::empty(),
    }
}

/// A content line (`\t<text>`) ends a record: the metadata gathered since
/// the group header is remembered for its commit, and the line is reported
/// with what is known of that commit. Other lines are a group header, an
/// `author`, `author-time` or `summary` field, or ignored.
pub open spec fn blame_step(st: BlameState, raw: Seq<char>) -> BlameState {
    if raw.len() > 0 && raw[0] == '\t' {
        let cache = if st.author is Some || st.time is Some || st.summary is Some {
            st.cache.insert(
                st.oid,
                (
                    or_empty(st.author),
                    match st.time {
                        Some(t) => t,
                        None => 0,
                    },
                    or_empty(st.summary),
                ),
            )
        } else {
            st.cache
        };
        let meta: CommitMeta = if cache.contains_key(st.oid) {
            cache[st.oid]
        } else {
            (Seq::empty(), 0, Seq::empty())
        };
        BlameState {
            out: st.out.push(
                BlameLineV {
                    oid: st.oid,
                    short_oid: short_of(st.oid),
                    author: meta.0,
                    author_time: meta.1,
                    summary: meta.2,
                    line_no: st.final_line,
                    content: raw.drop_first(),
                },
            ),
            cache,
            author: None,
            time: None,
            summary: None,
            ..st
        }
    } else {
        let parts = splitn_char(raw, 2, ' ');
        let key = parts[0];
        let val = if parts.len() > 1 {
            parts[1]
        } else {
            Seq::empty()
        };
        if is_sha(key) {
            BlameState {
                oid: key,
                final_line: final_line_of(val),
                author: None,
                time: None,
                summary: None,
                ..st
            }
        } else if key == "author"@ {
            BlameState { author: Some(val), ..st }
        } else if key == "author-time"@ {
            BlameState { time: parse_i64(val), ..st }
        } else if key == "summary"@ {
            BlameState { summary: Some(val), ..st }
        } else {
            st
        }
    }
}

pub open spec fn blame_fold(ls: Seq<Seq<char>>) -> BlameState
    decreases ls.len(),
{
    if ls.len() == 0 {
        BlameState {
            out: Seq::empty(),
            cache: Map::empty(),
            oid: Seq::empty(),
            final_line: 0,
            author: None,
            time: None,
            summary: None,
        }
    } else {
        blame_step(blame_fold(ls.drop_last()), ls.last())
    }
}

/// The blamed lines of porcelain output, split at every `\n`.
pub open spec fn spec_blame(out: Seq<char>) -> Seq<BlameLineV> {
    blame_fold(split_char(out, '\n')).out
}

/// `git blame --porcelain [<rev>] -- <path>`.
pub open spec fn spec_blame_args(path: Seq<char>, rev: Option<Seq<char>>) -> Seq<Seq<char>> {
    let base = seq!["blame"@, "--porcelain"@];
    let r = match rev {
        Some(v) => base.push(v),
        None => base,
    };
    r.push("--"@).push(path)
}

pub fn blame_args(path: &str, rev: Option<&str>) -> (a: Vec<String>)
    ensures
        strs(a@) == spec_blame_args(
            path@,
            match rev {
                Some(v) => Some(v@),
                None => None,
            },
        ),
{
    let mut a = vec![arg("blame"), arg("--porcelain")];
    if let Some(r) = rev {
        a.push(arg(r));
    }
    a.push(arg("--"));
    a.push(arg(path));
    assert(strs(a@) =~= spec_blame_args(
        path@,
        match rev {
            Some(v) => Some(v@),
            None => None,
        },
    ));
    a
}

// ---------------------------------------------------------------------------
// Executable parser
// ---------------------------------------------------------------------------

/// One remembered commit.
struct Meta {
    oid: Vec<char>,
    author: Vec<char>,
    time: i64,
    summary: Vec<char>,
}

impl View for Meta {
    type V = (Seq<char>, CommitMeta);

    closed spec fn view(&self) -> (Seq<char>, CommitMeta) {
        (self.oid@, (self.author@, self.time, self.summary@))
    }
}

spec fn metas(v: Seq<Meta>) -> Seq<(Seq<char>, CommitMeta)> {
    v.map_values(|m: Meta| m@)
}

/// The list holds exactly the entries of the map, each key once.
spec fn lists_map(l: Seq<(Seq<char>, CommitMeta)>, m: Map<Seq<char>, CommitMeta>) -> bool {
    &&& forall|i: int, j: int| 0 <= i < j < l.len() ==> #[trigger] l[i].0 != #[trigger] l[j].0
    &&& forall|i: int| 0 <= i < l.len() ==> m.contains_key(#[trigger] l[i].0) && m[l[i].0] == l[i].1
    &&& forall|k: Seq<char>|
        #[trigger] m.contains_key(k) ==> exists|i: int| 0 <= i < l.len() && #[trigger] l[i].0 == k
}

fn find_meta(v: &Vec<Meta>, oid: &[char], Ghost(m): Ghost<Map<Seq<char>, CommitMeta>>) -> (r:
    Option<usize>)
    requires
        lists_map(metas(v@), m),
    ensures
        r matches Some(i) ==> i < v@.len() && metas(v@)[i as int].0 == oid@,
        r is None ==> !m.contains_key(oid@),
{
    let mut i: usize = 0;
    while i < v.len()
        invariant
            i <= v@.len(),
            lists_map(metas(v@), m),
            forall|k: int| 0 <= k < i ==> #[trigger] metas(v@)[k].0 != oid@,
        decreases v@.len() - i,
    {
        if chars_eq(v[i].oid.as_slice(), oid) {
            assert(metas(v@)[i as int].0 == oid@);
            return Some(i);
        }
        i = i + 1;
    }
    proof {
        if m.contains_key(oid@) {
            let k = choose|k: int| 0 <= k < metas(v@).len() && #[trigger] metas(v@)[k].0 == oid@;
            assert(metas(v@)[k].0 != oid@);
        }
    }
    None
}

fn copy_chars(s: &[char]) -> (r: Vec<char>)
    ensures
        r@ == s@,
{
    let r = slice_vec(s, 0, s.len());
    assert(r@ =~= s@);
    r
}

fn put_meta(
    v: &mut Vec<Meta>,
    oid: &[char],
    author: Vec<char>,
    time: i64,
    summary: Vec<char>,
    Ghost(m): Ghost<Map<Seq<char>, CommitMeta>>,
)
    requires
        lists_map(metas(old(v)@), m),
    ensures
        lists_map(metas(final(v)@), m.insert(oid@, (author@, time, summary@))),
{
    let ghost val: CommitMeta = (author@, time, summary@);
    let ghost m2 = m.insert(oid@, val);
    let ghost prev = metas(v@);
    match find_meta(v, oid, Ghost(m)) {
        Some(i) => {
            v.set(i, Meta { oid: copy_chars(oid), author, time, summary });
            assert(metas(v@) =~= prev.update(i as int, (oid@, val)));
            assert forall|k: Seq<char>| #[trigger] m2.contains_key(k) implies exists|j: int|
                0 <= j < metas(v@).len() && #[trigger] metas(v@)[j].0 == k by {
                if k == oid@ {
                    assert(metas(v@)[i as int].0 == k);
                } else {
                    let j = choose|j: int| 0 <= j < prev.len() && #[trigger] prev[j].0 == k;
                    assert(metas(v@)[j].0 == k);
                }
            }
        },
        None => {
            v.push(Meta { oid: copy_chars(oid), author, time, summary });
            assert(metas(v@) =~= prev.push((oid@, val)));
            assert forall|k: Seq<char>| #[trigger] m2.contains_key(k) implies exists|j: int|
                0 <= j < metas(v@).len() && #[trigger] metas(v@)[j].0 == k by {
                if k == oid@ {
                    assert(metas(v@)[prev.len() as int].0 == k);
                } else {
                    let j = choose|j: int| 0 <= j < prev.len() && #[trigger] prev[j].0 == k;
                    assert(metas(v@)[j].0 == k);
                }
            }
        },
    }
}

fn is_sha_exec(key: &[char]) -> (b: bool)
    ensures
        b == is_sha(key@),
{
    if key.len() != 40 {
        return false;
    }
    let mut i: usize = 0;
    while i < key.len()
        invariant
            i <= key@.len(),
            forall|k: int| 0 <= k < i ==> is_hex(#[trigger] key@[k]),
        decreases key@.len() - i,
    {
        let c = key[i];
        if !(('0' <= c && c <= '9') || ('a' <= c && c <= 'f') || ('A' <= c && c <= 'F')) {
            assert(!is_hex(key@[i as int]));
            return false;
        }
        i = i + 1;
    }
    true
}

fn final_line_exec(val: &[char]) -> (r: u32)
    ensures
        r == final_line_of(val@),
{
    let f = split_char_exec(val, ' ');
    if f.len() >= 2 {
        match parse_unsigned_exec(f[1].as_slice(), u32::MAX as u64) {
            Some(v) => v as u32,
            None => 0,
        }
    } else {
        0
    }
}

fn opt_chars_view(o: &Option<Vec<char>>) -> (r: Vec<char>)
    ensures
        r@ == or_empty(
            match o {
                Some(v) => Some(v@),
                None => None,
            },
        ),
{
    match o {
        Some(v) => copy_chars(v.as_slice()),
        None => Vec::new(),
    }
}

spec fn ov(o: Option<Vec<char>>) -> Option<Seq<char>> {
    match o {
        Some(v) => Some(v@),
        None => None,
    }
}

/// The blamed lines of `git blame --porcelain` output.
pub fn parse_blame_porcelain(output: &str) -> (r: Vec<BlameLine>)
    ensures
        r@.map_values(|b: BlameLine| b@) == spec_blame(output@),
{
    let tv = chars_of(output);
    let ls = split_char_exec(tv.as_slice(), '\n');
    let ghost sl = split_char(output@, '\n');
    let mut out: Vec<BlameLine> = Vec::new();
    let mut cache: Vec<Meta> = Vec::new();
    let mut oid: Vec<char> = Vec::new();
    let mut final_line: u32 = 0;
    let mut author: Option<Vec<char>> = None;
    let mut time: Option<i64> = None;
    let mut summary: Option<Vec<char>> = None;
    let mut i: usize = 0;
    assert(sl.take(0) =~= Seq::<Seq<char>>::empty());
    assert(metas(cache@) =~= Seq::<(Seq<char>, CommitMeta)>::empty());
    while i < ls.len()
        invariant
            i <= ls@.len() == sl.len(),
            sl == split_char(output@, '\n'),
            forall|k: int| 0 <= k < ls@.len() ==> #[trigger] ls@[k]@ == sl[k],
            ({
                let st = blame_fold(sl.take(i as int));
                &&& out@.map_values(|b: BlameLine| b@) == st.out
                &&& lists_map(metas(cache@), st.cache)
                &&& oid@ == st.oid
                &&& final_line == st.final_line
                &&& ov(author) == st.author
                &&& time == st.time
                &&& ov(summary) == st.summary
            }),
        decreases ls@.len() - i,
    {
        let ghost st0 = blame_fold(sl.take(i as int));
        assert(sl.take(i + 1).drop_last() =~= sl.take(i as int));
        assert(sl.take(i + 1).last() == sl[i as int]);
        assert(ls@[i as int]@ == sl[i as int]);
        let raw = ls[i].as_slice();
        if raw.len() > 0 && raw[0] == '\t' {
            let ghost st1 = blame_fold(sl.take(i + 1));
            if author.is_some() || time.is_some() || summary.is_some() {
                let a = opt_chars_view(&author);
                let t: i64 = match time {
                    Some(t) => t,
                    None => 0,
                };
                let s = opt_chars_view(&summary);
                put_meta(&mut cache, oid.as_slice(), a, t, s, Ghost(st0.cache));
            }
            let (ma, mt, ms) = match find_meta(&cache, oid.as_slice(), Ghost(st1.cache)) {
                Some(k) => {
                    let e = &cache[k];
                    assert(metas(cache@)[k as int] == cache@[k as int]@);
                    (copy_chars(e.author.as_slice()), e.time, copy_chars(e.summary.as_slice()))
                },
                None => (Vec::new(), 0i64, Vec::new()),
            };
            let short = if oid.len() >= 8 {
                slice_vec(oid.as_slice(), 0, 8)
            } else {
                copy_chars(oid.as_slice())
            };
            assert(short@ =~= short_of(oid@));
            let content = slice_vec(raw, 1, raw.len());
            assert(content@ =~= raw@.drop_first());
            let b = BlameLine {
                oid: string_of_all(oid.as_slice()),
                short_oid: string_of_all(short.as_slice()),
                author: string_of_all(ma.as_slice()),
                author_time: mt,
                summary: string_of_all(ms.as_slice()),
                line_no: final_line,
                content: string_of_all(content.as_slice()),
            };
            let ghost prev = out@.map_values(|b: BlameLine| b@);
            let ghost bv = b@;
            out.push(b);
            assert(out@.map_values(|b: BlameLine| b@) =~= prev.push(bv));
            author = None;
            time = None;
            summary = None;
        } else {
            let parts = splitn_char_exec(raw, 2, ' ');
            assert(parts@.len() >= 1);
            let key = parts[0].as_slice();
            let val: Vec<char> = if parts.len() > 1 {
                copy_chars(parts[1].as_slice())
            } else {
                Vec::new()
            };
            if is_sha_exec(key) {
                oid = copy_chars(key);
                final_line = final_line_exec(val.as_slice());
                author = None;
                time = None;
                summary = None;
            } else if eq_lit(key, "author") {
                author = Some(val);
            } else if eq_lit(key, "author-time") {
                time = parse_i64_exec(val.as_slice());
            } else if eq_lit(key, "summary") {
                summary = Some(val);
            }
        }
        i = i + 1;
    }
    assert(sl.take(i as int) =~= sl);
    out
}

/// The authors of the lines of a file: the output of `blame_args`' command,
/// parsed.
pub fn blame(output: &str) -> (r: Vec<BlameLine>)
    ensures
        r@.map_values(|b: BlameLine| b@) == spec_blame(output@),
{
    parse_blame_porcelain(output)
}


/// A content line of porcelain output: it starts with a tab.
pub open spec fn is_content_line(l: Seq<char>) -> bool {
    l.len() > 0 && l[0] == '\t'
}

proof fn lemma_blame_contents(ls: Seq<Seq<char>>)
    ensures
        blame_fold(ls).out.map_values(|b: BlameLineV| b.content) == ls.filter(
            |l: Seq<char>| is_content_line(l),
        ).map_values(|l: Seq<char>| l.drop_first()),
    decreases ls.len(),
{
    reveal_with_fuel(Seq::filter, 1);
    if ls.len() > 0 {
        lemma_blame_contents(ls.drop_last());
        let prev = blame_fold(ls.drop_last()).out;
        let fprev = ls.drop_last().filter(|l: Seq<char>| is_content_line(l));
        assert(ls.filter(|l: Seq<char>| is_content_line(l)) == if is_content_line(ls.last()) {
            fprev.push(ls.last())
        } else {
            fprev
        });
        if is_content_line(ls.last()) {
            let out = blame_fold(ls).out;
            assert(out.drop_last() == prev);
            assert(out.map_values(|b: BlameLineV| b.content) =~= prev.map_values(
                |b: BlameLineV| b.content,
            ).push(ls.last().drop_first()));
            assert(fprev.push(ls.last()).map_values(|l: Seq<char>| l.drop_first()) =~= fprev.map_values(
                |l: Seq<char>| l.drop_first(),
            ).push(ls.last().drop_first()));
        }
    }
}

/// Every content line of the output is blamed once, in order: the blamed
/// lines carry exactly the texts of the tab-led lines, without the tab.
pub proof fn law_blame_one_line_per_content_line(output: Seq<char>)
    ensures
        spec_blame(output).map_values(|b: BlameLineV| b.content) == split_char(output, '\n').filter(
            |l: Seq<char>| is_content_line(l),
        ).map_values(|l: Seq<char>| l.drop_first()),
{
    lemma_blame_contents(split_char(output, '\n'));
}


/// The metadata a blamed line carries: author, author time, summary.
pub open spec fn meta_of(b: BlameLineV) -> CommitMeta {
    (b.author, b.author_time, b.summary)
}

/// Line `k` is the latest of `out` blamed on its commit.
pub open spec fn latest_of_commit(out: Seq<BlameLineV>, k: int) -> bool {
    0 <= k < out.len() && forall|j: int| k < j < out.len() ==> #[trigger] out[j].oid != out[k].oid
}

pub open spec fn known_meta(cache: Map<Seq<char>, CommitMeta>, o: Seq<char>) -> CommitMeta {
    if cache.contains_key(o) {
        cache[o]
    } else {
        (Seq::empty(), 0, Seq::empty())
    }
}

/// What the parser remembers of a commit is what the latest line blamed on
/// it carries, and it remembers only commits that some line was blamed on.
proof fn lemma_blame_memory(ls: Seq<Seq<char>>)
    ensures
        ({
            let st = blame_fold(ls);
            &&& forall|k: int| #[trigger] latest_of_commit(st.out, k) ==> meta_of(st.out[k]) == known_meta(
                st.cache,
                st.out[k].oid,
            )
            &&& forall|o: Seq<char>| #[trigger] st.cache.contains_key(o) ==> exists|k: int|
                0 <= k < st.out.len() && st.out[k].oid == o
        }),
    decreases ls.len(),
{
    if ls.len() > 0 {
        lemma_blame_memory(ls.drop_last());
        let st = blame_fold(ls.drop_last());
        let raw = ls.last();
        let st2 = blame_fold(ls);
        if raw.len() > 0 && raw[0] == '\t' {
            let n = st.out.len();
            assert(st2.out.drop_last() =~= st.out);
            assert(st2.out[n as int].oid == st.oid);
            assert forall|k: int| #[trigger] latest_of_commit(st2.out, k) implies meta_of(st2.out[k]) == known_meta(
                st2.cache,
                st2.out[k].oid,
            ) by {
                if k < n {
                    assert(st2.out[n as int].oid != st2.out[k].oid);
                    assert(st2.out[k] == st.out[k]);
                    assert forall|j: int| k < j < st.out.len() implies #[trigger] st.out[j].oid != st.out[k].oid by {
                        assert(st2.out[j] == st.out[j]);
                    }
                    assert(latest_of_commit(st.out, k));
                }
            }
            assert forall|o: Seq<char>| #[trigger] st2.cache.contains_key(o) implies exists|k: int|
                0 <= k < st2.out.len() && st2.out[k].oid == o by {
                if o == st.oid {
                    assert(st2.out[n as int].oid == o);
                } else {
                    assert(st.cache.contains_key(o));
                    let k = choose|k: int| 0 <= k < st.out.len() && st.out[k].oid == o;
                    assert(st2.out[k] == st.out[k]);
                }
            }
        }
    }
}

/// The metadata of a blamed line. Git sends a commit's author, time and
/// summary only with its first group; so a line whose group gives none of
/// them carries what the latest earlier line of the same commit carries
/// (nothing, empty, when there is none), and a line whose group gives some
/// carries those, a missing field empty.
pub proof fn law_blame_metadata(ls: Seq<Seq<char>>, l: Seq<char>)
    requires
        l.len() > 0,
        l[0] == '\t',
    ensures
        ({
            let st = blame_fold(ls);
            let out = blame_fold(ls.push(l)).out;
            let b = out.last();
            &&& out.len() == st.out.len() + 1
            &&& out.drop_last() == st.out
            &&& b.oid == st.oid
            &&& b.content == l.drop_first()
            &&& (st.author is Some || st.time is Some || st.summary is Some) ==> meta_of(b) == (
                or_empty(st.author),
                match st.time {
                    Some(t) => t,
                    None => 0,
                },
                or_empty(st.summary),
            )
            &&& (st.author is None && st.time is None && st.summary is None) ==> (forall|k: int|
                latest_of_commit(st.out, k) && st.out[k].oid == st.oid ==> meta_of(b) == meta_of(
                    #[trigger] st.out[k],
                ))
            &&& (st.author is None && st.time is None && st.summary is None && forall|k: int|
                0 <= k < st.out.len() ==> #[trigger] st.out[k].oid != st.oid) ==> meta_of(b) == (
                Seq::<char>::empty(),
                0i64,
                Seq::<char>::empty(),
            )
        }),
{
    let st = blame_fold(ls);
    lemma_blame_memory(ls);
    assert(ls.push(l).drop_last() =~= ls);
    assert(ls.push(l).last() == l);
    let out = blame_fold(ls.push(l)).out;
    assert(out.drop_last() =~= st.out);
    if st.author is None && st.time is None && st.summary is None {
        assert forall|k: int| latest_of_commit(st.out, k) && st.out[k].oid == st.oid implies meta_of(out.last())
            == meta_of(#[trigger] st.out[k]) by {
            assert(meta_of(st.out[k]) == known_meta(st.cache, st.out[k].oid));
        }
        if forall|k: int| 0 <= k < st.out.len() ==> #[trigger] st.out[k].oid != st.oid {
            assert(!st.cache.contains_key(st.oid));
        }
    }
}

} // verus!
