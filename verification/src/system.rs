//! Small decisions around the desktop: which links may be opened, what a
//! chosen folder is called, and the font families the system offers.
use vstd::prelude::*;
use crate::git::error::{lowercase_of, to_lowercase};
use crate::git::types::RepoPathCheck;
use crate::path::{path_pieces, path_pieces_exec, platform_style, PathStyle};
use crate::text::{
    chars_eq, chars_of, lex_lt, lex_lt_exec, lemma_lex_asymmetric, lemma_lex_transitive, lines, lines_exec, non_empty, push_str, split_char,
    split_char_exec, starts_with, starts_lit, string_of_all, trim, trim_exec,
};

verus! {

/// Only web links are opened.
pub open spec fn url_ok(url: Seq<char>) -> bool {
    starts_with(url, "https://"@) || starts_with(url, "http://"@)
}

/// The check before a link is handed to the browser: `Invalid URL scheme:
/// <url>` unless it is an `http(s)://` link.
pub fn open_url(url: &str) -> (r: Result<(), String>)
    ensures
        url_ok(url@) ==> r is Ok,
        !url_ok(url@) ==> (r matches Err(m) && m@ == "Invalid URL scheme: "@ + url@),
{
    let v = chars_of(url);
    if starts_lit(v.as_slice(), "https://") || starts_lit(v.as_slice(), "http://") {
        Ok(())
    } else {
        let mut m = chars_of("Invalid URL scheme: ");
        push_str(&mut m, url);
        Err(string_of_all(m.as_slice()))
    }
}

/// The components after the prefix that name something: empty ones (from
/// repeated or trailing separators) and `.` are left out.
pub open spec fn path_components(path: Seq<char>, style: PathStyle) -> Seq<Seq<char>> {
    path_pieces(path, style).filter_map(
        |p: Seq<char>|
            if p.len() > 0 && p != "."@ {
                Some(p)
            } else {
                None
            },
    )
}

/// `Path::file_name`: the last component, none for a root, a bare prefix,
/// `.` or `..`.
pub open spec fn file_name(path: Seq<char>, style: PathStyle) -> Option<Seq<char>> {
    let c = path_components(path, style);
    if c.len() == 0 || c.last() == ".."@ {
        None
    } else {
        Some(c.last())
    }
}

pub struct RepoPathCheckV {
    pub exists: bool,
    pub is_git_repo: bool,
    pub display_name: Seq<char>,
}

impl View for RepoPathCheck {
    type V = RepoPathCheckV;

    open spec fn view(&self) -> RepoPathCheckV {
        RepoPathCheckV {
            exists: self.exists,
            is_git_repo: self.is_git_repo,
            display_name: self.display_name@,
        }
    }
}

/// A chosen folder: whether it exists, whether it is a repository (a `.git`
/// entry, or a `HEAD` of a bare one), and its name.
pub open spec fn spec_repo_path_check(
    path: Seq<char>,
    exists: bool,
    has_git: bool,
    has_head: bool,
    style: PathStyle,
) -> RepoPathCheckV {
    if !exists {
        RepoPathCheckV { exists: false, is_git_repo: false, display_name: Seq::empty() }
    } else {
        RepoPathCheckV {
            exists: true,
            is_git_repo: has_git || has_head,
            display_name: match file_name(path, style) {
                Some(n) => n,
                None => Seq::empty(),
            },
        }
    }
}

fn file_name_exec(path: &[char], style: PathStyle) -> (r: Vec<char>)
    ensures
        r@ == (match file_name(path@, style) {
            Some(n) => n,
            None => Seq::empty(),
        }),
{
    let parts = path_pieces_exec(path, style);
    let ghost sp = path_pieces(path@, style);
    let ghost f = |p: Seq<char>|
        if p.len() > 0 && p != "."@ {
            Some(p)
        } else {
            None
        };
    let dot = chars_of(".");
    let dotdot = chars_of("..");
    let mut last: Option<usize> = None;
    let mut count: usize = 0;
    let mut i: usize = 0;
    assert(sp.take(0) =~= Seq::<Seq<char>>::empty());
    while i < parts.len()
        invariant
            i <= parts@.len() == sp.len(),
            sp == path_pieces(path@, style),
            dot@ == "."@,
            dotdot@ == ".."@,
            forall|k: int| 0 <= k < parts@.len() ==> #[trigger] parts@[k]@ == sp[k],
            count == sp.take(i as int).filter_map(f).len(),
            count <= i,
            f == (|p: Seq<char>|
                if p.len() > 0 && p != "."@ {
                    Some(p)
                } else {
                    None
                }),
            last matches Some(j) ==> j < i && count > 0 && sp.take(i as int).filter_map(f).last()
                == sp[j as int],
            last is None ==> count == 0,
        decreases parts@.len() - i,
    {
        assert(sp.take(i + 1).drop_last() =~= sp.take(i as int));
        assert(sp.take(i + 1).last() == sp[i as int]);
        assert(parts@[i as int]@ == sp[i as int]);
        if parts[i].len() > 0 && !chars_eq(parts[i].as_slice(), dot.as_slice()) {
            last = Some(i);
            count = count + 1;
        }
        i = i + 1;
    }
    assert(sp.take(i as int) =~= sp);
    match last {
        Some(j) => {
            if chars_eq(parts[j].as_slice(), dotdot.as_slice()) {
                Vec::new()
            } else {
                let mut r: Vec<char> = Vec::new();
                crate::text::push_all(&mut r, parts[j].as_slice());
                assert(r@ =~= parts@[j as int]@);
                r
            }
        },
        None => Vec::new(),
    }
}

/// The check of a folder chosen as a repository; `exists`, `has_git` (a
/// `.git` entry) and `has_head` (a `HEAD` file) are what the disk says, and
/// its name is read by the path rules of `style`.
pub fn check_repo_path_in(path: &str, exists: bool, has_git: bool, has_head: bool, style: PathStyle) -> (r: RepoPathCheck)
    ensures
        r@ == spec_repo_path_check(path@, exists, has_git, has_head, style),
{
    if !exists {
        return RepoPathCheck { exists: false, is_git_repo: false, display_name: String::new() };
    }
    let v = chars_of(path);
    let n = file_name_exec(v.as_slice(), style);
    RepoPathCheck {
        exists: true,
        is_git_repo: has_git || has_head,
        display_name: string_of_all(n.as_slice()),
    }
}

/// `check_repo_path_in` by the path rules of the platform that runs the
/// library.
pub fn check_repo_path(path: &str, exists: bool, has_git: bool, has_head: bool) -> (r: RepoPathCheck)
    ensures
        r@ == spec_repo_path_check(path@, exists, has_git, has_head, PathStyle::Unix) || r@
            == spec_repo_path_check(path@, exists, has_git, has_head, PathStyle::Windows),
{
    check_repo_path_in(path, exists, has_git, has_head, platform_style())
}

// ---------------------------------------------------------------------------
// Font families
// ---------------------------------------------------------------------------

/// The families of `fc-list : family` output: every comma-separated name of
/// every line, trimmed, blank ones left out.
pub open spec fn font_candidates(ls: Seq<Seq<char>>) -> Seq<Seq<char>>
    decreases ls.len(),
{
    if ls.len() == 0 {
        Seq::empty()
    } else {
        font_candidates(ls.drop_last()) + non_empty(
            split_char(ls.last(), ',').map_values(|p: Seq<char>| trim(p)),
        )
    }
}

/// Where a name goes in a list sorted by lower-cased name: after every name
/// whose lower-cased form is not greater.
pub open spec fn key_slot(s: Seq<Seq<char>>, k: Seq<char>) -> int
    decreases s.len(),
{
    if s.len() == 0 {
        0
    } else if lex_lt(k, lowercase_of(s[0])) {
        0
    } else {
        1 + key_slot(s.drop_first(), k)
    }
}

/// Sorted by lower-cased name (`str::to_lowercase`), equal keys in their
/// first order.
pub open spec fn sort_by_lower(s: Seq<Seq<char>>) -> Seq<Seq<char>>
    decreases s.len(),
{
    if s.len() == 0 {
        s
    } else {
        let r = sort_by_lower(s.drop_last());
        r.insert(key_slot(r, lowercase_of(s.last())), s.last())
    }
}

/// Runs of equal neighbours kept once.
pub open spec fn dedup(s: Seq<Seq<char>>) -> Seq<Seq<char>>
    decreases s.len(),
{
    if s.len() <= 1 {
        s
    } else if s[s.len() - 2] == s.last() {
        dedup(s.drop_last())
    } else {
        dedup(s.drop_last()).push(s.last())
    }
}

pub open spec fn spec_font_families(out: Seq<char>) -> Seq<Seq<char>> {
    dedup(sort_by_lower(font_candidates(lines(out))))
}

pub open spec fn strv(v: Seq<String>) -> Seq<Seq<char>> {
    v.map_values(|s: String| s@)
}

fn candidates(output: &str) -> (r: Vec<String>)
    ensures
        strv(r@) == font_candidates(lines(output@)),
{
    let ov = chars_of(output);
    let ls = lines_exec(ov.as_slice());
    let ghost sl = lines(output@);
    let mut r: Vec<String> = Vec::new();
    let mut i: usize = 0;
    assert(sl.take(0) =~= Seq::<Seq<char>>::empty());
    while i < ls.len()
        invariant
            i <= ls@.len() == sl.len(),
            sl == lines(output@),
            forall|k: int| 0 <= k < ls@.len() ==> #[trigger] ls@[k]@ == sl[k],
            strv(r@) == font_candidates(sl.take(i as int)),
        decreases ls@.len() - i,
    {
        assert(sl.take(i + 1).drop_last() =~= sl.take(i as int));
        assert(sl.take(i + 1).last() == sl[i as int]);
        assert(ls@[i as int]@ == sl[i as int]);
        let pieces = split_char_exec(ls[i].as_slice(), ',');
        let ghost tp = split_char(sl[i as int], ',').map_values(|p: Seq<char>| trim(p));
        let ghost base = strv(r@);
        let mut j: usize = 0;
        assert(tp.take(0) =~= Seq::<Seq<char>>::empty());
        while j < pieces.len()
            invariant
                j <= pieces@.len() == tp.len(),
                tp == split_char(sl[i as int], ',').map_values(|p: Seq<char>| trim(p)),
                forall|k: int| 0 <= k < pieces@.len() ==> #[trigger] pieces@[k]@ == split_char(
                    sl[i as int],
                    ',',
                )[k],
                strv(r@) == base + non_empty(tp.take(j as int)),
            decreases pieces@.len() - j,
        {
            assert(tp.take(j + 1).drop_last() =~= tp.take(j as int));
            assert(tp[j as int] == trim(pieces@[j as int]@));
            let t = trim_exec(pieces[j].as_slice());
            if t.len() > 0 {
                let ghost prev = strv(r@);
                r.push(string_of_all(t.as_slice()));
                assert(strv(r@) =~= prev.push(t@));
                assert(non_empty(tp.take(j + 1)) =~= non_empty(tp.take(j as int)).push(t@));
            } else {
                assert(non_empty(tp.take(j + 1)) =~= non_empty(tp.take(j as int)));
            }
            j = j + 1;
        }
        assert(tp.take(j as int) =~= tp);
        i = i + 1;
    }
    assert(sl.take(i as int) =~= sl);
    r
}

fn key_slot_exec(names: &Vec<String>, keys: &Vec<String>, k: &str) -> (j: usize)
    requires
        names@.len() == keys@.len(),
        forall|i: int| 0 <= i < keys@.len() ==> #[trigger] keys@[i]@ == lowercase_of(names@[i]@),
    ensures
        j as int == key_slot(strv(names@), k@),
        j <= names@.len(),
{
    let ghost s = strv(names@);
    let kv = chars_of(k);
    let mut j: usize = 0;
    assert(s.skip(0) =~= s);
    while j < keys.len()
        invariant
            j <= keys@.len() == names@.len() == s.len(),
            s == strv(names@),
            kv@ == k@,
            forall|i: int| 0 <= i < keys@.len() ==> #[trigger] keys@[i]@ == lowercase_of(names@[i]@),
            key_slot(s, k@) == j + key_slot(s.skip(j as int), k@),
        decreases keys@.len() - j,
    {
        assert(s.skip(j as int).drop_first() =~= s.skip(j + 1));
        assert(s.skip(j as int)[0] == names@[j as int]@);
        let kj = chars_of(keys[j].as_str());
        if lex_lt_exec(kv.as_slice(), kj.as_slice()) {
            return j;
        }
        j = j + 1;
    }
    j
}

/// The font families the system lists (`fc-list : family` output), sorted
/// by lower-cased name, repeated neighbours once.
pub fn list_system_fonts(output: &str) -> (r: Vec<String>)
    ensures
        strv(r@) == spec_font_families(output@),
{
    let c = candidates(output);
    let ghost cs = strv(c@);
    let mut names: Vec<String> = Vec::new();
    let mut keys: Vec<String> = Vec::new();
    let mut i: usize = 0;
    assert(cs.take(0) =~= Seq::<Seq<char>>::empty());
    while i < c.len()
        invariant
            i <= c@.len(),
            cs == strv(c@),
            names@.len() == keys@.len(),
            forall|k: int| 0 <= k < keys@.len() ==> #[trigger] keys@[k]@ == lowercase_of(names@[k]@),
            strv(names@) == sort_by_lower(cs.take(i as int)),
        decreases c@.len() - i,
    {
        assert(cs.take(i + 1).drop_last() =~= cs.take(i as int));
        assert(cs.take(i + 1).last() == c@[i as int]@);
        let key = to_lowercase(c[i].as_str());
        let j = key_slot_exec(&names, &keys, key.as_str());
        let name = c[i].clone();
        let ghost pn = names@;
        let ghost pk = keys@;
        names.insert(j, name);
        keys.insert(j, key);
        assert(strv(names@) =~= strv(pn).insert(j as int, cs[i as int]));
        assert forall|k: int| 0 <= k < keys@.len() implies #[trigger] keys@[k]@ == lowercase_of(
            names@[k]@,
        ) by {
            if k < j {
                assert(keys@[k] == pk[k] && names@[k] == pn[k]);
            } else if k > j {
                assert(keys@[k] == pk[k - 1] && names@[k] == pn[k - 1]);
            }
        }
        i = i + 1;
    }
    assert(cs.take(i as int) =~= cs);
    let ghost sorted = strv(names@);
    let mut r: Vec<String> = Vec::new();
    let mut k: usize = 0;
    assert(sorted.take(0) =~= Seq::<Seq<char>>::empty());
    while k < names.len()
        invariant
            k <= names@.len(),
            sorted == strv(names@),
            strv(r@) == dedup(sorted.take(k as int)),
            k > 0 ==> r@.len() > 0 && r@.last()@ == sorted[k - 1],
        decreases names@.len() - k,
    {
        assert(sorted.take(k + 1).drop_last() =~= sorted.take(k as int));
        let cur = chars_of(names[k].as_str());
        let same = if k > 0 {
            let prev = chars_of(names[k - 1].as_str());
            chars_eq(prev.as_slice(), cur.as_slice())
        } else {
            false
        };
        proof {
            if k > 0 {
                assert(sorted.take(k + 1)[k - 1] == sorted[k - 1]);
            }
        }
        if !same {
            let ghost prev = strv(r@);
            r.push(names[k].clone());
            assert(strv(r@) =~= prev.push(sorted[k as int]));
            if k == 0 {
                assert(sorted.take(1) =~= seq![sorted[0]]);
            }
        }
        proof {
            if same {
                let d = dedup(sorted.take(k as int));
                assert(d.len() > 0);
            }
        }
        k = k + 1;
    }
    assert(sorted.take(k as int) =~= sorted);
    r
}

// ---------------------------------------------------------------------------
// Laws
// ---------------------------------------------------------------------------

proof fn lemma_dedup_last(s: Seq<Seq<char>>)
    requires
        s.len() > 0,
    ensures
        dedup(s).len() > 0,
        dedup(s).last() == s.last(),
    decreases s.len(),
{
    if s.len() > 1 {
        lemma_dedup_last(s.drop_last());
    }
}

/// No family is listed twice in a row.
pub proof fn law_fonts_no_neighbour_repeats(s: Seq<Seq<char>>)
    ensures
        forall|i: int| 0 <= i < dedup(s).len() - 1 ==> #[trigger] dedup(s)[i] != dedup(s)[i + 1],
    decreases s.len(),
{
    if s.len() > 1 {
        law_fonts_no_neighbour_repeats(s.drop_last());
        lemma_dedup_last(s.drop_last());
        let d = dedup(s.drop_last());
        if s[s.len() - 2] != s.last() {
            assert(d.last() == s[s.len() - 2]);
            assert forall|i: int| 0 <= i < dedup(s).len() - 1 implies #[trigger] dedup(s)[i]
                != dedup(s)[i + 1] by {
                if i < d.len() - 1 {
                    assert(dedup(s)[i] == d[i] && dedup(s)[i + 1] == d[i + 1]);
                }
            }
        }
    }
}

proof fn lemma_key_slot(s: Seq<Seq<char>>, k: Seq<char>)
    ensures
        0 <= key_slot(s, k) <= s.len(),
        forall|i: int| 0 <= i < key_slot(s, k) ==> !lex_lt(k, lowercase_of(#[trigger] s[i])),
        key_slot(s, k) < s.len() ==> lex_lt(k, lowercase_of(s[key_slot(s, k)])),
    decreases s.len(),
{
    if s.len() > 0 && !lex_lt(k, lowercase_of(s[0])) {
        lemma_key_slot(s.drop_first(), k);
        assert forall|i: int| 0 <= i < key_slot(s, k) implies !lex_lt(
            k,
            lowercase_of(#[trigger] s[i]),
        ) by {
            if i > 0 {
                assert(s[i] == s.drop_first()[i - 1]);
            }
        }
    }
}

/// The families come in order of their lower-cased names (equal names side
/// by side), and every family listed is one of the names given.
pub proof fn law_fonts_sorted_by_lower(s: Seq<Seq<char>>)
    ensures
        sort_by_lower(s).len() == s.len(),
        sort_by_lower(s).to_multiset() == s.to_multiset(),
        forall|i: int, j: int|
            0 <= i < j < sort_by_lower(s).len() ==> !lex_lt(
                lowercase_of(#[trigger] sort_by_lower(s)[j]),
                lowercase_of(#[trigger] sort_by_lower(s)[i]),
            ),
    decreases s.len(),
{
    if s.len() > 0 {
        law_fonts_sorted_by_lower(s.drop_last());
        let r = sort_by_lower(s.drop_last());
        let x = s.last();
        let k = lowercase_of(x);
        let p = key_slot(r, k);
        lemma_key_slot(r, k);
        let q = r.insert(p, x);
        assert forall|i: int, j: int| 0 <= i < j < q.len() implies !lex_lt(
            lowercase_of(#[trigger] q[j]),
            lowercase_of(#[trigger] q[i]),
        ) by {
            if j < p {
                assert(q[i] == r[i] && q[j] == r[j]);
            } else if j == p {
                assert(q[i] == r[i]);
            } else if i < p {
                assert(q[i] == r[i] && q[j] == r[j - 1]);
                if i < j - 1 {
                    assert(!lex_lt(lowercase_of(r[j - 1]), lowercase_of(r[i])));
                }
            } else if i == p {
                assert(q[j] == r[j - 1]);
                lemma_lex_asymmetric(k, lowercase_of(r[p]));
                if p < j - 1 {
                    assert(!lex_lt(lowercase_of(r[j - 1]), lowercase_of(r[p])));
                    lemma_lex_transitive(lowercase_of(r[j - 1]), k, lowercase_of(r[p]));
                }
            } else {
                assert(q[i] == r[i - 1] && q[j] == r[j - 1]);
            }
        }
        vstd::seq_lib::to_multiset_insert(r, p, x);
        vstd::seq_lib::to_multiset_build(s.drop_last(), x);
        assert(s.drop_last().push(x) =~= s);
    }
}

} // verus!
