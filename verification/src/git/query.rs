//! Read-only Git queries: the commands to run and the parsers of their output.
use vstd::prelude::*;
use super::hunk::arg;
use super::types::{
    strs_of, BranchInfo, BranchInfoV, CommitInfo, CommitInfoV, GraphLineV, RefLabel, RefLabelV,
    FileStatus, FileStatusV, RemoteInfo, RemoteInfoV, StashEntry, StashEntryV, TagInfo, TagInfoV,
};
use crate::text::{
    dec, lemma_filter_map_keeps, lemma_find_bounds, lemma_parse_dec, ascii_char, is_ascii_exec, chars_of, contains, contains_lit, ends_lit, ends_with, eq_lit,
    lines, lines_exec, non_empty, parse_unsigned, parse_unsigned_exec, split_char, split_char_exec,
    split_str, split_str_exec, split_ws, split_ws_exec, splitn_char, splitn_char_exec, starts_with,
    strip_lit, strip_prefix, strip_suffix, strip_suffix_exec, string_of_all, trim, trim_end_char,
    trim_exec,
};

verus! {

// ---------------------------------------------------------------------------
// status
// ---------------------------------------------------------------------------

/// A character that stands for a byte of a multi-byte UTF-8 character; it
/// equals none of the ASCII status letters.
pub open spec fn non_ascii_byte() -> char {
    '\u{80}'
}

/// The two XY status bytes of `git status --porcelain=v2`, as characters.
pub open spec fn xy_bytes(xy: Seq<char>) -> (char, char) {
    if xy.len() >= 1 && ascii_char(xy[0]) {
        (xy[0], if xy.len() >= 2 && ascii_char(xy[1]) { xy[1] } else { non_ascii_byte() })
    } else {
        (non_ascii_byte(), non_ascii_byte())
    }
}

/// The XY field is shorter than two bytes.
pub open spec fn xy_too_short(xy: Seq<char>) -> bool {
    xy.len() == 0 || (xy.len() == 1 && ascii_char(xy[0]))
}

/// `(state, staged)` of an XY status.
pub open spec fn status_class(xy: Seq<char>) -> (Seq<char>, Seq<char>) {
    let (x, y) = xy_bytes(xy);
    if x == 'M' && y == '.' {
        ("modified"@, "staged"@)
    } else if x == '.' && y == 'M' {
        ("modified"@, "unstaged"@)
    } else if x == 'M' && y == 'M' {
        ("modified"@, "partial"@)
    } else if x == 'A' && y == '.' {
        ("added"@, "staged"@)
    } else if x == '.' && y == 'A' {
        ("added"@, "unstaged"@)
    } else if x == 'D' && y == '.' {
        ("deleted"@, "staged"@)
    } else if x == '.' && y == 'D' {
        ("deleted"@, "unstaged"@)
    } else if x == 'R' && y == '.' {
        ("renamed"@, "staged"@)
    } else if x == 'R' && y == 'M' {
        ("renamed"@, "partial"@)
    } else if contains(xy, "U"@) || xy == "AA"@ || xy == "DD"@ {
        ("conflicted"@, "unstaged"@)
    } else {
        ("modified"@, "unstaged"@)
    }
}

/// The entry of one line of `git status --porcelain=v2`: ordinary (`1`) and
/// rename (`2`, path after the TAB) entries and untracked (`?`) files.
pub open spec fn status_item(line: Seq<char>) -> Option<FileStatusV> {
    if line.len() > 0 && (line[0] == '1' || line[0] == '2') {
        let parts = splitn_char(line, 9, ' ');
        if parts.len() < 9 || xy_too_short(parts[1]) {
            None
        } else {
            let tabbed = split_char(parts[8], '\t');
            let path = if line[0] == '2' && tabbed.len() >= 2 {
                tabbed[1]
            } else {
                parts[8]
            };
            let (state, staged) = status_class(parts[1]);
            Some(FileStatusV { path, state, staged })
        }
    } else if line.len() > 0 && line[0] == '?' {
        Some(FileStatusV { path: line.skip(2), state: "untracked"@, staged: "unstaged"@ })
    } else {
        None
    }
}

/// Every untracked-file line holds its path after `"? "` (the text is cut at
/// byte 2).
pub open spec fn status_output_ok(out: Seq<char>) -> bool {
    forall|i: int|
        0 <= i < lines(out).len() && lines(out)[i].len() > 0 && #[trigger] lines(out)[i][0] == '?'
            ==> lines(out)[i].len() >= 2 && ascii_char(lines(out)[i][1])
}

pub open spec fn spec_status(out: Seq<char>) -> Seq<FileStatusV> {
    lines(out).filter_map(|l: Seq<char>| status_item(l))
}

/// The word for a change letter of a status entry.
pub open spec fn change_word(c: char) -> Seq<char> {
    if c == 'M' {
        "modified"@
    } else if c == 'A' {
        "added"@
    } else if c == 'D' {
        "deleted"@
    } else if c == 'R' {
        "renamed"@
    } else {
        Seq::empty()
    }
}

/// Staged-ness follows the side that changed. For an ordinary entry line of
/// the status output with status letters `XY`: a change only in the index
/// (`X` one of `M`, `A`, `D`, `R`, and `Y` is `.`) is reported staged; a
/// change only in the work tree (`X` is `.`, `Y` one of `M`, `A`, `D`) is
/// reported unstaged; a modified or renamed index entry modified again in the
/// work tree (`MM`, `RM`) is partial. The state is the word of the changed
/// letter, and the path is the entry's last field.
pub proof fn law_status_staged_follows_side(out: Seq<char>, i: int, x: char, y: char)
    requires
        0 <= i < lines(out).len(),
        lines(out)[i].len() > 0,
        lines(out)[i][0] == '1',
        splitn_char(lines(out)[i], 9, ' ').len() == 9,
        splitn_char(lines(out)[i], 9, ' ')[1] == seq![x, y],
    ensures
        ({
            let path = splitn_char(lines(out)[i], 9, ' ')[8];
            &&& (x == 'M' || x == 'A' || x == 'D' || x == 'R') && y == '.' ==> spec_status(out).contains(
                FileStatusV { path, state: change_word(x), staged: "staged"@ },
            )
            &&& x == '.' && (y == 'M' || y == 'A' || y == 'D') ==> spec_status(out).contains(
                FileStatusV { path, state: change_word(y), staged: "unstaged"@ },
            )
            &&& (x == 'M' || x == 'R') && y == 'M' ==> spec_status(out).contains(
                FileStatusV { path, state: change_word(x), staged: "partial"@ },
            )
        }),
{
    let l = lines(out)[i];
    let parts = splitn_char(l, 9, ' ');
    let xy = seq![x, y];
    if (x == 'M' || x == 'A' || x == 'D' || x == 'R' || x == '.') && (y == '.' || y == 'M' || y == 'A'
        || y == 'D') {
        assert(ascii_char(x) && ascii_char(y));
        assert(xy_bytes(xy) == (x, y));
        assert(!xy_too_short(xy));
        lemma_filter_map_keeps(lines(out), |k: Seq<char>| status_item(k), i);
    }
}

/// Conflicts and untracked files. An ordinary entry whose status letters
/// hold a `U`, or are `AA` or `DD`, is reported conflicted (unstaged); a
/// `? <path>` line is the untracked file `<path>`.
pub proof fn law_status_conflicts_and_untracked(out: Seq<char>, i: int)
    requires
        0 <= i < lines(out).len(),
        lines(out)[i].len() > 0,
    ensures
        ({
            let l = lines(out)[i];
            let parts = splitn_char(l, 9, ' ');
            &&& (l[0] == '1' && parts.len() == 9 && parts[1].len() == 2 && ascii_char(parts[1][0])
                && ascii_char(parts[1][1]) && (parts[1][0] == 'U' || parts[1][1] == 'U'
                || parts[1] == "AA"@ || parts[1] == "DD"@)) ==> spec_status(out).contains(
                FileStatusV { path: parts[8], state: "conflicted"@, staged: "unstaged"@ },
            )
            &&& l[0] == '?' ==> spec_status(out).contains(
                FileStatusV { path: l.skip(2), state: "untracked"@, staged: "unstaged"@ },
            )
        }),
{
    reveal_strlit("U");
    reveal_strlit("AA");
    reveal_strlit("DD");
    let l = lines(out)[i];
    let parts = splitn_char(l, 9, ' ');
    if l[0] == '1' && parts.len() == 9 && parts[1].len() == 2 && ascii_char(parts[1][0]) && ascii_char(
        parts[1][1],
    ) && (parts[1][0] == 'U' || parts[1][1] == 'U' || parts[1] == "AA"@ || parts[1] == "DD"@) {
        let xy = parts[1];
        assert(xy_bytes(xy) == (xy[0], xy[1]));
        lemma_find_bounds(xy, "U"@);
        if xy[0] == 'U' {
            assert(xy.subrange(0, 1) =~= "U"@);
            assert(crate::text::matches_at(xy, "U"@, 0));
            assert(contains(xy, "U"@));
        } else if xy[1] == 'U' {
            assert(xy.subrange(1, 2) =~= "U"@);
            assert(crate::text::matches_at(xy, "U"@, 1));
            assert(contains(xy, "U"@));
        }
        lemma_filter_map_keeps(lines(out), |k: Seq<char>| status_item(k), i);
    }
    if l[0] == '?' {
        lemma_filter_map_keeps(lines(out), |k: Seq<char>| status_item(k), i);
    }
}

const NON_ASCII: char = '\u{80}';

fn status_class_exec(xy: &[char]) -> (r: (String, String))
    ensures
        (r.0@, r.1@) == status_class(xy@),
{
    let x = if xy.len() >= 1 && is_ascii_exec(xy[0]) {
        xy[0]
    } else {
        NON_ASCII
    };
    let y = if xy.len() >= 1 && is_ascii_exec(xy[0]) {
        if xy.len() >= 2 && is_ascii_exec(xy[1]) {
            xy[1]
        } else {
            NON_ASCII
        }
    } else {
        NON_ASCII
    };
    let (a, b) = if x == 'M' && y == '.' {
        ("modified", "staged")
    } else if x == '.' && y == 'M' {
        ("modified", "unstaged")
    } else if x == 'M' && y == 'M' {
        ("modified", "partial")
    } else if x == 'A' && y == '.' {
        ("added", "staged")
    } else if x == '.' && y == 'A' {
        ("added", "unstaged")
    } else if x == 'D' && y == '.' {
        ("deleted", "staged")
    } else if x == '.' && y == 'D' {
        ("deleted", "unstaged")
    } else if x == 'R' && y == '.' {
        ("renamed", "staged")
    } else if x == 'R' && y == 'M' {
        ("renamed", "partial")
    } else if contains_lit(xy, "U") || eq_lit(xy, "AA") || eq_lit(xy, "DD") {
        ("conflicted", "unstaged")
    } else {
        ("modified", "unstaged")
    };
    (a.to_owned(), b.to_owned())
}

fn status_line(line: &[char]) -> (r: Option<FileStatus>)
    requires
        line@.len() > 0 && line@[0] == '?' ==> line@.len() >= 2,
    ensures
        r matches Some(f) ==> status_item(line@) == Some(f@),
        r is None ==> status_item(line@) is None,
{
    if line.len() > 0 && (line[0] == '1' || line[0] == '2') {
        let parts = splitn_char_exec(line, 9, ' ');
        if parts.len() < 9 {
            return None;
        }
        let xy = &parts[1];
        if xy.len() == 0 || (xy.len() == 1 && is_ascii_exec(xy[0])) {
            return None;
        }
        let tabbed = split_char_exec(parts[8].as_slice(), '\t');
        let path = if line[0] == '2' && tabbed.len() >= 2 {
            string_of_all(tabbed[1].as_slice())
        } else {
            string_of_all(parts[8].as_slice())
        };
        let (state, staged) = status_class_exec(xy.as_slice());
        Some(FileStatus { path, state, staged })
    } else if line.len() > 0 && line[0] == '?' {
        let path = crate::text::string_of(line, 2, line.len());
        assert(line@.subrange(2, line@.len() as int) =~= line@.skip(2));
        Some(FileStatus { path, state: "untracked".to_owned(), staged: "unstaged".to_owned() })
    } else {
        None
    }
}

/// Whether `status` takes this output: every untracked-file line has an
/// ASCII character before its path.
pub fn status_output_fits(output: &str) -> (b: bool)
    ensures
        b == status_output_ok(output@),
{
    let ov = chars_of(output);
    let ls = lines_exec(ov.as_slice());
    let ghost sl = lines(output@);
    let mut i: usize = 0;
    while i < ls.len()
        invariant
            i <= ls@.len() == sl.len(),
            sl == lines(output@),
            forall|k: int| 0 <= k < ls@.len() ==> #[trigger] ls@[k]@ == sl[k],
            forall|k: int|
                0 <= k < i && sl[k].len() > 0 && #[trigger] sl[k][0] == '?' ==> sl[k].len() >= 2
                    && ascii_char(sl[k][1]),
        decreases ls@.len() - i,
    {
        assert(ls@[i as int]@ == sl[i as int]);
        let l = &ls[i];
        if l.len() > 0 && l[0] == '?' {
            if !(l.len() >= 2 && is_ascii_exec(l[1])) {
                assert(sl[i as int][0] == '?');
                return false;
            }
        }
        i = i + 1;
    }
    true
}

/// Parses `git status --porcelain=v2 --untracked-files=all` into the changed
/// files of the working tree.
pub fn status(output: &str) -> (r: Vec<FileStatus>)
    requires
        status_output_ok(output@),
    ensures
        r@.map_values(|f: FileStatus| f@) == spec_status(output@),
{
    let ov = chars_of(output);
    let ls = lines_exec(ov.as_slice());
    let ghost sl = lines(output@);
    let mut files: Vec<FileStatus> = Vec::new();
    let mut i: usize = 0;
    assert(sl.take(0) =~= Seq::<Seq<char>>::empty());
    while i < ls.len()
        invariant
            i <= ls@.len() == sl.len(),
            sl == lines(output@),
            status_output_ok(output@),
            forall|k: int| 0 <= k < ls@.len() ==> #[trigger] ls@[k]@ == sl[k],
            files@.map_values(|f: FileStatus| f@) == sl.take(i as int).filter_map(
                |l: Seq<char>| status_item(l),
            ),
        decreases ls@.len() - i,
    {
        assert(sl.take(i + 1).drop_last() =~= sl.take(i as int));
        assert(ls@[i as int]@ == sl[i as int]);
        if ls[i].len() > 0 && ls[i][0] == '?' {
            assert(sl[i as int][0] == '?');
        }
        let item = status_line(ls[i].as_slice());
        let ghost prev = files@;
        match item {
            Some(f) => {
                files.push(f);
                assert(files@.map_values(|f: FileStatus| f@) =~= prev.map_values(
                    |f: FileStatus| f@,
                ).push(f@));
            },
            None => {},
        }
        i = i + 1;
    }
    assert(sl.take(sl.len() as int) =~= sl);
    files
}

// ---------------------------------------------------------------------------
// file lists
// ---------------------------------------------------------------------------

fn strings_of(v: &Vec<Vec<char>>) -> (r: Vec<String>)
    ensures
        r@.len() == v@.len(),
        forall|i: int| 0 <= i < v@.len() ==> #[trigger] r@[i]@ == v@[i]@,
{
    let mut r: Vec<String> = Vec::new();
    let mut i: usize = 0;
    while i < v.len()
        invariant
            i <= v@.len(),
            r@.len() == i,
            forall|k: int| 0 <= k < i ==> #[trigger] r@[k]@ == v@[k]@,
        decreases v@.len() - i,
    {
        r.push(string_of_all(v[i].as_slice()));
        i = i + 1;
    }
    r
}

/// The non-empty pieces of `pieces` (given by their views `sp`), as strings.
fn non_empty_strings(pieces: &Vec<Vec<char>>, sp: Ghost<Seq<Seq<char>>>) -> (r: Vec<String>)
    requires
        pieces@.len() == sp@.len(),
        forall|k: int| 0 <= k < pieces@.len() ==> #[trigger] pieces@[k]@ == sp@[k],
    ensures
        r@.map_values(|s: String| s@) == non_empty(sp@),
{
    let mut r: Vec<String> = Vec::new();
    let mut i: usize = 0;
    assert(sp@.take(0) =~= Seq::<Seq<char>>::empty());
    while i < pieces.len()
        invariant
            i <= pieces@.len() == sp@.len(),
            forall|k: int| 0 <= k < pieces@.len() ==> #[trigger] pieces@[k]@ == sp@[k],
            r@.map_values(|s: String| s@) == non_empty(sp@.take(i as int)),
        decreases pieces@.len() - i,
    {
        assert(sp@.take(i + 1).drop_last() =~= sp@.take(i as int));
        assert(pieces@[i as int]@ == sp@[i as int]);
        if pieces[i].len() > 0 {
            let ghost prev = r@;
            r.push(string_of_all(pieces[i].as_slice()));
            assert(r@.map_values(|s: String| s@) =~= prev.map_values(|s: String| s@).push(sp@[i as int]));
        }
        i = i + 1;
    }
    assert(sp@.take(sp@.len() as int) =~= sp@);
    r
}

/// The non-empty NUL-separated names of a `-z` listing.
pub open spec fn spec_nul_list(out: Seq<char>) -> Seq<Seq<char>> {
    non_empty(split_char(out, '\0'))
}

fn nul_list(output: &str) -> (r: Vec<String>)
    ensures
        r@.map_values(|s: String| s@) == spec_nul_list(output@),
{
    let ov = chars_of(output);
    let pieces = split_char_exec(ov.as_slice(), '\0');
    non_empty_strings(&pieces, Ghost(split_char(output@, '\0')))
}

/// Arguments listing the working copy: tracked and untracked files, without
/// ignored ones.
pub fn list_all_files_args() -> (a: Vec<String>)
    ensures
        a@.map_values(|s: String| s@) == seq![
            "ls-files"@,
            "--cached"@,
            "--others"@,
            "--exclude-standard"@,
            "-z"@,
        ],
{
    let a = vec![
        "ls-files".to_owned(),
        "--cached".to_owned(),
        "--others".to_owned(),
        "--exclude-standard".to_owned(),
        "-z".to_owned(),
    ];
    assert(a@.map_values(|s: String| s@) =~= seq![
        "ls-files"@,
        "--cached"@,
        "--others"@,
        "--exclude-standard"@,
        "-z"@,
    ]);
    a
}

/// The files of the working copy, from `git ls-files -z` output.
pub fn list_all_files(output: &str) -> (r: Vec<String>)
    ensures
        r@.map_values(|s: String| s@) == spec_nul_list(output@),
{
    nul_list(output)
}

/// Arguments listing every file of the tree of commit `oid`.
pub fn list_files_at_args(oid: &str) -> (a: Vec<String>)
    ensures
        a@.map_values(|s: String| s@) == seq![
            "-c"@,
            "core.quotepath=false"@,
            "ls-tree"@,
            "-r"@,
            "--name-only"@,
            "-z"@,
            oid@,
        ],
{
    let a = vec![
        "-c".to_owned(),
        "core.quotepath=false".to_owned(),
        "ls-tree".to_owned(),
        "-r".to_owned(),
        "--name-only".to_owned(),
        "-z".to_owned(),
        oid.to_owned(),
    ];
    assert(a@.map_values(|s: String| s@) =~= seq![
        "-c"@,
        "core.quotepath=false"@,
        "ls-tree"@,
        "-r"@,
        "--name-only"@,
        "-z"@,
        oid@,
    ]);
    a
}

/// The files of a commit's tree, from `git ls-tree -r --name-only -z` output.
pub fn list_files_at(output: &str) -> (r: Vec<String>)
    ensures
        r@.map_values(|s: String| s@) == spec_nul_list(output@),
{
    nul_list(output)
}

// ---------------------------------------------------------------------------
// remotes, tags, stashes
// ---------------------------------------------------------------------------

/// The names in `git remote` output: its non-empty lines.
pub open spec fn spec_remotes(out: Seq<char>) -> Seq<Seq<char>> {
    non_empty(lines(out))
}

/// Parses `git remote` into remote names.
pub fn remotes(output: &str) -> (r: Vec<String>)
    ensures
        r@.map_values(|s: String| s@) == spec_remotes(output@),
{
    let ov = chars_of(output);
    let ls = lines_exec(ov.as_slice());
    non_empty_strings(&ls, Ghost(lines(output@)))
}

/// A `git remote -v` line `name url (fetch)`: the remote and its fetch URL.
pub open spec fn remote_url_item(line: Seq<char>) -> Option<RemoteInfoV> {
    if !ends_with(line, "(fetch)"@) || split_ws(line).len() < 2 {
        None
    } else {
        Some(RemoteInfoV { name: split_ws(line)[0], url: split_ws(line)[1] })
    }
}

pub open spec fn spec_remote_urls(out: Seq<char>) -> Seq<RemoteInfoV> {
    lines(out).filter_map(|l: Seq<char>| remote_url_item(l))
}

fn remote_url_line(line: &[char]) -> (r: Option<RemoteInfo>)
    ensures
        r matches Some(x) ==> remote_url_item(line@) == Some(x@),
        r is None ==> remote_url_item(line@) is None,
{
    if !ends_lit(line, "(fetch)") {
        return None;
    }
    let words = split_ws_exec(line);
    if words.len() < 2 {
        return None;
    }
    Some(
        RemoteInfo {
            name: string_of_all(words[0].as_slice()),
            url: string_of_all(words[1].as_slice()),
        },
    )
}

/// Parses `git remote -v` into the remotes with their fetch URLs.
pub fn remote_urls(output: &str) -> (r: Vec<RemoteInfo>)
    ensures
        r@.map_values(|x: RemoteInfo| x@) == spec_remote_urls(output@),
{
    let ov = chars_of(output);
    let ls = lines_exec(ov.as_slice());
    let ghost sl = lines(output@);
    let mut res: Vec<RemoteInfo> = Vec::new();
    let mut i: usize = 0;
    assert(sl.take(0) =~= Seq::<Seq<char>>::empty());
    while i < ls.len()
        invariant
            i <= ls@.len() == sl.len(),
            forall|k: int| 0 <= k < ls@.len() ==> #[trigger] ls@[k]@ == sl[k],
            res@.map_values(|x: RemoteInfo| x@) == sl.take(i as int).filter_map(
                |l: Seq<char>| remote_url_item(l),
            ),
        decreases ls@.len() - i,
    {
        assert(sl.take(i + 1).drop_last() =~= sl.take(i as int));
        assert(ls@[i as int]@ == sl[i as int]);
        let ghost prev = res@;
        if let Some(x) = remote_url_line(ls[i].as_slice()) {
            res.push(x);
            assert(res@.map_values(|x: RemoteInfo| x@) =~= prev.map_values(|x: RemoteInfo| x@).push(
                x@,
            ));
        }
        i = i + 1;
    }
    assert(sl.take(sl.len() as int) =~= sl);
    res
}

pub open spec fn non_empty_opt(s: Seq<char>) -> Option<Seq<char>> {
    if s.len() > 0 {
        Some(s)
    } else {
        None
    }
}

/// A non-empty line `name NUL oid NUL subject` of `git tag -l --format`.
pub open spec fn tag_item(line: Seq<char>) -> Option<TagInfoV> {
    if line.len() == 0 {
        None
    } else {
        let parts = splitn_char(line, 3, '\0');
        Some(
            TagInfoV {
                name: parts[0],
                oid: if parts.len() > 1 {
                    parts[1]
                } else {
                    Seq::empty()
                },
                message: if parts.len() > 2 {
                    non_empty_opt(parts[2])
                } else {
                    None
                },
            },
        )
    }
}

pub open spec fn spec_tags(out: Seq<char>) -> Seq<TagInfoV> {
    lines(out).filter_map(|l: Seq<char>| tag_item(l))
}

fn piece_or_empty(parts: &Vec<Vec<char>>, i: usize) -> (r: String)
    ensures
        i < parts@.len() ==> r@ == parts@[i as int]@,
        i >= parts@.len() ==> r@ == Seq::<char>::empty(),
{
    if i < parts.len() {
        string_of_all(parts[i].as_slice())
    } else {
        String::new()
    }
}

proof fn lemma_splitn_len(s: Seq<char>, n: nat, c: char)
    requires
        n >= 1,
    ensures
        1 <= splitn_char(s, n, c).len() <= n,
    decreases n,
{
    if n > 1 {
        match crate::text::find(s, seq![c]) {
            Some(i) => if 0 <= i < s.len() {
                lemma_splitn_len(s.skip(i + 1), (n - 1) as nat, c);
            },
            None => {},
        }
    }
}

fn tag_line(line: &[char]) -> (r: Option<TagInfo>)
    ensures
        r matches Some(x) ==> tag_item(line@) == Some(x@),
        r is None ==> tag_item(line@) is None,
{
    if line.len() == 0 {
        return None;
    }
    let parts = splitn_char_exec(line, 3, '\0');
    proof {
        lemma_splitn_len(line@, 3, '\0');
    }
    let message = if parts.len() > 2 && parts[2].len() > 0 {
        Some(string_of_all(parts[2].as_slice()))
    } else {
        None
    };
    Some(
        TagInfo {
            name: string_of_all(parts[0].as_slice()),
            oid: piece_or_empty(&parts, 1),
            message,
        },
    )
}

/// Arguments listing tags, newest version first.
pub fn tags_args() -> (a: Vec<String>)
    ensures
        a@.map_values(|s: String| s@) == seq![
            "tag"@,
            "-l"@,
            "--sort=-version:refname"@,
            "--format=%(refname:short)%00%(*objectname:short)%00%(contents:subject)"@,
        ],
{
    let a = vec![
        "tag".to_owned(),
        "-l".to_owned(),
        "--sort=-version:refname".to_owned(),
        "--format=%(refname:short)%00%(*objectname:short)%00%(contents:subject)".to_owned(),
    ];
    assert(a@.map_values(|s: String| s@) =~= seq![
        "tag"@,
        "-l"@,
        "--sort=-version:refname"@,
        "--format=%(refname:short)%00%(*objectname:short)%00%(contents:subject)"@,
    ]);
    a
}

/// Parses the tag listing into tags.
pub fn tags(output: &str) -> (r: Vec<TagInfo>)
    ensures
        r@.map_values(|x: TagInfo| x@) == spec_tags(output@),
{
    let ov = chars_of(output);
    let ls = lines_exec(ov.as_slice());
    let ghost sl = lines(output@);
    let mut res: Vec<TagInfo> = Vec::new();
    let mut i: usize = 0;
    assert(sl.take(0) =~= Seq::<Seq<char>>::empty());
    while i < ls.len()
        invariant
            i <= ls@.len() == sl.len(),
            forall|k: int| 0 <= k < ls@.len() ==> #[trigger] ls@[k]@ == sl[k],
            res@.map_values(|x: TagInfo| x@) == sl.take(i as int).filter_map(
                |l: Seq<char>| tag_item(l),
            ),
        decreases ls@.len() - i,
    {
        assert(sl.take(i + 1).drop_last() =~= sl.take(i as int));
        assert(ls@[i as int]@ == sl[i as int]);
        let ghost prev = res@;
        if let Some(x) = tag_line(ls[i].as_slice()) {
            res.push(x);
            assert(res@.map_values(|x: TagInfo| x@) =~= prev.map_values(|x: TagInfo| x@).push(x@));
        }
        i = i + 1;
    }
    assert(sl.take(sl.len() as int) =~= sl);
    res
}

/// The index in `stash@{N}`; 0 when it does not parse.
pub open spec fn stash_index(s: Seq<char>) -> nat {
    match strip_prefix(s, "stash@{"@) {
        Some(a) => match strip_suffix(a, "}"@) {
            Some(b) => match parse_unsigned(b, usize::MAX as nat) {
                Some(n) => n,
                None => 0,
            },
            None => 0,
        },
        None => 0,
    }
}

/// A non-empty line `stash@{N} NUL subject NUL date` of `git stash list`.
pub open spec fn stash_item(line: Seq<char>) -> Option<StashEntryV> {
    if line.len() == 0 {
        None
    } else {
        let parts = splitn_char(line, 3, '\0');
        Some(
            StashEntryV {
                index: stash_index(parts[0]) as usize,
                message: if parts.len() > 1 {
                    parts[1]
                } else {
                    Seq::empty()
                },
                date: if parts.len() > 2 {
                    parts[2]
                } else {
                    Seq::empty()
                },
            },
        )
    }
}

pub open spec fn spec_stashes(out: Seq<char>) -> Seq<StashEntryV> {
    lines(out).filter_map(|l: Seq<char>| stash_item(l))
}

fn stash_index_exec(s: &[char]) -> (r: usize)
    ensures
        r as nat == stash_index(s@),
{
    if let Some(a) = strip_lit(s, "stash@{") {
        let close = vec!['}'];
        assert(close@ =~= "}"@) by {
            reveal_strlit("}");
        }
        if let Some(b) = strip_suffix_exec(a.as_slice(), close.as_slice()) {
            if let Some(n) = parse_unsigned_exec(b.as_slice(), usize::MAX as u64) {
                return n as usize;
            }
        }
    }
    0
}

fn stash_line(line: &[char]) -> (r: Option<StashEntry>)
    ensures
        r matches Some(x) ==> stash_item(line@) == Some(x@),
        r is None ==> stash_item(line@) is None,
{
    if line.len() == 0 {
        return None;
    }
    let parts = splitn_char_exec(line, 3, '\0');
    proof {
        lemma_splitn_len(line@, 3, '\0');
    }
    Some(
        StashEntry {
            index: stash_index_exec(parts[0].as_slice()),
            message: piece_or_empty(&parts, 1),
            date: piece_or_empty(&parts, 2),
        },
    )
}

/// A stash is listed under its own number: the entry of a line whose first
/// field is `stash@{n}` has index `n`.
pub proof fn law_stash_index_is_its_number(line: Seq<char>, n: nat)
    requires
        n <= usize::MAX,
        line.len() > 0,
        splitn_char(line, 3, '\0')[0] == "stash@{"@ + dec(n) + "}"@,
    ensures
        stash_item(line) matches Some(e) && e.index == n,
{
    reveal_strlit("stash@{");
    reveal_strlit("}");
    let pre = "stash@{"@;
    let f = pre + dec(n) + "}"@;
    assert(f.take(pre.len() as int) =~= pre);
    assert(starts_with(f, pre));
    let a = f.skip(pre.len() as int);
    assert(a =~= dec(n) + "}"@);
    assert(a.subrange(a.len() - 1, a.len() as int) =~= "}"@);
    assert(ends_with(a, "}"@));
    assert(a.take(a.len() - 1) =~= dec(n));
    lemma_parse_dec(n, usize::MAX as nat);
}

/// Every stash of the listing keeps its number: for each line whose first
/// field is `stash@{n}`, the stashes hold an entry with index `n`.
pub proof fn law_stashes_keep_their_numbers(out: Seq<char>, i: int, n: nat)
    requires
        0 <= i < lines(out).len(),
        n <= usize::MAX,
        lines(out)[i].len() > 0,
        splitn_char(lines(out)[i], 3, '\0')[0] == "stash@{"@ + dec(n) + "}"@,
    ensures
        exists|e: StashEntryV| spec_stashes(out).contains(e) && e.index == n,
{
    law_stash_index_is_its_number(lines(out)[i], n);
    lemma_filter_map_keeps(lines(out), |l: Seq<char>| stash_item(l), i);
    let e = stash_item(lines(out)[i])->0;
    assert(spec_stashes(out).contains(e) && e.index == n);
}

/// Arguments listing the stash.
pub fn stashes_args() -> (a: Vec<String>)
    ensures
        a@.map_values(|s: String| s@) == seq!["stash"@, "list"@, "--format=%gd%x00%gs%x00%ar"@],
{
    let a = vec!["stash".to_owned(), "list".to_owned(), "--format=%gd%x00%gs%x00%ar".to_owned()];
    assert(a@.map_values(|s: String| s@) =~= seq![
        "stash"@,
        "list"@,
        "--format=%gd%x00%gs%x00%ar"@,
    ]);
    a
}

/// Parses the stash listing; a failed listing is an empty stash.
pub fn stashes(output: Option<&str>) -> (r: Vec<StashEntry>)
    ensures
        output is None ==> r@.len() == 0,
        output matches Some(o) ==> r@.map_values(|x: StashEntry| x@) == spec_stashes(o@),
{
    let output = match output {
        Some(o) => o,
        None => {
            return Vec::new();
        },
    };
    let ov = chars_of(output);
    let ls = lines_exec(ov.as_slice());
    let ghost sl = lines(output@);
    let mut res: Vec<StashEntry> = Vec::new();
    let mut i: usize = 0;
    assert(sl.take(0) =~= Seq::<Seq<char>>::empty());
    while i < ls.len()
        invariant
            i <= ls@.len() == sl.len(),
            forall|k: int| 0 <= k < ls@.len() ==> #[trigger] ls@[k]@ == sl[k],
            res@.map_values(|x: StashEntry| x@) == sl.take(i as int).filter_map(
                |l: Seq<char>| stash_item(l),
            ),
        decreases ls@.len() - i,
    {
        assert(sl.take(i + 1).drop_last() =~= sl.take(i as int));
        assert(ls@[i as int]@ == sl[i as int]);
        let ghost prev = res@;
        if let Some(x) = stash_line(ls[i].as_slice()) {
            res.push(x);
            assert(res@.map_values(|x: StashEntry| x@) =~= prev.map_values(|x: StashEntry| x@).push(
                x@,
            ));
        }
        i = i + 1;
    }
    assert(sl.take(sl.len() as int) =~= sl);
    res
}

// ---------------------------------------------------------------------------
// small queries
// ---------------------------------------------------------------------------

/// The current branch name from `git branch --show-current` (empty when
/// HEAD is detached).
pub fn current_branch_name(output: &str) -> (r: String)
    ensures
        r@ == trim(output@),
{
    let v = chars_of(output);
    let t = trim_exec(v.as_slice());
    string_of_all(t.as_slice())
}

/// Markers of an operation in progress inside the Git directory.
pub struct GitDirMarkers {
    pub rebase_merge: bool,
    pub rebase_apply: bool,
    pub cherry_pick_head: bool,
    pub revert_head: bool,
    pub merge_head: bool,
}

pub open spec fn spec_repo_state(m: GitDirMarkers) -> Seq<char> {
    if m.rebase_merge || m.rebase_apply {
        "rebasing"@
    } else if m.cherry_pick_head {
        "cherry-picking"@
    } else if m.revert_head {
        "reverting"@
    } else if m.merge_head {
        "merging"@
    } else {
        "clean"@
    }
}

/// The operation in progress: `clean`, `merging`, `rebasing`,
/// `cherry-picking` or `reverting`.
pub fn repo_state(m: &GitDirMarkers) -> (r: String)
    ensures
        r@ == spec_repo_state(*m),
{
    let s = if m.rebase_merge || m.rebase_apply {
        "rebasing"
    } else if m.cherry_pick_head {
        "cherry-picking"
    } else if m.revert_head {
        "reverting"
    } else if m.merge_head {
        "merging"
    } else {
        "clean"
    };
    s.to_owned()
}

// ---------------------------------------------------------------------------
// log: ref decorations and commit records
// ---------------------------------------------------------------------------

/// A branch is remote when its first segment is the name of a remote.
pub open spec fn is_remote_name(name: Seq<char>, remotes: Seq<Seq<char>>) -> bool {
    exists|k: int| 0 <= k < remotes.len() && starts_with(name, #[trigger] remotes[k] + "/"@)
}

/// One decoration of `%D`: `HEAD`, `HEAD -> <branch>`, `tag: <name>`, a
/// remote-tracking branch (its `<remote>/HEAD` alias is dropped) or a local
/// branch.
pub open spec fn ref_label_item(piece: Seq<char>, remotes: Seq<Seq<char>>) -> Option<RefLabelV> {
    let r = trim(piece);
    if r.len() == 0 {
        None
    } else if r == "HEAD"@ {
        Some(RefLabelV { name: "HEAD"@, kind: "head"@ })
    } else if strip_prefix(r, "HEAD -> "@) is Some {
        Some(RefLabelV { name: strip_prefix(r, "HEAD -> "@)->0, kind: "current-branch"@ })
    } else if strip_prefix(r, "tag: "@) is Some {
        Some(RefLabelV { name: strip_prefix(r, "tag: "@)->0, kind: "tag"@ })
    } else if is_remote_name(r, remotes) {
        if ends_with(r, "/HEAD"@) {
            None
        } else {
            Some(RefLabelV { name: r, kind: "remote-branch"@ })
        }
    } else {
        Some(RefLabelV { name: r, kind: "local-branch"@ })
    }
}

/// The labels of a `%D` decoration list (`", "`-separated).
pub open spec fn spec_ref_labels(raw: Seq<char>, remotes: Seq<Seq<char>>) -> Seq<RefLabelV> {
    if trim(raw).len() == 0 {
        Seq::empty()
    } else {
        split_str(raw, ", "@).filter_map(|p: Seq<char>| ref_label_item(p, remotes))
    }
}

fn is_remote_name_exec(name: &[char], remotes: &[String]) -> (b: bool)
    ensures
        b == is_remote_name(name@, remotes@.map_values(|s: String| s@)),
{
    let ghost rs = remotes@.map_values(|s: String| s@);
    let mut k: usize = 0;
    while k < remotes.len()
        invariant
            k <= remotes@.len() == rs.len(),
            rs == remotes@.map_values(|s: String| s@),
            forall|j: int| 0 <= j < k ==> !starts_with(name@, #[trigger] rs[j] + "/"@),
        decreases remotes@.len() - k,
    {
        let mut p = chars_of(remotes[k].as_str());
        crate::text::push_str(&mut p, "/");
        assert(rs[k as int] == remotes@[k as int]@);
        if crate::text::starts_with_exec(name, p.as_slice()) {
            return true;
        }
        k = k + 1;
    }
    false
}

fn ref_label_piece(piece: &[char], remotes: &[String]) -> (r: Option<RefLabel>)
    ensures
        r matches Some(x) ==> ref_label_item(piece@, remotes@.map_values(|s: String| s@)) == Some(
            x@,
        ),
        r is None ==> ref_label_item(piece@, remotes@.map_values(|s: String| s@)) is None,
{
    let r = trim_exec(piece);
    if r.len() == 0 {
        return None;
    }
    if eq_lit(r.as_slice(), "HEAD") {
        return Some(RefLabel { name: "HEAD".to_owned(), kind: "head".to_owned() });
    }
    if let Some(rest) = strip_lit(r.as_slice(), "HEAD -> ") {
        return Some(
            RefLabel { name: string_of_all(rest.as_slice()), kind: "current-branch".to_owned() },
        );
    }
    if let Some(t) = strip_lit(r.as_slice(), "tag: ") {
        return Some(RefLabel { name: string_of_all(t.as_slice()), kind: "tag".to_owned() });
    }
    if is_remote_name_exec(r.as_slice(), remotes) {
        if ends_lit(r.as_slice(), "/HEAD") {
            return None;
        }
        return Some(
            RefLabel { name: string_of_all(r.as_slice()), kind: "remote-branch".to_owned() },
        );
    }
    Some(RefLabel { name: string_of_all(r.as_slice()), kind: "local-branch".to_owned() })
}

fn ref_labels_chars(raw: &[char], remotes: &[String]) -> (r: Vec<RefLabel>)
    ensures
        r@.map_values(|x: RefLabel| x@) == spec_ref_labels(raw@, remotes@.map_values(|s: String| s@)),
{
    let t = trim_exec(raw);
    if t.len() == 0 {
        return Vec::new();
    }
    let sep = chars_of(", ");
    assert(sep@.len() > 0) by {
        reveal_strlit(", ");
    }
    let pieces = split_str_exec(raw, sep.as_slice());
    let ghost sp = split_str(raw@, ", "@);
    let ghost rs = remotes@.map_values(|s: String| s@);
    let mut res: Vec<RefLabel> = Vec::new();
    let mut i: usize = 0;
    assert(sp.take(0) =~= Seq::<Seq<char>>::empty());
    while i < pieces.len()
        invariant
            i <= pieces@.len() == sp.len(),
            rs == remotes@.map_values(|s: String| s@),
            forall|k: int| 0 <= k < pieces@.len() ==> #[trigger] pieces@[k]@ == sp[k],
            res@.map_values(|x: RefLabel| x@) == sp.take(i as int).filter_map(
                |p: Seq<char>| ref_label_item(p, rs),
            ),
        decreases pieces@.len() - i,
    {
        assert(sp.take(i + 1).drop_last() =~= sp.take(i as int));
        assert(pieces@[i as int]@ == sp[i as int]);
        let ghost prev = res@;
        if let Some(x) = ref_label_piece(pieces[i].as_slice(), remotes) {
            res.push(x);
            assert(res@.map_values(|x: RefLabel| x@) =~= prev.map_values(|x: RefLabel| x@).push(x@));
        }
        i = i + 1;
    }
    assert(sp.take(sp.len() as int) =~= sp);
    res
}

/// Parses a `%D` ref decoration into labels; `remotes` are the configured
/// remote names, which tell remote-tracking branches from local ones.
pub fn parse_ref_labels(raw: &str, remotes: &[String]) -> (r: Vec<RefLabel>)
    ensures
        r@.map_values(|x: RefLabel| x@) == spec_ref_labels(raw@, remotes@.map_values(|s: String| s@)),
{
    let rv = chars_of(raw);
    ref_labels_chars(rv.as_slice(), remotes)
}

/// The fields of one `log` record
/// `oid NUL short NUL author NUL email NUL date NUL parents NUL refs NUL body`.
pub open spec fn commit_record(
    record: Seq<char>,
    remotes: Seq<Seq<char>>,
    unpushed: Seq<Seq<char>>,
) -> Option<CommitInfoV> {
    if record.len() == 0 {
        None
    } else {
        let p = splitn_char(record, 8, '\0');
        if p.len() < 8 {
            None
        } else {
            Some(
                CommitInfoV {
                    oid: p[0],
                    short_oid: p[1],
                    message: trim_end_char(p[7], '\n'),
                    author: p[2],
                    author_email: p[3],
                    date: p[4],
                    parents: split_ws(p[5]),
                    refs: spec_ref_labels(p[6], remotes),
                    column: 0,
                    lines: Seq::empty(),
                    unpushed: unpushed.contains(p[0]),
                },
            )
        }
    }
}

fn contains_string(set: &[String], x: &[char]) -> (b: bool)
    ensures
        b == set@.map_values(|s: String| s@).contains(x@),
{
    let ghost ss = set@.map_values(|s: String| s@);
    let mut k: usize = 0;
    while k < set.len()
        invariant
            k <= set@.len() == ss.len(),
            ss == set@.map_values(|s: String| s@),
            forall|j: int| 0 <= j < k ==> ss[j] != x@,
        decreases set@.len() - k,
    {
        let sv = chars_of(set[k].as_str());
        if crate::text::chars_eq(sv.as_slice(), x) {
            assert(ss[k as int] == x@);
            return true;
        }
        k = k + 1;
    }
    false
}

fn commit_record_chars(record: &[char], remotes: &[String], unpushed: &[String]) -> (r: Option<
    CommitInfo,
>)
    ensures
        r matches Some(c) ==> commit_record(
            record@,
            remotes@.map_values(|s: String| s@),
            unpushed@.map_values(|s: String| s@),
        ) == Some(c@),
        r is None ==> commit_record(
            record@,
            remotes@.map_values(|s: String| s@),
            unpushed@.map_values(|s: String| s@),
        ) is None,
{
    if record.len() == 0 {
        return None;
    }
    let p = splitn_char_exec(record, 8, '\0');
    if p.len() < 8 {
        return None;
    }
    let refs = ref_labels_chars(p[6].as_slice(), remotes);
    let words = split_ws_exec(p[5].as_slice());
    let parents = strings_of(&words);
    let msg = crate::text::trim_end_char_exec(p[7].as_slice(), '\n');
    let c = CommitInfo {
        oid: string_of_all(p[0].as_slice()),
        short_oid: string_of_all(p[1].as_slice()),
        message: string_of_all(msg.as_slice()),
        author: string_of_all(p[2].as_slice()),
        author_email: string_of_all(p[3].as_slice()),
        date: string_of_all(p[4].as_slice()),
        parents,
        refs,
        column: 0,
        lines: Vec::new(),
        unpushed: contains_string(unpushed, p[0].as_slice()),
    };
    assert(c@.parents =~= split_ws(p@[5]@));
    assert(c@.lines =~= Seq::<GraphLineV>::empty());
    Some(c)
}

/// Parses one record of the log format into a commit (without its graph
/// placement); `unpushed` lists the commits no remote-tracking ref reaches.
pub fn parse_commit_record(record: &str, remotes: &[String], unpushed: &[String]) -> (r: Option<
    CommitInfo,
>)
    ensures
        r matches Some(c) ==> commit_record(
            record@,
            remotes@.map_values(|s: String| s@),
            unpushed@.map_values(|s: String| s@),
        ) == Some(c@),
        r is None ==> commit_record(
            record@,
            remotes@.map_values(|s: String| s@),
            unpushed@.map_values(|s: String| s@),
        ) is None,
{
    let rv = chars_of(record);
    commit_record_chars(rv.as_slice(), remotes, unpushed)
}

/// The commits of a log output: its `\x1e`-separated records that parse.
pub open spec fn spec_log_records(
    out: Seq<char>,
    remotes: Seq<Seq<char>>,
    unpushed: Seq<Seq<char>>,
) -> Seq<CommitInfoV> {
    split_char(out, '\u{1e}').filter_map(|r: Seq<char>| commit_record(r, remotes, unpushed))
}

/// Parses a log output into commits, in order, without graph placement.
pub fn parse_log_records(output: &str, remotes: &[String], unpushed: &[String]) -> (r: Vec<
    CommitInfo,
>)
    ensures
        r@.map_values(|c: CommitInfo| c@) == spec_log_records(
            output@,
            remotes@.map_values(|s: String| s@),
            unpushed@.map_values(|s: String| s@),
        ),
{
    let ov = chars_of(output);
    let recs = split_char_exec(ov.as_slice(), '\u{1e}');
    let ghost sp = split_char(output@, '\u{1e}');
    let ghost rs = remotes@.map_values(|s: String| s@);
    let ghost us = unpushed@.map_values(|s: String| s@);
    let mut res: Vec<CommitInfo> = Vec::new();
    let mut i: usize = 0;
    assert(sp.take(0) =~= Seq::<Seq<char>>::empty());
    while i < recs.len()
        invariant
            i <= recs@.len() == sp.len(),
            rs == remotes@.map_values(|s: String| s@),
            us == unpushed@.map_values(|s: String| s@),
            forall|k: int| 0 <= k < recs@.len() ==> #[trigger] recs@[k]@ == sp[k],
            res@.map_values(|c: CommitInfo| c@) == sp.take(i as int).filter_map(
                |r: Seq<char>| commit_record(r, rs, us),
            ),
        decreases recs@.len() - i,
    {
        assert(sp.take(i + 1).drop_last() =~= sp.take(i as int));
        assert(recs@[i as int]@ == sp[i as int]);
        let ghost prev = res@;
        if let Some(c) = commit_record_chars(recs[i].as_slice(), remotes, unpushed) {
            res.push(c);
            assert(res@.map_values(|c: CommitInfo| c@) =~= prev.map_values(|c: CommitInfo| c@).push(
                c@,
            ));
        }
        i = i + 1;
    }
    assert(sp.take(sp.len() as int) =~= sp);
    res
}

/// The commits not yet pushed, from `git rev-list --branches --not --remotes`
/// (none known when it failed).
pub fn unpushed_set(output: Option<&str>) -> (r: Vec<String>)
    ensures
        output is None ==> r@.len() == 0,
        output matches Some(o) ==> r@.map_values(|s: String| s@) == split_ws(o@),
{
    match output {
        Some(o) => {
            let ov = chars_of(o);
            let words = split_ws_exec(ov.as_slice());
            let r = strings_of(&words);
            assert(r@.map_values(|s: String| s@) =~= split_ws(o@));
            r
        },
        None => Vec::new(),
    }
}

// ---------------------------------------------------------------------------
// branches
// ---------------------------------------------------------------------------

/// Ahead/behind counts of `%(upstream:track,nobracket)`: the last
/// `ahead N` / `behind N` part wins; what does not parse counts 0.
pub open spec fn track_fold(parts: Seq<Seq<char>>) -> (u32, u32)
    decreases parts.len(),
{
    if parts.len() == 0 {
        (0, 0)
    } else {
        let (a, b) = track_fold(parts.drop_last());
        let p = trim(parts.last());
        match strip_prefix(p, "ahead "@) {
            Some(n) => (parse_u32_or_zero(n), b),
            None => match strip_prefix(p, "behind "@) {
                Some(n) => (a, parse_u32_or_zero(n)),
                None => (a, b),
            },
        }
    }
}

pub open spec fn parse_u32_or_zero(s: Seq<char>) -> u32 {
    match parse_unsigned(s, u32::MAX as nat) {
        Some(v) => v as u32,
        None => 0,
    }
}

pub open spec fn spec_track(track: Seq<char>) -> (u32, u32) {
    track_fold(split_str(track, ", "@))
}

fn u32_or_zero(s: &[char]) -> (r: u32)
    ensures
        r == parse_u32_or_zero(s@),
{
    match parse_unsigned_exec(s, u32::MAX as u64) {
        Some(v) => v as u32,
        None => 0,
    }
}

/// Parses `%(upstream:track,nobracket)` (`ahead 2, behind 1`) into
/// `(ahead, behind)`.
pub fn parse_track(track: &str) -> (r: (u32, u32))
    ensures
        r == spec_track(track@),
{
    let tv = chars_of(track);
    let sep = chars_of(", ");
    assert(sep@.len() > 0) by {
        reveal_strlit(", ");
    }
    let parts = split_str_exec(tv.as_slice(), sep.as_slice());
    let ghost sp = split_str(track@, ", "@);
    let mut ahead: u32 = 0;
    let mut behind: u32 = 0;
    let mut i: usize = 0;
    assert(sp.take(0) =~= Seq::<Seq<char>>::empty());
    while i < parts.len()
        invariant
            i <= parts@.len() == sp.len(),
            forall|k: int| 0 <= k < parts@.len() ==> #[trigger] parts@[k]@ == sp[k],
            (ahead, behind) == track_fold(sp.take(i as int)),
        decreases parts@.len() - i,
    {
        assert(sp.take(i + 1).drop_last() =~= sp.take(i as int));
        assert(parts@[i as int]@ == sp[i as int]);
        let p = trim_exec(parts[i].as_slice());
        if let Some(n) = strip_lit(p.as_slice(), "ahead ") {
            ahead = u32_or_zero(n.as_slice());
        } else if let Some(n) = strip_lit(p.as_slice(), "behind ") {
            behind = u32_or_zero(n.as_slice());
        }
        i = i + 1;
    }
    assert(sp.take(sp.len() as int) =~= sp);
    (ahead, behind)
}

/// The `for-each-ref` format of `git branch -a` that `branches` parses.
pub open spec fn branch_format() -> Seq<char> {
    "--format=%(refname)%00%(refname:short)%00%(symref)%00%(upstream:short)%00%(upstream:track,nobracket)%00%(HEAD)%00%(authorname)"@
}

/// Arguments listing local and remote branches (run with `LC_ALL=C`, so that
/// the ahead/behind text is English).
pub fn branches_args() -> (a: Vec<String>)
    ensures
        a@.map_values(|s: String| s@) == seq!["branch"@, "-a"@, branch_format()],
{
    let a = vec![
        "branch".to_owned(),
        "-a".to_owned(),
        "--format=%(refname)%00%(refname:short)%00%(symref)%00%(upstream:short)%00%(upstream:track,nobracket)%00%(HEAD)%00%(authorname)".to_owned(),
    ];
    assert(a@.map_values(|s: String| s@) =~= seq!["branch"@, "-a"@, branch_format()]);
    a
}

/// One branch line `refname NUL short NUL symref NUL upstream NUL track NUL
/// head NUL author`; symbolic refs (aliases) are skipped.
pub open spec fn branch_item(line: Seq<char>) -> Option<BranchInfoV> {
    if line.len() == 0 {
        None
    } else {
        let p = splitn_char(line, 7, '\0');
        if p.len() < 7 || p[2].len() > 0 {
            None
        } else {
            let full = p[0];
            let name = match strip_prefix(full, "refs/heads/"@) {
                Some(n) => n,
                None => match strip_prefix(full, "refs/remotes/"@) {
                    Some(n) => n,
                    None => p[1],
                },
            };
            if contains(name, "HEAD"@) && contains(name, "->"@) {
                None
            } else {
                Some(
                    BranchInfoV {
                        name,
                        is_remote: starts_with(full, "refs/remotes/"@),
                        upstream: non_empty_opt(p[3]),
                        ahead: spec_track(p[4]).0,
                        behind: spec_track(p[4]).1,
                        is_current: trim(p[5]) == "*"@,
                        author: non_empty_opt(p[6]),
                    },
                )
            }
        }
    }
}

pub open spec fn spec_branches(out: Seq<char>) -> Seq<BranchInfoV> {
    lines(out).filter_map(|l: Seq<char>| branch_item(l))
}

fn opt_nonempty(v: &Vec<char>) -> (r: Option<String>)
    ensures
        r matches Some(s) ==> non_empty_opt(v@) == Some(s@),
        r is None ==> non_empty_opt(v@) is None,
{
    if v.len() > 0 {
        Some(string_of_all(v.as_slice()))
    } else {
        None
    }
}

fn branch_line(line: &[char]) -> (r: Option<BranchInfo>)
    ensures
        r matches Some(x) ==> branch_item(line@) == Some(x@),
        r is None ==> branch_item(line@) is None,
{
    if line.len() == 0 {
        return None;
    }
    let p = splitn_char_exec(line, 7, '\0');
    if p.len() < 7 || p[2].len() > 0 {
        return None;
    }
    let full = &p[0];
    let name = match strip_lit(full.as_slice(), "refs/heads/") {
        Some(n) => n,
        None => match strip_lit(full.as_slice(), "refs/remotes/") {
            Some(n) => n,
            None => crate::text::slice_vec(p[1].as_slice(), 0, p[1].len()),
        },
    };
    assert(p@[1]@.subrange(0, p@[1]@.len() as int) =~= p@[1]@);
    if contains_lit(name.as_slice(), "HEAD") && contains_lit(name.as_slice(), "->") {
        return None;
    }
    let track = string_of_all(p[4].as_slice());
    let (ahead, behind) = parse_track(track.as_str());
    let cur = trim_exec(p[5].as_slice());
    Some(
        BranchInfo {
            name: string_of_all(name.as_slice()),
            is_remote: crate::text::starts_lit(full.as_slice(), "refs/remotes/"),
            upstream: opt_nonempty(&p[3]),
            ahead,
            behind,
            is_current: eq_lit(cur.as_slice(), "*"),
            author: opt_nonempty(&p[6]),
        },
    )
}

/// Parses the branch listing into local and remote branches.
pub fn branches(output: &str) -> (r: Vec<BranchInfo>)
    ensures
        r@.map_values(|x: BranchInfo| x@) == spec_branches(output@),
{
    let ov = chars_of(output);
    let ls = lines_exec(ov.as_slice());
    let ghost sl = lines(output@);
    let mut res: Vec<BranchInfo> = Vec::new();
    let mut i: usize = 0;
    assert(sl.take(0) =~= Seq::<Seq<char>>::empty());
    while i < ls.len()
        invariant
            i <= ls@.len() == sl.len(),
            forall|k: int| 0 <= k < ls@.len() ==> #[trigger] ls@[k]@ == sl[k],
            res@.map_values(|x: BranchInfo| x@) == sl.take(i as int).filter_map(
                |l: Seq<char>| branch_item(l),
            ),
        decreases ls@.len() - i,
    {
        assert(sl.take(i + 1).drop_last() =~= sl.take(i as int));
        assert(ls@[i as int]@ == sl[i as int]);
        let ghost prev = res@;
        if let Some(x) = branch_line(ls[i].as_slice()) {
            res.push(x);
            assert(res@.map_values(|x: BranchInfo| x@) =~= prev.map_values(|x: BranchInfo| x@).push(
                x@,
            ));
        }
        i = i + 1;
    }
    assert(sl.take(sl.len() as int) =~= sl);
    res
}

// ---------------------------------------------------------------------------
// Commands of the queries above
// ---------------------------------------------------------------------------

/// `status --porcelain=v2 --untracked-files=all`: every untracked file on a
/// line of its own (not a collapsed directory).
pub fn status_args() -> (a: Vec<String>)
    ensures
        strs_of(a@) == seq!["status"@, "--porcelain=v2"@, "--untracked-files=all"@],
{
    let a = vec![arg("status"), arg("--porcelain=v2"), arg("--untracked-files=all")];
    assert(strs_of(a@) =~= seq!["status"@, "--porcelain=v2"@, "--untracked-files=all"@]);
    a
}

/// `remote`: the remote names.
pub fn remotes_args() -> (a: Vec<String>)
    ensures
        strs_of(a@) == seq!["remote"@],
{
    let a = vec![arg("remote")];
    assert(strs_of(a@) =~= seq!["remote"@]);
    a
}

/// `remote -v`: the remotes with their URLs.
pub fn remote_urls_args() -> (a: Vec<String>)
    ensures
        strs_of(a@) == seq!["remote"@, "-v"@],
{
    let a = vec![arg("remote"), arg("-v")];
    assert(strs_of(a@) =~= seq!["remote"@, "-v"@]);
    a
}

/// `branch --show-current`.
pub fn current_branch_args() -> (a: Vec<String>)
    ensures
        strs_of(a@) == seq!["branch"@, "--show-current"@],
{
    let a = vec![arg("branch"), arg("--show-current")];
    assert(strs_of(a@) =~= seq!["branch"@, "--show-current"@]);
    a
}

/// `rev-parse --git-dir`: where the operation markers of `repo_state` lie.
pub fn git_dir_args() -> (a: Vec<String>)
    ensures
        strs_of(a@) == seq!["rev-parse"@, "--git-dir"@],
{
    let a = vec![arg("rev-parse"), arg("--git-dir")];
    assert(strs_of(a@) =~= seq!["rev-parse"@, "--git-dir"@]);
    a
}

} // verus!
