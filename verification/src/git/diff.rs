//! Unified-diff parsing into files, hunks and numbered lines.
use vstd::prelude::*;
use super::types::{
    DiffHunk, DiffHunkV, DiffLine, DiffLineV, FileDiff, FileDiffV,
};
use crate::text::{
    before_char, before_char_exec, chars_of, lines, lines_exec, parse_unsigned,
    parse_unsigned_exec, push_all, split_char, split_char_exec, split_str, split_str_exec,
    starts_lit, starts_with, strip_lit, strip_prefix, string_of_all, trim_start_char,
    trim_start_char_exec, slice_vec,
};

verus! {

/// The state of the single-file diff parser after a prefix of the lines.
pub struct DiffState {
    pub hunks: Seq<DiffHunkV>,
    pub lines: Seq<DiffLineV>,
    pub header: Seq<char>,
    pub raw: Seq<char>,
    pub patch_header: Seq<char>,
    pub seen_hunk: bool,
    pub insertions: int,
    pub deletions: int,
    pub old_line: int,
    pub new_line: int,
    pub path: Seq<char>,
    pub binary: bool,
    /// A counter went past `u32::MAX` (the parser panics there).
    pub overflow: bool,
}

/// A hunk start `-a[,b]` / `+c[,d]`: the line number, 1 when it does not parse.
pub open spec fn start_of(piece: Seq<char>, sign: char) -> int {
    match parse_unsigned(before_char(trim_start_char(piece, sign), ','), u32::MAX as nat) {
        Some(v) => v as int,
        None => 1,
    }
}

/// The file path lines: `+++ b/<path>`, `rename to <path>`, `copy to <path>`
/// (up to a TAB), and `Binary files ...`.
pub open spec fn diff_path_step(st: DiffState, line: Seq<char>) -> DiffState {
    if strip_prefix(line, "+++ b/"@) is Some {
        DiffState { path: before_char(strip_prefix(line, "+++ b/"@)->0, '\t'), ..st }
    } else if strip_prefix(line, "rename to "@) is Some {
        DiffState { path: before_char(strip_prefix(line, "rename to "@)->0, '\t'), ..st }
    } else if strip_prefix(line, "copy to "@) is Some {
        DiffState { path: before_char(strip_prefix(line, "copy to "@)->0, '\t'), ..st }
    } else if starts_with(line, "Binary files "@) {
        DiffState { binary: true, ..st }
    } else {
        st
    }
}

/// Hunk headers open hunks; before the first one lines are patch header;
/// inside hunks `+`/`-`/context lines are numbered and kept verbatim in the
/// hunk text, `\` markers only in the text.
pub open spec fn diff_body_step(st: DiffState, line: Seq<char>) -> DiffState {
    let nl = seq!['\n'];
    if starts_with(line, "@@ "@) {
        let st2 = if st.header.len() > 0 {
            DiffState {
                hunks: st.hunks.push(DiffHunkV { header: st.header, lines: st.lines, raw: st.raw }),
                lines: Seq::empty(),
                raw: Seq::empty(),
                ..st
            }
        } else {
            st
        };
        let st3 = DiffState { seen_hunk: true, header: line, raw: st2.raw + line + nl, ..st2 };
        let parts = split_char(line.skip("@@ "@.len() as int), ' ');
        if parts.len() >= 2 {
            DiffState { old_line: start_of(parts[0], '-'), new_line: start_of(parts[1], '+'), ..st3 }
        } else {
            st3
        }
    } else if !st.seen_hunk {
        DiffState { patch_header: st.patch_header + line + nl, ..st }
    } else if starts_with(line, "+"@) && !starts_with(line, "+++"@) {
        DiffState {
            insertions: st.insertions + 1,
            lines: st.lines.push(
                DiffLineV {
                    kind: "added"@,
                    old_lineno: None,
                    new_lineno: Some(st.new_line as u32),
                    content: line.skip(1),
                },
            ),
            new_line: st.new_line + 1,
            raw: st.raw + line + nl,
            overflow: st.overflow || st.insertions + 1 > u32::MAX || st.new_line + 1 > u32::MAX,
            ..st
        }
    } else if starts_with(line, "-"@) && !starts_with(line, "---"@) {
        DiffState {
            deletions: st.deletions + 1,
            lines: st.lines.push(
                DiffLineV {
                    kind: "removed"@,
                    old_lineno: Some(st.old_line as u32),
                    new_lineno: None,
                    content: line.skip(1),
                },
            ),
            old_line: st.old_line + 1,
            raw: st.raw + line + nl,
            overflow: st.overflow || st.deletions + 1 > u32::MAX || st.old_line + 1 > u32::MAX,
            ..st
        }
    } else if starts_with(line, " "@) {
        DiffState {
            lines: st.lines.push(
                DiffLineV {
                    kind: "context"@,
                    old_lineno: Some(st.old_line as u32),
                    new_lineno: Some(st.new_line as u32),
                    content: line.skip(1),
                },
            ),
            old_line: st.old_line + 1,
            new_line: st.new_line + 1,
            raw: st.raw + line + nl,
            overflow: st.overflow || st.old_line + 1 > u32::MAX || st.new_line + 1 > u32::MAX,
            ..st
        }
    } else if starts_with(line, "\\"@) {
        DiffState { raw: st.raw + line + nl, ..st }
    } else {
        st
    }
}

pub open spec fn diff_init(fallback: Seq<char>) -> DiffState {
    DiffState {
        hunks: Seq::empty(),
        lines: Seq::empty(),
        header: Seq::empty(),
        raw: Seq::empty(),
        patch_header: Seq::empty(),
        seen_hunk: false,
        insertions: 0,
        deletions: 0,
        old_line: 0,
        new_line: 0,
        path: fallback,
        binary: false,
        overflow: false,
    }
}

pub open spec fn diff_fold(ls: Seq<Seq<char>>, fallback: Seq<char>) -> DiffState
    decreases ls.len(),
{
    if ls.len() == 0 {
        diff_init(fallback)
    } else {
        let st = diff_fold(ls.drop_last(), fallback);
        diff_body_step(diff_path_step(st, ls.last()), ls.last())
    }
}

/// The diff of one file: the hunks (the last one closed at the end), the
/// counts, the patch header, the path (or `fallback`) and the binary flag.
pub open spec fn spec_diff_single(text: Seq<char>, fallback: Seq<char>) -> FileDiffV {
    let st = diff_fold(lines(text), fallback);
    FileDiffV {
        path: st.path,
        hunks: if st.header.len() > 0 {
            st.hunks.push(DiffHunkV { header: st.header, lines: st.lines, raw: st.raw })
        } else {
            st.hunks
        },
        insertions: st.insertions as u32,
        deletions: st.deletions as u32,
        header: st.patch_header,
        binary: st.binary,
        old_image: None,
        new_image: None,
        byte_size: None,
    }
}

pub open spec fn hunks_v(v: Seq<DiffHunk>) -> Seq<DiffHunkV> {
    v.map_values(|h: DiffHunk| h@)
}

pub open spec fn dlines_v(v: Seq<DiffLine>) -> Seq<DiffLineV> {
    v.map_values(|l: DiffLine| l@)
}

/// Once a count went past `u32::MAX` it stays so.
proof fn lemma_overflow_sticky(ls: Seq<Seq<char>>, k: int, fb: Seq<char>)
    requires
        0 <= k <= ls.len(),
        diff_fold(ls.take(k), fb).overflow,
    ensures
        diff_fold(ls, fb).overflow,
    decreases ls.len() - k,
{
    if k < ls.len() {
        assert(ls.take(k + 1).drop_last() =~= ls.take(k));
        lemma_overflow_sticky(ls, k + 1, fb);
    } else {
        assert(ls.take(k) =~= ls);
    }
}

fn start_of_exec(piece: &[char], sign: char) -> (r: u32)
    ensures
        r as int == start_of(piece@, sign),
{
    let t = trim_start_char_exec(piece, sign);
    let b = before_char_exec(t.as_slice(), ',');
    match parse_unsigned_exec(b.as_slice(), u32::MAX as u64) {
        Some(v) => v as u32,
        None => 1,
    }
}

fn push_line_nl(out: &mut Vec<char>, line: &[char])
    ensures
        final(out)@ == old(out)@ + line@ + seq!['\n'],
{
    push_all(out, line);
    out.push('\n');
    assert(final(out)@ =~= old(out)@ + line@ + seq!['\n']);
}

/// Parses the diff of one file; `None` exactly when a line count goes past
/// `u32::MAX`.
pub fn parse_diff_single_checked(diff_text: &str, fallback_path: &str) -> (r: Option<FileDiff>)
    ensures
        r is None <==> diff_fold(lines(diff_text@), fallback_path@).overflow,
        r matches Some(d) ==> d@ == spec_diff_single(diff_text@, fallback_path@),
{
    let tv = chars_of(diff_text);
    let ls = lines_exec(tv.as_slice());
    let ghost sl = lines(diff_text@);
    let ghost fb = fallback_path@;
    let mut hunks: Vec<DiffHunk> = Vec::new();
    let mut cur_lines: Vec<DiffLine> = Vec::new();
    let mut cur_header: Vec<char> = Vec::new();
    let mut cur_raw: Vec<char> = Vec::new();
    let mut patch_header: Vec<char> = Vec::new();
    let mut seen_hunk = false;
    let mut insertions: u32 = 0;
    let mut deletions: u32 = 0;
    let mut old_line: u32 = 0;
    let mut new_line: u32 = 0;
    let mut path = chars_of(fallback_path);
    let mut binary = false;
    let mut i: usize = 0;
    assert(sl.take(0) =~= Seq::<Seq<char>>::empty());
    while i < ls.len()
        invariant
            i <= ls@.len() == sl.len(),
            sl == lines(diff_text@),
            fb == fallback_path@,
            forall|k: int| 0 <= k < ls@.len() ==> #[trigger] ls@[k]@ == sl[k],
            ({
                let st = diff_fold(sl.take(i as int), fb);
                &&& hunks_v(hunks@) == st.hunks
                &&& dlines_v(cur_lines@) == st.lines
                &&& cur_header@ == st.header
                &&& cur_raw@ == st.raw
                &&& patch_header@ == st.patch_header
                &&& seen_hunk == st.seen_hunk
                &&& insertions as int == st.insertions
                &&& deletions as int == st.deletions
                &&& old_line as int == st.old_line
                &&& new_line as int == st.new_line
                &&& path@ == st.path
                &&& binary == st.binary
                &&& !st.overflow
            }),
        decreases ls@.len() - i,
    {
        let ghost st0 = diff_fold(sl.take(i as int), fb);
        assert(sl.take(i + 1).drop_last() =~= sl.take(i as int));
        assert(ls@[i as int]@ == sl[i as int]);
        let line = &ls[i];
        // path lines
        if let Some(rest) = strip_lit(line.as_slice(), "+++ b/") {
            path = before_char_exec(rest.as_slice(), '\t');
        } else if let Some(rest) = strip_lit(line.as_slice(), "rename to ") {
            path = before_char_exec(rest.as_slice(), '\t');
        } else if let Some(rest) = strip_lit(line.as_slice(), "copy to ") {
            path = before_char_exec(rest.as_slice(), '\t');
        } else if starts_lit(line.as_slice(), "Binary files ") {
            binary = true;
        }
        let ghost st1 = diff_path_step(st0, sl[i as int]);
        assert(path@ == st1.path && binary == st1.binary);
        assert(sl.take(i + 1).last() == sl[i as int]);
        let ghost st2 = diff_fold(sl.take(i + 1), fb);
        assert(st2 == diff_body_step(st1, sl[i as int]));
        proof {
            reveal_strlit("+");
            reveal_strlit("-");
            reveal_strlit(" ");
        }
        if starts_lit(line.as_slice(), "@@ ") {
            if cur_header.len() > 0 {
                let ghost prev = hunks@;
                let h = DiffHunk {
                    header: string_of_all(cur_header.as_slice()),
                    lines: cur_lines,
                    raw: string_of_all(cur_raw.as_slice()),
                };
                hunks.push(h);
                assert(hunks_v(hunks@) =~= hunks_v(prev).push(h@));
                cur_lines = Vec::new();
                cur_raw = Vec::new();
                assert(dlines_v(cur_lines@) =~= Seq::<DiffLineV>::empty());
            }
            seen_hunk = true;
            cur_header = slice_vec(line.as_slice(), 0, line.len());
            assert(cur_header@ =~= line@);
            push_line_nl(&mut cur_raw, line.as_slice());
            let pre = chars_of("@@ ");
            if line.len() >= pre.len() {
                let nums = slice_vec(line.as_slice(), pre.len(), line.len());
                assert(nums@ =~= line@.skip(pre@.len() as int));
                let parts = split_char_exec(nums.as_slice(), ' ');
                if parts.len() >= 2 {
                    old_line = start_of_exec(parts[0].as_slice(), '-');
                    new_line = start_of_exec(parts[1].as_slice(), '+');
                }
            }
        } else if !seen_hunk {
            push_line_nl(&mut patch_header, line.as_slice());
        } else if starts_lit(line.as_slice(), "+") && !starts_lit(line.as_slice(), "+++") {
            if insertions == u32::MAX || new_line == u32::MAX {
                proof {
                    assert(st2.overflow);
                    lemma_overflow_sticky(sl, i + 1, fb);
                }
                return None;
            }
            insertions = insertions + 1;
            let content = slice_vec(line.as_slice(), 1, line.len());
            assert(content@ =~= line@.skip(1));
            let ghost prev = cur_lines@;
            let dl = DiffLine {
                kind: "added".to_owned(),
                old_lineno: None,
                new_lineno: Some(new_line),
                content: string_of_all(content.as_slice()),
            };
            cur_lines.push(dl);
            assert(dlines_v(cur_lines@) =~= dlines_v(prev).push(dl@));
            new_line = new_line + 1;
            push_line_nl(&mut cur_raw, line.as_slice());
        } else if starts_lit(line.as_slice(), "-") && !starts_lit(line.as_slice(), "---") {
            if deletions == u32::MAX || old_line == u32::MAX {
                proof {
                    assert(st2.overflow);
                    lemma_overflow_sticky(sl, i + 1, fb);
                }
                return None;
            }
            deletions = deletions + 1;
            let content = slice_vec(line.as_slice(), 1, line.len());
            assert(content@ =~= line@.skip(1));
            let ghost prev = cur_lines@;
            let dl = DiffLine {
                kind: "removed".to_owned(),
                old_lineno: Some(old_line),
                new_lineno: None,
                content: string_of_all(content.as_slice()),
            };
            cur_lines.push(dl);
            assert(dlines_v(cur_lines@) =~= dlines_v(prev).push(dl@));
            old_line = old_line + 1;
            push_line_nl(&mut cur_raw, line.as_slice());
        } else if starts_lit(line.as_slice(), " ") {
            if old_line == u32::MAX || new_line == u32::MAX {
                proof {
                    assert(st2.overflow);
                    lemma_overflow_sticky(sl, i + 1, fb);
                }
                return None;
            }
            let content = slice_vec(line.as_slice(), 1, line.len());
            assert(content@ =~= line@.skip(1));
            let ghost prev = cur_lines@;
            let dl = DiffLine {
                kind: "context".to_owned(),
                old_lineno: Some(old_line),
                new_lineno: Some(new_line),
                content: string_of_all(content.as_slice()),
            };
            cur_lines.push(dl);
            assert(dlines_v(cur_lines@) =~= dlines_v(prev).push(dl@));
            old_line = old_line + 1;
            new_line = new_line + 1;
            push_line_nl(&mut cur_raw, line.as_slice());
        } else if starts_lit(line.as_slice(), "\\") {
            push_line_nl(&mut cur_raw, line.as_slice());
        }
        i = i + 1;
    }
    assert(sl.take(sl.len() as int) =~= sl);
    if cur_header.len() > 0 {
        let ghost prev = hunks@;
        let h = DiffHunk {
            header: string_of_all(cur_header.as_slice()),
            lines: cur_lines,
            raw: string_of_all(cur_raw.as_slice()),
        };
        hunks.push(h);
        assert(hunks_v(hunks@) =~= hunks_v(prev).push(h@));
    }
    let d = FileDiff {
        path: string_of_all(path.as_slice()),
        hunks,
        insertions,
        deletions,
        header: string_of_all(patch_header.as_slice()),
        binary,
        old_image: None,
        new_image: None,
        byte_size: None,
    };
    Some(d)
}

/// Parses the diff of one file (`fallback_path` when no path line names it).
pub fn parse_diff_single(diff_text: &str, fallback_path: &str) -> (d: FileDiff)
    requires
        !diff_fold(lines(diff_text@), fallback_path@).overflow,
    ensures
        d@ == spec_diff_single(diff_text@, fallback_path@),
{
    match parse_diff_single_checked(diff_text, fallback_path) {
        Some(d) => d,
        None => FileDiff {
            path: String::new(),
            hunks: Vec::new(),
            insertions: 0,
            deletions: 0,
            header: String::new(),
            binary: false,
            old_image: None,
            new_image: None,
            byte_size: None,
        },
    }
}


/// The state of splitting a multi-file diff into per-file chunks.
pub struct MultiState {
    /// Finished chunks with the path taken from their `diff --git` line.
    pub done: Seq<(Seq<char>, Seq<char>)>,
    pub cur: Seq<char>,
    pub path: Seq<char>,
}

/// A `diff --git` line closes the current chunk and starts one whose path is
/// what follows the last ` b/`; every line goes into the current chunk.
pub open spec fn multi_step(st: MultiState, line: Seq<char>) -> MultiState {
    if starts_with(line, "diff --git"@) {
        MultiState {
            done: if st.cur.len() > 0 {
                st.done.push((st.cur, st.path))
            } else {
                st.done
            },
            cur: line + seq!['\n'],
            path: split_str(line, " b/"@).last(),
        }
    } else {
        MultiState { cur: st.cur + line + seq!['\n'], ..st }
    }
}

pub open spec fn multi_fold(ls: Seq<Seq<char>>) -> MultiState
    decreases ls.len(),
{
    if ls.len() == 0 {
        MultiState { done: Seq::empty(), cur: Seq::empty(), path: Seq::empty() }
    } else {
        multi_step(multi_fold(ls.drop_last()), ls.last())
    }
}

/// The per-file chunks of a diff, each with its path.
pub open spec fn diff_chunks(text: Seq<char>) -> Seq<(Seq<char>, Seq<char>)> {
    let st = multi_fold(lines(text));
    if st.cur.len() > 0 {
        st.done.push((st.cur, st.path))
    } else {
        st.done
    }
}

/// A chunk whose line counts go past `u32::MAX`.
pub open spec fn chunk_overflows(c: (Seq<char>, Seq<char>)) -> bool {
    diff_fold(lines(c.0), c.1).overflow
}

/// Each chunk parsed as the diff of one file.
pub open spec fn spec_diff_multi(text: Seq<char>) -> Seq<FileDiffV> {
    diff_chunks(text).map_values(|c: (Seq<char>, Seq<char>)| spec_diff_single(c.0, c.1))
}

pub open spec fn multi_overflows(text: Seq<char>) -> bool {
    exists|k: int| 0 <= k < diff_chunks(text).len() && #[trigger] chunk_overflows(diff_chunks(text)[k])
}

/// Finished chunks are never changed by later lines.
proof fn lemma_multi_prefix(ls: Seq<Seq<char>>, i: int, j: int)
    requires
        0 <= i <= j <= ls.len(),
    ensures
        multi_fold(ls.take(i)).done.len() <= multi_fold(ls.take(j)).done.len(),
        forall|k: int|
            0 <= k < multi_fold(ls.take(i)).done.len() ==> #[trigger] multi_fold(ls.take(j)).done[k]
                == multi_fold(ls.take(i)).done[k],
    decreases j - i,
{
    if i < j {
        lemma_multi_prefix(ls, i, j - 1);
        assert(ls.take(j).drop_last() =~= ls.take(j - 1));
    }
}

/// Parses a multi-file diff, one entry per `diff --git` chunk; `None`
/// exactly when the line counts of some chunk go past `u32::MAX`.
pub fn parse_diff_multi_checked(diff_text: &str) -> (r: Option<Vec<FileDiff>>)
    ensures
        r is None <==> multi_overflows(diff_text@),
        r matches Some(v) ==> (v@.len() == spec_diff_multi(diff_text@).len() && forall|k: int|
            0 <= k < v@.len() ==> #[trigger] v@[k]@ == spec_diff_multi(diff_text@)[k]),
{
    let tv = chars_of(diff_text);
    let ls = lines_exec(tv.as_slice());
    let ghost sl = lines(diff_text@);
    let sep = chars_of(" b/");
    proof {
        reveal_strlit(" b/");
    }
    let mut out: Vec<FileDiff> = Vec::new();
    let mut cur: Vec<char> = Vec::new();
    let mut path: Vec<char> = Vec::new();
    let mut i: usize = 0;
    assert(sl.take(0) =~= Seq::<Seq<char>>::empty());
    while i < ls.len()
        invariant
            i <= ls@.len() == sl.len(),
            sl == lines(diff_text@),
            sep@ == " b/"@,
            sep@.len() == 3,
            forall|k: int| 0 <= k < ls@.len() ==> #[trigger] ls@[k]@ == sl[k],
            ({
                let st = multi_fold(sl.take(i as int));
                &&& cur@ == st.cur
                &&& path@ == st.path
                &&& out@.len() == st.done.len()
                &&& forall|k: int|
                    0 <= k < out@.len() ==> #[trigger] out@[k]@ == spec_diff_single(
                        st.done[k].0,
                        st.done[k].1,
                    )
                &&& forall|k: int| 0 <= k < out@.len() ==> !#[trigger] chunk_overflows(st.done[k])
            }),
        decreases ls@.len() - i,
    {
        let ghost st0 = multi_fold(sl.take(i as int));
        assert(sl.take(i + 1).drop_last() =~= sl.take(i as int));
        assert(sl.take(i + 1).last() == sl[i as int]);
        assert(ls@[i as int]@ == sl[i as int]);
        let line = &ls[i];
        if starts_lit(line.as_slice(), "diff --git") {
            if cur.len() > 0 {
                let chunk = string_of_all(cur.as_slice());
                let cpath = string_of_all(path.as_slice());
                match parse_diff_single_checked(chunk.as_str(), cpath.as_str()) {
                    Some(d) => {
                        let ghost prev = out@;
                        out.push(d);
                        assert(forall|k: int| 0 <= k < prev.len() ==> out@[k] == prev[k]);
                    },
                    None => {
                        proof {
                            let ghost st1 = multi_fold(sl.take(i + 1));
                            assert(st1.done[st0.done.len() as int] == (st0.cur, st0.path));
                            lemma_multi_prefix(sl, i + 1, sl.len() as int);
                            assert(sl.take(sl.len() as int) =~= sl);
                            let ghost fin = multi_fold(sl);
                            let ghost k = st0.done.len() as int;
                            assert(fin.done[k] == st1.done[k]);
                            assert(diff_chunks(diff_text@)[k] == fin.done[k]);
                            assert(chunk_overflows(diff_chunks(diff_text@)[k]));
                        }
                        return None;
                    },
                }
            }
            let parts = split_str_exec(line.as_slice(), sep.as_slice());
            assert(parts@.len() >= 1);
            let last = parts.len() - 1;
            path = slice_vec(parts[last].as_slice(), 0, parts[last].len());
            assert(path@ =~= split_str(line@, " b/"@).last());
            cur = Vec::new();
            push_line_nl(&mut cur, line.as_slice());
            assert(cur@ =~= line@ + seq!['\n']);
        } else {
            push_line_nl(&mut cur, line.as_slice());
        }
        i = i + 1;
    }
    assert(sl.take(sl.len() as int) =~= sl);
    if cur.len() > 0 {
        let chunk = string_of_all(cur.as_slice());
        let cpath = string_of_all(path.as_slice());
        match parse_diff_single_checked(chunk.as_str(), cpath.as_str()) {
            Some(d) => {
                let ghost prev = out@;
                out.push(d);
                assert(forall|k: int| 0 <= k < prev.len() ==> out@[k] == prev[k]);
            },
            None => {
                assert(chunk_overflows(diff_chunks(diff_text@)[out@.len() as int]));
                return None;
            },
        }
    }
    assert(!multi_overflows(diff_text@));
    Some(out)
}

/// Parses a multi-file diff, one entry per `diff --git` chunk.
pub fn parse_diff_multi(diff_text: &str) -> (v: Vec<FileDiff>)
    requires
        !multi_overflows(diff_text@),
    ensures
        v@.len() == spec_diff_multi(diff_text@).len(),
        forall|k: int| 0 <= k < v@.len() ==> #[trigger] v@[k]@ == spec_diff_multi(diff_text@)[k],
{
    match parse_diff_multi_checked(diff_text) {
        Some(v) => v,
        None => Vec::new(),
    }
}

// ---------------------------------------------------------------------------
// Laws
// ---------------------------------------------------------------------------

/// The lines of a kind among hunk lines.
pub open spec fn kind_count(ls: Seq<DiffLineV>, kind: Seq<char>) -> int
    decreases ls.len(),
{
    if ls.len() == 0 {
        0
    } else {
        kind_count(ls.drop_last(), kind) + if ls.last().kind == kind {
            1int
        } else {
            0int
        }
    }
}

/// The lines of a kind in all hunks.
pub open spec fn hunks_kind_count(hs: Seq<DiffHunkV>, kind: Seq<char>) -> int
    decreases hs.len(),
{
    if hs.len() == 0 {
        0
    } else {
        hunks_kind_count(hs.drop_last(), kind) + kind_count(hs.last().lines, kind)
    }
}

proof fn lemma_diff_counts(ls: Seq<Seq<char>>, fb: Seq<char>)
    ensures
        diff_fold(ls, fb).insertions == hunks_kind_count(diff_fold(ls, fb).hunks, "added"@)
            + kind_count(diff_fold(ls, fb).lines, "added"@),
        diff_fold(ls, fb).deletions == hunks_kind_count(diff_fold(ls, fb).hunks, "removed"@)
            + kind_count(diff_fold(ls, fb).lines, "removed"@),
        diff_fold(ls, fb).header.len() == 0 ==> diff_fold(ls, fb).lines.len() == 0,
        diff_fold(ls, fb).seen_hunk ==> diff_fold(ls, fb).header.len() > 0,
        !diff_fold(ls, fb).overflow ==> diff_fold(ls, fb).insertions <= u32::MAX
            && diff_fold(ls, fb).deletions <= u32::MAX,
        diff_fold(ls, fb).insertions >= 0 && diff_fold(ls, fb).deletions >= 0,
    decreases ls.len(),
{
    reveal_strlit("added");
    reveal_strlit("removed");
    reveal_strlit("context");
    reveal_strlit("@@ ");
    if ls.len() > 0 {
        lemma_diff_counts(ls.drop_last(), fb);
        let st0 = diff_fold(ls.drop_last(), fb);
        let st1 = diff_path_step(st0, ls.last());
        let st = diff_fold(ls, fb);
        assert(st == diff_body_step(st1, ls.last()));
        assert(st1.hunks == st0.hunks && st1.lines == st0.lines && st1.header == st0.header);
        assert(st1.insertions == st0.insertions && st1.deletions == st0.deletions);
        assert(st1.overflow == st0.overflow && st1.seen_hunk == st0.seen_hunk);
        let line = ls.last();
        if starts_with(line, "@@ "@) {
            if st1.header.len() > 0 {
                let h = DiffHunkV { header: st1.header, lines: st1.lines, raw: st1.raw };
                assert(st1.hunks.push(h).drop_last() =~= st1.hunks);
                assert(hunks_kind_count(st.hunks, "added"@) == hunks_kind_count(st1.hunks, "added"@)
                    + kind_count(st1.lines, "added"@));
                assert(hunks_kind_count(st.hunks, "removed"@) == hunks_kind_count(
                    st1.hunks,
                    "removed"@,
                ) + kind_count(st1.lines, "removed"@));
            }
            assert(st.lines.len() == 0);
            assert(kind_count(st.lines, "added"@) == 0);
            assert(kind_count(st.lines, "removed"@) == 0);
        } else if !st1.seen_hunk {
            assert(st == DiffState { patch_header: st1.patch_header + line + seq!['\n'], ..st1 });
        } else if starts_with(line, "+"@) && !starts_with(line, "+++"@) {
            assert(st.lines.drop_last() =~= st1.lines);
            assert(st.lines.last().kind == "added"@);
            assert(kind_count(st.lines, "added"@) == kind_count(st1.lines, "added"@) + 1);
            assert(kind_count(st.lines, "removed"@) == kind_count(st1.lines, "removed"@));
        } else if starts_with(line, "-"@) && !starts_with(line, "---"@) {
            assert(st.lines.drop_last() =~= st1.lines);
            assert(st.lines.last().kind == "removed"@);
            assert(kind_count(st.lines, "added"@) == kind_count(st1.lines, "added"@));
            assert(kind_count(st.lines, "removed"@) == kind_count(st1.lines, "removed"@) + 1);
        } else if starts_with(line, " "@) {
            assert(st.lines.drop_last() =~= st1.lines);
            assert(st.lines.last().kind == "context"@);
            assert("context"@.len() != "added"@.len());
            assert("context"@[0] != "removed"@[0]);
            assert(kind_count(st.lines, "added"@) == kind_count(st1.lines, "added"@));
            assert(kind_count(st.lines, "removed"@) == kind_count(st1.lines, "removed"@));
        }
    }
}

/// The counts of a file's diff are its added and removed lines: every `+`
/// line of a hunk is one insertion, every `-` line one deletion.
pub proof fn law_diff_counts_are_lines(text: Seq<char>, fallback: Seq<char>)
    requires
        !diff_fold(lines(text), fallback).overflow,
    ensures
        spec_diff_single(text, fallback).insertions == hunks_kind_count(
            spec_diff_single(text, fallback).hunks,
            "added"@,
        ),
        spec_diff_single(text, fallback).deletions == hunks_kind_count(
            spec_diff_single(text, fallback).hunks,
            "removed"@,
        ),
{
    let st = diff_fold(lines(text), fallback);
    lemma_diff_counts(lines(text), fallback);
    if st.header.len() > 0 {
        let h = DiffHunkV { header: st.header, lines: st.lines, raw: st.raw };
        assert(st.hunks.push(h).drop_last() =~= st.hunks);
    } else {
        assert(kind_count(st.lines, "added"@) == 0);
        assert(kind_count(st.lines, "removed"@) == 0);
    }
}

} // verus!
