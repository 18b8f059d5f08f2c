//! Partial staging: rebuilding a diff hunk from a selection of its changed
//! lines, and assembling the patch that `git apply` receives.
use vstd::prelude::*;
use crate::text::{
    before_char, before_char_exec, chars_of, dec, ends_with, ends_with_exec, find, find_exec,
    lemma_find_bounds, lemma_split_char_free, lemma_split_char_nonempty, parse_unsigned, parse_unsigned_exec, push_all,
    push_dec, push_str, slice_vec, split_char, split_char_exec, starts_with_exec, string_of_all,
    strip_prefix, trim_start_char, trim_start_char_exec,
};

verus! {

/// One hunk of a file diff with the 0-based ordinals of the changed (`+`/`-`)
/// lines of its body that are selected.
pub struct LineHunkSelection {
    pub raw: String,
    pub selected: Vec<usize>,
}

/// What happens to the selected lines.
#[derive(Clone, Copy, Debug, PartialEq, Eq, Structural)]
pub enum LineOp {
    Stage,
    Unstage,
    Discard,
}

/// The hunk header `@@ -a[,b] +c[,d] @@tail`: old start, new start, and the
/// tail after the closing `@@` (with its leading space).
pub open spec fn spec_hunk_header(h: Seq<char>) -> Option<(nat, nat, Seq<char>)> {
    match strip_prefix(h, "@@ "@) {
        None => None,
        Some(rest) => match find(rest, " @@"@) {
            None => None,
            Some(close) => {
                let pieces = split_char(rest.take(close), ' ');
                let tail = rest.skip(close + " @@"@.len());
                if pieces.len() < 2 {
                    None
                } else {
                    let o = parse_unsigned(
                        before_char(trim_start_char(pieces[0], '-'), ','),
                        usize::MAX as nat,
                    );
                    let n = parse_unsigned(
                        before_char(trim_start_char(pieces[1], '+'), ','),
                        usize::MAX as nat,
                    );
                    if o is Some && n is Some {
                        Some((o->0, n->0, tail))
                    } else {
                        None
                    }
                }
            },
        },
    }
}

fn parse_hunk_header_chars(h: &[char]) -> (r: Option<(usize, usize, Vec<char>)>)
    ensures
        r matches Some((o, n, t)) ==> spec_hunk_header(h@) == Some((o as nat, n as nat, t@)),
        r is None ==> spec_hunk_header(h@) is None,
{
    let pre = chars_of("@@ ");
    if !starts_with_exec(h, pre.as_slice()) {
        return None;
    }
    let rest = slice_vec(h, pre.len(), h.len());
    assert(rest@ =~= h@.skip(pre@.len() as int));
    let close_pat = chars_of(" @@");
    let close = match find_exec(rest.as_slice(), close_pat.as_slice()) {
        Some(c) => c,
        None => {
            return None;
        },
    };
    proof {
        lemma_find_bounds(rest@, close_pat@);
    }
    let ranges = slice_vec(rest.as_slice(), 0, close);
    let tail = slice_vec(rest.as_slice(), close + close_pat.len(), rest.len());
    assert(ranges@ =~= rest@.take(close as int));
    assert(tail@ =~= rest@.skip(close + close_pat@.len()));
    let pieces = split_char_exec(ranges.as_slice(), ' ');
    if pieces.len() < 2 {
        return None;
    }
    let o_t = trim_start_char_exec(pieces[0].as_slice(), '-');
    let o_s = before_char_exec(o_t.as_slice(), ',');
    let n_t = trim_start_char_exec(pieces[1].as_slice(), '+');
    let n_s = before_char_exec(n_t.as_slice(), ',');
    let o = parse_unsigned_exec(o_s.as_slice(), usize::MAX as u64);
    let n = parse_unsigned_exec(n_s.as_slice(), usize::MAX as u64);
    match (o, n) {
        (Some(o), Some(n)) => Some((o as usize, n as usize, tail)),
        _ => None,
    }
}

/// Parses a hunk header `"@@ -a,b +c,d @@ tail"` into `(a, c, tail)`.
pub fn parse_hunk_header(h: &str) -> (r: Option<(usize, usize, String)>)
    ensures
        r matches Some((o, n, t)) ==> spec_hunk_header(h@) == Some((o as nat, n as nat, t@)),
        r is None ==> spec_hunk_header(h@) is None,
{
    let hv = chars_of(h);
    match parse_hunk_header_chars(hv.as_slice()) {
        Some((o, n, t)) => Some((o, n, string_of_all(t.as_slice()))),
        None => None,
    }
}

/// The header line of a hunk with the given starts and counts.
pub open spec fn hunk_header_text(os: nat, oc: nat, ns: nat, nc: nat, tail: Seq<char>) -> Seq<char> {
    "@@ -"@ + dec(os) + ","@ + dec(oc) + " +"@ + dec(ns) + ","@ + dec(nc) + " @@"@ + tail
}

/// `ord` is one of the selected ordinals.
pub open spec fn is_selected(sel: Seq<usize>, ord: nat) -> bool {
    exists|k: int| 0 <= k < sel.len() && sel[k] == ord
}

/// What has been rebuilt after a prefix of the hunk body.
pub struct RebuildState {
    pub body: Seq<char>,
    pub old_count: nat,
    pub new_count: nat,
    /// Ordinal of the next changed line.
    pub ord: nat,
    /// Some selected change was kept.
    pub kept_any: bool,
    /// The line before is in the result (a `\ No newline` marker follows it).
    pub last_kept: bool,
}

/// One body line: context is kept; a selected change is kept; an unselected
/// removal becomes context; an unselected addition is dropped; a
/// `\ No newline` marker stays only after a kept line.
pub open spec fn rebuild_step(st: RebuildState, line: Seq<char>, sel: Seq<usize>) -> RebuildState {
    let nl = seq!['\n'];
    if line.len() == 0 {
        st
    } else if line[0] == ' ' {
        RebuildState {
            body: st.body + line + nl,
            old_count: st.old_count + 1,
            new_count: st.new_count + 1,
            ord: st.ord,
            kept_any: st.kept_any,
            last_kept: true,
        }
    } else if line[0] == '-' {
        if is_selected(sel, st.ord) {
            RebuildState {
                body: st.body + line + nl,
                old_count: st.old_count + 1,
                new_count: st.new_count,
                ord: st.ord + 1,
                kept_any: true,
                last_kept: true,
            }
        } else {
            RebuildState {
                body: st.body + seq![' '] + line.skip(1) + nl,
                old_count: st.old_count + 1,
                new_count: st.new_count + 1,
                ord: st.ord + 1,
                kept_any: st.kept_any,
                last_kept: true,
            }
        }
    } else if line[0] == '+' {
        if is_selected(sel, st.ord) {
            RebuildState {
                body: st.body + line + nl,
                old_count: st.old_count,
                new_count: st.new_count + 1,
                ord: st.ord + 1,
                kept_any: true,
                last_kept: true,
            }
        } else {
            RebuildState {
                body: st.body,
                old_count: st.old_count,
                new_count: st.new_count,
                ord: st.ord + 1,
                kept_any: st.kept_any,
                last_kept: false,
            }
        }
    } else if line[0] == '\\' {
        if st.last_kept {
            RebuildState { body: st.body + line + nl, ..st }
        } else {
            st
        }
    } else {
        RebuildState { body: st.body + line + nl, last_kept: true, ..st }
    }
}

pub open spec fn rebuild_init() -> RebuildState {
    RebuildState {
        body: Seq::empty(),
        old_count: 0,
        new_count: 0,
        ord: 0,
        kept_any: false,
        last_kept: false,
    }
}

/// The body lines folded through `rebuild_step`.
pub open spec fn rebuild_fold(ls: Seq<Seq<char>>, sel: Seq<usize>) -> RebuildState
    decreases ls.len(),
{
    if ls.len() == 0 {
        rebuild_init()
    } else {
        rebuild_step(rebuild_fold(ls.drop_last(), sel), ls.last(), sel)
    }
}

/// The hunk `raw` keeping only the selected changed lines, with its header
/// recounted; `None` when the header does not parse or nothing is selected.
pub open spec fn spec_rebuild_hunk(raw: Seq<char>, sel: Seq<usize>) -> Option<Seq<char>> {
    let parts = split_char(raw, '\n');
    match spec_hunk_header(parts[0]) {
        None => None,
        Some((os, ns, tail)) => {
            let st = rebuild_fold(parts.skip(1), sel);
            if !st.kept_any {
                None
            } else {
                Some(hunk_header_text(os, st.old_count, ns, st.new_count, tail) + seq!['\n'] + st.body)
            }
        },
    }
}

fn selected_has(sel: &[usize], ord: usize) -> (b: bool)
    ensures
        b == is_selected(sel@, ord as nat),
{
    let mut k: usize = 0;
    while k < sel.len()
        invariant
            k <= sel@.len(),
            forall|j: int| 0 <= j < k ==> sel@[j] != ord,
        decreases sel@.len() - k,
    {
        if sel[k] == ord {
            return true;
        }
        k = k + 1;
    }
    false
}

/// Rebuilds one hunk keeping only the selected changed lines (0-based
/// ordinals of its `+`/`-` lines): unselected removals become context,
/// unselected additions are dropped, the header is recounted. `None` when
/// no changed line is left.
pub fn rebuild_hunk(raw: &str, selected: &[usize]) -> (r: Option<String>)
    ensures
        r matches Some(t) ==> spec_rebuild_hunk(raw@, selected@) == Some(t@),
        r is None ==> spec_rebuild_hunk(raw@, selected@) is None,
{
    let rv = chars_of(raw);
    let parts = split_char_exec(rv.as_slice(), '\n');
    let ghost sp = split_char(raw@, '\n');
    proof {
        lemma_split_char_nonempty(raw@, '\n');
    }
    let (os, ns, tail) = match parse_hunk_header_chars(parts[0].as_slice()) {
        Some(x) => x,
        None => {
            return None;
        },
    };
    let ghost ls = sp.skip(1);
    let mut body: Vec<char> = Vec::new();
    let mut old_count: usize = 0;
    let mut new_count: usize = 0;
    let mut ord: usize = 0;
    let mut kept_any = false;
    let mut last_kept = false;
    let n = parts.len();
    let mut i: usize = 1;
    assert(ls.take(0) =~= Seq::<Seq<char>>::empty());
    while i < n
        invariant
            n == parts@.len() == sp.len() >= 1,
            ls == sp.skip(1),
            forall|k: int| 0 <= k < n ==> #[trigger] parts@[k]@ == sp[k],
            1 <= i <= n,
            old_count <= i,
            new_count <= i,
            ord <= i,
            ({
                let st = rebuild_fold(ls.take(i - 1), selected@);
                &&& body@ == st.body
                &&& old_count as nat == st.old_count
                &&& new_count as nat == st.new_count
                &&& ord as nat == st.ord
                &&& kept_any == st.kept_any
                &&& last_kept == st.last_kept
            }),
        decreases n - i,
    {
        let line = &parts[i];
        assert(ls.take(i as int).drop_last() =~= ls.take(i - 1));
        assert(ls.take(i as int).last() == sp[i as int]);
        if line.len() == 0 {
        } else if line[0] == ' ' {
            push_all(&mut body, line.as_slice());
            body.push('\n');
            old_count = old_count + 1;
            new_count = new_count + 1;
            last_kept = true;
        } else if line[0] == '-' {
            let is_sel = selected_has(selected, ord);
            ord = ord + 1;
            old_count = old_count + 1;
            if is_sel {
                push_all(&mut body, line.as_slice());
                body.push('\n');
                kept_any = true;
                last_kept = true;
            } else {
                body.push(' ');
                let rest = slice_vec(line.as_slice(), 1, line.len());
                assert(rest@ =~= line@.skip(1));
                push_all(&mut body, rest.as_slice());
                body.push('\n');
                new_count = new_count + 1;
                last_kept = true;
            }
        } else if line[0] == '+' {
            let is_sel = selected_has(selected, ord);
            ord = ord + 1;
            if is_sel {
                push_all(&mut body, line.as_slice());
                body.push('\n');
                new_count = new_count + 1;
                kept_any = true;
                last_kept = true;
            } else {
                last_kept = false;
            }
        } else if line[0] == '\\' {
            if last_kept {
                push_all(&mut body, line.as_slice());
                body.push('\n');
            }
        } else {
            push_all(&mut body, line.as_slice());
            body.push('\n');
            last_kept = true;
        }
        i = i + 1;
    }
    assert(ls.take(n - 1) =~= ls);
    if !kept_any {
        return None;
    }
    let mut out = chars_of("@@ -");
    push_dec(&mut out, os as u64);
    push_str(&mut out, ",");
    push_dec(&mut out, old_count as u64);
    push_str(&mut out, " +");
    push_dec(&mut out, ns as u64);
    push_str(&mut out, ",");
    push_dec(&mut out, new_count as u64);
    push_str(&mut out, " @@");
    push_all(&mut out, tail.as_slice());
    out.push('\n');
    push_all(&mut out, body.as_slice());
    Some(string_of_all(out.as_slice()))
}

/// Concatenation of the rebuilt hunks that keep something, and whether any did.
pub open spec fn rebuilt_hunks(hs: Seq<LineHunkSelection>) -> (Seq<char>, bool)
    decreases hs.len(),
{
    if hs.len() == 0 {
        (Seq::empty(), false)
    } else {
        let prev = rebuilt_hunks(hs.drop_last());
        match spec_rebuild_hunk(hs.last().raw@, hs.last().selected@) {
            Some(t) => (prev.0 + t, true),
            None => prev,
        }
    }
}

/// The partial patch: the file header followed by every rebuilt hunk that
/// keeps a change; `None` when no hunk does.
pub open spec fn spec_partial_patch(file_header: Seq<char>, hs: Seq<LineHunkSelection>) -> Option<
    Seq<char>,
> {
    let (out, any) = rebuilt_hunks(hs);
    if any {
        Some(file_header + out)
    } else {
        None
    }
}

/// Builds the partial patch of the selected lines of a file.
pub fn build_partial_patch(file_header: &str, hunks: &[LineHunkSelection]) -> (r: Option<String>)
    ensures
        r matches Some(p) ==> spec_partial_patch(file_header@, hunks@) == Some(p@),
        r is None ==> spec_partial_patch(file_header@, hunks@) is None,
{
    let mut out: Vec<char> = Vec::new();
    let mut any = false;
    let mut i: usize = 0;
    assert(hunks@.take(0) =~= Seq::<LineHunkSelection>::empty());
    while i < hunks.len()
        invariant
            i <= hunks@.len(),
            (out@, any) == rebuilt_hunks(hunks@.take(i as int)),
        decreases hunks@.len() - i,
    {
        assert(hunks@.take(i + 1).drop_last() =~= hunks@.take(i as int));
        if let Some(rebuilt) = rebuild_hunk(hunks[i].raw.as_str(), hunks[i].selected.as_slice()) {
            push_str(&mut out, rebuilt.as_str());
            any = true;
        }
        i = i + 1;
    }
    assert(hunks@.take(hunks@.len() as int) =~= hunks@);
    if !any {
        return None;
    }
    let mut p = chars_of(file_header);
    push_all(&mut p, out.as_slice());
    Some(string_of_all(p.as_slice()))
}

/// A `git apply` run: its arguments and the patch on its standard input.
pub struct PatchCommand {
    pub args: Vec<String>,
    pub stdin: String,
}

pub open spec fn strs(v: Seq<String>) -> Seq<Seq<char>> {
    v.map_values(|s: String| s@)
}

/// Arguments of `git apply` for a patch (`cached`: the index, `reverse`: undo).
pub open spec fn apply_args(reverse: bool, cached: bool) -> Seq<Seq<char>> {
    let base = seq!["apply"@, "--recount"@, "--whitespace=nowarn"@];
    let c = if cached { base.push("--cached"@) } else { base };
    let r = if reverse { c.push("--reverse"@) } else { c };
    r.push("-"@)
}

/// The patch as written to `git apply`: with a final newline.
pub open spec fn patch_input(patch: Seq<char>) -> Seq<char> {
    if patch.len() > 0 && patch.last() == '\n' {
        patch
    } else {
        patch.push('\n')
    }
}

pub(crate) fn arg(s: &str) -> (r: String)
    ensures
        r@ == s@,
{
    s.to_owned()
}

/// The `git apply` that feeds `patch` to the index (`cached`) or the working
/// tree, in reverse when `reverse`.
pub fn apply_patch(patch: &str, reverse: bool, cached: bool) -> (c: PatchCommand)
    ensures
        strs(c.args@) == apply_args(reverse, cached),
        c.stdin@ == patch_input(patch@),
{
    let mut args: Vec<String> = Vec::new();
    args.push(arg("apply"));
    args.push(arg("--recount"));
    args.push(arg("--whitespace=nowarn"));
    if cached {
        args.push(arg("--cached"));
    }
    if reverse {
        args.push(arg("--reverse"));
    }
    args.push(arg("-"));
    let mut data = chars_of(patch);
    let nl = vec!['\n'];
    if !ends_with_exec(data.as_slice(), nl.as_slice()) {
        data.push('\n');
    }
    assert(nl@ =~= seq!['\n']);
    assert(ends_with(patch@, nl@) <==> (patch@.len() > 0 && patch@.last() == '\n')) by {
        if patch@.len() > 0 {
            assert(patch@.subrange(patch@.len() - 1, patch@.len() as int) =~= seq![patch@.last()]);
        }
    }
    assert(strs(args@) =~= apply_args(reverse, cached));
    PatchCommand { args, stdin: string_of_all(data.as_slice()) }
}

/// Stages a hunk: its patch (from the unstaged diff) applied to the index.
pub fn stage_hunk(patch: &str) -> (c: PatchCommand)
    ensures
        strs(c.args@) == apply_args(false, true),
        c.stdin@ == patch_input(patch@),
{
    apply_patch(patch, false, true)
}

/// Unstages a hunk: its patch (from the staged diff) undone in the index.
pub fn unstage_hunk(patch: &str) -> (c: PatchCommand)
    ensures
        strs(c.args@) == apply_args(true, true),
        c.stdin@ == patch_input(patch@),
{
    apply_patch(patch, true, true)
}

/// Discards a hunk: its patch (from the unstaged diff) undone in the working tree.
pub fn discard_hunk(patch: &str) -> (c: PatchCommand)
    ensures
        strs(c.args@) == apply_args(true, false),
        c.stdin@ == patch_input(patch@),
{
    apply_patch(patch, true, false)
}

/// `(reverse, cached)` of `git apply` for a line operation.
pub open spec fn op_flags(op: LineOp) -> (bool, bool) {
    match op {
        LineOp::Stage => (false, true),
        LineOp::Unstage => (true, true),
        LineOp::Discard => (true, false),
    }
}

/// Applies the selected lines of a file: the `git apply` to run, or `None`
/// when nothing is selected (nothing is run).
pub fn apply_lines(file_header: &str, hunks: &[LineHunkSelection], op: LineOp) -> (r: Option<
    PatchCommand,
>)
    ensures
        spec_partial_patch(file_header@, hunks@) is None ==> r is None,
        spec_partial_patch(file_header@, hunks@) matches Some(p) ==> (r matches Some(c) && strs(
            c.args@,
        ) == apply_args(op_flags(op).0, op_flags(op).1) && c.stdin@ == patch_input(p)),
{
    let patch = match build_partial_patch(file_header, hunks) {
        Some(p) => p,
        None => {
            return None;
        },
    };
    let (reverse, cached) = match op {
        LineOp::Stage => (false, true),
        LineOp::Unstage => (true, true),
        LineOp::Discard => (true, false),
    };
    Some(apply_patch(patch.as_str(), reverse, cached))
}

proof fn lemma_nothing_kept(ls: Seq<Seq<char>>)
    ensures
        !rebuild_fold(ls, Seq::empty()).kept_any,
    decreases ls.len(),
{
    if ls.len() > 0 {
        lemma_nothing_kept(ls.drop_last());
    }
}

/// With no changed line selected nothing is left to apply: no hunk.
pub proof fn law_nothing_selected_no_hunk(raw: Seq<char>)
    ensures
        spec_rebuild_hunk(raw, Seq::empty()) is None,
{
    lemma_nothing_kept(split_char(raw, '\n').skip(1));
}


/// The line that one body line leaves in the rebuilt hunk, if any.
pub open spec fn kept_line(st: RebuildState, line: Seq<char>, sel: Seq<usize>) -> Option<Seq<char>> {
    if line.len() == 0 {
        None
    } else if line[0] == '-' && !is_selected(sel, st.ord) {
        Some(seq![' '] + line.skip(1))
    } else if line[0] == '+' && !is_selected(sel, st.ord) {
        None
    } else if line[0] == '\\' && !st.last_kept {
        None
    } else {
        Some(line)
    }
}

/// The lines of the rebuilt body, in order.
pub open spec fn kept_lines(ls: Seq<Seq<char>>, sel: Seq<usize>) -> Seq<Seq<char>>
    decreases ls.len(),
{
    if ls.len() == 0 {
        Seq::empty()
    } else {
        let prev = kept_lines(ls.drop_last(), sel);
        match kept_line(rebuild_fold(ls.drop_last(), sel), ls.last(), sel) {
            Some(l) => prev.push(l),
            None => prev,
        }
    }
}

/// Lines, each followed by a line break.
pub open spec fn join_lines(ks: Seq<Seq<char>>) -> Seq<char>
    decreases ks.len(),
{
    if ks.len() == 0 {
        Seq::empty()
    } else {
        join_lines(ks.drop_last()) + ks.last() + seq!['\n']
    }
}

/// A context or removed line: one of the old file.
pub open spec fn on_old_side(l: Seq<char>) -> bool {
    l.len() > 0 && (l[0] == ' ' || l[0] == '-')
}

/// A context or added line: one of the new file.
pub open spec fn on_new_side(l: Seq<char>) -> bool {
    l.len() > 0 && (l[0] == ' ' || l[0] == '+')
}

pub open spec fn old_side_count(ks: Seq<Seq<char>>) -> nat
    decreases ks.len(),
{
    if ks.len() == 0 {
        0
    } else {
        old_side_count(ks.drop_last()) + if on_old_side(ks.last()) { 1nat } else { 0nat }
    }
}

pub open spec fn new_side_count(ks: Seq<Seq<char>>) -> nat
    decreases ks.len(),
{
    if ks.len() == 0 {
        0
    } else {
        new_side_count(ks.drop_last()) + if on_new_side(ks.last()) { 1nat } else { 0nat }
    }
}

/// A line that is not empty and holds no line break.
pub open spec fn one_line(l: Seq<char>) -> bool {
    l.len() > 0 && forall|j: int| 0 <= j < l.len() ==> #[trigger] l[j] != '\n'
}

proof fn lemma_rebuild_body(ls: Seq<Seq<char>>, sel: Seq<usize>)
    requires
        forall|i: int, j: int| 0 <= i < ls.len() && 0 <= j < ls[i].len() ==> #[trigger] ls[i][j] != '\n',
    ensures
        rebuild_fold(ls, sel).body == join_lines(kept_lines(ls, sel)),
        rebuild_fold(ls, sel).old_count == old_side_count(kept_lines(ls, sel)),
        rebuild_fold(ls, sel).new_count == new_side_count(kept_lines(ls, sel)),
        forall|k: int| 0 <= k < kept_lines(ls, sel).len() ==> #[trigger] one_line(kept_lines(ls, sel)[k]),
    decreases ls.len(),
{
    if ls.len() > 0 {
        let init = ls.drop_last();
        assert forall|i: int, j: int| 0 <= i < init.len() && 0 <= j < init[i].len() implies #[trigger] init[i][j] != '\n' by {
            assert(init[i] == ls[i]);
        }
        lemma_rebuild_body(init, sel);
        let st = rebuild_fold(init, sel);
        let prev = kept_lines(init, sel);
        let line = ls.last();
        assert(forall|j: int| 0 <= j < line.len() ==> line[j] == ls[ls.len() - 1][j]);
        match kept_line(st, line, sel) {
            Some(l) => {
                let ks = prev.push(l);
                assert(ks.drop_last() =~= prev);
                assert(ks.last() == l);
                assert(join_lines(ks) == join_lines(prev) + l + seq!['\n']);
                if line[0] == '-' && !is_selected(sel, st.ord) {
                    assert(st.body + seq![' '] + line.skip(1) + seq!['\n'] =~= st.body + l + seq!['\n']);
                    assert forall|j: int| 0 <= j < l.len() implies #[trigger] l[j] != '\n' by {
                        if j > 0 {
                            assert(l[j] == line[j]);
                        }
                    }
                }
                assert(one_line(l));
                assert forall|k: int| 0 <= k < ks.len() implies #[trigger] one_line(ks[k]) by {
                    if k < prev.len() {
                        assert(ks[k] == prev[k]);
                    }
                }
            },
            None => {},
        }
    }
}

/// A rebuilt hunk is well formed: after its header come whole lines, and
/// the header counts exactly those of them that belong to the old file
/// (context and removals) and to the new file (context and additions).
pub proof fn law_rebuilt_header_counts_body(raw: Seq<char>, sel: Seq<usize>)
    requires
        spec_rebuild_hunk(raw, sel) is Some,
    ensures
        exists|os: nat, ns: nat, tail: Seq<char>, ks: Seq<Seq<char>>|
            {
                &&& spec_rebuild_hunk(raw, sel) == Some(
                    #[trigger] hunk_header_text(os, old_side_count(ks), ns, new_side_count(ks), tail)
                        + seq!['\n'] + join_lines(ks),
                )
                &&& forall|k: int| 0 <= k < ks.len() ==> #[trigger] one_line(ks[k])
            },
{
    let parts = split_char(raw, '\n');
    lemma_split_char_nonempty(raw, '\n');
    lemma_split_char_free(raw, '\n');
    let body = parts.skip(1);
    assert forall|i: int, j: int| 0 <= i < body.len() && 0 <= j < body[i].len() implies #[trigger] body[i][j] != '\n' by {
        assert(body[i] == parts[i + 1]);
    }
    lemma_rebuild_body(body, sel);
    let (os, ns, tail) = spec_hunk_header(parts[0])->0;
    let ks = kept_lines(body, sel);
    assert(spec_rebuild_hunk(raw, sel) == Some(
        hunk_header_text(os, old_side_count(ks), ns, new_side_count(ks), tail) + seq!['\n'] + join_lines(ks),
    ));
}


/// Which side a line operation works on: staging and unstaging change the
/// index (`--cached`), discarding changes the work tree; unstaging and
/// discarding undo the selected lines (`--reverse`), staging applies them.
pub proof fn law_line_ops_sides(op: LineOp)
    ensures
        apply_args(op_flags(op).0, op_flags(op).1).contains("--cached"@) <==> op != LineOp::Discard,
        apply_args(op_flags(op).0, op_flags(op).1).contains("--reverse"@) <==> op != LineOp::Stage,
{
    reveal_strlit("apply");
    reveal_strlit("--recount");
    reveal_strlit("--whitespace=nowarn");
    reveal_strlit("--cached");
    reveal_strlit("--reverse");
    reveal_strlit("-");
    let a = apply_args(op_flags(op).0, op_flags(op).1);
    assert("apply"@.len() == 5 && "--recount"@.len() == 9 && "--whitespace=nowarn"@.len() == 19);
    assert("--cached"@.len() == 8 && "--reverse"@.len() == 9 && "-"@.len() == 1);
    assert("--recount"@[4] != "--reverse"@[4]);
    match op {
        LineOp::Stage => {
            assert(a =~= seq!["apply"@, "--recount"@, "--whitespace=nowarn"@, "--cached"@, "-"@]);
            assert(a[3] == "--cached"@);
            assert forall|k: int| 0 <= k < a.len() implies a[k] != "--reverse"@ by {
                if k == 1 {
                    assert(a[k][4] != "--reverse"@[4]);
                }
            }
        },
        LineOp::Unstage => {
            assert(a =~= seq!["apply"@, "--recount"@, "--whitespace=nowarn"@, "--cached"@, "--reverse"@, "-"@]);
            assert(a[3] == "--cached"@);
            assert(a[4] == "--reverse"@);
        },
        LineOp::Discard => {
            assert(a =~= seq!["apply"@, "--recount"@, "--whitespace=nowarn"@, "--reverse"@, "-"@]);
            assert(a[3] == "--reverse"@);
            assert forall|k: int| 0 <= k < a.len() implies a[k] != "--cached"@ by {}
        },
    }
}

} // verus!
