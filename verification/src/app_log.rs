//! The Git output log: each git command becomes one event whose output is
//! cleaned of terminal control sequences, spinner frames and hook
//! decorations, and cut to a readable size.
use vstd::prelude::*;
use crate::text::{
    after_last_char, after_last_char_exec, chars_of, dec, is_control, is_control_exec, lines,
    lines_exec, push_all, push_dec, push_str, slice_vec, split_char, split_char_exec,
    string_of_all, strip_suffix, trim, trim_end, trim_end_exec, trim_exec,
};

verus! {

/// Lines kept in the log.
pub const MAX_OUTPUT_LINES: usize = 40;

/// Characters kept in the log.
pub const MAX_OUTPUT_CHARS: usize = 4000;

/// Where the escape-sequence filter stands.
pub enum AnsiMode {
    Text,
    /// After ESC.
    Esc,
    /// Inside `ESC [` ... up to a final byte `0x40..=0x7e`.
    Csi,
    /// Inside `ESC ]` ... up to BEL or ESC.
    Osc,
    /// ESC inside an OSC: a following `\` belongs to it.
    OscEsc,
    /// Intermediate bytes `0x20..=0x2f` of another escape, up to its final.
    Other,
}

pub struct AnsiState {
    pub mode: AnsiMode,
    pub out: Seq<char>,
}

pub open spec fn is_intermediate(c: char) -> bool {
    '\u{20}' <= c <= '\u{2f}'
}

pub open spec fn is_final(c: char) -> bool {
    '\u{40}' <= c <= '\u{7e}'
}

/// One character through the filter: text is kept; CSI (`ESC [` ... final
/// byte), OSC (`ESC ]` ... BEL or `ESC \`) and two-character escapes are
/// dropped whole.
pub open spec fn ansi_step(st: AnsiState, c: char) -> AnsiState {
    match st.mode {
        AnsiMode::Text => if c == '\u{1b}' {
            AnsiState { mode: AnsiMode::Esc, out: st.out }
        } else {
            AnsiState { mode: AnsiMode::Text, out: st.out.push(c) }
        },
        AnsiMode::Esc => if c == '[' {
            AnsiState { mode: AnsiMode::Csi, out: st.out }
        } else if c == ']' {
            AnsiState { mode: AnsiMode::Osc, out: st.out }
        } else if is_intermediate(c) {
            AnsiState { mode: AnsiMode::Other, out: st.out }
        } else {
            AnsiState { mode: AnsiMode::Text, out: st.out }
        },
        AnsiMode::Other => if is_intermediate(c) {
            AnsiState { mode: AnsiMode::Other, out: st.out }
        } else {
            AnsiState { mode: AnsiMode::Text, out: st.out }
        },
        AnsiMode::Csi => if is_final(c) {
            AnsiState { mode: AnsiMode::Text, out: st.out }
        } else {
            AnsiState { mode: AnsiMode::Csi, out: st.out }
        },
        AnsiMode::Osc => if c == '\u{7}' {
            AnsiState { mode: AnsiMode::Text, out: st.out }
        } else if c == '\u{1b}' {
            AnsiState { mode: AnsiMode::OscEsc, out: st.out }
        } else {
            AnsiState { mode: AnsiMode::Osc, out: st.out }
        },
        AnsiMode::OscEsc => if c == '\\' {
            AnsiState { mode: AnsiMode::Text, out: st.out }
        } else if c == '\u{1b}' {
            AnsiState { mode: AnsiMode::Esc, out: st.out }
        } else {
            AnsiState { mode: AnsiMode::Text, out: st.out.push(c) }
        },
    }
}

pub open spec fn ansi_fold(s: Seq<char>) -> AnsiState
    decreases s.len(),
{
    if s.len() == 0 {
        AnsiState { mode: AnsiMode::Text, out: Seq::empty() }
    } else {
        ansi_step(ansi_fold(s.drop_last()), s.last())
    }
}

/// The text with its escape sequences removed.
pub open spec fn spec_strip_ansi(s: Seq<char>) -> Seq<char> {
    ansi_fold(s).out
}

/// Box drawing and block elements (U+2500..U+259F) that hooks draw frames
/// and animations with.
pub open spec fn is_decor(c: char) -> bool {
    '\u{2500}' <= c <= '\u{259f}'
}

pub struct CleanState {
    pub out: Seq<char>,
    pub prev_space: bool,
}

/// Control characters and decorations become one space per run.
pub open spec fn clean_step(st: CleanState, c: char) -> CleanState {
    if is_control(c) || is_decor(c) {
        if st.prev_space {
            st
        } else {
            CleanState { out: st.out.push(' '), prev_space: true }
        }
    } else {
        CleanState { out: st.out.push(c), prev_space: false }
    }
}

pub open spec fn clean_fold(s: Seq<char>) -> CleanState
    decreases s.len(),
{
    if s.len() == 0 {
        CleanState { out: Seq::empty(), prev_space: false }
    } else {
        clean_step(clean_fold(s.drop_last()), s.last())
    }
}

/// The last frame of a line redrawn with `\r` (a CRLF ending is no redraw).
pub open spec fn final_frame(raw: Seq<char>) -> Seq<char> {
    let l = match strip_suffix(raw, seq!['\r']) {
        Some(x) => x,
        None => raw,
    };
    after_last_char(l, '\r')
}

/// Lines that are blank once cleaned are dropped; the others keep their
/// leading spaces (alignment) and lose the trailing ones.
pub open spec fn sanitize_fold(ls: Seq<Seq<char>>) -> Seq<char>
    decreases ls.len(),
{
    if ls.len() == 0 {
        Seq::empty()
    } else {
        let out = sanitize_fold(ls.drop_last());
        let c = clean_fold(final_frame(ls.last())).out;
        if trim(c).len() == 0 {
            out
        } else if out.len() == 0 {
            trim_end(c)
        } else {
            out + seq!['\n'] + trim_end(c)
        }
    }
}

pub open spec fn spec_sanitize(s: Seq<char>) -> Seq<char> {
    sanitize_fold(split_char(spec_strip_ansi(s), '\n'))
}

/// Lines joined with `sep`.
pub open spec fn join_with(ls: Seq<Seq<char>>, sep: Seq<char>) -> Seq<char>
    decreases ls.len(),
{
    if ls.len() == 0 {
        Seq::empty()
    } else if ls.len() == 1 {
        ls[0]
    } else {
        join_with(ls.drop_last(), sep) + sep + ls.last()
    }
}

/// The log text of a command's output: sanitized, at most 40 lines (with a
/// note of how many were left out), then at most 4000 characters (with a
/// note that it was cut).
pub open spec fn spec_truncate_output(s: Seq<char>) -> Seq<char> {
    let t = spec_sanitize(s);
    let ls = lines(t);
    let out = if ls.len() > MAX_OUTPUT_LINES {
        join_with(ls.take(MAX_OUTPUT_LINES as int), seq!['\n']) + "\n… (+"@ + dec(
            (ls.len() - MAX_OUTPUT_LINES) as nat,
        ) + " строк)"@
    } else {
        t
    };
    if out.len() > MAX_OUTPUT_CHARS {
        out.take(MAX_OUTPUT_CHARS as int) + "\n… (ответ усечён)"@
    } else {
        out
    }
}

pub fn strip_ansi(s: &str) -> (r: String)
    ensures
        r@ == spec_strip_ansi(s@),
{
    let v = chars_of(s);
    let mut out: Vec<char> = Vec::new();
    let mut mode = AnsiMode::Text;
    let mut i: usize = 0;
    assert(v@.take(0) =~= Seq::<char>::empty());
    while i < v.len()
        invariant
            i <= v@.len(),
            v@ == s@,
            ansi_fold(v@.take(i as int)) == (AnsiState { mode, out: out@ }),
        decreases v@.len() - i,
    {
        assert(v@.take(i + 1).drop_last() =~= v@.take(i as int));
        let c = v[i];
        mode = match mode {
            AnsiMode::Text => if c == '\u{1b}' {
                AnsiMode::Esc
            } else {
                out.push(c);
                AnsiMode::Text
            },
            AnsiMode::Esc => if c == '[' {
                AnsiMode::Csi
            } else if c == ']' {
                AnsiMode::Osc
            } else if '\u{20}' <= c && c <= '\u{2f}' {
                AnsiMode::Other
            } else {
                AnsiMode::Text
            },
            AnsiMode::Other => if '\u{20}' <= c && c <= '\u{2f}' {
                AnsiMode::Other
            } else {
                AnsiMode::Text
            },
            AnsiMode::Csi => if '\u{40}' <= c && c <= '\u{7e}' {
                AnsiMode::Text
            } else {
                AnsiMode::Csi
            },
            AnsiMode::Osc => if c == '\u{7}' {
                AnsiMode::Text
            } else if c == '\u{1b}' {
                AnsiMode::OscEsc
            } else {
                AnsiMode::Osc
            },
            AnsiMode::OscEsc => if c == '\\' {
                AnsiMode::Text
            } else if c == '\u{1b}' {
                AnsiMode::Esc
            } else {
                out.push(c);
                AnsiMode::Text
            },
        };
        i = i + 1;
    }
    assert(v@.take(i as int) =~= v@);
    string_of_all(out.as_slice())
}

pub fn is_decor_exec(c: char) -> (b: bool)
    ensures
        b == is_decor(c),
{
    '\u{2500}' <= c && c <= '\u{259f}'
}

fn clean_line(s: &[char]) -> (r: Vec<char>)
    ensures
        r@ == clean_fold(s@).out,
{
    let mut out: Vec<char> = Vec::new();
    let mut prev_space = false;
    let mut i: usize = 0;
    assert(s@.take(0) =~= Seq::<char>::empty());
    while i < s.len()
        invariant
            i <= s@.len(),
            clean_fold(s@.take(i as int)) == (CleanState { out: out@, prev_space }),
        decreases s@.len() - i,
    {
        assert(s@.take(i + 1).drop_last() =~= s@.take(i as int));
        let c = s[i];
        if is_control_exec(c) || is_decor_exec(c) {
            if !prev_space {
                out.push(' ');
                prev_space = true;
            }
        } else {
            out.push(c);
            prev_space = false;
        }
        i = i + 1;
    }
    assert(s@.take(i as int) =~= s@);
    out
}

fn final_frame_exec(raw: &[char]) -> (r: Vec<char>)
    ensures
        r@ == final_frame(raw@),
{
    let n = raw.len();
    if n > 0 && raw[n - 1] == '\r' {
        let l = slice_vec(raw, 0, n - 1);
        assert(raw@.subrange(n - 1, n as int) =~= seq!['\r']);
        assert(l@ =~= raw@.take(n - 1));
        after_last_char_exec(l.as_slice(), '\r')
    } else {
        assert(n > 0 ==> raw@.subrange(n - 1, n as int) != seq!['\r'] || raw@[n - 1] == '\r') by {
            if n > 0 && raw@.subrange(n - 1, n as int) == seq!['\r'] {
                assert(raw@.subrange(n - 1, n as int)[0] == raw@[n - 1]);
            }
        }
        after_last_char_exec(raw, '\r')
    }
}

/// The output as the log shows it.
pub fn sanitize(s: &str) -> (r: String)
    ensures
        r@ == spec_sanitize(s@),
{
    let stripped = strip_ansi(s);
    let sv = chars_of(stripped.as_str());
    let ls = split_char_exec(sv.as_slice(), '\n');
    let ghost sl = split_char(spec_strip_ansi(s@), '\n');
    let mut out: Vec<char> = Vec::new();
    let mut i: usize = 0;
    assert(sl.take(0) =~= Seq::<Seq<char>>::empty());
    while i < ls.len()
        invariant
            i <= ls@.len() == sl.len(),
            forall|k: int| 0 <= k < ls@.len() ==> #[trigger] ls@[k]@ == sl[k],
            out@ == sanitize_fold(sl.take(i as int)),
        decreases ls@.len() - i,
    {
        assert(sl.take(i + 1).drop_last() =~= sl.take(i as int));
        assert(ls@[i as int]@ == sl[i as int]);
        let frame = final_frame_exec(ls[i].as_slice());
        let cleaned = clean_line(frame.as_slice());
        let t = trim_exec(cleaned.as_slice());
        if t.len() > 0 {
            let te = trim_end_exec(cleaned.as_slice());
            if out.len() > 0 {
                out.push('\n');
            }
            push_all(&mut out, te.as_slice());
            assert(out@ =~= sanitize_fold(sl.take(i + 1)));
        }
        i = i + 1;
    }
    assert(sl.take(i as int) =~= sl);
    string_of_all(out.as_slice())
}

/// Lines joined with a newline.
fn join_lines(ls: &Vec<Vec<char>>, n: usize) -> (r: Vec<char>)
    requires
        n <= ls@.len(),
    ensures
        r@ == join_with(ls@.map_values(|l: Vec<char>| l@).take(n as int), seq!['\n']),
{
    let ghost all = ls@.map_values(|l: Vec<char>| l@);
    let mut out: Vec<char> = Vec::new();
    let mut k: usize = 0;
    assert(all.take(0) =~= Seq::<Seq<char>>::empty());
    while k < n
        invariant
            k <= n <= ls@.len(),
            all == ls@.map_values(|l: Vec<char>| l@),
            out@ == join_with(all.take(k as int), seq!['\n']),
        decreases n - k,
    {
        assert(all.take(k + 1).drop_last() =~= all.take(k as int));
        assert(all[k as int] == ls@[k as int]@);
        if k > 0 {
            out.push('\n');
        }
        push_all(&mut out, ls[k].as_slice());
        if k == 0 {
            assert(out@ =~= all.take(1)[0]);
        } else {
            assert(out@ =~= join_with(all.take(k as int), seq!['\n']) + seq!['\n'] + all[k as int]);
        }
        k = k + 1;
    }
    out
}

/// The output as one log event holds it: sanitized and cut to
/// `MAX_OUTPUT_LINES` lines and `MAX_OUTPUT_CHARS` characters.
pub fn truncate_output(s: &str) -> (r: String)
    ensures
        r@ == spec_truncate_output(s@),
{
    let t = sanitize(s);
    let tv = chars_of(t.as_str());
    let ls = lines_exec(tv.as_slice());
    let ghost sl = lines(t@);
    assert(ls@.map_values(|l: Vec<char>| l@) =~= sl);
    let mut out: Vec<char> = if ls.len() > MAX_OUTPUT_LINES {
        let mut o = join_lines(&ls, MAX_OUTPUT_LINES);
        push_str(&mut o, "\n… (+");
        push_dec(&mut o, (ls.len() - MAX_OUTPUT_LINES) as u64);
        push_str(&mut o, " строк)");
        o
    } else {
        tv
    };
    if out.len() > MAX_OUTPUT_CHARS {
        let mut o = slice_vec(out.as_slice(), 0, MAX_OUTPUT_CHARS);
        assert(o@ =~= out@.take(MAX_OUTPUT_CHARS as int));
        push_str(&mut o, "\n… (ответ усечён)");
        out = o;
    }
    string_of_all(out.as_slice())
}

/// One entry of the Git output log.
pub struct GitCommandEvent {
    pub cmd: String,
    pub output: String,
    pub success: bool,
}

/// The log entry of one git command: `$ git <args joined by spaces>`, its
/// output as `truncate_output` makes it, and whether it succeeded.
pub fn log_git(args: &[String], output: &str, success: bool) -> (e: GitCommandEvent)
    ensures
        e.cmd@ == "$ git "@ + join_with(args@.map_values(|a: String| a@), seq![' ']),
        e.output@ == spec_truncate_output(output@),
        e.success == success,
{
    let ghost all = args@.map_values(|a: String| a@);
    let mut cmd: Vec<char> = Vec::new();
    push_str(&mut cmd, "$ git ");
    let ghost head = cmd@;
    let mut k: usize = 0;
    assert(all.take(0) =~= Seq::<Seq<char>>::empty());
    while k < args.len()
        invariant
            k <= args@.len(),
            all == args@.map_values(|a: String| a@),
            head == "$ git "@,
            cmd@ == head + join_with(all.take(k as int), seq![' ']),
        decreases args@.len() - k,
    {
        assert(all.take(k + 1).drop_last() =~= all.take(k as int));
        assert(all[k as int] == args@[k as int]@);
        if k > 0 {
            cmd.push(' ');
        }
        push_str(&mut cmd, args[k].as_str());
        if k == 0 {
            assert(cmd@ =~= head + all.take(1)[0]);
        } else {
            assert(cmd@ =~= head + (join_with(all.take(k as int), seq![' ']) + seq![' ']
                + all[k as int]));
        }
        k = k + 1;
    }
    assert(all.take(k as int) =~= all);
    GitCommandEvent {
        cmd: string_of_all(cmd.as_slice()),
        output: truncate_output(output),
        success,
    }
}

// ---------------------------------------------------------------------------
// Laws
// ---------------------------------------------------------------------------

pub open spec fn no_esc(s: Seq<char>) -> bool {
    forall|i: int| 0 <= i < s.len() ==> #[trigger] s[i] != '\u{1b}'
}

proof fn lemma_ansi_out_no_esc(s: Seq<char>)
    ensures
        no_esc(ansi_fold(s).out),
    decreases s.len(),
{
    if s.len() > 0 {
        lemma_ansi_out_no_esc(s.drop_last());
    }
}

proof fn lemma_ansi_plain(s: Seq<char>)
    requires
        no_esc(s),
    ensures
        ansi_fold(s) == (AnsiState { mode: AnsiMode::Text, out: s }),
    decreases s.len(),
{
    if s.len() > 0 {
        assert(s.last() == s[s.len() - 1]);
        assert forall|i: int| 0 <= i < s.drop_last().len() implies #[trigger] s.drop_last()[i]
            != '\u{1b}' by {
            assert(s.drop_last()[i] == s[i]);
        }
        lemma_ansi_plain(s.drop_last());
        assert(s.drop_last().push(s.last()) =~= s);
    } else {
        assert(s =~= Seq::<char>::empty());
    }
}

/// Stripping leaves no escape character behind, so stripping twice is
/// stripping once.
pub proof fn law_strip_ansi_idempotent(s: Seq<char>)
    ensures
        no_esc(spec_strip_ansi(s)),
        spec_strip_ansi(spec_strip_ansi(s)) == spec_strip_ansi(s),
{
    lemma_ansi_out_no_esc(s);
    lemma_ansi_plain(spec_strip_ansi(s));
}

/// Text that holds no control character (but line breaks) and no frame
/// decoration.
pub open spec fn log_clean(s: Seq<char>) -> bool {
    forall|i: int|
        0 <= i < s.len() ==> #[trigger] s[i] == '\n' || (!is_control(s[i]) && !is_decor(s[i]))
}

proof fn lemma_clean_fold_clean(s: Seq<char>)
    ensures
        forall|i: int|
            0 <= i < clean_fold(s).out.len() ==> !is_control(#[trigger] clean_fold(s).out[i])
                && !is_decor(clean_fold(s).out[i]),
    decreases s.len(),
{
    if s.len() > 0 {
        lemma_clean_fold_clean(s.drop_last());
        let p = clean_fold(s.drop_last());
        let o = clean_fold(s).out;
        assert forall|i: int| 0 <= i < o.len() implies !is_control(#[trigger] o[i]) && !is_decor(
            o[i],
        ) by {
            if i < p.out.len() {
                assert(o[i] == p.out[i]);
            }
        }
    }
}

proof fn lemma_sanitize_fold_clean(ls: Seq<Seq<char>>)
    ensures
        log_clean(sanitize_fold(ls)),
    decreases ls.len(),
{
    if ls.len() > 0 {
        lemma_sanitize_fold_clean(ls.drop_last());
        let c = clean_fold(final_frame(ls.last())).out;
        lemma_clean_fold_clean(final_frame(ls.last()));
        crate::text::lemma_trim_end_prefix(c);
        let t = trim_end(c);
        assert forall|i: int| 0 <= i < t.len() implies !is_control(#[trigger] t[i]) && !is_decor(
            t[i],
        ) by {
            assert(t[i] == c[i]);
        }
    }
}

/// The log shows no control character but line breaks, and no frame
/// decoration.
pub proof fn law_sanitized_is_clean(s: Seq<char>)
    ensures
        log_clean(spec_sanitize(s)),
{
    lemma_sanitize_fold_clean(split_char(spec_strip_ansi(s), '\n'));
}

/// A log entry never holds more than `MAX_OUTPUT_CHARS` characters and the
/// note that it was cut.
pub proof fn law_truncated_size(s: Seq<char>)
    ensures
        spec_truncate_output(s).len() <= MAX_OUTPUT_CHARS + "\n… (ответ усечён)"@.len(),
{
}

} // verus!
