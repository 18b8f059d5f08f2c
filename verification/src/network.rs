//! Network git commands (fetch, pull, push, clone): their arguments, the
//! progress lines shown while they run, the timeout budget that pauses
//! while the user answers a credential prompt, and their result.
use vstd::prelude::*;
use crate::askpass::strip_line_end;
use crate::git::error::{
    classify_git_error, classify_spec, error_message, lowercase_of,
};
use crate::git::hunk::{
    arg, strs,
};
use crate::text::{
    chars_of, dec, push_dec, push_str, slice_vec, split_char, split_char_exec, string_of_all, trim,
    trim_exec,
};

verus! {

/// The timeout when none is set (or zero).
pub const DEFAULT_NETWORK_TIMEOUT_SECS: u64 = 10;

/// The longest timeout accepted.
pub const MAX_NETWORK_TIMEOUT_SECS: u64 = 600;

/// How often the running command is looked at, in milliseconds.
pub const POLL_MS: u64 = 150;

pub open spec fn spec_effective_timeout(t: Option<u64>) -> u64 {
    match t {
        Some(s) => if s == 0 {
            DEFAULT_NETWORK_TIMEOUT_SECS
        } else if s > MAX_NETWORK_TIMEOUT_SECS {
            MAX_NETWORK_TIMEOUT_SECS
        } else {
            s
        },
        None => DEFAULT_NETWORK_TIMEOUT_SECS,
    }
}

/// The timeout in seconds: none or zero gives the default, more than the
/// maximum gives the maximum.
pub fn effective_timeout_secs(timeout_secs: Option<u64>) -> (r: u64)
    ensures
        r == spec_effective_timeout(timeout_secs),
        1 <= r <= MAX_NETWORK_TIMEOUT_SECS,
{
    match timeout_secs {
        Some(s) => if s == 0 {
            DEFAULT_NETWORK_TIMEOUT_SECS
        } else if s > MAX_NETWORK_TIMEOUT_SECS {
            MAX_NETWORK_TIMEOUT_SECS
        } else {
            s
        },
        None => DEFAULT_NETWORK_TIMEOUT_SECS,
    }
}

/// `--progress` goes right after the subcommand, so that git writes its
/// progress into the pipe.
pub open spec fn spec_network_args(args: Seq<Seq<char>>) -> Seq<Seq<char>> {
    if args.len() == 0 {
        args
    } else {
        args.insert(1, "--progress"@)
    }
}

pub fn network_args(args: &Vec<String>) -> (r: Vec<String>)
    ensures
        strs(r@) == spec_network_args(strs(args@)),
{
    let mut r: Vec<String> = Vec::new();
    let mut i: usize = 0;
    while i < args.len()
        invariant
            i <= args@.len(),
            strs(r@) == strs(args@).take(i as int),
        decreases args@.len() - i,
    {
        let c = args[i].clone();
        assert(c@ == args@[i as int]@);
        let ghost prev = r@;
        r.push(c);
        assert(strs(r@) =~= strs(prev).push(args@[i as int]@));
        assert(strs(args@).take(i + 1) =~= strs(args@).take(i as int).push(args@[i as int]@));
        i = i + 1;
    }
    assert(strs(args@).take(i as int) =~= strs(args@));
    if r.len() > 0 {
        let ghost prev = strs(r@);
        r.insert(1, arg("--progress"));
        assert(strs(r@) =~= prev.insert(1, "--progress"@));
    }
    r
}

/// The last segment of a redrawn line (`\r` inside) that is not blank,
/// trimmed; empty when every segment is blank.
pub open spec fn last_nonblank(segs: Seq<Seq<char>>) -> Seq<char>
    decreases segs.len(),
{
    if segs.len() == 0 {
        Seq::empty()
    } else if trim(segs.last()).len() > 0 {
        trim(segs.last())
    } else {
        last_nonblank(segs.drop_last())
    }
}

/// What a line of git's progress output shows: its last non-blank frame.
pub open spec fn spec_progress_line(line: Seq<char>) -> Seq<char> {
    last_nonblank(split_char(strip_line_end(line), '\r'))
}

fn line_end_stripped(line: &[char]) -> (r: Vec<char>)
    ensures
        r@ == strip_line_end(line@),
{
    let mut e = line.len();
    assert(line@.take(e as int) =~= line@);
    while e > 0 && (line[e - 1] == '\r' || line[e - 1] == '\n')
        invariant
            e <= line@.len(),
            strip_line_end(line@) == strip_line_end(line@.take(e as int)),
        decreases e,
    {
        assert(line@.take(e as int).drop_last() =~= line@.take(e - 1));
        e = e - 1;
    }
    let t = slice_vec(line, 0, e);
    assert(t@ =~= line@.take(e as int));
    t
}

/// The progress text of one line of git's stderr; `None` when it is blank.
pub fn progress_line(line: &str) -> (r: Option<String>)
    ensures
        spec_progress_line(line@).len() == 0 ==> r is None,
        spec_progress_line(line@).len() > 0 ==> (r matches Some(s) && s@ == spec_progress_line(
            line@,
        )),
{
    let v = chars_of(line);
    let stripped = line_end_stripped(v.as_slice());
    let segs = split_char_exec(stripped.as_slice(), '\r');
    let ghost sv = segs@.map_values(|s: Vec<char>| s@);
    assert(sv =~= split_char(strip_line_end(line@), '\r'));
    let mut k = segs.len();
    assert(sv.take(k as int) =~= sv);
    while k > 0
        invariant
            k <= segs@.len(),
            sv == segs@.map_values(|s: Vec<char>| s@),
            sv == split_char(strip_line_end(line@), '\r'),
            last_nonblank(sv) == last_nonblank(sv.take(k as int)),
        decreases k,
    {
        assert(sv.take(k as int).drop_last() =~= sv.take(k - 1));
        assert(sv.take(k as int).last() == segs@[k - 1]@);
        let t = trim_exec(segs[k - 1].as_slice());
        if t.len() > 0 {
            return Some(string_of_all(t.as_slice()));
        }
        k = k - 1;
    }
    None
}

/// The text gathered from git's stderr: every non-blank progress line.
pub struct ProgressLog {
    pub collected: String,
}

impl ProgressLog {
    pub fn new() -> (p: ProgressLog)
        ensures
            p.collected@ == Seq::<char>::empty(),
    {
        ProgressLog { collected: String::new() }
    }

    /// Takes one stderr line: the progress to show, if any, which is also
    /// kept (with a newline) for the error message.
    pub fn feed(&mut self, line: &str) -> (r: Option<String>)
        ensures
            spec_progress_line(line@).len() == 0 ==> (r is None && final(self).collected@
                == old(self).collected@),
            spec_progress_line(line@).len() > 0 ==> (r matches Some(s) && s@ == spec_progress_line(
                line@,
            ) && final(self).collected@ == old(self).collected@ + s@ + seq!['\n']),
    {
        match progress_line(line) {
            Some(s) => {
                let mut v = chars_of(self.collected.as_str());
                push_str(&mut v, s.as_str());
                v.push('\n');
                self.collected = string_of_all(v.as_slice());
                Some(s)
            },
            None => None,
        }
    }
}

/// The time left for a network command; it is spent only while no
/// credential prompt is open.
pub struct TimeoutBudget {
    pub remaining_ms: u64,
}

impl TimeoutBudget {
    pub fn new(timeout_secs: Option<u64>) -> (b: TimeoutBudget)
        ensures
            b.remaining_ms == spec_effective_timeout(timeout_secs) * 1000,
    {
        let s = effective_timeout_secs(timeout_secs);
        TimeoutBudget { remaining_ms: s * 1000 }
    }

    /// One poll of the running command: `true` when the budget is used up
    /// (the command is then killed). While a prompt is open nothing is spent.
    pub fn tick(&mut self, prompting: bool) -> (expired: bool)
        ensures
            prompting ==> !expired && final(self).remaining_ms == old(self).remaining_ms,
            !prompting && old(self).remaining_ms <= POLL_MS ==> expired && final(self).remaining_ms
                == old(self).remaining_ms,
            !prompting && old(self).remaining_ms > POLL_MS ==> !expired && final(self).remaining_ms
                == old(self).remaining_ms - POLL_MS,
    {
        if prompting {
            false
        } else if self.remaining_ms <= POLL_MS {
            true
        } else {
            self.remaining_ms = self.remaining_ms - POLL_MS;
            false
        }
    }
}

/// `Network timeout: <label> превысил <secs> сек`.
pub fn timeout_message(label: &str, secs: u64) -> (r: String)
    ensures
        r@ == "Network timeout: "@ + label@ + " превысил "@ + dec(secs as nat) + " сек"@,
{
    let mut v = chars_of("Network timeout: ");
    push_str(&mut v, label);
    push_str(&mut v, " превысил ");
    push_dec(&mut v, secs);
    push_str(&mut v, " сек");
    string_of_all(v.as_slice())
}

/// The result of a finished network command: its stdout, or the message of
/// the error its collected stderr is classified as.
pub fn network_result(success: bool, stdout: String, stderr_text: &str) -> (r: Result<String, String>)
    ensures
        success ==> (r matches Ok(o) && o@ == stdout@),
        !success ==> (r matches Err(m) && m@ == error_message(
            classify_spec(stderr_text@, lowercase_of(stderr_text@)),
        )),
{
    if success {
        Ok(stdout)
    } else {
        Err(classify_git_error(stderr_text).message())
    }
}

/// The variables that point git and ssh at the askpass bridge (besides the
/// helper program itself) and keep git off the terminal.
pub open spec fn spec_askpass_env(addr: Seq<char>, nonce: Seq<char>) -> Seq<(Seq<char>, Seq<char>)> {
    seq![
        ("SSH_ASKPASS_REQUIRE"@, "force"@),
        ("GITSTREAM_ASKPASS_PIPE"@, addr),
        ("GITSTREAM_ASKPASS_NONCE"@, nonce),
    ]
}

pub fn askpass_env(addr: &str, nonce: &str) -> (r: Vec<(String, String)>)
    ensures
        r@.map_values(|p: (String, String)| (p.0@, p.1@)) == spec_askpass_env(addr@, nonce@),
{
    let r = vec![
        (arg("SSH_ASKPASS_REQUIRE"), arg("force")),
        (arg("GITSTREAM_ASKPASS_PIPE"), arg(addr)),
        (arg("GITSTREAM_ASKPASS_NONCE"), arg(nonce)),
    ];
    assert(r@.map_values(|p: (String, String)| (p.0@, p.1@)) =~= spec_askpass_env(addr@, nonce@));
    r
}

} // verus!
