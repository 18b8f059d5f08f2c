//! The askpass bridge: when git needs a user name, password or passphrase
//! it runs this program as its askpass helper; the helper asks the running
//! application over a local connection guarded by a nonce, and the user
//! answers in a dialog.
//!
//! Here stand the decisions of that exchange: what kind of prompt git sent,
//! who may ask, which answer goes to which waiting prompt, and what the
//! helper prints.
use vstd::prelude::*;
use crate::git::error::{
    lowercase_of, to_lowercase,
};
use crate::text::{
    chars_eq, chars_of, contains, contains_exec, find, find_exec, lemma_find_bounds, push_str,
    slice_vec, starts_with, starts_with_exec, string_of_all, trim, trim_exec,
};

verus! {

/// The kind of field a prompt asks for.
#[derive(Clone, Copy, Debug, PartialEq, Eq, Structural)]
pub enum PromptKind {
    Username,
    Password,
    Passphrase,
    Confirm,
    Generic,
}

pub open spec fn kind_name(k: PromptKind) -> Seq<char> {
    match k {
        PromptKind::Username => "username"@,
        PromptKind::Password => "password"@,
        PromptKind::Passphrase => "passphrase"@,
        PromptKind::Confirm => "confirm"@,
        PromptKind::Generic => "generic"@,
    }
}

impl PromptKind {
    /// The name the dialog is chosen by.
    pub fn as_str(self) -> (r: &'static str)
        ensures
            r@ == kind_name(self),
    {
        match self {
            PromptKind::Username => "username",
            PromptKind::Password => "password",
            PromptKind::Passphrase => "passphrase",
            PromptKind::Confirm => "confirm",
            PromptKind::Generic => "generic",
        }
    }
}

/// A classified prompt: its kind, the host of a credential prompt, the key
/// of a passphrase prompt.
#[derive(Clone, Debug)]
pub struct PromptInfo {
    pub kind: PromptKind,
    pub host: Option<String>,
    pub key_path: Option<String>,
}

pub struct PromptInfoV {
    pub kind: PromptKind,
    pub host: Option<Seq<char>>,
    pub key_path: Option<Seq<char>>,
}

pub open spec fn ov(o: Option<String>) -> Option<Seq<char>> {
    match o {
        Some(s) => Some(s@),
        None => None,
    }
}

impl View for PromptInfo {
    type V = PromptInfoV;

    open spec fn view(&self) -> PromptInfoV {
        PromptInfoV { kind: self.kind, host: ov(self.host), key_path: ov(self.key_path) }
    }
}

/// The text between the first two single quotes.
pub open spec fn spec_extract_quoted(s: Seq<char>) -> Option<Seq<char>> {
    match find(s, seq!['\'']) {
        Some(i) => {
            let rest = s.skip(i + 1);
            match find(rest, seq!['\'']) {
                Some(j) => Some(rest.take(j)),
                None => None,
            }
        },
        None => None,
    }
}

/// The classification of `prompt`, `lower` being its lower-cased text.
pub open spec fn prompt_info(prompt: Seq<char>, lower: Seq<char>) -> PromptInfoV {
    if contains(lower, "passphrase for key"@) || contains(lower, "enter passphrase"@) {
        PromptInfoV {
            kind: PromptKind::Passphrase,
            host: None,
            key_path: spec_extract_quoted(prompt),
        }
    } else if contains(lower, "username for"@) {
        PromptInfoV { kind: PromptKind::Username, host: spec_extract_quoted(prompt), key_path: None }
    } else if contains(lower, "password for"@) || starts_with(lower, "password"@) {
        PromptInfoV { kind: PromptKind::Password, host: spec_extract_quoted(prompt), key_path: None }
    } else if contains(lower, "(yes/no"@) || contains(lower, "yes/no/[fingerprint]"@) || contains(
        lower,
        "are you sure you want to continue connecting"@,
    ) {
        PromptInfoV { kind: PromptKind::Confirm, host: None, key_path: None }
    } else {
        PromptInfoV { kind: PromptKind::Generic, host: None, key_path: None }
    }
}

/// The text in single quotes: `Username for 'https://host': ` gives the host.
pub fn extract_quoted(s: &str) -> (r: Option<String>)
    ensures
        ov(r) == spec_extract_quoted(s@),
{
    let v = chars_of(s);
    let q = vec!['\''];
    assert(q@ =~= seq!['\'']);
    match find_exec(v.as_slice(), q.as_slice()) {
        Some(i) => {
            proof {
                lemma_find_bounds(v@, q@);
                assert(q@.len() == 1);
                assert(i + 1 <= v@.len());
            }
            let n = v.len();
            let start = i + 1;
            let rest = slice_vec(v.as_slice(), start, n);
            assert(rest@ =~= v@.skip(i + 1));
            match find_exec(rest.as_slice(), q.as_slice()) {
                Some(j) => {
                    proof {
                        lemma_find_bounds(rest@, q@);
                    }
                    let t = slice_vec(rest.as_slice(), 0, j);
                    assert(t@ =~= rest@.take(j as int));
                    Some(string_of_all(t.as_slice()))
                },
                None => None,
            }
        },
        None => None,
    }
}

fn has(lower: &[char], pat: &str) -> (b: bool)
    ensures
        b == contains(lower@, pat@),
{
    let p = chars_of(pat);
    contains_exec(lower, p.as_slice())
}

/// Classifies `prompt` given its lower-cased text `lower`.
pub fn parse_prompt_lowered(prompt: &str, lower: &str) -> (r: PromptInfo)
    ensures
        r@ == prompt_info(prompt@, lower@),
{
    let l = chars_of(lower);
    let l = l.as_slice();
    if has(l, "passphrase for key") || has(l, "enter passphrase") {
        PromptInfo { kind: PromptKind::Passphrase, host: None, key_path: extract_quoted(prompt) }
    } else if has(l, "username for") {
        PromptInfo { kind: PromptKind::Username, host: extract_quoted(prompt), key_path: None }
    } else if has(l, "password for") || {
        let p = chars_of("password");
        starts_with_exec(l, p.as_slice())
    } {
        PromptInfo { kind: PromptKind::Password, host: extract_quoted(prompt), key_path: None }
    } else if has(l, "(yes/no") || has(l, "yes/no/[fingerprint]") || has(
        l,
        "are you sure you want to continue connecting",
    ) {
        PromptInfo { kind: PromptKind::Confirm, host: None, key_path: None }
    } else {
        PromptInfo { kind: PromptKind::Generic, host: None, key_path: None }
    }
}

/// Classifies a git or ssh prompt into the kind of field to ask for; the
/// match is on the lower-cased text (`str::to_lowercase`).
pub fn parse_prompt(prompt: &str) -> (r: PromptInfo)
    ensures
        r@ == prompt_info(prompt@, lowercase_of(prompt@)),
{
    let lower = to_lowercase(prompt);
    parse_prompt_lowered(prompt, lower.as_str())
}

// ---------------------------------------------------------------------------
// Waiting prompts
// ---------------------------------------------------------------------------

/// The bridge's state: where the helper connects, the nonce it must send,
/// and the prompts that wait for an answer.
pub struct AskpassState {
    /// The address the helper connects to.
    pub addr: String,
    /// The one-time secret that keeps other local processes out.
    pub nonce: String,
    /// Prompts opened and not yet closed; the network timeout pauses while
    /// this is above zero.
    pub active: usize,
    /// The id the next prompt gets.
    pub next_id: u64,
    /// The ids of the prompts that wait for an answer.
    pub pending: Vec<u64>,
}

impl AskpassState {
    /// The ids that wait for an answer.
    pub open spec fn pending_ids(&self) -> Seq<u64> {
        self.pending@
    }

    /// The id the next prompt gets.
    pub open spec fn next(&self) -> u64 {
        self.next_id
    }

    /// Every waiting id is below the next id, and none waits twice.
    pub open spec fn wf(&self) -> bool {
        &&& forall|i: int| 0 <= i < self.pending@.len() ==> #[trigger] self.pending@[i] < self.next_id
        &&& forall|i: int, j: int|
            0 <= i < j < self.pending@.len() ==> #[trigger] self.pending@[i] != #[trigger] self.pending@[j]
        &&& self.next_id >= 1
    }

    pub fn new(addr: String, nonce: String) -> (s: AskpassState)
        ensures
            s.wf(),
            s.addr@ == addr@,
            s.nonce@ == nonce@,
            s.active == 0,
            s.pending_ids().len() == 0,
            s.next() == 1,
    {
        AskpassState { addr, nonce, active: 0, next_id: 1, pending: Vec::new() }
    }

    /// Opens a prompt: it gets the next id and waits for an answer.
    pub fn open_prompt(&mut self) -> (id: u64)
        requires
            old(self).wf(),
            old(self).next() < u64::MAX,
            old(self).active < usize::MAX,
        ensures
            final(self).wf(),
            id == old(self).next(),
            final(self).next() == id + 1,
            final(self).pending_ids() == old(self).pending_ids().push(id),
            !old(self).pending_ids().contains(id),
            final(self).active == old(self).active + 1,
            final(self).addr == old(self).addr,
            final(self).nonce == old(self).nonce,
    {
        let id = self.next_id;
        self.next_id = self.next_id + 1;
        self.pending.push(id);
        self.active = self.active + 1;
        proof {
            if old(self).pending@.contains(id) {
                let k = choose|k: int| 0 <= k < old(self).pending@.len() && old(self).pending@[k] == id;
                assert(old(self).pending@[k] < old(self).next_id);
            }
        }
        id
    }

    /// The answer of the user for prompt `id` (`None`: cancelled). It is
    /// handed out to deliver when the prompt still waits, once; an answer to
    /// an id that does not wait is dropped.
    pub fn respond(&mut self, id: u64, value: Option<String>) -> (r: Option<Option<String>>)
        requires
            old(self).wf(),
        ensures
            final(self).wf(),
            old(self).pending_ids().contains(id) ==> r == Some(value) && exists|k: int|
                0 <= k < old(self).pending_ids().len() && old(self).pending_ids()[k] == id
                    && final(self).pending_ids() == old(self).pending_ids().remove(k),
            !old(self).pending_ids().contains(id) ==> (r is None && final(self).pending_ids()
                == old(self).pending_ids()),
            !final(self).pending_ids().contains(id),
            final(self).next() == old(self).next(),
            final(self).active == old(self).active,
            final(self).addr == old(self).addr,
            final(self).nonce == old(self).nonce,
    {
        match self.take_pending(id) {
            true => Some(value),
            false => None,
        }
    }

    /// Closes prompt `id` once its answer came (or its waiter gave up).
    pub fn close_prompt(&mut self, id: u64)
        requires
            old(self).wf(),
            old(self).active > 0,
        ensures
            final(self).wf(),
            final(self).active == old(self).active - 1,
            old(self).pending_ids().contains(id) ==> exists|k: int|
                0 <= k < old(self).pending_ids().len() && old(self).pending_ids()[k] == id
                    && final(self).pending_ids() == old(self).pending_ids().remove(k),
            !old(self).pending_ids().contains(id) ==> final(self).pending_ids() == old(
                self,
            ).pending_ids(),
            !final(self).pending_ids().contains(id),
            final(self).next() == old(self).next(),
            final(self).addr == old(self).addr,
            final(self).nonce == old(self).nonce,
    {
        self.take_pending(id);
        self.active = self.active - 1;
    }

    fn take_pending(&mut self, id: u64) -> (found: bool)
        requires
            old(self).wf(),
        ensures
            final(self).wf(),
            found == old(self).pending_ids().contains(id),
            found ==> exists|k: int|
                0 <= k < old(self).pending_ids().len() && old(self).pending_ids()[k] == id
                    && final(self).pending_ids() == old(self).pending_ids().remove(k),
            !found ==> final(self).pending_ids() == old(self).pending_ids(),
            !final(self).pending_ids().contains(id),
            final(self).next() == old(self).next(),
            final(self).active == old(self).active,
            final(self).addr == old(self).addr,
            final(self).nonce == old(self).nonce,
    {
        let mut i: usize = 0;
        while i < self.pending.len()
            invariant
                i <= self.pending@.len(),
                self.pending@ == old(self).pending@,
                old(self).wf(),
                self.next_id == old(self).next_id,
                self.active == old(self).active,
                self.addr == old(self).addr,
                self.nonce == old(self).nonce,
                forall|k: int| 0 <= k < i ==> self.pending@[k] != id,
            decreases self.pending@.len() - i,
        {
            if self.pending[i] == id {
                let ghost p = self.pending@;
                self.pending.remove(i);
                proof {
                    let q = self.pending@;
                    assert(q =~= p.remove(i as int));
                    assert forall|k: int| 0 <= k < q.len() implies #[trigger] q[k] == (if k < i {
                        p[k]
                    } else {
                        p[k + 1]
                    }) by {}
                    assert(!q.contains(id)) by {
                        if q.contains(id) {
                            let k = choose|k: int| 0 <= k < q.len() && q[k] == id;
                            if k < i {
                                assert(p[k] == id);
                            } else {
                                assert(p[k + 1] == id);
                                assert(p[i as int] == id);
                            }
                        }
                    }
                    assert forall|a: int, b: int| 0 <= a < b < q.len() implies #[trigger] q[a]
                        != #[trigger] q[b] by {
                        let a2 = if a < i { a } else { a + 1 };
                        let b2 = if b < i { b } else { b + 1 };
                        assert(q[a] == p[a2] && q[b] == p[b2]);
                    }
                    assert forall|a: int| 0 <= a < q.len() implies #[trigger] q[a] < self.next_id by {
                        let a2 = if a < i { a } else { a + 1 };
                        assert(q[a] == p[a2]);
                    }
                    assert(p.contains(id)) by {
                        assert(p[i as int] == id);
                    }
                }
                return true;
            }
            i = i + 1;
        }
        false
    }
}

/// The helper's first line must be the nonce (surrounding white space
/// aside); any other caller is answered `CANCEL`.
pub fn nonce_ok(line: &str, nonce: &str) -> (b: bool)
    ensures
        b == (trim(line@) == nonce@),
{
    let v = chars_of(line);
    let t = trim_exec(v.as_slice());
    let n = chars_of(nonce);
    chars_eq(t.as_slice(), n.as_slice())
}

/// A line without its line ending (every trailing `\r` and `\n`).
pub open spec fn strip_line_end(s: Seq<char>) -> Seq<char>
    decreases s.len(),
{
    if s.len() > 0 && (s.last() == '\r' || s.last() == '\n') {
        strip_line_end(s.drop_last())
    } else {
        s
    }
}

pub fn line_text(line: &str) -> (r: String)
    ensures
        r@ == strip_line_end(line@),
{
    let v = chars_of(line);
    let mut e = v.len();
    assert(v@.take(e as int) =~= v@);
    while e > 0 && (v[e - 1] == '\r' || v[e - 1] == '\n')
        invariant
            e <= v@.len(),
            strip_line_end(line@) == strip_line_end(v@.take(e as int)),
            v@ == line@,
        decreases e,
    {
        assert(v@.take(e as int).drop_last() =~= v@.take(e - 1));
        e = e - 1;
    }
    let t = slice_vec(v.as_slice(), 0, e);
    assert(t@ =~= v@.take(e as int));
    string_of_all(t.as_slice())
}

/// What the bridge writes back to the helper: `OK` and the value, or
/// `CANCEL`.
pub fn reply_lines(reply: Option<String>) -> (r: String)
    ensures
        reply matches Some(v) ==> r@ == "OK\n"@ + v@ + "\n"@,
        reply is None ==> r@ == "CANCEL\n"@,
{
    match reply {
        Some(v) => {
            let mut o = chars_of("OK\n");
            push_str(&mut o, v.as_str());
            push_str(&mut o, "\n");
            string_of_all(o.as_slice())
        },
        None => "CANCEL\n".to_owned(),
    }
}

/// The helper's reading of the bridge's answer: the value when the status
/// line says `OK`, else nothing (git then stops).
pub fn parent_answer(status: &str, value: &str) -> (r: Option<String>)
    ensures
        trim(status@) == "OK"@ ==> (r matches Some(v) && v@ == strip_line_end(value@)),
        trim(status@) != "OK"@ ==> r is None,
{
    let s = chars_of(status);
    let t = trim_exec(s.as_slice());
    let ok = chars_of("OK");
    if chars_eq(t.as_slice(), ok.as_slice()) {
        Some(line_text(value))
    } else {
        None
    }
}

// ---------------------------------------------------------------------------
// The nonce
// ---------------------------------------------------------------------------

/// A lower-case hexadecimal digit.
pub open spec fn hex_digit(n: u8) -> char {
    if n < 10 {
        ((n + 48) as u8) as char
    } else {
        ((n + 87) as u8) as char
    }
}

/// Two lower-case hexadecimal digits per byte (`{:02x}`).
pub open spec fn hex_of(b: Seq<u8>) -> Seq<char>
    decreases b.len(),
{
    if b.len() == 0 {
        Seq::empty()
    } else {
        hex_of(b.drop_last()) + seq![hex_digit(b.last() / 16), hex_digit(b.last() % 16)]
    }
}

pub fn hex_lower(b: &[u8]) -> (r: String)
    ensures
        r@ == hex_of(b@),
{
    let mut out: Vec<char> = Vec::new();
    let mut i: usize = 0;
    assert(b@.take(0) =~= Seq::<u8>::empty());
    while i < b.len()
        invariant
            i <= b@.len(),
            out@ == hex_of(b@.take(i as int)),
        decreases b@.len() - i,
    {
        assert(b@.take(i + 1).drop_last() =~= b@.take(i as int));
        let x = b[i];
        let hi = x / 16;
        let lo = x % 16;
        let ch = if hi < 10 {
            (hi + 48) as char
        } else {
            (hi + 87) as char
        };
        let cl = if lo < 10 {
            (lo + 48) as char
        } else {
            (lo + 87) as char
        };
        out.push(ch);
        out.push(cl);
        assert(out@ =~= hex_of(b@.take(i as int)) + seq![hex_digit(x / 16), hex_digit(x % 16)]);
        i = i + 1;
    }
    assert(b@.take(i as int) =~= b@);
    string_of_all(out.as_slice())
}

#[verifier::external_type_specification]
#[verifier::external_body]
pub struct ExRandomError(getrandom::Error);

/// `getrandom::getrandom`: fills the buffer from the system's random source
/// or fails; nothing is stated of the bytes, only that the buffer keeps its
/// length, and that an empty buffer is filled at once without asking the
/// source (`Ok`), as its source shows.
#[verifier::external_body]
fn fill_random(buf: &mut Vec<u8>) -> (r: Result<(), getrandom::Error>)
    ensures
        final(buf)@.len() == old(buf)@.len(),
        old(buf)@.len() == 0 ==> r is Ok,
{
    getrandom::getrandom(buf.as_mut_slice())
}

/// The nonce made of what the random source gave: the bytes in hexadecimal,
/// or `None` when the source failed.
pub fn hex_nonce(filled: Option<Vec<u8>>) -> (r: Option<String>)
    ensures
        filled matches Some(b) ==> (r matches Some(s) && s@ == hex_of(b@)),
        filled is None ==> r is None,
{
    match filled {
        Some(b) => Some(hex_lower(b.as_slice())),
        None => None,
    }
}

/// A nonce of `bytes` random bytes in hexadecimal; `None` when the system
/// has no random source. No bytes need no source: the empty nonce.
pub fn random_hex(bytes: usize) -> (r: Option<String>)
    ensures
        r matches Some(s) ==> exists|b: Seq<u8>| b.len() == bytes && s@ == hex_of(b),
        bytes == 0 ==> (r matches Some(s) && s@.len() == 0),
{
    let mut buf: Vec<u8> = vec![0u8; bytes];
    let filled = match fill_random(&mut buf) {
        Ok(()) => Some(buf),
        Err(_) => None,
    };
    let ghost fb = filled;
    let r = hex_nonce(filled);
    proof {
        if let Some(b) = fb {
            assert(b@.len() == bytes);
            if bytes == 0 {
                assert(b@ =~= Seq::<u8>::empty());
            }
        }
    }
    r
}

/// What the dialog is asked to show for one prompt.
pub struct AskpassRequest {
    pub id: u64,
    pub prompt: String,
    pub kind: String,
    pub host: Option<String>,
    pub key_path: Option<String>,
}

/// The request for prompt `id`: the prompt's text, its kind by name, and
/// the host or key it names.
pub fn askpass_request(id: u64, prompt: String) -> (r: AskpassRequest)
    ensures
        r.id == id,
        r.prompt@ == prompt@,
        r.kind@ == kind_name(prompt_info(prompt@, lowercase_of(prompt@)).kind),
        ov(r.host) == prompt_info(prompt@, lowercase_of(prompt@)).host,
        ov(r.key_path) == prompt_info(prompt@, lowercase_of(prompt@)).key_path,
{
    let info = parse_prompt(prompt.as_str());
    let kind = info.kind.as_str().to_owned();
    AskpassRequest { id, prompt, kind, host: info.host, key_path: info.key_path }
}

} // verus!
