//! The diffs shown in the changes panel: of a working-tree file, of a
//! commit, of one file of a commit; binary files get their size and, for
//! images, both versions in base64.
//!
//! Each is a value that says what to fetch next (a git command, a file
//! size or file content from disk); the caller fetches it and hands it back.
use vstd::prelude::*;
use base64::Engine;
use super::diff::{
    diff_fold, multi_overflows, parse_diff_multi, parse_diff_multi_checked, parse_diff_single,
    parse_diff_single_checked, spec_diff_multi, spec_diff_single,
};
use super::error::{
    GitError, GitErrorV,
};
use super::flow::rv;
use super::hunk::{
    arg, strs,
};
use super::types::{
    FileDiff, FileDiffV,
};
use crate::text::{
    after_last_char, after_last_char_exec, ascii_lower, ascii_lower_exec, chars_of, dec, eq_lit,
    lines, parse_unsigned, parse_unsigned_exec, push_dec, push_str, string_of_all, trim, trim_exec,
};

verus! {

/// Raster image extensions shown as pictures.
pub open spec fn is_image_path(path: Seq<char>) -> bool {
    let ext = ascii_lower(after_last_char(path, '.'));
    ||| ext == "png"@
    ||| ext == "jpg"@
    ||| ext == "jpeg"@
    ||| ext == "gif"@
    ||| ext == "webp"@
    ||| ext == "bmp"@
    ||| ext == "ico"@
    ||| ext == "avif"@
}

pub fn is_image_path_exec(path: &str) -> (b: bool)
    ensures
        b == is_image_path(path@),
{
    let v = chars_of(path);
    let e = after_last_char_exec(v.as_slice(), '.');
    let ext = ascii_lower_exec(e.as_slice());
    let x = ext.as_slice();
    eq_lit(x, "png") || eq_lit(x, "jpg") || eq_lit(x, "jpeg") || eq_lit(x, "gif") || eq_lit(x, "webp")
        || eq_lit(x, "bmp") || eq_lit(x, "ico") || eq_lit(x, "avif")
}

/// What base64 (standard alphabet, padded) makes of the bytes.
pub uninterp spec fn base64_of(b: Seq<u8>) -> Seq<char>;

/// The output length of the encoder fits in memory.
pub open spec fn b64_fits(n: nat) -> bool {
    (n / 3) * 4 + 4 <= usize::MAX
}

/// `base64::engine::general_purpose::STANDARD.encode`: the result is named
/// `base64_of` of the bytes; the encoding itself is not restated. The
/// encoder panics when its output length overflows, hence the bound.
#[verifier::external_body]
fn base64_encode(b: &Vec<u8>) -> (r: String)
    requires
        b64_fits(b@.len()),
    ensures
        r@ == base64_of(b@),
{
    base64::engine::general_purpose::STANDARD.encode(b)
}

/// Where a version of a file comes from.
pub enum BlobSrc {
    /// The working tree.
    Disk,
    /// A git revision: `<rev>:<path>` (`""` is the index).
    Rev(String),
}

pub enum BlobSrcV {
    Disk,
    Rev(Seq<char>),
}

impl View for BlobSrc {
    type V = BlobSrcV;

    open spec fn view(&self) -> BlobSrcV {
        match self {
            BlobSrc::Disk => BlobSrcV::Disk,
            BlobSrc::Rev(r) => BlobSrcV::Rev(r@),
        }
    }
}

/// What to fetch next.
pub enum Fetch {
    /// Run git; hand back `Text` with its result.
    Git(Vec<String>),
    /// Run git and hand back `Text(Ok(stdout))` whatever its exit code
    /// (`diff --no-index` exits 1 when the files differ).
    GitAnyStatus(Vec<String>),
    /// Run git; hand back `Bytes` with its raw stdout (`None` on failure).
    GitBytes(Vec<String>),
    /// The size of a working-tree file; hand back `Size`.
    DiskSize(String),
    /// The content of a working-tree file; hand back `Bytes`.
    DiskRead(String),
}

pub enum FetchV {
    Git(Seq<Seq<char>>),
    GitAnyStatus(Seq<Seq<char>>),
    GitBytes(Seq<Seq<char>>),
    DiskSize(Seq<char>),
    DiskRead(Seq<char>),
}

impl View for Fetch {
    type V = FetchV;

    open spec fn view(&self) -> FetchV {
        match self {
            Fetch::Git(a) => FetchV::Git(strs(a@)),
            Fetch::GitAnyStatus(a) => FetchV::GitAnyStatus(strs(a@)),
            Fetch::GitBytes(a) => FetchV::GitBytes(strs(a@)),
            Fetch::DiskSize(p) => FetchV::DiskSize(p@),
            Fetch::DiskRead(p) => FetchV::DiskRead(p@),
        }
    }
}

/// What was fetched.
pub enum Fetched {
    Text(Result<String, GitError>),
    Bytes(Option<Vec<u8>>),
    Size(Option<u64>),
}

pub enum FetchedV {
    Text(Result<Seq<char>, GitErrorV>),
    Bytes(Option<Seq<u8>>),
    Size(Option<u64>),
}

impl View for Fetched {
    type V = FetchedV;

    open spec fn view(&self) -> FetchedV {
        match self {
            Fetched::Text(r) => FetchedV::Text(rv(*r)),
            Fetched::Bytes(Some(b)) => FetchedV::Bytes(Some(b@)),
            Fetched::Bytes(None) => FetchedV::Bytes(None),
            Fetched::Size(s) => FetchedV::Size(*s),
        }
    }
}

/// Bytes handed back fit the encoder.
pub open spec fn fetched_ok(f: FetchedV) -> bool {
    f matches FetchedV::Bytes(Some(b)) ==> b64_fits(b.len())
}

/// The size of a version: `cat-file -s <rev>:<path>` or the file's size.
pub open spec fn size_fetch(src: BlobSrcV, path: Seq<char>) -> FetchV {
    match src {
        BlobSrcV::Disk => FetchV::DiskSize(path),
        BlobSrcV::Rev(rev) => FetchV::Git(seq!["cat-file"@, "-s"@, rev + ":"@ + path]),
    }
}

/// The content of a version: `show <rev>:<path>` or the file.
pub open spec fn read_fetch(src: BlobSrcV, path: Seq<char>) -> FetchV {
    match src {
        BlobSrcV::Disk => FetchV::DiskRead(path),
        BlobSrcV::Rev(rev) => FetchV::GitBytes(seq!["show"@, rev + ":"@ + path]),
    }
}

/// The size read from what was fetched for `src`: the number git printed,
/// or the disk's answer; nothing from anything else.
pub open spec fn size_from(src: BlobSrcV, f: FetchedV) -> Option<u64> {
    match (src, f) {
        (BlobSrcV::Disk, FetchedV::Size(s)) => s,
        (BlobSrcV::Rev(_), FetchedV::Text(Ok(out))) => match parse_unsigned(trim(out), u64::MAX as nat) {
            Some(v) => Some(v as u64),
            None => None,
        },
        _ => None,
    }
}

/// The image read from what was fetched: its bytes in base64.
pub open spec fn image_from(f: FetchedV) -> Option<Seq<char>> {
    match f {
        FetchedV::Bytes(Some(b)) => Some(base64_of(b)),
        _ => None,
    }
}

// ---------------------------------------------------------------------------
// Binary previews
// ---------------------------------------------------------------------------

#[derive(Clone, Copy, Debug, PartialEq, Eq, Structural)]
pub enum FillStage {
    NewSize,
    OldSize,
    NewImage,
    OldImage,
    Finished,
}

/// Completing the diff of a binary file with its size and, for an image,
/// both versions.
pub struct BinaryFill {
    pub diff: FileDiff,
    pub old: Option<BlobSrc>,
    pub new: BlobSrc,
    pub stage: FillStage,
}

pub open spec fn osrc(o: Option<BlobSrc>) -> Option<BlobSrcV> {
    match o {
        Some(s) => Some(s@),
        None => None,
    }
}

/// After the size: the new image when the file is an image, else done.
pub open spec fn after_size(d: FileDiffV, new: BlobSrcV) -> (FileDiffV, FillStage, Option<FetchV>) {
    if is_image_path(d.path) {
        (d, FillStage::NewImage, Some(read_fetch(new, d.path)))
    } else {
        (d, FillStage::Finished, None)
    }
}

/// One step: the diff so far, the next stage, and what to fetch (`None`:
/// the diff is complete). The size comes from the new version, else from
/// the old one; images from both.
pub open spec fn fill_next(d: FileDiffV, old: Option<BlobSrcV>, new: BlobSrcV, stage: FillStage, f: FetchedV) -> (
    FileDiffV,
    FillStage,
    Option<FetchV>,
) {
    match stage {
        FillStage::NewSize => match size_from(new, f) {
            Some(s) => after_size(FileDiffV { byte_size: Some(s), ..d }, new),
            None => match old {
                Some(o) => (d, FillStage::OldSize, Some(size_fetch(o, d.path))),
                None => after_size(FileDiffV { byte_size: None, ..d }, new),
            },
        },
        FillStage::OldSize => match old {
            Some(o) => after_size(FileDiffV { byte_size: size_from(o, f), ..d }, new),
            None => after_size(FileDiffV { byte_size: None, ..d }, new),
        },
        FillStage::NewImage => {
            let d2 = FileDiffV { new_image: image_from(f), ..d };
            match old {
                Some(o) => (d2, FillStage::OldImage, Some(read_fetch(o, d.path))),
                None => (d2, FillStage::Finished, None),
            }
        },
        FillStage::OldImage => (FileDiffV { old_image: image_from(f), ..d }, FillStage::Finished, None),
        FillStage::Finished => (d, FillStage::Finished, None),
    }
}

fn rev_path(rev: &str, path: &str) -> (r: String)
    ensures
        r@ == rev@ + ":"@ + path@,
{
    let mut v = chars_of(rev);
    push_str(&mut v, ":");
    push_str(&mut v, path);
    string_of_all(v.as_slice())
}

fn size_fetch_exec(src: &BlobSrc, path: &str) -> (f: Fetch)
    ensures
        f@ == size_fetch(src@, path@),
{
    match src {
        BlobSrc::Disk => Fetch::DiskSize(arg(path)),
        BlobSrc::Rev(rev) => {
            let a = vec![arg("cat-file"), arg("-s"), rev_path(rev.as_str(), path)];
            assert(strs(a@) =~= seq!["cat-file"@, "-s"@, rev@ + ":"@ + path@]);
            Fetch::Git(a)
        },
    }
}

fn read_fetch_exec(src: &BlobSrc, path: &str) -> (f: Fetch)
    ensures
        f@ == read_fetch(src@, path@),
{
    match src {
        BlobSrc::Disk => Fetch::DiskRead(arg(path)),
        BlobSrc::Rev(rev) => {
            let a = vec![arg("show"), rev_path(rev.as_str(), path)];
            assert(strs(a@) =~= seq!["show"@, rev@ + ":"@ + path@]);
            Fetch::GitBytes(a)
        },
    }
}

fn size_from_exec(src: &BlobSrc, f: Fetched) -> (r: Option<u64>)
    ensures
        r == size_from(src@, f@),
{
    match (src, f) {
        (BlobSrc::Disk, Fetched::Size(s)) => s,
        (BlobSrc::Rev(_), Fetched::Text(Ok(out))) => {
            let v = chars_of(out.as_str());
            let t = trim_exec(v.as_slice());
            parse_unsigned_exec(t.as_slice(), u64::MAX)
        },
        (BlobSrc::Disk, Fetched::Text(_)) => None,
        (BlobSrc::Disk, Fetched::Bytes(_)) => None,
        (BlobSrc::Rev(_), Fetched::Text(Err(_))) => None,
        (BlobSrc::Rev(_), Fetched::Bytes(_)) => None,
        (BlobSrc::Rev(_), Fetched::Size(_)) => None,
    }
}

fn image_from_exec(f: Fetched) -> (r: Option<String>)
    requires
        fetched_ok(f@),
    ensures
        (match r {
            Some(s) => Some(s@),
            None => None,
        }) == image_from(f@),
{
    match f {
        Fetched::Bytes(Some(b)) => Some(base64_encode(&b)),
        _ => None,
    }
}

/// Starts completing `diff` (with `old` and `new` the sources of its two
/// versions): `None` when the file is not binary and nothing is to fetch.
pub fn binary_fill(diff: FileDiff, old: Option<BlobSrc>, new: BlobSrc) -> (r: Result<
    (BinaryFill, Fetch),
    FileDiff,
>)
    ensures
        !diff@.binary ==> (r matches Err(d) && d@ == diff@),
        diff@.binary ==> (r matches Ok(p) && p.0.diff@ == diff@ && osrc(p.0.old) == osrc(old)
            && p.0.new@ == new@ && p.0.stage == FillStage::NewSize && p.1@ == size_fetch(
            new@,
            diff@.path,
        )),
{
    if !diff.binary {
        return Err(diff);
    }
    let f = size_fetch_exec(&new, diff.path.as_str());
    Ok((BinaryFill { diff, old, new, stage: FillStage::NewSize }, f))
}

impl BinaryFill {
    /// Takes what was fetched and says what to fetch next (`None`: the diff
    /// is complete).
    pub fn step(&mut self, f: Fetched) -> (r: Option<Fetch>)
        requires
            fetched_ok(f@),
        ensures
            osrc(final(self).old) == osrc(old(self).old),
            final(self).new@ == old(self).new@,
            (final(self).diff@, final(self).stage, match r {
                Some(x) => Some(x@),
                None => None,
            }) == fill_next(
                old(self).diff@,
                osrc(old(self).old),
                old(self).new@,
                old(self).stage,
                f@,
            ),
    {
        match self.stage {
            FillStage::NewSize => {
                match size_from_exec(&self.new, f) {
                    Some(s) => {
                        self.diff.byte_size = Some(s);
                        self.after_size()
                    },
                    None => match &self.old {
                        Some(o) => {
                            let x = size_fetch_exec(o, self.diff.path.as_str());
                            self.stage = FillStage::OldSize;
                            Some(x)
                        },
                        None => {
                            self.diff.byte_size = None;
                            self.after_size()
                        },
                    },
                }
            },
            FillStage::OldSize => {
                match &self.old {
                    Some(o) => {
                        self.diff.byte_size = size_from_exec(o, f);
                    },
                    None => {
                        self.diff.byte_size = None;
                    },
                }
                self.after_size()
            },
            FillStage::NewImage => {
                self.diff.new_image = image_from_exec(f);
                match &self.old {
                    Some(o) => {
                        let x = read_fetch_exec(o, self.diff.path.as_str());
                        self.stage = FillStage::OldImage;
                        Some(x)
                    },
                    None => {
                        self.stage = FillStage::Finished;
                        None
                    },
                }
            },
            FillStage::OldImage => {
                self.diff.old_image = image_from_exec(f);
                self.stage = FillStage::Finished;
                None
            },
            FillStage::Finished => None,
        }
    }

    fn after_size(&mut self) -> (r: Option<Fetch>)
        ensures
            final(self).diff == old(self).diff,
            osrc(final(self).old) == osrc(old(self).old),
            final(self).new@ == old(self).new@,
            (final(self).diff@, final(self).stage, match r {
                Some(x) => Some(x@),
                None => None,
            }) == after_size(old(self).diff@, old(self).new@),
    {
        if is_image_path_exec(self.diff.path.as_str()) {
            let x = read_fetch_exec(&self.new, self.diff.path.as_str());
            self.stage = FillStage::NewImage;
            Some(x)
        } else {
            self.stage = FillStage::Finished;
            None
        }
    }
}

// ---------------------------------------------------------------------------
// Diffs of a file, of a file in a commit, of a commit
// ---------------------------------------------------------------------------

pub open spec fn ctx_args(context: Option<u32>) -> Seq<Seq<char>> {
    match context {
        Some(n) => seq!["-U"@ + dec(n as nat)],
        None => Seq::empty(),
    }
}

/// `-c core.quotepath=false diff [--cached] [-U<n>] -- <file>`.
pub open spec fn file_diff_args(file: Seq<char>, staged: bool, context: Option<u32>) -> Seq<Seq<char>> {
    seq!["-c"@, "core.quotepath=false"@, "diff"@] + (if staged {
        seq!["--cached"@]
    } else {
        Seq::empty()
    }) + ctx_args(context) + seq!["--"@, file]
}

/// An untracked file against `/dev/null`: everything added.
pub open spec fn no_index_args(file: Seq<char>, context: Option<u32>) -> Seq<Seq<char>> {
    seq!["-c"@, "core.quotepath=false"@, "diff"@, "--no-index"@] + ctx_args(context) + seq![
        "--"@,
        "/dev/null"@,
        file,
    ]
}

pub open spec fn tracked_args(file: Seq<char>) -> Seq<Seq<char>> {
    seq!["ls-files"@, "--error-unmatch"@, "--"@, file]
}

/// The text a fetch gave (empty for a failed command or another answer).
pub open spec fn text_or_empty(f: FetchedV) -> Seq<char> {
    match f {
        FetchedV::Text(Ok(o)) => o,
        _ => Seq::empty(),
    }
}

/// What to do next for a diff: fetch something, or the diff is complete.
pub enum DiffStep {
    Fetch(Fetch),
    Done(Result<FileDiff, GitError>),
}

pub enum DiffStepV {
    Fetch(FetchV),
    Done(Result<FileDiffV, GitErrorV>),
}

impl View for DiffStep {
    type V = DiffStepV;

    open spec fn view(&self) -> DiffStepV {
        match self {
            DiffStep::Fetch(f) => DiffStepV::Fetch(f@),
            DiffStep::Done(Ok(d)) => DiffStepV::Done(Ok(d@)),
            DiffStep::Done(Err(e)) => DiffStepV::Done(Err(e@)),
        }
    }
}

/// Where a file diff stands.
pub enum DiffStage {
    /// `ls-files --error-unmatch` (is the file tracked?).
    TrackedProbe,
    /// The diff command; `base` is the parent revision of a commit's file
    /// (`None`: no parent, or a working-tree file).
    Diff { untracked: bool, base: Option<String> },
    Fill(BinaryFill),
    Finished,
}

pub enum DiffStageV {
    TrackedProbe,
    Diff(bool, Option<Seq<char>>),
    Fill(FileDiffV, Option<BlobSrcV>, BlobSrcV, FillStage),
    Finished,
}

impl View for DiffStage {
    type V = DiffStageV;

    open spec fn view(&self) -> DiffStageV {
        match self {
            DiffStage::TrackedProbe => DiffStageV::TrackedProbe,
            DiffStage::Diff { untracked, base } => DiffStageV::Diff(
                *untracked,
                match base {
                    Some(b) => Some(b@),
                    None => None,
                },
            ),
            DiffStage::Fill(b) => DiffStageV::Fill(b.diff@, osrc(b.old), b.new@, b.stage),
            DiffStage::Finished => DiffStageV::Finished,
        }
    }
}

/// The continuation once the diff text is parsed: done, or the binary fill.
pub open spec fn start_fill(d: FileDiffV, old: Option<BlobSrcV>, new: BlobSrcV) -> (DiffStageV, DiffStepV) {
    if !d.binary {
        (DiffStageV::Finished, DiffStepV::Done(Ok(d)))
    } else {
        (
            DiffStageV::Fill(d, old, new, FillStage::NewSize),
            DiffStepV::Fetch(size_fetch(new, d.path)),
        )
    }
}

pub open spec fn fill_step(d: FileDiffV, old: Option<BlobSrcV>, new: BlobSrcV, st: FillStage, f: FetchedV) -> (
    DiffStageV,
    DiffStepV,
) {
    let (d2, st2, next) = fill_next(d, old, new, st, f);
    match next {
        Some(x) => (DiffStageV::Fill(d2, old, new, st2), DiffStepV::Fetch(x)),
        None => (DiffStageV::Finished, DiffStepV::Done(Ok(d2))),
    }
}

/// A diff of a working-tree file: staged (index against `HEAD`) or not
/// (working tree against the index; an untracked file against nothing).
pub struct FileDiffJob {
    pub file: String,
    pub staged: bool,
    pub context: Option<u32>,
    pub stage: DiffStage,
}

pub open spec fn file_diff_next(
    file: Seq<char>,
    staged: bool,
    context: Option<u32>,
    stage: DiffStageV,
    f: FetchedV,
) -> (DiffStageV, DiffStepV) {
    match stage {
        DiffStageV::TrackedProbe => if f matches FetchedV::Text(Err(_)) {
            (DiffStageV::Diff(true, None), DiffStepV::Fetch(FetchV::GitAnyStatus(no_index_args(file, context))))
        } else {
            (
                DiffStageV::Diff(false, None),
                DiffStepV::Fetch(FetchV::Git(file_diff_args(file, false, context))),
            )
        },
        DiffStageV::Diff(untracked, _) => start_fill(
            spec_diff_single(text_or_empty(f), file),
            if untracked {
                None
            } else {
                Some(BlobSrcV::Rev("HEAD"@))
            },
            if !untracked && staged {
                BlobSrcV::Rev(Seq::empty())
            } else {
                BlobSrcV::Disk
            },
        ),
        DiffStageV::Fill(d, old, new, st) => fill_step(d, old, new, st, f),
        DiffStageV::Finished => (DiffStageV::Finished, DiffStepV::Done(Ok(spec_diff_single(Seq::empty(), file)))),
    }
}

/// Answers a diff step can take: a diff text whose counts fit, bytes the
/// encoder takes.
pub open spec fn diff_reply_ok(stage: DiffStageV, file: Seq<char>, f: FetchedV) -> bool {
    &&& fetched_ok(f)
    &&& (stage matches DiffStageV::Diff(_, _) ==> !diff_fold(lines(text_or_empty(f)), file).overflow)
}

fn ctx_push(a: &mut Vec<String>, context: Option<u32>)
    ensures
        strs(final(a)@) == strs(old(a)@) + ctx_args(context),
{
    if let Some(n) = context {
        let mut v = chars_of("-U");
        push_dec(&mut v, n as u64);
        let ghost prev = strs(a@);
        a.push(string_of_all(v.as_slice()));
        assert(strs(a@) =~= prev + ctx_args(context));
    } else {
        assert(strs(a@) =~= strs(old(a)@) + ctx_args(context));
    }
}

fn file_diff_args_exec(file: &str, staged: bool, context: Option<u32>) -> (a: Vec<String>)
    ensures
        strs(a@) == file_diff_args(file@, staged, context),
{
    let mut a = vec![arg("-c"), arg("core.quotepath=false"), arg("diff")];
    if staged {
        a.push(arg("--cached"));
    }
    let ghost mid = strs(a@);
    assert(mid =~= seq!["-c"@, "core.quotepath=false"@, "diff"@] + (if staged {
        seq!["--cached"@]
    } else {
        Seq::empty()
    }));
    ctx_push(&mut a, context);
    let ghost m2 = strs(a@);
    a.push(arg("--"));
    a.push(arg(file));
    assert(strs(a@) =~= m2 + seq!["--"@, file@]);
    a
}

fn no_index_args_exec(file: &str, context: Option<u32>) -> (a: Vec<String>)
    ensures
        strs(a@) == no_index_args(file@, context),
{
    let mut a = vec![arg("-c"), arg("core.quotepath=false"), arg("diff"), arg("--no-index")];
    assert(strs(a@) =~= seq!["-c"@, "core.quotepath=false"@, "diff"@, "--no-index"@]);
    ctx_push(&mut a, context);
    let ghost m2 = strs(a@);
    a.push(arg("--"));
    a.push(arg("/dev/null"));
    a.push(arg(file));
    assert(strs(a@) =~= m2 + seq!["--"@, "/dev/null"@, file@]);
    a
}

fn text_of(f: Fetched) -> (r: String)
    ensures
        r@ == text_or_empty(f@),
{
    match f {
        Fetched::Text(Ok(o)) => o,
        _ => String::new(),
    }
}

/// Parses the diff text and starts the binary fill.
fn begin_fill(text: &str, file: &str, old: Option<BlobSrc>, new: BlobSrc) -> (r: (DiffStage, DiffStep))
    requires
        !diff_fold(lines(text@), file@).overflow,
    ensures
        (r.0@, r.1@) == start_fill(spec_diff_single(text@, file@), osrc(old), new@),
{
    let d = parse_diff_single(text, file);
    match binary_fill(d, old, new) {
        Err(d) => (DiffStage::Finished, DiffStep::Done(Ok(d))),
        Ok((b, x)) => (DiffStage::Fill(b), DiffStep::Fetch(x)),
    }
}

fn continue_fill(mut b: BinaryFill, f: Fetched) -> (r: (DiffStage, DiffStep))
    requires
        fetched_ok(f@),
    ensures
        (r.0@, r.1@) == fill_step(b.diff@, osrc(b.old), b.new@, b.stage, f@),
{
    match b.step(f) {
        Some(x) => (DiffStage::Fill(b), DiffStep::Fetch(x)),
        None => (DiffStage::Finished, DiffStep::Done(Ok(b.diff))),
    }
}

/// Starts the diff of a working-tree file (`context`: lines of context).
pub fn diff_file(file: &str, staged: bool, context: Option<u32>) -> (r: (FileDiffJob, Fetch))
    ensures
        r.0.file@ == file@,
        r.0.staged == staged,
        r.0.context == context,
        staged ==> r.0.stage@ == DiffStageV::Diff(false, None) && r.1@ == FetchV::Git(
            file_diff_args(file@, true, context),
        ),
        !staged ==> r.0.stage@ == DiffStageV::TrackedProbe && r.1@ == FetchV::Git(tracked_args(file@)),
{
    if staged {
        let a = file_diff_args_exec(file, true, context);
        (
            FileDiffJob {
                file: arg(file),
                staged,
                context,
                stage: DiffStage::Diff { untracked: false, base: None },
            },
            Fetch::Git(a),
        )
    } else {
        let a = vec![arg("ls-files"), arg("--error-unmatch"), arg("--"), arg(file)];
        assert(strs(a@) =~= tracked_args(file@));
        (FileDiffJob { file: arg(file), staged, context, stage: DiffStage::TrackedProbe }, Fetch::Git(a))
    }
}

impl FileDiffJob {
    /// Takes what was fetched and says what to do next.
    pub fn step(&mut self, f: Fetched) -> (r: DiffStep)
        requires
            diff_reply_ok(old(self).stage@, old(self).file@, f@),
        ensures
            final(self).file == old(self).file,
            final(self).staged == old(self).staged,
            final(self).context == old(self).context,
            (final(self).stage@, r@) == file_diff_next(
                old(self).file@,
                old(self).staged,
                old(self).context,
                old(self).stage@,
                f@,
            ),
    {
        let mut stage = DiffStage::Finished;
        std::mem::swap(&mut stage, &mut self.stage);
        match stage {
            DiffStage::TrackedProbe => {
                let untracked = match &f {
                    Fetched::Text(Err(_)) => true,
                    _ => false,
                };
                if untracked {
                    self.stage = DiffStage::Diff { untracked: true, base: None };
                    DiffStep::Fetch(
                        Fetch::GitAnyStatus(no_index_args_exec(self.file.as_str(), self.context)),
                    )
                } else {
                    self.stage = DiffStage::Diff { untracked: false, base: None };
                    DiffStep::Fetch(
                        Fetch::Git(file_diff_args_exec(self.file.as_str(), false, self.context)),
                    )
                }
            },
            DiffStage::Diff { untracked, base: _ } => {
                let text = text_of(f);
                let old = if untracked {
                    None
                } else {
                    Some(BlobSrc::Rev(arg("HEAD")))
                };
                let new = if !untracked && self.staged {
                    BlobSrc::Rev(String::new())
                } else {
                    BlobSrc::Disk
                };
                let (st, r) = begin_fill(text.as_str(), self.file.as_str(), old, new);
                self.stage = st;
                r
            },
            DiffStage::Fill(b) => {
                let (st, r) = continue_fill(b, f);
                self.stage = st;
                r
            },
            DiffStage::Finished => {
                proof {
                    reveal_strlit("");
                }
                let d = parse_diff_single("", self.file.as_str());
                DiffStep::Done(Ok(d))
            },
        }
    }
}

// ---------------------------------------------------------------------------
// A file in a commit
// ---------------------------------------------------------------------------

pub open spec fn parent_args(oid: Seq<char>) -> Seq<Seq<char>> {
    seq!["rev-parse"@, "--verify"@, "--quiet"@, oid + "^"@]
}

/// Against the first parent when there is one (`diff <oid>^..<oid>`), else
/// the root commit as shown by `show`.
pub open spec fn commit_file_args(oid: Seq<char>, file: Seq<char>, context: Option<u32>, has_parent: bool) -> Seq<
    Seq<char>,
> {
    if has_parent {
        seq!["-c"@, "core.quotepath=false"@, "diff"@, oid + "^.."@ + oid] + ctx_args(context)
            + seq!["--"@, file]
    } else {
        seq!["-c"@, "core.quotepath=false"@, "show"@, oid, "--format="@] + ctx_args(context) + seq![
            "--"@,
            file,
        ]
    }
}

/// The diff of one file of commit `oid`.
pub struct CommitFileDiffJob {
    pub oid: String,
    pub file: String,
    pub context: Option<u32>,
    pub stage: DiffStage,
    /// `ls-files` is not asked here: the first answer is the parent probe.
    pub probed: bool,
}

pub open spec fn commit_file_next(
    oid: Seq<char>,
    file: Seq<char>,
    context: Option<u32>,
    probed: bool,
    stage: DiffStageV,
    f: FetchedV,
) -> (bool, DiffStageV, DiffStepV) {
    if !probed {
        let has_parent = f matches FetchedV::Text(Ok(_));
        (
            true,
            DiffStageV::Diff(
                false,
                if has_parent {
                    Some(oid + "^"@)
                } else {
                    None
                },
            ),
            DiffStepV::Fetch(FetchV::Git(commit_file_args(oid, file, context, has_parent))),
        )
    } else {
        match stage {
            DiffStageV::Diff(_, base) => match f {
                FetchedV::Text(Err(e)) => (true, DiffStageV::Finished, DiffStepV::Done(Err(e))),
                _ => {
                    let (s2, r) = start_fill(
                        spec_diff_single(text_or_empty(f), file),
                        match base {
                            Some(b) => Some(BlobSrcV::Rev(b)),
                            None => None,
                        },
                        BlobSrcV::Rev(oid),
                    );
                    (true, s2, r)
                },
            },
            DiffStageV::Fill(d, old, new, st) => {
                let (s2, r) = fill_step(d, old, new, st, f);
                (true, s2, r)
            },
            _ => (true, DiffStageV::Finished, DiffStepV::Done(Ok(spec_diff_single(Seq::empty(), file)))),
        }
    }
}

fn cat3(a: &str, b: &str, c: &str) -> (r: String)
    ensures
        r@ == a@ + b@ + c@,
{
    let mut v = chars_of(a);
    push_str(&mut v, b);
    push_str(&mut v, c);
    string_of_all(v.as_slice())
}

fn commit_file_args_exec(oid: &str, file: &str, context: Option<u32>, has_parent: bool) -> (a: Vec<
    String,
>)
    ensures
        strs(a@) == commit_file_args(oid@, file@, context, has_parent),
{
    let mut a = if has_parent {
        let a = vec![arg("-c"), arg("core.quotepath=false"), arg("diff"), cat3(oid, "^..", oid)];
        assert(strs(a@) =~= seq!["-c"@, "core.quotepath=false"@, "diff"@, oid@ + "^.."@ + oid@]);
        a
    } else {
        let a = vec![arg("-c"), arg("core.quotepath=false"), arg("show"), arg(oid), arg("--format=")];
        assert(strs(a@) =~= seq!["-c"@, "core.quotepath=false"@, "show"@, oid@, "--format="@]);
        a
    };
    ctx_push(&mut a, context);
    let ghost m2 = strs(a@);
    a.push(arg("--"));
    a.push(arg(file));
    assert(strs(a@) =~= m2 + seq!["--"@, file@]);
    a
}

/// Starts the diff of `file` in commit `oid`: first, does `oid` have a
/// parent?
pub fn diff_commit_file(oid: &str, file: &str, context: Option<u32>) -> (r: (CommitFileDiffJob, Fetch))
    ensures
        r.0.oid@ == oid@,
        r.0.file@ == file@,
        r.0.context == context,
        !r.0.probed,
        r.0.stage@ == DiffStageV::TrackedProbe,
        r.1@ == FetchV::Git(parent_args(oid@)),
{
    let a = vec![arg("rev-parse"), arg("--verify"), arg("--quiet"), cat3(oid, "^", "")];
    proof {
        reveal_strlit("");
    }
    assert(strs(a@) =~= parent_args(oid@));
    (
        CommitFileDiffJob {
            oid: arg(oid),
            file: arg(file),
            context,
            stage: DiffStage::TrackedProbe,
            probed: false,
        },
        Fetch::Git(a),
    )
}

impl CommitFileDiffJob {
    /// Takes what was fetched and says what to do next.
    pub fn step(&mut self, f: Fetched) -> (r: DiffStep)
        requires
            old(self).probed ==> diff_reply_ok(old(self).stage@, old(self).file@, f@),
        ensures
            final(self).oid == old(self).oid,
            final(self).file == old(self).file,
            final(self).context == old(self).context,
            (final(self).probed, final(self).stage@, r@) == commit_file_next(
                old(self).oid@,
                old(self).file@,
                old(self).context,
                old(self).probed,
                old(self).stage@,
                f@,
            ),
    {
        if !self.probed {
            let has_parent = match &f {
                Fetched::Text(Ok(_)) => true,
                _ => false,
            };
            self.probed = true;
            self.stage = DiffStage::Diff {
                untracked: false,
                base: if has_parent {
                    Some(cat3(self.oid.as_str(), "^", ""))
                } else {
                    None
                },
            };
            proof {
                reveal_strlit("");
            }
            return DiffStep::Fetch(
                Fetch::Git(
                    commit_file_args_exec(
                        self.oid.as_str(),
                        self.file.as_str(),
                        self.context,
                        has_parent,
                    ),
                ),
            );
        }
        let mut stage = DiffStage::Finished;
        std::mem::swap(&mut stage, &mut self.stage);
        match stage {
            DiffStage::Diff { untracked: _, base } => match f {
                Fetched::Text(Err(e)) => DiffStep::Done(Err(e)),
                other => {
                    let text = text_of(other);
                    let old = match base {
                        Some(b) => Some(BlobSrc::Rev(b)),
                        None => None,
                    };
                    let new = BlobSrc::Rev(self.oid.clone());
                    let (st, r) = begin_fill(text.as_str(), self.file.as_str(), old, new);
                    self.stage = st;
                    r
                },
            },
            DiffStage::Fill(b) => {
                let (st, r) = continue_fill(b, f);
                self.stage = st;
                r
            },
            _ => {
                proof {
                    reveal_strlit("");
                }
                let d = parse_diff_single("", self.file.as_str());
                DiffStep::Done(Ok(d))
            },
        }
    }
}

// ---------------------------------------------------------------------------
// A whole commit
// ---------------------------------------------------------------------------

/// The diff of commit `oid`: against its first parent, or as `show` gives
/// a root commit.
pub struct CommitDiffJob {
    pub oid: String,
    pub probed: bool,
}

pub open spec fn commit_diff_args(oid: Seq<char>, has_parent: bool) -> Seq<Seq<char>> {
    if has_parent {
        seq!["-c"@, "core.quotepath=false"@, "diff"@, oid + "^.."@ + oid]
    } else {
        seq!["-c"@, "core.quotepath=false"@, "show"@, oid, "--format="@]
    }
}

pub enum CommitDiffStep {
    Git(Vec<String>),
    Done(Result<Vec<FileDiff>, GitError>),
}

pub fn diff_commit(oid: &str) -> (r: (CommitDiffJob, Vec<String>))
    ensures
        r.0.oid@ == oid@,
        !r.0.probed,
        strs(r.1@) == parent_args(oid@),
{
    let a = vec![arg("rev-parse"), arg("--verify"), arg("--quiet"), cat3(oid, "^", "")];
    proof {
        reveal_strlit("");
    }
    assert(strs(a@) =~= parent_args(oid@));
    (CommitDiffJob { oid: arg(oid), probed: false }, a)
}

impl CommitDiffJob {
    /// First the parent probe's result, then the diff's.
    pub fn step(&mut self, reply: Result<String, GitError>) -> (r: CommitDiffStep)
        requires
            old(self).probed ==> (reply matches Ok(o) ==> !multi_overflows(o@)),
        ensures
            final(self).oid == old(self).oid,
            final(self).probed,
            !old(self).probed ==> (r matches CommitDiffStep::Git(a) && strs(a@) == commit_diff_args(
                old(self).oid@,
                reply is Ok,
            )),
            old(self).probed ==> match reply {
                Err(e) => r matches CommitDiffStep::Done(Err(x)) && x@ == e@,
                Ok(o) => r matches CommitDiffStep::Done(Ok(v)) && v@.len() == spec_diff_multi(
                    o@,
                ).len() && forall|k: int|
                    0 <= k < v@.len() ==> #[trigger] v@[k]@ == spec_diff_multi(o@)[k],
            },
    {
        if !self.probed {
            self.probed = true;
            let has_parent = reply.is_ok();
            let a = if has_parent {
                let a = vec![
                    arg("-c"),
                    arg("core.quotepath=false"),
                    arg("diff"),
                    cat3(self.oid.as_str(), "^..", self.oid.as_str()),
                ];
                assert(strs(a@) =~= commit_diff_args(self.oid@, true));
                a
            } else {
                let a = vec![
                    arg("-c"),
                    arg("core.quotepath=false"),
                    arg("show"),
                    self.oid.clone(),
                    arg("--format="),
                ];
                assert(strs(a@) =~= commit_diff_args(self.oid@, false));
                a
            };
            return CommitDiffStep::Git(a);
        }
        match reply {
            Err(e) => CommitDiffStep::Done(Err(e)),
            Ok(o) => CommitDiffStep::Done(Ok(parse_diff_multi(o.as_str()))),
        }
    }
}

/// The diff text of one file parses without a line count past `u32::MAX`.
pub fn diff_text_fits(text: &str, file: &str) -> (b: bool)
    ensures
        b == !diff_fold(lines(text@), file@).overflow,
{
    parse_diff_single_checked(text, file).is_some()
}

/// The diff text of a commit parses without a line count past `u32::MAX`.
pub fn commit_diff_fits(text: &str) -> (b: bool)
    ensures
        b == !multi_overflows(text@),
{
    parse_diff_multi_checked(text).is_some()
}

} // verus!
