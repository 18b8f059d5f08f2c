//! Plain data handed between the Git logic and the user interface.
use vstd::prelude::*;

verus! {

#[derive(Clone, Debug)]
pub struct FileStatus {
    pub path: String,
    pub state: String,
    pub staged: String,
}

#[derive(Clone, Debug)]
pub struct RefLabel {
    pub name: String,
    pub kind: String,
}

#[derive(Clone, Debug)]
pub struct GraphLine {
    pub from_column: u32,
    pub to_column: u32,
    pub color: u32,
    pub style: String,
}

#[derive(Clone, Debug)]
pub struct CommitInfo {
    pub oid: String,
    pub short_oid: String,
    pub message: String,
    pub author: String,
    pub author_email: String,
    pub date: String,
    pub parents: Vec<String>,
    pub refs: Vec<RefLabel>,
    pub column: u32,
    pub lines: Vec<GraphLine>,
    /// Reachable from a local branch but from no remote-tracking ref.
    pub unpushed: bool,
}

#[derive(Clone, Debug)]
pub struct BranchInfo {
    pub name: String,
    pub is_remote: bool,
    pub upstream: Option<String>,
    pub ahead: u32,
    pub behind: u32,
    pub is_current: bool,
    pub author: Option<String>,
}

#[derive(Clone, Debug)]
pub struct TagInfo {
    pub name: String,
    pub oid: String,
    pub message: Option<String>,
}

#[derive(Clone, Debug)]
pub struct RemoteInfo {
    pub name: String,
    pub url: String,
}

#[derive(Clone, Debug)]
pub struct StashEntry {
    pub index: usize,
    pub message: String,
    pub date: String,
}

#[derive(Clone, Debug)]
pub struct DiffLine {
    pub kind: String,
    pub old_lineno: Option<u32>,
    pub new_lineno: Option<u32>,
    pub content: String,
}

#[derive(Clone, Debug)]
pub struct DiffHunk {
    pub header: String,
    pub lines: Vec<DiffLine>,
    /// Verbatim hunk text (the `@@ ...` line and its body), for `git apply`.
    pub raw: String,
}

#[derive(Clone, Debug)]
pub struct FileDiff {
    pub path: String,
    pub hunks: Vec<DiffHunk>,
    pub insertions: u32,
    pub deletions: u32,
    /// Verbatim patch header lines before the first hunk.
    pub header: String,
    /// The file is binary: there is no text diff.
    pub binary: bool,
    /// Base64 of the image before the change (binary images only).
    pub old_image: Option<String>,
    /// Base64 of the image after the change.
    pub new_image: Option<String>,
    /// File size in bytes (binary files).
    pub byte_size: Option<u64>,
}

#[derive(Clone, Debug)]
pub struct RepoInfo {
    pub path: String,
    pub current_branch: String,
    pub head_oid: String,
}

#[derive(Clone, Debug)]
pub struct RepoPathCheck {
    pub exists: bool,
    pub is_git_repo: bool,
    pub display_name: String,
}

#[derive(Clone, Debug)]
pub struct AuthorStat {
    pub name: String,
    pub email: String,
    pub commits: u32,
    pub insertions: u32,
    pub deletions: u32,
    pub active_days: u32,
    pub first_date: String,
    pub last_date: String,
}

#[derive(Clone, Debug)]
pub struct MonthEntry {
    pub month: String,
    pub commits: u32,
}

#[derive(Clone, Debug)]
pub struct DayEntry {
    pub date: String,
    pub count: u32,
}

#[derive(Clone, Debug)]
pub struct RepoStats {
    pub total_commits: u32,
    pub total_insertions: u32,
    pub total_deletions: u32,
    pub first_commit_date: String,
    pub last_commit_date: String,
    pub active_days: u32,
    pub total_authors: u32,
    pub authors: Vec<AuthorStat>,
    pub by_weekday: Vec<u32>,
    pub by_hour: Vec<u32>,
    pub by_month: Vec<MonthEntry>,
    pub by_day: Vec<DayEntry>,
}

#[derive(Clone, Debug)]
pub struct UpdateInfo {
    pub version: String,
    pub release_url: String,
}

/// The author of one line of a file (`git blame --porcelain`).
#[derive(Clone, Debug)]
pub struct BlameLine {
    pub oid: String,
    pub short_oid: String,
    pub author: String,
    pub author_time: i64,
    pub summary: String,
    pub line_no: u32,
    pub content: String,
}


// ---------------------------------------------------------------------------
// Views: the same data with text as character sequences.
// ---------------------------------------------------------------------------

pub open spec fn ostr(o: Option<String>) -> Option<Seq<char>> {
    match o {
        Some(s) => Some(s@),
        None => None,
    }
}

pub open spec fn strs_of(v: Seq<String>) -> Seq<Seq<char>> {
    v.map_values(|s: String| s@)
}

pub struct FileStatusV {
    pub path: Seq<char>,
    pub state: Seq<char>,
    pub staged: Seq<char>,
}

impl View for FileStatus {
    type V = FileStatusV;

    open spec fn view(&self) -> FileStatusV {
        FileStatusV { path: self.path@, state: self.state@, staged: self.staged@ }
    }
}

pub struct RefLabelV {
    pub name: Seq<char>,
    pub kind: Seq<char>,
}

impl View for RefLabel {
    type V = RefLabelV;

    open spec fn view(&self) -> RefLabelV {
        RefLabelV { name: self.name@, kind: self.kind@ }
    }
}

pub struct GraphLineV {
    pub from_column: u32,
    pub to_column: u32,
    pub color: u32,
    pub style: Seq<char>,
}

impl View for GraphLine {
    type V = GraphLineV;

    open spec fn view(&self) -> GraphLineV {
        GraphLineV {
            from_column: self.from_column,
            to_column: self.to_column,
            color: self.color,
            style: self.style@,
        }
    }
}

pub struct CommitInfoV {
    pub oid: Seq<char>,
    pub short_oid: Seq<char>,
    pub message: Seq<char>,
    pub author: Seq<char>,
    pub author_email: Seq<char>,
    pub date: Seq<char>,
    pub parents: Seq<Seq<char>>,
    pub refs: Seq<RefLabelV>,
    pub column: u32,
    pub lines: Seq<GraphLineV>,
    pub unpushed: bool,
}

impl View for CommitInfo {
    type V = CommitInfoV;

    open spec fn view(&self) -> CommitInfoV {
        CommitInfoV {
            oid: self.oid@,
            short_oid: self.short_oid@,
            message: self.message@,
            author: self.author@,
            author_email: self.author_email@,
            date: self.date@,
            parents: strs_of(self.parents@),
            refs: self.refs@.map_values(|r: RefLabel| r@),
            column: self.column,
            lines: self.lines@.map_values(|l: GraphLine| l@),
            unpushed: self.unpushed,
        }
    }
}

pub struct BranchInfoV {
    pub name: Seq<char>,
    pub is_remote: bool,
    pub upstream: Option<Seq<char>>,
    pub ahead: u32,
    pub behind: u32,
    pub is_current: bool,
    pub author: Option<Seq<char>>,
}

impl View for BranchInfo {
    type V = BranchInfoV;

    open spec fn view(&self) -> BranchInfoV {
        BranchInfoV {
            name: self.name@,
            is_remote: self.is_remote,
            upstream: ostr(self.upstream),
            ahead: self.ahead,
            behind: self.behind,
            is_current: self.is_current,
            author: ostr(self.author),
        }
    }
}

pub struct TagInfoV {
    pub name: Seq<char>,
    pub oid: Seq<char>,
    pub message: Option<Seq<char>>,
}

impl View for TagInfo {
    type V = TagInfoV;

    open spec fn view(&self) -> TagInfoV {
        TagInfoV { name: self.name@, oid: self.oid@, message: ostr(self.message) }
    }
}

pub struct RemoteInfoV {
    pub name: Seq<char>,
    pub url: Seq<char>,
}

impl View for RemoteInfo {
    type V = RemoteInfoV;

    open spec fn view(&self) -> RemoteInfoV {
        RemoteInfoV { name: self.name@, url: self.url@ }
    }
}

pub struct StashEntryV {
    pub index: usize,
    pub message: Seq<char>,
    pub date: Seq<char>,
}

impl View for StashEntry {
    type V = StashEntryV;

    open spec fn view(&self) -> StashEntryV {
        StashEntryV { index: self.index, message: self.message@, date: self.date@ }
    }
}

pub struct DiffLineV {
    pub kind: Seq<char>,
    pub old_lineno: Option<u32>,
    pub new_lineno: Option<u32>,
    pub content: Seq<char>,
}

impl View for DiffLine {
    type V = DiffLineV;

    open spec fn view(&self) -> DiffLineV {
        DiffLineV {
            kind: self.kind@,
            old_lineno: self.old_lineno,
            new_lineno: self.new_lineno,
            content: self.content@,
        }
    }
}

pub struct DiffHunkV {
    pub header: Seq<char>,
    pub lines: Seq<DiffLineV>,
    pub raw: Seq<char>,
}

impl View for DiffHunk {
    type V = DiffHunkV;

    open spec fn view(&self) -> DiffHunkV {
        DiffHunkV {
            header: self.header@,
            lines: self.lines@.map_values(|l: DiffLine| l@),
            raw: self.raw@,
        }
    }
}

pub struct FileDiffV {
    pub path: Seq<char>,
    pub hunks: Seq<DiffHunkV>,
    pub insertions: u32,
    pub deletions: u32,
    pub header: Seq<char>,
    pub binary: bool,
    pub old_image: Option<Seq<char>>,
    pub new_image: Option<Seq<char>>,
    pub byte_size: Option<u64>,
}

impl View for FileDiff {
    type V = FileDiffV;

    open spec fn view(&self) -> FileDiffV {
        FileDiffV {
            path: self.path@,
            hunks: self.hunks@.map_values(|h: DiffHunk| h@),
            insertions: self.insertions,
            deletions: self.deletions,
            header: self.header@,
            binary: self.binary,
            old_image: ostr(self.old_image),
            new_image: ostr(self.new_image),
            byte_size: self.byte_size,
        }
    }
}

pub struct RepoInfoV {
    pub path: Seq<char>,
    pub current_branch: Seq<char>,
    pub head_oid: Seq<char>,
}

impl View for RepoInfo {
    type V = RepoInfoV;

    open spec fn view(&self) -> RepoInfoV {
        RepoInfoV {
            path: self.path@,
            current_branch: self.current_branch@,
            head_oid: self.head_oid@,
        }
    }
}

pub struct BlameLineV {
    pub oid: Seq<char>,
    pub short_oid: Seq<char>,
    pub author: Seq<char>,
    pub author_time: i64,
    pub summary: Seq<char>,
    pub line_no: u32,
    pub content: Seq<char>,
}

impl View for BlameLine {
    type V = BlameLineV;

    open spec fn view(&self) -> BlameLineV {
        BlameLineV {
            oid: self.oid@,
            short_oid: self.short_oid@,
            author: self.author@,
            author_time: self.author_time,
            summary: self.summary@,
            line_no: self.line_no,
            content: self.content@,
        }
    }
}

pub struct AuthorStatV {
    pub name: Seq<char>,
    pub email: Seq<char>,
    pub commits: u32,
    pub insertions: u32,
    pub deletions: u32,
    pub active_days: u32,
    pub first_date: Seq<char>,
    pub last_date: Seq<char>,
}

impl View for AuthorStat {
    type V = AuthorStatV;

    open spec fn view(&self) -> AuthorStatV {
        AuthorStatV {
            name: self.name@,
            email: self.email@,
            commits: self.commits,
            insertions: self.insertions,
            deletions: self.deletions,
            active_days: self.active_days,
            first_date: self.first_date@,
            last_date: self.last_date@,
        }
    }
}

impl View for MonthEntry {
    type V = (Seq<char>, u32);

    open spec fn view(&self) -> (Seq<char>, u32) {
        (self.month@, self.commits)
    }
}

impl View for DayEntry {
    type V = (Seq<char>, u32);

    open spec fn view(&self) -> (Seq<char>, u32) {
        (self.date@, self.count)
    }
}

pub struct RepoStatsV {
    pub total_commits: u32,
    pub total_insertions: u32,
    pub total_deletions: u32,
    pub first_commit_date: Seq<char>,
    pub last_commit_date: Seq<char>,
    pub active_days: u32,
    pub total_authors: u32,
    pub authors: Seq<AuthorStatV>,
    pub by_weekday: Seq<u32>,
    pub by_hour: Seq<u32>,
    pub by_month: Seq<(Seq<char>, u32)>,
    pub by_day: Seq<(Seq<char>, u32)>,
}

impl View for RepoStats {
    type V = RepoStatsV;

    open spec fn view(&self) -> RepoStatsV {
        RepoStatsV {
            total_commits: self.total_commits,
            total_insertions: self.total_insertions,
            total_deletions: self.total_deletions,
            first_commit_date: self.first_commit_date@,
            last_commit_date: self.last_commit_date@,
            active_days: self.active_days,
            total_authors: self.total_authors,
            authors: self.authors@.map_values(|a: AuthorStat| a@),
            by_weekday: self.by_weekday@,
            by_hour: self.by_hour@,
            by_month: self.by_month@.map_values(|m: MonthEntry| m@),
            by_day: self.by_day@.map_values(|d: DayEntry| d@),
        }
    }
}

} // verus!
