//! File system paths as `std::path::Path` reads them: on Unix `/` is the
//! only separator; on Windows `\` separates too, and a path may begin with
//! a prefix (a drive `C:`, a share `\\server\share`, or a `\\?\` or `\\.\`
//! name).
use vstd::prelude::*;
use crate::text::{before_char, before_char_exec, eq_lit, lemma_find_bounds, slice_vec, split_char, split_char_exec};

verus! {

/// Which platform's path rules apply.
#[derive(Clone, Copy, Debug, PartialEq, Eq, Structural)]
pub enum PathStyle {
    Unix,
    Windows,
}

/// Every separator written as `/`.
pub open spec fn unify_seps(s: Seq<char>, style: PathStyle) -> Seq<char> {
    match style {
        PathStyle::Unix => s,
        PathStyle::Windows => s.map_values(|c: char| if c == '\\' { '/' } else { c }),
    }
}

pub open spec fn is_ascii_letter(c: char) -> bool {
    ('a' <= c <= 'z') || ('A' <= c <= 'Z')
}

/// A drive prefix `C:` (Windows only).
pub open spec fn has_disk_prefix(p: Seq<char>, style: PathStyle) -> bool {
    style == PathStyle::Windows && p.len() >= 2 && is_ascii_letter(p[0]) && p[1] == ':'
}

/// The length of the path's prefix: `C:`; `\\?\name` or `\\.\name`;
/// `\\server\share` with both parts non-empty; 0 where there is none.
pub open spec fn prefix_len(p: Seq<char>, style: PathStyle) -> nat {
    let u = unify_seps(p, style);
    if style == PathStyle::Unix {
        0
    } else if has_disk_prefix(p, style) {
        2
    } else if u.len() >= 2 && u[0] == '/' && u[1] == '/' {
        let server = before_char(u.skip(2), '/');
        if (server == "?"@ || server == "."@) && u.len() > 3 {
            4 + before_char(u.skip(4), '/').len()
        } else if server.len() > 0 && 2 + server.len() < u.len() {
            let share = before_char(u.skip(3 + server.len() as int), '/');
            if share.len() > 0 {
                3 + server.len() + share.len()
            } else {
                0
            }
        } else {
            0
        }
    } else {
        0
    }
}

/// `Path::is_absolute`: on Unix, a path that starts at the root; on
/// Windows, a path with a prefix that starts at the root (`C:\x`, but not
/// `C:x` or `\x`; every prefix but a drive brings its root).
pub open spec fn is_absolute_path(p: Seq<char>, style: PathStyle) -> bool {
    match style {
        PathStyle::Unix => p.len() > 0 && p[0] == '/',
        PathStyle::Windows => prefix_len(p, style) > 0 && (!has_disk_prefix(p, style) || (p.len() > 2
            && unify_seps(p, style)[2] == '/')),
    }
}

/// The pieces between separators after the prefix (empty pieces included).
pub open spec fn path_pieces(p: Seq<char>, style: PathStyle) -> Seq<Seq<char>> {
    split_char(unify_seps(p, style).skip(prefix_len(p, style) as int), '/')
}

proof fn lemma_before_char_len(s: Seq<char>, c: char)
    ensures
        before_char(s, c).len() <= s.len(),
        before_char(s, c) =~= s.take(before_char(s, c).len() as int),
{
    lemma_find_bounds(s, seq![c]);
}

/// `std::path::is_separator`: whether `c` separates path components on the
/// platform that runs the library. Its documentation shows that `/` does on
/// every platform; nothing more is stated.
#[verifier::external_body]
fn is_platform_separator(c: char) -> (b: bool)
    ensures
        c == '/' ==> b,
{
    std::path::is_separator(c)
}

/// The path rules of the platform that runs the library: Windows where `\`
/// is a separator.
pub(crate) fn platform_style() -> (s: PathStyle) {
    if is_platform_separator('\\') {
        PathStyle::Windows
    } else {
        PathStyle::Unix
    }
}

pub fn unify_seps_exec(s: &[char], style: PathStyle) -> (r: Vec<char>)
    ensures
        r@ == unify_seps(s@, style),
        r@.len() == s@.len(),
{
    let mut r: Vec<char> = Vec::new();
    let mut i: usize = 0;
    while i < s.len()
        invariant
            i <= s@.len(),
            r@.len() == i,
            forall|k: int|
                0 <= k < i ==> #[trigger] r@[k] == (if style == PathStyle::Windows && s@[k] == '\\' {
                    '/'
                } else {
                    s@[k]
                }),
        decreases s@.len() - i,
    {
        let c = s[i];
        if style == PathStyle::Windows && c == '\\' {
            r.push('/');
        } else {
            r.push(c);
        }
        i = i + 1;
    }
    match style {
        PathStyle::Unix => {
            assert(r@ =~= s@);
        },
        PathStyle::Windows => {
            assert(r@ =~= s@.map_values(|c: char| if c == '\\' { '/' } else { c }));
        },
    }
    r
}

fn is_ascii_letter_exec(c: char) -> (b: bool)
    ensures
        b == is_ascii_letter(c),
{
    ('a' <= c && c <= 'z') || ('A' <= c && c <= 'Z')
}

pub fn prefix_len_exec(p: &[char], style: PathStyle) -> (n: usize)
    ensures
        n == prefix_len(p@, style),
        n <= p@.len(),
{
    if style == PathStyle::Unix {
        return 0;
    }
    if p.len() >= 2 && is_ascii_letter_exec(p[0]) && p[1] == ':' {
        return 2;
    }
    let u = unify_seps_exec(p, style);
    if u.len() >= 2 && u[0] == '/' && u[1] == '/' {
        let rest = slice_vec(u.as_slice(), 2, u.len());
        assert(rest@ =~= u@.skip(2));
        let server = before_char_exec(rest.as_slice(), '/');
        proof {
            lemma_before_char_len(rest@, '/');
        }
        if (eq_lit(server.as_slice(), "?") || eq_lit(server.as_slice(), ".")) && u.len() > 3 {
            let r4 = slice_vec(u.as_slice(), 4, u.len());
            assert(r4@ =~= u@.skip(4));
            let name = before_char_exec(r4.as_slice(), '/');
            proof {
                lemma_before_char_len(r4@, '/');
            }
            4 + name.len()
        } else if server.len() > 0 && 2 + server.len() < u.len() {
            let r3 = slice_vec(u.as_slice(), 3 + server.len(), u.len());
            assert(r3@ =~= u@.skip(3 + server@.len() as int));
            let share = before_char_exec(r3.as_slice(), '/');
            proof {
                lemma_before_char_len(r3@, '/');
            }
            if share.len() > 0 {
                3 + server.len() + share.len()
            } else {
                0
            }
        } else {
            0
        }
    } else {
        0
    }
}

pub fn is_absolute_exec(p: &[char], style: PathStyle) -> (b: bool)
    ensures
        b == is_absolute_path(p@, style),
{
    match style {
        PathStyle::Unix => p.len() > 0 && p[0] == '/',
        PathStyle::Windows => {
            let n = prefix_len_exec(p, style);
            let disk = p.len() >= 2 && is_ascii_letter_exec(p[0]) && p[1] == ':';
            n > 0 && (!disk || (p.len() > 2 && (p[2] == '/' || p[2] == '\\')))
        },
    }
}

pub fn path_pieces_exec(p: &[char], style: PathStyle) -> (r: Vec<Vec<char>>)
    ensures
        r@.len() == path_pieces(p@, style).len(),
        forall|i: int| 0 <= i < r@.len() ==> #[trigger] r@[i]@ == path_pieces(p@, style)[i],
{
    let n = prefix_len_exec(p, style);
    let u = unify_seps_exec(p, style);
    let rest = slice_vec(u.as_slice(), n, u.len());
    assert(rest@ =~= unify_seps(p@, style).skip(n as int));
    split_char_exec(rest.as_slice(), '/')
}

} // verus!
