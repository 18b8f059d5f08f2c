//! Looking for a newer release: version comparison and the reading of the
//! latest-release answer.
use vstd::prelude::*;
use crate::git::types::{UpdateInfo};
use crate::text::{
    before_char, before_char_exec, chars_of, parse_unsigned, parse_unsigned_exec, splitn_char,
    splitn_char_exec, string_of_all, trim_start_char, trim_start_char_exec,
};

verus! {

/// The numbers of a version `v1.2.3-rc`: at most the first three dot
/// fields, each up to a `-`, those that parse.
pub open spec fn version_parts(s: Seq<char>) -> Seq<u32> {
    let pieces = splitn_char(trim_start_char(s, 'v'), 4, '.');
    let first = if pieces.len() > 3 {
        pieces.take(3)
    } else {
        pieces
    };
    first.filter_map(|x: Seq<char>| version_field(x))
}

/// One dot field of a version: its number up to a `-`, when it parses.
pub open spec fn version_field(x: Seq<char>) -> Option<u32> {
    match parse_unsigned(before_char(x, '-'), u32::MAX as nat) {
        Some(v) => Some(v as u32),
        None => None,
    }
}

/// Lexicographic order of number lists (a longer list is greater when the
/// shorter is its prefix).
pub open spec fn parts_gt(a: Seq<u32>, b: Seq<u32>) -> bool
    decreases a.len(),
{
    if a.len() == 0 {
        false
    } else if b.len() == 0 {
        true
    } else if a[0] != b[0] {
        a[0] > b[0]
    } else {
        parts_gt(a.drop_first(), b.drop_first())
    }
}

fn parts_of(s: &str) -> (r: Vec<u32>)
    ensures
        r@ == version_parts(s@),
{
    let v = chars_of(s);
    let t = trim_start_char_exec(v.as_slice(), 'v');
    let pieces = splitn_char_exec(t.as_slice(), 4, '.');
    let ghost ps = splitn_char(trim_start_char(s@, 'v'), 4, '.');
    let n = if pieces.len() > 3 {
        3
    } else {
        pieces.len()
    };
    let ghost first = if ps.len() > 3 {
        ps.take(3)
    } else {
        ps
    };
    let mut r: Vec<u32> = Vec::new();
    let mut i: usize = 0;
    assert(first.take(0) =~= Seq::<Seq<char>>::empty());
    while i < n
        invariant
            i <= n <= pieces@.len(),
            n == first.len(),
            pieces@.len() == ps.len(),
            forall|k: int| 0 <= k < n ==> #[trigger] pieces@[k]@ == first[k],
            r@ == first.take(i as int).filter_map(|x: Seq<char>| version_field(x)),
        decreases n - i,
    {
        assert(first.take(i + 1).drop_last() =~= first.take(i as int));
        assert(first.take(i + 1).last() == pieces@[i as int]@);
        let b = before_char_exec(pieces[i].as_slice(), '-');
        match parse_unsigned_exec(b.as_slice(), u32::MAX as u64) {
            Some(x) => {
                assert(version_field(first[i as int]) == Some(x as u32));
                r.push(x as u32);
                assert(r@ =~= first.take(i as int).filter_map(|x: Seq<char>| version_field(x)) + seq![x as u32]);
            },
            None => {
                assert(version_field(first[i as int]) is None);
            },
        }
        i = i + 1;
    }
    assert(first.take(n as int) =~= first);
    r
}

/// `latest` is a newer version than `current`.
pub fn version_gt(latest: &str, current: &str) -> (r: bool)
    ensures
        r == parts_gt(version_parts(latest@), version_parts(current@)),
{
    let a = parts_of(latest);
    let b = parts_of(current);
    let mut i: usize = 0;
    assert(a@.skip(0) =~= a@ && b@.skip(0) =~= b@);
    while i < a.len() && i < b.len() && a[i] == b[i]
        invariant
            i <= a@.len(),
            i <= b@.len(),
            parts_gt(a@, b@) == parts_gt(a@.skip(i as int), b@.skip(i as int)),
        decreases a@.len() - i,
    {
        assert(a@.skip(i as int).drop_first() =~= a@.skip(i + 1));
        assert(b@.skip(i as int).drop_first() =~= b@.skip(i + 1));
        i = i + 1;
    }
    if i == a.len() {
        false
    } else if i == b.len() {
        true
    } else {
        a[i] > b[i]
    }
}

/// What the string field `key` of a JSON text is, when the text parses as
/// JSON and the field holds a string (`serde_json`).
pub uninterp spec fn json_str_field(body: Seq<char>, key: Seq<char>) -> Option<Seq<char>>;

pub open spec fn ov(o: Option<String>) -> Option<Seq<char>> {
    match o {
        Some(s) => Some(s@),
        None => None,
    }
}

/// `serde_json::from_str::<Value>` then `value[key].as_str()`: the result is
/// named `json_str_field` of the text and the key; the JSON grammar is not
/// restated.
#[verifier::external_body]
fn json_string_field(body: &str, key: &str) -> (r: Option<String>)
    ensures
        ov(r) == json_str_field(body@, key@),
{
    match serde_json::from_str::<serde_json::Value>(body) {
        Ok(v) => v[key].as_str().map(|s| s.to_owned()),
        Err(_) => None,
    }
}

pub struct UpdateInfoV {
    pub version: Seq<char>,
    pub release_url: Seq<char>,
}

impl View for UpdateInfo {
    type V = UpdateInfoV;

    open spec fn view(&self) -> UpdateInfoV {
        UpdateInfoV { version: self.version@, release_url: self.release_url@ }
    }
}

/// The update to offer, from the release's tag and page and the running
/// version: only for a non-empty page of a newer version.
pub open spec fn spec_update(
    tag_name: Option<Seq<char>>,
    html_url: Option<Seq<char>>,
    current: Seq<char>,
) -> Option<UpdateInfoV> {
    match (tag_name, html_url) {
        (Some(tag), Some(url)) => if url.len() > 0 && parts_gt(
            version_parts(tag),
            version_parts(current),
        ) {
            Some(UpdateInfoV { version: trim_start_char(tag, 'v'), release_url: url })
        } else {
            None
        },
        _ => None,
    }
}

pub fn update_from(tag_name: Option<&str>, html_url: Option<&str>, current: &str) -> (r: Option<
    UpdateInfo,
>)
    ensures
        (match r {
            Some(u) => Some(u@),
            None => None,
        }) == spec_update(
            match tag_name {
                Some(t) => Some(t@),
                None => None,
            },
            match html_url {
                Some(u) => Some(u@),
                None => None,
            },
            current@,
        ),
{
    match (tag_name, html_url) {
        (Some(tag), Some(url)) => {
            if !url.is_empty() && version_gt(tag, current) {
                let tv = chars_of(tag);
                let v = trim_start_char_exec(tv.as_slice(), 'v');
                Some(UpdateInfo { version: string_of_all(v.as_slice()), release_url: url.to_owned() })
            } else {
                None
            }
        },
        _ => None,
    }
}

/// The update to offer from the body of GitHub's latest-release answer
/// (its `tag_name` and `html_url`) and the running version.
pub fn check_for_update(body: &str, current: &str) -> (r: Option<UpdateInfo>)
    ensures
        (match r {
            Some(u) => Some(u@),
            None => None,
        }) == spec_update(
            json_str_field(body@, "tag_name"@),
            json_str_field(body@, "html_url"@),
            current@,
        ),
{
    let tag = json_string_field(body, "tag_name");
    let url = json_string_field(body, "html_url");
    match (&tag, &url) {
        (Some(t), Some(u)) => update_from(Some(t.as_str()), Some(u.as_str()), current),
        (Some(t), None) => update_from(Some(t.as_str()), None, current),
        (None, Some(u)) => update_from(None, Some(u.as_str()), current),
        (None, None) => update_from(None, None, current),
    }
}

/// A version is never newer than itself.
pub proof fn law_version_not_gt_itself(v: Seq<u32>)
    ensures
        !parts_gt(v, v),
    decreases v.len(),
{
    if v.len() > 0 {
        law_version_not_gt_itself(v.drop_first());
    }
}

/// Of two versions at most one is newer than the other.
pub proof fn law_version_gt_asymmetric(a: Seq<u32>, b: Seq<u32>)
    ensures
        !(parts_gt(a, b) && parts_gt(b, a)),
    decreases a.len(),
{
    if a.len() > 0 && b.len() > 0 && a[0] == b[0] {
        law_version_gt_asymmetric(a.drop_first(), b.drop_first());
    }
}


/// Newer is transitive: a version newer than one that is newer than a third
/// is newer than the third.
pub proof fn law_version_gt_transitive(a: Seq<u32>, b: Seq<u32>, c: Seq<u32>)
    requires
        parts_gt(a, b),
        parts_gt(b, c),
    ensures
        parts_gt(a, c),
    decreases a.len(),
{
    if c.len() > 0 && a[0] == b[0] && b[0] == c[0] {
        law_version_gt_transitive(a.drop_first(), b.drop_first(), c.drop_first());
    }
}

} // verus!
