//! Lane layout of the commit graph.
use vstd::prelude::*;
use super::types::{CommitInfo, CommitInfoV, GraphLine, GraphLineV, strs_of};

verus! {

pub const COLORS: u32 = 6;

/// The lanes: for each column, the commit it is waiting for, if any.
pub type Lanes = Seq<Option<Seq<char>>>;

/// First column from `i` on whose lane equals `target`.
pub open spec fn first_where(lanes: Lanes, target: Option<Seq<char>>, i: int) -> Option<int>
    decreases lanes.len() - i,
{
    if i < 0 || i >= lanes.len() {
        None
    } else if lanes[i] == target {
        Some(i)
    } else {
        first_where(lanes, target, i + 1)
    }
}

/// A free column: the first empty lane, or a new one.
pub open spec fn free_column(lanes: Lanes) -> (Lanes, int) {
    match first_where(lanes, None, 0) {
        Some(c) => (lanes, c),
        None => (lanes.push(None), lanes.len() as int),
    }
}

/// The column of commit `oid`: the first lane waiting for it, else a free one.
pub open spec fn node_column(lanes: Lanes, oid: Seq<char>) -> (Lanes, int) {
    match first_where(lanes, Some(oid), 0) {
        Some(c) => (lanes, c),
        None => free_column(lanes),
    }
}

pub open spec fn graph_line(from: int, to: int, color_of: int, style: Seq<char>) -> GraphLineV {
    GraphLineV {
        from_column: from as u32,
        to_column: to as u32,
        color: ((color_of as u32) % COLORS) as u32,
        style,
    }
}

/// Merge lines of the first `n` lanes: other lanes waiting for `oid` join
/// column `col`.
pub open spec fn merge_lines(lanes: Lanes, oid: Seq<char>, col: int, n: int) -> Seq<GraphLineV>
    decreases n,
{
    if n <= 0 {
        Seq::empty()
    } else {
        let prev = merge_lines(lanes, oid, col, n - 1);
        let i = n - 1;
        if i != col && lanes[i] == Some(oid) {
            prev.push(
                graph_line(
                    i,
                    col,
                    i,
                    if i > col {
                        "merge-left"@
                    } else {
                        "merge-right"@
                    },
                ),
            )
        } else {
            prev
        }
    }
}

/// The lanes once commit `oid` at column `col` is resolved.
pub open spec fn resolved_lanes(lanes: Lanes, oid: Seq<char>, col: int) -> Lanes {
    Seq::new(
        lanes.len(),
        |i: int|
            if i == col || lanes[i] == Some(oid) {
                None
            } else {
                lanes[i]
            },
    )
}

/// Straight lines of the first `n` lanes that pass by column `col`.
pub open spec fn pass_lines(lanes: Lanes, col: int, n: int) -> Seq<GraphLineV>
    decreases n,
{
    if n <= 0 {
        Seq::empty()
    } else {
        let prev = pass_lines(lanes, col, n - 1);
        let i = n - 1;
        if i != col && lanes[i] is Some {
            prev.push(graph_line(i, i, i, "straight"@))
        } else {
            prev
        }
    }
}

/// The lane of each further parent: one already waiting for it is reused
/// (no line), else a free column gets it and a fork line from `col`.
pub open spec fn fork_fold(lanes: Lanes, col: int, ps: Seq<Seq<char>>) -> (Lanes, Seq<GraphLineV>)
    decreases ps.len(),
{
    if ps.len() == 0 {
        (lanes, Seq::empty())
    } else {
        let (l0, lines0) = fork_fold(lanes, col, ps.drop_last());
        let p = ps.last();
        if first_where(l0, Some(p), 0) is Some {
            (l0, lines0)
        } else {
            let (l1, j) = free_column(l0);
            (l1.update(j, Some(p)), lines0.push(graph_line(col, j, j, "fork"@)))
        }
    }
}

/// One commit placed: the next lanes, its column and its lines.
pub open spec fn lane_step(lanes: Lanes, oid: Seq<char>, parents: Seq<Seq<char>>) -> (
    Lanes,
    int,
    Seq<GraphLineV>,
) {
    let (l1, col) = node_column(lanes, oid);
    let merges = merge_lines(l1, oid, col, l1.len() as int);
    let l3 = resolved_lanes(l1, oid, col);
    let passes = pass_lines(l3, col, l3.len() as int);
    let node = graph_line(col, col, col, "straight"@);
    let lines = merges + passes + seq![node];
    if parents.len() == 0 {
        (l3, col, lines)
    } else {
        let l4 = l3.update(col, Some(parents[0]));
        let (l5, forks) = fork_fold(l4, col, parents.skip(1));
        (l5, col, lines + forks)
    }
}

/// The layout of commits in `git log` order: the lanes after them, and the
/// column and lines of each.
pub open spec fn layout(cs: Seq<CommitInfoV>) -> (Lanes, Seq<(u32, Seq<GraphLineV>)>)
    decreases cs.len(),
{
    if cs.len() == 0 {
        (Seq::empty(), Seq::empty())
    } else {
        let (lanes, out) = layout(cs.drop_last());
        let (l2, col, lines) = lane_step(lanes, cs.last().oid, cs.last().parents);
        (l2, out.push((col as u32, lines)))
    }
}

/// A commit with its column and lines set.
pub open spec fn placed(c: CommitInfoV, p: (u32, Seq<GraphLineV>)) -> CommitInfoV {
    CommitInfoV { column: p.0, lines: p.1, ..c }
}

pub open spec fn lane_v(o: Option<String>) -> Option<Seq<char>> {
    match o {
        Some(s) => Some(s@),
        None => None,
    }
}

pub open spec fn lanes_view(v: Seq<Option<String>>) -> Lanes {
    v.map_values(|o: Option<String>| lane_v(o))
}

pub open spec fn lines_view(v: Seq<GraphLine>) -> Seq<GraphLineV> {
    v.map_values(|l: GraphLine| l@)
}

proof fn lemma_first_where(lanes: Lanes, target: Option<Seq<char>>, i: int)
    requires
        0 <= i,
    ensures
        first_where(lanes, target, i) matches Some(c) ==> i <= c < lanes.len() && lanes[c] == target,
        first_where(lanes, target, i) is None ==> forall|k: int| i <= k < lanes.len() ==> lanes[k] != target,
    decreases lanes.len() - i,
{
    if i < lanes.len() && lanes[i] != target {
        lemma_first_where(lanes, target, i + 1);
    }
}

fn lane_eq(l: &Option<String>, target: &Option<String>) -> (b: bool)
    ensures
        b == (lane_v(*l) == lane_v(*target)),
{
    match (l, target) {
        (Some(a), Some(b)) => *a == *b,
        (None, None) => true,
        _ => false,
    }
}

fn find_lane(lanes: &Vec<Option<String>>, target: &Option<String>) -> (r: Option<usize>)
    ensures
        r matches Some(c) ==> first_where(lanes_view(lanes@), lane_v(*target), 0) == Some(
            c as int,
        ),
        r is None ==> first_where(lanes_view(lanes@), lane_v(*target), 0) is None,
{
    let ghost lv = lanes_view(lanes@);
    let ghost t = lane_v(*target);
    let mut i: usize = 0;
    while i < lanes.len()
        invariant
            i <= lanes@.len() == lv.len(),
            lv == lanes_view(lanes@),
            t == lane_v(*target),
            first_where(lv, t, 0) == first_where(lv, t, i as int),
        decreases lanes@.len() - i,
    {
        assert(lane_v(lanes@[i as int]) == lv[i as int]);
        if lane_eq(&lanes[i], target) {
            return Some(i);
        }
        i = i + 1;
    }
    None
}

fn free_lane(lanes: &mut Vec<Option<String>>) -> (j: usize)
    ensures
        (lanes_view(final(lanes)@), j as int) == free_column(lanes_view(old(lanes)@)),
        j < final(lanes)@.len(),
{
    let none: Option<String> = None;
    assert(lane_v(none) == None::<Seq<char>>);
    match find_lane(lanes, &none) {
        Some(c) => {
            proof {
                lemma_first_where(lanes_view(lanes@), None, 0);
            }
            c
        },
        None => {
            lanes.push(None);
            assert(lanes_view(lanes@) =~= lanes_view(old(lanes)@).push(None));
            lanes.len() - 1
        },
    }
}

fn line(from: usize, to: usize, color_of: usize, style: &str) -> (l: GraphLine)
    ensures
        l@ == graph_line(from as int, to as int, color_of as int, style@),
{
    GraphLine {
        from_column: from as u32,
        to_column: to as u32,
        color: (color_of as u32) % COLORS,
        style: style.to_owned(),
    }
}

/// Places one commit; returns its column and lines.
fn place_commit(lanes: &mut Vec<Option<String>>, oid: &String, parents: &Vec<String>) -> (r: (
    usize,
    Vec<GraphLine>,
))
    ensures
        ({
            let (l2, col, ls) = lane_step(lanes_view(old(lanes)@), oid@, strs_of(parents@));
            &&& lanes_view(final(lanes)@) == l2
            &&& r.0 as int == col
            &&& lines_view(r.1@) == ls
        }),
{
    let ghost l0 = lanes_view(lanes@);
    let target = Some(oid.clone());
    assert(lane_v(target) == Some(oid@));
    let col = match find_lane(lanes, &target) {
        Some(c) => {
            proof {
                lemma_first_where(l0, Some(oid@), 0);
            }
            c
        },
        None => free_lane(lanes),
    };
    let ghost l1 = lanes_view(lanes@);
    assert((l1, col as int) == node_column(l0, oid@));
    let mut lines: Vec<GraphLine> = Vec::new();
    let n = lanes.len();
    // lanes waiting for this commit merge into its column
    let mut i: usize = 0;
    while i < n
        invariant
            n == lanes@.len() == l1.len(),
            col < n,
            i <= n,
            lane_v(target) == Some(oid@),
            forall|k: int| 0 <= k < n ==> #[trigger] lanes_view(lanes@)[k] == (if k < i && k != col
                && l1[k] == Some(oid@) {
                None
            } else {
                l1[k]
            }),
            lines_view(lines@) == merge_lines(l1, oid@, col as int, i as int),
        decreases n - i,
    {
        assert(lanes_view(lanes@)[i as int] == l1[i as int]);
        assert(lane_v(lanes@[i as int]) == lanes_view(lanes@)[i as int]);
        if i != col && lane_eq(&lanes[i], &target) {
            let style = if i > col {
                "merge-left"
            } else {
                "merge-right"
            };
            let ghost prev = lines@;
            lines.push(line(i, col, i, style));
            assert(lines_view(lines@) =~= lines_view(prev).push(lines@.last()@));
            let ghost before = lanes@;
            lanes.set(i, None);
            assert(lanes_view(lanes@) =~= lanes_view(before).update(i as int, None));
            assert forall|k: int| 0 <= k < n implies #[trigger] lanes_view(lanes@)[k] == (if k < i + 1
                && k != col && l1[k] == Some(oid@) {
                None
            } else {
                l1[k]
            }) by {
                if k != i {
                    assert(lanes_view(lanes@)[k] == lanes_view(before)[k]);
                }
            }
        }
        i = i + 1;
    }
    let ghost before3 = lanes@;
    lanes.set(col, None);
    assert(lanes_view(lanes@) =~= lanes_view(before3).update(col as int, None));
    let ghost l3 = resolved_lanes(l1, oid@, col as int);
    assert(lanes_view(lanes@) =~= l3);
    // lanes passing by
    let ghost merges = lines_view(lines@);
    let mut i: usize = 0;
    while i < n
        invariant
            n == lanes@.len() == l3.len(),
            col < n,
            i <= n,
            lanes_view(lanes@) == l3,
            lines_view(lines@) == merges + pass_lines(l3, col as int, i as int),
        decreases n - i,
    {
        assert(l3[i as int] == lanes_view(lanes@)[i as int]);
        if i != col && lanes[i].is_some() {
            let ghost prev = lines@;
            lines.push(line(i, i, i, "straight"));
            assert(lines_view(lines@) =~= lines_view(prev).push(lines@.last()@));
        }
        i = i + 1;
    }
    let ghost prev = lines@;
    lines.push(line(col, col, col, "straight"));
    assert(lines_view(lines@) =~= lines_view(prev).push(lines@.last()@));
    let ghost base = lines_view(lines@);
    if parents.len() == 0 {
        return (col, lines);
    }
    let ghost before4 = lanes@;
    lanes.set(col, Some(parents[0].clone()));
    assert(lanes_view(lanes@) =~= lanes_view(before4).update(col as int, Some(parents@[0]@)));
    let ghost l4 = lanes_view(lanes@);
    assert(l4 =~= l3.update(col as int, Some(strs_of(parents@)[0])));
    let ghost ps = strs_of(parents@).skip(1);
    let mut k: usize = 1;
    assert(ps.take(0) =~= Seq::<Seq<char>>::empty());
    while k < parents.len()
        invariant
            1 <= k <= parents@.len(),
            ps == strs_of(parents@).skip(1),
            col < lanes@.len(),
            ({
                let (lf, forks) = fork_fold(l4, col as int, ps.take(k - 1));
                &&& lanes_view(lanes@) == lf
                &&& lines_view(lines@) == base + forks
            }),
        decreases parents@.len() - k,
    {
        assert(ps.take(k as int).drop_last() =~= ps.take(k - 1));
        assert(ps.take(k as int).last() == parents@[k as int]@);
        let t = Some(parents[k].clone());
        assert(lane_v(t) == Some(parents@[k as int]@));
        match find_lane(lanes, &t) {
            Some(_) => {},
            None => {
                let j = free_lane(lanes);
                let ghost lj = lanes_view(lanes@);
                let ghost bj = lanes@;
                lanes.set(j, t);
                assert(lanes_view(lanes@) =~= lanes_view(bj).update(j as int, lane_v(t)));
                assert(lanes_view(lanes@) =~= lj.update(j as int, Some(parents@[k as int]@)));
                let ghost prev = lines@;
                lines.push(line(col, j, j, "fork"));
                assert(lines_view(lines@) =~= lines_view(prev).push(lines@.last()@));
            },
        }
        k = k + 1;
    }
    assert(ps.take(parents@.len() - 1) =~= ps);
    (col, lines)
}

/// Assigns each commit its column and the lines drawn in its row, for
/// commits in `git log` order (newest first, topologically consistent).
pub fn assign_lanes(commits: &mut Vec<CommitInfo>)
    ensures
        final(commits)@.len() == old(commits)@.len(),
        forall|i: int|
            0 <= i < old(commits)@.len() ==> #[trigger] final(commits)@[i]@ == placed(
                old(commits)@[i]@,
                layout(old(commits)@.map_values(|c: CommitInfo| c@)).1[i],
            ),
{
    let ghost cs = old(commits)@.map_values(|c: CommitInfo| c@);
    let mut lanes: Vec<Option<String>> = Vec::new();
    let mut idx: usize = 0;
    let n = commits.len();
    assert(cs.take(0) =~= Seq::<CommitInfoV>::empty());
    assert(lanes_view(lanes@) =~= Seq::<Option<Seq<char>>>::empty());
    while idx < n
        invariant
            n == commits@.len() == cs.len(),
            cs == old(commits)@.map_values(|c: CommitInfo| c@),
            idx <= n,
            lanes_view(lanes@) == layout(cs.take(idx as int)).0,
            layout(cs.take(idx as int)).1.len() == idx,
            forall|i: int| idx <= i < n ==> #[trigger] commits@[i] == old(commits)@[i],
            forall|i: int|
                0 <= i < idx ==> #[trigger] commits@[i]@ == placed(cs[i], layout(cs.take(idx as int)).1[i]),
        decreases n - idx,
    {
        assert(cs.take(idx + 1).drop_last() =~= cs.take(idx as int));
        assert(cs.take(idx + 1).last() == cs[idx as int]);
        assert(commits@[idx as int]@ == cs[idx as int]);
        let (col, lines) = place_commit(&mut lanes, &commits[idx].oid, &commits[idx].parents);
        let ghost before = commits@;
        let mut c = commits.remove(idx);
        c.column = col as u32;
        c.lines = lines;
        commits.insert(idx, c);
        assert(commits@ =~= before.update(idx as int, c));
        idx = idx + 1;
        assert forall|i: int| 0 <= i < idx implies #[trigger] commits@[i]@ == placed(
            cs[i],
            layout(cs.take(idx as int)).1[i],
        ) by {
            if i < idx - 1 {
                assert(commits@[i] == before[i]);
            }
        }
    }
    assert(cs.take(n as int) =~= cs);
}

proof fn lemma_fork_fold_len(lanes: Lanes, col: int, ps: Seq<Seq<char>>)
    ensures
        fork_fold(lanes, col, ps).0.len() >= lanes.len(),
    decreases ps.len(),
{
    if ps.len() > 0 {
        lemma_fork_fold_len(lanes, col, ps.drop_last());
        let l0 = fork_fold(lanes, col, ps.drop_last()).0;
        lemma_first_where(l0, None, 0);
        lemma_first_where(l0, Some(ps.last()), 0);
    }
}

/// Every commit is drawn: its row holds a straight line at its own column,
/// and that column is one of the lanes that follow it.
pub proof fn law_commit_node_drawn(lanes: Lanes, oid: Seq<char>, parents: Seq<Seq<char>>)
    ensures
        ({
            let (after, col, lines) = lane_step(lanes, oid, parents);
            &&& 0 <= col < after.len()
            &&& lines.contains(graph_line(col, col, col, "straight"@))
        }),
{
    lemma_first_where(lanes, Some(oid), 0);
    let (l1, col) = node_column(lanes, oid);
    if first_where(lanes, Some(oid), 0) is None {
        lemma_first_where(lanes, None, 0);
    }
    assert(0 <= col < l1.len());
    let merges = merge_lines(l1, oid, col, l1.len() as int);
    let l3 = resolved_lanes(l1, oid, col);
    let passes = pass_lines(l3, col, l3.len() as int);
    let node = graph_line(col, col, col, "straight"@);
    let lines = merges + passes + seq![node];
    assert(lines[(merges.len() + passes.len()) as int] == node);
    if parents.len() > 0 {
        let l4 = l3.update(col, Some(parents[0]));
        lemma_fork_fold_len(l4, col, parents.skip(1));
        let forks = fork_fold(l4, col, parents.skip(1)).1;
        assert((lines + forks)[(merges.len() + passes.len()) as int] == node);
    }
}


proof fn lemma_pass_lines_has(lanes: Lanes, col: int, n: int, i: int)
    requires
        0 <= i < n <= lanes.len(),
        i != col,
        lanes[i] is Some,
    ensures
        pass_lines(lanes, col, n).contains(graph_line(i, i, i, "straight"@)),
    decreases n,
{
    let prev = pass_lines(lanes, col, n - 1);
    if i == n - 1 {
        let r = prev.push(graph_line(i, i, i, "straight"@));
        assert(r[r.len() - 1] == graph_line(i, i, i, "straight"@));
    } else {
        lemma_pass_lines_has(lanes, col, n - 1, i);
        let k = choose|k: int| 0 <= k < prev.len() && prev[k] == graph_line(i, i, i, "straight"@);
        if (n - 1) != col && lanes[n - 1] is Some {
            assert(prev.push(graph_line(n - 1, n - 1, n - 1, "straight"@))[k] == prev[k]);
        }
    }
}

proof fn lemma_node_column(lanes: Lanes, oid: Seq<char>)
    ensures
        node_column(lanes, oid).0.len() >= lanes.len(),
        node_column(lanes, oid).0.len() <= lanes.len() + 1,
        0 <= node_column(lanes, oid).1 < node_column(lanes, oid).0.len(),
        forall|k: int| 0 <= k < lanes.len() ==> #[trigger] node_column(lanes, oid).0[k] == lanes[k],
{
    lemma_first_where(lanes, Some(oid), 0);
    lemma_first_where(lanes, None, 0);
}

/// Lanes that go on past a commit are drawn through its row: every lane
/// other than the commit's own column that waits for some other commit is a
/// straight line at its column in the row, left or right of the commit.
pub proof fn law_waiting_lanes_pass_through(lanes: Lanes, oid: Seq<char>, parents: Seq<Seq<char>>, i: int)
    requires
        0 <= i < lanes.len(),
        lanes[i] is Some,
        lanes[i] != Some(oid),
        i != lane_step(lanes, oid, parents).1,
    ensures
        lane_step(lanes, oid, parents).2.contains(graph_line(i, i, i, "straight"@)),
{
    lemma_node_column(lanes, oid);
    let (l1, col) = node_column(lanes, oid);
    let merges = merge_lines(l1, oid, col, l1.len() as int);
    let l3 = resolved_lanes(l1, oid, col);
    let passes = pass_lines(l3, col, l3.len() as int);
    let node = graph_line(col, col, col, "straight"@);
    let lines = merges + passes + seq![node];
    assert(l1[i] == lanes[i]);
    assert(l3[i] == lanes[i]);
    lemma_pass_lines_has(l3, col, l3.len() as int, i);
    let k = choose|k: int| 0 <= k < passes.len() && passes[k] == graph_line(i, i, i, "straight"@);
    assert(lines[merges.len() + k] == graph_line(i, i, i, "straight"@));
    if parents.len() > 0 {
        let l4 = l3.update(col, Some(parents[0]));
        let forks = fork_fold(l4, col, parents.skip(1)).1;
        assert((lines + forks)[merges.len() + k] == graph_line(i, i, i, "straight"@));
    }
}

proof fn lemma_layout_len(cs: Seq<CommitInfoV>)
    ensures
        layout(cs).1.len() == cs.len(),
    decreases cs.len(),
{
    if cs.len() > 0 {
        lemma_layout_len(cs.drop_last());
    }
}

proof fn lemma_layout_rows(cs: Seq<CommitInfoV>, k: int)
    requires
        0 <= k < cs.len(),
    ensures
        layout(cs).1.len() == cs.len(),
        ({
            let (_, col, lines) = lane_step(layout(cs.take(k)).0, cs[k].oid, cs[k].parents);
            layout(cs).1[k] == (col as u32, lines)
        }),
    decreases cs.len(),
{
    let init = cs.drop_last();
    lemma_layout_len(cs);
    lemma_layout_len(init);
    if k < cs.len() - 1 {
        lemma_layout_rows(init, k);
        assert(init.take(k) =~= cs.take(k));
        assert(init[k] == cs[k]);
    } else {
        assert(cs.take(k) =~= init);
    }
}

/// In the laid-out graph, every row draws the lanes that pass its commit:
/// a lane left open by the rows above, waiting for another commit, and not
/// the commit's own column, is a straight line at its column in the row.
pub proof fn law_rows_draw_waiting_lanes(cs: Seq<CommitInfoV>, k: int, i: int)
    requires
        0 <= k < cs.len(),
        layout(cs.take(k)).0.len() < u32::MAX,
        0 <= i < layout(cs.take(k)).0.len(),
        layout(cs.take(k)).0[i] is Some,
        layout(cs.take(k)).0[i] != Some(cs[k].oid),
        i as u32 != layout(cs).1[k].0,
    ensures
        layout(cs).1[k].1.contains(graph_line(i, i, i, "straight"@)),
{
    let before = layout(cs.take(k)).0;
    lemma_layout_rows(cs, k);
    lemma_node_column(before, cs[k].oid);
    let col = lane_step(before, cs[k].oid, cs[k].parents).1;
    assert(col == node_column(before, cs[k].oid).1);
    assert(i != col);
    law_waiting_lanes_pass_through(before, cs[k].oid, cs[k].parents, i);
}

} // verus!
