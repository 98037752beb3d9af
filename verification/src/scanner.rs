//! Stateless recursive scanner: walks a snapshot of a filesystem subtree and
//! accumulates aggregate statistics (file count, total bytes).

use vstd::prelude::*;

verus! {

/// Running aggregate statistics: how many regular files the scans have
/// visited and how many bytes those files held, accumulated across all
/// scans since the watch started. The totals only ever grow; additions
/// saturate at `u64::MAX` instead of overflowing.
#[derive(Debug, Clone)]
pub struct Stats {
    pub files: u64,
    pub total_bytes: u64,
}

impl Stats {
    /// Both totals are zero.
    pub open spec fn is_zero(self) -> bool {
        self.files == 0 && self.total_bytes == 0
    }
}

impl Default for Stats {
    /// Fresh totals: no files seen, no bytes counted.
    fn default() -> (s: Stats)
        ensures
            s.is_zero(),
    {
        Stats { files: 0, total_bytes: 0 }
    }
}

/// Addition clamped to the range of `u64`.
pub open spec fn sat_add(a: int, b: int) -> int {
    if a + b > u64::MAX {
        u64::MAX as int
    } else {
        a + b
    }
}

/// A snapshot of what one filesystem path denotes at scan time: a regular
/// file with its size, a directory with the snapshots of its immediate
/// children, or nothing scannable (`Absent`: the path is gone, unreadable,
/// or a special file).
pub enum FsTree {
    File { size: u64 },
    Dir { children: Vec<FsTree> },
    Absent,
}

/// Number of regular files in one snapshot.
pub open spec fn tree_file_count(t: FsTree) -> int
    decreases t,
{
    match t {
        FsTree::File { .. } => 1,
        FsTree::Dir { children } => seq_file_count(children@),
        FsTree::Absent => 0,
    }
}

/// Number of regular files across a sequence of snapshots.
pub open spec fn seq_file_count(s: Seq<FsTree>) -> int
    decreases s,
{
    if s.len() == 0 {
        0
    } else {
        seq_file_count(s.drop_last()) + tree_file_count(s.last())
    }
}

/// Total size in bytes of the regular files in one snapshot.
pub open spec fn tree_byte_total(t: FsTree) -> int
    decreases t,
{
    match t {
        FsTree::File { size } => size as int,
        FsTree::Dir { children } => seq_byte_total(children@),
        FsTree::Absent => 0,
    }
}

/// Total size in bytes of the regular files across a sequence of snapshots.
pub open spec fn seq_byte_total(s: Seq<FsTree>) -> int
    decreases s,
{
    if s.len() == 0 {
        0
    } else {
        seq_byte_total(s.drop_last()) + tree_byte_total(s.last())
    }
}

/// File counts and byte totals are never negative.
pub proof fn lemma_tree_totals_nonneg(t: FsTree)
    ensures
        tree_file_count(t) >= 0,
        tree_byte_total(t) >= 0,
    decreases t,
{
    match t {
        FsTree::File { .. } => {},
        FsTree::Dir { children } => {
            lemma_seq_totals_nonneg(children@);
        },
        FsTree::Absent => {},
    }
}

/// File counts and byte totals of snapshot sequences are never negative.
pub proof fn lemma_seq_totals_nonneg(s: Seq<FsTree>)
    ensures
        seq_file_count(s) >= 0,
        seq_byte_total(s) >= 0,
    decreases s,
{
    if s.len() > 0 {
        lemma_seq_totals_nonneg(s.drop_last());
        lemma_tree_totals_nonneg(s.last());
    }
}

/// Totals over a prefix grow by exactly the contribution of the next
/// snapshot in the sequence.
pub proof fn lemma_seq_totals_take_step(s: Seq<FsTree>, i: int)
    requires
        0 <= i < s.len(),
    ensures
        seq_file_count(s.take(i + 1)) == seq_file_count(s.take(i)) + tree_file_count(s[i]),
        seq_byte_total(s.take(i + 1)) == seq_byte_total(s.take(i)) + tree_byte_total(s[i]),
{
    assert(s.take(i + 1).drop_last() =~= s.take(i));
    assert(s.take(i + 1).last() == s[i]);
}

/// Removing one snapshot from a sequence removes exactly its contribution
/// from the totals.
pub proof fn lemma_seq_totals_remove(s: Seq<FsTree>, j: int)
    requires
        0 <= j < s.len(),
    ensures
        seq_file_count(s) == tree_file_count(s[j]) + seq_file_count(s.remove(j)),
        seq_byte_total(s) == tree_byte_total(s[j]) + seq_byte_total(s.remove(j)),
    decreases s.len(),
{
    if j == s.len() - 1 {
        assert(s.remove(j) =~= s.drop_last());
    } else {
        lemma_seq_totals_remove(s.drop_last(), j);
        assert(s.remove(j).drop_last() =~= s.drop_last().remove(j));
        assert(s.remove(j).last() == s.last());
    }
}

/// Scanning totals depend only on which snapshots a listing holds, not on
/// the order in which they were listed: two listings with the same
/// multiset of entries have the same file count and the same byte total.
pub proof fn lemma_scan_totals_order_independent(s1: Seq<FsTree>, s2: Seq<FsTree>)
    requires
        s1.to_multiset() == s2.to_multiset(),
    ensures
        seq_file_count(s1) == seq_file_count(s2),
        seq_byte_total(s1) == seq_byte_total(s2),
    decreases s1.len(),
{
    broadcast use vstd::seq_lib::group_seq_properties;

    s1.to_multiset_ensures();
    s2.to_multiset_ensures();
    if s1.len() == 0 {
        assert(s2.to_multiset().len() == 0);
    } else {
        let x = s1.last();
        let i1 = s1.len() - 1;
        assert(s1[i1] == x);
        assert(s1.contains(x));
        assert(s2.to_multiset().count(x) > 0);
        assert(s2.contains(x));
        let j = choose|j: int| 0 <= j < s2.len() && s2[j] == x;
        assert(s1.remove(i1) =~= s1.drop_last());
        assert(s1.remove(i1).to_multiset() == s1.to_multiset().remove(x));
        assert(s2.remove(j).to_multiset() == s2.to_multiset().remove(x));
        lemma_scan_totals_order_independent(s1.drop_last(), s2.remove(j));
        lemma_seq_totals_remove(s2, j);
    }
}

/// The running totals never decrease: a scan adds a snapshot's
/// non-negative contribution, clamped at `u64::MAX`, so the totals after
/// any scan are at least the totals before it.
pub proof fn lemma_scan_never_decreases_totals(s: Stats, t: FsTree)
    ensures
        sat_add(s.files as int, tree_file_count(t)) >= s.files,
        sat_add(s.total_bytes as int, tree_byte_total(t)) >= s.total_bytes,
{
    lemma_tree_totals_nonneg(t);
}

/// Record one regular file of the given size in the running totals.
fn scan_file(size: u64, stats: &mut Stats)
    ensures
        final(stats).files == sat_add(old(stats).files as int, 1),
        final(stats).total_bytes == sat_add(old(stats).total_bytes as int, size as int),
{
    if stats.files < u64::MAX {
        stats.files = stats.files + 1;
    }
    if stats.total_bytes <= u64::MAX - size {
        stats.total_bytes = stats.total_bytes + size;
    } else {
        stats.total_bytes = u64::MAX;
    }
}

/// Scan every snapshot in a directory listing, in listing order.
fn scan_dir(children: &Vec<FsTree>, stats: &mut Stats)
    ensures
        final(stats).files == sat_add(old(stats).files as int, seq_file_count(children@)),
        final(stats).total_bytes == sat_add(
            old(stats).total_bytes as int,
            seq_byte_total(children@),
        ),
    decreases children,
{
    let n = children.len();
    let mut i: usize = 0;
    assert(children@.take(0) =~= Seq::<FsTree>::empty());
    while i < n
        invariant
            n == children@.len(),
            i <= n,
            stats.files == sat_add(
                old(stats).files as int,
                seq_file_count(children@.take(i as int)),
            ),
            stats.total_bytes == sat_add(
                old(stats).total_bytes as int,
                seq_byte_total(children@.take(i as int)),
            ),
        decreases n - i,
    {
        proof {
            lemma_seq_totals_take_step(children@, i as int);
            lemma_seq_totals_nonneg(children@.take(i as int));
            lemma_tree_totals_nonneg(children@[i as int]);
        }
        scan_path(&children[i], stats);
        i = i + 1;
    }
    assert(children@.take(n as int) =~= children@);
}

/// Scan one path snapshot and fold its contribution into the running
/// totals: a regular file adds one to the file count and its size to the
/// byte total, a directory is scanned recursively, and an `Absent`
/// snapshot adds nothing. The final totals are the old totals plus the
/// snapshot's file count and byte total, each clamped at `u64::MAX`.
pub fn scan_path(tree: &FsTree, stats: &mut Stats)
    ensures
        final(stats).files == sat_add(old(stats).files as int, tree_file_count(*tree)),
        final(stats).total_bytes == sat_add(
            old(stats).total_bytes as int,
            tree_byte_total(*tree),
        ),
    decreases tree,
{
    match tree {
        FsTree::File { size } => scan_file(*size, stats),
        FsTree::Dir { children } => scan_dir(children, stats),
        FsTree::Absent => {},
    }
}

} // verus!
