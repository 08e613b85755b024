//! Folder tree counts: the number of videos in a folder together with all of
//! its descendant folders.
//!
//! The folder rows come from the database in two steps. First the ids of
//! all descendants are collected, one level at a time
//! ([`DescendantCollector`]); then the parent links and direct video counts of
//! those folders are read, and [`subtree_video_counts`] sums them.
use vstd::prelude::*;
use crate::sql::{placeholder_list, placeholders};

verus! {

/// The direct video count of folder `x`: the count of the last entry for
/// `x`, or 0 when there is none.
pub open spec fn direct_of(d: Seq<(i64, i64)>, x: i64) -> int
    decreases d.len(),
{
    if d.len() == 0 {
        0
    } else if d.last().0 == x {
        d.last().1 as int
    } else {
        direct_of(d.drop_last(), x)
    }
}

/// Videos in the folder tree below `x`, following at most `fuel` levels of
/// parent links (`x` itself is the first level).
pub open spec fn subtree_sum(e: Seq<(i64, Option<i64>)>, d: Seq<(i64, i64)>, x: i64, fuel: nat) -> int
    decreases fuel, 0nat,
{
    if fuel == 0 {
        0
    } else {
        direct_of(d, x) + children_sum(e, d, x, (fuel - 1) as nat, e.len())
    }
}

/// The sum of `subtree_sum` over the children of `x` listed among the first
/// `n` folder rows.
pub open spec fn children_sum(
    e: Seq<(i64, Option<i64>)>,
    d: Seq<(i64, i64)>,
    x: i64,
    fuel: nat,
    n: nat,
) -> int
    decreases fuel, n,
{
    if n == 0 || n > e.len() {
        0
    } else {
        children_sum(e, d, x, fuel, (n - 1) as nat) + if e[n - 1].1 == Some(x) {
            subtree_sum(e, d, e[n - 1].0, fuel)
        } else {
            0
        }
    }
}

/// The depth bound with which counts are taken: one more level than there
/// are folder rows, enough for any chain of distinct folders.
pub open spec fn count_fuel(e: Seq<(i64, Option<i64>)>) -> nat {
    e.len() + 1
}

/// No direct count is negative (they are `COUNT(*)` values).
pub open spec fn counts_nonneg(d: Seq<(i64, i64)>) -> bool {
    forall|i: int| 0 <= i < d.len() ==> (#[trigger] d[i]).1 >= 0
}

/// `rank` decreases from every folder to each of its children: the parent
/// links have no cycle.
pub open spec fn ranked(e: Seq<(i64, Option<i64>)>, rank: spec_fn(i64) -> nat) -> bool {
    forall|i: int|
        0 <= i < e.len() ==> match (#[trigger] e[i]).1 {
            Some(p) => rank(e[i].0) < rank(p),
            None => true,
        }
}

// ---------------------------------------------------------------------------
// Lemmas
// ---------------------------------------------------------------------------

proof fn lemma_direct_nonneg(d: Seq<(i64, i64)>, x: i64)
    requires
        counts_nonneg(d),
    ensures
        direct_of(d, x) >= 0,
    decreases d.len(),
{
    if d.len() > 0 {
        assert(d[d.len() - 1].1 >= 0);
        lemma_direct_nonneg(d.drop_last(), x);
    }
}

proof fn lemma_sums_nonneg(e: Seq<(i64, Option<i64>)>, d: Seq<(i64, i64)>, x: i64, fuel: nat, n: nat)
    requires
        counts_nonneg(d),
    ensures
        subtree_sum(e, d, x, fuel) >= 0,
        children_sum(e, d, x, fuel, n) >= 0,
    decreases fuel, n,
{
    if fuel > 0 {
        lemma_direct_nonneg(d, x);
        lemma_sums_nonneg(e, d, x, (fuel - 1) as nat, e.len());
    }
    if n > 0 && n <= e.len() {
        lemma_sums_nonneg(e, d, x, fuel, (n - 1) as nat);
        lemma_sums_nonneg(e, d, e[n - 1].0, fuel, 0);
    }
}

proof fn lemma_children_mono(
    e: Seq<(i64, Option<i64>)>,
    d: Seq<(i64, i64)>,
    x: i64,
    fuel: nat,
    n: nat,
    m: nat,
)
    requires
        counts_nonneg(d),
        n <= m <= e.len(),
    ensures
        children_sum(e, d, x, fuel, n) <= children_sum(e, d, x, fuel, m),
    decreases m,
{
    if n < m {
        lemma_children_mono(e, d, x, fuel, n, (m - 1) as nat);
        lemma_sums_nonneg(e, d, e[m - 1].0, fuel, 0);
    }
}

/// With a rank that bounds the depth below `x`, more fuel changes nothing.
proof fn lemma_fuel_stable(
    e: Seq<(i64, Option<i64>)>,
    d: Seq<(i64, i64)>,
    rank: spec_fn(i64) -> nat,
    x: i64,
    f1: nat,
    f2: nat,
)
    requires
        ranked(e, rank),
        rank(x) < f1,
        rank(x) < f2,
    ensures
        subtree_sum(e, d, x, f1) == subtree_sum(e, d, x, f2),
    decreases f1, 0nat,
{
    lemma_children_stable(e, d, rank, x, (f1 - 1) as nat, (f2 - 1) as nat, e.len());
}

/// The children part of `lemma_fuel_stable`.
proof fn lemma_children_stable(
    e: Seq<(i64, Option<i64>)>,
    d: Seq<(i64, i64)>,
    rank: spec_fn(i64) -> nat,
    x: i64,
    g1: nat,
    g2: nat,
    n: nat,
)
    requires
        ranked(e, rank),
        rank(x) <= g1,
        rank(x) <= g2,
        n <= e.len(),
    ensures
        children_sum(e, d, x, g1, n) == children_sum(e, d, x, g2, n),
    decreases g1, n,
{
    if n > 0 {
        lemma_children_stable(e, d, rank, x, g1, g2, (n - 1) as nat);
        let i = n - 1;
        let c = e[i];
        if c.1 == Some(x) {
            assert(rank(c.0) < rank(x)) by {
                assert(match e[i].1 {
                    Some(p) => rank(e[i].0) < rank(p),
                    None => true,
                });
            }
            lemma_fuel_stable(e, d, rank, c.0, g1, g2);
        }
    }
}

// ---------------------------------------------------------------------------
// Laws
// ---------------------------------------------------------------------------

/// A folder's count covers the whole tree below it: when the parent links
/// have no cycle (a rank falls from parent to child and is at most the
/// number of folder rows), following more levels does not change it.
pub proof fn law_subtree_count_is_complete(
    e: Seq<(i64, Option<i64>)>,
    d: Seq<(i64, i64)>,
    rank: spec_fn(i64) -> nat,
    x: i64,
    fuel: nat,
)
    requires
        ranked(e, rank),
        rank(x) <= e.len(),
        fuel >= count_fuel(e),
    ensures
        subtree_sum(e, d, x, count_fuel(e)) == subtree_sum(e, d, x, fuel),
{
    lemma_fuel_stable(e, d, rank, x, count_fuel(e), fuel);
}

/// A folder's count is its own videos plus the counts of its children, when
/// the parent links have no cycle.
pub proof fn law_subtree_count_splits(
    e: Seq<(i64, Option<i64>)>,
    d: Seq<(i64, i64)>,
    rank: spec_fn(i64) -> nat,
    x: i64,
)
    requires
        ranked(e, rank),
        forall|y: i64| #[trigger] rank(y) <= e.len(),
    ensures
        subtree_sum(e, d, x, count_fuel(e)) == direct_of(d, x) + children_sum(
            e,
            d,
            x,
            count_fuel(e),
            e.len(),
        ),
{
    let f = count_fuel(e);
    lemma_children_stable(e, d, rank, x, e.len(), f, e.len());
}

/// The count of a folder is at least the count of each child folder.
pub proof fn law_child_count_within_parent(
    e: Seq<(i64, Option<i64>)>,
    d: Seq<(i64, i64)>,
    x: i64,
    fuel: nat,
    i: int,
)
    requires
        counts_nonneg(d),
        fuel > 0,
        0 <= i < e.len(),
        e[i].1 == Some(x),
    ensures
        subtree_sum(e, d, e[i].0, (fuel - 1) as nat) <= subtree_sum(e, d, x, fuel),
{
    let f = (fuel - 1) as nat;
    lemma_children_mono(e, d, x, f, (i + 1) as nat, e.len());
    lemma_children_mono(e, d, x, f, i as nat, i as nat);
    lemma_sums_nonneg(e, d, x, f, i as nat);
    lemma_direct_nonneg(d, x);
}

// ---------------------------------------------------------------------------
// Executable functions
// ---------------------------------------------------------------------------

/// The direct count of folder `x` (last entry wins, 0 when absent).
fn lookup_direct(direct: &Vec<(i64, i64)>, x: i64) -> (res: i64)
    ensures
        res == direct_of(direct@, x),
{
    let mut i: usize = direct.len();
    assert(direct@.take(i as int) =~= direct@);
    while i > 0
        invariant
            i <= direct@.len(),
            direct_of(direct@, x) == direct_of(direct@.take(i as int), x),
        decreases i,
    {
        assert(direct@.take(i as int).drop_last() =~= direct@.take(i - 1));
        let (fid, cnt) = direct[i - 1];
        if fid == x {
            return cnt;
        }
        i = i - 1;
    }
    0
}

/// `subtree_sum` of `x` with the given fuel.
fn subtree_total(edges: &Vec<(i64, Option<i64>)>, direct: &Vec<(i64, i64)>, x: i64, fuel: usize) -> (res:
    i64)
    requires
        counts_nonneg(direct@),
        subtree_sum(edges@, direct@, x, fuel as nat) <= i64::MAX,
    ensures
        res == subtree_sum(edges@, direct@, x, fuel as nat),
    decreases fuel,
{
    if fuel == 0 {
        return 0;
    }
    let ghost e = edges@;
    let ghost d = direct@;
    let ghost f = (fuel - 1) as nat;
    let mut total: i64 = lookup_direct(direct, x);
    proof {
        lemma_direct_nonneg(d, x);
        lemma_sums_nonneg(e, d, x, f, e.len());
    }
    let mut i: usize = 0;
    while i < edges.len()
        invariant
            e == edges@,
            d == direct@,
            f == fuel - 1,
            fuel > 0,
            counts_nonneg(d),
            i <= e.len(),
            subtree_sum(e, d, x, fuel as nat) <= i64::MAX,
            subtree_sum(e, d, x, fuel as nat) == direct_of(d, x) + children_sum(e, d, x, f, e.len()),
            total == direct_of(d, x) + children_sum(e, d, x, f, i as nat),
        decreases e.len() - i,
    {
        let (cid, parent) = edges[i];
        proof {
            lemma_children_mono(e, d, x, f, (i + 1) as nat, e.len());
            lemma_sums_nonneg(e, d, x, f, i as nat);
            lemma_direct_nonneg(d, x);
        }
        if parent == Some(x) {
            proof {
                lemma_sums_nonneg(e, d, cid, f, 0);
            }
            let sub = subtree_total(edges, direct, cid, fuel - 1);
            total = total + sub;
        }
        i = i + 1;
    }
    total
}

/// For each requested folder, the number of videos in it and in all of its
/// descendants: the direct count of the folder plus, for each folder row
/// naming it as parent, the count of that child, taken over at most
/// `count_fuel` levels.
pub fn subtree_video_counts(
    roots: &Vec<i64>,
    edges: &Vec<(i64, Option<i64>)>,
    direct: &Vec<(i64, i64)>,
) -> (res: Vec<(i64, i64)>)
    requires
        edges@.len() < usize::MAX,
        counts_nonneg(direct@),
        forall|k: int|
            0 <= k < roots@.len() ==> subtree_sum(edges@, direct@, #[trigger] roots@[k], count_fuel(edges@))
                <= i64::MAX,
    ensures
        res@.len() == roots@.len(),
        forall|k: int|
            0 <= k < roots@.len() ==> (#[trigger] res@[k]).0 == roots@[k] && res@[k].1 == subtree_sum(
                edges@,
                direct@,
                roots@[k],
                count_fuel(edges@),
            ),
{
    let fuel: usize = edges.len() + 1;
    let mut out: Vec<(i64, i64)> = Vec::new();
    let mut k: usize = 0;
    while k < roots.len()
        invariant
            fuel == count_fuel(edges@),
            counts_nonneg(direct@),
            k <= roots@.len(),
            out@.len() == k,
            forall|j: int|
                0 <= j < roots@.len() ==> subtree_sum(edges@, direct@, #[trigger] roots@[j], count_fuel(edges@))
                    <= i64::MAX,
            forall|j: int|
                0 <= j < k ==> (#[trigger] out@[j]).0 == roots@[j] && out@[j].1 == subtree_sum(
                    edges@,
                    direct@,
                    roots@[j],
                    count_fuel(edges@),
                ),
        decreases roots@.len() - k,
    {
        let r = roots[k];
        let total = subtree_total(edges, direct, r, fuel);
        out.push((r, total));
        k = k + 1;
    }
    out
}

/// `subtree_sum` of `x` with the given fuel, or `None` when it exceeds the
/// range of `i64`.
fn subtree_total_checked(
    edges: &Vec<(i64, Option<i64>)>,
    direct: &Vec<(i64, i64)>,
    x: i64,
    fuel: usize,
) -> (res: Option<i64>)
    requires
        counts_nonneg(direct@),
    ensures
        match res {
            Some(v) => v == subtree_sum(edges@, direct@, x, fuel as nat),
            None => subtree_sum(edges@, direct@, x, fuel as nat) > i64::MAX,
        },
    decreases fuel,
{
    if fuel == 0 {
        return Some(0);
    }
    let ghost e = edges@;
    let ghost d = direct@;
    let ghost f = (fuel - 1) as nat;
    let mut total: i64 = lookup_direct(direct, x);
    proof {
        lemma_direct_nonneg(d, x);
        lemma_sums_nonneg(e, d, x, f, e.len());
    }
    let mut i: usize = 0;
    while i < edges.len()
        invariant
            e == edges@,
            d == direct@,
            f == fuel - 1,
            fuel > 0,
            counts_nonneg(d),
            i <= e.len(),
            subtree_sum(e, d, x, fuel as nat) == direct_of(d, x) + children_sum(e, d, x, f, e.len()),
            total == direct_of(d, x) + children_sum(e, d, x, f, i as nat),
        decreases e.len() - i,
    {
        let (cid, parent) = edges[i];
        proof {
            lemma_children_mono(e, d, x, f, (i + 1) as nat, e.len());
            lemma_sums_nonneg(e, d, x, f, i as nat);
            lemma_direct_nonneg(d, x);
        }
        if parent == Some(x) {
            proof {
                lemma_sums_nonneg(e, d, cid, f, 0);
            }
            match subtree_total_checked(edges, direct, cid, fuel - 1) {
                None => {
                    return None;
                },
                Some(sub) => {
                    match total.checked_add(sub) {
                        None => {
                            return None;
                        },
                        Some(t) => {
                            total = t;
                        },
                    }
                },
            }
        }
        i = i + 1;
    }
    Some(total)
}

/// Whether every direct count is non-negative.
fn all_counts_nonneg(direct: &Vec<(i64, i64)>) -> (res: bool)
    ensures
        res == counts_nonneg(direct@),
{
    let mut i: usize = 0;
    while i < direct.len()
        invariant
            i <= direct@.len(),
            forall|k: int| 0 <= k < i ==> (#[trigger] direct@[k]).1 >= 0,
        decreases direct@.len() - i,
    {
        if direct[i].1 < 0 {
            return false;
        }
        i = i + 1;
    }
    true
}

/// [`subtree_video_counts`] for any rows: `None` when a direct count is
/// negative or a total does not fit in an `i64`, otherwise the count of each
/// requested folder.
pub fn subtree_video_counts_checked(
    roots: &Vec<i64>,
    edges: &Vec<(i64, Option<i64>)>,
    direct: &Vec<(i64, i64)>,
) -> (res: Option<Vec<(i64, i64)>>)
    requires
        edges@.len() < usize::MAX,
    ensures
        res is None <==> (!counts_nonneg(direct@) || exists|k: int|
            0 <= k < roots@.len() && subtree_sum(
                edges@,
                direct@,
                #[trigger] roots@[k],
                count_fuel(edges@),
            ) > i64::MAX),
        res matches Some(v) ==> v@.len() == roots@.len() && forall|k: int|
            0 <= k < roots@.len() ==> (#[trigger] v@[k]).0 == roots@[k] && v@[k].1 == subtree_sum(
                edges@,
                direct@,
                roots@[k],
                count_fuel(edges@),
            ),
{
    if !all_counts_nonneg(direct) {
        return None;
    }
    let fuel: usize = edges.len() + 1;
    let mut out: Vec<(i64, i64)> = Vec::new();
    let mut k: usize = 0;
    while k < roots.len()
        invariant
            fuel == count_fuel(edges@),
            counts_nonneg(direct@),
            k <= roots@.len(),
            out@.len() == k,
            forall|j: int|
                0 <= j < k ==> (#[trigger] out@[j]).0 == roots@[j] && out@[j].1 == subtree_sum(
                    edges@,
                    direct@,
                    roots@[j],
                    count_fuel(edges@),
                ),
            forall|j: int|
                0 <= j < k ==> subtree_sum(edges@, direct@, #[trigger] roots@[j], count_fuel(edges@))
                    <= i64::MAX,
        decreases roots@.len() - k,
    {
        let r = roots[k];
        match subtree_total_checked(edges, direct, r, fuel) {
            None => {
                assert(subtree_sum(edges@, direct@, roots@[k as int], count_fuel(edges@)) > i64::MAX);
                return None;
            },
            Some(total) => {
                out.push((r, total));
            },
        }
        k = k + 1;
    }
    Some(out)
}

/// The statement that reads the children of `n` folders.
pub open spec fn children_sql(n: nat) -> Seq<char> {
    "SELECT id FROM folders WHERE parent_id IN ("@ + placeholders(n) + ")"@
}

/// The statement that reads the direct video counts of `n` folders.
pub open spec fn direct_counts_sql(n: nat) -> Seq<char> {
    "SELECT folder_id, COUNT(*) FROM videos WHERE folder_id IN ("@ + placeholders(n)
        + ") GROUP BY folder_id"@
}

/// The statement that reads the parent links of `n` folders.
pub open spec fn parent_links_sql(n: nat) -> Seq<char> {
    "SELECT id, parent_id FROM folders WHERE id IN ("@ + placeholders(n) + ")"@
}

/// `head`, the `?` list of `n` values, and `tail`.
fn with_placeholders(head: &str, n: usize, tail: &str) -> (res: String)
    ensures
        res@ == head@ + placeholders(n as nat) + tail@,
{
    let marks = placeholder_list(n);
    let mut s = head.to_owned();
    s.append(marks.as_str());
    s.append(tail);
    s
}

/// The statement that reads the children of the frontier folders.
pub fn plan_children_query(frontier: &Vec<i64>) -> (res: String)
    ensures
        res@ == children_sql(frontier@.len()),
{
    with_placeholders("SELECT id FROM folders WHERE parent_id IN (", frontier.len(), ")")
}

/// The statement that reads the direct video counts of the folders.
pub fn plan_direct_counts_query(folders: &Vec<i64>) -> (res: String)
    ensures
        res@ == direct_counts_sql(folders@.len()),
{
    with_placeholders(
        "SELECT folder_id, COUNT(*) FROM videos WHERE folder_id IN (",
        folders.len(),
        ") GROUP BY folder_id",
    )
}

/// The statement that reads the parent links of the folders.
pub fn plan_parent_links_query(folders: &Vec<i64>) -> (res: String)
    ensures
        res@ == parent_links_sql(folders@.len()),
{
    with_placeholders("SELECT id, parent_id FROM folders WHERE id IN (", folders.len(), ")")
}

/// Collects a folder set and all of its descendants one level at a time: the
/// caller asks the database for the children of `frontier` and hands them to
/// [`DescendantCollector::absorb`] until none are left.
#[derive(Debug, Clone, PartialEq, Eq)]
pub struct DescendantCollector {
    /// The folders collected so far: the starting folders, then each level.
    pub all: Vec<i64>,
    /// The folders whose children are asked for next.
    pub frontier: Vec<i64>,
}

impl DescendantCollector {
    /// Starts from the requested folders.
    pub fn new(roots: &Vec<i64>) -> (res: DescendantCollector)
        ensures
            res.all@ == roots@,
            res.frontier@ == roots@,
    {
        DescendantCollector { all: roots.clone(), frontier: roots.clone() }
    }

    /// Takes the children found for the frontier. When there are none the
    /// collection is complete and `false` is returned; otherwise they become
    /// the new frontier and are added to `all`.
    pub fn absorb(&mut self, kids: Vec<i64>) -> (more: bool)
        ensures
            more == (kids@.len() > 0),
            more ==> final(self).all@ == old(self).all@ + kids@ && final(self).frontier@ == kids@,
            !more ==> final(self).all@ == old(self).all@ && final(self).frontier@ == old(
                self,
            ).frontier@,
    {
        if kids.len() == 0 {
            return false;
        }
        let mut i: usize = 0;
        let ghost before = self.all@;
        while i < kids.len()
            invariant
                i <= kids@.len(),
                self.all@ == before + kids@.take(i as int),
            decreases kids@.len() - i,
        {
            self.all.push(kids[i]);
            assert(kids@.take(i + 1) =~= kids@.take(i as int).push(kids@[i as int]));
            i = i + 1;
        }
        assert(kids@.take(kids@.len() as int) =~= kids@);
        self.frontier = kids;
        true
    }
}

} // verus!
