//! The reconciliation cycle: which paths get probed (every cached entry,
//! plus every freshly discovered path not already cached), how the probe
//! outcomes merge into a result (successes kept, failures counted and
//! dropped), and the ordering of the published list (newest commit
//! first). The probing itself is the caller's concurrent work; every
//! decision around it lives here.
use vstd::prelude::*;

use crate::gitrepo::GitRepo;

verus! {

broadcast use vstd::seq_lib::group_to_multiset_ensures;

/// The path of every repository, in order.
pub open spec fn paths_of(rs: Seq<GitRepo>) -> Seq<Seq<char>> {
    rs.map_values(|r: GitRepo| r.path@)
}

/// Some repository in `rs` has path `p`.
pub open spec fn contains_path(rs: Seq<GitRepo>, p: Seq<char>) -> bool {
    exists|k: int| 0 <= k < rs.len() && #[trigger] rs[k].path@ == p
}

/// No two entries share a path.
pub open spec fn unique_paths(ps: Seq<Seq<char>>) -> bool {
    forall|a: int, b: int| 0 <= a < b < ps.len() ==> ps[a] != ps[b]
}

/// The discovered paths that are new this cycle: those not already in
/// the cache, in discovery order.
pub open spec fn spec_fresh(prev: Seq<GitRepo>, disc: Seq<Seq<char>>) -> Seq<Seq<char>>
    decreases disc.len(),
{
    if disc.len() == 0 {
        Seq::empty()
    } else {
        spec_fresh(prev, disc.drop_last()) + if contains_path(prev, disc.last()) {
            Seq::empty()
        } else {
            seq![disc.last()]
        }
    }
}

/// Everything one cycle probes: every cached path, then every fresh one.
pub open spec fn spec_probe_list(prev: Seq<GitRepo>, disc: Seq<Seq<char>>) -> Seq<Seq<char>> {
    paths_of(prev) + spec_fresh(prev, disc)
}

/// The work of one cycle, split as the cache reconciliation needs it:
/// `reprobe` holds every previously cached repository (each is probed
/// again), `fresh` every discovered path that the cache does not know.
pub struct ReconcilePlan {
    pub reprobe: Vec<GitRepo>,
    pub fresh: Vec<String>,
}

/// Some repository in `prev` has path `p`.
fn contains_path_exec(prev: &Vec<GitRepo>, p: &String) -> (b: bool)
    ensures
        b == contains_path(prev@, p@),
{
    let mut k: usize = 0;
    while k < prev.len()
        invariant
            k <= prev@.len(),
            forall|x: int| 0 <= x < k ==> prev@[x].path@ != p@,
        decreases prev@.len() - k,
    {
        if prev[k].path.eq(p) {
            return true;
        }
        k = k + 1;
    }
    false
}

/// Split one cycle's work. Without a previous cache everything
/// discovered is fresh; with one, every cached entry is re-probed and
/// exactly the discovered paths missing from the cache are fresh.
pub fn plan_cycle(previous: Option<Vec<GitRepo>>, discovered: Vec<String>) -> (plan: ReconcilePlan)
    ensures
        previous is None ==> plan.reprobe@.len() == 0 && plan.fresh == discovered,
        previous matches Some(prev) ==> plan.reprobe == prev && plan.fresh.deep_view()
            == spec_fresh(prev@, discovered.deep_view()),
{
    match previous {
        None => ReconcilePlan { reprobe: Vec::new(), fresh: discovered },
        Some(prev) => {
            let ghost disc = discovered.deep_view();
            let mut fresh: Vec<String> = Vec::new();
            let mut i: usize = 0;
            proof {
                assert(disc.subrange(0, 0) =~= Seq::<Seq<char>>::empty());
                assert(fresh.deep_view() =~= spec_fresh(prev@, disc.subrange(0, 0)));
            }
            let mut rest = discovered;
            let n = rest.len();
            proof {
                assert(disc.len() == n);
            }
            while i < n
                invariant
                    i <= n,
                    n == rest@.len(),
                    disc == rest.deep_view(),
                    fresh.deep_view() == spec_fresh(prev@, disc.subrange(0, i as int)),
                decreases n - i,
            {
                let p = &rest[i];
                proof {
                    assert(p@ == disc[i as int]);
                    assert(disc.subrange(0, i + 1).drop_last() =~= disc.subrange(0, i as int));
                    assert(disc.subrange(0, i + 1).last() == disc[i as int]);
                }
                let ghost fresh_before = fresh.deep_view();
                if !contains_path_exec(&prev, p) {
                    let q = p.clone();
                    fresh.push(q);
                    proof {
                        assert(fresh.deep_view() =~~= fresh_before + seq![disc[i as int]]);
                    }
                } else {
                    proof {
                        assert(fresh.deep_view() =~~= fresh_before + Seq::<Seq<char>>::empty());
                    }
                }
                proof {
                    assert(fresh.deep_view() =~~= spec_fresh(prev@, disc.subrange(0, i + 1)));
                }
                i = i + 1;
            }
            proof {
                assert(disc.subrange(0, n as int) =~= disc);
            }
            ReconcilePlan { reprobe: prev, fresh }
        },
    }
}

/// The successful outcomes, in order.
pub open spec fn successes(os: Seq<Option<GitRepo>>) -> Seq<GitRepo>
    decreases os.len(),
{
    if os.len() == 0 {
        Seq::empty()
    } else {
        (match os.first() {
            Some(g) => seq![g],
            None => Seq::empty(),
        }) + successes(os.drop_first())
    }
}

/// How many outcomes failed.
pub open spec fn failure_count(os: Seq<Option<GitRepo>>) -> int
    decreases os.len(),
{
    if os.len() == 0 {
        0int
    } else {
        (if os.first() is None {
            1int
        } else {
            0int
        }) + failure_count(os.drop_first())
    }
}

/// A failure count never exceeds the number of outcomes.
proof fn lemma_failure_count_bound(os: Seq<Option<GitRepo>>)
    ensures
        0 <= failure_count(os) <= os.len(),
    decreases os.len(),
{
    if os.len() > 0 {
        lemma_failure_count_bound(os.drop_first());
    }
}

/// Merge probe outcomes: keep every success in order, count the
/// failures — a failed probe only drops that repository from the cycle.
pub fn collect_outcomes(outcomes: Vec<Option<GitRepo>>) -> (r: (Vec<GitRepo>, u64))
    ensures
        r.0@ == successes(outcomes@),
        r.1 as int == failure_count(outcomes@),
{
    let ghost orig = outcomes@;
    let mut rest = outcomes;
    let n = rest.len();
    let mut out: Vec<GitRepo> = Vec::new();
    let mut errs: u64 = 0;
    proof {
        lemma_failure_count_bound(orig);
    }
    while rest.len() > 0
        invariant
            n == orig.len(),
            successes(orig) == out@ + successes(rest@),
            failure_count(orig) == errs + failure_count(rest@),
            errs <= n - rest@.len(),
        decreases rest@.len(),
    {
        proof {
            lemma_failure_count_bound(rest@);
            assert(rest@.remove(0) =~= rest@.drop_first());
        }
        let o = rest.remove(0);
        match o {
            Some(g) => {
                out.push(g);
                proof {
                    assert(out@ + successes(rest@) =~= successes(orig));
                }
            },
            None => {
                errs = errs + 1;
            },
        }
    }
    proof {
        assert(out@ + successes(rest@) =~= out@);
    }
    (out, errs)
}

/// Newest commit first: `last_commit_time` never increases along the
/// list.
pub open spec fn sorted_desc(rs: Seq<GitRepo>) -> bool {
    forall|a: int, b: int|
        0 <= a <= b < rs.len() ==> rs[a].last_commit_time >= rs[b].last_commit_time
}

/// Order a list of repositories by their newest commit, most recent
/// first. The result holds exactly the given records.
pub fn sort_repos_by_time(input: Vec<GitRepo>) -> (r: Vec<GitRepo>)
    ensures
        sorted_desc(r@),
        r@.to_multiset() == input@.to_multiset(),
{
    let ghost orig = input@;
    let mut rest = input;
    let mut out: Vec<GitRepo> = Vec::new();
    proof {
        assert(out@.to_multiset().add(rest@.to_multiset()) =~= orig.to_multiset());
    }
    while rest.len() > 0
        invariant
            out@.to_multiset().add(rest@.to_multiset()) == orig.to_multiset(),
            sorted_desc(out@),
            forall|a: int, b: int|
                0 <= a < out@.len() && 0 <= b < rest@.len() ==> out@[a].last_commit_time
                    >= rest@[b].last_commit_time,
        decreases rest@.len(),
    {
        let mut mx: usize = 0;
        let mut i: usize = 1;
        while i < rest.len()
            invariant
                1 <= i <= rest@.len(),
                mx < i,
                forall|k: int|
                    0 <= k < i ==> rest@[mx as int].last_commit_time
                        >= (#[trigger] rest@[k]).last_commit_time,
            decreases rest@.len() - i,
        {
            if rest[i].last_commit_time > rest[mx].last_commit_time {
                mx = i;
            }
            i = i + 1;
        }
        let ghost rest_before = rest@;
        let x = rest.remove(mx);
        out.push(x);
        proof {
            assert(out@.to_multiset().add(rest@.to_multiset()) =~= orig.to_multiset());
            assert forall|b: int|
                0 <= b < rest@.len() implies x.last_commit_time
                >= (#[trigger] rest@[b]).last_commit_time by {
                if b < mx {
                    assert(rest@[b] == rest_before[b]);
                } else {
                    assert(rest@[b] == rest_before[b + 1]);
                }
            }
        }
    }
    out
}

/// Merge and order one cycle's outcomes: the published list holds every
/// success, newest commit first, and the error count is the number of
/// failed probes.
pub fn finish_cycle(outcomes: Vec<Option<GitRepo>>) -> (r: (Vec<GitRepo>, u64))
    ensures
        sorted_desc(r.0@),
        r.0@.to_multiset() == successes(outcomes@).to_multiset(),
        r.1 as int == failure_count(outcomes@),
{
    let (collected, errs) = collect_outcomes(outcomes);
    let sorted = sort_repos_by_time(collected);
    (sorted, errs)
}

/// What `spec_fresh` holds: exactly the discovered paths missing from
/// the cache — the set difference that merge correctness speaks of.
pub proof fn lemma_fresh_membership(prev: Seq<GitRepo>, disc: Seq<Seq<char>>, p: Seq<char>)
    ensures
        spec_fresh(prev, disc).contains(p) <==> (disc.contains(p) && !contains_path(prev, p)),
    decreases disc.len(),
{
    if disc.len() == 0 {
    } else {
        let head = disc.drop_last();
        lemma_fresh_membership(prev, head, p);
        let fr = spec_fresh(prev, disc);
        let fr0 = spec_fresh(prev, head);
        assert(forall|j: int| 0 <= j < head.len() ==> head[j] == disc[j]);
        if fr.contains(p) {
            let i = choose|i: int| 0 <= i < fr.len() && fr[i] == p;
            if i < fr0.len() {
                assert(fr0[i] == p);
                assert(fr0.contains(p));
            } else {
                assert(p == disc.last());
                assert(disc[disc.len() - 1] == p);
                assert(disc.contains(p));
                assert(!contains_path(prev, p));
            }
        }
        if disc.contains(p) && !contains_path(prev, p) {
            let j = choose|j: int| 0 <= j < disc.len() && disc[j] == p;
            if j < disc.len() - 1 {
                assert(head[j] == p);
                assert(head.contains(p));
                assert(fr0.contains(p));
                let i = choose|i: int| 0 <= i < fr0.len() && fr0[i] == p;
                assert(fr[i] == p);
                assert(fr.contains(p));
            } else {
                assert(p == disc.last());
                assert(fr[fr0.len() as int] == p);
                assert(fr.contains(p));
            }
        }
        if fr0.contains(p) {
            let i = choose|i: int| 0 <= i < fr0.len() && fr0[i] == p;
            assert(fr[i] == p);
            assert(fr.contains(p));
        }
    }
}

/// Fresh paths keep the discovery order's uniqueness.
proof fn lemma_fresh_unique(prev: Seq<GitRepo>, disc: Seq<Seq<char>>)
    requires
        unique_paths(disc),
    ensures
        unique_paths(spec_fresh(prev, disc)),
    decreases disc.len(),
{
    if disc.len() == 0 {
    } else {
        let head = disc.drop_last();
        assert(forall|j: int| 0 <= j < head.len() ==> head[j] == disc[j]);
        assert(unique_paths(head));
        lemma_fresh_unique(prev, head);
        let fr = spec_fresh(prev, disc);
        let fr0 = spec_fresh(prev, head);
        assert forall|a: int, b: int| 0 <= a < b < fr.len() implies fr[a] != fr[b] by {
            if b < fr0.len() {
                assert(fr[a] == fr0[a] && fr[b] == fr0[b]);
            } else {
                assert(fr[b] == disc.last());
                assert(fr[a] == fr0[a]);
                assert(fr0.contains(fr0[a]));
                lemma_fresh_membership(prev, head, fr0[a]);
                let j = choose|j: int| 0 <= j < head.len() && head[j] == fr0[a];
                assert(disc[j] != disc[disc.len() - 1]);
            }
        }
    }
}

/// Merge correctness: one cycle probes every cached path once and every
/// fresh path once, and no path twice — the probe list is free of
/// repeats whenever the cache and the discovery are.
pub proof fn lemma_no_path_probed_twice(prev: Seq<GitRepo>, disc: Seq<Seq<char>>)
    requires
        unique_paths(paths_of(prev)),
        unique_paths(disc),
    ensures
        unique_paths(spec_probe_list(prev, disc)),
{
    lemma_fresh_unique(prev, disc);
    let pl = spec_probe_list(prev, disc);
    let pp = paths_of(prev);
    let fr = spec_fresh(prev, disc);
    assert forall|a: int, b: int| 0 <= a < b < pl.len() implies pl[a] != pl[b] by {
        if b < pp.len() {
            assert(pl[a] == pp[a] && pl[b] == pp[b]);
        } else if a >= pp.len() {
            assert(pl[a] == fr[a - pp.len()] && pl[b] == fr[b - pp.len()]);
        } else {
            assert(pl[a] == pp[a] && pl[b] == fr[b - pp.len()]);
            assert(fr.contains(fr[b - pp.len()]));
            lemma_fresh_membership(prev, disc, fr[b - pp.len()]);
            assert(!contains_path(prev, fr[b - pp.len()]));
            assert(prev[a].path@ == pp[a]);
        }
    }
}

/// Idempotence of the cycle, path part: when the first cycle's probes
/// all succeeded, its result holds exactly the probed paths; a second
/// cycle over the same filesystem then finds nothing fresh and probes
/// exactly the paths it already holds.
pub proof fn lemma_reconcile_idempotent(prev: Seq<GitRepo>, r1: Seq<GitRepo>, disc: Seq<Seq<char>>)
    requires
        paths_of(r1).to_multiset() == spec_probe_list(prev, disc).to_multiset(),
    ensures
        spec_fresh(r1, disc) =~= Seq::<Seq<char>>::empty(),
        spec_probe_list(r1, disc) =~= paths_of(r1),
{
    let fr2 = spec_fresh(r1, disc);
    if fr2.len() > 0 {
        let p = fr2[0];
        assert(fr2.contains(p));
        lemma_fresh_membership(r1, disc, p);
        assert(disc.contains(p));
        let j = choose|j: int| 0 <= j < disc.len() && disc[j] == p;
        // p reaches the first cycle's probe list, either as a cached
        // path or as a fresh one
        if contains_path(prev, p) {
            let k = choose|k: int| 0 <= k < prev.len() && prev[k].path@ == p;
            assert(paths_of(prev)[k] == p);
            assert(spec_probe_list(prev, disc)[k] == p);
            assert(spec_probe_list(prev, disc).contains(p));
        } else {
            lemma_fresh_membership(prev, disc, p);
            let k = choose|k: int|
                0 <= k < spec_fresh(prev, disc).len() && spec_fresh(prev, disc)[k] == p;
            assert(spec_probe_list(prev, disc)[paths_of(prev).len() + k] == p);
            assert(spec_probe_list(prev, disc).contains(p));
        }
        // so the first result carries it, and it is not fresh again
        assert(spec_probe_list(prev, disc).to_multiset().count(p) > 0);
        assert(paths_of(r1).to_multiset().count(p) > 0);
        assert(paths_of(r1).contains(p));
        let k = choose|k: int| 0 <= k < paths_of(r1).len() && paths_of(r1)[k] == p;
        assert(r1[k].path@ == p);
        assert(contains_path(r1, p));
        assert(false);
    }
    assert(fr2 =~= Seq::<Seq<char>>::empty());
    assert(spec_probe_list(r1, disc) =~= paths_of(r1) + fr2);
}

/// Idempotence, status part: records built by per-path deterministic
/// probes agree wherever their paths agree — re-probing a repository
/// whose state did not change reproduces its status and commit time.
pub proof fn lemma_same_probes_same_records(
    rs1: Seq<GitRepo>,
    rs2: Seq<GitRepo>,
    status_of: Map<Seq<char>, crate::status::GitStatus>,
    time_of: Map<Seq<char>, u64>,
)
    requires
        forall|k: int|
            0 <= k < rs1.len() ==> (#[trigger] rs1[k]).status == status_of[rs1[k].path@]
                && rs1[k].last_commit_time == time_of[rs1[k].path@],
        forall|k: int|
            0 <= k < rs2.len() ==> (#[trigger] rs2[k]).status == status_of[rs2[k].path@]
                && rs2[k].last_commit_time == time_of[rs2[k].path@],
    ensures
        forall|a: int, b: int|
            0 <= a < rs1.len() && 0 <= b < rs2.len() && (#[trigger] rs1[a]).path@
                == (#[trigger] rs2[b]).path@ ==> rs1[a].status == rs2[b].status
                && rs1[a].last_commit_time == rs2[b].last_commit_time,
{
}

} // verus!
