//! The traversal order: every (document, rule) pair of a run, and whether the
//! pair is sent to the rule-checking service or skipped as too large.
use vstd::prelude::*;
use crate::selector::{Entry, SelectorConfig, eligible};

verus! {

#[derive(Clone, Copy, PartialEq, Eq, Structural)]
pub enum TaskKind {
    /// The pair is sent to the rule-checking service.
    Evaluate,
    /// The document is over the size limit: the pair is reported and skipped.
    SkipTooLarge,
}

/// One (document, rule) pair: indices into the walked entries and the rules.
#[derive(Clone, Copy)]
pub struct Task {
    pub doc: usize,
    pub rule: usize,
    pub kind: TaskKind,
}

pub open spec fn kind_for(cfg: SelectorConfig, e: Entry) -> TaskKind {
    if e.size > cfg.max_size {
        TaskKind::SkipTooLarge
    } else {
        TaskKind::Evaluate
    }
}

/// The pairs of entry `d` with each of `nrules` rules, in rule order.
pub open spec fn doc_tasks(cfg: SelectorConfig, entries: Seq<Entry>, d: int, nrules: nat) -> Seq<
    Task,
> {
    Seq::new(
        nrules,
        |j: int| Task { doc: d as usize, rule: j as usize, kind: kind_for(cfg, entries[d]) },
    )
}

/// The pairs of the first `n` entries: for each eligible entry in walk order,
/// its pairs with every rule in rule order.
pub open spec fn plan_upto(cfg: SelectorConfig, entries: Seq<Entry>, nrules: nat, n: int) -> Seq<
    Task,
>
    decreases n,
{
    if n <= 0 {
        Seq::empty()
    } else if eligible(cfg, entries[n - 1]) {
        plan_upto(cfg, entries, nrules, n - 1) + doc_tasks(cfg, entries, n - 1, nrules)
    } else {
        plan_upto(cfg, entries, nrules, n - 1)
    }
}

pub open spec fn plan_spec(cfg: SelectorConfig, entries: Seq<Entry>, nrules: nat) -> Seq<Task> {
    plan_upto(cfg, entries, nrules, entries.len() as int)
}

/// `a` comes before `b` in traversal order.
pub open spec fn before(a: Task, b: Task) -> bool {
    a.doc < b.doc || (a.doc == b.doc && a.rule < b.rule)
}

/// Every pair of the plan is of an eligible entry, and is evaluated exactly
/// when the entry is within the size limit.
pub open spec fn planned_pairs_sound(cfg: SelectorConfig, entries: Seq<Entry>, nrules: nat, p: Seq<
    Task,
>, n: int) -> bool {
    forall|i: int|
        0 <= i < p.len() ==> {
            &&& (#[trigger] p[i]).doc < n
            &&& p[i].rule < nrules
            &&& eligible(cfg, entries[p[i].doc as int])
            &&& p[i].kind == kind_for(cfg, entries[p[i].doc as int])
        }
}

pub open spec fn strictly_ordered(p: Seq<Task>) -> bool {
    forall|i: int, k: int| 0 <= i < k < p.len() ==> before(#[trigger] p[i], #[trigger] p[k])
}

pub open spec fn covers(p: Seq<Task>, d: int, j: int) -> bool {
    exists|i: int| 0 <= i < p.len() && (#[trigger] p[i]).doc == d && p[i].rule == j
}

proof fn lemma_plan_upto(cfg: SelectorConfig, entries: Seq<Entry>, nrules: nat, n: int)
    requires
        0 <= n <= entries.len(),
        entries.len() <= usize::MAX,
        nrules <= usize::MAX,
    ensures
        planned_pairs_sound(cfg, entries, nrules, plan_upto(cfg, entries, nrules, n), n),
        strictly_ordered(plan_upto(cfg, entries, nrules, n)),
        forall|d: int, j: int|
            0 <= d < n && 0 <= j < nrules && eligible(cfg, entries[d]) ==> covers(
                plan_upto(cfg, entries, nrules, n),
                d,
                j,
            ),
    decreases n,
{
    if n > 0 {
        lemma_plan_upto(cfg, entries, nrules, n - 1);
        let prev = plan_upto(cfg, entries, nrules, n - 1);
        let p = plan_upto(cfg, entries, nrules, n);
        if eligible(cfg, entries[n - 1]) {
            let extra = doc_tasks(cfg, entries, n - 1, nrules);
            assert(p == prev + extra);
            assert forall|i: int| 0 <= i < p.len() implies {
                &&& (#[trigger] p[i]).doc < n
                &&& p[i].rule < nrules
                &&& eligible(cfg, entries[p[i].doc as int])
                &&& p[i].kind == kind_for(cfg, entries[p[i].doc as int])
            } by {
                if i >= prev.len() {
                    assert(p[i] == extra[i - prev.len()]);
                } else {
                    assert(p[i] == prev[i]);
                }
            }
            assert forall|i: int, k: int| 0 <= i < k < p.len() implies before(
                #[trigger] p[i],
                #[trigger] p[k],
            ) by {
                if k < prev.len() {
                    assert(p[i] == prev[i] && p[k] == prev[k]);
                } else if i < prev.len() {
                    assert(p[i] == prev[i]);
                    assert(prev[i].doc < n - 1);
                } else {
                    assert(p[i] == extra[i - prev.len()]);
                    assert(p[k] == extra[k - prev.len()]);
                }
            }
            assert forall|d: int, j: int|
                0 <= d < n && 0 <= j < nrules && eligible(cfg, entries[d]) implies covers(
                p,
                d,
                j,
            ) by {
                if d < n - 1 {
                    assert(covers(prev, d, j));
                    let i = choose|i: int| 0 <= i < prev.len() && (#[trigger] prev[i]).doc == d
                        && prev[i].rule == j;
                    assert(p[i] == prev[i]);
                    assert(p[i].doc == d && p[i].rule == j);
                } else {
                    let i = prev.len() + j;
                    assert(p[i] == extra[j]);
                    assert(p[i].doc == d && p[i].rule == j);
                }
            }
        }
    }
}

/// Every pair of the plan names an eligible entry and a rule.
pub proof fn lemma_plan_sound(cfg: SelectorConfig, entries: Seq<Entry>, nrules: nat)
    requires
        entries.len() <= usize::MAX,
        nrules <= usize::MAX,
    ensures
        planned_pairs_sound(cfg, entries, nrules, plan_spec(cfg, entries, nrules), entries.len() as int),
{
    lemma_plan_upto(cfg, entries, nrules, entries.len() as int);
}

/// No pair of the plan is of an excluded entry: an entry that is not a regular file,
/// or whose extension or name is in the exclusion tables, is never checked.
pub proof fn lemma_excluded_never_planned(
    cfg: SelectorConfig,
    entries: Seq<Entry>,
    nrules: nat,
    d: int,
)
    requires
        entries.len() <= usize::MAX,
        nrules <= usize::MAX,
        0 <= d < entries.len(),
        !eligible(cfg, entries[d]),
    ensures
        forall|i: int|
            0 <= i < plan_spec(cfg, entries, nrules).len() ==> (#[trigger] plan_spec(
                cfg,
                entries,
                nrules,
            )[i]).doc != d,
{
    lemma_plan_upto(cfg, entries, nrules, entries.len() as int);
}

/// A document over the size limit is never sent: each of its pairs with a
/// rule is planned once, as a skip.
pub proof fn lemma_oversized_only_skipped(
    cfg: SelectorConfig,
    entries: Seq<Entry>,
    nrules: nat,
    d: int,
)
    requires
        entries.len() <= usize::MAX,
        nrules <= usize::MAX,
        0 <= d < entries.len(),
        entries[d].size > cfg.max_size,
    ensures
        forall|i: int|
            0 <= i < plan_spec(cfg, entries, nrules).len() && (#[trigger] plan_spec(
                cfg,
                entries,
                nrules,
            )[i]).doc == d ==> plan_spec(cfg, entries, nrules)[i].kind == TaskKind::SkipTooLarge,
        eligible(cfg, entries[d]) ==> forall|j: int|
            0 <= j < nrules ==> #[trigger] covers(plan_spec(cfg, entries, nrules), d, j),
{
    lemma_plan_upto(cfg, entries, nrules, entries.len() as int);
}

/// Each eligible document is paired with each rule exactly once, in
/// traversal order; the pair is evaluated exactly when the document is within
/// the size limit.
pub proof fn lemma_every_pair_once(
    cfg: SelectorConfig,
    entries: Seq<Entry>,
    nrules: nat,
    d: int,
    j: int,
)
    requires
        entries.len() <= usize::MAX,
        nrules <= usize::MAX,
        0 <= d < entries.len(),
        0 <= j < nrules,
        eligible(cfg, entries[d]),
    ensures
        covers(plan_spec(cfg, entries, nrules), d, j),
        forall|i: int, k: int|
            0 <= i < plan_spec(cfg, entries, nrules).len() && 0 <= k < plan_spec(
                cfg,
                entries,
                nrules,
            ).len() && (#[trigger] plan_spec(cfg, entries, nrules)[i]).doc == d && plan_spec(
                cfg,
                entries,
                nrules,
            )[i].rule == j && (#[trigger] plan_spec(cfg, entries, nrules)[k]).doc == d
                && plan_spec(cfg, entries, nrules)[k].rule == j ==> i == k && plan_spec(
                cfg,
                entries,
                nrules,
            )[i].kind == kind_for(cfg, entries[d]),
        strictly_ordered(plan_spec(cfg, entries, nrules)),
{
    lemma_plan_upto(cfg, entries, nrules, entries.len() as int);
    let p = plan_spec(cfg, entries, nrules);
    assert forall|i: int, k: int|
        0 <= i < p.len() && 0 <= k < p.len() && (#[trigger] p[i]).doc == d && p[i].rule == j && (
        #[trigger] p[k]).doc == d && p[k].rule == j implies i == k && p[i].kind == kind_for(
        cfg,
        entries[d],
    ) by {
        if k < i {
            assert(before(p[k], p[i]));
        } else if i < k {
            assert(before(p[i], p[k]));
        }
    }
}

/// The plan of a run: `plan_spec` computed.
pub fn plan(cfg: &SelectorConfig, entries: &Vec<Entry>, nrules: usize) -> (r: Vec<Task>)
    ensures
        r@ == plan_spec(*cfg, entries@, nrules as nat),
{
    let mut r: Vec<Task> = Vec::new();
    let mut d: usize = 0;
    while d < entries.len()
        invariant
            d <= entries.len(),
            r@ == plan_upto(*cfg, entries@, nrules as nat, d as int),
        decreases entries.len() - d,
    {
        if cfg.is_eligible(&entries[d]) {
            let kind = if entries[d].size > cfg.max_size {
                TaskKind::SkipTooLarge
            } else {
                TaskKind::Evaluate
            };
            let ghost prev = r@;
            let mut j: usize = 0;
            while j < nrules
                invariant
                    d < entries.len(),
                    j <= nrules,
                    kind == kind_for(*cfg, entries@[d as int]),
                    r@ == prev + doc_tasks(*cfg, entries@, d as int, nrules as nat).take(j as int),
                decreases nrules - j,
            {
                r.push(Task { doc: d, rule: j, kind });
                assert(doc_tasks(*cfg, entries@, d as int, nrules as nat).take(j as int + 1)
                    =~= doc_tasks(*cfg, entries@, d as int, nrules as nat).take(j as int).push(
                    Task { doc: d, rule: j, kind },
                ));
                assert(r@ =~= prev + doc_tasks(*cfg, entries@, d as int, nrules as nat).take(
                    j as int + 1,
                ));
                j = j + 1;
            }
            assert(doc_tasks(*cfg, entries@, d as int, nrules as nat).take(nrules as int)
                =~= doc_tasks(*cfg, entries@, d as int, nrules as nat));
        }
        d = d + 1;
    }
    r
}

} // verus!
