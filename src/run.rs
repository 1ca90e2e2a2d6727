//! The check orchestrator: a run as a state machine. Its driver asks for the
//! next action, performs it (reads the files, calls the rule-checking service)
//! and hands the answer back, until the run is finished.
use vstd::prelude::*;
use crate::plan::{
    Task, TaskKind, plan, plan_spec, kind_for, lemma_every_pair_once, lemma_plan_sound,
};
use crate::protocol::{CheckError, Verdict, verdict_from_response};
use crate::selector::{Entry, SelectorConfig, eligible};

verus! {

/// How a run ended.
pub enum RunOutcome {
    /// Every evaluated pair passed.
    Passed,
    /// The first failing pair, in traversal order.
    Failed { path: String, rule: String, message: String },
    /// A fatal error ended the run.
    Aborted { error: CheckError },
}

/// What the driver of a run does next.
pub enum Action {
    /// Send the content of `document` and of `rule` to the service, and hand
    /// the answer to `Run::record`.
    Evaluate { document: String, rule: String },
    /// Report that `document` is too large; it is not sent.
    SkipTooLarge { document: String },
    /// The run is over; its outcome is in `Run::outcome`.
    Finish,
}

/// A run over the walked entries and the rules, with `wf` as its invariant.
pub struct Run {
    config: SelectorConfig,
    entries: Vec<Entry>,
    rules: Vec<String>,
    tasks: Vec<Task>,
    /// Index of the next task.
    next: usize,
    /// The task at `next` has been handed out and its answer is awaited.
    awaiting: bool,
    outcome: Option<RunOutcome>,
    /// Indices of the tasks sent to the service, in the order sent.
    evaluated: Ghost<Seq<int>>,
    /// For each answer received, in order: whether it was a passing verdict.
    answers: Ghost<Seq<bool>>,
}

/// What a run is, as the contracts speak of it.
pub struct RunView {
    pub config: SelectorConfig,
    pub entries: Seq<Entry>,
    pub rules: Seq<String>,
    /// The pairs of the run, in traversal order.
    pub tasks: Seq<Task>,
    /// Index of the next pair.
    pub next: usize,
    /// The pair at `next` has been handed out and its answer is awaited.
    pub awaiting: bool,
    pub outcome: Option<RunOutcome>,
    /// Indices of the pairs sent to the service, in the order sent.
    pub evaluated: Seq<int>,
    /// For each answer received, in order: whether it was a passing verdict.
    pub answers: Seq<bool>,
}

impl View for Run {
    type V = RunView;

    closed spec fn view(&self) -> RunView {
        RunView {
            config: self.config,
            entries: self.entries@,
            rules: self.rules@,
            tasks: self.tasks@,
            next: self.next,
            awaiting: self.awaiting,
            outcome: self.outcome,
            evaluated: self.evaluated@,
            answers: self.answers@,
        }
    }
}

/// Every answer in `a` was a passing verdict.
pub open spec fn all_passed(a: Seq<bool>) -> bool {
    forall|k: int| 0 <= k < a.len() ==> #[trigger] a[k]
}

/// Indices of the tasks among the first `n` that are evaluated, in order.
pub open spec fn evaluations(tasks: Seq<Task>, n: int) -> Seq<int>
    decreases n,
{
    if n <= 0 {
        Seq::empty()
    } else if tasks[n - 1].kind == TaskKind::Evaluate {
        evaluations(tasks, n - 1).push(n - 1)
    } else {
        evaluations(tasks, n - 1)
    }
}

pub open spec fn is_pair(t: Task, d: int, j: int) -> bool {
    t.doc == d && t.rule == j
}

proof fn lemma_evaluations(tasks: Seq<Task>, n: int)
    requires
        0 <= n <= tasks.len(),
    ensures
        forall|p: int|
            0 <= p < evaluations(tasks, n).len() ==> 0 <= #[trigger] evaluations(tasks, n)[p] < n
                && tasks[evaluations(tasks, n)[p]].kind == TaskKind::Evaluate,
        forall|p: int, q: int|
            0 <= p < q < evaluations(tasks, n).len() ==> #[trigger] evaluations(tasks, n)[p]
                < #[trigger] evaluations(tasks, n)[q],
        forall|i: int|
            0 <= i < n && (#[trigger] tasks[i]).kind == TaskKind::Evaluate ==> evaluations(
                tasks,
                n,
            ).contains(i),
    decreases n,
{
    if n > 0 {
        lemma_evaluations(tasks, n - 1);
        let prev = evaluations(tasks, n - 1);
        if tasks[n - 1].kind == TaskKind::Evaluate {
            assert forall|i: int|
                0 <= i < n && (#[trigger] tasks[i]).kind == TaskKind::Evaluate implies evaluations(
                tasks,
                n,
            ).contains(i) by {
                if i < n - 1 {
                    let p = choose|p: int| 0 <= p < prev.len() && prev[p] == i;
                    assert(evaluations(tasks, n)[p] == i);
                } else {
                    assert(evaluations(tasks, n)[prev.len() as int] == i);
                }
            }
        }
    }
}

impl Run {
    pub open spec fn wf(&self) -> bool {
        let n = self@.next as int;
        let t = self@.tasks;
        &&& self@.entries.len() <= usize::MAX
        &&& self@.rules.len() <= usize::MAX
        &&& t.len() <= usize::MAX
        &&& t == plan_spec(self@.config, self@.entries, self@.rules.len())
        &&& n <= t.len()
        &&& self@.awaiting ==> self@.outcome is None && n < t.len() && t[n].kind
            == TaskKind::Evaluate
        &&& self@.outcome matches Some(RunOutcome::Passed) ==> n == t.len()
        &&& (self@.awaiting || self@.outcome matches Some(RunOutcome::Failed { .. }) || self@.outcome
            matches Some(RunOutcome::Aborted { .. })) ==> n < t.len() && t[n].kind
            == TaskKind::Evaluate && self@.evaluated == evaluations(t, n + 1)
        &&& (self@.outcome is None && !self@.awaiting || self@.outcome matches Some(
            RunOutcome::Passed,
        )) ==> self@.evaluated == evaluations(t, n)
        &&& (self@.outcome is None || self@.outcome matches Some(RunOutcome::Passed)) ==> {
            &&& all_passed(self@.answers)
            &&& self@.answers.len() + (if self@.awaiting {
                1int
            } else {
                0
            }) == self@.evaluated.len()
        }
        &&& (self@.outcome matches Some(RunOutcome::Failed { .. }) || self@.outcome matches Some(
            RunOutcome::Aborted { .. },
        )) ==> {
            &&& self@.answers.len() == self@.evaluated.len()
            &&& self@.answers.len() > 0
            &&& !self@.answers.last()
            &&& all_passed(self@.answers.drop_last())
        }
    }

    /// A run over the walked `entries` and the `rules`, before its first action.
    pub fn new(config: SelectorConfig, entries: Vec<Entry>, rules: Vec<String>) -> (r: Run)
        requires
            entries@.len() <= usize::MAX,
        ensures
            r.wf(),
            r@.config == config,
            r@.entries == entries@,
            r@.rules == rules@,
            r@.next == 0,
            !r@.awaiting,
            r@.outcome is None,
            r@.evaluated == Seq::<int>::empty(),
            r@.answers == Seq::<bool>::empty(),
    {
        let tasks = plan(&config, &entries, rules.len());
        assert(tasks@.len() == tasks.len());
        Run {
            config,
            entries,
            rules,
            tasks,
            next: 0,
            awaiting: false,
            outcome: None,
            evaluated: Ghost(Seq::empty()),
            answers: Ghost(Seq::empty()),
        }
    }

    /// The next thing to do. A finished run stays as it is and asks for
    /// nothing more; otherwise the next pair in traversal order is handed out
    /// for evaluation, or reported as too large and passed over, or, with no
    /// pair left, the run ends as passed.
    pub fn next_action(&mut self) -> (a: Action)
        requires
            old(self).wf(),
            !old(self)@.awaiting,
        ensures
            final(self).wf(),
            final(self)@.config == old(self)@.config,
            final(self)@.entries == old(self)@.entries,
            final(self)@.rules == old(self)@.rules,
            final(self)@.answers == old(self)@.answers,
            old(self)@.outcome is Some ==> a is Finish && final(self)@ == old(self)@,
            old(self)@.outcome is None && old(self)@.next == old(self)@.tasks.len() ==> a is Finish
                && final(self)@.outcome == Some(RunOutcome::Passed) && final(self)@.next
                == old(self)@.next && final(self)@.evaluated == old(self)@.evaluated,
            old(self)@.outcome is None && old(self)@.next < old(self)@.tasks.len() ==> ({
                let t = old(self)@.tasks[old(self)@.next as int];
                &&& final(self)@.outcome is None
                &&& t.kind == TaskKind::SkipTooLarge ==> (a matches Action::SkipTooLarge {
                    document,
                } && document@ == old(self)@.entries[t.doc as int].path@ && final(self)@.next
                    == old(self)@.next + 1 && !final(self)@.awaiting && final(self)@.evaluated
                    == old(self)@.evaluated)
                &&& t.kind == TaskKind::Evaluate ==> (a matches Action::Evaluate {
                    document,
                    rule,
                } && document@ == old(self)@.entries[t.doc as int].path@ && rule@ == old(self)@.rules[t.rule as int]@ && final(self)@.next == old(self)@.next
                    && final(self)@.awaiting && final(self)@.evaluated == old(self)@.evaluated.push(old(self)@.next as int))
            }),
    {
        if self.outcome.is_some() {
            return Action::Finish;
        }
        if self.next >= self.tasks.len() {
            self.outcome = Some(RunOutcome::Passed);
            return Action::Finish;
        }
        let t = self.tasks[self.next];
        proof {
            lemma_every_pair_sound(self.config, self.entries@, self.rules@.len(), self.next as int);
        }
        let document = self.entries[t.doc].path.clone();
        match t.kind {
            TaskKind::SkipTooLarge => {
                self.next = self.next + 1;
                Action::SkipTooLarge { document }
            },
            TaskKind::Evaluate => {
                let rule = self.rules[t.rule].clone();
                self.awaiting = true;
                self.evaluated = Ghost(self.evaluated@.push(self.next as int));
                Action::Evaluate { document, rule }
            },
        }
    }

    /// Hands the answer for the pair handed out to the run. A passing verdict
    /// moves on to the next pair; a failing verdict ends the run as failed, with
    /// the pair's document path, rule path and the verdict's message; an error
    /// ends it as aborted.
    pub fn record(&mut self, answer: Result<Verdict, CheckError>)
        requires
            old(self).wf(),
            old(self)@.awaiting,
        ensures
            final(self).wf(),
            !final(self)@.awaiting,
            final(self)@.config == old(self)@.config,
            final(self)@.entries == old(self)@.entries,
            final(self)@.rules == old(self)@.rules,
            final(self)@.evaluated == old(self)@.evaluated,
            final(self)@.answers == old(self)@.answers.push(
                answer matches Ok(v) && v.pass,
            ),
            ({
                let t = old(self)@.tasks[old(self)@.next as int];
                match answer {
                    Ok(v) => if v.pass {
                        final(self)@.outcome is None && final(self)@.next == old(self)@.next + 1
                    } else {
                        &&& final(self)@.next == old(self)@.next
                        &&& final(self)@.outcome matches Some(
                            RunOutcome::Failed { path, rule, message },
                        )
                        &&& path@ == old(self)@.entries[t.doc as int].path@
                        &&& rule@ == old(self)@.rules[t.rule as int]@
                        &&& message@ == v.message@
                    },
                    Err(e) => final(self)@.next == old(self)@.next && final(self)@.outcome
                        == Some(RunOutcome::Aborted { error: e }),
                }
            }),
    {
        let t = self.tasks[self.next];
        proof {
            lemma_every_pair_sound(self.config, self.entries@, self.rules@.len(), self.next as int);
        }
        self.awaiting = false;
        let ghost before = self.answers@;
        match answer {
            Ok(v) => {
                self.answers = Ghost(self.answers@.push(v.pass));
                assert(self.answers@.drop_last() =~= before);
                if v.pass {
                    self.next = self.next + 1;
                } else {
                    let path = self.entries[t.doc].path.clone();
                    let rule = self.rules[t.rule].clone();
                    self.outcome = Some(RunOutcome::Failed { path, rule, message: v.message });
                }
            },
            Err(e) => {
                self.answers = Ghost(self.answers@.push(false));
                assert(self.answers@.drop_last() =~= before);
                self.outcome = Some(RunOutcome::Aborted { error: e });
            },
        }
    }
}

impl Run {
    /// How the run ended, once it has.
    pub fn outcome(&self) -> (r: &Option<RunOutcome>)
        ensures
            *r == self@.outcome,
    {
        &self.outcome
    }

    /// Whether the run awaits the answer for the pair it handed out.
    pub fn is_awaiting(&self) -> (r: bool)
        ensures
            r == self@.awaiting,
    {
        self.awaiting
    }

    /// Hands the service's response for the pair handed out to the run:
    /// `raw` is the response body and `decoded` what decoding it as a verdict
    /// gave. A body that did not decode aborts the run with a protocol error
    /// that holds the body as received.
    pub fn record_response(&mut self, raw: String, decoded: Option<(bool, String)>)
        requires
            old(self).wf(),
            old(self)@.awaiting,
        ensures
            final(self).wf(),
            !final(self)@.awaiting,
            final(self)@.evaluated == old(self)@.evaluated,
            final(self)@.answers == old(self)@.answers.push(decoded matches Some((p, _)) && p),
            decoded is None ==> {
                &&& final(self)@.next == old(self)@.next
                &&& final(self)@.outcome matches Some(
                    RunOutcome::Aborted { error: CheckError::Protocol { raw: x } },
                )
                &&& x@ == raw@
            },
            decoded matches Some((p, m)) ==> ({
                let t = old(self)@.tasks[old(self)@.next as int];
                if p {
                    final(self)@.outcome is None && final(self)@.next == old(self)@.next + 1
                } else {
                    &&& final(self)@.next == old(self)@.next
                    &&& final(self)@.outcome matches Some(
                        RunOutcome::Failed { path, rule, message },
                    )
                    &&& path@ == old(self)@.entries[t.doc as int].path@
                    &&& rule@ == old(self)@.rules[t.rule as int]@
                    &&& message@ == m@
                }
            }),
    {
        let answer = verdict_from_response(raw, decoded);
        self.record(answer);
    }
}

impl RunOutcome {
    /// The process exit status for this outcome: 0 when the run passed, 1
    /// when a pair failed or a fatal error ended it.
    pub fn exit_code(&self) -> (r: i32)
        ensures
            self is Passed ==> r == 0,
            !(self is Passed) ==> r == 1,
    {
        match self {
            RunOutcome::Passed => 0,
            _ => 1,
        }
    }
}

/// Every pair sent so far is of an eligible entry within the size limit.
proof fn lemma_sent_pairs(run: Run)
    requires
        run.wf(),
    ensures
        forall|p: int|
            0 <= p < run@.evaluated.len() ==> {
                let t = run@.tasks[#[trigger] run@.evaluated[p]];
                &&& 0 <= run@.evaluated[p] < run@.tasks.len()
                &&& t.kind == TaskKind::Evaluate
                &&& 0 <= t.doc < run@.entries.len()
                &&& eligible(run@.config, run@.entries[t.doc as int])
                &&& run@.entries[t.doc as int].size <= run@.config.max_size
            },
{
    let t = run@.tasks;
    let n = run@.next as int;
    let m = if run@.evaluated == evaluations(t, n) {
        n
    } else {
        n + 1
    };
    lemma_evaluations(t, m);
    lemma_plan_sound(run@.config, run@.entries, run@.rules.len());
    assert forall|p: int| 0 <= p < run@.evaluated.len() implies {
        let tk = run@.tasks[#[trigger] run@.evaluated[p]];
        &&& 0 <= run@.evaluated[p] < run@.tasks.len()
        &&& tk.kind == TaskKind::Evaluate
        &&& 0 <= tk.doc < run@.entries.len()
        &&& eligible(run@.config, run@.entries[tk.doc as int])
        &&& run@.entries[tk.doc as int].size <= run@.config.max_size
    } by {
        let i = run@.evaluated[p];
        assert(0 <= i < m);
        assert(t[i].kind == kind_for(run@.config, run@.entries[t[i].doc as int]));
    }
}

/// No pair of an excluded entry (one that is not a regular file, or an entry whose extension or
/// name is in the exclusion tables) is ever sent to the service.
pub proof fn lemma_excluded_never_sent(run: Run, d: int)
    requires
        run.wf(),
        0 <= d < run@.entries.len(),
        !eligible(run@.config, run@.entries[d]),
    ensures
        forall|p: int|
            0 <= p < run@.evaluated.len() ==> run@.tasks[#[trigger] run@.evaluated[p]].doc != d,
{
    lemma_sent_pairs(run);
}

/// No pair of a document over the size limit is ever sent to the service.
pub proof fn lemma_oversized_never_sent(run: Run, d: int)
    requires
        run.wf(),
        0 <= d < run@.entries.len(),
        run@.entries[d].size > run@.config.max_size,
    ensures
        forall|p: int|
            0 <= p < run@.evaluated.len() ==> run@.tasks[#[trigger] run@.evaluated[p]].doc != d,
{
    lemma_sent_pairs(run);
}

/// A run that passed has sent each eligible document within the size limit
/// to the service with each rule exactly once.
pub proof fn lemma_passed_run_checked_every_pair(run: Run, d: int, j: int)
    requires
        run.wf(),
        run@.outcome == Some(RunOutcome::Passed),
        0 <= d < run@.entries.len(),
        eligible(run@.config, run@.entries[d]),
        run@.entries[d].size <= run@.config.max_size,
        0 <= j < run@.rules.len(),
    ensures
        exists|p: int|
            0 <= p < run@.evaluated.len() && is_pair(
                run@.tasks[#[trigger] run@.evaluated[p]],
                d,
                j,
            ),
        forall|p: int, q: int|
            0 <= p < run@.evaluated.len() && 0 <= q < run@.evaluated.len() && is_pair(
                run@.tasks[#[trigger] run@.evaluated[p]],
                d,
                j,
            ) && is_pair(run@.tasks[#[trigger] run@.evaluated[q]], d, j) ==> p == q,
{
    let t = run@.tasks;
    lemma_evaluations(t, t.len() as int);
    lemma_every_pair_once(run@.config, run@.entries, run@.rules.len(), d, j);
    let i = choose|i: int| 0 <= i < t.len() && (#[trigger] t[i]).doc == d && t[i].rule == j;
    assert(t[i].kind == TaskKind::Evaluate);
    assert(run@.evaluated.contains(i));
    let p = choose|p: int| 0 <= p < run@.evaluated.len() && run@.evaluated[p] == i;
    assert(is_pair(run@.tasks[run@.evaluated[p]], d, j));
    assert forall|p: int, q: int|
        0 <= p < run@.evaluated.len() && 0 <= q < run@.evaluated.len() && is_pair(
            run@.tasks[#[trigger] run@.evaluated[p]],
            d,
            j,
        ) && is_pair(run@.tasks[#[trigger] run@.evaluated[q]], d, j) implies p == q by {
        let a = run@.evaluated[p];
        let b = run@.evaluated[q];
        assert(t[a].doc == d && t[a].rule == j && t[b].doc == d && t[b].rule == j);
        assert(a == b);
        if p < q {
            assert(a < b);
        } else if q < p {
            assert(b < a);
        }
    }
}

/// A finished run in which every answer was a passing verdict has passed,
/// and its exit status is 0.
pub proof fn lemma_all_passing_run_passes(run: Run)
    requires
        run.wf(),
        run@.outcome is Some,
        all_passed(run@.answers),
    ensures
        run@.outcome == Some(RunOutcome::Passed),
{
    if !(run@.outcome matches Some(RunOutcome::Passed)) {
        assert(!run@.answers[run@.answers.len() - 1]);
    }
}

/// A run that ended as failed or aborted ended on the first pair without a
/// passing verdict. Every earlier pair passed, and no later pair in traversal
/// order went to the service.
pub proof fn lemma_failed_run_stopped(run: Run)
    requires
        run.wf(),
        run@.outcome matches Some(RunOutcome::Failed { .. }) || run@.outcome matches Some(
            RunOutcome::Aborted { .. },
        ),
    ensures
        run@.evaluated.len() > 0,
        run@.evaluated.last() == run@.next as int,
        forall|p: int| 0 <= p < run@.evaluated.len() ==> #[trigger] run@.evaluated[p] <= run@.next,
        run@.answers.len() == run@.evaluated.len(),
        !run@.answers.last(),
        forall|k: int| 0 <= k < run@.answers.len() - 1 ==> #[trigger] run@.answers[k],
{
    assert forall|k: int| 0 <= k < run@.answers.len() - 1 implies #[trigger] run@.answers[k] by {
        assert(run@.answers.drop_last()[k] == run@.answers[k]);
    }
    lemma_evaluations(run@.tasks, run@.next as int + 1);
}

/// The task at `i` names an existing entry and rule.
proof fn lemma_every_pair_sound(cfg: SelectorConfig, entries: Seq<Entry>, nrules: nat, i: int)
    requires
        entries.len() <= usize::MAX,
        nrules <= usize::MAX,
        0 <= i < plan_spec(cfg, entries, nrules).len(),
    ensures
        plan_spec(cfg, entries, nrules)[i].doc < entries.len(),
        plan_spec(cfg, entries, nrules)[i].rule < nrules,
{
    lemma_plan_sound(cfg, entries, nrules);
}

} // verus!
