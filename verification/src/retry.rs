//! The bounded retry: how often an attempt is made, and when to wait.
//!
//! The caller makes the attempts and does the waiting; the machine here
//! decides after each attempt what comes next. A wait follows every failed
//! attempt, the last one too, so a run waits as often as it fails.

use vstd::prelude::*;

verus! {

/// What a retry budget stands for.
pub ghost struct BudgetView {
    /// How many attempts are made at most; at least one.
    pub max_attempts: nat,
    /// How many seconds to wait after a failed attempt.
    pub delay_secs: nat,
}

/// How many attempts a fetch may take, and how long it waits after a failed
/// one.
#[derive(Clone, Copy, Debug, PartialEq, Eq)]
pub struct RetryBudget {
    max_attempts: u32,
    delay_secs: u64,
}

impl View for RetryBudget {
    type V = BudgetView;

    closed spec fn view(&self) -> BudgetView {
        BudgetView { max_attempts: self.max_attempts as nat, delay_secs: self.delay_secs as nat }
    }
}

impl RetryBudget {
    #[verifier::type_invariant]
    spec fn positive(self) -> bool {
        self.max_attempts >= 1
    }

    /// A budget of `max_attempts` attempts; there is none of no attempts.
    pub fn new(max_attempts: u32, delay_secs: u64) -> (r: Option<RetryBudget>)
        ensures
            r is Some <==> max_attempts >= 1,
            r matches Some(b) ==> b@ == (BudgetView {
                max_attempts: max_attempts as nat,
                delay_secs: delay_secs as nat,
            }),
    {
        if max_attempts == 0 {
            None
        } else {
            Some(RetryBudget { max_attempts, delay_secs })
        }
    }

    /// The budget of every fetch of the pipeline: three attempts, one second
    /// after each failed one.
    pub fn standard() -> (r: RetryBudget)
        ensures
            r@ == (BudgetView { max_attempts: 3, delay_secs: 1 }),
    {
        RetryBudget { max_attempts: 3, delay_secs: 1 }
    }

    /// How many attempts are made at most.
    pub fn max_attempts(&self) -> (r: u32)
        ensures
            r == self@.max_attempts,
            r >= 1,
    {
        proof {
            use_type_invariant(self);
        }
        self.max_attempts
    }

    /// How many seconds to wait after a failed attempt.
    pub fn delay_secs(&self) -> (r: u64)
        ensures
            r == self@.delay_secs,
    {
        self.delay_secs
    }
}

/// What a running retry stands for.
pub ghost struct RetryView {
    /// How many attempts may still be made, the one under way included; at
    /// least one.
    pub remaining: nat,
    /// How many seconds to wait after a failed attempt.
    pub delay_secs: nat,
}

/// What comes after an attempt.
pub ghost enum NextView {
    /// The attempt succeeded: its response is the result.
    Succeed,
    /// Wait, then make the next attempt.
    WaitAndRetry { secs: nat, next: RetryView },
    /// Wait, then give up: the attempt's error is the result.
    WaitAndFail { secs: nat },
}

/// The decision after an attempt: a success ends the run; a failure is
/// followed by a wait, and by another attempt while any is left.
pub open spec fn next_of(retry: RetryView, succeeded: bool) -> NextView {
    if succeeded {
        NextView::Succeed
    } else if retry.remaining > 1 {
        NextView::WaitAndRetry {
            secs: retry.delay_secs,
            next: RetryView { remaining: (retry.remaining - 1) as nat, delay_secs: retry.delay_secs },
        }
    } else {
        NextView::WaitAndFail { secs: retry.delay_secs }
    }
}

/// A retry with an attempt under way.
#[derive(Clone, Copy, Debug, PartialEq, Eq)]
pub struct Retry {
    remaining: u32,
    delay_secs: u64,
}

impl View for Retry {
    type V = RetryView;

    closed spec fn view(&self) -> RetryView {
        RetryView { remaining: self.remaining as nat, delay_secs: self.delay_secs as nat }
    }
}

/// What comes after an attempt, as a value.
#[derive(Clone, Copy, Debug, PartialEq, Eq)]
pub enum RetryStep {
    /// The attempt succeeded: its response is the result.
    Succeed,
    /// Wait `secs` seconds, then make the next attempt and report it to
    /// `next`.
    WaitAndRetry { secs: u64, next: Retry },
    /// Wait `secs` seconds, then give up: the attempt's error is the result.
    WaitAndFail { secs: u64 },
}

impl View for RetryStep {
    type V = NextView;

    open spec fn view(&self) -> NextView {
        match self {
            RetryStep::Succeed => NextView::Succeed,
            RetryStep::WaitAndRetry { secs, next } => NextView::WaitAndRetry {
                secs: *secs as nat,
                next: next@,
            },
            RetryStep::WaitAndFail { secs } => NextView::WaitAndFail { secs: *secs as nat },
        }
    }
}

impl Retry {
    #[verifier::type_invariant]
    spec fn live(self) -> bool {
        self.remaining >= 1
    }

    /// A retry whose first attempt is under way.
    pub fn start(budget: RetryBudget) -> (r: Retry)
        ensures
            r@ == (RetryView {
                remaining: budget@.max_attempts,
                delay_secs: budget@.delay_secs,
            }),
            r@.remaining >= 1,
    {
        Retry { remaining: budget.max_attempts(), delay_secs: budget.delay_secs() }
    }

    /// How many attempts may still be made, the one under way included.
    pub fn remaining(&self) -> (r: u32)
        ensures
            r == self@.remaining,
            r >= 1,
    {
        proof {
            use_type_invariant(self);
        }
        self.remaining
    }

    /// Takes the outcome of the attempt under way and says what comes next.
    pub fn record(self, succeeded: bool) -> (step: RetryStep)
        ensures
            step@ == next_of(self@, succeeded),
            self@.remaining >= 1,
    {
        proof {
            use_type_invariant(self);
        }
        if succeeded {
            RetryStep::Succeed
        } else if self.remaining > 1 {
            RetryStep::WaitAndRetry {
                secs: self.delay_secs,
                next: Retry { remaining: self.remaining - 1, delay_secs: self.delay_secs },
            }
        } else {
            RetryStep::WaitAndFail { secs: self.delay_secs }
        }
    }
}

/// How many failures open a row of outcomes (`true` is a success).
pub open spec fn leading_failures(outcomes: Seq<bool>) -> nat
    decreases outcomes.len(),
{
    if outcomes.len() == 0 || outcomes[0] {
        0
    } else {
        1 + leading_failures(outcomes.drop_first())
    }
}

/// What a whole run came to.
pub ghost struct RunView {
    /// Whether the last attempt succeeded.
    pub succeeded: bool,
    /// How many attempts were made.
    pub attempts: nat,
    /// How many waits were made.
    pub waits: nat,
}

/// The run that `max_attempts` attempts come to when the attempts end as
/// `outcomes` says, one after the other: it stops at the first success, or
/// after `max_attempts` failures, and waits once after each failure. There is
/// none where the outcomes end before the run does.
pub open spec fn run_of(max_attempts: nat, outcomes: Seq<bool>) -> Option<RunView> {
    let failures = leading_failures(outcomes);
    if failures >= max_attempts {
        Some(RunView { succeeded: false, attempts: max_attempts, waits: max_attempts })
    } else if failures < outcomes.len() {
        Some(RunView { succeeded: true, attempts: failures + 1, waits: failures })
    } else {
        None
    }
}

/// What a whole run came to, as a value.
#[derive(Clone, Copy, Debug, PartialEq, Eq, Structural)]
pub struct RetryRun {
    /// Whether the last attempt succeeded.
    pub succeeded: bool,
    /// How many attempts were made.
    pub attempts: u32,
    /// How many waits were made.
    pub waits: u32,
}

impl View for RetryRun {
    type V = RunView;

    open spec fn view(&self) -> RunView {
        RunView {
            succeeded: self.succeeded,
            attempts: self.attempts as nat,
            waits: self.waits as nat,
        }
    }
}

/// Where the first `count` outcomes are failures, at least `count` failures
/// open the row; and exactly `count` where the row ends there or a success
/// follows.
pub proof fn lemma_leading_failures(outcomes: Seq<bool>, count: nat)
    requires
        count <= outcomes.len(),
        forall|j: int| 0 <= j < count ==> !outcomes[j],
    ensures
        leading_failures(outcomes) >= count,
        count == outcomes.len() || outcomes[count as int] ==> leading_failures(outcomes) == count,
    decreases count,
{
    if count > 0 {
        let rest = outcomes.drop_first();
        assert forall|j: int| 0 <= j < count - 1 implies !rest[j] by {
            assert(rest[j] == outcomes[j + 1]);
        }
        lemma_leading_failures(rest, (count - 1) as nat);
    }
}

/// The outcomes that open a row of `leading_failures` are failures, and what
/// follows them, if anything, is a success.
pub proof fn lemma_leading_failures_meaning(outcomes: Seq<bool>)
    ensures
        leading_failures(outcomes) <= outcomes.len(),
        forall|j: int| 0 <= j < leading_failures(outcomes) ==> !outcomes[j],
        leading_failures(outcomes) < outcomes.len() ==> outcomes[leading_failures(outcomes) as int],
    decreases outcomes.len(),
{
    if outcomes.len() > 0 && !outcomes[0] {
        let rest = outcomes.drop_first();
        lemma_leading_failures_meaning(rest);
        assert forall|j: int| 0 <= j < leading_failures(outcomes) implies !outcomes[j] by {
            if j > 0 {
                assert(outcomes[j] == rest[j - 1]);
            }
        }
    }
}

/// What a run means: it succeeds exactly where one of the first
/// `max_attempts` outcomes is a success; it then ends with the first such
/// attempt, and else with the last attempt of the budget; and it waits once
/// for each failed attempt.
pub proof fn lemma_run_meaning(max_attempts: nat, outcomes: Seq<bool>)
    requires
        max_attempts >= 1,
    ensures
        match run_of(max_attempts, outcomes) {
            Some(run) => {
                &&& 1 <= run.attempts <= max_attempts
                &&& run.attempts <= outcomes.len()
                &&& forall|j: int| 0 <= j < run.attempts - 1 ==> !outcomes[j]
                &&& run.succeeded == outcomes[run.attempts - 1]
                &&& !run.succeeded ==> run.attempts == max_attempts
                &&& run.waits == if run.succeeded {
                    run.attempts - 1
                } else {
                    run.attempts as int
                }
            },
            None => {
                &&& outcomes.len() < max_attempts
                &&& forall|j: int| 0 <= j < outcomes.len() ==> !outcomes[j]
            },
        },
{
    lemma_leading_failures_meaning(outcomes);
}

/// Runs a retry on attempts that end as `outcomes` says, one after the
/// other, and tells what the run came to. There is no result where the
/// outcomes end before the run does.
pub fn replay(budget: RetryBudget, outcomes: &Vec<bool>) -> (r: Option<RetryRun>)
    ensures
        match run_of(budget@.max_attempts, outcomes@) {
            Some(run) => r matches Some(got) && got@ == run,
            None => r is None,
        },
{
    let max = budget.max_attempts();
    let mut retry = Retry::start(budget);
    let mut failures: u32 = 0;
    loop
        invariant
            max == budget@.max_attempts,
            failures + retry@.remaining == max,
            retry@.remaining >= 1,
            failures <= outcomes.len(),
            forall|j: int| 0 <= j < failures ==> !outcomes[j],
        decreases retry@.remaining,
    {
        let at = failures as usize;
        if at >= outcomes.len() {
            proof {
                lemma_leading_failures(outcomes@, failures as nat);
            }
            return None;
        }
        let succeeded = outcomes[at];
        match retry.record(succeeded) {
            RetryStep::Succeed => {
                proof {
                    lemma_leading_failures(outcomes@, failures as nat);
                }
                return Some(RetryRun { succeeded: true, attempts: failures + 1, waits: failures });
            },
            RetryStep::WaitAndRetry { secs: _, next } => {
                failures = failures + 1;
                retry = next;
            },
            RetryStep::WaitAndFail { secs: _ } => {
                proof {
                    lemma_leading_failures(outcomes@, (failures + 1) as nat);
                }
                return Some(RetryRun { succeeded: false, attempts: max, waits: max });
            },
        }
    }
}

} // verus!
