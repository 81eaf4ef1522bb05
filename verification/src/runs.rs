//! Runs of the pipeline, and what holds of every run.

use crate::cache::{latest_entry_of, Listing};
use crate::pipeline::{
    fresh, start_of, step_of, Action, ActionView, Event, Pipeline, PipelineView, ResultView,
    Stage,
};
use crate::retry::{BudgetView, RetryView};
use vstd::prelude::*;

verus! {

/// The run of a pipeline over a row of events: where it stands at the end,
/// and the actions it asked for on the way, one in answer to each event.
pub open spec fn run_of(p: PipelineView, events: Seq<Event>) -> (PipelineView, Seq<ActionView>)
    decreases events.len(),
{
    if events.len() == 0 {
        (p, Seq::empty())
    } else {
        let first = step_of(p, events[0]);
        let rest = run_of(first.0, events.drop_first());
        (rest.0, seq![first.1] + rest.1)
    }
}

/// The run over one event is one step.
pub proof fn lemma_run_single(p: PipelineView, event: Event)
    ensures
        run_of(p, seq![event]).0 == step_of(p, event).0,
        run_of(p, seq![event]).1 == seq![step_of(p, event).1],
{
    let events = seq![event];
    assert(events[0] == event);
    assert(events.drop_first() =~= Seq::<Event>::empty());
    let next = step_of(p, event);
    assert(run_of(next.0, events.drop_first()).1 =~= Seq::<ActionView>::empty());
    assert(seq![next.1] + Seq::<ActionView>::empty() =~= seq![next.1]);
}

/// A run over two rows of events, one after the other, is the run over the
/// first followed by the run over the second.
pub proof fn lemma_run_concat(p: PipelineView, first: Seq<Event>, second: Seq<Event>)
    ensures
        run_of(p, first + second).0 == run_of(run_of(p, first).0, second).0,
        run_of(p, first + second).1 == run_of(p, first).1 + run_of(run_of(p, first).0, second).1,
    decreases first.len(),
{
    if first.len() == 0 {
        assert(first + second =~= second);
        assert(run_of(p, first).1 + run_of(p, second).1 =~= run_of(p, second).1);
    } else {
        let next = step_of(p, first[0]);
        assert((first + second).drop_first() =~= first.drop_first() + second);
        assert((first + second)[0] == first[0]);
        lemma_run_concat(next.0, first.drop_first(), second);
        let a = run_of(next.0, first.drop_first());
        let b = run_of(a.0, second);
        assert(seq![next.1] + (a.1 + b.1) =~= (seq![next.1] + a.1) + b.1);
    }
}

/// The events of `count` attempts that fail, each followed by its wait.
pub open spec fn failed_attempts(count: nat) -> Seq<Event>
    decreases count,
{
    if count == 0 {
        Seq::empty()
    } else {
        seq![Event::Failed, Event::Done] + failed_attempts((count - 1) as nat)
    }
}

/// An upper bound on the number of events that a pipeline still takes before
/// it asks to finish.
pub open spec fn steps_left(p: PipelineView) -> nat {
    let max = p.budget.max_attempts;
    match p.stage {
        Stage::CheckingToday => 4 * max + 3,
        Stage::WaitingForPage { retry } => 2 * max + 3 + 2 * retry.remaining,
        Stage::FetchingPage { retry } => 2 * max + 2 + 2 * retry.remaining,
        Stage::ReadingPage => 2 * max + 3,
        Stage::EnsuringRoot { image } => 2 * max + 2,
        Stage::WaitingForImage { image, retry } => 2 * retry.remaining + 2,
        Stage::FetchingImage { image, retry } => 2 * retry.remaining + 1,
        Stage::WritingImage => 2,
        Stage::GivingUp => 2,
        Stage::Listing => 1,
        Stage::Finished(result) => 0,
    }
}

/// Every step of a pipeline that has not finished brings it nearer to its
/// end, whatever the event, and the pipeline stays one that `start` and
/// `step` can lead to, with the directory, the path and the budget it had.
pub proof fn lemma_step_makes_progress(p: PipelineView, event: Event)
    requires
        p.wf(),
    ensures
        step_of(p, event).0.wf(),
        step_of(p, event).0.root == p.root,
        step_of(p, event).0.today_path == p.today_path,
        step_of(p, event).0.budget == p.budget,
        !(p.stage is Finished) ==> steps_left(step_of(p, event).0) < steps_left(p),
        steps_left(p) == 0 <==> p.stage is Finished,
        steps_left(p) <= 4 * p.budget.max_attempts + 3,
{
}

/// Every run ends: whatever the events are, after `steps_left` of them, and
/// so after at most `4 * max_attempts + 3`, the pipeline has finished.
pub proof fn lemma_run_ends(p: PipelineView, events: Seq<Event>)
    requires
        p.wf(),
        events.len() >= steps_left(p),
    ensures
        run_of(p, events).0.stage is Finished,
    decreases events.len(),
{
    if events.len() > 0 {
        lemma_step_makes_progress(p, events[0]);
        lemma_run_ends(step_of(p, events[0]).0, events.drop_first());
    }
}

/// The pipeline asks to finish exactly when it has reached its last stage,
/// and then with that stage's result.
pub proof fn lemma_finish_is_final(p: PipelineView, event: Event)
    requires
        p.wf(),
    ensures
        step_of(p, event).1 is Finish <==> step_of(p, event).0.stage is Finished,
        step_of(p, event).0.stage matches Stage::Finished(result) ==> step_of(p, event).1
            == ActionView::Finish(result),
{
}

/// Where a result comes from. Today's path is the result only where today's
/// file exists already or has just been written; every other result comes
/// from the listing of the cache: its latest entry, or the restore signal
/// where the cache has none.
pub proof fn lemma_result_origin(p: PipelineView, event: Event, result: ResultView)
    requires
        p.wf(),
        !(p.stage is Finished),
        step_of(p, event).1 == ActionView::Finish(result),
    ensures
        match p.stage {
            Stage::CheckingToday => event == Event::Exists(true) && result == ResultView::ImagePath(
                p.today_path,
            ),
            Stage::WritingImage => event is Done && result == ResultView::ImagePath(p.today_path),
            Stage::Listing => match event {
                Event::Listed(listing) => match latest_entry_of(p.root, listing) {
                    Ok(path) => result == ResultView::ImagePath(path),
                    Err(_) => result == ResultView::RestoreSignal,
                },
                _ => result == ResultView::RestoreSignal,
            },
            _ => false,
        },
{
}

/// A pipeline that has finished stays finished: whatever it is told, it
/// asks to finish with the same result.
pub proof fn lemma_finished_stays(p: PipelineView, result: ResultView, events: Seq<Event>)
    requires
        p.stage == Stage::Finished(result),
    ensures
        run_of(p, events).0 == p,
        run_of(p, events).1.len() == events.len(),
        forall|i: int|
            0 <= i < events.len() ==> #[trigger] run_of(p, events).1[i] == ActionView::Finish(
                result,
            ),
    decreases events.len(),
{
    if events.len() > 0 {
        lemma_finished_stays(p, result, events.drop_first());
    }
}

/// The cache hit: where today's file exists when the pipeline starts, the
/// result is today's path, and nothing else is ever asked for; no address is
/// requested.
pub proof fn lemma_cache_hit_short_circuits(
    root: Seq<char>,
    today_path: Seq<char>,
    budget: BudgetView,
    events: Seq<Event>,
)
    requires
        events.len() > 0,
        events[0] == Event::Exists(true),
    ensures
        start_of(root, today_path, budget).1 == (ActionView::CheckExists { path: today_path }),
        run_of(start_of(root, today_path, budget).0, events).0.stage == Stage::Finished(
            ResultView::ImagePath(today_path),
        ),
        run_of(start_of(root, today_path, budget).0, events).1.len() == events.len(),
        forall|i: int|
            0 <= i < events.len() ==> #[trigger] run_of(
                start_of(root, today_path, budget).0,
                events,
            ).1[i] == ActionView::Finish(ResultView::ImagePath(today_path)),
{
    let p = start_of(root, today_path, budget).0;
    let result = ResultView::ImagePath(today_path);
    let first = step_of(p, events[0]);
    assert(first == p.finish(result));
    lemma_finished_stays(first.0, result, events.drop_first());
    let rest = run_of(first.0, events.drop_first());
    assert(run_of(p, events).1 == seq![first.1] + rest.1);
    assert forall|i: int| 0 <= i < events.len() implies #[trigger] run_of(p, events).1[i]
        == ActionView::Finish(result) by {
        if i > 0 {
            assert(run_of(p, events).1[i] == rest.1[i - 1]);
        }
    }
}

/// Whether an action leaves the network and today's file alone: it lists the
/// cache or finishes.
pub open spec fn is_quiet(action: ActionView) -> bool {
    action is ListCache || action is Finish
}

/// Once the pipeline has turned to the cache it asks for nothing but to
/// finish.
pub proof fn lemma_cache_is_last(p: PipelineView, events: Seq<Event>)
    requires
        p.stage is Listing || p.stage is Finished,
    ensures
        run_of(p, events).1.len() == events.len(),
        forall|i: int| 0 <= i < events.len() ==> #[trigger] run_of(p, events).1[i] is Finish,
    decreases events.len(),
{
    if events.len() > 0 {
        let first = step_of(p, events[0]);
        let rest = run_of(first.0, events.drop_first());
        lemma_cache_is_last(first.0, events.drop_first());
        assert forall|i: int| 0 <= i < events.len() implies #[trigger] run_of(p, events).1[i]
            is Finish by {
            if i > 0 {
                assert(run_of(p, events).1[i] == rest.1[i - 1]);
            }
        }
    }
}

/// Today's picture is fetched only where today's file is missing: unless the
/// first answer is that the file does not exist, the pipeline never asks to
/// request an address, to wait, to make the directory or to write a file. So
/// a file that the cache holds is not written again.
pub proof fn lemma_fetch_only_when_missing(
    root: Seq<char>,
    today_path: Seq<char>,
    budget: BudgetView,
    events: Seq<Event>,
)
    requires
        events.len() > 0,
        events[0] != Event::Exists(false),
    ensures
        run_of(start_of(root, today_path, budget).0, events).1.len() == events.len(),
        forall|i: int|
            0 <= i < events.len() ==> is_quiet(
                #[trigger] run_of(start_of(root, today_path, budget).0, events).1[i],
            ),
{
    let p = start_of(root, today_path, budget).0;
    let first = step_of(p, events[0]);
    let rest = run_of(first.0, events.drop_first());
    lemma_cache_is_last(first.0, events.drop_first());
    assert forall|i: int| 0 <= i < events.len() implies is_quiet(
        #[trigger] run_of(p, events).1[i],
    ) by {
        if i > 0 {
            assert(run_of(p, events).1[i] == rest.1[i - 1]);
        }
    }
}

/// Whether a pipeline is asking for an address with `retry`: the page's or
/// the picture's.
pub open spec fn is_fetching(p: PipelineView, retry: RetryView) -> bool {
    match p.stage {
        Stage::FetchingPage { retry: r } => r == retry,
        Stage::FetchingImage { image, retry: r } => r == retry,
        _ => false,
    }
}

/// A fetch whose every attempt fails leads to the cache, without an error:
/// after as many failed attempts as the fetch has left, each followed by its
/// wait, the pipeline has asked for the listing of the cache directory. On
/// the way it asked for one wait after each failed attempt.
pub proof fn lemma_failed_fetch_falls_back(p: PipelineView, retry: RetryView)
    requires
        p.wf(),
        is_fetching(p, retry),
    ensures
        run_of(p, failed_attempts(retry.remaining)).0 == p.at(Stage::Listing),
        run_of(p, failed_attempts(retry.remaining)).1.len() == 2 * retry.remaining,
        run_of(p, failed_attempts(retry.remaining)).1.last() == (ActionView::ListCache {
            dir: p.root,
        }),
        forall|i: int|
            0 <= i < retry.remaining ==> #[trigger] run_of(
                p,
                failed_attempts(retry.remaining),
            ).1[2 * i] == (ActionView::Sleep { secs: p.budget.delay_secs }),
    decreases retry.remaining,
{
    let events = failed_attempts(retry.remaining);
    let rest_events = failed_attempts((retry.remaining - 1) as nat);
    assert(events == seq![Event::Failed, Event::Done] + rest_events);
    let one = step_of(p, Event::Failed);
    let two = step_of(one.0, Event::Done);
    assert(events[0] == Event::Failed);
    assert(events.drop_first()[0] == Event::Done);
    assert(events.drop_first().drop_first() =~= rest_events);
    let tail = run_of(two.0, rest_events);
    let middle = run_of(one.0, events.drop_first());
    assert(middle.0 == tail.0 && middle.1 == seq![two.1] + tail.1);
    assert(run_of(p, events).1 == seq![one.1] + middle.1);
    assert(run_of(p, events).0 == tail.0);
    assert(run_of(p, events).1 =~= seq![one.1, two.1] + tail.1);
    assert(one.1 == ActionView::Sleep { secs: p.budget.delay_secs });
    if retry.remaining > 1 {
        let next = RetryView {
            remaining: (retry.remaining - 1) as nat,
            delay_secs: retry.delay_secs,
        };
        assert(is_fetching(two.0, next));
        lemma_failed_fetch_falls_back(two.0, next);
        assert forall|i: int| 0 <= i < retry.remaining implies #[trigger] run_of(p, events).1[2
            * i] == (ActionView::Sleep { secs: p.budget.delay_secs }) by {
            if i > 0 {
                assert(run_of(p, events).1[2 * i] == tail.1[2 * (i - 1)]);
            }
        }
    } else {
        assert(rest_events =~= Seq::<Event>::empty());
        assert(two == p.fall_back());
    }
}

/// Nothing cached and nothing fetched gives the restore signal: where the
/// pipeline has asked for the listing and the directory is missing,
/// unreadable or empty, it asks to finish with the restore signal.
pub proof fn lemma_no_cache_restores(p: PipelineView, listing: Listing)
    requires
        p.stage == Stage::Listing,
        listing matches Listing::Names(names) ==> names@.len() == 0,
    ensures
        step_of(p, Event::Listed(listing)) == p.finish(ResultView::RestoreSignal),
{
}

/// From the start to the restore signal: today's file is missing, every
/// attempt to fetch the page fails, and the cache has no entry to offer.
/// The pipeline then ends with the restore signal, and not with an error.
pub proof fn lemma_total_failure_restores(
    root: Seq<char>,
    today_path: Seq<char>,
    budget: BudgetView,
    listing: Listing,
)
    requires
        budget.max_attempts >= 1,
        listing matches Listing::Names(names) ==> names@.len() == 0,
    ensures
        run_of(
            start_of(root, today_path, budget).0,
            seq![Event::Exists(false)] + failed_attempts(budget.max_attempts) + seq![
                Event::Listed(listing),
            ],
        ).0.stage == Stage::Finished(ResultView::RestoreSignal),
        run_of(
            start_of(root, today_path, budget).0,
            seq![Event::Exists(false)] + failed_attempts(budget.max_attempts) + seq![
                Event::Listed(listing),
            ],
        ).1.last() == ActionView::Finish(ResultView::RestoreSignal),
{
    let p = start_of(root, today_path, budget).0;
    let opening = seq![Event::Exists(false)];
    let failing = failed_attempts(budget.max_attempts);
    let closing = seq![Event::Listed(listing)];
    let fetching = step_of(p, Event::Exists(false)).0;
    lemma_run_single(p, Event::Exists(false));
    lemma_failed_fetch_falls_back(fetching, fresh(budget));
    lemma_run_concat(p, opening, failing);
    let listing_stage = run_of(p, opening + failing).0;
    assert(listing_stage == fetching.at(Stage::Listing));
    lemma_no_cache_restores(listing_stage, listing);
    lemma_run_single(listing_stage, Event::Listed(listing));
    lemma_run_concat(p, opening + failing, closing);
}

/// What a row of actions stands for.
pub open spec fn views_of(actions: Seq<Action>) -> Seq<ActionView> {
    Seq::new(actions.len(), |i: int| actions[i]@)
}

/// Runs a pipeline over a row of events, as a caller would that meets with
/// these events one after the other, and gives where the pipeline stands at
/// the end and the actions it asked for on the way.
pub fn replay(pipeline: Pipeline, events: Vec<Event>) -> (r: (Pipeline, Vec<Action>))
    ensures
        (r.0@, views_of(r.1@)) == run_of(pipeline@, events@),
{
    let ghost start = pipeline@;
    let ghost all = events@;
    let mut current = pipeline;
    let mut actions: Vec<Action> = Vec::new();
    for event in it: events
        invariant
            it.seq() == all,
            (current@, views_of(actions@)) == run_of(start, all.take(it.index())),
    {
        let ghost before = all.take(it.index());
        let ghost here = current@;
        let (next, action) = current.step(event);
        proof {
            lemma_run_single(here, event);
            lemma_run_concat(start, before, seq![event]);
            assert(all.take(it.index() + 1) =~= before + seq![event]);
            assert(views_of(actions@.push(action)) =~= views_of(actions@) + seq![action@]);
        }
        current = next;
        actions.push(action);
    }
    proof {
        assert(all.take(all.len() as int) =~= all);
    }
    (current, actions)
}

} // verus!
