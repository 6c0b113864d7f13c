//! The gathering of reports between two submissions.

use vstd::prelude::*;

verus! {

/// What the reports that were received since the last submission add up to.
#[derive(Debug)]
pub struct Batch<R> {
    pub report: R,
}

/// What happens to the exporter.
#[derive(Debug)]
pub enum Input<T> {
    /// A report comes in.
    Received(T),
    /// The time between two submissions is over.
    Tick,
    /// No report will come in any more.
    Closed,
}

/// What the exporter does next.
#[derive(Debug)]
pub enum Step<R> {
    /// Waits for what happens next.
    Wait(Batch<R>),
    /// Submits the report, then waits for what happens next.
    Submit(R, Batch<R>),
    /// Submits the report, and is done.
    SubmitAndStop(R),
}

/// Whether this step can follow where something happens to the exporter: a report that comes in is
/// added to the one before, and what is submitted leaves an empty one.
pub open spec fn follows<T, R: Default, A: Fn(R, T) -> R>(
    gather: A,
    report: R,
    input: Input<T>,
    step: Step<R>,
) -> bool {
    match input {
        Input::Received(single) => {
            &&& step matches Step::Wait(batch)
            &&& call_ensures(gather, (report, single), batch.report)
        },
        Input::Tick => {
            &&& step matches Step::Submit(submitted, batch)
            &&& submitted == report
            &&& call_ensures(R::default, (), batch.report)
        },
        Input::Closed => step == Step::SubmitAndStop(report),
    }
}

impl<R: Default> Batch<R> {
    /// Nothing received yet.
    pub fn new() -> (batch: Self)
        ensures
            call_ensures(R::default, (), batch.report),
    {
        Batch { report: R::default() }
    }

    /// Handles what happens to the exporter. A report that comes in is added by `gather`.
    pub fn step<T, A: Fn(R, T) -> R>(self, input: Input<T>, gather: A) -> (step: Step<R>)
        requires
            input matches Input::Received(single) ==> call_requires(gather, (self.report, single)),
        ensures
            follows(gather, self.report, input, step),
    {
        match input {
            Input::Received(single) => Step::Wait(Batch { report: gather(self.report, single) }),
            Input::Tick => Step::Submit(self.report, Batch::new()),
            Input::Closed => Step::SubmitAndStop(self.report),
        }
    }
}

/// The reports that wait for submission after something happened.
pub open spec fn pending_after<T>(pending: Seq<T>, input: Input<T>) -> Seq<T> {
    match input {
        Input::Received(single) => pending.push(single),
        Input::Tick | Input::Closed => Seq::empty(),
    }
}

/// The reports that are submitted when something happens.
pub open spec fn submission<T>(pending: Seq<T>, input: Input<T>) -> Seq<T> {
    match input {
        Input::Received(_) => Seq::empty(),
        Input::Tick | Input::Closed => pending,
    }
}

/// The reports that came in, in order.
pub open spec fn received<T>(inputs: Seq<Input<T>>) -> Seq<T>
    decreases inputs.len(),
{
    if inputs.len() == 0 {
        Seq::empty()
    } else {
        match inputs.last() {
            Input::Received(single) => received(inputs.drop_last()).push(single),
            _ => received(inputs.drop_last()),
        }
    }
}

/// The reports that wait for submission after all that happened, from an empty batch on.
pub open spec fn pending<T>(inputs: Seq<Input<T>>) -> Seq<T>
    decreases inputs.len(),
{
    if inputs.len() == 0 {
        Seq::empty()
    } else {
        pending_after(pending(inputs.drop_last()), inputs.last())
    }
}

/// The reports of all submissions, one submission after the other.
pub open spec fn all_submitted<T>(inputs: Seq<Input<T>>) -> Seq<T>
    decreases inputs.len(),
{
    if inputs.len() == 0 {
        Seq::empty()
    } else {
        all_submitted(inputs.drop_last()) + submission(pending(inputs.drop_last()), inputs.last())
    }
}

/// Whether `report` is what some reports add up to: those reports added to an empty one, each once
/// and in order.
pub open spec fn adds_up<T, R: Default, A: Fn(R, T) -> R>(
    gather: A,
    singles: Seq<T>,
    report: R,
) -> bool
    decreases singles.len(),
{
    if singles.len() == 0 {
        call_ensures(R::default, (), report)
    } else {
        exists|before: R|
            #![trigger call_ensures(gather, (before, singles.last()), report)]
            adds_up(gather, singles.drop_last(), before) && call_ensures(
                gather,
                (before, singles.last()),
                report,
            )
    }
}

/// Each step keeps the batch to what waits for submission, and submits what waited: where the
/// report of the batch is what the pending reports add up to, so it is after the step, and so is
/// what is submitted.
pub proof fn steps_add_up<T, R: Default, A: Fn(R, T) -> R>(
    gather: A,
    inputs: Seq<Input<T>>,
    input: Input<T>,
    batch: Batch<R>,
    step: Step<R>,
)
    requires
        adds_up(gather, pending(inputs), batch.report),
        follows(gather, batch.report, input, step),
    ensures
        match step {
            Step::Wait(next) => adds_up(gather, pending(inputs.push(input)), next.report),
            Step::Submit(submitted, next) => {
                &&& adds_up(gather, submission(pending(inputs), input), submitted)
                &&& adds_up(gather, pending(inputs.push(input)), next.report)
            },
            Step::SubmitAndStop(submitted) => adds_up(
                gather,
                submission(pending(inputs), input),
                submitted,
            ),
        },
{
    assert(inputs.push(input).drop_last() =~= inputs);
    if let Input::Received(single) = input {
        let waiting = pending(inputs).push(single);
        assert(waiting.drop_last() =~= pending(inputs));
        assert(call_ensures(gather, (batch.report, waiting.last()), step->Wait_0.report));
        assert(pending(inputs.push(input)) == waiting);
    }
}

/// No report is lost, submitted twice or moved: those that were submitted, followed by those that
/// wait for submission, are those that came in.
pub proof fn reports_are_kept<T>(inputs: Seq<Input<T>>)
    ensures
        all_submitted(inputs) + pending(inputs) == received(inputs),
    decreases inputs.len(),
{
    if inputs.len() == 0 {
        assert(all_submitted(inputs) + pending(inputs) =~= received(inputs));
    } else {
        let front = inputs.drop_last();
        reports_are_kept(front);
        assert(all_submitted(inputs) + pending(inputs) =~= received(inputs));
    }
}

/// When no report will come in any more, all that came in are submitted.
pub proof fn all_is_submitted_in_the_end<T>(inputs: Seq<Input<T>>)
    requires
        inputs.len() > 0,
        inputs.last() is Closed,
    ensures
        all_submitted(inputs) == received(inputs),
{
    reports_are_kept(inputs);
    assert(all_submitted(inputs) + pending(inputs) =~= all_submitted(inputs));
}

} // verus!
