//! The submission of a report, attempt by attempt.

use crate::json_ext::{member_of, parse_json, text_members, value_member, JsonValue};
use crate::telemetry::error::{ApolloExportError, ApolloExportErrorModel};
use crate::telemetry::outgoing::Outgoing;
use crate::telemetry::report::{stripped_reports_carry_no_traces, Report};
use vstd::prelude::*;

verus! {

/// How often a report is sent before it is given up.
pub const MAX_ATTEMPTS: u32 = 5;

/// By how much, in milliseconds, the wait after each failed attempt exceeds the one before.
pub const BACKOFF_INCREMENT_MILLIS: u64 = 50;

/// What came of one attempt to send a report.
#[derive(Debug)]
pub enum Outcome {
    /// The ingress answered. Its text may be lost on the way: then the text of that error is here.
    Response { status: u16, body: Result<String, String> },
    /// The report did not reach the ingress; the text says why.
    NotTransferred(String),
}

/// What an attempt means for the report.
pub enum Judgement {
    /// The report is dealt with.
    Final(Result<(), ApolloExportErrorModel>),
    /// What failed may be transient.
    Transient(Seq<char>),
}

/// Whether a status says that the request is at fault.
pub open spec fn is_client_error(status: u16) -> bool {
    400 <= status < 500
}

/// Whether a status says that the server is at fault.
pub open spec fn is_server_error(status: u16) -> bool {
    500 <= status < 600
}

/// What an attempt means for the report:
///  - if client error, it is over;
///  - if server error, it may be transient;
///  - if ok, it is over.
pub open spec fn judged(outcome: Outcome) -> Judgement {
    match outcome {
        Outcome::NotTransferred(text) => Judgement::Transient(text@),
        Outcome::Response { body: Err(text), .. } => Judgement::Final(
            Err(ApolloExportErrorModel::ServerError(text@)),
        ),
        Outcome::Response { status, body: Ok(text) } => {
            if is_client_error(status) {
                Judgement::Final(Err(ApolloExportErrorModel::ClientError(text@)))
            } else if is_server_error(status) {
                Judgement::Transient(text@)
            } else {
                Judgement::Final(Ok(()))
            }
        },
    }
}

/// The member of a response that says whether traces were ignored, if the response is a JSON
/// object that has it.
pub open spec fn traces_ignored_member(outcome: Outcome) -> Option<JsonValue> {
    match outcome {
        Outcome::Response { body: Ok(text), .. } => match text_members(text@) {
            Some(members) => member_of(members, "tracesIgnored"@),
            None => None,
        },
        _ => None,
    }
}

/// Whether traces are to be stripped from now on, given whether they were to be before, whether the
/// report had any, and what the accepting response says of them.
pub open spec fn strips(strip: bool, has_traces: bool, member: Option<JsonValue>) -> bool {
    strip || has_traces && member == Some(JsonValue::Boolean(true))
}

/// Whether traces are to be stripped from now on, given whether they were to be before, whether the
/// report had any, and what the accepting response says of them.
pub fn strips_from_now_on(strip: bool, has_traces: bool, member: Option<JsonValue>) -> (result:
    bool)
    ensures
        result == strips(strip, has_traces, member),
{
    strip || (has_traces && match member {
        Some(JsonValue::Boolean(ignored)) => ignored,
        _ => false,
    })
}

/// An attempt that is about to be made.
#[derive(Debug)]
pub struct Attempt {
    failures: u32,
    has_traces: bool,
}

/// The wait after an attempt that failed.
#[derive(Debug)]
pub struct Pause {
    failures: u32,
    has_traces: bool,
    message: String,
}

/// What an attempt leads to.
#[derive(Debug)]
pub enum Settled {
    /// The submission is over.
    Finish(Result<(), ApolloExportError>),
    /// There is a wait.
    Wait(Pause),
}

/// What a wait leads to.
#[derive(Debug)]
pub enum Resumed {
    /// The submission is over.
    Finish(Result<(), ApolloExportError>),
    /// The report is sent once more.
    Execute(Attempt),
}

/// The result of a submission with the text of its error as a character sequence.
pub open spec fn result_model(result: Result<(), ApolloExportError>) -> Result<
    (),
    ApolloExportErrorModel,
> {
    match result {
        Ok(()) => Ok(()),
        Err(error) => Err(error@),
    }
}

/// A submission that has started: how many attempts have failed, and whether the report has traces.
pub struct Progress {
    pub failures: nat,
    pub has_traces: bool,
}

/// What a submission does next.
pub enum Next {
    /// It is over.
    Finish(Result<(), ApolloExportErrorModel>),
    /// It waits, as the last attempt failed for the reason given.
    Wait(Progress, Seq<char>),
    /// It sends the report.
    Execute(Progress),
}

/// What follows an attempt.
pub open spec fn after_attempt(progress: Progress, outcome: Outcome) -> Next {
    match judged(outcome) {
        Judgement::Final(result) => Next::Finish(result),
        Judgement::Transient(message) => Next::Wait(
            Progress { failures: progress.failures + 1, ..progress },
            message,
        ),
    }
}

/// What follows a wait: another attempt, or the end where that was the last.
pub open spec fn after_wait(progress: Progress, message: Seq<char>) -> Next {
    if progress.failures < MAX_ATTEMPTS {
        Next::Execute(progress)
    } else {
        Next::Finish(Err(ApolloExportErrorModel::Unavailable(message)))
    }
}

/// Whether traces are to be stripped after an attempt.
pub open spec fn strips_after(strip: bool, progress: Progress, outcome: Outcome) -> bool {
    if judged(outcome) == Judgement::Final(Ok(())) {
        strips(strip, progress.has_traces, traces_ignored_member(outcome))
    } else {
        strip
    }
}

impl View for Attempt {
    type V = Progress;

    closed spec fn view(&self) -> Progress {
        Progress { failures: self.failures as nat, has_traces: self.has_traces }
    }
}

impl View for Pause {
    type V = (Progress, Seq<char>);

    closed spec fn view(&self) -> (Progress, Seq<char>) {
        (Progress { failures: self.failures as nat, has_traces: self.has_traces }, self.message@)
    }
}

impl View for Settled {
    type V = Next;

    open spec fn view(&self) -> Next {
        match self {
            Settled::Finish(result) => Next::Finish(result_model(*result)),
            Settled::Wait(pause) => Next::Wait(pause@.0, pause@.1),
        }
    }
}

impl View for Resumed {
    type V = Next;

    open spec fn view(&self) -> Next {
        match self {
            Resumed::Finish(result) => Next::Finish(result_model(*result)),
            Resumed::Execute(attempt) => Next::Execute(attempt@),
        }
    }
}

impl Attempt {
    #[verifier::type_invariant]
    spec fn attempts_left(self) -> bool {
        self.failures < MAX_ATTEMPTS
    }

    /// The first attempt to send a report, if its request could be built. A request that could not
    /// be built, for the reason given, makes the ingress unavailable.
    pub fn first(outgoing: &Outgoing, built: Result<(), String>) -> (result: Result<
        Self,
        ApolloExportError,
    >)
        ensures
            match built {
                Ok(()) => {
                    &&& result matches Ok(attempt)
                    &&& attempt@ == (Progress { failures: 0, has_traces: outgoing.had_traces() })
                },
                Err(text) => {
                    &&& result matches Err(error)
                    &&& error@ == ApolloExportErrorModel::Unavailable(text@)
                },
            },
    {
        match built {
            Ok(()) => Ok(Attempt { failures: 0, has_traces: outgoing.contained_traces() }),
            Err(text) => Err(ApolloExportError::Unavailable(text)),
        }
    }

    /// Handles what came of the attempt. Where the ingress accepts a report with traces and says
    /// that it ignores them, `strip_traces` is set.
    pub fn settle(self, outcome: Outcome, strip_traces: &mut bool) -> (settled: Settled)
        ensures
            settled@ == after_attempt(self@, outcome),
            *final(strip_traces) == strips_after(*old(strip_traces), self@, outcome),
    {
        match outcome {
            Outcome::NotTransferred(text) => Settled::Wait(self.failed(text)),
            Outcome::Response { body: Err(text), .. } => Settled::Finish(
                Err(ApolloExportError::ServerError(text)),
            ),
            Outcome::Response { status, body: Ok(text) } => {
                if 400 <= status && status < 500 {
                    Settled::Finish(Err(ApolloExportError::ClientError(text)))
                } else if 500 <= status && status < 600 {
                    Settled::Wait(self.failed(text))
                } else {
                    if self.has_traces && !*strip_traces {
                        let member = match parse_json(text.as_str()) {
                            Ok(response) => value_member(&response, "tracesIgnored"),
                            Err(_) => None,
                        };
                        *strip_traces = strips_from_now_on(false, true, member);
                    }
                    Settled::Finish(Ok(()))
                }
            },
        }
    }

    /// The wait after the attempt failed for the reason given.
    fn failed(self, message: String) -> (pause: Pause)
        ensures
            pause@ == (Progress { failures: self@.failures + 1, ..self@ }, message@),
    {
        proof {
            use_type_invariant(&self);
        }
        Pause { failures: self.failures + 1, has_traces: self.has_traces, message }
    }
}

/// How long, in milliseconds, the wait after a number of failed attempts is.
pub open spec fn backoff_millis(failures: nat) -> nat {
    BACKOFF_INCREMENT_MILLIS as nat * failures
}

impl Pause {
    #[verifier::type_invariant]
    spec fn attempts_made(self) -> bool {
        1 <= self.failures <= MAX_ATTEMPTS
    }

    /// How long the wait is, in milliseconds.
    pub fn delay_millis(&self) -> (delay: u64)
        ensures
            delay == backoff_millis(self@.0.failures),
            1 <= self@.0.failures <= MAX_ATTEMPTS,
    {
        proof {
            use_type_invariant(self);
        }
        BACKOFF_INCREMENT_MILLIS * self.failures as u64
    }

    /// Which attempt failed, counted from one.
    pub fn attempt(&self) -> (attempt: u32)
        ensures
            attempt == self@.0.failures,
            1 <= attempt <= MAX_ATTEMPTS,
    {
        proof {
            use_type_invariant(self);
        }
        self.failures
    }

    /// Why the attempt failed.
    pub fn message(&self) -> (message: &str)
        ensures
            message@ == self@.1,
    {
        self.message.as_str()
    }

    /// Goes on after the wait: with another attempt, or with the message of the last one where
    /// that was the last.
    pub fn resume(self) -> (resumed: Resumed)
        ensures
            resumed@ == after_wait(self@.0, self@.1),
    {
        if self.failures < MAX_ATTEMPTS {
            Resumed::Execute(Attempt { failures: self.failures, has_traces: self.has_traces })
        } else {
            Resumed::Finish(Err(ApolloExportError::Unavailable(self.message)))
        }
    }
}

/// What a submission comes to that makes its next attempt in the given state, where its attempts
/// come to the given outcomes, counted from the first.
pub open spec fn submitted(progress: Progress, outcomes: Seq<Outcome>) -> Result<
    (),
    ApolloExportErrorModel,
>
    decreases MAX_ATTEMPTS - progress.failures,
{
    match after_attempt(progress, outcomes[progress.failures as int]) {
        Next::Finish(result) => result,
        Next::Wait(waiting, message) => match after_wait(waiting, message) {
            Next::Execute(again) => submitted(again, outcomes),
            Next::Finish(result) => result,
            Next::Wait(..) => arbitrary(),
        },
        Next::Execute(_) => arbitrary(),
    }
}

/// How long, in milliseconds, such a submission waits in all.
pub open spec fn waited_millis(progress: Progress, outcomes: Seq<Outcome>) -> nat
    decreases MAX_ATTEMPTS - progress.failures,
{
    match after_attempt(progress, outcomes[progress.failures as int]) {
        Next::Wait(waiting, message) => backoff_millis(waiting.failures) + match after_wait(
            waiting,
            message,
        ) {
            Next::Execute(again) => waited_millis(again, outcomes),
            _ => 0,
        },
        _ => 0,
    }
}

/// The first outcome that is not transient decides a submission, if it is among those of the
/// attempts that are made.
pub proof fn first_final_outcome_decides(
    progress: Progress,
    outcomes: Seq<Outcome>,
    decisive: nat,
    result: Result<(), ApolloExportErrorModel>,
)
    requires
        progress.failures <= decisive < MAX_ATTEMPTS,
        forall|i: int|
            progress.failures <= i < decisive ==> judged(#[trigger] outcomes[i]) is Transient,
        judged(outcomes[decisive as int]) == Judgement::Final(result),
    ensures
        submitted(progress, outcomes) == result,
    decreases decisive - progress.failures,
{
    if progress.failures < decisive {
        let failed = outcomes[progress.failures as int];
        assert(judged(failed) is Transient);
        first_final_outcome_decides(
            Progress { failures: progress.failures + 1, ..progress },
            outcomes,
            decisive,
            result,
        );
    }
}

/// Where every attempt fails for what may be transient, the ingress counts as unavailable, for the
/// reason of the last attempt.
pub proof fn last_message_remains(progress: Progress, outcomes: Seq<Outcome>, message: Seq<char>)
    requires
        progress.failures < MAX_ATTEMPTS,
        forall|i: int|
            progress.failures <= i < MAX_ATTEMPTS ==> judged(#[trigger] outcomes[i]) is Transient,
        judged(outcomes[MAX_ATTEMPTS - 1]) == Judgement::Transient(message),
    ensures
        submitted(progress, outcomes) == Err::<(), ApolloExportErrorModel>(
            ApolloExportErrorModel::Unavailable(message),
        ),
    decreases MAX_ATTEMPTS - progress.failures,
{
    let failed = outcomes[progress.failures as int];
    assert(judged(failed) is Transient);
    if progress.failures + 1 < MAX_ATTEMPTS {
        last_message_remains(
            Progress { failures: progress.failures + 1, ..progress },
            outcomes,
            message,
        );
    }
}

/// No attempt is made beyond the last: what would come of it does not count.
pub proof fn attempts_are_limited(
    progress: Progress,
    outcomes: Seq<Outcome>,
    others: Seq<Outcome>,
)
    requires
        progress.failures < MAX_ATTEMPTS,
        forall|i: int|
            progress.failures <= i < MAX_ATTEMPTS ==> #[trigger] outcomes[i] == others[i],
    ensures
        submitted(progress, outcomes) == submitted(progress, others),
        waited_millis(progress, outcomes) == waited_millis(progress, others),
    decreases MAX_ATTEMPTS - progress.failures,
{
    let next = outcomes[progress.failures as int];
    assert(next == others[progress.failures as int]);
    if progress.failures + 1 < MAX_ATTEMPTS {
        attempts_are_limited(
            Progress { failures: progress.failures + 1, ..progress },
            outcomes,
            others,
        );
    }
}

/// A submission waits for three quarters of a second at most, and for exactly that where every
/// attempt fails for what may be transient.
pub proof fn waiting_is_limited(outcomes: Seq<Outcome>, has_traces: bool)
    ensures
        waited_millis(Progress { failures: 0, has_traces }, outcomes) <= 750,
        (forall|i: int| 0 <= i < MAX_ATTEMPTS ==> judged(#[trigger] outcomes[i]) is Transient)
            ==> waited_millis(Progress { failures: 0, has_traces }, outcomes) == 750,
{
    reveal_with_fuel(waited_millis, 6);
    assert(judged(outcomes[0]) is Transient || judged(outcomes[0]) is Final);
    assert(judged(outcomes[1]) is Transient || judged(outcomes[1]) is Final);
    assert(judged(outcomes[2]) is Transient || judged(outcomes[2]) is Final);
    assert(judged(outcomes[3]) is Transient || judged(outcomes[3]) is Final);
    assert(judged(outcomes[4]) is Transient || judged(outcomes[4]) is Final);
}

/// Once traces are stripped, they stay stripped, whatever comes of further attempts.
pub proof fn stripping_stays(progress: Progress, outcome: Outcome)
    ensures
        strips_after(true, progress, outcome),
{
}

/// A report without traces never makes them be stripped, and neither does an attempt that is not
/// accepted.
pub proof fn only_accepted_traces_count(strip: bool, progress: Progress, outcome: Outcome)
    requires
        !progress.has_traces || judged(outcome) != Judgement::Final(Ok(())),
    ensures
        strips_after(strip, progress, outcome) == strip,
{
}

/// Whether traces are to be stripped after a number of attempts, of any reports, that came to the
/// given outcomes.
pub open spec fn strips_after_all(strip: bool, attempts: Seq<(Progress, Outcome)>) -> bool
    decreases attempts.len(),
{
    if attempts.len() == 0 {
        strip
    } else {
        strips_after(
            strips_after_all(strip, attempts.drop_last()),
            attempts.last().0,
            attempts.last().1,
        )
    }
}

/// Whether an attempt to send a report with traces was accepted with the answer that traces are
/// ignored.
pub open spec fn traces_were_ignored(progress: Progress, outcome: Outcome) -> bool {
    &&& progress.has_traces
    &&& judged(outcome) == Judgement::Final(Ok(()))
    &&& traces_ignored_member(outcome) == Some(JsonValue::Boolean(true))
}

/// Once the ingress has ignored the traces of a report, no report is sent with traces, whatever
/// came of the attempts since: what is sent of it is all but its traces.
pub proof fn ignored_traces_are_not_sent_again(
    strip: bool,
    attempts: Seq<(Progress, Outcome)>,
    ignored: int,
    report: Report,
    outgoing: Outgoing,
)
    requires
        0 <= ignored < attempts.len(),
        traces_were_ignored(attempts[ignored].0, attempts[ignored].1),
        report.stripped(strips_after_all(strip, attempts), outgoing.report()),
    ensures
        !outgoing.report().carries_traces(),
        report.stripped(true, outgoing.report()),
{
    lemma_ignored_traces_are_stripped(strip, attempts, ignored);
    stripped_reports_carry_no_traces(report, outgoing.report());
}

proof fn lemma_ignored_traces_are_stripped(
    strip: bool,
    attempts: Seq<(Progress, Outcome)>,
    ignored: int,
)
    requires
        0 <= ignored < attempts.len(),
        traces_were_ignored(attempts[ignored].0, attempts[ignored].1),
    ensures
        strips_after_all(strip, attempts),
    decreases attempts.len(),
{
    if ignored < attempts.len() - 1 {
        lemma_ignored_traces_are_stripped(strip, attempts.drop_last(), ignored);
    }
}

/// As long as the ingress has not ignored the traces of any report, reports are sent with theirs.
pub proof fn traces_are_sent_until_ignored(
    attempts: Seq<(Progress, Outcome)>,
    report: Report,
    outgoing: Outgoing,
)
    requires
        forall|i: int|
            0 <= i < attempts.len() ==> !traces_were_ignored(
                (#[trigger] attempts[i]).0,
                attempts[i].1,
            ),
        report.stripped(strips_after_all(false, attempts), outgoing.report()),
    ensures
        report.stripped(false, outgoing.report()),
        outgoing.report().carries_traces() == report.carries_traces(),
{
    lemma_traces_are_kept(attempts);
    assert(outgoing.report().traces_per_query@ == report.traces_per_query@);
}

proof fn lemma_traces_are_kept(attempts: Seq<(Progress, Outcome)>)
    requires
        forall|i: int|
            0 <= i < attempts.len() ==> !traces_were_ignored(
                (#[trigger] attempts[i]).0,
                attempts[i].1,
            ),
    ensures
        !strips_after_all(false, attempts),
    decreases attempts.len(),
{
    if attempts.len() > 0 {
        let last = attempts[attempts.len() - 1];
        assert(!traces_were_ignored(last.0, last.1));
        assert forall|i: int| 0 <= i < attempts.len() - 1 implies !traces_were_ignored(
            (#[trigger] attempts.drop_last()[i]).0,
            attempts.drop_last()[i].1,
        ) by {
            assert(attempts.drop_last()[i] == attempts[i]);
        }
        lemma_traces_are_kept(attempts.drop_last());
    }
}

} // verus!
