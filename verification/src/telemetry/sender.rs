//! The way of a report to the exporter.

use futures::channel::mpsc;
use vstd::prelude::*;

verus! {

/// The sending end of a bounded channel of [`futures`].
#[verifier::external_type_specification]
#[verifier::external_body]
#[verifier::reject_recursive_types(T)]
pub struct ExMpscSender<T>(futures::channel::mpsc::Sender<T>);

/// A second sender into the same channel: `Clone::clone` of `futures::channel::mpsc::Sender`.
/// Nothing is said of it, as a sender is not looked into.
pub assume_specification<T>[ <futures::channel::mpsc::Sender<T> as Clone>::clone ](
    channel: &futures::channel::mpsc::Sender<T>,
) -> (copy: futures::channel::mpsc::Sender<T>)
;

/// Where reports go.
#[verifier::reject_recursive_types(T)]
pub enum ReportSender<T> {
    /// Nowhere.
    Noop,
    /// To the exporter at the other end of a channel.
    Apollo(mpsc::Sender<T>),
}

/// What became of a report.
#[derive(Debug)]
pub enum Sent<T> {
    /// Reports go nowhere.
    Ignored,
    /// The exporter will receive it.
    Queued,
    /// It is not sent, for the reason given.
    Dropped(T, String),
}

/// Puts a report into a channel: `futures::channel::mpsc::Sender::try_send`, on a clone of the
/// sender. Where that fails, the report comes back. A fresh clone has a slot of its own in the
/// channel, so what makes it fail is that the receiver is gone. Whether it is gone is not said
/// here. A channel counts its senders and messages in half the range of `usize`, more than memory
/// holds.
#[verifier::external_body]
fn try_send<T>(channel: &mpsc::Sender<T>, report: T) -> (result: Result<(), (T, String)>)
    ensures
        match result {
            Ok(()) => true,
            Err(error) => error.0 == report && error.1@ == "send failed because receiver is gone"@,
        },
{
    match channel.to_owned().try_send(report) {
        Ok(()) => Ok(()),
        Err(error) => {
            let text = error.to_string();
            Err((error.into_inner(), text))
        },
    }
}

/// Whether a channel can give this answer when a report is put into it, once, through a clone of
/// its sender: whether it is an answer of [`try_send`] on that channel and that report.
pub closed spec fn answers<T>(
    channel: mpsc::Sender<T>,
    report: T,
    answer: Result<(), (T, String)>,
) -> bool {
    call_ensures(try_send::<T>, (&channel, report), answer)
}

/// What became of a report, given what the channel answered.
pub open spec fn became<T>(answer: Result<(), (T, String)>) -> Sent<T> {
    match answer {
        Ok(()) => Sent::Queued,
        Err(error) => Sent::Dropped(error.0, error.1),
    }
}

/// What became of a report, given what the channel answered.
pub fn sent<T>(answer: Result<(), (T, String)>) -> (sent: Sent<T>)
    ensures
        sent == became(answer),
{
    match answer {
        Ok(()) => Sent::Queued,
        Err((report, reason)) => Sent::Dropped(report, reason),
    }
}

impl<T> ReportSender<T> {
    /// Sends a report, without waiting: puts it as it is into the channel and says what became of
    /// it, by the answer of the channel. A report that cannot be sent comes back whole.
    pub fn send(&self, report: T) -> (sent: Sent<T>)
        ensures
            match self {
                ReportSender::Noop => sent is Ignored,
                ReportSender::Apollo(channel) => exists|answer: Result<(), (T, String)>| #[trigger]
                    answers(*channel, report, answer) && sent == became(answer),
            },
            sent matches Sent::Dropped(dropped, reason) ==> dropped == report && reason@
                == "send failed because receiver is gone"@,
    {
        match self {
            ReportSender::Noop => Sent::Ignored,
            ReportSender::Apollo(channel) => {
                let answer = try_send(channel, report);
                assert(answers(*channel, report, answer));
                self::sent(answer)
            },
        }
    }
}

impl<T> Clone for ReportSender<T> {
    /// A sender to the same place: its channel is a clone of the one here.
    fn clone(&self) -> (copy: Self)
        ensures
            match self {
                ReportSender::Noop => copy is Noop,
                ReportSender::Apollo(channel) => {
                    &&& copy matches ReportSender::Apollo(cloned)
                    &&& call_ensures(mpsc::Sender::<T>::clone, (channel,), cloned)
                },
            },
    {
        match self {
            ReportSender::Noop => ReportSender::Noop,
            ReportSender::Apollo(channel) => ReportSender::Apollo(channel.clone()),
        }
    }
}

impl<T> Default for ReportSender<T> {
    fn default() -> (sender: Self)
        ensures
            sender is Noop,
    {
        ReportSender::Noop
    }
}

} // verus!
