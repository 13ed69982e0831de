//! The ingest orchestrator behind the progress subscription.
//!
//! One producer per subscription key runs the pipeline: look up the stored
//! high-water mark, discover the archives, then store batch after batch,
//! publishing one progress fraction per consumed batch. The fraction is
//! kept as a pair `processed / max(total, 1)`; the serving layer divides.
//! The driving loop performs the awaits and feeds the resulting events back
//! into the machine.

use vstd::prelude::*;

use crate::errors::{GameRepositoryError, PlatformError, StoreGamesError};

verus! {

/// The root subscription object of the public schema.
#[derive(Clone, Copy, Debug)]
pub struct Subscription;

/// What a subscription run can fail with.
#[derive(Clone, Debug)]
pub enum UpdateUserGamesError {
    PlatformError(PlatformError),
    GameRepositoryError(GameRepositoryError),
    Unknown(String),
}

/// A progress fraction, kept exact: `processed` consumed batches out of
/// `total` archives (a denominator of 0 reads as 1).
#[derive(Clone, Copy, Debug, PartialEq, Eq, Structural)]
pub struct Progress {
    pub processed: usize,
    pub total: usize,
}

/// Where an ingest run stands.
pub enum IngestState {
    /// Waiting for the stored high-water mark.
    AwaitingTimestamp,
    /// Waiting for the archive count, to be fetched from `since` on.
    AwaitingArchives { since: Option<u64> },
    /// Consuming the batch stream.
    Storing { total: usize, processed: usize },
    /// The stream was drained.
    Done { total: usize, processed: usize },
    /// A step failed, or the driver handed in an event the state cannot
    /// take; the error has been published and the run is over.
    Failed,
}

/// What the driving loop reports back to the machine.
pub enum IngestEvent {
    TimestampOk(Option<u64>),
    TimestampFailed(GameRepositoryError),
    ArchivesOk(usize),
    ArchivesFailed(PlatformError),
    /// One batch was consumed and stored.
    BatchStored,
    StreamFinished,
    StoreFailed(StoreGamesError),
}

/// What the driving loop must do next.
pub enum IngestAction {
    FetchArchives(Option<u64>),
    AwaitBatch,
    PublishProgress(Progress),
    PublishError(UpdateUserGamesError),
    Finish,
}

/// The transition table of the orchestrator.
pub open spec fn spec_ingest_step(state: IngestState, event: IngestEvent) -> (IngestState, Option<
    IngestAction,
>) {
    match (state, event) {
        (IngestState::AwaitingTimestamp, IngestEvent::TimestampOk(ts)) => (
            IngestState::AwaitingArchives { since: ts },
            Some(IngestAction::FetchArchives(ts)),
        ),
        (IngestState::AwaitingTimestamp, IngestEvent::TimestampFailed(e)) => (
            IngestState::Failed,
            Some(IngestAction::PublishError(UpdateUserGamesError::GameRepositoryError(e))),
        ),
        (IngestState::AwaitingArchives { .. }, IngestEvent::ArchivesOk(n)) => (
            IngestState::Storing { total: n, processed: 0 },
            Some(IngestAction::AwaitBatch),
        ),
        (IngestState::AwaitingArchives { .. }, IngestEvent::ArchivesFailed(e)) => (
            IngestState::Failed,
            Some(IngestAction::PublishError(UpdateUserGamesError::PlatformError(e))),
        ),
        (IngestState::Storing { total, processed }, IngestEvent::BatchStored) => {
            let p2 = if processed < usize::MAX {
                (processed + 1) as usize
            } else {
                processed
            };
            (
                IngestState::Storing { total, processed: p2 },
                Some(IngestAction::PublishProgress(Progress { processed: p2, total })),
            )
        },
        (IngestState::Storing { total, processed }, IngestEvent::StreamFinished) => (
            IngestState::Done { total, processed },
            Some(IngestAction::Finish),
        ),
        (IngestState::Storing { .. }, IngestEvent::StoreFailed(e)) => (
            IngestState::Failed,
            Some(
                IngestAction::PublishError(
                    match e {
                        StoreGamesError::GameRepositoryError(
                            e2,
                        ) => UpdateUserGamesError::GameRepositoryError(e2),
                        StoreGamesError::PlatformError(e2) => UpdateUserGamesError::PlatformError(
                            e2,
                        ),
                    },
                ),
            ),
        ),
        (_, _) => (IngestState::Failed, None),
    }
}

/// Advances the orchestrator by one event.
pub fn ingest_step(state: IngestState, event: IngestEvent) -> (r: (IngestState, Option<
    IngestAction,
>))
    ensures
        r == spec_ingest_step(state, event),
{
    match (state, event) {
        (IngestState::AwaitingTimestamp, IngestEvent::TimestampOk(ts)) => (
            IngestState::AwaitingArchives { since: ts },
            Some(IngestAction::FetchArchives(ts)),
        ),
        (IngestState::AwaitingTimestamp, IngestEvent::TimestampFailed(e)) => (
            IngestState::Failed,
            Some(IngestAction::PublishError(UpdateUserGamesError::GameRepositoryError(e))),
        ),
        (IngestState::AwaitingArchives { .. }, IngestEvent::ArchivesOk(n)) => (
            IngestState::Storing { total: n, processed: 0 },
            Some(IngestAction::AwaitBatch),
        ),
        (IngestState::AwaitingArchives { .. }, IngestEvent::ArchivesFailed(e)) => (
            IngestState::Failed,
            Some(IngestAction::PublishError(UpdateUserGamesError::PlatformError(e))),
        ),
        (IngestState::Storing { total, processed }, IngestEvent::BatchStored) => {
            let p2 = if processed < usize::MAX {
                processed + 1
            } else {
                processed
            };
            (
                IngestState::Storing { total, processed: p2 },
                Some(IngestAction::PublishProgress(Progress { processed: p2, total })),
            )
        },
        (IngestState::Storing { total, processed }, IngestEvent::StreamFinished) => (
            IngestState::Done { total, processed },
            Some(IngestAction::Finish),
        ),
        (IngestState::Storing { .. }, IngestEvent::StoreFailed(e)) => (
            IngestState::Failed,
            Some(
                IngestAction::PublishError(
                    match e {
                        StoreGamesError::GameRepositoryError(
                            e2,
                        ) => UpdateUserGamesError::GameRepositoryError(e2),
                        StoreGamesError::PlatformError(e2) => UpdateUserGamesError::PlatformError(
                            e2,
                        ),
                    },
                ),
            ),
        ),
        (_, _) => (IngestState::Failed, None),
    }
}

/// The state a run of events drives the machine into.
pub open spec fn run_state(init: IngestState, events: Seq<IngestEvent>) -> IngestState
    decreases events.len(),
{
    if events.len() == 0 {
        init
    } else {
        run_state(spec_ingest_step(init, events[0]).0, events.drop_first())
    }
}

/// The progress values a run of events publishes, in order.
pub open spec fn published(init: IngestState, events: Seq<IngestEvent>) -> Seq<Progress>
    decreases events.len(),
{
    if events.len() == 0 {
        Seq::empty()
    } else {
        let step = spec_ingest_step(init, events[0]);
        (match step.1 {
            Some(IngestAction::PublishProgress(p)) => seq![p],
            _ => Seq::<Progress>::empty(),
        }) + published(step.0, events.drop_first())
    }
}

/// Progress on a single subscription is non-decreasing: every published
/// fraction carries the denominator fixed when the archives were counted,
/// and a numerator strictly above every earlier one.
pub proof fn lemma_progress_monotone(init: IngestState, events: Seq<IngestEvent>)
    ensures
        forall|i: int, j: int|
            0 <= i < j < published(init, events).len() ==> (#[trigger] published(init, events)[i]).processed
                <= (#[trigger] published(init, events)[j]).processed && published(init, events)[i].total
                == published(init, events)[j].total,
        init matches IngestState::Storing { total, processed } ==> forall|i: int|
            0 <= i < published(init, events).len() ==> (#[trigger] published(init, events)[i]).total
                == total && published(init, events)[i].processed >= processed,
        (init is Done || init is Failed) ==> published(init, events).len() == 0,
    decreases events.len(),
{
    if events.len() > 0 {
        let step = spec_ingest_step(init, events[0]);
        let rest = published(step.0, events.drop_first());
        lemma_progress_monotone(step.0, events.drop_first());
        match step.1 {
            Some(IngestAction::PublishProgress(p)) => {
                assert(published(init, events) =~= seq![p] + rest);
            },
            _ => {
                assert(published(init, events) =~= rest);
            },
        }
    }
}

/// The canonical successful run: the high-water mark arrives, `n` archives
/// are counted, `n` batches are stored, the stream ends.
pub open spec fn successful_events(ts: Option<u64>, n: usize) -> Seq<IngestEvent> {
    seq![IngestEvent::TimestampOk(ts), IngestEvent::ArchivesOk(n)] + Seq::new(
        n as nat,
        |i: int| IngestEvent::BatchStored,
    ) + seq![IngestEvent::StreamFinished]
}

proof fn lemma_storing_run(total: usize, processed: usize, k: nat)
    requires
        processed + k <= total <= usize::MAX,
    ensures
        ({
            let evs = Seq::new(k, |i: int| IngestEvent::BatchStored) + seq![
                IngestEvent::StreamFinished,
            ];
            let init = IngestState::Storing { total, processed };
            &&& run_state(init, evs) == (IngestState::Done {
                total,
                processed: (processed + k) as usize,
            })
            &&& published(init, evs) == Seq::new(
                k,
                |i: int| Progress { processed: (processed + i + 1) as usize, total },
            )
        }),
    decreases k,
{
    let evs = Seq::new(k, |i: int| IngestEvent::BatchStored) + seq![IngestEvent::StreamFinished];
    let init = IngestState::Storing { total, processed };
    if k == 0 {
        let done = IngestState::Done { total, processed };
        assert(evs =~= seq![IngestEvent::StreamFinished]);
        assert(evs[0] == IngestEvent::StreamFinished);
        assert(evs.drop_first() =~= Seq::<IngestEvent>::empty());
        assert(spec_ingest_step(init, evs[0]).0 == done);
        assert(run_state(done, Seq::<IngestEvent>::empty()) == done);
        assert(run_state(init, evs) == run_state(done, evs.drop_first()));
        assert((processed + k) as usize == processed);
        assert(published(done, Seq::<IngestEvent>::empty()) =~= Seq::<Progress>::empty());
        assert(published(init, evs) =~= published(done, evs.drop_first()));
        assert(published(init, evs) =~= Seq::new(
            0,
            |i: int| Progress { processed: (processed + i + 1) as usize, total },
        ));
    } else {
        let p1 = (processed + 1) as usize;
        let next = IngestState::Storing { total, processed: p1 };
        lemma_storing_run(total, p1, (k - 1) as nat);
        let evs2 = Seq::new((k - 1) as nat, |i: int| IngestEvent::BatchStored) + seq![
            IngestEvent::StreamFinished,
        ];
        assert(evs[0] == IngestEvent::BatchStored);
        assert(evs.drop_first() =~= evs2);
        assert(published(init, evs) =~= seq![Progress { processed: p1, total }] + published(
            next,
            evs2,
        ));
        assert(published(init, evs) =~= Seq::new(
            k,
            |i: int| Progress { processed: (processed + i + 1) as usize, total },
        ));
    }
}

/// On a successful run over `n` archives the machine ends in `Done` having
/// published exactly `n` fractions, the last one `n / n` — the value 1 —
/// whenever `n > 0`.
pub proof fn lemma_successful_run_completes(ts: Option<u64>, n: usize)
    ensures
        run_state(IngestState::AwaitingTimestamp, successful_events(ts, n)) == (IngestState::Done {
            total: n,
            processed: n,
        }),
        published(IngestState::AwaitingTimestamp, successful_events(ts, n)).len() == n,
        n > 0 ==> published(IngestState::AwaitingTimestamp, successful_events(ts, n)).last() == (
        Progress { processed: n, total: n }),
{
    let evs = successful_events(ts, n);
    let s1 = IngestState::AwaitingArchives { since: ts };
    let s2 = IngestState::Storing { total: n, processed: 0 };
    let tail1 = seq![IngestEvent::ArchivesOk(n)] + Seq::new(
        n as nat,
        |i: int| IngestEvent::BatchStored,
    ) + seq![IngestEvent::StreamFinished];
    let tail2 = Seq::new(n as nat, |i: int| IngestEvent::BatchStored) + seq![
        IngestEvent::StreamFinished,
    ];
    assert(evs[0] == IngestEvent::TimestampOk(ts));
    assert(evs.drop_first() =~= tail1);
    assert(spec_ingest_step(IngestState::AwaitingTimestamp, evs[0]).0 == s1);
    assert(run_state(IngestState::AwaitingTimestamp, evs) == run_state(s1, tail1));
    assert(published(IngestState::AwaitingTimestamp, evs) =~= published(s1, tail1));
    assert(tail1[0] == IngestEvent::ArchivesOk(n));
    assert(tail1.drop_first() =~= tail2);
    assert(spec_ingest_step(s1, tail1[0]).0 == s2);
    assert(run_state(s1, tail1) == run_state(s2, tail2));
    assert(published(s1, tail1) =~= published(s2, tail2));
    lemma_storing_run(n, 0, n as nat);
    assert(run_state(s2, tail2) == (IngestState::Done { total: n, processed: (0 + n as nat) as usize }));
    assert((0 + n as nat) as usize == n);
    assert(published(s2, tail2) == Seq::new(
        n as nat,
        |i: int| Progress { processed: (0 + i + 1) as usize, total: n },
    ));
    if n > 0 {
        assert(published(s2, tail2).last() == (Progress { processed: n, total: n }));
    }
}

} // verus!
