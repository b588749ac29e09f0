//! The upload task dispatcher of one track.
//!
//! A dispatcher looks at its track's ledger again and again. Each look is a
//! pass: the names that the ledger lists and that no earlier pass has listed
//! are new; each new name whose file is on disk becomes one upload, and every
//! new name counts as seen from then on, whether its file was there or not.
//! The video track's screenshot is uploaded by the first pass that finds it.
//! Once the shutdown flag is observed, one more pass runs, and after its
//! uploads have settled the dispatcher is finished.
//!
//! The dispatcher itself touches neither disk nor network. It is a machine:
//! the caller reports what happened as an [`Event`], and [`Dispatcher::step`]
//! answers with the [`Action`] to perform next.

use vstd::prelude::*;
use crate::ledger::{contains_name, copy_range, ledger_names, names_view, parse_ledger};
use crate::seqs::lemma_contains_push;
use crate::track::{screenshot_label, Track};

verus! {

/// The pause between two passes, in milliseconds.
pub const POLL_INTERVAL_MS: u64 = 100;

/// The pause before a screenshot upload begins, in milliseconds.
pub const SCREENSHOT_UPLOAD_DELAY_MS: u64 = 1000;

/// Where a dispatcher stands.
#[derive(Clone, Copy, Debug, PartialEq, Eq, Structural)]
pub enum Phase {
    /// Between two passes: the next look at the shutdown flag decides.
    Polling,
    /// A pass has begun and waits for what the disk holds.
    Reconciling,
    /// A pass has handed out its uploads and waits for them to settle.
    Uploading,
    /// The last pass has begun: the shutdown flag was observed.
    Draining,
    /// The last pass has handed out its uploads and waits for them to settle.
    DrainUploading,
    /// The last pass is over. Nothing follows.
    Finished,
    /// The ledger could not be read. Nothing follows, and the track is never
    /// reported as finished.
    Failed,
}

/// One file to upload.
#[derive(Clone, Debug, PartialEq, Eq)]
pub enum UploadTask {
    /// The segment with the given file name in the track's directory.
    Segment { name: Vec<u8> },
    /// The track's screenshot.
    Screenshot,
}

/// An upload task as contracts see it.
pub enum UploadTaskView {
    Segment { name: Seq<u8> },
    Screenshot,
}

impl View for UploadTask {
    type V = UploadTaskView;

    open spec fn view(&self) -> UploadTaskView {
        match self {
            UploadTask::Segment { name } => UploadTaskView::Segment { name: name@ },
            UploadTask::Screenshot => UploadTaskView::Screenshot,
        }
    }
}

impl UploadTask {
    /// The label under which the file is uploaded: the track's label for a
    /// segment, and `screenshot` for a screenshot, whatever the track.
    pub open spec fn spec_label(self, track: Track) -> Seq<char> {
        match self {
            UploadTask::Segment { .. } => track.spec_label(),
            UploadTask::Screenshot => "screenshot"@,
        }
    }

    /// The pause before the upload begins, in milliseconds: none for a
    /// segment, `SCREENSHOT_UPLOAD_DELAY_MS` for a screenshot.
    pub open spec fn spec_delay_ms(self) -> u64 {
        match self {
            UploadTask::Segment { .. } => 0,
            UploadTask::Screenshot => SCREENSHOT_UPLOAD_DELAY_MS,
        }
    }

    /// The label under which the file is uploaded by the dispatcher of
    /// `track`.
    pub fn label(&self, track: Track) -> (label: &'static str)
        ensures
            label@ == self.spec_label(track),
    {
        match self {
            UploadTask::Segment { .. } => track.label(),
            UploadTask::Screenshot => screenshot_label(),
        }
    }

    /// The pause before the upload begins, in milliseconds.
    pub fn delay_ms(&self) -> (delay: u64)
        ensures
            delay == self.spec_delay_ms(),
    {
        match self {
            UploadTask::Segment { .. } => 0,
            UploadTask::Screenshot => SCREENSHOT_UPLOAD_DELAY_MS,
        }
    }
}

/// The tasks that a list of upload tasks stands for.
pub open spec fn tasks_view(tasks: Seq<UploadTask>) -> Seq<UploadTaskView> {
    Seq::new(tasks.len(), |i: int| tasks[i]@)
}

/// What one pass finds on disk.
#[derive(Clone, Debug, PartialEq, Eq)]
pub struct Observation {
    /// The content of the ledger.
    pub ledger: Vec<u8>,
    /// Names of segments whose file is on disk. Only names that the ledger
    /// lists and no earlier pass has seen matter.
    pub present: Vec<Vec<u8>>,
    /// Whether the screenshot is on disk.
    pub screenshot_present: bool,
}

/// An observation as contracts see it.
pub struct ObservationView {
    pub ledger: Seq<u8>,
    pub present: Set<Seq<u8>>,
    pub screenshot_present: bool,
}

impl View for Observation {
    type V = ObservationView;

    open spec fn view(&self) -> ObservationView {
        ObservationView {
            ledger: self.ledger@,
            present: names_view(self.present@).to_set(),
            screenshot_present: self.screenshot_present,
        }
    }
}

/// What the caller reports to the dispatcher.
#[derive(Clone, Debug, PartialEq, Eq)]
pub enum Event {
    /// The dispatcher has just started or its pause is over, and the shutdown
    /// flag was read.
    Tick { shutdown: bool },
    /// The disk was looked at.
    Observed(Observation),
    /// The ledger could not be read.
    LedgerUnreadable,
    /// Every upload of the current pass has ended, in success or in failure.
    Settled,
}

/// An event as contracts see it.
pub enum EventView {
    Tick { shutdown: bool },
    Observed(ObservationView),
    LedgerUnreadable,
    Settled,
}

impl View for Event {
    type V = EventView;

    open spec fn view(&self) -> EventView {
        match self {
            Event::Tick { shutdown } => EventView::Tick { shutdown: *shutdown },
            Event::Observed(observation) => EventView::Observed(observation@),
            Event::LedgerUnreadable => EventView::LedgerUnreadable,
            Event::Settled => EventView::Settled,
        }
    }
}

/// What the dispatcher asks the caller to do next.
#[derive(Clone, Debug, PartialEq, Eq)]
pub enum Action {
    /// Read the ledger, find out which pending segments and whether the
    /// screenshot are on disk, and report `Observed` or `LedgerUnreadable`.
    Observe,
    /// Start all of these uploads, wait until each has ended, and report
    /// `Settled`.
    Upload(Vec<UploadTask>),
    /// Pause for `millis` milliseconds, read the shutdown flag and report
    /// `Tick`. The pause is always `POLL_INTERVAL_MS` long.
    Sleep { millis: u64 },
    /// Set the track's finished flag and leave.
    Finish,
    /// Leave with the ledger's error, without setting the finished flag.
    Abort,
    /// The event does not fit the phase. Nothing has changed.
    Ignore,
}

/// An action as contracts see it.
pub enum ActionView {
    Observe,
    Upload(Seq<UploadTaskView>),
    Sleep { millis: u64 },
    Finish,
    Abort,
    Ignore,
}

impl View for Action {
    type V = ActionView;

    open spec fn view(&self) -> ActionView {
        match self {
            Action::Observe => ActionView::Observe,
            Action::Upload(tasks) => ActionView::Upload(tasks_view(tasks@)),
            Action::Sleep { millis } => ActionView::Sleep { millis: *millis },
            Action::Finish => ActionView::Finish,
            Action::Abort => ActionView::Abort,
            Action::Ignore => ActionView::Ignore,
        }
    }
}

/// A dispatcher as contracts see it.
pub struct DispatcherView {
    pub track: Track,
    pub phase: Phase,
    /// The names that some pass has found in the ledger.
    pub seen: Set<Seq<u8>>,
    pub screenshot_uploaded: bool,
}

/// The state in which a track's dispatcher starts.
pub open spec fn initial(track: Track) -> DispatcherView {
    DispatcherView { track, phase: Phase::Polling, seen: Set::empty(), screenshot_uploaded: false }
}

/// The names of `names` that are not in `seen`, in their order.
pub open spec fn unseen_names(names: Seq<Seq<u8>>, seen: Set<Seq<u8>>) -> Seq<Seq<u8>>
    decreases names.len(),
{
    if names.len() == 0 {
        Seq::empty()
    } else {
        let before = unseen_names(names.drop_last(), seen);
        if seen.contains(names.last()) {
            before
        } else {
            before.push(names.last())
        }
    }
}

/// What `unseen_names` keeps: exactly the names that are not in `seen`.
pub proof fn lemma_unseen_names(names: Seq<Seq<u8>>, seen: Set<Seq<u8>>)
    ensures
        forall|name: Seq<u8>| #[trigger]
            unseen_names(names, seen).contains(name) <==> names.contains(name) && !seen.contains(
                name,
            ),
    decreases names.len(),
{
    let kept = unseen_names(names, seen);
    if names.len() > 0 {
        let front = names.drop_last();
        let before = unseen_names(front, seen);
        let last = names.last();
        lemma_unseen_names(front, seen);
        assert(kept == if seen.contains(last) {
            before
        } else {
            before.push(last)
        });
        assert(names =~= front.push(last));
        assert forall|name: Seq<u8>| #[trigger]
            kept.contains(name) <==> names.contains(name) && !seen.contains(name) by {
            lemma_contains_push(front, last, name);
            lemma_contains_push(before, last, name);
        }
    }
}

/// One segment upload for each name of `names` that is not in `seen` and is in
/// `present`, in the order of `names`.
pub open spec fn segment_uploads(
    names: Seq<Seq<u8>>,
    seen: Set<Seq<u8>>,
    present: Set<Seq<u8>>,
) -> Seq<UploadTaskView>
    decreases names.len(),
{
    if names.len() == 0 {
        Seq::empty()
    } else {
        let before = segment_uploads(names.drop_last(), seen, present);
        let name = names.last();
        if !seen.contains(name) && present.contains(name) {
            before.push(UploadTaskView::Segment { name })
        } else {
            before
        }
    }
}

/// Whether a pass that observes `found` uploads the screenshot: the track has
/// one, none was uploaded before, and it is on disk.
pub open spec fn screenshot_due(state: DispatcherView, found: ObservationView) -> bool {
    state.track.has_screenshot() && !state.screenshot_uploaded && found.screenshot_present
}

/// The uploads of a pass that observes `found`: the new segments that are on
/// disk, in the ledger's order, and then the screenshot if it is due.
pub open spec fn pass_uploads(state: DispatcherView, found: ObservationView) -> Seq<
    UploadTaskView,
> {
    let segments = segment_uploads(ledger_names(found.ledger), state.seen, found.present);
    if screenshot_due(state, found) {
        segments.push(UploadTaskView::Screenshot)
    } else {
        segments
    }
}

/// The dispatcher after a pass that observed `found`. Every name of the ledger
/// is seen now.
pub open spec fn after_pass(
    state: DispatcherView,
    found: ObservationView,
    phase: Phase,
) -> DispatcherView {
    DispatcherView {
        track: state.track,
        phase,
        seen: state.seen.union(ledger_names(found.ledger).to_set()),
        screenshot_uploaded: state.screenshot_uploaded || screenshot_due(state, found),
    }
}

/// The same dispatcher in another phase.
pub open spec fn in_phase(state: DispatcherView, phase: Phase) -> DispatcherView {
    DispatcherView { phase, ..state }
}

/// The dispatcher's answer to an event: its next state and what it asks for.
pub open spec fn step_spec(state: DispatcherView, event: EventView) -> (
    DispatcherView,
    ActionView,
) {
    match (state.phase, event) {
        (Phase::Polling, EventView::Tick { shutdown }) => (
            in_phase(
                state,
                if shutdown {
                    Phase::Draining
                } else {
                    Phase::Reconciling
                },
            ),
            ActionView::Observe,
        ),
        (Phase::Reconciling, EventView::Observed(found)) => (
            after_pass(state, found, Phase::Uploading),
            ActionView::Upload(pass_uploads(state, found)),
        ),
        (Phase::Draining, EventView::Observed(found)) => (
            after_pass(state, found, Phase::DrainUploading),
            ActionView::Upload(pass_uploads(state, found)),
        ),
        (Phase::Reconciling, EventView::LedgerUnreadable) => (
            in_phase(state, Phase::Failed),
            ActionView::Abort,
        ),
        (Phase::Draining, EventView::LedgerUnreadable) => (
            in_phase(state, Phase::Failed),
            ActionView::Abort,
        ),
        (Phase::Uploading, EventView::Settled) => (
            in_phase(state, Phase::Polling),
            ActionView::Sleep { millis: POLL_INTERVAL_MS },
        ),
        (Phase::DrainUploading, EventView::Settled) => (
            in_phase(state, Phase::Finished),
            ActionView::Finish,
        ),
        _ => (state, ActionView::Ignore),
    }
}

/// The dispatcher of one track.
pub struct Dispatcher {
    track: Track,
    phase: Phase,
    seen: Vec<Vec<u8>>,
    screenshot_uploaded: bool,
}

impl View for Dispatcher {
    type V = DispatcherView;

    closed spec fn view(&self) -> DispatcherView {
        DispatcherView {
            track: self.track,
            phase: self.phase,
            seen: names_view(self.seen@).to_set(),
            screenshot_uploaded: self.screenshot_uploaded,
        }
    }
}

impl Dispatcher {
    /// A dispatcher for `track` that has seen nothing yet.
    pub fn new(track: Track) -> (dispatcher: Dispatcher)
        ensures
            dispatcher@ == initial(track),
    {
        let dispatcher = Dispatcher {
            track,
            phase: Phase::Polling,
            seen: Vec::new(),
            screenshot_uploaded: false,
        };
        assert(names_view(dispatcher.seen@).to_set() =~= Set::<Seq<u8>>::empty());
        dispatcher
    }

    /// The track that the dispatcher serves.
    pub fn track(&self) -> (track: Track)
        ensures
            track == self@.track,
    {
        self.track
    }

    /// Where the dispatcher stands.
    pub fn phase(&self) -> (phase: Phase)
        ensures
            phase == self@.phase,
    {
        self.phase
    }

    /// Whether the dispatcher has run its last pass and seen its uploads
    /// settle.
    pub fn is_finished(&self) -> (finished: bool)
        ensures
            finished == (self@.phase == Phase::Finished),
    {
        match self.phase {
            Phase::Finished => true,
            _ => false,
        }
    }

    /// Whether some pass has found `name` in the ledger.
    pub fn has_seen(&self, name: &[u8]) -> (seen: bool)
        ensures
            seen == self@.seen.contains(name@),
    {
        contains_name(&self.seen, name)
    }

    /// Whether a pass would upload the screenshot if it found it on disk.
    pub fn wants_screenshot(&self) -> (wanted: bool)
        ensures
            wanted == (self@.track.has_screenshot() && !self@.screenshot_uploaded),
    {
        self.track.watches_screenshot() && !self.screenshot_uploaded
    }

    /// The names that a ledger with the given content lists and that no pass
    /// has seen: the segments whose files a pass has to look for.
    pub fn pending_segments(&self, ledger: &[u8]) -> (pending: Vec<Vec<u8>>)
        ensures
            names_view(pending@) == unseen_names(ledger_names(ledger@), self@.seen),
            forall|name: Seq<u8>| #[trigger]
                names_view(pending@).contains(name) <==> ledger_names(ledger@).contains(name)
                    && !self@.seen.contains(name),
    {
        let names = parse_ledger(ledger);
        let mut pending: Vec<Vec<u8>> = Vec::new();
        let mut i: usize = 0;
        assert(names_view(names@).take(0) =~= Seq::<Seq<u8>>::empty());
        assert(names_view(pending@) =~= Seq::<Seq<u8>>::empty());
        while i < names.len()
            invariant
                i <= names.len(),
                names_view(pending@) == unseen_names(
                    names_view(names@).take(i as int),
                    self@.seen,
                ),
            decreases names.len() - i,
        {
            proof {
                let upto = names_view(names@).take(i + 1);
                assert(upto.drop_last() =~= names_view(names@).take(i as int));
                assert(upto.last() == names@[i as int]@);
            }
            if !contains_name(&self.seen, names[i].as_slice()) {
                let name = copy_range(names[i].as_slice(), 0, names[i].len());
                proof {
                    assert(name@ =~= names@[i as int]@);
                    assert(names_view(pending@.push(name)) =~= names_view(pending@).push(name@));
                }
                pending.push(name);
            }
            i = i + 1;
        }
        proof {
            assert(names_view(names@).take(i as int) =~= names_view(names@));
            lemma_unseen_names(ledger_names(ledger@), self@.seen);
        }
        pending
    }

    /// Runs one pass over what was found on disk: hands out the uploads and
    /// marks every name of the ledger as seen.
    fn reconcile(&mut self, found: &Observation) -> (tasks: Vec<UploadTask>)
        ensures
            tasks_view(tasks@) == pass_uploads(old(self)@, found@),
            final(self)@ == after_pass(old(self)@, found@, old(self)@.phase),
    {
        let names = parse_ledger(found.ledger.as_slice());
        let mut tasks: Vec<UploadTask> = Vec::new();
        let mut i: usize = 0;
        let ghost before = self@;
        let ghost listed = names_view(names@);
        proof {
            assert(listed.take(0) =~= Seq::<Seq<u8>>::empty());
            assert(tasks_view(tasks@) =~= Seq::<UploadTaskView>::empty());
            assert(before.seen.union(listed.take(0).to_set()) =~= before.seen);
        }
        while i < names.len()
            invariant
                i <= names.len(),
                listed == names_view(names@),
                listed.no_duplicates(),
                before == old(self)@,
                tasks_view(tasks@) == segment_uploads(
                    listed.take(i as int),
                    before.seen,
                    found@.present,
                ),
                self@ == (DispatcherView {
                    seen: before.seen.union(listed.take(i as int).to_set()),
                    ..before
                }),
            decreases names.len() - i,
        {
            let ghost name = names@[i as int]@;
            proof {
                let upto = listed.take(i + 1);
                assert(upto.drop_last() =~= listed.take(i as int));
                assert(upto.last() == name);
                assert(listed[i as int] == name);
                assert(upto =~= listed.take(i as int).push(name));
                listed.take(i as int).lemma_push_to_set_commute(name);
                assert(!listed.take(i as int).to_set().contains(name)) by {
                    if listed.take(i as int).contains(name) {
                        let k = choose|k: int|
                            0 <= k < listed.take(i as int).len() && listed.take(i as int)[k]
                                == name;
                        assert(listed[k] == listed[i as int]);
                    }
                }
                assert(before.seen.union(upto.to_set()) =~= before.seen.union(
                    listed.take(i as int).to_set(),
                ).insert(name));
            }
            let known = contains_name(&self.seen, names[i].as_slice());
            let on_disk = contains_name(&found.present, names[i].as_slice());
            proof {
                assert(known == self@.seen.contains(name));
                assert(known == before.seen.contains(name));
                assert(on_disk == found@.present.contains(name));
            }
            if !known {
                if on_disk {
                    let task = UploadTask::Segment {
                        name: copy_range(names[i].as_slice(), 0, names[i].len()),
                    };
                    proof {
                        assert(task@ == (UploadTaskView::Segment { name })) by {
                            assert(task->name@ =~= name);
                        }
                        assert(tasks_view(tasks@.push(task)) =~= tasks_view(tasks@).push(task@));
                    }
                    tasks.push(task);
                }
                let seen_name = copy_range(names[i].as_slice(), 0, names[i].len());
                proof {
                    assert(seen_name@ =~= name);
                    assert(names_view(self.seen@.push(seen_name)) =~= names_view(self.seen@).push(
                        name,
                    ));
                    names_view(self.seen@).lemma_push_to_set_commute(name);
                }
                self.seen.push(seen_name);
            } else {
                proof {
                    assert(before.seen.union(listed.take(i as int).to_set()).insert(name)
                        =~= before.seen.union(listed.take(i as int).to_set()));
                }
            }
            i = i + 1;
        }
        proof {
            assert(listed.take(i as int) =~= listed);
        }
        if self.track.watches_screenshot() && !self.screenshot_uploaded
            && found.screenshot_present {
            proof {
                assert(tasks_view(tasks@.push(UploadTask::Screenshot)) =~= tasks_view(
                    tasks@,
                ).push(UploadTaskView::Screenshot));
            }
            tasks.push(UploadTask::Screenshot);
            self.screenshot_uploaded = true;
        }
        tasks
    }

    /// Takes an event and says what to do next.
    ///
    /// An event that does not fit the phase changes nothing and is answered
    /// with `Ignore`.
    pub fn step(&mut self, event: Event) -> (action: Action)
        ensures
            (final(self)@, action@) == step_spec(old(self)@, event@),
    {
        match event {
            Event::Tick { shutdown } => match self.phase {
                Phase::Polling => {
                    if shutdown {
                        self.phase = Phase::Draining;
                    } else {
                        self.phase = Phase::Reconciling;
                    }
                    Action::Observe
                },
                _ => Action::Ignore,
            },
            Event::Observed(found) => match self.phase {
                Phase::Reconciling => {
                    let tasks = self.reconcile(&found);
                    self.phase = Phase::Uploading;
                    Action::Upload(tasks)
                },
                Phase::Draining => {
                    let tasks = self.reconcile(&found);
                    self.phase = Phase::DrainUploading;
                    Action::Upload(tasks)
                },
                _ => Action::Ignore,
            },
            Event::LedgerUnreadable => match self.phase {
                Phase::Reconciling => {
                    self.phase = Phase::Failed;
                    Action::Abort
                },
                Phase::Draining => {
                    self.phase = Phase::Failed;
                    Action::Abort
                },
                _ => Action::Ignore,
            },
            Event::Settled => match self.phase {
                Phase::Uploading => {
                    self.phase = Phase::Polling;
                    Action::Sleep { millis: POLL_INTERVAL_MS }
                },
                Phase::DrainUploading => {
                    self.phase = Phase::Finished;
                    Action::Finish
                },
                _ => Action::Ignore,
            },
        }
    }
}

} // verus!
