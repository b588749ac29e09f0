//! What holds of a dispatcher over a whole session.
//!
//! A session, as a dispatcher sees it, is the sequence of events reported to
//! it. The statements here hold for every such sequence, also for one in which
//! events arrive that do not fit the phase.

use vstd::prelude::*;
use crate::dispatcher::{
    after_pass, initial, pass_uploads, screenshot_due, segment_uploads, step_spec, ActionView,
    DispatcherView, EventView, ObservationView, Phase, UploadTaskView,
};
use crate::ledger::{ledger_names, lemma_ledger_names};
use crate::seqs::{lemma_contains_concat, lemma_contains_push};
use crate::track::Track;

verus! {

/// The uploads that an action hands out.
pub open spec fn uploads_of(action: ActionView) -> Seq<UploadTaskView> {
    match action {
        ActionView::Upload(tasks) => tasks,
        _ => Seq::empty(),
    }
}

/// The dispatcher after the events of `events`, one after the other.
pub open spec fn run(state: DispatcherView, events: Seq<EventView>) -> DispatcherView
    decreases events.len(),
{
    if events.len() == 0 {
        state
    } else {
        step_spec(run(state, events.drop_last()), events.last()).0
    }
}

/// Every upload handed out in answer to the events of `events`, in order.
pub open spec fn issued(state: DispatcherView, events: Seq<EventView>) -> Seq<UploadTaskView>
    decreases events.len(),
{
    if events.len() == 0 {
        Seq::empty()
    } else {
        issued(state, events.drop_last()) + uploads_of(
            step_spec(run(state, events.drop_last()), events.last()).1,
        )
    }
}

/// How often the events of `events` were answered with `Finish`.
pub open spec fn finish_count(state: DispatcherView, events: Seq<EventView>) -> nat
    decreases events.len(),
{
    if events.len() == 0 {
        0
    } else {
        let before = finish_count(state, events.drop_last());
        if step_spec(run(state, events.drop_last()), events.last()).1 == ActionView::Finish {
            before + 1
        } else {
            before
        }
    }
}

/// Whether a dispatcher in this phase takes an observation and runs a pass.
pub open spec fn takes_pass(phase: Phase) -> bool {
    phase == Phase::Reconciling || phase == Phase::Draining
}

/// Whether the dispatcher has run its last pass, or has failed: the phases in
/// which no pass can follow.
pub open spec fn past_last_pass(phase: Phase) -> bool {
    phase == Phase::DrainUploading || phase == Phase::Finished || phase == Phase::Failed
}

/// Whether the event is a look at the disk that found the screenshot.
pub open spec fn finds_screenshot(event: EventView) -> bool {
    match event {
        EventView::Observed(found) => found.screenshot_present,
        _ => false,
    }
}

/// Whether some pass among the events found the screenshot on disk.
pub open spec fn screenshot_sighted(state: DispatcherView, events: Seq<EventView>) -> bool
    decreases events.len(),
{
    if events.len() == 0 {
        false
    } else {
        screenshot_sighted(state, events.drop_last()) || (takes_pass(
            run(state, events.drop_last()).phase,
        ) && finds_screenshot(events.last()))
    }
}

/// Whether some event reported the shutdown flag as set.
pub open spec fn shutdown_observed(events: Seq<EventView>) -> bool {
    exists|i: int| 0 <= i < events.len() && events[i] == (EventView::Tick { shutdown: true })
}

/// The segment uploads of one pass: one for each listed name that is new and
/// on disk, none twice.
pub proof fn lemma_segment_uploads(
    names: Seq<Seq<u8>>,
    seen: Set<Seq<u8>>,
    present: Set<Seq<u8>>,
)
    requires
        names.no_duplicates(),
    ensures
        segment_uploads(names, seen, present).no_duplicates(),
        !segment_uploads(names, seen, present).contains(UploadTaskView::Screenshot),
        forall|name: Seq<u8>| #[trigger]
            segment_uploads(names, seen, present).contains(UploadTaskView::Segment { name }) <==> (
            names.contains(name) && !seen.contains(name) && present.contains(name)),
    decreases names.len(),
{
    let tasks = segment_uploads(names, seen, present);
    if names.len() > 0 {
        let front = names.drop_last();
        let before = segment_uploads(front, seen, present);
        let last = names.last();
        let grows = !seen.contains(last) && present.contains(last);
        lemma_segment_uploads(front, seen, present);
        assert(tasks == if grows {
            before.push(UploadTaskView::Segment { name: last })
        } else {
            before
        });
        let added = UploadTaskView::Segment { name: last };
        assert(names =~= front.push(last));
        assert(!front.contains(last)) by {
            if front.contains(last) {
                let k = choose|k: int| 0 <= k < front.len() && front[k] == last;
                assert(names[k] == names[names.len() - 1]);
            }
        }
        assert(!before.contains(added));
        assert forall|i: int, j: int| 0 <= i < j < tasks.len() implies tasks[i] != tasks[j] by {
            if j == before.len() {
                assert(before.contains(before[i]));
            } else {
                assert(before[i] != before[j]);
            }
        }
        lemma_contains_push(before, added, UploadTaskView::Screenshot);
        assert forall|name: Seq<u8>| #[trigger]
            tasks.contains(UploadTaskView::Segment { name }) <==> (names.contains(name)
                && !seen.contains(name) && present.contains(name)) by {
            lemma_contains_push(front, last, name);
            lemma_contains_push(before, added, UploadTaskView::Segment { name });
        }
    }
}

/// The uploads of one pass, said without reference to their order: a segment
/// is uploaded exactly if the ledger lists it, no earlier pass has seen it and
/// its file is on disk; the screenshot exactly if it is due; nothing twice.
pub proof fn law_pass_uploads(state: DispatcherView, found: ObservationView)
    ensures
        pass_uploads(state, found).no_duplicates(),
        pass_uploads(state, found).contains(UploadTaskView::Screenshot) <==> screenshot_due(
            state,
            found,
        ),
        forall|name: Seq<u8>| #[trigger]
            pass_uploads(state, found).contains(UploadTaskView::Segment { name }) <==> (
            ledger_names(found.ledger).contains(name) && !state.seen.contains(name)
                && found.present.contains(name)),
{
    let names = ledger_names(found.ledger);
    let segments = segment_uploads(names, state.seen, found.present);
    let tasks = pass_uploads(state, found);
    lemma_ledger_names(found.ledger);
    lemma_segment_uploads(names, state.seen, found.present);
    if screenshot_due(state, found) {
        assert(tasks == segments.push(UploadTaskView::Screenshot));
        lemma_contains_push(segments, UploadTaskView::Screenshot, UploadTaskView::Screenshot);
        assert forall|i: int, j: int| 0 <= i < j < tasks.len() implies tasks[i] != tasks[j] by {
            assert(segments.contains(segments[i]));
        }
        assert forall|name: Seq<u8>| #[trigger]
            tasks.contains(UploadTaskView::Segment { name }) <==> (names.contains(name)
                && !state.seen.contains(name) && found.present.contains(name)) by {
            lemma_contains_push(
                segments,
                UploadTaskView::Screenshot,
                UploadTaskView::Segment { name },
            );
        }
    }
}

/// Events reported one after the other add up: the state and the uploads after
/// `first + then` are those of `then` reported to the dispatcher that `first`
/// has left behind.
pub proof fn lemma_history_concat(
    state: DispatcherView,
    first: Seq<EventView>,
    then: Seq<EventView>,
)
    ensures
        run(state, first + then) == run(run(state, first), then),
        issued(state, first + then) == issued(state, first) + issued(run(state, first), then),
    decreases then.len(),
{
    if then.len() == 0 {
        assert(first + then =~= first);
        assert(issued(state, first) + Seq::<UploadTaskView>::empty() =~= issued(state, first));
    } else {
        let all = first + then;
        assert(all.drop_last() =~= first + then.drop_last());
        assert(all.last() == then.last());
        lemma_history_concat(state, first, then.drop_last());
        let middle = run(state, first);
        let last_uploads = uploads_of(
            step_spec(run(middle, then.drop_last()), then.last()).1,
        );
        assert(issued(state, all) =~= issued(state, first) + (issued(middle, then.drop_last())
            + last_uploads));
    }
}

/// What every history keeps: the track; what was seen stays seen; a screenshot
/// once uploaded stays uploaded; no upload is handed out twice; and every
/// upload handed out is of something that was new when the history began and
/// is accounted for at its end.
pub proof fn lemma_history(state: DispatcherView, events: Seq<EventView>)
    ensures
        run(state, events).track == state.track,
        state.seen.subset_of(run(state, events).seen),
        state.screenshot_uploaded ==> run(state, events).screenshot_uploaded,
        issued(state, events).no_duplicates(),
        forall|name: Seq<u8>| #[trigger]
            issued(state, events).contains(UploadTaskView::Segment { name }) ==> !state.seen.contains(
                name,
            ) && run(state, events).seen.contains(name),
        issued(state, events).contains(UploadTaskView::Screenshot) ==> state.track.has_screenshot()
            && !state.screenshot_uploaded && run(state, events).screenshot_uploaded,
    decreases events.len(),
{
    if events.len() > 0 {
        let front = events.drop_last();
        let middle = run(state, front);
        let earlier = issued(state, front);
        let (end, action) = step_spec(middle, events.last());
        let fresh = uploads_of(action);
        let all = issued(state, events);
        lemma_history(state, front);
        assert(all == earlier + fresh);
        if fresh.len() > 0 {
            let found = events.last()->Observed_0;
            assert(fresh == pass_uploads(middle, found));
            assert(end == after_pass(middle, found, end.phase));
            law_pass_uploads(middle, found);
            assert forall|i: int, j: int|
                0 <= i < earlier.len() && 0 <= j < fresh.len() implies earlier[i] != fresh[j] by {
                assert(earlier.contains(earlier[i]));
                assert(fresh.contains(fresh[j]));
                match fresh[j] {
                    UploadTaskView::Segment { name } => {
                        assert(fresh.contains(UploadTaskView::Segment { name }));
                    },
                    UploadTaskView::Screenshot => {},
                }
            }
            vstd::seq_lib::lemma_no_dup_in_concat(earlier, fresh);
            assert forall|name: Seq<u8>| #[trigger]
                all.contains(UploadTaskView::Segment { name }) implies !state.seen.contains(name)
                && end.seen.contains(name) by {
                lemma_contains_concat(earlier, fresh, UploadTaskView::Segment { name });
                if fresh.contains(UploadTaskView::Segment { name }) {
                    assert(ledger_names(found.ledger).to_set().contains(name));
                }
            }
            lemma_contains_concat(earlier, fresh, UploadTaskView::Screenshot);
        } else {
            assert(all =~= earlier);
        }
    }
}

/// No upload is handed out twice in a session, whatever the events: neither a
/// segment nor the screenshot.
pub proof fn law_no_upload_twice(track: Track, events: Seq<EventView>)
    ensures
        issued(initial(track), events).no_duplicates(),
        forall|task: UploadTaskView| #[trigger]
            issued(initial(track), events).to_multiset().count(task) <= 1,
{
    let all = issued(initial(track), events);
    lemma_history(initial(track), events);
    all.lemma_multiset_has_no_duplicates();
    assert forall|task: UploadTaskView| #[trigger] all.to_multiset().count(task) <= 1 by {
        if all.to_multiset().count(task) > 0 {
            assert(all.to_multiset().contains(task));
        }
    }
}

/// A name that a pass has seen is never uploaded afterwards, whether or not
/// its file appears later.
pub proof fn law_seen_is_never_uploaded(
    state: DispatcherView,
    events: Seq<EventView>,
    name: Seq<u8>,
)
    requires
        state.seen.contains(name),
    ensures
        !issued(state, events).contains(UploadTaskView::Segment { name }),
        run(state, events).seen.contains(name),
{
    lemma_history(state, events);
}

/// A segment whose name and file are both there in the pass that first finds
/// the name is uploaded exactly once in the session: by that pass, and by no
/// pass before or after it.
pub proof fn law_found_with_file_is_uploaded_once(
    track: Track,
    before: Seq<EventView>,
    found: ObservationView,
    after: Seq<EventView>,
    name: Seq<u8>,
)
    requires
        takes_pass(run(initial(track), before).phase),
        ledger_names(found.ledger).contains(name),
        !run(initial(track), before).seen.contains(name),
        found.present.contains(name),
    ensures
        issued(
            initial(track),
            before.push(EventView::Observed(found)) + after,
        ).to_multiset().count(UploadTaskView::Segment { name }) == 1,
        uploads_of(
            step_spec(run(initial(track), before), EventView::Observed(found)).1,
        ).contains(UploadTaskView::Segment { name }),
{
    let task = UploadTaskView::Segment { name };
    let start = initial(track);
    let middle = run(start, before);
    let through = before.push(EventView::Observed(found));
    let all = through + after;
    let fresh = uploads_of(step_spec(middle, EventView::Observed(found)).1);
    law_pass_uploads(middle, found);
    assert(fresh == pass_uploads(middle, found));
    assert(fresh.contains(task));
    assert(through.drop_last() =~= before);
    assert(issued(start, through) == issued(start, before) + fresh);
    lemma_history_concat(start, through, after);
    lemma_contains_concat(issued(start, before), fresh, task);
    lemma_contains_concat(issued(start, through), issued(run(start, through), after), task);
    law_no_upload_twice(track, all);
    vstd::seq_lib::to_multiset_contains(issued(start, all), task);
}

/// A segment whose file is missing in the pass that first finds its name is
/// never uploaded in the session, even if the file appears later.
pub proof fn law_found_without_file_is_never_uploaded(
    track: Track,
    before: Seq<EventView>,
    found: ObservationView,
    after: Seq<EventView>,
    name: Seq<u8>,
)
    requires
        takes_pass(run(initial(track), before).phase),
        ledger_names(found.ledger).contains(name),
        !run(initial(track), before).seen.contains(name),
        !found.present.contains(name),
    ensures
        issued(
            initial(track),
            before.push(EventView::Observed(found)) + after,
        ).to_multiset().count(UploadTaskView::Segment { name }) == 0,
{
    let task = UploadTaskView::Segment { name };
    let start = initial(track);
    let middle = run(start, before);
    let through = before.push(EventView::Observed(found));
    let all = through + after;
    let (end, action) = step_spec(middle, EventView::Observed(found));
    let fresh = uploads_of(action);
    law_pass_uploads(middle, found);
    assert(fresh == pass_uploads(middle, found));
    assert(!fresh.contains(task));
    assert(through.drop_last() =~= before);
    assert(run(start, through) == end);
    assert(issued(start, through) == issued(start, before) + fresh);
    lemma_history(start, before);
    assert(!issued(start, before).contains(task));
    assert(ledger_names(found.ledger).to_set().contains(name));
    assert(end.seen.contains(name));
    law_seen_is_never_uploaded(end, after, name);
    lemma_history_concat(start, through, after);
    let whole = issued(start, all);
    lemma_contains_concat(issued(start, before), fresh, task);
    lemma_contains_concat(issued(start, through), issued(end, after), task);
    vstd::seq_lib::to_multiset_contains(whole, task);
}

/// When the shutdown flag is observed, one more pass runs, and it is a pass
/// like any other: what the ledger lists by then, is new and is on disk is
/// uploaded.
pub proof fn law_drain_pass_uploads(state: DispatcherView, found: ObservationView)
    requires
        state.phase == Phase::Polling,
    ensures
        ({
            let (draining, first) = step_spec(state, EventView::Tick { shutdown: true });
            let (drained, second) = step_spec(draining, EventView::Observed(found));
            &&& draining.phase == Phase::Draining
            &&& first == ActionView::Observe
            &&& drained.phase == Phase::DrainUploading
            &&& second == ActionView::Upload(pass_uploads(state, found))
            &&& forall|name: Seq<u8>| #[trigger]
                uploads_of(second).contains(UploadTaskView::Segment { name }) <==> (ledger_names(
                    found.ledger,
                ).contains(name) && !state.seen.contains(name) && found.present.contains(name))
        }),
{
    let (draining, first) = step_spec(state, EventView::Tick { shutdown: true });
    assert(pass_uploads(draining, found) == pass_uploads(state, found));
    law_pass_uploads(state, found);
}

/// Once the last pass has run, or the dispatcher has failed, nothing is
/// uploaded any more and nothing new is seen, whatever is reported.
pub proof fn law_nothing_after_last_pass(state: DispatcherView, events: Seq<EventView>)
    requires
        past_last_pass(state.phase),
    ensures
        past_last_pass(run(state, events).phase),
        issued(state, events) == Seq::<UploadTaskView>::empty(),
        run(state, events).seen == state.seen,
        run(state, events).screenshot_uploaded == state.screenshot_uploaded,
        state.phase == Phase::Failed ==> run(state, events).phase == Phase::Failed,
    decreases events.len(),
{
    if events.len() > 0 {
        law_nothing_after_last_pass(state, events.drop_last());
        assert(issued(state, events) =~= Seq::<UploadTaskView>::empty());
    }
}

/// The screenshot of a track that has one is uploaded exactly once if some
/// pass of the session finds it on disk, and never otherwise, however many
/// passes there are. A track without a screenshot never uploads one.
pub proof fn law_screenshot_uploaded_once(track: Track, events: Seq<EventView>)
    ensures
        issued(initial(track), events).to_multiset().count(UploadTaskView::Screenshot) == (
        if track.has_screenshot() && screenshot_sighted(initial(track), events) {
            1nat
        } else {
            0nat
        }),
{
    let all = issued(initial(track), events);
    lemma_screenshot(track, events);
    law_no_upload_twice(track, events);
    vstd::seq_lib::to_multiset_contains(all, UploadTaskView::Screenshot);
    assert(all.to_multiset().count(UploadTaskView::Screenshot) <= 1);
}

/// The screenshot is among the uploads, and marked as uploaded, exactly if the
/// track has one and some pass found it.
proof fn lemma_screenshot(track: Track, events: Seq<EventView>)
    ensures
        run(initial(track), events).track == track,
        run(initial(track), events).screenshot_uploaded <==> (track.has_screenshot()
            && screenshot_sighted(initial(track), events)),
        issued(initial(track), events).contains(UploadTaskView::Screenshot) <==> (
        track.has_screenshot() && screenshot_sighted(initial(track), events)),
    decreases events.len(),
{
    let start = initial(track);
    if events.len() > 0 {
        let front = events.drop_last();
        let middle = run(start, front);
        let earlier = issued(start, front);
        let (end, action) = step_spec(middle, events.last());
        let fresh = uploads_of(action);
        let all = issued(start, events);
        lemma_screenshot(track, front);
        assert(all == earlier + fresh);
        lemma_contains_concat(earlier, fresh, UploadTaskView::Screenshot);
        if takes_pass(middle.phase) && events.last() is Observed {
            let found = events.last()->Observed_0;
            law_pass_uploads(middle, found);
        } else {
            assert(fresh =~= Seq::<UploadTaskView>::empty());
        }
    }
}

/// A finished dispatcher stays finished: no event changes it, and none is
/// answered with an upload or with another `Finish`.
pub proof fn law_finished_is_final(state: DispatcherView, events: Seq<EventView>)
    requires
        state.phase == Phase::Finished,
    ensures
        run(state, events) == state,
        issued(state, events) == Seq::<UploadTaskView>::empty(),
        finish_count(state, events) == 0,
    decreases events.len(),
{
    if events.len() > 0 {
        law_finished_is_final(state, events.drop_last());
        assert(issued(state, events) =~= Seq::<UploadTaskView>::empty());
    }
}

/// In a session `Finish` is answered at most once: once exactly if the
/// dispatcher has reached `Finished`, in which it then stays.
pub proof fn law_finish_at_most_once(track: Track, events: Seq<EventView>)
    ensures
        finish_count(initial(track), events) == (if run(initial(track), events).phase
            == Phase::Finished {
            1nat
        } else {
            0nat
        }),
    decreases events.len(),
{
    if events.len() > 0 {
        law_finish_at_most_once(track, events.drop_last());
    }
}

/// A dispatcher drains and finishes only after the shutdown flag was reported
/// as set.
pub proof fn law_finish_follows_shutdown(track: Track, events: Seq<EventView>)
    requires
        run(initial(track), events).phase == Phase::Draining || run(
            initial(track),
            events,
        ).phase == Phase::DrainUploading || run(initial(track), events).phase == Phase::Finished,
    ensures
        shutdown_observed(events),
    decreases events.len(),
{
    if events.len() > 0 {
        let front = events.drop_last();
        let middle = run(initial(track), front);
        if middle.phase == Phase::Draining || middle.phase == Phase::DrainUploading
            || middle.phase == Phase::Finished {
            law_finish_follows_shutdown(track, front);
            let i = choose|i: int|
                0 <= i < front.len() && front[i] == (EventView::Tick { shutdown: true });
            assert(events[i] == (EventView::Tick { shutdown: true }));
        } else {
            assert(events[events.len() - 1] == (EventView::Tick { shutdown: true }));
        }
    }
}

/// Whether the event is a look at the disk whose ledger lists `name`.
pub open spec fn lists(event: EventView, name: Seq<u8>) -> bool {
    match event {
        EventView::Observed(found) => ledger_names(found.ledger).contains(name),
        _ => false,
    }
}

/// Whether the event is a look at the disk whose ledger lists `name` and that
/// finds the file of that name.
pub open spec fn lists_with_file(event: EventView, name: Seq<u8>) -> bool {
    match event {
        EventView::Observed(found) => ledger_names(found.ledger).contains(name)
            && found.present.contains(name),
        _ => false,
    }
}

/// Whether some pass among the events found `name` in the ledger.
pub open spec fn listed(state: DispatcherView, events: Seq<EventView>, name: Seq<u8>) -> bool
    decreases events.len(),
{
    events.len() > 0 && (listed(state, events.drop_last(), name) || (takes_pass(
        run(state, events.drop_last()).phase,
    ) && lists(events.last(), name)))
}

/// Whether the first pass among the events that found `name` in the ledger
/// found its file as well.
pub open spec fn first_listed_with_file(
    state: DispatcherView,
    events: Seq<EventView>,
    name: Seq<u8>,
) -> bool
    decreases events.len(),
{
    if events.len() == 0 {
        false
    } else if listed(state, events.drop_last(), name) {
        first_listed_with_file(state, events.drop_last(), name)
    } else {
        takes_pass(run(state, events.drop_last()).phase) && lists_with_file(events.last(), name)
    }
}

/// What a dispatcher has seen is what it had seen at the beginning and what
/// its passes have found in the ledger since, and nothing else.
pub proof fn law_seen_is_what_was_listed(
    state: DispatcherView,
    events: Seq<EventView>,
    name: Seq<u8>,
)
    ensures
        run(state, events).seen.contains(name) <==> state.seen.contains(name) || listed(
            state,
            events,
            name,
        ),
    decreases events.len(),
{
    if events.len() > 0 {
        law_seen_is_what_was_listed(state, events.drop_last(), name);
        let middle = run(state, events.drop_last());
        if takes_pass(middle.phase) && events.last() is Observed {
            let found = events.last()->Observed_0;
            assert(ledger_names(found.ledger).to_set().contains(name) <==> ledger_names(
                found.ledger,
            ).contains(name));
        }
    }
}

/// A segment is uploaded exactly once in a session if the first pass that
/// finds its name in the ledger finds its file as well, and never otherwise:
/// not if no pass finds the name, and not if the file is missing when the name
/// is first found, whenever the file may appear.
pub proof fn law_segment_uploaded_once(track: Track, events: Seq<EventView>, name: Seq<u8>)
    ensures
        issued(initial(track), events).to_multiset().count(UploadTaskView::Segment { name }) == (
        if first_listed_with_file(initial(track), events, name) {
            1nat
        } else {
            0nat
        }),
{
    let all = issued(initial(track), events);
    let task = UploadTaskView::Segment { name };
    lemma_segment_uploaded(track, events, name);
    law_no_upload_twice(track, events);
    vstd::seq_lib::to_multiset_contains(all, task);
    assert(all.to_multiset().count(task) <= 1);
}

/// A segment is among the uploads exactly if the first pass that found its
/// name found its file.
proof fn lemma_segment_uploaded(track: Track, events: Seq<EventView>, name: Seq<u8>)
    ensures
        issued(initial(track), events).contains(UploadTaskView::Segment { name })
            <==> first_listed_with_file(initial(track), events, name),
    decreases events.len(),
{
    let start = initial(track);
    let task = UploadTaskView::Segment { name };
    if events.len() > 0 {
        let front = events.drop_last();
        let middle = run(start, front);
        let earlier = issued(start, front);
        let (end, action) = step_spec(middle, events.last());
        let fresh = uploads_of(action);
        let all = issued(start, events);
        lemma_segment_uploaded(track, front, name);
        lemma_history(start, front);
        law_seen_is_what_was_listed(start, front, name);
        assert(all == earlier + fresh);
        lemma_contains_concat(earlier, fresh, task);
        if takes_pass(middle.phase) && events.last() is Observed {
            let found = events.last()->Observed_0;
            law_pass_uploads(middle, found);
            assert(fresh == pass_uploads(middle, found));
        } else {
            assert(fresh =~= Seq::<UploadTaskView>::empty());
        }
    }
}

/// While the uploads of a pass are under way, nothing but their end moves the
/// dispatcher: no look at the shutdown flag and no look at the disk cuts the
/// wait short.
pub proof fn law_pass_waits_for_its_uploads(state: DispatcherView, event: EventView)
    requires
        state.phase == Phase::Uploading || state.phase == Phase::DrainUploading,
        event != EventView::Settled,
    ensures
        step_spec(state, event) == (state, ActionView::Ignore),
{
}

/// Whether the event at position `at` reported the shutdown flag as set to a
/// dispatcher that was polling.
pub open spec fn shutdown_taken_at(state: DispatcherView, events: Seq<EventView>, at: int) -> bool {
    &&& 0 <= at < events.len()
    &&& events[at] == (EventView::Tick { shutdown: true })
    &&& run(state, events.take(at)).phase == Phase::Polling
}

/// Whether the event at position `at` was the look at the disk of the last
/// pass.
pub open spec fn last_look_at(state: DispatcherView, events: Seq<EventView>, at: int) -> bool {
    &&& 0 <= at < events.len()
    &&& events[at] is Observed
    &&& run(state, events.take(at)).phase == Phase::Draining
}

/// Whether the event at position `at` reported the end of the uploads of the
/// last pass.
pub open spec fn last_uploads_settled_at(
    state: DispatcherView,
    events: Seq<EventView>,
    at: int,
) -> bool {
    &&& 0 <= at < events.len()
    &&& events[at] == EventView::Settled
    &&& run(state, events.take(at)).phase == Phase::DrainUploading
}

/// Whether the session saw the shutdown flag taken, then the last pass look at
/// the disk, then the uploads of that pass settle, in this order.
pub open spec fn drained_in_order(state: DispatcherView, events: Seq<EventView>) -> bool {
    exists|i: int, j: int, k: int|
        i < j < k && #[trigger] shutdown_taken_at(state, events, i) && #[trigger] last_look_at(
            state,
            events,
            j,
        ) && #[trigger] last_uploads_settled_at(state, events, k)
}

/// A dispatcher is finished only after it has been told that the shutdown
/// flag is set, has then looked at the disk once more, and has then been told
/// that the uploads of that last pass have ended.
pub proof fn law_finish_follows_last_pass(track: Track, events: Seq<EventView>)
    requires
        run(initial(track), events).phase == Phase::Finished,
    ensures
        drained_in_order(initial(track), events),
{
    lemma_drain_progress(track, events);
}

/// An event at a position keeps what it was when the session goes on.
proof fn lemma_position_kept(
    state: DispatcherView,
    front: Seq<EventView>,
    next: EventView,
    at: int,
)
    requires
        0 <= at < front.len(),
    ensures
        shutdown_taken_at(state, front, at) ==> shutdown_taken_at(state, front.push(next), at),
        last_look_at(state, front, at) ==> last_look_at(state, front.push(next), at),
        last_uploads_settled_at(state, front, at) ==> last_uploads_settled_at(
            state,
            front.push(next),
            at,
        ),
{
    assert(front.push(next).take(at) =~= front.take(at));
    assert(front.push(next)[at] == front[at]);
}

/// How far the last pass has come, phase by phase.
proof fn lemma_drain_progress(track: Track, events: Seq<EventView>)
    ensures
        run(initial(track), events).phase == Phase::Draining ==> exists|i: int| #[trigger]
            shutdown_taken_at(initial(track), events, i),
        run(initial(track), events).phase == Phase::DrainUploading ==> exists|i: int, j: int|
            i < j && #[trigger] shutdown_taken_at(initial(track), events, i)
                && #[trigger] last_look_at(initial(track), events, j),
        run(initial(track), events).phase == Phase::Finished ==> drained_in_order(
            initial(track),
            events,
        ),
    decreases events.len(),
{
    let start = initial(track);
    if events.len() > 0 {
        let front = events.drop_last();
        let last = events.last();
        let middle = run(start, front);
        let end = run(start, events);
        let here = front.len() as int;
        lemma_drain_progress(track, front);
        assert(events =~= front.push(last));
        assert(events.take(here) =~= front);
        assert(end == step_spec(middle, last).0);
        if end.phase == Phase::Draining {
            if middle.phase == Phase::Draining {
                let i = choose|i: int| shutdown_taken_at(start, front, i);
                lemma_position_kept(start, front, last, i);
            } else {
                assert(middle.phase == Phase::Polling);
                assert(shutdown_taken_at(start, events, here));
            }
        } else if end.phase == Phase::DrainUploading {
            if middle.phase == Phase::DrainUploading {
                let (i, j) = choose|i: int, j: int|
                    i < j && #[trigger] shutdown_taken_at(start, front, i)
                        && #[trigger] last_look_at(start, front, j);
                lemma_position_kept(start, front, last, i);
                lemma_position_kept(start, front, last, j);
            } else {
                assert(middle.phase == Phase::Draining);
                let i = choose|i: int| shutdown_taken_at(start, front, i);
                lemma_position_kept(start, front, last, i);
                assert(last_look_at(start, events, here));
            }
        } else if end.phase == Phase::Finished {
            if middle.phase == Phase::Finished {
                let (i, j, k) = choose|i: int, j: int, k: int|
                    i < j < k && #[trigger] shutdown_taken_at(start, front, i)
                        && #[trigger] last_look_at(start, front, j)
                        && #[trigger] last_uploads_settled_at(start, front, k);
                lemma_position_kept(start, front, last, i);
                lemma_position_kept(start, front, last, j);
                lemma_position_kept(start, front, last, k);
            } else {
                assert(middle.phase == Phase::DrainUploading);
                let (i, j) = choose|i: int, j: int|
                    i < j && #[trigger] shutdown_taken_at(start, front, i)
                        && #[trigger] last_look_at(start, front, j);
                lemma_position_kept(start, front, last, i);
                lemma_position_kept(start, front, last, j);
                assert(last_uploads_settled_at(start, events, here));
            }
        }
    }
}

} // verus!
