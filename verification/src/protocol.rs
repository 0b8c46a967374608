//! What holds of whole runs of the batch pipeline: the order of the messages, the
//! outcome of an empty input, the outcome of a run in which every image is read, and
//! the effect of running a batch twice.

use vstd::prelude::*;
use crate::collector::{collected, lemma_collected_are_images, FileEntryView, InputListingView};
use crate::detection::{DetectionView, DetectorParams};
use crate::geometry::Rect;
use crate::names::{is_image_name, no_files_message};
use crate::processor::{
    planned_artifacts,
    ActionView,
    ArtifactView,
    EventView,
    MessageView,
    Phase,
    PipelineView,
    StepView,
};

verus! {

/// What a run has come to: its state, the messages it has emitted and the crops it
/// has asked to be written, each in order.
#[verifier::ext_equal]
pub struct Trace {
    pub state: PipelineView,
    pub messages: Seq<MessageView>,
    pub artifacts: Seq<ArtifactView>,
}

/// The crops that an action asks to be written.
pub open spec fn exports_of(action: ActionView) -> Seq<ArtifactView> {
    match action {
        ActionView::Export { artifacts } => artifacts,
        _ => Seq::empty(),
    }
}

impl Trace {
    /// A run in the given state that has done nothing yet.
    pub open spec fn start(state: PipelineView) -> Trace {
        Trace { state, messages: Seq::empty(), artifacts: Seq::empty() }
    }

    /// The run after one more event. An event that is refused changes nothing.
    pub open spec fn after(self, event: EventView) -> Trace {
        match self.state.step(event) {
            Some(step) => Trace {
                state: step.state,
                messages: self.messages + step.messages,
                artifacts: self.artifacts + exports_of(step.action),
            },
            None => self,
        }
    }

    /// The run after these events, in order.
    pub open spec fn after_all(self, events: Seq<EventView>) -> Trace
        decreases events.len(),
    {
        if events.len() == 0 {
            self
        } else {
            self.after_all(events.drop_last()).after(events.last())
        }
    }
}

/// The run of a new pipeline over these events.
pub open spec fn run(output_dir: Seq<char>, params: DetectorParams, events: Seq<EventView>) -> Trace {
    Trace::start(PipelineView::initial(output_dir, params)).after_all(events)
}

/// Messages in the order that an observer relies on: every message but the last is
/// a `Progress`; the last is `Complete` or `Error` if the run has ended, and a
/// `Progress` if it has not.
pub open spec fn in_order(messages: Seq<MessageView>, ended: bool) -> bool {
    &&& forall|i: int| 0 <= i < messages.len() - 1 ==> (#[trigger] messages[i]) is Progress
    &&& ended ==> messages.len() > 0 && messages.last().is_terminal()
    &&& !ended && messages.len() > 0 ==> messages.last() is Progress
}

/// A transition keeps a state well-formed.
pub proof fn lemma_step_keeps_wf(state: PipelineView, event: EventView)
    requires
        state.wf(),
        state.step(event) is Some,
    ensures
        state.step(event)->0.state.wf(),
{
    match event {
        EventView::Listed(listing) => {
            assert forall|i: int| 0 <= i < collected(listing).len() implies is_image_name(
                #[trigger] collected(listing)[i].file_name,
            ) by {
                lemma_collected_are_images(listing, i);
            }
        },
        _ => {},
    }
}

/// Running over two sequences of events, one after the other, is running over their
/// concatenation.
pub proof fn lemma_after_all_append(trace: Trace, first: Seq<EventView>, second: Seq<EventView>)
    ensures
        trace.after_all(first + second) == trace.after_all(first).after_all(second),
    decreases second.len(),
{
    if second.len() == 0 {
        assert(first + second =~= first);
    } else {
        assert((first + second).drop_last() =~= first + second.drop_last());
        assert((first + second).last() == second.last());
        lemma_after_all_append(trace, first, second.drop_last());
    }
}

/// Running over one event.
pub proof fn lemma_after_one(trace: Trace, event: EventView)
    ensures
        trace.after_all(seq![event]) == trace.after(event),
{
    assert(seq![event].drop_last() =~= Seq::<EventView>::empty());
    assert(trace.after_all(Seq::<EventView>::empty()) == trace);
}

/// A run that has ended takes no further event: whatever arrives, its state, its
/// messages and its crops stay as they are.
pub proof fn lemma_ended_run_is_final(trace: Trace, events: Seq<EventView>)
    requires
        trace.state.phase is Done,
    ensures
        trace.after_all(events) == trace,
    decreases events.len(),
{
    if events.len() > 0 {
        lemma_ended_run_is_final(trace, events.drop_last());
    }
}

/// The messages of a run come in order, whatever events it is fed: any number of
/// `Progress` messages, then, exactly when the run has ended, one `Complete` or
/// `Error`, and nothing after it.
pub proof fn lemma_messages_in_order(
    output_dir: Seq<char>,
    params: DetectorParams,
    events: Seq<EventView>,
)
    ensures
        in_order(
            run(output_dir, params, events).messages,
            run(output_dir, params, events).state.phase is Done,
        ),
        run(output_dir, params, events).state.wf(),
    decreases events.len(),
{
    if events.len() > 0 {
        lemma_messages_in_order(output_dir, params, events.drop_last());
        let before = run(output_dir, params, events.drop_last());
        let event = events.last();
        if before.state.step(event) is Some {
            lemma_step_keeps_wf(before.state, event);
            let step = before.state.step(event)->0;
            let messages = before.messages + step.messages;
            assert(run(output_dir, params, events).messages == messages);
            assert forall|i: int| 0 <= i < messages.len() - 1 implies (#[trigger] messages[i])
                is Progress by {
                if i < before.messages.len() {
                    assert(messages[i] == before.messages[i]);
                } else {
                    assert(messages[i] == step.messages[i - before.messages.len()]);
                }
            }
            if messages.len() > 0 {
                if step.messages.len() > 0 {
                    assert(messages.last() == step.messages.last());
                } else {
                    assert(messages =~= before.messages);
                }
            }
        }
    }
}

/// An input location without images gives exactly one message, an `Error`, and no
/// crop, whatever events follow.
pub proof fn lemma_empty_input_gives_one_error(
    output_dir: Seq<char>,
    params: DetectorParams,
    listing: InputListingView,
    rest: Seq<EventView>,
)
    requires
        collected(listing).len() == 0,
    ensures
        run(output_dir, params, seq![EventView::Start, EventView::Listed(listing)] + rest).messages
            == seq![MessageView::Error(no_files_message())],
        run(
            output_dir,
            params,
            seq![EventView::Start, EventView::Listed(listing)] + rest,
        ).artifacts.len() == 0,
{
    let begin = Trace::start(PipelineView::initial(output_dir, params));
    let listed = begin.after(EventView::Start).after(EventView::Listed(listing));
    lemma_listed(output_dir, params, listing);
    assert(listed.messages =~= seq![MessageView::Error(no_files_message())]);
    assert(listed.artifacts =~= Seq::empty());
    lemma_after_all_append(begin, seq![EventView::Start, EventView::Listed(listing)], rest);
    lemma_ended_run_is_final(listed, rest);
}

/// The opening of every run: `Start`, then the listing.
proof fn lemma_listed(output_dir: Seq<char>, params: DetectorParams, listing: InputListingView)
    ensures
        Trace::start(PipelineView::initial(output_dir, params)).after_all(
            seq![EventView::Start, EventView::Listed(listing)],
        ) == Trace::start(PipelineView::initial(output_dir, params)).after(EventView::Start).after(
            EventView::Listed(listing),
        ),
{
    let begin = Trace::start(PipelineView::initial(output_dir, params));
    let events = seq![EventView::Start, EventView::Listed(listing)];
    assert(events.drop_last() =~= seq![EventView::Start]);
    lemma_after_one(begin, EventView::Start);
}

/// The events of a file that is read: the detector's report, then the word that its
/// crops are written.
pub open spec fn file_events(detection: DetectionView) -> Seq<EventView> {
    seq![EventView::Detected(detection), EventView::Exported]
}

/// The events of a run in which file number `k` is read and `detections[k]` is
/// found in it, after the listing.
pub open spec fn detection_events(detections: Seq<DetectionView>) -> Seq<EventView>
    decreases detections.len(),
{
    if detections.len() == 0 {
        Seq::empty()
    } else {
        detection_events(detections.drop_last()) + file_events(detections.last())
    }
}

/// The events of a whole run in which every image is read.
pub open spec fn batch_events(listing: InputListingView, detections: Seq<DetectionView>) -> Seq<
    EventView,
> {
    seq![EventView::Start, EventView::Listed(listing)] + detection_events(detections)
}

/// One `Progress` for each detection: the name of the file and the number of its
/// faces, in the order of the files.
pub open spec fn progress_messages(
    files: Seq<FileEntryView>,
    detections: Seq<DetectionView>,
) -> Seq<MessageView> {
    Seq::new(
        detections.len(),
        |k: int| MessageView::Progress(files[k].file_name, detections[k].faces.len()),
    )
}

/// The crops of all files, file by file.
pub open spec fn batch_artifacts(
    output_dir: Seq<char>,
    files: Seq<FileEntryView>,
    detections: Seq<DetectionView>,
) -> Seq<ArtifactView>
    decreases detections.len(),
{
    if detections.len() == 0 {
        Seq::empty()
    } else {
        batch_artifacts(output_dir, files, detections.drop_last()) + planned_artifacts(
            output_dir,
            files[detections.len() - 1],
            detections.last(),
        )
    }
}

/// The number of faces in all detections.
pub open spec fn face_total(detections: Seq<DetectionView>) -> nat
    decreases detections.len(),
{
    if detections.len() == 0 {
        0
    } else {
        face_total(detections.drop_last()) + detections.last().faces.len()
    }
}

/// There is one crop for each face.
pub proof fn lemma_one_artifact_per_face(
    output_dir: Seq<char>,
    files: Seq<FileEntryView>,
    detections: Seq<DetectionView>,
)
    ensures
        batch_artifacts(output_dir, files, detections).len() == face_total(detections),
    decreases detections.len(),
{
    if detections.len() > 0 {
        lemma_one_artifact_per_face(output_dir, files, detections.drop_last());
    }
}

/// Where a run stands after its first `done` files were read, while files remain.
proof fn lemma_batch_prefix(
    output_dir: Seq<char>,
    params: DetectorParams,
    listing: InputListingView,
    detections: Seq<DetectionView>,
    done: int,
)
    requires
        collected(listing).len() == detections.len(),
        0 <= done < detections.len(),
    ensures
        ({
            let files = collected(listing);
            let seen = detections.take(done);
            let trace = run(output_dir, params, batch_events(listing, seen));
            &&& trace.state == (PipelineView {
                files,
                cursor: done as nat,
                phase: Phase::Detecting,
                ..PipelineView::initial(output_dir, params)
            })
            &&& trace.messages == progress_messages(files, seen)
            &&& trace.artifacts == batch_artifacts(output_dir, files, seen)
        }),
    decreases done,
{
    let files = collected(listing);
    let begin = Trace::start(PipelineView::initial(output_dir, params));
    let opening = seq![EventView::Start, EventView::Listed(listing)];
    let seen = detections.take(done);
    lemma_listed(output_dir, params, listing);
    lemma_after_all_append(begin, opening, detection_events(seen));
    if done == 0 {
        assert(seen =~= Seq::empty());
        let trace = begin.after_all(opening);
        assert(trace.messages =~= progress_messages(files, seen));
        assert(trace.artifacts =~= batch_artifacts(output_dir, files, seen));
    } else {
        let earlier = detections.take(done - 1);
        let found = detections[done - 1];
        assert(seen.drop_last() =~= earlier);
        assert(seen.last() == found);
        lemma_batch_prefix(output_dir, params, listing, detections, done - 1);
        lemma_after_all_append(begin, opening, detection_events(earlier));
        let before = begin.after_all(opening).after_all(detection_events(earlier));
        lemma_after_all_append(
            begin.after_all(opening),
            detection_events(earlier),
            file_events(found),
        );
        lemma_file_events(before, found);
        let trace = before.after(EventView::Detected(found)).after(EventView::Exported);
        assert(trace.messages =~= progress_messages(files, seen));
        assert(trace.artifacts =~= batch_artifacts(output_dir, files, seen));
    }
}

/// Running over the two events of a file.
proof fn lemma_file_events(trace: Trace, detection: DetectionView)
    ensures
        trace.after_all(file_events(detection)) == trace.after(
            EventView::Detected(detection),
        ).after(EventView::Exported),
{
    let events = file_events(detection);
    assert(events.drop_last() =~= seq![EventView::Detected(detection)]);
    lemma_after_one(trace, EventView::Detected(detection));
}

/// A run over N images, all of which are read, in which image number `k` yields
/// `detections[k]`: it emits exactly N `Progress` messages, one for each image in
/// input order with the number of its faces, followed by exactly one `Complete`; it
/// asks for exactly one crop for each face, the crops of each image in the detector's
/// order and the images in input order; and it ends.
pub proof fn lemma_batch_reports_every_image(
    output_dir: Seq<char>,
    params: DetectorParams,
    listing: InputListingView,
    detections: Seq<DetectionView>,
)
    requires
        collected(listing).len() == detections.len(),
        detections.len() > 0,
    ensures
        ({
            let files = collected(listing);
            let trace = run(output_dir, params, batch_events(listing, detections));
            &&& trace.messages == progress_messages(files, detections).push(MessageView::Complete)
            &&& trace.artifacts == batch_artifacts(output_dir, files, detections)
            &&& trace.artifacts.len() == face_total(detections)
            &&& trace.state.phase is Done
        }),
{
    let files = collected(listing);
    let begin = Trace::start(PipelineView::initial(output_dir, params));
    let opening = seq![EventView::Start, EventView::Listed(listing)];
    let last = detections.len() - 1;
    let earlier = detections.take(last);
    let found = detections[last];
    assert(detections.drop_last() =~= earlier);
    lemma_batch_prefix(output_dir, params, listing, detections, last);
    lemma_after_all_append(begin, opening, detection_events(earlier));
    lemma_after_all_append(begin, opening, detection_events(detections));
    let before = begin.after_all(opening).after_all(detection_events(earlier));
    lemma_after_all_append(begin.after_all(opening), detection_events(earlier), file_events(found));
    lemma_file_events(before, found);
    let trace = before.after(EventView::Detected(found)).after(EventView::Exported);
    assert(trace.messages =~= progress_messages(files, detections).push(MessageView::Complete));
    assert(trace.artifacts =~= batch_artifacts(output_dir, files, detections));
    lemma_one_artifact_per_face(output_dir, files, detections);
}

/// What a crop holds once it is written: the region `crop` of the image at `source`.
pub struct StoredCrop {
    pub source: Seq<char>,
    pub crop: Rect,
}

/// The output directory after a crop is written: the crop is found under its
/// destination, in place of whatever was there.
pub open spec fn write(
    directory: Map<Seq<char>, StoredCrop>,
    artifact: ArtifactView,
) -> Map<Seq<char>, StoredCrop> {
    directory.insert(
        artifact.destination,
        StoredCrop { source: artifact.source, crop: artifact.crop },
    )
}

/// The output directory after these crops are written, in order.
pub open spec fn write_all(
    directory: Map<Seq<char>, StoredCrop>,
    artifacts: Seq<ArtifactView>,
) -> Map<Seq<char>, StoredCrop>
    decreases artifacts.len(),
{
    if artifacts.len() == 0 {
        directory
    } else {
        write(write_all(directory, artifacts.drop_last()), artifacts.last())
    }
}

/// A crop written before others and again after them is as if written after them
/// only.
proof fn lemma_last_write_wins(
    directory: Map<Seq<char>, StoredCrop>,
    artifact: ArtifactView,
    artifacts: Seq<ArtifactView>,
)
    ensures
        write(write_all(write(directory, artifact), artifacts), artifact) == write(
            write_all(directory, artifacts),
            artifact,
        ),
    decreases artifacts.len(),
{
    if artifacts.len() > 0 {
        lemma_last_write_wins(directory, artifact, artifacts.drop_last());
        let early = write_all(write(directory, artifact), artifacts.drop_last());
        let plain = write_all(directory, artifacts.drop_last());
        let other = artifacts.last();
        assert(write(early, artifact) == write(plain, artifact));
        assert(write(write(early, other), artifact) =~= write(write(early, artifact), other).insert(
            artifact.destination,
            StoredCrop { source: artifact.source, crop: artifact.crop },
        ));
        assert(write(write(plain, other), artifact) =~= write(write(plain, artifact), other).insert(
            artifact.destination,
            StoredCrop { source: artifact.source, crop: artifact.crop },
        ));
    } else {
        assert(write(write(directory, artifact), artifact) =~= write(directory, artifact));
    }
}

/// Writing the same crops a second time leaves the output directory as the first
/// time left it.
pub proof fn lemma_rewriting_changes_nothing(
    directory: Map<Seq<char>, StoredCrop>,
    artifacts: Seq<ArtifactView>,
)
    ensures
        write_all(write_all(directory, artifacts), artifacts) == write_all(directory, artifacts),
    decreases artifacts.len(),
{
    if artifacts.len() > 0 {
        let earlier = artifacts.drop_last();
        let newest = artifacts.last();
        lemma_rewriting_changes_nothing(directory, earlier);
        lemma_last_write_wins(write_all(directory, earlier), newest, earlier);
    }
}

/// Running a batch again is idempotent: a second run that is fed the same events as
/// the first (the same listing, and the same report of the detector on every image)
/// asks for the same crops under the same names, and writing them leaves the output
/// directory as the first run left it.
pub proof fn lemma_second_run_changes_nothing(
    directory: Map<Seq<char>, StoredCrop>,
    output_dir: Seq<char>,
    params: DetectorParams,
    first: Seq<EventView>,
    second: Seq<EventView>,
)
    requires
        first == second,
    ensures
        run(output_dir, params, second) == run(output_dir, params, first),
        write_all(
            write_all(directory, run(output_dir, params, first).artifacts),
            run(output_dir, params, second).artifacts,
        ) == write_all(directory, run(output_dir, params, first).artifacts),
{
    lemma_rewriting_changes_nothing(directory, run(output_dir, params, first).artifacts);
}

} // verus!
