//! The batch pipeline: a state machine that drives one run over the input images.
//!
//! The pipeline decides; its caller acts. Each `step` takes the event that the last
//! action ended in and answers with the progress messages to pass on and the next
//! action to perform: list the input location, run the detector on a file, write the
//! crops of a file, or stop. Reading, detecting and writing are the caller's part.

use vstd::prelude::*;
use vstd::string::*;
use crate::collector::{
    collect_image_files,
    collected,
    entry_views,
    lemma_collected_are_images,
    FileEntry,
    FileEntryView,
    InputListing,
    InputListingView,
};
use crate::detection::{DetectionResult, DetectionView, DetectorParams};
use crate::geometry::{calculate_padded_rect, padded_rect, Rect};
use crate::names::{
    artifact_path,
    extension_of,
    failure_message,
    is_image_name,
    make_artifact_path,
    make_failure_message,
    make_no_files_message,
    no_files_message,
};

verus! {

/// What a batch run reports to its observer.
#[derive(Debug, PartialEq, Eq)]
pub enum ProcessMessage {
    /// A file is finished: its name and the number of faces found in it.
    Progress(String, usize),
    /// Every file is finished.
    Complete,
    /// The run has stopped early, for the reason given.
    Error(String),
}

#[verifier::ext_equal]
pub enum MessageView {
    Progress(Seq<char>, nat),
    Complete,
    Error(Seq<char>),
}

impl View for ProcessMessage {
    type V = MessageView;

    open spec fn view(&self) -> MessageView {
        match self {
            ProcessMessage::Progress(name, faces) => MessageView::Progress(name@, *faces as nat),
            ProcessMessage::Complete => MessageView::Complete,
            ProcessMessage::Error(reason) => MessageView::Error(reason@),
        }
    }
}

impl Clone for ProcessMessage {
    fn clone(&self) -> (copy: ProcessMessage)
        ensures
            copy@ == self@,
    {
        match self {
            ProcessMessage::Progress(name, faces) => ProcessMessage::Progress(name.clone(), *faces),
            ProcessMessage::Complete => ProcessMessage::Complete,
            ProcessMessage::Error(reason) => ProcessMessage::Error(reason.clone()),
        }
    }
}

impl MessageView {
    /// A message that ends a run.
    pub open spec fn is_terminal(self) -> bool {
        self is Complete || self is Error
    }
}

pub open spec fn message_views(messages: Seq<ProcessMessage>) -> Seq<MessageView> {
    messages.map_values(|m: ProcessMessage| m@)
}

/// One crop to write: the region `crop` of the image at `source`, stored at
/// `destination`.
#[derive(Debug, PartialEq, Eq)]
pub struct Artifact {
    pub source: String,
    pub crop: Rect,
    pub destination: String,
}

#[verifier::ext_equal]
pub struct ArtifactView {
    pub source: Seq<char>,
    pub crop: Rect,
    pub destination: Seq<char>,
}

impl View for Artifact {
    type V = ArtifactView;

    open spec fn view(&self) -> ArtifactView {
        ArtifactView { source: self.source@, crop: self.crop, destination: self.destination@ }
    }
}

pub open spec fn artifact_views(artifacts: Seq<Artifact>) -> Seq<ArtifactView> {
    artifacts.map_values(|a: Artifact| a@)
}

/// The crops of one image: for each face in the detector's order its padded crop,
/// named after the image file and the face's number, counted from 1.
pub open spec fn planned_artifacts(
    output_dir: Seq<char>,
    file: FileEntryView,
    detection: DetectionView,
) -> Seq<ArtifactView> {
    Seq::new(
        detection.faces.len(),
        |i: int|
            ArtifactView {
                source: file.path,
                crop: padded_rect(detection.faces[i], detection.cols, detection.rows),
                destination: artifact_path(output_dir, file.file_name, (i + 1) as nat),
            },
    )
}

/// Plans the crops of one image whose file name has an extension.
pub fn plan_artifacts(output_dir: &str, file: &FileEntry, detection: &DetectionResult) -> (artifacts:
    Vec<Artifact>)
    requires
        extension_of(file@.file_name) is Some,
    ensures
        artifact_views(artifacts@) == planned_artifacts(output_dir@, file@, detection@),
{
    let faces = detection.faces();
    let cols = detection.cols();
    let rows = detection.rows();
    let mut artifacts: Vec<Artifact> = Vec::new();
    let mut i: usize = 0;
    while i < faces.len()
        invariant
            i <= faces.len(),
            faces@ == detection@.faces,
            cols == detection@.cols,
            rows == detection@.rows,
            detection@.valid(),
            extension_of(file@.file_name) is Some,
            artifacts@.len() == i,
            forall|j: int|
                0 <= j < i ==> (#[trigger] artifacts@[j])@ == planned_artifacts(
                    output_dir@,
                    file@,
                    detection@,
                )[j],
        decreases faces.len() - i,
    {
        let crop = calculate_padded_rect(&faces[i], cols, rows);
        let destination = make_artifact_path(output_dir, file.file_name.as_str(), i + 1);
        artifacts.push(Artifact { source: file.path.clone(), crop, destination });
        i = i + 1;
    }
    assert(artifact_views(artifacts@) =~= planned_artifacts(output_dir@, file@, detection@));
    artifacts
}

/// Where a run stands.
#[derive(Clone, Copy, Debug, PartialEq, Eq, Structural)]
pub enum Phase {
    /// Not started.
    Idle,
    /// Waiting for the listing of the input location.
    Enumerating,
    /// Waiting for the detector's report on the current file.
    Detecting,
    /// Waiting for the crops of the current file to be written.
    Exporting,
    /// Ended, by completion or by failure.
    Done,
}

/// What happened to the action that the pipeline asked for last.
#[derive(Debug)]
pub enum PipelineEvent {
    /// The run is to begin.
    Start,
    /// The input location was looked at.
    Listed(InputListing),
    /// The current file could not be decoded, or decoded to an empty image.
    Skipped,
    /// The detector has reported on the current file.
    Detected(DetectionResult),
    /// Every crop of the current file was written.
    Exported,
    /// The detector or a write failed on the current file, for the reason given.
    Failed(String),
}

#[verifier::ext_equal]
pub enum EventView {
    Start,
    Listed(InputListingView),
    Skipped,
    Detected(DetectionView),
    Exported,
    Failed(Seq<char>),
}

impl View for PipelineEvent {
    type V = EventView;

    open spec fn view(&self) -> EventView {
        match self {
            PipelineEvent::Start => EventView::Start,
            PipelineEvent::Listed(listing) => EventView::Listed(listing@),
            PipelineEvent::Skipped => EventView::Skipped,
            PipelineEvent::Detected(detection) => EventView::Detected(detection@),
            PipelineEvent::Exported => EventView::Exported,
            PipelineEvent::Failed(cause) => EventView::Failed(cause@),
        }
    }
}

/// What the caller is to do next.
#[derive(Debug, PartialEq, Eq)]
pub enum PipelineAction {
    /// Look at the input location and answer with `Listed`.
    Enumerate,
    /// Decode the file at `path` and run the detector on it with these parameters;
    /// answer with `Detected`, `Skipped` or `Failed`.
    Detect { path: String, min_neighbors: i32, min_face_size: i32 },
    /// Write these crops, in this order; answer with `Exported`, or with `Failed` at
    /// the first crop that cannot be written.
    Export { artifacts: Vec<Artifact> },
    /// Nothing: the run has ended.
    Stop,
}

#[verifier::ext_equal]
pub enum ActionView {
    Enumerate,
    Detect { path: Seq<char>, min_neighbors: i32, min_face_size: i32 },
    Export { artifacts: Seq<ArtifactView> },
    Stop,
}

impl View for PipelineAction {
    type V = ActionView;

    open spec fn view(&self) -> ActionView {
        match self {
            PipelineAction::Enumerate => ActionView::Enumerate,
            PipelineAction::Detect { path, min_neighbors, min_face_size } => ActionView::Detect {
                path: path@,
                min_neighbors: *min_neighbors,
                min_face_size: *min_face_size,
            },
            PipelineAction::Export { artifacts } => ActionView::Export {
                artifacts: artifact_views(artifacts@),
            },
            PipelineAction::Stop => ActionView::Stop,
        }
    }
}

/// The answer to an event: the messages to pass on to the observer, in order, and
/// the next action.
#[derive(Debug, PartialEq, Eq)]
pub struct Step {
    pub messages: Vec<ProcessMessage>,
    pub action: PipelineAction,
}

/// The state of a run.
#[verifier::ext_equal]
pub struct PipelineView {
    pub output_dir: Seq<char>,
    pub params: DetectorParams,
    /// The images of the run, in processing order.
    pub files: Seq<FileEntryView>,
    /// The number of files that are finished; while a run lasts, the index of the
    /// current file.
    pub cursor: nat,
    /// The number of faces found in the current file.
    pub faces: nat,
    /// The number of files that were skipped.
    pub skipped: nat,
    pub phase: Phase,
}

/// A transition: the state after it, the messages it emits and the action it asks for.
#[verifier::ext_equal]
pub struct StepView {
    pub state: PipelineView,
    pub messages: Seq<MessageView>,
    pub action: ActionView,
}

impl PipelineView {
    /// The state of a run that has not started.
    pub open spec fn initial(output_dir: Seq<char>, params: DetectorParams) -> PipelineView {
        PipelineView {
            output_dir,
            params,
            files: Seq::empty(),
            cursor: 0,
            faces: 0,
            skipped: 0,
            phase: Phase::Idle,
        }
    }

    /// What every state of a run satisfies.
    pub open spec fn wf(self) -> bool {
        &&& forall|i: int| 0 <= i < self.files.len() ==> is_image_name(#[trigger] self.files[i].file_name)
        &&& self.skipped <= self.cursor <= self.files.len()
        &&& (self.phase is Idle || self.phase is Enumerating) ==> self.files.len() == 0
        &&& (self.phase is Detecting || self.phase is Exporting) ==> self.cursor < self.files.len()
        &&& !(self.phase is Exporting) ==> self.faces == 0
    }

    /// The request to run the detector on the file at `index`.
    pub open spec fn detect_action(self, index: nat) -> ActionView {
        ActionView::Detect {
            path: self.files[index as int].path,
            min_neighbors: self.params.min_neighbors,
            min_face_size: self.params.min_face_size,
        }
    }

    /// The transition that leaves the current file behind, after `messages`: on to
    /// the next file, or, after the last one, to the end of the run with `Complete`.
    pub open spec fn advance(self, messages: Seq<MessageView>) -> StepView {
        if self.cursor + 1 < self.files.len() {
            StepView {
                state: PipelineView {
                    cursor: self.cursor + 1,
                    faces: 0,
                    phase: Phase::Detecting,
                    ..self
                },
                messages,
                action: self.detect_action(self.cursor + 1),
            }
        } else {
            StepView {
                state: PipelineView {
                    cursor: self.cursor + 1,
                    faces: 0,
                    phase: Phase::Done,
                    ..self
                },
                messages: messages.push(MessageView::Complete),
                action: ActionView::Stop,
            }
        }
    }

    /// The transition that ends the run at the current file with an `Error`.
    pub open spec fn abort(self, cause: Seq<char>) -> StepView {
        StepView {
            state: PipelineView { faces: 0, phase: Phase::Done, ..self },
            messages: seq![
                MessageView::Error(failure_message(self.files[self.cursor as int].path, cause)),
            ],
            action: ActionView::Stop,
        }
    }

    /// The transition that `event` causes in this state, or `None` where the state
    /// does not wait for such an event.
    pub open spec fn step(self, event: EventView) -> Option<StepView> {
        match (self.phase, event) {
            (Phase::Idle, EventView::Start) => Some(
                StepView {
                    state: PipelineView { phase: Phase::Enumerating, ..self },
                    messages: Seq::empty(),
                    action: ActionView::Enumerate,
                },
            ),
            (Phase::Enumerating, EventView::Listed(listing)) => {
                let files = collected(listing);
                if files.len() == 0 {
                    Some(
                        StepView {
                            state: PipelineView { phase: Phase::Done, ..self },
                            messages: seq![MessageView::Error(no_files_message())],
                            action: ActionView::Stop,
                        },
                    )
                } else {
                    let state = PipelineView { files, phase: Phase::Detecting, ..self };
                    Some(
                        StepView {
                            state,
                            messages: Seq::empty(),
                            action: state.detect_action(0),
                        },
                    )
                }
            },
            (Phase::Detecting, EventView::Skipped) => Some(
                PipelineView { skipped: self.skipped + 1, ..self }.advance(Seq::empty()),
            ),
            (Phase::Detecting, EventView::Detected(detection)) => Some(
                StepView {
                    state: PipelineView {
                        faces: detection.faces.len(),
                        phase: Phase::Exporting,
                        ..self
                    },
                    messages: Seq::empty(),
                    action: ActionView::Export {
                        artifacts: planned_artifacts(
                            self.output_dir,
                            self.files[self.cursor as int],
                            detection,
                        ),
                    },
                },
            ),
            (Phase::Exporting, EventView::Exported) => Some(
                self.advance(
                    seq![
                        MessageView::Progress(
                            self.files[self.cursor as int].file_name,
                            self.faces,
                        ),
                    ],
                ),
            ),
            (Phase::Detecting, EventView::Failed(cause)) => Some(self.abort(cause)),
            (Phase::Exporting, EventView::Failed(cause)) => Some(self.abort(cause)),
            _ => None,
        }
    }
}

/// One batch run.
#[derive(Debug)]
pub struct Pipeline {
    output_dir: String,
    params: DetectorParams,
    files: Vec<FileEntry>,
    cursor: usize,
    faces: usize,
    skipped: usize,
    phase: Phase,
}

impl View for Pipeline {
    type V = PipelineView;

    closed spec fn view(&self) -> PipelineView {
        PipelineView {
            output_dir: self.output_dir@,
            params: self.params,
            files: entry_views(self.files@),
            cursor: self.cursor as nat,
            faces: self.faces as nat,
            skipped: self.skipped as nat,
            phase: self.phase,
        }
    }
}

impl Pipeline {
    /// A run that has not started, writing into `output_dir`.
    pub fn new(output_dir: &str, params: DetectorParams) -> (pipeline: Pipeline)
        ensures
            pipeline@ == PipelineView::initial(output_dir@, params),
            pipeline@.wf(),
    {
        let pipeline = Pipeline {
            output_dir: String::from_str(output_dir),
            params,
            files: Vec::new(),
            cursor: 0,
            faces: 0,
            skipped: 0,
            phase: Phase::Idle,
        };
        assert(pipeline@.files =~= Seq::empty());
        pipeline
    }

    pub fn phase(&self) -> (phase: Phase)
        ensures
            phase == self@.phase,
    {
        self.phase
    }

    /// Whether the run has ended.
    pub fn is_done(&self) -> (done: bool)
        ensures
            done == (self@.phase is Done),
    {
        self.phase == Phase::Done
    }

    /// The number of images of the run; 0 until the input location is listed.
    pub fn file_count(&self) -> (count: usize)
        ensures
            count == self@.files.len(),
    {
        self.files.len()
    }

    /// The number of files that are finished.
    pub fn finished_count(&self) -> (count: usize)
        ensures
            count == self@.cursor,
    {
        self.cursor
    }

    /// The number of files that were skipped because they could not be decoded.
    pub fn skipped_count(&self) -> (count: usize)
        ensures
            count == self@.skipped,
    {
        self.skipped
    }

    fn detect_action(&self, index: usize) -> (action: PipelineAction)
        requires
            index < self@.files.len(),
        ensures
            action@ == self@.detect_action(index as nat),
    {
        PipelineAction::Detect {
            path: self.files[index].path.clone(),
            min_neighbors: self.params.min_neighbors,
            min_face_size: self.params.min_face_size,
        }
    }

    fn advance(&mut self, messages: Vec<ProcessMessage>) -> (step: Step)
        requires
            old(self)@.wf(),
            old(self)@.cursor < old(self)@.files.len(),
        ensures
            old(self)@.advance(message_views(messages@)) == (StepView {
                state: final(self)@,
                messages: message_views(step.messages@),
                action: step.action@,
            }),
            final(self)@.wf(),
    {
        let mut messages = messages;
        assert(self@.files.len() == self.files.len());
        self.cursor = self.cursor + 1;
        self.faces = 0;
        if self.cursor < self.files.len() {
            self.phase = Phase::Detecting;
            let action = self.detect_action(self.cursor);
            Step { messages, action }
        } else {
            self.phase = Phase::Done;
            let ghost before = message_views(messages@);
            messages.push(ProcessMessage::Complete);
            assert(message_views(messages@) =~= before.push(MessageView::Complete));
            Step { messages, action: PipelineAction::Stop }
        }
    }

    fn abort(&mut self, cause: &str) -> (step: Step)
        requires
            old(self)@.wf(),
            old(self)@.cursor < old(self)@.files.len(),
        ensures
            old(self)@.abort(cause@) == (StepView {
                state: final(self)@,
                messages: message_views(step.messages@),
                action: step.action@,
            }),
            final(self)@.wf(),
    {
        let reason = make_failure_message(self.files[self.cursor].path.as_str(), cause);
        self.faces = 0;
        self.phase = Phase::Done;
        let mut messages: Vec<ProcessMessage> = Vec::new();
        messages.push(ProcessMessage::Error(reason));
        assert(message_views(messages@) =~= seq![
            MessageView::Error(failure_message(old(self)@.files[old(self)@.cursor as int].path, cause@)),
        ]);
        Step { messages, action: PipelineAction::Stop }
    }

    /// Takes the event that the last action ended in and answers with the messages
    /// to pass on and the next action. An event that the run does not wait for is
    /// refused with `None` and changes nothing; after the run has ended, every event
    /// is refused.
    pub fn step(&mut self, event: PipelineEvent) -> (result: Option<Step>)
        requires
            old(self)@.wf(),
        ensures
            final(self)@.wf(),
            match result {
                Some(step) => old(self)@.step(event@) == Some(
                    StepView {
                        state: final(self)@,
                        messages: message_views(step.messages@),
                        action: step.action@,
                    },
                ),
                None => old(self)@.step(event@) is None && final(self)@ == old(self)@,
            },
    {
        match event {
            PipelineEvent::Start => {
                if self.phase == Phase::Idle {
                    self.phase = Phase::Enumerating;
                    let messages: Vec<ProcessMessage> = Vec::new();
                    assert(message_views(messages@) =~= Seq::empty());
                    Some(Step { messages, action: PipelineAction::Enumerate })
                } else {
                    None
                }
            },
            PipelineEvent::Listed(listing) => {
                if self.phase == Phase::Enumerating {
                    let files = collect_image_files(&listing);
                    let mut messages: Vec<ProcessMessage> = Vec::new();
                    if files.len() == 0 {
                        self.phase = Phase::Done;
                        messages.push(ProcessMessage::Error(make_no_files_message()));
                        assert(message_views(messages@) =~= seq![
                            MessageView::Error(no_files_message()),
                        ]);
                        Some(Step { messages, action: PipelineAction::Stop })
                    } else {
                        proof {
                            assert forall|i: int| 0 <= i < collected(listing@).len() implies is_image_name(
                                #[trigger] collected(listing@)[i].file_name,
                            ) by {
                                lemma_collected_are_images(listing@, i);
                            }
                        }
                        self.files = files;
                        self.phase = Phase::Detecting;
                        let action = self.detect_action(0);
                        assert(message_views(messages@) =~= Seq::empty());
                        Some(Step { messages, action })
                    }
                } else {
                    None
                }
            },
            PipelineEvent::Skipped => {
                if self.phase == Phase::Detecting {
                    let messages: Vec<ProcessMessage> = Vec::new();
                    assert(message_views(messages@) =~= Seq::empty());
                    let step = self.advance(messages);
                    assert(self@.files.len() == self.files.len());
                    self.skipped = self.skipped + 1;
                    Some(step)
                } else {
                    None
                }
            },
            PipelineEvent::Detected(detection) => {
                if self.phase == Phase::Detecting {
                    let artifacts = plan_artifacts(
                        self.output_dir.as_str(),
                        &self.files[self.cursor],
                        &detection,
                    );
                    self.faces = detection.face_count();
                    self.phase = Phase::Exporting;
                    let messages: Vec<ProcessMessage> = Vec::new();
                    assert(message_views(messages@) =~= Seq::empty());
                    Some(Step { messages, action: PipelineAction::Export { artifacts } })
                } else {
                    None
                }
            },
            PipelineEvent::Exported => {
                if self.phase == Phase::Exporting {
                    let mut messages: Vec<ProcessMessage> = Vec::new();
                    messages.push(
                        ProcessMessage::Progress(
                            self.files[self.cursor].file_name.clone(),
                            self.faces,
                        ),
                    );
                    assert(message_views(messages@) =~= seq![
                        MessageView::Progress(
                            self@.files[self@.cursor as int].file_name,
                            self@.faces,
                        ),
                    ]);
                    Some(self.advance(messages))
                } else {
                    None
                }
            },
            PipelineEvent::Failed(cause) => {
                if self.phase == Phase::Detecting || self.phase == Phase::Exporting {
                    Some(self.abort(cause.as_str()))
                } else {
                    None
                }
            },
        }
    }
}

} // verus!
