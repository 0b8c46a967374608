//! The observer's side of a batch run: what a display knows after each message.

use vstd::prelude::*;
use vstd::string::*;
use crate::processor::{MessageView, ProcessMessage};

verus! {

/// What is known of a batch run from the messages received so far.
#[derive(Debug, PartialEq, Eq)]
pub struct BatchStatus {
    /// Whether a run is under way.
    pub processing: bool,
    /// The number of images that the run was started on.
    pub total_images: usize,
    /// The number of images reported as finished.
    pub processed_images: usize,
    /// The number of faces found in the images reported so far.
    pub total_faces: usize,
    /// The image reported last, and the number of faces found in it.
    pub current_file: Option<String>,
    pub current_faces: Option<usize>,
    /// The reason for which the last run stopped early.
    pub error_message: Option<String>,
    /// Whether the last run came to its end.
    pub processing_complete: bool,
    /// The part of the run that is done, as numerator and denominator of a fraction.
    pub progress: (usize, usize),
}

#[verifier::ext_equal]
pub struct StatusView {
    pub processing: bool,
    pub total_images: nat,
    pub processed_images: nat,
    pub total_faces: nat,
    pub current_file: Option<Seq<char>>,
    pub current_faces: Option<nat>,
    pub error_message: Option<Seq<char>>,
    pub processing_complete: bool,
    pub progress: (nat, nat),
}

pub open spec fn text_view(text: Option<String>) -> Option<Seq<char>> {
    match text {
        Some(s) => Some(s@),
        None => None,
    }
}

pub open spec fn count_view(count: Option<usize>) -> Option<nat> {
    match count {
        Some(n) => Some(n as nat),
        None => None,
    }
}

impl View for BatchStatus {
    type V = StatusView;

    open spec fn view(&self) -> StatusView {
        StatusView {
            processing: self.processing,
            total_images: self.total_images as nat,
            processed_images: self.processed_images as nat,
            total_faces: self.total_faces as nat,
            current_file: text_view(self.current_file),
            current_faces: count_view(self.current_faces),
            error_message: text_view(self.error_message),
            processing_complete: self.processing_complete,
            progress: (self.progress.0 as nat, self.progress.1 as nat),
        }
    }
}

/// The message for a run that is asked for before both folders are chosen.
pub open spec fn folders_missing_message() -> Seq<char> {
    "Please select both input and output folders"@
}

impl StatusView {
    /// The status before any run.
    pub open spec fn idle() -> StatusView {
        StatusView {
            processing: false,
            total_images: 0,
            processed_images: 0,
            total_faces: 0,
            current_file: None,
            current_faces: None,
            error_message: None,
            processing_complete: false,
            progress: (0, 1),
        }
    }

    /// The status after a run was asked for. Where both folders are chosen the run
    /// starts and the counts of the last run are forgotten; otherwise the request is
    /// turned down with a message and nothing else changes.
    pub open spec fn begin(self, has_input: bool, has_output: bool) -> StatusView {
        if has_input && has_output {
            StatusView {
                processing: true,
                processed_images: 0,
                total_faces: 0,
                current_file: None,
                current_faces: None,
                error_message: None,
                progress: (0, 1),
                ..self
            }
        } else {
            StatusView { error_message: Some(folders_missing_message()), ..self }
        }
    }

    /// The status after a message. While a run is under way, `Progress` counts one
    /// more image and its faces, and `Complete` and `Error` end the run. A message
    /// that arrives while no run is under way (before the first run, or after the
    /// message that ended the last one) changes nothing.
    pub open spec fn apply(self, message: MessageView) -> StatusView {
        if self.processing {
            self.take(message)
        } else {
            self
        }
    }

    /// The status after a message of the run that is under way.
    pub open spec fn take(self, message: MessageView) -> StatusView {
        match message {
            MessageView::Progress(name, faces) => StatusView {
                processed_images: self.processed_images + 1,
                total_faces: self.total_faces + faces,
                current_file: Some(name),
                current_faces: Some(faces),
                progress: if self.total_images > 0 {
                    ((self.processed_images + 1) as nat, self.total_images)
                } else {
                    self.progress
                },
                ..self
            },
            MessageView::Complete => StatusView {
                processing: false,
                error_message: None,
                current_file: None,
                current_faces: None,
                processing_complete: true,
                progress: (1, 1),
                ..self
            },
            MessageView::Error(reason) => StatusView {
                processing: false,
                error_message: Some(reason),
                current_file: None,
                current_faces: None,
                processing_complete: false,
                ..self
            },
        }
    }

    /// Whether the counters after `message` fit the machine's integers.
    pub open spec fn can_count(self, message: MessageView) -> bool {
        self.processing ==> (message matches MessageView::Progress(_, faces)
            ==> self.processed_images + 1 <= usize::MAX && self.total_faces + faces
            <= usize::MAX)
    }

    /// The status after these messages, in order.
    pub open spec fn apply_all(self, messages: Seq<MessageView>) -> StatusView
        decreases messages.len(),
    {
        if messages.len() == 0 {
            self
        } else {
            self.apply_all(messages.drop_last()).apply(messages.last())
        }
    }
}

/// A `Complete` or an `Error` ends the session: whatever arrives after it, the status
/// stays as that message left it. No image or face is counted and no file is named
/// until the next run begins.
pub proof fn lemma_nothing_counts_after_the_end(
    status: StatusView,
    last: MessageView,
    late: Seq<MessageView>,
)
    requires
        last.is_terminal(),
    ensures
        !status.apply(last).processing,
        status.apply(last).apply_all(late) == status.apply(last),
    decreases late.len(),
{
    if late.len() > 0 {
        lemma_nothing_counts_after_the_end(status, last, late.drop_last());
    }
}

impl BatchStatus {
    /// The status before any run.
    pub fn new() -> (status: BatchStatus)
        ensures
            status@ == StatusView::idle(),
    {
        BatchStatus {
            processing: false,
            total_images: 0,
            processed_images: 0,
            total_faces: 0,
            current_file: None,
            current_faces: None,
            error_message: None,
            processing_complete: false,
            progress: (0, 1),
        }
    }

    /// Asks for a run, given whether an input and an output folder are chosen. Tells
    /// whether the run starts.
    pub fn begin(&mut self, has_input: bool, has_output: bool) -> (started: bool)
        ensures
            final(self)@ == old(self)@.begin(has_input, has_output),
            started == (has_input && has_output),
    {
        if !has_input || !has_output {
            self.error_message = Some(
                String::from_str("Please select both input and output folders"),
            );
            return false;
        }
        self.processing = true;
        self.processed_images = 0;
        self.total_faces = 0;
        self.current_file = None;
        self.current_faces = None;
        self.error_message = None;
        self.progress = (0, 1);
        true
    }

    /// Takes a message. Tells whether it completes the run that is under way, which
    /// is when the exported crops are ready for the gallery. A message that arrives
    /// while no run is under way is dropped.
    pub fn apply(&mut self, message: ProcessMessage) -> (completed: bool)
        requires
            old(self)@.can_count(message@),
        ensures
            final(self)@ == old(self)@.apply(message@),
            completed == (old(self)@.processing && message@ is Complete),
    {
        if !self.processing {
            return false;
        }
        match message {
            ProcessMessage::Progress(name, faces) => {
                self.processed_images = self.processed_images + 1;
                self.total_faces = self.total_faces + faces;
                self.current_file = Some(name);
                self.current_faces = Some(faces);
                if self.total_images > 0 {
                    self.progress = (self.processed_images, self.total_images);
                }
                false
            },
            ProcessMessage::Complete => {
                self.processing = false;
                self.error_message = None;
                self.current_file = None;
                self.current_faces = None;
                self.processing_complete = true;
                self.progress = (1, 1);
                true
            },
            ProcessMessage::Error(reason) => {
                self.processing = false;
                self.error_message = Some(reason);
                self.current_file = None;
                self.current_faces = None;
                self.processing_complete = false;
                false
            },
        }
    }
}

} // verus!
