//! The orchestrator: one step function per pipeline, from state and
//! event to next state and action. The caller performs each action —
//! every wait on an external process or on I/O — and hands the result
//! back as the next event; the decisions and every fallback branch
//! live here.
//!
//! The save pipeline strips static borders and stores the video; a
//! failed sample, an empty detection or a failed encode degrade to
//! saving the original. The edit pipeline burns new text into the
//! video; there a failed encode is fatal, and only a failed sample
//! degrades (to building without boxes).

use vstd::prelude::*;
use crate::geom::CropRect;

verus! {

/// A message of a terminal outcome, mapped to user-facing text at the
/// boundary.
#[derive(Clone, Copy, Debug, PartialEq, Eq, Structural)]
pub enum Note {
    /// The video was cropped and saved.
    CroppedAndSaved,
    /// The video was saved; no removable borders were found.
    SavedNoBorders,
    /// Encoding failed; the original video was saved instead.
    ProcessFailedKeptOriginal,
    /// The edited video replaced the target message.
    EditApplied,
    /// The edited video was uploaded, but the target message could not
    /// be updated.
    SwapFailed,
}

/// Which stage failed, for a terminal failure.
#[derive(Clone, Copy, Debug, PartialEq, Eq, Structural)]
pub enum FailKind {
    FetchFailed,
    ProbeFailed,
    PlanEmpty,
    EncodeFailed,
    UploadFailed,
    StoreFailed,
}

/// The terminal result of one job.
#[derive(Debug)]
pub enum JobOutcome {
    /// The job did what was asked; the handle names the new media.
    Success(Vec<u8>, Note),
    /// The job finished with a degraded result; the handle names the
    /// media that was delivered.
    PartialFailure(Vec<u8>, Note),
    /// The job failed at the named stage.
    Failure(FailKind),
}

/// The stage a save job is in.
#[derive(Debug)]
pub enum SaveState {
    /// Acquiring the source media.
    Fetching,
    /// Determining the source duration.
    Probing,
    /// Extracting the two analysis frames.
    Sampling,
    /// Running the crop detector.
    Detecting,
    /// Encoding the cropped video.
    Encoding,
    /// Uploading the file that will be saved.
    Uploading(Note),
    /// Storing the uploaded handle with its caption.
    Recording(Vec<u8>, Note),
    /// Terminal: the job is finished and its outcome reported.
    Done,
    /// Terminal: the failure to report.
    Failed(FailKind),
}

/// What happened at the boundary while a save job waited.
#[derive(Debug)]
pub enum SaveEvent {
    /// Whether the source media arrived.
    Fetched(bool),
    /// The probed duration in centiseconds, if the probe succeeded.
    Probed(Option<u64>),
    /// Whether both analysis frames were extracted.
    Sampled(bool),
    /// What the crop detector found.
    Detected(Option<CropRect>),
    /// Whether the encoder produced the cropped file.
    Encoded(bool),
    /// The handle of the uploaded media, if the upload succeeded.
    Uploaded(Option<Vec<u8>>),
    /// Whether the store accepted the record.
    Recorded(bool),
}

/// What the caller of a save job must do next.
#[derive(Debug)]
pub enum SaveAction {
    /// Acquire the source media.
    Fetch,
    /// Probe the source duration.
    ProbeDuration,
    /// Extract the two analysis frames, about a second apart.
    SampleFrames,
    /// Run the crop detector on the two frames.
    RunDetect,
    /// Encode the source with this crop region.
    EncodeCropped(CropRect),
    /// Upload the original source file.
    UploadOriginal(Note),
    /// Upload the encoder's output file.
    UploadEncoded(Note),
    /// Store the uploaded handle with its caption.
    Record,
    /// Report the outcome and release the working area.
    Report(JobOutcome),
    /// Nothing: the event did not belong to the state.
    Stay,
}

/// Whether the event is the one the save state waits for.
pub open spec fn save_event_fits(s: SaveState, e: SaveEvent) -> bool {
    match s {
        SaveState::Fetching => e is Fetched,
        SaveState::Probing => e is Probed,
        SaveState::Sampling => e is Sampled,
        SaveState::Detecting => e is Detected,
        SaveState::Encoding => e is Encoded,
        SaveState::Uploading(_) => e is Uploaded,
        SaveState::Recording(_, _) => e is Recorded,
        SaveState::Done => false,
        SaveState::Failed(_) => false,
    }
}

/// A save job is only worth a crop pass when the source runs longer
/// than a second and a half, so that the two frames differ in time.
pub const MIN_CROP_DURATION_CS: u64 = 150;

/// One step of a save job. Every fallback of the pipeline is decided
/// here: a missing duration counts as too short; a failed sample or an
/// empty detection save the original as-is; a failed encode degrades to
/// the original with a warning note; a failed upload or store is
/// fatal.
pub fn save_step(s: SaveState, e: SaveEvent) -> (r: (SaveState, SaveAction))
    ensures
        !save_event_fits(s, e) ==> r.1 is Stay,
        s is Fetching && e == SaveEvent::Fetched(false) ==> (r.0 matches SaveState::Failed(
            FailKind::FetchFailed) && r.1 matches SaveAction::Report(JobOutcome::Failure(
            FailKind::FetchFailed))),
        s is Fetching && e == SaveEvent::Fetched(true) ==> r.0 is Probing
            && r.1 is ProbeDuration,
        s is Probing ==> (e matches SaveEvent::Probed(d) ==> {
            let dur = if d is Some { d->0 } else { 0u64 };
            if dur > MIN_CROP_DURATION_CS {
                r.0 is Sampling && r.1 is SampleFrames
            } else {
                r.0 == SaveState::Uploading(Note::SavedNoBorders) && r.1
                    == SaveAction::UploadOriginal(Note::SavedNoBorders)
            }
        }),
        s is Sampling && e == SaveEvent::Sampled(false) ==> r.0 == SaveState::Uploading(
            Note::SavedNoBorders) && r.1 == SaveAction::UploadOriginal(Note::SavedNoBorders),
        s is Sampling && e == SaveEvent::Sampled(true) ==> r.0 is Detecting && r.1 is RunDetect,
        s is Detecting && e == SaveEvent::Detected(None) ==> r.0 == SaveState::Uploading(
            Note::SavedNoBorders) && r.1 == SaveAction::UploadOriginal(Note::SavedNoBorders),
        s is Detecting ==> (e matches SaveEvent::Detected(Some(c)) ==> r.0 is Encoding
            && r.1 == SaveAction::EncodeCropped(c)),
        s is Encoding && e == SaveEvent::Encoded(true) ==> r.0 == SaveState::Uploading(
            Note::CroppedAndSaved) && r.1 == SaveAction::UploadEncoded(Note::CroppedAndSaved),
        s is Encoding && e == SaveEvent::Encoded(false) ==> r.0 == SaveState::Uploading(
            Note::ProcessFailedKeptOriginal) && r.1 == SaveAction::UploadOriginal(
            Note::ProcessFailedKeptOriginal),
        s is Uploading && e == SaveEvent::Uploaded(None) ==> (r.0 matches SaveState::Failed(
            FailKind::UploadFailed) && r.1 matches SaveAction::Report(JobOutcome::Failure(
            FailKind::UploadFailed))),
        s matches SaveState::Uploading(note) ==> (e matches SaveEvent::Uploaded(Some(h)) ==> (
            r.0 matches SaveState::Recording(h2, n2) && h2@ == h@ && n2 == note
            && r.1 is Record)),
        s matches SaveState::Recording(h, note) ==> (e == SaveEvent::Recorded(true) ==> (
            r.1 matches SaveAction::Report(o) && r.0 is Done
            && (if note is ProcessFailedKeptOriginal {
                o matches JobOutcome::PartialFailure(h2, n2) && h2@ == h@ && n2 == note
            } else {
                o matches JobOutcome::Success(h2, n2) && h2@ == h@ && n2 == note
            }))),
        s is Recording && e == SaveEvent::Recorded(false) ==> (r.0 matches SaveState::Failed(
            FailKind::StoreFailed) && r.1 matches SaveAction::Report(JobOutcome::Failure(
            FailKind::StoreFailed))),
{
    match (s, e) {
        (SaveState::Fetching, SaveEvent::Fetched(ok)) => {
            if ok {
                (SaveState::Probing, SaveAction::ProbeDuration)
            } else {
                (SaveState::Failed(FailKind::FetchFailed), SaveAction::Report(
                    JobOutcome::Failure(FailKind::FetchFailed)))
            }
        },
        (SaveState::Probing, SaveEvent::Probed(d)) => {
            let dur = match d {
                Some(v) => v,
                None => 0,
            };
            if dur > MIN_CROP_DURATION_CS {
                (SaveState::Sampling, SaveAction::SampleFrames)
            } else {
                (SaveState::Uploading(Note::SavedNoBorders), SaveAction::UploadOriginal(
                    Note::SavedNoBorders))
            }
        },
        (SaveState::Sampling, SaveEvent::Sampled(ok)) => {
            if ok {
                (SaveState::Detecting, SaveAction::RunDetect)
            } else {
                (SaveState::Uploading(Note::SavedNoBorders), SaveAction::UploadOriginal(
                    Note::SavedNoBorders))
            }
        },
        (SaveState::Detecting, SaveEvent::Detected(found)) => {
            match found {
                Some(c) => (SaveState::Encoding, SaveAction::EncodeCropped(c)),
                None => (SaveState::Uploading(Note::SavedNoBorders), SaveAction::UploadOriginal(
                    Note::SavedNoBorders)),
            }
        },
        (SaveState::Encoding, SaveEvent::Encoded(ok)) => {
            if ok {
                (SaveState::Uploading(Note::CroppedAndSaved), SaveAction::UploadEncoded(
                    Note::CroppedAndSaved))
            } else {
                (SaveState::Uploading(Note::ProcessFailedKeptOriginal),
                    SaveAction::UploadOriginal(Note::ProcessFailedKeptOriginal))
            }
        },
        (SaveState::Uploading(note), SaveEvent::Uploaded(got)) => {
            match got {
                Some(h) => (SaveState::Recording(h, note), SaveAction::Record),
                None => (SaveState::Failed(FailKind::UploadFailed), SaveAction::Report(
                    JobOutcome::Failure(FailKind::UploadFailed))),
            }
        },
        (SaveState::Recording(h, note), SaveEvent::Recorded(ok)) => {
            if ok {
                if matches!(note, Note::ProcessFailedKeptOriginal) {
                    (SaveState::Done, SaveAction::Report(JobOutcome::PartialFailure(h, note)))
                } else {
                    (SaveState::Done, SaveAction::Report(JobOutcome::Success(h, note)))
                }
            } else {
                (SaveState::Failed(FailKind::StoreFailed), SaveAction::Report(
                    JobOutcome::Failure(FailKind::StoreFailed)))
            }
        },
        (other, _) => (other, SaveAction::Stay),
    }
}

/// The stage an edit job is in.
#[derive(Debug)]
pub enum EditState {
    /// Acquiring the source media.
    Fetching,
    /// Running the encoder's border scan over the source.
    PreCropDetecting,
    /// Re-encoding the source cropped to the scanned region.
    PreCropping,
    /// Determining the video dimensions.
    Probing,
    /// Extracting the analysis frame.
    Sampling,
    /// Running the box detector.
    Detecting,
    /// Building the edit plan.
    Building,
    /// Encoding with the plan's filter graph and overlay script.
    Encoding,
    /// Pre-uploading the edited video.
    Uploading,
    /// Swapping the edited video into the target message.
    Swapping(Vec<u8>),
    /// Terminal: the job is finished and its outcome reported.
    Done,
    /// Terminal: the failure to report.
    Failed(FailKind),
}

/// What happened at the boundary while an edit job waited.
#[derive(Debug)]
pub enum EditEvent {
    /// Whether the source media arrived.
    Fetched(bool),
    /// What the encoder's border scan suggested.
    CropFound(Option<CropRect>),
    /// Whether the cropped re-encode succeeded.
    PreCropped(bool),
    /// The probed dimensions, if the probe succeeded.
    Probed(Option<(u32, u32)>),
    /// Whether the analysis frame was extracted.
    Sampled(bool),
    /// How many boxes the detector found.
    DetectedBoxes(usize),
    /// Whether a plan could be built.
    Built(bool),
    /// Whether the encoder produced the edited file.
    Encoded(bool),
    /// The handle of the pre-uploaded media, if the upload succeeded.
    Uploaded(Option<Vec<u8>>),
    /// Whether the swap into the target message succeeded.
    Swapped(bool),
}

/// What the caller of an edit job must do next.
#[derive(Debug)]
pub enum EditAction {
    /// Acquire the source media.
    Fetch,
    /// Run the encoder's border scan.
    RunCropScan,
    /// Re-encode the source cropped to this region; on failure keep
    /// the original.
    ApplyCrop(CropRect),
    /// Probe the video dimensions.
    ProbeDims,
    /// Extract the analysis frame.
    SampleFrame,
    /// Run the box detector on the frame.
    RunBoxDetect,
    /// Build the edit plan; without boxes when none were detected or
    /// the sample failed.
    BuildPlan { with_boxes: bool },
    /// Encode with the built plan.
    Encode,
    /// Pre-upload the edited video.
    Upload,
    /// Swap the uploaded media into the target message.
    Swap,
    /// Report the outcome and release the working area.
    Report(JobOutcome),
    /// Nothing: the event did not belong to the state.
    Stay,
}

/// Whether the event is the one the edit state waits for.
pub open spec fn edit_event_fits(s: EditState, e: EditEvent) -> bool {
    match s {
        EditState::Fetching => e is Fetched,
        EditState::PreCropDetecting => e is CropFound,
        EditState::PreCropping => e is PreCropped,
        EditState::Probing => e is Probed,
        EditState::Sampling => e is Sampled,
        EditState::Detecting => e is DetectedBoxes,
        EditState::Building => e is Built,
        EditState::Encoding => e is Encoded,
        EditState::Uploading => e is Uploaded,
        EditState::Swapping(_) => e is Swapped,
        EditState::Done => false,
        EditState::Failed(_) => false,
    }
}

/// One step of an edit job. Fetch, probe, empty plan, encode and
/// upload failures are fatal here; a failed border pre-crop keeps the
/// original, and a failed sample builds the plan without boxes.
pub fn edit_step(s: EditState, e: EditEvent) -> (r: (EditState, EditAction))
    ensures
        !edit_event_fits(s, e) ==> r.1 is Stay,
        s is Fetching && e == EditEvent::Fetched(false) ==> (r.0 matches EditState::Failed(
            FailKind::FetchFailed) && r.1 matches EditAction::Report(JobOutcome::Failure(
            FailKind::FetchFailed))),
        s is Fetching && e == EditEvent::Fetched(true) ==> r.0 is PreCropDetecting
            && r.1 is RunCropScan,
        s is PreCropDetecting && e == EditEvent::CropFound(None) ==> r.0 is Probing
            && r.1 is ProbeDims,
        s is PreCropDetecting ==> (e matches EditEvent::CropFound(Some(c)) ==>
            r.0 is PreCropping && r.1 == EditAction::ApplyCrop(c)),
        s is PreCropping ==> (e is PreCropped ==> r.0 is Probing && r.1 is ProbeDims),
        s is Probing && e == EditEvent::Probed(None) ==> (r.0 matches EditState::Failed(
            FailKind::ProbeFailed) && r.1 matches EditAction::Report(JobOutcome::Failure(
            FailKind::ProbeFailed))),
        s is Probing ==> (e matches EditEvent::Probed(Some(d)) ==> {
            if d.0 == 0 || d.1 == 0 {
                r.0 matches EditState::Failed(FailKind::ProbeFailed) && r.1 matches
                    EditAction::Report(JobOutcome::Failure(FailKind::ProbeFailed))
            } else {
                r.0 is Sampling && r.1 is SampleFrame
            }
        }),
        s is Sampling && e == EditEvent::Sampled(true) ==> r.0 is Detecting
            && r.1 is RunBoxDetect,
        s is Sampling && e == EditEvent::Sampled(false) ==> r.0 is Building && r.1
            == (EditAction::BuildPlan { with_boxes: false }),
        s is Detecting ==> (e matches EditEvent::DetectedBoxes(n) ==> r.0 is Building && r.1
            == (EditAction::BuildPlan { with_boxes: n > 0 })),
        s is Building && e == EditEvent::Built(false) ==> (r.0 matches EditState::Failed(
            FailKind::PlanEmpty) && r.1 matches EditAction::Report(JobOutcome::Failure(
            FailKind::PlanEmpty))),
        s is Building && e == EditEvent::Built(true) ==> r.0 is Encoding && r.1 is Encode,
        s is Encoding && e == EditEvent::Encoded(false) ==> (r.0 matches EditState::Failed(
            FailKind::EncodeFailed) && r.1 matches EditAction::Report(JobOutcome::Failure(
            FailKind::EncodeFailed))),
        s is Encoding && e == EditEvent::Encoded(true) ==> r.0 is Uploading && r.1 is Upload,
        s is Uploading && e == EditEvent::Uploaded(None) ==> (r.0 matches EditState::Failed(
            FailKind::UploadFailed) && r.1 matches EditAction::Report(JobOutcome::Failure(
            FailKind::UploadFailed))),
        s is Uploading ==> (e matches EditEvent::Uploaded(Some(h)) ==> (r.0 matches
            EditState::Swapping(h2) && h2@ == h@ && r.1 is Swap)),
        s matches EditState::Swapping(h) ==> (e == EditEvent::Swapped(true) ==> (
            r.1 matches EditAction::Report(o) && o matches JobOutcome::Success(h2, n2)
            && h2@ == h@ && n2 == Note::EditApplied && r.0 is Done)),
        s matches EditState::Swapping(h) ==> (e == EditEvent::Swapped(false) ==> (
            r.1 matches EditAction::Report(o) && o matches JobOutcome::PartialFailure(h2, n2)
            && h2@ == h@ && n2 == Note::SwapFailed && r.0 is Done)),
{
    match (s, e) {
        (EditState::Fetching, EditEvent::Fetched(ok)) => {
            if ok {
                (EditState::PreCropDetecting, EditAction::RunCropScan)
            } else {
                (EditState::Failed(FailKind::FetchFailed), EditAction::Report(
                    JobOutcome::Failure(FailKind::FetchFailed)))
            }
        },
        (EditState::PreCropDetecting, EditEvent::CropFound(found)) => {
            match found {
                Some(c) => (EditState::PreCropping, EditAction::ApplyCrop(c)),
                None => (EditState::Probing, EditAction::ProbeDims),
            }
        },
        (EditState::PreCropping, EditEvent::PreCropped(_)) => {
            (EditState::Probing, EditAction::ProbeDims)
        },
        (EditState::Probing, EditEvent::Probed(dims)) => {
            match dims {
                Some(d) => {
                    if d.0 == 0 || d.1 == 0 {
                        (EditState::Failed(FailKind::ProbeFailed), EditAction::Report(
                            JobOutcome::Failure(FailKind::ProbeFailed)))
                    } else {
                        (EditState::Sampling, EditAction::SampleFrame)
                    }
                },
                None => (EditState::Failed(FailKind::ProbeFailed), EditAction::Report(
                    JobOutcome::Failure(FailKind::ProbeFailed))),
            }
        },
        (EditState::Sampling, EditEvent::Sampled(ok)) => {
            if ok {
                (EditState::Detecting, EditAction::RunBoxDetect)
            } else {
                (EditState::Building, EditAction::BuildPlan { with_boxes: false })
            }
        },
        (EditState::Detecting, EditEvent::DetectedBoxes(n)) => {
            (EditState::Building, EditAction::BuildPlan { with_boxes: n > 0 })
        },
        (EditState::Building, EditEvent::Built(ok)) => {
            if ok {
                (EditState::Encoding, EditAction::Encode)
            } else {
                (EditState::Failed(FailKind::PlanEmpty), EditAction::Report(
                    JobOutcome::Failure(FailKind::PlanEmpty)))
            }
        },
        (EditState::Encoding, EditEvent::Encoded(ok)) => {
            if ok {
                (EditState::Uploading, EditAction::Upload)
            } else {
                (EditState::Failed(FailKind::EncodeFailed), EditAction::Report(
                    JobOutcome::Failure(FailKind::EncodeFailed)))
            }
        },
        (EditState::Uploading, EditEvent::Uploaded(got)) => {
            match got {
                Some(h) => (EditState::Swapping(h), EditAction::Swap),
                None => (EditState::Failed(FailKind::UploadFailed), EditAction::Report(
                    JobOutcome::Failure(FailKind::UploadFailed))),
            }
        },
        (EditState::Swapping(h), EditEvent::Swapped(ok)) => {
            if ok {
                (EditState::Done, EditAction::Report(JobOutcome::Success(h,
                    Note::EditApplied)))
            } else {
                (EditState::Done, EditAction::Report(JobOutcome::PartialFailure(h,
                    Note::SwapFailed)))
            }
        },
        (other, _) => (other, EditAction::Stay),
    }
}

} // verus!
