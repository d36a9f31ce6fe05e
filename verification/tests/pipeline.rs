use capedit::control::{choose_encoder, parse_crop_line, parse_dims, page_window, next_page,
    query_offset, EncoderConfig, EncoderChoice};
use capedit::geom::CropRect;
use capedit::orch::{save_step, edit_step, SaveState, SaveEvent, SaveAction, EditState,
    EditEvent, EditAction, JobOutcome, FailKind, Note};

#[test]
fn encoder_choice_order() {
    let weak = EncoderConfig { bad_hardware: true, encoder_name: b"h264_qsv".to_vec(),
        cuda: true };
    assert!(matches!(choose_encoder(&weak), EncoderChoice::CpuOptimized));

    let named = EncoderConfig { bad_hardware: false, encoder_name: b"h264_qsv".to_vec(),
        cuda: true };
    match choose_encoder(&named) {
        EncoderChoice::Named(n) => assert_eq!(n, b"h264_qsv".to_vec()),
        _ => panic!("expected the named encoder"),
    }

    let cuda = EncoderConfig { bad_hardware: false, encoder_name: Vec::new(), cuda: true };
    assert!(matches!(choose_encoder(&cuda), EncoderChoice::CudaNvenc));

    let plain = EncoderConfig { bad_hardware: false, encoder_name: Vec::new(), cuda: false };
    assert!(matches!(choose_encoder(&plain), EncoderChoice::CpuFast));
}

#[test]
fn crop_scan_line_parses() {
    let line = b"[Parsed_cropdetect_0 @ 0x1] x1:0 x2:639 crop=640:280:0:40".to_vec();
    let r = parse_crop_line(&line).expect("a crop suggestion");
    assert_eq!(r, CropRect { x: 0, y: 40, w: 640, h: 280 });
}

#[test]
fn crop_scan_line_rejected() {
    assert!(parse_crop_line(&b"frame=  100 fps= 25".to_vec()).is_none());
    assert!(parse_crop_line(&b"crop=1:2:3".to_vec()).is_none());
    // An unparsable field reads as zero; the encoder never prints one.
    let r = parse_crop_line(&b"crop=640:abc:0:40".to_vec()).expect("four fields");
    assert_eq!(r.h, 0);
}

#[test]
fn probed_dimensions_parse() {
    assert_eq!(parse_dims(&b" 640x360\n".to_vec()), Some((640, 360)));
    assert_eq!(parse_dims(&b"640x360x2".to_vec()), None);
    assert_eq!(parse_dims(&b"ax360".to_vec()), None);
    assert_eq!(parse_dims(&b"640".to_vec()), None);
}

#[test]
fn removal_pages_clamp() {
    // 17 records, 8 per page: 3 pages; a page past the end clamps to
    // the last.
    let (current, pages, offset) = page_window(17, 5);
    assert_eq!(pages, 3);
    assert_eq!(current, 2);
    assert_eq!(offset, 16);
    let (c0, _, o0) = page_window(17, 0);
    assert_eq!(c0, 0);
    assert_eq!(o0, 0);
}

#[test]
fn query_paging() {
    assert_eq!(query_offset(2), 60);
    assert_eq!(next_page(30, 2), Some(3));
    assert_eq!(next_page(29, 2), None);
}

#[test]
fn save_pipeline_happy_path() {
    let (s, a) = save_step(SaveState::Fetching, SaveEvent::Fetched(true));
    assert!(matches!(a, SaveAction::ProbeDuration));
    let (s, a) = save_step(s, SaveEvent::Probed(Some(1000)));
    assert!(matches!(a, SaveAction::SampleFrames));
    let (s, a) = save_step(s, SaveEvent::Sampled(true));
    assert!(matches!(a, SaveAction::RunDetect));
    let c = CropRect { x: 0, y: 40, w: 640, h: 280 };
    let (s, a) = save_step(s, SaveEvent::Detected(Some(c)));
    assert!(matches!(a, SaveAction::EncodeCropped(_)));
    let (s, a) = save_step(s, SaveEvent::Encoded(true));
    assert!(matches!(a, SaveAction::UploadEncoded(Note::CroppedAndSaved)));
    let (s, a) = save_step(s, SaveEvent::Uploaded(Some(b"handle".to_vec())));
    assert!(matches!(a, SaveAction::Record));
    let (_, a) = save_step(s, SaveEvent::Recorded(true));
    match a {
        SaveAction::Report(JobOutcome::Success(h, Note::CroppedAndSaved)) => {
            assert_eq!(h, b"handle".to_vec());
        },
        _ => panic!("expected a success report"),
    }
}

#[test]
fn save_encode_failure_degrades_to_original() {
    let (s, a) = save_step(SaveState::Encoding, SaveEvent::Encoded(false));
    assert!(matches!(a, SaveAction::UploadOriginal(Note::ProcessFailedKeptOriginal)));
    let (s, a) = save_step(s, SaveEvent::Uploaded(Some(b"orig".to_vec())));
    assert!(matches!(a, SaveAction::Record));
    let (_, a) = save_step(s, SaveEvent::Recorded(true));
    assert!(matches!(a, SaveAction::Report(JobOutcome::PartialFailure(_,
        Note::ProcessFailedKeptOriginal))));
}

#[test]
fn save_short_video_skips_crop() {
    let (_, a) = save_step(SaveState::Probing, SaveEvent::Probed(Some(100)));
    assert!(matches!(a, SaveAction::UploadOriginal(Note::SavedNoBorders)));
    // A failed probe counts as too short, not as a failure.
    let (_, a) = save_step(SaveState::Probing, SaveEvent::Probed(None));
    assert!(matches!(a, SaveAction::UploadOriginal(Note::SavedNoBorders)));
}

#[test]
fn save_sample_failure_keeps_original() {
    let (_, a) = save_step(SaveState::Sampling, SaveEvent::Sampled(false));
    assert!(matches!(a, SaveAction::UploadOriginal(Note::SavedNoBorders)));
}

#[test]
fn save_fetch_failure_is_fatal() {
    let (s, a) = save_step(SaveState::Fetching, SaveEvent::Fetched(false));
    assert!(matches!(s, SaveState::Failed(FailKind::FetchFailed)));
    assert!(matches!(a, SaveAction::Report(JobOutcome::Failure(FailKind::FetchFailed))));
}

#[test]
fn save_upload_failure_is_fatal() {
    let (_, a) = save_step(SaveState::Uploading(Note::CroppedAndSaved),
        SaveEvent::Uploaded(None));
    assert!(matches!(a, SaveAction::Report(JobOutcome::Failure(FailKind::UploadFailed))));
}

#[test]
fn edit_pipeline_happy_path() {
    let (s, a) = edit_step(EditState::Fetching, EditEvent::Fetched(true));
    assert!(matches!(a, EditAction::RunCropScan));
    let c = CropRect { x: 0, y: 40, w: 640, h: 280 };
    let (s, a) = edit_step(s, EditEvent::CropFound(Some(c)));
    assert!(matches!(a, EditAction::ApplyCrop(_)));
    let (s, a) = edit_step(s, EditEvent::PreCropped(true));
    assert!(matches!(a, EditAction::ProbeDims));
    let (s, a) = edit_step(s, EditEvent::Probed(Some((640, 280))));
    assert!(matches!(a, EditAction::SampleFrame));
    let (s, a) = edit_step(s, EditEvent::Sampled(true));
    assert!(matches!(a, EditAction::RunBoxDetect));
    let (s, a) = edit_step(s, EditEvent::DetectedBoxes(1));
    assert!(matches!(a, EditAction::BuildPlan { with_boxes: true }));
    let (s, a) = edit_step(s, EditEvent::Built(true));
    assert!(matches!(a, EditAction::Encode));
    let (s, a) = edit_step(s, EditEvent::Encoded(true));
    assert!(matches!(a, EditAction::Upload));
    let (s, a) = edit_step(s, EditEvent::Uploaded(Some(b"new".to_vec())));
    assert!(matches!(a, EditAction::Swap));
    let (_, a) = edit_step(s, EditEvent::Swapped(true));
    match a {
        EditAction::Report(JobOutcome::Success(h, Note::EditApplied)) => {
            assert_eq!(h, b"new".to_vec());
        },
        _ => panic!("expected a success report"),
    }
}

#[test]
fn edit_zero_dimension_probe_fails() {
    let (_, a) = edit_step(EditState::Probing, EditEvent::Probed(Some((0, 360))));
    assert!(matches!(a, EditAction::Report(JobOutcome::Failure(FailKind::ProbeFailed))));
}

#[test]
fn edit_sample_failure_builds_without_boxes() {
    let (_, a) = edit_step(EditState::Sampling, EditEvent::Sampled(false));
    assert!(matches!(a, EditAction::BuildPlan { with_boxes: false }));
}

#[test]
fn edit_empty_plan_is_fatal() {
    let (_, a) = edit_step(EditState::Building, EditEvent::Built(false));
    assert!(matches!(a, EditAction::Report(JobOutcome::Failure(FailKind::PlanEmpty))));
}

#[test]
fn edit_encode_failure_is_fatal() {
    let (_, a) = edit_step(EditState::Encoding, EditEvent::Encoded(false));
    assert!(matches!(a, EditAction::Report(JobOutcome::Failure(FailKind::EncodeFailed))));
}

#[test]
fn edit_swap_failure_degrades() {
    let (_, a) = edit_step(EditState::Swapping(b"new".to_vec()), EditEvent::Swapped(false));
    assert!(matches!(a, EditAction::Report(JobOutcome::PartialFailure(_, Note::SwapFailed))));
}

#[test]
fn stray_events_change_nothing() {
    let (s, a) = save_step(SaveState::Fetching, SaveEvent::Recorded(true));
    assert!(matches!(s, SaveState::Fetching));
    assert!(matches!(a, SaveAction::Stay));
    let (s, a) = edit_step(EditState::Done, EditEvent::Fetched(true));
    assert!(matches!(s, EditState::Done));
    assert!(matches!(a, EditAction::Stay));
}
