use headshot::collector::{FileEntry, InputListing};
use headshot::detection::{DetectionResult, DetectorParams};
use headshot::geometry::Rect;
use headshot::processor::{
    plan_artifacts, Artifact, Phase, Pipeline, PipelineAction, PipelineEvent, ProcessMessage, Step,
};

fn entry(name: &str) -> FileEntry {
    FileEntry::new(&format!("in/{}", name), name)
}

fn listing(names: &[&str]) -> InputListing {
    InputListing::Directory(names.iter().map(|n| entry(n)).collect())
}

fn detection(faces: Vec<Rect>) -> DetectionResult {
    DetectionResult::new(1000, 800, faces).unwrap()
}

fn params() -> DetectorParams {
    DetectorParams { min_neighbors: 8, min_face_size: 100 }
}

fn detect(name: &str) -> PipelineAction {
    PipelineAction::Detect { path: format!("in/{}", name), min_neighbors: 8, min_face_size: 100 }
}

fn started(names: &[&str]) -> Pipeline {
    let mut pipeline = Pipeline::new("out", params());
    pipeline.step(PipelineEvent::Start).unwrap();
    pipeline.step(PipelineEvent::Listed(listing(names))).unwrap();
    pipeline
}

#[test]
fn three_images_with_two_zero_and_one_face() {
    let mut pipeline = Pipeline::new("out", params());
    let mut messages: Vec<ProcessMessage> = Vec::new();
    let mut artifacts: Vec<Artifact> = Vec::new();

    let step = pipeline.step(PipelineEvent::Start).unwrap();
    assert_eq!(step, Step { messages: vec![], action: PipelineAction::Enumerate });

    let names = ["img1.png", "notes.txt", "img2.jpg", "img3.JPEG"];
    let step = pipeline.step(PipelineEvent::Listed(listing(&names))).unwrap();
    assert_eq!(step, Step { messages: vec![], action: detect("img1.png") });

    let found = [
        vec![Rect::new(400, 300, 100, 100), Rect::new(0, 10, 50, 40)],
        vec![],
        vec![Rect::new(900, 700, 100, 100)],
    ];
    let next = [detect("img2.jpg"), detect("img3.JPEG"), PipelineAction::Stop];
    for (k, faces) in found.into_iter().enumerate() {
        let step = pipeline.step(PipelineEvent::Detected(detection(faces))).unwrap();
        assert!(step.messages.is_empty());
        match step.action {
            PipelineAction::Export { artifacts: planned } => artifacts.extend(planned),
            other => panic!("expected an export, got {:?}", other),
        }
        assert_eq!(pipeline.phase(), Phase::Exporting);
        let step = pipeline.step(PipelineEvent::Exported).unwrap();
        assert_eq!(step.action, next[k]);
        messages.extend(step.messages);
    }

    assert_eq!(
        messages,
        vec![
            ProcessMessage::Progress("img1.png".to_string(), 2),
            ProcessMessage::Progress("img2.jpg".to_string(), 0),
            ProcessMessage::Progress("img3.JPEG".to_string(), 1),
            ProcessMessage::Complete,
        ]
    );
    assert_eq!(
        artifacts,
        vec![
            Artifact {
                source: "in/img1.png".to_string(),
                crop: Rect::new(290, 190, 320, 320),
                destination: "out/img1_face_1.png".to_string(),
            },
            Artifact {
                source: "in/img1.png".to_string(),
                crop: Rect::new(0, 0, 105, 105),
                destination: "out/img1_face_2.png".to_string(),
            },
            Artifact {
                source: "in/img3.JPEG".to_string(),
                crop: Rect::new(790, 590, 210, 210),
                destination: "out/img3_face_1.JPEG".to_string(),
            },
        ]
    );
    assert!(pipeline.is_done());
    assert_eq!(pipeline.file_count(), 3);
    assert_eq!(pipeline.finished_count(), 3);
    assert_eq!(pipeline.skipped_count(), 0);
}

#[test]
fn empty_directory_gives_one_error_and_nothing_else() {
    let mut pipeline = Pipeline::new("out", params());
    pipeline.step(PipelineEvent::Start).unwrap();
    let step = pipeline.step(PipelineEvent::Listed(InputListing::Directory(vec![]))).unwrap();
    assert_eq!(
        step,
        Step {
            messages: vec![ProcessMessage::Error("No valid image files found.".to_string())],
            action: PipelineAction::Stop,
        }
    );
    assert!(pipeline.is_done());
    assert!(pipeline.step(PipelineEvent::Exported).is_none());
    assert!(pipeline.step(PipelineEvent::Skipped).is_none());
    assert!(pipeline.step(PipelineEvent::Start).is_none());
}

#[test]
fn missing_input_and_directory_without_images_give_the_same_error() {
    for found in [InputListing::Missing, listing(&["a.txt", "b.bmp"])] {
        let mut pipeline = Pipeline::new("out", params());
        pipeline.step(PipelineEvent::Start).unwrap();
        let step = pipeline.step(PipelineEvent::Listed(found)).unwrap();
        assert_eq!(
            step.messages,
            vec![ProcessMessage::Error("No valid image files found.".to_string())]
        );
        assert_eq!(step.action, PipelineAction::Stop);
    }
}

#[test]
fn single_file_input_is_processed() {
    let mut pipeline = Pipeline::new("out", params());
    pipeline.step(PipelineEvent::Start).unwrap();
    let file = InputListing::File(FileEntry::new("/home/me/portrait.jpg", "portrait.jpg"));
    let step = pipeline.step(PipelineEvent::Listed(file)).unwrap();
    assert_eq!(
        step.action,
        PipelineAction::Detect {
            path: "/home/me/portrait.jpg".to_string(),
            min_neighbors: 8,
            min_face_size: 100,
        }
    );
}

#[test]
fn detector_parameters_are_handed_on() {
    let mut pipeline = Pipeline::new("out", DetectorParams { min_neighbors: 3, min_face_size: 500 });
    pipeline.step(PipelineEvent::Start).unwrap();
    let step = pipeline.step(PipelineEvent::Listed(listing(&["a.png"]))).unwrap();
    assert_eq!(
        step.action,
        PipelineAction::Detect { path: "in/a.png".to_string(), min_neighbors: 3, min_face_size: 500 }
    );
}

#[test]
fn default_parameters_are_eight_and_one_hundred() {
    assert_eq!(DetectorParams::default(), params());
}

#[test]
fn skipped_file_is_passed_over_in_silence() {
    let mut pipeline = started(&["a.png", "b.png"]);
    let step = pipeline.step(PipelineEvent::Skipped).unwrap();
    assert_eq!(step, Step { messages: vec![], action: detect("b.png") });
    assert_eq!(pipeline.skipped_count(), 1);
    assert_eq!(pipeline.finished_count(), 1);
    let step = pipeline.step(PipelineEvent::Skipped).unwrap();
    assert_eq!(
        step,
        Step { messages: vec![ProcessMessage::Complete], action: PipelineAction::Stop }
    );
    assert_eq!(pipeline.skipped_count(), 2);
    assert!(pipeline.is_done());
}

#[test]
fn detector_failure_stops_the_batch() {
    let mut pipeline = started(&["a.png", "b.png"]);
    pipeline.step(PipelineEvent::Detected(detection(vec![]))).unwrap();
    pipeline.step(PipelineEvent::Exported).unwrap();
    let step = pipeline.step(PipelineEvent::Failed("cascade not loaded".to_string())).unwrap();
    assert_eq!(
        step,
        Step {
            messages: vec![ProcessMessage::Error(
                "Error processing in/b.png: cascade not loaded".to_string()
            )],
            action: PipelineAction::Stop,
        }
    );
    assert!(pipeline.is_done());
    assert_eq!(pipeline.finished_count(), 1);
    assert!(pipeline.step(PipelineEvent::Detected(detection(vec![]))).is_none());
}

#[test]
fn write_failure_stops_the_batch_without_progress_for_that_file() {
    let mut pipeline = started(&["a.png", "b.png"]);
    pipeline.step(PipelineEvent::Detected(detection(vec![Rect::new(1, 1, 5, 5)]))).unwrap();
    let step = pipeline.step(PipelineEvent::Failed("disk full".to_string())).unwrap();
    assert_eq!(
        step.messages,
        vec![ProcessMessage::Error("Error processing in/a.png: disk full".to_string())]
    );
    assert_eq!(step.action, PipelineAction::Stop);
    assert!(pipeline.step(PipelineEvent::Exported).is_none());
}

#[test]
fn events_out_of_turn_are_refused_and_change_nothing() {
    let mut pipeline = Pipeline::new("out", params());
    assert!(pipeline.step(PipelineEvent::Exported).is_none());
    assert!(pipeline.step(PipelineEvent::Skipped).is_none());
    assert!(pipeline.step(PipelineEvent::Failed("x".to_string())).is_none());
    assert!(pipeline.step(PipelineEvent::Listed(listing(&["a.png"]))).is_none());
    assert_eq!(pipeline.phase(), Phase::Idle);
    assert_eq!(pipeline.file_count(), 0);

    pipeline.step(PipelineEvent::Start).unwrap();
    assert!(pipeline.step(PipelineEvent::Start).is_none());
    assert!(pipeline.step(PipelineEvent::Failed("x".to_string())).is_none());
    assert_eq!(pipeline.phase(), Phase::Enumerating);

    pipeline.step(PipelineEvent::Listed(listing(&["a.png"]))).unwrap();
    assert!(pipeline.step(PipelineEvent::Exported).is_none());
    assert!(pipeline.step(PipelineEvent::Listed(listing(&["b.png"]))).is_none());
    assert_eq!(pipeline.phase(), Phase::Detecting);
    assert_eq!(pipeline.file_count(), 1);

    pipeline.step(PipelineEvent::Detected(detection(vec![]))).unwrap();
    assert!(pipeline.step(PipelineEvent::Skipped).is_none());
    assert!(pipeline.step(PipelineEvent::Detected(detection(vec![]))).is_none());
    assert_eq!(pipeline.phase(), Phase::Exporting);
}

#[test]
fn image_without_faces_still_reports_progress() {
    let mut pipeline = started(&["a.png"]);
    let step = pipeline.step(PipelineEvent::Detected(detection(vec![]))).unwrap();
    assert_eq!(step, Step { messages: vec![], action: PipelineAction::Export { artifacts: vec![] } });
    let step = pipeline.step(PipelineEvent::Exported).unwrap();
    assert_eq!(
        step.messages,
        vec![ProcessMessage::Progress("a.png".to_string(), 0), ProcessMessage::Complete]
    );
}

#[test]
fn rerun_plans_the_same_artifacts() {
    let run = || {
        let mut pipeline = started(&["a.png", "b.jpg"]);
        let mut planned: Vec<Artifact> = Vec::new();
        for faces in [vec![Rect::new(10, 20, 30, 40)], vec![Rect::new(5, 5, 5, 5), Rect::new(0, 0, 9, 9)]] {
            match pipeline.step(PipelineEvent::Detected(detection(faces))).unwrap().action {
                PipelineAction::Export { artifacts } => planned.extend(artifacts),
                other => panic!("expected an export, got {:?}", other),
            }
            pipeline.step(PipelineEvent::Exported).unwrap();
        }
        planned
    };
    let first = run();
    let second = run();
    assert_eq!(first.len(), 3);
    assert_eq!(first, second);
}

#[test]
fn plan_artifacts_numbers_faces_from_one() {
    let file = FileEntry::new("in/group.jpeg", "group.jpeg");
    let found = DetectionResult::new(
        200,
        100,
        vec![Rect::new(0, 0, 10, 10), Rect::new(100, 50, 20, 10), Rect::new(190, 90, 10, 10)],
    )
    .unwrap();
    let planned = plan_artifacts("crops", &file, &found);
    let names: Vec<&str> = planned.iter().map(|a| a.destination.as_str()).collect();
    assert_eq!(
        names,
        vec!["crops/group_face_1.jpeg", "crops/group_face_2.jpeg", "crops/group_face_3.jpeg"]
    );
    let crops: Vec<Rect> = planned.iter().map(|a| a.crop).collect();
    assert_eq!(
        crops,
        vec![Rect::new(0, 0, 21, 21), Rect::new(78, 28, 64, 54), Rect::new(179, 79, 21, 21)]
    );
    assert!(planned.iter().all(|a| a.source == "in/group.jpeg"));
}

#[test]
fn process_message_clone_is_equal() {
    for message in [
        ProcessMessage::Progress("a.png".to_string(), 4),
        ProcessMessage::Complete,
        ProcessMessage::Error("why".to_string()),
    ] {
        assert_eq!(message.clone(), message);
    }
}

fn drive(
    names: &[&str],
    mut detector: impl FnMut(&str) -> Result<Option<Vec<Rect>>, String>,
    mut writer: impl FnMut(&Artifact) -> Result<(), String>,
) -> (Vec<ProcessMessage>, Vec<String>) {
    let mut pipeline = Pipeline::new("out", params());
    let mut messages: Vec<ProcessMessage> = Vec::new();
    let mut written: Vec<String> = Vec::new();
    let mut event = PipelineEvent::Start;
    let mut rounds = 0;
    loop {
        rounds += 1;
        assert!(rounds < 1000);
        let step = pipeline.step(event).unwrap();
        messages.extend(step.messages);
        event = match step.action {
            PipelineAction::Enumerate => PipelineEvent::Listed(listing(names)),
            PipelineAction::Detect { path, .. } => match detector(&path) {
                Ok(Some(faces)) => PipelineEvent::Detected(detection(faces)),
                Ok(None) => PipelineEvent::Skipped,
                Err(cause) => PipelineEvent::Failed(cause),
            },
            PipelineAction::Export { artifacts } => {
                let mut outcome = PipelineEvent::Exported;
                for artifact in &artifacts {
                    match writer(artifact) {
                        Ok(()) => written.push(artifact.destination.clone()),
                        Err(cause) => {
                            outcome = PipelineEvent::Failed(cause);
                            break;
                        }
                    }
                }
                outcome
            }
            PipelineAction::Stop => break,
        };
    }
    assert!(pipeline.is_done());
    (messages, written)
}

#[test]
fn driven_run_reports_each_image_then_completes() {
    let (messages, written) = drive(
        &["a.png", "skip.txt", "b.jpg", "c.jpeg"],
        |path| match path {
            "in/a.png" => Ok(Some(vec![Rect::new(1, 1, 10, 10), Rect::new(50, 50, 10, 10)])),
            "in/b.jpg" => Ok(Some(vec![])),
            _ => Ok(Some(vec![Rect::new(5, 5, 5, 5)])),
        },
        |_| Ok(()),
    );
    assert_eq!(
        messages,
        vec![
            ProcessMessage::Progress("a.png".to_string(), 2),
            ProcessMessage::Progress("b.jpg".to_string(), 0),
            ProcessMessage::Progress("c.jpeg".to_string(), 1),
            ProcessMessage::Complete,
        ]
    );
    assert_eq!(written, vec!["out/a_face_1.png", "out/a_face_2.png", "out/c_face_1.jpeg"]);
}

#[test]
fn driven_run_skips_unreadable_images_silently() {
    let (messages, written) = drive(
        &["a.png", "broken.png", "c.png"],
        |path| if path == "in/broken.png" { Ok(None) } else { Ok(Some(vec![Rect::new(0, 0, 4, 4)])) },
        |_| Ok(()),
    );
    assert_eq!(
        messages,
        vec![
            ProcessMessage::Progress("a.png".to_string(), 1),
            ProcessMessage::Progress("c.png".to_string(), 1),
            ProcessMessage::Complete,
        ]
    );
    assert_eq!(written.len(), 2);
}

#[test]
fn driven_run_keeps_what_was_written_before_a_failure() {
    let mut writes = 0;
    let (messages, written) = drive(
        &["a.png", "b.png", "c.png"],
        |_| Ok(Some(vec![Rect::new(0, 0, 4, 4), Rect::new(9, 9, 4, 4)])),
        |_| {
            writes += 1;
            if writes == 4 { Err("permission denied".to_string()) } else { Ok(()) }
        },
    );
    assert_eq!(
        messages,
        vec![
            ProcessMessage::Progress("a.png".to_string(), 2),
            ProcessMessage::Error("Error processing in/b.png: permission denied".to_string()),
        ]
    );
    assert_eq!(written, vec!["out/a_face_1.png", "out/a_face_2.png", "out/b_face_1.png"]);
}

#[test]
fn driven_run_messages_are_progress_then_one_terminal() {
    for failing in 0..4 {
        let mut seen = 0;
        let (messages, _) = drive(
            &["a.png", "b.png", "c.png"],
            |_| {
                seen += 1;
                if seen == failing { Err("detector failed".to_string()) } else { Ok(Some(vec![])) }
            },
            |_| Ok(()),
        );
        let (last, earlier) = messages.split_last().unwrap();
        assert!(earlier.iter().all(|m| matches!(m, ProcessMessage::Progress(_, _))));
        assert!(matches!(last, ProcessMessage::Complete | ProcessMessage::Error(_)));
        assert_eq!(matches!(last, ProcessMessage::Complete), failing == 0);
    }
}

#[test]
fn driven_run_on_empty_input_gives_one_error() {
    let (messages, written) = drive(&[], |_| Ok(Some(vec![])), |_| Ok(()));
    assert_eq!(messages, vec![ProcessMessage::Error("No valid image files found.".to_string())]);
    assert!(written.is_empty());
}
