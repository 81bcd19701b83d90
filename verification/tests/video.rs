use krec::ffmpeg::{
    combine_plan, extract_plan, missing_metadata, muxer_result, CombineProgress, CombineStep,
    FFmpegError, MetadataField, MuxerExit,
};
use krec::frame::KRecFrame;
use krec::header::KRecHeader;
use krec::krec::KRec;

fn header(uuid: &str, task: &str, platform: &str, serial: &str) -> KRecHeader {
    KRecHeader {
        uuid: uuid.to_string(),
        task: task.to_string(),
        robot_platform: platform.to_string(),
        robot_serial: serial.to_string(),
        start_timestamp: 10,
        end_timestamp: 20,
    }
}

fn recording(h: KRecHeader) -> KRec {
    let mut rec = KRec::new(h);
    rec.add_frame(KRecFrame {
        timestamp: 11,
        actuator_states: vec![],
        actuator_configs: vec![],
        actuator_commands: vec![],
        imu_values: None,
    });
    rec
}

fn strings(v: &[&str]) -> Vec<String> {
    v.iter().map(|s| s.to_string()).collect()
}

#[test]
fn combine_plan_gives_the_muxer_its_arguments() {
    let rec = recording(header("abc-123", "walk", "v1", "SN42"));
    let plan = combine_plan(&rec, "in.mkv", "out.mkv").unwrap();
    assert_eq!(
        plan.args,
        strings(&[
            "-i",
            "in.mkv",
            "-attach",
            "out.mkv.tmp.krec",
            "-metadata:s:t",
            "mimetype=application/octet-stream",
            "-metadata:s:t",
            "uuid=abc-123",
            "-metadata:s:t",
            "task=walk",
            "-metadata:s:t",
            "robot_platform=v1",
            "-metadata:s:t",
            "robot_serial=SN42",
            "-c",
            "copy",
            "out.mkv",
        ])
    );
}

#[test]
fn combine_plan_writes_the_recording_to_a_file_beside_the_output() {
    let rec = recording(header("abc-123", "walk", "v1", "SN42"));
    let plan = combine_plan(&rec, "in.mkv", "dir/out.mkv").unwrap();
    assert_eq!(plan.temp_path, "dir/out.mkv.tmp.krec");
    assert_eq!(plan.stream, rec.encode());
    assert_eq!(KRec::decode(&plan.stream), Ok(rec));
    assert_ne!(plan.temp_path, "dir/out.mkv");
}

#[test]
fn combine_plan_refuses_a_header_without_uuid() {
    let rec = recording(header("", "walk", "v1", "SN42"));
    assert_eq!(
        combine_plan(&rec, "in.mkv", "out.mkv"),
        Err(FFmpegError::MissingMetadata(MetadataField::Uuid))
    );
}

#[test]
fn combine_plan_refuses_a_header_without_task() {
    let rec = recording(header("abc-123", "", "v1", "SN42"));
    assert_eq!(
        combine_plan(&rec, "in.mkv", "out.mkv"),
        Err(FFmpegError::MissingMetadata(MetadataField::Task))
    );
}

#[test]
fn combine_plan_refuses_a_header_without_platform() {
    let rec = recording(header("abc-123", "walk", "", "SN42"));
    assert_eq!(
        combine_plan(&rec, "in.mkv", "out.mkv"),
        Err(FFmpegError::MissingMetadata(MetadataField::RobotPlatform))
    );
}

#[test]
fn combine_plan_refuses_a_header_without_serial() {
    let rec = recording(header("abc-123", "walk", "v1", ""));
    assert_eq!(
        combine_plan(&rec, "in.mkv", "out.mkv"),
        Err(FFmpegError::MissingMetadata(MetadataField::RobotSerial))
    );
}

#[test]
fn combine_plan_names_the_first_missing_field() {
    let rec = recording(header("abc-123", "", "", ""));
    assert_eq!(
        combine_plan(&rec, "in.mkv", "out.mkv"),
        Err(FFmpegError::MissingMetadata(MetadataField::Task))
    );
    let rec = recording(header("", "", "", ""));
    assert_eq!(
        combine_plan(&rec, "in.mkv", "out.mkv"),
        Err(FFmpegError::MissingMetadata(MetadataField::Uuid))
    );
}

#[test]
fn missing_metadata_of_a_full_header_is_none() {
    assert_eq!(missing_metadata(&recording(header("a", "b", "c", "d"))), None);
    assert_eq!(
        missing_metadata(&recording(header("a", "b", "", "d"))),
        Some(MetadataField::RobotPlatform)
    );
}

#[test]
fn metadata_keys() {
    assert_eq!(MetadataField::Uuid.key(), "uuid");
    assert_eq!(MetadataField::Task.key(), "task");
    assert_eq!(MetadataField::RobotPlatform.key(), "robot_platform");
    assert_eq!(MetadataField::RobotSerial.key(), "robot_serial");
}

#[test]
fn extract_plan_dumps_the_first_attachment() {
    let plan = extract_plan("in.mkv", "out.krec", None);
    assert_eq!(
        plan.args,
        strings(&["-dump_attachment:t:0", "out.krec", "-i", "in.mkv", "-f", "null", "/dev/null"])
    );
}

#[test]
fn extract_plan_is_quiet_unless_verbose() {
    assert!(extract_plan("a", "b", None).quiet);
    assert!(extract_plan("a", "b", Some(false)).quiet);
    assert!(!extract_plan("a", "b", Some(true)).quiet);
    assert_eq!(extract_plan("a", "b", Some(true)).args, extract_plan("a", "b", None).args);
}

#[test]
fn muxer_succeeds_on_exit_code_zero_only() {
    assert_eq!(muxer_result(MuxerExit::Code(0)), Ok(()));
    assert_eq!(
        muxer_result(MuxerExit::Code(1)),
        Err(FFmpegError::MuxerFailed(MuxerExit::Code(1)))
    );
    assert_eq!(
        muxer_result(MuxerExit::Code(-1)),
        Err(FFmpegError::MuxerFailed(MuxerExit::Code(-1)))
    );
    assert_eq!(
        muxer_result(MuxerExit::NotStarted),
        Err(FFmpegError::MuxerFailed(MuxerExit::NotStarted))
    );
    assert_eq!(
        muxer_result(MuxerExit::NoCode),
        Err(FFmpegError::MuxerFailed(MuxerExit::NoCode))
    );
}

#[test]
fn steps_follow_in_order_on_success() {
    let mut p = CombineProgress::new();
    assert_eq!(p.next(), CombineStep::Save);
    p.saved = Some(true);
    assert_eq!(p.next(), CombineStep::Mux);
    p.exit = Some(MuxerExit::Code(0));
    assert_eq!(p.next(), CombineStep::Remove);
    p.removed = Some(true);
    assert_eq!(p.next(), CombineStep::Done(Ok(())));
}

#[test]
fn muxer_is_not_run_when_the_file_could_not_be_written() {
    let mut p = CombineProgress::new();
    p.saved = Some(false);
    assert_eq!(p.next(), CombineStep::Remove);
    p.removed = Some(true);
    assert_eq!(p.next(), CombineStep::Done(Err(FFmpegError::Io)));
    p.removed = Some(false);
    assert_eq!(p.next(), CombineStep::Done(Err(FFmpegError::Io)));
}

#[test]
fn file_is_removed_after_the_muxer_failed() {
    let mut p = CombineProgress::new();
    p.saved = Some(true);
    p.exit = Some(MuxerExit::Code(1));
    assert_eq!(p.next(), CombineStep::Remove);
    p.removed = Some(true);
    assert_eq!(
        p.next(),
        CombineStep::Done(Err(FFmpegError::MuxerFailed(MuxerExit::Code(1))))
    );
}

#[test]
fn cleanup_does_not_change_the_outcome() {
    for removed in [true, false] {
        let done = |exit| {
            CombineProgress { saved: Some(true), exit: Some(exit), removed: Some(removed) }.next()
        };
        assert_eq!(done(MuxerExit::Code(0)), CombineStep::Done(Ok(())));
        assert_eq!(
            done(MuxerExit::Code(2)),
            CombineStep::Done(Err(FFmpegError::MuxerFailed(MuxerExit::Code(2))))
        );
        assert_eq!(
            done(MuxerExit::NotStarted),
            CombineStep::Done(Err(FFmpegError::MuxerFailed(MuxerExit::NotStarted)))
        );
        assert_eq!(
            done(MuxerExit::NoCode),
            CombineStep::Done(Err(FFmpegError::MuxerFailed(MuxerExit::NoCode)))
        );
    }
}

#[test]
fn nothing_is_done_before_its_turn() {
    let early = CombineProgress { saved: None, exit: Some(MuxerExit::Code(0)), removed: Some(true) };
    assert_eq!(early.next(), CombineStep::Save);
    let unsaved = CombineProgress { saved: Some(false), exit: Some(MuxerExit::Code(0)), removed: None };
    assert_eq!(unsaved.next(), CombineStep::Remove);
}
