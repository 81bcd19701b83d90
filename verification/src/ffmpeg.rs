//! Attaching a recording to a video, and taking it out again.
//!
//! The work is done by an external muxer, `ffmpeg`, that the caller runs. This
//! module decides what is allowed, what is written, which arguments the muxer
//! gets, and what its exit means; it touches no file and starts no process.

use crate::header::KRecHeaderView;
use crate::krec::{recording_bytes, KRec};
use vstd::prelude::*;
use vstd::string::StringExecFns;

verus! {

/// The header fields that a recording must have before it is attached to a
/// video, in the order in which they are looked at.
#[derive(Clone, Copy, Debug, PartialEq, Eq)]
pub enum MetadataField {
    Uuid,
    Task,
    RobotPlatform,
    RobotSerial,
}

/// How a run of the muxer ended.
#[derive(Clone, Copy, Debug, PartialEq, Eq)]
pub enum MuxerExit {
    /// The process could not be started.
    NotStarted,
    /// The process ended with this exit code.
    Code(i32),
    /// The process ended without an exit code.
    NoCode,
}

/// Why attaching or extracting failed.
#[derive(Clone, Copy, Debug, PartialEq, Eq)]
pub enum FFmpegError {
    /// The header lacks this field; it is the first one that is empty.
    MissingMetadata(MetadataField),
    /// The temporary file could not be written.
    Io,
    /// The muxer did not start, or did not exit with code zero.
    MuxerFailed(MuxerExit),
}

/// What is to be done to attach a recording: the stream to write, the
/// temporary file to write it to, and the arguments to run the muxer with.
#[derive(Clone, Debug, PartialEq, Eq)]
pub struct CombinePlan {
    pub temp_path: String,
    pub stream: Vec<u8>,
    pub args: Vec<String>,
}

/// What is to be done to take a recording out of a video: the arguments to run
/// the muxer with, and whether its own output is to be suppressed.
#[derive(Clone, Debug, PartialEq, Eq)]
pub struct ExtractPlan {
    pub args: Vec<String>,
    pub quiet: bool,
}

/// What has happened so far while a plan to attach a recording is carried
/// out: whether the temporary file could be written, how the muxer ended, and
/// whether the temporary file could be removed. Each is `None` until it has
/// happened.
#[derive(Clone, Copy, Debug, PartialEq, Eq)]
pub struct CombineProgress {
    pub saved: Option<bool>,
    pub exit: Option<MuxerExit>,
    pub removed: Option<bool>,
}

/// What is to be done next to carry out a plan to attach a recording.
#[derive(Clone, Copy, Debug, PartialEq, Eq)]
pub enum CombineStep {
    /// Write the stream to the temporary file.
    Save,
    /// Run the muxer with the plan's arguments.
    Mux,
    /// Remove the temporary file.
    Remove,
    /// Nothing more: this is the result.
    Done(Result<(), FFmpegError>),
}

/// The texts of a list of strings.
pub open spec fn texts(v: Seq<String>) -> Seq<Seq<char>> {
    Seq::new(v.len(), |i: int| v[i]@)
}

/// The first of the four required fields that is empty, if one is.
pub open spec fn first_missing(h: KRecHeaderView) -> Option<MetadataField> {
    if h.uuid.len() == 0 {
        Some(MetadataField::Uuid)
    } else if h.task.len() == 0 {
        Some(MetadataField::Task)
    } else if h.robot_platform.len() == 0 {
        Some(MetadataField::RobotPlatform)
    } else if h.robot_serial.len() == 0 {
        Some(MetadataField::RobotSerial)
    } else {
        None
    }
}

/// The temporary file for an output path: the output path with `.tmp.krec`
/// behind it.
pub open spec fn temp_path_for(output_path: Seq<char>) -> Seq<char> {
    output_path + ".tmp.krec"@
}

/// The muxer's arguments for attaching: take the video, attach the temporary
/// file as a stream, tag that stream with its MIME type and with the four
/// header fields, copy every stream as it is, and write to the output path.
pub open spec fn combine_args(
    video_path: Seq<char>,
    output_path: Seq<char>,
    h: KRecHeaderView,
) -> Seq<Seq<char>> {
    seq![
        "-i"@,
        video_path,
        "-attach"@,
        temp_path_for(output_path),
        "-metadata:s:t"@,
        "mimetype=application/octet-stream"@,
        "-metadata:s:t"@,
        "uuid="@ + h.uuid,
        "-metadata:s:t"@,
        "task="@ + h.task,
        "-metadata:s:t"@,
        "robot_platform="@ + h.robot_platform,
        "-metadata:s:t"@,
        "robot_serial="@ + h.robot_serial,
        "-c"@,
        "copy"@,
        output_path,
    ]
}

/// The muxer's arguments for extracting: dump the first attachment of the
/// video to the output path, and discard whatever is decoded.
pub open spec fn extract_args(video_path: Seq<char>, output_path: Seq<char>) -> Seq<Seq<char>> {
    seq![
        "-dump_attachment:t:0"@,
        output_path,
        "-i"@,
        video_path,
        "-f"@,
        "null"@,
        "/dev/null"@,
    ]
}

/// What the muxer's exit means: success on exit code zero, failure otherwise.
pub open spec fn exit_meaning(exit: MuxerExit) -> Result<(), FFmpegError> {
    if exit == MuxerExit::Code(0) {
        Ok(())
    } else {
        Err(FFmpegError::MuxerFailed(exit))
    }
}

impl MetadataField {
    /// The key under which the field is attached to the stream.
    pub fn key(&self) -> (res: &'static str)
        ensures
            res@ == match *self {
                MetadataField::Uuid => "uuid"@,
                MetadataField::Task => "task"@,
                MetadataField::RobotPlatform => "robot_platform"@,
                MetadataField::RobotSerial => "robot_serial"@,
            },
    {
        match self {
            MetadataField::Uuid => "uuid",
            MetadataField::Task => "task",
            MetadataField::RobotPlatform => "robot_platform",
            MetadataField::RobotSerial => "robot_serial",
        }
    }
}

/// The first of the four required fields of `rec` that is empty.
pub fn missing_metadata(rec: &KRec) -> (res: Option<MetadataField>)
    ensures
        res == first_missing(rec@.header),
{
    if rec.header.uuid.as_str().is_empty() {
        Some(MetadataField::Uuid)
    } else if rec.header.task.as_str().is_empty() {
        Some(MetadataField::Task)
    } else if rec.header.robot_platform.as_str().is_empty() {
        Some(MetadataField::RobotPlatform)
    } else if rec.header.robot_serial.as_str().is_empty() {
        Some(MetadataField::RobotSerial)
    } else {
        None
    }
}

/// Appends one argument.
fn push_arg(args: &mut Vec<String>, arg: String)
    ensures
        texts(final(args)@) == texts(old(args)@).push(arg@),
{
    args.push(arg);
    assert(texts(final(args)@) =~= texts(old(args)@).push(arg@));
}

/// The arguments for attaching what `rec` holds to the video at `video_path`.
fn combine_arguments(rec: &KRec, video_path: &str, output_path: &str) -> (args: Vec<String>)
    ensures
        texts(args@) == combine_args(video_path@, output_path@, rec@.header),
{
    let mut args: Vec<String> = Vec::new();
    assert(texts(args@) =~= Seq::empty());
    push_arg(&mut args, String::from_str("-i"));
    push_arg(&mut args, String::from_str(video_path));
    push_arg(&mut args, String::from_str("-attach"));
    push_arg(&mut args, String::from_str(output_path).concat(".tmp.krec"));
    push_arg(&mut args, String::from_str("-metadata:s:t"));
    push_arg(&mut args, String::from_str("mimetype=application/octet-stream"));
    push_arg(&mut args, String::from_str("-metadata:s:t"));
    push_arg(&mut args, String::from_str("uuid=").concat(rec.header.uuid.as_str()));
    push_arg(&mut args, String::from_str("-metadata:s:t"));
    push_arg(&mut args, String::from_str("task=").concat(rec.header.task.as_str()));
    push_arg(&mut args, String::from_str("-metadata:s:t"));
    push_arg(
        &mut args,
        String::from_str("robot_platform=").concat(rec.header.robot_platform.as_str()),
    );
    push_arg(&mut args, String::from_str("-metadata:s:t"));
    push_arg(
        &mut args,
        String::from_str("robot_serial=").concat(rec.header.robot_serial.as_str()),
    );
    push_arg(&mut args, String::from_str("-c"));
    push_arg(&mut args, String::from_str("copy"));
    push_arg(&mut args, String::from_str(output_path));
    args
}

/// Plans attaching `rec` to the video at `video_path`, with the result at
/// `output_path`. A header that lacks a required field is refused before
/// anything is planned: no file is to be written and no muxer to be run.
pub fn combine_plan(rec: &KRec, video_path: &str, output_path: &str) -> (res: Result<
    CombinePlan,
    FFmpegError,
>)
    ensures
        match first_missing(rec@.header) {
            Some(field) => res == Err::<CombinePlan, FFmpegError>(
                FFmpegError::MissingMetadata(field),
            ),
            None => res matches Ok(plan) && plan.temp_path@ == temp_path_for(output_path@)
                && plan.stream@ == recording_bytes(rec@) && texts(plan.args@) == combine_args(
                video_path@,
                output_path@,
                rec@.header,
            ),
        },
{
    if let Some(field) = missing_metadata(rec) {
        return Err(FFmpegError::MissingMetadata(field));
    }
    let temp_path = String::from_str(output_path).concat(".tmp.krec");
    let stream = rec.encode();
    let args = combine_arguments(rec, video_path, output_path);
    Ok(CombinePlan { temp_path, stream, args })
}

/// Plans taking the recording out of the video at `video_path` and writing it
/// to `output_path`. The muxer's own output is suppressed unless `verbose`
/// asks for it.
pub fn extract_plan(video_path: &str, output_path: &str, verbose: Option<bool>) -> (res:
    ExtractPlan)
    ensures
        texts(res.args@) == extract_args(video_path@, output_path@),
        res.quiet == !(verbose == Some(true)),
{
    let mut args: Vec<String> = Vec::new();
    assert(texts(args@) =~= Seq::empty());
    push_arg(&mut args, String::from_str("-dump_attachment:t:0"));
    push_arg(&mut args, String::from_str(output_path));
    push_arg(&mut args, String::from_str("-i"));
    push_arg(&mut args, String::from_str(video_path));
    push_arg(&mut args, String::from_str("-f"));
    push_arg(&mut args, String::from_str("null"));
    push_arg(&mut args, String::from_str("/dev/null"));
    let quiet = match verbose {
        Some(v) => !v,
        None => true,
    };
    ExtractPlan { args, quiet }
}

/// What the muxer's exit means for the operation that ran it.
pub fn muxer_result(exit: MuxerExit) -> (res: Result<(), FFmpegError>)
    ensures
        res == exit_meaning(exit),
{
    match exit {
        MuxerExit::Code(code) => if code == 0 {
            Ok(())
        } else {
            Err(FFmpegError::MuxerFailed(exit))
        },
        _ => Err(FFmpegError::MuxerFailed(exit)),
    }
}

/// The step that follows what has happened so far. The file is written
/// first; the muxer runs only once the file is written; whatever came of
/// either, removing the file is tried before the result is given; and whether
/// the file could be removed changes nothing in the result.
pub open spec fn step_after(p: CombineProgress) -> CombineStep {
    match p.saved {
        None => CombineStep::Save,
        Some(false) => match p.removed {
            None => CombineStep::Remove,
            Some(_) => CombineStep::Done(Err(FFmpegError::Io)),
        },
        Some(true) => match p.exit {
            None => CombineStep::Mux,
            Some(exit) => match p.removed {
                None => CombineStep::Remove,
                Some(_) => CombineStep::Done(exit_meaning(exit)),
            },
        },
    }
}

impl CombineProgress {
    /// Nothing has happened yet.
    pub fn new() -> (res: CombineProgress)
        ensures
            res == (CombineProgress { saved: None, exit: None, removed: None }),
    {
        CombineProgress { saved: None, exit: None, removed: None }
    }

    /// The step to take next.
    pub fn next(&self) -> (res: CombineStep)
        ensures
            res == step_after(*self),
    {
        match self.saved {
            None => CombineStep::Save,
            Some(false) => match self.removed {
                None => CombineStep::Remove,
                Some(_) => CombineStep::Done(Err(FFmpegError::Io)),
            },
            Some(true) => match self.exit {
                None => CombineStep::Mux,
                Some(exit) => match self.removed {
                    None => CombineStep::Remove,
                    Some(_) => CombineStep::Done(muxer_result(exit)),
                },
            },
        }
    }
}

/// The muxer is run only once the temporary file is written, and a result is
/// given only once removing the temporary file has been tried.
pub proof fn lemma_steps_in_order(p: CombineProgress)
    ensures
        step_after(p) is Mux ==> p.saved == Some(true),
        step_after(p) is Done ==> p.saved is Some && p.removed is Some,
        step_after(p) matches CombineStep::Done(Ok(_)) ==> p.exit == Some(MuxerExit::Code(0)),
{
}

/// Whether the temporary file could be removed changes nothing in the result:
/// it neither undoes a success nor replaces the failure that came first.
pub proof fn lemma_cleanup_keeps_result(p: CombineProgress, q: CombineProgress)
    requires
        p.saved == q.saved,
        p.exit == q.exit,
        p.removed is Some,
        q.removed is Some,
    ensures
        step_after(p) == step_after(q),
{
}

} // verus!
