//! Robot telemetry recordings: a session header followed by an ordered stream
//! of frames, their binary encoding, and the rules for attaching a recording
//! to a video container.
//!
//! # The byte stream
//!
//! A recording is written as its header followed by its frames, in order,
//! with no length in front of a message and nothing between two messages. A
//! message is a run of fields in ascending order of their numbers. A field is
//! one key byte, the field's number times eight plus its wire type, and then
//! a varint (type 0), eight bytes (type 1), a varint length and that many
//! bytes (type 2), or four bytes (type 5). Real numbers are written as their
//! IEEE 754 bit patterns, least significant byte first.
//!
//! | message | fields |
//! |---|---|
//! | header | 1 uuid, 2 task, 3 robot platform, 4 robot serial (texts); 5 start, 6 end (varints) |
//! | frame | 1 states\*, 2 configurations\*, 3 commands\* (messages); 4 readings? (message); 5 timestamp (varint) |
//! | state | 1 id, 2 online (varints); 3 position?, 4 velocity?, 5 torque?, 6 temperature? (64 bits); 7 voltage?, 8 current? (32 bits) |
//! | configuration | 1 id (varint); 2 kp?, 3 kd?, 4 ki?, 5 max torque? (64 bits); 6 name? (text) |
//! | command | 1 id (varint); 2 position, 3 velocity, 4 effort (32 bits) |
//! | readings | 1 acceleration?, 2 angular rate?, 3 magnetic field? (vectors); 4 orientation? (quaternion) |
//! | vector | 1 x, 2 y, 3 z (64 bits) |
//! | quaternion | 1 x, 2 y, 3 z, 4 w (64 bits) |
//!
//! A field marked `?` is left out where its value is absent, one marked `*`
//! is written once for each item; every other field is always written, also
//! where its value is zero or empty. Header and frame each end with a field
//! that is always written, so a reader that starts on a message boundary
//! knows where the message ends, and there is one way only to write a
//! recording: [`krec::decoded`] is the inverse of [`krec::recording_bytes`].
//!
//! Varints are read and written by `prost`, fixed-width numbers by `bytes`.

pub mod varint;
pub mod wire;
pub mod fixed;
pub mod text;
pub mod imu;
pub mod actuator;
pub mod header;
pub mod frame;
pub mod krec;
pub mod ffmpeg;
pub mod construct;

pub use crate::actuator::{ActuatorCommand, ActuatorConfig, ActuatorState};
pub use crate::construct::{ConstructError, Value};
pub use crate::ffmpeg::{
    combine_plan, extract_plan, muxer_result, CombinePlan, CombineProgress, CombineStep,
    ExtractPlan, FFmpegError, MetadataField, MuxerExit,
};
pub use crate::frame::KRecFrame;
pub use crate::header::KRecHeader;
pub use crate::imu::{ImuQuaternion, ImuValues, Vec3};
pub use crate::krec::{KRec, KRecError};
