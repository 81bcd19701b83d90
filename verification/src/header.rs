//! The header of a recording: what names the session.

use crate::text::{
    lemma_text_field_complete, lemma_text_field_sound, parse_text_field, put_text_field,
    take_text_field, text_field,
};
use crate::wire::{
    at, lemma_at_bounds, lemma_at_split, lemma_uint_field_complete, lemma_uint_field_sound,
    parse_uint_field, put_uint_field, take_uint_field, uint_field,
};
use vstd::prelude::*;

verus! {

/// What names a session: its identifier, the task, the robot's platform and
/// serial number, and when the session started and ended. Any text may be
/// empty here; attaching a recording to a video asks for the first four.
#[derive(Clone, Debug, PartialEq, Eq)]
pub struct KRecHeader {
    pub uuid: String,
    pub task: String,
    pub robot_platform: String,
    pub robot_serial: String,
    pub start_timestamp: u64,
    pub end_timestamp: u64,
}

/// A header as a mathematical value.
pub struct KRecHeaderView {
    pub uuid: Seq<char>,
    pub task: Seq<char>,
    pub robot_platform: Seq<char>,
    pub robot_serial: Seq<char>,
    pub start_timestamp: u64,
    pub end_timestamp: u64,
}

impl View for KRecHeader {
    type V = KRecHeaderView;

    open spec fn view(&self) -> KRecHeaderView {
        KRecHeaderView {
            uuid: self.uuid@,
            task: self.task@,
            robot_platform: self.robot_platform@,
            robot_serial: self.robot_serial@,
            start_timestamp: self.start_timestamp,
            end_timestamp: self.end_timestamp,
        }
    }
}

/// Key of field 1, length-delimited.
impl Default for KRecHeader {
    /// The header with every text empty and both times zero.
    fn default() -> (h: KRecHeader)
        ensures
            h@ == (KRecHeaderView {
                uuid: Seq::empty(),
                task: Seq::empty(),
                robot_platform: Seq::empty(),
                robot_serial: Seq::empty(),
                start_timestamp: 0,
                end_timestamp: 0,
            }),
    {
        KRecHeader {
            uuid: String::new(),
            task: String::new(),
            robot_platform: String::new(),
            robot_serial: String::new(),
            start_timestamp: 0,
            end_timestamp: 0,
        }
    }
}

pub const KEY_UUID: u8 = 0x0A;

/// Key of field 2, length-delimited.
pub const KEY_TASK: u8 = 0x12;

/// Key of field 3, length-delimited.
pub const KEY_ROBOT_PLATFORM: u8 = 0x1A;

/// Key of field 4, length-delimited.
pub const KEY_ROBOT_SERIAL: u8 = 0x22;

/// Key of field 5, a varint.
pub const KEY_START_TIMESTAMP: u8 = 0x28;

/// Key of field 6, a varint.
pub const KEY_END_TIMESTAMP: u8 = 0x30;

/// A header on the wire: its six fields, every one written, in this order.
/// The last field closes the header, so a reader knows where it ends.
#[verifier::opaque]
pub open spec fn header_bytes(h: KRecHeaderView) -> Seq<u8> {
    text_field(KEY_UUID, h.uuid) + text_field(KEY_TASK, h.task) + text_field(
        KEY_ROBOT_PLATFORM,
        h.robot_platform,
    ) + text_field(KEY_ROBOT_SERIAL, h.robot_serial) + uint_field(
        KEY_START_TIMESTAMP,
        h.start_timestamp,
    ) + uint_field(KEY_END_TIMESTAMP, h.end_timestamp)
}

/// The header that stands at `pos`, and the position behind it.
#[verifier::opaque]
pub open spec fn parse_header(s: Seq<u8>, pos: int) -> Option<(KRecHeaderView, int)> {
    match parse_text_field(s, pos, KEY_UUID) {
        Some((uuid, a)) => match parse_text_field(s, a, KEY_TASK) {
            Some((task, b)) => match parse_text_field(s, b, KEY_ROBOT_PLATFORM) {
                Some((robot_platform, c)) => match parse_text_field(s, c, KEY_ROBOT_SERIAL) {
                    Some((robot_serial, d)) => match parse_uint_field(
                        s,
                        d,
                        KEY_START_TIMESTAMP,
                    ) {
                        Some((start_timestamp, e)) => match parse_uint_field(
                            s,
                            e,
                            KEY_END_TIMESTAMP,
                        ) {
                            Some((end_timestamp, f)) => Some(
                                (
                                    KRecHeaderView {
                                        uuid,
                                        task,
                                        robot_platform,
                                        robot_serial,
                                        start_timestamp,
                                        end_timestamp,
                                    },
                                    f,
                                ),
                            ),
                            None => None,
                        },
                        None => None,
                    },
                    None => None,
                },
                None => None,
            },
            None => None,
        },
        None => None,
    }
}

/// A header's bytes are read back as that header, whatever follows them.
#[verifier::rlimit(30)]
pub proof fn lemma_header_complete(s: Seq<u8>, pos: int, h: KRecHeaderView)
    requires
        at(s, pos, header_bytes(h)),
    ensures
        parse_header(s, pos) == Some((h, pos + header_bytes(h).len())),
{
    reveal(header_bytes);
    reveal(parse_header);
    let f1 = text_field(KEY_UUID, h.uuid);
    let f2 = text_field(KEY_TASK, h.task);
    let f3 = text_field(KEY_ROBOT_PLATFORM, h.robot_platform);
    let f4 = text_field(KEY_ROBOT_SERIAL, h.robot_serial);
    let f5 = uint_field(KEY_START_TIMESTAMP, h.start_timestamp);
    let f6 = uint_field(KEY_END_TIMESTAMP, h.end_timestamp);
    lemma_at_split(s, pos, f1 + f2 + f3 + f4 + f5, f6);
    lemma_at_split(s, pos, f1 + f2 + f3 + f4, f5);
    lemma_at_split(s, pos, f1 + f2 + f3, f4);
    lemma_at_split(s, pos, f1 + f2, f3);
    lemma_at_split(s, pos, f1, f2);
    let a = pos + f1.len();
    let b = a + f2.len();
    let c = b + f3.len();
    let d = c + f4.len();
    let e = d + f5.len();
    lemma_text_field_complete(s, pos, KEY_UUID, h.uuid);
    lemma_text_field_complete(s, a, KEY_TASK, h.task);
    lemma_text_field_complete(s, b, KEY_ROBOT_PLATFORM, h.robot_platform);
    lemma_text_field_complete(s, c, KEY_ROBOT_SERIAL, h.robot_serial);
    lemma_uint_field_complete(s, d, KEY_START_TIMESTAMP, h.start_timestamp);
    lemma_uint_field_complete(s, e, KEY_END_TIMESTAMP, h.end_timestamp);
}

/// What is read as a header at `pos` is that header's bytes, and they end
/// where the reading ended.
#[verifier::rlimit(30)]
pub proof fn lemma_header_sound(s: Seq<u8>, pos: int)
    requires
        parse_header(s, pos) is Some,
    ensures
        at(s, pos, header_bytes(parse_header(s, pos).unwrap().0)),
        parse_header(s, pos).unwrap().1 == pos + header_bytes(
            parse_header(s, pos).unwrap().0,
        ).len(),
        header_bytes(parse_header(s, pos).unwrap().0).len() > 0,
{
    reveal(header_bytes);
    reveal(parse_header);
    let h = parse_header(s, pos).unwrap().0;
    let f1 = text_field(KEY_UUID, h.uuid);
    let f2 = text_field(KEY_TASK, h.task);
    let f3 = text_field(KEY_ROBOT_PLATFORM, h.robot_platform);
    let f4 = text_field(KEY_ROBOT_SERIAL, h.robot_serial);
    let f5 = uint_field(KEY_START_TIMESTAMP, h.start_timestamp);
    let f6 = uint_field(KEY_END_TIMESTAMP, h.end_timestamp);
    lemma_text_field_sound(s, pos, KEY_UUID);
    let a = parse_text_field(s, pos, KEY_UUID).unwrap().1;
    lemma_text_field_sound(s, a, KEY_TASK);
    let b = parse_text_field(s, a, KEY_TASK).unwrap().1;
    lemma_text_field_sound(s, b, KEY_ROBOT_PLATFORM);
    let c = parse_text_field(s, b, KEY_ROBOT_PLATFORM).unwrap().1;
    lemma_text_field_sound(s, c, KEY_ROBOT_SERIAL);
    let d = parse_text_field(s, c, KEY_ROBOT_SERIAL).unwrap().1;
    lemma_uint_field_sound(s, d, KEY_START_TIMESTAMP);
    let e = parse_uint_field(s, d, KEY_START_TIMESTAMP).unwrap().1;
    lemma_uint_field_sound(s, e, KEY_END_TIMESTAMP);
    lemma_at_split(s, pos, f1, f2);
    lemma_at_split(s, pos, f1 + f2, f3);
    lemma_at_split(s, pos, f1 + f2 + f3, f4);
    lemma_at_split(s, pos, f1 + f2 + f3 + f4, f5);
    lemma_at_split(s, pos, f1 + f2 + f3 + f4 + f5, f6);
}

impl KRecHeader {
    /// Appends the header's bytes to `buf`.
    pub fn encode(&self, buf: &mut Vec<u8>)
        ensures
            final(buf)@ == old(buf)@ + header_bytes(self@),
    {
        put_text_field(buf, KEY_UUID, self.uuid.as_str());
        put_text_field(buf, KEY_TASK, self.task.as_str());
        put_text_field(buf, KEY_ROBOT_PLATFORM, self.robot_platform.as_str());
        put_text_field(buf, KEY_ROBOT_SERIAL, self.robot_serial.as_str());
        put_uint_field(buf, KEY_START_TIMESTAMP, self.start_timestamp);
        put_uint_field(buf, KEY_END_TIMESTAMP, self.end_timestamp);
        reveal(header_bytes);
        assert(final(buf)@ =~= old(buf)@ + header_bytes(self@));
    }

    /// Reads the header that stands in `buf` at `pos`, and gives it with the
    /// position behind it; `None` where no header's bytes stand there.
    pub fn decode_at(buf: &[u8], pos: usize) -> (res: Option<(KRecHeader, usize)>)
        ensures
            res is Some <==> parse_header(buf@, pos as int) is Some,
            res matches Some((h, end)) ==> parse_header(buf@, pos as int) == Some(
                (h@, end as int),
            ),
            res matches Some((h, end)) ==> pos < end <= buf@.len() && buf@.subrange(
                pos as int,
                end as int,
            ) == header_bytes(h@),
            res is None ==> forall|h: KRecHeaderView| !at(buf@, pos as int, header_bytes(h)),
    {
        proof {
            reveal(parse_header);
            if parse_header(buf@, pos as int) is Some {
                lemma_header_sound(buf@, pos as int);
                let h = parse_header(buf@, pos as int).unwrap().0;
                lemma_at_bounds(buf@, pos as int, header_bytes(h));
                reveal(at);
            } else {
                assert forall|h: KRecHeaderView| !at(buf@, pos as int, header_bytes(h)) by {
                    if at(buf@, pos as int, header_bytes(h)) {
                        lemma_header_complete(buf@, pos as int, h);
                    }
                }
            }
        }
        let (uuid, a) = match take_text_field(buf, pos, KEY_UUID) {
            Some(r) => r,
            None => { return None; },
        };
        let (task, b) = match take_text_field(buf, a, KEY_TASK) {
            Some(r) => r,
            None => { return None; },
        };
        let (robot_platform, c) = match take_text_field(buf, b, KEY_ROBOT_PLATFORM) {
            Some(r) => r,
            None => { return None; },
        };
        let (robot_serial, d) = match take_text_field(buf, c, KEY_ROBOT_SERIAL) {
            Some(r) => r,
            None => { return None; },
        };
        let (start_timestamp, e) = match take_uint_field(buf, d, KEY_START_TIMESTAMP) {
            Some(r) => r,
            None => { return None; },
        };
        let (end_timestamp, f) = match take_uint_field(buf, e, KEY_END_TIMESTAMP) {
            Some(r) => r,
            None => { return None; },
        };
        Some(
            (
                KRecHeader {
                    uuid,
                    task,
                    robot_platform,
                    robot_serial,
                    start_timestamp,
                    end_timestamp,
                },
                f,
            ),
        )
    }
}

} // verus!
