//! A recording: one header and the frames that follow it, and the byte stream
//! that holds them.
//!
//! The stream is the header's bytes followed by each frame's bytes in order,
//! with no length before a message and nothing between two messages. Every
//! message closes with a field that it always has, so a reader that starts on
//! a message boundary knows where the message ends.

use crate::frame::{
    frame_bytes, lemma_frame_complete, lemma_frame_sound, parse_frame, KRecFrame, KRecFrameView,
};
use crate::header::{
    header_bytes, lemma_header_complete, lemma_header_sound, parse_header, KRecHeader,
    KRecHeaderView,
};
use crate::wire::{
    at, lemma_at_all, lemma_at_bounds, lemma_at_empty, lemma_at_prefix, lemma_at_split,
    lemma_at_whole,
};
use vstd::prelude::*;

verus! {

/// One session's header and its frames, in the order they were captured.
#[derive(Clone, Debug, PartialEq, Eq)]
pub struct KRec {
    pub header: KRecHeader,
    pub frames: Vec<KRecFrame>,
}

/// A recording as a mathematical value.
pub struct KRecView {
    pub header: KRecHeaderView,
    pub frames: Seq<KRecFrameView>,
}

/// The frames of a list as mathematical values.
pub open spec fn frames_view(v: Seq<KRecFrame>) -> Seq<KRecFrameView> {
    Seq::new(v.len(), |i: int| v[i]@)
}

impl View for KRec {
    type V = KRecView;

    open spec fn view(&self) -> KRecView {
        KRecView { header: self.header@, frames: frames_view(self.frames@) }
    }
}

/// Why a byte stream could not be read as a recording.
#[derive(Clone, Copy, Debug, PartialEq, Eq)]
pub enum KRecError {
    /// The stream is not a header followed by whole frames: it was cut short,
    /// or its bytes are not what any recording is written as.
    MalformedStream,
}

/// The frames' bytes, one frame after the other.
pub open spec fn frames_bytes(frames: Seq<KRecFrameView>) -> Seq<u8>
    decreases frames.len(),
{
    if frames.len() == 0 {
        Seq::empty()
    } else {
        frames_bytes(frames.drop_last()) + frame_bytes(frames.last())
    }
}

/// The byte stream of a recording: the header's bytes, then the frames'.
pub open spec fn recording_bytes(r: KRecView) -> Seq<u8> {
    header_bytes(r.header) + frames_bytes(r.frames)
}

/// The recording that a byte stream holds: the one whose byte stream it is,
/// if there is one.
pub open spec fn decoded(s: Seq<u8>) -> Option<KRecView> {
    if exists|r: KRecView| recording_bytes(r) == s {
        Some(choose|r: KRecView| recording_bytes(r) == s)
    } else {
        None
    }
}

/// The frames that fill `s` from `pos` to its end.
pub open spec fn parse_frames(s: Seq<u8>, pos: int) -> Option<Seq<KRecFrameView>>
    decreases s.len() - pos,
{
    if pos >= s.len() {
        if pos == s.len() {
            Some(Seq::empty())
        } else {
            None
        }
    } else {
        match parse_frame(s, pos) {
            Some((f, end)) => if pos < end <= s.len() {
                match parse_frames(s, end) {
                    Some(rest) => Some(seq![f] + rest),
                    None => None,
                }
            } else {
                None
            },
            None => None,
        }
    }
}

/// The recording that fills `s`: a header at the start, then frames to the end.
pub open spec fn parse_recording(s: Seq<u8>) -> Option<KRecView> {
    match parse_header(s, 0) {
        Some((header, a)) => match parse_frames(s, a) {
            Some(frames) => Some(KRecView { header, frames }),
            None => None,
        },
        None => None,
    }
}

/// The frames' bytes are the first frame's bytes followed by the others'.
pub proof fn lemma_frames_front(f: KRecFrameView, rest: Seq<KRecFrameView>)
    ensures
        frames_bytes(seq![f] + rest) == frame_bytes(f) + frames_bytes(rest),
    decreases rest.len(),
{
    let all = seq![f] + rest;
    if rest.len() == 0 {
        assert(all.drop_last() =~= Seq::<KRecFrameView>::empty());
        assert(frames_bytes(all.drop_last()) =~= Seq::<u8>::empty());
        assert(frames_bytes(all) =~= frame_bytes(f) + Seq::<u8>::empty());
    } else {
        lemma_frames_front(f, rest.drop_last());
        assert(all.drop_last() =~= seq![f] + rest.drop_last());
        assert(all.last() == rest.last());
        assert(frames_bytes(all) =~= frame_bytes(f) + frames_bytes(rest));
    }
}

/// Every frame takes at least one byte.
pub proof fn lemma_frame_nonempty(f: KRecFrameView)
    ensures
        frame_bytes(f).len() > 0,
{
    reveal(frame_bytes);
}

/// Frames' bytes that fill `s` from `pos` on are read back as those frames.
pub proof fn lemma_frames_complete(s: Seq<u8>, pos: int, frames: Seq<KRecFrameView>)
    requires
        at(s, pos, frames_bytes(frames)),
        pos + frames_bytes(frames).len() == s.len(),
    ensures
        parse_frames(s, pos) == Some(frames),
    decreases frames.len(),
{
    lemma_at_bounds(s, pos, frames_bytes(frames));
    if frames.len() == 0 {
    } else {
        let f = frames[0];
        let rest = frames.drop_first();
        assert(frames =~= seq![f] + rest);
        lemma_frames_front(f, rest);
        lemma_frame_nonempty(f);
        lemma_at_split(s, pos, frame_bytes(f), frames_bytes(rest));
        lemma_frame_complete(s, pos, f);
        lemma_frames_complete(s, pos + frame_bytes(f).len(), rest);
    }
}

/// What is read as frames from `pos` to the end of `s` is those frames' bytes.
pub proof fn lemma_frames_sound(s: Seq<u8>, pos: int)
    requires
        0 <= pos <= s.len(),
        parse_frames(s, pos) is Some,
    ensures
        at(s, pos, frames_bytes(parse_frames(s, pos).unwrap())),
        pos + frames_bytes(parse_frames(s, pos).unwrap()).len() == s.len(),
    decreases s.len() - pos,
{
    if pos == s.len() {
        lemma_at_empty(s, pos);
    } else {
        let (f, end) = parse_frame(s, pos).unwrap();
        let rest = parse_frames(s, end).unwrap();
        lemma_frame_sound(s, pos);
        lemma_at_bounds(s, pos, frame_bytes(f));
        lemma_frames_sound(s, end);
        lemma_frames_front(f, rest);
        lemma_at_split(s, pos, frame_bytes(f), frames_bytes(rest));
    }
}

/// A recording's byte stream is read back as that recording.
pub proof fn lemma_recording_complete(r: KRecView)
    ensures
        parse_recording(recording_bytes(r)) == Some(r),
{
    let s = recording_bytes(r);
    lemma_at_whole(s);
    lemma_at_split(s, 0, header_bytes(r.header), frames_bytes(r.frames));
    lemma_header_complete(s, 0, r.header);
    lemma_frames_complete(s, header_bytes(r.header).len() as int, r.frames);
}

/// A byte stream that is read as a recording is that recording's byte stream.
pub proof fn lemma_recording_sound(s: Seq<u8>)
    requires
        parse_recording(s) is Some,
    ensures
        s == recording_bytes(parse_recording(s).unwrap()),
{
    let r = parse_recording(s).unwrap();
    lemma_header_sound(s, 0);
    let a = parse_header(s, 0).unwrap().1;
    lemma_at_bounds(s, 0, header_bytes(r.header));
    lemma_frames_sound(s, a);
    lemma_at_split(s, 0, header_bytes(r.header), frames_bytes(r.frames));
    lemma_at_all(s, recording_bytes(r));
}

/// No two recordings share a byte stream.
pub proof fn lemma_recording_bytes_injective(a: KRecView, b: KRecView)
    requires
        recording_bytes(a) == recording_bytes(b),
    ensures
        a == b,
{
    lemma_recording_complete(a);
    lemma_recording_complete(b);
}

/// What `parse_recording` finds in a stream is what the stream holds.
pub proof fn lemma_decoded_is_parsed(s: Seq<u8>)
    requires
    ensures
        decoded(s) == parse_recording(s),
{
    if parse_recording(s) is Some {
        lemma_recording_sound(s);
        let r = parse_recording(s).unwrap();
        let c = choose|r: KRecView| recording_bytes(r) == s;
        lemma_recording_bytes_injective(r, c);
    } else {
        if exists|r: KRecView| recording_bytes(r) == s {
            let c = choose|r: KRecView| recording_bytes(r) == s;
            lemma_recording_complete(c);
        }
    }
}

/// Reading frames from `start` has come to `pos` and found `acc`: what it
/// finds in all is `acc` followed by what it finds from `pos` on.
#[verifier::opaque]
pub open spec fn read_so_far(s: Seq<u8>, start: int, pos: int, acc: Seq<KRecFrameView>) -> bool {
    match parse_frames(s, pos) {
        Some(rest) => parse_frames(s, start) == Some(acc + rest),
        None => parse_frames(s, start) is None,
    }
}

/// Before the first frame is read, nothing has been found.
proof fn lemma_read_start(s: Seq<u8>, start: int)
    ensures
        read_so_far(s, start, start, Seq::empty()),
{
    reveal(read_so_far);
    if let Some(rest) = parse_frames(s, start) {
        assert(Seq::empty() + rest =~= rest);
    }
}

/// Where no frame stands at `pos` and bytes are left, no run of frames fills
/// the stream.
proof fn lemma_read_stuck(s: Seq<u8>, start: int, pos: int, acc: Seq<KRecFrameView>)
    requires
        read_so_far(s, start, pos, acc),
        0 <= pos < s.len(),
        parse_frame(s, pos) is None,
    ensures
        parse_frames(s, start) is None,
{
    reveal(read_so_far);
}

/// Reading one more frame keeps the account of what was found.
proof fn lemma_read_step(s: Seq<u8>, start: int, pos: int, acc: Seq<KRecFrameView>)
    requires
        read_so_far(s, start, pos, acc),
        0 <= pos < s.len(),
        parse_frame(s, pos) is Some,
        pos < parse_frame(s, pos).unwrap().1 <= s.len(),
    ensures
        read_so_far(
            s,
            start,
            parse_frame(s, pos).unwrap().1,
            acc.push(parse_frame(s, pos).unwrap().0),
        ),
{
    reveal(read_so_far);
    let (f, end) = parse_frame(s, pos).unwrap();
    if let Some(rest) = parse_frames(s, end) {
        assert(acc.push(f) + rest =~= acc + (seq![f] + rest));
    }
}

/// At the end of the stream, what was found is all there is.
proof fn lemma_read_end(s: Seq<u8>, start: int, acc: Seq<KRecFrameView>)
    requires
        read_so_far(s, start, s.len() as int, acc),
    ensures
        parse_frames(s, start) == Some(acc),
{
    reveal(read_so_far);
    assert(acc + Seq::empty() =~= acc);
}

/// An empty list has no frames.
proof fn lemma_frames_view_empty(v: Seq<KRecFrame>)
    requires
        v.len() == 0,
    ensures
        frames_view(v) == Seq::<KRecFrameView>::empty(),
{
    assert(frames_view(v) =~= Seq::empty());
}

/// Appending a frame to the list appends its value to the values.
proof fn lemma_frames_view_push(v: Seq<KRecFrame>, f: KRecFrame)
    ensures
        frames_view(v.push(f)) == frames_view(v).push(f@),
{
    assert(frames_view(v.push(f)) =~= frames_view(v).push(f@));
}

/// Reading back what was written gives the recording that was written: the
/// same header, the same frames in the same order, every field as it was,
/// present where it was present and absent where it was absent.
pub proof fn lemma_decode_encode(r: KRecView)
    ensures
        decoded(recording_bytes(r)) == Some(r),
{
    lemma_recording_complete(r);
    lemma_decoded_is_parsed(recording_bytes(r));
}

/// A recording without frames is written as its header's bytes and nothing
/// more, and those bytes are read back as a recording without frames.
pub proof fn lemma_no_frames(r: KRecView)
    requires
        r.frames.len() == 0,
    ensures
        recording_bytes(r) == header_bytes(r.header),
        decoded(header_bytes(r.header)) == Some(r),
        decoded(header_bytes(r.header)).unwrap().frames.len() == 0,
{
    assert(recording_bytes(r) =~= header_bytes(r.header));
    lemma_decode_encode(r);
}

/// Where the `j`-th frame of `r` ends in the byte stream of `r`; for `j == 0`,
/// where the header ends.
pub open spec fn boundary(r: KRecView, j: int) -> int {
    (header_bytes(r.header).len() + frames_bytes(r.frames.take(j)).len()) as int
}

/// `k` is a message boundary of the byte stream of `r`: its start, the end of
/// its header, or the end of one of its frames.
pub open spec fn is_boundary(r: KRecView, k: int) -> bool {
    k == 0 || exists|j: int| 0 <= j <= r.frames.len() && k == boundary(r, j)
}

/// Two runs of frames that stand at the same place agree as far as the shorter
/// one goes.
proof fn lemma_frames_prefix(
    s: Seq<u8>,
    pos: int,
    long: Seq<KRecFrameView>,
    short: Seq<KRecFrameView>,
)
    requires
        at(s, pos, frames_bytes(long)),
        at(s, pos, frames_bytes(short)),
        frames_bytes(short).len() <= frames_bytes(long).len(),
    ensures
        short.len() <= long.len(),
        short == long.take(short.len() as int),
    decreases short.len(),
{
    if short.len() == 0 {
        assert(short =~= long.take(0));
    } else {
        let f2 = short[0];
        let rest2 = short.drop_first();
        assert(short =~= seq![f2] + rest2);
        lemma_frames_front(f2, rest2);
        lemma_frame_nonempty(f2);
        assert(long.len() > 0);
        let f = long[0];
        let rest = long.drop_first();
        assert(long =~= seq![f] + rest);
        lemma_frames_front(f, rest);
        lemma_at_split(s, pos, frame_bytes(f), frames_bytes(rest));
        lemma_at_split(s, pos, frame_bytes(f2), frames_bytes(rest2));
        lemma_frame_complete(s, pos, f);
        lemma_frame_complete(s, pos, f2);
        lemma_frames_prefix(s, pos + frame_bytes(f).len(), rest, rest2);
        assert(short =~= long.take(short.len() as int));
    }
}

/// A byte stream cut anywhere but on a message boundary holds no recording:
/// reading it fails, and gives no shortened recording.
pub proof fn lemma_truncated_is_malformed(r: KRecView, k: int)
    requires
        0 <= k <= recording_bytes(r).len(),
        !is_boundary(r, k),
    ensures
        decoded(recording_bytes(r).subrange(0, k)) is None,
{
    let s = recording_bytes(r);
    let t = s.subrange(0, k);
    if decoded(t) is Some {
        let c = decoded(t).unwrap();
        assert(recording_bytes(c) == t);
        lemma_at_whole(t);
        lemma_at_split(t, 0, header_bytes(c.header), frames_bytes(c.frames));
        lemma_at_prefix(s, k, 0, header_bytes(c.header));
        lemma_at_prefix(s, k, header_bytes(c.header).len() as int, frames_bytes(c.frames));
        lemma_at_whole(s);
        lemma_at_split(s, 0, header_bytes(r.header), frames_bytes(r.frames));
        lemma_header_complete(s, 0, r.header);
        lemma_header_complete(s, 0, c.header);
        let start = header_bytes(r.header).len() as int;
        lemma_frames_prefix(s, start, r.frames, c.frames);
        let j = c.frames.len() as int;
        assert(k == boundary(r, j));
    }
}

/// Where a stream holds no recording, no recording has it as its byte stream.
proof fn lemma_nothing_decoded(s: Seq<u8>)
    requires
        decoded(s) is None,
    ensures
        forall|r: KRecView| recording_bytes(r) != s,
{
}

impl KRec {
    /// A recording with `header` and no frame yet.
    pub fn new(header: KRecHeader) -> (res: KRec)
        ensures
            res.header == header,
            res.frames@ == Seq::<KRecFrame>::empty(),
            res@ == (KRecView { header: header@, frames: Seq::empty() }),
    {
        let res = KRec { header, frames: Vec::new() };
        assert(res@.frames =~= Seq::empty());
        res
    }

    /// Appends `frame` behind the frames that are there; they and the header
    /// stay as they are.
    pub fn add_frame(&mut self, frame: KRecFrame)
        ensures
            final(self).header == old(self).header,
            final(self).frames@ == old(self).frames@.push(frame),
            final(self)@ == (KRecView {
                header: old(self)@.header,
                frames: old(self)@.frames.push(frame@),
            }),
    {
        self.frames.push(frame);
        assert(final(self)@.frames =~= old(self)@.frames.push(frame@));
    }

    /// The recording's byte stream.
    pub fn encode(&self) -> (res: Vec<u8>)
        ensures
            res@ == recording_bytes(self@),
            decoded(res@) == Some(self@),
    {
        let mut buf: Vec<u8> = Vec::new();
        self.header.encode(&mut buf);
        let ghost all = frames_view(self.frames@);
        let mut i: usize = 0;
        proof {
            assert(all.take(0) =~= Seq::empty());
            assert(buf@ =~= header_bytes(self@.header) + frames_bytes(all.take(0)));
        }
        while i < self.frames.len()
            invariant
                i <= self.frames.len(),
                all == frames_view(self.frames@),
                buf@ == header_bytes(self@.header) + frames_bytes(all.take(i as int)),
            decreases self.frames.len() - i,
        {
            self.frames[i].encode(&mut buf);
            proof {
                let t = all.take(i + 1);
                assert(t.drop_last() =~= all.take(i as int));
                assert(t.last() == all[i as int]);
                assert(buf@ =~= header_bytes(self@.header) + frames_bytes(t));
            }
            i += 1;
        }
        proof {
            assert(all.take(i as int) =~= all);
            lemma_recording_complete(self@);
            lemma_decoded_is_parsed(buf@);
        }
        buf
    }

    /// Reads the recording that `bytes` holds. It succeeds exactly where
    /// `bytes` is the byte stream of a recording, and then gives that
    /// recording, whole; a stream that was cut short or holds anything else is
    /// malformed.
    pub fn decode(bytes: &[u8]) -> (res: Result<KRec, KRecError>)
        ensures
            res matches Ok(r) ==> recording_bytes(r@) == bytes@ && decoded(bytes@) == Some(r@),
            res matches Err(e) ==> e is MalformedStream && decoded(bytes@) is None && forall|
                r: KRecView,
            |
                recording_bytes(r) != bytes@,
    {
        proof {
            lemma_decoded_is_parsed(bytes@);
            if parse_recording(bytes@) is Some {
                lemma_recording_sound(bytes@);
            }
        }
        let (header, start) = match KRecHeader::decode_at(bytes, 0) {
            Some(r) => r,
            None => {
                proof {
                    lemma_nothing_decoded(bytes@);
                }
                return Err(KRecError::MalformedStream);
            },
        };
        let mut frames: Vec<KRecFrame> = Vec::new();
        let mut pos = start;
        proof {
            lemma_frames_view_empty(frames@);
            lemma_read_start(bytes@, start as int);
        }
        while pos < bytes.len()
            invariant
                pos <= bytes@.len(),
                read_so_far(bytes@, start as int, pos as int, frames_view(frames@)),
                parse_header(bytes@, 0) == Some((header@, start as int)),
                decoded(bytes@) == parse_recording(bytes@),
            decreases bytes@.len() - pos,
        {
            let (frame, end) = match KRecFrame::decode_at(bytes, pos) {
                Some(r) => r,
                None => {
                    proof {
                        lemma_read_stuck(bytes@, start as int, pos as int, frames_view(frames@));
                        lemma_nothing_decoded(bytes@);
                    }
                    return Err(KRecError::MalformedStream);
                },
            };
            proof {
                lemma_read_step(bytes@, start as int, pos as int, frames_view(frames@));
                lemma_frames_view_push(frames@, frame);
            }
            frames.push(frame);
            pos = end;
        }
        proof {
            lemma_read_end(bytes@, start as int, frames_view(frames@));
        }
        Ok(KRec { header, frames })
    }
}

} // verus!
