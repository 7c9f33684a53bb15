//! What holds of the driver however the stream is cut into feeds.

use crate::driver::{
    spec_feed, spec_frame, spec_frame_at, spec_line_announcement, spec_line_end_len, spec_poll,
    Announcement, DriverModel, Frame,
};
use crate::lex::{lemma_line_end_fits, spec_at_line_end, spec_first_line_end};
use vstd::prelude::*;

verus! {

/// Feeding in two pieces is feeding at once: where the first piece leads
/// to no message and does not end the stream, feeding a second piece leads
/// to what feeding both pieces at once leads to, and leaves the driver as
/// that would.
pub proof fn lemma_feed_in_two(d: DriverModel, a: Seq<u8>, b: Seq<u8>)
    requires
        spec_feed(d, a).1 is NeedMoreBytes || spec_feed(d, a).1 is LiteralAck,
    ensures
        spec_feed(spec_feed(d, a).0, b) == spec_feed(d, a + b),
{
    assert((d.buffer + a) + b =~= d.buffer + (a + b));
}

/// Once a feed has found the stream malformed, every further feed finds
/// it malformed, for the same reason, and takes no bytes.
pub proof fn lemma_malformed_is_final(d: DriverModel, x: Seq<u8>, y: Seq<u8>)
    requires
        spec_feed(d, x).1 is Malformed,
    ensures
        spec_feed(spec_feed(d, x).0, y).1 == spec_feed(d, x).1,
        spec_feed(spec_feed(d, x).0, y).0 == spec_feed(d, x).0,
{
}

/// Where a line ends does not depend on what follows the end of the line.
pub proof fn lemma_first_line_end_stable(s: Seq<u8>, more: Seq<u8>, relaxed: bool)
    requires
        spec_first_line_end(s, relaxed) is Some,
    ensures
        spec_first_line_end(s + more, relaxed) == spec_first_line_end(s, relaxed),
    decreases s.len(),
{
    let t = s + more;
    if spec_at_line_end(s, relaxed) {
        assert(t[0] == s[0]);
        if !relaxed {
            assert(t[1] == s[1]);
        }
    } else {
        assert(t[0] == s[0]);
        if s.len() >= 2 {
            assert(t[1] == s[1]);
        } else {
            assert(spec_first_line_end(s.skip(1), relaxed) is None);
        }
        assert(t.skip(1) =~= s.skip(1) + more);
        lemma_first_line_end_stable(s.skip(1), more, relaxed);
    }
}

/// A frame that is complete, or that is found too large, stays what it is
/// when more bytes arrive.
pub proof fn lemma_frame_at_stable(buf: Seq<u8>, more: Seq<u8>, pos: nat, relaxed: bool)
    requires
        spec_frame_at(buf, pos, relaxed) is Complete || spec_frame_at(buf, pos, relaxed)
            is TooLarge,
    ensures
        spec_frame_at(buf + more, pos, relaxed) == spec_frame_at(buf, pos, relaxed),
    decreases buf.len() - pos,
{
    let all = buf + more;
    let here = buf.skip(pos as int);
    assert(all.skip(pos as int) =~= here + more);
    lemma_first_line_end_stable(here, more, relaxed);
    lemma_line_end_fits(here, relaxed);
    let i = spec_first_line_end(here, relaxed)->0;
    let end = pos + i + spec_line_end_len(relaxed);
    assert(all.subrange(pos as int, (pos + i) as int) =~= buf.subrange(
        pos as int,
        (pos + i) as int,
    ));
    match spec_line_announcement(buf.subrange(pos as int, (pos + i) as int), relaxed) {
        Some(Announcement::Literal(n, mode)) => {
            lemma_frame_at_stable(buf, more, (end + n) as nat, relaxed);
        },
        _ => {},
    }
}

/// A message that the driver hands out does not depend on the bytes that
/// come after it: with more bytes behind the buffered ones the same message
/// is handed out, and the further bytes stay buffered behind what was left.
pub proof fn lemma_ready_is_stable(d: DriverModel, more: Seq<u8>)
    requires
        spec_poll(d).1 is Ready,
        d.buffer.len() <= usize::MAX,
    ensures
        spec_poll(DriverModel { buffer: d.buffer + more, ..d }).1 == spec_poll(d).1,
        spec_poll(DriverModel { buffer: d.buffer + more, ..d }).0 == (DriverModel {
            buffer: spec_poll(d).0.buffer + more,
            ..spec_poll(d).0
        }),
{
    let relaxed = d.config.quirks.crlf_relaxed;
    lemma_frame_at_stable(d.buffer, more, 0, relaxed);
    lemma_frame_fits(d.buffer, 0, relaxed);
    let n = spec_frame(d.buffer, relaxed)->Complete_0;
    assert((d.buffer + more).take(n as int) =~= d.buffer.take(n as int));
    assert((d.buffer + more).skip(n as int) =~= d.buffer.skip(n as int) + more);
}

/// A complete frame lies within the buffer.
pub proof fn lemma_frame_fits(buf: Seq<u8>, pos: nat, relaxed: bool)
    requires
        pos <= buf.len(),
        buf.len() <= usize::MAX,
    ensures
        spec_frame_at(buf, pos, relaxed) matches Frame::Complete(n) ==> pos < n <= buf.len(),
    decreases buf.len() - pos,
{
    let here = buf.skip(pos as int);
    lemma_line_end_fits(here, relaxed);
    match spec_first_line_end(here, relaxed) {
        None => {},
        Some(i) => {
            let end = pos + i + spec_line_end_len(relaxed);
            match spec_line_announcement(buf.subrange(pos as int, (pos + i) as int), relaxed) {
                Some(Announcement::Literal(n, mode)) => {
                    if end <= buf.len() && buf.len() - end >= n {
                        lemma_frame_fits(buf, (end + n) as nat, relaxed);
                    }
                },
                _ => {},
            }
        },
    }
}

} // verus!
