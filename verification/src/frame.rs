//! Framing: a connection carries lines of bytes, each ended by a newline.
//!
//! Bytes arrive in pieces of any size. [`read_protocol_frame`] is handed the
//! pieces one after the other and says how much of each it has used and when a
//! frame is complete. An empty piece stands for the end of the input.

use vstd::prelude::*;

verus! {

/// How the reading of one frame ended.
#[derive(Clone, Copy, Debug, PartialEq, Eq, Structural)]
pub enum FrameRead {
    /// A frame was read.
    Line,
    /// The input is at its end.
    Eof,
    /// The frame was longer than allowed and has been skipped.
    TooLong,
}

/// Where the reading of a frame stands between two pieces of input.
#[derive(Clone, Copy, Debug, PartialEq, Eq, Structural)]
pub enum FramePhase {
    /// Nothing of the frame has been read.
    Start,
    /// The frame so far is short enough and is being collected.
    Reading,
    /// The frame is too long and is being skipped.
    Draining,
}

/// The reader of one connection.
#[derive(Debug)]
pub struct FrameReader {
    pub phase: FramePhase,
}

/// What one piece of input led to.
#[derive(Clone, Copy, Debug, PartialEq, Eq, Structural)]
pub struct FrameStep {
    /// How many bytes of the piece were used.
    pub consume: usize,
    /// How the frame ended, where it did.
    pub done: Option<FrameRead>,
}

/// What one piece of input led to while a frame was being skipped.
#[derive(Clone, Copy, Debug, PartialEq, Eq, Structural)]
pub struct DrainStep {
    /// How many bytes of the piece were used.
    pub consume: usize,
    /// Whether the end of the frame was reached.
    pub done: bool,
}

/// The byte that ends a frame.
pub const NEWLINE: u8 = 10;

/// The byte that is dropped before the end of a frame.
pub const CARRIAGE_RETURN: u8 = 13;

/// The place of the first newline, or the length where there is none.
pub open spec fn newline_at(s: Seq<u8>) -> int
    decreases s.len(),
{
    if s.len() == 0 || s[0] == NEWLINE {
        0
    } else {
        1 + newline_at(s.skip(1))
    }
}

/// `s` without one carriage return at its end.
pub open spec fn without_cr(s: Seq<u8>) -> Seq<u8> {
    if s.len() > 0 && s.last() == CARRIAGE_RETURN {
        s.drop_last()
    } else {
        s
    }
}

/// How the first frame of `input` ends.
pub open spec fn frame_result(input: Seq<u8>, max: nat) -> FrameRead {
    if input.len() == 0 {
        FrameRead::Eof
    } else if newline_at(input) > max {
        FrameRead::TooLong
    } else {
        FrameRead::Line
    }
}

/// What the first frame of `input` holds: nothing where none is read.
pub open spec fn frame_bytes(input: Seq<u8>, max: nat) -> Seq<u8> {
    if newline_at(input) > max {
        Seq::empty()
    } else {
        without_cr(input.take(newline_at(input)))
    }
}

/// What follows the first frame of `input` and its newline.
pub open spec fn after_frame(input: Seq<u8>) -> Seq<u8> {
    if newline_at(input) < input.len() {
        input.skip(newline_at(input) + 1)
    } else {
        Seq::empty()
    }
}

/// The state of a reader and what it has collected.
#[verifier::ext_equal]
pub struct FrameModel {
    pub phase: FramePhase,
    pub out: Seq<u8>,
}

/// How many bytes of a piece belong to the frame that it continues, its newline
/// included.
pub open spec fn frame_share(available: Seq<u8>) -> int {
    if newline_at(available) < available.len() {
        newline_at(available) + 1
    } else {
        available.len() as int
    }
}

/// What a reader makes of one piece of input: its next state, how much of the
/// piece it uses, and how the frame ended, where it did.
pub open spec fn frame_step(m: FrameModel, max: nat, available: Seq<u8>) -> (
    FrameModel,
    int,
    Option<FrameRead>,
) {
    let seen = if m.phase is Start {
        Seq::empty()
    } else {
        m.out
    };
    let ended = newline_at(available) < available.len() || available.len() == 0;
    let grown = seen + available.take(newline_at(available));
    if m.phase is Draining || grown.len() > max {
        if ended {
            (
                FrameModel { phase: FramePhase::Start, out: Seq::empty() },
                frame_share(available),
                Some(FrameRead::TooLong),
            )
        } else {
            (
                FrameModel { phase: FramePhase::Draining, out: Seq::empty() },
                frame_share(available),
                None,
            )
        }
    } else if ended {
        (
            FrameModel { phase: FramePhase::Start, out: without_cr(grown) },
            frame_share(available),
            Some(
                if seen.len() == 0 && available.len() == 0 {
                    FrameRead::Eof
                } else {
                    FrameRead::Line
                },
            ),
        )
    } else {
        (FrameModel { phase: FramePhase::Reading, out: grown }, frame_share(available), None)
    }
}

proof fn lemma_newline_at(s: Seq<u8>)
    ensures
        0 <= newline_at(s) <= s.len(),
        newline_at(s) < s.len() ==> s[newline_at(s)] == NEWLINE,
        forall|i: int| 0 <= i < newline_at(s) ==> s[i] != NEWLINE,
    decreases s.len(),
{
    if s.len() > 0 && s[0] != NEWLINE {
        lemma_newline_at(s.skip(1));
        assert forall|i: int| 0 <= i < newline_at(s) implies s[i] != NEWLINE by {
            if i > 0 {
                assert(s[i] == s.skip(1)[i - 1]);
            }
        }
    }
}

proof fn lemma_newline_at_is(s: Seq<u8>, k: int)
    requires
        0 <= k <= s.len(),
        k < s.len() ==> s[k] == NEWLINE,
        forall|i: int| 0 <= i < k ==> s[i] != NEWLINE,
    ensures
        newline_at(s) == k,
{
    lemma_newline_at(s);
}

/// The place of the first newline of `available`.
fn newline_position(available: &[u8]) -> (r: Option<usize>)
    ensures
        match r {
            Some(k) => k < available@.len() && newline_at(available@) == k,
            None => newline_at(available@) == available@.len(),
        },
{
    for i in 0..available.len()
        invariant
            forall|j: int| 0 <= j < i ==> available@[j] != NEWLINE,
    {
        if available[i] == NEWLINE {
            proof {
                lemma_newline_at_is(available@, i as int);
            }
            return Some(i);
        }
    }
    proof {
        lemma_newline_at_is(available@, available@.len() as int);
    }
    None
}

/// Drops one carriage return at the end of a frame.
pub fn trim_frame_cr(frame: &mut Vec<u8>)
    ensures
        final(frame)@ == without_cr(old(frame)@),
{
    let n: usize = frame.len();
    if n > 0 && frame[n - 1] == CARRIAGE_RETURN {
        frame.pop();
    }
}

/// Skips the rest of a frame that is too long, up to its newline or the end of
/// the input.
pub fn drain_protocol_frame(available: &[u8]) -> (step: DrainStep)
    ensures
        step.consume == frame_share(available@),
        step.done == (newline_at(available@) < available@.len() || available@.len() == 0),
{
    let n: usize = available.len();
    match newline_position(available) {
        Some(k) => DrainStep { consume: k + 1, done: true },
        None => DrainStep { consume: n, done: n == 0 },
    }
}

/// Continues the frame that `reader` is reading with one piece of input. The
/// frame is in `out` when it has ended as a line.
pub fn read_protocol_frame(
    reader: &mut FrameReader,
    available: &[u8],
    max_frame_bytes: usize,
    out: &mut Vec<u8>,
) -> (step: FrameStep)
    ensures
        ({
            let (m, consume, done) = frame_step(
                FrameModel { phase: old(reader).phase, out: old(out)@ },
                max_frame_bytes as nat,
                available@,
            );
            &&& final(reader).phase == m.phase
            &&& final(out)@ == m.out
            &&& step.consume == consume
            &&& step.done == done
        }),
{
    proof {
        lemma_newline_at(available@);
    }
    if reader.phase == FramePhase::Start {
        out.clear();
    }
    if reader.phase == FramePhase::Draining {
        out.clear();
        let drained = drain_protocol_frame(available);
        if drained.done {
            reader.phase = FramePhase::Start;
            return FrameStep { consume: drained.consume, done: Some(FrameRead::TooLong) };
        }
        return FrameStep { consume: drained.consume, done: None };
    }
    let ghost seen = out@;
    let newline = newline_position(available);
    let take_len: usize = match newline {
        Some(k) => k,
        None => available.len(),
    };
    let ghost grown = seen + available@.take(take_len as int);
    if out.len() > max_frame_bytes || take_len > max_frame_bytes - out.len() {
        out.clear();
        if available.len() == 0 {
            reader.phase = FramePhase::Start;
            return FrameStep { consume: 0, done: Some(FrameRead::TooLong) };
        }
        let drained = drain_protocol_frame(available);
        if drained.done {
            reader.phase = FramePhase::Start;
            return FrameStep { consume: drained.consume, done: Some(FrameRead::TooLong) };
        }
        reader.phase = FramePhase::Draining;
        return FrameStep { consume: drained.consume, done: None };
    }
    if available.len() == 0 {
        reader.phase = FramePhase::Start;
        assert(grown == seen);
        if out.len() == 0 {
            return FrameStep { consume: 0, done: Some(FrameRead::Eof) };
        }
        trim_frame_cr(out);
        return FrameStep { consume: 0, done: Some(FrameRead::Line) };
    }
    for i in 0..take_len
        invariant
            take_len <= available@.len(),
            out@ == seen + available@.take(i as int),
    {
        out.push(available[i]);
        assert(available@.take(i as int + 1) == available@.take(i as int).push(
            available@[i as int],
        ));
    }
    match newline {
        Some(k) => {
            reader.phase = FramePhase::Start;
            trim_frame_cr(out);
            FrameStep { consume: k + 1, done: Some(FrameRead::Line) }
        },
        None => {
            reader.phase = FramePhase::Reading;
            FrameStep { consume: available.len(), done: None }
        },
    }
}

/// A reader in state `m` has read `seen` of a frame and no newline yet.
pub open spec fn has_read(m: FrameModel, seen: Seq<u8>, max: nat) -> bool {
    &&& newline_at(seen) == seen.len()
    &&& match m.phase {
        FramePhase::Start => seen.len() == 0,
        FramePhase::Reading => 0 < seen.len() <= max && m.out == seen,
        FramePhase::Draining => seen.len() > max,
    }
}

/// One step of reading does what the whole input asks for: a frame that ends is
/// the first frame of all that was and will be read, and a frame that goes on
/// has used the whole piece.
pub proof fn law_frame_step(
    m: FrameModel,
    seen: Seq<u8>,
    available: Seq<u8>,
    rest: Seq<u8>,
    max: nat,
)
    requires
        has_read(m, seen, max),
        available.len() == 0 ==> rest.len() == 0,
    ensures
        ({
            let (next, consume, done) = frame_step(m, max, available);
            let input = seen + available + rest;
            match done {
                Some(result) => {
                    &&& result == frame_result(input, max)
                    &&& next.phase is Start
                    &&& next.out == frame_bytes(input, max)
                    &&& 0 <= consume <= available.len()
                    &&& (available + rest).skip(consume) == after_frame(input)
                },
                None => {
                    &&& available.len() > 0
                    &&& consume == available.len()
                    &&& has_read(next, seen + available, max)
                },
            }
        }),
{
    let (next, consume, done) = frame_step(m, max, available);
    let input = seen + available + rest;
    lemma_newline_at(seen);
    lemma_newline_at(available);
    let k = newline_at(available);
    if k < available.len() {
        assert forall|i: int| 0 <= i < seen.len() + k implies input[i] != NEWLINE by {
            if i < seen.len() {
                assert(input[i] == seen[i]);
            } else {
                assert(input[i] == available[i - seen.len()]);
            }
        }
        assert(input[seen.len() + k] == available[k]);
        lemma_newline_at_is(input, seen.len() + k);
        assert(input.take(seen.len() + k) == seen + available.take(k));
        assert((available + rest).skip(k + 1) == input.skip(seen.len() + k + 1));
        if m.phase is Start {
            assert(seen == Seq::<u8>::empty());
        }
    } else if available.len() == 0 {
        assert(input == seen);
        assert(input.take(input.len() as int) == input);
        assert((available + rest).skip(0) == Seq::<u8>::empty());
        if m.phase is Start {
            assert(seen == Seq::<u8>::empty());
        }
        assert(seen + available.take(0) == seen);
    } else {
        let grown = seen + available;
        assert forall|i: int| 0 <= i < grown.len() implies grown[i] != NEWLINE by {
            if i < seen.len() {
                assert(grown[i] == seen[i]);
            } else {
                assert(grown[i] == available[i - seen.len()]);
            }
        }
        lemma_newline_at_is(grown, grown.len() as int);
        assert(available.take(k) == available);
        if m.phase is Start {
            assert(seen == Seq::<u8>::empty());
        }
    }
}

/// How many bytes the next piece holds: what `cut` says, but at least one byte
/// and no more than there are.
pub open spec fn piece_len(input: Seq<u8>, cut: spec_fn(Seq<u8>) -> nat) -> int {
    if cut(input) > input.len() {
        input.len() as int
    } else if cut(input) == 0 && input.len() > 0 {
        1
    } else {
        cut(input) as int
    }
}

/// Reads one frame from `input`, which arrives in the pieces that `cut` says:
/// how it ended, what was collected, and what is left of the input.
pub open spec fn read_in_pieces(
    m: FrameModel,
    max: nat,
    input: Seq<u8>,
    cut: spec_fn(Seq<u8>) -> nat,
) -> (FrameRead, Seq<u8>, Seq<u8>)
    decreases input.len(),
{
    let n = piece_len(input, cut);
    let (next, consume, done) = frame_step(m, max, input.take(n));
    match done {
        Some(result) => (result, next.out, input.skip(consume)),
        None => if n > 0 {
            read_in_pieces(next, max, input.skip(n), cut)
        } else {
            (FrameRead::Eof, next.out, input)
        },
    }
}

proof fn lemma_read_in_pieces(
    m: FrameModel,
    seen: Seq<u8>,
    max: nat,
    input: Seq<u8>,
    cut: spec_fn(Seq<u8>) -> nat,
)
    requires
        has_read(m, seen, max),
    ensures
        read_in_pieces(m, max, input, cut) == (
            frame_result(seen + input, max),
            frame_bytes(seen + input, max),
            after_frame(seen + input),
        ),
    decreases input.len(),
{
    let n = piece_len(input, cut);
    let available = input.take(n);
    let rest = input.skip(n);
    law_frame_step(m, seen, available, rest, max);
    assert(seen + available + rest == seen + input);
    assert(available + rest == input);
    let (next, consume, done) = frame_step(m, max, available);
    if done is None {
        lemma_read_in_pieces(next, seen + available, max, rest, cut);
    }
}

/// However the input is cut into pieces, the same frame is read: the bytes up
/// to the first newline without a carriage return at their end, where they are
/// no more than `max`, and what follows the newline is left for the next frame.
/// A frame that is too long is skipped as a whole.
pub proof fn law_pieces_do_not_matter(
    out: Seq<u8>,
    max: nat,
    input: Seq<u8>,
    cut: spec_fn(Seq<u8>) -> nat,
)
    ensures
        read_in_pieces(FrameModel { phase: FramePhase::Start, out }, max, input, cut) == (
            frame_result(input, max),
            frame_bytes(input, max),
            after_frame(input),
        ),
{
    let m = FrameModel { phase: FramePhase::Start, out };
    lemma_read_in_pieces(m, Seq::empty(), max, input, cut);
    assert(Seq::<u8>::empty() + input == input);
}

/// What was sent as a line is read as that line, however it arrives: it comes back
/// byte for byte where it was ended by a carriage return and a newline, and where
/// no carriage return stands at its end also where it was ended by a newline or by
/// the end of the input; and what follows is left. A line that is too long is
/// skipped as a whole, whether anything follows it, which is left, or nothing.
pub proof fn law_lines_read_back(
    out: Seq<u8>,
    max: nat,
    line: Seq<u8>,
    rest: Seq<u8>,
    cut: spec_fn(Seq<u8>) -> nat,
)
    requires
        forall|i: int| 0 <= i < line.len() ==> #[trigger] line[i] != 10,
    ensures
        ({
            let start = FrameModel { phase: FramePhase::Start, out };
            let crlf = line.push(13).push(10) + rest;
            let lf = line.push(10) + rest;
            let bare = line.len() == 0 || line.last() != 13;
            &&& bare && line.len() <= max ==> read_in_pieces(start, max, lf, cut) == (
                FrameRead::Line,
                line,
                rest,
            )
            &&& line.len() < max ==> read_in_pieces(start, max, crlf, cut) == (
                FrameRead::Line,
                line,
                rest,
            )
            &&& line.len() > max ==> read_in_pieces(start, max, lf, cut) == (
                FrameRead::TooLong,
                Seq::<u8>::empty(),
                rest,
            )
            &&& bare && 0 < line.len() <= max ==> read_in_pieces(start, max, line, cut) == (
                FrameRead::Line,
                line,
                Seq::<u8>::empty(),
            )
            &&& line.len() < max ==> read_in_pieces(start, max, line.push(13), cut) == (
                FrameRead::Line,
                line,
                Seq::<u8>::empty(),
            )
            &&& line.len() > max ==> read_in_pieces(start, max, line, cut) == (
                FrameRead::TooLong,
                Seq::<u8>::empty(),
                Seq::<u8>::empty(),
            )
            &&& line.len() == 0 ==> read_in_pieces(start, max, line, cut) == (
                FrameRead::Eof,
                Seq::<u8>::empty(),
                Seq::<u8>::empty(),
            )
        }),
{
    let n = line.len() as int;
    let lf = line.push(10) + rest;
    let crlf = line.push(13).push(10) + rest;
    law_pieces_do_not_matter(out, max, lf, cut);
    law_pieces_do_not_matter(out, max, crlf, cut);
    law_pieces_do_not_matter(out, max, line, cut);
    law_pieces_do_not_matter(out, max, line.push(13), cut);
    lemma_newline_at_is(line.push(13), n + 1);
    assert(line.push(13).take(n + 1) =~= line.push(13));
    assert(line.push(13).drop_last() =~= line);
    assert forall|i: int| 0 <= i < n implies lf[i] != NEWLINE by {
        assert(lf[i] == line[i]);
    }
    assert(lf[n] == NEWLINE);
    lemma_newline_at_is(lf, n);
    assert forall|i: int| 0 <= i < n + 1 implies crlf[i] != NEWLINE by {
        if i < n {
            assert(crlf[i] == line[i]);
        }
    }
    assert(crlf[n + 1] == NEWLINE);
    lemma_newline_at_is(crlf, n + 1);
    lemma_newline_at_is(line, n);
    assert(lf.take(n) =~= line);
    assert(lf.skip(n + 1) =~= rest);
    assert(crlf.take(n + 1) =~= line.push(13));
    assert(crlf.take(n + 1).drop_last() =~= line);
    assert(crlf.skip(n + 2) =~= rest);
    assert(line.take(n) =~= line);
}

/// A frame ends with the first newline of the input, which is used with it, or with
/// the input where there is none; and one carriage return at its end, no more, is
/// not part of it.
pub proof fn law_parts_of_a_frame(s: Seq<u8>, line: Seq<u8>)
    ensures
        0 <= newline_at(s) <= s.len(),
        newline_at(s) < s.len() ==> s[newline_at(s)] == 10 && frame_share(s) == newline_at(s) + 1,
        newline_at(s) == s.len() ==> frame_share(s) == s.len(),
        forall|i: int| 0 <= i < newline_at(s) ==> #[trigger] s[i] != 10,
        without_cr(line.push(13)) == line,
        line.len() == 0 || line.last() != 13 ==> without_cr(line) == line,
{
    lemma_newline_at(s);
    assert(line.push(13).drop_last() =~= line);
}

} // verus!
