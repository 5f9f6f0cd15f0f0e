use vstd::prelude::*;
use crate::json::JsonModel;
use crate::message::{
    DecodeError, DecodeErrorModel, Message, MessageModel, json_message, message_json,
};
use crate::wire::{parse_json, parsed_text, render_json, rendered_text};

verus! {

/// The byte that ends a frame.
pub const LINE_FEED: u8 = 10;

/// What one line of the stream gave.
#[derive(Debug, PartialEq)]
pub enum Frame {
    /// An empty line, which keeps a connection alive and says nothing.
    Skip,
    /// A message.
    Message(Message),
    /// A line that is no message. The stream goes on with the next line.
    Broken(DecodeError),
}

/// The mathematical model of a frame.
pub enum FrameModel {
    Skip,
    Message(MessageModel),
    Broken(DecodeErrorModel),
}

impl View for Frame {
    type V = FrameModel;

    open spec fn view(&self) -> FrameModel {
        match self {
            Frame::Skip => FrameModel::Skip,
            Frame::Message(message) => FrameModel::Message(message@),
            Frame::Broken(error) => FrameModel::Broken(error@),
        }
    }
}

/// What a line gives: nothing where it is empty, the message that its JSON
/// stands for, or the reason why it is none.
pub open spec fn line_frame(line: Seq<u8>, strict_version: bool) -> FrameModel {
    if line.len() == 0 {
        FrameModel::Skip
    } else {
        decoded_frame(parsed_text(line), strict_version)
    }
}

/// What a line that is not empty gives, once its text was read as JSON.
pub open spec fn decoded_frame(parsed: Result<JsonModel, Seq<char>>, strict_version: bool) -> FrameModel {
    match parsed {
        Err(why) => FrameModel::Broken(DecodeErrorModel::Syntax(why)),
        Ok(json) => match json_message(json, strict_version) {
            Some(message) => FrameModel::Message(message),
            None => FrameModel::Broken(DecodeErrorModel::Envelope),
        },
    }
}

/// Where the first line feed at or after `from` stands, or the length of
/// `bytes` where there is none.
pub open spec fn line_end(bytes: Seq<u8>, from: int) -> int
    decreases bytes.len() - from,
{
    if from < 0 || from >= bytes.len() {
        bytes.len() as int
    } else if bytes[from] == LINE_FEED {
        from
    } else {
        line_end(bytes, from + 1)
    }
}

/// The frames of the complete lines of `bytes`, in order.
pub open spec fn frames(bytes: Seq<u8>, strict_version: bool) -> Seq<FrameModel>
    decreases bytes.len(),
{
    let end = line_end(bytes, 0);
    if 0 <= end < bytes.len() {
        seq![line_frame(bytes.subrange(0, end), strict_version)] + frames(
            bytes.subrange(end + 1, bytes.len() as int),
            strict_version,
        )
    } else {
        Seq::empty()
    }
}

/// What follows the last complete line of `bytes`: the start of a line that
/// has not ended yet.
pub open spec fn tail(bytes: Seq<u8>) -> Seq<u8>
    decreases bytes.len(),
{
    let end = line_end(bytes, 0);
    if 0 <= end < bytes.len() {
        tail(bytes.subrange(end + 1, bytes.len() as int))
    } else {
        bytes
    }
}

/// The models of a sequence of frames, in order.
pub open spec fn frame_models(items: Seq<Frame>) -> Seq<FrameModel> {
    Seq::new(items.len(), |i: int| items[i]@)
}

/// What is left of `bytes` once its first complete line is dropped; all of
/// it where it holds no complete line.
pub open spec fn drop_line(bytes: Seq<u8>) -> Seq<u8> {
    let end = line_end(bytes, 0);
    if 0 <= end < bytes.len() {
        bytes.subrange(end + 1, bytes.len() as int)
    } else {
        bytes
    }
}

/// What is left of `bytes` once its first `count` complete lines are
/// dropped.
pub open spec fn drop_lines(bytes: Seq<u8>, count: int) -> Seq<u8>
    decreases count,
{
    if count <= 0 {
        bytes
    } else {
        drop_line(drop_lines(bytes, count - 1))
    }
}

/// A decoder and encoder for a stream in which each line is one frame.
///
/// It keeps the bytes of a line that has not ended yet, and hands out the
/// frames of the lines that have. A tolerant codec hands a line that is no
/// message out as a broken frame and goes on; a strict one gives the stream
/// up at such a line.
pub struct LineCodec {
    buffer: Vec<u8>,
    tolerant: bool,
    strict_version: bool,
}

/// The mathematical model of a line codec.
pub struct LineCodecModel {
    /// The bytes that were fed and not yet handed out as frames.
    pub buffer: Seq<u8>,
    /// Whether a line that is no message is handed out as a broken frame.
    pub tolerant: bool,
    /// Whether a message must name the version of the protocol.
    pub strict_version: bool,
}

impl View for LineCodec {
    type V = LineCodecModel;

    closed spec fn view(&self) -> LineCodecModel {
        LineCodecModel {
            buffer: self.buffer@,
            tolerant: self.tolerant,
            strict_version: self.strict_version,
        }
    }
}

/// What the next frame of a codec is, where its buffer holds a complete
/// line: the frame of the line, or for a strict codec the error of a line
/// that is no message.
pub open spec fn next_outcome(codec: LineCodecModel) -> Result<FrameModel, DecodeErrorModel> {
    let frame = line_frame(codec.buffer.subrange(0, line_end(codec.buffer, 0)), codec.strict_version);
    match frame {
        FrameModel::Broken(error) => if codec.tolerant {
            Ok(frame)
        } else {
            Err(error)
        },
        _ => Ok(frame),
    }
}

fn find_line_feed(bytes: &Vec<u8>) -> (end: usize)
    ensures
        end == line_end(bytes@, 0),
        end <= bytes.len(),
{
    let mut i: usize = 0;
    while i < bytes.len()
        invariant
            i <= bytes.len(),
            line_end(bytes@, 0) == line_end(bytes@, i as int),
        decreases bytes.len() - i,
    {
        if bytes[i] == LINE_FEED {
            return i;
        }
        i += 1;
    }
    i
}

/// What one line gives. The line comes without the line feed that ends it.
pub fn decode_line(line: &Vec<u8>, strict_version: bool) -> (frame: Frame)
    ensures
        frame@ == line_frame(line@, strict_version),
{
    if line.len() == 0 {
        return Frame::Skip;
    }
    match parse_json(line) {
        Err(why) => Frame::Broken(DecodeError::Syntax(why)),
        Ok(json) => match Message::decode(&json, strict_version) {
            Ok(message) => Frame::Message(message),
            Err(error) => Frame::Broken(error),
        },
    }
}

impl LineCodec {
    /// A codec that gives the stream up at a line that is no message.
    pub fn strict() -> (codec: LineCodec)
        ensures
            codec@ == (LineCodecModel { buffer: Seq::empty(), tolerant: false, strict_version: false }),
    {
        LineCodec { buffer: Vec::new(), tolerant: false, strict_version: false }
    }

    /// A codec that hands a line that is no message out as a broken frame
    /// and goes on with the next line.
    pub fn tolerant() -> (codec: LineCodec)
        ensures
            codec@ == (LineCodecModel { buffer: Seq::empty(), tolerant: true, strict_version: false }),
    {
        LineCodec { buffer: Vec::new(), tolerant: true, strict_version: false }
    }

    /// The same codec, but one that takes no message without the version of
    /// the protocol.
    pub fn with_version_required(self) -> (codec: LineCodec)
        ensures
            codec@ == (LineCodecModel { strict_version: true, ..self@ }),
    {
        LineCodec { buffer: self.buffer, tolerant: self.tolerant, strict_version: true }
    }

    /// The number of bytes that wait for the end of their line.
    pub fn buffered(&self) -> (n: usize)
        ensures
            n == self@.buffer.len(),
    {
        self.buffer.len()
    }

    /// Takes in bytes as they arrive, in pieces of any size.
    pub fn feed(&mut self, bytes: &[u8])
        ensures
            final(self)@ == (LineCodecModel { buffer: old(self)@.buffer + bytes@, ..old(self)@ }),
    {
        let mut i: usize = 0;
        while i < bytes.len()
            invariant
                i <= bytes.len(),
                self.tolerant == old(self).tolerant,
                self.strict_version == old(self).strict_version,
                self.buffer@ == old(self).buffer@ + bytes@.subrange(0, i as int),
            decreases bytes.len() - i,
        {
            self.buffer.push(bytes[i]);
            assert(self.buffer@ =~= old(self).buffer@ + bytes@.subrange(0, i + 1));
            i += 1;
        }
        assert(bytes@.subrange(0, i as int) =~= bytes@);
    }

    /// Hands out the frame of the first complete line and drops the line.
    /// Without a complete line nothing is handed out and nothing changes. A
    /// strict codec answers a line that is no message with its error; the
    /// line is dropped all the same.
    pub fn next_frame(&mut self) -> (r: Result<Option<Frame>, DecodeError>)
        ensures
            final(self)@.tolerant == old(self)@.tolerant,
            final(self)@.strict_version == old(self)@.strict_version,
            line_end(old(self)@.buffer, 0) >= old(self)@.buffer.len() ==> r == Ok::<
                Option<Frame>,
                DecodeError,
            >(None) && final(self)@ == old(self)@,
            line_end(old(self)@.buffer, 0) < old(self)@.buffer.len() ==> {
                &&& final(self)@.buffer == old(self)@.buffer.subrange(
                    line_end(old(self)@.buffer, 0) + 1,
                    old(self)@.buffer.len() as int,
                )
                &&& match r {
                    Ok(Some(frame)) => next_outcome(old(self)@) == Ok::<FrameModel, DecodeErrorModel>(
                        frame@,
                    ),
                    Ok(None) => false,
                    Err(error) => next_outcome(old(self)@) == Err::<FrameModel, DecodeErrorModel>(
                        error@,
                    ),
                }
            },
    {
        let end = find_line_feed(&self.buffer);
        if end >= self.buffer.len() {
            return Ok(None);
        }
        let mut line = self.buffer.split_off(end + 1);
        self.buffer.truncate(end);
        std::mem::swap(&mut self.buffer, &mut line);
        assert(line@ =~= old(self).buffer@.subrange(0, end as int));
        let frame = decode_line(&line, self.strict_version);
        match frame {
            Frame::Broken(error) => if self.tolerant {
                Ok(Some(Frame::Broken(error)))
            } else {
                Err(error)
            },
            frame => Ok(Some(frame)),
        }
    }
}

/// The first line feed at or after a place stands at or after that place.
pub proof fn lemma_line_end_bounds(bytes: Seq<u8>, from: int)
    requires
        0 <= from <= bytes.len(),
    ensures
        from <= line_end(bytes, from) <= bytes.len(),
        line_end(bytes, from) < bytes.len() ==> bytes[line_end(bytes, from)] == LINE_FEED,
        forall|i: int| from <= i < line_end(bytes, from) ==> bytes[i] != LINE_FEED,
    decreases bytes.len() - from,
{
    if from < bytes.len() && bytes[from] != LINE_FEED {
        lemma_line_end_bounds(bytes, from + 1);
    }
}

/// A line feed is found in a longer text where it was found before.
proof fn lemma_line_end_of_prefix(first: Seq<u8>, second: Seq<u8>, from: int)
    requires
        0 <= from,
        line_end(first, from) < first.len(),
    ensures
        line_end(first + second, from) == line_end(first, from),
    decreases first.len() - from,
{
    if from < first.len() {
        assert((first + second)[from] == first[from]);
        if first[from] != LINE_FEED {
            lemma_line_end_of_prefix(first, second, from + 1);
        }
    }
}

/// Partial reads: bytes that arrive in two pieces give the frames that they
/// give in one piece. The frames of `first + second` are those of `first`
/// followed by those of what `first` left over with `second` behind it, and
/// the same bytes are left over in the end.
pub proof fn law_partial_reads(first: Seq<u8>, second: Seq<u8>, strict_version: bool)
    ensures
        frames(first + second, strict_version) == frames(first, strict_version) + frames(
            tail(first) + second,
            strict_version,
        ),
        tail(first + second) == tail(tail(first) + second),
    decreases first.len(),
{
    let whole = first + second;
    let end = line_end(first, 0);
    if 0 <= end < first.len() {
        lemma_line_end_of_prefix(first, second, 0);
        let rest = first.subrange(end + 1, first.len() as int);
        assert(whole.subrange(0, end) =~= first.subrange(0, end));
        assert(whole.subrange(end + 1, whole.len() as int) =~= rest + second);
        law_partial_reads(rest, second, strict_version);
        assert(frames(whole, strict_version) =~= frames(first, strict_version) + frames(
            tail(first) + second,
            strict_version,
        ));
    } else {
        assert(frames(first, strict_version) =~= Seq::<FrameModel>::empty());
        assert(frames(whole, strict_version) =~= frames(first, strict_version) + frames(
            tail(first) + second,
            strict_version,
        ));
    }
}

/// A text without a line feed, closed by one, is one line.
proof fn lemma_one_line(text: Seq<u8>, from: int)
    requires
        0 <= from <= text.len(),
        forall|i: int| 0 <= i < text.len() ==> text[i] != LINE_FEED,
    ensures
        line_end(text.push(LINE_FEED), from) == text.len(),
    decreases text.len() - from,
{
    if from < text.len() {
        assert(text.push(LINE_FEED)[from] == text[from]);
        lemma_one_line(text, from + 1);
    }
}

/// Tolerant framing: each line is framed apart from what follows it. The
/// frames of a line and what follows are the frame of the line and then the
/// frames of what follows, whatever the line holds: a line that is no
/// message does not touch the lines behind it.
pub proof fn law_lines_are_framed_apart(line: Seq<u8>, rest: Seq<u8>, strict_version: bool)
    requires
        forall|i: int| 0 <= i < line.len() ==> line[i] != LINE_FEED,
    ensures
        frames(line.push(LINE_FEED) + rest, strict_version) == seq![
            line_frame(line, strict_version),
        ] + frames(rest, strict_version),
        tail(line.push(LINE_FEED) + rest) == tail(rest),
{
    let first = line.push(LINE_FEED);
    let whole = first + rest;
    lemma_one_line(line, 0);
    lemma_line_end_of_prefix(first, rest, 0);
    assert(whole.subrange(0, line.len() as int) =~= line);
    assert(whole.subrange(line.len() as int + 1, whole.len() as int) =~= rest);
}

impl LineCodec {
    /// Hands out the frames of all complete lines, in order, and keeps what
    /// follows the last of them. A strict codec stops at the first line that
    /// is no message and answers with its error; that line and the lines
    /// before it are dropped.
    pub fn decode(&mut self) -> (r: Result<Vec<Frame>, DecodeError>)
        ensures
            final(self)@.tolerant == old(self)@.tolerant,
            final(self)@.strict_version == old(self)@.strict_version,
            old(self)@.tolerant ==> r is Ok,
            match r {
                Ok(items) => {
                    &&& frame_models(items@) == frames(old(self)@.buffer, old(self)@.strict_version)
                    &&& final(self)@.buffer == tail(old(self)@.buffer)
                    &&& !old(self)@.tolerant ==> forall|k: int|
                        0 <= k < items.len() ==> !(#[trigger] items@[k]@ is Broken)
                },
                Err(error) => exists|at: int|
                    {
                        &&& 0 <= at < frames(old(self)@.buffer, old(self)@.strict_version).len()
                        &&& #[trigger] frames(old(self)@.buffer, old(self)@.strict_version)[at]
                            == FrameModel::Broken(error@)
                        &&& forall|k: int|
                            0 <= k < at ==> !(#[trigger] frames(
                                old(self)@.buffer,
                                old(self)@.strict_version,
                            )[k] is Broken)
                        &&& final(self)@.buffer == drop_lines(old(self)@.buffer, at + 1)
                    },
            },
    {
        let ghost start = self@.buffer;
        let ghost all = frames(start, self@.strict_version);
        let mut items: Vec<Frame> = Vec::new();
        assert(frame_models(items@) + frames(self@.buffer, self@.strict_version) =~= all);
        loop
            invariant
                self@.tolerant == old(self)@.tolerant,
                self@.strict_version == old(self)@.strict_version,
                start == old(self)@.buffer,
                all == frames(start, self@.strict_version),
                all == frame_models(items@) + frames(self@.buffer, self@.strict_version),
                tail(start) == tail(self@.buffer),
                self@.buffer == drop_lines(start, items.len() as int),
                !self@.tolerant ==> forall|k: int| 0 <= k < items.len() ==> !(#[trigger] items@[k]@ is Broken),
            decreases self@.buffer.len(),
        {
            let ghost before = self@;
            let ghost found = frame_models(items@);
            match self.next_frame() {
                Ok(None) => {
                    assert(frames(before.buffer, before.strict_version) =~= Seq::<FrameModel>::empty());
                    assert(found + Seq::<FrameModel>::empty() =~= found);
                    return Ok(items);
                },
                Ok(Some(frame)) => {
                    let ghost first = frame@;
                    items.push(frame);
                    proof {
                        lemma_line_end_bounds(before.buffer, 0);
                        let end = line_end(before.buffer, 0);
                        let line = before.buffer.subrange(0, end);
                        assert(first == line_frame(line, before.strict_version));
                        assert(frames(before.buffer, before.strict_version) == seq![first] + frames(
                            self@.buffer,
                            before.strict_version,
                        ));
                        assert(frame_models(items@) =~= found.push(first));
                        assert(found.push(first) + frames(self@.buffer, self@.strict_version) =~= found
                            + frames(before.buffer, before.strict_version));
                        assert(self@.buffer == drop_line(before.buffer));
                    }
                },
                Err(error) => {
                    proof {
                        let at = items.len() as int;
                        lemma_line_end_bounds(before.buffer, 0);
                        let end = line_end(before.buffer, 0);
                        let line = before.buffer.subrange(0, end);
                        assert(line_frame(line, before.strict_version) == FrameModel::Broken(error@));
                        assert(frames(before.buffer, before.strict_version) == seq![
                            line_frame(line, before.strict_version),
                        ] + frames(self@.buffer, before.strict_version));
                        assert(all[at] == frames(before.buffer, before.strict_version)[0]);
                        assert(all[at] == FrameModel::Broken(error@));
                        assert forall|k: int| 0 <= k < at implies !(#[trigger] all[k] is Broken) by {
                            assert(all[k] == items@[k]@);
                        }
                        assert(self@.buffer == drop_line(before.buffer));
                        assert(self@.buffer == drop_lines(start, at + 1));
                    }
                    return Err(error);
                },
            }
        }
    }

    /// The frame of a message: its compact JSON text on one line, closed by
    /// a line feed. The text itself holds no line feed.
    pub fn encode(message: &Message) -> (bytes: Vec<u8>)
        ensures
            bytes@ == rendered_text(message_json(message@)).push(LINE_FEED),
            line_end(bytes@, 0) == bytes@.len() - 1,
    {
        let json = message.encode();
        let mut bytes = render_json(&json);
        proof {
            lemma_one_line(bytes@, 0);
        }
        bytes.push(LINE_FEED);
        bytes
    }
}

} // verus!
