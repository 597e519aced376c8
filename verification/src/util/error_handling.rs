//! Error values shared by every reader of the crate.

use crate::util::text::append_decimal;
use crate::util::text::decimal_text;
use std::fmt::Debug;
use vstd::prelude::*;
use vstd::string::*;

verus! {

/// Why a read from a byte cursor failed.
#[derive(Clone, Copy, Debug, PartialEq, Eq, Structural)]
pub enum ReadError {
    /// Fewer bytes were left than the value needs.
    EndOfData,
    /// The type byte found does not introduce a value of the kind asked for.
    UnexpectedType(u8),
    /// The value on the wire does not fit the domain asked for.
    OutOfRange,
    /// The bytes of a string are not UTF-8.
    InvalidUtf8,
    /// The packet does not begin with the id that was asked for.
    WrongPacketId,
    /// An array or a map does not have the number of entries that the packet has.
    WrongElementAmount,
    /// A map does not have the key that the packet has at this place.
    WrongKey,
    /// A value is not one that the packet admits at this place.
    WrongValue,
    /// Bytes are left behind a value that has to end the data.
    TrailingBytes,
}

/// Why a value of a SUCC tree could not be taken.
#[derive(Clone, Copy, Debug, PartialEq, Eq, Structural)]
pub enum SuccError {
    /// The node is not of the kind asked for.
    WrongKind,
    /// The text of the node does not spell a value of the type asked for.
    WrongValue,
    /// The tree lacks an entry that is needed.
    MissingEntry,
    /// The file is not UTF-8.
    InvalidUtf8,
    /// A line cannot be read: a key that begins with a colon, holds a `#`
    /// or has no colon behind it.
    CorruptedLine,
    /// A line is indented in a way that fits no parent, or a line with
    /// children has a value.
    WrongIndentation,
    /// Entries of a list and of a map stand under one parent, or an entry
    /// of a list stands at the root.
    MixedEntries,
}

/// Why a payload that has the shape of a compressed one could not be unpacked.
#[derive(Clone, Copy, Debug, PartialEq, Eq, Structural)]
pub enum DecompressError {
    /// A value of the payload could not be read.
    Read(ReadError),
    /// The list of sizes does not end with the last size.
    TrailingSizes,
    /// A chunk declares more bytes than a block can hold.
    ChunkTooLarge,
    /// A block is no LZ4 block, or does not unpack to the declared size.
    Malformed,
}

/// Why a save file could not be read as a world.
#[derive(Clone, Copy, Debug, PartialEq, Eq, Structural)]
pub enum WorldFileError {
    /// The file is too short for header, version and footer.
    TooSmall,
    /// The file does not begin with `Logic World save`.
    WrongHeader,
    /// The file does not end with `redstone sux lol`.
    WrongFooter,
    /// The version of the format is below 5.
    TooOld(u8),
    /// The version of the format is above 6.
    TooNew(u8),
    /// The file is too short for the save information.
    MissingSaveInformation,
    /// The save is of another type than world.
    WrongSaveType(u8),
    /// A value could not be read.
    Read(ReadError),
    /// An integer that has to be a count or an index is negative.
    NegativeNumber,
    /// There are more than 65534 component types.
    TooManyComponentTypes,
    /// A component has a type id that the file does not declare.
    UnknownComponentType(u16),
    /// The length of the custom data of a component is below -1.
    WrongCustomDataLength,
    /// A byte that has to be 0 or 1 is neither.
    WrongBool(u8),
    /// The file ends within a wire.
    IncompleteWire,
    /// Behind the circuit states stands something else than the footer.
    LeftoverBytes,
}

/// Where in the source something happened: file, line, column.
pub type MetaInformation = (&'static str, u32, u32);

/// One step on the way of an error: where it passed, and what was being done there.
pub struct StackFrame {
    pub file_location: &'static str,
    pub file_line: u32,
    pub file_column: u32,
    pub message: Option<String>,
}

/// An error with the way that it took: the first frame is where it arose.
pub struct Stacktrace {
    pub message: Option<String>,
    pub frames: Vec<StackFrame>,
}

pub type EhResult<T> = Result<T, Stacktrace>;

/// A frame as a value.
pub struct FrameData {
    pub file_location: Seq<char>,
    pub file_line: u32,
    pub file_column: u32,
    pub message: Option<Seq<char>>,
}

/// A stacktrace as a value.
pub struct StacktraceData {
    pub message: Option<Seq<char>>,
    pub frames: Seq<FrameData>,
}

impl View for StackFrame {
    type V = FrameData;

    open spec fn view(&self) -> FrameData {
        FrameData {
            file_location: self.file_location@,
            file_line: self.file_line,
            file_column: self.file_column,
            message: match self.message {
                Some(message) => Some(message@),
                None => None,
            },
        }
    }
}

/// The values of a list of frames.
pub open spec fn frames_of(list: Seq<StackFrame>) -> Seq<FrameData> {
    Seq::new(list.len(), |i: int| list[i]@)
}

impl View for Stacktrace {
    type V = StacktraceData;

    open spec fn view(&self) -> StacktraceData {
        StacktraceData {
            message: match self.message {
                Some(message) => Some(message@),
                None => None,
            },
            frames: frames_of(self.frames@),
        }
    }
}

/// The frame that a place and a message make.
pub open spec fn frame_at(meta: MetaInformation, message: Option<String>) -> FrameData {
    FrameData {
        file_location: meta.0@,
        file_line: meta.1,
        file_column: meta.2,
        message: match message {
            Some(message) => Some(message@),
            None => None,
        },
    }
}

/// The text of a frame behind its marker: the message, or `---` where there
/// is none, then ` @ `, the file, ` | `, the line, `:`, the column.
pub open spec fn frame_text(frame: FrameData) -> Seq<char> {
    (match frame.message {
        Some(message) => message,
        None => "---"@,
    }) + " @ "@ + frame.file_location + " | "@ + decimal_text(frame.file_line as nat) + ":"@
        + decimal_text(frame.file_column as nat)
}

/// The lines of the frames from the number `from` on, each behind a line
/// break and `-> `.
pub open spec fn frames_text(frames: Seq<FrameData>, from: int) -> Seq<char>
    decreases frames.len() - from,
{
    if from < 0 || from >= frames.len() {
        Seq::empty()
    } else {
        "\n-> "@ + frame_text(frames[from]) + frames_text(frames, from + 1)
    }
}

impl StacktraceData {
    /// The text of the stacktrace: `Error: ` and the message, or, where
    /// there is none, the first frame, and then a line for each frame that
    /// is left.
    pub open spec fn text(self) -> Seq<char> {
        match self.message {
            Some(message) => "Error: "@ + message + frames_text(self.frames, 0),
            None => "Error: "@ + frame_text(self.frames[0]) + frames_text(self.frames, 1),
        }
    }
}

fn append_frame(text: &mut String, frame: &StackFrame)
    ensures
        final(text)@ == old(text)@ + frame_text(frame@),
{
    match &frame.message {
        Some(message) => text.append(message.as_str()),
        None => text.append("---"),
    }
    text.append(" @ ");
    text.append(frame.file_location);
    text.append(" | ");
    append_decimal(text, frame.file_line);
    text.append(":");
    append_decimal(text, frame.file_column);
    assert(text@ =~= old(text)@ + frame_text(frame@));
}

impl Stacktrace {
    /// A stacktrace that arises at a place, with what was being done there.
    pub fn new(meta: MetaInformation, message: Option<String>) -> (trace: Stacktrace)
        ensures
            trace@ == (StacktraceData { message: None, frames: seq![frame_at(meta, message)] }),
    {
        let mut frames: Vec<StackFrame> = Vec::new();
        frames.push(
            StackFrame { file_location: meta.0, file_line: meta.1, file_column: meta.2, message },
        );
        let trace = Stacktrace { message: None, frames };
        assert(trace@.frames =~= seq![frame_at(meta, message)]);
        trace
    }

    /// The stacktrace as a text of several lines, without colours.
    pub fn render(&self) -> (text: String)
        requires
            self@.message is None ==> self@.frames.len() > 0,
        ensures
            text@ == self@.text(),
    {
        let mut text = "Error: ".to_owned();
        let mut index: usize = 0;
        match &self.message {
            Some(message) => text.append(message.as_str()),
            None => {
                assert(self@.frames[0] == self.frames@[0]@);
                append_frame(&mut text, &self.frames[0]);
                index = 1;
            },
        }
        let ghost head = text@;
        let ghost from = index as int;
        assert(frames_text(self@.frames, self@.frames.len() as int) =~= Seq::empty());
        while index < self.frames.len()
            invariant
                from <= index <= self.frames@.len(),
                text@ + frames_text(self@.frames, index as int) == head + frames_text(
                    self@.frames,
                    from,
                ),
            decreases self.frames@.len() - index,
        {
            let ghost before = text@;
            text.append("\n-> ");
            assert(self@.frames[index as int] == self.frames@[index as int]@);
            append_frame(&mut text, &self.frames[index]);
            proof {
                let line = "\n-> "@ + frame_text(self@.frames[index as int]);
                assert(text@ =~= before + line);
                assert(before + frames_text(self@.frames, index as int) =~= (before + line)
                    + frames_text(self@.frames, index + 1));
            }
            index += 1;
        }
        assert(text@ + Seq::<char>::empty() =~= text@);
        text
    }
}

/// Adds to an error the place that it passes.
pub trait ResultExceptionDetailsExt<T>: Sized {
    fn while_doing(self, meta: MetaInformation, message: Option<String>) -> EhResult<T>;
}

impl<T> ResultExceptionDetailsExt<T> for EhResult<T> {
    fn while_doing(self, meta: MetaInformation, message: Option<String>) -> (r: EhResult<T>)
        ensures
            match self {
                Ok(value) => r is Ok && r->Ok_0 == value,
                Err(trace) => r is Err && r->Err_0@ == (StacktraceData {
                    message: trace@.message,
                    frames: trace@.frames.push(frame_at(meta, message)),
                }),
            },
    {
        match self {
            Ok(val) => Ok(val),
            Err(err) => {
                let mut err = err;
                let ghost before = err@;
                err.frames.push(
                    StackFrame {
                        file_location: meta.0,
                        file_line: meta.1,
                        file_column: meta.2,
                        message,
                    },
                );
                assert(err@.frames =~= before.frames.push(frame_at(meta, message)));
                Err(err)
            },
        }
    }
}

/// Makes of a missing value an error that arises at a place.
pub trait ExceptionWrappingOption<T>: Sized {
    fn map_ex(self, c: (MetaInformation, Option<String>)) -> EhResult<T>;
}

impl<T> ExceptionWrappingOption<T> for Option<T> {
    fn map_ex(self, context: (MetaInformation, Option<String>)) -> (r: EhResult<T>)
        ensures
            match self {
                Some(value) => r is Ok && r->Ok_0 == value,
                None => r is Err && r->Err_0@ == (StacktraceData {
                    message: None,
                    frames: seq![frame_at(context.0, context.1)],
                }),
            },
    {
        match self {
            Some(value) => Ok(value),
            None => Err(Stacktrace::new(context.0, context.1)),
        }
    }
}

/// `format!` of std with the `Debug` form of a value. What the text holds
/// is up to the type of the value, so nothing is said of it.
#[verifier::external_body]
fn debug_text<E: Debug>(error: &E) -> (text: String) {
    format!("{:?}", error)
}

/// Makes of an error of another kind one that arises at a place, with the
/// `Debug` form of that error as its message.
pub trait ExceptionWrappingResult<T, E: Debug>: Sized {
    fn map_ex(self, c: (MetaInformation, Option<String>)) -> EhResult<T>;
}

impl<T, E: Debug> ExceptionWrappingResult<T, E> for Result<T, E> {
    fn map_ex(self, context: (MetaInformation, Option<String>)) -> (r: EhResult<T>)
        ensures
            match self {
                Ok(value) => r is Ok && r->Ok_0 == value,
                Err(_) => r is Err && r->Err_0@.message is Some && r->Err_0@.frames
                    == seq![frame_at(context.0, context.1)],
            },
    {
        match self {
            Ok(value) => Ok(value),
            Err(error) => {
                let mut trace = Stacktrace::new(context.0, context.1);
                trace.message = Some(debug_text(&error));
                Err(trace)
            },
        }
    }
}

/// Adds to an error the place that it passes.
pub trait ExceptionHandling<T>: Sized {
    fn wrap(self, c: (MetaInformation, Option<String>)) -> Self;
}

impl<T> ExceptionHandling<T> for EhResult<T> {
    fn wrap(self, context: (MetaInformation, Option<String>)) -> (r: Self)
        ensures
            match self {
                Ok(value) => r is Ok && r->Ok_0 == value,
                Err(trace) => r is Err && r->Err_0@ == (StacktraceData {
                    message: trace@.message,
                    frames: trace@.frames.push(frame_at(context.0, context.1)),
                }),
            },
    {
        self.while_doing(context.0, context.1)
    }
}

} // verus!
