//! Reads a SUCC file: lines with a key and a colon, or with a dash, whose
//! indentation tells which line they belong to.

use crate::util::error_handling::SuccError;
use crate::util::succ::succ_types::{entry_trees, list_trees, SuccTree, SuccType};
use crate::util::text::string_from_utf8;
use vstd::prelude::*;
use vstd::slice::{slice_subrange, slice_to_vec};
use vstd::utf8::{decode_utf8, encode_utf8, encode_utf8_decode_utf8, valid_utf8};

verus! {

pub const SPACE: u8 = 0x20;

pub const HASH: u8 = 0x23;

pub const COLON: u8 = 0x3A;

pub const DASH: u8 = 0x2D;

pub const BACKSLASH: u8 = 0x5C;

pub const LINE_FEED: u8 = 0x0A;

pub const CARRIAGE_RETURN: u8 = 0x0D;

/// What the reader of a line is reading.
#[derive(Clone, Copy, Debug, PartialEq, Eq, Structural)]
pub enum Stage {
    /// The spaces at the start of the line.
    Indentation,
    Key,
    /// The spaces between the colon or the dash and the value.
    BeforeValue,
    Value,
}

/// What the reader of a line has read.
pub struct LineScan {
    pub stage: Stage,
    /// Whether the last character was a backslash that may escape the next.
    pub is_escaping: bool,
    /// The spaces that were read and belong to the key or the value only
    /// if another character follows.
    pub spaces: nat,
    pub key: Seq<u8>,
    pub value: Seq<u8>,
    pub indentation: nat,
}

/// What one character does to the reader of a line.
pub enum Scanned {
    /// The reader goes on.
    Goes(LineScan),
    /// The line is a comment.
    Comment,
    /// The rest of the line is a comment.
    Ends(LineScan),
    /// The line is corrupted.
    Fails,
}

/// `count` spaces.
pub open spec fn spaces(count: nat) -> Seq<u8> {
    Seq::new(count, |i: int| SPACE)
}

impl LineScan {
    pub open spec fn initial() -> LineScan {
        LineScan {
            stage: Stage::Indentation,
            is_escaping: false,
            spaces: 0,
            key: Seq::empty(),
            value: Seq::empty(),
            indentation: 0,
        }
    }

    /// A character of the key.
    pub open spec fn scan_key(self, c: u8) -> Scanned {
        if c == COLON {
            Scanned::Goes(LineScan { spaces: 0, stage: Stage::BeforeValue, ..self })
        } else if c == HASH {
            Scanned::Fails
        } else if c == SPACE {
            Scanned::Goes(LineScan { spaces: self.spaces + 1, ..self })
        } else {
            Scanned::Goes(
                LineScan { key: (self.key + spaces(self.spaces)).push(c), spaces: 0, ..self },
            )
        }
    }

    /// A character of the value. A backslash before a `#` makes the `#`
    /// part of the value; before anything else it stands for itself.
    pub open spec fn scan_value(self, c: u8) -> Scanned {
        if c == SPACE {
            Scanned::Goes(
                LineScan {
                    value: if self.is_escaping {
                        self.value.push(BACKSLASH)
                    } else {
                        self.value
                    },
                    is_escaping: false,
                    spaces: self.spaces + 1,
                    ..self
                },
            )
        } else if c == BACKSLASH {
            if self.is_escaping {
                Scanned::Goes(LineScan { value: self.value.push(BACKSLASH), ..self })
            } else {
                Scanned::Goes(
                    LineScan {
                        value: self.value + spaces(self.spaces),
                        spaces: 0,
                        is_escaping: true,
                        ..self
                    },
                )
            }
        } else if c == HASH {
            if self.is_escaping {
                Scanned::Goes(
                    LineScan { value: self.value.push(HASH), is_escaping: false, ..self },
                )
            } else {
                Scanned::Ends(self)
            }
        } else {
            Scanned::Goes(
                LineScan {
                    value: ((if self.is_escaping {
                        self.value.push(BACKSLASH)
                    } else {
                        self.value
                    }) + spaces(self.spaces)).push(c),
                    is_escaping: false,
                    spaces: 0,
                    ..self
                },
            )
        }
    }

    /// One character.
    pub open spec fn scan(self, c: u8) -> Scanned {
        match self.stage {
            Stage::Indentation => if c == SPACE {
                Scanned::Goes(LineScan { indentation: self.indentation + 1, ..self })
            } else if c == HASH {
                Scanned::Comment
            } else if c == COLON {
                Scanned::Fails
            } else if c == DASH {
                Scanned::Goes(LineScan { stage: Stage::BeforeValue, ..self })
            } else {
                (LineScan { stage: Stage::Key, ..self }).scan_key(c)
            },
            Stage::Key => self.scan_key(c),
            Stage::BeforeValue => if c == SPACE {
                Scanned::Goes(self)
            } else if c == HASH {
                Scanned::Ends(self)
            } else {
                (LineScan { stage: Stage::Value, ..self }).scan_value(c)
            },
            Stage::Value => self.scan_value(c),
        }
    }

    /// The characters of the line from the number `from` on.
    pub open spec fn scan_from(self, line: Seq<u8>, from: int) -> Scanned
        decreases line.len() - from,
    {
        if from < 0 || from >= line.len() {
            Scanned::Ends(self)
        } else {
            match self.scan(line[from]) {
                Scanned::Goes(next) => next.scan_from(line, from + 1),
                other => other,
            }
        }
    }

    /// The value, with the backslash that ends the line.
    pub open spec fn finished_value(self) -> Seq<u8> {
        if self.stage == Stage::Value && self.is_escaping {
            self.value.push(BACKSLASH)
        } else {
            self.value
        }
    }
}

/// What a line says: its indentation, its key unless it is an entry of a
/// list, and its value unless it has children.
pub struct LineMeta {
    pub indentation: usize,
    pub key: Option<String>,
    pub value: Option<String>,
}

/// What a line says, as a value.
pub struct LineData {
    pub indentation: nat,
    pub key: Option<Seq<char>>,
    pub value: Option<Seq<char>>,
}

impl View for LineMeta {
    type V = LineData;

    open spec fn view(&self) -> LineData {
        LineData {
            indentation: self.indentation as nat,
            key: match self.key {
                Some(key) => Some(key@),
                None => None,
            },
            value: match self.value {
                Some(value) => Some(value@),
                None => None,
            },
        }
    }
}

impl LineData {
    pub open spec fn is_list(self) -> bool {
        self.key is None
    }

    pub open spec fn is_parent(self) -> bool {
        self.value is None
    }
}

/// The text that bytes spell, unless there are none.
pub open spec fn spec_text(bytes: Seq<u8>) -> Result<Option<Seq<char>>, SuccError> {
    if bytes.len() == 0 {
        Ok(None)
    } else if valid_utf8(bytes) {
        Ok(Some(decode_utf8(bytes)))
    } else {
        Err(SuccError::InvalidUtf8)
    }
}

/// What a line says. An empty line and a comment say nothing.
pub open spec fn spec_parse_line(line: Seq<u8>) -> Result<Option<LineData>, SuccError> {
    match LineScan::initial().scan_from(line, 0) {
        Scanned::Comment => Ok(None),
        Scanned::Fails => Err(SuccError::CorruptedLine),
        Scanned::Goes(_) => Ok(None),
        Scanned::Ends(scan) => if scan.stage == Stage::Indentation {
            Ok(None)
        } else if scan.stage == Stage::Key {
            Err(SuccError::CorruptedLine)
        } else {
            match spec_text(scan.key) {
                Ok(key) => match spec_text(scan.finished_value()) {
                    Ok(value) => Ok(Some(LineData { indentation: scan.indentation, key, value })),
                    Err(e) => Err(e),
                },
                Err(e) => Err(e),
            }
        },
    }
}

fn push_spaces(buffer: &mut Vec<u8>, count: usize)
    ensures
        final(buffer)@ == old(buffer)@ + spaces(count as nat),
{
    let mut i: usize = 0;
    assert(buffer@ =~= old(buffer)@ + spaces(0));
    while i < count
        invariant
            i <= count,
            buffer@ == old(buffer)@ + spaces(i as nat),
        decreases count - i,
    {
        buffer.push(SPACE);
        i += 1;
        assert(buffer@ =~= old(buffer)@ + spaces(i as nat));
    }
}

fn text_of(bytes: Vec<u8>) -> (r: Result<Option<String>, SuccError>)
    ensures
        match spec_text(bytes@) {
            Ok(Some(text)) => r is Ok && r->Ok_0 is Some && r->Ok_0->Some_0@ == text,
            Ok(None) => r is Ok && r->Ok_0 is None,
            Err(e) => r is Err && r->Err_0 == e,
        },
{
    if bytes.len() == 0 {
        return Ok(None);
    }
    match string_from_utf8(bytes) {
        Some(text) => {
            proof {
                encode_utf8_decode_utf8(text@);
            }
            Ok(Some(text))
        },
        None => Err(SuccError::InvalidUtf8),
    }
}

/// Reads what a line says.
pub fn parse_line(line: &[u8]) -> (r: Result<Option<LineMeta>, SuccError>)
    ensures
        match spec_parse_line(line@) {
            Ok(Some(data)) => r is Ok && r->Ok_0 is Some && r->Ok_0->Some_0@ == data,
            Ok(None) => r is Ok && r->Ok_0 is None,
            Err(e) => r is Err && r->Err_0 == e,
        },
{
    let mut stage = Stage::Indentation;
    let mut is_escaping = false;
    let mut trim_hack: usize = 0;
    let mut key_builder: Vec<u8> = Vec::new();
    let mut value_builder: Vec<u8> = Vec::new();
    let mut indentation: usize = 0;
    let mut i: usize = 0;
    while i < line.len()
        invariant_except_break
            (LineScan {
                stage,
                is_escaping,
                spaces: trim_hack as nat,
                key: key_builder@,
                value: value_builder@,
                indentation: indentation as nat,
            }).scan_from(line@, i as int) == LineScan::initial().scan_from(line@, 0),
        invariant
            i <= line@.len(),
            indentation <= i,
            trim_hack <= i,
        ensures
            indentation <= line@.len(),
            LineScan::initial().scan_from(line@, 0) == Scanned::Ends(
                LineScan {
                    stage,
                    is_escaping,
                    spaces: trim_hack as nat,
                    key: key_builder@,
                    value: value_builder@,
                    indentation: indentation as nat,
                },
            ),
        decreases line@.len() - i,
    {
        let c = line[i];
        let ghost before = LineScan {
            stage,
            is_escaping,
            spaces: trim_hack as nat,
            key: key_builder@,
            value: value_builder@,
            indentation: indentation as nat,
        };
        i += 1;
        if let Stage::Indentation = stage {
            if c == SPACE {
                indentation += 1;
                continue ;
            } else if c == HASH {
                return Ok(None);
            } else if c == COLON {
                return Err(SuccError::CorruptedLine);
            } else if c == DASH {
                stage = Stage::BeforeValue;
                continue ;
            } else {
                stage = Stage::Key;
            }
        }
        if let Stage::Key = stage {
            if c == COLON {
                trim_hack = 0;
                stage = Stage::BeforeValue;
            } else if c == HASH {
                return Err(SuccError::CorruptedLine);
            } else if c == SPACE {
                trim_hack += 1;
            } else {
                push_spaces(&mut key_builder, trim_hack);
                trim_hack = 0;
                key_builder.push(c);
            }
            continue ;
        }
        if let Stage::BeforeValue = stage {
            if c == SPACE {
                continue ;
            } else if c == HASH {
                break ;
            } else {
                stage = Stage::Value;
            }
        }
        if c == SPACE {
            if is_escaping {
                value_builder.push(BACKSLASH);
                is_escaping = false;
            }
            trim_hack += 1;
        } else if c == BACKSLASH {
            if is_escaping {
                value_builder.push(BACKSLASH);
            } else {
                push_spaces(&mut value_builder, trim_hack);
                trim_hack = 0;
                is_escaping = true;
            }
        } else if c == HASH {
            if is_escaping {
                value_builder.push(HASH);
                is_escaping = false;
            } else {
                break ;
            }
        } else {
            if is_escaping {
                value_builder.push(BACKSLASH);
                is_escaping = false;
            }
            push_spaces(&mut value_builder, trim_hack);
            trim_hack = 0;
            value_builder.push(c);
        }
    }
    if let Stage::Indentation = stage {
        return Ok(None);
    }
    if let Stage::Key = stage {
        return Err(SuccError::CorruptedLine);
    }
    if let Stage::Value = stage {
        if is_escaping {
            value_builder.push(BACKSLASH);
        }
    }
    let key = text_of(key_builder)?;
    let value = text_of(value_builder)?;
    Ok(Some(LineMeta { indentation, key, value }))
}

/// What is known of the children of a line.
#[derive(Clone, Copy, Debug, PartialEq, Eq, Structural)]
pub enum NodeKind {
    /// The line has no value and, so far, no children.
    Any,
    /// The line has a value.
    Value,
    /// The children of the line have keys.
    Mapping,
    /// The children of the line are entries of a list.
    List,
}

/// A line whose children are being read.
pub struct OpenData {
    pub indentation: nat,
    pub key: Option<Seq<char>>,
    pub value: Option<Seq<char>>,
    pub kind: NodeKind,
    /// The indentation of the children.
    pub child_indentation: nat,
    /// The children that are read, each with its key if it has one.
    pub children: Seq<(Option<Seq<char>>, SuccTree)>,
}

/// The text, or the empty text where there is none.
pub open spec fn text_or_empty(text: Option<Seq<char>>) -> Seq<char> {
    match text {
        Some(text) => text,
        None => Seq::empty(),
    }
}

/// The children as entries of a map.
pub open spec fn keyed(children: Seq<(Option<Seq<char>>, SuccTree)>) -> Seq<
    (Seq<char>, SuccTree),
> {
    Seq::new(children.len(), |i: int| (text_or_empty(children[i].0), children[i].1))
}

/// The children as entries of a list.
pub open spec fn unkeyed(children: Seq<(Option<Seq<char>>, SuccTree)>) -> Seq<SuccTree> {
    Seq::new(children.len(), |i: int| children[i].1)
}

impl LineData {
    /// The kind of the children of the parent of this line.
    pub open spec fn kind_in_parent(self) -> NodeKind {
        if self.is_list() {
            NodeKind::List
        } else {
            NodeKind::Mapping
        }
    }
}

impl OpenData {
    /// The line, with no children yet.
    pub open spec fn opened(line: LineData) -> OpenData {
        OpenData {
            indentation: line.indentation,
            key: line.key,
            value: line.value,
            kind: if line.is_parent() {
                NodeKind::Any
            } else {
                NodeKind::Value
            },
            child_indentation: 0,
            children: Seq::empty(),
        }
    }

    /// The tree of the line and its children.
    pub open spec fn closed(self) -> SuccTree {
        match self.kind {
            NodeKind::Any => SuccTree::Any,
            NodeKind::Value => SuccTree::Value(text_or_empty(self.value)),
            NodeKind::Mapping => SuccTree::Mapping(keyed(self.children)),
            NodeKind::List => SuccTree::List(unkeyed(self.children)),
        }
    }
}

/// What the reader of a file has read: the entries of the root that are
/// complete, and the lines from the root down to the last line, whose
/// children may follow.
pub struct BuilderData {
    pub roots: Seq<(Seq<char>, SuccTree)>,
    pub stack: Seq<OpenData>,
}

impl BuilderData {
    pub open spec fn initial() -> BuilderData {
        BuilderData { roots: Seq::empty(), stack: Seq::empty() }
    }

    /// The last line is complete: it joins the children of the line above
    /// it, or the entries of the root.
    pub open spec fn popped(self) -> BuilderData {
        if self.stack.len() == 0 {
            self
        } else if self.stack.len() == 1 {
            BuilderData {
                roots: self.roots.push(
                    (text_or_empty(self.stack[0].key), self.stack[0].closed()),
                ),
                stack: Seq::empty(),
            }
        } else {
            BuilderData {
                roots: self.roots,
                stack: self.stack.drop_last().update(
                    self.stack.len() - 2,
                    OpenData {
                        children: self.stack[self.stack.len() - 2].children.push(
                            (self.stack.last().key, self.stack.last().closed()),
                        ),
                        ..self.stack[self.stack.len() - 2]
                    },
                ),
            }
        }
    }

    /// A line joins as an entry of the root: it is not indented and has a key.
    pub open spec fn with_root(self, line: LineData) -> Result<BuilderData, SuccError> {
        if line.indentation != 0 {
            Err(SuccError::WrongIndentation)
        } else if line.is_list() {
            Err(SuccError::MixedEntries)
        } else {
            Ok(BuilderData { stack: self.stack.push(OpenData::opened(line)), ..self })
        }
    }

    /// A line joins as a child of the last line, whose children are of the
    /// kind of the line.
    pub open spec fn with_child(self, line: LineData) -> Result<BuilderData, SuccError> {
        if self.stack.last().kind != line.kind_in_parent() {
            Err(SuccError::MixedEntries)
        } else {
            Ok(BuilderData { stack: self.stack.push(OpenData::opened(line)), ..self })
        }
    }

    /// A line joins as the first child of the last line, which has no value.
    pub open spec fn with_first_child(self, line: LineData) -> Result<BuilderData, SuccError> {
        if self.stack.last().kind != NodeKind::Any {
            Err(SuccError::WrongIndentation)
        } else {
            (BuilderData {
                stack: self.stack.update(
                    self.stack.len() - 1,
                    OpenData {
                        kind: line.kind_in_parent(),
                        child_indentation: line.indentation,
                        ..self.stack.last()
                    },
                ),
                ..self
            }).with_child(line)
        }
    }

    /// A line that is indented less than the last line joins the line above
    /// whose children are indented as it is, or the root.
    pub open spec fn climbed(self, line: LineData) -> Result<BuilderData, SuccError>
        decreases self.stack.len(),
    {
        if self.stack.len() == 0 {
            self.with_root(line)
        } else if self.popped().stack.len() == 0 {
            self.popped().with_root(line)
        } else if line.indentation > self.popped().stack.last().child_indentation {
            Err(SuccError::WrongIndentation)
        } else if line.indentation == self.popped().stack.last().child_indentation {
            self.popped().with_child(line)
        } else {
            self.popped().climbed(line)
        }
    }

    /// A line is read.
    pub open spec fn added(self, line: LineData) -> Result<BuilderData, SuccError> {
        if self.stack.len() == 0 {
            self.with_root(line)
        } else if line.indentation > self.stack.last().indentation {
            self.with_first_child(line)
        } else if line.indentation == self.stack.last().indentation {
            if self.popped().stack.len() == 0 {
                self.popped().with_root(line)
            } else {
                self.popped().with_child(line)
            }
        } else {
            self.climbed(line)
        }
    }

    /// The entries of the root when the file has ended.
    pub open spec fn finished(self) -> Seq<(Seq<char>, SuccTree)>
        decreases self.stack.len(),
    {
        if self.stack.len() == 0 {
            self.roots
        } else {
            self.popped().finished()
        }
    }
}

/// Where the line that begins at `from` ends: at the next line feed, or at
/// the end of the bytes.
pub open spec fn line_end(bytes: Seq<u8>, from: int) -> int
    decreases bytes.len() - from,
{
    if from < 0 || from >= bytes.len() || bytes[from] == LINE_FEED {
        from
    } else {
        line_end(bytes, from + 1)
    }
}

/// A line ends behind its start and within the bytes.
pub proof fn lemma_line_end(bytes: Seq<u8>, from: int)
    requires
        0 <= from <= bytes.len(),
    ensures
        from <= line_end(bytes, from) <= bytes.len(),
    decreases bytes.len() - from,
{
    if from < bytes.len() && bytes[from] != LINE_FEED {
        lemma_line_end(bytes, from + 1);
    }
}

/// The line that begins at `from`, without the carriage return at its end.
pub open spec fn line_at(bytes: Seq<u8>, from: int) -> Seq<u8> {
    if line_end(bytes, from) > from && bytes[line_end(bytes, from) - 1] == CARRIAGE_RETURN {
        bytes.subrange(from, line_end(bytes, from) - 1)
    } else {
        bytes.subrange(from, line_end(bytes, from))
    }
}

/// Reads the lines from the byte `from` on.
pub open spec fn spec_build(bytes: Seq<u8>, from: int, builder: BuilderData) -> Result<
    BuilderData,
    SuccError,
>
    decreases bytes.len() + 1 - from,
{
    if from < 0 || from >= bytes.len() {
        Ok(builder)
    } else {
        match spec_parse_line(line_at(bytes, from)) {
            Ok(Some(line)) => match builder.added(line) {
                Ok(next) => {
                    proof {
                        lemma_line_end(bytes, from);
                    }
                    spec_build(bytes, line_end(bytes, from) + 1, next)
                },
                Err(e) => Err(e),
            },
            Ok(None) => {
                proof {
                    lemma_line_end(bytes, from);
                }
                spec_build(bytes, line_end(bytes, from) + 1, builder)
            },
            Err(e) => Err(e),
        }
    }
}

/// The tree that the bytes of a SUCC file spell: a map of the entries of
/// the root.
pub open spec fn spec_parse_succ_file(bytes: Seq<u8>) -> Result<SuccTree, SuccError> {
    if !valid_utf8(bytes) {
        Err(SuccError::InvalidUtf8)
    } else {
        match spec_build(bytes, 0, BuilderData::initial()) {
            Ok(builder) => Ok(SuccTree::Mapping(builder.finished())),
            Err(e) => Err(e),
        }
    }
}

/// The first entries of a map have the values of the entries.
pub proof fn lemma_entry_trees(entries: Vec<(String, SuccType)>, upto: int)
    requires
        0 <= upto <= entries@.len(),
    ensures
        entry_trees(entries, upto) == Seq::new(
            upto as nat,
            |i: int| (entries@[i].0@, entries@[i].1.tree()),
        ),
    decreases upto,
{
    if upto > 0 {
        lemma_entry_trees(entries, upto - 1);
    }
    assert(entry_trees(entries, upto) =~= Seq::new(
        upto as nat,
        |i: int| (entries@[i].0@, entries@[i].1.tree()),
    ));
}

/// The first entries of a list have the values of the entries.
pub proof fn lemma_list_trees(entries: Vec<SuccType>, upto: int)
    requires
        0 <= upto <= entries@.len(),
    ensures
        list_trees(entries, upto) == Seq::new(upto as nat, |i: int| entries@[i].tree()),
    decreases upto,
{
    if upto > 0 {
        lemma_list_trees(entries, upto - 1);
    }
    assert(list_trees(entries, upto) =~= Seq::new(upto as nat, |i: int| entries@[i].tree()));
}

struct OpenNode {
    indentation: usize,
    key: Option<String>,
    value: Option<String>,
    kind: NodeKind,
    child_indentation: usize,
    children: Vec<(Option<String>, SuccType)>,
}

spec fn optional_text(text: Option<String>) -> Option<Seq<char>> {
    match text {
        Some(text) => Some(text@),
        None => None,
    }
}

spec fn children_view(children: Seq<(Option<String>, SuccType)>) -> Seq<
    (Option<Seq<char>>, SuccTree),
> {
    Seq::new(children.len(), |i: int| (optional_text(children[i].0), children[i].1.tree()))
}

spec fn open_view(node: OpenNode) -> OpenData {
    OpenData {
        indentation: node.indentation as nat,
        key: optional_text(node.key),
        value: optional_text(node.value),
        kind: node.kind,
        child_indentation: node.child_indentation as nat,
        children: children_view(node.children@),
    }
}

spec fn stack_view(stack: Seq<OpenNode>) -> Seq<OpenData> {
    Seq::new(stack.len(), |i: int| open_view(stack[i]))
}

spec fn roots_view(roots: Seq<(String, SuccType)>) -> Seq<(Seq<char>, SuccTree)> {
    Seq::new(roots.len(), |i: int| (roots[i].0@, roots[i].1.tree()))
}

struct TreeParser {
    root_elements: Vec<(String, SuccType)>,
    stack: Vec<OpenNode>,
}

impl View for TreeParser {
    type V = BuilderData;

    closed spec fn view(&self) -> BuilderData {
        BuilderData { roots: roots_view(self.root_elements@), stack: stack_view(self.stack@) }
    }
}

fn text_or_new(text: Option<String>) -> (r: String)
    ensures
        r@ == text_or_empty(optional_text(text)),
{
    match text {
        Some(text) => text,
        None => String::new(),
    }
}

/// The tree of a line and its children.
fn close(kind: NodeKind, value: Option<String>, children: Vec<(Option<String>, SuccType)>) -> (r:
    SuccType)
    ensures
        r.tree() == (OpenData {
            indentation: 0,
            key: None,
            value: optional_text(value),
            kind,
            child_indentation: 0,
            children: children_view(children@),
        }).closed(),
{
    match kind {
        NodeKind::Any => SuccType::Any,
        NodeKind::Value => SuccType::Value(text_or_new(value)),
        NodeKind::Mapping => {
            let mut children = children;
            let ghost all = children@;
            let mut entries: Vec<(String, SuccType)> = Vec::new();
            let mut i: usize = 0;
            while i < children.len()
                invariant
                    i <= children@.len(),
                    children@.len() == all.len(),
                    entries@.len() == i,
                    forall|k: int| i <= k < all.len() ==> children@[k] == all[k],
                    forall|k: int|
                        0 <= k < i ==> (#[trigger] entries@[k]).0@ == text_or_empty(
                            optional_text(all[k].0),
                        ) && entries@[k].1.tree() == all[k].1.tree(),
                decreases children@.len() - i,
            {
                let mut child: (Option<String>, SuccType) = (None, SuccType::Any);
                std::mem::swap(&mut children[i], &mut child);
                entries.push((text_or_new(child.0), child.1));
                i += 1;
            }
            proof {
                lemma_entry_trees(entries, entries@.len() as int);
                assert(entry_trees(entries, entries@.len() as int) =~= keyed(children_view(all)));
            }
            SuccType::Mapping(entries)
        },
        NodeKind::List => {
            let mut children = children;
            let ghost all = children@;
            let mut entries: Vec<SuccType> = Vec::new();
            let mut i: usize = 0;
            while i < children.len()
                invariant
                    i <= children@.len(),
                    children@.len() == all.len(),
                    entries@.len() == i,
                    forall|k: int| i <= k < all.len() ==> children@[k] == all[k],
                    forall|k: int|
                        0 <= k < i ==> (#[trigger] entries@[k]).tree() == all[k].1.tree(),
                decreases children@.len() - i,
            {
                let mut child: (Option<String>, SuccType) = (None, SuccType::Any);
                std::mem::swap(&mut children[i], &mut child);
                entries.push(child.1);
                i += 1;
            }
            proof {
                lemma_list_trees(entries, entries@.len() as int);
                assert(list_trees(entries, entries@.len() as int) =~= unkeyed(children_view(all)));
            }
            SuccType::List(entries)
        },
    }
}

impl TreeParser {
    fn new() -> (parser: TreeParser)
        ensures
            parser@ == BuilderData::initial(),
    {
        let parser = TreeParser { root_elements: Vec::new(), stack: Vec::new() };
        assert(parser@.roots =~= Seq::empty());
        assert(parser@.stack =~= Seq::empty());
        parser
    }

    fn has_no_parent(&self) -> (r: bool)
        ensures
            r == (self@.stack.len() == 0),
    {
        self.stack.len() == 0
    }

    /// The last line is complete.
    fn pop(&mut self)
        ensures
            final(self)@ == old(self)@.popped(),
    {
        let ghost before = self@;
        let ghost roots = self.root_elements@;
        let ghost stack = self.stack@;
        let node = match self.stack.pop() {
            Some(node) => node,
            None => {
                assert(self@.stack =~= before.stack);
                return ;
            },
        };
        let ghost data = open_view(node);
        assert(data == before.stack.last());
        let tree = close(node.kind, node.value, node.children);
        assert(tree.tree() == data.closed());
        let last = self.stack.len();
        if last == 0 {
            self.root_elements.push((text_or_new(node.key), tree));
            assert(self@.roots =~= before.roots.push((text_or_empty(data.key), data.closed())));
            assert(self@.stack =~= Seq::empty());
        } else {
            let ghost parent = self.stack@[last - 1];
            self.stack[last - 1].children.push((node.key, tree));
            assert(children_view(self.stack@[last - 1].children@) =~= children_view(
                parent.children@,
            ).push((data.key, data.closed())));
            assert(self@.stack =~= before.stack.drop_last().update(
                before.stack.len() - 2,
                OpenData {
                    children: before.stack[before.stack.len() - 2].children.push(
                        (data.key, data.closed()),
                    ),
                    ..before.stack[before.stack.len() - 2]
                },
            ));
            assert(self@.roots =~= before.roots);
        }
    }

    fn open(&mut self, line: LineMeta)
        ensures
            final(self)@ == (BuilderData {
                stack: old(self)@.stack.push(OpenData::opened(line@)),
                ..old(self)@
            }),
    {
        let kind = if line.value.is_none() {
            NodeKind::Any
        } else {
            NodeKind::Value
        };
        let node = OpenNode {
            indentation: line.indentation,
            key: line.key,
            value: line.value,
            kind,
            child_indentation: 0,
            children: Vec::new(),
        };
        assert(children_view(node.children@) =~= Seq::empty());
        assert(open_view(node) == OpenData::opened(line@));
        self.stack.push(node);
        assert(self@.stack =~= old(self)@.stack.push(OpenData::opened(line@)));
        assert(self@.roots =~= old(self)@.roots);
    }

    fn add_root(&mut self, line: LineMeta) -> (r: Result<(), SuccError>)
        ensures
            match old(self)@.with_root(line@) {
                Ok(next) => r is Ok && final(self)@ == next,
                Err(e) => r is Err && r->Err_0 == e,
            },
    {
        if line.indentation != 0 {
            return Err(SuccError::WrongIndentation);
        }
        if line.key.is_none() {
            return Err(SuccError::MixedEntries);
        }
        self.open(line);
        Ok(())
    }

    fn add_child(&mut self, line: LineMeta) -> (r: Result<(), SuccError>)
        requires
            old(self)@.stack.len() > 0,
        ensures
            match old(self)@.with_child(line@) {
                Ok(next) => r is Ok && final(self)@ == next,
                Err(e) => r is Err && r->Err_0 == e,
            },
    {
        let last = self.stack.len() - 1;
        let wanted = if line.key.is_none() {
            NodeKind::List
        } else {
            NodeKind::Mapping
        };
        assert(self@.stack.last() == open_view(self.stack@[last as int]));
        if self.stack[last].kind != wanted {
            return Err(SuccError::MixedEntries);
        }
        self.open(line);
        Ok(())
    }

    fn add_first_child(&mut self, line: LineMeta) -> (r: Result<(), SuccError>)
        requires
            old(self)@.stack.len() > 0,
        ensures
            match old(self)@.with_first_child(line@) {
                Ok(next) => r is Ok && final(self)@ == next,
                Err(e) => r is Err && r->Err_0 == e,
            },
    {
        let ghost before = self@;
        let last = self.stack.len() - 1;
        assert(self@.stack.last() == open_view(self.stack@[last as int]));
        if self.stack[last].kind != NodeKind::Any {
            return Err(SuccError::WrongIndentation);
        }
        self.stack[last].kind = if line.key.is_none() {
            NodeKind::List
        } else {
            NodeKind::Mapping
        };
        self.stack[last].child_indentation = line.indentation;
        assert(self@.stack =~= before.stack.update(
            before.stack.len() - 1,
            OpenData {
                kind: line@.kind_in_parent(),
                child_indentation: line@.indentation,
                ..before.stack.last()
            },
        ));
        assert(self@.roots =~= before.roots);
        self.add_child(line)
    }

    fn climb(&mut self, line: LineMeta) -> (r: Result<(), SuccError>)
        ensures
            match old(self)@.climbed(line@) {
                Ok(next) => r is Ok && final(self)@ == next,
                Err(e) => r is Err && r->Err_0 == e,
            },
    {
        loop
            invariant
                self@.climbed(line@) == old(self)@.climbed(line@),
            decreases self@.stack.len(),
        {
            if self.has_no_parent() {
                return self.add_root(line);
            }
            self.pop();
            if self.has_no_parent() {
                return self.add_root(line);
            }
            let last = self.stack.len() - 1;
            assert(self@.stack.last() == open_view(self.stack@[last as int]));
            if line.indentation > self.stack[last].child_indentation {
                return Err(SuccError::WrongIndentation);
            }
            if line.indentation == self.stack[last].child_indentation {
                return self.add_child(line);
            }
        }
    }

    /// A line is read.
    fn add_line(&mut self, line: LineMeta) -> (r: Result<(), SuccError>)
        ensures
            match old(self)@.added(line@) {
                Ok(next) => r is Ok && final(self)@ == next,
                Err(e) => r is Err && r->Err_0 == e,
            },
    {
        if self.has_no_parent() {
            return self.add_root(line);
        }
        let last = self.stack.len() - 1;
        assert(self@.stack.last() == open_view(self.stack@[last as int]));
        let top_indentation = self.stack[last].indentation;
        if line.indentation > top_indentation {
            self.add_first_child(line)
        } else if line.indentation == top_indentation {
            self.pop();
            if self.has_no_parent() {
                self.add_root(line)
            } else {
                self.add_child(line)
            }
        } else {
            self.climb(line)
        }
    }

    /// The entries of the root when the file has ended.
    fn finish(self) -> (roots: Vec<(String, SuccType)>)
        ensures
            roots_view(roots@) == self@.finished(),
    {
        let mut parser = self;
        while !parser.has_no_parent()
            invariant
                parser@.finished() == self@.finished(),
            decreases parser@.stack.len(),
        {
            parser.pop();
        }
        parser.root_elements
    }
}

fn find_line_end(bytes: &[u8], from: usize) -> (end: usize)
    requires
        from <= bytes@.len(),
    ensures
        end == line_end(bytes@, from as int),
        from <= end <= bytes@.len(),
{
    let mut end: usize = from;
    while end < bytes.len() && bytes[end] != LINE_FEED
        invariant
            from <= end <= bytes@.len(),
            line_end(bytes@, end as int) == line_end(bytes@, from as int),
        decreases bytes@.len() - end,
    {
        end += 1;
    }
    end
}

/// Reads the tree that the bytes of a SUCC file spell.
pub fn parse_succ_file(bytes: &[u8]) -> (r: Result<SuccType, SuccError>)
    ensures
        match spec_parse_succ_file(bytes@) {
            Ok(tree) => r is Ok && r->Ok_0.tree() == tree,
            Err(e) => r is Err && r->Err_0 == e,
        },
{
    if string_from_utf8(slice_to_vec(bytes)).is_none() {
        return Err(SuccError::InvalidUtf8);
    }
    let mut data = TreeParser::new();
    let mut from: usize = 0;
    while from < bytes.len()
        invariant
            from <= bytes@.len(),
            valid_utf8(bytes@),
            spec_build(bytes@, from as int, data@) == spec_build(
                bytes@,
                0,
                BuilderData::initial(),
            ),
        decreases bytes@.len() - from,
    {
        let end = find_line_end(bytes, from);
        let stripped_end = if end > from && bytes[end - 1] == CARRIAGE_RETURN {
            end - 1
        } else {
            end
        };
        let line = slice_subrange(bytes, from, stripped_end);
        assert(line@ == line_at(bytes@, from as int));
        match parse_line(line)? {
            Some(line_meta) => {
                data.add_line(line_meta)?;
            },
            None => {},
        }
        proof {
            if end >= bytes@.len() {
                assert(spec_build(bytes@, end + 1, data@) == Ok::<BuilderData, SuccError>(data@));
                assert(spec_build(bytes@, end as int, data@) == Ok::<BuilderData, SuccError>(
                    data@,
                ));
            }
        }
        from = if end < bytes.len() {
            end + 1
        } else {
            end
        };
    }
    let roots = data.finish();
    proof {
        lemma_entry_trees(roots, roots@.len() as int);
        assert(entry_trees(roots, roots@.len() as int) =~= roots_view(roots@));
    }
    Ok(SuccType::Mapping(roots))
}

} // verus!
