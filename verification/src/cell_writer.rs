//! Writing the output of a command into a notebook: the output is buffered;
//! the first flush turns it into a log cell when it holds log lines and into
//! a code cell otherwise, and later flushes append to that cell.
use crate::logs::{contains_logs, contains_logs_spec, parse_logs_at, parse_logs_spec, LogGroups};
use crate::text::{chars_of, extend_chars, string_of};
use crate::timestamps::{well_behaved, Timestamp};
use vstd::prelude::*;
use vstd::utf8::{decode_utf8, valid_utf8};

verus! {

/// Calls `std::str::from_utf8` and copies the text: `None` exactly when the
/// bytes are not valid UTF-8, else the decoded text.
#[verifier::external_body]
fn utf8_text(bytes: &[u8]) -> (r: Option<String>)
    ensures
        r is Some <==> valid_utf8(bytes@),
        r matches Some(s) ==> s@ == decode_utf8(bytes@),
{
    std::str::from_utf8(bytes).ok().map(|s| s.to_string())
}

/// What `String::from_utf8_lossy` gives for the bytes: invalid sequences
/// replaced by U+FFFD.
pub uninterp spec fn utf8_lossy_result(bytes: Seq<u8>) -> Seq<char>;

/// Calls `String::from_utf8_lossy`; named by `utf8_lossy_result`. Valid
/// UTF-8 is decoded as it is (the function's documentation says so).
#[verifier::external_body]
fn utf8_lossy(bytes: &[u8]) -> (r: String)
    ensures
        r@ == utf8_lossy_result(bytes@),
        valid_utf8(bytes@) ==> r@ == decode_utf8(bytes@),
{
    String::from_utf8_lossy(bytes).to_string()
}

/// What the buffered output turned out to be.
#[derive(Clone, Copy, Debug, PartialEq, Eq, Structural)]
pub enum CellType {
    Log,
    Code,
    Unknown,
}

/// What a flush writes.
pub enum CellContent {
    /// A new log cell with a title and the parsed log records.
    Log { title: String, logs: LogGroups },
    /// A new code cell with this text.
    Code { content: String },
    /// This text appended to the cell that an earlier flush created.
    Append { text: String },
}

/// Buffers the output of a command for a notebook.
pub struct CellWriter {
    command: String,
    args: Vec<String>,
    buffer: Vec<u8>,
    cell_type: CellType,
    has_cell: bool,
}

/// The type after looking at the buffered output: decided once, on the
/// first flush whose output is valid UTF-8.
pub open spec fn detect_spec<F: Fn(&str) -> Option<i128>>(
    current: CellType,
    buffer: Seq<u8>,
    f: F,
) -> CellType {
    if current == CellType::Unknown {
        if valid_utf8(buffer) {
            if contains_logs_spec(decode_utf8(buffer), f) {
                CellType::Log
            } else {
                CellType::Code
            }
        } else {
            CellType::Unknown
        }
    } else {
        current
    }
}

/// The words joined with single spaces.
pub open spec fn join_spaces(words: Seq<Seq<char>>) -> Seq<char>
    decreases words.len(),
{
    if words.len() == 0 {
        Seq::empty()
    } else if words.len() == 1 {
        words[0]
    } else {
        join_spaces(words.drop_last()) + seq![' '] + words.last()
    }
}

/// The line shown above the output: when and where the command ran, and
/// the command itself.
pub open spec fn prompt_line_spec(
    timestamp: Seq<char>,
    cwd: Seq<char>,
    command: Seq<char>,
    args: Seq<Seq<char>>,
) -> Seq<char> {
    timestamp + seq!['\n'] + cwd + seq![' ', '\u{276f}', ' '] + command + seq![' '] + join_spaces(
        args,
    )
}

/// The cell type is decided once: a decided type never changes, and the
/// first flush of valid UTF-8 decides it.
pub proof fn law_cell_type_decided_once<F: Fn(&str) -> Option<i128>>(
    current: CellType,
    buffer: Seq<u8>,
    f: F,
)
    ensures
        current != CellType::Unknown ==> detect_spec(current, buffer, f) == current,
        current == CellType::Unknown && valid_utf8(buffer) ==> detect_spec(current, buffer, f)
            != CellType::Unknown,
{
}

impl CellWriter {
    pub closed spec fn buffered(&self) -> Seq<u8> {
        self.buffer@
    }

    pub closed spec fn cell_type(&self) -> CellType {
        self.cell_type
    }

    /// Whether a flush has created the cell already.
    pub closed spec fn has_cell(&self) -> bool {
        self.has_cell
    }

    pub closed spec fn command(&self) -> Seq<char> {
        self.command@
    }

    pub closed spec fn args(&self) -> Seq<Seq<char>> {
        self.args@.map_values(|a: String| a@)
    }

    /// A writer for the output of `command` run with `args`.
    pub fn new(command: String, args: Vec<String>) -> (w: Self)
        ensures
            w.buffered().len() == 0,
            w.cell_type() == CellType::Unknown,
            !w.has_cell(),
            w.command() == command@,
            w.args() == args@.map_values(|a: String| a@),
    {
        CellWriter {
            command,
            args,
            buffer: Vec::new(),
            cell_type: CellType::Unknown,
            has_cell: false,
        }
    }

    /// Buffers more output.
    pub fn append(&mut self, data: &[u8])
        ensures
            final(self).buffered() == old(self).buffered() + data@,
            final(self).cell_type() == old(self).cell_type(),
            final(self).has_cell() == old(self).has_cell(),
            final(self).command() == old(self).command(),
            final(self).args() == old(self).args(),
    {
        let mut i: usize = 0;
        while i < data.len()
            invariant
                i <= data@.len(),
                self.buffer@ == old(self).buffer@ + data@.subrange(0, i as int),
                self.cell_type == old(self).cell_type,
                self.has_cell == old(self).has_cell,
                self.command == old(self).command,
                self.args == old(self).args,
            decreases data@.len() - i,
        {
            self.buffer.push(data[i]);
            i = i + 1;
        }
        assert(data@.subrange(0, data@.len() as int) =~= data@);
    }

    /// The line shown above the output, for a flush at `timestamp` in the
    /// working directory `cwd`.
    pub fn prompt_line(&self, timestamp: &str, cwd: &str) -> (r: String)
        ensures
            r@ == prompt_line_spec(timestamp@, cwd@, self.command(), self.args()),
    {
        let mut out = chars_of(timestamp);
        out.push('\n');
        extend_chars(&mut out, &chars_of(cwd));
        out.push(' ');
        out.push('\u{276f}');
        out.push(' ');
        extend_chars(&mut out, &chars_of(self.command.as_str()));
        out.push(' ');
        let ghost start = out@;
        let ghost av = self.args();
        let mut i: usize = 0;
        while i < self.args.len()
            invariant
                i <= self.args@.len(),
                av == self.args@.map_values(|a: String| a@),
                out@ == start + join_spaces(av.subrange(0, i as int)),
            decreases self.args@.len() - i,
        {
            let ghost before = out@;
            if i > 0 {
                out.push(' ');
            }
            extend_chars(&mut out, &chars_of(self.args[i].as_str()));
            proof {
                let sub = av.subrange(0, i + 1);
                assert(sub.drop_last() =~= av.subrange(0, i as int));
                assert(sub.last() == av[i as int]);
                if i == 0 {
                    assert(join_spaces(sub) == sub[0]);
                    assert(out@ =~= start + join_spaces(sub));
                } else {
                    assert(out@ =~= start + join_spaces(sub));
                }
            }
            i = i + 1;
        }
        assert(av.subrange(0, av.len() as int) =~= av);
        string_of(&out)
    }

    /// Writes the buffered output and empties the buffer; nothing when
    /// nothing was buffered. The first such flush creates the cell: a log
    /// cell titled with the prompt line when the output holds log lines,
    /// else a code cell of the prompt line and the output (also while the
    /// type is still undecided). Every later flush appends the buffered
    /// text to that cell. The cell type is decided on the first flush of
    /// valid UTF-8. `now` stamps log lines that carry no timestamp.
    pub fn flush<F: Fn(&str) -> Option<i128>>(
        &mut self,
        timestamp: &str,
        cwd: &str,
        now: Timestamp,
        unix_float: &F,
    ) -> (r: Option<CellContent>)
        requires
            well_behaved(*unix_float),
        ensures
            final(self).command() == old(self).command(),
            final(self).args() == old(self).args(),
            old(self).buffered().len() == 0 ==> r is None && final(self).cell_type() == old(
                self,
            ).cell_type() && final(self).has_cell() == old(self).has_cell()
                && final(self).buffered().len() == 0,
            old(self).buffered().len() > 0 ==> {
                let t = detect_spec(old(self).cell_type(), old(self).buffered(), *unix_float);
                let output = utf8_lossy_result(old(self).buffered());
                &&& final(self).cell_type() == t
                &&& final(self).buffered().len() == 0
                &&& final(self).has_cell()
                &&& old(self).has_cell() ==> (r matches Some(CellContent::Append { text })
                    && text@ == output)
            },
            old(self).buffered().len() > 0 && !old(self).has_cell() ==> {
                let t = detect_spec(old(self).cell_type(), old(self).buffered(), *unix_float);
                let output = utf8_lossy_result(old(self).buffered());
                let prompt = prompt_line_spec(timestamp@, cwd@, old(self).command(), old(self).args());
                &&& t == CellType::Log ==> (r matches Some(CellContent::Log { title, logs })
                    && title@ == prompt && logs.wf() && logs@ == parse_logs_spec(
                    output,
                    now,
                    *unix_float,
                ))
                &&& t != CellType::Log ==> (r matches Some(CellContent::Code { content })
                    && content@ == prompt + seq!['\n'] + output)
            },
    {
        if self.buffer.len() == 0 {
            return None;
        }
        if self.cell_type == CellType::Unknown {
            match utf8_text(self.buffer.as_slice()) {
                Some(text) => {
                    if contains_logs(text.as_str(), unix_float) {
                        self.cell_type = CellType::Log;
                    } else {
                        self.cell_type = CellType::Code;
                    }
                },
                None => {},
            }
        }
        let output = utf8_lossy(self.buffer.as_slice());
        if self.has_cell {
            self.buffer = Vec::new();
            return Some(CellContent::Append { text: output });
        }
        let prompt = self.prompt_line(timestamp, cwd);
        let cell = if self.cell_type == CellType::Log {
            let logs = parse_logs_at(output.as_str(), now, unix_float);
            CellContent::Log { title: prompt, logs }
        } else {
            let mut content = chars_of(prompt.as_str());
            content.push('\n');
            extend_chars(&mut content, &chars_of(output.as_str()));
            CellContent::Code { content: string_of(&content) }
        };
        self.buffer = Vec::new();
        self.has_cell = true;
        Some(cell)
    }

    /// The cell type decided so far.
    pub fn current_cell_type(&self) -> (t: CellType)
        ensures
            t == self.cell_type(),
    {
        self.cell_type
    }
}

} // verus!
