//! What flows through the pipeline: the record as a call site gives it, and
//! the message it is rendered into.

use crate::level::Level;
use vstd::prelude::*;
use vstd::utf8::encode_utf8;

verus! {

/// One log call, as the call site describes it. It lives only while it is
/// filtered and rendered.
#[derive(Debug, Clone)]
pub struct Record {
    /// Severity of the call.
    pub level: Level,
    /// Logical source of the call, such as a module path.
    pub target: String,
    /// Source file of the call, where it is known.
    pub file: Option<String>,
    /// Line of the call in that file, where it is known.
    pub line: Option<u32>,
    /// The message body.
    pub args: String,
}

impl Record {
    pub fn new(
        level: Level,
        target: String,
        file: Option<String>,
        line: Option<u32>,
        args: String,
    ) -> (r: Record)
        ensures
            r == (Record { level, target, file, line, args }),
    {
        Record { level, target, file, line, args }
    }

    /// The target as the filter reads it: the bytes of its UTF-8 encoding.
    pub open spec fn target_bytes(&self) -> Seq<u8> {
        encode_utf8(self.target@)
    }

    pub fn level(&self) -> (l: Level)
        ensures
            l == self.level,
    {
        self.level
    }

    pub fn target(&self) -> (t: &str)
        ensures
            t@ == self.target@,
    {
        self.target.as_str()
    }
}

/// Rendered text on its way to the sinks, with the severity that the sinks'
/// thresholds are held against.
#[derive(Debug, Clone)]
pub struct Message {
    pub content: String,
    pub level: Level,
}

impl Message {
    pub fn new(content: String, level: Level) -> (m: Message)
        ensures
            m.content == content,
            m.level == level,
    {
        Self { content, level }
    }
}

} // verus!
