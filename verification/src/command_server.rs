//! The local command interface: one command a line, answered at once.
//!
//! What comes in here is trusted. An action of a line goes to the injector
//! directly, past the effector's channel and in whatever mode, so nothing
//! that a remote party sent may ever be fed into this interface.

use crate::effector::{
    command_plan, execute_action_json, steps_view, EffectorError, Failure, InputStep,
};
use crate::accessibility::{
    element_json, walk_error_text, walk_tree, walked, ElementSource, ElementView, WalkError,
};
use crate::json::{parsed, rendered, text_document, JsonValue};
use crate::text::{chars_of, chars_spell, string_from_range, trim_bounds, trim_seq};
use vstd::prelude::*;

verus! {

/// The depth to which a scan walks the tree.
pub const SCAN_DEPTH: u32 = 3;

/// What one line of input asks for.
#[derive(Clone, Debug, PartialEq, Eq)]
pub enum LocalCommand {
    /// Nothing: the line is empty or white space.
    Blank,
    /// A walk of the whole accessibility tree.
    Scan,
    /// An action, given as the text of a JSON document.
    Action(String),
}

/// What a `LocalCommand` stands for.
pub enum Request {
    Blank,
    Scan,
    Action(Seq<char>),
}

impl View for LocalCommand {
    type V = Request;

    open spec fn view(&self) -> Request {
        match self {
            LocalCommand::Blank => Request::Blank,
            LocalCommand::Scan => Request::Scan,
            LocalCommand::Action(s) => Request::Action(s@),
        }
    }
}

/// What a line asks for. The line is trimmed first; `SCAN` is the one
/// literal command, and every other line that is not blank is an action.
pub open spec fn classified(line: Seq<char>) -> Request {
    let t = trim_seq(line);
    if t.len() == 0 {
        Request::Blank
    } else if t == "SCAN"@ {
        Request::Scan
    } else {
        Request::Action(t)
    }
}

/// Tells what a line asks for.
pub fn classify_line(line: &str) -> (r: LocalCommand)
    ensures
        r@ == classified(line@),
{
    let chars = chars_of(line);
    let (from, to) = trim_bounds(&chars);
    if from == to {
        return LocalCommand::Blank;
    }
    let mut trimmed: Vec<char> = Vec::new();
    let mut i: usize = from;
    while i < to
        invariant
            from <= i <= to <= chars.len(),
            trimmed@ == chars@.subrange(from as int, i as int),
        decreases to - i,
    {
        trimmed.push(chars[i]);
        i += 1;
    }
    if chars_spell(&trimmed, "SCAN") {
        LocalCommand::Scan
    } else {
        LocalCommand::Action(string_from_range(&chars, from, to))
    }
}

/// How a scan ended.
#[derive(Clone, Debug, PartialEq, Eq)]
pub enum ScanResult {
    /// The tree, written as a JSON document.
    Tree(String),
    /// The scan failed, with this message.
    Failed(String),
    /// The accessibility service could not be set up on the thread of the
    /// server, so that no scan can be made.
    Unavailable,
}

impl View for ScanResult {
    type V = ScanOutcome;

    open spec fn view(&self) -> ScanOutcome {
        match self {
            ScanResult::Tree(s) => ScanOutcome::Tree(s@),
            ScanResult::Failed(s) => ScanOutcome::Failed(s@),
            ScanResult::Unavailable => ScanOutcome::Unavailable,
        }
    }
}

/// A message as a JSON string, quoted and escaped.
pub open spec fn quoted(message: Seq<char>) -> Seq<char> {
    rendered(JsonValue::Text(message))
}

/// The line that answers a scan: the prefix, then the tree, or an object
/// whose member `error` says what went wrong.
pub open spec fn scan_reply_text(outcome: ScanOutcome) -> Seq<char> {
    match outcome {
        ScanOutcome::Tree(json) => "[SCAN_RESULT]"@ + json,
        ScanOutcome::Failed(message) => "[SCAN_RESULT]{\"error\": "@ + quoted(message) + "}"@,
        ScanOutcome::Unavailable => "[SCAN_RESULT]{\"error\": \"UI Automation not initialized\"}"@,
    }
}

/// The prefix of every answer to a scan.
pub fn scan_prefix() -> (r: &'static str)
    ensures
        r@ == "[SCAN_RESULT]"@,
{
    "[SCAN_RESULT]"
}

/// Writes a message as a JSON string.
pub fn quote(message: &str) -> (r: String)
    ensures
        r@ == quoted(message@),
{
    text_document(message).render()
}

/// Writes the line that answers a scan, without its line feed.
pub fn scan_reply(outcome: &ScanResult) -> (r: String)
    ensures
        r@ == scan_reply_text(outcome@),
{
    match outcome {
        ScanResult::Tree(json) => {
            let mut r = String::from_str("[SCAN_RESULT]");
            r.append(json.as_str());
            r
        },
        ScanResult::Failed(message) => {
            let mut r = String::from_str("[SCAN_RESULT]{\"error\": ");
            r.append(quote(message.as_str()).as_str());
            r.append("}");
            r
        },
        ScanResult::Unavailable => String::from_str(
            "[SCAN_RESULT]{\"error\": \"UI Automation not initialized\"}",
        ),
    }
}

/// How the scan of a tree ends, given what the walk made of its root: a
/// tree is written as a document, and a walk that failed says why.
pub open spec fn scan_outcome_of(walk: Result<ElementView, WalkError>) -> ScanOutcome {
    match walk {
        Ok(tree) => ScanOutcome::Tree(rendered(element_json(tree))),
        Err(e) => ScanOutcome::Failed(walk_error_text(e)),
    }
}

/// What a `ScanResult` stands for.
pub enum ScanOutcome {
    Tree(Seq<char>),
    Failed(Seq<char>),
    Unavailable,
}

/// Scans the tree below `root` to the scan depth. Without a root the
/// accessibility service is not available.
pub fn scan_tree(root: Option<&ElementSource>) -> (r: ScanResult)
    ensures
        r@ == match root {
            Some(source) => scan_outcome_of(walked(*source, 0, SCAN_DEPTH as nat)),
            None => ScanOutcome::Unavailable,
        },
{
    let source = match root {
        Some(source) => source,
        None => {
            return ScanResult::Unavailable;
        },
    };
    match walk_tree(source, 0, SCAN_DEPTH) {
        Ok(tree) => ScanResult::Tree(tree.to_json_text()),
        Err(e) => ScanResult::Failed(String::from_str(e.message())),
    }
}

/// What the server does about a line.
#[derive(Debug, PartialEq, Eq)]
pub enum Reaction {
    /// Nothing.
    Nothing,
    /// Walk the tree from its root to this depth and answer with the
    /// result.
    Scan { depth: u32 },
    /// Perform these input steps, now.
    Inject(Vec<InputStep>),
    /// Log that the line was refused, and why.
    Rejected(EffectorError),
}

/// What the reaction to a line must be.
pub open spec fn reacts_to(r: Reaction, line: Seq<char>) -> bool {
    match classified(line) {
        Request::Blank => r is Nothing,
        Request::Scan => r matches Reaction::Scan { depth } && depth == SCAN_DEPTH,
        Request::Action(text) => match command_plan(parsed(text)) {
            Ok(steps) => r matches Reaction::Inject(v) && steps_view(v@) == steps,
            Err(f) => r matches Reaction::Rejected(e) && e@ == f,
        },
    }
}

/// Decides what to do about a line.
pub fn handle_line(line: &str) -> (r: Reaction)
    ensures
        reacts_to(r, line@),
{
    match classify_line(line) {
        LocalCommand::Blank => Reaction::Nothing,
        LocalCommand::Scan => Reaction::Scan { depth: SCAN_DEPTH },
        LocalCommand::Action(text) => match execute_action_json(text.as_str()) {
            Ok(steps) => Reaction::Inject(steps),
            Err(e) => Reaction::Rejected(e),
        },
    }
}

/// What the input source handed over.
#[derive(Debug, PartialEq, Eq)]
pub enum ServerInput {
    /// A line.
    Line(String),
    /// Reading failed.
    ReadFailed,
    /// The input is at its end.
    End,
}

/// What the server does next.
#[derive(Debug, PartialEq, Eq)]
pub enum ServerStep {
    /// React, then read the next line.
    Continue(Reaction),
    /// End the server.
    Stop,
}

/// One step of the server. Every line is answered and the next is read: no
/// line ends the server, whatever it holds. The end of the input ends it,
/// and so does a failure to read.
pub fn serve(input: &ServerInput) -> (r: ServerStep)
    ensures
        match input {
            ServerInput::Line(line) => r matches ServerStep::Continue(reaction) && reacts_to(
                reaction,
                line@,
            ),
            _ => r is Stop,
        },
{
    match input {
        ServerInput::Line(line) => ServerStep::Continue(handle_line(line.as_str())),
        ServerInput::ReadFailed => ServerStep::Stop,
        ServerInput::End => ServerStep::Stop,
    }
}

/// A line that is no JSON document is refused as malformed, and nothing
/// is injected for it.
pub proof fn lemma_malformed_line_is_rejected(r: Reaction, line: Seq<char>)
    requires
        reacts_to(r, line),
        classified(line) matches Request::Action(text) && parsed(text) is None,
    ensures
        r matches Reaction::Rejected(e) && e@ == Failure::MalformedJson,
{
}

} // verus!
