//! The side channel: the credential it needs and the messages it sends.
//!
//! The channel is a latency optimisation. Nothing here can fail: without a
//! credential there is nothing to send.

use crate::json::{
    members_value, no_members, object_document, push_member, rendered, text_document, Json,
    JsonValue,
};
use crate::text::{
    chars_of, parts_view, push_char, split_chars, split_on, string_from_range, trim_bounds,
    trim_seq,
};
use vstd::prelude::*;

verus! {

/// Where a credential file is looked for, in the order of the search.
#[derive(Clone, Copy, Debug, PartialEq, Eq, Structural)]
pub enum TokenLocation {
    /// The working directory.
    WorkingDir,
    /// The directory `bin` below the working directory.
    BinDir,
    /// The directory of the executable.
    ExeDir,
    /// The directory above that of the executable.
    ExeParent,
}

/// The name of the credential file.
pub fn token_file_name() -> (r: &'static str)
    ensures
        r@ == "ghost.token"@,
{
    "ghost.token"
}

/// The places to search, in order. The directory of the executable is
/// searched where it is known, and the one above it where that is known
/// too.
pub open spec fn candidate_locations(exe_dir_known: bool, exe_parent_known: bool) -> Seq<
    TokenLocation,
> {
    if !exe_dir_known {
        seq![TokenLocation::WorkingDir, TokenLocation::BinDir]
    } else if !exe_parent_known {
        seq![TokenLocation::WorkingDir, TokenLocation::BinDir, TokenLocation::ExeDir]
    } else {
        seq![
            TokenLocation::WorkingDir,
            TokenLocation::BinDir,
            TokenLocation::ExeDir,
            TokenLocation::ExeParent,
        ]
    }
}

/// The places to search for the credential file, in order.
pub fn token_candidates(exe_dir_known: bool, exe_parent_known: bool) -> (r: Vec<TokenLocation>)
    ensures
        r@ == candidate_locations(exe_dir_known, exe_parent_known),
{
    let mut r: Vec<TokenLocation> = Vec::new();
    r.push(TokenLocation::WorkingDir);
    r.push(TokenLocation::BinDir);
    if exe_dir_known {
        r.push(TokenLocation::ExeDir);
        if exe_parent_known {
            r.push(TokenLocation::ExeParent);
        }
    }
    assert(r@ =~= candidate_locations(exe_dir_known, exe_parent_known));
    r
}

/// The first of `lines` that is not empty once trimmed, trimmed.
pub open spec fn first_line(lines: Seq<Seq<char>>) -> Option<Seq<char>>
    decreases lines.len(),
{
    if lines.len() == 0 {
        None
    } else if trim_seq(lines[0]).len() > 0 {
        Some(trim_seq(lines[0]))
    } else {
        first_line(lines.drop_first())
    }
}

/// The credential that a file holds: its first line that is not empty,
/// without the white space around it.
pub open spec fn token_in(contents: Seq<char>) -> Option<Seq<char>> {
    first_line(split_on(contents, '\n'))
}

/// The credential among the candidates, each the contents of a file or
/// `None` where the file could not be read: that of the first file that
/// holds one.
pub open spec fn first_token(candidates: Seq<Option<Seq<char>>>) -> Option<Seq<char>>
    decreases candidates.len(),
{
    if candidates.len() == 0 {
        None
    } else {
        match candidates[0] {
            Some(contents) => match token_in(contents) {
                Some(token) => Some(token),
                None => first_token(candidates.drop_first()),
            },
            None => first_token(candidates.drop_first()),
        }
    }
}

/// The characters of an optional string.
pub open spec fn text_of(s: Option<String>) -> Option<Seq<char>> {
    match s {
        Some(t) => Some(t@),
        None => None,
    }
}

/// The characters of optional strings, in order.
pub open spec fn texts_of(candidates: Seq<Option<String>>) -> Seq<Option<Seq<char>>> {
    Seq::new(candidates.len(), |i: int| text_of(candidates[i]))
}

/// The credential that a file holds.
pub fn token_of_file(contents: &str) -> (r: Option<String>)
    ensures
        text_of(r) == token_in(contents@),
{
    let chars = chars_of(contents);
    let lines = split_chars(&chars, '\n');
    let ghost all = parts_view(lines@);
    let mut i: usize = 0;
    assert(all.subrange(0, all.len() as int) =~= all);
    while i < lines.len()
        invariant
            i <= lines.len(),
            all == parts_view(lines@),
            all == split_on(contents@, '\n'),
            first_line(all) == first_line(all.subrange(i as int, all.len() as int)),
        decreases lines.len() - i,
    {
        proof {
            let rest = all.subrange(i as int, all.len() as int);
            assert(rest[0] == lines@[i as int]@);
            assert(rest.drop_first() =~= all.subrange(i + 1, all.len() as int));
        }
        let (from, to) = trim_bounds(&lines[i]);
        if to > from {
            return Some(string_from_range(&lines[i], from, to));
        }
        i += 1;
    }
    None
}

/// The credential among the candidate files, in the order of the search:
/// the first value that is not empty wins.
pub fn load_auth_token(candidates: &Vec<Option<String>>) -> (r: Option<String>)
    ensures
        text_of(r) == first_token(texts_of(candidates@)),
        (forall|i: int| 0 <= i < candidates.len() ==> candidates@[i] is None) ==> r is None,
{
    let ghost all = texts_of(candidates@);
    let mut i: usize = 0;
    assert(all.subrange(0, all.len() as int) =~= all);
    while i < candidates.len()
        invariant
            i <= candidates.len(),
            all == texts_of(candidates@),
            first_token(all) == first_token(all.subrange(i as int, all.len() as int)),
        decreases candidates.len() - i,
    {
        proof {
            let rest = all.subrange(i as int, all.len() as int);
            assert(rest[0] == text_of(candidates@[i as int]));
            assert(rest.drop_first() =~= all.subrange(i + 1, all.len() as int));
        }
        match &candidates[i] {
            Some(contents) => {
                let found = token_of_file(contents.as_str());
                if found.is_some() {
                    return found;
                }
            },
            None => {},
        }
        i += 1;
    }
    None
}

/// The credential, read once and kept for the life of the process.
#[derive(Debug, PartialEq, Eq)]
pub struct AuthTokenCache {
    loaded: bool,
    token: Option<String>,
}

impl AuthTokenCache {
    /// Whether the credential has been looked for.
    pub closed spec fn is_set(&self) -> bool {
        self.loaded
    }

    /// The credential that is kept; `None` before the search and where the
    /// search found none.
    pub closed spec fn token(&self) -> Option<Seq<char>> {
        if self.loaded {
            text_of(self.token)
        } else {
            None
        }
    }

    /// A cache for which the credential has not been looked for yet.
    pub fn new() -> (r: AuthTokenCache)
        ensures
            !r.is_set(),
            r.token() is None,
    {
        AuthTokenCache { loaded: false, token: None }
    }

    /// Tells whether the credential has been looked for. Before it has, the
    /// candidate files are still to be read.
    pub fn is_loaded(&self) -> (r: bool)
        ensures
            r == self.is_set(),
    {
        self.loaded
    }
}

/// The credential: searched for among the candidates at the first call,
/// and the same ever after, whatever the candidates then hold.
pub fn get_auth_token(cache: &mut AuthTokenCache, candidates: &Vec<Option<String>>) -> (r: Option<
    String,
>)
    ensures
        final(cache).is_set(),
        final(cache).token() == if old(cache).is_set() {
            old(cache).token()
        } else {
            first_token(texts_of(candidates@))
        },
        text_of(r) == final(cache).token(),
{
    if !cache.loaded {
        cache.token = load_auth_token(candidates);
        cache.loaded = true;
    }
    match &cache.token {
        Some(t) => Some(t.clone()),
        None => None,
    }
}

/// The address of the side channel.
pub fn side_channel_endpoint() -> (r: &'static str)
    ensures
        r@ == "127.0.0.1:5005"@,
{
    "127.0.0.1:5005"
}

/// The preamble that authenticates a connection.
pub open spec fn auth_json(token: Seq<char>) -> JsonValue {
    JsonValue::Object(seq![("auth_token"@, JsonValue::Text(token))])
}

/// The message that reports the focused window.
pub open spec fn focus_json(window_name: Seq<char>) -> JsonValue {
    JsonValue::Object(
        seq![
            ("type"@, JsonValue::Text("focus_update"@)),
            ("window_name"@, JsonValue::Text(window_name)),
        ],
    )
}

/// A document as one line: its text and a line feed.
pub open spec fn line_of(v: JsonValue) -> Seq<char> {
    rendered(v).push('\n')
}

/// What is sent over the side channel for one focus update: the preamble,
/// then the update, each one line.
#[derive(Debug, PartialEq, Eq)]
pub struct FocusNotice {
    pub auth_line: String,
    pub focus_line: String,
}

/// Ends what was written of a document with a line feed.
pub fn framed_line(written: String) -> (r: String)
    ensures
        r@ == written@.push('\n'),
{
    let mut line = written;
    push_char(&mut line, '\n');
    line
}

/// The preamble that authenticates a connection, as a document.
pub fn auth_document(token: &str) -> (r: Json)
    ensures
        r@ == auth_json(token@),
{
    let mut members = no_members();
    push_member(&mut members, "auth_token", text_document(token));
    assert(members_value(members@) =~= seq![("auth_token"@, JsonValue::Text(token@))]);
    object_document(members)
}

/// The message that reports the focused window, as a document.
pub fn focus_document(window_name: &str) -> (r: Json)
    ensures
        r@ == focus_json(window_name@),
{
    let mut members = no_members();
    push_member(&mut members, "type", text_document("focus_update"));
    push_member(&mut members, "window_name", text_document(window_name));
    assert(members_value(members@) =~= seq![
        ("type"@, JsonValue::Text("focus_update"@)),
        ("window_name"@, JsonValue::Text(window_name@)),
    ]);
    object_document(members)
}

/// What to send over the side channel when the focus is on `window_name`.
/// Without a credential nothing is sent and no connection is opened.
pub fn notify_kernel_focus(token: Option<&str>, window_name: &str) -> (r: Option<FocusNotice>)
    ensures
        r is None <==> token is None,
        r matches Some(notice) ==> notice.auth_line@ == line_of(auth_json(token->0@))
            && notice.focus_line@ == line_of(focus_json(window_name@)),
{
    match token {
        None => None,
        Some(t) => {
            let auth_line = framed_line(auth_document(t).render());
            let focus_line = framed_line(focus_document(window_name).render());
            Some(FocusNotice { auth_line, focus_line })
        },
    }
}

} // verus!
