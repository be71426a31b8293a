//! The shared operating mode and the authority that keeps it.

use crate::json::{parsed, Json, JsonValue};
use crate::text::str_equal;
use vstd::prelude::*;

verus! {

/// The operating mode that the remote authority asks for.
#[derive(Clone, Copy, Debug, PartialEq, Eq, Structural)]
pub enum AppState {
    /// Observe, act and index.
    Active,
    /// Observe and index, never act.
    Shadow,
    /// Dormant.
    Paused,
}

impl AppState {
    /// The mode that a name stands for. Names are upper case and exact.
    pub open spec fn named(s: Seq<char>) -> Option<AppState> {
        if s == "ACTIVE"@ {
            Some(AppState::Active)
        } else if s == "SHADOW"@ {
            Some(AppState::Shadow)
        } else if s == "PAUSED"@ {
            Some(AppState::Paused)
        } else {
            None
        }
    }

    /// Capture runs in every mode but `Paused`.
    pub open spec fn captures(self) -> bool {
        self != AppState::Paused
    }

    /// Actions run in `Active` alone.
    pub open spec fn acts(self) -> bool {
        self == AppState::Active
    }

    /// Indexing runs in every mode but `Paused`.
    pub open spec fn indexes(self) -> bool {
        self != AppState::Paused
    }

    /// Reads a mode from its name.
    pub fn from_str(s: &str) -> (r: Option<AppState>)
        ensures
            r == AppState::named(s@),
    {
        if str_equal(s, "ACTIVE") {
            Some(AppState::Active)
        } else if str_equal(s, "SHADOW") {
            Some(AppState::Shadow)
        } else if str_equal(s, "PAUSED") {
            Some(AppState::Paused)
        } else {
            None
        }
    }

    /// The name of the mode, which `from_str` reads back.
    pub fn as_str(&self) -> (r: &'static str)
        ensures
            AppState::named(r@) == Some(*self),
    {
        proof {
            lemma_names_differ();
        }
        match self {
            AppState::Active => "ACTIVE",
            AppState::Shadow => "SHADOW",
            AppState::Paused => "PAUSED",
        }
    }

    /// Tells whether focus may be captured in this mode.
    pub fn allows_capture(&self) -> (r: bool)
        ensures
            r == self.captures(),
    {
        !matches!(self, AppState::Paused)
    }

    /// Tells whether actions may be executed in this mode.
    pub fn allows_actions(&self) -> (r: bool)
        ensures
            r == self.acts(),
    {
        matches!(self, AppState::Active)
    }

    /// Tells whether files may be indexed in this mode.
    pub fn allows_indexing(&self) -> (r: bool)
        ensures
            r == self.indexes(),
    {
        !matches!(self, AppState::Paused)
    }
}

/// The three names are three different strings.
pub proof fn lemma_names_differ()
    ensures
        "ACTIVE"@ != "SHADOW"@,
        "ACTIVE"@ != "PAUSED"@,
        "SHADOW"@ != "PAUSED"@,
{
    reveal_strlit("ACTIVE");
    reveal_strlit("SHADOW");
    reveal_strlit("PAUSED");
    assert("ACTIVE"@[0] == 'A');
    assert("SHADOW"@[0] == 'S');
    assert("PAUSED"@[0] == 'P');
}

/// Whoever acts is allowed to capture and to index: `Active` is the one
/// mode that permits everything, and no mode permits action alone.
pub proof fn lemma_action_implies_observation(state: AppState)
    ensures
        state.acts() ==> state.captures() && state.indexes(),
        state.captures() == state.indexes(),
{
}

/// What the remote state endpoint answered.
#[derive(Debug, PartialEq, Eq)]
pub enum StateReply {
    /// The request failed before any answer came.
    Unreachable,
    /// An answer with its status code and its body.
    Answer { status: u16, body: String },
}

/// The mode that a document asks for: that of its string member `state`,
/// and `Shadow` where it has none or the name is unknown.
pub open spec fn state_of_document(doc: Option<JsonValue>) -> AppState {
    match doc {
        Some(v) => match v.text_field("state"@) {
            Some(name) => match AppState::named(name) {
                Some(state) => state,
                None => AppState::Shadow,
            },
            None => AppState::Shadow,
        },
        None => AppState::Shadow,
    }
}

/// The mode that an answer resolves to. Everything but a status of 200 with
/// a body that names a mode resolves to `Shadow`.
pub open spec fn resolved_state(reply: StateReply) -> AppState {
    match reply {
        StateReply::Unreachable => AppState::Shadow,
        StateReply::Answer { status, body } => if status == 200 {
            state_of_document(parsed(body@))
        } else {
            AppState::Shadow
        },
    }
}

/// The mode that a parsed body asks for.
pub fn state_from_document(doc: &Json) -> (r: AppState)
    ensures
        r == state_of_document(Some(doc@)),
{
    match doc.str_field("state") {
        Some(name) => match AppState::from_str(name) {
            Some(state) => state,
            None => AppState::Shadow,
        },
        None => AppState::Shadow,
    }
}

/// Resolves an answer of the state endpoint to a mode. No answer leaves the
/// mode unset: what cannot be read is `Shadow`.
pub fn resolve_state(reply: &StateReply) -> (r: AppState)
    ensures
        r == resolved_state(*reply),
        !(reply matches StateReply::Answer { status, .. } && status == 200) ==> r
            == AppState::Shadow,
{
    match reply {
        StateReply::Unreachable => AppState::Shadow,
        StateReply::Answer { status, body } => {
            if *status != 200 {
                return AppState::Shadow;
            }
            match Json::parse(body.as_str()) {
                Ok(doc) => state_from_document(&doc),
                Err(_) => AppState::Shadow,
            }
        },
    }
}

/// A change of mode, as the poll routine saw it.
#[derive(Clone, Copy, Debug, PartialEq, Eq, Structural)]
pub struct Transition {
    pub from: AppState,
    pub to: AppState,
}

/// The one owner of the mode. Workers read it; only `refresh` replaces it.
#[derive(Debug, PartialEq, Eq)]
pub struct ModeAuthority {
    current: AppState,
}

impl ModeAuthority {
    /// The mode that the authority holds.
    pub closed spec fn mode(&self) -> AppState {
        self.current
    }

    /// An authority that holds `initial`.
    pub fn new(initial: AppState) -> (r: ModeAuthority)
        ensures
            r.mode() == initial,
    {
        ModeAuthority { current: initial }
    }

    /// The latest known mode.
    pub fn current(&self) -> (r: AppState)
        ensures
            r == self.mode(),
    {
        self.current
    }

    /// Replaces the mode with what was observed, and reports the change
    /// where there is one. Any mode may follow any other.
    pub fn refresh(&mut self, observed: AppState) -> (t: Option<Transition>)
        ensures
            final(self).mode() == observed,
            t == if old(self).mode() != observed {
                Some(Transition { from: old(self).mode(), to: observed })
            } else {
                None::<Transition>
            },
    {
        let before = self.current;
        self.current = observed;
        if before != observed {
            Some(Transition { from: before, to: observed })
        } else {
            None
        }
    }

    /// Replaces the mode with what an answer of the state endpoint resolves
    /// to.
    pub fn refresh_from(&mut self, reply: &StateReply) -> (t: Option<Transition>)
        ensures
            final(self).mode() == resolved_state(*reply),
            t == if old(self).mode() != resolved_state(*reply) {
                Some(Transition { from: old(self).mode(), to: resolved_state(*reply) })
            } else {
                None::<Transition>
            },
    {
        let observed = resolve_state(reply);
        self.refresh(observed)
    }
}

/// The address of the remote authority's web interface.
pub fn api_base_url() -> (r: &'static str)
    ensures
        r@ == "http://localhost:3000"@,
{
    "http://localhost:3000"
}

/// The address of the state endpoint below a base address.
pub fn state_endpoint(base: &str) -> (r: String)
    ensures
        r@ == base@ + "/api/state"@,
{
    let mut r = String::from_str(base);
    r.append("/api/state");
    r
}

} // verus!
