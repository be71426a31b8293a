//! Turning approved actions into input steps.

use crate::json::{parsed, Json, JsonValue};
use crate::text::{
    chars_of, chars_spell, is_control, is_control_char,
    parts_view, push_char, split_chars, split_on, string_from_chars, string_from_range,
    to_uppercase, trim_bounds, trim_seq, uppercase,
};
use vstd::prelude::*;

verus! {

/// A character that typed text may hold: tab, line feed, carriage return,
/// and everything that is no control code.
pub open spec fn is_typeable(c: char) -> bool {
    c == '\t' || c == '\n' || c == '\r' || !is_control_char(c)
}

/// The typeable characters of `s`, in the order in which `s` holds them.
pub open spec fn sanitized(s: Seq<char>) -> Seq<char> {
    s.filter(|c: char| is_typeable(c))
}

/// Removes the control codes from `input`, all but tab, line feed and
/// carriage return. What stays keeps its order.
pub fn sanitize_text(input: &str) -> (out: String)
    ensures
        out@ == sanitized(input@),
{
    let chars = chars_of(input);
    let mut out = String::new();
    let mut i: usize = 0;
    assert(chars@.take(0) =~= Seq::<char>::empty());
    while i < chars.len()
        invariant
            i <= chars.len(),
            chars@ == input@,
            out@ == sanitized(chars@.take(i as int)),
        decreases chars.len() - i,
    {
        let c = chars[i];
        proof {
            let keep = |c: char| is_typeable(c);
            let before = chars@.take(i as int);
            assert(chars@.take(i + 1) =~= before.push(c));
            assert(before.push(c).drop_last() =~= before);
            reveal(Seq::filter);
            assert(before.push(c).filter(keep) == if keep(c) {
                before.filter(keep).push(c)
            } else {
                before.filter(keep)
            });
        }
        if c == '\t' || c == '\n' || c == '\r' || !is_control(c) {
            push_char(&mut out, c);
        }
        i += 1;
    }
    assert(chars@.take(chars@.len() as int) =~= chars@);
    out
}

/// A key of the keyboard.
#[derive(Clone, Copy, Debug, PartialEq, Eq, Structural)]
pub enum Key {
    Meta,
    Control,
    Alt,
    Shift,
    Return,
    Escape,
    Space,
    Tab,
    Backspace,
    Delete,
    LeftArrow,
    RightArrow,
    UpArrow,
    DownArrow,
    Home,
    End,
    PageUp,
    PageDown,
    /// The key that types this character.
    Unicode(char),
}

/// What is done to a key.
#[derive(Clone, Copy, Debug, PartialEq, Eq, Structural)]
pub enum Direction {
    Press,
    Release,
    /// Press, then release.
    Click,
}

/// One step of input injection. The injector performs the steps of a plan
/// one after the other and stops at the first that fails.
#[derive(Clone, Debug, PartialEq, Eq)]
pub enum InputStep {
    /// Block for so many milliseconds.
    Wait { ms: u64 },
    /// Type the text.
    Text(String),
    /// Move the pointer to an absolute position.
    MoveMouse { x: i32, y: i32 },
    /// Click the left button.
    ClickLeft,
    /// Press, release or click a key.
    Key { key: Key, direction: Direction },
}

/// What an `InputStep` stands for.
pub enum Step {
    Wait { ms: u64 },
    Text(Seq<char>),
    MoveMouse { x: i32, y: i32 },
    ClickLeft,
    Key { key: Key, direction: Direction },
}

impl View for InputStep {
    type V = Step;

    open spec fn view(&self) -> Step {
        match self {
            InputStep::Wait { ms } => Step::Wait { ms: *ms },
            InputStep::Text(s) => Step::Text(s@),
            InputStep::MoveMouse { x, y } => Step::MoveMouse { x: *x, y: *y },
            InputStep::ClickLeft => Step::ClickLeft,
            InputStep::Key { key, direction } => Step::Key { key: *key, direction: *direction },
        }
    }
}

/// Why an action could not be turned into input steps.
#[derive(Clone, Debug, PartialEq, Eq)]
pub enum EffectorError {
    /// The command is no JSON document.
    MalformedJson,
    /// The command has no string member `action`.
    MissingAction,
    /// The command has no member `payload`.
    MissingPayload,
    /// The action type is none of TYPE, KEY and CLICK.
    UnknownActionType(String),
    /// The payload has no string member `text`.
    MissingText,
    /// The payload has no integer member `x`.
    MissingX,
    /// The payload has no integer member `y`.
    MissingY,
    /// The payload has no string member `key`.
    MissingKey,
    /// A coordinate of the payload is no 32-bit integer.
    CoordinateOutOfRange,
    /// A part of a key combination names no key; it is given in upper case.
    UnknownComboPart(String),
    /// The key name is unknown.
    UnknownKey(String),
}

/// What an `EffectorError` stands for.
pub enum Failure {
    MalformedJson,
    MissingAction,
    MissingPayload,
    UnknownActionType(Seq<char>),
    MissingText,
    MissingX,
    MissingY,
    MissingKey,
    CoordinateOutOfRange,
    UnknownComboPart(Seq<char>),
    UnknownKey(Seq<char>),
}

impl View for EffectorError {
    type V = Failure;

    open spec fn view(&self) -> Failure {
        match self {
            EffectorError::MalformedJson => Failure::MalformedJson,
            EffectorError::MissingAction => Failure::MissingAction,
            EffectorError::MissingPayload => Failure::MissingPayload,
            EffectorError::UnknownActionType(s) => Failure::UnknownActionType(s@),
            EffectorError::MissingText => Failure::MissingText,
            EffectorError::MissingX => Failure::MissingX,
            EffectorError::MissingY => Failure::MissingY,
            EffectorError::MissingKey => Failure::MissingKey,
            EffectorError::CoordinateOutOfRange => Failure::CoordinateOutOfRange,
            EffectorError::UnknownComboPart(s) => Failure::UnknownComboPart(s@),
            EffectorError::UnknownKey(s) => Failure::UnknownKey(s@),
        }
    }
}

/// The pause before an action where its payload names none, in
/// milliseconds.
pub const DEFAULT_DELAY_MS: u64 = 100;

/// The pause after the Return key, so that the target can take the focus,
/// in milliseconds.
pub const RETURN_SETTLE_MS: u64 = 800;

/// The key that a name in upper case stands for, where the name is one of
/// the named keys.
pub open spec fn named_key(upper: Seq<char>) -> Option<Key> {
    if upper == "ENTER"@ || upper == "RETURN"@ {
        Some(Key::Return)
    } else if upper == "ESC"@ || upper == "ESCAPE"@ {
        Some(Key::Escape)
    } else if upper == "SPACE"@ {
        Some(Key::Space)
    } else if upper == "TAB"@ {
        Some(Key::Tab)
    } else if upper == "BACKSPACE"@ {
        Some(Key::Backspace)
    } else if upper == "DELETE"@ {
        Some(Key::Delete)
    } else if upper == "LEFT"@ {
        Some(Key::LeftArrow)
    } else if upper == "RIGHT"@ {
        Some(Key::RightArrow)
    } else if upper == "UP"@ {
        Some(Key::UpArrow)
    } else if upper == "DOWN"@ {
        Some(Key::DownArrow)
    } else if upper == "HOME"@ {
        Some(Key::Home)
    } else if upper == "END"@ {
        Some(Key::End)
    } else if upper == "PAGEUP"@ {
        Some(Key::PageUp)
    } else if upper == "PAGEDOWN"@ {
        Some(Key::PageDown)
    } else if upper == "GUI"@ || upper == "META"@ || upper == "WINDOWS"@ {
        Some(Key::Meta)
    } else {
        None
    }
}

/// The modifier that a name in upper case stands for.
pub open spec fn named_modifier(upper: Seq<char>) -> Option<Key> {
    if upper == "WIN"@ || upper == "GUI"@ || upper == "META"@ || upper == "WINDOWS"@ {
        Some(Key::Meta)
    } else if upper == "CTRL"@ || upper == "CONTROL"@ {
        Some(Key::Control)
    } else if upper == "ALT"@ {
        Some(Key::Alt)
    } else if upper == "SHIFT"@ {
        Some(Key::Shift)
    } else {
        None
    }
}

/// A string of one byte: one character below U+0080.
pub open spec fn is_single_byte(s: Seq<char>) -> bool {
    s.len() == 1 && (s[0] as u32) < 0x80
}

/// The key that a key name stands for, given the name as it was written
/// and in upper case: a named key, else the one character of a one-byte
/// name, as it was written.
pub open spec fn single_key(raw: Seq<char>, upper: Seq<char>) -> Result<Key, Failure> {
    match named_key(upper) {
        Some(key) => Ok(key),
        None => if is_single_byte(raw) {
            Ok(Key::Unicode(raw[0]))
        } else {
            Err(Failure::UnknownKey(raw))
        },
    }
}

/// The key that one part of a combination stands for, given the part
/// trimmed and in upper case: a modifier, else the one character of a
/// one-byte part.
pub open spec fn combo_key(upper: Seq<char>) -> Result<Key, Failure> {
    match named_modifier(upper) {
        Some(key) => Ok(key),
        None => if is_single_byte(upper) {
            Ok(Key::Unicode(upper[0]))
        } else {
            Err(Failure::UnknownComboPart(upper))
        },
    }
}

/// Reads a key name, given as it was written and in upper case.
pub fn single_key_from(raw: &str, upper: &str) -> (r: Result<Key, EffectorError>)
    ensures
        match r {
            Ok(key) => single_key(raw@, upper@) == Ok::<Key, Failure>(key),
            Err(e) => single_key(raw@, upper@) == Err::<Key, Failure>(e@),
        },
{
    let u = chars_of(upper);
    if chars_spell(&u, "ENTER") || chars_spell(&u, "RETURN") {
        Ok(Key::Return)
    } else if chars_spell(&u, "ESC") || chars_spell(&u, "ESCAPE") {
        Ok(Key::Escape)
    } else if chars_spell(&u, "SPACE") {
        Ok(Key::Space)
    } else if chars_spell(&u, "TAB") {
        Ok(Key::Tab)
    } else if chars_spell(&u, "BACKSPACE") {
        Ok(Key::Backspace)
    } else if chars_spell(&u, "DELETE") {
        Ok(Key::Delete)
    } else if chars_spell(&u, "LEFT") {
        Ok(Key::LeftArrow)
    } else if chars_spell(&u, "RIGHT") {
        Ok(Key::RightArrow)
    } else if chars_spell(&u, "UP") {
        Ok(Key::UpArrow)
    } else if chars_spell(&u, "DOWN") {
        Ok(Key::DownArrow)
    } else if chars_spell(&u, "HOME") {
        Ok(Key::Home)
    } else if chars_spell(&u, "END") {
        Ok(Key::End)
    } else if chars_spell(&u, "PAGEUP") {
        Ok(Key::PageUp)
    } else if chars_spell(&u, "PAGEDOWN") {
        Ok(Key::PageDown)
    } else if chars_spell(&u, "GUI") || chars_spell(&u, "META") || chars_spell(&u, "WINDOWS") {
        Ok(Key::Meta)
    } else {
        let r = chars_of(raw);
        if r.len() == 1 && (r[0] as u32) < 0x80 {
            Ok(Key::Unicode(r[0]))
        } else {
            let name = string_from_range(&r, 0, r.len());
            assert(r@.subrange(0, r@.len() as int) == r@);
            Err(EffectorError::UnknownKey(name))
        }
    }
}

/// Reads one part of a key combination, given trimmed and in upper case.
pub fn combo_key_from(upper: &str) -> (r: Result<Key, EffectorError>)
    ensures
        match r {
            Ok(key) => combo_key(upper@) == Ok::<Key, Failure>(key),
            Err(e) => combo_key(upper@) == Err::<Key, Failure>(e@),
        },
{
    let u = chars_of(upper);
    if chars_spell(&u, "WIN") || chars_spell(&u, "GUI") || chars_spell(&u, "META") || chars_spell(
        &u,
        "WINDOWS",
    ) {
        Ok(Key::Meta)
    } else if chars_spell(&u, "CTRL") || chars_spell(&u, "CONTROL") {
        Ok(Key::Control)
    } else if chars_spell(&u, "ALT") {
        Ok(Key::Alt)
    } else if chars_spell(&u, "SHIFT") {
        Ok(Key::Shift)
    } else if u.len() == 1 && (u[0] as u32) < 0x80 {
        Ok(Key::Unicode(u[0]))
    } else {
        let name = string_from_range(&u, 0, u.len());
        assert(u@.subrange(0, u@.len() as int) == u@);
        Err(EffectorError::UnknownComboPart(name))
    }
}

/// The keys of a combination, one for each part, each part trimmed and put
/// in upper case first; the failure of the first part that names no key.
pub open spec fn combo_keys(parts: Seq<Seq<char>>) -> Result<Seq<Key>, Failure>
    decreases parts.len(),
{
    if parts.len() == 0 {
        Ok(Seq::<Key>::empty())
    } else {
        match combo_keys(parts.drop_last()) {
            Err(e) => Err(e),
            Ok(keys) => match combo_key(uppercase(trim_seq(parts.last()))) {
                Err(e) => Err(e),
                Ok(key) => Ok(keys.push(key)),
            },
        }
    }
}

/// The steps of a combination: every key pressed, in order, then every key
/// released, in the opposite order.
pub open spec fn combo_steps(keys: Seq<Key>) -> Seq<Step> {
    Seq::new(keys.len(), |i: int| Step::Key { key: keys[i], direction: Direction::Press })
        + Seq::new(
        keys.len(),
        |i: int| Step::Key { key: keys[keys.len() - 1 - i], direction: Direction::Release },
    )
}

/// The steps of one key: a click, and after Return the settle pause.
pub open spec fn click_steps(key: Key) -> Seq<Step> {
    if key == Key::Return {
        seq![
            Step::Key { key, direction: Direction::Click },
            Step::Wait { ms: RETURN_SETTLE_MS },
        ]
    } else {
        seq![Step::Key { key, direction: Direction::Click }]
    }
}

/// The steps that a key description asks for. One with a plus sign is a
/// combination; any other is one key.
pub open spec fn key_plan(raw: Seq<char>) -> Result<Seq<Step>, Failure> {
    if raw.contains('+') {
        match combo_keys(split_on(raw, '+')) {
            Ok(keys) => Ok(combo_steps(keys)),
            Err(e) => Err(e),
        }
    } else {
        single_key_plan(raw, uppercase(raw))
    }
}

/// The views of the steps of a plan.
pub open spec fn steps_view(steps: Seq<InputStep>) -> Seq<Step> {
    Seq::new(steps.len(), |i: int| steps[i]@)
}

/// Tells whether `c` occurs in `v`.
fn has_char(v: &Vec<char>, c: char) -> (r: bool)
    ensures
        r == v@.contains(c),
{
    let mut i: usize = 0;
    while i < v.len()
        invariant
            i <= v.len(),
            forall|k: int| 0 <= k < i ==> v@[k] != c,
        decreases v.len() - i,
    {
        if v[i] == c {
            return true;
        }
        i += 1;
    }
    false
}

/// The key of one part of a combination.
fn part_key(part: &Vec<char>) -> (r: Result<Key, EffectorError>)
    ensures
        match r {
            Ok(key) => combo_key(uppercase(trim_seq(part@))) == Ok::<Key, Failure>(key),
            Err(e) => combo_key(uppercase(trim_seq(part@))) == Err::<Key, Failure>(e@),
        },
{
    let (a, b) = trim_bounds(part);
    let trimmed = string_from_range(part, a, b);
    let upper = to_uppercase(trimmed.as_str());
    combo_key_from(upper.as_str())
}

/// `front` is a prefix of `whole`.
pub open spec fn is_prefix<A>(front: Seq<A>, whole: Seq<A>) -> bool {
    front.len() <= whole.len() && whole.take(front.len() as int) == front
}

/// Where the parts up to some point hold one that names no key, the whole
/// combination fails in the same way.
pub proof fn lemma_combo_keys_prefix_failure(front: Seq<Seq<char>>, whole: Seq<Seq<char>>)
    requires
        is_prefix(front, whole),
        combo_keys(front) is Err,
    ensures
        combo_keys(whole) == combo_keys(front),
    decreases whole.len(),
{
    if front.len() < whole.len() {
        assert(whole.drop_last().take(front.len() as int) =~= whole.take(front.len() as int));
        lemma_combo_keys_prefix_failure(front, whole.drop_last());
    } else {
        assert(whole.take(whole.len() as int) =~= whole);
    }
}

/// The keys of the combination that `chars` describes.
fn combo_keys_of(chars: &Vec<char>) -> (r: Result<Vec<Key>, EffectorError>)
    ensures
        match r {
            Ok(keys) => combo_keys(split_on(chars@, '+')) == Ok::<Seq<Key>, Failure>(keys@),
            Err(e) => combo_keys(split_on(chars@, '+')) == Err::<Seq<Key>, Failure>(e@),
        },
{
    let parts = split_chars(chars, '+');
    let ghost all = parts_view(parts@);
    let mut keys: Vec<Key> = Vec::new();
    let mut i: usize = 0;
    assert(all.take(0) =~= Seq::<Seq<char>>::empty());
    while i < parts.len()
        invariant
            i <= parts.len(),
            all == parts_view(parts@),
            all == split_on(chars@, '+'),
            combo_keys(all.take(i as int)) == Ok::<Seq<Key>, Failure>(keys@),
        decreases parts.len() - i,
    {
        proof {
            let next = all.take(i + 1);
            assert(next.drop_last() =~= all.take(i as int));
            assert(next.last() == parts@[i as int]@);
        }
        match part_key(&parts[i]) {
            Ok(k) => {
                keys.push(k);
            },
            Err(e) => {
                proof {
                    let front = all.take(i + 1);
                    assert(all.take(front.len() as int) == front);
                    lemma_combo_keys_prefix_failure(front, all);
                }
                return Err(e);
            },
        }
        i += 1;
    }
    assert(all.take(all.len() as int) =~= all);
    Ok(keys)
}

/// What a planner returned agrees with what the plan is.
pub open spec fn agrees(
    r: Result<Vec<InputStep>, EffectorError>,
    plan: Result<Seq<Step>, Failure>,
) -> bool {
    match r {
        Ok(steps) => plan == Ok::<Seq<Step>, Failure>(steps_view(steps@)),
        Err(e) => plan == Err::<Seq<Step>, Failure>(e@),
    }
}

/// The steps of one key, or the failure of reading it.
pub open spec fn single_key_plan(raw: Seq<char>, upper: Seq<char>) -> Result<Seq<Step>, Failure> {
    match single_key(raw, upper) {
        Ok(key) => Ok(click_steps(key)),
        Err(e) => Err(e),
    }
}

/// The input steps of a combination of keys: every key pressed, in order,
/// then every key released, in the opposite order.
pub fn combo_steps_of(keys: &Vec<Key>) -> (steps: Vec<InputStep>)
    ensures
        steps_view(steps@) == combo_steps(keys@),
{
    let mut steps: Vec<InputStep> = Vec::new();
    let n = keys.len();
    let mut i: usize = 0;
    while i < n
        invariant
            n == keys.len(),
            i <= n,
            steps.len() == i,
            forall|k: int|
                0 <= k < i ==> (#[trigger] steps@[k])@ == (Step::Key {
                    key: keys@[k],
                    direction: Direction::Press,
                }),
        decreases n - i,
    {
        steps.push(InputStep::Key { key: keys[i], direction: Direction::Press });
        i += 1;
    }
    let mut j: usize = 0;
    while j < n
        invariant
            n == keys.len(),
            j <= n,
            steps.len() == n + j,
            forall|k: int|
                0 <= k < n ==> (#[trigger] steps@[k])@ == (Step::Key {
                    key: keys@[k],
                    direction: Direction::Press,
                }),
            forall|k: int|
                n <= k < n + j ==> (#[trigger] steps@[k])@ == (Step::Key {
                    key: keys@[2 * n - 1 - k],
                    direction: Direction::Release,
                }),
        decreases n - j,
    {
        steps.push(InputStep::Key { key: keys[n - 1 - j], direction: Direction::Release });
        j += 1;
    }
    proof {
        let built = steps_view(steps@);
        let wanted = combo_steps(keys@);
        assert(built.len() == wanted.len());
        assert forall|k: int| 0 <= k < built.len() implies built[k] == wanted[k] by {
            assert(built[k] == steps@[k]@);
        }
        assert(built =~= wanted);
    }
    steps
}

/// The input steps of one key, given its name as it was written and in
/// upper case: a click, and after Return the settle pause.
pub fn single_key_steps(raw: &str, upper: &str) -> (r: Result<Vec<InputStep>, EffectorError>)
    ensures
        agrees(r, single_key_plan(raw@, upper@)),
{
    match single_key_from(raw, upper) {
        Ok(key) => {
            let mut steps: Vec<InputStep> = Vec::new();
            steps.push(InputStep::Key { key, direction: Direction::Click });
            if matches!(key, Key::Return) {
                steps.push(InputStep::Wait { ms: RETURN_SETTLE_MS });
            }
            assert(steps_view(steps@) =~= click_steps(key));
            Ok(steps)
        },
        Err(e) => Err(e),
    }
}

/// The input steps for a key description such as `enter`, `a` or `ctrl+k`.
pub fn press_key_steps(key_str: &str) -> (r: Result<Vec<InputStep>, EffectorError>)
    ensures
        agrees(r, key_plan(key_str@)),
{
    let chars = chars_of(key_str);
    if has_char(&chars, '+') {
        match combo_keys_of(&chars) {
            Ok(keys) => Ok(combo_steps_of(&keys)),
            Err(e) => Err(e),
        }
    } else {
        let upper = to_uppercase(key_str);
        single_key_steps(key_str, upper.as_str())
    }
}

/// The kinds of action that the injector knows.
#[derive(Clone, Copy, Debug, PartialEq, Eq, Structural)]
pub enum ActionKind {
    TypeText,
    Click,
    PressKey,
}

/// The parameters of an action, read from its payload.
#[derive(Clone, Debug, PartialEq, Eq)]
pub enum ActionPayload {
    TypeText { text: String },
    Click { x: i32, y: i32 },
    PressKey { key: String },
}

/// What an `ActionPayload` stands for.
pub enum Parameters {
    TypeText { text: Seq<char> },
    Click { x: i32, y: i32 },
    PressKey { key: Seq<char> },
}

impl View for ActionPayload {
    type V = Parameters;

    open spec fn view(&self) -> Parameters {
        match self {
            ActionPayload::TypeText { text } => Parameters::TypeText { text: text@ },
            ActionPayload::Click { x, y } => Parameters::Click { x: *x, y: *y },
            ActionPayload::PressKey { key } => Parameters::PressKey { key: key@ },
        }
    }
}

/// A coordinate that the pointer can be moved to: a 32-bit integer.
pub open spec fn is_coordinate(n: i64) -> bool {
    -0x8000_0000 <= n <= 0x7fff_ffff
}

/// The parameters of an action of some kind, as its payload gives them. A
/// click needs both coordinates, and each must be a 32-bit integer.
pub open spec fn parameters_of(kind: ActionKind, payload: JsonValue) -> Result<
    Parameters,
    Failure,
> {
    match kind {
        ActionKind::TypeText => match payload.text_field("text"@) {
            Some(text) => Ok(Parameters::TypeText { text }),
            None => Err(Failure::MissingText),
        },
        ActionKind::Click => match payload.signed_field("x"@) {
            None => Err(Failure::MissingX),
            Some(x) => match payload.signed_field("y"@) {
                None => Err(Failure::MissingY),
                Some(y) => if is_coordinate(x) && is_coordinate(y) {
                    Ok(Parameters::Click { x: x as i32, y: y as i32 })
                } else {
                    Err(Failure::CoordinateOutOfRange)
                },
            },
        },
        ActionKind::PressKey => match payload.text_field("key"@) {
            Some(key) => Ok(Parameters::PressKey { key }),
            None => Err(Failure::MissingKey),
        },
    }
}

/// The pause that a payload asks for: its member `delay_ms`, and the
/// default where it has none.
pub open spec fn delay_of(payload: JsonValue) -> u64 {
    match payload.unsigned_field("delay_ms"@) {
        Some(ms) => ms,
        None => DEFAULT_DELAY_MS,
    }
}

/// The steps of an action with the given parameters. Text is typed without
/// its control codes; a click moves, pauses, then clicks.
pub open spec fn parameter_plan(p: Parameters, delay: u64) -> Result<Seq<Step>, Failure> {
    match p {
        Parameters::TypeText { text } => Ok(seq![Step::Text(sanitized(text))]),
        Parameters::Click { x, y } => Ok(
            seq![Step::MoveMouse { x, y }, Step::Wait { ms: delay }, Step::ClickLeft],
        ),
        Parameters::PressKey { key } => key_plan(key),
    }
}

/// The steps of an action of some kind with the given payload.
pub open spec fn kind_plan(kind: ActionKind, payload: JsonValue) -> Result<Seq<Step>, Failure> {
    match parameters_of(kind, payload) {
        Ok(p) => parameter_plan(p, delay_of(payload)),
        Err(e) => Err(e),
    }
}

impl ActionPayload {
    /// Reads the parameters of an action of the given kind from its payload.
    pub fn read(kind: ActionKind, payload: &Json) -> (r: Result<ActionPayload, EffectorError>)
        ensures
            match r {
                Ok(p) => parameters_of(kind, payload@) == Ok::<Parameters, Failure>(p@),
                Err(e) => parameters_of(kind, payload@) == Err::<Parameters, Failure>(e@),
            },
    {
        match kind {
            ActionKind::TypeText => match payload.str_field("text") {
                Some(text) => {
                    let v = chars_of(text);
                    Ok(ActionPayload::TypeText { text: string_from_chars(&v) })
                },
                None => Err(EffectorError::MissingText),
            },
            ActionKind::Click => match payload.i64_field("x") {
                None => Err(EffectorError::MissingX),
                Some(x) => match payload.i64_field("y") {
                    None => Err(EffectorError::MissingY),
                    Some(y) => if -0x8000_0000 <= x && x <= 0x7fff_ffff && -0x8000_0000 <= y && y
                        <= 0x7fff_ffff {
                        Ok(ActionPayload::Click { x: x as i32, y: y as i32 })
                    } else {
                        Err(EffectorError::CoordinateOutOfRange)
                    },
                },
            },
            ActionKind::PressKey => match payload.str_field("key") {
                Some(key) => {
                    let v = chars_of(key);
                    Ok(ActionPayload::PressKey { key: string_from_chars(&v) })
                },
                None => Err(EffectorError::MissingKey),
            },
        }
    }

    /// The input steps of the action, with the pause that a click takes
    /// between moving and clicking.
    pub fn steps(&self, delay: u64) -> (r: Result<Vec<InputStep>, EffectorError>)
        ensures
            agrees(r, parameter_plan(self@, delay)),
    {
        match self {
            ActionPayload::TypeText { text } => {
                let mut steps: Vec<InputStep> = Vec::new();
                steps.push(InputStep::Text(sanitize_text(text.as_str())));
                assert(steps_view(steps@) =~= seq![Step::Text(sanitized(text@))]);
                Ok(steps)
            },
            ActionPayload::Click { x, y } => {
                let mut steps: Vec<InputStep> = Vec::new();
                steps.push(InputStep::MoveMouse { x: *x, y: *y });
                steps.push(InputStep::Wait { ms: delay });
                steps.push(InputStep::ClickLeft);
                assert(steps_view(steps@) =~= seq![
                    Step::MoveMouse { x: *x, y: *y },
                    Step::Wait { ms: delay },
                    Step::ClickLeft,
                ]);
                Ok(steps)
            },
            ActionPayload::PressKey { key } => press_key_steps(key.as_str()),
        }
    }
}

/// The pause that a payload asks for.
pub fn delay_ms(payload: &Json) -> (r: u64)
    ensures
        r == delay_of(payload@),
{
    match payload.u64_field("delay_ms") {
        Some(ms) => ms,
        None => DEFAULT_DELAY_MS,
    }
}

/// The input steps of an action of the given kind with the given payload.
pub fn kind_steps(kind: ActionKind, payload: &Json) -> (r: Result<Vec<InputStep>, EffectorError>)
    ensures
        agrees(r, kind_plan(kind, payload@)),
{
    match ActionPayload::read(kind, payload) {
        Ok(p) => p.steps(delay_ms(payload)),
        Err(e) => Err(e),
    }
}

/// The kind of action that the action type of a command, in upper case,
/// names.
pub open spec fn command_kind(upper: Seq<char>) -> Option<ActionKind> {
    if upper == "TYPE"@ {
        Some(ActionKind::TypeText)
    } else if upper == "KEY"@ {
        Some(ActionKind::PressKey)
    } else if upper == "CLICK"@ {
        Some(ActionKind::Click)
    } else {
        None
    }
}

/// The kind of action that an action type names, given the type in upper
/// case.
pub fn command_kind_from(upper: &str) -> (r: Option<ActionKind>)
    ensures
        r == command_kind(upper@),
{
    let u = chars_of(upper);
    if chars_spell(&u, "TYPE") {
        Some(ActionKind::TypeText)
    } else if chars_spell(&u, "KEY") {
        Some(ActionKind::PressKey)
    } else if chars_spell(&u, "CLICK") {
        Some(ActionKind::Click)
    } else {
        None
    }
}

/// The steps of a command of the local interface, given the document that
/// was read from its line: its string member `action` names the kind, case
/// aside, and its member `payload` holds the parameters.
pub open spec fn command_plan(doc: Option<JsonValue>) -> Result<Seq<Step>, Failure> {
    match doc {
        None => Err(Failure::MalformedJson),
        Some(v) => match v.text_field("action"@) {
            None => Err(Failure::MissingAction),
            Some(action) => match v.field("payload"@) {
                None => Err(Failure::MissingPayload),
                Some(payload) => match command_kind(uppercase(action)) {
                    None => Err(Failure::UnknownActionType(action)),
                    Some(kind) => kind_plan(kind, payload),
                },
            },
        },
    }
}

/// The input steps of a command that was read as a document.
pub fn command_steps(doc: &Json) -> (r: Result<Vec<InputStep>, EffectorError>)
    ensures
        agrees(r, command_plan(Some(doc@))),
{
    let action = match doc.str_field("action") {
        Some(a) => a,
        None => {
            return Err(EffectorError::MissingAction);
        },
    };
    let payload = match doc.get("payload") {
        Some(p) => p,
        None => {
            return Err(EffectorError::MissingPayload);
        },
    };
    let upper = to_uppercase(action);
    match command_kind_from(upper.as_str()) {
        Some(kind) => kind_steps(kind, payload),
        None => {
            let v = chars_of(action);
            Err(EffectorError::UnknownActionType(string_from_chars(&v)))
        },
    }
}

/// The input steps of one line of the local command interface, a JSON
/// document of the shape `{"action": .., "payload": ..}`.
pub fn execute_action_json(json_str: &str) -> (r: Result<Vec<InputStep>, EffectorError>)
    ensures
        agrees(r, command_plan(parsed(json_str@))),
{
    match Json::parse(json_str) {
        Ok(doc) => command_steps(&doc),
        Err(_) => Err(EffectorError::MalformedJson),
    }
}

/// An action that the remote authority approved.
#[derive(Debug, PartialEq, Eq)]
pub struct ActionProposal {
    pub id: String,
    pub intent: String,
    pub payload: Json,
    pub domain: String,
    pub status: String,
}

/// What executing a proposal adds to the plan, and the failure it ends in:
/// the pause first, then the steps of the kind that the intent names, case
/// aside. An intent that is none of TYPE, KEY and CLICK adds the pause
/// alone and is no failure.
pub open spec fn proposal_plan(upper_intent: Seq<char>, payload: JsonValue) -> (
    Seq<Step>,
    Option<Failure>,
) {
    let pause = seq![Step::Wait { ms: delay_of(payload) }];
    match command_kind(upper_intent) {
        None => (pause, None),
        Some(kind) => match kind_plan(kind, payload) {
            Ok(steps) => (pause + steps, None),
            Err(e) => (pause, Some(e)),
        },
    }
}

/// An unknown type is no error: a proposal whose intent is none of TYPE,
/// KEY and CLICK adds the pause to the plan, nothing else, and does not
/// fail, whatever its payload holds.
pub proof fn lemma_unknown_intent_is_no_error(upper_intent: Seq<char>, payload: JsonValue)
    requires
        upper_intent != "TYPE"@,
        upper_intent != "KEY"@,
        upper_intent != "CLICK"@,
    ensures
        proposal_plan(upper_intent, payload) == (
            seq![Step::Wait { ms: delay_of(payload) }],
            None::<Failure>,
        ),
{
}

/// The recorder of input steps. Executing an action appends its steps to
/// the plan; the one thread that owns the injector takes the plan and
/// performs it, so that all input goes through one place, in order.
#[derive(Debug, PartialEq, Eq)]
pub struct Effector {
    steps: Vec<InputStep>,
}

impl Effector {
    /// The steps recorded and not yet taken, in the order of recording.
    pub closed spec fn plan(&self) -> Seq<Step> {
        steps_view(self.steps@)
    }

    /// An effector with an empty plan.
    pub fn new() -> (r: Effector)
        ensures
            r.plan() == Seq::<Step>::empty(),
    {
        let r = Effector { steps: Vec::new() };
        assert(r.plan() =~= Seq::<Step>::empty());
        r
    }

    /// The number of steps recorded and not yet taken.
    pub fn pending(&self) -> (n: usize)
        ensures
            n == self.plan().len(),
    {
        self.steps.len()
    }

    /// Hands out the recorded steps and leaves the plan empty.
    pub fn take_steps(&mut self) -> (r: Vec<InputStep>)
        ensures
            steps_view(r@) == old(self).plan(),
            final(self).plan() == Seq::<Step>::empty(),
    {
        let mut out: Vec<InputStep> = Vec::new();
        std::mem::swap(&mut out, &mut self.steps);
        assert(self.plan() =~= Seq::<Step>::empty());
        out
    }

    /// Appends steps to the plan.
    fn record(&mut self, steps: Vec<InputStep>)
        ensures
            final(self).plan() == old(self).plan() + steps_view(steps@),
    {
        let ghost before = self.steps@;
        let mut steps = steps;
        let ghost added = steps@;
        self.steps.append(&mut steps);
        assert(self.steps@ == before + added);
        assert(steps_view(before + added) =~= steps_view(before) + steps_view(added));
    }

    /// Appends the steps of a planner's result to the plan; a failure
    /// leaves the plan as it is.
    fn record_result(&mut self, r: Result<Vec<InputStep>, EffectorError>) -> (out: Result<
        (),
        EffectorError,
    >)
        ensures
            match r {
                Ok(steps) => out is Ok && final(self).plan() == old(self).plan() + steps_view(
                    steps@,
                ),
                Err(e) => {
                    &&& out == Err::<(), EffectorError>(e)
                    &&& final(self).plan() == old(self).plan()
                },
            },
    {
        match r {
            Ok(steps) => {
                self.record(steps);
                Ok(())
            },
            Err(e) => Err(e),
        }
    }

    /// Records the steps of an action of the given kind.
    pub fn execute_kind(&mut self, kind: ActionKind, payload: &Json) -> (r: Result<
        (),
        EffectorError,
    >)
        ensures
            match kind_plan(kind, payload@) {
                Ok(steps) => r is Ok && final(self).plan() == old(self).plan() + steps,
                Err(f) => r matches Err(e) && e@ == f && final(self).plan() == old(self).plan(),
            },
    {
        let planned = kind_steps(kind, payload);
        self.record_result(planned)
    }

    /// Records typing the text of the payload, without its control codes.
    pub fn execute_type_text(&mut self, payload: &Json) -> (r: Result<(), EffectorError>)
        ensures
            match kind_plan(ActionKind::TypeText, payload@) {
                Ok(steps) => r is Ok && final(self).plan() == old(self).plan() + steps,
                Err(f) => r matches Err(e) && e@ == f && final(self).plan() == old(self).plan(),
            },
    {
        self.execute_kind(ActionKind::TypeText, payload)
    }

    /// Records a click of the left button at the position of the payload.
    pub fn execute_click(&mut self, payload: &Json) -> (r: Result<(), EffectorError>)
        ensures
            match kind_plan(ActionKind::Click, payload@) {
                Ok(steps) => r is Ok && final(self).plan() == old(self).plan() + steps,
                Err(f) => r matches Err(e) && e@ == f && final(self).plan() == old(self).plan(),
            },
    {
        self.execute_kind(ActionKind::Click, payload)
    }

    /// Records pressing the key or the combination of the payload.
    pub fn execute_press_key(&mut self, payload: &Json) -> (r: Result<(), EffectorError>)
        ensures
            match kind_plan(ActionKind::PressKey, payload@) {
                Ok(steps) => r is Ok && final(self).plan() == old(self).plan() + steps,
                Err(f) => r matches Err(e) && e@ == f && final(self).plan() == old(self).plan(),
            },
    {
        self.execute_kind(ActionKind::PressKey, payload)
    }

    /// Records an approved action, given its intent in upper case.
    pub fn execute_intent(&mut self, upper_intent: &str, payload: &Json) -> (r: Result<
        (),
        EffectorError,
    >)
        ensures
            final(self).plan() == old(self).plan() + proposal_plan(upper_intent@, payload@).0,
            match proposal_plan(upper_intent@, payload@).1 {
                None => r is Ok,
                Some(f) => r matches Err(e) && e@ == f,
            },
    {
        let mut pause: Vec<InputStep> = Vec::new();
        pause.push(InputStep::Wait { ms: delay_ms(payload) });
        assert(steps_view(pause@) =~= seq![Step::Wait { ms: delay_of(payload@) }]);
        self.record(pause);
        match command_kind_from(upper_intent) {
            Some(kind) => {
                let ghost mid = self.plan();
                let r = self.execute_kind(kind, payload);
                proof {
                    let pause_steps = seq![Step::Wait { ms: delay_of(payload@) }];
                    if let Ok(steps) = kind_plan(kind, payload@) {
                        assert(old(self).plan() + pause_steps + steps =~= old(self).plan() + (
                        pause_steps + steps));
                    }
                }
                r
            },
            None => Ok(()),
        }
    }

    /// Records an approved action: a pause, then the steps of the kind that
    /// the intent names.
    pub fn execute_action(&mut self, action: &ActionProposal) -> (r: Result<(), EffectorError>)
        ensures
            final(self).plan() == old(self).plan() + proposal_plan(
                uppercase(action.intent@),
                action.payload@,
            ).0,
            match proposal_plan(uppercase(action.intent@), action.payload@).1 {
                None => r is Ok,
                Some(f) => r matches Err(e) && e@ == f,
            },
    {
        let upper = to_uppercase(action.intent.as_str());
        self.execute_intent(upper.as_str(), &action.payload)
    }
}

} // verus!
