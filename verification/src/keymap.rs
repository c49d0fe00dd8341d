//! Key bindings — the single source of truth for the keyboard and mouse
//! controls. The input handling ([`pressed`]) and what the user is told
//! ([`tooltip`], the cheatsheet over [`bindings`] / [`mouse`]) read this one
//! table, so a tooltip can never drift from what the keys do.

use vstd::prelude::*;
use crate::text::concat_str;

verus! {

/// A keyboard-driven UI action.
#[derive(Clone, Copy, PartialEq, Eq, Debug, Structural)]
pub enum UiAction {
    /// Toggle the run/pause state of the sim clock.
    PlayPause,
    /// Advance exactly one fixed tick (only while paused).
    StepOnce,
    /// Rebuild the world from the current config.
    ResetWorld,
    /// Recenter the view on the whole arena.
    ResetView,
    /// Delete the entity under the cursor.
    DeleteUnderCursor,
    /// Show/hide the keyboard-shortcuts cheatsheet.
    ToggleShortcuts,
    /// Fold/unfold the left column.
    ToggleLeftPanel,
    /// Fold/unfold the right column.
    ToggleRightPanel,
    /// Fold/unfold the bottom strip.
    ToggleBottomPanel,
}

/// The physical keys the bindings use.
#[derive(Clone, Copy, PartialEq, Eq, Debug, Structural)]
pub enum Key {
    Space,
    ArrowRight,
    KeyR,
    Home,
    Delete,
    Backspace,
    Slash,
    F1,
    Digit1,
    Digit2,
    Digit3,
}

/// One row of the binding table.
pub struct Binding {
    pub action: UiAction,
    /// Any of these keys fires the action.
    pub keys: Vec<Key>,
    /// How the key(s) read in a tooltip or the cheatsheet.
    pub keys_text: &'static str,
    /// Human-readable description of the action.
    pub label: &'static str,
    /// When the binding applies; empty if always.
    pub when: &'static str,
}

/// Number of rows of the binding table.
pub const BINDING_COUNT: usize = 9;

/// The action of row `i`.
pub open spec fn row_action(i: int) -> UiAction {
    if i == 0 { UiAction::PlayPause }
    else if i == 1 { UiAction::StepOnce }
    else if i == 2 { UiAction::ResetWorld }
    else if i == 3 { UiAction::ResetView }
    else if i == 4 { UiAction::DeleteUnderCursor }
    else if i == 5 { UiAction::ToggleShortcuts }
    else if i == 6 { UiAction::ToggleLeftPanel }
    else if i == 7 { UiAction::ToggleRightPanel }
    else { UiAction::ToggleBottomPanel }
}

/// The keys of row `i`.
pub open spec fn row_keys(i: int) -> Seq<Key> {
    if i == 0 { seq![Key::Space] }
    else if i == 1 { seq![Key::ArrowRight] }
    else if i == 2 { seq![Key::KeyR] }
    else if i == 3 { seq![Key::Home] }
    else if i == 4 { seq![Key::Delete, Key::Backspace] }
    else if i == 5 { seq![Key::Slash, Key::F1] }
    else if i == 6 { seq![Key::Digit1] }
    else if i == 7 { seq![Key::Digit2] }
    else { seq![Key::Digit3] }
}

/// How the keys of row `i` read.
pub open spec fn row_keys_text(i: int) -> Seq<char> {
    if i == 0 { "Space"@ }
    else if i == 1 { "→"@ }
    else if i == 2 { "R"@ }
    else if i == 3 { "Home"@ }
    else if i == 4 { "Del / Backspace"@ }
    else if i == 5 { "?"@ }
    else if i == 6 { "1"@ }
    else if i == 7 { "2"@ }
    else { "3"@ }
}

/// The description of row `i`.
pub open spec fn row_label(i: int) -> Seq<char> {
    if i == 0 { "Play / pause"@ }
    else if i == 1 { "Advance one tick"@ }
    else if i == 2 { "Rebuild the world from the config"@ }
    else if i == 3 { "Recenter the view"@ }
    else if i == 4 { "Delete the entity under the cursor"@ }
    else if i == 5 { "Keyboard shortcuts"@ }
    else if i == 6 { "Fold / unfold the World panel"@ }
    else if i == 7 { "Fold / unfold the Analysis panel"@ }
    else { "Fold / unfold the bottom strip"@ }
}

/// The condition of row `i`.
pub open spec fn row_when(i: int) -> Seq<char> {
    if i == 1 { "when paused"@ } else { ""@ }
}

/// Whether `b` is row `i` of the table.
pub open spec fn is_row(b: Binding, i: int) -> bool {
    &&& b.action == row_action(i)
    &&& b.keys@ == row_keys(i)
    &&& b.keys_text@ == row_keys_text(i)
    &&& b.label@ == row_label(i)
    &&& b.when@ == row_when(i)
}

fn row(action: UiAction, keys: Vec<Key>, keys_text: &'static str, label: &'static str, when: &'static str) -> (b: Binding)
    ensures
        b.action == action,
        b.keys == keys,
        b.keys_text == keys_text,
        b.label == label,
        b.when == when,
{
    Binding { action, keys, keys_text, label, when }
}

fn one(k: Key) -> (v: Vec<Key>)
    ensures
        v@ == seq![k],
{
    let mut v: Vec<Key> = Vec::new();
    v.push(k);
    assert(v@ =~= seq![k]);
    v
}

fn two(a: Key, b: Key) -> (v: Vec<Key>)
    ensures
        v@ == seq![a, b],
{
    let mut v: Vec<Key> = Vec::new();
    v.push(a);
    v.push(b);
    assert(v@ =~= seq![a, b]);
    v
}

/// Every keyboard binding — the one table tooltips and the cheatsheet read.
pub fn bindings() -> (v: Vec<Binding>)
    ensures
        v.len() == BINDING_COUNT,
        forall|i: int| 0 <= i < BINDING_COUNT ==> is_row(#[trigger] v[i], i),
{
    let mut v: Vec<Binding> = Vec::new();
    v.push(row(UiAction::PlayPause, one(Key::Space), "Space", "Play / pause", ""));
    v.push(row(UiAction::StepOnce, one(Key::ArrowRight), "→", "Advance one tick", "when paused"));
    v.push(row(UiAction::ResetWorld, one(Key::KeyR), "R", "Rebuild the world from the config", ""));
    v.push(row(UiAction::ResetView, one(Key::Home), "Home", "Recenter the view", ""));
    v.push(
        row(
            UiAction::DeleteUnderCursor,
            two(Key::Delete, Key::Backspace),
            "Del / Backspace",
            "Delete the entity under the cursor",
            "",
        ),
    );
    v.push(row(UiAction::ToggleShortcuts, two(Key::Slash, Key::F1), "?", "Keyboard shortcuts", ""));
    v.push(row(UiAction::ToggleLeftPanel, one(Key::Digit1), "1", "Fold / unfold the World panel", ""));
    v.push(
        row(UiAction::ToggleRightPanel, one(Key::Digit2), "2", "Fold / unfold the Analysis panel", ""),
    );
    v.push(
        row(UiAction::ToggleBottomPanel, one(Key::Digit3), "3", "Fold / unfold the bottom strip", ""),
    );
    v
}

/// Number of rows of the mouse table.
pub const MOUSE_COUNT: usize = 4;

/// The mouse gesture of row `i` and what it does.
pub open spec fn mouse_row(i: int) -> (Seq<char>, Seq<char>) {
    if i == 0 {
        ("Scroll"@, "Zoom toward the cursor"@)
    } else if i == 1 {
        ("Middle / right drag"@, "Pan the view"@)
    } else if i == 2 {
        ("Click"@, "Select an agent (void = deselect)"@)
    } else {
        ("Drag from Archetypes"@, "Place an entity"@)
    }
}

/// The mouse gestures, which have no key — the other half of the cheatsheet.
pub fn mouse() -> (v: Vec<(&'static str, &'static str)>)
    ensures
        v.len() == MOUSE_COUNT,
        forall|i: int|
            0 <= i < MOUSE_COUNT ==> ((#[trigger] v[i]).0@, v[i].1@) == mouse_row(i),
{
    let mut v: Vec<(&'static str, &'static str)> = Vec::new();
    v.push(("Scroll", "Zoom toward the cursor"));
    v.push(("Middle / right drag", "Pan the view"));
    v.push(("Click", "Select an agent (void = deselect)"));
    v.push(("Drag from Archetypes", "Place an entity"));
    v
}

/// The table row of `action`.
pub open spec fn row_of(action: UiAction) -> int {
    match action {
        UiAction::PlayPause => 0,
        UiAction::StepOnce => 1,
        UiAction::ResetWorld => 2,
        UiAction::ResetView => 3,
        UiAction::DeleteUnderCursor => 4,
        UiAction::ToggleShortcuts => 5,
        UiAction::ToggleLeftPanel => 6,
        UiAction::ToggleRightPanel => 7,
        UiAction::ToggleBottomPanel => 8,
    }
}

/// The binding for `action`: the first row of the table that names it.
pub fn binding(action: UiAction) -> (r: Option<Binding>)
    ensures
        r matches Some(b) && is_row(b, row_of(action)),
{
    let mut table = bindings();
    let mut i: usize = 0;
    while table.len() > 0
        invariant
            table.len() == BINDING_COUNT - i,
            i <= BINDING_COUNT,
            forall|k: int| 0 <= k < table.len() ==> is_row(#[trigger] table[k], k + i),
            forall|k: int| 0 <= k < i ==> row_action(k) != action,
        decreases table.len(),
    {
        let b = table.remove(0);
        assert(is_row(b, i as int));
        if b.action == action {
            return Some(b);
        }
        assert forall|k: int| 0 <= k < table.len() implies is_row(#[trigger] table[k], k + (i + 1)) by {
            assert(is_row(table[k], (k + 1) + i));
        }
        i = i + 1;
    }
    assert(i == BINDING_COUNT);
    assert(0 <= row_of(action) < i);
    assert(row_action(row_of(action)) == action);
    assert(false);
    None
}

/// Whether one of `action`'s keys is among the keys `just_pressed` this frame.
/// The single input chokepoint every keyboard handler routes through.
pub fn pressed(just_pressed: &Vec<Key>, action: UiAction) -> (b: bool)
    ensures
        b <==> exists|k: Key| row_keys(row_of(action)).contains(k) && just_pressed@.contains(k),
{
    match binding(action) {
        Some(bind) => {
            let mut i: usize = 0;
            while i < bind.keys.len()
                invariant
                    i <= bind.keys.len(),
                    bind.keys@ == row_keys(row_of(action)),
                    forall|m: int| 0 <= m < i ==> !just_pressed@.contains(#[trigger] bind.keys@[m]),
                decreases bind.keys.len() - i,
            {
                let k = bind.keys[i];
                let mut j: usize = 0;
                while j < just_pressed.len()
                    invariant
                        j <= just_pressed.len(),
                        i < bind.keys.len(),
                        bind.keys@ == row_keys(row_of(action)),
                        k == bind.keys@[i as int],
                        forall|m: int| 0 <= m < j ==> just_pressed@[m] != k,
                    decreases just_pressed.len() - j,
                {
                    if just_pressed[j] == k {
                        assert(just_pressed@.contains(k));
                        assert(row_keys(row_of(action))[i as int] == k);
                        assert(row_keys(row_of(action)).contains(k));
                        return true;
                    }
                    j = j + 1;
                }
                assert(!just_pressed@.contains(k));
                i = i + 1;
            }
            assert forall|k: Key| row_keys(row_of(action)).contains(k) implies !just_pressed@.contains(k) by {
                let m = choose|m: int| 0 <= m < bind.keys@.len() && bind.keys@[m] == k;
                assert(!just_pressed@.contains(bind.keys@[m]));
            }
            false
        },
        None => false,
    }
}

/// `base ++ "  ·  " ++ keys` for the keys of `action`.
pub open spec fn tooltip_text(base: Seq<char>, action: UiAction) -> Seq<char> {
    base + "  ·  "@ + row_keys_text(row_of(action))
}

/// `base` with the action's keys appended (`"Play / pause  ·  Space"`) — how
/// every key-bearing tooltip is built.
pub fn tooltip(base: &str, action: UiAction) -> (s: String)
    ensures
        s@ == tooltip_text(base@, action),
{
    match binding(action) {
        Some(b) => {
            let mut s = concat_str(base, "  ·  ");
            s.append(b.keys_text);
            s
        },
        None => String::from_str(base),
    }
}

/// Every action is bound by exactly one row of the table.
pub proof fn lemma_each_action_bound_once(action: UiAction)
    ensures
        0 <= row_of(action) < BINDING_COUNT,
        row_action(row_of(action)) == action,
        forall|i: int| 0 <= i < BINDING_COUNT && row_action(i) == action ==> i == row_of(action),
{
}

/// How a key is written for the user: its printed name (`?` for the slash key,
/// which is `?` with Shift on most layouts).
pub open spec fn key_name(k: Key) -> Seq<char> {
    match k {
        Key::Space => "Space"@,
        Key::ArrowRight => "→"@,
        Key::KeyR => "R"@,
        Key::Home => "Home"@,
        Key::Delete => "Del"@,
        Key::Backspace => "Backspace"@,
        Key::Slash => "?"@,
        Key::F1 => "F1"@,
        Key::Digit1 => "1"@,
        Key::Digit2 => "2"@,
        Key::Digit3 => "3"@,
    }
}

/// What a binding tells the user is what it fires on: the text of an
/// action's keys names its first key, and either names its second key too
/// (`"Del / Backspace"`) or leaves out only the layout-agnostic `F1` fallback;
/// so the tooltip of an action names a key exactly when pressing that key
/// (other than the `F1` fallback) fires the action.
pub proof fn lemma_keys_text_names_the_keys(action: UiAction)
    ensures
        ({
            let keys = row_keys(row_of(action));
            let text = row_keys_text(row_of(action));
            &&& 1 <= keys.len() <= 2
            &&& keys.len() == 1 ==> text == key_name(keys[0])
            &&& keys.len() == 2 ==> (text == key_name(keys[0]) + " / "@ + key_name(keys[1]) || (text
                == key_name(keys[0]) && keys[1] == Key::F1))
        }),
{
    reveal_strlit("Del");
    reveal_strlit("Backspace");
    reveal_strlit(" / ");
    reveal_strlit("Del / Backspace");
    if action == UiAction::DeleteUnderCursor {
        assert("Del"@ + " / "@ + "Backspace"@ =~= "Del / Backspace"@);
    }
}

/// No key fires two actions: the rows' key lists are disjoint.
pub proof fn lemma_no_shared_key(i: int, j: int, k: Key)
    requires
        0 <= i < j < BINDING_COUNT,
    ensures
        !(row_keys(i).contains(k) && row_keys(j).contains(k)),
{
    if row_keys(i).contains(k) && row_keys(j).contains(k) {
        let a = choose|a: int| 0 <= a < row_keys(i).len() && row_keys(i)[a] == k;
        let b = choose|b: int| 0 <= b < row_keys(j).len() && row_keys(j)[b] == k;
        assert(false);
    }
}

} // verus!
