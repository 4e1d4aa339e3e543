//! Keyboard navigation: shortcut registry, focus cycling, arrow-key mapping,
//! and the keys under which focus state is stored.

use std::collections::hash_map::DefaultHasher;
use std::hash::{Hash, Hasher};
use vstd::prelude::*;
use vstd::std_specs::hash::DefaultHasherAdditionalSpecFns;
use crate::callback::{Action, Handler};
use crate::text::{join3, str_eq};

verus! {

/// The writes that `<str as Hash>::hash` makes to a hasher for a string.
pub uninterp spec fn str_hash_writes(s: Seq<char>) -> Seq<Seq<u8>>;

/// Feeds `s` to the hasher as `Hash::hash` does for a `str`.
///
/// Calls `<str as Hash>::hash`. States that the hasher then holds the writes
/// it held before followed by the writes named by [`str_hash_writes`], which
/// depend on the string alone; which bytes those are is not stated.
#[verifier::external_body]
fn hash_str_into(s: &str, state: &mut DefaultHasher)
    ensures
        final(state)@ == old(state)@ + str_hash_writes(s@),
{
    s.hash(state)
}

/// The hash of a sequence of strings under a fresh `DefaultHasher`.
pub open spec fn default_hash_of(parts: Seq<Seq<char>>) -> u64
    decreases parts.len(),
{
    DefaultHasher::spec_finish(hash_writes(parts))
}

/// The writes that hashing each string in turn makes.
pub open spec fn hash_writes(parts: Seq<Seq<char>>) -> Seq<Seq<u8>>
    decreases parts.len(),
{
    if parts.len() == 0 {
        seq![]
    } else {
        hash_writes(parts.drop_last()) + str_hash_writes(parts.last())
    }
}

/// Hash for the focus order list in system state: the key under which the
/// list that focus cycling reads is kept.
pub fn focus_order_hash() -> (r: u64)
    ensures
        r == default_hash_of(seq!["focus_order"@]),
{
    let mut s = DefaultHasher::new();
    hash_str_into("focus_order", &mut s);
    assert(seq!["focus_order"@].drop_last() =~= Seq::<Seq<char>>::empty());
    assert(hash_writes(Seq::<Seq<char>>::empty()) =~= Seq::<Seq<u8>>::empty());
    assert(hash_writes(seq!["focus_order"@]) == hash_writes(seq!["focus_order"@].drop_last()) + str_hash_writes("focus_order"@));
    assert(s@ =~= hash_writes(seq!["focus_order"@]));
    s.finish()
}

/// Hash for the current focus ID in system state: the key under which focus
/// cycling stores the newly focused id.
pub fn current_focus_hash() -> (r: u64)
    ensures
        r == default_hash_of(seq!["current_focus"@]),
{
    let mut s = DefaultHasher::new();
    hash_str_into("current_focus", &mut s);
    assert(seq!["current_focus"@].drop_last() =~= Seq::<Seq<char>>::empty());
    assert(hash_writes(Seq::<Seq<char>>::empty()) =~= Seq::<Seq<u8>>::empty());
    assert(hash_writes(seq!["current_focus"@]) == hash_writes(seq!["current_focus"@].drop_last()) + str_hash_writes("current_focus"@));
    assert(s@ =~= hash_writes(seq!["current_focus"@]));
    s.finish()
}

/// Hash for a specific focus ID's state.
pub fn focus_id_hash(id: &str) -> (r: u64)
    ensures
        r == default_hash_of(seq!["focus_"@, id@]),
{
    let mut s = DefaultHasher::new();
    hash_str_into("focus_", &mut s);
    hash_str_into(id, &mut s);
    assert(seq!["focus_"@, id@].drop_last() =~= seq!["focus_"@]);
    assert(seq!["focus_"@].drop_last() =~= Seq::<Seq<char>>::empty());
    assert(hash_writes(Seq::<Seq<char>>::empty()) =~= Seq::<Seq<u8>>::empty());
    assert(hash_writes(seq!["focus_"@]) == hash_writes(seq!["focus_"@].drop_last()) + str_hash_writes("focus_"@));
    assert(hash_writes(seq!["focus_"@, id@]) == hash_writes(seq!["focus_"@, id@].drop_last()) + str_hash_writes(id@));
    assert(s@ =~= hash_writes(seq!["focus_"@, id@]));
    s.finish()
}

/// The position of the first occurrence of `x` in `s` (meaningful when `s`
/// contains `x`).
pub open spec fn first_index_of(s: Seq<Seq<char>>, x: Seq<char>) -> int
    decreases s.len(),
{
    if s.len() == 0 {
        0
    } else if s[0] == x {
        0
    } else {
        1 + first_index_of(s.drop_first(), x)
    }
}

/// The position focus moves to from `current` in a non-empty focus order:
/// with nothing focused, the first (forward) or last (backward) element; from
/// a focused element, the next or previous one, wrapping around (the
/// positions `(i + 1) % len` and `(i + len - 1) % len`); from an id
/// not in the order, the first element.
pub open spec fn next_focus_index(order: Seq<Seq<char>>, current: Seq<char>, forward: bool) -> int {
    if current.len() == 0 {
        if forward { 0 } else { order.len() - 1 }
    } else if order.contains(current) {
        let idx = first_index_of(order, current);
        if forward {
            if idx + 1 == order.len() { 0 } else { idx + 1 }
        } else {
            if idx == 0 { order.len() - 1 } else { idx - 1 }
        }
    } else {
        0
    }
}

proof fn lemma_first_index_of(s: Seq<Seq<char>>, x: Seq<char>)
    requires
        s.contains(x),
    ensures
        0 <= first_index_of(s, x) < s.len(),
        s[first_index_of(s, x)] == x,
        forall|k: int| 0 <= k < first_index_of(s, x) ==> s[k] != x,
    decreases s.len(),
{
    if s[0] != x {
        let k = choose|k: int| 0 <= k < s.len() && s[k] == x;
        assert(s.drop_first()[k - 1] == x);
        lemma_first_index_of(s.drop_first(), x);
        assert forall|k: int| 0 <= k < first_index_of(s, x) implies s[k] != x by {
            if k > 0 {
                assert(s[k] == s.drop_first()[k - 1]);
            }
        }
    }
}

/// The position of `current` in `order`, if it occurs.
fn position_of(order: &[String], current: &str) -> (r: Option<usize>)
    ensures
        r is None <==> !order@.map_values(|s: String| s@).contains(current@),
        r matches Some(i) ==> i == first_index_of(order@.map_values(|s: String| s@), current@),
{
    let ghost ids = order@.map_values(|s: String| s@);
    let n = order.len();
    let mut i: usize = 0;
    while i < n
        invariant
            n == order@.len(),
            ids == order@.map_values(|s: String| s@),
            i <= n,
            forall|k: int| 0 <= k < i ==> ids[k] != current@,
        decreases n - i,
    {
        if str_eq(order[i].as_str(), current) {
            assert(ids[i as int] == current@);
            proof { lemma_first_index_of(ids, current@); }
            let ghost f = first_index_of(ids, current@);
            assert(f == i as int) by {
                if f < i as int {
                    assert(ids[f] != current@);
                }
                if f > i as int {
                    assert(ids[i as int] != current@);
                }
            }
            return Some(i);
        }
        i = i + 1;
    }
    assert(!ids.contains(current@)) by {
        if ids.contains(current@) {
            let k = choose|k: int| 0 <= k < ids.len() && ids[k] == current@;
            assert(ids[k] != current@);
        }
    }
    None
}

/// Cycle focus to the next (forward) or previous (backward) element of the
/// focus order: the id to focus next, or nothing when the order is empty.
/// The order is the list kept under [`focus_order_hash`], `current` the id
/// kept under [`current_focus_hash`], where the result is stored in turn.
pub fn cycle_focus(focus_order: &[String], current: &str, forward: bool) -> (r: Option<String>)
    ensures
        focus_order@.len() == 0 ==> r is None,
        focus_order@.len() > 0 ==> r is Some && r->0@ == focus_order@[next_focus_index(
            focus_order@.map_values(|s: String| s@),
            current@,
            forward,
        )]@,
{
    let n = focus_order.len();
    if n == 0 {
        return None;
    }
    let ghost ids = focus_order@.map_values(|s: String| s@);
    let next_idx: usize = if current.unicode_len() == 0 {
        if forward { 0 } else { n - 1 }
    } else {
        match position_of(focus_order, current) {
            Some(idx) => {
                proof { lemma_first_index_of(ids, current@); }
                if forward {
                    if idx + 1 == n { 0 } else { idx + 1 }
                } else {
                    if idx == 0 { n - 1 } else { idx - 1 }
                }
            },
            None => 0,
        }
    };
    Some(focus_order[next_idx].clone())
}

/// Moving focus forward and then back returns to the focused element, when
/// the ids in the focus order are distinct.
pub proof fn law_cycle_focus_round_trip(order: Seq<Seq<char>>, i: int)
    requires
        0 <= i < order.len(),
        order.no_duplicates(),
        order[i].len() > 0,
        forall|k: int| 0 <= k < order.len() ==> order[k].len() > 0,
    ensures
        order[next_focus_index(order, order[next_focus_index(order, order[i], true)], false)] == order[i],
{
    let n = order.len() as int;
    assert(order.contains(order[i]));
    lemma_first_index_of(order, order[i]);
    assert(first_index_of(order, order[i]) == i);
    let j = if i + 1 == n { 0 } else { i + 1 };
    assert(next_focus_index(order, order[i], true) == j);
    assert(order.contains(order[j]));
    lemma_first_index_of(order, order[j]);
    assert(first_index_of(order, order[j]) == j);
}

/// Arrow key direction.
#[derive(Debug, Clone, Copy, PartialEq, Eq, Structural)]
pub enum ArrowDirection {
    Up,
    Down,
    Left,
    Right,
}

/// The direction an arrow key names.
pub open spec fn arrow_for_key(key: Seq<char>) -> Option<ArrowDirection> {
    if key == "ArrowUp"@ {
        Some(ArrowDirection::Up)
    } else if key == "ArrowDown"@ {
        Some(ArrowDirection::Down)
    } else if key == "ArrowLeft"@ {
        Some(ArrowDirection::Left)
    } else if key == "ArrowRight"@ {
        Some(ArrowDirection::Right)
    } else {
        None
    }
}

/// Maps a key name to the arrow direction it names, if any.
pub fn arrow_direction(key: &str) -> (r: Option<ArrowDirection>)
    ensures
        r == arrow_for_key(key@),
{
    if str_eq(key, "ArrowUp") {
        Some(ArrowDirection::Up)
    } else if str_eq(key, "ArrowDown") {
        Some(ArrowDirection::Down)
    } else if str_eq(key, "ArrowLeft") {
        Some(ArrowDirection::Left)
    } else if str_eq(key, "ArrowRight") {
        Some(ArrowDirection::Right)
    } else {
        None
    }
}

/// Keyboard shortcut definition.
#[derive(Clone)]
pub struct Shortcut {
    /// The key combination (e.g. "Ctrl+S", "Escape", "Tab").
    pub keys: String,
    /// Callback to invoke when the shortcut is triggered.
    pub action: Action,
    /// Human-readable description of the shortcut.
    pub description: String,
}

/// Keyboard shortcuts manager.
///
/// Registers global keyboard shortcuts that work regardless of focus.
#[derive(Clone)]
pub struct KeyboardShortcuts {
    shortcuts: Vec<Shortcut>,
}

impl KeyboardShortcuts {
    /// The registered shortcuts, in registration order.
    pub closed spec fn entries(&self) -> Seq<Shortcut> {
        self.shortcuts@
    }

    /// Create a new empty KeyboardShortcuts manager.
    pub fn new() -> (r: Self)
        ensures
            r.entries().len() == 0,
    {
        KeyboardShortcuts { shortcuts: Vec::new() }
    }

    /// Add a keyboard shortcut.
    pub fn shortcut(self, keys: &str, description: &str, action: impl Fn() + Send + Sync + 'static) -> (r: Self)
        requires
            call_requires(action, ()),
        ensures
            r.entries().len() == self.entries().len() + 1,
            r.entries().drop_last() == self.entries(),
            r.entries().last().keys@ == keys@,
            r.entries().last().description@ == description@,
            appends_shortcut(self.entries(), r.entries(), keys@, description@),
            r.entries().last().action.promises() == call_ensures(action, (), ()),
    {
        let mut shortcuts = self.shortcuts;
        shortcuts.push(Shortcut { keys: keys.to_string(), action: Action::new(action), description: description.to_string() });
        assert(shortcuts@.drop_last() =~= self.shortcuts@);
        KeyboardShortcuts { shortcuts }
    }

    /// Add a Ctrl+key shortcut.
    pub fn ctrl_key(self, key: &str, description: &str, action: impl Fn() + Send + Sync + 'static) -> (r: Self)
        requires
            call_requires(action, ()),
        ensures
            r.entries().len() == self.entries().len() + 1,
            r.entries().drop_last() == self.entries(),
            r.entries().last().keys@ == "Ctrl+"@ + key@,
            r.entries().last().description@ == description@,
            appends_shortcut(self.entries(), r.entries(), "Ctrl+"@ + key@, description@),
            r.entries().last().action.promises() == call_ensures(action, (), ()),
    {
        let keys = join3("Ctrl+", key, "");
        proof { reveal_strlit(""); }
        assert(keys@ =~= "Ctrl+"@ + key@);
        let mut shortcuts = self.shortcuts;
        shortcuts.push(Shortcut { keys, action: Action::new(action), description: description.to_string() });
        assert(shortcuts@.drop_last() =~= self.shortcuts@);
        KeyboardShortcuts { shortcuts }
    }

    /// Get all registered shortcuts.
    pub fn shortcuts(&self) -> (r: &[Shortcut])
        ensures
            r@ == self.entries(),
    {
        self.shortcuts.as_slice()
    }
}

/// `next` is `prev` with one shortcut appended, of keys `keys` and
/// description `description`.
pub open spec fn appends_shortcut(prev: Seq<Shortcut>, next: Seq<Shortcut>, keys: Seq<char>, description: Seq<char>) -> bool {
    &&& next.len() == prev.len() + 1
    &&& next.drop_last() == prev
    &&& next.last().keys@ == keys
    &&& next.last().description@ == description
}

/// Registering shortcuts one after another, from an empty manager, keeps
/// every one of them, in registration order.
pub proof fn law_shortcuts_kept_in_order(
    lists: Seq<Seq<Shortcut>>,
    keys: Seq<Seq<char>>,
    descriptions: Seq<Seq<char>>,
)
    requires
        lists.len() == keys.len() + 1,
        descriptions.len() == keys.len(),
        lists[0].len() == 0,
        forall|i: int| 0 <= i < keys.len() ==> #[trigger] appends_shortcut(lists[i], lists[i + 1], keys[i], descriptions[i]),
    ensures
        lists.last().len() == keys.len(),
        forall|i: int| 0 <= i < keys.len() ==> (#[trigger] lists.last()[i]).keys@ == keys[i]
            && lists.last()[i].description@ == descriptions[i],
{
    lemma_shortcuts_prefix(lists, keys, descriptions, keys.len() as int);
}

proof fn lemma_shortcuts_prefix(lists: Seq<Seq<Shortcut>>, keys: Seq<Seq<char>>, descriptions: Seq<Seq<char>>, n: int)
    requires
        lists.len() == keys.len() + 1,
        descriptions.len() == keys.len(),
        lists[0].len() == 0,
        forall|i: int| 0 <= i < keys.len() ==> #[trigger] appends_shortcut(lists[i], lists[i + 1], keys[i], descriptions[i]),
        0 <= n <= keys.len(),
    ensures
        lists[n].len() == n,
        forall|i: int| 0 <= i < n ==> (#[trigger] lists[n][i]).keys@ == keys[i] && lists[n][i].description@ == descriptions[i],
    decreases n,
{
    if n > 0 {
        lemma_shortcuts_prefix(lists, keys, descriptions, n - 1);
        assert(appends_shortcut(lists[n - 1], lists[(n - 1) + 1], keys[n - 1], descriptions[n - 1]));
        assert forall|i: int| 0 <= i < n implies (#[trigger] lists[n][i]).keys@ == keys[i] && lists[n][i].description@ == descriptions[i] by {
            if i < n - 1 {
                assert(lists[n].drop_last()[i] == lists[n][i]);
            }
        }
    }
}

impl Default for KeyboardShortcuts {
    fn default() -> (r: Self)
        ensures
            r.entries().len() == 0,
    {
        Self::new()
    }
}

/// Whether a key is Enter (Return or Enter).
pub open spec fn is_enter_key(key: Seq<char>) -> bool {
    key == "Return"@ || key == "Enter"@
}

/// A focusable wrapper that adds keyboard handling to a view.
#[derive(Clone)]
pub struct Focusable<V> {
    /// The wrapped view content.
    pub content: V,
    /// The id this element is focused under.
    pub focus_id: String,
    /// Whether the element takes focus.
    pub is_focusable: bool,
    /// Handler for key presses while focused.
    pub on_key: Option<Handler<String>>,
    /// Called when the element gains focus.
    pub on_focus: Option<Action>,
    /// Called when the element loses focus.
    pub on_blur: Option<Action>,
    /// Position in the tab order.
    pub tab_index: i32,
}

impl<V> Focusable<V> {
    /// Wraps `content` under `focus_id`: focusable, tab index 0, no handlers.
    pub fn new(focus_id: &str, content: V) -> (r: Self)
        ensures
            r.content == content,
            r.focus_id@ == focus_id@,
            r.is_focusable,
            r.on_key is None && r.on_focus is None && r.on_blur is None,
            r.tab_index == 0,
    {
        Focusable {
            content,
            focus_id: focus_id.to_string(),
            is_focusable: true,
            on_key: None,
            on_focus: None,
            on_blur: None,
            tab_index: 0,
        }
    }

    /// Set whether the element takes focus.
    pub fn focusable(self, focusable: bool) -> (r: Self)
        ensures
            r == (Focusable { is_focusable: focusable, ..self }),
    {
        Focusable { is_focusable: focusable, ..self }
    }

    /// Set the position in the tab order.
    pub fn tab_index(self, index: i32) -> (r: Self)
        ensures
            r == (Focusable { tab_index: index, ..self }),
    {
        Focusable { tab_index: index, ..self }
    }

    /// Set the key handler.
    pub fn on_key(self, handler: impl Fn(String) + Send + Sync + 'static) -> (r: Self)
        requires
            forall|k: String| call_requires(handler, (k,)),
        ensures
            r == (Focusable { on_key: r.on_key, ..self }),
            r.on_key is Some,
            forall|k: String| #[trigger] r.on_key->0.promises(k) == call_ensures(handler, (k,), ()),
    {
        Focusable { on_key: Some(Handler::new(handler)), ..self }
    }

    /// Set the focus callback.
    pub fn on_focus(self, callback: impl Fn() + Send + Sync + 'static) -> (r: Self)
        requires
            call_requires(callback, ()),
        ensures
            r == (Focusable { on_focus: r.on_focus, ..self }),
            r.on_focus is Some,
            r.on_focus->0.promises() == call_ensures(callback, (), ()),
    {
        Focusable { on_focus: Some(Action::new(callback)), ..self }
    }

    /// Set the blur callback.
    pub fn on_blur(self, callback: impl Fn() + Send + Sync + 'static) -> (r: Self)
        requires
            call_requires(callback, ()),
        ensures
            r == (Focusable { on_blur: r.on_blur, ..self }),
            r.on_blur is Some,
            r.on_blur->0.promises() == call_ensures(callback, (), ()),
    {
        Focusable { on_blur: Some(Action::new(callback)), ..self }
    }

    /// Set a key handler that runs `action` on Enter (Return or Enter).
    pub fn on_enter(self, action: impl Fn() + Send + Sync + 'static) -> (r: Self)
        requires
            call_requires(action, ()),
        ensures
            r == (Focusable { on_key: r.on_key, ..self }),
            r.on_key is Some,
            forall|k: String| #[trigger] r.on_key->0.promises(k) ==> (is_enter_key(k@) ==> call_ensures(action, (), ())),
    {
        let a = Action::new(action);
        let handler = move |key: String|
            ensures
                is_enter_key(key@) ==> a.promises(),
            {
                if str_eq(key.as_str(), "Return") || str_eq(key.as_str(), "Enter") {
                    a.call();
                }
            };
        Focusable { on_key: Some(Handler::new(handler)), ..self }
    }

    /// Set a key handler that runs `action` on Escape.
    pub fn on_escape(self, action: impl Fn() + Send + Sync + 'static) -> (r: Self)
        requires
            call_requires(action, ()),
        ensures
            r == (Focusable { on_key: r.on_key, ..self }),
            r.on_key is Some,
            forall|k: String| #[trigger] r.on_key->0.promises(k) ==> (k@ == "Escape"@ ==> call_ensures(action, (), ())),
    {
        let a = Action::new(action);
        let handler = move |key: String|
            ensures
                key@ == "Escape"@ ==> a.promises(),
            {
                if str_eq(key.as_str(), "Escape") {
                    a.call();
                }
            };
        Focusable { on_key: Some(Handler::new(handler)), ..self }
    }

    /// Handles a key press: while the element is focused, the key handler, if
    /// any, receives the key. Returns whether it did.
    pub fn handle_key(&self, key: &str, focused: bool) -> (r: bool)
        ensures
            r == (focused && self.on_key is Some),
            r ==> exists|k: String| k@ == key@ && #[trigger] self.on_key->0.promises(k),
    {
        if !focused {
            return false;
        }
        match &self.on_key {
            Some(h) => {
                let k = key.to_string();
                let ghost g = k;
                h.call(k);
                assert(h.promises(g));
                true
            },
            None => false,
        }
    }
}

/// A container that traps keyboard focus: while active, Tab and Shift+Tab
/// cycle through its focusable children only, and Escape runs its handler.
#[derive(Clone)]
pub struct FocusTrap<V> {
    /// The content inside the trap.
    pub content: V,
    /// Whether the trap is active.
    pub is_active: bool,
    /// Called when Escape is pressed inside the trap.
    pub on_escape: Option<Action>,
}

impl<V> FocusTrap<V> {
    /// An active trap around `content` with no Escape handler.
    pub fn new(content: V) -> (r: Self)
        ensures
            r.content == content,
            r.is_active,
            r.on_escape is None,
    {
        FocusTrap { content, is_active: true, on_escape: None }
    }

    /// Set whether the trap is active.
    pub fn active(self, active: bool) -> (r: Self)
        ensures
            r == (FocusTrap { is_active: active, ..self }),
    {
        FocusTrap { is_active: active, ..self }
    }

    /// Set the Escape handler.
    pub fn on_escape(self, action: impl Fn() + Send + Sync + 'static) -> (r: Self)
        requires
            call_requires(action, ()),
        ensures
            r == (FocusTrap { on_escape: r.on_escape, ..self }),
            r.on_escape is Some,
            r.on_escape->0.promises() == call_ensures(action, (), ()),
    {
        FocusTrap { on_escape: Some(Action::new(action)), ..self }
    }

    /// The way a key press cycles focus inside an active trap: forward on Tab,
    /// backward on Shift+Tab; no cycling for other keys or an inactive trap.
    pub fn tab_direction(&self, key: &str, shift: bool) -> (r: Option<bool>)
        ensures
            r == (if self.is_active && key@ == "Tab"@ { Some(!shift) } else { None::<bool> }),
    {
        if self.is_active && str_eq(key, "Tab") {
            Some(!shift)
        } else {
            None
        }
    }

    /// Handles Escape inside an active trap: the Escape handler, if any,
    /// runs. Returns whether it ran.
    pub fn handle_escape(&self, key: &str) -> (r: bool)
        ensures
            r == (self.is_active && key@ == "Escape"@ && self.on_escape is Some),
            r ==> self.on_escape->0.promises(),
    {
        if !self.is_active || !str_eq(key, "Escape") {
            return false;
        }
        match &self.on_escape {
            Some(a) => {
                a.call();
                true
            },
            None => false,
        }
    }
}

/// A wrapper that reports arrow keys as directions.
#[derive(Clone)]
pub struct ArrowNav<V> {
    /// The wrapped view.
    pub content: V,
    /// Handler for arrow key events.
    pub on_arrow: Handler<ArrowDirection>,
    /// Whether this element must be focused to receive arrow keys.
    pub require_focus: bool,
}

impl<V> ArrowNav<V> {
    /// Wraps `content`, reporting arrow keys to `on_arrow` while focused.
    pub fn new(content: V, on_arrow: impl Fn(ArrowDirection) + Send + Sync + 'static) -> (r: Self)
        requires
            forall|d: ArrowDirection| call_requires(on_arrow, (d,)),
        ensures
            r.content == content,
            r.require_focus,
            forall|d: ArrowDirection| #[trigger] r.on_arrow.promises(d) == call_ensures(on_arrow, (d,), ()),
    {
        ArrowNav { content, on_arrow: Handler::new(on_arrow), require_focus: true }
    }

    /// Set whether focus is required to receive arrow keys.
    pub fn require_focus(self, require: bool) -> (r: Self)
        ensures
            r == (ArrowNav { require_focus: require, ..self }),
    {
        ArrowNav { require_focus: require, ..self }
    }

    /// Handles a key press: an arrow key is reported as its direction, unless
    /// focus is required and the element is not focused. Returns whether it
    /// was reported.
    pub fn handle_key(&self, key: &str, focused: bool) -> (r: bool)
        ensures
            r == (arrow_for_key(key@) is Some && (!self.require_focus || focused)),
            r ==> self.on_arrow.promises(arrow_for_key(key@)->0),
    {
        match arrow_direction(key) {
            Some(d) => {
                if self.require_focus && !focused {
                    return false;
                }
                self.on_arrow.call(d);
                true
            },
            None => false,
        }
    }
}

} // verus!
