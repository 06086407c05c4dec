use std::collections::HashSet;
use vstd::prelude::*;
use vstd::std_specs::hash::*;
use vstd::string::*;

verus! {

broadcast use group_hash_axioms;

/// Whether a key or button went down or up.
#[derive(Debug, Clone, Copy, PartialEq, Eq, Structural)]
pub enum ElementState {
    Pressed,
    Released,
}

/// A mouse button.
#[derive(Debug, Clone, Copy, PartialEq, Eq, Structural)]
pub enum MouseButton {
    Left,
    Right,
    Middle,
    Other(u16),
}

impl MouseButton {
    /// The number the button is recorded under.
    pub open spec fn spec_code(self) -> u32 {
        match self {
            MouseButton::Left => 0,
            MouseButton::Right => 1,
            MouseButton::Middle => 2,
            MouseButton::Other(n) => (n + 3) as u32,
        }
    }

    /// The number the button is recorded under; distinct buttons get
    /// distinct numbers.
    pub fn code(&self) -> (r: u32)
        ensures
            r == self.spec_code(),
    {
        match self {
            MouseButton::Left => 0,
            MouseButton::Right => 1,
            MouseButton::Middle => 2,
            MouseButton::Other(n) => *n as u32 + 3,
        }
    }
}

/// The state of the input method editor.
#[derive(Debug, Clone, PartialEq, Eq)]
pub enum Ime {
    Enabled,
    Disabled,
    Preedit(String, Option<(usize, usize)>),
    Commit(String),
}

/// The window events that input tracking reads. Cursor moves and wheel
/// scrolls carry floating-point data and are tracked by the caller; they
/// are given here as `Other`, like every event that changes nothing.
#[derive(Debug, Clone)]
pub enum WindowInput {
    /// A key changed state; `key` is its virtual key code, if it has one.
    KeyboardInput { key: Option<u32>, state: ElementState },
    MouseInput { button: MouseButton, state: ElementState },
    CursorEntered,
    CursorLeft,
    Focused(bool),
    Ime(Ime),
    ReceivedCharacter(char),
    /// The window was asked to close, or was destroyed.
    CloseRequested,
    Other,
}

/// The abstract state of an [`EventState`].
pub struct EventStateView {
    pub keys_pressed: Set<u32>,
    pub keys_released: Set<u32>,
    pub keys_held: Set<u32>,
    pub mouse_buttons_pressed: Set<u32>,
    pub mouse_buttons_released: Set<u32>,
    pub char: Option<char>,
    pub ime: Ime,
    pub mouse_entered: bool,
    pub focused: bool,
    pub is_exit: bool,
}

/// The state after `e` is handled in state `v`.
///
/// A key press counts as a press only when the key was not already held;
/// a release counts only when it was. A button press records the button
/// as pressed; a release records it as released and no longer pressed.
/// A close request marks the engine as exiting.
pub open spec fn step(v: EventStateView, e: WindowInput) -> EventStateView {
    match e {
        WindowInput::KeyboardInput { key: Some(k), state: ElementState::Pressed } => {
            if v.keys_held.contains(k) {
                v
            } else {
                EventStateView {
                    keys_held: v.keys_held.insert(k),
                    keys_pressed: v.keys_pressed.insert(k),
                    ..v
                }
            }
        },
        WindowInput::KeyboardInput { key: Some(k), state: ElementState::Released } => {
            if v.keys_held.contains(k) {
                EventStateView {
                    keys_held: v.keys_held.remove(k),
                    keys_released: v.keys_released.insert(k),
                    ..v
                }
            } else {
                v
            }
        },
        WindowInput::MouseInput { button, state: ElementState::Pressed } => EventStateView {
            mouse_buttons_pressed: v.mouse_buttons_pressed.insert(button.spec_code()),
            ..v
        },
        WindowInput::MouseInput { button, state: ElementState::Released } => EventStateView {
            mouse_buttons_released: v.mouse_buttons_released.insert(button.spec_code()),
            mouse_buttons_pressed: v.mouse_buttons_pressed.remove(button.spec_code()),
            ..v
        },
        WindowInput::CursorEntered => EventStateView { mouse_entered: true, ..v },
        WindowInput::CursorLeft => EventStateView { mouse_entered: false, ..v },
        WindowInput::Focused(f) => EventStateView { focused: f, ..v },
        WindowInput::Ime(i) => EventStateView { ime: i, ..v },
        WindowInput::ReceivedCharacter(c) => EventStateView { char: Some(c), ..v },
        WindowInput::CloseRequested => EventStateView { is_exit: true, ..v },
        _ => v,
    }
}

/// The state at the start of a frame: what happened during the last frame
/// is forgotten, what is still held or current is kept.
pub open spec fn begun_frame(v: EventStateView) -> EventStateView {
    EventStateView {
        keys_pressed: Set::empty(),
        keys_released: Set::empty(),
        mouse_buttons_released: Set::empty(),
        char: None,
        ..v
    }
}

/// Keyboard, mouse-button, focus and window state gathered from window
/// events, as the scripts query it each frame.
#[derive(Debug)]
pub struct EventState {
    pub keys_pressed: HashSet<u32>,
    pub keys_released: HashSet<u32>,
    pub keys_held: HashSet<u32>,
    pub mouse_buttons_pressed: HashSet<u32>,
    pub mouse_buttons_released: HashSet<u32>,
    pub char: Option<char>,
    pub ime: Ime,
    pub mouse_entered: bool,
    pub focused: bool,
    pub is_exit: bool,
}

impl View for EventState {
    type V = EventStateView;

    open spec fn view(&self) -> EventStateView {
        EventStateView {
            keys_pressed: self.keys_pressed@,
            keys_released: self.keys_released@,
            keys_held: self.keys_held@,
            mouse_buttons_pressed: self.mouse_buttons_pressed@,
            mouse_buttons_released: self.mouse_buttons_released@,
            char: self.char,
            ime: self.ime,
            mouse_entered: self.mouse_entered,
            focused: self.focused,
            is_exit: self.is_exit,
        }
    }
}

impl Default for EventState {
    fn default() -> (r: Self)
        ensures
            r@.keys_pressed == Set::<u32>::empty(),
            r@.keys_released == Set::<u32>::empty(),
            r@.keys_held == Set::<u32>::empty(),
            r@.mouse_buttons_pressed == Set::<u32>::empty(),
            r@.mouse_buttons_released == Set::<u32>::empty(),
            r@.char == None::<char>,
            r@.ime == Ime::Disabled,
            !r@.mouse_entered,
            !r@.focused,
            !r@.is_exit,
    {
        EventState {
            keys_pressed: HashSet::new(),
            keys_released: HashSet::new(),
            keys_held: HashSet::new(),
            mouse_buttons_pressed: HashSet::new(),
            mouse_buttons_released: HashSet::new(),
            char: None,
            ime: Ime::Disabled,
            mouse_entered: false,
            focused: false,
            is_exit: false,
        }
    }
}

impl EventState {
    /// Starts a new frame: forgets the presses, releases, button releases
    /// and character of the last frame.
    pub fn begin_frame(&mut self)
        ensures
            final(self)@ == begun_frame(old(self)@),
    {
        self.keys_pressed.clear();
        self.keys_released.clear();
        self.mouse_buttons_released.clear();
        self.char = None;
    }

    /// Records one window event. Returns whether the event asks the engine
    /// to close, in which case the script's exit callback is due.
    pub fn handle_event(&mut self, event: WindowInput) -> (r: bool)
        ensures
            final(self)@ == step(old(self)@, event),
            r == (event is CloseRequested),
    {
        match event {
            WindowInput::KeyboardInput { key, state } => {
                if let Some(k) = key {
                    match state {
                        ElementState::Pressed => {
                            let ghost before = self.keys_held@;
                            if self.keys_held.insert(k) {
                                self.keys_pressed.insert(k);
                            } else {
                                assert(self.keys_held@ =~= before);
                            }
                        },
                        ElementState::Released => {
                            let ghost before = self.keys_held@;
                            if self.keys_held.remove(&k) {
                                self.keys_released.insert(k);
                            } else {
                                assert(self.keys_held@ =~= before);
                            }
                        },
                    }
                }
                false
            },
            WindowInput::MouseInput { button, state } => {
                let code = button.code();
                match state {
                    ElementState::Pressed => {
                        self.mouse_buttons_pressed.insert(code);
                    },
                    ElementState::Released => {
                        self.mouse_buttons_released.insert(code);
                        self.mouse_buttons_pressed.remove(&code);
                    },
                }
                false
            },
            WindowInput::CursorEntered => {
                self.mouse_entered = true;
                false
            },
            WindowInput::CursorLeft => {
                self.mouse_entered = false;
                false
            },
            WindowInput::Focused(f) => {
                self.focused = f;
                false
            },
            WindowInput::Ime(i) => {
                self.ime = i;
                false
            },
            WindowInput::ReceivedCharacter(c) => {
                self.char = Some(c);
                false
            },
            WindowInput::CloseRequested => {
                self.is_exit = true;
                true
            },
            WindowInput::Other => false,
        }
    }

    /// Marks the engine as exiting, as a script's `exit` call does.
    pub fn request_exit(&mut self)
        ensures
            final(self)@ == (EventStateView { is_exit: true, ..old(self)@ }),
    {
        self.is_exit = true;
    }

    /// Whether `key` went down during this frame.
    pub fn key_pressed(&self, key: u32) -> (r: bool)
        ensures
            r == self@.keys_pressed.contains(key),
    {
        self.keys_pressed.contains(&key)
    }

    /// Whether `key` went up during this frame.
    pub fn key_released(&self, key: u32) -> (r: bool)
        ensures
            r == self@.keys_released.contains(key),
    {
        self.keys_released.contains(&key)
    }

    /// Whether `key` is being held down.
    pub fn key_held(&self, key: u32) -> (r: bool)
        ensures
            r == self@.keys_held.contains(key),
    {
        self.keys_held.contains(&key)
    }

    /// Whether `button` is pressed.
    pub fn mouse_pressed(&self, button: MouseButton) -> (r: bool)
        ensures
            r == self@.mouse_buttons_pressed.contains(button.spec_code()),
    {
        let code = button.code();
        self.mouse_buttons_pressed.contains(&code)
    }

    /// Whether `button` went up during this frame.
    pub fn mouse_released(&self, button: MouseButton) -> (r: bool)
        ensures
            r == self@.mouse_buttons_released.contains(button.spec_code()),
    {
        let code = button.code();
        self.mouse_buttons_released.contains(&code)
    }
}

/// The window events the simple input tracker reads; cursor moves and
/// wheel scrolls carry floating-point data and are tracked by the caller.
#[derive(Debug, Clone, Copy, PartialEq, Eq, Structural)]
pub enum SimpleInput {
    KeyPressed(u32),
    KeyReleased(u32),
    MousePressed(MouseButton),
    MouseReleased(MouseButton),
    ReceivedCharacter(char),
    MouseEntered,
    MouseExited,
    Focused,
    Unfocused,
    Other,
}

/// The abstract state of an [`InputState`].
pub struct InputStateView {
    pub key_pressed: Set<u32>,
    pub keys_released: Set<u32>,
    pub mouse_buttons_pressed: Set<u32>,
    pub mouse_buttons_released: Set<u32>,
    pub char: Option<char>,
    pub mouse_entered: bool,
    pub focused: bool,
}

/// The state after `e` is recorded in state `v`: every event is recorded
/// as it comes, with no regard to what is held.
pub open spec fn simple_step(v: InputStateView, e: SimpleInput) -> InputStateView {
    match e {
        SimpleInput::KeyPressed(k) => InputStateView { key_pressed: v.key_pressed.insert(k), ..v },
        SimpleInput::KeyReleased(k) => InputStateView {
            keys_released: v.keys_released.insert(k),
            ..v
        },
        SimpleInput::MousePressed(b) => InputStateView {
            mouse_buttons_pressed: v.mouse_buttons_pressed.insert(b.spec_code()),
            ..v
        },
        SimpleInput::MouseReleased(b) => InputStateView {
            mouse_buttons_released: v.mouse_buttons_released.insert(b.spec_code()),
            ..v
        },
        SimpleInput::ReceivedCharacter(c) => InputStateView { char: Some(c), ..v },
        SimpleInput::MouseEntered => InputStateView { mouse_entered: true, ..v },
        SimpleInput::MouseExited => InputStateView { mouse_entered: false, ..v },
        SimpleInput::Focused => InputStateView { focused: true, ..v },
        SimpleInput::Unfocused => InputStateView { focused: false, ..v },
        SimpleInput::Other => v,
    }
}

/// Per-frame keyboard and mouse state: every press and release seen during
/// the frame, the last character typed, and whether the cursor is inside
/// the window and the window has focus.
#[derive(Debug)]
pub struct InputState {
    pub key_pressed: HashSet<u32>,
    pub keys_released: HashSet<u32>,
    pub mouse_buttons_pressed: HashSet<u32>,
    pub mouse_buttons_released: HashSet<u32>,
    pub char: Option<char>,
    pub mouse_entered: bool,
    pub focused: bool,
}

impl View for InputState {
    type V = InputStateView;

    open spec fn view(&self) -> InputStateView {
        InputStateView {
            key_pressed: self.key_pressed@,
            keys_released: self.keys_released@,
            mouse_buttons_pressed: self.mouse_buttons_pressed@,
            mouse_buttons_released: self.mouse_buttons_released@,
            char: self.char,
            mouse_entered: self.mouse_entered,
            focused: self.focused,
        }
    }
}

impl Default for InputState {
    fn default() -> (r: Self)
        ensures
            r@.key_pressed == Set::<u32>::empty(),
            r@.keys_released == Set::<u32>::empty(),
            r@.mouse_buttons_pressed == Set::<u32>::empty(),
            r@.mouse_buttons_released == Set::<u32>::empty(),
            r@.char == None::<char>,
            !r@.mouse_entered,
            !r@.focused,
    {
        InputState {
            key_pressed: HashSet::new(),
            keys_released: HashSet::new(),
            mouse_buttons_pressed: HashSet::new(),
            mouse_buttons_released: HashSet::new(),
            char: None,
            mouse_entered: false,
            focused: false,
        }
    }
}

impl InputState {
    /// Starts a new frame: forgets every press, release and character of
    /// the last frame; cursor and focus state are kept.
    pub fn begin_frame(&mut self)
        ensures
            final(self)@ == (InputStateView {
                key_pressed: Set::empty(),
                keys_released: Set::empty(),
                mouse_buttons_pressed: Set::empty(),
                mouse_buttons_released: Set::empty(),
                char: None,
                ..old(self)@
            }),
    {
        self.keys_released.clear();
        self.key_pressed.clear();
        self.mouse_buttons_pressed.clear();
        self.mouse_buttons_released.clear();
        self.char = None;
    }

    /// Records one window event.
    pub fn handle_event(&mut self, event: SimpleInput)
        ensures
            final(self)@ == simple_step(old(self)@, event),
    {
        match event {
            SimpleInput::KeyPressed(k) => {
                self.key_pressed.insert(k);
            },
            SimpleInput::KeyReleased(k) => {
                self.keys_released.insert(k);
            },
            SimpleInput::MousePressed(b) => {
                self.mouse_buttons_pressed.insert(b.code());
            },
            SimpleInput::MouseReleased(b) => {
                self.mouse_buttons_released.insert(b.code());
            },
            SimpleInput::ReceivedCharacter(c) => self.char = Some(c),
            SimpleInput::MouseEntered => self.mouse_entered = true,
            SimpleInput::MouseExited => self.mouse_entered = false,
            SimpleInput::Focused => self.focused = true,
            SimpleInput::Unfocused => self.focused = false,
            SimpleInput::Other => {},
        }
    }

    /// Whether `key` went down during this frame.
    pub fn key_pressed(&self, key: u32) -> (r: bool)
        ensures
            r == self@.key_pressed.contains(key),
    {
        self.key_pressed.contains(&key)
    }

    /// Whether `key` went up during this frame.
    pub fn key_released(&self, key: u32) -> (r: bool)
        ensures
            r == self@.keys_released.contains(key),
    {
        self.keys_released.contains(&key)
    }

    /// Whether `button` went down during this frame.
    pub fn mouse_pressed(&self, button: MouseButton) -> (r: bool)
        ensures
            r == self@.mouse_buttons_pressed.contains(button.spec_code()),
    {
        let code = button.code();
        self.mouse_buttons_pressed.contains(&code)
    }

    /// Whether `button` went up during this frame.
    pub fn mouse_released(&self, button: MouseButton) -> (r: bool)
        ensures
            r == self@.mouse_buttons_released.contains(button.spec_code()),
    {
        let code = button.code();
        self.mouse_buttons_released.contains(&code)
    }
}

/// `c` with ASCII upper-case letters made lower-case.
pub open spec fn ascii_lower(c: char) -> char {
    if 'A' <= c && c <= 'Z' {
        ((c as u32) + 32) as char
    } else {
        c
    }
}

/// `s` equals the lower-case `word` once its ASCII letters are lowered.
/// For the all-ASCII-letter words compared here this is the same as
/// comparing the Unicode lower-casing of `s` with `word`: no other
/// character lower-cases to one of their letters.
pub open spec fn matches_lowered(s: Seq<char>, word: Seq<char>) -> bool {
    s.len() == word.len() && forall|i: int| 0 <= i < s.len() ==> ascii_lower(#[trigger] s[i]) == word[i]
}

fn lower_char(c: char) -> (r: char)
    ensures
        r == ascii_lower(c),
{
    if 'A' <= c && c <= 'Z' {
        let b = (c as u8) + 32;
        assert(b as u32 == c as u32 + 32);
        b as char
    } else {
        c
    }
}

/// Whether `s`, its ASCII letters lowered, equals `word`.
pub fn eq_lowered(s: &str, word: &str) -> (r: bool)
    ensures
        r == matches_lowered(s@, word@),
{
    let n = s.unicode_len();
    if n != word.unicode_len() {
        return false;
    }
    let mut i: usize = 0;
    while i < n
        invariant
            n == s@.len(),
            n == word@.len(),
            i <= n,
            forall|j: int| 0 <= j < i ==> ascii_lower(#[trigger] s@[j]) == word@[j],
        decreases n - i,
    {
        if lower_char(s.get_char(i)) != word.get_char(i) {
            return false;
        }
        i = i + 1;
    }
    true
}

/// The button a script names: `left`, `right` or `middle`, in any case;
/// any other name names no button.
pub open spec fn named_button(name: Seq<char>) -> Option<MouseButton> {
    if matches_lowered(name, seq!['l', 'e', 'f', 't']) {
        Some(MouseButton::Left)
    } else if matches_lowered(name, seq!['r', 'i', 'g', 'h', 't']) {
        Some(MouseButton::Right)
    } else if matches_lowered(name, seq!['m', 'i', 'd', 'd', 'l', 'e']) {
        Some(MouseButton::Middle)
    } else {
        None
    }
}

/// The button a script names.
pub fn mouse_button_from_name(name: &str) -> (r: Option<MouseButton>)
    ensures
        r == named_button(name@),
{
    proof {
        reveal_strlit("left");
        reveal_strlit("right");
        reveal_strlit("middle");
        assert("left"@ =~= seq!['l', 'e', 'f', 't']);
        assert("right"@ =~= seq!['r', 'i', 'g', 'h', 't']);
        assert("middle"@ =~= seq!['m', 'i', 'd', 'd', 'l', 'e']);
    }
    if eq_lowered(name, "left") {
        Some(MouseButton::Left)
    } else if eq_lowered(name, "right") {
        Some(MouseButton::Right)
    } else if eq_lowered(name, "middle") {
        Some(MouseButton::Middle)
    } else {
        None
    }
}

/// A key as scripts see it: a named key, or the text a key produces.
#[derive(Debug, Clone, PartialEq, Eq)]
pub enum KeyRepr {
    Named(String),
    Character(String),
}

impl KeyRepr {
    /// The kind of key, as the `kind` field scripts read spells it.
    pub fn kind(&self) -> (r: &'static str)
        ensures
            self is Named ==> r@ == "mamed"@,
            self is Character ==> r@ == "character"@,
    {
        match self {
            KeyRepr::Named(_) => "mamed",
            KeyRepr::Character(_) => "character",
        }
    }

    /// The name of the key, or the text it produced.
    pub fn value(&self) -> (r: String)
        ensures
            r@ == match self {
                KeyRepr::Named(v) => v@,
                KeyRepr::Character(v) => v@,
            },
    {
        match self {
            KeyRepr::Named(v) => String::from_str(v.as_str()),
            KeyRepr::Character(v) => String::from_str(v.as_str()),
        }
    }
}

/// A key as the window reports the text it produced: a named key, the
/// characters it typed, or a key of neither kind.
#[derive(Debug, Clone)]
pub enum Key {
    /// A named key, by its name.
    Named(String),
    Character(String),
    Unidentified,
}

/// The script view of the keys `keys`, in order; keys of neither kind are
/// left out.
pub open spec fn key_reprs(keys: Seq<Key>) -> Seq<KeyRepr>
    decreases keys.len(),
{
    if keys.len() == 0 {
        Seq::empty()
    } else {
        key_reprs(keys.drop_last()) + match keys.last() {
            Key::Named(n) => seq![KeyRepr::Named(n)],
            Key::Character(c) => seq![KeyRepr::Character(c)],
            Key::Unidentified => Seq::empty(),
        }
    }
}

/// The characters of a key's name or text.
pub open spec fn key_repr_view(k: KeyRepr) -> (bool, Seq<char>) {
    match k {
        KeyRepr::Named(n) => (true, n@),
        KeyRepr::Character(c) => (false, c@),
    }
}

impl KeyRepr {
    /// The script view of the keys `keys`, in order; keys of neither kind
    /// are left out.
    pub fn from_keys(keys: &[Key]) -> (r: Vec<KeyRepr>)
        ensures
            r@.map_values(|k: KeyRepr| key_repr_view(k)) == key_reprs(keys@).map_values(
                |k: KeyRepr| key_repr_view(k),
            ),
    {
        let mut out: Vec<KeyRepr> = Vec::new();
        let mut i: usize = 0;
        while i < keys.len()
            invariant
                i <= keys@.len(),
                out@.map_values(|k: KeyRepr| key_repr_view(k)) == key_reprs(keys@.take(i as int)).map_values(
                    |k: KeyRepr| key_repr_view(k),
                ),
            decreases keys@.len() - i,
        {
            let ghost before = out@;
            match &keys[i] {
                Key::Named(n) => out.push(KeyRepr::Named(String::from_str(n.as_str()))),
                Key::Character(c) => out.push(KeyRepr::Character(String::from_str(c.as_str()))),
                Key::Unidentified => {},
            }
            proof {
                let t = keys@.take(i + 1);
                let f = |k: KeyRepr| key_repr_view(k);
                assert(t.drop_last() =~= keys@.take(i as int));
                assert(t.last() == keys@[i as int]);
                let prev = key_reprs(keys@.take(i as int));
                let tail: Seq<KeyRepr> = match keys@[i as int] {
                    Key::Named(n) => seq![KeyRepr::Named(n)],
                    Key::Character(c) => seq![KeyRepr::Character(c)],
                    Key::Unidentified => Seq::empty(),
                };
                assert(key_reprs(t) == prev + tail);
                assert((prev + tail).map_values(f) =~= prev.map_values(f) + tail.map_values(f));
                assert(out@.map_values(f) =~= before.map_values(f) + tail.map_values(f));
            }
            i = i + 1;
        }
        assert(keys@.take(keys@.len() as int) =~= keys@);
        out
    }
}

/// The text committed by the input method during a frame: every commit, in
/// order, run together.
pub open spec fn committed_text(s: Seq<Ime>) -> Seq<char>
    decreases s.len(),
{
    if s.len() == 0 {
        Seq::empty()
    } else {
        committed_text(s.drop_last()) + match s.last() {
            Ime::Commit(c) => c@,
            _ => Seq::empty(),
        }
    }
}

/// The last pre-edit of a frame that shows something: text, or a cursor.
pub open spec fn last_preedit(s: Seq<Ime>) -> Option<(Seq<char>, Option<(usize, usize)>)>
    decreases s.len(),
{
    if s.len() == 0 {
        None
    } else {
        match s.last() {
            Ime::Preedit(c, p) => if c@.len() == 0 && p is None {
                last_preedit(s.drop_last())
            } else {
                Some((c@, p))
            },
            _ => last_preedit(s.drop_last()),
        }
    }
}

/// Whether the input method was last switched on or off during a frame.
pub open spec fn last_enabled(s: Seq<Ime>) -> Option<bool>
    decreases s.len(),
{
    if s.len() == 0 {
        None
    } else {
        match s.last() {
            Ime::Enabled => Some(true),
            Ime::Disabled => Some(false),
            _ => last_enabled(s.drop_last()),
        }
    }
}

/// What the input method did during a frame, from its events in order:
/// the committed text, the last pre-edit that shows something, and whether
/// it was last switched on or off.
pub fn ime_summary(events: &[Ime]) -> (r: (String, Option<(String, Option<(usize, usize)>)>, Option<bool>))
    ensures
        r.0@ == committed_text(events@),
        match (r.1, last_preedit(events@)) {
            (Some((c, p)), Some((c2, p2))) => c@ == c2 && p == p2,
            (None, None) => true,
            _ => false,
        },
        r.2 == last_enabled(events@),
{
    let mut commit = String::new();
    let mut preedit: Option<(String, Option<(usize, usize)>)> = None;
    let mut enable: Option<bool> = None;
    let mut i: usize = 0;
    while i < events.len()
        invariant
            i <= events@.len(),
            commit@ == committed_text(events@.take(i as int)),
            match (preedit, last_preedit(events@.take(i as int))) {
                (Some((c, p)), Some((c2, p2))) => c@ == c2 && p == p2,
                (None, None) => true,
                _ => false,
            },
            enable == last_enabled(events@.take(i as int)),
        decreases events@.len() - i,
    {
        proof {
            let t = events@.take(i + 1);
            assert(t.drop_last() =~= events@.take(i as int));
            assert(t.last() == events@[i as int]);
        }
        match &events[i] {
            Ime::Commit(c) => {
                commit.append(c.as_str());
            },
            Ime::Preedit(c, p) => {
                if !(c.unicode_len() == 0 && p.is_none()) {
                    preedit = Some((String::from_str(c.as_str()), *p));
                }
            },
            Ime::Enabled => {
                enable = Some(true);
            },
            Ime::Disabled => {
                enable = Some(false);
            },
        }
        i = i + 1;
    }
    assert(events@.take(events@.len() as int) =~= events@);
    (commit, preedit, enable)
}

/// A key that is held is not pressed again until it is released: a
/// repeated press of it changes nothing.
pub proof fn held_key_press_is_ignored(v: EventStateView, k: u32)
    requires
        v.keys_held.contains(k),
    ensures
        step(v, WindowInput::KeyboardInput { key: Some(k), state: ElementState::Pressed }) == v,
{
}

/// Pressing and then releasing a key that was not held leaves the held keys
/// as they were, and the frame remembers both the press and the release.
pub proof fn press_then_release(v: EventStateView, k: u32)
    requires
        !v.keys_held.contains(k),
    ensures
        ({
            let w = step(
                step(v, WindowInput::KeyboardInput { key: Some(k), state: ElementState::Pressed }),
                WindowInput::KeyboardInput { key: Some(k), state: ElementState::Released },
            );
            &&& w.keys_held == v.keys_held
            &&& w.keys_pressed.contains(k)
            &&& w.keys_released.contains(k)
        }),
{
    let w = step(
        step(v, WindowInput::KeyboardInput { key: Some(k), state: ElementState::Pressed }),
        WindowInput::KeyboardInput { key: Some(k), state: ElementState::Released },
    );
    assert(w.keys_held =~= v.keys_held);
}

/// Releasing a key that is not held changes nothing.
pub proof fn release_of_unheld_key_is_ignored(v: EventStateView, k: u32)
    requires
        !v.keys_held.contains(k),
    ensures
        step(v, WindowInput::KeyboardInput { key: Some(k), state: ElementState::Released }) == v,
{
}

/// A released mouse button is no longer pressed.
pub proof fn released_button_is_not_pressed(v: EventStateView, b: MouseButton)
    ensures
        !step(
            v,
            WindowInput::MouseInput { button: b, state: ElementState::Released },
        ).mouse_buttons_pressed.contains(b.spec_code()),
        step(
            v,
            WindowInput::MouseInput { button: b, state: ElementState::Released },
        ).mouse_buttons_released.contains(b.spec_code()),
{
}

/// Once the engine is exiting it stays so: no event and no new frame clears
/// the flag.
pub proof fn exit_is_sticky(v: EventStateView, e: WindowInput)
    requires
        v.is_exit,
    ensures
        step(v, e).is_exit,
        begun_frame(v).is_exit,
{
}

/// A new frame keeps what is held: held keys, pressed buttons, focus and
/// cursor state carry over; only the last frame's events are forgotten.
pub proof fn new_frame_keeps_held(v: EventStateView)
    ensures
        begun_frame(v).keys_held == v.keys_held,
        begun_frame(v).mouse_buttons_pressed == v.mouse_buttons_pressed,
        begun_frame(v).focused == v.focused,
        begun_frame(v).mouse_entered == v.mouse_entered,
        begun_frame(v).keys_pressed.is_empty(),
        begun_frame(v).keys_released.is_empty(),
{
}

/// Within a frame the simple tracker only adds: every press and release
/// already recorded stays recorded whatever event comes next.
pub proof fn simple_step_keeps_recorded(v: InputStateView, e: SimpleInput)
    ensures
        v.key_pressed.subset_of(simple_step(v, e).key_pressed),
        v.keys_released.subset_of(simple_step(v, e).keys_released),
        v.mouse_buttons_pressed.subset_of(simple_step(v, e).mouse_buttons_pressed),
        v.mouse_buttons_released.subset_of(simple_step(v, e).mouse_buttons_released),
{
}

/// The window's focus is what the latest focus event says, whatever it was
/// before: gaining and losing focus are both recorded.
pub proof fn focus_follows_latest_event(v: EventStateView, f: bool, g: bool)
    ensures
        step(v, WindowInput::Focused(f)).focused == f,
        step(step(v, WindowInput::Focused(f)), WindowInput::Focused(g)).focused == g,
{
}

/// The character recorded for a frame is the latest one received: a new
/// character replaces the one before it.
pub proof fn latest_character_wins(v: EventStateView, a: char, b: char)
    ensures
        step(v, WindowInput::ReceivedCharacter(a)).char == Some(a),
        step(
            step(v, WindowInput::ReceivedCharacter(a)),
            WindowInput::ReceivedCharacter(b),
        ).char == Some(b),
{
}

/// The cursor is inside the window exactly when the latest cursor event
/// says it entered.
pub proof fn cursor_follows_latest_event(v: EventStateView)
    ensures
        step(v, WindowInput::CursorEntered).mouse_entered,
        !step(v, WindowInput::CursorLeft).mouse_entered,
        !step(step(v, WindowInput::CursorEntered), WindowInput::CursorLeft).mouse_entered,
        step(step(v, WindowInput::CursorLeft), WindowInput::CursorEntered).mouse_entered,
{
}

/// The simple tracker records the latest character typed, and the latest
/// focus and cursor state.
pub proof fn simple_latest_wins(v: InputStateView, a: char, b: char)
    ensures
        simple_step(v, SimpleInput::ReceivedCharacter(a)).char == Some(a),
        simple_step(
            simple_step(v, SimpleInput::ReceivedCharacter(a)),
            SimpleInput::ReceivedCharacter(b),
        ).char == Some(b),
        simple_step(simple_step(v, SimpleInput::Focused), SimpleInput::Unfocused).focused == false,
        simple_step(simple_step(v, SimpleInput::Unfocused), SimpleInput::Focused).focused,
        !simple_step(simple_step(v, SimpleInput::MouseEntered), SimpleInput::MouseExited).mouse_entered,
        simple_step(simple_step(v, SimpleInput::MouseExited), SimpleInput::MouseEntered).mouse_entered,
{
}

/// The pre-edit reported for a frame is the latest one that shows
/// something: a pre-edit with text or a cursor replaces every earlier one,
/// and an empty pre-edit (no text, no cursor) changes nothing.
pub proof fn latest_preedit_wins(s: Seq<Ime>, c: String, p: Option<(usize, usize)>)
    ensures
        !(c@.len() == 0 && p is None) ==> last_preedit(s.push(Ime::Preedit(c, p))) == Some(
            (c@, p),
        ),
        (c@.len() == 0 && p is None) ==> last_preedit(s.push(Ime::Preedit(c, p)))
            == last_preedit(s),
{
    assert(s.push(Ime::Preedit(c, p)).drop_last() =~= s);
}

/// Events other than pre-edits do not change which pre-edit is reported.
pub proof fn preedit_ignores_other_events(s: Seq<Ime>, e: Ime)
    requires
        !(e is Preedit),
    ensures
        last_preedit(s.push(e)) == last_preedit(s),
{
    assert(s.push(e).drop_last() =~= s);
}

/// The committed text of a frame is the text of its commits, in order: the
/// events of two stretches of a frame commit the first stretch's text
/// followed by the second's.
pub proof fn committed_text_concatenates(s: Seq<Ime>, t: Seq<Ime>)
    ensures
        committed_text(s + t) == committed_text(s) + committed_text(t),
    decreases t.len(),
{
    if t.len() == 0 {
        assert(s + t =~= s);
        assert(committed_text(s) + committed_text(t) =~= committed_text(s));
    } else {
        committed_text_concatenates(s, t.drop_last());
        assert((s + t).drop_last() =~= s + t.drop_last());
        assert((s + t).last() == t.last());
        assert(committed_text(s + t) =~= committed_text(s) + committed_text(t));
    }
}

/// A commit adds its text at the end of what the frame committed.
pub proof fn commit_appends(s: Seq<Ime>, c: String)
    ensures
        committed_text(s.push(Ime::Commit(c))) == committed_text(s) + c@,
{
    assert(s.push(Ime::Commit(c)).drop_last() =~= s);
}

/// Whether the input method is on is what the latest switch says.
pub proof fn latest_switch_wins(s: Seq<Ime>, e: Ime)
    ensures
        e is Enabled ==> last_enabled(s.push(e)) == Some(true),
        e is Disabled ==> last_enabled(s.push(e)) == Some(false),
        !(e is Enabled) && !(e is Disabled) ==> last_enabled(s.push(e)) == last_enabled(s),
{
    assert(s.push(e).drop_last() =~= s);
}

} // verus!
