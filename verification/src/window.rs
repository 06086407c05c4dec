use vstd::prelude::*;
use vstd::string::*;
use crate::input::{eq_lowered, matches_lowered};

verus! {

/// Where the window sits among the others.
#[derive(Debug, Clone, Copy, PartialEq, Eq, Structural)]
pub enum WinLevel {
    AlwaysOnBottom,
    Normal,
    AlwaysOnTop,
}

impl Default for WinLevel {
    fn default() -> (r: Self)
        ensures
            r == WinLevel::Normal,
    {
        WinLevel::Normal
    }
}

/// The title-bar buttons a window shows.
#[derive(Debug, Clone, Copy, PartialEq, Eq, Structural)]
pub struct WindowButtons {
    pub close: bool,
    pub minimize: bool,
    pub maximize: bool,
}

/// The buttons a configuration names, by name: `close`, `maximize`,
/// `minimize`, in any ASCII case.
#[derive(Debug, Clone)]
pub struct WinButtons(pub Vec<String>);

/// Some name of `names` is `word` in any ASCII case.
pub open spec fn names_button(names: Seq<String>, word: Seq<char>) -> bool {
    exists|i: int| 0 <= i < names.len() && matches_lowered(names[i]@, word)
}

/// The buttons the names `names` ask for: all of them when there are no
/// names; otherwise each one that is named, other names being ignored.
pub open spec fn buttons_named(names: Seq<String>) -> WindowButtons {
    if names.len() == 0 {
        WindowButtons { close: true, minimize: true, maximize: true }
    } else {
        WindowButtons {
            close: names_button(names, seq!['c', 'l', 'o', 's', 'e']),
            minimize: names_button(names, seq!['m', 'i', 'n', 'i', 'm', 'i', 'z', 'e']),
            maximize: names_button(names, seq!['m', 'a', 'x', 'i', 'm', 'i', 'z', 'e']),
        }
    }
}

impl Default for WinButtons {
    fn default() -> (r: Self)
        ensures
            r.0@.len() == 3,
            r.0@[0]@ == "close"@,
            r.0@[1]@ == "maximize"@,
            r.0@[2]@ == "minimize"@,
    {
        let mut v: Vec<String> = Vec::new();
        v.push(String::from_str("close"));
        v.push(String::from_str("maximize"));
        v.push(String::from_str("minimize"));
        WinButtons(v)
    }
}

impl WinButtons {
    /// The buttons these names ask for.
    pub fn buttons(&self) -> (r: WindowButtons)
        ensures
            r == buttons_named(self.0@),
    {
        if self.0.len() == 0 {
            return WindowButtons { close: true, minimize: true, maximize: true };
        }
        proof {
            reveal_strlit("close");
            reveal_strlit("minimize");
            reveal_strlit("maximize");
            assert("close"@ =~= seq!['c', 'l', 'o', 's', 'e']);
            assert("minimize"@ =~= seq!['m', 'i', 'n', 'i', 'm', 'i', 'z', 'e']);
            assert("maximize"@ =~= seq!['m', 'a', 'x', 'i', 'm', 'i', 'z', 'e']);
        }
        let mut all = WindowButtons { close: false, minimize: false, maximize: false };
        let mut i: usize = 0;
        while i < self.0.len()
            invariant
                i <= self.0.len(),
                "close"@ == seq!['c', 'l', 'o', 's', 'e'],
                "minimize"@ == seq!['m', 'i', 'n', 'i', 'm', 'i', 'z', 'e'],
                "maximize"@ == seq!['m', 'a', 'x', 'i', 'm', 'i', 'z', 'e'],
                all.close == names_button(self.0@.take(i as int), seq!['c', 'l', 'o', 's', 'e']),
                all.minimize == names_button(
                    self.0@.take(i as int),
                    seq!['m', 'i', 'n', 'i', 'm', 'i', 'z', 'e'],
                ),
                all.maximize == names_button(
                    self.0@.take(i as int),
                    seq!['m', 'a', 'x', 'i', 'm', 'i', 'z', 'e'],
                ),
            decreases self.0.len() - i,
        {
            let item = self.0[i].as_str();
            let c = eq_lowered(item, "close");
            let x = eq_lowered(item, "maximize");
            let n = eq_lowered(item, "minimize");
            proof {
                let t = self.0@.take(i + 1);
                let t0 = self.0@.take(i as int);
                assert forall|w: Seq<char>|
                    names_button(t, w) == (names_button(t0, w) || matches_lowered(
                        self.0@[i as int]@,
                        w,
                    )) by {
                    if names_button(t, w) {
                        let j = choose|j: int| 0 <= j < t.len() && matches_lowered(t[j]@, w);
                        if j < i {
                            assert(t0[j] == t[j]);
                        }
                    }
                    if names_button(t0, w) {
                        let j = choose|j: int| 0 <= j < t0.len() && matches_lowered(t0[j]@, w);
                        assert(t[j] == t0[j]);
                    }
                    if matches_lowered(self.0@[i as int]@, w) {
                        assert(t[i as int] == self.0@[i as int]);
                    }
                }
            }
            all = WindowButtons {
                close: all.close || c,
                minimize: all.minimize || n,
                maximize: all.maximize || x,
            };
            i = i + 1;
        }
        assert(self.0@.take(self.0.len() as int) =~= self.0@);
        all
    }
}

/// The colour scheme a window asks for.
#[derive(Debug, Clone, Copy, PartialEq, Eq, Structural)]
pub enum WinTheme {
    Light,
    Dark,
}

/// The settings of a window other than its geometry; each is optional in
/// the configuration file.
#[derive(Debug, Clone)]
pub struct WindowOptions {
    pub resizable: Option<bool>,
    pub enabled_buttons: Option<WinButtons>,
    pub title: Option<String>,
    pub maximized: Option<bool>,
    pub visible: Option<bool>,
    pub transparent: Option<bool>,
    pub blur: Option<bool>,
    pub decorations: Option<bool>,
    pub preferred_theme: Option<WinTheme>,
    pub content_protected: Option<bool>,
    pub window_level: Option<WinLevel>,
    pub active: Option<bool>,
    pub fullscreen: Option<bool>,
}

/// The settings a window is created with.
#[derive(Debug, Clone)]
pub struct WindowFlags {
    pub active: bool,
    pub window_level: WinLevel,
    pub content_protected: bool,
    pub theme: Option<WinTheme>,
    pub decorations: bool,
    pub blur: bool,
    pub transparent: bool,
    pub visible: bool,
    pub maximized: bool,
    pub title: String,
    pub enabled_buttons: WindowButtons,
    pub resizable: bool,
    pub fullscreen: bool,
}

/// `o`, or `d` when it is not given.
pub open spec fn or_default(o: Option<bool>, d: bool) -> bool {
    match o {
        Some(b) => b,
        None => d,
    }
}

/// The title the window gets when none is configured.
pub open spec fn default_title() -> Seq<char> {
    seq!['F', 'o', 'o', 'l', ' ', 'E', 'n', 'g', 'i', 'n', 'e']
}

impl WindowOptions {
    /// The settings a window is created with: what is configured, and where
    /// nothing is, an active, visible, maximized, resizable window with
    /// decorations and all buttons, at the normal level, neither
    /// transparent, blurred nor content-protected, titled `Fool Engine`.
    /// It goes full screen only when that is asked for.
    pub fn flags(&self) -> (r: WindowFlags)
        ensures
            r.active == or_default(self.active, true),
            r.window_level == match self.window_level {
                Some(l) => l,
                None => WinLevel::Normal,
            },
            r.content_protected == or_default(self.content_protected, false),
            r.theme == self.preferred_theme,
            r.decorations == or_default(self.decorations, true),
            r.blur == or_default(self.blur, false),
            r.transparent == or_default(self.transparent, false),
            r.visible == or_default(self.visible, true),
            r.maximized == or_default(self.maximized, true),
            r.title@ == match self.title {
                Some(t) => t@,
                None => default_title(),
            },
            r.enabled_buttons == match self.enabled_buttons {
                Some(b) => buttons_named(b.0@),
                None => WindowButtons { close: true, minimize: true, maximize: true },
            },
            r.resizable == or_default(self.resizable, true),
            r.fullscreen == (self.fullscreen == Some(true)),
    {
        let title = match &self.title {
            Some(t) => crate::text::to_string(t.as_str()),
            None => {
                proof {
                    reveal_strlit("Fool Engine");
                }
                let t = String::from_str("Fool Engine");
                assert(t@ =~= default_title());
                t
            },
        };
        let enabled_buttons = match &self.enabled_buttons {
            Some(b) => b.buttons(),
            None => {
                let d = WinButtons::default();
                let r = d.buttons();
                proof {
                    reveal_strlit("close");
                    reveal_strlit("minimize");
                    reveal_strlit("maximize");
                    assert(d.0@[0]@ =~= seq!['c', 'l', 'o', 's', 'e']);
                    assert(d.0@[1]@ =~= seq!['m', 'a', 'x', 'i', 'm', 'i', 'z', 'e']);
                    assert(d.0@[2]@ =~= seq!['m', 'i', 'n', 'i', 'm', 'i', 'z', 'e']);
                    assert(matches_lowered(d.0@[0]@, seq!['c', 'l', 'o', 's', 'e']));
                    assert(matches_lowered(d.0@[1]@, seq!['m', 'a', 'x', 'i', 'm', 'i', 'z', 'e']));
                    assert(matches_lowered(d.0@[2]@, seq!['m', 'i', 'n', 'i', 'm', 'i', 'z', 'e']));
                }
                r
            },
        };
        WindowFlags {
            active: match self.active {
                Some(b) => b,
                None => true,
            },
            window_level: match self.window_level {
                Some(l) => l,
                None => WinLevel::Normal,
            },
            content_protected: match self.content_protected {
                Some(b) => b,
                None => false,
            },
            theme: self.preferred_theme,
            decorations: match self.decorations {
                Some(b) => b,
                None => true,
            },
            blur: match self.blur {
                Some(b) => b,
                None => false,
            },
            transparent: match self.transparent {
                Some(b) => b,
                None => false,
            },
            visible: match self.visible {
                Some(b) => b,
                None => true,
            },
            maximized: match self.maximized {
                Some(b) => b,
                None => true,
            },
            title,
            enabled_buttons,
            resizable: match self.resizable {
                Some(b) => b,
                None => true,
            },
            fullscreen: match self.fullscreen {
                Some(true) => true,
                _ => false,
            },
        }
    }
}

} // verus!
