use vstd::prelude::*;
use vstd::string::StringExecFns;

verus! {

/// A key combination that fires an item's callback without opening any menu.
pub struct KeyboardShortcut {
    pub key: String,
    pub ctrl: bool,
    pub shift: bool,
    pub alt: bool,
}

/// A key pressed this frame, with the modifiers that were held.
pub struct KeyChord {
    pub key: String,
    pub ctrl: bool,
    pub shift: bool,
    pub alt: bool,
}

impl KeyboardShortcut {
    pub fn new(key: &str) -> (r: Self)
        ensures
            r.key@ == key@,
            !r.ctrl && !r.shift && !r.alt,
    {
        KeyboardShortcut { key: key.to_string(), ctrl: false, shift: false, alt: false }
    }

    pub fn with_ctrl(self) -> (r: Self)
        ensures
            r.key == self.key,
            r.ctrl,
            r.shift == self.shift,
            r.alt == self.alt,
    {
        KeyboardShortcut { ctrl: true, ..self }
    }

    pub fn with_shift(self) -> (r: Self)
        ensures
            r.key == self.key,
            r.ctrl == self.ctrl,
            r.shift,
            r.alt == self.alt,
    {
        KeyboardShortcut { shift: true, ..self }
    }

    pub fn with_alt(self) -> (r: Self)
        ensures
            r.key == self.key,
            r.ctrl == self.ctrl,
            r.shift == self.shift,
            r.alt,
    {
        KeyboardShortcut { alt: true, ..self }
    }

    /// The text shown beside an item: the held modifiers in the order Ctrl,
    /// Shift, Alt, each followed by `+`, then the key.
    pub open spec fn display_text(&self) -> Seq<char> {
        (if self.ctrl { "Ctrl+"@ } else { Seq::empty() }) + (if self.shift { "Shift+"@ } else { Seq::empty() })
            + (if self.alt { "Alt+"@ } else { Seq::empty() }) + self.key@
    }

    pub fn display_string(&self) -> (r: String)
        ensures
            r@ == self.display_text(),
    {
        let mut t = String::new();
        if self.ctrl {
            t.append("Ctrl+");
        }
        if self.shift {
            t.append("Shift+");
        }
        if self.alt {
            t.append("Alt+");
        }
        t.append(self.key.as_str());
        assert(t@ =~= self.display_text());
        t
    }

    /// The chord is exactly this combination: same key, same modifiers.
    pub open spec fn spec_matches(&self, c: &KeyChord) -> bool {
        &&& self.key@ == c.key@
        &&& self.ctrl == c.ctrl
        &&& self.shift == c.shift
        &&& self.alt == c.alt
    }

    pub fn matches(&self, c: &KeyChord) -> (r: bool)
        ensures
            r == self.spec_matches(c),
    {
        self.ctrl == c.ctrl && self.shift == c.shift && self.alt == c.alt && self.key == c.key
    }
}

/// An entry of a drop-down panel: a leaf action, or the trigger of a nested panel
/// when `children` is not empty.
pub struct SubMenuItem<A> {
    pub label: String,
    pub enabled: bool,
    pub shortcut: Option<KeyboardShortcut>,
    pub callback: Option<A>,
    pub separator_after: bool,
    pub children: Vec<SubMenuItem<A>>,
}

impl<A> SubMenuItem<A> {
    /// The item opens a nested panel when activated.
    pub open spec fn opens(&self) -> bool {
        self.enabled && self.children@.len() > 0
    }

    pub fn new(label: &str) -> (r: Self)
        ensures
            r.label@ == label@,
            r.enabled,
            r.shortcut.is_none(),
            r.callback.is_none(),
            !r.separator_after,
            r.children@.len() == 0,
    {
        SubMenuItem {
            label: label.to_string(),
            enabled: true,
            shortcut: None,
            callback: None,
            separator_after: false,
            children: Vec::new(),
        }
    }

    pub fn with_shortcut(self, shortcut: KeyboardShortcut) -> (r: Self)
        ensures
            r.shortcut == Some(shortcut),
            r.label == self.label,
            r.enabled == self.enabled,
            r.callback == self.callback,
            r.separator_after == self.separator_after,
            r.children == self.children,
    {
        SubMenuItem { shortcut: Some(shortcut), ..self }
    }

    pub fn with_callback(self, callback: A) -> (r: Self)
        ensures
            r.callback == Some(callback),
            r.label == self.label,
            r.enabled == self.enabled,
            r.shortcut == self.shortcut,
            r.separator_after == self.separator_after,
            r.children == self.children,
    {
        SubMenuItem { callback: Some(callback), ..self }
    }

    pub fn with_separator(self) -> (r: Self)
        ensures
            r.separator_after,
            r.label == self.label,
            r.enabled == self.enabled,
            r.shortcut == self.shortcut,
            r.callback == self.callback,
            r.children == self.children,
    {
        SubMenuItem { separator_after: true, ..self }
    }

    pub fn disabled(self) -> (r: Self)
        ensures
            !r.enabled,
            r.label == self.label,
            r.shortcut == self.shortcut,
            r.callback == self.callback,
            r.separator_after == self.separator_after,
            r.children == self.children,
    {
        SubMenuItem { enabled: false, ..self }
    }

    pub fn add_child(self, child: SubMenuItem<A>) -> (r: Self)
        ensures
            r.children@ == self.children@.push(child),
            r.label == self.label,
            r.enabled == self.enabled,
            r.shortcut == self.shortcut,
            r.callback == self.callback,
            r.separator_after == self.separator_after,
    {
        let mut s = self;
        s.children.push(child);
        s
    }
}

/// A top-level entry that owns a drop-down panel.
pub struct MenuItem<A> {
    pub label: String,
    pub enabled: bool,
    pub subitems: Vec<SubMenuItem<A>>,
}

impl<A> MenuItem<A> {
    pub fn new(label: &str) -> (r: Self)
        ensures
            r.label@ == label@,
            r.enabled,
            r.subitems@.len() == 0,
    {
        MenuItem { label: label.to_string(), enabled: true, subitems: Vec::new() }
    }

    pub fn add_subitem(self, item: SubMenuItem<A>) -> (r: Self)
        ensures
            r.subitems@ == self.subitems@.push(item),
            r.label == self.label,
            r.enabled == self.enabled,
    {
        let mut s = self;
        s.subitems.push(item);
        s
    }

    pub fn disabled(self) -> (r: Self)
        ensures
            !r.enabled,
            r.label == self.label,
            r.subitems == self.subitems,
    {
        MenuItem { enabled: false, ..self }
    }
}

} // verus!
