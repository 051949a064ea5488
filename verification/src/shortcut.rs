//! Keyboard shortcuts as the editor's menus show them.
use vstd::prelude::*;
use crate::text::{string_push_str, upper_char};

verus! {

/// A key with the modifiers held with it.
#[derive(Copy, Clone, Debug)]
pub struct Shortcut {
    cmd_or_ctrl: bool,
    shift: bool,
    alt: bool,
    key: char,
}

/// The upper-case form of a character, as `char::to_uppercase` yields it.
pub uninterp spec fn char_uppercase(c: char) -> Seq<char>;

/// Calls `char::to_uppercase` and collects what it yields.  For an ASCII
/// character that is the character with `a` to `z` upper-cased, as the
/// documentation of `char::to_uppercase` and `char::to_ascii_uppercase`
/// gives it; for other characters the result is only named.
#[verifier::external_body]
fn uppercase_string(c: char) -> (s: String)
    ensures
        s@ == char_uppercase(c),
        (c as u32) < 128 ==> s@ == seq![upper_char(c)],
{
    c.to_uppercase().to_string()
}

/// The words of a shortcut's label, joined by single spaces.
pub open spec fn join_words(words: Seq<Seq<char>>) -> Seq<char>
    decreases words.len(),
{
    if words.len() == 0 {
        Seq::empty()
    } else if words.len() == 1 {
        words[0]
    } else {
        join_words(words.drop_last()) + seq![' '] + words.last()
    }
}

impl Shortcut {
    pub closed spec fn modifiers(self) -> (bool, bool, bool) {
        (self.cmd_or_ctrl, self.shift, self.alt)
    }

    pub closed spec fn key_spec(self) -> char {
        self.key
    }

    /// The words of the label: Alt, Shift and Ctrl (their symbols on macOS)
    /// for the modifiers held, then the key upper-cased.
    pub open spec fn label_words(self, macos: bool) -> Seq<Seq<char>> {
        self.label_words_with(macos, char_uppercase(self.key_spec()))
    }

    /// The modifier words of the label followed by `key_word`.
    pub open spec fn label_words_with(self, macos: bool, key_word: Seq<char>) -> Seq<Seq<char>> {
        let (ctrl, shift, alt) = self.modifiers();
        (if alt {
            seq![if macos { "\u{2325}"@ } else { "Alt"@ }]
        } else {
            Seq::empty()
        }) + (if shift {
            seq![if macos { "\u{2B06}"@ } else { "Shift"@ }]
        } else {
            Seq::empty()
        }) + (if ctrl {
            seq![if macos { "\u{2318}"@ } else { "Ctrl"@ }]
        } else {
            Seq::empty()
        }) + seq![key_word]
    }

    /// A shortcut of `key` alone.
    pub fn new(key: char) -> (s: Self)
        ensures
            s.modifiers() == (false, false, false),
            s.key_spec() == key,
    {
        Shortcut { cmd_or_ctrl: false, shift: false, alt: false, key }
    }

    /// The same shortcut with Command (macOS) or Control held.
    pub fn cmd_or_ctrl(self) -> (s: Self)
        ensures
            s.modifiers() == (true, self.modifiers().1, self.modifiers().2),
            s.key_spec() == self.key_spec(),
    {
        let mut s = self;
        s.cmd_or_ctrl = true;
        s
    }

    /// The same shortcut with Alt held.
    pub fn alt(self) -> (s: Self)
        ensures
            s.modifiers() == (self.modifiers().0, self.modifiers().1, true),
            s.key_spec() == self.key_spec(),
    {
        let mut s = self;
        s.alt = true;
        s
    }

    /// The same shortcut with Shift held.
    pub fn shift(self) -> (s: Self)
        ensures
            s.modifiers() == (self.modifiers().0, true, self.modifiers().2),
            s.key_spec() == self.key_spec(),
    {
        let mut s = self;
        s.shift = true;
        s
    }

    /// The label a menu shows: the words of `label_words` joined by spaces.
    /// `macos` chooses the modifier symbols of that platform.
    pub fn to_label(self, macos: bool) -> (s: String)
        ensures
            s@ == join_words(self.label_words(macos)),
            (self.key_spec() as u32) < 128 ==> s@ == join_words(
                self.label_words_with(macos, seq![upper_char(self.key_spec())]),
            ),
    {
        let mut words: Vec<String> = Vec::new();
        if self.alt {
            words.push(if macos { "\u{2325}" } else { "Alt" }.to_owned());
        }
        if self.shift {
            words.push(if macos { "\u{2B06}" } else { "Shift" }.to_owned());
        }
        if self.cmd_or_ctrl {
            words.push(if macos { "\u{2318}" } else { "Ctrl" }.to_owned());
        }
        words.push(uppercase_string(self.key));
        let ghost ws = words@.map_values(|w: String| w@);
        assert(ws == self.label_words(macos));
        let mut s = String::new();
        let mut i: usize = 0;
        while i < words.len()
            invariant
                i <= words@.len(),
                ws == words@.map_values(|w: String| w@),
                s@ == join_words(ws.take(i as int)),
            decreases words.len() - i,
        {
            if i > 0 {
                string_push_str(&mut s, " ");
            }
            string_push_str(&mut s, words[i].as_str());
            proof {
                reveal_strlit(" ");
                assert(ws.take(i + 1).drop_last() == ws.take(i as int));
                if i == 0 {
                    assert(ws.take(1) == seq![ws[0]]);
                }
            }
            i = i + 1;
        }
        assert(ws.take(ws.len() as int) == ws);
        s
    }
}

/// A shortcut of `key` alone.
pub fn shortcut(key: char) -> (s: Shortcut)
    ensures
        s.modifiers() == (false, false, false),
        s.key_spec() == key,
{
    Shortcut::new(key)
}

} // verus!
