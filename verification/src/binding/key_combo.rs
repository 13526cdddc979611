//! Key chords and application targets that an action can carry.

use vstd::prelude::*;
use vstd::string::{StrSliceExecFns, StringExecFns};

use crate::ordered::{Replicate, Same};
use crate::text::{
    after_nth, lemma_after_nth_is_tail, lemma_first_separator, lemma_no_separator, same_text, strip_to_nth,
};

verus! {

/// A key pressed together with modifiers.
#[derive(Clone, Debug, PartialEq, Eq, Hash)]
pub struct KeyCombo {
    /// Command on macOS, the logo key elsewhere.
    pub cmd: bool,
    /// Control.
    pub ctrl: bool,
    /// Option on macOS, Alt elsewhere.
    pub alt: bool,
    /// Shift.
    pub shift: bool,
    /// The name of the key.
    pub key: String,
}

/// The model of a [`KeyCombo`].
pub ghost struct KeyComboModel {
    pub cmd: bool,
    pub ctrl: bool,
    pub alt: bool,
    pub shift: bool,
    pub key: Seq<char>,
}

/// A modifier key.
#[derive(Clone, Copy, Debug, PartialEq, Eq, Structural)]
pub enum Modifier {
    Cmd,
    Ctrl,
    Alt,
    Shift,
}

/// The text does not name a chord.
#[derive(Clone, Copy, Debug, PartialEq, Eq, Structural)]
pub struct ParseComboError;

/// The modifier that `name` stands for.
pub open spec fn modifier_named(name: Seq<char>) -> Option<Modifier> {
    if name == "Cmd"@ {
        Some(Modifier::Cmd)
    } else if name == "Ctrl"@ {
        Some(Modifier::Ctrl)
    } else if name == "Alt"@ {
        Some(Modifier::Alt)
    } else if name == "Shift"@ {
        Some(Modifier::Shift)
    } else {
        None
    }
}

impl KeyComboModel {
    /// The chord with one modifier more.
    pub open spec fn with(self, modifier: Modifier) -> KeyComboModel {
        match modifier {
            Modifier::Cmd => KeyComboModel { cmd: true, ..self },
            Modifier::Ctrl => KeyComboModel { ctrl: true, ..self },
            Modifier::Alt => KeyComboModel { alt: true, ..self },
            Modifier::Shift => KeyComboModel { shift: true, ..self },
        }
    }

    /// How the chord is written.
    pub open spec fn rendered(self) -> Seq<char> {
        let cmd = if self.cmd { "Cmd+"@ } else { Seq::empty() };
        let ctrl = if self.ctrl { "Ctrl+"@ } else { Seq::empty() };
        let alt = if self.alt { "Alt+"@ } else { Seq::empty() };
        let shift = if self.shift { "Shift+"@ } else { Seq::empty() };
        cmd + ctrl + alt + shift + self.key
    }
}

/// The chord that `text` names: modifiers, each followed by a plus sign, then a
/// key that is not a modifier.
pub open spec fn combo_named(text: Seq<char>) -> Option<KeyComboModel>
    decreases text.len(),
{
    match after_nth(text, '+', 1) {
        None => if text.len() == 0 || modifier_named(text) is Some {
            None
        } else {
            Some(
                KeyComboModel { cmd: false, ctrl: false, alt: false, shift: false, key: text },
            )
        },
        Some(rest) => {
            proof {
                lemma_after_nth_is_tail(text, '+', 1);
            }
            match (modifier_named(text.take(text.len() - rest.len() - 1)), combo_named(rest)) {
                (Some(modifier), Some(combo)) => Some(combo.with(modifier)),
                _ => None,
            }
        },
    }
}

fn modifier(name: &str) -> (modifier: Option<Modifier>)
    ensures
        modifier == modifier_named(name@),
{
    if same_text(name, "Cmd") {
        Some(Modifier::Cmd)
    } else if same_text(name, "Ctrl") {
        Some(Modifier::Ctrl)
    } else if same_text(name, "Alt") {
        Some(Modifier::Alt)
    } else if same_text(name, "Shift") {
        Some(Modifier::Shift)
    } else {
        None
    }
}

impl View for KeyCombo {
    type V = KeyComboModel;

    open spec fn view(&self) -> KeyComboModel {
        KeyComboModel {
            cmd: self.cmd,
            ctrl: self.ctrl,
            alt: self.alt,
            shift: self.shift,
            key: self.key@,
        }
    }
}

impl Replicate for KeyCombo {
    fn replicate(&self) -> (copy: Self) {
        KeyCombo {
            cmd: self.cmd,
            ctrl: self.ctrl,
            alt: self.alt,
            shift: self.shift,
            key: self.key.clone(),
        }
    }
}

impl Same for KeyCombo {
    fn same(&self, other: &Self) -> (same: bool) {
        self.cmd == other.cmd && self.ctrl == other.ctrl && self.alt == other.alt && self.shift
            == other.shift && self.key == other.key
    }
}

impl KeyCombo {
    /// Read a chord such as `Cmd+Shift+P`.
    pub fn parse(text: &str) -> (result: Result<KeyCombo, ParseComboError>)
        ensures
            match result {
                Ok(combo) => combo_named(text@) == Some(combo@),
                Err(_) => combo_named(text@) is None,
            },
        decreases text@.len(),
    {
        match strip_to_nth(text, '+', 1) {
            None => {
                if text.is_empty() || modifier(text).is_some() {
                    Err(ParseComboError)
                } else {
                    Ok(
                        KeyCombo {
                            cmd: false,
                            ctrl: false,
                            alt: false,
                            shift: false,
                            key: text.to_owned(),
                        },
                    )
                }
            },
            Some(rest) => {
                proof {
                    lemma_after_nth_is_tail(text@, '+', 1);
                }
                let end: usize = text.unicode_len() - rest.unicode_len() - 1;
                let head = text.substring_char(0, end);
                assert(head@ =~= text@.take(end as int));
                match (modifier(head), KeyCombo::parse(rest)) {
                    (Some(Modifier::Cmd), Ok(combo)) => Ok(KeyCombo { cmd: true, ..combo }),
                    (Some(Modifier::Ctrl), Ok(combo)) => Ok(KeyCombo { ctrl: true, ..combo }),
                    (Some(Modifier::Alt), Ok(combo)) => Ok(KeyCombo { alt: true, ..combo }),
                    (Some(Modifier::Shift), Ok(combo)) => Ok(KeyCombo { shift: true, ..combo }),
                    _ => Err(ParseComboError),
                }
            },
        }
    }

    /// The chord written with its modifiers in a fixed order.
    pub fn rendered_label(&self) -> (label: String)
        ensures
            label@ == self@.rendered(),
    {
        let mut label = String::new();
        if self.cmd {
            label.append("Cmd+");
        }
        if self.ctrl {
            label.append("Ctrl+");
        }
        if self.alt {
            label.append("Alt+");
        }
        if self.shift {
            label.append("Shift+");
        }
        label.append(self.key.as_str());
        assert(label@ =~= self@.rendered());
        label
    }
}

/// Whether a chord can be written: its key has a name, which is not that of a
/// modifier and has no plus sign in it.
pub open spec fn can_be_written(combo: KeyComboModel) -> bool {
    combo.key.len() > 0 && !combo.key.contains('+') && modifier_named(combo.key) is None
}

proof fn lemma_one_modifier(name: Seq<char>, modifier: Modifier, rest: Seq<char>)
    requires
        modifier_named(name) == Some(modifier),
        !name.contains('+'),
        combo_named(rest) is Some,
    ensures
        combo_named(name.push('+') + rest) == Some(combo_named(rest).unwrap().with(modifier)),
{
    let text = name.push('+') + rest;
    lemma_first_separator(name, '+', rest);
    assert(text.take(text.len() - rest.len() - 1) =~= name);
}

/// A chord is read back from how it is written.
pub proof fn law_a_written_chord_is_read_back(combo: KeyComboModel)
    requires
        can_be_written(combo),
    ensures
        combo_named(combo.rendered()) == Some(combo),
{
    reveal_strlit("Cmd");
    reveal_strlit("Ctrl");
    reveal_strlit("Alt");
    reveal_strlit("Shift");
    reveal_strlit("Cmd+");
    reveal_strlit("Ctrl+");
    reveal_strlit("Alt+");
    reveal_strlit("Shift+");
    lemma_no_separator(combo.key, '+');
    let bare = KeyComboModel {
        cmd: false,
        ctrl: false,
        alt: false,
        shift: false,
        key: combo.key,
    };
    assert(combo_named(bare.key) == Some(bare));
    let shifted = KeyComboModel { shift: combo.shift, ..bare };
    let shift = if combo.shift { "Shift+"@ + combo.key } else { combo.key };
    if combo.shift {
        lemma_one_modifier("Shift"@, Modifier::Shift, combo.key);
        assert("Shift"@.push('+') =~= "Shift+"@);
    }
    assert(combo_named(shift) == Some(shifted));
    let alted = KeyComboModel { alt: combo.alt, ..shifted };
    let alt = if combo.alt { "Alt+"@ + shift } else { shift };
    if combo.alt {
        lemma_one_modifier("Alt"@, Modifier::Alt, shift);
        assert("Alt"@.push('+') =~= "Alt+"@);
    }
    assert(combo_named(alt) == Some(alted));
    let ctrled = KeyComboModel { ctrl: combo.ctrl, ..alted };
    let ctrl = if combo.ctrl { "Ctrl+"@ + alt } else { alt };
    if combo.ctrl {
        lemma_one_modifier("Ctrl"@, Modifier::Ctrl, alt);
        assert("Ctrl"@.push('+') =~= "Ctrl+"@);
    }
    assert(combo_named(ctrl) == Some(ctrled));
    let cmd = if combo.cmd { "Cmd+"@ + ctrl } else { ctrl };
    if combo.cmd {
        lemma_one_modifier("Cmd"@, Modifier::Cmd, ctrl);
        assert("Cmd"@.push('+') =~= "Cmd+"@);
    }
    assert(combo_named(cmd) == Some(combo));
    assert(cmd =~= combo.rendered());
}

/// An application, folder, path or address to open.
#[derive(Clone, Debug, PartialEq, Eq, Hash)]
pub struct ApplicationTarget {
    /// What to open.
    pub target: String,
    /// The name to show, empty to show the target itself.
    pub name: String,
}

/// The model of an [`ApplicationTarget`].
pub ghost struct TargetModel {
    pub target: Seq<char>,
    pub name: Seq<char>,
}

/// The target is empty.
#[derive(Clone, Copy, Debug, PartialEq, Eq, Structural)]
pub struct EmptyTargetError;

impl View for ApplicationTarget {
    type V = TargetModel;

    open spec fn view(&self) -> TargetModel {
        TargetModel { target: self.target@, name: self.name@ }
    }
}

impl Replicate for ApplicationTarget {
    fn replicate(&self) -> (copy: Self) {
        ApplicationTarget { target: self.target.clone(), name: self.name.clone() }
    }
}

impl Same for ApplicationTarget {
    fn same(&self, other: &Self) -> (same: bool) {
        self.target == other.target && self.name == other.name
    }
}

impl TargetModel {
    /// The name shown for the target.
    pub open spec fn shown(self) -> Seq<char> {
        if self.name.len() == 0 {
            self.target
        } else {
            self.name
        }
    }
}

impl ApplicationTarget {
    /// A target with the name to show for it.
    pub fn new(target: &str, name: &str) -> (result: Result<ApplicationTarget, EmptyTargetError>)
        ensures
            match result {
                Ok(t) => target@.len() > 0 && t@ == (TargetModel { target: target@, name: name@ }),
                Err(_) => target@.len() == 0,
            },
    {
        if target.is_empty() {
            Err(EmptyTargetError)
        } else {
            Ok(ApplicationTarget { target: target.to_owned(), name: name.to_owned() })
        }
    }

    /// The name shown for the target.
    pub fn display_name(&self) -> (name: &str)
        ensures
            name@ == self@.shown(),
    {
        if self.name.as_str().is_empty() {
            self.target.as_str()
        } else {
            self.name.as_str()
        }
    }
}

/// A modifier written before a chord, with a plus sign after it, is held for it
/// and changes nothing else of it. No other word can stand there, and a modifier
/// alone is no chord.
pub proof fn law_a_modifier_is_held_for_its_chord(word: Seq<char>, text: Seq<char>)
    requires
        !word.contains('+'),
    ensures
        combo_named(text) matches Some(combo) ==> {
            &&& combo_named("Cmd+"@ + text) == Some(KeyComboModel { cmd: true, ..combo })
            &&& combo_named("Ctrl+"@ + text) == Some(KeyComboModel { ctrl: true, ..combo })
            &&& combo_named("Alt+"@ + text) == Some(KeyComboModel { alt: true, ..combo })
            &&& combo_named("Shift+"@ + text) == Some(KeyComboModel { shift: true, ..combo })
        },
        combo_named(text) is None ==> combo_named(word + "+"@ + text) is None,
        word != "Cmd"@ && word != "Ctrl"@ && word != "Alt"@ && word != "Shift"@ ==> combo_named(
            word + "+"@ + text,
        ) is None,
        combo_named(word) is Some <==> word.len() > 0 && word != "Cmd"@ && word != "Ctrl"@ && word
            != "Alt"@ && word != "Shift"@,
        combo_named(word) matches Some(combo) ==> combo == (KeyComboModel {
            cmd: false,
            ctrl: false,
            alt: false,
            shift: false,
            key: word,
        }),
{
    reveal_strlit("Cmd");
    reveal_strlit("Ctrl");
    reveal_strlit("Alt");
    reveal_strlit("Shift");
    reveal_strlit("Cmd+");
    reveal_strlit("Ctrl+");
    reveal_strlit("Alt+");
    reveal_strlit("Shift+");
    reveal_strlit("+");
    assert("Cmd"@.push('+') =~= "Cmd+"@);
    assert("Ctrl"@.push('+') =~= "Ctrl+"@);
    assert("Alt"@.push('+') =~= "Alt+"@);
    assert("Shift"@.push('+') =~= "Shift+"@);
    assert("Cmd"@.len() == 3 && "Cmd"@[0] == 'C');
    assert("Alt"@.len() == 3 && "Alt"@[0] == 'A');
    assert("Ctrl"@.len() == 4 && "Shift"@.len() == 5);
    if combo_named(text) is Some {
        lemma_one_modifier("Cmd"@, Modifier::Cmd, text);
        lemma_one_modifier("Ctrl"@, Modifier::Ctrl, text);
        lemma_one_modifier("Alt"@, Modifier::Alt, text);
        lemma_one_modifier("Shift"@, Modifier::Shift, text);
    }
    let whole = word + "+"@ + text;
    assert(whole =~= word.push('+') + text);
    lemma_first_separator(word, '+', text);
    assert(whole.take(whole.len() - text.len() - 1) =~= word);
    lemma_no_separator(word, '+');
}

}
