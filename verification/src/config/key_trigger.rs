//! Function keys with modifiers, as triggers of keyboard bindings.

use vstd::prelude::*;
use vstd::string::{StrSliceExecFns, StringExecFns};

use crate::binding::action::Action;
use crate::ordered::{KeyOrder, OrderedKey, OrderedMap, Replicate};
use crate::text::{
    after_nth, lemma_after_nth_is_tail, lemma_first_separator, lemma_no_separator, same_text, strip_to_nth,
};

verus! {

/// The modifiers of a trigger.
#[derive(Clone, Copy, Debug, PartialEq, Eq, PartialOrd, Ord, Hash, Structural)]
pub struct KeyModifiers {
    pub shift: bool,
    pub command: bool,
    pub control: bool,
    pub option: bool,
}

/// A function key with modifiers.
#[derive(Clone, Copy, Debug, PartialEq, Eq, PartialOrd, Ord, Hash, Structural)]
pub struct KeyTrigger {
    /// The code of the key.
    pub keycode: u16,
    /// The modifiers held with it.
    pub modifiers: KeyModifiers,
}

/// The text does not name a trigger.
#[derive(Clone, Copy, Debug, PartialEq, Eq, Structural)]
pub struct ParseTriggerError;

/// Keyboard bindings, the same for every keyboard.
#[derive(Clone, Debug, PartialEq, Eq)]
pub struct KeyboardConfig {
    /// What each trigger does.
    pub bindings: OrderedMap<KeyTrigger, Action>,
}

impl Default for KeyboardConfig {
    fn default() -> (keyboard: Self)
        ensures
            keyboard.bindings@ == Map::<KeyTrigger, crate::binding::action::ActionModel>::empty(),
    {
        KeyboardConfig { bindings: OrderedMap::new() }
    }
}

/// One modifier key.
#[derive(Clone, Copy, Debug, PartialEq, Eq, Structural)]
pub enum ModifierKey {
    Shift,
    Command,
    Control,
    Option,
}

/// The code of the key called `name`.
pub open spec fn key_code(name: Seq<char>) -> Option<u16> {
    if name == "esc"@ {
        Some(0x35)
    } else if name == "f1"@ {
        Some(0x7a)
    } else if name == "f2"@ {
        Some(0x78)
    } else if name == "f3"@ {
        Some(0x63)
    } else if name == "f4"@ {
        Some(0x76)
    } else if name == "f5"@ {
        Some(0x60)
    } else if name == "f6"@ {
        Some(0x61)
    } else if name == "f7"@ {
        Some(0x62)
    } else if name == "f8"@ {
        Some(0x64)
    } else if name == "f9"@ {
        Some(0x65)
    } else if name == "f10"@ {
        Some(0x6d)
    } else if name == "f11"@ {
        Some(0x67)
    } else if name == "f12"@ {
        Some(0x6f)
    } else if name == "f13"@ {
        Some(0x69)
    } else if name == "f14"@ {
        Some(0x6b)
    } else if name == "f15"@ {
        Some(0x71)
    } else if name == "f16"@ {
        Some(0x6a)
    } else if name == "f17"@ {
        Some(0x40)
    } else if name == "f18"@ {
        Some(0x4f)
    } else if name == "f19"@ {
        Some(0x50)
    } else if name == "f20"@ {
        Some(0x5a)
    } else {
        None
    }
}

/// The name of the key with code `code`; empty for any other code.
pub open spec fn key_name(code: u16) -> Seq<char> {
    if code == 0x35 {
        "esc"@
    } else if code == 0x7a {
        "f1"@
    } else if code == 0x78 {
        "f2"@
    } else if code == 0x63 {
        "f3"@
    } else if code == 0x76 {
        "f4"@
    } else if code == 0x60 {
        "f5"@
    } else if code == 0x61 {
        "f6"@
    } else if code == 0x62 {
        "f7"@
    } else if code == 0x64 {
        "f8"@
    } else if code == 0x65 {
        "f9"@
    } else if code == 0x6d {
        "f10"@
    } else if code == 0x67 {
        "f11"@
    } else if code == 0x6f {
        "f12"@
    } else if code == 0x69 {
        "f13"@
    } else if code == 0x6b {
        "f14"@
    } else if code == 0x71 {
        "f15"@
    } else if code == 0x6a {
        "f16"@
    } else if code == 0x40 {
        "f17"@
    } else if code == 0x4f {
        "f18"@
    } else if code == 0x50 {
        "f19"@
    } else if code == 0x5a {
        "f20"@
    } else {
        Seq::empty()
    }
}

/// The modifier called `name`.
pub open spec fn modifier_key(name: Seq<char>) -> Option<ModifierKey> {
    if name == "shift"@ {
        Some(ModifierKey::Shift)
    } else if name == "cmd"@ || name == "command"@ {
        Some(ModifierKey::Command)
    } else if name == "ctrl"@ || name == "control"@ {
        Some(ModifierKey::Control)
    } else if name == "alt"@ || name == "option"@ {
        Some(ModifierKey::Option)
    } else {
        None
    }
}

impl KeyTrigger {
    /// The trigger with one modifier more.
    pub open spec fn with(self, modifier: ModifierKey) -> KeyTrigger {
        let m = self.modifiers;
        KeyTrigger {
            modifiers: match modifier {
                ModifierKey::Shift => KeyModifiers { shift: true, ..m },
                ModifierKey::Command => KeyModifiers { command: true, ..m },
                ModifierKey::Control => KeyModifiers { control: true, ..m },
                ModifierKey::Option => KeyModifiers { option: true, ..m },
            },
            ..self
        }
    }

    /// How the trigger is written.
    pub open spec fn rendered(self) -> Seq<char> {
        let shift = if self.modifiers.shift { "shift+"@ } else { Seq::empty() };
        let command = if self.modifiers.command { "command+"@ } else { Seq::empty() };
        let control = if self.modifiers.control { "control+"@ } else { Seq::empty() };
        let option = if self.modifiers.option { "option+"@ } else { Seq::empty() };
        shift + (command + (control + (option + key_name(self.keycode))))
    }

    /// The place of a trigger in the order of triggers: by code, then by
    /// modifiers.
    pub open spec fn position(self) -> int {
        self.keycode * 16 + (if self.modifiers.shift { 8int } else { 0 }) + (
        if self.modifiers.command { 4int } else { 0 }) + (
        if self.modifiers.control { 2int } else { 0 }) + (
        if self.modifiers.option { 1int } else { 0 })
    }

    fn rank(&self) -> (rank: u32)
        ensures
            rank == self.position(),
    {
        let shift: u32 = if self.modifiers.shift { 8 } else { 0 };
        let command: u32 = if self.modifiers.command { 4 } else { 0 };
        let control: u32 = if self.modifiers.control { 2 } else { 0 };
        let option: u32 = if self.modifiers.option { 1 } else { 0 };
        self.keycode as u32 * 16 + shift + command + control + option
    }
}

/// The trigger that `text` names: modifiers, each followed by a plus sign, then
/// the name of a key.
pub open spec fn trigger_named(text: Seq<char>) -> Option<KeyTrigger>
    decreases text.len(),
{
    match after_nth(text, '+', 1) {
        None => match key_code(text) {
            Some(keycode) => Some(
                KeyTrigger {
                    keycode,
                    modifiers: KeyModifiers {
                        shift: false,
                        command: false,
                        control: false,
                        option: false,
                    },
                },
            ),
            None => None,
        },
        Some(rest) => {
            proof {
                lemma_after_nth_is_tail(text, '+', 1);
            }
            match (modifier_key(text.take(text.len() - rest.len() - 1)), trigger_named(rest)) {
                (Some(modifier), Some(trigger)) => Some(trigger.with(modifier)),
                _ => None,
            }
        },
    }
}

impl View for KeyTrigger {
    type V = KeyTrigger;

    open spec fn view(&self) -> KeyTrigger {
        *self
    }
}

impl Replicate for KeyTrigger {
    fn replicate(&self) -> (copy: Self) {
        *self
    }
}

impl OrderedKey for KeyTrigger {
    type Probe = KeyTrigger;

    open spec fn before(a: KeyTrigger, b: KeyTrigger) -> bool {
        a.position() < b.position()
    }

    proof fn before_irreflexive(a: KeyTrigger) {
    }

    proof fn before_transitive(a: KeyTrigger, b: KeyTrigger, c: KeyTrigger) {
    }

    proof fn before_total(a: KeyTrigger, b: KeyTrigger) {
    }

    fn order_against(&self, probe: &KeyTrigger) -> (order: KeyOrder) {
        let own: u32 = self.rank();
        let other: u32 = probe.rank();
        if own < other {
            KeyOrder::Before
        } else if own > other {
            KeyOrder::After
        } else {
            KeyOrder::Same
        }
    }

    fn as_probe(&self) -> (probe: &KeyTrigger) {
        self
    }
}

fn code_of(name: &str) -> (code: Option<u16>)
    ensures
        code == key_code(name@),
{
    if same_text(name, "esc") {
        Some(0x35)
    } else if same_text(name, "f1") {
        Some(0x7a)
    } else if same_text(name, "f2") {
        Some(0x78)
    } else if same_text(name, "f3") {
        Some(0x63)
    } else if same_text(name, "f4") {
        Some(0x76)
    } else if same_text(name, "f5") {
        Some(0x60)
    } else if same_text(name, "f6") {
        Some(0x61)
    } else if same_text(name, "f7") {
        Some(0x62)
    } else if same_text(name, "f8") {
        Some(0x64)
    } else if same_text(name, "f9") {
        Some(0x65)
    } else if same_text(name, "f10") {
        Some(0x6d)
    } else if same_text(name, "f11") {
        Some(0x67)
    } else if same_text(name, "f12") {
        Some(0x6f)
    } else if same_text(name, "f13") {
        Some(0x69)
    } else if same_text(name, "f14") {
        Some(0x6b)
    } else if same_text(name, "f15") {
        Some(0x71)
    } else if same_text(name, "f16") {
        Some(0x6a)
    } else if same_text(name, "f17") {
        Some(0x40)
    } else if same_text(name, "f18") {
        Some(0x4f)
    } else if same_text(name, "f19") {
        Some(0x50)
    } else if same_text(name, "f20") {
        Some(0x5a)
    } else {
        None
    }
}

fn name_of(code: u16) -> (name: &'static str)
    ensures
        name@ == key_name(code),
{
    if code == 0x35 {
        "esc"
    } else if code == 0x7a {
        "f1"
    } else if code == 0x78 {
        "f2"
    } else if code == 0x63 {
        "f3"
    } else if code == 0x76 {
        "f4"
    } else if code == 0x60 {
        "f5"
    } else if code == 0x61 {
        "f6"
    } else if code == 0x62 {
        "f7"
    } else if code == 0x64 {
        "f8"
    } else if code == 0x65 {
        "f9"
    } else if code == 0x6d {
        "f10"
    } else if code == 0x67 {
        "f11"
    } else if code == 0x6f {
        "f12"
    } else if code == 0x69 {
        "f13"
    } else if code == 0x6b {
        "f14"
    } else if code == 0x71 {
        "f15"
    } else if code == 0x6a {
        "f16"
    } else if code == 0x40 {
        "f17"
    } else if code == 0x4f {
        "f18"
    } else if code == 0x50 {
        "f19"
    } else if code == 0x5a {
        "f20"
    } else {
        proof {
            reveal_strlit("");
            assert(""@ =~= Seq::<char>::empty());
        }
        ""
    }
}

fn modifier_of(name: &str) -> (modifier: Option<ModifierKey>)
    ensures
        modifier == modifier_key(name@),
{
    if same_text(name, "shift") {
        Some(ModifierKey::Shift)
    } else if same_text(name, "cmd") || same_text(name, "command") {
        Some(ModifierKey::Command)
    } else if same_text(name, "ctrl") || same_text(name, "control") {
        Some(ModifierKey::Control)
    } else if same_text(name, "alt") || same_text(name, "option") {
        Some(ModifierKey::Option)
    } else {
        None
    }
}

impl KeyModifiers {
    /// Whether no modifier is held.
    pub fn is_empty(&self) -> (empty: bool)
        ensures
            empty == (!self.shift && !self.command && !self.control && !self.option),
    {
        !self.shift && !self.command && !self.control && !self.option
    }
}

impl KeyTrigger {
    /// Read a trigger such as `shift+f5`.
    pub fn parse(text: &str) -> (result: Result<KeyTrigger, ParseTriggerError>)
        ensures
            match result {
                Ok(trigger) => trigger_named(text@) == Some(trigger),
                Err(_) => trigger_named(text@) is None,
            },
        decreases text@.len(),
    {
        match strip_to_nth(text, '+', 1) {
            None => match code_of(text) {
                Some(keycode) => Ok(
                    KeyTrigger {
                        keycode,
                        modifiers: KeyModifiers {
                            shift: false,
                            command: false,
                            control: false,
                            option: false,
                        },
                    },
                ),
                None => Err(ParseTriggerError),
            },
            Some(rest) => {
                proof {
                    lemma_after_nth_is_tail(text@, '+', 1);
                }
                let end: usize = text.unicode_len() - rest.unicode_len() - 1;
                let head = text.substring_char(0, end);
                assert(head@ =~= text@.take(end as int));
                match (modifier_of(head), KeyTrigger::parse(rest)) {
                    (Some(modifier), Ok(trigger)) => {
                        let mut trigger = trigger;
                        match modifier {
                            ModifierKey::Shift => {
                                trigger.modifiers.shift = true;
                            },
                            ModifierKey::Command => {
                                trigger.modifiers.command = true;
                            },
                            ModifierKey::Control => {
                                trigger.modifiers.control = true;
                            },
                            ModifierKey::Option => {
                                trigger.modifiers.option = true;
                            },
                        }
                        Ok(trigger)
                    },
                    _ => Err(ParseTriggerError),
                }
            },
        }
    }

    /// The trigger as text.
    pub fn label(&self) -> (label: String)
        ensures
            label@ == self.rendered(),
    {
        let mut label = String::new();
        if self.modifiers.shift {
            label.append("shift+");
        }
        if self.modifiers.command {
            label.append("command+");
        }
        if self.modifiers.control {
            label.append("control+");
        }
        if self.modifiers.option {
            label.append("option+");
        }
        label.append(name_of(self.keycode));
        assert(label@ =~= self.rendered());
        label
    }
}

/// A key that has a name is found by it, and no name has a plus sign in it.
proof fn lemma_a_named_key_is_found(code: u16)
    requires
        key_name(code).len() > 0,
    ensures
        key_code(key_name(code)) == Some(code),
        !key_name(code).contains('+'),
{
    reveal_strlit("esc");
    reveal_strlit("f1");
    reveal_strlit("f2");
    reveal_strlit("f3");
    reveal_strlit("f4");
    reveal_strlit("f5");
    reveal_strlit("f6");
    reveal_strlit("f7");
    reveal_strlit("f8");
    reveal_strlit("f9");
    reveal_strlit("f10");
    reveal_strlit("f11");
    reveal_strlit("f12");
    reveal_strlit("f13");
    reveal_strlit("f14");
    reveal_strlit("f15");
    reveal_strlit("f16");
    reveal_strlit("f17");
    reveal_strlit("f18");
    reveal_strlit("f19");
    reveal_strlit("f20");
    assert("esc"@.len() == 3 && "esc"@[1] == 's');
    assert("f1"@.len() == 2 && "f1"@[1] == '1');
    assert("f2"@.len() == 2 && "f2"@[1] == '2');
    assert("f3"@.len() == 2 && "f3"@[1] == '3');
    assert("f4"@.len() == 2 && "f4"@[1] == '4');
    assert("f5"@.len() == 2 && "f5"@[1] == '5');
    assert("f6"@.len() == 2 && "f6"@[1] == '6');
    assert("f7"@.len() == 2 && "f7"@[1] == '7');
    assert("f8"@.len() == 2 && "f8"@[1] == '8');
    assert("f9"@.len() == 2 && "f9"@[1] == '9');
    assert("f10"@.len() == 3 && "f10"@[1] == '1' && "f10"@[2] == '0');
    assert("f11"@.len() == 3 && "f11"@[1] == '1' && "f11"@[2] == '1');
    assert("f12"@.len() == 3 && "f12"@[1] == '1' && "f12"@[2] == '2');
    assert("f13"@.len() == 3 && "f13"@[1] == '1' && "f13"@[2] == '3');
    assert("f14"@.len() == 3 && "f14"@[1] == '1' && "f14"@[2] == '4');
    assert("f15"@.len() == 3 && "f15"@[1] == '1' && "f15"@[2] == '5');
    assert("f16"@.len() == 3 && "f16"@[1] == '1' && "f16"@[2] == '6');
    assert("f17"@.len() == 3 && "f17"@[1] == '1' && "f17"@[2] == '7');
    assert("f18"@.len() == 3 && "f18"@[1] == '1' && "f18"@[2] == '8');
    assert("f19"@.len() == 3 && "f19"@[1] == '1' && "f19"@[2] == '9');
    assert("f20"@.len() == 3 && "f20"@[1] == '2' && "f20"@[2] == '0');
}

proof fn lemma_one_modifier(name: Seq<char>, modifier: ModifierKey, rest: Seq<char>)
    requires
        modifier_key(name) == Some(modifier),
        !name.contains('+'),
        trigger_named(rest) is Some,
    ensures
        trigger_named(name.push('+') + rest) == Some(trigger_named(rest).unwrap().with(modifier)),
{
    let text = name.push('+') + rest;
    lemma_first_separator(name, '+', rest);
    assert(text.take(text.len() - rest.len() - 1) =~= name);
}

/// A trigger whose key has a name is read back from how it is written.
pub proof fn law_a_written_trigger_is_read_back(trigger: KeyTrigger)
    requires
        key_name(trigger.keycode).len() > 0,
    ensures
        trigger_named(trigger.rendered()) == Some(trigger),
{
    reveal_strlit("shift");
    reveal_strlit("command");
    reveal_strlit("cmd");
    reveal_strlit("control");
    reveal_strlit("ctrl");
    reveal_strlit("option");
    reveal_strlit("alt");
    reveal_strlit("shift+");
    reveal_strlit("command+");
    reveal_strlit("control+");
    reveal_strlit("option+");
    assert("shift"@.len() == 5 && "command"@.len() == 7 && "control"@.len() == 7);
    assert("cmd"@.len() == 3 && "ctrl"@.len() == 4 && "alt"@.len() == 3 && "option"@.len() == 6);
    assert("command"@[2] == 'm' && "control"@[2] == 'n');
    let m = trigger.modifiers;
    let name = key_name(trigger.keycode);
    lemma_a_named_key_is_found(trigger.keycode);
    lemma_no_separator(name, '+');
    let none = KeyModifiers { shift: false, command: false, control: false, option: false };
    assert(trigger_named(name) == Some(KeyTrigger { modifiers: none, ..trigger }));
    let with_option = KeyModifiers { option: m.option, ..none };
    let option = if m.option { "option+"@ + name } else { name };
    if m.option {
        lemma_one_modifier("option"@, ModifierKey::Option, name);
        assert("option"@.push('+') =~= "option+"@);
    }
    assert(trigger_named(option) == Some(KeyTrigger { modifiers: with_option, ..trigger }));
    let with_control = KeyModifiers { control: m.control, ..with_option };
    let control = if m.control { "control+"@ + option } else { option };
    if m.control {
        lemma_one_modifier("control"@, ModifierKey::Control, option);
        assert("control"@.push('+') =~= "control+"@);
    }
    assert(trigger_named(control) == Some(KeyTrigger { modifiers: with_control, ..trigger }));
    let with_command = KeyModifiers { command: m.command, ..with_control };
    let command = if m.command { "command+"@ + control } else { control };
    if m.command {
        lemma_one_modifier("command"@, ModifierKey::Command, control);
        assert("command"@.push('+') =~= "command+"@);
    }
    assert(trigger_named(command) == Some(KeyTrigger { modifiers: with_command, ..trigger }));
    let shift = if m.shift { "shift+"@ + command } else { command };
    if m.shift {
        lemma_one_modifier("shift"@, ModifierKey::Shift, command);
        assert("shift"@.push('+') =~= "shift+"@);
    }
    assert(trigger_named(shift) == Some(trigger));
    assert(shift =~= trigger.rendered());
}

/// A modifier written before a trigger, by its long name or its short one and
/// with a plus sign after it, is held for it and changes nothing else of it. No
/// other word can stand there.
pub proof fn law_a_modifier_is_held_for_its_key(word: Seq<char>, text: Seq<char>)
    requires
        !word.contains('+'),
    ensures
        trigger_named(text) matches Some(trigger) ==> {
            let m = trigger.modifiers;
            let written = trigger_named(word + "+"@ + text);
            &&& word == "shift"@ ==> written == Some(
                KeyTrigger { modifiers: KeyModifiers { shift: true, ..m }, ..trigger },
            )
            &&& word == "cmd"@ || word == "command"@ ==> written == Some(
                KeyTrigger { modifiers: KeyModifiers { command: true, ..m }, ..trigger },
            )
            &&& word == "ctrl"@ || word == "control"@ ==> written == Some(
                KeyTrigger { modifiers: KeyModifiers { control: true, ..m }, ..trigger },
            )
            &&& word == "alt"@ || word == "option"@ ==> written == Some(
                KeyTrigger { modifiers: KeyModifiers { option: true, ..m }, ..trigger },
            )
        },
        trigger_named(text) is None ==> trigger_named(word + "+"@ + text) is None,
        word != "shift"@ && word != "cmd"@ && word != "command"@ && word != "ctrl"@ && word
            != "control"@ && word != "alt"@ && word != "option"@ ==> trigger_named(
            word + "+"@ + text,
        ) is None,
        trigger_named(word) matches Some(trigger) ==> trigger.modifiers == (KeyModifiers {
            shift: false,
            command: false,
            control: false,
            option: false,
        }) && key_name(trigger.keycode) == word,
{
    reveal_strlit("shift");
    reveal_strlit("command");
    reveal_strlit("cmd");
    reveal_strlit("control");
    reveal_strlit("ctrl");
    reveal_strlit("option");
    reveal_strlit("alt");
    reveal_strlit("+");
    assert("shift"@.len() == 5 && "command"@.len() == 7 && "control"@.len() == 7);
    assert("cmd"@.len() == 3 && "ctrl"@.len() == 4 && "alt"@.len() == 3 && "option"@.len() == 6);
    assert("command"@[2] == 'm' && "control"@[2] == 'n');
    assert("cmd"@[0] == 'c' && "alt"@[0] == 'a');
    let whole = word + "+"@ + text;
    assert(whole =~= word.push('+') + text);
    lemma_first_separator(word, '+', text);
    assert(whole.take(whole.len() - text.len() - 1) =~= word);
    lemma_no_separator(word, '+');
}

}
