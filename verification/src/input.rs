//! Key presses and the actions that are bound to them.

use vstd::prelude::*;
use std::collections::HashMap;
use crate::config::{lemma_key_index_injective, Key};
use crate::Action;

verus! {

/// The press of a key, with the modifiers that were held.
#[derive(Debug, Copy, Clone, Hash, Eq, PartialEq, Structural)]
pub struct KeyPress {
    pub key: Key,
    pub control: bool,
    pub shift: bool,
    pub alt: bool,
}

impl KeyPress {
    /// The press of `key` with the modifiers control, shift and alt, in this
    /// order.
    pub fn new(key: Key, modifiers: [bool; 3]) -> (press: KeyPress)
        ensures
            press == (KeyPress {
                key,
                control: modifiers[0],
                shift: modifiers[1],
                alt: modifiers[2],
            }),
    {
        KeyPress { key, control: modifiers[0], shift: modifiers[1], alt: modifiers[2] }
    }

    /// The press of `key` alone.
    pub fn basic(key: Key) -> (press: KeyPress)
        ensures
            press == (KeyPress { key, control: false, shift: false, alt: false }),
    {
        KeyPress { key, shift: false, control: false, alt: false }
    }

    /// A number that stands for the press: eight times the place of the key,
    /// plus four for control, two for shift and one for alt.
    pub open spec fn spec_code(self) -> u64 {
        let control = if self.control { 4int } else { 0 };
        let shift = if self.shift { 2int } else { 0 };
        let alt = if self.alt { 1int } else { 0 };
        (self.key.spec_index() * 8 + control + shift + alt) as u64
    }

    /// The number that stands for the press.
    pub fn code(&self) -> (code: u64)
        ensures
            code == self.spec_code(),
    {
        let base: u64 = self.key.index() as u64 * 8;
        let control: u64 = if self.control { 4 } else { 0 };
        let shift: u64 = if self.shift { 2 } else { 0 };
        let alt: u64 = if self.alt { 1 } else { 0 };
        base + control + shift + alt
    }
}

/// Two presses that one number stands for are one press.
pub proof fn lemma_code_injective(a: KeyPress, b: KeyPress)
    requires
        a.spec_code() == b.spec_code(),
    ensures
        a == b,
{
    assert(a.key.spec_index() == b.key.spec_index()) by {
        assert(a.key.spec_index() < 64 && b.key.spec_index() < 64);
    }
    lemma_key_index_injective(a.key, b.key);
}

/// A key press that an action can be bound to.
#[derive(Debug, Hash, Eq, PartialEq, Structural)]
pub struct KeyBind(pub KeyPress);

impl KeyBind {
    /// The binding of `key` alone.
    pub fn basic(key: Key) -> (bind: KeyBind)
        ensures
            bind.0 == (KeyPress { key, control: false, shift: false, alt: false }),
    {
        KeyBind(KeyPress::basic(key))
    }

    /// The binding of `key` with the modifiers control, shift and alt, in this
    /// order.
    pub fn new(key: Key, modifiers: [bool; 3]) -> (bind: KeyBind)
        ensures
            bind.0 == (KeyPress {
                key,
                control: modifiers[0],
                shift: modifiers[1],
                alt: modifiers[2],
            }),
    {
        KeyBind(KeyPress::new(key, modifiers))
    }
}

impl From<KeyPress> for KeyBind {
    /// The binding of the press `key`.
    fn from(key: KeyPress) -> (bind: KeyBind) {
        KeyBind(key)
    }
}

impl vstd::std_specs::convert::FromSpecImpl<KeyPress> for KeyBind {
    open spec fn obeys_from_spec() -> bool {
        true
    }

    open spec fn from_spec(key: KeyPress) -> KeyBind {
        KeyBind(key)
    }
}

/// The actions that key presses are bound to.
pub struct KeyBinds {
    binds: HashMap<u64, Action>,
}

impl View for KeyBinds {
    type V = Map<KeyPress, Action>;

    closed spec fn view(&self) -> Map<KeyPress, Action> {
        Map::new(
            |press: KeyPress| self.binds@.contains_key(press.spec_code()),
            |press: KeyPress| self.binds@[press.spec_code()],
        )
    }
}

/// The bindings that hold before the configuration adds its own: `J` moves
/// down, `K` moves up, `Enter` opens.
pub open spec fn default_binds() -> Map<KeyPress, Action> {
    Map::<KeyPress, Action>::empty().insert(
        KeyPress { key: Key::J, control: false, shift: false, alt: false },
        Action::PostDown,
    ).insert(
        KeyPress { key: Key::K, control: false, shift: false, alt: false },
        Action::PostUp,
    ).insert(
        KeyPress { key: Key::Enter, control: false, shift: false, alt: false },
        Action::OpenPost,
    )
}

impl KeyBinds {
    /// No bindings at all.
    pub fn new() -> (binds: KeyBinds)
        ensures
            binds@ == Map::<KeyPress, Action>::empty(),
    {
        let binds = KeyBinds { binds: HashMap::new() };
        assert(binds@ =~= Map::<KeyPress, Action>::empty());
        binds
    }

    /// Binds `action` to `bind`, in place of what was bound to it.
    pub fn bind(&mut self, bind: KeyBind, action: Action)
        ensures
            final(self)@ == old(self)@.insert(bind.0, action),
    {
        broadcast use vstd::std_specs::hash::group_hash_axioms;

        let code: u64 = bind.0.code();
        self.binds.insert(code, action);
        proof {
            let after = old(self)@.insert(bind.0, action);
            assert forall|press: KeyPress| #[trigger]
                self@.contains_key(press) == after.contains_key(press) && (self@.contains_key(
                    press,
                ) ==> self@[press] == after[press]) by {
                if press.spec_code() == bind.0.spec_code() {
                    lemma_code_injective(press, bind.0);
                }
            }
            assert(self@ =~= after);
        }
    }

    /// The action that is bound to the press `key`, if there is one.
    pub fn action(&self, key: KeyPress) -> (action: Option<Action>)
        ensures
            action == if self@.contains_key(key) {
                Some(self@[key])
            } else {
                None
            },
    {
        broadcast use vstd::std_specs::hash::group_hash_axioms;

        let code: u64 = KeyBind::from(key).0.code();
        match self.binds.get(&code) {
            Some(action) => Some(*action),
            None => None,
        }
    }
}

impl Default for KeyBinds {
    fn default() -> (binds: KeyBinds)
        ensures
            binds@ == default_binds(),
    {
        let mut binds = KeyBinds::new();
        binds.bind(KeyBind::basic(Key::J), Action::PostDown);
        binds.bind(KeyBind::basic(Key::K), Action::PostUp);
        binds.bind(KeyBind::basic(Key::Enter), Action::OpenPost);
        binds
    }
}

} // verus!
