//! Key bindings: which key asks for which action.

use crate::event::Action;
use crate::input::{KeyCode, KeyEvent, KeyModifiers};
use vstd::prelude::*;

verus! {

/// A key together with the modifiers held with it.
#[derive(Debug, Clone, Copy, PartialEq, Eq, Hash, Structural)]
pub struct KeyBinding {
    pub code: KeyCode,
    pub modifiers: KeyModifiers,
}

impl KeyBinding {
    /// A key with modifiers.
    pub fn new(code: KeyCode, modifiers: KeyModifiers) -> (r: Self)
        ensures
            r == (KeyBinding { code, modifiers }),
    {
        KeyBinding { code, modifiers }
    }

    /// The key without modifiers.
    pub fn key(code: KeyCode) -> (r: Self)
        ensures
            r == (KeyBinding {
                code,
                modifiers: KeyModifiers { shift: false, control: false, alt: false },
            }),
    {
        KeyBinding { code, modifiers: KeyModifiers::none() }
    }

    /// The key with Control.
    pub fn ctrl(code: KeyCode) -> (r: Self)
        ensures
            r == (KeyBinding {
                code,
                modifiers: KeyModifiers { shift: false, control: true, alt: false },
            }),
    {
        KeyBinding { code, modifiers: KeyModifiers::control() }
    }

    /// The binding that a key press matches.
    pub fn from_key_event(event: &KeyEvent) -> (r: Self)
        ensures
            r == (KeyBinding { code: event.code, modifiers: event.modifiers }),
    {
        KeyBinding { code: event.code, modifiers: event.modifiers }
    }
}

/// The map that a list of bindings stands for; a later entry replaces an
/// earlier one for the same key.
pub open spec fn bindings_map(entries: Seq<(KeyBinding, Action)>) -> Map<KeyBinding, Action>
    decreases entries.len(),
{
    if entries.len() == 0 {
        Map::empty()
    } else {
        bindings_map(entries.drop_last()).insert(entries.last().0, entries.last().1)
    }
}

/// A map from key bindings to actions.
#[derive(Debug)]
pub struct KeyMap {
    entries: Vec<(KeyBinding, Action)>,
}

impl View for KeyMap {
    type V = Map<KeyBinding, Action>;

    closed spec fn view(&self) -> Map<KeyBinding, Action> {
        bindings_map(self.entries@)
    }
}

impl KeyMap {
    /// The empty map.
    pub fn new() -> (r: Self)
        ensures
            r@ == Map::<KeyBinding, Action>::empty(),
    {
        KeyMap { entries: Vec::new() }
    }

    /// Drops the entries of a key.
    fn forget(&mut self, key: &KeyBinding)
        ensures
            final(self)@ == old(self)@.remove(*key),
    {
        let mut kept: Vec<(KeyBinding, Action)> = Vec::new();
        let mut i: usize = 0;
        assert(self.entries@.take(0) =~= Seq::<(KeyBinding, Action)>::empty());
        assert(bindings_map(kept@) =~= bindings_map(self.entries@.take(0)).remove(*key));
        while i < self.entries.len()
            invariant
                i <= self.entries.len(),
                bindings_map(kept@) == bindings_map(self.entries@.take(i as int)).remove(*key),
            decreases self.entries.len() - i,
        {
            let ghost before = kept@;
            proof {
                assert(self.entries@.take(i + 1).drop_last() =~= self.entries@.take(i as int));
                assert(self.entries@.take(i + 1).last() == self.entries@[i as int]);
            }
            if self.entries[i].0 != *key {
                kept.push(self.entries[i]);
                proof {
                    assert(kept@.drop_last() =~= before);
                    assert(bindings_map(kept@) =~= bindings_map(
                        self.entries@.take(i + 1),
                    ).remove(*key));
                }
            } else {
                proof {
                    assert(bindings_map(kept@) =~= bindings_map(
                        self.entries@.take(i + 1),
                    ).remove(*key));
                }
            }
            i += 1;
        }
        assert(self.entries@.take(i as int) =~= self.entries@);
        self.entries = kept;
    }

    /// Binds a key to an action, in place of what it was bound to.
    pub fn insert(&mut self, key: KeyBinding, action: Action)
        ensures
            final(self)@ == old(self)@.insert(key, action),
    {
        self.forget(&key);
        let ghost before = self.entries@;
        self.entries.push((key, action));
        proof {
            assert(self.entries@.drop_last() =~= before);
            assert(self@ =~= old(self)@.insert(key, action));
        }
    }

    /// Unbinds a key.
    pub fn remove(&mut self, key: &KeyBinding)
        ensures
            final(self)@ == old(self)@.remove(*key),
    {
        self.forget(key);
    }

    /// The action that a key is bound to.
    pub fn get(&self, key: &KeyBinding) -> (r: Option<&Action>)
        ensures
            r is Some == self@.dom().contains(*key),
            r matches Some(action) ==> *action == self@[*key],
    {
        let mut i: usize = self.entries.len();
        assert(self.entries@.take(i as int) =~= self.entries@);
        while i > 0
            invariant
                i <= self.entries.len(),
                self@.dom().contains(*key) == bindings_map(
                    self.entries@.take(i as int),
                ).dom().contains(*key),
                self@.dom().contains(*key) ==> self@[*key] == bindings_map(
                    self.entries@.take(i as int),
                )[*key],
            decreases i,
        {
            proof {
                assert(self.entries@.take(i as int).drop_last() =~= self.entries@.take(i - 1));
                assert(self.entries@.take(i as int).last() == self.entries@[i - 1]);
            }
            if self.entries[i - 1].0 == *key {
                return Some(&self.entries[i - 1].1);
            }
            i -= 1;
        }
        None
    }

    /// Whether a key is bound.
    pub fn contains_key(&self, key: &KeyBinding) -> (r: bool)
        ensures
            r == self@.dom().contains(*key),
    {
        self.get(key).is_some()
    }
}

/// The bindings of a new input manager: Control with C exits; Tab and
/// Shift with Tab move the focus; Enter submits; Control with Backspace and
/// Control with W delete the word before the cursor, Control with Delete
/// the word behind it; the arrows move; Escape cancels.
pub open spec fn default_bindings() -> Map<KeyBinding, Action> {
    let none = KeyModifiers { shift: false, control: false, alt: false };
    let control = KeyModifiers { shift: false, control: true, alt: false };
    let shift = KeyModifiers { shift: true, control: false, alt: false };
    Map::<KeyBinding, Action>::empty().insert(
        KeyBinding { code: KeyCode::Char('c'), modifiers: control },
        Action::Exit,
    ).insert(KeyBinding { code: KeyCode::Tab, modifiers: none }, Action::NextInput).insert(
        KeyBinding { code: KeyCode::BackTab, modifiers: none },
        Action::PrevInput,
    ).insert(KeyBinding { code: KeyCode::BackTab, modifiers: shift }, Action::PrevInput).insert(
        KeyBinding { code: KeyCode::Enter, modifiers: none },
        Action::Submit,
    ).insert(
        KeyBinding { code: KeyCode::Backspace, modifiers: control },
        Action::DeleteWord,
    ).insert(
        KeyBinding { code: KeyCode::Char('w'), modifiers: control },
        Action::DeleteWord,
    ).insert(
        KeyBinding { code: KeyCode::Delete, modifiers: control },
        Action::DeleteWordForward,
    ).insert(KeyBinding { code: KeyCode::Up, modifiers: none }, Action::MoveUp).insert(
        KeyBinding { code: KeyCode::Down, modifiers: none },
        Action::MoveDown,
    ).insert(KeyBinding { code: KeyCode::Left, modifiers: none }, Action::MoveLeft).insert(
        KeyBinding { code: KeyCode::Right, modifiers: none },
        Action::MoveRight,
    ).insert(KeyBinding { code: KeyCode::Esc, modifiers: none }, Action::Cancel)
}

/// The key bindings of an application.
#[derive(Debug)]
pub struct InputManager {
    pub bindings: KeyMap,
}

impl InputManager {
    /// An input manager with the default bindings.
    pub fn new() -> (r: Self)
        ensures
            r.bindings@ == default_bindings(),
    {
        let mut bindings = KeyMap::new();
        bindings.insert(KeyBinding::ctrl(KeyCode::Char('c')), Action::Exit);
        bindings.insert(KeyBinding::key(KeyCode::Tab), Action::NextInput);
        bindings.insert(KeyBinding::key(KeyCode::BackTab), Action::PrevInput);
        bindings.insert(
            KeyBinding::new(KeyCode::BackTab, KeyModifiers::shift()),
            Action::PrevInput,
        );
        bindings.insert(KeyBinding::key(KeyCode::Enter), Action::Submit);
        bindings.insert(KeyBinding::ctrl(KeyCode::Backspace), Action::DeleteWord);
        bindings.insert(KeyBinding::ctrl(KeyCode::Char('w')), Action::DeleteWord);
        bindings.insert(KeyBinding::ctrl(KeyCode::Delete), Action::DeleteWordForward);
        bindings.insert(KeyBinding::key(KeyCode::Up), Action::MoveUp);
        bindings.insert(KeyBinding::key(KeyCode::Down), Action::MoveDown);
        bindings.insert(KeyBinding::key(KeyCode::Left), Action::MoveLeft);
        bindings.insert(KeyBinding::key(KeyCode::Right), Action::MoveRight);
        bindings.insert(KeyBinding::key(KeyCode::Esc), Action::Cancel);
        InputManager { bindings }
    }

    /// Binds a key to an action.
    pub fn bind(&mut self, key: KeyBinding, action: Action)
        ensures
            final(self).bindings@ == old(self).bindings@.insert(key, action),
    {
        self.bindings.insert(key, action);
    }

    /// Unbinds a key.
    pub fn unbind(&mut self, key: &KeyBinding)
        ensures
            final(self).bindings@ == old(self).bindings@.remove(*key),
    {
        self.bindings.remove(key);
    }

    /// The action that a key press asks for, where its key is bound.
    pub fn handle_key(&self, event: &KeyEvent) -> (r: Option<Action>)
        ensures
            r == if self.bindings@.dom().contains(
                KeyBinding { code: event.code, modifiers: event.modifiers },
            ) {
                Some(self.bindings@[KeyBinding { code: event.code, modifiers: event.modifiers }])
            } else {
                None
            },
    {
        let key = KeyBinding::from_key_event(event);
        match self.bindings.get(&key) {
            Some(action) => Some(*action),
            None => None,
        }
    }
}

impl Default for InputManager {
    fn default() -> (r: Self)
        ensures
            r.bindings@ == default_bindings(),
    {
        InputManager::new()
    }
}

} // verus!
