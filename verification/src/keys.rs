//! Matching key events against the keys configured to toggle the console.

use vstd::prelude::*;

verus! {

/// A platform scan code of a key that has no name.
#[derive(Clone, Copy, Debug, PartialEq, Eq, Structural)]
pub enum NativeKey {
    Unidentified,
    Android(u32),
    MacOS(u16),
    Windows(u16),
    Xkb(u32),
}

/// The physical key of a key event: a named key by its name (such as `Backquote`), or a key
/// without a name by its platform scan code.
#[derive(Clone, Debug, PartialEq, Eq)]
pub enum ConsoleKey {
    Named(String),
    Unidentified(NativeKey),
}

/// Two keys are the same key: the same name, or the same scan code.
pub open spec fn same_key(a: ConsoleKey, b: ConsoleKey) -> bool {
    match (a, b) {
        (ConsoleKey::Named(x), ConsoleKey::Named(y)) => x@ == y@,
        (ConsoleKey::Unidentified(m), ConsoleKey::Unidentified(n)) => m == n,
        _ => false,
    }
}

/// Whether `key` is one of `keys`.
pub open spec fn key_listed(keys: Seq<ConsoleKey>, key: ConsoleKey) -> bool {
    exists|i: int| 0 <= i < keys.len() && same_key(#[trigger] keys[i], key)
}

fn is_same_key(a: &ConsoleKey, b: &ConsoleKey) -> (r: bool)
    ensures
        r == same_key(*a, *b),
{
    match a {
        ConsoleKey::Named(x) => match b {
            ConsoleKey::Named(y) => {
                let eq = x.eq(y);
                eq
            },
            ConsoleKey::Unidentified(_) => false,
        },
        ConsoleKey::Unidentified(m) => match b {
            ConsoleKey::Named(_) => false,
            ConsoleKey::Unidentified(n) => *m == *n,
        },
    }
}

/// Whether a key event toggles the console: the key went down and is one of the configured keys.
pub fn console_key_pressed(pressed: bool, key_code: &ConsoleKey, configured_keys: &[ConsoleKey]) -> (r: bool)
    ensures
        r == (pressed && key_listed(configured_keys@, *key_code)),
{
    if !pressed {
        return false;
    }
    let mut i: usize = 0;
    while i < configured_keys.len()
        invariant
            pressed,
            i <= configured_keys@.len(),
            forall|j: int| 0 <= j < i ==> !same_key(#[trigger] configured_keys@[j], *key_code),
        decreases configured_keys@.len() - i,
    {
        if is_same_key(&configured_keys[i], key_code) {
            return true;
        }
        i = i + 1;
    }
    false
}

} // verus!
