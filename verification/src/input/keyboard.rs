//! The keyboard: which keys are held, and what a key means under a set of
//! modifiers.

use vstd::prelude::*;
use crate::engine::Compositor;
use crate::flags::KeyMod;
use crate::model::KeyBinding;
use crate::types::Keysym;

verus! {

/// The first entry of `keymap` for `key` under exactly the modifiers `mods`,
/// if there is one.
pub open spec fn first_binding(keymap: Seq<KeyBinding>, key: u32, mods: KeyMod) -> Option<
    KeyBinding,
>
    decreases keymap.len(),
{
    if keymap.len() == 0 {
        None
    } else if keymap[0].key == key && keymap[0].mods == mods {
        Some(keymap[0])
    } else {
        first_binding(keymap.drop_first(), key, mods)
    }
}

/// Looks a key up in the keymap.
pub fn find_binding(engine: &Compositor, key: u32, modifiers: &KeyMod) -> (found: Option<
    KeyBinding,
>)
    ensures
        found == first_binding(engine@.keymap, key, *modifiers),
{
    let mut i: usize = 0;
    assert(engine@.keymap.subrange(0, engine@.keymap.len() as int) =~= engine@.keymap);
    while i < engine.keymap.len()
        invariant
            i <= engine.keymap.len(),
            first_binding(engine@.keymap, key, *modifiers) == first_binding(
                engine@.keymap.subrange(i as int, engine@.keymap.len() as int),
                key,
                *modifiers,
            ),
        decreases engine.keymap.len() - i,
    {
        let binding = engine.keymap[i];
        let ghost rest = engine@.keymap.subrange(i as int, engine@.keymap.len() as int);
        assert(rest[0] == binding);
        if binding.key == key && binding.mods == *modifiers {
            return Some(binding);
        }
        assert(rest.drop_first() =~= engine@.keymap.subrange(
            i as int + 1,
            engine@.keymap.len() as int,
        ));
        i += 1;
    }
    assert(engine@.keymap.subrange(i as int, engine@.keymap.len() as int).len() == 0);
    None
}

/// The keys that are held down.
pub fn get_current_keys<'a>(engine: &'a Compositor) -> (keys: &'a [u32])
    ensures
        keys@ == engine@.held_keys,
{
    engine.held_keys.as_slice()
}

/// The symbol that `key` gives under exactly the modifiers `modifiers`, by
/// the first entry of the keymap that fits; no symbol, `Keysym(0)`, when
/// none does.
pub fn get_keysym_for_key(engine: &Compositor, key: u32, modifiers: &KeyMod) -> (keysym: Keysym)
    ensures
        keysym == match first_binding(engine@.keymap, key, *modifiers) {
            Some(binding) => binding.keysym,
            None => Keysym(0),
        },
{
    match find_binding(engine, key, modifiers) {
        Some(binding) => binding.keysym,
        None => Keysym(0),
    }
}

/// The character, as a UTF-32 value, that `key` gives under exactly the
/// modifiers `modifiers`, by the first entry of the keymap that fits; zero
/// when none does.
pub fn get_utf32_for_key(engine: &Compositor, key: u32, modifiers: &KeyMod) -> (utf32: u32)
    ensures
        utf32 == match first_binding(engine@.keymap, key, *modifiers) {
            Some(binding) => binding.utf32,
            None => 0,
        },
{
    match find_binding(engine, key, modifiers) {
        Some(binding) => binding.utf32,
        None => 0,
    }
}

} // verus!
