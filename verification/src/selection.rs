//! Resolving a user's catalog selection to a ROM and its emulator.
//!
//! The interactive loop hands a 1-based index into the catalog; the
//! resolution finds the chosen ROM and, through the extension map, the
//! emulator registered for its extension.

use vstd::prelude::*;
use crate::emulator_config::ExtensionMap;
use crate::paths::extension_of;
use crate::rom_scanner::Rom;

verus! {

/// Resolves a 1-based selection into the catalog.
///
/// An out-of-range selection resolves to nothing. A valid one yields the
/// chosen ROM's position and the registry position of the emulator
/// registered for its extension — a ROM without an extension is looked up
/// under the empty extension — or none when no emulator is configured for
/// it.
pub fn resolve_selection(roms: &Vec<Rom>, map: &ExtensionMap, num: usize) -> (r: Option<
    (usize, Option<usize>),
>)
    ensures
        match r {
            None => num == 0 || num > roms@.len(),
            Some((idx, emu)) => {
                &&& 1 <= num <= roms@.len()
                &&& idx == num - 1
                &&& {
                    let ext = match extension_of(roms@[idx as int].path@) {
                        Some(e) => e,
                        None => Seq::empty(),
                    };
                    match emu {
                        Some(k) => map.spec_find(ext) == Some(k as int),
                        None => map.spec_find(ext) is None,
                    }
                }
            },
        },
{
    if num == 0 || num > roms.len() {
        return None;
    }
    let idx: usize = num - 1;
    let rom = &roms[idx];
    let emu: Option<usize> = match rom.get_extension() {
        Some(e) => map.lookup(e),
        None => {
            let none_ext = "";
            proof {
                reveal_strlit("");
                assert(none_ext@ =~= Seq::<char>::empty());
            }
            map.lookup(none_ext)
        },
    };
    Some((idx, emu))
}

} // verus!
