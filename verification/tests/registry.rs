use rom_loader::emulator_config::{Emulator, EmulatorConfig, ExtensionMap};

fn record(name: &str, path: &str, exts: &[&str]) -> Emulator {
    Emulator {
        name: name.to_string(),
        path: path.to_string(),
        extensions: exts.iter().map(|e| e.to_string()).collect(),
        core_path: None,
        system_name: None,
    }
}

#[test]
fn lookup_is_case_insensitive() {
    let config = EmulatorConfig {
        emulators: vec![record("Nestopia", "/usr/bin/nestopia", &["NES"])],
    };
    let map = ExtensionMap::build(&config);
    assert_eq!(map.lookup("nes"), Some(0));
    assert_eq!(map.lookup("NES"), Some(0));
    assert_eq!(map.lookup("NeS"), Some(0));
}

#[test]
fn first_registered_wins() {
    let config = EmulatorConfig {
        emulators: vec![
            record("mGBA", "/usr/bin/mgba", &["gba"]),
            record("VBA", "/usr/bin/vba", &["gba"]),
        ],
    };
    let map = ExtensionMap::build(&config);
    assert_eq!(map.lookup("gba"), Some(0));
}

#[test]
fn first_registered_wins_across_case() {
    let config = EmulatorConfig {
        emulators: vec![
            record("mGBA", "/usr/bin/mgba", &["GBA"]),
            record("VBA", "/usr/bin/vba", &["gba"]),
        ],
    };
    let map = ExtensionMap::build(&config);
    assert_eq!(map.lookup("gba"), Some(0));
    assert_eq!(map.lookup("GBA"), Some(0));
}

#[test]
fn unknown_extension_resolves_to_nothing() {
    let config = EmulatorConfig {
        emulators: vec![record("Nestopia", "/usr/bin/nestopia", &["nes"])],
    };
    let map = ExtensionMap::build(&config);
    assert_eq!(map.lookup("sfc"), None);
}

#[test]
fn empty_registry_resolves_nothing() {
    let config = EmulatorConfig { emulators: vec![] };
    let map = ExtensionMap::build(&config);
    assert_eq!(map.lookup("nes"), None);
    assert_eq!(map.lookup(""), None);
}

#[test]
fn one_record_many_extensions() {
    let config = EmulatorConfig {
        emulators: vec![
            record("Snes9x", "/usr/bin/snes9x", &["smc", "sfc", "snes"]),
            record("RetroArch", "/usr/bin/retroarch", &["sfc", "nes"]),
        ],
    };
    let map = ExtensionMap::build(&config);
    assert_eq!(map.lookup("smc"), Some(0));
    assert_eq!(map.lookup("sfc"), Some(0));
    assert_eq!(map.lookup("snes"), Some(0));
    assert_eq!(map.lookup("nes"), Some(1));
}
