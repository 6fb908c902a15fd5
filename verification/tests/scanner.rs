use rom_loader::emulator_config::{Emulator, EmulatorConfig, ExtensionMap};
use rom_loader::rom_launcher::LaunchError;
use rom_loader::rom_scanner::{Rom, RomScanner};
use rom_loader::selection::resolve_selection;

fn strings(v: &[&str]) -> Vec<String> {
    v.iter().map(|s| s.to_string()).collect()
}

#[test]
fn extension_of_simple_path() {
    let rom = Rom { path: "/roms/game.nes".to_string() };
    assert_eq!(rom.get_extension(), Some("nes"));
}

#[test]
fn extension_is_last_suffix() {
    let rom = Rom { path: "/roms/archive.tar.gz".to_string() };
    assert_eq!(rom.get_extension(), Some("gz"));
}

#[test]
fn no_extension_without_dot() {
    let rom = Rom { path: "/roms/Makefile".to_string() };
    assert_eq!(rom.get_extension(), None);
}

#[test]
fn leading_dot_is_no_extension() {
    let rom = Rom { path: "/roms/.hidden".to_string() };
    assert_eq!(rom.get_extension(), None);
}

#[test]
fn scanner_new_keeps_its_inputs() {
    let scanner = RomScanner::new("/roms".to_string(), strings(&["nes", "smc"]));
    assert_eq!(scanner.base_dir, "/roms");
    assert_eq!(scanner.supported_extensions, strings(&["nes", "smc"]));
}

#[test]
fn filter_keeps_supported_in_order() {
    let scanner = RomScanner::new("/roms".to_string(), strings(&["nes", "smc"]));
    let files = strings(&[
        "/roms/a.NES",
        "/roms/readme.txt",
        "/roms/sub/b.smc",
        "/roms/noext",
        "/roms/c.nes",
    ]);
    let roms = scanner.filter_supported(&files);
    let paths: Vec<&str> = roms.iter().map(|r| r.path.as_str()).collect();
    assert_eq!(paths, vec!["/roms/a.NES", "/roms/sub/b.smc", "/roms/c.nes"]);
}

#[test]
fn filter_with_empty_allow_list_keeps_nothing() {
    let scanner = RomScanner::new("/roms".to_string(), vec![]);
    let files = strings(&["/roms/a.nes"]);
    assert!(scanner.filter_supported(&files).is_empty());
}

#[test]
fn missing_root_is_not_found() {
    assert_eq!(RomScanner::classify_root(false, false), Err(LaunchError::NotFound));
}

#[test]
fn root_that_is_no_directory_is_invalid() {
    assert_eq!(RomScanner::classify_root(true, false), Err(LaunchError::InvalidInput));
}

#[test]
fn good_root_passes() {
    assert_eq!(RomScanner::classify_root(true, true), Ok(()));
}

fn sample_setup() -> (Vec<Rom>, ExtensionMap) {
    let config = EmulatorConfig {
        emulators: vec![Emulator {
            name: "Nestopia".to_string(),
            path: "/usr/bin/nestopia".to_string(),
            extensions: strings(&["nes"]),
            core_path: None,
            system_name: None,
        }],
    };
    let map = ExtensionMap::build(&config);
    let roms = vec![
        Rom { path: "/roms/mario.nes".to_string() },
        Rom { path: "/roms/unknown.xyz".to_string() },
        Rom { path: "/roms/noext".to_string() },
    ];
    (roms, map)
}

#[test]
fn selection_resolves_rom_and_emulator() {
    let (roms, map) = sample_setup();
    assert_eq!(resolve_selection(&roms, &map, 1), Some((0, Some(0))));
}

#[test]
fn selection_without_configured_emulator() {
    let (roms, map) = sample_setup();
    assert_eq!(resolve_selection(&roms, &map, 2), Some((1, None)));
    assert_eq!(resolve_selection(&roms, &map, 3), Some((2, None)));
}

#[test]
fn selection_out_of_range_is_rejected() {
    let (roms, map) = sample_setup();
    assert_eq!(resolve_selection(&roms, &map, 0), None);
    assert_eq!(resolve_selection(&roms, &map, 4), None);
}
