use rom_loader::emulator_config::Emulator;
use rom_loader::rom_launcher::{
    classify_exit, plan_launch, EmulatorKind, LaunchError, LaunchWarning,
};

fn emulator(
    name: &str,
    path: &str,
    core_path: Option<&str>,
    system_name: Option<&str>,
) -> Emulator {
    Emulator {
        name: name.to_string(),
        path: path.to_string(),
        extensions: vec![],
        core_path: core_path.map(|c| c.to_string()),
        system_name: system_name.map(|s| s.to_string()),
    }
}

fn args_of(v: &[&str]) -> Vec<String> {
    v.iter().map(|a| a.to_string()).collect()
}

#[test]
fn mame_console_mode() {
    let e = emulator("MAME", "/usr/bin/mame", None, Some("genesis"));
    let inv = plan_launch(&e, "/roms/sonic.bin", true, true, true).unwrap();
    assert_eq!(inv.program, "/usr/bin/mame");
    assert_eq!(inv.args, args_of(&["genesis", "-cart", "/roms/sonic.bin"]));
    assert!(inv.warnings.is_empty());
}

#[test]
fn mame_arcade_mode() {
    let e = emulator("MAME", "/usr/bin/mame", None, None);
    let inv = plan_launch(&e, "/roms/pacman.zip", true, true, true).unwrap();
    assert_eq!(inv.args, args_of(&["-rompath", "/roms", "pacman"]));
    assert!(inv.warnings.is_empty());
}

#[test]
fn mame_arcade_without_parent_warns() {
    let e = emulator("mame", "/usr/bin/mame", None, None);
    let inv = plan_launch(&e, "pacman.zip", true, true, true).unwrap();
    assert_eq!(inv.args, args_of(&["pacman"]));
    assert_eq!(inv.warnings, vec![LaunchWarning::MissingRomParent]);
}

#[test]
fn mame_arcade_without_stem_fails() {
    let e = emulator("mame", "/usr/bin/mame", None, None);
    let r = plan_launch(&e, "/roms/", true, true, true);
    assert_eq!(r, Err(LaunchError::InvalidInput));
}

#[test]
fn retroarch_with_core() {
    let e = emulator("RetroArch", "/usr/bin/retroarch", Some("/cores/snes9x.so"), None);
    let inv = plan_launch(&e, "/roms/mario.sfc", true, true, true).unwrap();
    assert_eq!(inv.args, args_of(&["-L", "/cores/snes9x.so", "/roms/mario.sfc"]));
    assert!(inv.warnings.is_empty());
}

#[test]
fn retroarch_with_missing_core_still_launches() {
    let e = emulator("RetroArch", "/usr/bin/retroarch", Some("/cores/gone.so"), None);
    let inv = plan_launch(&e, "/roms/mario.sfc", true, true, false).unwrap();
    assert_eq!(inv.args, args_of(&["-L", "/cores/gone.so", "/roms/mario.sfc"]));
    assert_eq!(inv.warnings, vec![LaunchWarning::CoreMissing]);
}

#[test]
fn retroarch_without_core_warns() {
    let e = emulator("retroarch", "/usr/bin/retroarch", None, None);
    let inv = plan_launch(&e, "/roms/mario.sfc", true, true, true).unwrap();
    assert_eq!(inv.args, args_of(&["/roms/mario.sfc"]));
    assert_eq!(inv.warnings, vec![LaunchWarning::NoCoreConfigured]);
}

#[test]
fn generic_emulator_gets_rom_path_only() {
    let e = emulator("Snes9x", "/usr/bin/snes9x", None, None);
    let inv = plan_launch(&e, "/roms/mario.sfc", true, true, true).unwrap();
    assert_eq!(inv.program, "/usr/bin/snes9x");
    assert_eq!(inv.args, args_of(&["/roms/mario.sfc"]));
    assert!(inv.warnings.is_empty());
}

#[test]
fn generic_ignores_core_and_system() {
    let e = emulator("Dolphin", "/usr/bin/dolphin", Some("/cores/x.so"), Some("gc"));
    let inv = plan_launch(&e, "/roms/melee.iso", true, true, true).unwrap();
    assert_eq!(inv.args, args_of(&["/roms/melee.iso"]));
}

#[test]
fn missing_executable_fails_before_launch() {
    let e = emulator("Snes9x", "/nonexistent/snes9x", None, None);
    let r = plan_launch(&e, "/roms/mario.sfc", false, false, true);
    assert_eq!(r, Err(LaunchError::NotFound));
}

#[test]
fn executable_that_is_no_file_fails() {
    let e = emulator("Snes9x", "/usr/bin", None, None);
    let r = plan_launch(&e, "/roms/mario.sfc", true, false, true);
    assert_eq!(r, Err(LaunchError::InvalidInput));
}

#[test]
fn nonzero_exit_is_process_failed() {
    let r = classify_exit(false, "bad rom".to_string());
    assert_eq!(r, Err(LaunchError::ProcessFailed("bad rom".to_string())));
}

#[test]
fn zero_exit_is_success() {
    assert_eq!(classify_exit(true, String::new()), Ok(()));
}

#[test]
fn kind_is_resolved_case_insensitively() {
    assert_eq!(emulator("MaMe 0.250", "/x", None, None).kind(), EmulatorKind::Mame);
    assert_eq!(emulator("RetroArch", "/x", None, None).kind(), EmulatorKind::RetroArch);
    assert_eq!(emulator("snes9x", "/x", None, None).kind(), EmulatorKind::Generic);
}

#[test]
fn mame_takes_priority_over_retroarch() {
    let e = emulator("mame-retroarch-bridge", "/x", None, Some("nes"));
    assert_eq!(e.kind(), EmulatorKind::Mame);
    let inv = plan_launch(&e, "/roms/a.nes", true, true, true).unwrap();
    assert_eq!(inv.args, args_of(&["nes", "-cart", "/roms/a.nes"]));
}
