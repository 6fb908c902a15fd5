//! The dispatch engine: turns an emulator record and a ROM path into the
//! exact process invocation that the record's emulator family expects, and
//! classifies the outcome of a finished launch.
//!
//! Three conventions exist. An arcade-style multi-system emulator (name
//! contains "mame") takes either `[system_name, "-cart", rom]` when a system
//! short name is configured, or `["-rompath", parent, stem]` otherwise. A
//! multi-core frontend (name contains "retroarch") takes `["-L", core, rom]`
//! when a core is configured and `[rom]` with a warning when not. Any other
//! emulator takes `[rom]` alone.

use vstd::prelude::*;
use vstd::string::StringExecFns;
use crate::emulator_config::Emulator;
use crate::paths::{file_stem_of, parent_of, path_file_stem, path_parent};
use crate::text::{contains_ci, str_contains_ci};

verus! {

/// How loading, scanning or launching can fail.
#[derive(Debug, Clone, PartialEq, Eq)]
pub enum LaunchError {
    /// The configuration could not be read into well-formed records.
    Config,
    /// A required path (the scan root, or the emulator executable) does not
    /// exist.
    NotFound,
    /// A path has the wrong shape: the scan root is not a directory, the
    /// emulator path is not a regular file, or an arcade-mode ROM path has
    /// no stem.
    InvalidInput,
    /// The emulator process could not be started.
    SpawnFailed,
    /// The emulator process exited with a non-zero status; carries its
    /// captured standard-error text.
    ProcessFailed(String),
}

/// The conditions the dispatch engine reports without failing a launch.
#[derive(Debug, Clone, Copy, PartialEq, Eq)]
pub enum LaunchWarning {
    /// An arcade-mode ROM path has no parent directory to pass.
    MissingRomParent,
    /// The configured core module does not exist or is not a regular file.
    CoreMissing,
    /// A multi-core frontend was launched without a configured core.
    NoCoreConfigured,
}

/// The invocation convention an emulator family follows.
#[derive(Debug, Clone, Copy, PartialEq, Eq)]
pub enum EmulatorKind {
    /// Arcade-style multi-system emulator.
    Mame,
    /// Multi-core frontend.
    RetroArch,
    /// Generic single-binary emulator.
    Generic,
}

/// The convention an emulator's name selects: "mame" anywhere in the name,
/// case-insensitively, takes priority over "retroarch"; any other name is
/// generic.
pub open spec fn kind_of(name: Seq<char>) -> EmulatorKind {
    if contains_ci(name, "mame"@) {
        EmulatorKind::Mame
    } else if contains_ci(name, "retroarch"@) {
        EmulatorKind::RetroArch
    } else {
        EmulatorKind::Generic
    }
}

impl Emulator {
    /// Resolves the invocation convention from the record's name, once,
    /// rather than re-deriving it on every launch.
    pub fn kind(&self) -> (k: EmulatorKind)
        ensures
            k == kind_of(self.name@),
    {
        if str_contains_ci(self.name.as_str(), "mame") {
            EmulatorKind::Mame
        } else if str_contains_ci(self.name.as_str(), "retroarch") {
            EmulatorKind::RetroArch
        } else {
            EmulatorKind::Generic
        }
    }
}

/// The executable and ordered argument vector for one launch, with the
/// warnings the dispatch raised while building it.
#[derive(Debug, Clone, PartialEq, Eq)]
pub struct Invocation {
    pub program: String,
    pub args: Vec<String>,
    pub warnings: Vec<LaunchWarning>,
}

/// The mathematical content of an invocation.
pub struct InvocationModel {
    pub program: Seq<char>,
    pub args: Seq<Seq<char>>,
    pub warnings: Seq<LaunchWarning>,
}

impl View for Invocation {
    type V = InvocationModel;

    open spec fn view(&self) -> InvocationModel {
        InvocationModel {
            program: self.program@,
            args: self.args.deep_view(),
            warnings: self.warnings@,
        }
    }
}

/// What the dispatch engine produces for a record and a ROM path, given the
/// filesystem facts the caller established: whether the executable exists
/// and is a regular file, and whether the configured core module is present
/// and regular.
pub open spec fn launch_plan(
    e: Emulator,
    rom: Seq<char>,
    exec_exists: bool,
    exec_is_file: bool,
    core_ok: bool,
) -> Result<InvocationModel, LaunchError> {
    if !exec_exists {
        Err(LaunchError::NotFound)
    } else if !exec_is_file {
        Err(LaunchError::InvalidInput)
    } else {
        match kind_of(e.name@) {
            EmulatorKind::Mame => match e.system_name {
                Some(sys) => Ok(
                    InvocationModel {
                        program: e.path@,
                        args: seq![sys@, "-cart"@, rom],
                        warnings: Seq::empty(),
                    },
                ),
                None => match file_stem_of(rom) {
                    Some(stem) => match parent_of(rom) {
                        Some(par) => Ok(
                            InvocationModel {
                                program: e.path@,
                                args: seq!["-rompath"@, par, stem],
                                warnings: Seq::empty(),
                            },
                        ),
                        None => Ok(
                            InvocationModel {
                                program: e.path@,
                                args: seq![stem],
                                warnings: seq![LaunchWarning::MissingRomParent],
                            },
                        ),
                    },
                    None => Err(LaunchError::InvalidInput),
                },
            },
            EmulatorKind::RetroArch => match e.core_path {
                Some(core) => Ok(
                    InvocationModel {
                        program: e.path@,
                        args: seq!["-L"@, core@, rom],
                        warnings: if core_ok {
                            Seq::empty()
                        } else {
                            seq![LaunchWarning::CoreMissing]
                        },
                    },
                ),
                None => Ok(
                    InvocationModel {
                        program: e.path@,
                        args: seq![rom],
                        warnings: seq![LaunchWarning::NoCoreConfigured],
                    },
                ),
            },
            EmulatorKind::Generic => Ok(
                InvocationModel { program: e.path@, args: seq![rom], warnings: Seq::empty() },
            ),
        }
    }
}

/// Builds the invocation for launching `rom_path` with `emulator`.
///
/// The caller establishes the filesystem facts before any process is
/// started: `exec_exists` and `exec_is_file` describe the emulator
/// executable, and `core_ok` whether the configured core module exists and
/// is a regular file (consulted only by a multi-core frontend with a
/// configured core, and then only to raise a warning).
pub fn plan_launch(
    emulator: &Emulator,
    rom_path: &str,
    exec_exists: bool,
    exec_is_file: bool,
    core_ok: bool,
) -> (r: Result<Invocation, LaunchError>)
    ensures
        match (r, launch_plan(*emulator, rom_path@, exec_exists, exec_is_file, core_ok)) {
            (Ok(inv), Ok(m)) => inv@.program == m.program && inv@.args == m.args && inv@.warnings
                == m.warnings,
            (Err(a), Err(b)) => a == b,
            _ => false,
        },
{
    if !exec_exists {
        return Err(LaunchError::NotFound);
    }
    if !exec_is_file {
        return Err(LaunchError::InvalidInput);
    }
    match emulator.kind() {
        EmulatorKind::Mame => {
            match &emulator.system_name {
                Some(sys) => {
                    let mut args: Vec<String> = Vec::new();
                    args.push(sys.clone());
                    args.push(String::from_str("-cart"));
                    args.push(rom_path.to_owned());
                    let inv = Invocation {
                        program: emulator.path.clone(),
                        args,
                        warnings: Vec::new(),
                    };
                    proof {
                        assert(inv@.args =~= seq![sys@, "-cart"@, rom_path@]);
                        assert(inv@.warnings =~= Seq::<LaunchWarning>::empty());
                    }
                    Ok(inv)
                },
                None => {
                    match path_file_stem(rom_path) {
                        Some(stem) => {
                            match path_parent(rom_path) {
                                Some(par) => {
                                    let mut args: Vec<String> = Vec::new();
                                    args.push(String::from_str("-rompath"));
                                    args.push(par);
                                    args.push(stem);
                                    let inv = Invocation {
                                        program: emulator.path.clone(),
                                        args,
                                        warnings: Vec::new(),
                                    };
                                    proof {
                                        assert(inv@.args =~= seq![
                                            "-rompath"@,
                                            parent_of(rom_path@).unwrap(),
                                            file_stem_of(rom_path@).unwrap(),
                                        ]);
                                        assert(inv@.warnings =~= Seq::<LaunchWarning>::empty());
                                    }
                                    Ok(inv)
                                },
                                None => {
                                    let mut args: Vec<String> = Vec::new();
                                    args.push(stem);
                                    let mut warnings: Vec<LaunchWarning> = Vec::new();
                                    warnings.push(LaunchWarning::MissingRomParent);
                                    let inv = Invocation {
                                        program: emulator.path.clone(),
                                        args,
                                        warnings,
                                    };
                                    proof {
                                        assert(inv@.args =~= seq![file_stem_of(rom_path@).unwrap()]);
                                        assert(inv@.warnings =~= seq![
                                            LaunchWarning::MissingRomParent,
                                        ]);
                                    }
                                    Ok(inv)
                                },
                            }
                        },
                        None => Err(LaunchError::InvalidInput),
                    }
                },
            }
        },
        EmulatorKind::RetroArch => {
            match &emulator.core_path {
                Some(core) => {
                    let mut args: Vec<String> = Vec::new();
                    args.push(String::from_str("-L"));
                    args.push(core.clone());
                    args.push(rom_path.to_owned());
                    let mut warnings: Vec<LaunchWarning> = Vec::new();
                    if !core_ok {
                        warnings.push(LaunchWarning::CoreMissing);
                    }
                    let inv = Invocation { program: emulator.path.clone(), args, warnings };
                    proof {
                        assert(inv@.args =~= seq!["-L"@, core@, rom_path@]);
                        if core_ok {
                            assert(inv@.warnings =~= Seq::<LaunchWarning>::empty());
                        } else {
                            assert(inv@.warnings =~= seq![LaunchWarning::CoreMissing]);
                        }
                    }
                    Ok(inv)
                },
                None => {
                    let mut args: Vec<String> = Vec::new();
                    args.push(rom_path.to_owned());
                    let mut warnings: Vec<LaunchWarning> = Vec::new();
                    warnings.push(LaunchWarning::NoCoreConfigured);
                    let inv = Invocation { program: emulator.path.clone(), args, warnings };
                    proof {
                        assert(inv@.args =~= seq![rom_path@]);
                        assert(inv@.warnings =~= seq![LaunchWarning::NoCoreConfigured]);
                    }
                    Ok(inv)
                },
            }
        },
        EmulatorKind::Generic => {
            let mut args: Vec<String> = Vec::new();
            args.push(rom_path.to_owned());
            let inv = Invocation { program: emulator.path.clone(), args, warnings: Vec::new() };
            proof {
                assert(inv@.args =~= seq![rom_path@]);
                assert(inv@.warnings =~= Seq::<LaunchWarning>::empty());
            }
            Ok(inv)
        },
    }
}

/// Classifies the outcome of a finished emulator process: a zero exit
/// status is success, and any other yields `ProcessFailed` carrying the
/// captured standard-error text. One launch is one process: a failure is
/// reported, never retried.
pub fn classify_exit(exited_zero: bool, stderr: String) -> (r: Result<(), LaunchError>)
    ensures
        exited_zero ==> r == Ok::<(), LaunchError>(()),
        !exited_zero ==> r == Err::<(), LaunchError>(LaunchError::ProcessFailed(stderr)),
{
    if exited_zero {
        Ok(())
    } else {
        Err(LaunchError::ProcessFailed(stderr))
    }
}

/// A missing executable fails a launch with `NotFound`, whatever the
/// record, the ROM path and the remaining filesystem facts: no invocation
/// is built for it.
pub proof fn lemma_missing_executable(
    e: Emulator,
    rom: Seq<char>,
    exec_is_file: bool,
    core_ok: bool,
)
    ensures
        launch_plan(e, rom, false, exec_is_file, core_ok) == Err::<InvocationModel, LaunchError>(
            LaunchError::NotFound,
        ),
{
}

/// A generic emulator gets the ROM path as its only argument: a record
/// whose name contains neither "mame" nor "retroarch", with its executable
/// present and regular, launches with argument vector `[rom_path]` exactly
/// and without warnings.
pub proof fn lemma_generic_invocation(e: Emulator, rom: Seq<char>, core_ok: bool)
    requires
        !contains_ci(e.name@, "mame"@),
        !contains_ci(e.name@, "retroarch"@),
    ensures
        launch_plan(e, rom, true, true, core_ok) == Ok::<InvocationModel, LaunchError>(
            InvocationModel { program: e.path@, args: seq![rom], warnings: Seq::empty() },
        ),
{
}

} // verus!
