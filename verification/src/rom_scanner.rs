//! The ROM catalog: discovered ROM files, and the extension filter that
//! decides which files a directory scan keeps.
//!
//! Walking the directory tree is the caller's work; the scanner owns the
//! decisions: the root checks, and keeping exactly the files whose
//! extension is on the allow-list, case-insensitively, in traversal order.

use vstd::prelude::*;
use crate::paths::{extension_of, path_extension};
use crate::rom_launcher::LaunchError;
use crate::text::seq_eq_ci;
use crate::text::str_eq_ci;

verus! {

/// A discovered ROM file.
#[derive(Debug, Clone, PartialEq, Eq)]
pub struct Rom {
    pub path: String,
}

impl Rom {
    /// The ROM's file extension, if its path has one.
    pub fn get_extension<'a>(&'a self) -> (r: Option<&'a str>)
        ensures
            match r {
                Some(e) => extension_of(self.path@) == Some(e@),
                None => extension_of(self.path@) is None,
            },
    {
        path_extension(self.path.as_str())
    }
}

/// Extension `ext` is one of `exts`, up to ASCII case.
pub open spec fn supported_ext(exts: Seq<String>, ext: Seq<char>) -> bool {
    exists|j: int| 0 <= j < exts.len() && seq_eq_ci(#[trigger] exts[j]@, ext)
}

/// A candidate path the scan keeps: it has an extension, and the extension
/// is supported.
pub open spec fn keeps(exts: Seq<String>, p: Seq<char>) -> bool {
    match extension_of(p) {
        Some(e) => supported_ext(exts, e),
        None => false,
    }
}

/// The candidate paths the scan keeps, in traversal order.
pub open spec fn kept_paths(exts: Seq<String>, files: Seq<String>) -> Seq<Seq<char>>
    decreases files.len(),
{
    if files.len() == 0 {
        Seq::empty()
    } else {
        let rest = kept_paths(exts, files.drop_first());
        if keeps(exts, files[0]@) {
            seq![files[0]@] + rest
        } else {
            rest
        }
    }
}

/// One more candidate extends the kept paths exactly when it is kept.
proof fn lemma_kept_paths_push(exts: Seq<String>, files: Seq<String>, f: String)
    ensures
        kept_paths(exts, files.push(f)) == if keeps(exts, f@) {
            kept_paths(exts, files).push(f@)
        } else {
            kept_paths(exts, files)
        },
    decreases files.len(),
{
    let w = files.push(f);
    assert(w.len() == files.len() + 1);
    if files.len() == 0 {
        assert(w[0] == f);
        assert(w.drop_first() =~= Seq::<String>::empty());
        assert(kept_paths(exts, w.drop_first()) =~= Seq::<Seq<char>>::empty());
        assert(kept_paths(exts, files) =~= Seq::<Seq<char>>::empty());
        if keeps(exts, f@) {
            assert(kept_paths(exts, w) == seq![f@] + kept_paths(exts, w.drop_first()));
            assert(seq![f@] + kept_paths(exts, w.drop_first()) =~= kept_paths(
                exts,
                files,
            ).push(f@));
        }
    } else {
        assert(w[0] == files[0]);
        assert(w.drop_first() =~= files.drop_first().push(f));
        lemma_kept_paths_push(exts, files.drop_first(), f);
        if keeps(exts, f@) {
            if keeps(exts, files[0]@) {
                assert(seq![files[0]@] + kept_paths(exts, files.drop_first()).push(f@) =~= (
                seq![files[0]@] + kept_paths(exts, files.drop_first())).push(f@));
            }
        }
    }
}

/// Scans for ROM files: holds the root directory and the extension
/// allow-list the scan matches against.
#[derive(Debug, Clone)]
pub struct RomScanner {
    pub base_dir: String,
    pub supported_extensions: Vec<String>,
}

impl RomScanner {
    /// Creates a new scanner over `base_dir` that keeps files carrying one
    /// of `supported_extensions`.
    pub fn new(base_dir: String, supported_extensions: Vec<String>) -> (s: Self)
        ensures
            s.base_dir == base_dir,
            s.supported_extensions == supported_extensions,
    {
        RomScanner { base_dir, supported_extensions }
    }

    /// The scan-root checks: a missing root fails with `NotFound`, and a
    /// root that is not a directory with `InvalidInput`.
    pub fn classify_root(root_exists: bool, root_is_dir: bool) -> (r: Result<(), LaunchError>)
        ensures
            !root_exists ==> r == Err::<(), LaunchError>(LaunchError::NotFound),
            root_exists && !root_is_dir ==> r == Err::<(), LaunchError>(LaunchError::InvalidInput),
            root_exists && root_is_dir ==> r == Ok::<(), LaunchError>(()),
    {
        if !root_exists {
            Err(LaunchError::NotFound)
        } else if !root_is_dir {
            Err(LaunchError::InvalidInput)
        } else {
            Ok(())
        }
    }

    /// Tests whether `ext` is on the allow-list, up to ASCII case.
    pub fn ext_supported(&self, ext: &str) -> (r: bool)
        ensures
            r == supported_ext(self.supported_extensions@, ext@),
    {
        let mut k: usize = 0;
        while k < self.supported_extensions.len()
            invariant
                k <= self.supported_extensions@.len(),
                forall|j: int| 0 <= j < k ==> !seq_eq_ci(
                    #[trigger] self.supported_extensions@[j]@,
                    ext@,
                ),
            decreases self.supported_extensions@.len() - k,
        {
            if str_eq_ci(self.supported_extensions[k].as_str(), ext) {
                return true;
            }
            k = k + 1;
        }
        false
    }

    /// Keeps, in traversal order, exactly the candidate files whose
    /// extension is supported.
    pub fn filter_supported(&self, files: &Vec<String>) -> (roms: Vec<Rom>)
        ensures
            roms@.map_values(|r: Rom| r.path@) == kept_paths(self.supported_extensions@, files@),
    {
        let ghost exts = self.supported_extensions@;
        let mut roms: Vec<Rom> = Vec::new();
        proof {
            assert(files@.take(0) =~= Seq::<String>::empty());
            assert(roms@.map_values(|r: Rom| r.path@) =~= kept_paths(exts, files@.take(0)));
        }
        let mut i: usize = 0;
        while i < files.len()
            invariant
                i <= files@.len(),
                exts == self.supported_extensions@,
                roms@.map_values(|r: Rom| r.path@) == kept_paths(exts, files@.take(i as int)),
            decreases files@.len() - i,
        {
            let f = &files[i];
            let keep: bool = match path_extension(f.as_str()) {
                Some(e) => self.ext_supported(e),
                None => false,
            };
            let ghost prev = roms@;
            if keep {
                roms.push(Rom { path: f.clone() });
            }
            proof {
                assert(keep == keeps(exts, files@[i as int]@));
                assert(files@.take(i as int + 1) =~= files@.take(i as int).push(
                    files@[i as int],
                ));
                lemma_kept_paths_push(exts, files@.take(i as int), files@[i as int]);
                if keep {
                    assert(roms@.map_values(|r: Rom| r.path@) =~= prev.map_values(
                        |r: Rom| r.path@,
                    ).push(files@[i as int]@));
                }
            }
            i = i + 1;
        }
        proof {
            assert(files@.take(files@.len() as int) =~= files@);
        }
        roms
    }
}

} // verus!
