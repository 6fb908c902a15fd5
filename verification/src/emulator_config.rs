//! The emulator registry: configuration records in registration order, and
//! the derived map from file extension to the first-registered record that
//! claims it.

use vstd::prelude::*;
use crate::text::{seq_eq_ci, str_eq_ci, lemma_seq_eq_ci_sym, lemma_seq_eq_ci_trans};

verus! {

/// One configured emulator: its display name (which also selects the
/// invocation convention), the path of its executable, the file extensions
/// it claims, and the optional core module and system short name that some
/// emulator families need.
#[derive(Debug, Clone)]
pub struct Emulator {
    pub name: String,
    pub path: String,
    pub extensions: Vec<String>,
    pub core_path: Option<String>,
    pub system_name: Option<String>,
}

/// The emulator registry: records in registration order.
#[derive(Debug, Clone)]
pub struct EmulatorConfig {
    pub emulators: Vec<Emulator>,
}

/// Record `e` claims extension `ext`, up to ASCII case, among its first `j`
/// declared extensions.
pub open spec fn claims_upto(e: Emulator, j: int, ext: Seq<char>) -> bool {
    exists|q: int| 0 <= q < j && seq_eq_ci(#[trigger] e.extensions@[q]@, ext)
}

/// Record `e` claims extension `ext`, up to ASCII case.
pub open spec fn claims(e: Emulator, ext: Seq<char>) -> bool {
    claims_upto(e, e.extensions@.len() as int, ext)
}

/// The position of the first record in `emus` that claims `ext`, if any.
pub open spec fn first_claimant(emus: Seq<Emulator>, ext: Seq<char>) -> Option<int>
    decreases emus.len(),
{
    if emus.len() == 0 {
        None
    } else if claims(emus[0], ext) {
        Some(0)
    } else {
        match first_claimant(emus.drop_first(), ext) {
            Some(i) => Some(i + 1),
            None => None,
        }
    }
}

/// `first_claimant` names a claimant preceded by no other, and reports none
/// only when no record claims the extension.
pub proof fn lemma_first_claimant(emus: Seq<Emulator>, ext: Seq<char>)
    ensures
        match first_claimant(emus, ext) {
            Some(i) => 0 <= i < emus.len() && claims(emus[i], ext) && forall|k: int|
                0 <= k < i ==> !claims(#[trigger] emus[k], ext),
            None => forall|k: int| 0 <= k < emus.len() ==> !claims(#[trigger] emus[k], ext),
        },
    decreases emus.len(),
{
    if emus.len() > 0 && !claims(emus[0], ext) {
        let rest = emus.drop_first();
        lemma_first_claimant(rest, ext);
        match first_claimant(rest, ext) {
            Some(i) => {
                assert(rest[i] == emus[i + 1]);
                assert forall|k: int| 0 <= k < i + 1 implies !claims(
                    #[trigger] emus[k],
                    ext,
                ) by {
                    if k > 0 {
                        assert(rest[k - 1] == emus[k]);
                        assert(!claims(rest[k - 1], ext));
                    }
                }
            },
            None => {
                assert forall|k: int| 0 <= k < emus.len() implies !claims(
                    #[trigger] emus[k],
                    ext,
                ) by {
                    if k > 0 {
                        assert(rest[k - 1] == emus[k]);
                        assert(!claims(rest[k - 1], ext));
                    }
                }
            },
        }
    }
}

/// First-registered-wins: when record `i` claims `ext` and no earlier record
/// does, the extension resolves to record `i`, whatever records follow it.
pub proof fn lemma_first_registered_wins(emus: Seq<Emulator>, ext: Seq<char>, i: int)
    requires
        0 <= i < emus.len(),
        claims(emus[i], ext),
        forall|k: int| 0 <= k < i ==> !claims(#[trigger] emus[k], ext),
    ensures
        first_claimant(emus, ext) == Some(i),
{
    lemma_first_claimant(emus, ext);
    match first_claimant(emus, ext) {
        Some(j) => {
            if j < i {
                assert(!claims(emus[j], ext));
            } else if j > i {
                assert(!claims(emus[i], ext));
            }
        },
        None => {
            assert(!claims(emus[i], ext));
        },
    }
}

/// Whether a record claims an extension depends on the extension only up to
/// ASCII case.
pub proof fn lemma_claims_upto_ci(e: Emulator, j: int, ext1: Seq<char>, ext2: Seq<char>)
    requires
        seq_eq_ci(ext1, ext2),
    ensures
        claims_upto(e, j, ext1) == claims_upto(e, j, ext2),
{
    if claims_upto(e, j, ext1) {
        let q = choose|q: int| 0 <= q < j && seq_eq_ci(#[trigger] e.extensions@[q]@, ext1);
        lemma_seq_eq_ci_trans(e.extensions@[q]@, ext1, ext2);
        assert(claims_upto(e, j, ext2));
    }
    if claims_upto(e, j, ext2) {
        let q = choose|q: int| 0 <= q < j && seq_eq_ci(#[trigger] e.extensions@[q]@, ext2);
        lemma_seq_eq_ci_sym(ext1, ext2);
        lemma_seq_eq_ci_trans(e.extensions@[q]@, ext2, ext1);
        assert(claims_upto(e, j, ext1));
    }
}

/// Lookup is case-insensitive: extensions equal up to ASCII case resolve to
/// the same record.
pub proof fn lemma_lookup_case_insensitive(emus: Seq<Emulator>, ext1: Seq<char>, ext2: Seq<char>)
    requires
        seq_eq_ci(ext1, ext2),
    ensures
        first_claimant(emus, ext1) == first_claimant(emus, ext2),
    decreases emus.len(),
{
    if emus.len() > 0 {
        lemma_claims_upto_ci(emus[0], emus[0].extensions@.len() as int, ext1, ext2);
        lemma_lookup_case_insensitive(emus.drop_first(), ext1, ext2);
    }
}

/// Appending a record changes the first claimant only where no earlier
/// record claimed the extension.
proof fn lemma_first_claimant_push(emus: Seq<Emulator>, e: Emulator, ext: Seq<char>)
    ensures
        first_claimant(emus.push(e), ext) == match first_claimant(emus, ext) {
            Some(i) => Some(i),
            None => if claims(e, ext) {
                Some(emus.len() as int)
            } else {
                None
            },
        },
    decreases emus.len(),
{
    let p = emus.push(e);
    assert(p.len() == emus.len() + 1);
    if emus.len() == 0 {
        assert(p[0] == e);
        assert(p.drop_first() =~= Seq::<Emulator>::empty());
        if claims(e, ext) {
            assert(first_claimant(p, ext) == Some(0int));
        } else {
            assert(first_claimant(p.drop_first(), ext) is None);
            assert(first_claimant(p, ext) is None);
        }
    } else {
        assert(p[0] == emus[0]);
        assert(p.drop_first() =~= emus.drop_first().push(e));
        lemma_first_claimant_push(emus.drop_first(), e, ext);
        if claims(emus[0], ext) {
            assert(first_claimant(p, ext) == Some(0int));
            assert(first_claimant(emus, ext) == Some(0int));
        } else {
            assert(first_claimant(p, ext) == match first_claimant(p.drop_first(), ext) {
                Some(i) => Some(i + 1),
                None => None,
            });
            assert(first_claimant(emus, ext) == match first_claimant(emus.drop_first(), ext) {
                Some(i) => Some(i + 1),
                None => None,
            });
        }
    }
}

/// The derived lookup from file extension to the first-registered emulator
/// claiming it. Entries pair an extension, as the owning record wrote it,
/// with that record's position; the map is built once and never mutated.
#[derive(Debug)]
pub struct ExtensionMap {
    entries: Vec<(String, usize)>,
}

/// The position stored by the first entry whose key equals `ext` up to
/// ASCII case.
pub open spec fn entries_find(entries: Seq<(String, usize)>, ext: Seq<char>) -> Option<int>
    decreases entries.len(),
{
    if entries.len() == 0 {
        None
    } else if seq_eq_ci(entries[0].0@, ext) {
        Some(entries[0].1 as int)
    } else {
        entries_find(entries.drop_first(), ext)
    }
}

/// Appending an entry changes what an extension resolves to only where no
/// earlier entry matched it.
proof fn lemma_entries_find_push(entries: Seq<(String, usize)>, p: (String, usize), ext: Seq<char>)
    ensures
        entries_find(entries.push(p), ext) == if entries_find(entries, ext) is Some {
            entries_find(entries, ext)
        } else if seq_eq_ci(p.0@, ext) {
            Some(p.1 as int)
        } else {
            None
        },
    decreases entries.len(),
{
    let w = entries.push(p);
    assert(w.len() == entries.len() + 1);
    if entries.len() == 0 {
        assert(w[0] == p);
        assert(w.drop_first() =~= Seq::<(String, usize)>::empty());
        if !seq_eq_ci(p.0@, ext) {
            assert(entries_find(w.drop_first(), ext) is None);
            assert(entries_find(w, ext) is None);
        }
    } else {
        assert(w[0] == entries[0]);
        assert(w.drop_first() =~= entries.drop_first().push(p));
        lemma_entries_find_push(entries.drop_first(), p, ext);
        if seq_eq_ci(entries[0].0@, ext) {
            assert(entries_find(w, ext) == Some(entries[0].1 as int));
            assert(entries_find(entries, ext) == Some(entries[0].1 as int));
        } else {
            assert(entries_find(w, ext) == entries_find(w.drop_first(), ext));
            assert(entries_find(entries, ext) == entries_find(entries.drop_first(), ext));
        }
    }
}

/// Finds the first entry whose key equals `ext` up to ASCII case.
fn find_entry(entries: &Vec<(String, usize)>, ext: &str) -> (r: Option<usize>)
    ensures
        match r {
            Some(v) => entries_find(entries@, ext@) == Some(v as int),
            None => entries_find(entries@, ext@) is None,
        },
{
    proof {
        assert(entries@.skip(0) =~= entries@);
    }
    let mut k: usize = 0;
    while k < entries.len()
        invariant
            k <= entries@.len(),
            entries_find(entries@, ext@) == entries_find(entries@.skip(k as int), ext@),
        decreases entries@.len() - k,
    {
        if str_eq_ci(entries[k].0.as_str(), ext) {
            proof {
                assert(entries@.skip(k as int)[0] == entries@[k as int]);
            }
            return Some(entries[k].1);
        }
        proof {
            assert(entries@.skip(k as int)[0] == entries@[k as int]);
            assert(entries@.skip(k as int).drop_first() =~= entries@.skip(k as int + 1));
        }
        k = k + 1;
    }
    None
}

/// What the map resolves an extension to once the first `i` records, and
/// the first `j` extensions of record `i`, have been entered.
pub open spec fn resolution_upto(emus: Seq<Emulator>, i: int, j: int, ext: Seq<char>) -> Option<
    int,
> {
    match first_claimant(emus.take(i), ext) {
        Some(k) => Some(k),
        None => if 0 <= i < emus.len() && claims_upto(emus[i], j, ext) {
            Some(i)
        } else {
            None
        },
    }
}

impl ExtensionMap {
    /// What the map resolves `ext` to: the registry position of the record
    /// registered for that extension, if any.
    pub closed spec fn spec_find(self, ext: Seq<char>) -> Option<int> {
        entries_find(self.entries@, ext)
    }

    /// Builds the extension map: records are entered in registration order,
    /// and each extension only where no earlier record claimed it, so the
    /// first-registered record wins permanently.
    pub fn build(config: &EmulatorConfig) -> (m: ExtensionMap)
        ensures
            forall|ext: Seq<char>| #[trigger] m.spec_find(ext) == first_claimant(
                config.emulators@,
                ext,
            ),
    {
        let emus = &config.emulators;
        let mut entries: Vec<(String, usize)> = Vec::new();
        proof {
            assert(emus@.take(0) =~= Seq::<Emulator>::empty());
        }
        let mut i: usize = 0;
        while i < emus.len()
            invariant
                i <= emus@.len(),
                emus@ == config.emulators@,
                forall|x: Seq<char>| #[trigger] entries_find(entries@, x) == first_claimant(
                    emus@.take(i as int),
                    x,
                ),
            decreases emus@.len() - i,
        {
            let e = &emus[i];
            proof {
                assert forall|x: Seq<char>| #[trigger] entries_find(entries@, x)
                    == resolution_upto(emus@, i as int, 0, x) by {}
            }
            let mut j: usize = 0;
            while j < e.extensions.len()
                invariant
                    i < emus@.len(),
                    emus@ == config.emulators@,
                    *e == emus@[i as int],
                    j <= e.extensions@.len(),
                    forall|x: Seq<char>| #[trigger] entries_find(entries@, x) == resolution_upto(
                        emus@,
                        i as int,
                        j as int,
                        x,
                    ),
                decreases e.extensions@.len() - j,
            {
                let ext_s = &e.extensions[j];
                let ghost ev = e.extensions@[j as int]@;
                match find_entry(&entries, ext_s.as_str()) {
                    Some(_) => {
                        proof {
                            assert forall|x: Seq<char>| #[trigger] entries_find(entries@, x)
                                == resolution_upto(emus@, i as int, j as int + 1, x) by {
                                if seq_eq_ci(ev, x) {
                                    lemma_lookup_case_insensitive(emus@.take(i as int), ev, x);
                                    lemma_claims_upto_ci(emus@[i as int], j as int, ev, x);
                                    lemma_claims_upto_ci(emus@[i as int], j as int + 1, ev, x);
                                }
                            }
                        }
                    },
                    None => {
                        let ghost entries0 = entries@;
                        let cloned = ext_s.clone();
                        entries.push((cloned, i));
                        proof {
                            let p = entries@.last();
                            assert(entries@ == entries0.push(p));
                            assert(p.0@ == ev);
                            assert forall|x: Seq<char>| #[trigger] entries_find(entries@, x)
                                == resolution_upto(emus@, i as int, j as int + 1, x) by {
                                if seq_eq_ci(ev, x) {
                                    lemma_lookup_case_insensitive(emus@.take(i as int), ev, x);
                                    lemma_claims_upto_ci(emus@[i as int], j as int, ev, x);
                                }
                                lemma_entries_find_push(entries0, p, x);
                            }
                        }
                    },
                }
                j = j + 1;
            }
            proof {
                assert(emus@.take(i as int + 1) =~= emus@.take(i as int).push(emus@[i as int]));
                assert forall|x: Seq<char>| #[trigger] entries_find(entries@, x) == first_claimant(
                    emus@.take(i as int + 1),
                    x,
                ) by {
                    lemma_first_claimant_push(emus@.take(i as int), emus@[i as int], x);
                }
            }
            i = i + 1;
        }
        proof {
            assert(emus@.take(emus@.len() as int) =~= emus@);
        }
        ExtensionMap { entries }
    }

    /// Looks up the registry position registered for `ext`,
    /// case-insensitively.
    pub fn lookup(&self, ext: &str) -> (r: Option<usize>)
        ensures
            match r {
                Some(i) => self.spec_find(ext@) == Some(i as int),
                None => self.spec_find(ext@) is None,
            },
    {
        find_entry(&self.entries, ext)
    }
}

} // verus!
