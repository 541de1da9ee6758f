//! Looking into the response cache, and emptying it.
//!
//! The cache is the reason a second run over the same library costs no
//! network at all, and the reason a wrong answer keeps being wrong
//! until someone clears it. `borax cache` exists for both halves: it
//! reports what is stored, and it removes it. Walking and removing the
//! tree are the callers' operations; what lives here is the counting
//! and the events.

use vstd::prelude::*;
use crate::event::Event;

verus! {

/// What the cache holds.
#[derive(Debug, Clone, PartialEq, Eq)]
pub struct CacheStats {
    /// The directory the entries were counted under, reported whether
    /// or not it exists.
    pub root: String,
    /// How many cache entries are stored.
    pub entries: usize,
    /// What those entries occupy on disk, in bytes.
    pub bytes: u64,
}

/// What walking the cache directory found.
#[derive(Debug, Clone, PartialEq, Eq)]
pub enum Walk {
    /// The directory does not exist.
    Missing,
    /// The size of every regular file below the directory, at any depth.
    Files(Vec<u64>),
    /// The directory could not be read, for the reason given.
    Failed(String),
}

/// The total of `sizes`.
pub open spec fn total(sizes: Seq<u64>) -> nat
    decreases sizes.len(),
{
    if sizes.len() == 0 {
        0
    } else {
        total(sizes.drop_last()) + sizes.last() as nat
    }
}

/// The total of `sizes`, or the largest `u64` when it does not fit.
pub open spec fn capped_total(sizes: Seq<u64>) -> u64 {
    if total(sizes) > u64::MAX {
        u64::MAX
    } else {
        total(sizes) as u64
    }
}

/// The total of `sizes`, saturating at the largest `u64`.
fn sum(sizes: &Vec<u64>) -> (r: u64)
    ensures
        r == capped_total(sizes@),
{
    let mut r: u64 = 0;
    let mut full = false;
    let mut i: usize = 0;
    assert(sizes@.take(0) =~= Seq::<u64>::empty());
    while i < sizes.len()
        invariant
            i <= sizes@.len(),
            !full ==> r as nat == total(sizes@.take(i as int)),
            full ==> r == u64::MAX && total(sizes@.take(i as int)) > u64::MAX,
        decreases sizes@.len() - i,
    {
        assert(sizes@.take(i + 1).drop_last() =~= sizes@.take(i as int));
        if !full {
            if r > u64::MAX - sizes[i] {
                full = true;
                r = u64::MAX;
            } else {
                r = r + sizes[i];
            }
        }
        i = i + 1;
    }
    assert(sizes@.take(i as int) =~= sizes@);
    r
}

/// Whether `stats` counts the files `sizes` under `root`.
pub open spec fn counts(stats: CacheStats, root: Seq<char>, sizes: Seq<u64>) -> bool {
    stats.root@ == root && stats.entries == sizes.len() && stats.bytes == capped_total(sizes)
}

/// Count the entries under `root`, given what walking it found.
///
/// Every regular file below `root`, at any depth, is one entry. A root
/// that does not exist is not a failure: it holds nothing, which is
/// what an unused cache holds. A walk that failed otherwise is
/// returned, because a cache that could not be read must not be
/// reported as empty. Sizes are totalled up to the largest `u64`.
pub fn inspect(root: &str, walk: &Walk) -> (r: Result<CacheStats, String>)
    ensures
        match walk {
            Walk::Missing => r matches Ok(stats) && counts(stats, root@, Seq::empty()),
            Walk::Files(sizes) => r matches Ok(stats) && counts(stats, root@, sizes@),
            Walk::Failed(message) => r matches Err(m) && m@ == message@,
        },
{
    match walk {
        Walk::Missing => Ok(CacheStats { root: String::from_str(root), entries: 0, bytes: 0 }),
        Walk::Files(sizes) => Ok(
            CacheStats { root: String::from_str(root), entries: sizes.len(), bytes: sum(sizes) },
        ),
        Walk::Failed(message) => Err(message.clone()),
    }
}

/// Remove everything under `root`, given what walking it found, and
/// report what was removed, counted before the removal.
///
/// `remove` removes the tree. A root that does not exist clears
/// successfully and reports zero without anything being removed; a walk
/// that failed is returned before anything is removed; and a removal
/// that fails is returned in place of the count.
pub fn clear<F: Fn(String) -> Result<(), String>>(root: &str, walk: &Walk, remove: &F) -> (r:
    Result<CacheStats, String>)
    requires
        forall|p: String| call_requires(*remove, (p,)),
    ensures
        match walk {
            Walk::Missing => r matches Ok(stats) && counts(stats, root@, Seq::empty()),
            Walk::Failed(message) => r matches Err(m) && m@ == message@,
            Walk::Files(sizes) => exists|p: String, outcome: Result<(), String>|
                p@ == root@ && #[trigger] call_ensures(*remove, (p,), outcome) && match outcome {
                    Ok(_) => r matches Ok(stats) && counts(stats, root@, sizes@),
                    Err(e) => r matches Err(m) && m@ == e@,
                },
        },
{
    let stats = match inspect(root, walk) {
        Ok(stats) => stats,
        Err(message) => return Err(message),
    };
    match walk {
        Walk::Files(_) => {
            let target = String::from_str(root);
            let ghost asked = target;
            let outcome = remove(target);
            assert(call_ensures(*remove, (asked,), outcome));
            match outcome {
                Ok(_) => Ok(stats),
                Err(e) => Err(e),
            }
        },
        _ => Ok(stats),
    }
}

/// The event reporting `stats` as the cache's current contents.
pub fn status_event(stats: &CacheStats) -> (e: Event)
    ensures
        e matches Event::CacheStatus { root, entries, bytes } && root@ == stats.root@ && entries
            == stats.entries && bytes == stats.bytes,
{
    Event::CacheStatus { root: stats.root.clone(), entries: stats.entries, bytes: stats.bytes }
}

/// The event reporting `stats` as what clearing removed.
pub fn cleared_event(stats: &CacheStats) -> (e: Event)
    ensures
        e matches Event::CacheCleared { root, entries, bytes } && root@ == stats.root@ && entries
            == stats.entries && bytes == stats.bytes,
{
    Event::CacheCleared { root: stats.root.clone(), entries: stats.entries, bytes: stats.bytes }
}

} // verus!
