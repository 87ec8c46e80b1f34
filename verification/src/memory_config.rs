//! Configuration of the memory subsystem, and the tiered store that
//! composes a fast first layer with a persistent second one.
//!
//! Paths are text. Parsing and writing the TOML form is done by the caller.

use vstd::prelude::*;
use crate::text::str_eq;
use crate::paths::home_dir;
use crate::paths::join_path;
use crate::paths::path_join;

verus! {

/// Default maximum number of entries per store layer.
pub fn default_max_entries() -> (n: usize)
    ensures
        n == 1000,
{
    1000
}

/// Default character budget for recalled memory injected into prompts.
pub fn default_memory_char_budget() -> (n: usize)
    ensures
        n == 2200,
{
    2200
}

/// Default overflow character budget (compaction or tight contexts).
pub fn default_memory_char_budget_overflow() -> (n: usize)
    ensures
        n == 1375,
{
    1375
}

/// `<base>/.kestrel/memory/<leaf>`.
pub open spec fn kestrel_memory_path(base: Seq<char>, leaf: Seq<char>) -> Seq<char> {
    path_join(path_join(path_join(base, ".kestrel"@), "memory"@), leaf)
}

fn memory_path(base: &str, leaf: &str) -> (p: String)
    ensures
        p@ == kestrel_memory_path(base@, leaf@),
{
    let a = join_path(base, ".kestrel");
    let b = join_path(a.as_str(), "memory");
    join_path(b.as_str(), leaf)
}

/// Configuration for the memory subsystem.
#[derive(Debug, Clone)]
pub struct MemoryConfig {
    /// Maximum number of entries per store layer.
    pub max_entries: usize,
    /// Path of the hot store's persistence file (JSON lines).
    pub hot_store_path: String,
    /// Path of the full-text index directory.
    pub tantivy_index_path: String,
    /// Character budget for recalled memory content injected into prompts.
    pub memory_char_budget: usize,
    /// Overflow character budget for compaction or tight-context scenarios.
    pub memory_char_budget_overflow: usize,
}

/// The documented defaults under the base directory `base` (the user's home,
/// or `.` when it is unknown).
pub open spec fn default_config_under(c: MemoryConfig, base: Seq<char>) -> bool {
    &&& c.max_entries == 1000
    &&& c.hot_store_path@ == kestrel_memory_path(base, "hot.jsonl"@)
    &&& c.tantivy_index_path@ == kestrel_memory_path(base, "tantivy"@)
    &&& c.memory_char_budget == 2200
    &&& c.memory_char_budget_overflow == 1375
}

/// The defaults under a given base directory.
pub fn default_config_for(base: &str) -> (c: MemoryConfig)
    ensures
        default_config_under(c, base@),
{
    MemoryConfig {
        max_entries: default_max_entries(),
        hot_store_path: memory_path(base, "hot.jsonl"),
        tantivy_index_path: memory_path(base, "tantivy"),
        memory_char_budget: default_memory_char_budget(),
        memory_char_budget_overflow: default_memory_char_budget_overflow(),
    }
}

impl Default for MemoryConfig {
    /// The defaults under the user's home directory (or `.` when unknown).
    fn default() -> (c: Self)
        ensures
            exists|base: Seq<char>| #[trigger] default_config_under(c, base),
    {
        let home = match home_dir() {
            Some(h) => h,
            None => String::from_str("."),
        };
        let c = default_config_for(home.as_str());
        assert(default_config_under(c, home@));
        c
    }
}

impl MemoryConfig {
    /// A configuration for tests, with its files under `temp_dir`.
    pub fn for_test(temp_dir: &str) -> (c: Self)
        ensures
            c.max_entries == 100,
            c.hot_store_path@ == path_join(temp_dir@, "hot.jsonl"@),
            c.tantivy_index_path@ == path_join(temp_dir@, "tantivy"@),
            c.memory_char_budget == 2200,
            c.memory_char_budget_overflow == 1375,
    {
        MemoryConfig {
            max_entries: 100,
            hot_store_path: join_path(temp_dir, "hot.jsonl"),
            tantivy_index_path: join_path(temp_dir, "tantivy"),
            memory_char_budget: default_memory_char_budget(),
            memory_char_budget_overflow: default_memory_char_budget_overflow(),
        }
    }
}

// ---------------------------------------------------------------------------
// Tiered store
// ---------------------------------------------------------------------------

/// A memory store composed of a fast first layer (authoritative for
/// writes) and a persistent second layer (best effort).
#[derive(Debug)]
pub struct TieredMemoryStore<S> {
    l1: S,
    l2: S,
}

/// The next step of a tiered recall.
#[derive(Debug, Clone, Copy, PartialEq, Eq, Structural)]
pub enum RecallStep {
    /// Return the entry found.
    Found,
    /// Look the entry up in the second layer.
    AskSecondLayer,
    /// Promote the second layer's entry into the first, then return it.
    PromoteAndReturn,
    /// The entry exists in neither layer.
    Missing,
}

impl<S> TieredMemoryStore<S> {
    pub closed spec fn first(&self) -> S {
        self.l1
    }

    pub closed spec fn second(&self) -> S {
        self.l2
    }

    /// A tiered store from its two layers.
    pub fn new(l1: S, l2: S) -> (t: Self)
        ensures
            t.first() == l1,
            t.second() == l2,
    {
        TieredMemoryStore { l1, l2 }
    }

    /// The first (fast, authoritative) layer.
    pub fn l1(&self) -> (s: &S)
        ensures
            *s == self.first(),
    {
        &self.l1
    }

    /// The second (persistent) layer.
    pub fn l2(&self) -> (s: &S)
        ensures
            *s == self.second(),
    {
        &self.l2
    }

    /// After the first layer's lookup: return a hit, else ask the second layer.
    pub fn after_first_recall(&self, hit: bool) -> (s: RecallStep)
        ensures
            s == (if hit {
                RecallStep::Found
            } else {
                RecallStep::AskSecondLayer
            }),
    {
        if hit {
            RecallStep::Found
        } else {
            RecallStep::AskSecondLayer
        }
    }

    /// A write (store, delete or clear) after the first layer's attempt: its
    /// error fails the whole call and the second layer is not touched;
    /// otherwise the write goes on to the second layer.
    pub fn after_first_write(&self, first: Result<(), String>) -> (r: Option<String>)
        ensures
            r == match first {
                Ok(_) => None::<String>,
                Err(e) => Some(e),
            },
    {
        match first {
            Ok(_) => None,
            Err(e) => Some(e),
        }
    }

    /// A write after the second layer's attempt: the call succeeds whatever
    /// the second layer answered; its error is only passed on as a warning.
    pub fn after_second_write(&self, second: Result<(), String>) -> (r: (Result<(), String>, Option<String>))
        ensures
            r.0 is Ok,
            r.1 == match second {
                Ok(_) => None::<String>,
                Err(e) => Some(e),
            },
    {
        match second {
            Ok(_) => (Ok(()), None),
            Err(e) => (Ok(()), Some(e)),
        }
    }

    /// After the second layer's lookup: a hit is promoted into the first
    /// layer (a failed promotion does not fail the recall) and returned.
    pub fn after_second_recall(&self, hit: bool) -> (s: RecallStep)
        ensures
            s == (if hit {
                RecallStep::PromoteAndReturn
            } else {
                RecallStep::Missing
            }),
    {
        if hit {
            RecallStep::PromoteAndReturn
        } else {
            RecallStep::Missing
        }
    }
}

// ---------------------------------------------------------------------------
// Merged search
// ---------------------------------------------------------------------------

/// A search hit as plain values: the entry's id and an integer standing for
/// its score (larger is better; the caller maps scores to integers in the
/// same order).
pub type HitView = (Seq<char>, u64);

/// The hits of both layers, the first layer's first.
pub open spec fn all_hits(l1: Seq<(String, u64)>, l2: Seq<(String, u64)>) -> Seq<HitView> {
    (l1 + l2).map_values(|h: (String, u64)| (h.0@, h.1))
}

/// Hit `i` is the one kept for its id: no earlier hit of that id scores as
/// high, and no later one scores higher (the first of the best is kept).
pub open spec fn is_winner(h: Seq<HitView>, i: int) -> bool {
    &&& 0 <= i < h.len()
    &&& forall|j: int| 0 <= j < i && #[trigger] h[j].0 == h[i].0 ==> h[j].1 < h[i].1
    &&& forall|j: int| i < j < h.len() && #[trigger] h[j].0 == h[i].0 ==> h[j].1 <= h[i].1
}

/// `r` is the merged result of the hits `h` with at most `limit` entries:
/// positions of kept hits (one per id), best score first, holding `limit`
/// of them or all, and no hit left out scores higher than one kept.
pub open spec fn merged(h: Seq<HitView>, r: Seq<usize>, limit: nat) -> bool {
    &&& forall|k: int| 0 <= k < r.len() ==> is_winner(h, #[trigger] r[k] as int)
    &&& forall|a: int, b: int| 0 <= a < b < r.len() ==> #[trigger] r[a] != #[trigger] r[b]
    &&& forall|a: int, b: int| 0 <= a < b < r.len() ==> h[#[trigger] r[a] as int].1 >= h[#[trigger] r[b] as int].1
    &&& r.len() <= limit
    &&& (r.len() == limit || forall|i: int| #[trigger] is_winner(h, i) ==> r.contains(i as usize))
    &&& forall|i: int, k: int| is_winner(h, i) && !r.contains(i as usize) && 0 <= k < r.len() ==> #[trigger] h[i].1 <= #[trigger] h[r[k] as int].1
}

fn hit_at<'a>(l1: &'a Vec<(String, u64)>, l2: &'a Vec<(String, u64)>, i: usize) -> (r: &'a (String, u64))
    requires
        i < l1@.len() + l2@.len(),
    ensures
        (r.0@, r.1) == all_hits(l1@, l2@)[i as int],
{
    if i < l1.len() {
        &l1[i]
    } else {
        &l2[i - l1.len()]
    }
}

fn winner_exec(l1: &Vec<(String, u64)>, l2: &Vec<(String, u64)>, i: usize) -> (r: bool)
    requires
        i < l1@.len() + l2@.len(),
        l1@.len() + l2@.len() <= usize::MAX,
    ensures
        r == is_winner(all_hits(l1@, l2@), i as int),
{
    let ghost h = all_hits(l1@, l2@);
    let n = l1.len() + l2.len();
    let me = hit_at(l1, l2, i);
    let mut j: usize = 0;
    while j < n
        invariant
            n == h.len(),
            i < n,
            h == all_hits(l1@, l2@),
            (me.0@, me.1) == h[i as int],
            j <= n,
            forall|k: int| 0 <= k < j && k < i && #[trigger] h[k].0 == h[i as int].0 ==> h[k].1 < h[i as int].1,
            forall|k: int| 0 <= k < j && i < k && #[trigger] h[k].0 == h[i as int].0 ==> h[k].1 <= h[i as int].1,
        decreases n - j,
    {
        let other = hit_at(l1, l2, j);
        if j != i && str_eq(other.0.as_str(), me.0.as_str()) {
            assert(h[j as int].0 == h[i as int].0);
            if j < i && other.1 >= me.1 {
                assert(!(h[j as int].1 < h[i as int].1));
                return false;
            }
            if j > i && other.1 > me.1 {
                assert(!(h[j as int].1 <= h[i as int].1));
                return false;
            }
        }
        j = j + 1;
    }
    true
}

/// Merge the hits of the two layers: one hit per id (the best; on a tie,
/// the first, so the first layer's), best score first, at most `limit`.
/// Returns positions in the first layer's hits followed by the second's.
pub fn merge_hits(l1: &Vec<(String, u64)>, l2: &Vec<(String, u64)>, limit: usize) -> (r: Vec<usize>)
    requires
        l1@.len() + l2@.len() <= usize::MAX,
    ensures
        merged(all_hits(l1@, l2@), r@, limit as nat),
        forall|k: int| 0 <= k < r@.len() ==> r@[k] < l1@.len() + l2@.len(),
{
    let ghost h = all_hits(l1@, l2@);
    let n = l1.len() + l2.len();
    let mut winners: Vec<bool> = Vec::new();
    let mut i: usize = 0;
    while i < n
        invariant
            n == h.len(),
            h == all_hits(l1@, l2@),
            i <= n,
            winners@.len() == i,
            forall|k: int| 0 <= k < i ==> winners@[k] == is_winner(h, k),
        decreases n - i,
    {
        let w = winner_exec(l1, l2, i);
        winners.push(w);
        i = i + 1;
    }
    let mut taken: Vec<bool> = Vec::new();
    let mut t: usize = 0;
    while t < n
        invariant
            t <= n,
            taken@.len() == t,
            forall|k: int| 0 <= k < t ==> !taken@[k],
        decreases n - t,
    {
        taken.push(false);
        t = t + 1;
    }
    let mut r: Vec<usize> = Vec::new();
    let mut done = false;
    while r.len() < limit && !done
        invariant
            n == h.len(),
            h == all_hits(l1@, l2@),
            winners@.len() == n,
            taken@.len() == n,
            forall|k: int| 0 <= k < n ==> winners@[k] == is_winner(h, k),
            forall|k: int| 0 <= k < r@.len() ==> r@[k] < n && taken@[r@[k] as int],
            forall|k: int| 0 <= k < n ==> (taken@[k] <==> r@.contains(k as usize)),
            forall|k: int| 0 <= k < r@.len() ==> is_winner(h, #[trigger] r@[k] as int),
            forall|a: int, b: int| 0 <= a < b < r@.len() ==> #[trigger] r@[a] != #[trigger] r@[b],
            forall|a: int, b: int| 0 <= a < b < r@.len() ==> h[#[trigger] r@[a] as int].1 >= h[#[trigger] r@[b] as int].1,
            forall|i: int, k: int| is_winner(h, i) && !r@.contains(i as usize) && 0 <= k < r@.len() ==> #[trigger] h[i].1 <= #[trigger] h[r@[k] as int].1,
            r@.len() <= limit,
            done ==> forall|i: int| #[trigger] is_winner(h, i) ==> r@.contains(i as usize),
        decreases limit - r@.len(), if done { 0int } else { 1int },
    {
        let mut best: Option<usize> = None;
        let mut j: usize = 0;
        while j < n
            invariant
                n == h.len(),
                h == all_hits(l1@, l2@),
                winners@.len() == n,
                taken@.len() == n,
                forall|k: int| 0 <= k < n ==> winners@[k] == is_winner(h, k),
                j <= n,
                match best {
                    Some(b) => b < j && winners@[b as int] && !taken@[b as int] && forall|k: int|
                        0 <= k < j && winners@[k] && !taken@[k] ==> #[trigger] h[k].1 <= h[b as int].1,
                    None => forall|k: int| 0 <= k < j ==> !(#[trigger] winners@[k] && !taken@[k]),
                },
            decreases n - j,
        {
            if winners[j] && !taken[j] {
                match best {
                    Some(b) => {
                        if hit_at(l1, l2, j).1 > hit_at(l1, l2, b).1 {
                            best = Some(j);
                        }
                    },
                    None => {
                        best = Some(j);
                    },
                }
            }
            j = j + 1;
        }
        match best {
            Some(b) => {
                let ghost old_r = r@;
                let ghost old_taken = taken@;
                proof {
                    assert(!old_r.contains(b));
                    assert forall|k: int| 0 <= k < old_r.len() implies h[b as int].1 <= h[#[trigger] old_r[k] as int].1 by {}
                }
                r.push(b);
                taken.set(b, true);
                proof {
                    assert forall|k: int| 0 <= k < n implies (taken@[k] <==> r@.contains(k as usize)) by {
                        if taken@[k] {
                            if k == b as int {
                                assert(r@[old_r.len() as int] == b);
                            } else {
                                assert(old_r.contains(k as usize));
                                let m = choose|m: int| 0 <= m < old_r.len() && old_r[m] == k as usize;
                                assert(r@[m] == k as usize);
                            }
                        }
                        if r@.contains(k as usize) {
                            let m = choose|m: int| 0 <= m < r@.len() && r@[m] == k as usize;
                            if m < old_r.len() {
                                assert(old_r.contains(k as usize));
                            }
                        }
                    }
                    assert forall|i2: int, k: int| is_winner(h, i2) && !r@.contains(i2 as usize) && 0 <= k < r@.len() implies #[trigger] h[i2].1 <= #[trigger] h[r@[k] as int].1 by {
                        assert(!old_r.contains(i2 as usize)) by {
                            if old_r.contains(i2 as usize) {
                                let m = choose|m: int| 0 <= m < old_r.len() && old_r[m] == i2 as usize;
                                assert(r@[m] == i2 as usize);
                            }
                        }
                        assert(i2 != b as int) by {
                            assert(r@[old_r.len() as int] == b);
                        }
                        if k == old_r.len() as int {
                            assert(0 <= i2 < n);
                            assert(!old_taken[i2]);
                            assert(winners@[i2]);
                            assert(r@[k] == b);
                        } else {
                            assert(r@[k] == old_r[k]);
                        }
                    }
                }
            },
            None => {
                done = true;
                proof {
                    assert forall|i2: int| #[trigger] is_winner(h, i2) implies r@.contains(i2 as usize) by {
                        assert(winners@[i2]);
                    }
                }
            },
        }
    }
    r
}

} // verus!
