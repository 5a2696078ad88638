//! The application's state: settings, engine, this session's downloads keyed
//! by id, and the history, with the facts about them that every operation keeps.
use crate::engine::EnginePaths;
use crate::models::{DownloadEntry, HistoryItem, Settings};
use std::collections::HashMap;
use vstd::prelude::*;
use vstd::std_specs::iter::IteratorSpec;

verus! {

broadcast use {vstd::std_specs::hash::group_hash_axioms, vstd::set::group_set_axioms};

/// Everything the application knows.
pub struct AppState {
    pub settings: Settings,
    pub engine: EnginePaths,
    /// Active and recent downloads of this session, keyed by id.
    pub downloads: HashMap<u64, DownloadEntry>,
    pub history: Vec<HistoryItem>,
    pub next_id: u64,
    /// The number the next engine run gets.
    pub next_job: u64,
}

/// Each download is filed under its own id, and every share of progress has
/// a non-zero total.
pub open spec fn downloads_wf(m: Map<u64, DownloadEntry>) -> bool {
    &&& m.dom().finite()
    &&& forall|k: u64| #[trigger] m.contains_key(k) ==> m[k].id == k && m[k].percent.wf()
}

/// Every download holds a run number below `next_job`, which is above zero.
pub open spec fn runs_below(m: Map<u64, DownloadEntry>, next_job: u64) -> bool {
    &&& next_job > 0
    &&& forall|k: u64| #[trigger] m.contains_key(k) ==> m[k].job < next_job
}

/// The download with this id, if any.
pub open spec fn lookup(m: Map<u64, DownloadEntry>, id: u64) -> Option<DownloadEntry> {
    if m.contains_key(id) {
        Some(m[id])
    } else {
        None
    }
}

/// The ids of the downloads that take a slot (downloading or merging).
pub open spec fn active_ids(m: Map<u64, DownloadEntry>) -> Set<u64> {
    m.dom().filter(|k: u64| m[k].status.is_active())
}

/// The number of downloads that take a slot.
pub open spec fn count_active(m: Map<u64, DownloadEntry>) -> nat {
    active_ids(m).len()
}

/// How many downloads may run at once: the setting, but at least one.
pub open spec fn capacity(settings: Settings) -> int {
    if settings.max_concurrent >= 1 {
        settings.max_concurrent as int
    } else {
        1
    }
}

/// The number of downloads in `s` that take a slot.
pub open spec fn count_active_seq(s: Seq<DownloadEntry>) -> nat
    decreases s.len(),
{
    if s.len() == 0 {
        0
    } else {
        count_active_seq(s.drop_last()) + if s.last().status.is_active() {
            1nat
        } else {
            0nat
        }
    }
}

/// `s` lists every download of `m` once, under distinct ids.
pub open spec fn enumerates(m: Map<u64, DownloadEntry>, s: Seq<DownloadEntry>) -> bool {
    &&& m.dom().finite()
    &&& s.len() == m.dom().len()
    &&& forall|i: int|
        0 <= i < s.len() ==> m.contains_key(#[trigger] s[i].id) && m[s[i].id] == s[i]
    &&& forall|k: u64|
        #[trigger] m.contains_key(k) ==> exists|i: int| 0 <= i < s.len() && s[i].id == k
    &&& forall|i: int, j: int| 0 <= i < s.len() && 0 <= j < s.len() && i != j ==> s[i].id != s[j].id
}

proof fn lemma_active_ids_finite(m: Map<u64, DownloadEntry>)
    requires
        m.dom().finite(),
    ensures
        active_ids(m).finite(),
{
    m.dom().lemma_len_filter(|k: u64| m[k].status.is_active());
}

/// Filing a download under an id already in use changes the count by the
/// difference it makes.
pub proof fn lemma_count_active_insert(m: Map<u64, DownloadEntry>, k: u64, e: DownloadEntry)
    requires
        m.dom().finite(),
        m.contains_key(k),
    ensures
        count_active(m.insert(k, e)) + (if m[k].status.is_active() {
            1int
        } else {
            0int
        }) == count_active(m) + (if e.status.is_active() {
            1int
        } else {
            0int
        }),
{
    let n = m.insert(k, e);
    assert(n.dom() =~= m.dom());
    lemma_active_ids_finite(m);
    lemma_active_ids_finite(n);
    let s = active_ids(m);
    let t = active_ids(n);
    assert(t.remove(k) =~= s.remove(k));
    assert(s.len() == s.remove(k).len() + (if s.contains(k) {
        1int
    } else {
        0int
    }));
    assert(t.len() == t.remove(k).len() + (if t.contains(k) {
        1int
    } else {
        0int
    }));
    assert(s.contains(k) == m[k].status.is_active());
    assert(t.contains(k) == e.status.is_active());
}

/// Dropping a download changes the count by what it took.
pub proof fn lemma_count_active_remove(m: Map<u64, DownloadEntry>, k: u64)
    requires
        m.dom().finite(),
        m.contains_key(k),
    ensures
        count_active(m.remove(k)) + (if m[k].status.is_active() {
            1int
        } else {
            0int
        }) == count_active(m),
{
    let n = m.remove(k);
    lemma_active_ids_finite(m);
    let s = active_ids(m);
    assert(active_ids(n) =~= s.remove(k));
    assert(s.len() == s.remove(k).len() + (if s.contains(k) {
        1int
    } else {
        0int
    }));
    assert(s.contains(k) == m[k].status.is_active());
}

/// Counting the downloads of a listing counts the map's downloads.
pub proof fn lemma_enumeration_count(m: Map<u64, DownloadEntry>, s: Seq<DownloadEntry>)
    requires
        enumerates(m, s),
    ensures
        count_active_seq(s) == count_active(m),
    decreases s.len(),
{
    if s.len() == 0 {
        assert(m.dom() =~= Set::<u64>::empty()) by {
            assert forall|k: u64| !m.dom().contains(k) by {
                if m.contains_key(k) {
                    let i = choose|i: int| 0 <= i < s.len() && s[i].id == k;
                }
            }
        }
        assert(active_ids(m) =~= Set::<u64>::empty());
    } else {
        let x = s.last();
        let k = x.id;
        let d = s.drop_last();
        let m2 = m.remove(k);
        assert(m.contains_key(s[s.len() - 1].id));
        assert(enumerates(m2, d)) by {
            assert forall|i: int| 0 <= i < d.len() implies m2.contains_key(#[trigger] d[i].id)
                && m2[d[i].id] == d[i] by {
                assert(s[i] == d[i]);
                assert(s[i].id != s[s.len() - 1].id);
            }
            assert forall|k2: u64| #[trigger] m2.contains_key(k2) implies exists|i: int|
                0 <= i < d.len() && d[i].id == k2 by {
                let i = choose|i: int| 0 <= i < s.len() && s[i].id == k2;
                assert(i != s.len() - 1);
                assert(d[i] == s[i]);
            }
            assert forall|i: int, j: int|
                0 <= i < d.len() && 0 <= j < d.len() && i != j implies d[i].id != d[j].id by {
                assert(d[i] == s[i] && d[j] == s[j]);
            }
        }
        lemma_enumeration_count(m2, d);
        lemma_count_active_remove(m, k);
    }
}

/// Every download of `m`, in the order the map hands them out.
pub fn snapshot(m: &HashMap<u64, DownloadEntry>) -> (r: Vec<DownloadEntry>)
    requires
        downloads_wf(m@),
    ensures
        enumerates(m@, r@),
{
    let mut r: Vec<DownloadEntry> = Vec::new();
    let ghost all = vstd::std_specs::hash::spec_hash_map_iter(m).remaining();
    let iter0 = m.iter();
    assert(all.no_duplicates());
    for p in it: iter0
        invariant
            downloads_wf(m@),
            it.seq() == all,
            r@.len() == it.index(),
            forall|i: int| 0 <= i < r@.len() ==> r@[i] == *it.seq()[i].1,
    {
        let (_k, v) = p;
        r.push(v.clone());
    }
    proof {
        let v = all;
        assert forall|i: int| 0 <= i < r@.len() implies m@.contains_key(#[trigger] r@[i].id)
            && m@[r@[i].id] == r@[i] by {
            assert(m@.contains_key(*v[i].0));
            assert(m@[*v[i].0] == *v[i].1);
        }
        assert forall|k: u64| #[trigger] m@.contains_key(k) implies exists|i: int|
            0 <= i < r@.len() && r@[i].id == k by {
            assert(v.contains((&k, &m@[k])));
            let j = choose|j: int| 0 <= j < v.len() && v[j] == (&k, &m@[k]);
            assert(r@[j] == m@[k]);
        }
        assert forall|i: int, j: int|
            0 <= i < r@.len() && 0 <= j < r@.len() && i != j implies r@[i].id != r@[j].id by {
            if r@[i].id == r@[j].id {
                assert(m@[*v[i].0] == *v[i].1);
                assert(m@[*v[j].0] == *v[j].1);
                assert(v[i] == v[j]);
            }
        }
    }
    r
}

/// The download filed under `id`, if any.
pub fn get_entry(m: &HashMap<u64, DownloadEntry>, id: u64) -> (r: Option<&DownloadEntry>)
    ensures
        match r {
            Some(e) => lookup(m@, id) == Some(*e),
            None => lookup(m@, id) is None,
        },
{
    m.get(&id)
}

impl AppState {
    /// The facts that every operation keeps: the downloads are well formed,
    /// and every run number a download holds is below the counter of runs.
    pub open spec fn wf(&self) -> bool {
        &&& downloads_wf(self.downloads@)
        &&& runs_below(self.downloads@, self.next_job)
    }

    /// A fresh state: no downloads yet, ids counted from 1.
    pub fn new(settings: Settings, engine: EnginePaths, history: Vec<HistoryItem>) -> (r: AppState)
        ensures
            r.wf(),
            r.settings == settings,
            r.engine == engine,
            r.history == history,
            r.downloads@ == Map::<u64, DownloadEntry>::empty(),
            r.next_id == 1,
            r.next_job == 1,
    {
        AppState { settings, engine, downloads: HashMap::new(), history, next_id: 1, next_job: 1 }
    }

    /// Replaces the settings; nothing else changes.
    pub fn set_settings(&mut self, settings: Settings)
        requires
            old(self).wf(),
        ensures
            final(self).wf(),
            *final(self) == (AppState { settings, ..*old(self) }),
    {
        self.settings = settings;
    }

    /// The yt-dlp program to run, or the error shown when there is none yet.
    pub fn ytdlp_path(&self) -> (r: Result<String, String>)
        ensures
            match r {
                Ok(p) => self.engine.ytdlp == Some(p),
                Err(e) => self.engine.ytdlp is None && e@ == "yt-dlp is not installed yet"@,
            },
    {
        match &self.engine.ytdlp {
            Some(p) => Ok(p.clone()),
            None => Err("yt-dlp is not installed yet".to_owned()),
        }
    }
}

} // verus!
