//! The history of finished downloads, newest first, at most 500 of them.
use crate::models::{clone_opt_string, DownloadEntry, HistoryItem};
use crate::state::{get_entry, lookup, AppState};
use vstd::prelude::*;

verus! {

/// How many finished downloads the history keeps.
pub const HISTORY_LIMIT: usize = 500;

/// The history item that a finished download becomes. Its id is the
/// download's creation time, which stays the same across sessions.
pub open spec fn history_item(e: DownloadEntry, finished_at: u64) -> HistoryItem {
    HistoryItem {
        id: e.created_at,
        url: e.url,
        title: e.title,
        thumbnail: e.thumbnail,
        quality: e.quality,
        file_path: e.file_path,
        total_bytes: e.total_bytes,
        status: e.status,
        finished_at,
    }
}

/// The history after `item` is put in front, cut to the limit.
pub open spec fn with_recorded(h: Seq<HistoryItem>, item: HistoryItem) -> Seq<HistoryItem> {
    let full = seq![item] + h;
    if full.len() > HISTORY_LIMIT {
        full.take(HISTORY_LIMIT as int)
    } else {
        full
    }
}

/// The history without the items that carry `id`.
pub open spec fn without_item(h: Seq<HistoryItem>, id: u64) -> Seq<HistoryItem> {
    h.filter(|x: HistoryItem| x.id != id)
}

/// Makes the history item of a finished download.
pub fn make_history_item(e: &DownloadEntry, finished_at: u64) -> (r: HistoryItem)
    ensures
        r == history_item(*e, finished_at),
{
    HistoryItem {
        id: e.created_at,
        url: e.url.clone(),
        title: e.title.clone(),
        thumbnail: clone_opt_string(&e.thumbnail),
        quality: e.quality.clone(),
        file_path: clone_opt_string(&e.file_path),
        total_bytes: e.total_bytes,
        status: e.status,
        finished_at,
    }
}

impl AppState {
    /// Snapshot a finished (done or failed) download into the history.
    pub fn record(&mut self, download_id: u64, finished_at: u64)
        requires
            old(self).wf(),
        ensures
            final(self).wf(),
            final(self).downloads == old(self).downloads,
            final(self).settings == old(self).settings,
            final(self).engine == old(self).engine,
            final(self).next_id == old(self).next_id,
            final(self).next_job == old(self).next_job,
            final(self).history@ == match lookup(old(self).downloads@, download_id) {
                Some(e) => with_recorded(old(self).history@, history_item(e, finished_at)),
                None => old(self).history@,
            },
    {
        let item = match get_entry(&self.downloads, download_id) {
            Some(e) => make_history_item(e, finished_at),
            None => {
                return;
            },
        };
        let ghost h = self.history@;
        self.history.insert(0, item);
        self.history.truncate(HISTORY_LIMIT);
        assert(self.history@ =~= with_recorded(h, item));
    }

    /// A copy of the history.
    pub fn get_history(&self) -> (r: Vec<HistoryItem>)
        ensures
            r@ == self.history@,
    {
        let n = self.history.len();
        let mut r: Vec<HistoryItem> = Vec::new();
        let mut i: usize = 0;
        while i < n
            invariant
                n == self.history@.len(),
                i <= n,
                r@ == self.history@.take(i as int),
            decreases n - i,
        {
            r.push(self.history[i].clone());
            assert(r@ =~= self.history@.take(i + 1));
            i = i + 1;
        }
        assert(self.history@.take(n as int) =~= self.history@);
        r
    }

    /// Forget the history items that carry `id`.
    pub fn remove_history_item(&mut self, id: u64)
        requires
            old(self).wf(),
        ensures
            final(self).wf(),
            final(self).downloads == old(self).downloads,
            final(self).settings == old(self).settings,
            final(self).engine == old(self).engine,
            final(self).next_id == old(self).next_id,
            final(self).next_job == old(self).next_job,
            final(self).history@ == without_item(old(self).history@, id),
    {
        let n = self.history.len();
        let mut kept: Vec<HistoryItem> = Vec::new();
        let mut i: usize = 0;
        let ghost h = self.history@;
        while i < n
            invariant
                n == self.history@.len(),
                h == self.history@,
                i <= n,
                kept@ == without_item(h.take(i as int), id),
            decreases n - i,
        {
            proof {
                reveal(Seq::filter);
                assert(h.take(i + 1).drop_last() =~= h.take(i as int));
            }
            if self.history[i].id != id {
                kept.push(self.history[i].clone());
            }
            i = i + 1;
        }
        assert(h.take(n as int) =~= h);
        self.history = kept;
    }

    /// Forget the whole history.
    pub fn clear_history(&mut self)
        requires
            old(self).wf(),
        ensures
            final(self).wf(),
            final(self).downloads == old(self).downloads,
            final(self).settings == old(self).settings,
            final(self).engine == old(self).engine,
            final(self).next_id == old(self).next_id,
            final(self).next_job == old(self).next_job,
            final(self).history@.len() == 0,
    {
        self.history.clear();
    }
}

} // verus!
