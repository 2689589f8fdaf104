//! The in-memory state of the downloads: the tasks by id, and the source
//! URLs being processed.
use super::types::{DownloadItem, DownloadStatus};
use crate::text::{contains_string, push_unique, string_from, views};
use std::collections::HashMap;
use vstd::std_specs::iter::IteratorSpec;
use vstd::prelude::*;

verus! {

broadcast use vstd::std_specs::hash::group_hash_axioms;

/// The tasks of the download queue and the URLs reserved for processing.
pub struct TaskQueue {
    tasks: HashMap<i64, DownloadItem>,
    reserved_urls: Vec<String>,
}

impl TaskQueue {
    /// Every task is filed under its own id, and no URL is reserved twice.
    pub closed spec fn wf(&self) -> bool {
        &&& forall|k: i64| #[trigger] self.tasks@.contains_key(k) ==> self.tasks@[k].id == k
        &&& views(self.reserved_urls@).no_duplicates()
    }

    /// In a well-formed queue every task is filed under its own id.
    pub proof fn lemma_filed_under_id(&self, id: i64)
        requires
            self.wf(),
            self.tasks().contains_key(id),
        ensures
            self.tasks()[id].id == id,
    {
    }

    /// The tasks by id.
    pub closed spec fn tasks(&self) -> Map<i64, DownloadItem> {
        self.tasks@
    }

    /// The URLs being processed.
    pub closed spec fn reserved(&self) -> Set<Seq<char>> {
        views(self.reserved_urls@).to_set()
    }

    /// An empty queue.
    pub fn new() -> (r: Self)
        ensures
            r.wf(),
            r.tasks() == Map::<i64, DownloadItem>::empty(),
            r.reserved() == Set::<Seq<char>>::empty(),
    {
        let r = TaskQueue { tasks: HashMap::new(), reserved_urls: Vec::new() };
        assert(views(r.reserved_urls@).to_set() =~= Set::<Seq<char>>::empty());
        r
    }

    /// Reserves `url` for processing: true when it was not reserved yet.
    pub fn reserve_url(&mut self, url: &str) -> (r: bool)
        requires
            old(self).wf(),
        ensures
            final(self).wf(),
            r == !old(self).reserved().contains(url@),
            final(self).reserved() == old(self).reserved().insert(url@),
            final(self).tasks() == old(self).tasks(),
    {
        let u = string_from(url);
        let present = contains_string(&self.reserved_urls, &u);
        push_unique(&mut self.reserved_urls, u);
        !present
    }

    /// Gives up the reservation of `url`.
    pub fn release_url(&mut self, url: &str)
        requires
            old(self).wf(),
        ensures
            final(self).wf(),
            final(self).reserved() == old(self).reserved().remove(url@),
            final(self).tasks() == old(self).tasks(),
    {
        let u = string_from(url);
        let ghost old_v = self.reserved_urls@;
        let mut kept: Vec<String> = Vec::new();
        let mut i: usize = 0;
        while i < self.reserved_urls.len()
            invariant
                self.reserved_urls@ == old_v,
                u@ == url@,
                i <= old_v.len(),
                views(kept@).no_duplicates(),
                views(kept@).to_set() == views(old_v.take(i as int)).to_set().remove(url@),
            decreases old_v.len() - i,
        {
            if self.reserved_urls[i] != u {
                push_unique(&mut kept, self.reserved_urls[i].clone());
            }
            proof {
                assert(views(old_v.take(i + 1)) =~= views(old_v.take(i as int)).push(old_v[i as int]@));
                views(old_v.take(i as int)).lemma_push_to_set_commute(old_v[i as int]@);
                assert(views(kept@).to_set() =~= views(old_v.take(i + 1)).to_set().remove(url@));
            }
            i = i + 1;
        }
        assert(old_v.take(old_v.len() as int) =~= old_v);
        self.reserved_urls = kept;
    }

    /// The URLs being processed, each once.
    pub fn get_reserved_urls(&self) -> (r: Vec<String>)
        requires
            self.wf(),
        ensures
            views(r@).no_duplicates(),
            views(r@).to_set() == self.reserved(),
    {
        let mut r: Vec<String> = Vec::new();
        let mut i: usize = 0;
        while i < self.reserved_urls.len()
            invariant
                i <= self.reserved_urls@.len(),
                views(self.reserved_urls@).no_duplicates(),
                r@ == self.reserved_urls@.take(i as int),
            decreases self.reserved_urls@.len() - i,
        {
            r.push(self.reserved_urls[i].clone());
            assert(r@ =~= self.reserved_urls@.take(i + 1));
            i = i + 1;
        }
        assert(self.reserved_urls@.take(self.reserved_urls@.len() as int) =~= self.reserved_urls@);
        r
    }

    /// Files `item` under its id, replacing what was filed there.
    pub fn insert(&mut self, item: DownloadItem)
        requires
            old(self).wf(),
        ensures
            final(self).wf(),
            final(self).tasks() == old(self).tasks().insert(item.id, item),
            final(self).reserved() == old(self).reserved(),
    {
        let id = item.id;
        self.tasks.insert(id, item);
    }

    /// Takes the task `id` out of the queue.
    pub fn remove(&mut self, id: i64) -> (r: Option<DownloadItem>)
        requires
            old(self).wf(),
        ensures
            final(self).wf(),
            final(self).tasks() == old(self).tasks().remove(id),
            r is Some == old(self).tasks().contains_key(id),
            r is Some ==> r->0 == old(self).tasks()[id] && r->0.id == id,
            final(self).reserved() == old(self).reserved(),
    {
        self.tasks.remove(&id)
    }

    /// A copy of the task `id`, if it is in the queue.
    pub fn get(&self, id: i64) -> (r: Option<DownloadItem>)
        requires
            self.wf(),
        ensures
            r is Some == self.tasks().contains_key(id),
            r is Some ==> r->0 == self.tasks()[id] && r->0.id == id,
    {
        match self.tasks.get(&id) {
            Some(item) => Some(item.duplicate()),
            None => None,
        }
    }

    /// Whether the queue holds no task.
    pub fn is_empty(&self) -> (r: bool)
        ensures
            r == (self.tasks().dom().len() == 0),
    {
        let r = self.tasks.is_empty();
        proof {
            if self.tasks@.dom().len() == 0 {
                assert(self.tasks@.dom() =~= Set::<i64>::empty());
                assert(self.tasks@ =~= Map::<i64, DownloadItem>::empty());
            }
        }
        r
    }

    /// The tasks still waiting or running, each once (in no particular
    /// order).
    pub fn active_items(&self) -> (r: Vec<DownloadItem>)
        requires
            self.wf(),
        ensures
            r@.map_values(|it: DownloadItem| it.id).no_duplicates(),
            forall|i: int| 0 <= i < r@.len() ==> #[trigger] self.tasks().contains_key(r@[i].id)
                && self.tasks()[r@[i].id] == r@[i] && r@[i].active(),
            forall|k: i64| #[trigger] self.tasks().contains_key(k) && self.tasks()[k].active() ==> exists|i: int|
                0 <= i < r@.len() && r@[i].id == k,
    {
        let mut r: Vec<DownloadItem> = Vec::new();
        let ghost m = self.tasks@;
        let ghost ks0 = vstd::std_specs::hash::spec_keys_iter(&self.tasks).remaining().unref();
        let ghost mut covered: int = 0;
        proof {
            assert(ks0.to_set() == m.dom());
        }
        for k in it: self.tasks.keys()
            invariant
                self.wf(),
                m == self.tasks@,
                it.seq().unref() == ks0,
                covered == it.index(),
                it.seq().unref().to_set() == m.dom(),
                it.seq().unref().no_duplicates(),
                r@.map_values(|item: DownloadItem| item.id).no_duplicates(),
                forall|i: int| 0 <= i < r@.len() ==> #[trigger] m.contains_key(r@[i].id) && m[r@[i].id] == r@[i]
                    && r@[i].active(),
                0 <= covered <= ks0.len(),
                forall|i: int| 0 <= i < r@.len() ==> exists|j: int| 0 <= j < covered && ks0[j] == #[trigger] r@[i].id,
                forall|j: int| 0 <= j < covered && m[ks0[j]].active() ==> exists|i: int|
                    0 <= i < r@.len() && r@[i].id == #[trigger] ks0[j],
        {
            let ghost ks = ks0;
            let ghost idx = covered;
            assert(ks[idx] == *k);
            assert(ks.to_set().contains(*k));
            match self.tasks.get(k) {
                Some(item) => {
                    if item.is_active() {
                        let ghost old_r = r@;
                        r.push(item.duplicate());
                        proof {
                            let ids = r@.map_values(|item: DownloadItem| item.id);
                            let old_ids = old_r.map_values(|item: DownloadItem| item.id);
                            assert(ids =~= old_ids.push(*k));
                            assert forall|a: int, b: int| 0 <= a < b < ids.len() implies ids[a] != ids[b] by {
                                if b == ids.len() - 1 {
                                    assert(old_r[a] == r@[a]);
                                    let j = choose|j: int| 0 <= j < idx && ks[j] == old_r[a].id;
                                    assert(ks[j] != ks[idx]);
                                } else {
                                    assert(old_ids[a] != old_ids[b]);
                                }
                            }
                            assert(m.contains_key(*k) && m[*k] == *item);
                            assert forall|i: int| 0 <= i < r@.len() implies #[trigger] m.contains_key(r@[i].id)
                                && m[r@[i].id] == r@[i] && r@[i].active() by {
                                if i < old_r.len() {
                                    assert(old_r[i] == r@[i]);
                                    assert(m.contains_key(old_r[i].id));
                                    assert(m[old_r[i].id] == old_r[i]);
                                    assert(old_r[i].active());
                                } else {
                                    assert(r@[i] == *item);
                                    assert(m[*k].id == *k);
                                    assert(r@[i].id == *k);
                                    assert(m.contains_key(r@[i].id));
                                    assert(m[r@[i].id] == r@[i]);
                                    assert(r@[i].active());
                                }
                            }
                            assert forall|i: int| 0 <= i < r@.len() implies exists|j: int| 0 <= j < idx + 1 && ks[j] == #[trigger] r@[i].id by {
                                if i < old_r.len() {
                                    assert(old_r[i] == r@[i]);
                                } else {
                                    assert(ks[idx] == r@[i].id);
                                }
                            }
                            assert forall|j: int| 0 <= j < idx + 1 && m[ks[j]].active() implies exists|i: int|
                                0 <= i < r@.len() && r@[i].id == #[trigger] ks[j] by {
                                if j < idx {
                                    let i = choose|i: int| 0 <= i < old_r.len() && old_r[i].id == ks[j];
                                    assert(r@[i] == old_r[i]);
                                } else {
                                    assert(r@[r@.len() - 1].id == ks[j]);
                                }
                            }
                        }
                    }
                },
                None => {},
            }
            proof {
                covered = covered + 1;
            }
        }
        proof {
            let ks = ks0;
            assert(covered == ks.len());
            assert forall|k: i64| #[trigger] m.contains_key(k) && m[k].active() implies exists|i: int|
                0 <= i < r@.len() && r@[i].id == k by {
                assert(ks.to_set().contains(k));
                let j = choose|j: int| 0 <= j < ks.len() && ks[j] == k;
            }
        }
        r
    }
}

} // verus!
