//! The dialog-watcher store: named rules (a condition list and an action)
//! that the remote agents read and evaluate. Startup seeds one default rule
//! into an empty store; the seeding is idempotent and never duplicates the
//! rule.

use vstd::prelude::*;

use crate::order::lemma_filter_keeps_order;

verus! {

pub struct DialogWatcher {
    pub id: i64,
    pub name: String,
    /// Comma-separated condition tags.
    pub conditions: String,
    pub action: String,
    pub status: i64,
    pub create_time: u64,
}

impl Clone for DialogWatcher {
    fn clone(&self) -> (r: Self)
        ensures
            r == *self,
    {
        DialogWatcher {
            id: self.id,
            name: self.name.clone(),
            conditions: self.conditions.clone(),
            action: self.action.clone(),
            status: self.status,
            create_time: self.create_time,
        }
    }
}

/// A create payload.
pub struct DialogWatcherData {
    pub id: Option<i64>,
    pub name: String,
    pub conditions: String,
    pub action: String,
    pub status: Option<i64>,
}

pub open spec fn new_watcher_row(data: DialogWatcherData, id: i64, now: u64) -> DialogWatcher {
    DialogWatcher {
        id: id,
        name: data.name,
        conditions: data.conditions,
        action: data.action,
        status: crate::or_i64(data.status, 0),
        create_time: now,
    }
}

/// The default rule startup seeds into an empty store.
pub open spec fn is_default_rule(row: DialogWatcher) -> bool {
    &&& row.name@ == "init1"@
    &&& row.conditions@ == "DENY,ALLOW"@
    &&& row.action@ == "click"@
    &&& row.status == 1
}

/// The rows a delete keeps: every row but the named one.
pub open spec fn keeps_other_watchers(id: i64) -> spec_fn(DialogWatcher) -> bool {
    |row: DialogWatcher| row.id != id
}

pub struct DialogWatcherTable {
    rows: Vec<DialogWatcher>,
    next_id: i64,
}

impl DialogWatcherTable {
    pub closed spec fn rows(&self) -> Seq<DialogWatcher> {
        self.rows@
    }

    pub closed spec fn next_id(&self) -> i64 {
        self.next_id
    }

    /// Ids are assigned in insertion order, start at 1, and stay below the
    /// id the next insertion will take.
    pub open spec fn wf(&self) -> bool {
        &&& 1 <= self.next_id()
        &&& forall|i: int, j: int|
            0 <= i < j < self.rows().len() ==> self.rows()[i].id < self.rows()[j].id
        &&& forall|i: int|
            0 <= i < self.rows().len() ==> 1 <= (#[trigger] self.rows()[i]).id < self.next_id()
    }

    pub fn new() -> (r: Self)
        ensures
            r.wf(),
            r.rows() == Seq::<DialogWatcher>::empty(),
            r.next_id() == 1,
    {
        DialogWatcherTable { rows: Vec::new(), next_id: 1 }
    }

    /// Whether an insertion can still be given a fresh id.
    pub fn has_free_id(&self) -> (r: bool)
        ensures
            r == (self.next_id() < i64::MAX),
    {
        self.next_id < i64::MAX
    }

    /// Inserts a new rule with the next free id.
    pub fn save(&mut self, data: DialogWatcherData, now: u64) -> (id: i64)
        requires
            old(self).wf(),
            old(self).next_id() < i64::MAX,
        ensures
            final(self).wf(),
            id == old(self).next_id(),
            final(self).rows() == old(self).rows().push(new_watcher_row(data, id, now)),
            final(self).next_id() == old(self).next_id() + 1,
    {
        let id = self.next_id;
        let row = DialogWatcher {
            id: id,
            name: data.name,
            conditions: data.conditions,
            action: data.action,
            status: match data.status {
                Some(s) => s,
                None => 0,
            },
            create_time: now,
        };
        self.rows.push(row);
        self.next_id = id + 1;
        proof {
            let rows2 = self.rows@;
            let n0 = old(self).rows().len() as int;
            assert forall|i: int|
                0 <= i < rows2.len() implies 1 <= (#[trigger] rows2[i]).id < self.next_id by {
                if i < n0 {
                    assert(rows2[i] == old(self).rows()[i]);
                } else {
                    assert(rows2[i].id == id);
                }
            }
            assert forall|a: int, b: int|
                0 <= a < b < rows2.len() implies (#[trigger] rows2[a]).id
                < (#[trigger] rows2[b]).id by {
                assert(rows2[a] == old(self).rows()[a]);
                if b < n0 {
                    assert(rows2[b] == old(self).rows()[b]);
                } else {
                    assert(rows2[b].id == id);
                }
            }
        }
        id
    }

    /// Seeds the default rule, but only into an empty store: a store that
    /// already has rows is left exactly as it is, so repeated startups
    /// never duplicate the rule.
    pub fn seed_default(&mut self, now: u64)
        requires
            old(self).wf(),
            old(self).next_id() < i64::MAX,
        ensures
            final(self).wf(),
            old(self).rows().len() > 0 ==> *final(self) == *old(self),
            old(self).rows().len() == 0 ==> final(self).rows().len() == 1 && is_default_rule(
                final(self).rows()[0],
            ),
    {
        if self.rows.len() == 0 {
            let data = DialogWatcherData {
                id: None,
                name: "init1".to_owned(),
                conditions: "DENY,ALLOW".to_owned(),
                action: "click".to_owned(),
                status: Some(1),
            };
            self.save(data, now);
        }
    }

    /// Every stored rule, in stored (id) order.
    pub fn list_all(&self) -> (r: Vec<DialogWatcher>)
        ensures
            r@ == self.rows(),
    {
        let n = self.rows.len();
        let mut out: Vec<DialogWatcher> = Vec::new();
        let mut i: usize = 0;
        while i < n
            invariant
                n == self.rows().len(),
                i <= n,
                out@ == self.rows().take(i as int),
            decreases n - i,
        {
            out.push(self.rows[i].clone());
            proof {
                assert(self.rows().take(i as int).push(self.rows()[i as int]) =~= self.rows().take(
                    i as int + 1,
                ));
            }
            i += 1;
        }
        proof {
            assert(self.rows().take(n as int) =~= self.rows());
        }
        out
    }

    /// Removes the rule with the given id, keeping every other rule.
    pub fn delete(&mut self, id: i64)
        requires
            old(self).wf(),
        ensures
            final(self).wf(),
            final(self).next_id() == old(self).next_id(),
            final(self).rows() == old(self).rows().filter(keeps_other_watchers(id)),
    {
        let ghost p = keeps_other_watchers(id);
        let n = self.rows.len();
        let mut out: Vec<DialogWatcher> = Vec::new();
        let mut i: usize = 0;
        proof {
            assert(self.rows().take(0) =~= Seq::<DialogWatcher>::empty());
            assert(Seq::<DialogWatcher>::empty().filter(p) =~= Seq::<DialogWatcher>::empty());
        }
        while i < n
            invariant
                old(self).wf(),
                n == old(self).rows().len(),
                *self == *old(self),
                p == keeps_other_watchers(id),
                i <= n,
                out@ == old(self).rows().take(i as int).filter(p),
            decreases n - i,
        {
            let row = &self.rows[i];
            proof {
                let pre = self.rows().take(i as int);
                let elem = self.rows()[i as int];
                pre.lemma_filter_push(elem, p);
                assert(pre.push(elem) =~= self.rows().take(i as int + 1));
            }
            if row.id != id {
                out.push(row.clone());
            }
            i += 1;
        }
        proof {
            assert(self.rows().take(n as int) =~= self.rows());
            let key = |row: DialogWatcher| row.id;
            lemma_filter_keeps_order(self.rows(), p, key, 1, self.next_id());
            let f = self.rows().filter(p);
            assert forall|k: int|
                0 <= k < f.len() implies 1 <= (#[trigger] f[k]).id < self.next_id() by {
                assert(1 <= key(f[k]) < self.next_id());
            }
            assert forall|a: int, b: int|
                0 <= a < b < f.len() implies (#[trigger] f[a]).id < (#[trigger] f[b]).id by {
                assert(key(f[a]) < key(f[b]));
            }
        }
        self.rows = out;
    }
}

} // verus!
