//! The group store: operator-defined collections that accounts, materials
//! and jobs point to by `group_id`. A group carries the publish and train
//! schedules and the auto-publish / auto-train flags.

use vstd::prelude::*;

use crate::order::lemma_filter_keeps_order;

verus! {

pub struct Group {
    pub id: i64,
    pub name: String,
    pub title: Option<String>,
    pub tags: Option<String>,
    pub auto_publish: bool,
    /// Daily publish slot, as an HH:MM text.
    pub publish_start_time: String,
    pub auto_train: bool,
    pub publish_type: i64,
    pub product_link: Option<String>,
    /// Comma-separated daily train slots, as HH:MM texts.
    pub train_start_time: String,
}

impl Clone for Group {
    fn clone(&self) -> (r: Self)
        ensures
            r == *self,
    {
        Group {
            id: self.id,
            name: self.name.clone(),
            title: match &self.title {
                Some(v) => Some(v.clone()),
                None => None,
            },
            tags: match &self.tags {
                Some(v) => Some(v.clone()),
                None => None,
            },
            auto_publish: self.auto_publish,
            publish_start_time: self.publish_start_time.clone(),
            auto_train: self.auto_train,
            publish_type: self.publish_type,
            product_link: match &self.product_link {
                Some(v) => Some(v.clone()),
                None => None,
            },
            train_start_time: self.train_start_time.clone(),
        }
    }
}

/// A create payload; omitted fields fall back to the column defaults:
/// both automation flags on, the stock schedules, publish type 1.
pub struct GroupData {
    pub id: Option<i64>,
    pub name: String,
    pub title: Option<String>,
    pub tags: Option<String>,
    pub auto_publish: Option<bool>,
    pub publish_start_time: Option<String>,
    pub auto_train: Option<bool>,
    pub publish_type: Option<i64>,
    pub product_link: Option<String>,
    pub train_start_time: Option<String>,
}

/// What the saved row holds of its payload: each field the payload
/// carries, and the column default for each it omits (both automation
/// flags on, the stock schedules, publish type 1).
pub open spec fn group_saved(g: Group, data: GroupData, id: i64) -> bool {
    &&& g.id == id
    &&& g.name == data.name
    &&& g.title == data.title
    &&& g.tags == data.tags
    &&& g.auto_publish == (match data.auto_publish {
        Some(v) => v,
        None => true,
    })
    &&& match data.publish_start_time {
        Some(v) => g.publish_start_time == v,
        None => g.publish_start_time@ == "02:10"@,
    }
    &&& g.auto_train == (match data.auto_train {
        Some(v) => v,
        None => true,
    })
    &&& g.publish_type == crate::or_i64(data.publish_type, 1)
    &&& g.product_link == data.product_link
    &&& match data.train_start_time {
        Some(v) => g.train_start_time == v,
        None => g.train_start_time@ == "20:10,20:30,21:10,21:30"@,
    }
}

/// The first row carrying the given id, if any.
pub open spec fn group_with_id(rows: Seq<Group>, id: i64) -> Option<Group>
    decreases rows.len(),
{
    if rows.len() == 0 {
        None
    } else if rows[0].id == id {
        Some(rows[0])
    } else {
        group_with_id(rows.drop_first(), id)
    }
}

/// The rows a delete keeps: every row but the named one.
pub open spec fn keeps_other_groups(id: i64) -> spec_fn(Group) -> bool {
    |row: Group| row.id != id
}

pub struct GroupTable {
    rows: Vec<Group>,
    next_id: i64,
}

impl GroupTable {
    pub closed spec fn rows(&self) -> Seq<Group> {
        self.rows@
    }

    pub closed spec fn next_id(&self) -> i64 {
        self.next_id
    }

    /// Ids are assigned in insertion order, start at 1, and stay below the
    /// id the next insertion will take.
    pub open spec fn wf(&self) -> bool {
        &&& 1 <= self.next_id()
        &&& forall|i: int, j: int|
            0 <= i < j < self.rows().len() ==> self.rows()[i].id < self.rows()[j].id
        &&& forall|i: int|
            0 <= i < self.rows().len() ==> 1 <= (#[trigger] self.rows()[i]).id < self.next_id()
    }

    pub fn new() -> (r: Self)
        ensures
            r.wf(),
            r.rows() == Seq::<Group>::empty(),
            r.next_id() == 1,
    {
        GroupTable { rows: Vec::new(), next_id: 1 }
    }

    /// Whether an insertion can still be given a fresh id.
    pub fn has_free_id(&self) -> (r: bool)
        ensures
            r == (self.next_id() < i64::MAX),
    {
        self.next_id < i64::MAX
    }

    /// Inserts a new group with the next free id; omitted payload fields
    /// take the column defaults.
    pub fn save(&mut self, data: GroupData) -> (id: i64)
        requires
            old(self).wf(),
            old(self).next_id() < i64::MAX,
        ensures
            final(self).wf(),
            id == old(self).next_id(),
            final(self).next_id() == old(self).next_id() + 1,
            final(self).rows().len() == old(self).rows().len() + 1,
            final(self).rows().take(old(self).rows().len() as int) == old(self).rows(),
            group_saved(final(self).rows().last(), data, id),
    {
        let ghost data0 = data;
        let id = self.next_id;
        let row = Group {
            id: id,
            name: data.name,
            title: data.title,
            tags: data.tags,
            auto_publish: match data.auto_publish {
                Some(v) => v,
                None => true,
            },
            publish_start_time: match data.publish_start_time {
                Some(v) => v,
                None => "02:10".to_owned(),
            },
            auto_train: match data.auto_train {
                Some(v) => v,
                None => true,
            },
            publish_type: match data.publish_type {
                Some(v) => v,
                None => 1,
            },
            product_link: data.product_link,
            train_start_time: match data.train_start_time {
                Some(v) => v,
                None => "20:10,20:30,21:10,21:30".to_owned(),
            },
        };
        self.rows.push(row);
        self.next_id = id + 1;
        proof {
            let rows2 = self.rows@;
            let n0 = old(self).rows().len() as int;
            assert(rows2.take(n0) =~= old(self).rows());
            assert(group_saved(rows2.last(), data0, id));
            assert forall|i: int|
                0 <= i < rows2.len() implies 1 <= (#[trigger] rows2[i]).id < self.next_id by {
                if i < n0 {
                    assert(rows2[i] == old(self).rows()[i]);
                } else {
                    assert(rows2[i].id == id);
                }
            }
            assert forall|a: int, b: int|
                0 <= a < b < rows2.len() implies (#[trigger] rows2[a]).id
                < (#[trigger] rows2[b]).id by {
                assert(rows2[a] == old(self).rows()[a]);
                if b < n0 {
                    assert(rows2[b] == old(self).rows()[b]);
                } else {
                    assert(rows2[b].id == id);
                }
            }
        }
        id
    }

    /// Every stored group, in stored (id) order.
    pub fn list_all(&self) -> (r: Vec<Group>)
        ensures
            r@ == self.rows(),
    {
        let n = self.rows.len();
        let mut out: Vec<Group> = Vec::new();
        let mut i: usize = 0;
        while i < n
            invariant
                n == self.rows().len(),
                i <= n,
                out@ == self.rows().take(i as int),
            decreases n - i,
        {
            out.push(self.rows[i].clone());
            proof {
                assert(self.rows().take(i as int).push(self.rows()[i as int]) =~= self.rows().take(
                    i as int + 1,
                ));
            }
            i += 1;
        }
        proof {
            assert(self.rows().take(n as int) =~= self.rows());
        }
        out
    }

    /// The row with the given id, if the table has one.
    pub fn find(&self, id: i64) -> (r: Option<&Group>)
        ensures
            match r {
                Some(g) => group_with_id(self.rows(), id) == Some(*g),
                None => group_with_id(self.rows(), id) is None,
            },
    {
        let n = self.rows.len();
        let mut i: usize = 0;
        proof {
            assert(self.rows().skip(0) =~= self.rows());
        }
        while i < n
            invariant
                n == self.rows().len(),
                i <= n,
                group_with_id(self.rows(), id) == group_with_id(self.rows().skip(i as int), id),
            decreases n - i,
        {
            proof {
                assert(self.rows().skip(i as int).drop_first() =~= self.rows().skip(i as int + 1));
            }
            if self.rows[i].id == id {
                return Some(&self.rows[i]);
            }
            i += 1;
        }
        proof {
            assert(self.rows().skip(n as int) =~= Seq::<Group>::empty());
        }
        None
    }

    /// Removes the group with the given id, keeping every other group.
    pub fn del(&mut self, id: i64)
        requires
            old(self).wf(),
        ensures
            final(self).wf(),
            final(self).next_id() == old(self).next_id(),
            final(self).rows() == old(self).rows().filter(keeps_other_groups(id)),
    {
        let ghost p = keeps_other_groups(id);
        let n = self.rows.len();
        let mut out: Vec<Group> = Vec::new();
        let mut i: usize = 0;
        proof {
            assert(self.rows().take(0) =~= Seq::<Group>::empty());
            assert(Seq::<Group>::empty().filter(p) =~= Seq::<Group>::empty());
        }
        while i < n
            invariant
                old(self).wf(),
                n == old(self).rows().len(),
                *self == *old(self),
                p == keeps_other_groups(id),
                i <= n,
                out@ == old(self).rows().take(i as int).filter(p),
            decreases n - i,
        {
            let row = &self.rows[i];
            proof {
                let pre = self.rows().take(i as int);
                let elem = self.rows()[i as int];
                pre.lemma_filter_push(elem, p);
                assert(pre.push(elem) =~= self.rows().take(i as int + 1));
            }
            if row.id != id {
                out.push(row.clone());
            }
            i += 1;
        }
        proof {
            assert(self.rows().take(n as int) =~= self.rows());
            let key = |row: Group| row.id;
            lemma_filter_keeps_order(self.rows(), p, key, 1, self.next_id());
            let f = self.rows().filter(p);
            assert forall|k: int|
                0 <= k < f.len() implies 1 <= (#[trigger] f[k]).id < self.next_id() by {
                assert(1 <= key(f[k]) < self.next_id());
            }
            assert forall|a: int, b: int|
                0 <= a < b < f.len() implies (#[trigger] f[a]).id < (#[trigger] f[b]).id by {
                assert(key(f[a]) < key(f[b]));
            }
        }
        self.rows = out;
    }
}

} // verus!
