//! The publish-job store: units of scheduled content publication. Creating
//! a job is a two-step endpoint: the row is inserted, and the consumed
//! material is marked used.

use vstd::prelude::*;

use crate::clock::now_seconds;
use crate::materials::{used_marked, MaterialTable};
use crate::status::JobStatus;
use crate::{or_i64, or_u64};

verus! {

pub struct PublishJob {
    pub id: i64,
    pub group_id: i64,
    /// Storage name of the material to publish.
    pub material: String,
    /// The account that publishes.
    pub account: String,
    pub title: Option<String>,
    pub tags: Option<String>,
    pub status: JobStatus,
    pub start_time: u64,
    pub end_time: u64,
    pub publish_type: i64,
    pub product_link: Option<String>,
    pub create_time: u64,
}

/// A create payload; omitted fields fall back to the column defaults.
pub struct PublishJobData {
    pub id: Option<i64>,
    pub group_id: Option<i64>,
    pub material: Option<String>,
    pub account: Option<String>,
    pub title: Option<String>,
    pub tags: Option<String>,
    pub status: Option<JobStatus>,
    pub start_time: Option<u64>,
    pub publish_type: Option<i64>,
    pub product_link: Option<String>,
}

/// The row a create payload becomes under a given id and clock reading.
pub open spec fn new_publish_job_row(data: PublishJobData, id: i64, now: u64) -> PublishJob {
    PublishJob {
        id: id,
        group_id: or_i64(data.group_id, 0),
        material: data.material->0,
        account: data.account->0,
        title: data.title,
        tags: data.tags,
        status: match data.status {
            Some(s) => s,
            None => JobStatus::Pending,
        },
        start_time: or_u64(data.start_time, now),
        end_time: now,
        publish_type: or_i64(data.publish_type, 1),
        product_link: data.product_link,
        create_time: now,
    }
}

impl Clone for PublishJob {
    fn clone(&self) -> (r: Self)
        ensures
            r == *self,
    {
        PublishJob {
            id: self.id,
            group_id: self.group_id,
            material: self.material.clone(),
            account: self.account.clone(),
            title: match &self.title {
                Some(v) => Some(v.clone()),
                None => None,
            },
            tags: match &self.tags {
                Some(v) => Some(v.clone()),
                None => None,
            },
            status: self.status,
            start_time: self.start_time,
            end_time: self.end_time,
            publish_type: self.publish_type,
            product_link: match &self.product_link {
                Some(v) => Some(v.clone()),
                None => None,
            },
            create_time: self.create_time,
        }
    }
}

/// What a status update makes of one stored row: the named row takes the
/// new status, every other row is untouched. Unlike a train job, a publish
/// job's end time is not stamped here.
pub open spec fn status_set(row: PublishJob, id: i64, status: JobStatus) -> PublishJob {
    if row.id == id {
        PublishJob { status: status, ..row }
    } else {
        row
    }
}

/// The rows a delete keeps: every row but the named one.
pub open spec fn keeps_other_publish_jobs(id: i64) -> spec_fn(PublishJob) -> bool {
    |row: PublishJob| row.id != id
}

/// What the full listing shows: the most recent 200 rows, newest first.
pub open spec fn publish_list_all_spec(rows: Seq<PublishJob>) -> Seq<PublishJob> {
    Seq::new(
        if rows.len() < 200 {
            rows.len()
        } else {
            200
        },
        |k: int| rows[rows.len() - 1 - k],
    )
}

pub struct PublishJobTable {
    rows: Vec<PublishJob>,
    next_id: i64,
}

impl PublishJobTable {
    pub closed spec fn rows(&self) -> Seq<PublishJob> {
        self.rows@
    }

    pub closed spec fn next_id(&self) -> i64 {
        self.next_id
    }

    /// Ids are assigned in insertion order, start at 1, and stay below the
    /// id the next insertion will take.
    pub open spec fn wf(&self) -> bool {
        &&& 1 <= self.next_id()
        &&& forall|i: int, j: int|
            0 <= i < j < self.rows().len() ==> self.rows()[i].id < self.rows()[j].id
        &&& forall|i: int|
            0 <= i < self.rows().len() ==> 1 <= (#[trigger] self.rows()[i]).id < self.next_id()
    }

    pub fn new() -> (r: Self)
        ensures
            r.wf(),
            r.rows() == Seq::<PublishJob>::empty(),
            r.next_id() == 1,
    {
        PublishJobTable { rows: Vec::new(), next_id: 1 }
    }

    /// Whether an insertion can still be given a fresh id.
    pub fn has_free_id(&self) -> (r: bool)
        ensures
            r == (self.next_id() < i64::MAX),
    {
        self.next_id < i64::MAX
    }

    /// Inserts a new row with the next free id; omitted payload fields take
    /// the column defaults, and the timestamps default to the clock.
    pub fn save_at(&mut self, data: PublishJobData, now: u64) -> (id: i64)
        requires
            old(self).wf(),
            old(self).next_id() < i64::MAX,
            data.material is Some,
            data.account is Some,
        ensures
            final(self).wf(),
            id == old(self).next_id(),
            final(self).rows() == old(self).rows().push(new_publish_job_row(data, id, now)),
            final(self).next_id() == old(self).next_id() + 1,
    {
        let id = self.next_id;
        let material = match data.material {
            Some(m) => m,
            None => String::new(),
        };
        let account = match data.account {
            Some(a) => a,
            None => String::new(),
        };
        let row = PublishJob {
            id: id,
            group_id: match data.group_id {
                Some(g) => g,
                None => 0,
            },
            material: material,
            account: account,
            title: data.title,
            tags: data.tags,
            status: match data.status {
                Some(s) => s,
                None => JobStatus::Pending,
            },
            start_time: match data.start_time {
                Some(t) => t,
                None => now,
            },
            end_time: now,
            publish_type: match data.publish_type {
                Some(t) => t,
                None => 1,
            },
            product_link: data.product_link,
            create_time: now,
        };
        self.rows.push(row);
        self.next_id = id + 1;
        id
    }

    /// Sets the status of the row the payload names; other rows are
    /// untouched, and an id the table does not hold is a no-op.
    pub fn update(&mut self, id: i64, status: JobStatus)
        requires
            old(self).wf(),
        ensures
            final(self).wf(),
            final(self).next_id() == old(self).next_id(),
            final(self).rows().len() == old(self).rows().len(),
            forall|i: int|
                0 <= i < old(self).rows().len() ==> final(self).rows()[i] == status_set(
                    #[trigger] old(self).rows()[i],
                    id,
                    status,
                ),
    {
        let n = self.rows.len();
        let mut i: usize = 0;
        while i < n
            invariant
                old(self).wf(),
                n == old(self).rows().len(),
                self.rows@.len() == n,
                self.next_id == old(self).next_id(),
                i <= n,
                forall|k: int| i <= k < n ==> self.rows@[k] == old(self).rows()[k],
                forall|k: int|
                    0 <= k < i ==> self.rows@[k] == status_set(
                        #[trigger] old(self).rows()[k],
                        id,
                        status,
                    ),
            decreases n - i,
        {
            if self.rows[i].id == id {
                let old_row = self.rows.remove(i);
                self.rows.insert(i, PublishJob { status: status, ..old_row });
            }
            i += 1;
        }
        proof {
            assert forall|a: int, b: int|
                0 <= a < b < self.rows@.len() implies (#[trigger] self.rows@[a]).id
                < (#[trigger] self.rows@[b]).id by {
                assert(self.rows@[a] == status_set(old(self).rows()[a], id, status));
                assert(self.rows@[b] == status_set(old(self).rows()[b], id, status));
            }
            assert forall|a: int|
                0 <= a < self.rows@.len() implies 1 <= (#[trigger] self.rows@[a]).id
                < self.next_id by {
                assert(self.rows@[a] == status_set(old(self).rows()[a], id, status));
            }
        }
    }

    /// The most recent 200 rows, newest first.
    pub fn list_all(&self) -> (r: Vec<PublishJob>)
        ensures
            r@ == publish_list_all_spec(self.rows()),
    {
        let n = self.rows.len();
        let mut out: Vec<PublishJob> = Vec::new();
        let mut i: usize = n;
        while i > 0 && out.len() < 200
            invariant
                n == self.rows().len(),
                i <= n,
                out@.len() == n - i,
                n - i <= 200,
                forall|k: int|
                    0 <= k < out@.len() ==> out@[k] == self.rows()[n - 1 - k],
            decreases i,
        {
            i -= 1;
            out.push(self.rows[i].clone());
        }
        proof {
            assert(out@ =~= publish_list_all_spec(self.rows()));
        }
        out
    }

    /// Removes the row with the given id, keeping every other row.
    pub fn del(&mut self, id: i64)
        requires
            old(self).wf(),
        ensures
            final(self).wf(),
            final(self).next_id() == old(self).next_id(),
            final(self).rows() == old(self).rows().filter(keeps_other_publish_jobs(id)),
    {
        let ghost p = keeps_other_publish_jobs(id);
        let n = self.rows.len();
        let mut out: Vec<PublishJob> = Vec::new();
        let mut i: usize = 0;
        proof {
            assert(self.rows().take(0) =~= Seq::<PublishJob>::empty());
            assert(Seq::<PublishJob>::empty().filter(p) =~= Seq::<PublishJob>::empty());
        }
        while i < n
            invariant
                old(self).wf(),
                n == old(self).rows().len(),
                *self == *old(self),
                p == keeps_other_publish_jobs(id),
                i <= n,
                out@ == old(self).rows().take(i as int).filter(p),
            decreases n - i,
        {
            let row = &self.rows[i];
            proof {
                let pre = self.rows().take(i as int);
                let elem = self.rows()[i as int];
                pre.lemma_filter_push(elem, p);
                assert(pre.push(elem) =~= self.rows().take(i as int + 1));
            }
            if row.id != id {
                out.push(row.clone());
            }
            i += 1;
        }
        proof {
            assert(self.rows().take(n as int) =~= self.rows());
            let key = |row: PublishJob| row.id;
            crate::order::lemma_filter_keeps_order(self.rows(), p, key, 1, self.next_id());
            let f = self.rows().filter(p);
            assert forall|k: int|
                0 <= k < f.len() implies 1 <= (#[trigger] f[k]).id < self.next_id() by {
                assert(1 <= key(f[k]) < self.next_id());
            }
            assert forall|a: int, b: int|
                0 <= a < b < f.len() implies (#[trigger] f[a]).id < (#[trigger] f[b]).id by {
                assert(key(f[a]) < key(f[b]));
            }
        }
        self.rows = out;
    }
}

/// The create endpoint's two steps against a given clock reading: insert
/// the job, then mark the consumed material used. Every material row stored
/// under the job's material name takes the flag; no other row of either
/// store changes.
pub fn create_publish_job_at(
    jobs: &mut PublishJobTable,
    materials: &mut MaterialTable,
    data: PublishJobData,
    now: u64,
) -> (id: i64)
    requires
        old(jobs).wf(),
        old(jobs).next_id() < i64::MAX,
        old(materials).wf(),
        data.material is Some,
        data.account is Some,
    ensures
        final(jobs).wf(),
        final(materials).wf(),
        id == old(jobs).next_id(),
        final(jobs).rows() == old(jobs).rows().push(new_publish_job_row(data, id, now)),
        final(jobs).next_id() == old(jobs).next_id() + 1,
        final(materials).next_id() == old(materials).next_id(),
        final(materials).rows().len() == old(materials).rows().len(),
        forall|i: int|
            0 <= i < old(materials).rows().len() ==> final(materials).rows()[i] == used_marked(
                #[trigger] old(materials).rows()[i],
                (data.material->0)@,
                1,
            ),
{
    let material_name = match &data.material {
        Some(m) => m.clone(),
        None => String::new(),
    };
    let id = jobs.save_at(data, now);
    materials.update(&material_name, 1);
    id
}

/// The create endpoint as the router calls it: the clock is read once for
/// the row's timestamps.
pub fn create_publish_job(
    jobs: &mut PublishJobTable,
    materials: &mut MaterialTable,
    data: PublishJobData,
) -> (id: i64)
    requires
        old(jobs).wf(),
        old(jobs).next_id() < i64::MAX,
        old(materials).wf(),
        data.material is Some,
        data.account is Some,
    ensures
        final(jobs).wf(),
        final(materials).wf(),
        id == old(jobs).next_id(),
        final(jobs).next_id() == old(jobs).next_id() + 1,
        exists|now: u64|
            final(jobs).rows() == old(jobs).rows().push(
                #[trigger] new_publish_job_row(data, id, now),
            ),
        final(materials).next_id() == old(materials).next_id(),
        final(materials).rows().len() == old(materials).rows().len(),
        forall|i: int|
            0 <= i < old(materials).rows().len() ==> final(materials).rows()[i] == used_marked(
                #[trigger] old(materials).rows()[i],
                (data.material->0)@,
                1,
            ),
{
    let now = now_seconds();
    create_publish_job_at(jobs, materials, data, now)
}

} // verus!
