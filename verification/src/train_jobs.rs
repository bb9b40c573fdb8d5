//! The train-job store: units of scheduled account-warming work. A job is
//! created pending, picked up by the agent of the online device that owns
//! its account, and ends completed or failed; failed jobs can be reset to
//! pending in bulk, and a bulk clear also resets the id counter.

use vstd::prelude::*;

use crate::accounts::{account_with_id, Account, AccountTable};
use crate::clock::{day_of, day_of_spec, now_seconds};
use crate::devices::{device_with_serial, Device, DeviceTable};
use crate::order::lemma_filter_keeps_order;
use crate::status::JobStatus;
use crate::{or_i64, or_u64};

verus! {

#[derive(Clone, Copy, PartialEq, Eq, Structural, Debug)]
pub struct TrainJob {
    pub id: i64,
    pub group_id: i64,
    pub account_id: i64,
    pub like_probable: i64,
    pub floow_probable: i64,
    pub collect_probable: i64,
    pub status: JobStatus,
    pub start_time: u64,
    pub end_time: u64,
    pub create_time: u64,
}

/// A create or update payload; omitted fields fall back to the column
/// defaults on create, and `id` names the row on update.
pub struct TrainJobData {
    pub id: Option<i64>,
    pub group_id: Option<i64>,
    pub account_id: i64,
    pub like_probable: Option<i64>,
    pub floow_probable: Option<i64>,
    pub collect_probable: Option<i64>,
    pub status: Option<JobStatus>,
    pub start_time: Option<u64>,
}

/// A listing row: the job joined with its account's device serial and
/// username for display; both are absent when the account is unknown.
#[derive(Debug)]
pub struct TrainJobDetails {
    pub id: i64,
    pub group_id: i64,
    pub account_id: i64,
    pub like_probable: i64,
    pub floow_probable: i64,
    pub collect_probable: i64,
    pub status: JobStatus,
    pub start_time: u64,
    pub end_time: u64,
    pub device: Option<String>,
    pub username: Option<String>,
}

/// One line of the per-status dashboard count.
#[derive(Clone, Copy, PartialEq, Eq, Structural, Debug)]
pub struct CountGroupByStatus {
    pub status: i64,
    pub count: u64,
}

/// The row a create payload becomes under a given id and clock reading.
pub open spec fn new_train_job_row(data: TrainJobData, id: i64, now: u64) -> TrainJob {
    TrainJob {
        id: id,
        group_id: or_i64(data.group_id, 0),
        account_id: data.account_id,
        like_probable: or_i64(data.like_probable, 0),
        floow_probable: or_i64(data.floow_probable, 0),
        collect_probable: or_i64(data.collect_probable, 0),
        status: match data.status {
            Some(s) => s,
            None => JobStatus::Pending,
        },
        start_time: or_u64(data.start_time, now),
        end_time: now,
        create_time: now,
    }
}

/// What an update makes of one stored row: the row named by the payload
/// takes the new status, and completion stamps its end time with the clock
/// reading; every other row is untouched.
pub open spec fn updated_train_job_row(
    row: TrainJob,
    id: Option<i64>,
    status: JobStatus,
    now: u64,
) -> TrainJob {
    if id == Some(row.id) {
        TrainJob {
            status: status,
            end_time: if status == JobStatus::Completed {
                now
            } else {
                row.end_time
            },
            ..row
        }
    } else {
        row
    }
}

/// The rows a delete keeps: every row but the named one.
pub open spec fn keeps_other_rows(id: i64) -> spec_fn(TrainJob) -> bool {
    |row: TrainJob| row.id != id
}

/// What an update makes of the whole table.
pub open spec fn updated_rows(
    rows: Seq<TrainJob>,
    id: Option<i64>,
    status: JobStatus,
    now: u64,
) -> Seq<TrainJob> {
    rows.map_values(|row: TrainJob| updated_train_job_row(row, id, status, now))
}

/// What the bulk retry makes of one stored row: failed becomes pending,
/// everything else is untouched.
pub open spec fn retried_row(row: TrainJob) -> TrainJob {
    if row.status == JobStatus::Failed {
        TrainJob { status: JobStatus::Pending, ..row }
    } else {
        row
    }
}

/// The display join of one row against the account store.
pub open spec fn detail_of(row: TrainJob, accounts: Seq<Account>) -> TrainJobDetails {
    TrainJobDetails {
        id: row.id,
        group_id: row.group_id,
        account_id: row.account_id,
        like_probable: row.like_probable,
        floow_probable: row.floow_probable,
        collect_probable: row.collect_probable,
        status: row.status,
        start_time: row.start_time,
        end_time: row.end_time,
        device: match account_with_id(accounts, row.account_id) {
            Some(a) => a.device,
            None => None,
        },
        username: match account_with_id(accounts, row.account_id) {
            Some(a) => Some(a.username),
            None => None,
        },
    }
}

pub open spec fn detail_fn(accounts: Seq<Account>) -> spec_fn(TrainJob) -> TrainJobDetails {
    |row: TrainJob| detail_of(row, accounts)
}

/// What the full listing shows: the most recent 200 rows, newest first,
/// each joined for display.
pub open spec fn list_all_spec(rows: Seq<TrainJob>, accounts: Seq<Account>) -> Seq<
    TrainJobDetails,
> {
    Seq::new(
        if rows.len() < 200 {
            rows.len()
        } else {
            200
        },
        |k: int| detail_of(rows[rows.len() - 1 - k], accounts),
    )
}

/// Whether a row is work for the polling agent: still pending, due by the
/// given clock reading, and owned (through its account) by an online device
/// whose agent is the caller.
pub open spec fn runnable(
    row: TrainJob,
    accounts: Seq<Account>,
    devices: Seq<Device>,
    agent_ip: Seq<char>,
    now: u64,
) -> bool {
    &&& row.status == JobStatus::Pending
    &&& row.start_time <= now
    &&& match account_with_id(accounts, row.account_id) {
        Some(a) => match a.device {
            Some(serial) => match device_with_serial(devices, serial@) {
                Some(d) => d.online && d.agent_ip@ == agent_ip,
                None => false,
            },
            None => false,
        },
        None => false,
    }
}

pub open spec fn runnable_pred(
    accounts: Seq<Account>,
    devices: Seq<Device>,
    agent_ip: Seq<char>,
    now: u64,
) -> spec_fn(TrainJob) -> bool {
    |row: TrainJob| runnable(row, accounts, devices, agent_ip, now)
}

/// What the runnable listing shows: the runnable rows in stored (id) order,
/// each joined for display.
pub open spec fn runable_spec(
    rows: Seq<TrainJob>,
    accounts: Seq<Account>,
    devices: Seq<Device>,
    agent_ip: Seq<char>,
    now: u64,
) -> Seq<TrainJobDetails> {
    rows.filter(runnable_pred(accounts, devices, agent_ip, now)).map_values(detail_fn(accounts))
}

/// Whether a row counts against an account's schedule slot on a day.
pub open spec fn account_slot_pred(account_id: i64, start_time: u64, day: u64) -> spec_fn(
    TrainJob,
) -> bool {
    |row: TrainJob|
        row.account_id == account_id && row.start_time == start_time && day_of_spec(
            row.create_time,
        ) == day
}

pub open spec fn count_with_status(rows: Seq<TrainJob>, s: JobStatus) -> nat {
    rows.filter(|row: TrainJob| row.status == s).len()
}

/// One dashboard line per status that has rows, in code order.
pub open spec fn status_entry(rows: Seq<TrainJob>, s: JobStatus) -> Seq<CountGroupByStatus> {
    if count_with_status(rows, s) > 0 {
        seq![CountGroupByStatus { status: s.code_spec(), count: count_with_status(rows, s) as u64 }]
    } else {
        Seq::empty()
    }
}

pub open spec fn status_counts_spec(rows: Seq<TrainJob>) -> Seq<CountGroupByStatus> {
    status_entry(rows, JobStatus::Pending) + status_entry(rows, JobStatus::Running)
        + status_entry(rows, JobStatus::Completed) + status_entry(rows, JobStatus::Failed)
}

pub struct TrainJobTable {
    rows: Vec<TrainJob>,
    next_id: i64,
}

impl TrainJobTable {
    pub closed spec fn rows(&self) -> Seq<TrainJob> {
        self.rows@
    }

    pub closed spec fn next_id(&self) -> i64 {
        self.next_id
    }

    /// Ids are assigned in insertion order, start at 1, and stay below the
    /// id the next insertion will take.
    pub open spec fn wf(&self) -> bool {
        &&& 1 <= self.next_id()
        &&& forall|i: int, j: int|
            0 <= i < j < self.rows().len() ==> self.rows()[i].id < self.rows()[j].id
        &&& forall|i: int|
            0 <= i < self.rows().len() ==> 1 <= (#[trigger] self.rows()[i]).id < self.next_id()
    }

    pub fn new() -> (r: Self)
        ensures
            r.wf(),
            r.rows() == Seq::<TrainJob>::empty(),
            r.next_id() == 1,
    {
        TrainJobTable { rows: Vec::new(), next_id: 1 }
    }

    /// Whether an insertion can still be given a fresh id.
    pub fn has_free_id(&self) -> (r: bool)
        ensures
            r == (self.next_id() < i64::MAX),
    {
        self.next_id < i64::MAX
    }

    /// Inserts a new row with the next free id; omitted payload fields take
    /// the column defaults, and the timestamps default to the clock.
    pub fn save(&mut self, data: &TrainJobData) -> (id: i64)
        requires
            old(self).wf(),
            old(self).next_id() < i64::MAX,
        ensures
            final(self).wf(),
            id == old(self).next_id(),
            exists|now: u64|
                final(self).rows() == old(self).rows().push(
                    #[trigger] new_train_job_row(*data, id, now),
                ),
            final(self).next_id() == old(self).next_id() + 1,
    {
        let now = now_seconds();
        self.save_at(data, now)
    }

    /// The insertion itself, against a given clock reading.
    pub fn save_at(&mut self, data: &TrainJobData, now: u64) -> (id: i64)
        requires
            old(self).wf(),
            old(self).next_id() < i64::MAX,
        ensures
            final(self).wf(),
            id == old(self).next_id(),
            final(self).rows() == old(self).rows().push(new_train_job_row(*data, id, now)),
            final(self).next_id() == old(self).next_id() + 1,
    {
        let id = self.next_id;
        let row = TrainJob {
            id: id,
            group_id: match data.group_id {
                Some(g) => g,
                None => 0,
            },
            account_id: data.account_id,
            like_probable: match data.like_probable {
                Some(v) => v,
                None => 0,
            },
            floow_probable: match data.floow_probable {
                Some(v) => v,
                None => 0,
            },
            collect_probable: match data.collect_probable {
                Some(v) => v,
                None => 0,
            },
            status: match data.status {
                Some(s) => s,
                None => JobStatus::Pending,
            },
            start_time: match data.start_time {
                Some(t) => t,
                None => now,
            },
            end_time: now,
            create_time: now,
        };
        self.rows.push(row);
        self.next_id = id + 1;
        id
    }

    /// Sets the status of the row the payload names; completing it stamps
    /// the end time with the clock. Other rows are untouched, and a payload
    /// that names no stored row (or no row at all) is a no-op.
    pub fn update(&mut self, data: &TrainJobData)
        requires
            old(self).wf(),
            data.status is Some,
        ensures
            final(self).wf(),
            final(self).next_id() == old(self).next_id(),
            final(self).rows().len() == old(self).rows().len(),
            exists|now: u64|
                final(self).rows() == #[trigger] updated_rows(
                    old(self).rows(),
                    data.id,
                    data.status->0,
                    now,
                ),
    {
        let now = now_seconds();
        self.update_at(data, now);
    }

    /// The update itself, against a given clock reading.
    pub fn update_at(&mut self, data: &TrainJobData, now: u64)
        requires
            old(self).wf(),
            data.status is Some,
        ensures
            final(self).wf(),
            final(self).next_id() == old(self).next_id(),
            final(self).rows().len() == old(self).rows().len(),
            final(self).rows() == updated_rows(old(self).rows(), data.id, data.status->0, now),
    {
        let status = match data.status {
            Some(s) => s,
            None => JobStatus::Pending,
        };
        let n = self.rows.len();
        let mut i: usize = 0;
        while i < n
            invariant
                old(self).wf(),
                n == old(self).rows().len(),
                self.rows@.len() == n,
                self.next_id == old(self).next_id(),
                status == data.status->0,
                i <= n,
                forall|k: int| i <= k < n ==> self.rows@[k] == old(self).rows()[k],
                forall|k: int|
                    0 <= k < i ==> self.rows@[k] == updated_train_job_row(
                        #[trigger] old(self).rows()[k],
                        data.id,
                        status,
                        now,
                    ),
            decreases n - i,
        {
            let hit = match data.id {
                Some(v) => self.rows[i].id == v,
                None => false,
            };
            if hit {
                let old_row = self.rows.remove(i);
                self.rows.insert(
                    i,
                    TrainJob {
                        status: status,
                        end_time: if status == JobStatus::Completed {
                            now
                        } else {
                            old_row.end_time
                        },
                        ..old_row
                    },
                );
            }
            i += 1;
        }
        proof {
            assert(self.rows@ =~= updated_rows(old(self).rows(), data.id, data.status->0, now));
        }
    }

    /// Removes the row with the given id, keeping every other row.
    pub fn del(&mut self, id: i64)
        requires
            old(self).wf(),
        ensures
            final(self).wf(),
            final(self).next_id() == old(self).next_id(),
            final(self).rows() == old(self).rows().filter(keeps_other_rows(id)),
    {
        let ghost p = keeps_other_rows(id);
        let n = self.rows.len();
        let mut out: Vec<TrainJob> = Vec::new();
        let mut i: usize = 0;
        proof {
            assert(self.rows().take(0) =~= Seq::<TrainJob>::empty());
            assert(Seq::<TrainJob>::empty().filter(p) =~= Seq::<TrainJob>::empty());
        }
        while i < n
            invariant
                old(self).wf(),
                n == old(self).rows().len(),
                *self == *old(self),
                p == keeps_other_rows(id),
                i <= n,
                out@ == old(self).rows().take(i as int).filter(p),
            decreases n - i,
        {
            let row = self.rows[i];
            proof {
                let pre = self.rows().take(i as int);
                let elem = self.rows()[i as int];
                pre.lemma_filter_push(elem, p);
                assert(pre.push(elem) =~= self.rows().take(i as int + 1));
            }
            if row.id != id {
                out.push(row);
            }
            i += 1;
        }
        proof {
            assert(self.rows().take(n as int) =~= self.rows());
            let key = |row: TrainJob| row.id;
            lemma_filter_keeps_order(self.rows(), p, key, 1, self.next_id());
            let f = self.rows().filter(p);
            assert forall|k: int|
                0 <= k < f.len() implies 1 <= (#[trigger] f[k]).id < self.next_id() by {
                assert(1 <= key(f[k]) < self.next_id());
            }
            assert forall|a: int, b: int|
                0 <= a < b < f.len() implies (#[trigger] f[a]).id < (#[trigger] f[b]).id by {
                assert(key(f[a]) < key(f[b]));
            }
        }
        self.rows = out;
    }

    /// The rows the polling agent should run, in stored (id) order, joined
    /// for display; the clock is read once for the due-time comparison.
    pub fn list_runable(
        &self,
        agent_ip: &String,
        accounts: &AccountTable,
        devices: &DeviceTable,
    ) -> (r: Vec<TrainJobDetails>)
        ensures
            exists|now: u64|
                r@ == #[trigger] runable_spec(
                    self.rows(),
                    accounts.rows(),
                    devices.rows(),
                    agent_ip@,
                    now,
                ),
    {
        let now = now_seconds();
        self.list_runable_at(agent_ip, accounts, devices, now)
    }

    /// The runnable listing itself, against a given clock reading.
    pub fn list_runable_at(
        &self,
        agent_ip: &String,
        accounts: &AccountTable,
        devices: &DeviceTable,
        now: u64,
    ) -> (r: Vec<TrainJobDetails>)
        ensures
            r@ == runable_spec(self.rows(), accounts.rows(), devices.rows(), agent_ip@, now),
    {
        let n = self.rows.len();
        let mut out: Vec<TrainJobDetails> = Vec::new();
        let mut i: usize = 0;
        let ghost p = runnable_pred(accounts.rows(), devices.rows(), agent_ip@, now);
        let ghost det = detail_fn(accounts.rows());
        proof {
            assert(self.rows().take(0) =~= Seq::<TrainJob>::empty());
            assert(Seq::<TrainJob>::empty().filter(p) =~= Seq::<TrainJob>::empty());
            assert(Seq::<TrainJob>::empty().filter(p).map_values(det) =~= Seq::<
                TrainJobDetails,
            >::empty());
        }
        while i < n
            invariant
                n == self.rows().len(),
                i <= n,
                p == runnable_pred(accounts.rows(), devices.rows(), agent_ip@, now),
                det == detail_fn(accounts.rows()),
                out@ == self.rows().take(i as int).filter(p).map_values(det),
            decreases n - i,
        {
            let row = &self.rows[i];
            let mut ok = false;
            if (match row.status {
                JobStatus::Pending => true,
                _ => false,
            }) && row.start_time <= now {
                match accounts.find(row.account_id) {
                    Some(a) => match &a.device {
                        Some(serial) => match devices.find_by_serial(serial) {
                            Some(d) => {
                                ok = d.online && d.agent_ip == *agent_ip;
                            },
                            None => {},
                        },
                        None => {},
                    },
                    None => {},
                }
            }
            proof {
                let pre = self.rows().take(i as int);
                let elem = self.rows()[i as int];
                assert(ok == p(elem));
                pre.lemma_filter_push(elem, p);
                assert(pre.push(elem) =~= self.rows().take(i as int + 1));
                assert(pre.push(elem).filter(p).map_values(det) =~= if p(elem) {
                    pre.filter(p).map_values(det).push(det(elem))
                } else {
                    pre.filter(p).map_values(det)
                });
            }
            if ok {
                let d = detail_row(row, accounts);
                out.push(d);
            }
            i += 1;
        }
        proof {
            assert(self.rows().take(n as int) =~= self.rows());
        }
        out
    }

    /// The most recent 200 rows, newest first, joined for display.
    pub fn list_all(&self, accounts: &AccountTable) -> (r: Vec<TrainJobDetails>)
        ensures
            r@ == list_all_spec(self.rows(), accounts.rows()),
    {
        let n = self.rows.len();
        let mut out: Vec<TrainJobDetails> = Vec::new();
        let mut i: usize = n;
        while i > 0 && out.len() < 200
            invariant
                n == self.rows().len(),
                i <= n,
                out@.len() == n - i,
                n - i <= 200,
                forall|k: int|
                    0 <= k < out@.len() ==> out@[k] == detail_of(
                        self.rows()[n - 1 - k],
                        accounts.rows(),
                    ),
            decreases i,
        {
            i -= 1;
            let d = detail_row(&self.rows[i], accounts);
            out.push(d);
        }
        proof {
            assert(out@ =~= list_all_spec(self.rows(), accounts.rows()));
        }
        out
    }

    /// How many rows fill a given schedule slot of an account on the
    /// calendar day of the call.
    pub fn count_job_by_account_today(&self, account_id: i64, start_time: u64) -> (r: u64)
        ensures
            exists|day: u64|
                r == #[trigger] self.count_on_day_spec(account_id, start_time, day),
    {
        let now = now_seconds();
        self.count_job_by_account_on_day(account_id, start_time, day_of(now))
    }

    pub open spec fn count_on_day_spec(&self, account_id: i64, start_time: u64, day: u64) -> u64 {
        self.rows().filter(account_slot_pred(account_id, start_time, day)).len() as u64
    }

    /// The slot count itself, against a given calendar day.
    pub fn count_job_by_account_on_day(&self, account_id: i64, start_time: u64, day: u64) -> (r:
        u64)
        ensures
            r == self.count_on_day_spec(account_id, start_time, day),
    {
        let ghost p = account_slot_pred(account_id, start_time, day);
        let n = self.rows.len();
        let mut count: u64 = 0;
        let mut i: usize = 0;
        proof {
            assert(self.rows().take(0) =~= Seq::<TrainJob>::empty());
            assert(Seq::<TrainJob>::empty().filter(p) =~= Seq::<TrainJob>::empty());
        }
        while i < n
            invariant
                n == self.rows().len(),
                i <= n,
                p == account_slot_pred(account_id, start_time, day),
                count == self.rows().take(i as int).filter(p).len(),
                count <= i,
            decreases n - i,
        {
            let row = &self.rows[i];
            let hit = row.account_id == account_id && row.start_time == start_time && day_of(
                row.create_time,
            ) == day;
            proof {
                let pre = self.rows().take(i as int);
                let elem = self.rows()[i as int];
                assert(hit == p(elem));
                pre.lemma_filter_push(elem, p);
                assert(pre.push(elem) =~= self.rows().take(i as int + 1));
            }
            if hit {
                count += 1;
            }
            i += 1;
        }
        proof {
            assert(self.rows().take(n as int) =~= self.rows());
        }
        count
    }

    /// How many rows carry a given status.
    fn count_status(&self, s: JobStatus) -> (r: u64)
        ensures
            r == count_with_status(self.rows(), s),
    {
        let ghost p = |row: TrainJob| row.status == s;
        let n = self.rows.len();
        let mut count: u64 = 0;
        let mut i: usize = 0;
        proof {
            assert(self.rows().take(0) =~= Seq::<TrainJob>::empty());
            assert(Seq::<TrainJob>::empty().filter(p) =~= Seq::<TrainJob>::empty());
        }
        while i < n
            invariant
                n == self.rows().len(),
                i <= n,
                p == (|row: TrainJob| row.status == s),
                count == self.rows().take(i as int).filter(p).len(),
                count <= i,
            decreases n - i,
        {
            let row = &self.rows[i];
            let hit = match (row.status, s) {
                (JobStatus::Pending, JobStatus::Pending) => true,
                (JobStatus::Running, JobStatus::Running) => true,
                (JobStatus::Completed, JobStatus::Completed) => true,
                (JobStatus::Failed, JobStatus::Failed) => true,
                _ => false,
            };
            proof {
                let pre = self.rows().take(i as int);
                let elem = self.rows()[i as int];
                assert(hit == p(elem));
                pre.lemma_filter_push(elem, p);
                assert(pre.push(elem) =~= self.rows().take(i as int + 1));
            }
            if hit {
                count += 1;
            }
            i += 1;
        }
        proof {
            assert(self.rows().take(n as int) =~= self.rows());
        }
        count
    }

    /// The dashboard counts: one line per status that has rows, in status
    /// code order.
    pub fn count_by_status(&self) -> (r: Vec<CountGroupByStatus>)
        ensures
            r@ == status_counts_spec(self.rows()),
    {
        let mut out: Vec<CountGroupByStatus> = Vec::new();
        let c = self.count_status(JobStatus::Pending);
        if c > 0 {
            out.push(CountGroupByStatus { status: 0, count: c });
        }
        let c = self.count_status(JobStatus::Running);
        if c > 0 {
            out.push(CountGroupByStatus { status: 1, count: c });
        }
        let c = self.count_status(JobStatus::Completed);
        if c > 0 {
            out.push(CountGroupByStatus { status: 2, count: c });
        }
        let c = self.count_status(JobStatus::Failed);
        if c > 0 {
            out.push(CountGroupByStatus { status: 3, count: c });
        }
        proof {
            assert(out@ =~= status_counts_spec(self.rows()));
        }
        out
    }

    /// Resets every failed row to pending; no other row changes in any
    /// field, and the failed rows change in nothing but their status.
    pub fn retry_all_failed(&mut self)
        requires
            old(self).wf(),
        ensures
            final(self).wf(),
            final(self).next_id() == old(self).next_id(),
            final(self).rows().len() == old(self).rows().len(),
            forall|i: int|
                0 <= i < old(self).rows().len() ==> final(self).rows()[i] == retried_row(
                    #[trigger] old(self).rows()[i],
                ),
    {
        let n = self.rows.len();
        let mut i: usize = 0;
        while i < n
            invariant
                old(self).wf(),
                n == old(self).rows().len(),
                self.rows@.len() == n,
                self.next_id == old(self).next_id(),
                i <= n,
                forall|k: int| i <= k < n ==> self.rows@[k] == old(self).rows()[k],
                forall|k: int|
                    0 <= k < i ==> self.rows@[k] == retried_row(#[trigger] old(self).rows()[k]),
            decreases n - i,
        {
            let hit = match self.rows[i].status {
                JobStatus::Failed => true,
                _ => false,
            };
            if hit {
                let old_row = self.rows.remove(i);
                self.rows.insert(i, TrainJob { status: JobStatus::Pending, ..old_row });
            }
            i += 1;
        }
        proof {
            assert forall|a: int, b: int|
                0 <= a < b < self.rows@.len() implies (#[trigger] self.rows@[a]).id
                < (#[trigger] self.rows@[b]).id by {
                assert(self.rows@[a] == retried_row(old(self).rows()[a]));
                assert(self.rows@[b] == retried_row(old(self).rows()[b]));
            }
            assert forall|a: int|
                0 <= a < self.rows@.len() implies 1 <= (#[trigger] self.rows@[a]).id
                < self.next_id by {
                assert(self.rows@[a] == retried_row(old(self).rows()[a]));
            }
        }
    }

    /// Empties the table and resets the id counter, so the next saved row
    /// takes id 1 again.
    pub fn delete_all(&mut self)
        ensures
            final(self).wf(),
            final(self).rows() == Seq::<TrainJob>::empty(),
            final(self).next_id() == 1,
    {
        self.rows = Vec::new();
        self.next_id = 1;
    }
}

/// After a save, the listing starts with the saved row: its visible fields
/// equal the payload, defaults applied where the payload was silent
/// (group 0, probabilities 0, status pending, start time the clock).
pub proof fn lemma_saved_job_heads_listing(
    rows: Seq<TrainJob>,
    accounts: Seq<Account>,
    data: TrainJobData,
    id: i64,
    now: u64,
)
    ensures
        ({
            let saved = new_train_job_row(data, id, now);
            let listing = list_all_spec(rows.push(saved), accounts);
            &&& listing.len() > 0
            &&& listing[0] == detail_of(saved, accounts)
            &&& listing[0].id == id
            &&& listing[0].group_id == or_i64(data.group_id, 0)
            &&& listing[0].account_id == data.account_id
            &&& listing[0].like_probable == or_i64(data.like_probable, 0)
            &&& listing[0].floow_probable == or_i64(data.floow_probable, 0)
            &&& listing[0].collect_probable == or_i64(data.collect_probable, 0)
            &&& listing[0].status == (match data.status {
                Some(s) => s,
                None => JobStatus::Pending,
            })
            &&& listing[0].start_time == or_u64(data.start_time, now)
        }),
{
    let saved = new_train_job_row(data, id, now);
    let rows2 = rows.push(saved);
    assert(rows2[rows2.len() - 1] == saved);
}

/// Whether a listing entry is the display join of some stored row that is
/// runnable under the given stores, agent and clock reading.
pub open spec fn listed_runnable_source(
    entry: TrainJobDetails,
    rows: Seq<TrainJob>,
    accounts: Seq<Account>,
    devices: Seq<Device>,
    agent_ip: Seq<char>,
    now: u64,
) -> bool {
    exists|i: int|
        0 <= i < rows.len() && runnable(#[trigger] rows[i], accounts, devices, agent_ip, now)
            && entry == detail_of(rows[i], accounts)
}

/// The runnable listing is sound and complete: every listed row is the
/// display join of a stored row that is pending, due by the given clock
/// reading, and owned through its account by an online device of the
/// polling agent, and every stored row meeting all of those conditions is
/// listed. A row failing any one condition is never listed.
pub proof fn lemma_runable_exact(
    rows: Seq<TrainJob>,
    accounts: Seq<Account>,
    devices: Seq<Device>,
    agent_ip: Seq<char>,
    now: u64,
)
    ensures
        forall|k: int|
            0 <= k < runable_spec(rows, accounts, devices, agent_ip, now).len()
                ==> listed_runnable_source(
                #[trigger] runable_spec(rows, accounts, devices, agent_ip, now)[k],
                rows,
                accounts,
                devices,
                agent_ip,
                now,
            ),
        forall|i: int|
            0 <= i < rows.len() && runnable(#[trigger] rows[i], accounts, devices, agent_ip, now)
                ==> runable_spec(rows, accounts, devices, agent_ip, now).contains(
                detail_of(rows[i], accounts),
            ),
{
    let p = runnable_pred(accounts, devices, agent_ip, now);
    let det = detail_fn(accounts);
    let f = rows.filter(p);
    let listing = runable_spec(rows, accounts, devices, agent_ip, now);
    crate::order::lemma_filter_is_selection(rows, p);
    assert forall|k: int| 0 <= k < listing.len() implies listed_runnable_source(
        listing[k],
        rows,
        accounts,
        devices,
        agent_ip,
        now,
    ) by {
        assert(listing[k] == det(f[k]));
        assert(p(f[k]));
        assert(rows.contains(f[k]));
        let i = choose|i: int| 0 <= i < rows.len() && rows[i] == f[k];
        assert(runnable(rows[i], accounts, devices, agent_ip, now));
        assert(listing[k] == detail_of(rows[i], accounts));
    }
    assert forall|i: int|
        0 <= i < rows.len() && runnable(#[trigger] rows[i], accounts, devices, agent_ip, now)
        implies listing.contains(detail_of(rows[i], accounts)) by {
        rows.lemma_filter_contains(p, i);
        let k = choose|k: int| 0 <= k < f.len() && f[k] == rows[i];
        assert(listing[k] == det(f[k]));
        assert(listing[k] == detail_of(rows[i], accounts));
    }
}

/// Completing a job stamps its end time with the clock reading, which is
/// at or after the job's start time whenever the clock has not run
/// backward past it.
pub proof fn lemma_complete_stamps_end_time(row: TrainJob, now: u64)
    requires
        row.start_time <= now,
    ensures
        updated_train_job_row(row, Some(row.id), JobStatus::Completed, now).end_time == now,
        updated_train_job_row(row, Some(row.id), JobStatus::Completed, now).end_time
            >= updated_train_job_row(row, Some(row.id), JobStatus::Completed, now).start_time,
{
}

/// Setting any status other than completed leaves the end time unchanged.
pub proof fn lemma_other_status_keeps_end_time(
    row: TrainJob,
    id: Option<i64>,
    status: JobStatus,
    now: u64,
)
    requires
        status != JobStatus::Completed,
    ensures
        updated_train_job_row(row, id, status, now).end_time == row.end_time,
{
}

/// A bulk clear resets the id counter, so the row saved next takes id 1
/// and is the table's only row.
pub proof fn lemma_clear_then_save(
    cleared: TrainJobTable,
    saved: TrainJobTable,
    data: TrainJobData,
    now: u64,
    id: i64,
)
    requires
        cleared.rows() == Seq::<TrainJob>::empty(),
        cleared.next_id() == 1,
        id == cleared.next_id(),
        saved.rows() == cleared.rows().push(new_train_job_row(data, id, now)),
    ensures
        id == 1,
        saved.rows().len() == 1,
        saved.rows()[0].id == 1,
{
}

/// Builds the display join of one row against the account store.
fn detail_row(row: &TrainJob, accounts: &AccountTable) -> (d: TrainJobDetails)
    ensures
        d == detail_of(*row, accounts.rows()),
{
    let mut device: Option<String> = None;
    let mut username: Option<String> = None;
    match accounts.find(row.account_id) {
        Some(a) => {
            device = match &a.device {
                Some(s) => Some(s.clone()),
                None => None,
            };
            username = Some(a.username.clone());
        },
        None => {},
    }
    TrainJobDetails {
        id: row.id,
        group_id: row.group_id,
        account_id: row.account_id,
        like_probable: row.like_probable,
        floow_probable: row.floow_probable,
        collect_probable: row.collect_probable,
        status: row.status,
        start_time: row.start_time,
        end_time: row.end_time,
        device: device,
        username: username,
    }
}

} // verus!
