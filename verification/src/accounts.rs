//! The account store: one row per registered account, keyed by an
//! auto-assigned id. Train and publish jobs refer to accounts, and an
//! account names the device that owns it by the device's serial.

use vstd::prelude::*;

use crate::devices::{device_with_serial, Device, DeviceTable};
use crate::groups::{group_with_id, Group, GroupTable};

verus! {

pub struct Account {
    pub id: i64,
    pub group_id: i64,
    pub email: String,
    pub pwd: String,
    pub fans: i64,
    pub shop_creator: bool,
    /// Serial of the device that owns the account, if one does.
    pub device: Option<String>,
    pub username: String,
    pub register_time: u64,
    pub last_login_time: u64,
}

impl Clone for Account {
    fn clone(&self) -> (r: Self)
        ensures
            r == *self,
    {
        Account {
            id: self.id,
            group_id: self.group_id,
            email: self.email.clone(),
            pwd: self.pwd.clone(),
            fans: self.fans,
            shop_creator: self.shop_creator,
            device: match &self.device {
                Some(d) => Some(d.clone()),
                None => None,
            },
            username: self.username.clone(),
            register_time: self.register_time,
            last_login_time: self.last_login_time,
        }
    }
}

/// A create payload: fields the caller may omit fall back to the column
/// defaults (`group_id` to 0, the timestamps to the current time).
pub struct NewAccount {
    pub group_id: Option<i64>,
    pub email: String,
    pub pwd: String,
    pub fans: i64,
    pub shop_creator: bool,
    pub device: Option<String>,
    pub username: String,
}

/// The first row carrying the given id, if any.
pub open spec fn account_with_id(rows: Seq<Account>, id: i64) -> Option<Account>
    decreases rows.len(),
{
    if rows.len() == 0 {
        None
    } else if rows[0].id == id {
        Some(rows[0])
    } else {
        account_with_id(rows.drop_first(), id)
    }
}

pub open spec fn new_account_row(data: NewAccount, id: i64, now: u64) -> Account {
    Account {
        id: id,
        group_id: match data.group_id {
            Some(g) => g,
            None => 0,
        },
        email: data.email,
        pwd: data.pwd,
        fans: data.fans,
        shop_creator: data.shop_creator,
        device: data.device,
        username: data.username,
        register_time: now,
        last_login_time: now,
    }
}

/// Whether an account is owned by the device with the given serial.
pub open spec fn owned_by_device(a: Account, device: Seq<char>) -> bool {
    match a.device {
        Some(d) => d@ == device,
        None => false,
    }
}

pub open spec fn owned_by_device_fn(device: Seq<char>) -> spec_fn(Account) -> bool {
    |a: Account| owned_by_device(a, device)
}

/// Whether an account is due automatic training under the polling agent:
/// its group carries the auto-train flag, and its device is online and
/// managed by that agent.
pub open spec fn auto_train_selected(
    a: Account,
    groups: Seq<Group>,
    devices: Seq<Device>,
    agent_ip: Seq<char>,
) -> bool {
    &&& match group_with_id(groups, a.group_id) {
        Some(g) => g.auto_train,
        None => false,
    }
    &&& match a.device {
        Some(serial) => match device_with_serial(devices, serial@) {
            Some(d) => d.online && d.agent_ip@ == agent_ip,
            None => false,
        },
        None => false,
    }
}

pub open spec fn auto_train_fn(
    groups: Seq<Group>,
    devices: Seq<Device>,
    agent_ip: Seq<char>,
) -> spec_fn(Account) -> bool {
    |a: Account| auto_train_selected(a, groups, devices, agent_ip)
}

pub struct AccountTable {
    rows: Vec<Account>,
    next_id: i64,
}

impl AccountTable {
    pub closed spec fn rows(&self) -> Seq<Account> {
        self.rows@
    }

    pub closed spec fn next_id(&self) -> i64 {
        self.next_id
    }

    /// Ids are assigned in insertion order, start at 1, and stay below the
    /// id the next insertion will take.
    pub open spec fn wf(&self) -> bool {
        &&& 1 <= self.next_id()
        &&& forall|i: int, j: int|
            0 <= i < j < self.rows().len() ==> self.rows()[i].id < self.rows()[j].id
        &&& forall|i: int|
            0 <= i < self.rows().len() ==> 1 <= (#[trigger] self.rows()[i]).id < self.next_id()
    }

    pub fn new() -> (r: Self)
        ensures
            r.wf(),
            r.rows() == Seq::<Account>::empty(),
            r.next_id() == 1,
    {
        AccountTable { rows: Vec::new(), next_id: 1 }
    }

    /// Whether an insertion can still be given a fresh id.
    pub fn has_free_id(&self) -> (r: bool)
        ensures
            r == (self.next_id() < i64::MAX),
    {
        self.next_id < i64::MAX
    }

    /// Inserts a new row with the next free id; omitted payload fields take
    /// their defaults.
    pub fn save(&mut self, data: NewAccount, now: u64) -> (id: i64)
        requires
            old(self).wf(),
            old(self).next_id() < i64::MAX,
        ensures
            final(self).wf(),
            id == old(self).next_id(),
            final(self).rows() == old(self).rows().push(new_account_row(data, id, now)),
            final(self).next_id() == old(self).next_id() + 1,
    {
        let id = self.next_id;
        let row = Account {
            id: id,
            group_id: match data.group_id {
                Some(g) => g,
                None => 0,
            },
            email: data.email,
            pwd: data.pwd,
            fans: data.fans,
            shop_creator: data.shop_creator,
            device: data.device,
            username: data.username,
            register_time: now,
            last_login_time: now,
        };
        self.rows.push(row);
        self.next_id = id + 1;
        id
    }

    /// The accounts owned by the device with the given serial, in stored
    /// (id) order.
    pub fn list_account_by_device(&self, device: &String) -> (r: Vec<Account>)
        ensures
            r@ == self.rows().filter(owned_by_device_fn(device@)),
    {
        let ghost p = owned_by_device_fn(device@);
        let n = self.rows.len();
        let mut out: Vec<Account> = Vec::new();
        let mut i: usize = 0;
        proof {
            assert(self.rows().take(0) =~= Seq::<Account>::empty());
            assert(Seq::<Account>::empty().filter(p) =~= Seq::<Account>::empty());
        }
        while i < n
            invariant
                n == self.rows().len(),
                i <= n,
                p == owned_by_device_fn(device@),
                out@ == self.rows().take(i as int).filter(p),
            decreases n - i,
        {
            let row = &self.rows[i];
            let selected = match &row.device {
                Some(d) => *d == *device,
                None => false,
            };
            proof {
                let pre = self.rows().take(i as int);
                let elem = self.rows()[i as int];
                assert(selected == p(elem));
                pre.lemma_filter_push(elem, p);
                assert(pre.push(elem) =~= self.rows().take(i as int + 1));
            }
            if selected {
                out.push(row.clone());
            }
            i += 1;
        }
        proof {
            assert(self.rows().take(n as int) =~= self.rows());
        }
        out
    }

    /// The accounts an agent should train automatically: those whose group
    /// has the auto-train flag and whose device is online under the agent,
    /// in stored (id) order.
    pub fn list_auto_train_account_by_agent_ip(
        &self,
        agent_ip: &String,
        groups: &GroupTable,
        devices: &DeviceTable,
    ) -> (r: Vec<Account>)
        ensures
            r@ == self.rows().filter(auto_train_fn(groups.rows(), devices.rows(), agent_ip@)),
    {
        let ghost p = auto_train_fn(groups.rows(), devices.rows(), agent_ip@);
        let n = self.rows.len();
        let mut out: Vec<Account> = Vec::new();
        let mut i: usize = 0;
        proof {
            assert(self.rows().take(0) =~= Seq::<Account>::empty());
            assert(Seq::<Account>::empty().filter(p) =~= Seq::<Account>::empty());
        }
        while i < n
            invariant
                n == self.rows().len(),
                i <= n,
                p == auto_train_fn(groups.rows(), devices.rows(), agent_ip@),
                out@ == self.rows().take(i as int).filter(p),
            decreases n - i,
        {
            let row = &self.rows[i];
            let mut selected = false;
            let in_auto_group = match groups.find(row.group_id) {
                Some(g) => g.auto_train,
                None => false,
            };
            if in_auto_group {
                match &row.device {
                    Some(serial) => match devices.find_by_serial(serial) {
                        Some(d) => {
                            selected = d.online && d.agent_ip == *agent_ip;
                        },
                        None => {},
                    },
                    None => {},
                }
            }
            proof {
                let pre = self.rows().take(i as int);
                let elem = self.rows()[i as int];
                assert(selected == p(elem));
                pre.lemma_filter_push(elem, p);
                assert(pre.push(elem) =~= self.rows().take(i as int + 1));
            }
            if selected {
                out.push(row.clone());
            }
            i += 1;
        }
        proof {
            assert(self.rows().take(n as int) =~= self.rows());
        }
        out
    }

    /// The row with the given id, if the table has one.
    pub fn find(&self, id: i64) -> (r: Option<&Account>)
        ensures
            match r {
                Some(a) => account_with_id(self.rows(), id) == Some(*a),
                None => account_with_id(self.rows(), id) is None,
            },
    {
        let n = self.rows.len();
        let mut i: usize = 0;
        proof {
            assert(self.rows().skip(0) =~= self.rows());
        }
        while i < n
            invariant
                n == self.rows().len(),
                i <= n,
                account_with_id(self.rows(), id) == account_with_id(self.rows().skip(i as int), id),
            decreases n - i,
        {
            proof {
                assert(self.rows().skip(i as int).drop_first() =~= self.rows().skip(i as int + 1));
            }
            if self.rows[i].id == id {
                return Some(&self.rows[i]);
            }
            i += 1;
        }
        proof {
            assert(self.rows().skip(n as int) =~= Seq::<Account>::empty());
        }
        None
    }
}

} // verus!
