//! The device store: one row per managed handset, keyed by the hardware
//! serial. A heartbeat-style save upserts the row; agent callbacks flip the
//! init stage; command fan-out and the runnable-job queries select devices
//! that are online under a given agent.

use vstd::prelude::*;

verus! {

pub struct Device {
    pub id: i64,
    pub serial: String,
    pub forward_port: i64,
    pub online: bool,
    pub ip: Option<String>,
    /// Address the device's control agent listens on.
    pub agent_ip: String,
    pub master_ip: String,
    pub init: i64,
    pub update_time: u64,
}

impl Clone for Device {
    fn clone(&self) -> (r: Self)
        ensures
            r == *self,
    {
        Device {
            id: self.id,
            serial: self.serial.clone(),
            forward_port: self.forward_port,
            online: self.online,
            ip: match &self.ip {
                Some(v) => Some(v.clone()),
                None => None,
            },
            agent_ip: self.agent_ip.clone(),
            master_ip: self.master_ip.clone(),
            init: self.init,
            update_time: self.update_time,
        }
    }
}

/// A heartbeat payload. A serial seen for the first time creates a row; a
/// known serial refreshes its row in place.
pub struct DeviceHeartbeat {
    pub serial: String,
    pub forward_port: i64,
    pub online: bool,
    pub ip: Option<String>,
    pub agent_ip: String,
    pub master_ip: String,
}

/// Index of the row carrying the given serial, or -1 when no row does.
pub open spec fn serial_index(rows: Seq<Device>, serial: Seq<char>) -> int
    decreases rows.len(),
{
    if rows.len() == 0 {
        -1
    } else if rows[0].serial@ == serial {
        0
    } else {
        let rest = serial_index(rows.drop_first(), serial);
        if rest < 0 {
            -1
        } else {
            rest + 1
        }
    }
}

/// The row carrying the given serial, if any.
pub open spec fn device_with_serial(rows: Seq<Device>, serial: Seq<char>) -> Option<Device>
    decreases rows.len(),
{
    if rows.len() == 0 {
        None
    } else if rows[0].serial@ == serial {
        Some(rows[0])
    } else {
        device_with_serial(rows.drop_first(), serial)
    }
}

pub open spec fn new_device_row(data: DeviceHeartbeat, id: i64, now: u64) -> Device {
    Device {
        id: id,
        serial: data.serial,
        forward_port: data.forward_port,
        online: data.online,
        ip: data.ip,
        agent_ip: data.agent_ip,
        master_ip: data.master_ip,
        init: 0,
        update_time: now,
    }
}

/// A known row refreshed by a heartbeat: id and init stage survive, the
/// reported fields replace the stored ones, and the row is restamped.
pub open spec fn refreshed_device_row(row: Device, data: DeviceHeartbeat, now: u64) -> Device {
    Device {
        id: row.id,
        serial: data.serial,
        forward_port: data.forward_port,
        online: data.online,
        ip: data.ip,
        agent_ip: data.agent_ip,
        master_ip: data.master_ip,
        init: row.init,
        update_time: now,
    }
}

/// Whether a row is selected by the online-device query: it must be online,
/// and must match each filter that is present.
pub open spec fn device_selected(
    row: Device,
    serial: Option<&String>,
    agent_ip: Option<&String>,
) -> bool {
    &&& row.online
    &&& match serial {
        Some(s) => row.serial@ == s@,
        None => true,
    }
    &&& match agent_ip {
        Some(a) => row.agent_ip@ == a@,
        None => true,
    }
}

/// The online-device query's selection, as a predicate on rows.
pub open spec fn selected_by(
    serial: Option<&String>,
    agent_ip: Option<&String>,
) -> spec_fn(Device) -> bool {
    |d: Device| device_selected(d, serial, agent_ip)
}

pub struct DeviceTable {
    rows: Vec<Device>,
    next_id: i64,
}

impl DeviceTable {
    pub closed spec fn rows(&self) -> Seq<Device> {
        self.rows@
    }

    pub closed spec fn next_id(&self) -> i64 {
        self.next_id
    }

    /// Ids are assigned in insertion order and stay below the next free id;
    /// serials are unique, as the upsert keeps them.
    pub open spec fn wf(&self) -> bool {
        &&& 1 <= self.next_id()
        &&& forall|i: int, j: int|
            0 <= i < j < self.rows().len() ==> self.rows()[i].id < self.rows()[j].id
        &&& forall|i: int|
            0 <= i < self.rows().len() ==> 1 <= (#[trigger] self.rows()[i]).id < self.next_id()
        &&& forall|i: int, j: int|
            0 <= i < j < self.rows().len() ==> self.rows()[i].serial@ != self.rows()[j].serial@
    }

    pub fn new() -> (r: Self)
        ensures
            r.wf(),
            r.rows() == Seq::<Device>::empty(),
            r.next_id() == 1,
    {
        DeviceTable { rows: Vec::new(), next_id: 1 }
    }

    /// Whether an insertion can still be given a fresh id.
    pub fn has_free_id(&self) -> (r: bool)
        ensures
            r == (self.next_id() < i64::MAX),
    {
        self.next_id < i64::MAX
    }

    /// Upsert by serial: a new serial is inserted with the next free id and
    /// init stage 0; a known serial has its row refreshed in place.
    pub fn save(&mut self, data: DeviceHeartbeat, now: u64)
        requires
            old(self).wf(),
            old(self).next_id() < i64::MAX,
        ensures
            final(self).wf(),
            ({
                let i = serial_index(old(self).rows(), data.serial@);
                if i >= 0 {
                    final(self).rows() == old(self).rows().update(
                        i,
                        refreshed_device_row(old(self).rows()[i], data, now),
                    ) && final(self).next_id() == old(self).next_id()
                } else {
                    final(self).rows() == old(self).rows().push(
                        new_device_row(data, old(self).next_id(), now),
                    ) && final(self).next_id() == old(self).next_id() + 1
                }
            }),
    {
        let ghost rows0 = self.rows@;
        let n = self.rows.len();
        let mut i: usize = 0;
        proof {
            assert(rows0.skip(0) =~= rows0);
        }
        while i < n
            invariant
                old(self).wf(),
                old(self).next_id() < i64::MAX,
                rows0 == old(self).rows(),
                n == rows0.len(),
                self.rows@ == rows0,
                self.next_id == old(self).next_id(),
                i <= n,
                serial_index(rows0, data.serial@) == {
                    let rest = serial_index(rows0.skip(i as int), data.serial@);
                    if rest < 0 {
                        -1int
                    } else {
                        rest + i
                    }
                },
                forall|k: int| 0 <= k < i ==> rows0[k].serial@ != data.serial@,
            decreases n - i,
        {
            proof {
                assert(rows0.skip(i as int).drop_first() =~= rows0.skip(i as int + 1));
            }
            if self.rows[i].serial == data.serial {
                let old_row = self.rows.remove(i);
                let refreshed = Device {
                    id: old_row.id,
                    serial: data.serial,
                    forward_port: data.forward_port,
                    online: data.online,
                    ip: data.ip,
                    agent_ip: data.agent_ip,
                    master_ip: data.master_ip,
                    init: old_row.init,
                    update_time: now,
                };
                self.rows.insert(i, refreshed);
                proof {
                    assert(serial_index(rows0, data.serial@) == i);
                    assert(self.rows@ =~= rows0.update(
                        i as int,
                        refreshed_device_row(rows0[i as int], data, now),
                    ));
                }
                return ;
            }
            i += 1;
        }
        proof {
            assert(rows0.skip(n as int) =~= Seq::<Device>::empty());
            assert(serial_index(rows0, data.serial@) == -1);
        }
        let id = self.next_id;
        let row = Device {
            id: id,
            serial: data.serial,
            forward_port: data.forward_port,
            online: data.online,
            ip: data.ip,
            agent_ip: data.agent_ip,
            master_ip: data.master_ip,
            init: 0,
            update_time: now,
        };
        self.rows.push(row);
        self.next_id = id + 1;
    }

    /// Sets the init stage of the row carrying the given serial; rows with
    /// other serials are untouched, and a serial the table does not hold is
    /// a no-op.
    pub fn update_init(&mut self, serial: &String, init: i64)
        requires
            old(self).wf(),
        ensures
            final(self).wf(),
            final(self).next_id() == old(self).next_id(),
            final(self).rows().len() == old(self).rows().len(),
            forall|i: int|
                0 <= i < old(self).rows().len() ==> final(self).rows()[i] == {
                    let row = old(self).rows()[i];
                    if row.serial@ == serial@ {
                        Device { init: init, ..row }
                    } else {
                        row
                    }
                },
    {
        let n = self.rows.len();
        let mut i: usize = 0;
        while i < n
            invariant
                old(self).wf(),
                n == old(self).rows().len(),
                self.rows@.len() == n,
                self.next_id == old(self).next_id(),
                i <= n,
                forall|k: int|
                    i <= k < n ==> self.rows@[k] == old(self).rows()[k],
                forall|k: int|
                    0 <= k < i ==> self.rows@[k] == {
                        let row = old(self).rows()[k];
                        if row.serial@ == serial@ {
                            Device { init: init, ..row }
                        } else {
                            row
                        }
                    },
            decreases n - i,
        {
            if self.rows[i].serial == *serial {
                let old_row = self.rows.remove(i);
                self.rows.insert(i, Device { init: init, ..old_row });
            }
            i += 1;
        }
    }

    /// The rows the online-device query returns, in stored (id) order:
    /// online rows matching the present filters.
    pub fn list_online_device(
        &self,
        serial: Option<&String>,
        agent_ip: Option<&String>,
    ) -> (r: Vec<Device>)
        ensures
            r@ == self.rows().filter(selected_by(serial, agent_ip)),
    {
        broadcast use vstd::prelude::Seq::lemma_filter_push;

        let n = self.rows.len();
        let mut out: Vec<Device> = Vec::new();
        let mut i: usize = 0;
        proof {
            assert(self.rows().take(0) =~= Seq::<Device>::empty());
            assert(Seq::<Device>::empty().filter(selected_by(serial, agent_ip))
                =~= Seq::<Device>::empty());
        }
        while i < n
            invariant
                n == self.rows().len(),
                i <= n,
                out@ == self.rows().take(i as int).filter(selected_by(serial, agent_ip)),
            decreases n - i,
        {
            let row = &self.rows[i];
            let selected = row.online && (match serial {
                Some(s) => row.serial == *s,
                None => true,
            }) && (match agent_ip {
                Some(a) => row.agent_ip == *a,
                None => true,
            });
            proof {
                let p = selected_by(serial, agent_ip);
                let pre = self.rows().take(i as int);
                let elem = self.rows()[i as int];
                assert(selected == p(elem));
                pre.lemma_filter_push(elem, p);
                assert(pre.push(elem) =~= self.rows().take(i as int + 1));
                assert(pre.push(elem).filter(p) == if p(elem) {
                    pre.filter(p).push(elem)
                } else {
                    pre.filter(p)
                });
            }
            if selected {
                out.push(row.clone());
            }
            i += 1;
        }
        proof {
            assert(self.rows().take(n as int) =~= self.rows());
        }
        out
    }

    /// The row carrying the given serial, if the table has one.
    pub fn find_by_serial(&self, serial: &String) -> (r: Option<&Device>)
        ensures
            match r {
                Some(d) => device_with_serial(self.rows(), serial@) == Some(*d),
                None => device_with_serial(self.rows(), serial@) is None,
            },
    {
        let n = self.rows.len();
        let mut i: usize = 0;
        proof {
            assert(self.rows().skip(0) =~= self.rows());
        }
        while i < n
            invariant
                n == self.rows().len(),
                i <= n,
                device_with_serial(self.rows(), serial@) == device_with_serial(
                    self.rows().skip(i as int),
                    serial@,
                ),
            decreases n - i,
        {
            proof {
                assert(self.rows().skip(i as int).drop_first() =~= self.rows().skip(i as int + 1));
            }
            if self.rows[i].serial == *serial {
                return Some(&self.rows[i]);
            }
            i += 1;
        }
        proof {
            assert(self.rows().skip(n as int) =~= Seq::<Device>::empty());
        }
        None
    }
}

} // verus!
