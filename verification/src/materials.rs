//! The material store: uploaded content files, each identified by the hex
//! MD5 digest of its bytes and consumed by publish jobs through the `used`
//! flag.

use vstd::prelude::*;

use crate::order::lemma_filter_keeps_order;

verus! {

/// The hex MD5 digest of a byte string: a function of the bytes alone.
pub uninterp spec fn md5_hex_of(bytes: Seq<u8>) -> Seq<char>;

/// Relies on md5::compute and the md5 crate's lower-hex rendering of a
/// digest: 32 lowercase hex digits, determined by the input bytes alone.
#[verifier::external_body]
fn md5_hex(bytes: &[u8]) -> (r: String)
    ensures
        r@ == md5_hex_of(bytes@),
        r@.len() == 32,
{
    format!("{:x}", md5::compute(bytes))
}

pub struct Material {
    pub id: i64,
    pub group_id: i64,
    /// Storage path of the uploaded file.
    pub name: String,
    /// Hex MD5 digest of the file's bytes.
    pub md5: String,
    /// 1 once a publish job has consumed the material.
    pub used: i64,
    pub create_time: u64,
}

impl Clone for Material {
    fn clone(&self) -> (r: Self)
        ensures
            r == *self,
    {
        Material {
            id: self.id,
            group_id: self.group_id,
            name: self.name.clone(),
            md5: self.md5.clone(),
            used: self.used,
            create_time: self.create_time,
        }
    }
}

/// A create payload for one uploaded file.
pub struct MaterialData {
    pub id: Option<i64>,
    pub name: String,
    pub md5: String,
    pub group_id: i64,
}

impl Clone for MaterialData {
    fn clone(&self) -> (r: Self)
        ensures
            r == *self,
    {
        MaterialData {
            id: self.id,
            name: self.name.clone(),
            md5: self.md5.clone(),
            group_id: self.group_id,
        }
    }
}

/// Builds the create payload for an uploaded file: the stored hash is the
/// hex MD5 digest of the file's bytes.
pub fn material_from_bytes(group_id: i64, name: String, bytes: &Vec<u8>) -> (r: MaterialData)
    ensures
        r.id is None,
        r.group_id == group_id,
        r.name == name,
        r.md5@ == md5_hex_of(bytes@),
{
    let md5 = md5_hex(bytes.as_slice());
    MaterialData { id: None, name: name, md5: md5, group_id: group_id }
}

pub open spec fn new_material_row(data: MaterialData, id: i64, now: u64) -> Material {
    Material {
        id: id,
        group_id: data.group_id,
        name: data.name,
        md5: data.md5,
        used: 0,
        create_time: now,
    }
}

/// What marking a material used makes of one stored row: every row under
/// the given name takes the flag, every other row is untouched.
pub open spec fn used_marked(row: Material, name: Seq<char>, used: i64) -> Material {
    if row.name@ == name {
        Material { used: used, ..row }
    } else {
        row
    }
}

/// Whether a row is selected by the material listing: it must match each
/// filter that is present.
pub open spec fn material_selected(
    row: Material,
    used: Option<i64>,
    group_id: Option<i64>,
) -> bool {
    &&& match used {
        Some(u) => row.used == u,
        None => true,
    }
    &&& match group_id {
        Some(g) => row.group_id == g,
        None => true,
    }
}

pub open spec fn material_selected_by(used: Option<i64>, group_id: Option<i64>) -> spec_fn(
    Material,
) -> bool {
    |row: Material| material_selected(row, used, group_id)
}

/// The rows a delete keeps: every row but the named one.
pub open spec fn keeps_other_materials(id: i64) -> spec_fn(Material) -> bool {
    |row: Material| row.id != id
}

pub struct MaterialTable {
    rows: Vec<Material>,
    next_id: i64,
}

impl MaterialTable {
    pub closed spec fn rows(&self) -> Seq<Material> {
        self.rows@
    }

    pub closed spec fn next_id(&self) -> i64 {
        self.next_id
    }

    /// Ids are assigned in insertion order, start at 1, and stay below the
    /// id the next insertion will take.
    pub open spec fn wf(&self) -> bool {
        &&& 1 <= self.next_id()
        &&& forall|i: int, j: int|
            0 <= i < j < self.rows().len() ==> self.rows()[i].id < self.rows()[j].id
        &&& forall|i: int|
            0 <= i < self.rows().len() ==> 1 <= (#[trigger] self.rows()[i]).id < self.next_id()
    }

    pub fn new() -> (r: Self)
        ensures
            r.wf(),
            r.rows() == Seq::<Material>::empty(),
            r.next_id() == 1,
    {
        MaterialTable { rows: Vec::new(), next_id: 1 }
    }

    /// Whether a batch of the given size can still be given fresh ids.
    pub fn can_insert(&self, n: usize) -> (r: bool)
        requires
            self.wf(),
        ensures
            r == (self.next_id() as int + n as int <= i64::MAX as int),
    {
        let room = i64::MAX - self.next_id;
        n as u64 <= room as u64
    }

    /// Inserts one upload batch, one row per file, ids in batch order.
    pub fn save(&mut self, items: Vec<MaterialData>, now: u64)
        requires
            old(self).wf(),
            old(self).next_id() as int + items@.len() as int <= i64::MAX as int,
        ensures
            final(self).wf(),
            final(self).next_id() as int == old(self).next_id() as int + items@.len() as int,
            final(self).rows() == old(self).rows() + Seq::new(
                items@.len(),
                |k: int| new_material_row(items@[k], (old(self).next_id() + k) as i64, now),
            ),
    {
        let n = items.len();
        let mut i: usize = 0;
        proof {
            assert(self.rows() =~= old(self).rows() + Seq::new(
                0,
                |k: int| new_material_row(items@[k], (old(self).next_id() + k) as i64, now),
            ));
        }
        while i < n
            invariant
                old(self).wf(),
                old(self).next_id() as int + n as int <= i64::MAX as int,
                n == items@.len(),
                i <= n,
                self.wf(),
                self.next_id as int == old(self).next_id() as int + i as int,
                self.rows@ == old(self).rows() + Seq::new(
                    i as nat,
                    |k: int| new_material_row(items@[k], (old(self).next_id() + k) as i64, now),
                ),
            decreases n - i,
        {
            let data = items[i].clone();
            let id = self.next_id;
            let row = Material {
                id: id,
                group_id: data.group_id,
                name: data.name,
                md5: data.md5,
                used: 0,
                create_time: now,
            };
            self.rows.push(row);
            self.next_id = id + 1;
            proof {
                assert(self.rows@ =~= old(self).rows() + Seq::new(
                    (i + 1) as nat,
                    |k: int| new_material_row(items@[k], (old(self).next_id() + k) as i64, now),
                ));
            }
            i += 1;
        }
    }

    /// Sets the used flag of every row stored under the given name; rows
    /// with other names are untouched.
    pub fn update(&mut self, name: &String, used: i64)
        requires
            old(self).wf(),
        ensures
            final(self).wf(),
            final(self).next_id() == old(self).next_id(),
            final(self).rows().len() == old(self).rows().len(),
            forall|i: int|
                0 <= i < old(self).rows().len() ==> final(self).rows()[i] == used_marked(
                    #[trigger] old(self).rows()[i],
                    name@,
                    used,
                ),
    {
        let n = self.rows.len();
        let mut i: usize = 0;
        while i < n
            invariant
                old(self).wf(),
                n == old(self).rows().len(),
                self.rows@.len() == n,
                self.next_id == old(self).next_id(),
                i <= n,
                forall|k: int| i <= k < n ==> self.rows@[k] == old(self).rows()[k],
                forall|k: int|
                    0 <= k < i ==> self.rows@[k] == used_marked(
                        #[trigger] old(self).rows()[k],
                        name@,
                        used,
                    ),
            decreases n - i,
        {
            if self.rows[i].name == *name {
                let old_row = self.rows.remove(i);
                self.rows.insert(i, Material { used: used, ..old_row });
            }
            i += 1;
        }
        proof {
            assert forall|a: int, b: int|
                0 <= a < b < self.rows@.len() implies (#[trigger] self.rows@[a]).id
                < (#[trigger] self.rows@[b]).id by {
                assert(self.rows@[a] == used_marked(old(self).rows()[a], name@, used));
                assert(self.rows@[b] == used_marked(old(self).rows()[b], name@, used));
            }
            assert forall|a: int|
                0 <= a < self.rows@.len() implies 1 <= (#[trigger] self.rows@[a]).id
                < self.next_id by {
                assert(self.rows@[a] == used_marked(old(self).rows()[a], name@, used));
            }
        }
    }

    /// The rows matching the present filters, in stored (id) order.
    pub fn list(&self, used: Option<i64>, group_id: Option<i64>) -> (r: Vec<Material>)
        ensures
            r@ == self.rows().filter(material_selected_by(used, group_id)),
    {
        let ghost p = material_selected_by(used, group_id);
        let n = self.rows.len();
        let mut out: Vec<Material> = Vec::new();
        let mut i: usize = 0;
        proof {
            assert(self.rows().take(0) =~= Seq::<Material>::empty());
            assert(Seq::<Material>::empty().filter(p) =~= Seq::<Material>::empty());
        }
        while i < n
            invariant
                n == self.rows().len(),
                i <= n,
                p == material_selected_by(used, group_id),
                out@ == self.rows().take(i as int).filter(p),
            decreases n - i,
        {
            let row = &self.rows[i];
            let selected = (match used {
                Some(u) => row.used == u,
                None => true,
            }) && (match group_id {
                Some(g) => row.group_id == g,
                None => true,
            });
            proof {
                let pre = self.rows().take(i as int);
                let elem = self.rows()[i as int];
                assert(selected == p(elem));
                pre.lemma_filter_push(elem, p);
                assert(pre.push(elem) =~= self.rows().take(i as int + 1));
            }
            if selected {
                out.push(row.clone());
            }
            i += 1;
        }
        proof {
            assert(self.rows().take(n as int) =~= self.rows());
        }
        out
    }

    /// How many rows match the present filters.
    pub fn count(&self, used: Option<i64>, group_id: Option<i64>) -> (r: u64)
        ensures
            r == self.rows().filter(material_selected_by(used, group_id)).len(),
    {
        let ghost p = material_selected_by(used, group_id);
        let n = self.rows.len();
        let mut count: u64 = 0;
        let mut i: usize = 0;
        proof {
            assert(self.rows().take(0) =~= Seq::<Material>::empty());
            assert(Seq::<Material>::empty().filter(p) =~= Seq::<Material>::empty());
        }
        while i < n
            invariant
                n == self.rows().len(),
                i <= n,
                p == material_selected_by(used, group_id),
                count == self.rows().take(i as int).filter(p).len(),
                count <= i,
            decreases n - i,
        {
            let row = &self.rows[i];
            let selected = (match used {
                Some(u) => row.used == u,
                None => true,
            }) && (match group_id {
                Some(g) => row.group_id == g,
                None => true,
            });
            proof {
                let pre = self.rows().take(i as int);
                let elem = self.rows()[i as int];
                assert(selected == p(elem));
                pre.lemma_filter_push(elem, p);
                assert(pre.push(elem) =~= self.rows().take(i as int + 1));
            }
            if selected {
                count += 1;
            }
            i += 1;
        }
        proof {
            assert(self.rows().take(n as int) =~= self.rows());
        }
        count
    }

    /// Removes the row with the given id, keeping every other row.
    pub fn del(&mut self, id: i64)
        requires
            old(self).wf(),
        ensures
            final(self).wf(),
            final(self).next_id() == old(self).next_id(),
            final(self).rows() == old(self).rows().filter(keeps_other_materials(id)),
    {
        let ghost p = keeps_other_materials(id);
        let n = self.rows.len();
        let mut out: Vec<Material> = Vec::new();
        let mut i: usize = 0;
        proof {
            assert(self.rows().take(0) =~= Seq::<Material>::empty());
            assert(Seq::<Material>::empty().filter(p) =~= Seq::<Material>::empty());
        }
        while i < n
            invariant
                old(self).wf(),
                n == old(self).rows().len(),
                *self == *old(self),
                p == keeps_other_materials(id),
                i <= n,
                out@ == old(self).rows().take(i as int).filter(p),
            decreases n - i,
        {
            let row = &self.rows[i];
            proof {
                let pre = self.rows().take(i as int);
                let elem = self.rows()[i as int];
                pre.lemma_filter_push(elem, p);
                assert(pre.push(elem) =~= self.rows().take(i as int + 1));
            }
            if row.id != id {
                out.push(row.clone());
            }
            i += 1;
        }
        proof {
            assert(self.rows().take(n as int) =~= self.rows());
            let key = |row: Material| row.id;
            lemma_filter_keeps_order(self.rows(), p, key, 1, self.next_id());
            let f = self.rows().filter(p);
            assert forall|k: int|
                0 <= k < f.len() implies 1 <= (#[trigger] f[k]).id < self.next_id() by {
                assert(1 <= key(f[k]) < self.next_id());
            }
            assert forall|a: int, b: int|
                0 <= a < b < f.len() implies (#[trigger] f[a]).id < (#[trigger] f[b]).id by {
                assert(key(f[a]) < key(f[b]));
            }
        }
        self.rows = out;
    }
}

} // verus!
