//! The catalogue of the store: the mounted disks it writes to, and the
//! models of its tables.

pub mod disks;
pub mod error;
pub mod models;

use vstd::prelude::*;
use crate::store::disks::Disks;
use crate::store::error::{BaseError, codes};
use crate::text::{decimal, u64_to_decimal};

verus! {

/// Whether a mounted volume is one the store writes to: writable, fixed, and
/// mounted somewhere.
pub fn is_storage_candidate(read_only: bool, removable: bool, mount_path: &str) -> (b: bool)
    ensures
        b == (!read_only && !removable && mount_path@.len() > 0),
{
    !(read_only || removable || vstd::string::StrSliceExecFns::unicode_len(mount_path) == 0)
}

/// The disks the store knows, in the order they were found.
pub struct Store {
    disks: Vec<Disks>,
}

impl Store {
    pub closed spec fn disk_list(&self) -> Seq<Disks> {
        self.disks@
    }

    pub fn new() -> (s: Self)
        ensures
            s.disk_list() == Seq::<Disks>::empty(),
    {
        Store { disks: Vec::new() }
    }

    /// Forgets every disk, before a new scan.
    pub fn clear(&mut self)
        ensures
            final(self).disk_list() == Seq::<Disks>::empty(),
    {
        self.disks.clear();
    }

    /// Adds a disk found by a scan.
    pub fn push(&mut self, disk: Disks)
        ensures
            final(self).disk_list() == old(self).disk_list().push(disk),
    {
        self.disks.push(disk);
    }

    pub fn get_disks(&self) -> (d: &Vec<Disks>)
        ensures
            d@ == self.disk_list(),
    {
        &self.disks
    }

    /// The positions of the active disks, in order.
    pub fn get_active_disks(&self) -> (idx: Vec<usize>)
        ensures
            forall|k: int| 0 <= k < idx@.len() ==> idx@[k] < self.disk_list().len() && self.disk_list()[#[trigger] idx@[k] as int].active,
            forall|i: int| 0 <= i < self.disk_list().len() && self.disk_list()[i].active ==> idx@.contains(i as usize),
            forall|a: int, b: int| 0 <= a < b < idx@.len() ==> idx@[a] < idx@[b],
    {
        let mut idx: Vec<usize> = Vec::new();
        let mut i: usize = 0;
        while i < self.disks.len()
            invariant
                0 <= i <= self.disks@.len(),
                forall|k: int| 0 <= k < idx@.len() ==> idx@[k] < i && self.disks@[#[trigger] idx@[k] as int].active,
                forall|j: int| 0 <= j < i && self.disks@[j].active ==> idx@.contains(j as usize),
                forall|a: int, b: int| 0 <= a < b < idx@.len() ==> idx@[a] < idx@[b],
            decreases self.disks@.len() - i,
        {
            if self.disks[i].active {
                let ghost before = idx@;
                idx.push(i);
                assert(idx@[idx@.len() - 1] == i);
                assert forall|j: int| 0 <= j < i && self.disks@[j].active implies idx@.contains(j as usize) by {
                    let k = choose|k: int| 0 <= k < before.len() && before[k] == j as usize;
                    assert(idx@[k] == j as usize);
                }
                assert(idx@.contains(i));
            }
            i = i + 1;
        }
        idx
    }

    /// Marks the disk at `index` active; says whether its record must be
    /// updated, and refuses an index past the end.
    pub fn active_disks(&mut self, index: usize) -> (r: Result<bool, BaseError>)
        ensures
            index >= old(self).disk_list().len() ==> (r matches Err(e) && e.code == codes::NOT_FOUND
                && e.message@ == "not found disk from index "@ + decimal(index as nat)
                && final(self).disk_list() == old(self).disk_list()),
            index < old(self).disk_list().len() ==> (r matches Ok(changed) && changed == !old(self).disk_list()[index as int].active
                && final(self).disk_list() == old(self).disk_list().update(
                index as int,
                Disks { active: true, ..old(self).disk_list()[index as int] },
            )),
    {
        if index >= self.disks.len() {
            let mut m = String::from_str("not found disk from index ");
            let n = u64_to_decimal(index as u64);
            m.append(n.as_str());
            return Err(BaseError::not_found(m));
        }
        let mut disk = self.disks.remove(index);
        let changed = disk.active();
        self.disks.insert(index, disk);
        assert(self.disks@ =~= old(self).disks@.update(
            index as int,
            Disks { active: true, ..old(self).disks@[index as int] },
        ));
        Ok(changed)
    }
}

} // verus!
