//! Mounted volumes as a snapshot of plain values.

use vstd::prelude::*;

verus! {

/// One mounted volume at the moment it was enumerated.
#[derive(Debug, Clone, PartialEq, Eq)]
pub struct DiskInfo {
    /// Human-readable volume name.
    pub name: String,
    /// Root path of the volume.
    pub mount_point: String,
    /// Free bytes.
    pub available_space: u64,
    /// Capacity in bytes.
    pub total_space: u64,
}

/// The characters of each string, in order.
pub open spec fn texts(strings: Seq<String>) -> Seq<Seq<char>> {
    strings.map_values(|s: String| s@)
}

/// The mount point of each volume, in order.
pub open spec fn mount_point_texts(disks: Seq<DiskInfo>) -> Seq<Seq<char>> {
    disks.map_values(|d: DiskInfo| d.mount_point@)
}

/// The mount points of `disks`, in enumeration order.
pub fn mount_points(disks: &Vec<DiskInfo>) -> (out: Vec<String>)
    ensures
        texts(out@) == mount_point_texts(disks@),
{
    let mut out: Vec<String> = Vec::new();
    let mut i: usize = 0;
    while i < disks.len()
        invariant
            i <= disks.len(),
            out@.len() == i,
            forall|j: int| 0 <= j < i ==> (#[trigger] out@[j])@ == disks@[j].mount_point@,
        decreases disks.len() - i,
    {
        out.push(disks[i].mount_point.clone());
        i += 1;
    }
    assert(texts(out@) =~= mount_point_texts(disks@));
    out
}

} // verus!
