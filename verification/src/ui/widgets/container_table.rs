//! Ordering of the container table.
use vstd::prelude::*;
use crate::models::container::ContainerSortColumn;
use crate::order::{is_stable_order, keys_of, stable_order, SortKey};
use crate::text::chars_of;

verus! {

/// What the container table needs of a container to order it. CPU share
/// and rates are given as whole numbers that order the same way as the
/// measured values.
pub struct ContainerRow {
    pub name: String,
    pub cpu: u64,
    pub memory: u64,
    pub net_recv: u64,
    pub net_sent: u64,
    pub disk_read: u64,
    pub disk_write: u64,
}

/// The key a container is ordered by in column `col`.
pub open spec fn container_key(r: ContainerRow, col: ContainerSortColumn) -> (Seq<char>, u64) {
    match col {
        ContainerSortColumn::Name => (r.name@, 0),
        ContainerSortColumn::Cpu => (Seq::empty(), r.cpu),
        ContainerSortColumn::Memory => (Seq::empty(), r.memory),
        ContainerSortColumn::NetRecv => (Seq::empty(), r.net_recv),
        ContainerSortColumn::NetSent => (Seq::empty(), r.net_sent),
        ContainerSortColumn::DiskRead => (Seq::empty(), r.disk_read),
        ContainerSortColumn::DiskWrite => (Seq::empty(), r.disk_write),
    }
}

pub open spec fn container_keys(rows: Seq<ContainerRow>, col: ContainerSortColumn) -> Seq<(Seq<char>, u64)> {
    rows.map_values(|r: ContainerRow| container_key(r, col))
}

pub open spec fn all_kept(n: nat) -> Seq<bool> {
    Seq::new(n, |i: int| true)
}

/// The positions of all containers, ordered by column `col`, ascending when
/// `asc`, equal values in the order the containers are given.
pub fn container_order(rows: &Vec<ContainerRow>, col: ContainerSortColumn, asc: bool) -> (order: Vec<usize>)
    ensures
        is_stable_order(container_keys(rows@, col), asc, all_kept(rows@.len()), order@),
{
    let mut keys: Vec<SortKey> = Vec::new();
    let mut keep: Vec<bool> = Vec::new();
    let mut i: usize = 0;
    while i < rows.len()
        invariant
            i <= rows@.len(),
            keys@.len() == i,
            keep@.len() == i,
            forall|k: int| 0 <= k < i ==> #[trigger] keys_of(keys@)[k] == container_key(rows@[k], col),
            forall|k: int| 0 <= k < i ==> #[trigger] keep@[k],
        decreases rows.len() - i,
    {
        let r = &rows[i];
        let key = match col {
            ContainerSortColumn::Name => SortKey { text: chars_of(r.name.as_str()), number: 0 },
            ContainerSortColumn::Cpu => SortKey { text: Vec::new(), number: r.cpu },
            ContainerSortColumn::Memory => SortKey { text: Vec::new(), number: r.memory },
            ContainerSortColumn::NetRecv => SortKey { text: Vec::new(), number: r.net_recv },
            ContainerSortColumn::NetSent => SortKey { text: Vec::new(), number: r.net_sent },
            ContainerSortColumn::DiskRead => SortKey { text: Vec::new(), number: r.disk_read },
            ContainerSortColumn::DiskWrite => SortKey { text: Vec::new(), number: r.disk_write },
        };
        proof {
            assert(key.text@ =~= container_key(rows@[i as int], col).0);
        }
        let ghost old_keys = keys@;
        keys.push(key);
        keep.push(true);
        proof {
            assert forall|k: int| 0 <= k < i + 1 implies #[trigger] keys_of(keys@)[k] == container_key(rows@[k], col) by {
                assert(keys_of(keys@)[k] == crate::order::key_of(keys@[k]));
                if k < i {
                    assert(keys@[k] == old_keys[k]);
                    assert(keys_of(old_keys)[k] == crate::order::key_of(old_keys[k]));
                }
            }
        }
        i += 1;
    }
    assert(keys_of(keys@) =~= container_keys(rows@, col));
    assert(keep@ =~= all_kept(rows@.len()));
    stable_order(&keys, &keep, asc)
}

} // verus!
