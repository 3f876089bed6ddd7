//! Reordering the devices of the settings sidebar by dragging: which row
//! holds the drop, where the drop line is drawn, where the dragged device
//! lands, and the order that is then saved.
use vstd::prelude::*;

use crate::protocol::DeviceSummary;
use crate::text::{owned, push_str, str_eq};

verus! {

/// The row that a dragged device would be dropped on.
#[derive(Clone, Debug, PartialEq, Eq)]
pub struct DropHint {
    pub device_id: String,
    pub over: usize,
}

/// A drop hint by its values.
pub open spec fn hint_view(hint: Option<DropHint>) -> Option<(Seq<char>, usize)> {
    match hint {
        Some(h) => Some((h.device_id@, h.over)),
        None => None,
    }
}

/// Which row holds the drop once the drag of `device_id` reports from row
/// `over`: that row while the pointer is inside it; none once the pointer
/// left the row that held it; otherwise the row that held it before.
pub open spec fn next_hint(
    current: Option<(Seq<char>, usize)>,
    device_id: Seq<char>,
    over: usize,
    inside: bool,
) -> Option<(Seq<char>, usize)> {
    if inside {
        Some((device_id, over))
    } else if current == Some((device_id, over)) {
        None
    } else {
        current
    }
}

/// Follows a drag of `device_id` over row `over`.
pub fn next_drop_hint(current: Option<DropHint>, device_id: &str, over: usize, inside: bool) -> (r:
    Option<DropHint>)
    ensures
        hint_view(r) == next_hint(hint_view(current), device_id@, over, inside),
{
    if inside {
        return Some(DropHint { device_id: owned(device_id), over });
    }
    let same = match &current {
        Some(h) => h.over == over && str_eq(h.device_id.as_str(), device_id),
        None => false,
    };
    if same {
        None
    } else {
        current
    }
}

/// `p` is the first position of a device with the id `id`.
pub open spec fn first_at(devices: Seq<DeviceSummary>, id: Seq<char>, p: int) -> bool {
    &&& 0 <= p < devices.len()
    &&& devices[p].id@ == id
    &&& forall|j: int| 0 <= j < p ==> devices[j].id@ != id
}

/// The first position of a device with the id `id`, if any.
pub open spec fn position_of(devices: Seq<DeviceSummary>, id: Seq<char>) -> Option<int> {
    if exists|p: int| first_at(devices, id, p) {
        Some(choose|p: int| first_at(devices, id, p))
    } else {
        None
    }
}

proof fn lemma_first_unique(devices: Seq<DeviceSummary>, id: Seq<char>, p: int)
    requires
        first_at(devices, id, p),
    ensures
        position_of(devices, id) == Some(p),
{
    let q = choose|q: int| first_at(devices, id, q);
    assert(first_at(devices, id, q));
    if q < p {
        assert(devices[q].id@ != id);
    }
    if p < q {
        assert(devices[p].id@ != id);
    }
}

fn find_device(devices: &Vec<DeviceSummary>, id: &str) -> (r: Option<usize>)
    ensures
        match r {
            Some(k) => position_of(devices@, id@) == Some(k as int),
            None => position_of(devices@, id@) is None,
        },
{
    let mut i: usize = 0;
    while i < devices.len()
        invariant
            i <= devices.len(),
            forall|j: int| 0 <= j < i ==> devices@[j].id@ != id@,
        decreases devices.len() - i,
    {
        if str_eq(devices[i].id.as_str(), id) {
            proof {
                lemma_first_unique(devices@, id@, i as int);
            }
            return Some(i);
        }
        i += 1;
    }
    assert(!exists|p: int| first_at(devices@, id@, p));
    None
}

/// Where row `index` draws the drop line: above itself for a device coming
/// up from below, below itself for one coming down, and nowhere unless it
/// holds the drop of a listed device other than its own.
pub open spec fn landing_of(devices: Seq<DeviceSummary>, hint: Option<(Seq<char>, usize)>, index: usize) -> Option<
    bool,
> {
    match hint {
        Some((id, over)) => if over != index {
            None
        } else {
            match position_of(devices, id) {
                Some(from) => if from == index {
                    None
                } else {
                    Some(from > index)
                },
                None => None,
            }
        },
        None => None,
    }
}

/// Where row `index` draws the drop line: `Some(true)` above it, `Some(false)`
/// below it.
pub fn landing(devices: &Vec<DeviceSummary>, hint: &Option<DropHint>, index: usize) -> (r: Option<bool>)
    ensures
        r == landing_of(devices@, hint_view(*hint), index),
{
    match hint {
        Some(h) => {
            if h.over != index {
                return None;
            }
            match find_device(devices, h.device_id.as_str()) {
                Some(from) => if from == index {
                    None
                } else {
                    Some(from > index)
                },
                None => None,
            }
        },
        None => None,
    }
}

/// The list once the device `id` was dropped on row `target`: it leaves its
/// place and takes `target`'s; nothing moves when it is not listed, is
/// dropped on its own row, or the row is past the end.
pub open spec fn dropped(devices: Seq<DeviceSummary>, id: Seq<char>, target: int) -> Option<Seq<DeviceSummary>> {
    match position_of(devices, id) {
        Some(from) => if from == target || target >= devices.len() {
            None
        } else {
            Some(devices.remove(from).insert(target, devices[from]))
        },
        None => None,
    }
}

/// Moves the device `id` to row `target`, and says whether the list changed
/// (and so the new order is to be saved).
pub fn drop_device(devices: &mut Vec<DeviceSummary>, id: &str, target: usize) -> (r: bool)
    ensures
        match dropped(old(devices)@, id@, target as int) {
            Some(moved) => r && final(devices)@ == moved,
            None => !r && final(devices)@ == old(devices)@,
        },
{
    let from = match find_device(devices, id) {
        Some(from) => from,
        None => return false,
    };
    if from == target || target >= devices.len() {
        return false;
    }
    let ghost before = devices@;
    let device = devices.remove(from);
    devices.insert(target, device);
    assert(devices@ =~= before.remove(from as int).insert(target as int, before[from as int]));
    true
}

/// The hardware identities of the listed devices, in list order: only a
/// device the agent has identified holds a saved position.
pub open spec fn saved_order_of(devices: Seq<DeviceSummary>) -> Seq<Seq<char>>
    decreases devices.len(),
{
    if devices.len() == 0 {
        Seq::empty()
    } else {
        saved_order_of(devices.drop_last()) + match devices.last().hardware_id {
            Some(h) => seq![h@],
            None => Seq::empty(),
        }
    }
}

/// The order that is saved after a drop.
pub fn saved_order(devices: &Vec<DeviceSummary>) -> (r: Vec<String>)
    ensures
        r@.map_values(|s: String| s@) == saved_order_of(devices@),
{
    let mut ids: Vec<String> = Vec::new();
    let mut i: usize = 0;
    while i < devices.len()
        invariant
            i <= devices.len(),
            ids@.map_values(|s: String| s@) == saved_order_of(devices@.take(i as int)),
        decreases devices.len() - i,
    {
        proof {
            assert(devices@.take(i as int + 1).drop_last() =~= devices@.take(i as int));
            assert(devices@.take(i as int + 1).last() == devices@[i as int]);
        }
        let ghost before = ids@;
        match &devices[i].hardware_id {
            Some(h) => {
                ids.push(h.clone());
                assert(ids@.map_values(|s: String| s@) =~= before.map_values(|s: String| s@).push(h@));
            },
            None => {
                assert(ids@.map_values(|s: String| s@) =~= before.map_values(|s: String| s@) + Seq::<
                    Seq<char>,
                >::empty());
            },
        }
        i += 1;
    }
    assert(devices@.take(devices.len() as int) =~= devices@);
    ids
}

/// The message when a new order could not be saved.
pub open spec fn order_not_saved_text(error: Seq<char>) -> Seq<char> {
    "The new device order was not saved. "@ + error
}

/// Reports that a new order could not be saved.
pub fn order_not_saved(error: &str) -> (r: String)
    ensures
        r@ == order_not_saved_text(error@),
{
    let mut message = owned("The new device order was not saved. ");
    push_str(&mut message, error);
    message
}

} // verus!
