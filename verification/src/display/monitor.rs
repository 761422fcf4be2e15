use vstd::prelude::*;

use super::orientation::Orientation;
use super::resolution::Resolution;
use crate::id_map::{has_id, is_first, first_position, lemma_first_position, Id};

verus! {

/// One display output attached to the desktop, as the last enumeration saw
/// it. A monitor is never updated in place: every enumeration builds the list
/// anew.
#[derive(Debug)]
pub struct Monitor {
    /// Stable per physical output.
    pub id: String,
    /// The name shown to the user.
    pub name: String,
    /// The name under which the display driver knows the output.
    pub device_name: String,
    pub current_resolution: Resolution,
    pub current_orientation: Orientation,
    /// Position in the virtual desktop.
    pub position: (i32, i32),
    pub is_primary: bool,
    /// The modes the output can show.
    pub available_resolutions: Vec<Resolution>,
}

impl Monitor {
    /// Two monitors that agree in every field, strings and lists by content.
    pub open spec fn same_as(&self, other: &Monitor) -> bool {
        &&& self.id@ == other.id@
        &&& self.name@ == other.name@
        &&& self.device_name@ == other.device_name@
        &&& self.current_resolution == other.current_resolution
        &&& self.current_orientation == other.current_orientation
        &&& self.position == other.position
        &&& self.is_primary == other.is_primary
        &&& self.available_resolutions@ == other.available_resolutions@
    }
}

impl Clone for Monitor {
    fn clone(&self) -> (copy: Self)
        ensures
            copy.same_as(self),
    {
        let mut modes: Vec<Resolution> = Vec::new();
        let mut i: usize = 0;
        while i < self.available_resolutions.len()
            invariant
                i <= self.available_resolutions.len(),
                modes@ == self.available_resolutions@.take(i as int),
            decreases self.available_resolutions.len() - i,
        {
            modes.push(self.available_resolutions[i]);
            assert(modes@ =~= self.available_resolutions@.take(i + 1));
            i += 1;
        }
        assert(self.available_resolutions@.take(i as int) =~= self.available_resolutions@);
        Monitor {
            id: self.id.clone(),
            name: self.name.clone(),
            device_name: self.device_name.clone(),
            current_resolution: self.current_resolution,
            current_orientation: self.current_orientation,
            position: (self.position.0, self.position.1),
            is_primary: self.is_primary,
            available_resolutions: modes,
        }
    }
}

/// Whether a monitor with this id is in the list.
pub open spec fn attached(monitors: Seq<Monitor>, id: Id) -> bool {
    exists|i: int| 0 <= i < monitors.len() && (#[trigger] monitors[i]).id@ == id
}

/// `i` is the first index at which `monitors` holds a monitor with this id.
pub open spec fn is_first_monitor(monitors: Seq<Monitor>, id: Id, i: int) -> bool {
    &&& 0 <= i < monitors.len()
    &&& monitors[i].id@ == id
    &&& forall|j: int| 0 <= j < i ==> (#[trigger] monitors[j]).id@ != id
}

/// The first index at which `monitors` holds a monitor with this id;
/// meaningful when one is attached.
pub open spec fn first_monitor(monitors: Seq<Monitor>, id: Id) -> int {
    choose|i: int| is_first_monitor(monitors, id, i)
}

/// An attached id has a first monitor, and only one index is it.
pub proof fn lemma_first_monitor(monitors: Seq<Monitor>, id: Id)
    requires
        attached(monitors, id),
    ensures
        is_first_monitor(monitors, id, first_monitor(monitors, id)),
        forall|i: int| is_first_monitor(monitors, id, i) ==> i == first_monitor(monitors, id),
{
    let ids = current_resolutions(monitors);
    let w = choose|i: int| 0 <= i < monitors.len() && (#[trigger] monitors[i]).id@ == id;
    assert(ids[w].0 == id);
    lemma_first_position(ids, id);
    let f = first_position(ids, id);
    assert(is_first_monitor(monitors, id, f)) by {
        assert(ids[f].0 == monitors[f].id@);
        assert forall|j: int| 0 <= j < f implies (#[trigger] monitors[j]).id@ != id by {
            assert(ids[j].0 != id);
        }
    }
    let m = first_monitor(monitors, id);
    assert forall|i: int| is_first_monitor(monitors, id, i) implies i == m by {
        if i < m {
            assert(monitors[i].id@ != id);
        } else if m < i {
            assert(monitors[m].id@ != id);
        }
    }
}

/// The resolution each monitor currently shows, by id, in list order.
pub open spec fn current_resolutions(monitors: Seq<Monitor>) -> Seq<(Id, Resolution)> {
    monitors.map_values(|m: Monitor| (m.id@, m.current_resolution))
}

/// The orientation each monitor currently has, by id, in list order.
pub open spec fn current_orientations(monitors: Seq<Monitor>) -> Seq<(Id, Orientation)> {
    monitors.map_values(|m: Monitor| (m.id@, m.current_orientation))
}

/// The per-id lists of current values name exactly the attached ids, and the
/// first entry for an id comes from the first monitor with that id.
pub proof fn lemma_current_values(monitors: Seq<Monitor>, id: Id)
    ensures
        has_id(current_resolutions(monitors), id) == attached(monitors, id),
        has_id(current_orientations(monitors), id) == attached(monitors, id),
        forall|i: int|
            is_first_monitor(monitors, id, i) ==> first_position(current_resolutions(monitors), id)
                == i && first_position(current_orientations(monitors), id) == i,
{
    let res = current_resolutions(monitors);
    let ori = current_orientations(monitors);
    if has_id(res, id) {
        let i = choose|i: int| 0 <= i < res.len() && (#[trigger] res[i]).0 == id;
        assert(monitors[i].id@ == id);
    }
    if has_id(ori, id) {
        let i = choose|i: int| 0 <= i < ori.len() && (#[trigger] ori[i]).0 == id;
        assert(monitors[i].id@ == id);
    }
    if attached(monitors, id) {
        let i = choose|i: int| 0 <= i < monitors.len() && (#[trigger] monitors[i]).id@ == id;
        assert(res[i].0 == id);
        assert(ori[i].0 == id);
        lemma_first_position(res, id);
        lemma_first_position(ori, id);
    }
    assert forall|i: int| is_first_monitor(monitors, id, i) implies first_position(res, id) == i
        && first_position(ori, id) == i by {
        assert(is_first(res, id, i)) by {
            assert forall|j: int| 0 <= j < i implies (#[trigger] res[j]).0 != id by {
                assert(monitors[j].id@ != id);
            }
        }
        assert(is_first(ori, id, i)) by {
            assert forall|j: int| 0 <= j < i implies (#[trigger] ori[j]).0 != id by {
                assert(monitors[j].id@ != id);
            }
        }
    }
}

/// The first monitor with the given id, by index.
pub fn find_monitor(monitors: &Vec<Monitor>, id: &String) -> (found: Option<usize>)
    ensures
        found is Some <==> attached(monitors@, id@),
        found matches Some(i) ==> is_first_monitor(monitors@, id@, i as int) && i
            == first_monitor(monitors@, id@),
{
    let mut i: usize = 0;
    while i < monitors.len()
        invariant
            i <= monitors.len(),
            forall|j: int| 0 <= j < i ==> (#[trigger] monitors@[j]).id@ != id@,
        decreases monitors.len() - i,
    {
        if monitors[i].id == *id {
            proof {
                lemma_first_monitor(monitors@, id@);
            }
            return Some(i);
        }
        i += 1;
    }
    None
}

} // verus!
