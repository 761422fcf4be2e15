//! The settings the user wants, kept apart from what the hardware shows.

use vstd::prelude::*;

use crate::config::{setting_entries, Profile};
use crate::display::monitor::{
    attached, current_orientations, current_resolutions, find_monitor, is_first_monitor,
    lemma_current_values, Monitor,
};
use crate::display::{Orientation, Resolution};
use crate::id_map::{
    has_id, is_first, last_position, lemma_first_position, lemma_last_position,
    lemma_push_positions, lemma_put_all, lemma_seed_all, lemma_seed_all_idempotent, overwritten,
    put, put_all, seed_all, with_defaults, Id, IdMap,
};

verus! {

/// Desired resolution and orientation per monitor id.
///
/// The store is a plain mapping: it accepts any value for any id and never
/// looks at what a monitor is able to show. Ids of monitors that are no
/// longer attached stay in it, inert, so that intent for a monitor that is
/// unplugged for a while survives.
#[derive(Debug)]
pub struct StagingStore {
    pub resolutions: IdMap<Resolution>,
    pub orientations: IdMap<Orientation>,
}

/// Offering one more value after a list of offers.
proof fn lemma_seed_step<T>(entries: Seq<(Id, T)>, offers: Seq<(Id, T)>, i: int)
    requires
        0 <= i < offers.len(),
    ensures
        seed_all(entries, offers.take(i + 1)) == seed_all(
            seed_all(entries, offers.take(i)),
            seq![offers[i]],
        ),
{
    let one = seq![offers[i]];
    assert(one.drop_last() =~= Seq::<(Id, T)>::empty());
    assert(one.last() == offers[i]);
    assert(offers.take(i + 1).drop_last() =~= offers.take(i));
    assert(offers.take(i + 1).last() == offers[i]);
    assert(seed_all(seed_all(entries, offers.take(i)), one.drop_last()) == seed_all(
        entries,
        offers.take(i),
    ));
}

/// The test that keeps the entries whose monitor is attached.
pub open spec fn keep_attached<T>(monitors: Seq<Monitor>) -> spec_fn((Id, T)) -> bool {
    |e: (Id, T)| attached(monitors, e.0)
}

/// The entries whose id belongs to an attached monitor, in their order.
pub open spec fn attached_only<T>(entries: Seq<(Id, T)>, monitors: Seq<Monitor>) -> Seq<(Id, T)> {
    entries.filter(keep_attached(monitors))
}

/// Storing the attached ones among one more entry.
proof fn lemma_stage_step<T>(
    staged: Seq<(Id, T)>,
    entries: Seq<(Id, T)>,
    monitors: Seq<Monitor>,
    i: int,
)
    requires
        0 <= i < entries.len(),
    ensures
        put_all(staged, attached_only(entries.take(i + 1), monitors)) == if attached(
            monitors,
            entries[i].0,
        ) {
            put(
                put_all(staged, attached_only(entries.take(i), monitors)),
                entries[i].0,
                entries[i].1,
            )
        } else {
            put_all(staged, attached_only(entries.take(i), monitors))
        },
{
    let keep = keep_attached::<T>(monitors);
    let shorter = entries.take(i);
    assert(entries.take(i + 1) =~= shorter.push(entries[i]));
    shorter.lemma_filter_push(entries[i], keep);
    if attached(monitors, entries[i].0) {
        let kept = shorter.filter(keep);
        assert(kept.push(entries[i]).drop_last() =~= kept);
        assert(kept.push(entries[i]).last() == entries[i]);
    }
}

/// `after` is `before` reconciled against what the monitors of a catalog
/// currently show, given by id in catalog order: what was staged is there
/// unchanged, an id seen for the first time has the value of the first
/// monitor with that id, and nothing else has appeared.
pub open spec fn is_reconciled<T>(
    before: Map<Id, T>,
    after: Map<Id, T>,
    shown: Seq<(Id, T)>,
) -> bool {
    &&& forall|id: Id| #[trigger]
        before.contains_key(id) ==> after.contains_key(id) && after[id] == before[id]
    &&& forall|i: int|
        is_first(shown, (#[trigger] shown[i]).0, i) && !before.contains_key(shown[i].0)
            ==> after.contains_key(shown[i].0) && after[shown[i].0] == shown[i].1
    &&& forall|id: Id| #[trigger]
        after.contains_key(id) ==> before.contains_key(id) || has_id(shown, id)
}

/// Filling in defaults reconciles.
proof fn lemma_with_defaults_reconciles<T>(before: Map<Id, T>, shown: Seq<(Id, T)>)
    ensures
        is_reconciled(before, with_defaults(before, shown), shown),
{
    let after = with_defaults(before, shown);
    assert forall|i: int|
        is_first(shown, (#[trigger] shown[i]).0, i) && !before.contains_key(
            shown[i].0,
        ) implies after.contains_key(shown[i].0) && after[shown[i].0] == shown[i].1 by {
        assert(has_id(shown, shown[i].0));
        lemma_first_position(shown, shown[i].0);
    }
}

impl StagingStore {
    pub fn new() -> (store: Self)
        ensures
            store.resolutions@ == Map::<Id, Resolution>::empty(),
            store.orientations@ == Map::<Id, Orientation>::empty(),
            store.resolutions.entries() == Seq::<(Id, Resolution)>::empty(),
            store.orientations.entries() == Seq::<(Id, Orientation)>::empty(),
    {
        StagingStore { resolutions: IdMap::new(), orientations: IdMap::new() }
    }

    /// Brings the store in line with a fresh enumeration.
    ///
    /// Every id of the catalog that the store does not know yet is seeded
    /// with the values its monitor currently shows. What is staged already is
    /// never touched, and ids that left the catalog stay.
    pub fn reconcile(&mut self, catalog: &Vec<Monitor>)
        ensures
            final(self).resolutions.entries() == seed_all(
                old(self).resolutions.entries(),
                current_resolutions(catalog@),
            ),
            final(self).orientations.entries() == seed_all(
                old(self).orientations.entries(),
                current_orientations(catalog@),
            ),
            final(self).resolutions@ == with_defaults(
                old(self).resolutions@,
                current_resolutions(catalog@),
            ),
            final(self).orientations@ == with_defaults(
                old(self).orientations@,
                current_orientations(catalog@),
            ),
            is_reconciled(
                old(self).resolutions@,
                final(self).resolutions@,
                current_resolutions(catalog@),
            ),
            is_reconciled(
                old(self).orientations@,
                final(self).orientations@,
                current_orientations(catalog@),
            ),
    {
        let ghost res_offers = current_resolutions(catalog@);
        let ghost ori_offers = current_orientations(catalog@);
        let ghost res_before = self.resolutions.entries();
        let ghost ori_before = self.orientations.entries();
        proof {
            use_type_invariant(&self.resolutions);
            use_type_invariant(&self.orientations);
            assert(res_offers.take(0) =~= Seq::<(Id, Resolution)>::empty());
            assert(ori_offers.take(0) =~= Seq::<(Id, Orientation)>::empty());
        }
        let mut i: usize = 0;
        while i < catalog.len()
            invariant
                i <= catalog.len(),
                res_offers == current_resolutions(catalog@),
                ori_offers == current_orientations(catalog@),
                self.resolutions.entries() == seed_all(res_before, res_offers.take(i as int)),
                self.orientations.entries() == seed_all(ori_before, ori_offers.take(i as int)),
            decreases catalog.len() - i,
        {
            let monitor = &catalog[i];
            proof {
                lemma_seed_step(res_before, res_offers, i as int);
                lemma_seed_step(ori_before, ori_offers, i as int);
            }
            self.resolutions.insert_if_absent(monitor.id.clone(), monitor.current_resolution);
            self.orientations.insert_if_absent(monitor.id.clone(), monitor.current_orientation);
            i += 1;
        }
        proof {
            assert(res_offers.take(i as int) =~= res_offers);
            assert(ori_offers.take(i as int) =~= ori_offers);
            lemma_seed_all(res_before, res_offers);
            lemma_seed_all(ori_before, ori_offers);
            lemma_with_defaults_reconciles(old(self).resolutions@, res_offers);
            lemma_with_defaults_reconciles(old(self).orientations@, ori_offers);
        }
    }

    /// Stages a resolution for a monitor, whatever was staged before.
    pub fn set_resolution(&mut self, id: String, resolution: Resolution)
        ensures
            final(self).resolutions@ == old(self).resolutions@.insert(id@, resolution),
            final(self).resolutions.entries() == put(
                old(self).resolutions.entries(),
                id@,
                resolution,
            ),
            final(self).orientations == old(self).orientations,
    {
        self.resolutions.insert(id, resolution);
    }

    /// Stages an orientation for a monitor, whatever was staged before.
    pub fn set_orientation(&mut self, id: String, orientation: Orientation)
        ensures
            final(self).orientations@ == old(self).orientations@.insert(id@, orientation),
            final(self).orientations.entries() == put(
                old(self).orientations.entries(),
                id@,
                orientation,
            ),
            final(self).resolutions == old(self).resolutions,
    {
        self.orientations.insert(id, orientation);
    }
}

impl StagingStore {
    /// Stages what a profile holds. A setting whose monitor is not attached
    /// is skipped without error; the others are staged in the profile's
    /// order, each over what was staged for its monitor. Orientations are not
    /// part of a profile and stay as they are.
    pub fn apply_profile(&mut self, profile: &Profile, monitors: &Vec<Monitor>)
        ensures
            final(self).resolutions.entries() == put_all(
                old(self).resolutions.entries(),
                attached_only(setting_entries(profile.settings@), monitors@),
            ),
            final(self).resolutions@ == overwritten(
                old(self).resolutions@,
                attached_only(setting_entries(profile.settings@), monitors@),
            ),
            final(self).orientations == old(self).orientations,
    {
        let ghost wanted = setting_entries(profile.settings@);
        let ghost before = self.resolutions.entries();
        proof {
            use_type_invariant(&self.resolutions);
            assert(wanted.take(0) =~= Seq::<(Id, Resolution)>::empty());
            reveal(Seq::filter);
        }
        let mut i: usize = 0;
        while i < profile.settings.len()
            invariant
                i <= profile.settings.len(),
                wanted == setting_entries(profile.settings@),
                self.orientations == old(self).orientations,
                self.resolutions.entries() == put_all(
                    before,
                    attached_only(wanted.take(i as int), monitors@),
                ),
            decreases profile.settings.len() - i,
        {
            let setting = &profile.settings[i];
            proof {
                lemma_stage_step(before, wanted, monitors@, i as int);
            }
            if find_monitor(monitors, &setting.monitor_id).is_some() {
                self.resolutions.insert(setting.monitor_id.clone(), setting.resolution);
            }
            i += 1;
        }
        proof {
            assert(wanted.take(i as int) =~= wanted);
            lemma_put_all(before, attached_only(wanted, monitors@));
        }
    }

    /// Stages the resolutions of a snapshot that is being put back, for the
    /// monitors that are attached, so that what is staged is what the
    /// hardware is asked to show.
    pub fn restore(&mut self, last_good: &IdMap<Resolution>, monitors: &Vec<Monitor>)
        ensures
            final(self).resolutions.entries() == put_all(
                old(self).resolutions.entries(),
                attached_only(last_good.entries(), monitors@),
            ),
            final(self).resolutions@ == overwritten(
                old(self).resolutions@,
                attached_only(last_good.entries(), monitors@),
            ),
            final(self).orientations == old(self).orientations,
    {
        let ghost wanted = last_good.entries();
        let ghost before = self.resolutions.entries();
        proof {
            use_type_invariant(&self.resolutions);
            assert(wanted.take(0) =~= Seq::<(Id, Resolution)>::empty());
            reveal(Seq::filter);
        }
        let mut i: usize = 0;
        while i < last_good.len()
            invariant
                i <= last_good.entries().len(),
                wanted == last_good.entries(),
                self.orientations == old(self).orientations,
                self.resolutions.entries() == put_all(
                    before,
                    attached_only(wanted.take(i as int), monitors@),
                ),
            decreases last_good.entries().len() - i,
        {
            let id = last_good.id_at(i);
            let resolution = *last_good.value_at(i);
            proof {
                lemma_stage_step(before, wanted, monitors@, i as int);
            }
            if find_monitor(monitors, id).is_some() {
                self.resolutions.insert(id.clone(), resolution);
            }
            i += 1;
        }
        proof {
            assert(wanted.take(i as int) =~= wanted);
            lemma_put_all(before, attached_only(wanted, monitors@));
        }
    }
}

/// What is attached among a list of entries: exactly the entries with an
/// attached id, and the last of them for an id is the last entry for it.
pub proof fn lemma_attached_only<T>(entries: Seq<(Id, T)>, monitors: Seq<Monitor>, id: Id)
    ensures
        has_id(attached_only(entries, monitors), id) == (has_id(entries, id) && attached(
            monitors,
            id,
        )),
        has_id(entries, id) && attached(monitors, id) ==> attached_only(
            entries,
            monitors,
        )[last_position(attached_only(entries, monitors), id)].1 == entries[last_position(
            entries,
            id,
        )].1,
    decreases entries.len(),
{
    let keep = keep_attached::<T>(monitors);
    let kept = attached_only(entries, monitors);
    if entries.len() == 0 {
        reveal(Seq::filter);
        assert(kept =~= entries);
        assert(!has_id(entries, id));
    } else {
        let earlier = entries.drop_last();
        let last = entries.last();
        let kept_earlier = attached_only(earlier, monitors);
        lemma_attached_only(earlier, monitors, id);
        assert(entries =~= earlier.push(last));
        earlier.lemma_filter_push(last, keep);
        lemma_push_positions(earlier, last, id);
        if attached(monitors, last.0) {
            assert(kept == kept_earlier.push(last));
            lemma_push_positions(kept_earlier, last, id);
            if has_id(entries, id) && attached(monitors, id) {
                if last.0 == id {
                    assert(kept[kept_earlier.len() as int] == last);
                    assert(entries[earlier.len() as int] == last);
                } else {
                    lemma_last_position(kept_earlier, id);
                    lemma_last_position(earlier, id);
                    assert(kept[last_position(kept_earlier, id)] == kept_earlier[last_position(
                        kept_earlier,
                        id,
                    )]);
                    assert(entries[last_position(earlier, id)] == earlier[last_position(
                        earlier,
                        id,
                    )]);
                }
            }
        } else {
            assert(kept == kept_earlier);
            if has_id(entries, id) && attached(monitors, id) {
                assert(last.0 != id);
                lemma_last_position(earlier, id);
                assert(entries[last_position(earlier, id)] == earlier[last_position(
                    earlier,
                    id,
                )]);
            }
        }
    }
}

/// Loading a profile fails softly: a setting for a monitor that is not
/// attached changes nothing, and every setting for an attached monitor is
/// staged, the last one where a monitor is named more than once.
pub proof fn lemma_profile_soft_fail(
    staged: Map<Id, Resolution>,
    settings: Seq<(Id, Resolution)>,
    monitors: Seq<Monitor>,
    id: Id,
)
    ensures
        !attached(monitors, id) || !has_id(settings, id) ==> overwritten(
            staged,
            attached_only(settings, monitors),
        ).contains_key(id) == staged.contains_key(id) && (staged.contains_key(id) ==> overwritten(
            staged,
            attached_only(settings, monitors),
        )[id] == staged[id]),
        attached(monitors, id) && has_id(settings, id) ==> overwritten(
            staged,
            attached_only(settings, monitors),
        ).contains_key(id) && overwritten(staged, attached_only(settings, monitors))[id]
            == settings[last_position(settings, id)].1,
{
    lemma_attached_only(settings, monitors, id);
}

/// Whether a mode has exactly the wanted dimensions.
pub open spec fn fits(mode: Resolution, width: u32, height: u32) -> bool {
    mode.width == width && mode.height == height
}

/// Whether `a` is preferred to `b` or equal to it in preference: the higher
/// refresh rate wins, and at the same rate the higher colour depth.
pub open spec fn at_least_as_good(a: Resolution, b: Resolution) -> bool {
    a.frequency > b.frequency || (a.frequency == b.frequency && a.bits_per_pixel
        >= b.bits_per_pixel)
}

/// `best` is a mode of the list with the wanted dimensions that no other such
/// mode of the list beats.
pub open spec fn is_best_match(
    modes: Seq<Resolution>,
    width: u32,
    height: u32,
    best: Resolution,
) -> bool {
    &&& modes.contains(best)
    &&& fits(best, width, height)
    &&& forall|i: int|
        0 <= i < modes.len() && fits(#[trigger] modes[i], width, height) ==> at_least_as_good(
            best,
            modes[i],
        )
}

/// At most one mode is the best match.
pub proof fn lemma_best_match_unique(
    modes: Seq<Resolution>,
    width: u32,
    height: u32,
    a: Resolution,
    b: Resolution,
)
    requires
        is_best_match(modes, width, height, a),
        is_best_match(modes, width, height, b),
    ensures
        a == b,
{
    let i = choose|i: int| 0 <= i < modes.len() && modes[i] == a;
    let j = choose|j: int| 0 <= j < modes.len() && modes[j] == b;
    assert(at_least_as_good(b, modes[i]));
    assert(at_least_as_good(a, modes[j]));
}

impl StagingStore {
    /// Refines a choice of dimensions into a full mode of the monitor: among
    /// the modes with exactly these dimensions, the one with the highest
    /// refresh rate and, at that rate, the highest colour depth.
    pub fn best_match(monitor: &Monitor, target_width: u32, target_height: u32) -> (best: Option<
        Resolution,
    >)
        ensures
            best is None <==> forall|i: int|
                0 <= i < monitor.available_resolutions@.len() ==> !fits(
                    #[trigger] monitor.available_resolutions@[i],
                    target_width,
                    target_height,
                ),
            best matches Some(mode) ==> is_best_match(
                monitor.available_resolutions@,
                target_width,
                target_height,
                mode,
            ),
    {
        let modes = &monitor.available_resolutions;
        let mut best: Option<Resolution> = None;
        let mut i: usize = 0;
        while i < modes.len()
            invariant
                i <= modes.len(),
                best is None <==> forall|k: int|
                    0 <= k < i ==> !fits(#[trigger] modes@[k], target_width, target_height),
                best matches Some(mode) ==> is_best_match(
                    modes@.take(i as int),
                    target_width,
                    target_height,
                    mode,
                ),
            decreases modes.len() - i,
        {
            let candidate = modes[i];
            let ghost seen = modes@.take(i as int);
            let ghost more = modes@.take(i + 1);
            proof {
                assert(more =~= seen.push(candidate));
                assert forall|k: int| 0 <= k < seen.len() implies seen[k] == more[k] by {}
            }
            if candidate.width == target_width && candidate.height == target_height {
                let better = match best {
                    None => true,
                    Some(mode) => candidate.frequency > mode.frequency || (candidate.frequency
                        == mode.frequency && candidate.bits_per_pixel >= mode.bits_per_pixel),
                };
                if better {
                    proof {
                        assert(more[i as int] == candidate);
                        assert forall|k: int|
                            0 <= k < more.len() && fits(
                                #[trigger] more[k],
                                target_width,
                                target_height,
                            ) implies at_least_as_good(candidate, more[k]) by {
                            if k < i {
                                assert(seen[k] == more[k]);
                            }
                        }
                    }
                    best = Some(candidate);
                } else {
                    proof {
                        let mode = best.unwrap();
                        let w = choose|w: int| 0 <= w < seen.len() && seen[w] == mode;
                        assert(more[w] == mode);
                        assert forall|k: int|
                            0 <= k < more.len() && fits(
                                #[trigger] more[k],
                                target_width,
                                target_height,
                            ) implies at_least_as_good(mode, more[k]) by {
                            if k < i {
                                assert(seen[k] == more[k]);
                            }
                        }
                    }
                }
            } else {
                proof {
                    if best is Some {
                        let mode = best.unwrap();
                        let w = choose|w: int| 0 <= w < seen.len() && seen[w] == mode;
                        assert(more[w] == mode);
                        assert forall|k: int|
                            0 <= k < more.len() && fits(
                                #[trigger] more[k],
                                target_width,
                                target_height,
                            ) implies at_least_as_good(mode, more[k]) by {
                            if k < i {
                                assert(seen[k] == more[k]);
                            }
                        }
                    }
                }
            }
            i += 1;
        }
        proof {
            assert(modes@.take(i as int) =~= modes@);
        }
        best
    }
}

/// A monitor that staging has not seen before is seeded with exactly what it
/// shows: its current resolution and its current orientation. Where several
/// monitors of a catalog share an id, the first of them counts.
pub proof fn lemma_first_touch(
    resolutions: Map<Id, Resolution>,
    orientations: Map<Id, Orientation>,
    catalog: Seq<Monitor>,
    i: int,
)
    requires
        is_first_monitor(catalog, catalog[i].id@, i),
    ensures
        with_defaults(resolutions, current_resolutions(catalog)).contains_key(catalog[i].id@),
        with_defaults(orientations, current_orientations(catalog)).contains_key(catalog[i].id@),
        !resolutions.contains_key(catalog[i].id@) ==> with_defaults(
            resolutions,
            current_resolutions(catalog),
        )[catalog[i].id@] == catalog[i].current_resolution,
        !orientations.contains_key(catalog[i].id@) ==> with_defaults(
            orientations,
            current_orientations(catalog),
        )[catalog[i].id@] == catalog[i].current_orientation,
{
    lemma_current_values(catalog, catalog[i].id@);
}

/// Reconciling against the same catalog a second time leaves every staged
/// value as the first pass left it.
pub proof fn lemma_reconcile_idempotent<T>(staged: Seq<(Id, T)>, offers: Seq<(Id, T)>)
    ensures
        seed_all(seed_all(staged, offers), offers) == seed_all(staged, offers),
{
    lemma_seed_all_idempotent(staged, offers);
}

} // verus!
