//! The profile store: general settings and named profiles, as they are
//! persisted.

use vstd::prelude::*;

use crate::display::Resolution;
use crate::error::PersistError;
use crate::id_map::{Id, IdMap};

verus! {

/// The number of ticks before an unconfirmed change is reverted, where the
/// configuration does not say.
pub fn default_reset_timeout() -> (ticks: u8)
    ensures
        ticks == 15,
{
    15
}

#[derive(Debug, Clone)]
pub struct GeneralConfig {
    /// Ticks (seconds) before an unconfirmed change is reverted.
    pub reset_timeout: u8,
}

impl Default for GeneralConfig {
    fn default() -> (config: Self)
        ensures
            config.reset_timeout == 15,
    {
        GeneralConfig { reset_timeout: default_reset_timeout() }
    }
}

/// The resolution a profile holds for one monitor.
#[derive(Debug, Clone, PartialEq)]
pub struct MonitorSetting {
    pub monitor_id: String,
    pub resolution: Resolution,
}

/// A named list of per-monitor settings. The name is the profile's identity
/// within the configuration.
#[derive(Debug, Clone, PartialEq)]
pub struct Profile {
    pub name: String,
    pub settings: Vec<MonitorSetting>,
}

/// Everything that is persisted.
#[derive(Debug, Clone)]
pub struct AppConfig {
    pub general: GeneralConfig,
    pub profiles: Vec<Profile>,
}

impl Default for AppConfig {
    fn default() -> (config: Self)
        ensures
            config.general.reset_timeout == 15,
            config.profiles@ == Seq::<Profile>::empty(),
    {
        AppConfig { general: GeneralConfig::default(), profiles: Vec::new() }
    }
}

/// The settings of a profile as pairs of monitor id and resolution.
pub open spec fn setting_entries(settings: Seq<MonitorSetting>) -> Seq<(Id, Resolution)> {
    settings.map_values(|s: MonitorSetting| (s.monitor_id@, s.resolution))
}

/// Whether a profile of this name is in the list.
pub open spec fn has_profile(profiles: Seq<Profile>, name: Id) -> bool {
    exists|i: int| 0 <= i < profiles.len() && (#[trigger] profiles[i]).name@ == name
}

/// `i` is the first index at which `profiles` holds a profile of this name.
pub open spec fn is_first_profile(profiles: Seq<Profile>, name: Id, i: int) -> bool {
    &&& 0 <= i < profiles.len()
    &&& profiles[i].name@ == name
    &&& forall|j: int| 0 <= j < i ==> (#[trigger] profiles[j]).name@ != name
}

/// The profiles that do not have the given name, in their order.
pub open spec fn without_name(profiles: Seq<Profile>, name: Id) -> Seq<Profile> {
    profiles.filter(|p: Profile| p.name@ != name)
}

/// The list after saving `profile` under its name: any profile of that name
/// is gone and the new one stands at the end.
pub open spec fn replaced(profiles: Seq<Profile>, profile: Profile) -> Seq<Profile> {
    without_name(profiles, profile.name@).push(profile)
}

/// What appending one profile does to `without_name` and to the names that
/// occur.
pub proof fn lemma_without_name_push(profiles: Seq<Profile>, profile: Profile, name: Id)
    ensures
        without_name(profiles.push(profile), name) == if profile.name@ != name {
            without_name(profiles, name).push(profile)
        } else {
            without_name(profiles, name)
        },
        forall|other: Id|
            has_profile(profiles.push(profile), other) == (has_profile(profiles, other)
                || profile.name@ == other),
{
    reveal(Seq::filter);
    let longer = profiles.push(profile);
    assert(longer.drop_last() =~= profiles);
    assert forall|other: Id|
        has_profile(longer, other) == (has_profile(profiles, other) || profile.name@
            == other) by {
        if has_profile(longer, other) {
            let i = choose|i: int| 0 <= i < longer.len() && (#[trigger] longer[i]).name@ == other;
            if i < profiles.len() {
                assert(profiles[i].name@ == other);
            }
        }
        if has_profile(profiles, other) {
            let i = choose|i: int|
                0 <= i < profiles.len() && (#[trigger] profiles[i]).name@ == other;
            assert(longer[i].name@ == other);
        }
        if profile.name@ == other {
            assert(longer[profiles.len() as int].name@ == other);
        }
    }
}

/// Nothing in `without_name` has the name, removing a name twice is removing
/// it once, and a list without the name is left as it is.
pub proof fn lemma_without_name(profiles: Seq<Profile>, name: Id)
    ensures
        !has_profile(without_name(profiles, name), name),
        without_name(without_name(profiles, name), name) == without_name(profiles, name),
        !has_profile(profiles, name) ==> without_name(profiles, name) == profiles,
    decreases profiles.len(),
{
    let kept = without_name(profiles, name);
    if profiles.len() == 0 {
        reveal(Seq::filter);
        assert(kept =~= profiles);
        assert(without_name(kept, name) =~= kept);
    } else {
        let earlier = profiles.drop_last();
        let last = profiles.last();
        let kept_earlier = without_name(earlier, name);
        lemma_without_name(earlier, name);
        assert(profiles =~= earlier.push(last));
        lemma_without_name_push(earlier, last, name);
        lemma_without_name_push(kept_earlier, last, name);
    }
}

/// Removing one name leaves every other name where it was.
pub proof fn lemma_without_name_keeps(profiles: Seq<Profile>, name: Id, other: Id)
    requires
        other != name,
    ensures
        has_profile(without_name(profiles, name), other) == has_profile(profiles, other),
    decreases profiles.len(),
{
    if profiles.len() == 0 {
        reveal(Seq::filter);
        assert(without_name(profiles, name) =~= profiles);
    } else {
        let earlier = profiles.drop_last();
        let last = profiles.last();
        lemma_without_name_keeps(earlier, name, other);
        assert(profiles =~= earlier.push(last));
        lemma_without_name_push(earlier, last, name);
        lemma_without_name_push(without_name(earlier, name), last, name);
    }
}

/// No two profiles of the list have the same name.
pub open spec fn distinct_names(profiles: Seq<Profile>) -> bool {
    forall|i: int, j: int|
        0 <= i < j < profiles.len() ==> (#[trigger] profiles[i]).name@ != (
        #[trigger] profiles[j]).name@
}

/// Appending a profile whose name is new keeps names distinct.
proof fn lemma_new_name(profiles: Seq<Profile>, profile: Profile)
    requires
        distinct_names(profiles),
        !has_profile(profiles, profile.name@),
    ensures
        distinct_names(profiles.push(profile)),
{
    let longer = profiles.push(profile);
    assert forall|i: int, j: int| 0 <= i < j < longer.len() implies (#[trigger] longer[i]).name@
        != (#[trigger] longer[j]).name@ by {
        if j < profiles.len() {
            assert(profiles[i].name@ != profiles[j].name@);
        } else {
            assert(longer[i] == profiles[i]);
        }
    }
}

/// Removing a name keeps names distinct.
proof fn lemma_without_name_distinct(profiles: Seq<Profile>, name: Id)
    requires
        distinct_names(profiles),
    ensures
        distinct_names(without_name(profiles, name)),
    decreases profiles.len(),
{
    if profiles.len() == 0 {
        reveal(Seq::filter);
        assert(without_name(profiles, name) =~= profiles);
    } else {
        let earlier = profiles.drop_last();
        let last = profiles.last();
        assert(profiles =~= earlier.push(last));
        assert(distinct_names(earlier)) by {
            assert forall|i: int, j: int| 0 <= i < j < earlier.len() implies (
            #[trigger] earlier[i]).name@ != (#[trigger] earlier[j]).name@ by {
                assert(profiles[i].name@ != profiles[j].name@);
            }
        }
        lemma_without_name_distinct(earlier, name);
        lemma_without_name_push(earlier, last, name);
        if last.name@ != name {
            assert(!has_profile(earlier, last.name@)) by {
                if has_profile(earlier, last.name@) {
                    let i = choose|i: int|
                        0 <= i < earlier.len() && (#[trigger] earlier[i]).name@ == last.name@;
                    assert(profiles[i].name@ != profiles[profiles.len() - 1].name@);
                }
            }
            lemma_without_name_keeps(earlier, name, last.name@);
            lemma_new_name(without_name(earlier, name), last);
        }
    }
}

/// Names are the key of the store: in a list without repeated names a save
/// leaves none repeated.
pub proof fn lemma_replaced_keeps_names_distinct(profiles: Seq<Profile>, profile: Profile)
    requires
        distinct_names(profiles),
    ensures
        distinct_names(replaced(profiles, profile)),
{
    lemma_without_name_distinct(profiles, profile.name@);
    lemma_without_name(profiles, profile.name@);
    lemma_new_name(without_name(profiles, profile.name@), profile);
}

/// After a save the list holds exactly one profile of that name: the one
/// just saved, at the end.
pub proof fn lemma_replaced_holds_once(profiles: Seq<Profile>, profile: Profile)
    ensures
        replaced(profiles, profile).last() == profile,
        forall|i: int|
            0 <= i < replaced(profiles, profile).len() && (#[trigger] replaced(
                profiles,
                profile,
            )[i]).name@ == profile.name@ ==> i == replaced(profiles, profile).len() - 1,
        is_first_profile(
            replaced(profiles, profile),
            profile.name@,
            replaced(profiles, profile).len() - 1,
        ),
{
    lemma_without_name(profiles, profile.name@);
    let kept = without_name(profiles, profile.name@);
    let after = replaced(profiles, profile);
    assert forall|i: int| 0 <= i < after.len() && (#[trigger] after[i]).name@
        == profile.name@ implies i == after.len() - 1 by {
        if i < kept.len() {
            assert(kept[i].name@ == profile.name@);
        }
    }
}

/// Saving twice under one name is the same as saving the second profile
/// alone: the last write wins.
pub proof fn lemma_last_save_wins(profiles: Seq<Profile>, first: Profile, second: Profile)
    requires
        first.name@ == second.name@,
    ensures
        replaced(replaced(profiles, first), second) == replaced(profiles, second),
{
    let name = first.name@;
    lemma_without_name(profiles, name);
    lemma_without_name_push(without_name(profiles, name), first, name);
}

impl Profile {
    /// A profile that holds the staged resolutions, in the order in which
    /// they are staged.
    pub fn from_staged(name: String, staged: &IdMap<Resolution>) -> (profile: Profile)
        ensures
            profile.name@ == name@,
            setting_entries(profile.settings@) == staged.entries(),
    {
        let mut settings: Vec<MonitorSetting> = Vec::new();
        let mut i: usize = 0;
        while i < staged.len()
            invariant
                i <= staged.entries().len(),
                setting_entries(settings@) == staged.entries().take(i as int),
            decreases staged.entries().len() - i,
        {
            let ghost before = setting_entries(settings@);
            settings.push(
                MonitorSetting {
                    monitor_id: staged.id_at(i).clone(),
                    resolution: *staged.value_at(i),
                },
            );
            proof {
                assert(setting_entries(settings@) =~= before.push(staged.entries()[i as int]));
                assert(staged.entries().take(i + 1) =~= staged.entries().take(i as int).push(
                    staged.entries()[i as int],
                ));
            }
            i += 1;
        }
        proof {
            assert(staged.entries().take(i as int) =~= staged.entries());
        }
        Profile { name, settings }
    }
}

impl AppConfig {
    /// The first profile of the given name, by index.
    pub fn find_profile(&self, name: &String) -> (found: Option<usize>)
        ensures
            found is Some <==> has_profile(self.profiles@, name@),
            found matches Some(i) ==> is_first_profile(self.profiles@, name@, i as int),
    {
        let mut i: usize = 0;
        while i < self.profiles.len()
            invariant
                i <= self.profiles.len(),
                forall|j: int| 0 <= j < i ==> (#[trigger] self.profiles@[j]).name@ != name@,
            decreases self.profiles.len() - i,
        {
            if self.profiles[i].name == *name {
                return Some(i);
            }
            i += 1;
        }
        None
    }

    /// Deletes every profile of the given name and says whether there was
    /// one.
    pub fn remove_profile(&mut self, name: &String) -> (removed: bool)
        ensures
            final(self).profiles@ == without_name(old(self).profiles@, name@),
            final(self).general == old(self).general,
            removed == has_profile(old(self).profiles@, name@),
    {
        let ghost before = self.profiles@;
        let ghost mut done: int = 0;
        let mut removed = false;
        let mut i: usize = 0;
        proof {
            reveal(Seq::filter);
            assert(before.take(0) =~= Seq::<Profile>::empty());
            assert(before.skip(0) =~= before);
            assert(without_name(before.take(0), name@) + before.skip(0) =~= before);
        }
        while i < self.profiles.len()
            invariant
                0 <= done <= before.len(),
                i == without_name(before.take(done), name@).len(),
                self.profiles@ == without_name(before.take(done), name@) + before.skip(done),
                self.general == old(self).general,
                removed == has_profile(before.take(done), name@),
            decreases before.len() - done,
        {
            proof {
                assert(done < before.len());
                assert(self.profiles@[i as int] == before[done]);
                assert(before.take(done + 1) =~= before.take(done).push(before[done]));
                lemma_without_name_push(before.take(done), before[done], name@);
                assert(before.skip(done) =~= seq![before[done]] + before.skip(done + 1));
            }
            if self.profiles[i].name == *name {
                self.profiles.remove(i);
                removed = true;
                proof {
                    assert(self.profiles@ =~= without_name(before.take(done + 1), name@)
                        + before.skip(done + 1));
                }
            } else {
                proof {
                    assert(self.profiles@ =~= without_name(before.take(done + 1), name@)
                        + before.skip(done + 1));
                }
                i += 1;
            }
            proof {
                done = done + 1;
            }
        }
        proof {
            assert(done == before.len()) by {
                assert(self.profiles@.len() == i + before.skip(done).len());
            }
            assert(before.take(done) =~= before);
            assert(before.skip(done) =~= Seq::<Profile>::empty());
        }
        removed
    }

    /// Saves a profile under its name: a profile that had the name is
    /// replaced, and the new one goes to the end of the list.
    pub fn add_or_replace(&mut self, profile: Profile)
        ensures
            final(self).profiles@ == replaced(old(self).profiles@, profile),
            final(self).general == old(self).general,
    {
        self.remove_profile(&profile.name);
        self.profiles.push(profile);
    }
}

/// Decides what a session starts from, given what was found in storage.
#[derive(Debug)]
pub struct ConfigManager;

impl ConfigManager {
    /// The configuration to work with: the stored one, the default where
    /// nothing is stored yet (that is no error), and an error where what is
    /// stored could not be read.
    pub fn load(stored: Option<Result<AppConfig, String>>) -> (loaded: Result<
        AppConfig,
        PersistError,
    >)
        ensures
            stored is None ==> loaded is Ok && loaded->Ok_0.general.reset_timeout == 15
                && loaded->Ok_0.profiles@ == Seq::<Profile>::empty(),
            stored matches Some(Ok(config)) ==> loaded == Ok::<AppConfig, PersistError>(config),
            stored matches Some(Err(detail)) ==> loaded is Err && loaded->Err_0.detail
                == detail,
    {
        match stored {
            None => Ok(AppConfig::default()),
            Some(Ok(config)) => Ok(config),
            Some(Err(detail)) => Err(PersistError { detail }),
        }
    }
}

} // verus!
