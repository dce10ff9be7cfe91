//! Named API credentials and the one selected.
use vstd::prelude::*;
use crate::config::Config;

verus! {

#[derive(Clone, Debug)]
pub struct Profile {
    pub name: String,
    pub api_key: String,
}

/// The profiles and the index of the selected one.
pub struct ProfileManager {
    pub profiles: Vec<Profile>,
    pub selected_index: usize,
    pub config: Config,
}

/// The profile offered where none is stored yet.
pub fn default_profile() -> (r: Profile)
    ensures
        r.name@ == "Добавить"@,
        r.api_key@.len() == 0,
{
    Profile { name: "Добавить".to_owned(), api_key: String::new() }
}

impl ProfileManager {
    /// The selected index points at a profile whenever there is one.
    pub open spec fn wf(&self) -> bool {
        self.profiles@.len() > 0 ==> self.selected_index < self.profiles@.len()
    }

    /// A manager over `profiles`, with the first one selected.
    pub fn with_profiles(profiles: Vec<Profile>, config: Config) -> (r: ProfileManager)
        ensures
            r.wf(),
            r.profiles@ == profiles@,
            r.selected_index == 0,
            r.config == config,
    {
        ProfileManager { profiles, selected_index: 0, config }
    }

    /// Adds a profile with an empty key and selects it.
    pub fn add_profile(&mut self, name: String)
        requires
            old(self).profiles@.len() < usize::MAX,
        ensures
            final(self).wf(),
            final(self).profiles@.len() == old(self).profiles@.len() + 1,
            final(self).profiles@.drop_last() == old(self).profiles@,
            final(self).profiles@.last().name == name,
            final(self).profiles@.last().api_key@.len() == 0,
            final(self).selected_index == old(self).profiles@.len(),
            final(self).config == old(self).config,
    {
        self.profiles.push(Profile { name, api_key: String::new() });
        assert(self.profiles@.drop_last() =~= old(self).profiles@);
        self.selected_index = self.profiles.len() - 1;
    }

    /// Removes the profile at `index`; a selection past the end moves to the
    /// last remaining profile.
    pub fn delete_profile(&mut self, index: usize)
        requires
            index < old(self).profiles@.len(),
        ensures
            final(self).wf(),
            final(self).profiles@ == old(self).profiles@.remove(index as int),
            final(self).selected_index == if old(self).selected_index
                < old(self).profiles@.len() - 1 {
                old(self).selected_index
            } else if final(self).profiles@.len() == 0 {
                0
            } else {
                (final(self).profiles@.len() - 1) as usize
            },
            final(self).config == old(self).config,
    {
        self.profiles.remove(index);
        if self.selected_index >= self.profiles.len() {
            self.selected_index = self.profiles.len().saturating_sub(1);
        }
    }

    pub fn current_profile(&self) -> (r: &Profile)
        requires
            self.selected_index < self.profiles@.len(),
        ensures
            *r == self.profiles@[self.selected_index as int],
    {
        &self.profiles[self.selected_index]
    }

    pub fn current_profile_mut(&mut self) -> (r: &mut Profile)
        requires
            old(self).selected_index < old(self).profiles@.len(),
        ensures
            *r == old(self).profiles@[old(self).selected_index as int],
            final(self).profiles@ == old(self).profiles@.update(
                old(self).selected_index as int,
                *final(r),
            ),
            final(self).selected_index == old(self).selected_index,
            final(self).config == old(self).config,
    {
        let i = self.selected_index;
        &mut self.profiles[i]
    }
}

} // verus!
