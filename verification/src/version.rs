//! Attribute names that changed from one version of the conventions to the next.

use crate::name_map::NameMap;
use vstd::prelude::*;

verus! {

/// The current name of the attribute that was once called `name`: the name it was
/// renamed to, or `name` itself where it was not renamed.
pub open spec fn current_name(renames: Map<Seq<char>, Seq<char>>, name: Seq<char>) -> Seq<char> {
    if renames.dom().contains(name) {
        renames[name]
    } else {
        name
    }
}

/// The renamings of attributes, by their earlier name.
#[derive(Debug)]
pub struct VersionChanges {
    renames: NameMap<String>,
}

impl VersionChanges {
    /// The current name for each earlier name.
    pub closed spec fn view(&self) -> Map<Seq<char>, Seq<char>> {
        self.renames@.map_values(|name: String| name@)
    }

    /// The earlier names are held in order, each once.
    pub closed spec fn wf(&self) -> bool {
        self.renames.wf()
    }

    /// No renamings.
    pub fn new() -> (changes: Self)
        ensures
            changes.wf(),
            changes@ == Map::<Seq<char>, Seq<char>>::empty(),
    {
        let changes = VersionChanges { renames: NameMap::new() };
        assert(changes@ =~= Map::<Seq<char>, Seq<char>>::empty());
        changes
    }

    /// Records that the attribute once called `old_name` is now called
    /// `new_name`, in place of an earlier renaming of `old_name`.
    pub fn add_attribute_rename(&mut self, old_name: String, new_name: String)
        requires
            old(self).wf(),
        ensures
            final(self).wf(),
            final(self)@ == old(self)@.insert(old_name@, new_name@),
    {
        self.renames.insert(old_name, new_name);
        assert(self@ =~= old(self)@.insert(old_name@, new_name@));
    }

    /// The current name of the attribute `name`.
    pub fn get_attribute_name(&self, name: &str) -> (current: String)
        requires
            self.wf(),
        ensures
            current@ == current_name(self@, name@),
    {
        match self.renames.get(name) {
            Some(renamed) => renamed.clone(),
            None => name.to_owned(),
        }
    }
}

} // verus!
