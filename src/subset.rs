use vstd::prelude::*;
use crate::set::HbSet;

verus! {

/// What a subsetting run keeps of a font: the codepoints to retain, the tables to
/// drop, and the layout features and scripts to retain.
#[derive(Debug, PartialEq, Eq)]
pub struct Subset {
    pub input_unicode_set: HbSet,
    pub drop_tables: HbSet,
    pub layout_features: HbSet,
    pub layout_scripts: HbSet,
}

impl Subset {
    /// Each of the four sets is well formed.
    pub open spec fn wf(&self) -> bool {
        &&& self.input_unicode_set.wf()
        &&& self.drop_tables.wf()
        &&& self.layout_features.wf()
        &&& self.layout_scripts.wf()
    }

    /// A request that retains no codepoint. The library starts the table and layout
    /// selections empty too (no table dropped, no layout feature or script selected)
    /// rather than with a subsetting engine's own default lists; `clear_drop_table`
    /// and `adjust_layout` set them to the policies this library uses.
    pub fn new() -> (r: Subset)
        ensures
            r.wf(),
            r.input_unicode_set@ == Set::<u32>::empty(),
            r.drop_tables@ == Set::<u32>::empty(),
            r.layout_features@ == Set::<u32>::empty(),
            r.layout_scripts@ == Set::<u32>::empty(),
            !r.input_unicode_set.inverted_spec(),
    {
        Subset {
            input_unicode_set: HbSet::new(),
            drop_tables: HbSet::new(),
            layout_features: HbSet::new(),
            layout_scripts: HbSet::new(),
        }
    }

    /// Drops no table: the set of tables to drop becomes empty.
    pub fn clear_drop_table(&mut self)
        requires
            old(self).wf(),
        ensures
            final(self).wf(),
            final(self).drop_tables@ == Set::<u32>::empty(),
            final(self).input_unicode_set == old(self).input_unicode_set,
            final(self).layout_features == old(self).layout_features,
            final(self).layout_scripts == old(self).layout_scripts,
    {
        self.drop_tables.clear();
    }

    /// Retains every layout feature and every script: each of the two selections is
    /// cleared, then inverted.
    pub fn adjust_layout(&mut self)
        requires
            old(self).wf(),
        ensures
            final(self).wf(),
            final(self).layout_features@ == Set::<u32>::full(),
            final(self).layout_scripts@ == Set::<u32>::full(),
            final(self).input_unicode_set == old(self).input_unicode_set,
            final(self).drop_tables == old(self).drop_tables,
    {
        self.layout_features.clear();
        self.layout_features.invert();
        self.layout_scripts.clear();
        self.layout_scripts.invert();
        proof {
            assert(Set::<u32>::full().difference(Set::<u32>::empty()) =~= Set::<u32>::full());
        }
    }
}

} // verus!
