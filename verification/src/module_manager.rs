//! The units that have been loaded, each under its canonical path, and
//! the directories in which an included file is looked for.

use vstd::prelude::*;
use crate::text::{spec_lines, str_eq, text_lines};

verus! {

/// The lines of one source file.
pub struct AsmUnit<'a> {
    pub lines: Vec<&'a str>,
}

impl<'a> AsmUnit<'a> {
    /// The characters of each line.
    pub open spec fn lines_view(&self) -> Seq<Seq<char>> {
        Seq::new(self.lines@.len(), |i: int| self.lines@[i]@)
    }

    /// Splits the text of a file into its lines.
    pub fn new(raw_source: &'a str) -> (unit: Self)
        ensures
            unit.lines_view() == spec_lines(raw_source@),
    {
        AsmUnit { lines: text_lines(raw_source) }
    }
}

/// The include paths and the loaded units.
pub struct ModuleManager<'a> {
    include_paths: Vec<String>,
    units: Vec<(&'a str, AsmUnit<'a>)>,
}

impl<'a> ModuleManager<'a> {
    /// The canonical paths of the loaded units, in the order of loading.
    pub closed spec fn loaded(&self) -> Seq<Seq<char>> {
        Seq::new(self.units@.len(), |i: int| self.units@[i].0@)
    }

    /// The lines of the loaded units, in the order of loading.
    pub closed spec fn sources(&self) -> Seq<Seq<Seq<char>>> {
        Seq::new(self.units@.len(), |i: int| self.units@[i].1.lines_view())
    }

    /// The directories to search, in their order.
    pub closed spec fn search_paths(&self) -> Seq<Seq<char>> {
        Seq::new(self.include_paths@.len(), |i: int| self.include_paths@[i]@)
    }

    /// No path is loaded twice.
    pub open spec fn wf(&self) -> bool {
        self.loaded().no_duplicates()
    }

    /// A manager without units, with the given include paths.
    pub fn new(include_paths: Vec<String>) -> (manager: Self)
        ensures
            manager.wf(),
            manager.loaded() == Seq::<Seq<char>>::empty(),
            manager.sources() == Seq::<Seq<Seq<char>>>::empty(),
            manager.search_paths() == Seq::new(include_paths@.len(), |i: int| include_paths@[i]@),
    {
        let manager = ModuleManager { include_paths, units: Vec::new() };
        assert(manager.loaded() =~= Seq::<Seq<char>>::empty());
        assert(manager.sources() =~= Seq::<Seq<Seq<char>>>::empty());
        manager
    }

    /// The number of include paths.
    pub fn include_path_count(&self) -> (count: usize)
        ensures
            count == self.search_paths().len(),
    {
        self.include_paths.len()
    }

    /// The include path with the given index.
    pub fn include_path(&self, index: usize) -> (path: &String)
        requires
            index < self.search_paths().len(),
        ensures
            path@ == self.search_paths()[index as int],
    {
        &self.include_paths[index]
    }

    /// The number of loaded units.
    pub fn unit_count(&self) -> (count: usize)
        ensures
            count == self.loaded().len(),
            count == self.sources().len(),
    {
        self.units.len()
    }

    /// The position of the unit with this canonical path among the loaded ones.
    fn find(&self, path: &str) -> (found: Option<usize>)
        ensures
            found is Some <==> self.loaded().contains(path@),
            found is Some ==> found->0 < self.loaded().len() && self.loaded()[found->0 as int] == path@,
            found is Some ==> found->0 < self.units@.len(),
    {
        let mut at: usize = 0;
        while at < self.units.len()
            invariant
                at <= self.units@.len(),
                forall|i: int| 0 <= i < at ==> self.loaded()[i] != path@,
            decreases self.units@.len() - at,
        {
            if str_eq(self.units[at].0, path) {
                assert(self.loaded()[at as int] == path@);
                return Some(at);
            }
            at = at + 1;
        }
        None
    }

    /// Whether a unit is loaded under this canonical path.
    pub fn is_loaded(&self, path: &str) -> (loaded: bool)
        ensures
            loaded == self.loaded().contains(path@),
    {
        self.find(path).is_some()
    }

    /// Records a unit under its canonical path.
    pub fn add_unit(&mut self, path: &'a str, unit: AsmUnit<'a>)
        requires
            old(self).wf(),
            !old(self).loaded().contains(path@),
        ensures
            final(self).wf(),
            final(self).loaded() == old(self).loaded().push(path@),
            final(self).sources() == old(self).sources().push(unit.lines_view()),
            final(self).search_paths() == old(self).search_paths(),
    {
        self.units.push((path, unit));
        assert(self.loaded() =~= old(self).loaded().push(path@));
        assert(self.sources() =~= old(self).sources().push(unit.lines_view()));
        assert(self.search_paths() =~= old(self).search_paths());
    }

    /// The unit that is loaded under this canonical path.
    pub fn get_unit(&self, path: &str) -> (unit: Option<&AsmUnit<'a>>)
        ensures
            unit is Some <==> self.loaded().contains(path@),
            unit is Some ==> exists|i: int|
                0 <= i < self.loaded().len() && self.loaded()[i] == path@ && unit->0.lines_view()
                    == #[trigger] self.sources()[i],
    {
        match self.find(path) {
            Some(at) => {
                assert(self.sources()[at as int] == self.units@[at as int].1.lines_view());
                Some(&self.units[at].1)
            },
            None => None,
        }
    }
}

} // verus!
