use vstd::prelude::*;
use vstd::string::StringExecFns;
use crate::bytecode::opcode::{texts_of, Chunk};
use crate::bytecode::value::Value;
use crate::compiler::{find_name, has_name};
use crate::index::{name_index_entries, no_entries, NameIndex};
use crate::text::{chars_of, concat, str_eq, string_of};

verus! {

broadcast use vstd::std_specs::vec::group_vec_axioms;

/// Module-related errors.
#[derive(Debug)]
pub enum ModuleError {
    ModuleNotFound { name: String },
    /// A module is being loaded that is being loaded already; the chain
    /// names the modules in the order in which their loading began.
    CircularDependency { chain: String },
    ReadError { name: String, reason: String },
    SymbolNotExported { symbol: String, module: String },
    AlreadyLoaded { name: String },
}

/// A loaded module: its compiled chunk, and what it exports.
#[derive(Debug)]
pub struct Module {
    /// Module name.
    pub name: String,
    /// Compiled bytecode for this module.
    pub chunk: Chunk,
    /// Exported symbol names, in the order of their export.
    pub exports: Vec<String>,
    /// The position in `values` of the value that was set for each name.
    pub names: NameIndex,
    /// The values that were set, in the order of their setting.
    pub values: Vec<Value>,
}

impl Module {
    /// The values that were set for names, by name.
    pub open spec fn export_values(&self) -> Map<Seq<char>, Value> {
        Map::new(
            |name: Seq<char>| name_index_entries(self.names.map).contains_key(name),
            |name: Seq<char>| self.values@[name_index_entries(self.names.map)[name] as int],
        )
    }

    /// Every position that the table of names holds lies in the values.
    pub open spec fn well_formed(&self) -> bool {
        forall|name: Seq<char>|
            (#[trigger] name_index_entries(self.names.map).contains_key(name)) ==> name_index_entries(self.names.map)[name] < self.values@.len()
    }

    pub fn new(name: String, chunk: Chunk) -> (r: Self)
        ensures
            r.well_formed(),
            r.name == name,
            r.chunk == chunk,
            r.exports@.len() == 0,
            r.export_values() == Map::<Seq<char>, Value>::empty(),
    {
        let r = Self { name, chunk, exports: Vec::new(), names: NameIndex::new(), values: Vec::new() };
        proof {
            assert(name_index_entries(r.names.map) == no_entries());
            assert(r.export_values() =~= Map::<Seq<char>, Value>::empty());
        }
        r
    }

    /// Mark a symbol as exported; one that is exported already stays where
    /// it is.
    pub fn export(&mut self, name: String)
        ensures
            final(self).names == old(self).names,
            final(self).values == old(self).values,
            final(self).name == old(self).name,
            final(self).chunk == old(self).chunk,
            has_name(old(self).exports@, name@) ==> final(self).exports == old(self).exports,
            !has_name(old(self).exports@, name@) ==> final(self).exports@ == old(self).exports@.push(name),
    {
        if find_name(&self.exports, name.as_str()).is_none() {
            self.exports.push(name);
        }
    }

    /// Set an exported value.
    pub fn set_export_value(&mut self, name: String, value: Value)
        requires
            old(self).well_formed(),
        ensures
            final(self).well_formed(),
            final(self).export_values() == old(self).export_values().insert(name@, value),
            final(self).exports == old(self).exports,
            final(self).name == old(self).name,
            final(self).chunk == old(self).chunk,
    {
        let position = self.values.len();
        self.values.push(value);
        self.names.insert(name.as_str(), position);
        proof {
            assert(self.export_values() =~= old(self).export_values().insert(name@, value));
        }
    }

    /// Get an exported value: the value that was set for a name, if the
    /// name is exported.
    pub fn get_export(&self, name: &str) -> (r: Option<&Value>)
        requires
            self.well_formed(),
        ensures
            has_name(self.exports@, name@) && self.export_values().contains_key(name@) ==> r
                == Some(&self.export_values()[name@]),
            !(has_name(self.exports@, name@) && self.export_values().contains_key(name@)) ==> r
                is None,
    {
        if find_name(&self.exports, name).is_some() {
            match self.names.get(name) {
                Some(position) => Some(&self.values[position]),
                None => None,
            }
        } else {
            None
        }
    }

    /// Check if symbol is exported.
    pub fn is_exported(&self, name: &str) -> (b: bool)
        ensures
            b == has_name(self.exports@, name@),
    {
        find_name(&self.exports, name).is_some()
    }
}

/// Where a module's source may lie: a file name, in a directory of the
/// search path or, without one, as it is given.
#[derive(Debug)]
pub struct Candidate {
    pub directory: Option<String>,
    pub file: String,
}

/// Whether a text ends with another.
pub open spec fn ends_with(s: Seq<char>, suffix: Seq<char>) -> bool {
    s.len() >= suffix.len() && s.subrange(s.len() - suffix.len(), s.len() as int) == suffix
}

/// A text without the repetitions of a suffix at its end.
pub open spec fn without_suffix(s: Seq<char>, suffix: Seq<char>) -> Seq<char>
    decreases s.len(),
{
    if suffix.len() > 0 && ends_with(s, suffix) {
        without_suffix(s.subrange(0, s.len() - suffix.len()), suffix)
    } else {
        s
    }
}

/// The names without the occurrences of one name, in their order.
pub open spec fn without_name(names: Seq<String>, name: Seq<char>) -> Seq<Seq<char>>
    decreases names.len(),
{
    if names.len() == 0 {
        Seq::empty()
    } else if names.last()@ == name {
        without_name(names.drop_last(), name)
    } else {
        without_name(names.drop_last(), name).push(names.last()@)
    }
}

/// The names, with an arrow between each two.
pub open spec fn chained(names: Seq<String>) -> Seq<char>
    decreases names.len(),
{
    if names.len() == 0 {
        Seq::empty()
    } else if names.len() == 1 {
        names[0]@
    } else {
        chained(names.drop_last()) + " → "@ + names.last()@
    }
}

fn text_ends_with(chars: &Vec<char>, suffix: &Vec<char>) -> (b: bool)
    ensures
        b == ends_with(chars@, suffix@),
{
    if chars.len() < suffix.len() {
        return false;
    }
    let offset = chars.len() - suffix.len();
    let mut i: usize = 0;
    while i < suffix.len()
        invariant
            i <= suffix.len(),
            offset + suffix.len() == chars.len(),
            forall|j: int| 0 <= j < i ==> chars@[offset + j] == suffix@[j],
        decreases suffix.len() - i,
    {
        if chars[offset + i] != suffix[i] {
            proof {
                assert(chars@.subrange(offset as int, chars@.len() as int)[i as int] == chars@[offset
                    + i]);
            }
            return false;
        }
        i += 1;
    }
    proof {
        assert(chars@.subrange(offset as int, chars@.len() as int) =~= suffix@);
    }
    true
}

/// The file names under which a module is searched: the name itself where
/// it has one of the two extensions, else the name with the source
/// extension; and the name, without the source extension, with the library
/// extension.
pub fn file_names(name: &str) -> (r: (String, String))
    ensures
        r.0@ == (if ends_with(name@, ".obk"@) || ends_with(name@, ".obx"@) {
            name@
        } else {
            name@ + ".obk"@
        }),
        r.1@ == without_suffix(name@, ".obk"@) + ".obx"@,
{
    let chars = chars_of(name);
    let obk = chars_of(".obk");
    let obx = chars_of(".obx");
    let with_ext = if text_ends_with(&chars, &obk) || text_ends_with(&chars, &obx) {
        String::from_str(name)
    } else {
        concat(name, ".obk")
    };
    proof {
        reveal_strlit(".obk");
    }
    let mut end: usize = chars.len();
    proof {
        assert(chars@.subrange(0, end as int) =~= chars@);
    }
    loop
        invariant_except_break
            without_suffix(chars@, obk@) == without_suffix(chars@.subrange(0, end as int), obk@),
        invariant
            end <= chars.len(),
            obk@ == ".obk"@,
            obk@.len() == 4,
        ensures
            end <= chars.len(),
            without_suffix(chars@, obk@) == chars@.subrange(0, end as int),
        decreases end,
    {
        let prefix = string_of(&chars, 0, end);
        let prefix_chars = chars_of(prefix.as_str());
        if !text_ends_with(&prefix_chars, &obk) {
            break ;
        }
        proof {
            assert(chars@.subrange(0, end as int).subrange(0, end - 4) =~= chars@.subrange(
                0,
                end - 4,
            ));
        }
        end = end - 4;
    }
    proof {
        assert(chars@.subrange(0, chars@.len() as int) =~= chars@);
    }
    let stem = string_of(&chars, 0, end);
    (with_ext, concat(stem.as_str(), ".obx"))
}

/// Module loader: the search path, the modules that are loaded, and the
/// modules whose loading is in progress.
#[derive(Debug)]
pub struct ModuleLoader {
    search_paths: Vec<String>,
    loaded: NameIndex,
    modules: Vec<Module>,
    loading_stack: Vec<String>,
}

impl ModuleLoader {
    /// The directories that are searched, in their order.
    pub closed spec fn search_path(&self) -> Seq<Seq<char>> {
        texts_of(self.search_paths@)
    }

    /// The index of each loaded module, by name.
    pub closed spec fn loaded(&self) -> Map<Seq<char>, usize> {
        name_index_entries(self.loaded.map)
    }

    /// The loaded modules, in the order of their loading.
    pub closed spec fn modules(&self) -> Seq<Module> {
        self.modules@
    }

    /// The names of the modules whose loading is in progress, outermost
    /// first.
    pub closed spec fn loading(&self) -> Seq<String> {
        self.loading_stack@
    }

    /// A loader that searches the current directory.
    pub fn new() -> (r: Self)
        ensures
            r.search_path() == seq!["."@],
            r.loaded() == Map::<Seq<char>, usize>::empty(),
            r.modules().len() == 0,
            r.loading().len() == 0,
    {
        let mut search_paths: Vec<String> = Vec::new();
        search_paths.push(String::from_str("."));
        let r = Self {
            search_paths,
            loaded: NameIndex::new(),
            modules: Vec::new(),
            loading_stack: Vec::new(),
        };
        proof {
            assert(r.search_path() =~= seq!["."@]);
            assert(name_index_entries(r.loaded.map) == no_entries());
        }
        r
    }

    /// Add a search path for modules.
    pub fn add_search_path(&mut self, path: &str)
        ensures
            final(self).search_path() == old(self).search_path().push(path@),
            final(self).loaded() == old(self).loaded(),
            final(self).modules() == old(self).modules(),
            final(self).loading() == old(self).loading(),
    {
        self.search_paths.push(String::from_str(path));
        proof {
            assert(self.search_path() =~= old(self).search_path().push(path@));
        }
    }

    /// The places where the source of a module is looked for, in the order
    /// in which they are tried: the name as a path of its own; then, in
    /// each directory of the search path, the name with the source
    /// extension and the name with the library extension.
    pub fn candidates(&self, name: &str) -> (r: Vec<Candidate>)
        ensures
            r@.len() == 1 + 2 * self.search_path().len(),
            r@[0].directory is None,
            r@[0].file@ == name@,
            forall|i: int|
                0 <= i < self.search_path().len() ==> {
                    &&& (#[trigger] r@[1 + 2 * i]).directory matches Some(d) && d@
                        == self.search_path()[i]
                    &&& r@[1 + 2 * i].file@ == (if ends_with(name@, ".obk"@) || ends_with(
                        name@,
                        ".obx"@,
                    ) {
                        name@
                    } else {
                        name@ + ".obk"@
                    })
                    &&& r@[2 + 2 * i].directory matches Some(d) && d@ == self.search_path()[i]
                    &&& r@[2 + 2 * i].file@ == without_suffix(name@, ".obk"@) + ".obx"@
                },
    {
        let mut found: Vec<Candidate> = Vec::new();
        found.push(Candidate { directory: None, file: String::from_str(name) });
        let names = file_names(name);
        let mut i: usize = 0;
        while i < self.search_paths.len()
            invariant
                i <= self.search_paths.len(),
                found@.len() == 1 + 2 * i,
                found@[0].directory is None,
                found@[0].file@ == name@,
                names.0@ == (if ends_with(name@, ".obk"@) || ends_with(name@, ".obx"@) {
                    name@
                } else {
                    name@ + ".obk"@
                }),
                names.1@ == without_suffix(name@, ".obk"@) + ".obx"@,
                forall|k: int|
                    0 <= k < i ==> {
                        &&& (#[trigger] found@[1 + 2 * k]).directory matches Some(d) && d@
                            == self.search_paths@[k]@
                        &&& found@[1 + 2 * k].file@ == names.0@
                        &&& found@[2 + 2 * k].directory matches Some(d) && d@
                            == self.search_paths@[k]@
                        &&& found@[2 + 2 * k].file@ == names.1@
                    },
            decreases self.search_paths.len() - i,
        {
            found.push(
                Candidate {
                    directory: Some(self.search_paths[i].clone()),
                    file: names.0.clone(),
                },
            );
            found.push(
                Candidate {
                    directory: Some(self.search_paths[i].clone()),
                    file: names.1.clone(),
                },
            );
            i += 1;
        }
        found
    }

    /// Check if module is already loaded.
    pub fn is_loaded(&self, name: &str) -> (b: bool)
        ensures
            b == self.loaded().contains_key(name@),
    {
        self.loaded.get(name).is_some()
    }

    /// Get loaded module index.
    pub fn get_module_index(&self, name: &str) -> (r: Option<usize>)
        ensures
            self.loaded().contains_key(name@) ==> r == Some(self.loaded()[name@]),
            !self.loaded().contains_key(name@) ==> r is None,
    {
        self.loaded.get(name)
    }

    /// Get module by index.
    pub fn get_module(&self, index: usize) -> (r: Option<&Module>)
        ensures
            index < self.modules().len() ==> r == Some(&self.modules()[index as int]),
            index >= self.modules().len() ==> r is None,
    {
        if index < self.modules.len() {
            Some(&self.modules[index])
        } else {
            None
        }
    }

    /// Get mutable module by index.
    pub fn get_module_mut(&mut self, index: usize) -> (r: Option<&mut Module>)
        ensures
            index >= old(self).modules().len() ==> r is None && final(self).modules() == old(self).modules(),
            index < old(self).modules().len() ==> (r matches Some(module) && *module == old(self).modules()[index as int] && final(self).modules() == old(self).modules().update(
                index as int,
                *final(module),
            )),
            final(self).loaded() == old(self).loaded(),
            final(self).loading() == old(self).loading(),
            final(self).search_path() == old(self).search_path(),
    {
        if index < self.modules.len() {
            Some(&mut self.modules[index])
        } else {
            None
        }
    }

    /// Begin loading a module. A module that is being loaded already is a
    /// circular dependency.
    pub fn begin_load(&mut self, name: &str) -> (r: Result<(), ModuleError>)
        ensures
            final(self).loaded() == old(self).loaded(),
            final(self).modules() == old(self).modules(),
            final(self).search_path() == old(self).search_path(),
            has_name(old(self).loading(), name@) ==> (r matches Err(
                ModuleError::CircularDependency { chain },
            ) && chain@ == chained(old(self).loading()) + " → "@ + name@) && final(self).loading()
                == old(self).loading(),
            !has_name(old(self).loading(), name@) ==> r is Ok && final(self).loading().len()
                == old(self).loading().len() + 1 && final(self).loading().drop_last() == old(self).loading() && final(self).loading().last()@ == name@,
    {
        if find_name(&self.loading_stack, name).is_some() {
            let mut chain = String::new();
            let mut i: usize = 0;
            while i < self.loading_stack.len()
                invariant
                    i <= self.loading_stack.len(),
                    chain@ == chained(self.loading_stack@.take(i as int)),
                decreases self.loading_stack.len() - i,
            {
                proof {
                    assert(self.loading_stack@.take(i + 1).drop_last() =~= self.loading_stack@.take(
                        i as int,
                    ));
                    assert(self.loading_stack@.take(i + 1).last() == self.loading_stack@[i as int]);
                }
                if i > 0 {
                    chain.append(" → ");
                } else {
                    proof {
                        assert(self.loading_stack@.take(1)[0] == self.loading_stack@[0]);
                        assert(chain@ + self.loading_stack@[0]@ =~= self.loading_stack@[0]@);
                    }
                }
                chain.append(self.loading_stack[i].as_str());
                i += 1;
            }
            proof {
                assert(self.loading_stack@.take(i as int) =~= self.loading_stack@);
            }
            chain.append(" → ");
            chain.append(name);
            return Err(ModuleError::CircularDependency { chain });
        }
        self.loading_stack.push(String::from_str(name));
        proof {
            assert(self.loading_stack@.drop_last() =~= old(self).loading_stack@);
        }
        Ok(())
    }

    fn forget_loading(&mut self, name: &str)
        ensures
            texts_of(final(self).loading()) == without_name(old(self).loading(), name@),
            final(self).loaded() == old(self).loaded(),
            final(self).modules() == old(self).modules(),
            final(self).search_path() == old(self).search_path(),
    {
        let mut kept: Vec<String> = Vec::new();
        let mut i: usize = 0;
        while i < self.loading_stack.len()
            invariant
                i <= self.loading_stack.len(),
                *self == *old(self),
                texts_of(kept@) == without_name(self.loading_stack@.take(i as int), name@),
            decreases self.loading_stack.len() - i,
        {
            proof {
                assert(self.loading_stack@.take(i + 1).drop_last() =~= self.loading_stack@.take(
                    i as int,
                ));
                assert(self.loading_stack@.take(i + 1).last() == self.loading_stack@[i as int]);
            }
            if !str_eq(self.loading_stack[i].as_str(), name) {
                let ghost before = texts_of(kept@);
                kept.push(self.loading_stack[i].clone());
                proof {
                    assert(texts_of(kept@) =~= before.push(self.loading_stack@[i as int]@));
                }
            }
            i += 1;
        }
        proof {
            assert(self.loading_stack@.take(i as int) =~= self.loading_stack@);
        }
        self.loading_stack = kept;
    }

    /// Complete loading a module: it is kept under its name, and its
    /// loading is no longer in progress. Returns the module's index.
    pub fn complete_load(&mut self, name: &str, module: Module) -> (index: usize)
        ensures
            index == old(self).modules().len(),
            final(self).modules() == old(self).modules().push(module),
            final(self).loaded() == old(self).loaded().insert(name@, index),
            texts_of(final(self).loading()) == without_name(old(self).loading(), name@),
            final(self).search_path() == old(self).search_path(),
    {
        let index = self.modules.len();
        self.modules.push(module);
        self.loaded.insert(name, index);
        self.forget_loading(name);
        index
    }

    /// Cancel loading (on error).
    pub fn cancel_load(&mut self, name: &str)
        ensures
            texts_of(final(self).loading()) == without_name(old(self).loading(), name@),
            final(self).loaded() == old(self).loaded(),
            final(self).modules() == old(self).modules(),
            final(self).search_path() == old(self).search_path(),
    {
        self.forget_loading(name);
    }

    /// Get the names of all loaded modules, in the order of their loading.
    pub fn loaded_modules(&self) -> (r: Vec<String>)
        ensures
            r@.len() == self.modules().len(),
            forall|i: int| 0 <= i < r@.len() ==> (#[trigger] r@[i])@ == self.modules()[i].name@,
    {
        let mut names: Vec<String> = Vec::new();
        let mut i: usize = 0;
        while i < self.modules.len()
            invariant
                i <= self.modules.len(),
                names@.len() == i,
                forall|j: int| 0 <= j < i ==> (#[trigger] names@[j])@ == self.modules@[j].name@,
            decreases self.modules.len() - i,
        {
            names.push(self.modules[i].name.clone());
            i += 1;
        }
        names
    }
}

impl Default for ModuleLoader {
    fn default() -> (r: Self)
        ensures
            r.search_path() == seq!["."@],
            r.loaded() == Map::<Seq<char>, usize>::empty(),
            r.modules().len() == 0,
            r.loading().len() == 0,
    {
        Self::new()
    }
}

} // verus!
