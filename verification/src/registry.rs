//! The module registry builder: merges three module-name sources into one
//! flavor-tagged lookup table and derives the set of package names.

use vstd::prelude::*;

use crate::decoder::ModuleTable;
use crate::decoder::TableEntry;
use crate::decoder::lemma_entries_map_dom;
use crate::util::bytes_eq;
use crate::util::copy_bytes;
use crate::util::take_range;

verus! {

/// Which mechanism resolves a known module.
#[derive(Clone, Copy, Debug, PartialEq, Eq, Structural)]
pub enum ModuleFlavor {
    /// Compiled directly into the runtime binary.
    NativelyLinked,
    /// Bytecode embedded in the runtime by its own native mechanism.
    Precompiled,
    /// Supplied by this engine's packed blobs.
    InMemory,
}

/// One registry record: a module name and its flavor.
pub struct RegistryEntry {
    pub name: Vec<u8>,
    pub flavor: ModuleFlavor,
}

/// A mapping from module name to flavor, in insertion order; a later entry
/// of the same name shadows an earlier one.
pub struct ModuleRegistry {
    pub entries: Vec<RegistryEntry>,
}

/// The mapping a sequence of registry records denotes, later records
/// overwriting earlier ones of the same name.
pub open spec fn registry_map(s: Seq<RegistryEntry>) -> Map<Seq<u8>, ModuleFlavor>
    decreases s.len(),
{
    if s.len() == 0 {
        Map::empty()
    } else {
        registry_map(s.drop_last()).insert(s.last().name@, s.last().flavor)
    }
}

impl View for ModuleRegistry {
    type V = Map<Seq<u8>, ModuleFlavor>;

    open spec fn view(&self) -> Map<Seq<u8>, ModuleFlavor> {
        registry_map(self.entries@)
    }
}

/// A name is registered exactly when some record bears it.
pub proof fn lemma_registry_map_dom(s: Seq<RegistryEntry>, n: Seq<u8>)
    ensures
        registry_map(s).contains_key(n) <==> exists|i: int|
            0 <= i < s.len() && s[i].name@ == n,
    decreases s.len(),
{
    if s.len() > 0 {
        lemma_registry_map_dom(s.drop_last(), n);
        if registry_map(s).contains_key(n) {
            if s.last().name@ == n {
                assert(s[s.len() - 1].name@ == n);
            } else {
                let i = choose|i: int| 0 <= i < s.drop_last().len() && s.drop_last()[i].name@ == n;
                assert(s[i].name@ == n);
            }
        }
        if exists|i: int| 0 <= i < s.len() && s[i].name@ == n {
            let i = choose|i: int| 0 <= i < s.len() && s[i].name@ == n;
            if i < s.len() - 1 {
                assert(s.drop_last()[i].name@ == n);
            }
        }
    }
}

/// The flavor registered under a name is the one of the last record bearing
/// that name.
pub proof fn lemma_registry_map_last(s: Seq<RegistryEntry>, n: Seq<u8>, k: int)
    requires
        0 <= k < s.len(),
        s[k].name@ == n,
        forall|m: int| k < m < s.len() ==> s[m].name@ != n,
    ensures
        registry_map(s).contains_key(n),
        registry_map(s)[n] == s[k].flavor,
    decreases s.len(),
{
    if k == s.len() - 1 {
    } else {
        assert(s.drop_last()[k].name@ == n);
        lemma_registry_map_last(s.drop_last(), n, k);
    }
}

impl ModuleRegistry {
    /// An empty registry.
    pub fn new() -> (r: ModuleRegistry)
        ensures
            r@ == Map::<Seq<u8>, ModuleFlavor>::empty(),
            r.entries@.len() == 0,
    {
        ModuleRegistry { entries: Vec::new() }
    }

    /// Registers a flavor under a name, shadowing any earlier record of the
    /// same name.
    pub fn insert(&mut self, name: Vec<u8>, flavor: ModuleFlavor)
        ensures
            final(self)@ == old(self)@.insert(name@, flavor),
    {
        let ghost prior = self.entries@;
        self.entries.push(RegistryEntry { name, flavor });
        proof {
            assert(self.entries@.drop_last() =~= prior);
        }
    }

    /// Looks up the flavor registered under a name.
    pub fn get(&self, name: &Vec<u8>) -> (r: Option<ModuleFlavor>)
        ensures
            match r {
                Some(f) => self@.contains_key(name@) && f == self@[name@],
                None => !self@.contains_key(name@),
            },
    {
        let mut j: usize = self.entries.len();
        while j > 0
            invariant
                j <= self.entries.len(),
                forall|m: int| j <= m < self.entries@.len() ==> self.entries@[m].name@ != name@,
            decreases j,
        {
            j = j - 1;
            if bytes_eq(&self.entries[j].name, name) {
                proof {
                    lemma_registry_map_last(self.entries@, name@, j as int);
                }
                return Some(self.entries[j].flavor);
            }
        }
        proof {
            lemma_registry_map_dom(self.entries@, name@);
        }
        None
    }
}

/// The set of module names that are containers (packages).
pub struct PackageSet {
    pub names: Vec<Vec<u8>>,
}

/// The set of byte strings a sequence of byte vectors holds.
pub open spec fn names_set(s: Seq<Vec<u8>>) -> Set<Seq<u8>> {
    Set::new(|p: Seq<u8>| exists|i: int| 0 <= i < s.len() && s[i]@ == p)
}

impl View for PackageSet {
    type V = Set<Seq<u8>>;

    open spec fn view(&self) -> Set<Seq<u8>> {
        names_set(self.names@)
    }
}

impl PackageSet {
    /// An empty package set.
    pub fn new() -> (r: PackageSet)
        ensures
            r@ == Set::<Seq<u8>>::empty(),
    {
        let r = PackageSet { names: Vec::new() };
        proof {
            assert(r@ =~= Set::<Seq<u8>>::empty());
        }
        r
    }

    /// Adds a name to the set.
    pub fn insert(&mut self, name: Vec<u8>)
        ensures
            final(self)@ == old(self)@.insert(name@),
    {
        let ghost prior = self.names@;
        let ghost v = name@;
        self.names.push(name);
        proof {
            assert forall|p: Seq<u8>| names_set(self.names@).contains(p) implies names_set(
                prior,
            ).insert(v).contains(p) by {
                let i = choose|i: int| 0 <= i < self.names@.len() && self.names@[i]@ == p;
                if i < prior.len() {
                    assert(prior[i]@ == p);
                }
            }
            assert forall|p: Seq<u8>| names_set(prior).insert(v).contains(p) implies names_set(
                self.names@,
            ).contains(p) by {
                if p == v {
                    assert(self.names@[prior.len() as int]@ == p);
                } else {
                    let i = choose|i: int| 0 <= i < prior.len() && prior[i]@ == p;
                    assert(self.names@[i]@ == p);
                }
            }
            assert(names_set(self.names@) =~= names_set(prior).insert(v));
        }
    }

    /// Reports whether a name is in the set.
    pub fn contains(&self, name: &Vec<u8>) -> (r: bool)
        ensures
            r == self@.contains(name@),
    {
        let mut i: usize = 0;
        while i < self.names.len()
            invariant
                i <= self.names.len(),
                forall|j: int| 0 <= j < i ==> self.names@[j]@ != name@,
            decreases self.names.len() - i,
        {
            if bytes_eq(&self.names[i], name) {
                assert(self.names@[i as int]@ == name@);
                return true;
            }
            i = i + 1;
        }
        false
    }
}

/// The package-separator byte, an ASCII dot.
pub open spec fn separator() -> u8 {
    46
}

/// Whether `p` is a strict dotted prefix (an ancestor container) of `n`.
pub open spec fn is_ancestor(p: Seq<u8>, n: Seq<u8>) -> bool {
    exists|k: int| 0 <= k < n.len() && n[k] == separator() && p == n.subrange(0, k)
}

/// The ancestor containers a dotted name implies.
pub open spec fn ancestors(n: Seq<u8>) -> Set<Seq<u8>> {
    Set::new(|p: Seq<u8>| is_ancestor(p, n))
}

/// The ancestors of `n` implied by separators strictly before position `j`.
pub open spec fn ancestors_upto(n: Seq<u8>, j: int) -> Set<Seq<u8>> {
    Set::new(
        |p: Seq<u8>| exists|k: int| 0 <= k < j && k < n.len() && n[k] == separator() && p == n.subrange(0, k),
    )
}

/// Every package name every registered name implies, over a whole name set.
pub open spec fn package_closure(mem: Set<Seq<u8>>) -> Set<Seq<u8>> {
    Set::new(|p: Seq<u8>| exists|n: Seq<u8>| #[trigger] mem.contains(n) && is_ancestor(p, n))
}

/// The registry that merging the three name sources yields: every name of
/// any source is present; a blob-packed name is InMemory, shadowing the
/// rest; a precompiled name shadows a natively linked one.
pub open spec fn merged_registry(native: Set<Seq<u8>>, pre: Set<Seq<u8>>, mem: Set<Seq<u8>>) -> Map<
    Seq<u8>,
    ModuleFlavor,
> {
    Map::new(
        |n: Seq<u8>| native.contains(n) || pre.contains(n) || mem.contains(n),
        |n: Seq<u8>|
            if mem.contains(n) {
                ModuleFlavor::InMemory
            } else if pre.contains(n) {
                ModuleFlavor::Precompiled
            } else {
                ModuleFlavor::NativelyLinked
            },
    )
}

/// The byte strings among the first `j` elements of a name sequence.
pub open spec fn names_set_upto(s: Seq<Vec<u8>>, j: int) -> Set<Seq<u8>> {
    Set::new(|p: Seq<u8>| exists|i: int| 0 <= i < j && s[i]@ == p)
}

/// The names among the first `j` entries of a table's entry sequence.
pub open spec fn entry_names_upto(s: Seq<TableEntry>, j: int) -> Set<Seq<u8>> {
    Set::new(|p: Seq<u8>| exists|i: int| 0 <= i < j && s[i].name@ == p)
}

/// Taking one more element extends the prefix set by that element.
proof fn lemma_names_upto_step(s: Seq<Vec<u8>>, j: int)
    requires
        0 <= j < s.len(),
    ensures
        names_set_upto(s, j + 1) =~= names_set_upto(s, j).insert(s[j]@),
{
    assert forall|p: Seq<u8>| names_set_upto(s, j + 1).contains(p) implies names_set_upto(
        s,
        j,
    ).insert(s[j]@).contains(p) by {
        let i = choose|i: int| 0 <= i < j + 1 && s[i]@ == p;
        if i < j {
            assert(names_set_upto(s, j).contains(p));
        }
    }
    assert forall|p: Seq<u8>| names_set_upto(s, j).insert(s[j]@).contains(p)
        implies names_set_upto(s, j + 1).contains(p) by {
        if p == s[j]@ {
            assert(0 <= j < j + 1 && s[j]@ == p);
        } else {
            let i = choose|i: int| 0 <= i < j && s[i]@ == p;
            assert(0 <= i < j + 1 && s[i]@ == p);
        }
    }
}

/// Taking one more entry extends the prefix name set by that entry's name.
proof fn lemma_entry_names_upto_step(s: Seq<TableEntry>, j: int)
    requires
        0 <= j < s.len(),
    ensures
        entry_names_upto(s, j + 1) =~= entry_names_upto(s, j).insert(s[j].name@),
{
    assert forall|p: Seq<u8>| entry_names_upto(s, j + 1).contains(p) implies entry_names_upto(
        s,
        j,
    ).insert(s[j].name@).contains(p) by {
        let i = choose|i: int| 0 <= i < j + 1 && s[i].name@ == p;
        if i < j {
            assert(entry_names_upto(s, j).contains(p));
        }
    }
    assert forall|p: Seq<u8>| entry_names_upto(s, j).insert(s[j].name@).contains(p)
        implies entry_names_upto(s, j + 1).contains(p) by {
        if p == s[j].name@ {
            assert(0 <= j < j + 1 && s[j].name@ == p);
        } else {
            let i = choose|i: int| 0 <= i < j && s[i].name@ == p;
            assert(0 <= i < j + 1 && s[i].name@ == p);
        }
    }
}

/// Registering a natively linked name extends the native source set.
proof fn lemma_merged_insert_native(native: Set<Seq<u8>>, x: Seq<u8>)
    ensures
        merged_registry(native, Set::empty(), Set::empty()).insert(
            x,
            ModuleFlavor::NativelyLinked,
        ) =~= merged_registry(native.insert(x), Set::empty(), Set::empty()),
{
}

/// Registering a precompiled name extends the precompiled source set.
proof fn lemma_merged_insert_pre(native: Set<Seq<u8>>, pre: Set<Seq<u8>>, x: Seq<u8>)
    ensures
        merged_registry(native, pre, Set::empty()).insert(x, ModuleFlavor::Precompiled)
            =~= merged_registry(native, pre.insert(x), Set::empty()),
{
}

/// Registering a blob-packed name extends the blob-packed source set.
proof fn lemma_merged_insert_mem(
    native: Set<Seq<u8>>,
    pre: Set<Seq<u8>>,
    mem: Set<Seq<u8>>,
    x: Seq<u8>,
)
    ensures
        merged_registry(native, pre, mem).insert(x, ModuleFlavor::InMemory) =~= merged_registry(
            native,
            pre,
            mem.insert(x),
        ),
{
}

/// Adding one name to a name set adds exactly that name's ancestors to the
/// package closure.
proof fn lemma_closure_insert(mem: Set<Seq<u8>>, n: Seq<u8>)
    ensures
        package_closure(mem.insert(n)) =~= package_closure(mem).union(ancestors(n)),
{
    assert forall|p: Seq<u8>| package_closure(mem.insert(n)).contains(p) implies package_closure(
        mem,
    ).union(ancestors(n)).contains(p) by {
        let m = choose|m: Seq<u8>| #[trigger] mem.insert(n).contains(m) && is_ancestor(p, m);
        if m == n {
            assert(ancestors(n).contains(p));
        } else {
            assert(mem.contains(m));
        }
    }
    assert forall|p: Seq<u8>| package_closure(mem).union(ancestors(n)).contains(p)
        implies package_closure(mem.insert(n)).contains(p) by {
        if package_closure(mem).contains(p) {
            let m = choose|m: Seq<u8>| #[trigger] mem.contains(m) && is_ancestor(p, m);
            assert(mem.insert(n).contains(m));
        } else {
            assert(mem.insert(n).contains(n));
        }
    }
}

/// Builds the registry and the package set from the three name sources.
///
/// Merge order is natively linked, then precompiled, then both blob tables,
/// later writes winning; so a blob-packed module shadows either other
/// flavor, and a precompiled module shadows a natively linked one. The
/// package set holds exactly the ancestor containers the blob-packed names
/// imply.
pub fn build_registry(
    native: &Vec<Vec<u8>>,
    precompiled: &Vec<Vec<u8>>,
    source_table: &ModuleTable,
    bytecode_table: &ModuleTable,
) -> (r: (ModuleRegistry, PackageSet))
    ensures
        r.0@ == merged_registry(
            names_set(native@),
            names_set(precompiled@),
            source_table@.dom().union(bytecode_table@.dom()),
        ),
        r.1@ == package_closure(source_table@.dom().union(bytecode_table@.dom())),
{
    let mut reg = ModuleRegistry::new();
    let mut packages = PackageSet::new();
    proof {
        assert(reg@ =~= merged_registry(names_set_upto(native@, 0), Set::<Seq<u8>>::empty(), Set::<Seq<u8>>::empty()));
    }

    let mut j: usize = 0;
    while j < native.len()
        invariant
            j <= native.len(),
            reg@ == merged_registry(names_set_upto(native@, j as int), Set::<Seq<u8>>::empty(), Set::<Seq<u8>>::empty()),
            packages@ == Set::<Seq<u8>>::empty(),
        decreases native.len() - j,
    {
        let ghost reg0 = reg@;
        let ghost x = native@[j as int]@;
        let name = copy_bytes(&native[j]);
        reg.insert(name, ModuleFlavor::NativelyLinked);
        proof {
            assert(reg@ == reg0.insert(x, ModuleFlavor::NativelyLinked));
            lemma_names_upto_step(native@, j as int);
            lemma_merged_insert_native(names_set_upto(native@, j as int), x);
            assert(names_set_upto(native@, j as int + 1) == names_set_upto(
                native@,
                j as int,
            ).insert(x));
            assert(reg@ == merged_registry(names_set_upto(native@, j as int + 1), Set::<Seq<u8>>::empty(), Set::<Seq<u8>>::empty()));
        }
        j = j + 1;
    }
    let ghost nset = names_set(native@);
    proof {
        assert(names_set_upto(native@, native@.len() as int) =~= nset);
    }

    let mut j: usize = 0;
    while j < precompiled.len()
        invariant
            j <= precompiled.len(),
            reg@ == merged_registry(nset, names_set_upto(precompiled@, j as int), Set::<Seq<u8>>::empty()),
            packages@ == Set::<Seq<u8>>::empty(),
        decreases precompiled.len() - j,
    {
        let ghost reg0 = reg@;
        let ghost x = precompiled@[j as int]@;
        let name = copy_bytes(&precompiled[j]);
        reg.insert(name, ModuleFlavor::Precompiled);
        proof {
            assert(reg@ == reg0.insert(x, ModuleFlavor::Precompiled));
            lemma_names_upto_step(precompiled@, j as int);
            lemma_merged_insert_pre(nset, names_set_upto(precompiled@, j as int), x);
            assert(names_set_upto(precompiled@, j as int + 1) == names_set_upto(
                precompiled@,
                j as int,
            ).insert(x));
            assert(reg@ == merged_registry(
                nset,
                names_set_upto(precompiled@, j as int + 1),
                Set::<Seq<u8>>::empty(),
            ));
        }
        j = j + 1;
    }
    let ghost pset = names_set(precompiled@);
    proof {
        assert(names_set_upto(precompiled@, precompiled@.len() as int) =~= pset);
        assert(package_closure(Set::<Seq<u8>>::empty()) =~= Set::<Seq<u8>>::empty());
    }

    let mut j: usize = 0;
    while j < source_table.entries.len()
        invariant
            j <= source_table.entries.len(),
            reg@ == merged_registry(
                nset,
                pset,
                entry_names_upto(source_table.entries@, j as int),
            ),
            packages@ == package_closure(entry_names_upto(source_table.entries@, j as int)),
        decreases source_table.entries.len() - j,
    {
        let ghost before = entry_names_upto(source_table.entries@, j as int);
        let ghost reg0 = reg@;
        let ghost pkg0 = packages@;
        let ghost x = source_table.entries@[j as int].name@;
        let name = copy_bytes(&source_table.entries[j].name);
        populate_packages(&mut packages, &source_table.entries[j].name);
        reg.insert(name, ModuleFlavor::InMemory);
        proof {
            assert(reg@ == reg0.insert(x, ModuleFlavor::InMemory));
            assert(packages@ == pkg0.union(ancestors(x)));
            lemma_entry_names_upto_step(source_table.entries@, j as int);
            lemma_merged_insert_mem(nset, pset, before, x);
            lemma_closure_insert(before, x);
            assert(entry_names_upto(source_table.entries@, j as int + 1) == before.insert(x));
            assert(reg@ == merged_registry(
                nset,
                pset,
                entry_names_upto(source_table.entries@, j as int + 1),
            ));
            assert(packages@ == package_closure(
                entry_names_upto(source_table.entries@, j as int + 1),
            ));
        }
        j = j + 1;
    }
    let ghost srcnames = entry_names_upto(source_table.entries@, source_table.entries@.len() as int);
    proof {
        assert(srcnames.union(entry_names_upto(bytecode_table.entries@, 0)) =~= srcnames);
    }

    let mut j: usize = 0;
    while j < bytecode_table.entries.len()
        invariant
            j <= bytecode_table.entries.len(),
            reg@ == merged_registry(
                nset,
                pset,
                srcnames.union(entry_names_upto(bytecode_table.entries@, j as int)),
            ),
            packages@ == package_closure(
                srcnames.union(entry_names_upto(bytecode_table.entries@, j as int)),
            ),
        decreases bytecode_table.entries.len() - j,
    {
        let ghost before = srcnames.union(entry_names_upto(bytecode_table.entries@, j as int));
        let ghost reg0 = reg@;
        let ghost pkg0 = packages@;
        let ghost x = bytecode_table.entries@[j as int].name@;
        let name = copy_bytes(&bytecode_table.entries[j].name);
        populate_packages(&mut packages, &bytecode_table.entries[j].name);
        reg.insert(name, ModuleFlavor::InMemory);
        proof {
            assert(reg@ == reg0.insert(x, ModuleFlavor::InMemory));
            assert(packages@ == pkg0.union(ancestors(x)));
            lemma_entry_names_upto_step(bytecode_table.entries@, j as int);
            lemma_merged_insert_mem(nset, pset, before, x);
            lemma_closure_insert(before, x);
            assert(srcnames.union(entry_names_upto(bytecode_table.entries@, j as int + 1))
                =~= before.insert(x));
            assert(reg@ == merged_registry(
                nset,
                pset,
                srcnames.union(entry_names_upto(bytecode_table.entries@, j as int + 1)),
            ));
            assert(packages@ == package_closure(
                srcnames.union(entry_names_upto(bytecode_table.entries@, j as int + 1)),
            ));
        }
        j = j + 1;
    }

    proof {
        let mem = source_table@.dom().union(bytecode_table@.dom());
        assert forall|n: Seq<u8>|
            srcnames.union(
                entry_names_upto(bytecode_table.entries@, bytecode_table.entries@.len() as int),
            ).contains(n) == mem.contains(n) by {
            lemma_entries_map_dom(source_table.entries@, n);
            lemma_entries_map_dom(bytecode_table.entries@, n);
        }
        assert(srcnames.union(
            entry_names_upto(bytecode_table.entries@, bytecode_table.entries@.len() as int),
        ) =~= mem);
    }
    (reg, packages)
}

/// Adds to `packages` every ancestor container the dotted name implies:
/// each strict prefix of `name` that ends just before a separator.
pub fn populate_packages(packages: &mut PackageSet, name: &Vec<u8>)
    ensures
        final(packages)@ == old(packages)@.union(ancestors(name@)),
{
    let ghost base = packages@;
    let mut k: usize = 0;
    while k < name.len()
        invariant
            k <= name.len(),
            packages@ == base.union(ancestors_upto(name@, k as int)),
        decreases name.len() - k,
    {
        if name[k] == 46 {
            let prefix = take_range(name, 0, k);
            packages.insert(prefix);
        }
        proof {
            assert(packages@ =~= base.union(ancestors_upto(name@, k as int + 1)));
        }
        k = k + 1;
    }
    proof {
        assert(ancestors_upto(name@, name@.len() as int) =~= ancestors(name@));
    }
}

} // verus!
