//! The declarations of a TypeScript module, as collected for binding
//! generation: which names it declares, as what, and in which nested module.
//!
//! Names are interned symbols. The syntax tree that a parser produced is handed
//! over as [`ModuleItem`]s, which keep of each declaration what is collected.
use vstd::prelude::*;

verus! {

/// What a name is declared as.
#[derive(Clone, Copy, Debug, PartialEq, Eq, Structural)]
pub enum DeclKind {
    Variable,
    Alias,
    Enum,
    Class,
    Interface,
    Function,
}

/// One declaration: a kind and the symbol of the declared name.
#[derive(Clone, Copy, Debug, PartialEq, Eq, Structural)]
pub struct Decl {
    pub kind: DeclKind,
    pub name: u64,
}

/// What a module can hold under a name: a declaration, or a nested module.
#[derive(Clone, Copy, Debug, PartialEq, Eq, Structural)]
pub enum Entry {
    Decl(DeclKind, u64),
    Module(u64),
}

/// One item of a module's body.
#[derive(Debug)]
pub enum ModuleItem {
    /// A class, interface, alias, enum or function declaration.
    Decl(DeclKind, u64),
    /// A variable declaration with the names it binds.
    Var(Vec<u64>),
    /// A nested module or namespace with its body.
    Module(u64, Vec<ModuleItem>),
}

/// Why no bindings were produced.
#[derive(Clone, Copy, Debug, PartialEq, Eq, Structural)]
pub enum TypescriptError {
    /// Binding generation is not available for this module.
    Unsupported,
}

/// The bindings generated for a module: the declarations that are imported.
#[derive(Debug)]
pub struct WasmBindgenImport {
    pub decls: Vec<Decl>,
}

/// A nested module under its name.
#[derive(Debug)]
pub struct Child {
    name: u64,
    module: TsModule,
}

/// The declarations of one module and, by name, its nested modules.
#[derive(Debug)]
pub struct TsModule {
    decls: Vec<Decl>,
    children: Vec<Child>,
}

/// Whether `item`, met in a module body, gives the module `entry` at `path`,
/// where `path` names the nested modules to walk down from that module.
pub open spec fn item_gives(item: ModuleItem, path: Seq<u64>, entry: Entry) -> bool
    decreases path.len(), 0nat,
{
    match item {
        ModuleItem::Decl(kind, name) => path.len() == 0 && entry == Entry::Decl(kind, name),
        ModuleItem::Var(names) => path.len() == 0 && exists|i: int|
            0 <= i < names@.len() && entry == Entry::Decl(DeclKind::Variable, #[trigger] names@[i]),
        ModuleItem::Module(name, body) => if path.len() == 0 {
            entry == Entry::Module(name)
        } else {
            path[0] == name && items_give(body@, path.skip(1), entry)
        },
    }
}

/// Whether one of `items` gives `entry` at `path`.
pub open spec fn items_give(items: Seq<ModuleItem>, path: Seq<u64>, entry: Entry) -> bool
    decreases path.len(), 1nat,
{
    exists|i: int| 0 <= i < items.len() && item_gives(#[trigger] items[i], path, entry)
}

impl TsModule {
    /// Whether the module holds `entry` at `path`: in itself for the empty
    /// path, else in the nested module that the path leads to.
    pub closed spec fn holds(&self, path: Seq<u64>, entry: Entry) -> bool
        decreases path.len(),
    {
        if path.len() == 0 {
            match entry {
                Entry::Decl(kind, name) => self.decls@.contains(Decl { kind, name }),
                Entry::Module(name) => exists|i: int|
                    0 <= i < self.children@.len() && (#[trigger] self.children@[i]).name == name,
            }
        } else {
            exists|i: int|
                0 <= i < self.children@.len() && (#[trigger] self.children@[i]).name == path[0]
                    && self.children@[i].module.holds(path.skip(1), entry)
        }
    }

    /// A module without declarations and without nested modules.
    pub fn blank() -> (module: TsModule)
        ensures
            forall|path: Seq<u64>, entry: Entry| !module.holds(path, entry),
    {
        let module = TsModule { decls: Vec::new(), children: Vec::new() };
        assert forall|path: Seq<u64>, entry: Entry| !module.holds(path, entry) by {
            reveal_with_fuel(TsModule::holds, 1);
        }
        module
    }

    /// Whether the module itself declares `name` as `kind`.
    pub fn declares(&self, kind: DeclKind, name: u64) -> (found: bool)
        ensures
            found == self.holds(Seq::empty(), Entry::Decl(kind, name)),
    {
        let mut i: usize = 0;
        while i < self.decls.len()
            invariant
                i <= self.decls@.len(),
                forall|j: int| 0 <= j < i ==> self.decls@[j] != (Decl { kind, name }),
            decreases self.decls@.len() - i,
        {
            if self.decls[i].kind == kind && self.decls[i].name == name {
                assert(self.decls@[i as int] == (Decl { kind, name }));
                return true;
            }
            i += 1;
        }
        false
    }

    /// The first position at which a nested module is held under `name`.
    fn child_index(&self, name: u64) -> (found: Option<usize>)
        ensures
            match found {
                Some(i) => i < self.children@.len() && self.children@[i as int].name == name,
                None => forall|j: int| 0 <= j < self.children@.len() ==> (#[trigger] self.children@[j]).name != name,
            },
    {
        let mut i: usize = 0;
        while i < self.children.len()
            invariant
                i <= self.children@.len(),
                forall|j: int| 0 <= j < i ==> (#[trigger] self.children@[j]).name != name,
            decreases self.children@.len() - i,
        {
            if self.children[i].name == name {
                return Some(i);
            }
            i += 1;
        }
        None
    }

    /// Whether the module itself holds a nested module under `name`.
    pub fn has_module(&self, name: u64) -> (found: bool)
        ensures
            found == self.holds(Seq::empty(), Entry::Module(name)),
    {
        self.child_index(name).is_some()
    }

    /// Whether the module holds `entry` in the nested module that `path`
    /// leads to from position `from` on.
    pub fn holds_from(&self, path: &Vec<u64>, from: usize, entry: Entry) -> (found: bool)
        requires
            from <= path@.len(),
        ensures
            found == self.holds(path@.skip(from as int), entry),
        decreases path@.len() - from,
    {
        let ghost rest = path@.skip(from as int);
        if from == path.len() {
            match entry {
                Entry::Decl(kind, name) => self.declares(kind, name),
                Entry::Module(name) => self.has_module(name),
            }
        } else {
            proof {
                assert(rest.len() > 0 && rest[0] == path@[from as int]);
                assert(rest.skip(1) =~= path@.skip(from as int + 1));
            }
            let next: usize = from + 1;
            let mut i: usize = 0;
            while i < self.children.len()
                invariant
                    i <= self.children@.len(),
                    from < path@.len(),
                    next == from + 1,
                    rest == path@.skip(from as int),
                    rest.len() > 0 && rest[0] == path@[from as int],
                    rest.skip(1) == path@.skip(from as int + 1),
                    forall|j: int|
                        0 <= j < i ==> !((#[trigger] self.children@[j]).name == rest[0]
                            && self.children@[j].module.holds(rest.skip(1), entry)),
                decreases self.children@.len() - i,
            {
                if self.children[i].name == path[from] {
                    if self.children[i].module.holds_from(path, next, entry) {
                        return true;
                    }
                }
                i += 1;
            }
            false
        }
    }

    /// Whether the module holds `entry` in the nested module that `path`
    /// leads to.
    pub fn holds_at(&self, path: &Vec<u64>, entry: Entry) -> (found: bool)
        ensures
            found == self.holds(path@, entry),
    {
        proof {
            assert(path@.skip(0) =~= path@);
        }
        self.holds_from(path, 0, entry)
    }

    /// Records that the module declares `name` as `kind`. A declaration that
    /// is already recorded stays as it is.
    pub fn add_decl(&mut self, kind: DeclKind, name: u64)
        ensures
            forall|path: Seq<u64>, entry: Entry|
                #[trigger] final(self).holds(path, entry) == (old(self).holds(path, entry) || item_gives(
                    ModuleItem::Decl(kind, name),
                    path,
                    entry,
                )),
    {
        if !self.declares(kind, name) {
            self.decls.push(Decl { kind, name });
        }
        proof {
            let before = old(self).decls@;
            let item = Decl { kind, name };
            assert(self.children@ == old(self).children@);
            assert(self.decls@ == before || (!before.contains(item) && self.decls@ == before.push(item)));
            assert forall|path: Seq<u64>, entry: Entry|
                #[trigger] self.holds(path, entry) == (old(self).holds(path, entry) || item_gives(
                    ModuleItem::Decl(kind, name),
                    path,
                    entry,
                )) by {
                if path.len() == 0 {
                    if let Entry::Decl(k, n) = entry {
                        let d = Decl { kind: k, name: n };
                        if before.contains(d) {
                            let j = choose|j: int| 0 <= j < before.len() && before[j] == d;
                            assert(self.decls@[j] == d);
                        }
                        if self.decls@.contains(d) && !before.contains(d) {
                            let j = choose|j: int| 0 <= j < self.decls@.len() && self.decls@[j] == d;
                            if j < before.len() {
                                assert(before[j] == d);
                            }
                        }
                        if d == item && !before.contains(item) {
                            assert(self.decls@[before.len() as int] == d);
                        }
                    }
                }
            }
        }
    }

    /// Records every name that a variable declaration binds.
    pub fn add_var(&mut self, names: &Vec<u64>)
        ensures
            forall|path: Seq<u64>, entry: Entry|
                #[trigger] final(self).holds(path, entry) == (old(self).holds(path, entry) || item_gives(
                    ModuleItem::Var(*names),
                    path,
                    entry,
                )),
    {
        let mut i: usize = 0;
        while i < names.len()
            invariant
                i <= names@.len(),
                forall|path: Seq<u64>, entry: Entry|
                    #[trigger] self.holds(path, entry) == (old(self).holds(path, entry) || (path.len() == 0
                        && exists|j: int|
                        0 <= j < i && entry == Entry::Decl(DeclKind::Variable, #[trigger] names@[j]))),
            decreases names@.len() - i,
        {
            let ghost mid = *self;
            self.add_decl(DeclKind::Variable, names[i]);
            proof {
                assert forall|path: Seq<u64>, entry: Entry|
                    #[trigger] self.holds(path, entry) == (old(self).holds(path, entry) || (path.len() == 0
                        && exists|j: int|
                        0 <= j < i + 1 && entry == Entry::Decl(DeclKind::Variable, #[trigger] names@[j]))) by {
                    assert(self.holds(path, entry) == (mid.holds(path, entry) || item_gives(
                        ModuleItem::Decl(DeclKind::Variable, names@[i as int]),
                        path,
                        entry,
                    )));
                    if path.len() == 0 && entry == Entry::Decl(DeclKind::Variable, names@[i as int]) {
                        assert(0 <= i < i + 1 && entry == Entry::Decl(DeclKind::Variable, names@[i as int]));
                    }
                }
            }
            i += 1;
        }
    }

    /// Records a nested module under `name`, unless one is held under that
    /// name already, and collects the items of `body` into it.
    pub fn add_ts_module(&mut self, name: u64, body: &Vec<ModuleItem>)
        ensures
            forall|path: Seq<u64>, entry: Entry|
                #[trigger] final(self).holds(path, entry) == (old(self).holds(path, entry) || item_gives(
                    ModuleItem::Module(name, *body),
                    path,
                    entry,
                )),
        decreases body, 1nat,
    {
        let index = match self.child_index(name) {
            Some(i) => i,
            None => {
                self.children.push(Child { name, module: TsModule::blank() });
                self.children.len() - 1
            },
        };
        let ghost mid = *self;
        self.children[index].module.add_module_contents(body);
        proof {
            let was = mid.children@[index as int].module;
            let now = self.children@[index as int].module;
            assert(self.children@ =~= mid.children@.update(index as int, Child { name, module: now }));
            assert forall|path: Seq<u64>, entry: Entry|
                #[trigger] self.holds(path, entry) == (old(self).holds(path, entry) || item_gives(
                    ModuleItem::Module(name, *body),
                    path,
                    entry,
                )) by {
                if path.len() == 0 {
                    assert(self.children@[index as int].name == name);
                    if let Entry::Module(n) = entry {
                        if old(self).holds(path, entry) {
                            let j = choose|j: int|
                                0 <= j < old(self).children@.len() && (#[trigger] old(self).children@[j]).name
                                    == n;
                            assert(self.children@[j].name == n);
                        }
                        if self.holds(path, entry) && n != name {
                            let j = choose|j: int|
                                0 <= j < self.children@.len() && (#[trigger] self.children@[j]).name == n;
                            assert(old(self).children@[j].name == n);
                        }
                    }
                } else {
                    let rest = path.skip(1);
                    assert(now.holds(rest, entry) == (was.holds(rest, entry) || items_give(body@, rest, entry)));
                    if old(self).holds(path, entry) {
                        let j = choose|j: int|
                            0 <= j < old(self).children@.len() && (#[trigger] old(self).children@[j]).name
                                == path[0] && old(self).children@[j].module.holds(rest, entry);
                        assert(mid.children@[j] == old(self).children@[j]);
                        if j == index {
                            assert(self.children@[index as int].module.holds(rest, entry));
                        } else {
                            assert(self.children@[j] == old(self).children@[j]);
                        }
                    }
                    if path[0] == name && items_give(body@, rest, entry) {
                        assert(self.children@[index as int].name == path[0]);
                        assert(self.children@[index as int].module.holds(rest, entry));
                    }
                    if self.holds(path, entry) {
                        let j = choose|j: int|
                            0 <= j < self.children@.len() && (#[trigger] self.children@[j]).name == path[0]
                                && self.children@[j].module.holds(rest, entry);
                        if j == index {
                            if was.holds(rest, entry) {
                                assert(index < old(self).children@.len());
                                assert(old(self).children@[j].name == path[0]);
                            }
                        } else {
                            assert(old(self).children@[j] == self.children@[j]);
                        }
                    }
                }
            }
        }
    }

    /// Collects one item of a module body.
    pub fn add_item(&mut self, item: &ModuleItem)
        ensures
            forall|path: Seq<u64>, entry: Entry|
                #[trigger] final(self).holds(path, entry) == (old(self).holds(path, entry) || item_gives(
                    *item,
                    path,
                    entry,
                )),
        decreases item, 0nat,
    {
        match item {
            ModuleItem::Decl(kind, name) => self.add_decl(*kind, *name),
            ModuleItem::Var(names) => self.add_var(names),
            ModuleItem::Module(name, body) => self.add_ts_module(*name, body),
        }
    }

    /// Collects the items of a module body, in order.
    pub fn add_module_contents(&mut self, items: &Vec<ModuleItem>)
        ensures
            forall|path: Seq<u64>, entry: Entry|
                #[trigger] final(self).holds(path, entry) == (old(self).holds(path, entry) || items_give(
                    items@,
                    path,
                    entry,
                )),
        decreases items, 0nat,
    {
        let mut i: usize = 0;
        while i < items.len()
            invariant
                i <= items@.len(),
                forall|path: Seq<u64>, entry: Entry|
                    #[trigger] self.holds(path, entry) == (old(self).holds(path, entry) || items_give(
                        items@.take(i as int),
                        path,
                        entry,
                    )),
            decreases items@.len() - i,
        {
            let ghost mid = *self;
            self.add_item(&items[i]);
            proof {
                let shorter = items@.take(i as int);
                let longer = items@.take(i as int + 1);
                assert forall|path: Seq<u64>, entry: Entry|
                    #[trigger] self.holds(path, entry) == (old(self).holds(path, entry) || items_give(
                        longer,
                        path,
                        entry,
                    )) by {
                    assert(self.holds(path, entry) == (mid.holds(path, entry) || item_gives(
                        items@[i as int],
                        path,
                        entry,
                    )));
                    if items_give(shorter, path, entry) {
                        let j = choose|j: int|
                            0 <= j < shorter.len() && item_gives(#[trigger] shorter[j], path, entry);
                        assert(longer[j] == shorter[j]);
                    }
                    if item_gives(items@[i as int], path, entry) {
                        assert(longer[i as int] == items@[i as int]);
                    }
                    if items_give(longer, path, entry) {
                        let j = choose|j: int|
                            0 <= j < longer.len() && item_gives(#[trigger] longer[j], path, entry);
                        if j < i {
                            assert(shorter[j] == longer[j]);
                        }
                    }
                }
            }
            i += 1;
        }
        proof {
            assert(items@.take(items@.len() as int) =~= items@);
        }
    }

    /// The module that a body of `items` describes.
    pub fn from_items(items: &Vec<ModuleItem>) -> (module: TsModule)
        ensures
            forall|path: Seq<u64>, entry: Entry|
                #[trigger] module.holds(path, entry) == items_give(items@, path, entry),
    {
        let mut module = TsModule::blank();
        module.add_module_contents(items);
        module
    }

    /// Generates the bindings for the module. Binding generation is not
    /// available for any module: every call reports `Unsupported`.
    pub fn import_with_wasm_bindgen(&self) -> (r: Result<WasmBindgenImport, TypescriptError>)
        ensures
            r is Err,
            r.unwrap_err() == TypescriptError::Unsupported,
    {
        Err(TypescriptError::Unsupported)
    }
}

} // verus!
