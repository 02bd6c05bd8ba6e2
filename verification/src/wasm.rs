//! The compiled module: what this library reads of it, and the one change it makes
//! to it. The module itself is kept as `parity_wasm` holds it.

use parity_wasm::elements::{Error, ExportEntry, ExportSection, Internal, Module, Section};
use vstd::prelude::*;
use vstd::string::StringExecFns;
use crate::text::str_eq;

verus! {

/// A compiled module, as `parity_wasm` holds it.
#[verifier::external_type_specification]
#[verifier::external_body]
pub struct ExModule(Module);

/// What `parity_wasm` reports when it cannot read or write a module.
#[verifier::external_type_specification]
#[verifier::external_body]
pub struct ExError(Error);

/// The module that `parity_wasm` reads from `bytes`, if it reads one.
pub uninterp spec fn module_of_bytes(bytes: Seq<u8>) -> Option<Module>;

/// The bytes that `parity_wasm` writes for `module`, if it can write it.
pub uninterp spec fn bytes_of_module(module: Module) -> Option<Seq<u8>>;

/// The entries of the module's import section, in order, each as its namespace and
/// its field name; empty where the module has no import section.
pub uninterp spec fn module_imports(module: Module) -> Seq<(Seq<char>, Seq<char>)>;

/// The field names of the entries of the module's export section, in order; `None`
/// where the module has no export section.
pub uninterp spec fn module_exports(module: Module) -> Option<Seq<Seq<char>>>;

/// Whether the module has a table section.
pub uninterp spec fn module_has_table(module: Module) -> bool;

/// The module `module` after an export of the table `index` under the name `field` is
/// added to its export section.
pub uninterp spec fn module_with_export(module: Module, field: Seq<char>, index: u32) -> Module;

/// The module `module` after an export section without entries is added to it.
pub uninterp spec fn module_with_export_section(module: Module) -> Module;

/// One entry of an import section.
#[derive(Debug)]
pub struct Import {
    /// The namespace that the entry is imported from.
    pub module: String,
    /// The name of the entry in that namespace.
    pub field: String,
}

/// The namespaces and field names of `imports`, in order.
pub open spec fn imports_view(imports: Seq<Import>) -> Seq<(Seq<char>, Seq<char>)> {
    Seq::new(imports.len(), |i: int| (imports[i].module@, imports[i].field@))
}

/// The texts of `names`, in order.
pub open spec fn names_view(names: Seq<String>) -> Seq<Seq<char>> {
    Seq::new(names.len(), |i: int| names[i]@)
}

/// The texts of `names`, where there are names.
pub open spec fn opt_names_view(names: Option<Vec<String>>) -> Option<Seq<Seq<char>>> {
    match names {
        Some(v) => Some(names_view(v@)),
        None => None,
    }
}

/// `parity_wasm::deserialize_buffer` for a `Module`: the module read from the bytes,
/// or the error.
#[verifier::external_body]
pub(crate) fn read_module(bytes: &[u8]) -> (r: Result<Module, Error>)
    ensures
        r matches Ok(m) ==> module_of_bytes(bytes@) == Some(m),
        r is Err ==> module_of_bytes(bytes@) is None,
{
    parity_wasm::deserialize_buffer::<Module>(bytes)
}

/// `parity_wasm::serialize` for a `Module`: the bytes written for the module, or the
/// error.
#[verifier::external_body]
pub(crate) fn write_module(module: Module) -> (r: Result<Vec<u8>, Error>)
    ensures
        r matches Ok(v) ==> bytes_of_module(module) == Some(v@),
        r is Err ==> bytes_of_module(module) is None,
{
    parity_wasm::serialize(module)
}

/// `Module::import_section` and, of each of its entries, `ImportEntry::module` and
/// `ImportEntry::field`: the entries in order, or none where there is no such section.
#[verifier::external_body]
pub(crate) fn import_entries(module: &Module) -> (r: Vec<Import>)
    ensures
        imports_view(r@) == module_imports(*module),
{
    match module.import_section() {
        Some(section) => section.entries().iter().map(
            |e| Import { module: e.module().to_string(), field: e.field().to_string() },
        ).collect(),
        None => Vec::new(),
    }
}

/// `Module::export_section` and, of each of its entries, `ExportEntry::field`: the
/// field names in order, or `None` where there is no such section.
#[verifier::external_body]
pub(crate) fn export_fields(module: &Module) -> (r: Option<Vec<String>>)
    ensures
        opt_names_view(r) == module_exports(*module),
{
    module.export_section().map(|s| s.entries().iter().map(|e| e.field().to_string()).collect())
}

/// `Module::table_section`: whether the module has a table section.
#[verifier::external_body]
pub(crate) fn has_table_section(module: &Module) -> (r: bool)
    ensures
        r == module_has_table(*module),
{
    module.table_section().is_some()
}

/// `Module::insert_section` with an `ExportSection` without entries, for a module
/// that has no export section: the call succeeds, since it fails only where the
/// module has such a section already, and the module has an export section without
/// entries after it; nothing else of what this library reads changes.
#[verifier::external_body]
pub(crate) fn insert_export_section(module: &mut Module) -> (r: Result<(), Error>)
    requires
        module_exports(*old(module)) is None,
    ensures
        r is Ok,
        *final(module) == module_with_export_section(*old(module)),
        module_exports(*final(module)) == Some(Seq::<Seq<char>>::empty()),
        module_imports(*final(module)) == module_imports(*old(module)),
        module_has_table(*final(module)) == module_has_table(*old(module)),
{
    module.insert_section(Section::Export(ExportSection::default()))
}

/// `Module::export_section_mut` and `Vec::push` on its entries, with
/// `ExportEntry::new` for the table `index` under the name `field`, for a module that
/// has an export section: the entry is added at the end of that section; nothing else
/// of what this library reads changes.
#[verifier::external_body]
pub(crate) fn push_table_export(module: &mut Module, field: String, index: u32)
    requires
        module_exports(*old(module)) is Some,
    ensures
        *final(module) == module_with_export(*old(module), field@, index),
        module_exports(*final(module)) == Some(module_exports(*old(module))->0.push(field@)),
        module_imports(*final(module)) == module_imports(*old(module)),
        module_has_table(*final(module)) == module_has_table(*old(module)),
{
    if let Some(exports) = module.export_section_mut() {
        exports.entries_mut().push(ExportEntry::new(field, Internal::Table(index)));
    }
}

/// The name under which the table of indirect calls is exported.
pub open spec fn table_export() -> Seq<char> {
    "__table"@
}

/// How often `name` occurs in `names`.
pub open spec fn count_of(names: Seq<Seq<char>>, name: Seq<char>) -> nat
    decreases names.len(),
{
    if names.len() == 0 {
        0
    } else {
        count_of(names.drop_last(), name) + if names.last() == name {
            1nat
        } else {
            0nat
        }
    }
}

/// Whether an export section holds an entry under `name`.
pub open spec fn exports_name(exports: Option<Seq<Seq<char>>>, name: Seq<char>) -> bool {
    exports matches Some(names) && names.contains(name)
}

/// Whether the patch has anything to add: the module has a table and no export
/// under the table's name yet.
pub open spec fn needs_table_export(exports: Option<Seq<Seq<char>>>, has_table: bool) -> bool {
    has_table && !exports_name(exports, table_export())
}

/// The export names after the patch: where it is needed, the table's name is added at
/// the end, in an export section of its own where the module had none; else nothing
/// changes.
pub open spec fn patched_exports(exports: Option<Seq<Seq<char>>>, has_table: bool) -> Option<
    Seq<Seq<char>>,
> {
    if needs_table_export(exports, has_table) {
        match exports {
            Some(names) => Some(names.push(table_export())),
            None => Some(seq![table_export()]),
        }
    } else {
        exports
    }
}

/// The module after the patch.
pub open spec fn patched_module(module: Module) -> Module {
    if needs_table_export(module_exports(module), module_has_table(module)) {
        if module_exports(module) is Some {
            module_with_export(module, table_export(), 0)
        } else {
            module_with_export(module_with_export_section(module), table_export(), 0)
        }
    } else {
        module
    }
}

/// The export names after the patch was made `times` times.
pub open spec fn patched_times(exports: Option<Seq<Seq<char>>>, has_table: bool, times: nat) -> Option<
    Seq<Seq<char>>,
>
    decreases times,
{
    if times == 0 {
        exports
    } else {
        patched_exports(patched_times(exports, has_table, (times - 1) as nat), has_table)
    }
}

/// How often the table's name occurs among the exports; 0 where there is no export
/// section.
pub open spec fn table_exports(exports: Option<Seq<Seq<char>>>) -> nat {
    match exports {
        Some(names) => count_of(names, table_export()),
        None => 0,
    }
}

/// A name occurs in a list exactly if it is counted at least once.
proof fn lemma_count_contains(names: Seq<Seq<char>>, name: Seq<char>)
    ensures
        names.contains(name) <==> count_of(names, name) > 0,
    decreases names.len(),
{
    if names.len() > 0 {
        let front = names.drop_last();
        lemma_count_contains(front, name);
        if names.contains(name) {
            let i = choose|i: int| 0 <= i < names.len() && names[i] == name;
            if i < names.len() - 1 {
                assert(front[i] == name);
            }
        }
        if front.contains(name) {
            let i = choose|i: int| 0 <= i < front.len() && front[i] == name;
            assert(names[i] == name);
        }
    }
}

/// The patch changes nothing in a module that exports the table's name already.
pub proof fn lemma_patch_keeps_existing_export(exports: Option<Seq<Seq<char>>>, has_table: bool)
    requires
        exports_name(exports, table_export()),
    ensures
        patched_exports(exports, has_table) == exports,
{
}

/// After the patch, a module is as a second patch would leave it.
pub proof fn lemma_patch_is_idempotent(exports: Option<Seq<Seq<char>>>, has_table: bool)
    ensures
        patched_exports(patched_exports(exports, has_table), has_table) == patched_exports(
            exports,
            has_table,
        ),
{
    if needs_table_export(exports, has_table) {
        let after = patched_exports(exports, has_table)->0;
        assert(after[after.len() - 1] == table_export());
    }
}

/// Made once or many times, the patch leaves the same exports.
pub proof fn lemma_patch_many_times(exports: Option<Seq<Seq<char>>>, has_table: bool, times: nat)
    requires
        times >= 1,
    ensures
        patched_times(exports, has_table, times) == patched_exports(exports, has_table),
    decreases times,
{
    if times > 1 {
        lemma_patch_many_times(exports, has_table, (times - 1) as nat);
        lemma_patch_is_idempotent(exports, has_table);
    } else {
        assert(patched_times(exports, has_table, 0) == exports);
    }
}

/// The patch never adds a second export under the table's name: a module that has one
/// such export keeps exactly one, however often it is patched, and a module that has
/// a table and no such export has exactly one after one patch or many.
pub proof fn lemma_patch_count(exports: Option<Seq<Seq<char>>>, has_table: bool, times: nat)
    ensures
        table_exports(exports) >= 1 ==> table_exports(patched_times(exports, has_table, times))
            == table_exports(exports),
        table_exports(exports) == 0 ==> table_exports(patched_times(exports, has_table, times))
            <= 1,
        table_exports(exports) == 0 && times >= 1 && has_table ==> table_exports(
            patched_times(exports, has_table, times),
        ) == 1,
    decreases times,
{
    match exports {
        Some(names) => {
            lemma_count_contains(names, table_export());
            let after = names.push(table_export());
            assert(after.drop_last() =~= names);
        },
        None => {
            let after = seq![table_export()];
            assert(after.drop_last() =~= Seq::<Seq<char>>::empty());
            assert(after.last() == table_export());
            assert(count_of(after.drop_last(), table_export()) == 0);
            assert(count_of(after, table_export()) == 1);
        },
    }
    if times >= 1 {
        lemma_patch_many_times(exports, has_table, times);
    }
}

/// Whether `name` is among `names`.
fn holds_name(names: &Vec<String>, name: &str) -> (r: bool)
    ensures
        r == names_view(names@).contains(name@),
{
    let mut i: usize = 0;
    while i < names.len()
        invariant
            i <= names@.len(),
            forall|j: int| 0 <= j < i ==> names_view(names@)[j] != name@,
        decreases names@.len() - i,
    {
        if str_eq(names[i].as_str(), name) {
            assert(names_view(names@)[i as int] == name@);
            return true;
        }
        i += 1;
    }
    false
}

/// Whether some export of the module has the name `name`.
pub fn has_export(module: &Module, name: &str) -> (r: bool)
    ensures
        r == exports_name(module_exports(*module), name@),
{
    match export_fields(module) {
        None => false,
        Some(names) => holds_name(&names, name),
    }
}

/// Exports the module's table of indirect calls under the conventional name, unless
/// the module has no table or exports that name already. A module that has a table
/// and no export section gets an export section for it.
pub fn patch_table_export(module: &mut Module)
    ensures
        *final(module) == patched_module(*old(module)),
        module_exports(*final(module)) == patched_exports(
            module_exports(*old(module)),
            module_has_table(*old(module)),
        ),
        module_imports(*final(module)) == module_imports(*old(module)),
        module_has_table(*final(module)) == module_has_table(*old(module)),
{
    if !has_table_section(module) {
        return ;
    }
    match export_fields(module) {
        Some(names) => {
            if !holds_name(&names, "__table") {
                push_table_export(module, String::from_str("__table"), 0);
            }
        },
        None => {
            let _ = insert_export_section(module);
            push_table_export(module, String::from_str("__table"), 0);
            assert(module_exports(*module) == Some(seq![table_export()]));
        },
    }
}

} // verus!
