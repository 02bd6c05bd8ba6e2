//! The link step: from the manifests of all units and the compiled module to the
//! module that is shipped, the shims that it imports and the prelude.

use parity_wasm::elements::{Error, Module};
use std::path::PathBuf;
use vstd::prelude::*;
use crate::aggregate::{merge_manifests, preludes, registry_of, units_view, Aggregate, Manifest};
use crate::registry::CollisionError;
use crate::shim::{emit_shims, imports_text};
use crate::wasm::{
    bytes_of_module, import_entries, module_imports, module_of_bytes, patch_table_export,
    patched_module, read_module, write_module,
};

verus! {

/// `std::path::PathBuf`: a path, carried through as it is.
#[verifier::external_type_specification]
#[verifier::external_body]
pub struct ExPathBuf(PathBuf);

/// What the link step hands back.
#[derive(Debug)]
pub struct PostProcessData {
    /// Where the compiled module lies.
    pub wasm_path: PathBuf,
    /// The bytes of the module, with its table exported.
    pub wasm: Vec<u8>,
    /// The shims of the snippets that the module imports: the members of the object
    /// that the module gets as its foreign environment.
    pub imports: String,
    /// The code of all units that is to run before the module is loaded.
    pub included: String,
}

/// Why the link step gave up.
#[derive(Debug)]
pub enum PostProcessError {
    /// Two different snippets have the same symbol.
    Collision(CollisionError),
    /// The bytes are no module.
    Read(Error),
    /// The module could not be written back.
    Write(Error),
}

/// Links a module that was read already: exports its table, writes a shim for each
/// snippet of `aggregate` that the module imports, and writes the module back to
/// bytes.
pub fn link_module(aggregate: Aggregate, wasm_path: PathBuf, module: Module) -> (r: Result<
    PostProcessData,
    PostProcessError,
>)
    ensures
        match bytes_of_module(patched_module(module)) {
            None => r matches Err(PostProcessError::Write(_)),
            Some(bytes) => {
                &&& r matches Ok(data)
                &&& data.wasm_path == wasm_path
                &&& data.wasm@ == bytes
                &&& data.imports@ == imports_text(module_imports(module), aggregate.symbol_map@)
                &&& data.included@ == aggregate.prelude@
            },
        },
{
    let Aggregate { mut symbol_map, prelude } = aggregate;
    let mut module = module;
    patch_table_export(&mut module);
    let entries = import_entries(&module);
    let wasm = match write_module(module) {
        Ok(wasm) => wasm,
        Err(e) => {
            return Err(PostProcessError::Write(e));
        },
    };
    let imports = emit_shims(entries.as_slice(), &mut symbol_map);
    Ok(PostProcessData { wasm_path, wasm, imports, included: prelude })
}

/// Links a module: merges the manifests, reads the module from `wasm`, exports its
/// table, and writes a shim for each snippet that the module imports. Nothing is
/// returned but the error where two snippets collide or the module cannot be read or
/// written.
pub fn postprocess_crate(manifests: &[Manifest], wasm_path: PathBuf, wasm: &[u8]) -> (r: Result<
    PostProcessData,
    PostProcessError,
>)
    ensures
        match registry_of(units_view(manifests@)) {
            Err(clash) => r matches Err(PostProcessError::Collision(e)) && e@ == clash,
            Ok(map) => match module_of_bytes(wasm@) {
                None => r matches Err(PostProcessError::Read(_)),
                Some(module) => match bytes_of_module(patched_module(module)) {
                    None => r matches Err(PostProcessError::Write(_)),
                    Some(bytes) => {
                        &&& r matches Ok(data)
                        &&& data.wasm_path == wasm_path
                        &&& data.wasm@ == bytes
                        &&& data.imports@ == imports_text(module_imports(module), map)
                        &&& data.included@ == preludes(units_view(manifests@))
                    },
                },
            },
        },
{
    let aggregate = match merge_manifests(manifests) {
        Ok(aggregate) => aggregate,
        Err(e) => {
            return Err(PostProcessError::Collision(e));
        },
    };
    let module = match read_module(wasm) {
        Ok(module) => module,
        Err(e) => {
            return Err(PostProcessError::Read(e));
        },
    };
    link_module(aggregate, wasm_path, module)
}

} // verus!
