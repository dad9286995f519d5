//! Instance state and lifecycle: the injection record the embedding
//! application fills, the per-instance state with its one-shot setup guard,
//! and the setup routine that builds the resolver.

use vstd::prelude::*;

use crate::ImporterError;
use crate::decoder::decode_blob;
use crate::format::blob_table;
use crate::format::blob_well_formed;
use crate::registry::build_registry;
use crate::registry::merged_registry;
use crate::registry::names_set;
use crate::registry::package_closure;
use crate::resolver::Resolver;

verus! {

/// The record the embedding application fills to hand the engine its two
/// packed blobs at interpreter initialization time.
pub struct InitModuleState {
    /// Raw data constituting the packed module source code.
    pub py_data: Vec<u8>,
    /// Raw data constituting the packed module bytecode.
    pub pyc_data: Vec<u8>,
}

/// Per-instance state: the two raw blobs and the one-shot setup guard.
pub struct ModuleState {
    /// Raw data constituting the packed module source code.
    pub py_data: Vec<u8>,
    /// Raw data constituting the packed module bytecode.
    pub pyc_data: Vec<u8>,
    /// Whether setup has been performed on this instance.
    pub setup_called: bool,
}

/// The name set the two blob tables of a setup call register as
/// blob-packed.
pub open spec fn packed_names(py: Seq<u8>, pyc: Seq<u8>) -> Set<Seq<u8>> {
    blob_table(py).dom().union(blob_table(pyc).dom())
}

/// Creates the per-instance state from the injection record, with setup not
/// yet performed.
pub fn module_init(init: InitModuleState) -> (r: ModuleState)
    ensures
        r.py_data@ == init.py_data@,
        r.pyc_data@ == init.pyc_data@,
        !r.setup_called,
{
    ModuleState { py_data: init.py_data, pyc_data: init.pyc_data, setup_called: false }
}

/// Performs the one-shot setup: decodes both blobs, builds the registry and
/// package set from the natively linked and precompiled name enumerations
/// and the decoded tables, and returns the resolver the host must install
/// as the sole entry of its module search path.
///
/// The host must hand in the length of its current module search path;
/// anything but the two expected delegate importers is a fatal
/// precondition violation. A second call on the same instance fails and
/// performs no action, leaving the state of the first call intact.
pub fn module_setup(
    state: &mut ModuleState,
    native: &Vec<Vec<u8>>,
    precompiled: &Vec<Vec<u8>>,
    meta_path_len: usize,
) -> (r: Result<Resolver, ImporterError>)
    ensures
        old(state).setup_called ==> (r matches Err(e) && e is Lifecycle) && *final(state) == *old(
            state,
        ),
        !old(state).setup_called ==> {
            &&& final(state).setup_called
            &&& final(state).py_data@ == old(state).py_data@
            &&& final(state).pyc_data@ == old(state).pyc_data@
            &&& (meta_path_len != 2 ==> (r matches Err(e) && e is Precondition))
            &&& (meta_path_len == 2 && !blob_well_formed(old(state).py_data@) ==> (
            r matches Err(e)
                && e is Format))
            &&& (meta_path_len == 2 && blob_well_formed(old(state).py_data@)
                && !blob_well_formed(old(state).pyc_data@) ==> (r matches Err(e) && e is Format))
            &&& (meta_path_len == 2 && blob_well_formed(old(state).py_data@) && blob_well_formed(
                old(state).pyc_data@,
            ) ==> (r matches Ok(res) && {
                &&& res.source_table@ == blob_table(old(state).py_data@)
                &&& res.bytecode_table@ == blob_table(old(state).pyc_data@)
                &&& res.registry@ == merged_registry(
                    names_set(native@),
                    names_set(precompiled@),
                    packed_names(old(state).py_data@, old(state).pyc_data@),
                )
                &&& res.packages@ == package_closure(
                    packed_names(old(state).py_data@, old(state).pyc_data@),
                )
            }))
        },
{
    if state.setup_called {
        return Err(ImporterError::Lifecycle);
    }
    state.setup_called = true;

    if meta_path_len != 2 {
        return Err(ImporterError::Precondition);
    }

    let source_table = match decode_blob(&state.py_data) {
        Ok(t) => t,
        Err(_) => {
            return Err(ImporterError::Format);
        },
    };
    let bytecode_table = match decode_blob(&state.pyc_data) {
        Ok(t) => t,
        Err(_) => {
            return Err(ImporterError::Format);
        },
    };

    let (registry, packages) = build_registry(native, precompiled, &source_table, &bytecode_table);

    Ok(Resolver { registry, packages, source_table, bytecode_table })
}

} // verus!
