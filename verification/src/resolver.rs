//! The resolver/loader: decides, per module-loading operation, what the host
//! runtime must do.
//!
//! The host retains the two delegate importers and the capabilities
//! (bytecode deserialization, frame-hiding execution, spec construction,
//! source decoding); each operation here returns a decision naming the
//! delegate to call verbatim or carrying the payload bytes to hand to a
//! capability, so the choice itself is verified while the host performs the
//! action.

use vstd::prelude::*;

use crate::ImporterError;
use crate::decoder::ModuleTable;
use crate::registry::ModuleFlavor;
use crate::registry::ModuleRegistry;
use crate::registry::PackageSet;

verus! {

/// What the host must do to locate a module's spec.
pub enum LocateAction {
    /// Hand the call verbatim to the natively linked delegate and return its
    /// result unmodified.
    DelegateToNative,
    /// Hand the call verbatim to the precompiled delegate.
    DelegateToPrecompiled,
    /// Construct a module spec via the spec-construction capability, with
    /// this resolver as finder and loader and the given package flag.
    BuildSpec { is_package: bool },
    /// The name is not registered; report "not found" (not an error).
    NotFound,
}

/// What the host must do to execute a located module.
pub enum ExecAction {
    /// Hand the call verbatim to the natively linked delegate.
    DelegateToNative,
    /// Hand the call verbatim to the precompiled delegate.
    DelegateToPrecompiled,
    /// Deserialize these bytecode bytes via the bytecode capability and run
    /// the code object against the module's namespace through the
    /// frame-hiding execution capability.
    RunBytecode(Vec<u8>),
    /// The name is unregistered; succeed without doing anything.
    Noop,
}

/// What the host must do to produce a module's code object.
pub enum CodeAction {
    /// Retrieve the precompiled code object by name via the host capability.
    FetchPrecompiled,
    /// Deserialize these bytecode bytes via the bytecode capability.
    Deserialize(Vec<u8>),
    /// No code object exists; report none.
    NoCode,
}

/// What the host must do to produce a module's source text.
pub enum SourceAction {
    /// Decode these bytes via the source-decoding capability.
    DecodeSource(Vec<u8>),
    /// The module has no source; report none.
    NoSource,
}

/// The resolver installed as the sole entry in the host's module search
/// path: the flavor registry, the derived package set, and the two decoded
/// module tables it serves blob-packed modules from.
pub struct Resolver {
    pub registry: ModuleRegistry,
    pub packages: PackageSet,
    pub source_table: ModuleTable,
    pub bytecode_table: ModuleTable,
}

impl Resolver {
    /// Decides how to locate a module's spec.
    ///
    /// A natively linked or precompiled name is delegated; a blob-packed
    /// name gets a spec built with its package flag taken from the package
    /// set; an unregistered name is "not found".
    pub fn locate(&self, name: &Vec<u8>) -> (r: LocateAction)
        ensures
            !self.registry@.contains_key(name@) ==> r is NotFound,
            self.registry@.contains_key(name@) ==> match self.registry@[name@] {
                ModuleFlavor::NativelyLinked => r is DelegateToNative,
                ModuleFlavor::Precompiled => r is DelegateToPrecompiled,
                ModuleFlavor::InMemory => r matches LocateAction::BuildSpec { is_package }
                    && is_package == self.packages@.contains(name@),
            },
    {
        match self.registry.get(name) {
            None => LocateAction::NotFound,
            Some(ModuleFlavor::NativelyLinked) => LocateAction::DelegateToNative,
            Some(ModuleFlavor::Precompiled) => LocateAction::DelegateToPrecompiled,
            Some(ModuleFlavor::InMemory) => LocateAction::BuildSpec {
                is_package: self.packages.contains(name),
            },
        }
    }

    /// The deprecated name-resolution entry point: always reports
    /// "not found".
    pub fn find_module(&self, _name: &Vec<u8>) -> (r: LocateAction)
        ensures
            r is NotFound,
    {
        LocateAction::NotFound
    }

    /// The module-allocation entry point: always defers to the host's
    /// default module creation, reporting no object of its own.
    pub fn create_module(&self) -> (r: Option<Vec<u8>>)
        ensures
            r is None,
    {
        None
    }

    /// Decides how to execute a module, by its declared name.
    ///
    /// Delegated flavors are handed on verbatim; a blob-packed name yields
    /// its bytecode payload to run, or an error naming the module when the
    /// bytecode table has no payload for it; an unregistered name succeeds
    /// as a no-op.
    pub fn execute(&self, name: &Vec<u8>) -> (r: Result<ExecAction, ImporterError>)
        ensures
            !self.registry@.contains_key(name@) ==> (r matches Ok(a) && a is Noop),
            self.registry@.contains_key(name@) ==> match self.registry@[name@] {
                ModuleFlavor::NativelyLinked => r matches Ok(a) && a is DelegateToNative,
                ModuleFlavor::Precompiled => r matches Ok(a) && a is DelegateToPrecompiled,
                ModuleFlavor::InMemory => {
                    if self.bytecode_table@.contains_key(name@) {
                        r matches Ok(ExecAction::RunBytecode(b)) && b@
                            == self.bytecode_table@[name@]
                    } else {
                        r matches Err(ImporterError::MissingPayload { name: m }) && m@ == name@
                    }
                },
            },
    {
        match self.registry.get(name) {
            None => Ok(ExecAction::Noop),
            Some(ModuleFlavor::NativelyLinked) => Ok(ExecAction::DelegateToNative),
            Some(ModuleFlavor::Precompiled) => Ok(ExecAction::DelegateToPrecompiled),
            Some(ModuleFlavor::InMemory) => match self.bytecode_table.get(name) {
                Some(payload) => Ok(ExecAction::RunBytecode(payload)),
                None => Err(
                    ImporterError::MissingPayload { name: crate::util::copy_bytes(name) },
                ),
            },
        }
    }

    /// Decides how to produce a module's code object.
    ///
    /// A precompiled name is fetched through the host's precompiled-code
    /// capability; a blob-packed name yields its bytecode payload to
    /// deserialize, or an error naming the module when the bytecode table
    /// has no payload for it; a natively linked or unregistered name has no
    /// code object.
    pub fn code_for(&self, name: &Vec<u8>) -> (r: Result<CodeAction, ImporterError>)
        ensures
            !self.registry@.contains_key(name@) ==> (r matches Ok(a) && a is NoCode),
            self.registry@.contains_key(name@) ==> match self.registry@[name@] {
                ModuleFlavor::NativelyLinked => r matches Ok(a) && a is NoCode,
                ModuleFlavor::Precompiled => r matches Ok(a) && a is FetchPrecompiled,
                ModuleFlavor::InMemory => {
                    if self.bytecode_table@.contains_key(name@) {
                        r matches Ok(CodeAction::Deserialize(b)) && b@
                            == self.bytecode_table@[name@]
                    } else {
                        r matches Err(ImporterError::MissingPayload { name: m }) && m@ == name@
                    }
                },
            },
    {
        match self.registry.get(name) {
            None => Ok(CodeAction::NoCode),
            Some(ModuleFlavor::NativelyLinked) => Ok(CodeAction::NoCode),
            Some(ModuleFlavor::Precompiled) => Ok(CodeAction::FetchPrecompiled),
            Some(ModuleFlavor::InMemory) => match self.bytecode_table.get(name) {
                Some(payload) => Ok(CodeAction::Deserialize(payload)),
                None => Err(
                    ImporterError::MissingPayload { name: crate::util::copy_bytes(name) },
                ),
            },
        }
    }

    /// Decides how to produce a module's source text.
    ///
    /// Only a blob-packed module may have source: its payload from the
    /// source table is handed to the source-decoding capability, and its
    /// absence is an error naming the module. Every other flavor, and an
    /// unregistered name, has none.
    pub fn source_for(&self, name: &Vec<u8>) -> (r: Result<SourceAction, ImporterError>)
        ensures
            !self.registry@.contains_key(name@) ==> (r matches Ok(a) && a is NoSource),
            self.registry@.contains_key(name@) ==> match self.registry@[name@] {
                ModuleFlavor::NativelyLinked => r matches Ok(a) && a is NoSource,
                ModuleFlavor::Precompiled => r matches Ok(a) && a is NoSource,
                ModuleFlavor::InMemory => {
                    if self.source_table@.contains_key(name@) {
                        r matches Ok(SourceAction::DecodeSource(b)) && b@
                            == self.source_table@[name@]
                    } else {
                        r matches Err(ImporterError::MissingPayload { name: m }) && m@ == name@
                    }
                },
            },
    {
        match self.registry.get(name) {
            None => Ok(SourceAction::NoSource),
            Some(ModuleFlavor::NativelyLinked) => Ok(SourceAction::NoSource),
            Some(ModuleFlavor::Precompiled) => Ok(SourceAction::NoSource),
            Some(ModuleFlavor::InMemory) => match self.source_table.get(name) {
                Some(payload) => Ok(SourceAction::DecodeSource(payload)),
                None => Err(
                    ImporterError::MissingPayload { name: crate::util::copy_bytes(name) },
                ),
            },
        }
    }

    /// Cache invalidation: the registry is immutable after setup, so there
    /// is nothing to invalidate; succeeds trivially.
    pub fn invalidate_caches(&self) {
    }
}

} // verus!
