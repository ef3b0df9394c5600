//! What the fingerprinting reads from the module graph: one record per
//! module, with its build hash, identity data and outgoing connections.
use std::collections::HashMap;

use vstd::prelude::*;

use crate::ids::ModuleIdentifier;

verus! {

broadcast use vstd::std_specs::hash::group_hash_axioms;

/// How a module's exports look to an importer.
#[derive(Clone, Copy, Debug, PartialEq, Eq, Structural)]
pub enum ExportsType {
    Namespace,
    DefaultOnly,
    DefaultWithNamed,
    Dynamic,
}

/// The number folded into a fingerprint for an exports type.
pub open spec fn exports_type_code(t: ExportsType) -> u64 {
    match t {
        ExportsType::Namespace => 0,
        ExportsType::DefaultOnly => 1,
        ExportsType::DefaultWithNamed => 2,
        ExportsType::Dynamic => 3,
    }
}

pub fn exports_type_code_of(t: ExportsType) -> (r: u64)
    ensures
        r == exports_type_code(t),
{
    match t {
        ExportsType::Namespace => 0,
        ExportsType::DefaultOnly => 1,
        ExportsType::DefaultWithNamed => 2,
        ExportsType::Dynamic => 3,
    }
}

/// The module graph's record of one module.
#[derive(Clone, Debug)]
pub struct ModuleGraphModule {
    /// Hash of the module's build result.
    pub build_hash: u64,
    /// The kinds of source the module emits, as a bit set.
    pub source_types: u64,
    pub is_async: bool,
    /// Structural hash of the module's export information.
    pub exports_info_hash: u64,
    /// Exports type when imported from a strict harmony module.
    pub exports_type_strict: ExportsType,
    /// Exports type when imported from a non-strict module.
    pub exports_type_default: ExportsType,
    /// Whether the module itself is a strict harmony (ES) module.
    pub strict_harmony: bool,
    /// Targets of the module's outgoing connections, in insertion order.
    pub outgoing: Vec<ModuleIdentifier>,
}

impl ModuleGraphModule {
    pub open spec fn exports_type_for(&self, strict: bool) -> ExportsType {
        if strict {
            self.exports_type_strict
        } else {
            self.exports_type_default
        }
    }

    pub fn get_exports_type(&self, strict: bool) -> (r: ExportsType)
        ensures
            r == self.exports_type_for(strict),
    {
        if strict {
            self.exports_type_strict
        } else {
            self.exports_type_default
        }
    }

    /// Targets of the outgoing connections, as plain identifiers.
    pub open spec fn outgoing_ids(&self) -> Seq<u64> {
        self.outgoing@.map_values(|t: ModuleIdentifier| t.id)
    }
}

/// The modules of a compilation, by identifier.
#[derive(Debug)]
pub struct ModuleGraph {
    modules: HashMap<u64, ModuleGraphModule>,
}

impl View for ModuleGraph {
    type V = Map<u64, ModuleGraphModule>;

    closed spec fn view(&self) -> Map<u64, ModuleGraphModule> {
        self.modules@
    }
}

impl ModuleGraph {
    pub fn new() -> (r: Self)
        ensures
            r@ == Map::<u64, ModuleGraphModule>::empty(),
    {
        ModuleGraph { modules: HashMap::new() }
    }

    /// Registers (or replaces) the record of a module.
    pub fn add_module(&mut self, module: ModuleIdentifier, record: ModuleGraphModule)
        ensures
            final(self)@ == old(self)@.insert(module.id, record),
    {
        self.modules.insert(module.id, record);
    }

    pub fn module_graph_module_by_identifier(&self, module: &ModuleIdentifier) -> (r: Option<
        &ModuleGraphModule,
    >)
        ensures
            match r {
                Some(m) => self@.contains_key(module.id) && *m == self@[module.id],
                None => !self@.contains_key(module.id),
            },
    {
        self.modules.get(&module.id)
    }
}

} // verus!
