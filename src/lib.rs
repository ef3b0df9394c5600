//! Chunk-graph bookkeeping, runtime-requirement accumulation, module-graph
//! fingerprints and the decision logic of the plugin hook dispatcher.

pub mod args;
pub mod chunk;
pub mod chunk_graph;
pub mod dispatch;
pub mod hash;
pub mod ids;
pub mod laws;
pub mod module_graph;
pub mod order;
pub mod runtime;

pub use args::{
    AdditionalChunkRuntimeRequirementsArgs, AdditionalModuleRequirementsArgs, Compilation,
    LoadArgs, OptimizeChunksArgs, ProcessAssetsArgs, RuntimeRequirementsInTreeArgs,
};
pub use chunk::{Chunk, ChunkByUkey, ChunkGroup, ChunkGroupByUkey};
pub use chunk_graph::{ChunkGraph, ChunkGraphChunk, ChunkGraphError, ChunkGraphModule};
pub use dispatch::{
    Diagnostic, DiagnosticsBuffer, DispatchAction, DispatchKind, HookDispatch, HookOutcome,
    Severity,
};
pub use ids::{AsyncDependenciesBlockId, ChunkGroupUkey, ChunkUkey, ModuleIdentifier};
pub use module_graph::{ExportsType, ModuleGraph, ModuleGraphModule};
pub use runtime::{RuntimeGlobals, RuntimeSpec, RuntimeSpecMap, RuntimeSpecSet};
