use rspack_core::{
    AdditionalChunkRuntimeRequirementsArgs, Chunk, ChunkUkey, Compilation, RuntimeGlobals,
    RuntimeSpec,
};

#[test]
fn chunk_args_resolve_their_chunk() {
    let mut compilation = Compilation::new();
    compilation.chunk_by_ukey.add(Chunk { ukey: ChunkUkey::new(3), runtime: RuntimeSpec::single(7) });
    let ukey = ChunkUkey::new(3);
    let mut requirements = RuntimeGlobals::empty();
    let args = AdditionalChunkRuntimeRequirementsArgs {
        compilation: &mut compilation,
        chunk: &ukey,
        runtime_requirements: &mut requirements,
    };
    let chunk = args.chunk();
    assert_eq!(chunk.ukey, ChunkUkey::new(3));
    assert!(chunk.runtime.same_as(&RuntimeSpec::single(7)));
}
