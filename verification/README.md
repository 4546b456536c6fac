# s2render

Turns the compiled resources of a map (worlds, models, meshes, materials, textures, entities) into
one glTF binary, a report, and the files beside them.

`src/` is the library. Every function in it is verified by Verus against its contract: the decoding
of vertex and index buffers, meshes and models, the rules by which materials are resolved, the order
and the choice of entities, lumps, probe volumes and fragments, the document that is built and the
report that is written.

Numbers in floating point are held as their bits; the library reads, compares and passes them on.
What computes with them, and what reads archives and writes files, is in `app/`, which asks the
library what is needed next and hands back what was read or worked out.

`src/codec.rs` holds the calls into the outside codecs (zstd, meshoptimizer, SHA-256), each with what
is taken on trust of it.
