pub mod chunks;
pub mod crc;

pub use chunks::drop_png_signature;
pub use chunks::ChunkType;
pub use chunks::PngChunk;
pub use chunks::PngChunkIter;
