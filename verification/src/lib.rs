//! Rebuilds the parent-to-children topology of an NTFS volume from the raw
//! buffers that the volume's bulk enumeration of the master file table hands
//! back: a bounds-checked record decoder, a parent-keyed index, the
//! enumeration cursor, and the coordination of both in two execution modes.

pub mod wire;
pub mod record;
pub mod index;
pub mod source;
pub mod pipeline;
