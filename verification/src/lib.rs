//! Code-generation bridge for a built-in dictionary type.
//!
//! A statically typed compiler implements its dictionary primitive by
//! delegating to one pre-compiled, type-erased runtime implementation.
//! The bridge synthesizes the type-specialized glue the runtime cannot
//! know in advance (hash, equality and refcount adapters, deduplicated
//! per layout), chooses the key/value packing order from alignments,
//! reinterprets container handles across the ABI boundary, and marshals
//! the arguments of every runtime entry point.
//!
//! Alongside the bridge, `buf` holds the formatter's output buffer: an
//! arena-allocated text accumulator with pending-whitespace
//! normalization.

pub mod bridge;
pub mod buf;
pub mod codegen;
pub mod dispatch;
pub mod layout;
pub mod model;
pub mod runtime;

pub use bridge::ContainerHandle;
pub use buf::Buf;
pub use codegen::CodeGen;
pub use layout::Alignment;
pub use layout::Layout;
pub use layout::RefcountMode;
