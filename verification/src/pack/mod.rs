//! Packing values to bytes and unpacking them again.
pub mod ext_enum;
pub mod pack;
pub mod slice_target;
pub mod target;
pub mod vec_target;

pub use ext_enum::{ExtEnum, ExtEnumError};
pub use pack::{append_bytes, pack_result, roundtrips, split, unpack_result, Pack, PackError, PackTagged, UnpackError};
pub use slice_target::{SlicePackError, SlicePackTarget};
pub use target::{fits, PackTarget};
pub use vec_target::{VecPackError, VecPackTarget};
