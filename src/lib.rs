//! Packing of vector-graphics frames and an optional audio track into a VVF
//! archive, and inspection of such archives.
use vstd::prelude::*;

pub mod archive;
pub mod laws;
pub mod meta;
pub mod naming;
pub mod zipio;

pub use archive::{inspect, pack_vvf_native, ArchiveSummary, VvfError};
pub use meta::{create_meta, Meta};

verus! {

/// The version of this library.
pub fn version() -> (r: &'static str)
    ensures
        r@ == seq!['0', '.', '1', '.', '0'],
{
    proof {
        reveal_strlit("0.1.0");
    }
    "0.1.0"
}

/// A greeting that hosts show once the library is loaded.
pub fn hello() -> (r: String)
    ensures
        r@ == "vectovid core (wasm) initialized"@,
{
    "vectovid core (wasm) initialized".to_owned()
}

/// Whether this build can pack archives.
pub fn has_packer() -> (r: bool)
    ensures
        r,
{
    true
}

/// Whether this build can play archives.
pub fn has_player() -> (r: bool)
    ensures
        r,
{
    true
}

} // verus!
