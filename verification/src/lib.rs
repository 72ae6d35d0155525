//! Codecs for two legacy binary game-asset formats: a texture-archive
//! container holding named indexed-color textures with precomputed mip
//! levels, and a skeletal-model container whose texture sub-table is
//! decoded for inspection. Both codecs parse from and (for the archive)
//! re-serialize to raw little-endian byte buffers.

pub mod hlmdl;
pub mod hlwad;
pub mod le;
pub mod quant;

use vstd::prelude::*;

verus! {

/// Why a decode or encode request was rejected.
#[derive(Clone, Copy, Debug, PartialEq, Eq, Structural)]
pub enum FormatError {
    /// The buffer's signature bytes do not match this format.
    BadMagic,
    /// The buffer is too short for a fixed-size or declared read.
    Truncated,
    /// A texture's width or height is not divisible by the mip granularity.
    InvalidDimensions,
}

/// Something the front end can display: it decodes itself to a flat
/// row-major RGB byte buffer, three bytes per pixel.
pub trait GuiImage {
    /// The value is well-formed enough to decode.
    spec fn gui_wf(&self) -> bool;

    /// The RGB bytes the decode yields.
    spec fn gui_rgb(&self) -> Seq<u8>;

    fn to_rgb_image_vec(&self) -> (r: Vec<u8>)
        requires
            self.gui_wf(),
        ensures
            r@ == self.gui_rgb(),
    ;
}

} // verus!
