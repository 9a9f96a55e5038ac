//! Failures of the driver's operations.
use vstd::prelude::*;

verus! {

/// A failure of a driver operation: a cross-setting constraint, a destination
/// buffer too small, a withdrawn channel, or a transport error of a channel.
#[derive(Debug, PartialEq, Eq)]
pub enum OV2640Error<I2CErr, SPIErr> {
    /// A resolution was requested while the format is not JPEG.
    CannotSetImageSizeOnNonJPEG,
    /// The destination buffer is shorter than the image in the frame buffer.
    InvalidBufferSize,
    NoI2cPeripheral,
    I2CError(I2CErr),
    NoSpiPeripheral,
    SpiError(SPIErr),
}

} // verus!
