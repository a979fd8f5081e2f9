pub mod config;
pub mod crop;
pub mod desktop;
pub mod display;
pub mod gnome;
pub mod kde;
pub mod raster;
pub mod resolution;
pub mod rng;
pub mod text;
pub mod wallhaven;
pub mod xfce;

use vstd::prelude::*;

verus! {

/// What can go wrong upstream of dispatch; every variant is fatal for the
/// step that raises it.
#[derive(Clone, Copy, PartialEq, Eq, Structural, Debug)]
pub enum Error {
    /// The session or desktop cannot be identified from the environment.
    Configuration,
    /// A resolution string is malformed.
    Format,
    /// No monitor was enumerated.
    NoDisplay,
    /// The image bytes cannot be decoded.
    Decode,
}

impl Error {
    /// A short description of the error.
    pub fn describe(&self) -> (r: &'static str)
        ensures
            *self == Error::Configuration ==> r@ == "unidentifiable session or desktop environment"@,
            *self == Error::Format ==> r@ == "malformed resolution string"@,
            *self == Error::NoDisplay ==> r@ == "no display detected"@,
            *self == Error::Decode ==> r@ == "image data could not be decoded"@,
    {
        match self {
            Error::Configuration => "unidentifiable session or desktop environment",
            Error::Format => "malformed resolution string",
            Error::NoDisplay => "no display detected",
            Error::Decode => "image data could not be decoded",
        }
    }
}

} // verus!
