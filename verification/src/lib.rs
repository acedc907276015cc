//! Converts photographs into pictures of one fixed size for showing on an
//! ultra-high-definition screen: each photograph is set upright by the
//! orientation its metadata records, scaled to fit a canvas of 3840 by 2160
//! pixels with its aspect ratio kept, and centred on the canvas over opaque
//! black. The converted file is named after the time the photograph was
//! taken, so that the files sort in the order of the photographs.
//!
//! The library works on values: the bytes of a file go in, the bytes of the
//! converted file and its name come out. Reading and writing files is left to
//! the caller.
//!
//! - [`convert`] converts one photograph from end to end.
//! - [`metadata`] reads the orientation and the date-time fields of a file,
//!   [`timestamp`] reads and writes date-times, [`naming`] decides the name.
//! - [`orientation`] sets a picture upright, [`scaling`] computes the size and
//!   the place of the scaled picture, [`compose`] puts it on the canvas.
//! - [`single`] is the single-precision arithmetic that the scale is computed
//!   in, [`raster`] the picture as a value, [`imaging`] the boundary to the
//!   `image` crate.
//! - [`sorting`] and [`slideshow`] order the converted files and list them for
//!   a video encoder, [`batch`] counts the photographs of a run.

pub mod batch;
pub mod compose;
pub mod convert;
pub mod error;
pub mod imaging;
pub mod metadata;
pub mod naming;
pub mod orientation;
pub mod raster;
pub mod scaling;
pub mod single;
pub mod slideshow;
pub mod sorting;
pub mod timestamp;
