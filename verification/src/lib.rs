//! Crop regions for a batch of portrait photographs.
//!
//! A crop is a rectangle given by its centre, its width and a fixed
//! height-to-width ratio. It must lie strictly inside the picture it was
//! drawn on; an edit that would move it out is dropped and the rectangle
//! stays as it was. The crop of a photograph is kept in the photograph's own
//! file, as the content of one reserved segment of the JPEG container.
//!
//! * [`geometry`]: the rectangle, the bounds invariant, and the pushes.
//! * [`util`]: a person's names, read off the name of the file.
//! * [`record`]: the record that is kept, and its payload (by `bitcode`).
//! * [`container`]: the JPEG container (by `img_parts`).
//! * [`codec`]: reading the record from a file's bytes and writing it into them.
//! * [`crop`]: one photograph being cropped.
//! * [`controller`]: the editing loop, one key event at a time.
//!
//! The library reads no file, opens no window and decodes no pixels: its
//! callers hand it bytes, sizes and key events, and get bytes, windows to cut
//! out and tasks back.

pub mod codec;
pub mod container;
pub mod controller;
pub mod crop;
pub mod geometry;
pub mod record;
pub mod util;
