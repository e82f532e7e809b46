//! A grid-based line-drawing core: a drawing is a set of line segments whose
//! endpoints sit on a discrete grid, mapped onto a fixed vector surface with a
//! one-spacing margin on every side. An interactive session builds a drawing
//! one candidate segment at a time; finished drawings live in a gallery that
//! encodes to and decodes from a flat byte snapshot.

pub mod codec;
pub mod drawing;
pub mod gallery;
pub mod geometry;
pub mod session;
