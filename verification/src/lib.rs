//! Core of an image-browsing viewport.
//!
//! The library keeps the navigation state of a picture viewer — which image
//! of a sorted collection is selected, and at what zoom — and composites the
//! currently decoded image into a destination pixel buffer, aspect-ratio
//! preserved, centered, and clipped at the buffer edges.
//!
//! All scale arithmetic is exact: the zoom factor is carried in thousandths,
//! and the compositor works with the rational scale `num / den` instead of a
//! floating-point approximation, so every pixel of the output is specified.

pub mod compositor;
pub mod nav;
