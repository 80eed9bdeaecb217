//! Obfuscation filter against faint low-bit watermarks in raster images,
//! together with the session model that keeps each loaded image beside its
//! filtered rendering.
//!
//! The filter quantizes every channel of every pixel and, with a chosen
//! probability, lets a pixel take the colour of its diagonal neighbour. The
//! session holds the loaded images, runs the filter on each arrival and
//! again on every change of the configuration.

pub mod codec;
pub mod display;
pub mod engine;
pub mod grid;
pub mod media;
pub mod pending;
pub mod quantize;
pub mod random;
pub mod record;
pub mod session;
pub mod swap;

pub use engine::{calc_new_image, transform};
pub use grid::PixelGrid;
pub use media::denotes_image;
pub use pending::PendingSet;
pub use quantize::quantize_channel;
pub use record::{accept_upload, decode_upload, ingest, ImageRecord, SessionError};
pub use session::{Action, App, ConfigType, Msg};
