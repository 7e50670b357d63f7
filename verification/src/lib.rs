//! Compositing engine for addressable pixel displays: layered shaders are
//! sampled through a coordinate mapping into a flat pixel buffer, and the
//! finished frame is gamma corrected and held under a power ceiling.
pub mod gamma;
pub mod geometry;
pub mod liber8tion;
pub mod mappings;
pub mod output;
pub mod power;
pub mod prelude;
pub mod pixbuf;
pub mod pixels;
pub mod render;
pub mod shaders;
pub mod smart_leds;
pub mod surface;
pub mod ws2812;
