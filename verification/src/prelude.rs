//! The names that most programs need.
pub use crate::geometry::CoordinateOp;
pub use crate::geometry::CoordinateSpace;
pub use crate::geometry::Coordinates;
pub use crate::geometry::Rectangle;
pub use crate::geometry::Virtual;
pub use crate::geometry::VirtualCoordinates;
pub use crate::liber8tion::interpolate::Fract8;
pub use crate::liber8tion::interpolate::Fract8Ops;
pub use crate::liber8tion::Hsv;
pub use crate::pixbuf::Pixbuf;
pub use crate::pixels::Bgr;
pub use crate::pixels::Bgra;
pub use crate::pixels::Grb;
pub use crate::pixels::HardwarePixel;
pub use crate::pixels::PixelBlend;
pub use crate::pixels::PixelFormat;
pub use crate::pixels::PixelSink;
pub use crate::pixels::PixelSrc;
pub use crate::pixels::Rgb;
pub use crate::pixels::Rgba;
pub use crate::render::CoordinateView;
pub use crate::render::Painter;
pub use crate::render::Sample;
pub use crate::render::Shader;
pub use crate::output::Output;
pub use crate::surface::BufferedSurface;
pub use crate::surface::BufferedSurfacePool;
pub use crate::surface::Surface;
pub use crate::surface::SurfaceBuilder;
pub use crate::surface::SurfaceUpdate;
pub use crate::surface::Surfaces;
pub use crate::surface::UpdateQueue;
