//! A stochastic L-system grammar engine with a turtle-graphics interpreter.
//!
//! Production rules rewrite a sequence of symbols generation by generation;
//! a turtle (2D or 3D) then walks the resulting sequence and emits line
//! segments and point markers.  All geometry is fixed-point: positions are
//! integer coordinates, bearings are whole degrees, and trigonometry is a
//! rational approximation scaled by [`trig::SIN_SCALE`].

pub mod engine;
pub mod geom2d;
pub mod geom3d;
pub mod rng;
pub mod rules;
pub mod trig;
