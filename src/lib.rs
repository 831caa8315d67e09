//! Decision logic of a small 3D scene viewer: which entities the startup
//! routine spawns, how the scene entities are spread when they move, and what
//! the input system does with the state of the keyboard and the mouse.
//! The engine that renders, schedules and polls devices stays outside.

pub mod input;
pub mod motion;
pub mod startup;
