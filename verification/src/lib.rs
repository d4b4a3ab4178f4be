//! A falling-sand sandbox: a grid of cells, each holding a material and a
//! temperature, advanced tick by tick by gravity and by the aggregate state
//! that follows from the temperature.

pub mod cell;
pub mod command;
pub mod console;
pub mod materials;
pub mod physics;
pub mod sandbox;
pub mod sprite;
pub mod theorems;

pub use cell::{AggregateState, Cell, AMBIENT};
pub use command::{react, Command, Reaction, Received};
pub use console::{parse_line, window_size, Refusal, Request, StartupError};
pub use materials::{Catalog, MatIndex, Material, Rgb};
pub use sandbox::paint::{clamp_region, Region};
pub use sandbox::{GridError, Sandbox};
pub use sprite::{Extent, Rect, Sprite};
