//! Logic of a first-person voxel renderer for a true-colour terminal.
//!
//! The library holds everything that decides: ray traversal, the block
//! palette, streamed light, packet handling, the HUD, the keyboard, and the
//! text of a terminal frame. It knows nothing of networking, of clocks or of
//! floating point. Distances and sort keys arrive as integers that order as
//! the numbers they stand for.

pub mod config;
pub mod entities;
pub mod frame;
pub mod grid;
pub mod hud;
pub mod input;
pub mod lighting;
pub mod map;
pub mod overrides;
pub mod palette;
pub mod ray;
pub mod report;
pub mod screen;
pub mod session;
pub mod shade;
pub mod text;

pub use config::{LiveConfig, Mode, RenderConfig};
pub use entities::{EntityCategory, EntityMarker};
pub use frame::Frame;
pub use grid::{Block, BlockPos, BlockSource, Face, LightLevels, Voxel};
pub use hud::{HotbarSlot, HudSnapshot};
pub use lighting::{LightStore, PacketLightData, WorldTime};
pub use map::{minimap, navigation_minimap};
pub use palette::{block_appearance, block_color, BlockAppearance, Rgb};
pub use ray::{raycast, AxisCrossings, Distance, Ray, RayHit, RayResult};
pub use session::{ClientState, GamePacket};
