//! A fixed-point raycasting engine for grid mazes.
//!
//! Every quantity is an integer: lengths are counted in 1/65536 of a grid
//! cell, angles in hundredths of a degree, colours as packed 8-bit channels.
//! The engine renders a first-person view of a maze column by column, keeps a
//! per-column depth buffer to hide sprites behind walls, and draws a top-down
//! minimap. Around it stand the player, the enemy, the text of the frame
//! counter and the steps of the game.
//!
//! Everything is proved against the contracts stated in each module, with one
//! exception: the call into the `image` crate in `scaling`, whose contract is
//! taken on trust and says so.

pub mod fixed;
pub mod trig;
pub mod map;
pub mod player;
pub mod input;
pub mod raycaster;
pub mod color;
pub mod texture;
pub mod scaling;
pub mod canvas;
pub mod renderer;
pub mod framebuffer;
pub mod enemy;
pub mod animated_sprite;
pub mod ui;
pub mod game;
pub mod ray_caster;
