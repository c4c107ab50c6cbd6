//! A two-player paddle game for a bare-metal framebuffer: a bump arena, a
//! pixel renderer with a small vector digit font, and the game state machine
//! driven by timer ticks and key presses.

pub mod arena;
pub mod game;
pub mod screen;
pub mod handlers;
