//! A verified execution engine for a classic 8-bit fantasy processor: a
//! 4096-byte memory with a resident glyph font, sixteen 8-bit registers, a
//! sixteen-entry call stack, two countdown timers, a 64x32 XOR-plotted
//! display and a sixteen-key input latch. Each instruction is one 16-bit
//! big-endian word and produces exactly one discrete, fully specified state
//! transition.
pub mod cpu;
pub mod draw;
pub mod engine;
pub mod font;
pub mod keyboard;
pub mod laws;
pub mod screen;
pub mod state;

pub use cpu::CPU;
pub use engine::Chip8;
pub use font::FONT_LEN;
pub use keyboard::Keyboard;
pub use screen::Screen;
