pub mod nibbles;
pub mod instruction;
pub mod machine;
mod entropy;
pub mod laws;

pub use nibbles::{binary_coded_decimal, u16_from_nibbles_3, u8_from_nibbles_2};
pub use instruction::{decode, Instruction};
pub use machine::{Chip, ChipException, LOAD_ADDR, MEMORY_SIZE, SCREEN_CELLS, SCREEN_HEIGHT, SCREEN_WIDTH};
