//! A verified ARM7TDMI core for a Game Boy Advance emulator: the Thumb
//! decoder and executor, the banked register file, flag arithmetic and a
//! byte-addressed memory.
pub mod bits;
pub mod ram;
pub mod reg;
pub mod decode;
pub mod semantics;
pub mod cpu;
