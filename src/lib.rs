//! A verified core for loading native 64-bit images into a memory region
//! laid out as a loader would lay it out, together with the small pieces of
//! input handling around it (hotkey edge detection, key names, log levels).
pub mod bytes;
pub mod cursor;
pub mod error;
pub mod harden;
pub mod hotkeys;
pub mod image;
pub mod imports;
pub mod input;
pub mod keys;
pub mod layout;
pub mod logger;
pub mod mapper;
pub mod pipeline;
pub mod reloc;
