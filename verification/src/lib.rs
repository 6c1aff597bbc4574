//! The logic of an RDP server for macOS.
//!
//! Frames of the screen come in and display updates go out ([`frame_pipeline`],
//! [`stream`], [`gfx`]); the display adapts to the client ([`display`],
//! [`display_mode`]); input and clipboard contents are passed on ([`input`],
//! [`clipboard`]). What needs the system — capturing, encoding, posting events,
//! running programs, the network — is asked of the caller.
pub mod auth;
pub mod binary64;
pub mod capture;
pub mod cg_capture;
pub mod clipboard;
pub mod codec;
pub mod diff;
pub mod display;
pub mod display_mode;
pub mod frame_pipeline;
pub mod gfx;
pub mod h264;
pub mod input;
pub mod keyboard;
pub mod letterbox;
pub mod mode_choice;
pub mod permissions;
pub mod pixels;
pub mod rdp;
pub mod session;
pub mod startup;
pub mod stream;
pub mod text;
pub mod update;
