use vstd::prelude::*;

pub mod assemble;
pub mod channel;
pub mod codec;
pub mod frame;
pub mod name;
pub mod session;

pub use assemble::video_command_args;
pub use channel::recv_frame;
pub use codec::process_frame;
pub use frame::FrameData;
pub use name::frame_filename;
pub use session::{RecordingSession, Registry, RegistryState};
