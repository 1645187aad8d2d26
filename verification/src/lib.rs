//! The verified core of a video player: the ring buffer that joins the decoder to the
//! playback threads, and the rules that the player follows around it.
pub mod audio;
pub mod custom_io;
pub mod decode;
pub mod format;
pub mod option_ext;
pub mod ringbuf;
pub mod sync;
pub mod widget;
