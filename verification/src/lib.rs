//! Zone grouping presets: a verified core for an audio-output grouping
//! extension.  Presets name an ordered set of outputs together with a volume
//! policy; the library holds the preset state machine (reducers over the
//! settings form), the matcher that recognises a live zone as a preset, the
//! renderer that projects state into a dynamic settings form, the dispatcher
//! that turns a confirmed action into transport commands, and the codec that
//! maps settings to and from the persisted document shape.

pub mod model;
pub mod text;
pub mod matcher;
pub mod reducer;
pub mod layout;
pub mod dispatch;
pub mod codec;
