pub mod control;
pub mod demuxer;
pub mod engine;
pub mod event;
pub mod forward;
pub mod codec_map;
pub mod labels;
pub mod lobby;
pub mod reconcile;
pub mod routing;
pub mod rtcp;
pub mod signaling;
