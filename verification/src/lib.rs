//! A verified realtime audio playback and mixing engine.
//!
//! The engine renders a stereo stream one frame at a time by mixing any
//! number of playing instances of sounds and arrangements, routed through a
//! mixer track hierarchy, modulated by tweened parameters, and sequenced by
//! metronomes and step sequences.  A control thread talks to the audio
//! callback through bounded channels; every audio-side step is bounded,
//! allocation-free, and specified exactly over fixed-point integers.

pub mod fx;
pub mod frame;
pub mod tween;
pub mod table;
pub mod parameter;
pub mod ids;
pub mod rng;
pub mod value;
pub mod mixer;
pub mod sound;
pub mod arrangement;
pub mod group;
pub mod playable;
pub mod instance;
pub mod stream;
pub mod metronome;
pub mod sequence;
pub mod command;
pub mod error;
pub mod instances;
pub mod backend;
pub mod channel;
pub mod manager;
