//! Decoding of a compressed audio stream into an in-memory PCM buffer.
//!
//! The library holds the logic of the decode pipeline: the sample format
//! model, the growable output buffer with its write cursor, the selection of
//! the audio stream and of the decoder's output format, and the decode driver
//! as a state machine over the signals of the demuxer and decoder. The
//! demuxer, the decoder and the format converter themselves are driven from
//! outside, which hands the driver plain values.
pub mod container;
pub mod reader;
pub mod sample_format;
