//! The narrow trusted boundary around the zlib decompressor. Everything a
//! caller learns from a decompression step is stated here over plain
//! values: how many input bytes were consumed, how many output bytes were
//! written, and how the step ended. Nothing is assumed about the inflated
//! bytes themselves; the decoder checks lengths instead of trusting them.

use vstd::prelude::*;

verus! {

#[verifier::external_type_specification]
#[verifier::external_body]
pub struct ExInflateState(miniz_oxide::inflate::stream::InflateState);

/// How one decompression step ended.
#[derive(Clone, Copy, Debug, PartialEq, Eq, Structural)]
pub enum Step {
    /// Bytes moved, or can move once more input or output room arrives.
    Progress,
    /// The compressed stream ended; its trailing checksum was consumed.
    End,
    /// No progress was possible: the input ran dry mid-stream.
    Starved,
    /// The compressed data is corrupt.
    Corrupt,
}

/// Relies on `miniz_oxide::inflate::stream::InflateState::new_boxed`: a
/// fresh zlib-format decompressor.
#[verifier::external_body]
fn new_state() -> Box<miniz_oxide::inflate::stream::InflateState> {
    miniz_oxide::inflate::stream::InflateState::new_boxed(miniz_oxide::DataFormat::Zlib)
}

/// Relies on `miniz_oxide::inflate::stream::InflateState::reset`: returns
/// the decompressor to its just-constructed state without reallocating,
/// dropping every remnant of the previous stream.
#[verifier::external_body]
fn reset_state(state: &mut Box<miniz_oxide::inflate::stream::InflateState>) {
    state.reset(miniz_oxide::DataFormat::Zlib);
}

/// Relies on `miniz_oxide::inflate::stream::inflate`: inflates bytes from
/// `input` into the front of `buf`, reporting how many input bytes it
/// consumed and how many output bytes it wrote; both counts are bounded by
/// the slices handed to it, and the output buffer keeps its length.
#[verifier::external_body]
fn inflate_step(
    state: &mut Box<miniz_oxide::inflate::stream::InflateState>,
    input: &[u8],
    buf: &mut Vec<u8>,
) -> (r: (usize, usize, Step))
    ensures
        r.0 <= input@.len(),
        r.1 <= old(buf)@.len(),
        final(buf)@.len() == old(buf)@.len(),
{
    let res = miniz_oxide::inflate::stream::inflate(
        state,
        input,
        buf.as_mut_slice(),
        miniz_oxide::MZFlush::None,
    );
    let step = match res.status {
        Ok(miniz_oxide::MZStatus::Ok) => Step::Progress,
        Ok(miniz_oxide::MZStatus::StreamEnd) => Step::End,
        Ok(miniz_oxide::MZStatus::NeedDict) => Step::Corrupt,
        Err(miniz_oxide::MZError::Buf) => Step::Starved,
        Err(_) => Step::Corrupt,
    };
    (res.bytes_consumed, res.bytes_written, step)
}

/// A reusable streaming decompressor, reset rather than reallocated
/// between entries.
pub struct Inflate {
    state: Box<miniz_oxide::inflate::stream::InflateState>,
}

impl Inflate {
    pub fn new() -> Inflate {
        Inflate { state: new_state() }
    }

    /// Clear all state carried over from a previous entry.
    pub fn reset(&mut self) {
        reset_state(&mut self.state);
    }

    /// Run one decompression step; returns the input bytes consumed, the
    /// output bytes written to the front of `buf`, and how the step ended.
    pub fn step(&mut self, input: &[u8], buf: &mut Vec<u8>) -> (r: (usize, usize, Step))
        ensures
            r.0 <= input@.len(),
            r.1 <= old(buf)@.len(),
            final(buf)@.len() == old(buf)@.len(),
    {
        inflate_step(&mut self.state, input, buf)
    }
}

} // verus!
