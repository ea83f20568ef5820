//! Session configuration: what the caller asks for, what the devices offer,
//! and how the engine reconciles the two before opening streams. The output
//! side is authoritative: the input direction is forced to mirror its
//! channel count and sample rate, and no resampling is attempted.

use crate::ring::{is_pow2, next_pow2};
use vstd::arithmetic::power2::{lemma2_to64, pow2};
use vstd::prelude::*;

verus! {

/// Caller-side request for an engine session.
///
/// Devices are chosen by a name fragment matched without regard to case or
/// by explicit ordinal among the usable devices; the name wins when both
/// are given and the ordinal is the fallback. The gain is a decibel value
/// carried as the opaque 32-bit word of its machine representation, since
/// this crate does no numeric work on it; the all-zero word encodes a gain
/// of zero decibels.
#[derive(Debug, Clone)]
pub struct EngineConfig {
    pub input_name: Option<String>,
    pub output_name: Option<String>,
    pub input_index: Option<usize>,
    pub output_index: Option<usize>,
    pub sample_rate: Option<u32>,
    pub block_size: Option<u32>,
    pub gain_db_bits: u32,
}

impl Default for EngineConfig {
    /// No selectors, no overrides, zero-decibel gain.
    fn default() -> (r: EngineConfig)
        ensures
            r.input_name is None,
            r.output_name is None,
            r.input_index is None,
            r.output_index is None,
            r.sample_rate is None,
            r.block_size is None,
            r.gain_db_bits == 0,
    {
        EngineConfig {
            input_name: None,
            output_name: None,
            input_index: None,
            output_index: None,
            sample_rate: None,
            block_size: None,
            gain_db_bits: 0,
        }
    }
}

/// Block-size setting of one stream direction: whatever the device prefers,
/// or a fixed number of frames per callback.
#[derive(Clone, Copy, Debug, PartialEq, Eq, Structural)]
pub enum BufferSpec {
    DeviceDefault,
    Fixed(u32),
}

/// One direction's stream parameters, as a device reports them or as the
/// engine resolves them.
#[derive(Clone, Copy, Debug, PartialEq, Eq, Structural)]
pub struct StreamParams {
    pub channels: u16,
    pub sample_rate: u32,
    pub buffer: BufferSpec,
}

/// The numeric encoding a device uses for one sample: a 4-byte binary
/// fraction, a signed or an unsigned 16-bit integer, or something else the
/// format adapter cannot handle.
#[derive(Clone, Copy, Debug, PartialEq, Eq, Structural)]
pub enum NativeFormat {
    Fp32,
    Int16,
    Uint16,
    Other,
}

/// The formats the adapter can normalize into the internal representation.
pub open spec fn format_supported(f: NativeFormat) -> bool {
    f is Fp32 || f is Int16 || f is Uint16
}

/// Why planning a session failed: one of the two devices reports a sample
/// encoding the format adapter cannot handle.
#[derive(Clone, Copy, Debug, PartialEq, Eq, Structural)]
pub enum StartError {
    UnsupportedInputFormat,
    UnsupportedOutputFormat,
}

/// The output direction after the caller's overrides: requested sample rate
/// and block size replace the device's, channels stay the device's own.
pub open spec fn resolved_output(cfg: EngineConfig, output: StreamParams) -> StreamParams {
    StreamParams {
        channels: output.channels,
        sample_rate: match cfg.sample_rate {
            Some(sr) => sr,
            None => output.sample_rate,
        },
        buffer: match cfg.block_size {
            Some(bs) => BufferSpec::Fixed(bs),
            None => output.buffer,
        },
    }
}

/// The input direction after reconciliation: the caller's block size if
/// given, and the resolved output's channel count and sample rate.
pub open spec fn resolved_input(
    cfg: EngineConfig,
    input: StreamParams,
    output: StreamParams,
) -> StreamParams {
    StreamParams {
        channels: resolved_output(cfg, output).channels,
        sample_rate: resolved_output(cfg, output).sample_rate,
        buffer: match cfg.block_size {
            Some(bs) => BufferSpec::Fixed(bs),
            None => input.buffer,
        },
    }
}

/// Eight blocks' worth of frames for a fixed block size, or a 4096-frame
/// fallback when the device chooses its own block size.
pub open spec fn frames_target(b: BufferSpec) -> int {
    match b {
        BufferSpec::Fixed(n) => 8 * n,
        BufferSpec::DeviceDefault => 4096,
    }
}

/// The transport capacity asked for: the frame target, in samples.
pub open spec fn requested_capacity(out: StreamParams) -> int {
    frames_target(out.buffer) * out.channels
}

/// Applies the caller's overrides to both directions and then forces the
/// input side to mirror the output's channel count and sample rate.
pub fn reconcile(cfg: &EngineConfig, input: StreamParams, output: StreamParams) -> (r: (
    StreamParams,
    StreamParams,
))
    ensures
        r.0 == resolved_input(*cfg, input, output),
        r.1 == resolved_output(*cfg, output),
{
    let mut inp = input;
    let mut outp = output;
    if let Some(sr) = cfg.sample_rate {
        inp.sample_rate = sr;
        outp.sample_rate = sr;
    }
    if let Some(bs) = cfg.block_size {
        inp.buffer = BufferSpec::Fixed(bs);
        outp.buffer = BufferSpec::Fixed(bs);
    }
    inp.channels = outp.channels;
    inp.sample_rate = outp.sample_rate;
    (inp, outp)
}

/// Transport capacity for a resolved output stream: the smallest power of
/// two at or above eight output blocks' worth of samples, with a floor of
/// 1024.
pub fn ring_capacity(out: StreamParams) -> (r: usize)
    requires
        frames_target(out.buffer) <= usize::MAX / 2 + 1,
        requested_capacity(out) <= usize::MAX / 2 + 1,
    ensures
        is_pow2(r as int),
        r >= 1024,
        r >= requested_capacity(out),
        forall|q: int| is_pow2(q) && q >= requested_capacity(out) && q >= 1024 ==> r <= q,
{
    let frames: usize = match out.buffer {
        BufferSpec::Fixed(n) => 8 * (n as usize),
        BufferSpec::DeviceDefault => 4096,
    };
    let samples = frames * (out.channels as usize);
    let p = next_pow2(samples);
    proof {
        lemma2_to64();
        assert(1024 as int == pow2(10));
    }
    if p < 1024 {
        1024
    } else {
        p
    }
}

/// Everything the orchestrator needs before it opens the two streams: both
/// directions' resolved parameters and the transport capacity in samples.
#[derive(Clone, Copy, Debug, PartialEq, Eq, Structural)]
pub struct SessionPlan {
    pub input: StreamParams,
    pub output: StreamParams,
    pub ring_capacity: usize,
}

/// Plans one session from the caller's configuration and the two chosen
/// devices' native parameters and sample encodings. Fails exactly when one
/// device's encoding is unsupported, the capture side reported first, and
/// leaves nothing half-started: a plan is only data.
pub fn plan_session(
    cfg: &EngineConfig,
    input: StreamParams,
    in_format: NativeFormat,
    output: StreamParams,
    out_format: NativeFormat,
) -> (r: Result<SessionPlan, StartError>)
    requires
        frames_target(resolved_output(*cfg, output).buffer) <= usize::MAX / 2 + 1,
        requested_capacity(resolved_output(*cfg, output)) <= usize::MAX / 2 + 1,
    ensures
        r is Ok <==> format_supported(in_format) && format_supported(out_format),
        r matches Err(e) ==> e == (if !format_supported(in_format) {
            StartError::UnsupportedInputFormat
        } else {
            StartError::UnsupportedOutputFormat
        }),
        r matches Ok(plan) ==> {
            &&& plan.input == resolved_input(*cfg, input, output)
            &&& plan.output == resolved_output(*cfg, output)
            &&& is_pow2(plan.ring_capacity as int)
            &&& plan.ring_capacity >= 1024
            &&& plan.ring_capacity >= requested_capacity(plan.output)
            &&& (forall|q: int|
                is_pow2(q) && q >= requested_capacity(plan.output) && q >= 1024
                    ==> plan.ring_capacity <= q)
        },
{
    let supported_in = match in_format {
        NativeFormat::Fp32 => true,
        NativeFormat::Int16 => true,
        NativeFormat::Uint16 => true,
        NativeFormat::Other => false,
    };
    if !supported_in {
        return Err(StartError::UnsupportedInputFormat);
    }
    let supported_out = match out_format {
        NativeFormat::Fp32 => true,
        NativeFormat::Int16 => true,
        NativeFormat::Uint16 => true,
        NativeFormat::Other => false,
    };
    if !supported_out {
        return Err(StartError::UnsupportedOutputFormat);
    }
    let (inp, outp) = reconcile(cfg, input, output);
    let cap = ring_capacity(outp);
    Ok(SessionPlan { input: inp, output: outp, ring_capacity: cap })
}

} // verus!
