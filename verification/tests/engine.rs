use bord_engine::config::{
    plan_session, reconcile, ring_capacity, BufferSpec, EngineConfig, NativeFormat, SessionPlan,
    StartError, StreamParams,
};
use bord_engine::devices::{mark_defaults, DeviceInfo};
use bord_engine::graph::{Chain, Effect};
use bord_engine::pick::{pick_device_index, DeviceCandidate};
use bord_engine::ring::{next_pow2, RingTransport, SILENCE};

fn bits(v: &[f32]) -> Vec<u32> {
    v.iter().map(|x| x.to_bits()).collect()
}

fn floats(v: &Vec<u32>) -> Vec<f32> {
    v.iter().map(|x| f32::from_bits(*x)).collect()
}

#[test]
fn next_pow2_values() {
    assert_eq!(next_pow2(0), 1);
    assert_eq!(next_pow2(1), 1);
    assert_eq!(next_pow2(2), 2);
    assert_eq!(next_pow2(3), 4);
    assert_eq!(next_pow2(100), 128);
    assert_eq!(next_pow2(1024), 1024);
    assert_eq!(next_pow2(1025), 2048);
}

#[test]
fn capacity_scenario_one_hundred() {
    // capacity request 100 resolves to size 128, usable 127
    let ring = RingTransport::with_capacity(100);
    assert_eq!(ring.len(), 0);
    assert_eq!(ring.free_space(), 127);
}

#[test]
fn push_pop_scenario() {
    let mut ring = RingTransport::with_capacity(100);
    let fifty: Vec<f32> = (0..50).map(|i| i as f32 / 64.0).collect();
    assert!(ring.push_slice(&bits(&fifty)));
    assert_eq!(ring.len(), 50);

    // 50 + 80 = 130 > 127: refused, nothing changes
    let eighty: Vec<f32> = (0..80).map(|i| -(i as f32) / 128.0).collect();
    assert!(!ring.push_slice(&bits(&eighty)));
    assert_eq!(ring.len(), 50);

    // the original 50 come back, in order
    let mut out: Vec<u32> = vec![0; 50];
    assert!(ring.pop_into(&mut out));
    assert_eq!(floats(&out), fifty);

    // the buffer is empty again: one more sample is not there
    let mut one: Vec<u32> = vec![0; 1];
    assert!(!ring.pop_into(&mut one));
    assert_eq!(ring.len(), 0);
}

#[test]
fn tiny_capacities_hold_nothing() {
    // sizes 0 and 1 both resolve to a single slot, which stays reserved
    for req in [0usize, 1usize] {
        let mut ring = RingTransport::with_capacity(req);
        assert_eq!(ring.free_space(), 0);
        assert!(!ring.push_slice(&vec![42]));
        // an empty block always fits, and an empty pop always succeeds
        assert!(ring.push_slice(&Vec::new()));
        let mut none: Vec<u32> = Vec::new();
        assert!(ring.pop_into(&mut none));
        assert_eq!(ring.len(), 0);
    }
}

#[test]
fn all_or_nothing_push_keeps_content() {
    let mut ring = RingTransport::with_capacity(4);
    // size 4, usable 3
    assert_eq!(ring.free_space(), 3);
    assert!(ring.push_slice(&vec![10, 20]));
    // two free slots are left; a block of three must be refused whole
    assert!(!ring.push_slice(&vec![30, 40, 50]));
    let mut out: Vec<u32> = vec![0, 0];
    assert!(ring.pop_into(&mut out));
    assert_eq!(out, vec![10, 20]);
}

#[test]
fn fifo_across_interleavings() {
    let mut ring = RingTransport::with_capacity(8);
    assert!(ring.push_slice(&vec![1, 2, 3]));
    let mut out2: Vec<u32> = vec![0; 2];
    assert!(ring.pop_into(&mut out2));
    assert_eq!(out2, vec![1, 2]);
    assert!(ring.push_slice(&vec![4, 5]));
    let mut out3: Vec<u32> = vec![0; 3];
    assert!(ring.pop_into(&mut out3));
    assert_eq!(out3, vec![3, 4, 5]);
    assert_eq!(ring.len(), 0);
}

#[test]
fn wraparound_keeps_order() {
    let mut ring = RingTransport::with_capacity(4);
    // drive the cursors around the end of the 4-slot storage several times
    let mut expected: Vec<u32> = Vec::new();
    let mut produced: u32 = 0;
    for _ in 0..10 {
        assert!(ring.push_slice(&vec![produced, produced + 1]));
        expected.push(produced);
        expected.push(produced + 1);
        produced += 2;
        let mut out: Vec<u32> = vec![0; 2];
        assert!(ring.pop_into(&mut out));
        assert_eq!(out[0], expected[0]);
        assert_eq!(out[1], expected[1]);
        expected.drain(0..2);
    }
}

#[test]
fn underrun_silences_output() {
    let mut ring = RingTransport::with_capacity(16);
    assert!(ring.push_slice(&vec![7, 8, 9]));
    // stale nonzero content in the output block
    let mut out: Vec<u32> = vec![0.25f32.to_bits(); 5];
    // only 3 samples are buffered: the pop fails and the block is silence
    assert!(!ring.pop_or_silence(&mut out));
    assert_eq!(out, vec![SILENCE; 5]);
    // the buffered samples were not consumed by the failed pop
    let mut out3: Vec<u32> = vec![1; 3];
    assert!(ring.pop_or_silence(&mut out3));
    assert_eq!(out3, vec![7, 8, 9]);
}

#[test]
fn ring_capacity_resolution() {
    // fixed 128-frame blocks, stereo: 8 * 128 * 2 = 2048, already a power of two
    let out = StreamParams { channels: 2, sample_rate: 48000, buffer: BufferSpec::Fixed(128) };
    assert_eq!(ring_capacity(out), 2048);
    // small blocks fall back to the 1024-sample floor
    let tiny = StreamParams { channels: 1, sample_rate: 48000, buffer: BufferSpec::Fixed(16) };
    assert_eq!(ring_capacity(tiny), 1024);
    // an unspecified block size budgets 4096 frames
    let open = StreamParams { channels: 2, sample_rate: 44100, buffer: BufferSpec::DeviceDefault };
    assert_eq!(ring_capacity(open), 8192);
}

#[test]
fn reconcile_output_is_authoritative() {
    let mut cfg = EngineConfig::default();
    cfg.sample_rate = Some(48000);
    cfg.block_size = Some(128);
    let input = StreamParams { channels: 1, sample_rate: 44100, buffer: BufferSpec::DeviceDefault };
    let output = StreamParams { channels: 2, sample_rate: 96000, buffer: BufferSpec::DeviceDefault };
    let (inp, outp) = reconcile(&cfg, input, output);
    assert_eq!(outp.sample_rate, 48000);
    assert_eq!(outp.channels, 2);
    assert_eq!(outp.buffer, BufferSpec::Fixed(128));
    // the input mirrors the resolved output
    assert_eq!(inp.channels, 2);
    assert_eq!(inp.sample_rate, 48000);
    assert_eq!(inp.buffer, BufferSpec::Fixed(128));
}

#[test]
fn reconcile_without_overrides_keeps_device_values() {
    let cfg = EngineConfig::default();
    let input = StreamParams { channels: 1, sample_rate: 44100, buffer: BufferSpec::Fixed(64) };
    let output = StreamParams { channels: 2, sample_rate: 96000, buffer: BufferSpec::DeviceDefault };
    let (inp, outp) = reconcile(&cfg, input, output);
    assert_eq!(outp, output);
    assert_eq!(inp.channels, 2);
    assert_eq!(inp.sample_rate, 96000);
    assert_eq!(inp.buffer, BufferSpec::Fixed(64));
}

#[test]
fn plan_session_happy_path() {
    let mut cfg = EngineConfig::default();
    cfg.block_size = Some(128);
    let input = StreamParams { channels: 1, sample_rate: 44100, buffer: BufferSpec::DeviceDefault };
    let output = StreamParams { channels: 2, sample_rate: 48000, buffer: BufferSpec::DeviceDefault };
    let plan: SessionPlan =
        plan_session(&cfg, input, NativeFormat::Int16, output, NativeFormat::Fp32).unwrap();
    assert_eq!(plan.output.sample_rate, 48000);
    assert_eq!(plan.input.sample_rate, 48000);
    assert_eq!(plan.input.channels, 2);
    assert_eq!(plan.ring_capacity, 2048);
}

#[test]
fn plan_session_rejects_unsupported_formats() {
    let cfg = EngineConfig::default();
    let input = StreamParams { channels: 2, sample_rate: 48000, buffer: BufferSpec::DeviceDefault };
    let output = input;
    // the capture side is checked first
    assert_eq!(
        plan_session(&cfg, input, NativeFormat::Other, output, NativeFormat::Other),
        Err(StartError::UnsupportedInputFormat)
    );
    assert_eq!(
        plan_session(&cfg, input, NativeFormat::Uint16, output, NativeFormat::Other),
        Err(StartError::UnsupportedOutputFormat)
    );
}

#[test]
fn default_config_is_empty() {
    let cfg = EngineConfig::default();
    assert!(cfg.input_name.is_none());
    assert!(cfg.output_name.is_none());
    assert!(cfg.input_index.is_none());
    assert!(cfg.output_index.is_none());
    assert!(cfg.sample_rate.is_none());
    assert!(cfg.block_size.is_none());
    assert_eq!(cfg.gain_db_bits, 0.0f32.to_bits());
}

fn candidates() -> Vec<DeviceCandidate> {
    vec![
        DeviceCandidate { name: String::from("HDMI Monitor"), usable: false },
        DeviceCandidate { name: String::from("USB Microphone"), usable: true },
        DeviceCandidate { name: String::from("Built-in Speakers"), usable: true },
    ]
}

#[test]
fn pick_by_index_counts_usable_only() {
    let devs = candidates();
    // ordinal 0 among the usable devices skips the unusable first entry
    assert_eq!(pick_device_index(&devs, &None, Some(0)), Some(1));
    assert_eq!(pick_device_index(&devs, &None, Some(1)), Some(2));
    assert_eq!(pick_device_index(&devs, &None, Some(2)), None);
}

#[test]
fn pick_by_name_is_case_insensitive() {
    let devs = candidates();
    assert_eq!(pick_device_index(&devs, &Some(String::from("MICRO")), None), Some(1));
    assert_eq!(pick_device_index(&devs, &Some(String::from("speakers")), None), Some(2));
    // a name on an unusable device does not match
    assert_eq!(pick_device_index(&devs, &Some(String::from("hdmi")), None), None);
    assert_eq!(pick_device_index(&devs, &Some(String::from("missing")), None), None);
}

#[test]
fn pick_name_wins_over_index() {
    let devs = candidates();
    // with both selectors given, the name query decides
    assert_eq!(pick_device_index(&devs, &Some(String::from("usb")), Some(1)), Some(1));
    // the ordinal is the fallback when the name matches nothing
    assert_eq!(pick_device_index(&devs, &Some(String::from("missing")), Some(0)), Some(1));
}

#[test]
fn listing_marks_defaults_by_name() {
    let names = vec![
        String::from("USB Microphone"),
        String::from("Built-in Speakers"),
        String::from("HDMI Monitor"),
    ];
    let list: Vec<DeviceInfo> = mark_defaults(
        &names,
        &Some(String::from("USB Microphone")),
        &Some(String::from("Built-in Speakers")),
    );
    assert_eq!(list.len(), 3);
    assert_eq!(list[0].name, "USB Microphone");
    assert!(list[0].is_default_input);
    assert!(!list[0].is_default_output);
    assert!(!list[1].is_default_input);
    assert!(list[1].is_default_output);
    assert!(!list[2].is_default_input);
    assert!(!list[2].is_default_output);
}

#[test]
fn listing_marks_render_tags() {
    let both = DeviceInfo {
        name: String::from("duplex"),
        is_default_input: true,
        is_default_output: true,
    };
    assert_eq!(both.marks(), "*I *O");
    let input_only = DeviceInfo { is_default_output: false, ..both.clone() };
    assert_eq!(input_only.marks(), "*I");
    let output_only =
        DeviceInfo { is_default_input: false, is_default_output: true, ..both.clone() };
    assert_eq!(output_only.marks(), "*O");
    let neither = DeviceInfo { is_default_input: false, is_default_output: false, ..both };
    assert_eq!(neither.marks(), "");
}

/// A test effect applying an affine map to every sample word; composition
/// does not commute, so processing order, parameter updates and preparation
/// are all observable.
struct Affine {
    mul: u32,
    add: u32,
    prepared: bool,
}

impl Effect for Affine {
    fn prepare(&mut self, _sample_rate: u32, _channels: u16) {
        self.prepared = true;
    }

    fn set_param_db(&mut self, key: &str, db_bits: u32) {
        if key == "add" {
            self.add = db_bits;
        }
    }

    fn process(&mut self, block: &mut Vec<u32>) {
        // the chain promises to prepare every effect before its first block
        assert!(self.prepared);
        for s in block.iter_mut() {
            *s = s.wrapping_mul(self.mul).wrapping_add(self.add);
        }
    }
}

#[test]
fn chain_processes_in_order_and_prepares() {
    let mut chain: Chain<Affine> = Chain::new(48000, 2);
    let mut double = Affine { mul: 2, add: 0, prepared: false };
    // only the matching key lands
    double.set_param_db("gain", 5);
    chain.push(double);
    let mut offset = Affine { mul: 1, add: 0, prepared: false };
    offset.set_param_db("add", 10);
    chain.push(offset);
    let mut block: Vec<u32> = vec![100, 200];
    chain.process(&mut block);
    // doubling before offsetting distinguishes the order: 2x + 10, not 2(x + 10)
    assert_eq!(block, vec![210, 410]);
    chain.process(&mut block);
    assert_eq!(block, vec![430, 830]);
}

#[test]
fn empty_chain_is_identity() {
    let mut chain: Chain<Affine> = Chain::new(44100, 1);
    let mut block: Vec<u32> = vec![5, 6, 7];
    chain.process(&mut block);
    assert_eq!(block, vec![5, 6, 7]);
}
