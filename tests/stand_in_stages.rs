use dist_plugin::backend::{BackendKind, DistBackend};
use dist_plugin::oversample::BUFFER_SIZE;
use dist_plugin::pipeline::Step;

// Small sample-synchronous stages with per-channel memory, standing in for the
// DSP primitives: linear-interpolating upsampler, soft clipper with a one-pole
// tone filter, and a half-band-like averaging downsampler.
#[derive(Clone, Debug, PartialEq)]
struct Stages {
    backend: DistBackend,
    up: Vec<f32>,
    tone: Vec<f32>,
    down: Vec<f32>,
    scratch: [f32; BUFFER_SIZE],
    drive: f32,
}

impl Stages {
    fn new(n_channels: usize, drive: f32) -> Stages {
        Stages {
            backend: DistBackend::make(BackendKind::Rust, n_channels).unwrap(),
            up: vec![0.0; n_channels],
            tone: vec![0.0; n_channels],
            down: vec![0.0; n_channels],
            scratch: [0.0; BUFFER_SIZE],
            drive,
        }
    }

    fn reset(&mut self) {
        self.up.iter_mut().for_each(|s| *s = 0.0);
        self.tone.iter_mut().for_each(|s| *s = 0.0);
        self.down.iter_mut().for_each(|s| *s = 0.0);
    }

    fn process(&mut self, x: &[f32], y: &mut [f32], n_samples: usize, channel: usize) {
        let mut run = self.backend.begin(channel, n_samples);
        while let Some(step) = run.next() {
            match step {
                Step::Upsample { channel, start, len } => {
                    for i in 0..len {
                        let v = x[start + i];
                        self.scratch[2 * i] = 0.5 * (self.up[channel] + v);
                        self.scratch[2 * i + 1] = v;
                        self.up[channel] = v;
                    }
                }
                Step::Distort { channel, len } => {
                    for i in 0..len {
                        let v = self.drive * self.scratch[i];
                        let clipped = v / (1.0 + v.abs());
                        self.tone[channel] += 0.3 * (clipped - self.tone[channel]);
                        self.scratch[i] = self.tone[channel];
                    }
                }
                Step::Downsample { channel, start, len } => {
                    for i in 0..len / 2 {
                        let (a, b) = (self.scratch[2 * i], self.scratch[2 * i + 1]);
                        y[start + i] = 0.25 * self.down[channel] + 0.5 * a + 0.25 * b;
                        self.down[channel] = b;
                    }
                }
            }
        }
    }
}

fn signal(n: usize, seed: u32) -> Vec<f32> {
    let mut state = seed;
    (0..n)
        .map(|_| {
            state = state.wrapping_mul(1_664_525).wrapping_add(1_013_904_223);
            (state >> 8) as f32 / (1u32 << 24) as f32 * 2.0 - 1.0
        })
        .collect()
}

#[test]
fn empty_call_leaves_everything_unchanged() {
    let mut stages = Stages::new(2, 3.0);
    let x = signal(20, 1);
    let mut y = vec![0.0; 20];
    stages.process(&x, &mut y, 20, 0);
    let before = stages.clone();
    let mut out = vec![7.0f32; 5];
    stages.process(&x, &mut out, 0, 0);
    stages.process(&[], &mut [], 0, 1);
    assert_eq!(out, vec![7.0f32; 5]);
    assert_eq!(stages, before);
}

#[test]
fn silence_in_gives_silence_out() {
    for drive in [0.0f32, 0.5, 4.0, 40.0] {
        let mut stages = Stages::new(1, drive);
        let x = vec![0.0f32; 100];
        let mut y = vec![1.0f32; 100];
        stages.process(&x, &mut y, 100, 0);
        assert!(y.iter().all(|v| *v == 0.0));
    }
}

#[test]
fn split_calls_give_the_same_output() {
    let x = signal(97, 5);
    let mut whole = Stages::new(1, 2.5);
    let mut expected = vec![0.0f32; 97];
    whole.process(&x, &mut expected, 97, 0);
    for parts in [vec![97usize], vec![1, 96], vec![16, 16, 65], vec![3, 30, 15, 17, 32]] {
        let mut split = Stages::new(1, 2.5);
        let mut got = vec![0.0f32; 97];
        let mut offset = 0;
        for part in parts {
            split.process(&x[offset..], &mut got[offset..], part, 0);
            offset += part;
        }
        assert_eq!(got, expected);
        assert_eq!((&split.up, &split.tone, &split.down), (&whole.up, &whole.tone, &whole.down));
    }
}

#[test]
fn reset_makes_instances_agree() {
    let mut a = Stages::new(2, 1.5);
    let mut b = Stages::new(2, 1.5);
    let mut junk = vec![0.0f32; 50];
    a.process(&signal(50, 9), &mut junk, 50, 0);
    b.process(&signal(31, 4), &mut junk, 31, 1);
    b.process(&signal(12, 2), &mut junk, 12, 0);
    a.reset();
    b.reset();
    let x = signal(40, 77);
    let (mut ya, mut yb) = (vec![0.0f32; 40], vec![0.0f32; 40]);
    a.process(&x, &mut ya, 40, 1);
    b.process(&x, &mut yb, 40, 1);
    assert_eq!(ya, yb);
}

#[test]
fn channels_do_not_disturb_each_other() {
    let x1 = signal(48, 3);
    let mut quiet = Stages::new(2, 2.0);
    let mut expected = vec![0.0f32; 48];
    quiet.process(&x1, &mut expected, 48, 1);

    let mut busy = Stages::new(2, 2.0);
    let mut junk = vec![0.0f32; 64];
    for seed in 0..4 {
        busy.process(&signal(64, seed), &mut junk, 64, 0);
    }
    assert_eq!(busy.up[1], 0.0);
    assert_eq!(busy.tone[1], 0.0);
    assert_eq!(busy.down[1], 0.0);
    let mut got = vec![0.0f32; 48];
    busy.process(&x1, &mut got, 48, 1);
    assert_eq!(got, expected);
}

#[test]
fn impulse_response_is_reproducible() {
    let mut x = vec![0.0f32; 64];
    x[0] = 1.0;
    let mut stages = Stages::new(1, 0.4 * 10.0);
    let mut first = vec![0.0f32; 64];
    stages.reset();
    stages.process(&x, &mut first, 64, 0);
    let mut second = vec![0.0f32; 64];
    stages.reset();
    stages.process(&x, &mut second, 64, 0);
    assert_eq!(first, second);
    assert!(first.iter().all(|v| v.is_finite()));
    assert!(first.iter().any(|v| *v != 0.0));
}
