use byteorder::ReadBytesExt;
use pinyin_lib::decoder::decode;
use pinyin_lib::decoder::pcm_bytes_to_source;
use pinyin_lib::decoder::CHANNELS;
use pinyin_lib::decoder::FULL_SCALE;
use pinyin_lib::decoder::SAMPLE_RATE;
use pinyin_lib::session::Action;
use pinyin_lib::session::Event;
use pinyin_lib::session::Reply;
use pinyin_lib::session::Session;
use pinyin_lib::stream::Frame;
use pinyin_lib::stream::FrameKind;

fn sine_wave(sample_rate: u32, seconds: u32, hertz: f32) -> Vec<f32> {
    let mut values: Vec<f32> = Vec::new();
    for i in 0..(sample_rate * seconds) {
        let t: f32 = i as f32 / sample_rate as f32;
        values.push((t * hertz * 2.0 * std::f32::consts::PI).sin());
    }
    values
}

#[test]
fn play_pcm_from_memory() {
    let sample_rate: u32 = 24000;
    let duration_sec: u32 = 2;
    let mut expected: Vec<i16> = Vec::new();
    let mut pcm_bytes: Vec<u8> = Vec::new();
    for unit in sine_wave(sample_rate, duration_sec, 440.0) {
        let value: f32 = unit * i16::MAX as f32;
        let sample: i16 = value as i16;
        expected.push(sample);
        pcm_bytes.extend_from_slice(&sample.to_le_bytes());
    }
    assert_eq!(pcm_bytes.len(), 96000);

    let source = pcm_bytes_to_source(&pcm_bytes);
    assert_eq!(source.channels(), 1);
    assert_eq!(source.sample_rate(), 24000);
    assert_eq!(source.len(), 48000);
    assert_eq!(source.samples(), expected.as_slice());

    let events = vec![
        Event::Play("ni3 hao3".to_string()),
        Event::Connected,
        Event::Frame(Frame::new(FrameKind::Binary, pcm_bytes.clone())),
        Event::OutputReady,
        Event::Drained,
    ];
    let (session, actions) = Session::new().run(events);
    assert_eq!(session, Session::Completed);
    let acquired: usize = actions
        .iter()
        .position(|action| *action == Action::AcquireOutput)
        .expect("open default audio stream");
    assert_eq!(actions[acquired + 1], Action::Enqueue(source));
    assert_eq!(actions[acquired + 2], Action::AwaitDrain);
    assert_eq!(actions[acquired + 3], Action::Release);
    assert_eq!(actions[acquired + 4], Action::Reply(Reply::Done));
    assert_eq!(actions.len(), acquired + 5);
}

#[test]
fn sine_wave_round_trip_stays_within_one_quantum() {
    let quantum: f32 = 1.0 / 32767.0;
    let wave = sine_wave(24000, 1, 440.0);
    let mut pcm_bytes: Vec<u8> = Vec::new();
    for unit in wave.iter() {
        let sample: i16 = (*unit * 32767.0) as i16;
        pcm_bytes.extend_from_slice(&sample.to_le_bytes());
    }
    let samples = decode(&pcm_bytes);
    assert_eq!(samples.len(), wave.len());
    for k in 0..wave.len() {
        let back: f32 = samples[k] as f32 / FULL_SCALE as f32;
        assert!((back - wave[k]).abs() <= quantum, "sample {} is off", k);
        assert!(back >= -1.0 && back <= 1.0);
    }
}

#[test]
fn every_sample_value_round_trips() {
    let mut pcm_bytes: Vec<u8> = Vec::new();
    let mut expected: Vec<i16> = Vec::new();
    for value in i16::MIN..=i16::MAX {
        expected.push(value);
        pcm_bytes.extend_from_slice(&value.to_le_bytes());
    }
    assert_eq!(decode(&pcm_bytes), expected);
}

#[test]
fn decode_reads_little_endian_signed_pairs() {
    assert_eq!(decode(&[0x00, 0x40]), vec![16384]);
    assert_eq!(decode(&[0x00, 0xC0]), vec![-16384]);
    assert_eq!(decode(&[0x01, 0x00]), vec![1]);
    assert_eq!(decode(&[0x00, 0x01]), vec![256]);
    assert_eq!(decode(&[0xFF, 0x7F]), vec![32767]);
    assert_eq!(decode(&[0x00, 0x80]), vec![-32768]);
    assert_eq!(decode(&[0xFF, 0xFF]), vec![-1]);
    assert_eq!(decode(&[0x34, 0x12, 0xCC, 0xED]), vec![0x1234, -0x1234]);
}

#[test]
fn decode_of_even_length_gives_half_as_many_samples() {
    for pairs in 0..64usize {
        let bytes: Vec<u8> = (0..2 * pairs).map(|k| (k * 37 % 256) as u8).collect();
        assert_eq!(decode(&bytes).len(), bytes.len() / 2);
    }
}

#[test]
fn decode_drops_a_trailing_odd_byte() {
    let even: [u8; 4] = [0x10, 0x20, 0x30, 0x40];
    let odd: [u8; 5] = [0x10, 0x20, 0x30, 0x40, 0x55];
    assert_eq!(decode(&odd), decode(&even));
    assert_eq!(decode(&odd), vec![0x2010, 0x4030]);
    assert_eq!(decode(&[0x7F]), Vec::<i16>::new());
}

#[test]
fn decode_of_nothing_is_nothing() {
    assert_eq!(decode(&[]), Vec::<i16>::new());
    let source = pcm_bytes_to_source(&[]);
    assert!(source.is_empty());
    assert_eq!(source.len(), 0);
    assert_eq!(source.channels(), CHANNELS);
    assert_eq!(source.sample_rate(), SAMPLE_RATE);
}

#[test]
fn decode_gives_the_same_samples_each_time() {
    let bytes: Vec<u8> = (0..=255u8).collect();
    let first = decode(&bytes);
    let second = decode(&bytes);
    assert_eq!(first, second);
    assert_eq!(pcm_bytes_to_source(&bytes), pcm_bytes_to_source(&bytes));
    assert_eq!(first[0], 0x0100);
    assert_eq!(first[127], i16::from_le_bytes([254, 255]));
}

#[test]
fn source_is_one_channel_at_24000_hertz() {
    let source = pcm_bytes_to_source(&[0x00, 0x40, 0x00, 0xC0]);
    assert_eq!(source.channels(), 1);
    assert_eq!(source.sample_rate(), 24000);
    assert_eq!(source.samples(), &[16384, -16384]);
    assert!(!source.is_empty());
    assert_eq!(FULL_SCALE, 32767);
    let first: f32 = source.samples()[0] as f32 / 32767.0;
    let second: f32 = source.samples()[1] as f32 / 32767.0;
    assert!((first - 0.5).abs() < 1e-3);
    assert!((second + 0.5).abs() < 1e-3);
    assert_eq!(first, 16384.0 / 32767.0);
    assert_eq!(second, -16384.0 / 32767.0);
}

fn read_until_short(bytes: &[u8]) -> Vec<i16> {
    let mut cursor = std::io::Cursor::new(bytes);
    std::iter::from_fn(move || cursor.read_i16::<byteorder::LittleEndian>().ok()).collect()
}

#[test]
fn decode_agrees_with_reading_from_a_cursor() {
    let mut bytes: Vec<u8> = Vec::new();
    for k in 0..1001u32 {
        assert_eq!(decode(&bytes), read_until_short(&bytes));
        bytes.push((k.wrapping_mul(2654435761u32) >> 24) as u8);
    }
}
