use audio_reader::container::{AudioBuffer, Frame};
use audio_reader::reader::{Action, Error, Event, Input, Phase, Reader, StreamInfo};
use audio_reader::sample_format::{
    FormatIter, SampleFormat, SamplePacking, Type, AV_SAMPLE_FMT_FLTP, AV_SAMPLE_FMT_NONE,
    AV_SAMPLE_FMT_S16, AV_SAMPLE_FMT_S16P,
};

fn stream(id: usize, is_audio: bool, channels: usize, sample_rate: i32) -> StreamInfo {
    StreamInfo { id, is_audio, channel_layout: 3, channels, sample_rate }
}

fn formats(ids: &[i32]) -> Option<FormatIter> {
    Some(FormatIter::new(ids.to_vec()))
}

/// A two-channel interleaved frame whose sample `i` of channel `c` is
/// `base + 2 * i + c`.
fn interleaved(n: usize, base: i16) -> Frame<i16> {
    let mut plane = Vec::new();
    for i in 0..n {
        for c in 0..2 {
            plane.push(base + (2 * i + c) as i16);
        }
    }
    Frame { nb_samples: n, data: vec![plane] }
}

/// A two-channel planar frame whose sample `i` of channel `c` is
/// `base + 2 * i + c`.
fn planar(n: usize, base: i16) -> Frame<i16> {
    let mut planes = vec![Vec::new(), Vec::new()];
    for c in 0..2 {
        for i in 0..n {
            planes[c].push(base + (2 * i + c) as i16);
        }
    }
    Frame { nb_samples: n, data: planes }
}

fn open_i16(packing: SamplePacking, offered: &[i32], duration: u64) -> Reader<i16> {
    let streams = vec![stream(0, false, 0, 0), stream(1, true, 2, 1000)];
    Reader::<i16>::open(&streams, duration, formats(offered), packing, None).unwrap()
}

fn decode_frames(frames: Vec<Frame<i16>>) -> Vec<Event<i16>> {
    let mut events = vec![Event::Packet(1), Event::Ready];
    for f in frames {
        events.push(Event::Frame(f));
    }
    events.push(Event::Again);
    events.push(Event::Eof);
    events
}

#[test]
fn no_audio_stream_fails() {
    let streams = vec![stream(0, false, 0, 0), stream(1, false, 0, 0)];
    let r = Reader::<i16>::open(
        &streams,
        1_000_000,
        formats(&[AV_SAMPLE_FMT_S16, AV_SAMPLE_FMT_NONE]),
        SamplePacking::Interleaved,
        None,
    );
    assert!(matches!(r, Err(Error::NoAudioStream)));
    let empty: Vec<StreamInfo> = Vec::new();
    let r = Reader::<i16>::open(&empty, 0, None, SamplePacking::Interleaved, None);
    assert!(matches!(r, Err(Error::NoAudioStream)));
}

#[test]
fn missing_format_list_is_setup_error() {
    let streams = vec![stream(0, true, 2, 44100)];
    let r = Reader::<i16>::open(&streams, 0, None, SamplePacking::Interleaved, None);
    assert!(matches!(r, Err(Error::DecodeSetup)));
}

#[test]
fn no_workable_format_is_setup_error() {
    let streams = vec![stream(0, true, 2, 44100)];
    let r = Reader::<i16>::open(
        &streams,
        0,
        formats(&[AV_SAMPLE_FMT_FLTP, AV_SAMPLE_FMT_NONE]),
        SamplePacking::Interleaved,
        None,
    );
    assert!(matches!(r, Err(Error::DecodeSetup)));
}

#[test]
fn input_open_uses_picker_and_first_audio_stream() {
    let streams = vec![stream(4, false, 0, 0), stream(7, true, 6, 48000), stream(9, true, 2, 8000)];
    let input = Input::open(&streams, 3_000_000, formats(&[AV_SAMPLE_FMT_S16]), |mut it: FormatIter| it.next())
        .unwrap();
    assert_eq!(input.stream().id, 7);
    assert_eq!(input.channels(), 6);
    assert_eq!(input.channel_layout(), 3);
    assert_eq!(input.sample_rate(), 48000);
    assert_eq!(input.sample_format(), SampleFormat::I16(Type::Packed));
    assert_eq!(input.estimated_sample_count(), 144000);
    let refused = Input::open(&streams, 0, formats(&[AV_SAMPLE_FMT_S16]), |_it: FormatIter| None);
    assert!(matches!(refused, Err(Error::DecodeSetup)));
}

#[test]
fn estimate_rounds_down() {
    let streams = vec![stream(0, true, 2, 44100)];
    let input = Input::open(&streams, 2_500_001, formats(&[AV_SAMPLE_FMT_S16]), |mut it: FormatIter| it.next())
        .unwrap();
    assert_eq!(input.estimated_sample_count(), 110250);
    let silent = vec![stream(0, true, 2, -5)];
    let input = Input::open(&silent, 2_500_000, formats(&[AV_SAMPLE_FMT_S16]), |mut it: FormatIter| it.next())
        .unwrap();
    assert_eq!(input.estimated_sample_count(), 0);
}

#[test]
fn matching_format_needs_no_converter() {
    let rd = open_i16(SamplePacking::Interleaved, &[AV_SAMPLE_FMT_S16, AV_SAMPLE_FMT_NONE], 1_000_000);
    assert_eq!(rd.converter(), None);
    assert_eq!(rd.input().sample_format(), SampleFormat::I16(Type::Packed));
    assert_eq!(rd.output().channels(), 2);
    assert_eq!(rd.output().capacity(), 1000);
    assert_eq!(rd.output().samples(), 0);
    assert_eq!(rd.output().sample_rate(), 1000);
    assert_eq!(rd.phase(), Phase::Reading);
    assert_eq!(rd.sample_count(), 0);
}

#[test]
fn differing_format_plans_converter() {
    let rd = open_i16(SamplePacking::Interleaved, &[AV_SAMPLE_FMT_S16P, AV_SAMPLE_FMT_NONE], 0);
    let conv = rd.converter().unwrap();
    assert_eq!(conv.src.sample_format, SampleFormat::I16(Type::Planar));
    assert_eq!(conv.dst.sample_format, SampleFormat::I16(Type::Packed));
    assert_eq!(conv.src.channels, 2);
    assert_eq!(conv.dst.channels, 2);
    assert_eq!(conv.dst.sample_rate, 1000);
}

#[test]
fn differing_channel_count_plans_converter() {
    let streams = vec![stream(1, true, 2, 1000)];
    let rd = Reader::<i16>::open(
        &streams,
        0,
        formats(&[AV_SAMPLE_FMT_S16, AV_SAMPLE_FMT_NONE]),
        SamplePacking::Interleaved,
        Some(1),
    )
    .unwrap();
    let conv = rd.converter().unwrap();
    assert_eq!(conv.src.channels, 2);
    assert_eq!(conv.dst.channels, 1);
    assert_eq!(rd.output().channels(), 1);
}

#[test]
fn eof_first_gives_empty_buffer() {
    let rd = open_i16(SamplePacking::Interleaved, &[AV_SAMPLE_FMT_S16], 1_000_000);
    let out = rd.read(&vec![Event::Eof]).unwrap();
    assert_eq!(out.samples(), 0);
    assert_eq!(out.channels(), 2);
}

fn check_growth(out: &AudioBuffer<i16>) {
    assert_eq!(out.samples(), 1200);
    assert_eq!(out.capacity(), 1200);
    for s in 0..1200usize {
        for c in 0..2usize {
            let (base, i) = (if s < 400 { 0 } else if s < 800 { 1000 } else { 3000 }, s % 400);
            assert_eq!(out.get(c, s), base + (2 * i + c) as i16);
        }
    }
}

#[test]
fn growth_past_estimate_keeps_all_samples_interleaved() {
    let rd = open_i16(SamplePacking::Interleaved, &[AV_SAMPLE_FMT_S16], 1_000_000);
    assert_eq!(rd.output().capacity(), 1000);
    let events = decode_frames(vec![interleaved(400, 0), interleaved(400, 1000), interleaved(400, 3000)]);
    let out = rd.read(&events).unwrap();
    check_growth(&out);
}

#[test]
fn growth_past_estimate_keeps_all_samples_planar() {
    let rd = open_i16(SamplePacking::Deinterleaved, &[AV_SAMPLE_FMT_S16P], 1_000_000);
    assert_eq!(rd.converter(), None);
    let events = decode_frames(vec![planar(400, 0), planar(400, 1000), planar(400, 3000)]);
    let out = rd.read(&events).unwrap();
    check_growth(&out);
}

#[test]
fn overestimate_is_truncated() {
    let rd = open_i16(SamplePacking::Interleaved, &[AV_SAMPLE_FMT_S16], 1_000_000);
    let out = rd.read(&decode_frames(vec![interleaved(300, 5)])).unwrap();
    assert_eq!(out.samples(), 300);
    assert_eq!(out.capacity(), 1000);
    assert_eq!(out.get(1, 299), 5 + 599);
}

#[test]
fn foreign_packets_are_discarded() {
    let rd = open_i16(SamplePacking::Interleaved, &[AV_SAMPLE_FMT_S16], 0);
    let events = vec![
        Event::Packet(0),
        Event::Again,
        Event::Packet(1),
        Event::Again,
        Event::Frame(interleaved(10, 0)),
        Event::Again,
        Event::Packet(0),
        Event::Packet(1),
        Event::Ready,
        Event::Frame(interleaved(5, 100)),
        Event::Frame(interleaved(7, 200)),
        Event::Again,
        Event::Eof,
        Event::Frame(interleaved(50, 0)),
    ];
    let out = rd.read(&events).unwrap();
    assert_eq!(out.samples(), 22);
    assert_eq!(out.get(0, 10), 100);
    assert_eq!(out.get(1, 21), 200 + 13);
}

#[test]
fn running_out_of_events_ends_the_stream() {
    let rd = open_i16(SamplePacking::Interleaved, &[AV_SAMPLE_FMT_S16], 0);
    let events = vec![Event::Packet(1), Event::Ready, Event::Frame(interleaved(3, 0))];
    assert_eq!(rd.read(&events).unwrap().samples(), 3);
}

#[test]
fn fatal_error_aborts() {
    let rd = open_i16(SamplePacking::Interleaved, &[AV_SAMPLE_FMT_S16], 0);
    let events = vec![Event::Packet(1), Event::Ready, Event::Frame(interleaved(3, 0)), Event::Fault];
    assert!(matches!(rd.read(&events), Err(Error::DecodeFault)));
}

#[test]
fn short_frame_is_a_fault() {
    let rd = open_i16(SamplePacking::Deinterleaved, &[AV_SAMPLE_FMT_S16P], 0);
    let bad = Frame { nb_samples: 4, data: vec![vec![1i16, 2, 3, 4]] };
    let events = vec![Event::Packet(1), Event::Ready, Event::Frame(bad)];
    assert!(matches!(rd.read(&events), Err(Error::DecodeFault)));
}

#[test]
fn frame_out_of_turn_is_a_fault() {
    let rd = open_i16(SamplePacking::Interleaved, &[AV_SAMPLE_FMT_S16], 0);
    let events = vec![Event::Frame(interleaved(3, 0))];
    assert!(matches!(rd.read(&events), Err(Error::DecodeFault)));
}

#[test]
fn step_walks_the_protocol() {
    let mut rd = open_i16(SamplePacking::Interleaved, &[AV_SAMPLE_FMT_S16], 0);
    assert_eq!(rd.step(&Event::Again).unwrap(), Action::ReadPacket);
    assert_eq!(rd.step(&Event::Packet(0)).unwrap(), Action::ReadPacket);
    assert_eq!(rd.phase(), Phase::Reading);
    assert_eq!(rd.step(&Event::Packet(1)).unwrap(), Action::SendPacket);
    assert_eq!(rd.step(&Event::Again).unwrap(), Action::ReceiveFrame);
    assert_eq!(rd.step(&Event::Frame(interleaved(2, 0))).unwrap(), Action::ReceiveFrame);
    assert_eq!(rd.sample_count(), 2);
    assert_eq!(rd.output().capacity(), 2);
    assert_eq!(rd.step(&Event::Again).unwrap(), Action::ReadPacket);
    assert_eq!(rd.step(&Event::Eof).unwrap(), Action::Finish);
    assert_eq!(rd.phase(), Phase::Done);
    let out = rd.finish();
    assert_eq!(out.samples(), 2);
    assert_eq!(out.get(1, 1), 3);
}

#[test]
fn copy_stays_inside_the_cursor() {
    let mut rd = open_i16(SamplePacking::Deinterleaved, &[AV_SAMPLE_FMT_S16P], 1_000_000);
    for e in [Event::Packet(1), Event::Ready] {
        rd.step(&e).unwrap();
    }
    rd.step(&Event::Frame(planar(3, 10))).unwrap();
    rd.step(&Event::Frame(planar(2, 50))).unwrap();
    let out = rd.output();
    assert_eq!(out.get(0, 2), 14);
    assert_eq!(out.get(0, 3), 50);
    assert_eq!(out.get(1, 4), 53);
    assert_eq!(out.get(0, 5), 0);
    assert_eq!(out.get(1, 999), 0);
}

#[test]
fn finishing_twice_changes_nothing() {
    let rd = open_i16(SamplePacking::Interleaved, &[AV_SAMPLE_FMT_S16], 1_000_000);
    let mut out = rd.read(&decode_frames(vec![interleaved(4, 1)])).unwrap();
    let before: Vec<i16> = (0..4).map(|s| out.get(1, s)).collect();
    out.set_samples(4);
    assert_eq!(out.samples(), 4);
    let after: Vec<i16> = (0..4).map(|s| out.get(1, s)).collect();
    assert_eq!(before, after);
}

#[test]
fn format_of_a_buffer() {
    let rd = open_i16(SamplePacking::Deinterleaved, &[AV_SAMPLE_FMT_S16P], 0);
    assert_eq!(SampleFormat::from_storage(rd.output()), SampleFormat::I16(Type::Planar));
    let out: AudioBuffer<i32> = AudioBuffer::zeros(1, 4, SamplePacking::Interleaved);
    assert_eq!(SampleFormat::from_storage(&out), SampleFormat::I32(Type::Packed));
    assert_eq!(out.get(0, 3), 0);
}
