use vstd::prelude::*;
use crate::container::{AudioBuffer, BufferView, Cursor, Frame, Sample, frame_fits, frame_at};
use crate::sample_format::{
    FormatIter,
    SampleFormat,
    SamplePacking,
    best_format,
    format_of,
    pick_best_format,
};

verus! {

/// Time base of container durations: units per second.
pub const AV_TIME_BASE: u64 = 1_000_000;

/// Why decoding failed, and the two signals that the decode loop absorbs.
#[derive(PartialEq, Eq, Structural, Copy, Clone, Debug)]
pub enum Error {
    /// The container could not be opened.
    OpenFailed,
    /// The container holds no audio stream.
    NoAudioStream,
    /// No workable decoder, sample format or channel set-up.
    DecodeSetup,
    /// Not ready yet; call again.
    Again,
    /// End of stream.
    Eof,
    /// Any other failure while reading, decoding or converting.
    DecodeFault,
}

/// What the container says of one of its streams.
#[derive(PartialEq, Eq, Structural, Copy, Clone, Debug)]
pub struct StreamInfo {
    pub id: usize,
    pub is_audio: bool,
    pub channel_layout: u64,
    pub channels: usize,
    pub sample_rate: i32,
}

/// The complete shape of a PCM stream.
#[derive(PartialEq, Eq, Structural, Copy, Clone, Debug)]
pub struct AudioFormat {
    pub channels: usize,
    pub sample_format: SampleFormat,
    pub sample_rate: i32,
}

/// A conversion from one PCM shape to another, carried out by the decoding
/// library on each frame before it is copied.
#[derive(PartialEq, Eq, Structural, Copy, Clone, Debug)]
pub struct Converter {
    pub src: AudioFormat,
    pub dst: AudioFormat,
}

/// Index of the first audio stream.
pub open spec fn first_audio(streams: Seq<StreamInfo>) -> Option<int> {
    if exists|i: int| 0 <= i < streams.len() && streams[i].is_audio {
        let i = choose|i: int|
            0 <= i < streams.len() && streams[i].is_audio && forall|j: int|
                0 <= j < i ==> !(#[trigger] streams[j]).is_audio;
        Some(i)
    } else {
        None
    }
}

/// The number of samples a stream of `duration` time-base units holds at
/// `sample_rate`, capped at the largest `usize`; 0 for a rate below zero.
pub open spec fn estimate(duration: u64, sample_rate: i32) -> nat {
    if sample_rate <= 0 {
        0
    } else {
        let e = duration as nat * sample_rate as nat / AV_TIME_BASE as nat;
        if e > usize::MAX {
            usize::MAX as nat
        } else {
            e
        }
    }
}

/// An opened audio stream: the stream chosen in the container and the
/// sample format chosen for its decoder.
pub struct Input {
    stream: StreamInfo,
    sample_format: SampleFormat,
    duration: u64,
}

impl Input {
    /// Picks the first audio stream of `streams` and lets `format_picker`
    /// choose among the sample formats the decoder offers.
    pub fn open<F>(
        streams: &Vec<StreamInfo>,
        duration: u64,
        formats: Option<FormatIter>,
        format_picker: F,
    ) -> (r: Result<Input, Error>) where F: Fn(FormatIter) -> Option<SampleFormat>
        requires
            forall|i: FormatIter| format_picker.requires((i,)),
        ensures
            first_audio(streams@) is None ==> r == Err::<Input, Error>(Error::NoAudioStream),
            first_audio(streams@) is Some && formats is None ==> r == Err::<Input, Error>(
                Error::DecodeSetup,
            ),
            first_audio(streams@) is Some && formats is Some ==> match r {
                Ok(input) => input.spec_stream() == streams@[first_audio(streams@)->0]
                    && input.spec_duration() == duration && format_picker.ensures(
                    (formats->0,),
                    Some(input.spec_sample_format()),
                ),
                Err(e) => e == Error::DecodeSetup && format_picker.ensures(
                    (formats->0,),
                    None,
                ),
            },
    {
        let mut i: usize = 0;
        while i < streams.len()
            invariant_except_break
                i <= streams@.len(),
                forall|j: int| 0 <= j < i ==> !(#[trigger] streams@[j]).is_audio,
            ensures
                i <= streams@.len(),
                forall|j: int| 0 <= j < i ==> !(#[trigger] streams@[j]).is_audio,
                i < streams@.len() ==> streams@[i as int].is_audio,
            decreases streams@.len() - i,
        {
            if streams[i].is_audio {
                break ;
            }
            i = i + 1;
        }
        if i == streams.len() {
            return Err(Error::NoAudioStream);
        }
        proof {
            let k = first_audio(streams@)->0;
            assert(0 <= k < streams@.len() && streams@[k].is_audio);
            assert(k == i as int) by {
                if k < i {
                    assert(!streams@[k].is_audio);
                }
                if k > i {
                    assert(!streams@[i as int].is_audio);
                }
            }
        }
        let stream = streams[i];
        let format_iter = match formats {
            None => {
                return Err(Error::DecodeSetup);
            },
            Some(f) => f,
        };
        match format_picker(format_iter) {
            None => Err(Error::DecodeSetup),
            Some(sample_format) => Ok(Input { stream, sample_format, duration }),
        }
    }

    pub closed spec fn spec_stream(&self) -> StreamInfo {
        self.stream
    }

    pub closed spec fn spec_duration(&self) -> u64 {
        self.duration
    }

    pub closed spec fn spec_sample_format(&self) -> SampleFormat {
        self.sample_format
    }

    /// What the container says of the chosen stream.
    pub fn stream(&self) -> (r: StreamInfo)
        ensures
            r == self.spec_stream(),
    {
        self.stream
    }

    /// Total number of samples per channel that the container's duration
    /// suggests. It only pre-sizes the output: the true count may differ.
    pub fn estimated_sample_count(&self) -> (r: usize)
        ensures
            r == estimate(self.spec_duration(), self.spec_stream().sample_rate),
    {
        let rate = self.stream.sample_rate;
        if rate <= 0 {
            return 0;
        }
        let d = self.duration as u128;
        let q = rate as u128;
        assert(d * q <= u64::MAX as u128 * u64::MAX as u128) by (nonlinear_arith)
            requires
                d <= u64::MAX,
                q <= u64::MAX,
        ;
        let product: u128 = d * q;
        let e: u128 = product / (AV_TIME_BASE as u128);
        if e > usize::MAX as u128 {
            usize::MAX
        } else {
            e as usize
        }
    }

    pub fn channel_layout(&self) -> (r: u64)
        ensures
            r == self.spec_stream().channel_layout,
    {
        self.stream.channel_layout
    }

    /// Number of channels of the source.
    pub fn channels(&self) -> (r: usize)
        ensures
            r == self.spec_stream().channels,
    {
        self.stream.channels
    }

    /// The sample format chosen for the decoder.
    pub fn sample_format(&self) -> (r: SampleFormat)
        ensures
            r == self.spec_sample_format(),
    {
        self.sample_format
    }

    pub fn sample_rate(&self) -> (r: i32)
        ensures
            r == self.spec_stream().sample_rate,
    {
        self.stream.sample_rate
    }

    /// The shape of the decoded source.
    pub fn audio_format(&self) -> (r: AudioFormat)
        ensures
            r == (AudioFormat {
                channels: self.spec_stream().channels,
                sample_format: self.spec_sample_format(),
                sample_rate: self.spec_stream().sample_rate,
            }),
    {
        AudioFormat {
            channels: self.stream.channels,
            sample_format: self.sample_format,
            sample_rate: self.stream.sample_rate,
        }
    }

    /// A conversion from the source's shape to `dst_fmt`.
    pub fn converter(&self, dst_fmt: AudioFormat) -> (r: Converter)
        ensures
            r.src == (AudioFormat {
                channels: self.spec_stream().channels,
                sample_format: self.spec_sample_format(),
                sample_rate: self.spec_stream().sample_rate,
            }),
            r.dst == dst_fmt,
    {
        Converter { src: self.audio_format(), dst: dst_fmt }
    }
}

/// Where the decode loop stands: which external call it waits on.
#[derive(PartialEq, Eq, Structural, Copy, Clone, Debug)]
pub enum Phase {
    /// A packet is being read from the container.
    Reading,
    /// The packet of the chosen stream is being submitted to the decoder.
    Sending,
    /// Frames are being drained from the decoder.
    Receiving,
    /// End of stream was seen.
    Done,
}

/// What the last external call gave back.
pub enum Event<T> {
    /// A packet of the stream with this id was read.
    Packet(usize),
    /// The packet was accepted by the decoder.
    Ready,
    /// The decoder handed out a frame, already in the destination shape.
    Frame(Frame<T>),
    /// Not ready yet.
    Again,
    /// End of stream.
    Eof,
    /// A fatal error.
    Fault,
}

/// The external call to make next.
#[derive(PartialEq, Eq, Structural, Copy, Clone, Debug)]
pub enum Action {
    ReadPacket,
    SendPacket,
    ReceiveFrame,
    Finish,
}

/// The next phase and action for every event but a frame being drained.
pub open spec fn transition<T>(phase: Phase, stream_id: usize, event: Event<T>) -> Result<
    (Phase, Action),
    Error,
> {
    match phase {
        Phase::Reading => match event {
            Event::Packet(id) => if id == stream_id {
                Ok((Phase::Sending, Action::SendPacket))
            } else {
                Ok((Phase::Reading, Action::ReadPacket))
            },
            Event::Again => Ok((Phase::Reading, Action::ReadPacket)),
            Event::Eof => Ok((Phase::Done, Action::Finish)),
            _ => Err(Error::DecodeFault),
        },
        Phase::Sending => match event {
            Event::Ready => Ok((Phase::Receiving, Action::ReceiveFrame)),
            Event::Again => Ok((Phase::Receiving, Action::ReceiveFrame)),
            Event::Eof => Ok((Phase::Done, Action::Finish)),
            _ => Err(Error::DecodeFault),
        },
        Phase::Receiving => match event {
            Event::Frame(_) => Ok((Phase::Receiving, Action::ReceiveFrame)),
            Event::Again => Ok((Phase::Reading, Action::ReadPacket)),
            Event::Eof => Ok((Phase::Done, Action::Finish)),
            _ => Err(Error::DecodeFault),
        },
        Phase::Done => Ok((Phase::Done, Action::Finish)),
    }
}

/// Whether a frame can be taken after `count` samples: it holds data for
/// every channel, and the grown buffer stays addressable.
pub open spec fn frame_ok<T>(count: nat, channels: nat, packing: SamplePacking, f: Frame<T>) -> bool {
    &&& frame_fits(&f, channels, packing)
    &&& count + f.nb_samples <= usize::MAX
    &&& channels * (count + f.nb_samples) <= usize::MAX
}

/// The number of valid samples per channel after the decode loop has run
/// from `phase` with `count` samples over `events`, or the error it stops
/// with. Running out of events counts as end of stream.
pub open spec fn run<T>(
    phase: Phase,
    count: nat,
    stream_id: usize,
    channels: nat,
    packing: SamplePacking,
    events: Seq<Event<T>>,
) -> Result<nat, Error>
    decreases events.len(),
{
    if events.len() == 0 {
        Ok(count)
    } else {
        let rest = events.drop_first();
        match events[0] {
            Event::Frame(f) if phase == Phase::Receiving => if frame_ok(
                count,
                channels,
                packing,
                f,
            ) {
                run(Phase::Receiving, (count + f.nb_samples) as nat, stream_id, channels, packing, rest)
            } else {
                Err(Error::DecodeFault)
            },
            e => match transition(phase, stream_id, e) {
                Ok((p, _)) => if p == Phase::Done {
                    Ok(count)
                } else {
                    run(p, count, stream_id, channels, packing, rest)
                },
                Err(err) => Err(err),
            },
        }
    }
}

/// Total samples of the frames before the first end of stream.
pub open spec fn frames_before_eof<T>(events: Seq<Event<T>>) -> nat
    decreases events.len(),
{
    if events.len() == 0 {
        0
    } else {
        match events[0] {
            Event::Eof => 0,
            Event::Frame(f) => (f.nb_samples + frames_before_eof(events.drop_first())) as nat,
            _ => frames_before_eof(events.drop_first()),
        }
    }
}

/// The number of destination channels: the caller's, else the source's.
pub open spec fn dest_channels(channel_count: Option<usize>, source: usize) -> usize {
    match channel_count {
        Some(c) => c,
        None => source,
    }
}

/// What a reader holds.
pub ghost struct ReaderView<T> {
    pub stream: StreamInfo,
    pub source_format: SampleFormat,
    pub phase: Phase,
    /// Samples per channel written so far.
    pub sample_count: nat,
    pub output: BufferView<T>,
    /// The write cursor as last built.
    pub cursor: Cursor,
    pub converter: Option<Converter>,
}

impl<T> ReaderView<T> {
    pub open spec fn well_formed(self) -> bool {
        &&& self.output.well_formed()
        &&& self.sample_count <= self.output.capacity
    }

    /// The cursor stands at the first free column and reaches to the end of
    /// the storage as it is now.
    pub open spec fn cursor_ready(self) -> bool {
        &&& self.cursor.offset == self.sample_count
        &&& self.cursor.offset + self.cursor.len == self.output.capacity
    }
}

/// The buffer `b` with its valid sample count set to `n`.
pub open spec fn finalized<T>(b: BufferView<T>, n: nat) -> BufferView<T> {
    BufferView { samples: n, ..b }
}

/// `new` is `old` after frame `f` was taken in: the storage has grown to
/// exactly fit the frame where it did not, the frame fills the columns
/// after the samples written so far, and nothing else has changed.
pub open spec fn appended<T>(old: ReaderView<T>, new: ReaderView<T>, f: Frame<T>) -> bool {
    let count = old.sample_count;
    let end = (count + f.nb_samples) as nat;
    let o = old.output;
    let n = new.output;
    &&& new == (ReaderView { sample_count: end, output: n, cursor: new.cursor, ..old })
    &&& new.cursor.offset == count
    &&& n.well_formed()
    &&& n.channels == o.channels
    &&& n.samples == o.samples
    &&& n.sample_rate == o.sample_rate
    &&& n.packing == o.packing
    &&& n.capacity == if o.capacity < end {
        end
    } else {
        o.capacity
    }
    &&& forall|c: int, s: int|
        0 <= c < o.channels && 0 <= s < n.capacity ==> #[trigger] n.at(c, s) == if count <= s
            < end {
            frame_at(&f, o.channels, o.packing, c, s - count)
        } else {
            o.at(c, s)
        }
}

/// Decodes one audio stream into an output buffer, one external signal at a
/// time.
pub struct Reader<T> {
    input: Input,
    output: AudioBuffer<T>,
    cursor: Cursor,
    converter: Option<Converter>,
    sample_count: usize,
    phase: Phase,
}

impl<T> View for Reader<T> {
    type V = ReaderView<T>;

    closed spec fn view(&self) -> ReaderView<T> {
        ReaderView {
            stream: self.input.spec_stream(),
            source_format: self.input.spec_sample_format(),
            phase: self.phase,
            sample_count: self.sample_count as nat,
            output: self.output@,
            cursor: self.cursor,
            converter: self.converter,
        }
    }
}

/// Whether a frame holds data for `channels` channels in `packing`.
fn frame_fits_exec<T>(frame: &Frame<T>, channels: usize, packing: SamplePacking) -> (r: bool)
    ensures
        r == frame_fits(frame, channels as nat, packing),
{
    let planes = frame.data.len();
    match packing {
        SamplePacking::Interleaved => {
            if planes < 1 {
                return false;
            }
            let len = frame.data[0].len();
            match frame.nb_samples.checked_mul(channels) {
                None => false,
                Some(needed) => len >= needed,
            }
        },
        SamplePacking::Deinterleaved => {
            if planes < channels {
                return false;
            }
            let mut c: usize = 0;
            while c < channels
                invariant
                    packing == SamplePacking::Deinterleaved,
                    c <= channels,
                    frame.data@.len() >= channels,
                    forall|k: int| 0 <= k < c ==> #[trigger] frame.data@[k]@.len() >= frame.nb_samples,
                decreases channels - c,
            {
                if frame.data[c].len() < frame.nb_samples {
                    assert(frame.data@[c as int]@.len() < frame.nb_samples);
                    return false;
                }
                c = c + 1;
            }
            true
        },
    }
}

impl<T: Sample> Reader<T> {
    /// Opens the first audio stream of `streams` for decoding into samples
    /// of type `T` in `packing`, with `channel_count` channels or, without
    /// it, as many as the source has. The decoder is asked for the format
    /// that `pick_best_format` chooses among `formats`; a converter is
    /// planned when that format or the channel count differs from the
    /// destination's. The output is pre-sized to the estimated sample count
    /// where that fits in memory, else left empty.
    pub fn open(
        streams: &Vec<StreamInfo>,
        duration: u64,
        formats: Option<FormatIter>,
        packing: SamplePacking,
        channel_count: Option<usize>,
    ) -> (r: Result<Reader<T>, Error>)
        ensures
            first_audio(streams@) is None ==> r matches Err(Error::NoAudioStream),
            first_audio(streams@) is Some && formats is None ==> r matches Err(Error::DecodeSetup),
            first_audio(streams@) is Some && formats is Some ==> {
                let stream = streams@[first_audio(streams@)->0];
                let wanted = format_of(T::scalar(), packing);
                let picked = best_format(formats->0@, wanted);
                let channels = dest_channels(channel_count, stream.channels);
                let est = estimate(duration, stream.sample_rate);
                match r {
                    Err(e) => e == Error::DecodeSetup && picked is None,
                    Ok(rd) => picked == Some(rd@.source_format) && rd@.well_formed() && rd@.stream
                        == stream && rd@.phase == Phase::Reading && rd@.sample_count == 0
                        && rd@.output.channels == channels && rd@.output.samples == 0
                        && rd@.output.packing == packing && rd@.output.sample_rate
                        == stream.sample_rate && rd@.output.capacity == (if channels * est
                        <= usize::MAX {
                        est
                    } else {
                        0
                    }) && rd@.converter == (if rd@.source_format != wanted || channels
                        != stream.channels {
                        Some(
                            Converter {
                                src: AudioFormat {
                                    channels: stream.channels,
                                    sample_format: rd@.source_format,
                                    sample_rate: stream.sample_rate,
                                },
                                dst: AudioFormat {
                                    channels,
                                    sample_format: wanted,
                                    sample_rate: stream.sample_rate,
                                },
                            },
                        )
                    } else {
                        None
                    }),
                }
            },
    {
        let wanted = SampleFormat::from_type(T::scalar_type(), packing);
        let picker = |i: FormatIter| -> (f: Option<SampleFormat>)
            ensures
                f == best_format(i@, wanted),
            { pick_best_format(i, wanted) };
        let input = match Input::open(streams, duration, formats, picker) {
            Err(e) => {
                return Err(e);
            },
            Ok(input) => input,
        };
        let channels = match channel_count {
            Some(c) => c,
            None => input.channels(),
        };
        let est = input.estimated_sample_count();
        let capacity = match channels.checked_mul(est) {
            Some(_) => est,
            None => 0,
        };
        let mut output: AudioBuffer<T> = AudioBuffer::zeros(channels, capacity, packing);
        output.set_sample_rate(input.sample_rate());
        let use_converter = input.sample_format() != wanted || channels != input.channels();
        let converter = if use_converter {
            Some(
                input.converter(
                    AudioFormat { channels, sample_format: wanted, sample_rate: input.sample_rate() },
                ),
            )
        } else {
            None
        };
        let cursor = Cursor { offset: 0, len: 0 };
        Ok(Reader { input, output, cursor, converter, sample_count: 0, phase: Phase::Reading })
    }
}

impl<T: Sample> Reader<T> {
    /// The opened stream.
    pub fn input(&self) -> (r: &Input)
        ensures
            r.spec_stream() == self@.stream,
            r.spec_sample_format() == self@.source_format,
    {
        &self.input
    }

    /// The output buffer as it stands.
    pub fn output(&self) -> (r: &AudioBuffer<T>)
        ensures
            r@ == self@.output,
    {
        &self.output
    }

    /// The planned conversion, if the decoder's output needs one.
    pub fn converter(&self) -> (r: Option<Converter>)
        ensures
            r == self@.converter,
    {
        self.converter
    }

    /// Samples per channel written so far.
    pub fn sample_count(&self) -> (r: usize)
        ensures
            r == self@.sample_count,
    {
        self.sample_count
    }

    pub fn phase(&self) -> (r: Phase)
        ensures
            r == self@.phase,
    {
        self.phase
    }

    /// Copies a frame into the columns of the write cursor: sample `i` of
    /// channel `c` lands at column `sample_count + i`, and nothing outside
    /// `[sample_count, sample_count + frame.nb_samples)` is written.
    pub fn copy_frame_to_cursor(&mut self, frame: &Frame<T>)
        requires
            old(self)@.well_formed(),
            old(self)@.cursor_ready(),
            frame.nb_samples <= old(self)@.cursor.len,
            frame_fits(frame, old(self)@.output.channels, old(self)@.output.packing),
        ensures
            final(self)@ == (ReaderView { output: final(self)@.output, ..old(self)@ }),
            final(self)@.output == (BufferView { data: final(self)@.output.data, ..old(self)@.output }),
            final(self)@.well_formed(),
            forall|c: int, s: int|
                0 <= c < old(self)@.output.channels && 0 <= s < old(self)@.output.capacity
                    ==> #[trigger] final(self)@.output.at(c, s) == if old(self)@.sample_count <= s
                    < old(self)@.sample_count + frame.nb_samples {
                    frame_at(
                        frame,
                        old(self)@.output.channels,
                        old(self)@.output.packing,
                        c,
                        s - old(self)@.sample_count,
                    )
                } else {
                    old(self)@.output.at(c, s)
                },
    {
        self.output.write_frame(self.cursor, frame);
    }

    /// Takes in one decoded frame: grows the output where the frame does not
    /// fit, rebuilds the cursor, copies the frame and counts its samples. A
    /// frame that lacks data for some channel, or would make the buffer too
    /// large to address, is a decode fault and changes nothing.
    fn push_frame(&mut self, frame: &Frame<T>) -> (r: Result<(), Error>)
        requires
            old(self)@.well_formed(),
        ensures
            final(self)@.well_formed(),
            frame_ok(old(self)@.sample_count, old(self)@.output.channels, old(self)@.output.packing, *frame)
                ==> r is Ok && appended(old(self)@, final(self)@, *frame),
            !frame_ok(old(self)@.sample_count, old(self)@.output.channels, old(self)@.output.packing, *frame)
                ==> r == Err::<(), Error>(Error::DecodeFault) && final(self)@ == old(self)@,
    {
        let channels = self.output.channels();
        if !frame_fits_exec(frame, channels, self.output.packing_type()) {
            return Err(Error::DecodeFault);
        }
        let end = match self.sample_count.checked_add(frame.nb_samples) {
            None => {
                return Err(Error::DecodeFault);
            },
            Some(e) => e,
        };
        if channels.checked_mul(end).is_none() {
            return Err(Error::DecodeFault);
        }
        let ghost prev = self@;
        if self.output.capacity() < end {
            self.output.grow(end);
        }
        let ghost grown = self@;
        self.cursor = self.output.cursor_at(self.sample_count);
        self.copy_frame_to_cursor(frame);
        proof {
            assert forall|c: int, s: int|
                0 <= c < prev.output.channels && 0 <= s < self@.output.capacity implies
                #[trigger] self@.output.at(c, s) == if prev.sample_count <= s < end {
                    frame_at(frame, prev.output.channels, prev.output.packing, c, s - prev.sample_count)
                } else {
                    prev.output.at(c, s)
                } by {
                if s < prev.output.capacity {
                    assert(grown.output.at(c, s) == prev.output.at(c, s));
                }
            }
        }
        self.sample_count = end;
        Ok(())
    }

    /// Advances the decode loop by the result of the last external call and
    /// says which call to make next. A packet of another stream is dropped;
    /// `Again` from the demuxer means read again, from the decoder's input
    /// go on to drain frames, and from its output read the next packet. End
    /// of stream from any of them finishes. A fatal error, or a signal that
    /// does not fit the call made, is a decode fault; on an error nothing
    /// changes.
    pub fn step(&mut self, event: &Event<T>) -> (r: Result<Action, Error>)
        requires
            old(self)@.well_formed(),
        ensures
            final(self)@.well_formed(),
            match (old(self)@.phase, *event) {
                (Phase::Receiving, Event::Frame(f)) => if frame_ok(
                    old(self)@.sample_count,
                    old(self)@.output.channels,
                    old(self)@.output.packing,
                    f,
                ) {
                    r == Ok::<Action, Error>(Action::ReceiveFrame) && appended(
                        old(self)@,
                        final(self)@,
                        f,
                    )
                } else {
                    r == Err::<Action, Error>(Error::DecodeFault) && final(self)@ == old(self)@
                },
                (p, e) => match transition(p, old(self)@.stream.id, e) {
                    Ok((next, a)) => r == Ok::<Action, Error>(a) && final(self)@ == (ReaderView {
                        phase: next,
                        ..old(self)@
                    }),
                    Err(err) => r == Err::<Action, Error>(err) && final(self)@ == old(self)@,
                },
            },
    {
        let stream_id = self.input.stream().id;
        match self.phase {
            Phase::Reading => match event {
                Event::Packet(id) => {
                    if *id == stream_id {
                        self.phase = Phase::Sending;
                        Ok(Action::SendPacket)
                    } else {
                        Ok(Action::ReadPacket)
                    }
                },
                Event::Again => Ok(Action::ReadPacket),
                Event::Eof => {
                    self.phase = Phase::Done;
                    Ok(Action::Finish)
                },
                _ => Err(Error::DecodeFault),
            },
            Phase::Sending => match event {
                Event::Ready | Event::Again => {
                    self.phase = Phase::Receiving;
                    Ok(Action::ReceiveFrame)
                },
                Event::Eof => {
                    self.phase = Phase::Done;
                    Ok(Action::Finish)
                },
                _ => Err(Error::DecodeFault),
            },
            Phase::Receiving => match event {
                Event::Frame(f) => match self.push_frame(f) {
                    Ok(()) => Ok(Action::ReceiveFrame),
                    Err(e) => Err(e),
                },
                Event::Again => {
                    self.phase = Phase::Reading;
                    Ok(Action::ReadPacket)
                },
                Event::Eof => {
                    self.phase = Phase::Done;
                    Ok(Action::Finish)
                },
                _ => Err(Error::DecodeFault),
            },
            Phase::Done => Ok(Action::Finish),
        }
    }

    /// Ends decoding: the output's valid sample count becomes the number of
    /// samples written, whatever was pre-allocated, and the output is handed
    /// over.
    pub fn finish(self) -> (r: AudioBuffer<T>)
        requires
            self@.well_formed(),
        ensures
            r@ == finalized(self@.output, self@.sample_count),
            r@.well_formed(),
    {
        let mut output = self.output;
        output.set_samples(self.sample_count);
        output
    }

    /// Runs the decode loop over the results of the external calls, in the
    /// order they came, up to the end of stream (or the end of `events`),
    /// and returns the finished output; the first error ends it with no
    /// output.
    pub fn read(self, events: &Vec<Event<T>>) -> (r: Result<AudioBuffer<T>, Error>)
        requires
            self@.well_formed(),
        ensures
            match run(
                self@.phase,
                self@.sample_count,
                self@.stream.id,
                self@.output.channels,
                self@.output.packing,
                events@,
            ) {
                Ok(n) => r matches Ok(b) && b@.well_formed() && b@.samples == n && b@.channels
                    == self@.output.channels && b@.packing == self@.output.packing
                    && b@.sample_rate == self@.output.sample_rate,
                Err(e) => r matches Err(e2) && e2 == e,
            },
    {
        let ghost start = self@;
        let ghost total = run(
            start.phase,
            start.sample_count,
            start.stream.id,
            start.output.channels,
            start.output.packing,
            events@,
        );
        let mut rd = self;
        if rd.phase == Phase::Done {
            return Ok(rd.finish());
        }
        let mut i: usize = 0;
        assert(events@.skip(0) =~= events@);
        while i < events.len()
            invariant
                i <= events@.len(),
                start == self@,
                total == run(
                    self@.phase,
                    self@.sample_count,
                    self@.stream.id,
                    self@.output.channels,
                    self@.output.packing,
                    events@,
                ),
                rd@.well_formed(),
                rd@.phase != Phase::Done,
                rd@.stream == start.stream,
                rd@.output.channels == start.output.channels,
                rd@.output.packing == start.output.packing,
                rd@.output.sample_rate == start.output.sample_rate,
                total == run(
                    rd@.phase,
                    rd@.sample_count,
                    start.stream.id,
                    start.output.channels,
                    start.output.packing,
                    events@.skip(i as int),
                ),
            decreases events@.len() - i,
        {
            proof {
                let rest = events@.skip(i as int);
                assert(rest[0] == events@[i as int]);
                assert(rest.drop_first() =~= events@.skip(i + 1));
            }
            let res = rd.step(&events[i]);
            match res {
                Err(e) => {
                    return Err(e);
                },
                Ok(Action::Finish) => {
                    return Ok(rd.finish());
                },
                Ok(_) => {},
            }
            i = i + 1;
        }
        proof {
            assert(events@.skip(i as int).len() == 0);
        }
        Ok(rd.finish())
    }
}

/// A successful run counts exactly the samples of the frames that came
/// before the end of stream.
pub proof fn lemma_run_counts_frames<T>(
    phase: Phase,
    count: nat,
    stream_id: usize,
    channels: nat,
    packing: SamplePacking,
    events: Seq<Event<T>>,
)
    requires
        phase != Phase::Done,
    ensures
        run(phase, count, stream_id, channels, packing, events) matches Ok(n) ==> n == count
            + frames_before_eof(events),
    decreases events.len(),
{
    if events.len() > 0 {
        let rest = events.drop_first();
        match events[0] {
            Event::Frame(f) => {
                if phase == Phase::Receiving && frame_ok(count, channels, packing, f) {
                    lemma_run_counts_frames(
                        Phase::Receiving,
                        (count + f.nb_samples) as nat,
                        stream_id,
                        channels,
                        packing,
                        rest,
                    );
                }
            },
            e => {
                if let Ok((p, _)) = transition(phase, stream_id, e) {
                    if p != Phase::Done {
                        lemma_run_counts_frames(p, count, stream_id, channels, packing, rest);
                    }
                }
            },
        }
    }
}

/// Taking in a frame keeps the written samples within the storage, and the
/// storage then has room for everything written before and the whole frame.
pub proof fn lemma_append_keeps_room<T>(old: ReaderView<T>, new: ReaderView<T>, f: Frame<T>)
    requires
        old.well_formed(),
        appended(old, new, f),
    ensures
        new.well_formed(),
        new.output.capacity >= old.sample_count + f.nb_samples,
        new.output.capacity >= old.output.capacity,
        new.sample_count == old.sample_count + f.nb_samples,
{
}

/// Without a converter a frame is copied as the decoder gave it: every
/// sample of it reappears unchanged at its place after the samples written
/// before.
pub proof fn lemma_direct_copy_exact<T>(old: ReaderView<T>, new: ReaderView<T>, f: Frame<T>)
    requires
        old.well_formed(),
        old.converter is None,
        appended(old, new, f),
    ensures
        new.converter is None,
        forall|c: int, i: int|
            0 <= c < old.output.channels && 0 <= i < f.nb_samples ==> #[trigger] new.output.at(
                c,
                old.sample_count + i,
            ) == frame_at(&f, old.output.channels, old.output.packing, c, i),
{
    assert forall|c: int, i: int|
        0 <= c < old.output.channels && 0 <= i < f.nb_samples implies #[trigger] new.output.at(
            c,
            old.sample_count + i,
        ) == frame_at(&f, old.output.channels, old.output.packing, c, i) by {
        let s = old.sample_count + i;
        assert(s - old.sample_count == i);
        assert(new.output.at(c, s) == frame_at(&f, old.output.channels, old.output.packing, c, s - old.sample_count));
    }
}

/// A packet of another stream, read while waiting for a packet, changes
/// nothing in the outcome of the decode.
pub proof fn lemma_foreign_packet_ignored<T>(
    count: nat,
    stream_id: usize,
    other: usize,
    channels: nat,
    packing: SamplePacking,
    events: Seq<Event<T>>,
)
    requires
        other != stream_id,
    ensures
        run(Phase::Reading, count, stream_id, channels, packing, seq![Event::Packet(other)] + events)
            == run(Phase::Reading, count, stream_id, channels, packing, events),
{
    let all = seq![Event::<T>::Packet(other)] + events;
    assert(all.drop_first() =~= events);
    assert(all[0] == Event::<T>::Packet(other));
}

/// Finishing a buffer a second time with the same count changes nothing.
pub proof fn lemma_finish_idempotent<T>(b: BufferView<T>, n: nat)
    ensures
        finalized(finalized(b, n), n) == finalized(b, n),
{
}

} // verus!
