use vstd::prelude::*;
use crate::container::{AudioBuffer, Sample};
use vstd::string::StringSliceAdditionalSpecFns;
use vstd::utf8::encode_utf8;

verus! {

/// Numeric kind of one PCM sample.
#[derive(PartialEq, Eq, Structural, Copy, Clone, Debug)]
pub enum ScalarType {
    U8,
    I16,
    I32,
    I64,
    F32,
    F64,
}

/// Layout of the samples of several channels in one buffer.
#[derive(PartialEq, Eq, Structural, Copy, Clone, Debug)]
pub enum SamplePacking {
    /// All channels of one time index stand together.
    Interleaved,
    /// All samples of one channel stand together.
    Deinterleaved,
}

/// Packing tag of a sample format.
#[derive(PartialEq, Eq, Structural, Copy, Clone, Debug)]
pub enum Type {
    Packed,
    Planar,
}

/// A PCM sample encoding: numeric kind and packing, or `NoFormat`, no format at all.
#[derive(PartialEq, Eq, Structural, Copy, Clone, Debug)]
pub enum SampleFormat {
    NoFormat,
    U8(Type),
    I16(Type),
    I32(Type),
    I64(Type),
    F32(Type),
    F64(Type),
}

/// Identifiers of the decoding library's native sample formats.
pub const AV_SAMPLE_FMT_NONE: i32 = -1;
pub const AV_SAMPLE_FMT_U8: i32 = 0;
pub const AV_SAMPLE_FMT_S16: i32 = 1;
pub const AV_SAMPLE_FMT_S32: i32 = 2;
pub const AV_SAMPLE_FMT_FLT: i32 = 3;
pub const AV_SAMPLE_FMT_DBL: i32 = 4;
pub const AV_SAMPLE_FMT_U8P: i32 = 5;
pub const AV_SAMPLE_FMT_S16P: i32 = 6;
pub const AV_SAMPLE_FMT_S32P: i32 = 7;
pub const AV_SAMPLE_FMT_FLTP: i32 = 8;
pub const AV_SAMPLE_FMT_DBLP: i32 = 9;
pub const AV_SAMPLE_FMT_S64: i32 = 10;
pub const AV_SAMPLE_FMT_S64P: i32 = 11;
pub const AV_SAMPLE_FMT_NB: i32 = 12;

/// The packing tag of a format; `NoFormat` counts as packed.
pub open spec fn type_of(f: SampleFormat) -> Type {
    match f {
        SampleFormat::NoFormat => Type::Packed,
        SampleFormat::U8(t) => t,
        SampleFormat::I16(t) => t,
        SampleFormat::I32(t) => t,
        SampleFormat::I64(t) => t,
        SampleFormat::F32(t) => t,
        SampleFormat::F64(t) => t,
    }
}

/// The format of the same numeric kind with the packing tag `t`.
pub open spec fn with_type(f: SampleFormat, t: Type) -> SampleFormat {
    match f {
        SampleFormat::NoFormat => SampleFormat::NoFormat,
        SampleFormat::U8(_) => SampleFormat::U8(t),
        SampleFormat::I16(_) => SampleFormat::I16(t),
        SampleFormat::I32(_) => SampleFormat::I32(t),
        SampleFormat::I64(_) => SampleFormat::I64(t),
        SampleFormat::F32(_) => SampleFormat::F32(t),
        SampleFormat::F64(_) => SampleFormat::F64(t),
    }
}

/// The numeric kind of a format.
pub open spec fn scalar_of(f: SampleFormat) -> Option<ScalarType> {
    match f {
        SampleFormat::NoFormat => None,
        SampleFormat::U8(_) => Some(ScalarType::U8),
        SampleFormat::I16(_) => Some(ScalarType::I16),
        SampleFormat::I32(_) => Some(ScalarType::I32),
        SampleFormat::I64(_) => Some(ScalarType::I64),
        SampleFormat::F32(_) => Some(ScalarType::F32),
        SampleFormat::F64(_) => Some(ScalarType::F64),
    }
}

/// Width in bytes of one sample of a numeric kind.
pub open spec fn scalar_bytes(s: ScalarType) -> nat {
    match s {
        ScalarType::U8 => 1,
        ScalarType::I16 => 2,
        ScalarType::I32 => 4,
        ScalarType::I64 => 8,
        ScalarType::F32 => 4,
        ScalarType::F64 => 8,
    }
}

/// Width in bytes of one sample of a format; 0 for `NoFormat`.
pub open spec fn bytes_of(f: SampleFormat) -> nat {
    match scalar_of(f) {
        None => 0,
        Some(s) => scalar_bytes(s),
    }
}

/// The packing tag that goes with a buffer packing.
pub open spec fn type_of_packing(p: SamplePacking) -> Type {
    match p {
        SamplePacking::Interleaved => Type::Packed,
        SamplePacking::Deinterleaved => Type::Planar,
    }
}

/// The format of numeric kind `s` in packing `p`.
pub open spec fn format_of(s: ScalarType, p: SamplePacking) -> SampleFormat {
    let t = type_of_packing(p);
    match s {
        ScalarType::U8 => SampleFormat::U8(t),
        ScalarType::I16 => SampleFormat::I16(t),
        ScalarType::I32 => SampleFormat::I32(t),
        ScalarType::I64 => SampleFormat::I64(t),
        ScalarType::F32 => SampleFormat::F32(t),
        ScalarType::F64 => SampleFormat::F64(t),
    }
}

/// The native identifier of a format.
pub open spec fn raw_of(f: SampleFormat) -> i32 {
    match f {
        SampleFormat::NoFormat => AV_SAMPLE_FMT_NONE,
        SampleFormat::U8(Type::Packed) => AV_SAMPLE_FMT_U8,
        SampleFormat::I16(Type::Packed) => AV_SAMPLE_FMT_S16,
        SampleFormat::I32(Type::Packed) => AV_SAMPLE_FMT_S32,
        SampleFormat::I64(Type::Packed) => AV_SAMPLE_FMT_S64,
        SampleFormat::F32(Type::Packed) => AV_SAMPLE_FMT_FLT,
        SampleFormat::F64(Type::Packed) => AV_SAMPLE_FMT_DBL,
        SampleFormat::U8(Type::Planar) => AV_SAMPLE_FMT_U8P,
        SampleFormat::I16(Type::Planar) => AV_SAMPLE_FMT_S16P,
        SampleFormat::I32(Type::Planar) => AV_SAMPLE_FMT_S32P,
        SampleFormat::I64(Type::Planar) => AV_SAMPLE_FMT_S64P,
        SampleFormat::F32(Type::Planar) => AV_SAMPLE_FMT_FLTP,
        SampleFormat::F64(Type::Planar) => AV_SAMPLE_FMT_DBLP,
    }
}

/// The format that a native identifier stands for; identifiers outside the
/// table stand for `NoFormat`.
pub open spec fn format_of_raw(raw: i32) -> SampleFormat {
    if raw == AV_SAMPLE_FMT_U8 {
        SampleFormat::U8(Type::Packed)
    } else if raw == AV_SAMPLE_FMT_S16 {
        SampleFormat::I16(Type::Packed)
    } else if raw == AV_SAMPLE_FMT_S32 {
        SampleFormat::I32(Type::Packed)
    } else if raw == AV_SAMPLE_FMT_S64 {
        SampleFormat::I64(Type::Packed)
    } else if raw == AV_SAMPLE_FMT_FLT {
        SampleFormat::F32(Type::Packed)
    } else if raw == AV_SAMPLE_FMT_DBL {
        SampleFormat::F64(Type::Packed)
    } else if raw == AV_SAMPLE_FMT_U8P {
        SampleFormat::U8(Type::Planar)
    } else if raw == AV_SAMPLE_FMT_S16P {
        SampleFormat::I16(Type::Planar)
    } else if raw == AV_SAMPLE_FMT_S32P {
        SampleFormat::I32(Type::Planar)
    } else if raw == AV_SAMPLE_FMT_S64P {
        SampleFormat::I64(Type::Planar)
    } else if raw == AV_SAMPLE_FMT_FLTP {
        SampleFormat::F32(Type::Planar)
    } else if raw == AV_SAMPLE_FMT_DBLP {
        SampleFormat::F64(Type::Planar)
    } else {
        SampleFormat::NoFormat
    }
}

/// The canonical name of a format other than `NoFormat`.
pub open spec fn name_of(f: SampleFormat) -> Seq<char> {
    match f {
        SampleFormat::NoFormat => Seq::empty(),
        SampleFormat::U8(Type::Packed) => "u8"@,
        SampleFormat::I16(Type::Packed) => "s16"@,
        SampleFormat::I32(Type::Packed) => "s32"@,
        SampleFormat::I64(Type::Packed) => "s64"@,
        SampleFormat::F32(Type::Packed) => "flt"@,
        SampleFormat::F64(Type::Packed) => "dbl"@,
        SampleFormat::U8(Type::Planar) => "u8p"@,
        SampleFormat::I16(Type::Planar) => "s16p"@,
        SampleFormat::I32(Type::Planar) => "s32p"@,
        SampleFormat::I64(Type::Planar) => "s64p"@,
        SampleFormat::F32(Type::Planar) => "fltp"@,
        SampleFormat::F64(Type::Planar) => "dblp"@,
    }
}

/// Every format other than `NoFormat`, in the order of their native identifiers.
pub open spec fn all_formats() -> Seq<SampleFormat> {
    seq![
        SampleFormat::U8(Type::Packed),
        SampleFormat::I16(Type::Packed),
        SampleFormat::I32(Type::Packed),
        SampleFormat::F32(Type::Packed),
        SampleFormat::F64(Type::Packed),
        SampleFormat::U8(Type::Planar),
        SampleFormat::I16(Type::Planar),
        SampleFormat::I32(Type::Planar),
        SampleFormat::F32(Type::Planar),
        SampleFormat::F64(Type::Planar),
        SampleFormat::I64(Type::Packed),
        SampleFormat::I64(Type::Planar),
    ]
}

impl SampleFormat {
    /// The canonical name of the format, as the decoding library spells it.
    pub fn name(&self) -> (r: &'static str)
        requires
            *self != SampleFormat::NoFormat,
        ensures
            r@ == name_of(*self),
    {
        match self {
            SampleFormat::NoFormat => "",
            SampleFormat::U8(Type::Packed) => "u8",
            SampleFormat::I16(Type::Packed) => "s16",
            SampleFormat::I32(Type::Packed) => "s32",
            SampleFormat::I64(Type::Packed) => "s64",
            SampleFormat::F32(Type::Packed) => "flt",
            SampleFormat::F64(Type::Packed) => "dbl",
            SampleFormat::U8(Type::Planar) => "u8p",
            SampleFormat::I16(Type::Planar) => "s16p",
            SampleFormat::I32(Type::Planar) => "s32p",
            SampleFormat::I64(Type::Planar) => "s64p",
            SampleFormat::F32(Type::Planar) => "fltp",
            SampleFormat::F64(Type::Planar) => "dblp",
        }
    }

    /// The numeric kind of the format, `None` for `NoFormat`.
    pub fn sample_type(&self) -> (r: Option<ScalarType>)
        ensures
            r == scalar_of(*self),
    {
        match self {
            SampleFormat::NoFormat => None,
            SampleFormat::U8(_) => Some(ScalarType::U8),
            SampleFormat::I16(_) => Some(ScalarType::I16),
            SampleFormat::I32(_) => Some(ScalarType::I32),
            SampleFormat::I64(_) => Some(ScalarType::I64),
            SampleFormat::F32(_) => Some(ScalarType::F32),
            SampleFormat::F64(_) => Some(ScalarType::F64),
        }
    }

    /// The packed format of the same numeric kind; `NoFormat` maps to itself.
    pub fn packed(&self) -> (r: SampleFormat)
        ensures
            r == with_type(*self, Type::Packed),
    {
        self.retyped(Type::Packed)
    }

    /// The planar format of the same numeric kind; `NoFormat` maps to itself.
    pub fn planar(&self) -> (r: SampleFormat)
        ensures
            r == with_type(*self, Type::Planar),
    {
        self.retyped(Type::Planar)
    }

    fn retyped(&self, t: Type) -> (r: SampleFormat)
        ensures
            r == with_type(*self, t),
    {
        match self {
            SampleFormat::NoFormat => SampleFormat::NoFormat,
            SampleFormat::U8(_) => SampleFormat::U8(t),
            SampleFormat::I16(_) => SampleFormat::I16(t),
            SampleFormat::I32(_) => SampleFormat::I32(t),
            SampleFormat::I64(_) => SampleFormat::I64(t),
            SampleFormat::F32(_) => SampleFormat::F32(t),
            SampleFormat::F64(_) => SampleFormat::F64(t),
        }
    }

    /// Whether the samples of each channel stand apart.
    pub fn is_planar(&self) -> (r: bool)
        ensures
            r == (type_of(*self) == Type::Planar),
    {
        match self {
            SampleFormat::NoFormat => false,
            SampleFormat::U8(t) | SampleFormat::I16(t) | SampleFormat::I32(t)
            | SampleFormat::I64(t) | SampleFormat::F32(t) | SampleFormat::F64(t) => {
                match t {
                    Type::Packed => false,
                    Type::Planar => true,
                }
            },
        }
    }

    /// Whether the channels are interleaved; the complement of `is_planar`.
    pub fn is_packed(&self) -> (r: bool)
        ensures
            r == (type_of(*self) == Type::Packed),
    {
        !self.is_planar()
    }

    /// Width in bytes of one sample; 0 for `NoFormat`.
    pub fn bytes(&self) -> (r: usize)
        ensures
            r == bytes_of(*self),
    {
        match self.sample_type() {
            None => 0,
            Some(ScalarType::U8) => 1,
            Some(ScalarType::I16) => 2,
            Some(ScalarType::I32) => 4,
            Some(ScalarType::I64) => 8,
            Some(ScalarType::F32) => 4,
            Some(ScalarType::F64) => 8,
        }
    }

    /// The format that a caller asks for by numeric kind and packing.
    pub fn from_type(scalar: ScalarType, packing: SamplePacking) -> (r: SampleFormat)
        ensures
            r == format_of(scalar, packing),
            scalar_of(r) == Some(scalar),
            type_of(r) == type_of_packing(packing),
    {
        let packed = match scalar {
            ScalarType::U8 => SampleFormat::U8(Type::Packed),
            ScalarType::I16 => SampleFormat::I16(Type::Packed),
            ScalarType::I32 => SampleFormat::I32(Type::Packed),
            ScalarType::I64 => SampleFormat::I64(Type::Packed),
            ScalarType::F32 => SampleFormat::F32(Type::Packed),
            ScalarType::F64 => SampleFormat::F64(Type::Packed),
        };
        match packing {
            SamplePacking::Deinterleaved => packed.planar(),
            SamplePacking::Interleaved => packed,
        }
    }

    /// The format of a native identifier; identifiers outside the table
    /// (the sentinel and the count among them) give `NoFormat`.
    pub fn from_raw(raw: i32) -> (r: SampleFormat)
        ensures
            r == format_of_raw(raw),
    {
        if raw == AV_SAMPLE_FMT_U8 {
            SampleFormat::U8(Type::Packed)
        } else if raw == AV_SAMPLE_FMT_S16 {
            SampleFormat::I16(Type::Packed)
        } else if raw == AV_SAMPLE_FMT_S32 {
            SampleFormat::I32(Type::Packed)
        } else if raw == AV_SAMPLE_FMT_S64 {
            SampleFormat::I64(Type::Packed)
        } else if raw == AV_SAMPLE_FMT_FLT {
            SampleFormat::F32(Type::Packed)
        } else if raw == AV_SAMPLE_FMT_DBL {
            SampleFormat::F64(Type::Packed)
        } else if raw == AV_SAMPLE_FMT_U8P {
            SampleFormat::U8(Type::Planar)
        } else if raw == AV_SAMPLE_FMT_S16P {
            SampleFormat::I16(Type::Planar)
        } else if raw == AV_SAMPLE_FMT_S32P {
            SampleFormat::I32(Type::Planar)
        } else if raw == AV_SAMPLE_FMT_S64P {
            SampleFormat::I64(Type::Planar)
        } else if raw == AV_SAMPLE_FMT_FLTP {
            SampleFormat::F32(Type::Planar)
        } else if raw == AV_SAMPLE_FMT_DBLP {
            SampleFormat::F64(Type::Planar)
        } else {
            SampleFormat::NoFormat
        }
    }

    /// The native identifier of the format.
    pub fn into_raw(self) -> (r: i32)
        ensures
            r == raw_of(self),
    {
        match self {
            SampleFormat::NoFormat => AV_SAMPLE_FMT_NONE,
            SampleFormat::U8(Type::Packed) => AV_SAMPLE_FMT_U8,
            SampleFormat::I16(Type::Packed) => AV_SAMPLE_FMT_S16,
            SampleFormat::I32(Type::Packed) => AV_SAMPLE_FMT_S32,
            SampleFormat::I64(Type::Packed) => AV_SAMPLE_FMT_S64,
            SampleFormat::F32(Type::Packed) => AV_SAMPLE_FMT_FLT,
            SampleFormat::F64(Type::Packed) => AV_SAMPLE_FMT_DBL,
            SampleFormat::U8(Type::Planar) => AV_SAMPLE_FMT_U8P,
            SampleFormat::I16(Type::Planar) => AV_SAMPLE_FMT_S16P,
            SampleFormat::I32(Type::Planar) => AV_SAMPLE_FMT_S32P,
            SampleFormat::I64(Type::Planar) => AV_SAMPLE_FMT_S64P,
            SampleFormat::F32(Type::Planar) => AV_SAMPLE_FMT_FLTP,
            SampleFormat::F64(Type::Planar) => AV_SAMPLE_FMT_DBLP,
        }
    }
}

/// Converting a format to its native identifier and back gives the format.
pub proof fn lemma_raw_round_trip(f: SampleFormat)
    ensures
        format_of_raw(raw_of(f)) == f,
{
}

/// A packed format is the packed counterpart of itself and of its planar
/// counterpart, and likewise for planar formats.
pub proof fn lemma_counterparts(f: SampleFormat)
    ensures
        with_type(with_type(f, Type::Packed), Type::Planar) == with_type(f, Type::Planar),
        with_type(with_type(f, Type::Planar), Type::Packed) == with_type(f, Type::Packed),
        scalar_of(with_type(f, Type::Planar)) == scalar_of(f),
        scalar_of(with_type(f, Type::Packed)) == scalar_of(f),
        f != SampleFormat::NoFormat ==> with_type(f, type_of(f)) == f,
{
}


/// Whether two byte strings are equal.
fn bytes_equal(a: &[u8], b: &[u8]) -> (r: bool)
    ensures
        r == (a@ == b@),
{
    if a.len() != b.len() {
        return false;
    }
    let mut i: usize = 0;
    while i < a.len()
        invariant
            a@.len() == b@.len(),
            i <= a@.len(),
            forall|j: int| 0 <= j < i ==> a@[j] == b@[j],
        decreases a@.len() - i,
    {
        if a[i] != b[i] {
            return false;
        }
        i = i + 1;
    }
    assert(a@ =~= b@);
    true
}

impl SampleFormat {
    /// The format with the given canonical name; an unknown name gives
    /// `NoFormat`.
    pub fn from_name(name: &str) -> (r: SampleFormat)
        ensures
            r != SampleFormat::NoFormat ==> encode_utf8(name_of(r)) == name.spec_bytes(),
            r == SampleFormat::NoFormat ==> forall|f: SampleFormat|
                f != SampleFormat::NoFormat ==> encode_utf8(#[trigger] name_of(f))
                    != name.spec_bytes(),
    {
        let wanted = name.as_bytes();
        let mut raw: i32 = 0;
        while raw < AV_SAMPLE_FMT_NB
            invariant
                0 <= raw <= AV_SAMPLE_FMT_NB,
                wanted@ == name.spec_bytes(),
                forall|j: i32|
                    0 <= j < raw ==> encode_utf8(#[trigger] name_of(format_of_raw(j)))
                        != name.spec_bytes(),
            decreases AV_SAMPLE_FMT_NB - raw,
        {
            let f = SampleFormat::from_raw(raw);
            let n = f.name();
            if bytes_equal(n.as_bytes(), wanted) {
                return f;
            }
            raw = raw + 1;
        }
        proof {
            assert forall|f: SampleFormat| f != SampleFormat::NoFormat implies encode_utf8(
                #[trigger] name_of(f),
            ) != name.spec_bytes() by {
                lemma_raw_round_trip(f);
                let j = raw_of(f);
                assert(0 <= j < AV_SAMPLE_FMT_NB);
                assert(name_of(format_of_raw(j)) == name_of(f));
            }
        }
        SampleFormat::NoFormat
    }
}

impl SampleFormat {
    /// The format of the samples that a buffer holds.
    pub fn from_storage<T: Sample>(s: &AudioBuffer<T>) -> (r: SampleFormat)
        ensures
            r == format_of(T::scalar(), s@.packing),
    {
        SampleFormat::from_type(T::scalar_type(), s.packing_type())
    }
}

/// The formats that a sentinel-terminated list of native identifiers offers:
/// those before the first `AV_SAMPLE_FMT_NONE`, or all of them if there is
/// none.
pub open spec fn pending(raw: Seq<i32>) -> Seq<SampleFormat>
    decreases raw.len(),
{
    if raw.len() == 0 || raw[0] == AV_SAMPLE_FMT_NONE {
        Seq::empty()
    } else {
        seq![format_of_raw(raw[0])] + pending(raw.drop_first())
    }
}

/// The sample formats that a decoder supports, read one at a time from a
/// list of native identifiers that ends at the sentinel `AV_SAMPLE_FMT_NONE`.
pub struct FormatIter {
    formats: Vec<i32>,
    pos: usize,
}

impl View for FormatIter {
    type V = Seq<SampleFormat>;

    /// The formats not yet handed out.
    closed spec fn view(&self) -> Seq<SampleFormat> {
        if self.pos < self.formats@.len() {
            pending(self.formats@.skip(self.pos as int))
        } else {
            Seq::empty()
        }
    }
}

impl FormatIter {
    pub fn new(formats: Vec<i32>) -> (r: FormatIter)
        ensures
            r@ == pending(formats@),
    {
        proof {
            if formats@.len() > 0 {
                assert(formats@.skip(0) =~= formats@);
            }
        }
        FormatIter { formats, pos: 0 }
    }

    /// Hands out the next format, or `None` once the sentinel or the end of
    /// the list is reached.
    pub fn next(&mut self) -> (r: Option<SampleFormat>)
        ensures
            old(self)@.len() == 0 ==> r.is_none() && final(self)@ == old(self)@,
            old(self)@.len() > 0 ==> r == Some(old(self)@[0]) && final(self)@
                == old(self)@.drop_first(),
    {
        if self.pos >= self.formats.len() {
            return None;
        }
        let raw = self.formats[self.pos];
        if raw == AV_SAMPLE_FMT_NONE {
            return None;
        }
        proof {
            let rest = self.formats@.skip(self.pos as int);
            assert(rest.drop_first() =~= self.formats@.skip(self.pos + 1));
        }
        self.pos = self.pos + 1;
        Some(SampleFormat::from_raw(raw))
    }
}

/// The counterpart of a format with the other packing tag.
pub open spec fn sibling(f: SampleFormat) -> SampleFormat {
    match type_of(f) {
        Type::Packed => with_type(f, Type::Planar),
        Type::Planar => with_type(f, Type::Packed),
    }
}

/// The format to ask a decoder for, given what it offers and what the caller
/// prefers: the preferred format itself, else its counterpart with the other
/// packing, else none.
pub open spec fn best_format(offered: Seq<SampleFormat>, preferred: SampleFormat) -> Option<
    SampleFormat,
> {
    if preferred == SampleFormat::NoFormat {
        None
    } else if offered.contains(preferred) {
        Some(preferred)
    } else if offered.contains(sibling(preferred)) {
        Some(sibling(preferred))
    } else {
        None
    }
}

proof fn lemma_push_contains(s: Seq<SampleFormat>, f: SampleFormat, g: SampleFormat)
    ensures
        s.push(f).contains(g) == (s.contains(g) || g == f),
{
    if g == f {
        assert(s.push(f)[s.len() as int] == f);
    }
    if s.contains(g) {
        let k = choose|k: int| 0 <= k < s.len() && s[k] == g;
        assert(s.push(f)[k] == g);
    }
    if s.push(f).contains(g) {
        let k = choose|k: int| 0 <= k < s.push(f).len() && s.push(f)[k] == g;
        if k < s.len() {
            assert(s[k] == g);
        }
    }
}

/// Chooses among the formats a decoder offers: an exact match of `preferred`,
/// else its packed or planar counterpart, else `None` when no workable format
/// is offered.
pub fn pick_best_format(formats: FormatIter, preferred: SampleFormat) -> (r: Option<SampleFormat>)
    ensures
        r == best_format(formats@, preferred),
{
    let ghost offered = formats@;
    let mut formats = formats;
    let other = if preferred.is_planar() {
        preferred.packed()
    } else {
        preferred.planar()
    };
    assert(other == sibling(preferred));
    let mut exact = false;
    let mut near = false;
    let ghost mut seen: Seq<SampleFormat> = Seq::empty();
    loop
        invariant
            offered == seen + formats@,
            exact == seen.contains(preferred),
            near == seen.contains(other),
        ensures
            offered == seen,
            exact == seen.contains(preferred),
            near == seen.contains(other),
        decreases formats@.len(),
    {
        let ghost before = formats@;
        match formats.next() {
            None => {
                assert(seen + formats@ =~= seen);
                break ;
            },
            Some(f) => {
                proof {
                    assert(seen.push(f) + formats@ =~= seen + before);
                    lemma_push_contains(seen, f, preferred);
                    lemma_push_contains(seen, f, other);
                    seen = seen.push(f);
                }
                if f == preferred {
                    exact = true;
                }
                if f == other {
                    near = true;
                }
            },
        }
    }
    if preferred == SampleFormat::NoFormat {
        None
    } else if exact {
        Some(preferred)
    } else if near {
        Some(other)
    } else {
        None
    }
}

} // verus!
