use audio_reader::sample_format::{
    pick_best_format, FormatIter, SampleFormat, SamplePacking, ScalarType, Type,
    AV_SAMPLE_FMT_DBLP, AV_SAMPLE_FMT_FLT, AV_SAMPLE_FMT_FLTP, AV_SAMPLE_FMT_NB,
    AV_SAMPLE_FMT_NONE, AV_SAMPLE_FMT_S16, AV_SAMPLE_FMT_S16P, AV_SAMPLE_FMT_S64P,
    AV_SAMPLE_FMT_U8,
};

fn all_formats() -> Vec<SampleFormat> {
    let mut v = Vec::new();
    for t in [Type::Packed, Type::Planar] {
        v.push(SampleFormat::U8(t));
        v.push(SampleFormat::I16(t));
        v.push(SampleFormat::I32(t));
        v.push(SampleFormat::I64(t));
        v.push(SampleFormat::F32(t));
        v.push(SampleFormat::F64(t));
    }
    v
}

#[test]
fn names_follow_the_library_spelling() {
    assert_eq!(SampleFormat::U8(Type::Packed).name(), "u8");
    assert_eq!(SampleFormat::I16(Type::Planar).name(), "s16p");
    assert_eq!(SampleFormat::F32(Type::Packed).name(), "flt");
    assert_eq!(SampleFormat::F64(Type::Planar).name(), "dblp");
    assert_eq!(SampleFormat::I64(Type::Packed).name(), "s64");
}

#[test]
fn from_name_finds_each_format() {
    for f in all_formats() {
        assert_eq!(SampleFormat::from_name(f.name()), f);
    }
    assert_eq!(SampleFormat::from_name("s32p"), SampleFormat::I32(Type::Planar));
}

#[test]
fn from_name_unknown_is_no_format() {
    assert_eq!(SampleFormat::from_name("bogus"), SampleFormat::NoFormat);
    assert_eq!(SampleFormat::from_name(""), SampleFormat::NoFormat);
}

#[test]
fn raw_identifiers_round_trip() {
    for f in all_formats() {
        assert_eq!(SampleFormat::from_raw(f.into_raw()), f);
    }
    assert_eq!(SampleFormat::NoFormat.into_raw(), AV_SAMPLE_FMT_NONE);
    assert_eq!(SampleFormat::from_raw(AV_SAMPLE_FMT_NONE), SampleFormat::NoFormat);
    assert_eq!(SampleFormat::from_raw(AV_SAMPLE_FMT_NB), SampleFormat::NoFormat);
    assert_eq!(SampleFormat::from_raw(AV_SAMPLE_FMT_S64P), SampleFormat::I64(Type::Planar));
    assert_eq!(SampleFormat::F32(Type::Planar).into_raw(), AV_SAMPLE_FMT_FLTP);
}

#[test]
fn byte_widths() {
    assert_eq!(SampleFormat::NoFormat.bytes(), 0);
    assert_eq!(SampleFormat::U8(Type::Planar).bytes(), 1);
    assert_eq!(SampleFormat::I16(Type::Packed).bytes(), 2);
    assert_eq!(SampleFormat::I32(Type::Packed).bytes(), 4);
    assert_eq!(SampleFormat::F32(Type::Planar).bytes(), 4);
    assert_eq!(SampleFormat::I64(Type::Planar).bytes(), 8);
    assert_eq!(SampleFormat::F64(Type::Packed).bytes(), 8);
}

#[test]
fn counterparts_and_packing_predicates() {
    let f = SampleFormat::I16(Type::Packed);
    assert_eq!(f.planar(), SampleFormat::I16(Type::Planar));
    assert_eq!(f.packed(), f);
    assert_eq!(f.planar().packed(), f);
    assert!(f.is_packed() && !f.is_planar());
    assert!(f.planar().is_planar() && !f.planar().is_packed());
    assert_eq!(SampleFormat::NoFormat.planar(), SampleFormat::NoFormat);
    assert_eq!(SampleFormat::NoFormat.packed(), SampleFormat::NoFormat);
    assert!(SampleFormat::NoFormat.is_packed());
}

#[test]
fn sample_type_classifies() {
    assert_eq!(SampleFormat::NoFormat.sample_type(), None);
    assert_eq!(SampleFormat::U8(Type::Planar).sample_type(), Some(ScalarType::U8));
    assert_eq!(SampleFormat::F64(Type::Packed).sample_type(), Some(ScalarType::F64));
}

#[test]
fn from_type_negotiates() {
    assert_eq!(
        SampleFormat::from_type(ScalarType::I32, SamplePacking::Deinterleaved),
        SampleFormat::I32(Type::Planar)
    );
    assert_eq!(
        SampleFormat::from_type(ScalarType::F32, SamplePacking::Interleaved),
        SampleFormat::F32(Type::Packed)
    );
}

#[test]
fn format_iter_stops_at_sentinel() {
    let mut it = FormatIter::new(vec![AV_SAMPLE_FMT_S16, AV_SAMPLE_FMT_FLTP, AV_SAMPLE_FMT_NONE, AV_SAMPLE_FMT_U8]);
    assert_eq!(it.next(), Some(SampleFormat::I16(Type::Packed)));
    assert_eq!(it.next(), Some(SampleFormat::F32(Type::Planar)));
    assert_eq!(it.next(), None);
    assert_eq!(it.next(), None);
}

#[test]
fn format_iter_without_sentinel_ends_with_list() {
    let mut it = FormatIter::new(vec![AV_SAMPLE_FMT_DBLP]);
    assert_eq!(it.next(), Some(SampleFormat::F64(Type::Planar)));
    assert_eq!(it.next(), None);
}

#[test]
fn pick_prefers_exact_match() {
    let it = FormatIter::new(vec![AV_SAMPLE_FMT_S16P, AV_SAMPLE_FMT_S16, AV_SAMPLE_FMT_NONE]);
    assert_eq!(
        pick_best_format(it, SampleFormat::I16(Type::Packed)),
        Some(SampleFormat::I16(Type::Packed))
    );
}

#[test]
fn pick_falls_back_to_counterpart() {
    let it = FormatIter::new(vec![AV_SAMPLE_FMT_FLT, AV_SAMPLE_FMT_S16P, AV_SAMPLE_FMT_NONE]);
    assert_eq!(
        pick_best_format(it, SampleFormat::I16(Type::Packed)),
        Some(SampleFormat::I16(Type::Planar))
    );
}

#[test]
fn pick_reports_no_workable_format() {
    let it = FormatIter::new(vec![AV_SAMPLE_FMT_FLT, AV_SAMPLE_FMT_NONE, AV_SAMPLE_FMT_S16]);
    assert_eq!(pick_best_format(it, SampleFormat::I16(Type::Packed)), None);
    let empty = FormatIter::new(vec![AV_SAMPLE_FMT_NONE]);
    assert_eq!(pick_best_format(empty, SampleFormat::U8(Type::Packed)), None);
}
