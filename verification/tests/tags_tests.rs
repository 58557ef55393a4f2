use geotool::tags::{
    append_rule, builtin_tags, f32_tag_quantity, f64_tag_quantity, kept_points, resolve_tag_f32,
    resolve_tag_f64, tag_lookup, AppendRule, CustomTag, NotClientData, PointValueSize, Tag,
    TagF32, TagF64, TagLookup, ValueRule, WellModes, WellQuantity,
};
use geotool::units::{ComputationMode, Quantity};

fn modes(m: ComputationMode) -> WellModes {
    WellModes { bhp: m, bht: m, whp: m, rate: m, rho: m, vtot: m, ii: m }
}

#[test]
fn builtin_tags_in_order() {
    let t = builtin_tags();
    assert_eq!(t.len(), 7);
    for (i, tag) in t.iter().enumerate() {
        assert_eq!(tag.id as usize, i + 1);
        let size = if tag.id == 6 { PointValueSize::F64 } else { PointValueSize::F32 };
        assert_eq!(tag.value_size, size);
    }
}

#[test]
fn tag_ids_resolve() {
    assert_eq!(tag_lookup(3), TagLookup::Builtin);
    assert_eq!(tag_lookup(-7), TagLookup::Builtin);
    assert_eq!(tag_lookup(0), TagLookup::Invalid);
    assert_eq!(tag_lookup(-12), TagLookup::Custom(12));
    assert_eq!(resolve_tag_f32(1, None), Some(TagF32 { id: 1 }));
    assert_eq!(resolve_tag_f32(-1, None), Some(TagF32 { id: -1 }));
    assert_eq!(resolve_tag_f32(6, None), None);
    assert_eq!(resolve_tag_f64(-6, None), Some(TagF64 { id: -6 }));
    assert_eq!(resolve_tag_f64(2, None), None);
    assert_eq!(resolve_tag_f32(0, Some(PointValueSize::F32)), None);
    assert_eq!(resolve_tag_f32(9, Some(PointValueSize::F32)), Some(TagF32 { id: 9 }));
    assert_eq!(resolve_tag_f32(9, Some(PointValueSize::F64)), None);
    assert_eq!(resolve_tag_f64(-9, Some(PointValueSize::F64)), Some(TagF64 { id: -9 }));
    assert_eq!(resolve_tag_f64(9, None), None);
}

#[test]
fn a_tag_has_one_width() {
    for id in -20i16..=20 {
        for custom in [None, Some(PointValueSize::F32), Some(PointValueSize::F64)] {
            let a = resolve_tag_f32(id, custom).is_some();
            let b = resolve_tag_f64(id, custom).is_some();
            assert!(!(a && b));
            if id != 0 && id.abs() <= 7 {
                assert!(a || b);
            }
        }
    }
}

#[test]
fn conversion_quantities() {
    assert_eq!(f32_tag_quantity(1), Quantity::Pressure);
    assert_eq!(f32_tag_quantity(-3), Quantity::Pressure);
    assert_eq!(f32_tag_quantity(2), Quantity::Unconverted);
    assert_eq!(f32_tag_quantity(4), Quantity::Rate);
    assert_eq!(f32_tag_quantity(5), Quantity::Density);
    assert_eq!(f32_tag_quantity(-7), Quantity::Injectivity);
    assert_eq!(f32_tag_quantity(8), Quantity::Unconverted);
    assert_eq!(f64_tag_quantity(6), Quantity::Volume);
    assert_eq!(f64_tag_quantity(-40), Quantity::Unconverted);
}

#[test]
fn appending_needs_client_mode() {
    let off = modes(ComputationMode::Off);
    let err = append_rule(1, &off).unwrap_err();
    assert_eq!(err, NotClientData { quantity: WellQuantity::Bhp });
    assert_eq!(err.tag_label(), "bhp");
    assert_eq!(append_rule(6, &modes(ComputationMode::Server)).unwrap_err().tag_label(), "TotalVolume");
    assert_eq!(append_rule(5, &off).unwrap_err().tag_label(), "density");
    assert_eq!(append_rule(7, &off).unwrap_err().tag_label(), "injectivity");
    let client = modes(ComputationMode::Client);
    assert_eq!(append_rule(1, &client), Ok(AppendRule { value_rule: ValueRule::Positive, quantity: Quantity::Pressure }));
    assert_eq!(append_rule(2, &client), Ok(AppendRule { value_rule: ValueRule::Positive, quantity: Quantity::Unconverted }));
    assert_eq!(append_rule(3, &client), Ok(AppendRule { value_rule: ValueRule::NonNegative, quantity: Quantity::Pressure }));
    assert_eq!(append_rule(4, &client), Ok(AppendRule { value_rule: ValueRule::NonNegative, quantity: Quantity::Rate }));
    assert_eq!(append_rule(6, &client), Ok(AppendRule { value_rule: ValueRule::NonNegative, quantity: Quantity::Volume }));
    // custom tags take any finite value, in the client's units, whatever the modes
    assert_eq!(append_rule(11, &off), Ok(AppendRule { value_rule: ValueRule::AnyFinite, quantity: Quantity::Unconverted }));
}

#[test]
fn only_later_valid_points_are_kept() {
    let times = vec![5, 10, 10, 8, 20, 30, 25, 40];
    let valid = vec![true, true, true, true, false, true, true, true];
    assert_eq!(kept_points(Some(7), &times, &valid), vec![1, 5, 7]);
    assert_eq!(kept_points(None, &times, &valid), vec![0, 1, 5, 7]);
    assert_eq!(kept_points(Some(100), &times, &valid), Vec::<usize>::new());
    let kept = kept_points(None, &times, &valid);
    for w in kept.windows(2) {
        assert!(times[w[0]] < times[w[1]]);
    }
}

#[test]
fn custom_tag_record() {
    let t = CustomTag {
        well: 3,
        id: 9,
        value_size: PointValueSize::F32,
        units_text: "kg".to_string(),
        name: "mass".to_string(),
        description: String::new(),
    };
    let tag = Tag { id: t.id, value_size: t.value_size };
    assert_eq!(resolve_tag_f32(tag.id, Some(tag.value_size)), Some(TagF32 { id: 9 }));
}

#[test]
fn most_negative_id_names_no_tag() {
    assert_eq!(tag_lookup(i16::MIN), TagLookup::Invalid);
    assert_eq!(resolve_tag_f32(i16::MIN, Some(PointValueSize::F32)), None);
    assert_eq!(resolve_tag_f64(i16::MIN, Some(PointValueSize::F64)), None);
    assert_eq!(tag_lookup(i16::MIN + 1), TagLookup::Custom(i16::MAX));
}
