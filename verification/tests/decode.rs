use jpk_reader::dataset::properties::error::Property;
use jpk_reader::dataset::properties::Properties;
use jpk_reader::dataset::v2_0::lcd_info::{EncoderType, LcdInfo, ScalingStyle, ScalingType};
use jpk_reader::dataset::v2_0::properties::SharedData;

fn shared(encoder: &str) -> SharedData {
    let text = format!(
        "lcd-infos.count=1\n\
lcd-info.0.encoder.type={encoder}\n\
lcd-info.0.encoder.scaling.type=linear\n\
lcd-info.0.encoder.scaling.style=offsetmultiplier\n\
lcd-info.0.encoder.scaling.offset=-1.5\n\
lcd-info.0.encoder.scaling.multiplier=2.5E-9\n\
lcd-info.0.encoder.scaling.unit.unit=N\n"
    );
    SharedData { inner: Properties::new(&text).unwrap() }
}

fn info(encoder: &str) -> LcdInfo {
    LcdInfo::from_properties(&shared(encoder), 0).unwrap()
}

#[test]
fn decode_signed_short() {
    let raw = [0x00, 0x00, 0x00, 0x01, 0x7f, 0xff, 0x80, 0x00, 0xff, 0xff, 0x12, 0x34];
    let expected: Vec<i64> = raw.chunks(2).map(|b| i16::from_be_bytes([b[0], b[1]]) as i64).collect();
    assert_eq!(expected, vec![0, 1, 32_767, -32_768, -1, 0x1234]);
    assert_eq!(info("signedshort").decode_samples(&raw).unwrap(), expected);
    assert_eq!(info("signedshort-limited").decode_samples(&raw).unwrap(), expected);
}

#[test]
fn decode_unsigned_short() {
    let raw = [0x00, 0x00, 0x7f, 0xff, 0x80, 0x00, 0xff, 0xff];
    assert_eq!(info("unsignedshort").decode_samples(&raw).unwrap(), vec![0, 32_767, 32_768, 65_535]);
    assert_eq!(info("unsignedshort-limited").decode_samples(&raw).unwrap(), vec![0, 32_767, 32_768, 65_535]);
}

#[test]
fn decode_signed_integer() {
    let values = [0i32, 1, -1, i32::MAX, i32::MIN, 0x0102_0304, -2_000_000_000];
    let raw: Vec<u8> = values.iter().flat_map(|v| v.to_be_bytes()).collect();
    let expected: Vec<i64> = values.iter().map(|v| *v as i64).collect();
    assert_eq!(info("signedinteger").decode_samples(&raw).unwrap(), expected);
    assert_eq!(info("signedinteger-limited").decode_samples(&raw).unwrap(), expected);
}

#[test]
fn decode_unsigned_integer() {
    let values = [0u32, 1, u32::MAX, 0x8000_0000, 0x7fff_ffff];
    let raw: Vec<u8> = values.iter().flat_map(|v| v.to_be_bytes()).collect();
    let expected: Vec<i64> = values.iter().map(|v| *v as i64).collect();
    assert_eq!(info("unsignedinteger").decode_samples(&raw).unwrap(), expected);
    assert_eq!(info("unsignedinteger-limited").decode_samples(&raw).unwrap(), expected);
}

#[test]
fn decode_signed_long() {
    let values = [0i64, 1, -1, i64::MAX, i64::MIN, 0x0102_0304_0506_0708, -9_000_000_000_000];
    let raw: Vec<u8> = values.iter().flat_map(|v| v.to_be_bytes()).collect();
    assert_eq!(info("signedlong").decode_samples(&raw).unwrap(), values.to_vec());
    assert_eq!(info("signedlong-limited").decode_samples(&raw).unwrap(), values.to_vec());
}

#[test]
fn decode_rejects_a_length_that_is_no_multiple_of_the_width() {
    for (encoder, width) in
        [("signedshort", 2usize), ("unsignedshort", 2), ("signedinteger", 4), ("unsignedinteger", 4), ("signedlong", 8)]
    {
        let info = info(encoder);
        assert_eq!(info.encoder().width(), width);
        for length in 0..=3 * width {
            let raw = vec![0xabu8; length];
            let decoded = info.decode_samples(&raw);
            if length % width == 0 {
                assert_eq!(decoded.unwrap().len(), length / width);
            } else {
                assert!(decoded.is_err());
            }
        }
    }
}

#[test]
fn lcd_info_is_read_from_properties() {
    let info = info("unsignedinteger-limited");
    assert_eq!(info.encoder(), EncoderType::UnsignedInteger);
    assert_eq!(info.scaling_type(), ScalingType::Linear);
    assert_eq!(info.scaling_style(), ScalingStyle::OffsetMultiplier);
    assert_eq!(info.offset(), "-1.5");
    assert_eq!(info.multiplier(), "2.5E-9");
    assert_eq!(info.unit(), "N");
    assert!(!info.encoder().signed());
    assert_eq!(SharedData::lcd_info_encoder_type_key(12), "lcd-info.12.encoder.type");
    assert_eq!(SharedData::lcd_info_encoder_unit_key(0), "lcd-info.0.encoder.scaling.unit.unit");
    assert_eq!(SharedData::lcd_info_encoder_scaling_type_key(3), "lcd-info.3.encoder.scaling.type");
    assert_eq!(SharedData::lcd_info_encoder_scaling_style_key(3), "lcd-info.3.encoder.scaling.style");
    assert_eq!(SharedData::lcd_info_encoder_scaling_offset_key(100), "lcd-info.100.encoder.scaling.offset");
    assert_eq!(SharedData::lcd_info_encoder_scaling_multiplier_key(7), "lcd-info.7.encoder.scaling.multiplier");
}

#[test]
fn lcd_info_names_the_property_at_fault() {
    match LcdInfo::from_properties(&shared("float"), 0) {
        Err(Property::InvalidValue(key)) => assert_eq!(key, "lcd-info.0.encoder.type"),
        _ => panic!("the encoder is not known"),
    }
    match LcdInfo::from_properties(&shared("signedshort"), 1) {
        Err(Property::NotFound(key)) => assert_eq!(key, "lcd-info.1.encoder.type"),
        _ => panic!("the table has one entry"),
    }
    let text = "lcd-info.0.encoder.type=signedshort\nlcd-info.0.encoder.scaling.type=quadratic\n";
    match LcdInfo::from_properties(&SharedData { inner: Properties::new(text).unwrap() }, 0) {
        Err(Property::InvalidValue(key)) => assert_eq!(key, "lcd-info.0.encoder.scaling.type"),
        _ => panic!("the scaling is not known"),
    }
    let text = "lcd-info.0.encoder.type=signedshort\nlcd-info.0.encoder.scaling.type=linear\n\
lcd-info.0.encoder.scaling.style=slopeintercept\n";
    match LcdInfo::from_properties(&SharedData { inner: Properties::new(text).unwrap() }, 0) {
        Err(Property::InvalidValue(key)) => assert_eq!(key, "lcd-info.0.encoder.scaling.style"),
        _ => panic!("the style is not known"),
    }
    assert_eq!(LcdInfo::table(&shared("signedlong")).unwrap().len(), 1);
    assert_eq!(EncoderType::from_str("signedlong "), None);
    assert_eq!(EncoderType::from_str("unsignedlong"), None);
}
