//! How the raw bytes of a channel encode its samples.
//!
//! A channel's data file is a run of samples of one width, each a binary
//! integer with its most significant byte first. An entry of the encoding
//! table says which width and signedness the samples have, and with which
//! offset and multiplier a sample becomes a physical value.
use super::properties::{lcd_info_key, SharedData, LCD_INFOS_COUNT_KEY};
use crate::dataset::properties::error::{Property, PropertyView};
use crate::dataset::properties::{extract_usize, extract_value, spec_extract_unsigned, spec_value};
use crate::text::str_eq;
use vstd::prelude::*;

verus! {

/// The data's length is no multiple of the width of a sample.
#[derive(Debug)]
pub struct InvalidDataLength;

/// The binary form of a sample.
#[derive(Debug, Clone, Copy, PartialEq, Eq, Structural)]
pub enum EncoderType {
    /// Two bytes, two's complement.
    SignedShort,
    /// Two bytes, not negative.
    UnsignedShort,
    /// Four bytes, two's complement.
    SignedInteger,
    /// Four bytes, not negative.
    UnsignedInteger,
    /// Eight bytes, two's complement.
    SignedLong,
}

/// The encoder that `name` names. A name may end in `-limited`.
pub open spec fn spec_encoder(name: Seq<char>) -> Option<EncoderType> {
    if name == "signedshort"@ || name == "signedshort-limited"@ {
        Some(EncoderType::SignedShort)
    } else if name == "unsignedshort"@ || name == "unsignedshort-limited"@ {
        Some(EncoderType::UnsignedShort)
    } else if name == "signedinteger"@ || name == "signedinteger-limited"@ {
        Some(EncoderType::SignedInteger)
    } else if name == "unsignedinteger"@ || name == "unsignedinteger-limited"@ {
        Some(EncoderType::UnsignedInteger)
    } else if name == "signedlong"@ || name == "signedlong-limited"@ {
        Some(EncoderType::SignedLong)
    } else {
        None
    }
}

impl EncoderType {
    pub fn from_str(input: &str) -> (r: Option<Self>)
        ensures
            r == spec_encoder(input@),
    {
        if str_eq(input, "signedshort") || str_eq(input, "signedshort-limited") {
            Some(Self::SignedShort)
        } else if str_eq(input, "unsignedshort") || str_eq(input, "unsignedshort-limited") {
            Some(Self::UnsignedShort)
        } else if str_eq(input, "signedinteger") || str_eq(input, "signedinteger-limited") {
            Some(Self::SignedInteger)
        } else if str_eq(input, "unsignedinteger") || str_eq(input, "unsignedinteger-limited") {
            Some(Self::UnsignedInteger)
        } else if str_eq(input, "signedlong") || str_eq(input, "signedlong-limited") {
            Some(Self::SignedLong)
        } else {
            None
        }
    }

    /// Number of bytes of one sample.
    pub open spec fn spec_width(&self) -> nat {
        match self {
            EncoderType::SignedShort | EncoderType::UnsignedShort => 2,
            EncoderType::SignedInteger | EncoderType::UnsignedInteger => 4,
            EncoderType::SignedLong => 8,
        }
    }

    /// Whether a sample can be negative.
    pub open spec fn spec_signed(&self) -> bool {
        match self {
            EncoderType::SignedShort | EncoderType::SignedInteger | EncoderType::SignedLong => true,
            EncoderType::UnsignedShort | EncoderType::UnsignedInteger => false,
        }
    }

    /// Number of bytes of one sample.
    pub fn width(&self) -> (r: usize)
        ensures
            r == self.spec_width(),
    {
        match self {
            EncoderType::SignedShort | EncoderType::UnsignedShort => 2,
            EncoderType::SignedInteger | EncoderType::UnsignedInteger => 4,
            EncoderType::SignedLong => 8,
        }
    }

    /// Whether a sample can be negative.
    pub fn signed(&self) -> (r: bool)
        ensures
            r == self.spec_signed(),
    {
        match self {
            EncoderType::SignedShort | EncoderType::SignedInteger | EncoderType::SignedLong => true,
            EncoderType::UnsignedShort | EncoderType::UnsignedInteger => false,
        }
    }
}

/// How a sample becomes a physical value.
#[derive(Debug, Clone, Copy, PartialEq, Eq, Structural)]
pub enum ScalingType {
    /// The value is a linear function of the sample.
    Linear,
}

impl ScalingType {
    pub fn from_str(input: &str) -> (r: Option<Self>)
        ensures
            r == (if input@ == "linear"@ {
                Some(ScalingType::Linear)
            } else {
                None
            }),
    {
        if str_eq(input, "linear") {
            Some(Self::Linear)
        } else {
            None
        }
    }
}

/// How the linear function is written down.
#[derive(Debug, Clone, Copy, PartialEq, Eq, Structural)]
pub enum ScalingStyle {
    /// As the offset and the multiplier: the value is the offset plus the
    /// multiplier times the sample.
    OffsetMultiplier,
}

impl ScalingStyle {
    pub fn from_str(input: &str) -> (r: Option<Self>)
        ensures
            r == (if input@ == "offsetmultiplier"@ {
                Some(ScalingStyle::OffsetMultiplier)
            } else {
                None
            }),
    {
        if str_eq(input, "offsetmultiplier") {
            Some(Self::OffsetMultiplier)
        } else {
            None
        }
    }
}

/// One entry of the encoding table. The offset and the multiplier are kept
/// as the property file writes them.
#[derive(Debug, Clone)]
pub struct LcdInfo {
    encoder: EncoderType,
    scaling_type: ScalingType,
    scaling_style: ScalingStyle,
    unit: String,
    offset: String,
    multiplier: String,
}

/// An `LcdInfo` with its texts as sequences of characters.
pub struct LcdInfoView {
    pub encoder: EncoderType,
    pub scaling_type: ScalingType,
    pub scaling_style: ScalingStyle,
    pub unit: Seq<char>,
    pub offset: Seq<char>,
    pub multiplier: Seq<char>,
}

impl View for LcdInfo {
    type V = LcdInfoView;

    closed spec fn view(&self) -> LcdInfoView {
        LcdInfoView {
            encoder: self.encoder,
            scaling_type: self.scaling_type,
            scaling_style: self.scaling_style,
            unit: self.unit@,
            offset: self.offset@,
            multiplier: self.multiplier@,
        }
    }
}

/// The entry `index` of the encoding table that the shared properties
/// describe, or the first property, in the order of `LcdInfoView`'s fields,
/// that is missing or invalid.
pub open spec fn spec_lcd_info(properties: Map<Seq<char>, Seq<char>>, index: nat) -> Result<
    LcdInfoView,
    PropertyView,
> {
    let encoder_key = lcd_info_key(index, ".encoder.type"@);
    let type_key = lcd_info_key(index, ".encoder.scaling.type"@);
    let style_key = lcd_info_key(index, ".encoder.scaling.style"@);
    match spec_value(properties, encoder_key) {
        Err(e) => Err(e),
        Ok(name) => match spec_encoder(name) {
            None => Err(PropertyView::InvalidValue(encoder_key)),
            Some(encoder) => match spec_value(properties, type_key) {
                Err(e) => Err(e),
                Ok(name) => if name != "linear"@ {
                    Err(PropertyView::InvalidValue(type_key))
                } else {
                    match spec_value(properties, style_key) {
                        Err(e) => Err(e),
                        Ok(name) => if name != "offsetmultiplier"@ {
                            Err(PropertyView::InvalidValue(style_key))
                        } else {
                            match spec_value(properties, lcd_info_key(index, ".encoder.scaling.unit.unit"@)) {
                                Err(e) => Err(e),
                                Ok(unit) => match spec_value(
                                    properties,
                                    lcd_info_key(index, ".encoder.scaling.offset"@),
                                ) {
                                    Err(e) => Err(e),
                                    Ok(offset) => match spec_value(
                                        properties,
                                        lcd_info_key(index, ".encoder.scaling.multiplier"@),
                                    ) {
                                        Err(e) => Err(e),
                                        Ok(multiplier) => Ok(
                                            LcdInfoView {
                                                encoder,
                                                scaling_type: ScalingType::Linear,
                                                scaling_style: ScalingStyle::OffsetMultiplier,
                                                unit,
                                                offset,
                                                multiplier,
                                            },
                                        ),
                                    },
                                },
                            }
                        },
                    }
                },
            },
        },
    }
}

/// The views of `infos`, in the same order.
pub open spec fn lcd_views(infos: Seq<LcdInfo>) -> Seq<LcdInfoView> {
    Seq::new(infos.len(), |i: int| infos[i]@)
}

/// The entries `from`, `from + 1`, .. of an encoding table of `count`
/// entries, as the shared properties describe them; the first property
/// that is missing or invalid where there is one.
pub open spec fn spec_lcd_infos_from(properties: Map<Seq<char>, Seq<char>>, from: nat, count: nat) -> Result<
    Seq<LcdInfoView>,
    PropertyView,
>
    decreases count - from,
{
    if from >= count {
        Ok(Seq::empty())
    } else {
        match spec_lcd_info(properties, from) {
            Err(e) => Err(e),
            Ok(info) => match spec_lcd_infos_from(properties, from + 1, count) {
                Err(e) => Err(e),
                Ok(more) => Ok(seq![info] + more),
            },
        }
    }
}

/// The encoding table that the shared properties describe: as many
/// entries as its count property says.
pub open spec fn spec_lcd_infos(properties: Map<Seq<char>, Seq<char>>) -> Result<Seq<LcdInfoView>, PropertyView> {
    match spec_extract_unsigned(properties, LCD_INFOS_COUNT_KEY@, usize::MAX as nat) {
        Err(e) => Err(e),
        Ok(count) => spec_lcd_infos_from(properties, 0, count),
    }
}

/// The number that `bytes` write, the most significant byte first.
pub open spec fn be_unsigned(bytes: Seq<u8>) -> nat
    decreases bytes.len(),
{
    if bytes.len() == 0 {
        0
    } else {
        be_unsigned(bytes.drop_last()) * 256 + bytes.last() as nat
    }
}

/// Number of values that `width` bytes can write.
pub open spec fn span(width: nat) -> nat
    decreases width,
{
    if width == 0 {
        1
    } else {
        256 * span((width - 1) as nat)
    }
}

/// The number that `bytes` write in two's complement, the most significant
/// byte first.
pub open spec fn be_signed(bytes: Seq<u8>) -> int {
    if 2 * be_unsigned(bytes) >= span(bytes.len()) {
        be_unsigned(bytes) - span(bytes.len())
    } else {
        be_unsigned(bytes) as int
    }
}

/// The sample that `bytes` write for `encoder`.
pub open spec fn sample(encoder: EncoderType, bytes: Seq<u8>) -> int {
    if encoder.spec_signed() {
        be_signed(bytes)
    } else {
        be_unsigned(bytes) as int
    }
}

/// The samples that `raw` writes for `encoder`, one after the other; `None`
/// where the length of `raw` is no multiple of the width of a sample.
/// Every sample of the widths in use fits in sixty-four bits.
pub open spec fn spec_decode(encoder: EncoderType, raw: Seq<u8>) -> Option<Seq<i64>> {
    let width = encoder.spec_width() as int;
    let length = raw.len() as int;
    if length % width != 0 {
        None
    } else {
        Some(
            Seq::new(
                (length / width) as nat,
                |k: int| sample(encoder, raw.subrange(k * width, (k + 1) * width)) as i64,
            ),
        )
    }
}

/// What `bytes` write is below the number of values of their width.
pub proof fn lemma_be_unsigned_bound(bytes: Seq<u8>)
    ensures
        be_unsigned(bytes) < span(bytes.len()),
    decreases bytes.len(),
{
    if bytes.len() > 0 {
        lemma_be_unsigned_bound(bytes.drop_last());
    }
}

/// The number of values of the widths in use.
pub proof fn lemma_span()
    ensures
        span(0) == 1,
        span(1) == 0x100,
        span(2) == 0x1_0000,
        span(3) == 0x100_0000,
        span(4) == 0x1_0000_0000,
        span(5) == 0x100_0000_0000,
        span(6) == 0x1_0000_0000_0000,
        span(7) == 0x100_0000_0000_0000,
        span(8) == 0x1_0000_0000_0000_0000,
{
    reveal_with_fuel(span, 10);
}

/// Reads the `width` bytes of `raw` from `start` as one number.
fn read_unsigned(raw: &[u8], start: usize, width: usize) -> (value: u64)
    requires
        width <= 8,
        start + width <= raw.len(),
    ensures
        value == be_unsigned(raw@.subrange(start as int, start + width)),
{
    let mut value: u64 = 0;
    let mut i: usize = 0;
    assert(raw@.subrange(start as int, start as int) =~= Seq::<u8>::empty());
    while i < width
        invariant
            i <= width <= 8,
            start + width <= raw.len(),
            value == be_unsigned(raw@.subrange(start as int, start + i)),
        decreases width - i,
    {
        proof {
            lemma_be_unsigned_bound(raw@.subrange(start as int, start + i));
            lemma_span();
            assert(span(i as nat) <= span(7)) by {
                reveal_with_fuel(span, 10);
            }
            assert(raw@.subrange(start as int, start + i + 1).drop_last() =~= raw@.subrange(
                start as int,
                start + i,
            ));
        }
        value = value * 256 + raw[start + i] as u64;
        i += 1;
    }
    value
}

impl LcdInfo {
    /// The entry `index` of the encoding table.
    pub fn from_properties(properties: &SharedData, index: usize) -> (r: Result<Self, Property>)
        ensures
            match r {
                Ok(info) => spec_lcd_info(properties.inner@, index as nat) == Ok::<LcdInfoView, PropertyView>(
                    info@,
                ),
                Err(e) => spec_lcd_info(properties.inner@, index as nat) == Err::<LcdInfoView, PropertyView>(e@),
            },
    {
        let key = SharedData::lcd_info_encoder_type_key(index);
        let encoder = match extract_value(&properties.inner, key.as_str()) {
            Err(e) => {
                return Err(e);
            },
            Ok(name) => match EncoderType::from_str(name.as_str()) {
                Some(encoder) => encoder,
                None => {
                    return Err(Property::InvalidValue(key));
                },
            },
        };
        let key = SharedData::lcd_info_encoder_scaling_type_key(index);
        let scaling_type = match extract_value(&properties.inner, key.as_str()) {
            Err(e) => {
                return Err(e);
            },
            Ok(name) => match ScalingType::from_str(name.as_str()) {
                Some(scaling_type) => scaling_type,
                None => {
                    return Err(Property::InvalidValue(key));
                },
            },
        };
        let key = SharedData::lcd_info_encoder_scaling_style_key(index);
        let scaling_style = match extract_value(&properties.inner, key.as_str()) {
            Err(e) => {
                return Err(e);
            },
            Ok(name) => match ScalingStyle::from_str(name.as_str()) {
                Some(scaling_style) => scaling_style,
                None => {
                    return Err(Property::InvalidValue(key));
                },
            },
        };
        let key = SharedData::lcd_info_encoder_unit_key(index);
        let unit = match extract_value(&properties.inner, key.as_str()) {
            Err(e) => {
                return Err(e);
            },
            Ok(value) => value.clone(),
        };
        let key = SharedData::lcd_info_encoder_scaling_offset_key(index);
        let offset = match extract_value(&properties.inner, key.as_str()) {
            Err(e) => {
                return Err(e);
            },
            Ok(value) => value.clone(),
        };
        let key = SharedData::lcd_info_encoder_scaling_multiplier_key(index);
        let multiplier = match extract_value(&properties.inner, key.as_str()) {
            Err(e) => {
                return Err(e);
            },
            Ok(value) => value.clone(),
        };
        Ok(Self { encoder, scaling_type, scaling_style, unit, offset, multiplier })
    }

    /// The encoding table that the shared properties describe, or the
    /// first property that is missing or invalid.
    pub fn table(properties: &SharedData) -> (r: Result<Vec<Self>, Property>)
        ensures
            match r {
                Ok(table) => spec_lcd_infos(properties.inner@) == Ok::<Seq<LcdInfoView>, PropertyView>(
                    lcd_views(table@),
                ),
                Err(e) => spec_lcd_infos(properties.inner@) == Err::<Seq<LcdInfoView>, PropertyView>(e@),
            },
    {
        let infos_count = match extract_usize(&properties.inner, LCD_INFOS_COUNT_KEY) {
            Ok(count) => count,
            Err(e) => {
                return Err(e);
            },
        };
        let mut table: Vec<LcdInfo> = Vec::new();
        let mut index: usize = 0;
        assert(Seq::<LcdInfoView>::empty() + spec_lcd_infos_from(properties.inner@, 0, infos_count as nat)->Ok_0
            =~= spec_lcd_infos_from(properties.inner@, 0, infos_count as nat)->Ok_0);
        while index < infos_count
            invariant
                index <= infos_count,
                table.len() == index,
                spec_lcd_infos(properties.inner@) == spec_lcd_infos_from(properties.inner@, 0, infos_count as nat),
                spec_lcd_infos_from(properties.inner@, 0, infos_count as nat) == (match spec_lcd_infos_from(
                    properties.inner@,
                    index as nat,
                    infos_count as nat,
                ) {
                    Ok(more) => Ok::<Seq<LcdInfoView>, PropertyView>(lcd_views(table@) + more),
                    Err(e) => Err(e),
                }),
            decreases infos_count - index,
        {
            let ghost before = lcd_views(table@);
            match Self::from_properties(properties, index) {
                Ok(info) => {
                    table.push(info);
                    proof {
                        let more = spec_lcd_infos_from(properties.inner@, (index + 1) as nat, infos_count as nat);
                        if more is Ok {
                            assert(before + (seq![info@] + more->Ok_0) =~= lcd_views(table@) + more->Ok_0);
                        }
                    }
                },
                Err(e) => {
                    return Err(e);
                },
            }
            index += 1;
        }
        assert(lcd_views(table@) + Seq::<LcdInfoView>::empty() =~= lcd_views(table@));
        Ok(table)
    }

    /// The binary form of a sample.
    pub fn encoder(&self) -> (r: EncoderType)
        ensures
            r == self@.encoder,
    {
        self.encoder
    }

    /// How a sample becomes a physical value.
    pub fn scaling_type(&self) -> (r: ScalingType)
        ensures
            r == self@.scaling_type,
    {
        self.scaling_type
    }

    /// How the scaling is written down.
    pub fn scaling_style(&self) -> (r: ScalingStyle)
        ensures
            r == self@.scaling_style,
    {
        self.scaling_style
    }

    /// The unit of the physical values.
    pub fn unit(&self) -> (r: &String)
        ensures
            r@ == self@.unit,
    {
        &self.unit
    }

    /// The offset of the scaling, as written.
    pub fn offset(&self) -> (r: &String)
        ensures
            r@ == self@.offset,
    {
        &self.offset
    }

    /// The multiplier of the scaling, as written.
    pub fn multiplier(&self) -> (r: &String)
        ensures
            r@ == self@.multiplier,
    {
        &self.multiplier
    }

    /// The samples that `raw` writes, before any scaling.
    pub fn decode_samples(&self, raw: &[u8]) -> (r: Result<Vec<i64>, InvalidDataLength>)
        ensures
            match spec_decode(self@.encoder, raw@) {
                None => r is Err,
                Some(samples) => r matches Ok(found) && found@ == samples,
            },
    {
        let width = self.encoder.width();
        let signed = self.encoder.signed();
        if raw.len() % width != 0 {
            return Err(InvalidDataLength);
        }
        let count = raw.len() / width;
        let ghost samples = spec_decode(self@.encoder, raw@).unwrap();
        let mut found: Vec<i64> = Vec::new();
        let mut k: usize = 0;
        while k < count
            invariant
                k <= count,
                width == self@.encoder.spec_width(),
                signed == self@.encoder.spec_signed(),
                raw.len() % width == 0,
                count == raw.len() / width,
                spec_decode(self@.encoder, raw@) == Some(samples),
                found.len() == k,
                forall|j: int| 0 <= j < k ==> #[trigger] found[j] == samples[j],
            decreases count - k,
        {
            proof {
                vstd::arithmetic::div_mod::lemma_fundamental_div_mod(raw.len() as int, width as int);
                assert((k + 1) * width <= count * width) by (nonlinear_arith)
                    requires
                        k + 1 <= count,
                        width > 0,
                ;
                assert(k * width >= 0) by (nonlinear_arith)
                    requires
                        k >= 0,
                        width > 0,
                ;
                assert((k + 1) * width == k * width + width) by (nonlinear_arith);
            }
            let start = k * width;
            let value = read_unsigned(raw, start, width);
            let ghost bytes = raw@.subrange(start as int, start + width);
            proof {
                lemma_be_unsigned_bound(bytes);
                lemma_span();
                assert(samples[k as int] == sample(self@.encoder, bytes) as i64);
            }
            let half: u64 = if width == 2 {
                0x8000
            } else if width == 4 {
                0x8000_0000
            } else {
                0x8000_0000_0000_0000
            };
            let least: i64 = if width == 2 {
                -0x8000
            } else if width == 4 {
                -0x8000_0000
            } else {
                i64::MIN
            };
            let decoded: i64 = if signed && value >= half {
                (value - half) as i64 + least
            } else {
                value as i64
            };
            assert(decoded == sample(self@.encoder, bytes));
            found.push(decoded);
            k += 1;
        }
        assert(found@ =~= samples);
        Ok(found)
    }
}

} // verus!
