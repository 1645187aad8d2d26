//! Sample formats: those that the decoder delivers, those that the sound device takes, and how
//! one is brought into the other.
use vstd::prelude::*;

verus! {

/// A sample format of a sound device.
#[derive(PartialEq, Eq, Structural, Debug, Clone, Copy)]
pub enum SampleFormat {
    I8,
    I16,
    I32,
    I64,
    U8,
    U16,
    U32,
    U64,
    F32,
    F64,
}

/// Whether the channels of a frame are interleaved or lie one after the other.
#[derive(PartialEq, Eq, Structural, Debug, Clone, Copy)]
pub enum Packing {
    Packed,
    Planar,
}

/// A sample format of the decoder.
#[derive(PartialEq, Eq, Structural, Debug, Clone, Copy)]
pub enum Sample {
    Unknown,
    U8(Packing),
    I16(Packing),
    I32(Packing),
    I64(Packing),
    F32(Packing),
    F64(Packing),
}

/// What is wanted of the audio that goes to the device.
#[derive(PartialEq, Eq, Structural, Debug, Clone, Copy)]
pub struct CpalParameters {
    pub format: SampleFormat,
    pub rate: u32,
    pub channels: u16,
}

/// What the decoder delivers.
#[derive(PartialEq, Eq, Structural, Debug, Clone, Copy)]
pub struct DecodedAudio {
    pub format: Sample,
    pub rate: u32,
    pub channels: u32,
}

/// How decoded audio is brought to the device.
#[derive(PartialEq, Eq, Structural, Debug, Clone, Copy)]
pub struct AudioOutputPlan {
    /// The format that the device is opened with.
    pub device_format: SampleFormat,
    /// The format that frames have in the queue.
    pub frame_format: Sample,
    /// The number of channels that the device is opened with.
    pub channels: u16,
    /// The sample rate that the device is opened with.
    pub rate: u32,
    /// Whether the decoder's frames have to be resampled.
    pub resample: bool,
    /// The bytes that one sample of all the decoder's channels takes.
    pub bytes_per_sample: usize,
    /// The sample rate by which positions within a frame are told.
    pub sample_rate: u32,
}

impl SampleFormat {
    /// Whether the decoder's side knows the format too.
    pub open spec fn is_known(self) -> bool {
        match self {
            SampleFormat::I8 | SampleFormat::U16 | SampleFormat::U32 | SampleFormat::U64 => false,
            _ => true,
        }
    }

    /// The bytes that one sample of one channel takes.
    pub open spec fn width(self) -> nat {
        match self {
            SampleFormat::I8 | SampleFormat::U8 => 1,
            SampleFormat::I16 | SampleFormat::U16 => 2,
            SampleFormat::I32 | SampleFormat::U32 | SampleFormat::F32 => 4,
            SampleFormat::I64 | SampleFormat::U64 | SampleFormat::F64 => 8,
        }
    }

    /// The packed format of the decoder that holds the same samples.
    pub open spec fn packed(self) -> Sample {
        match self {
            SampleFormat::U8 => Sample::U8(Packing::Packed),
            SampleFormat::I16 => Sample::I16(Packing::Packed),
            SampleFormat::I32 => Sample::I32(Packing::Packed),
            SampleFormat::I64 => Sample::I64(Packing::Packed),
            SampleFormat::F32 => Sample::F32(Packing::Packed),
            SampleFormat::F64 => Sample::F64(Packing::Packed),
            _ => Sample::Unknown,
        }
    }

    /// Whether the decoder's side knows the format too.
    pub fn has_packed_sample(self) -> (known: bool)
        ensures
            known == self.is_known(),
    {
        match self {
            SampleFormat::I8 | SampleFormat::U16 | SampleFormat::U32 | SampleFormat::U64 => false,
            _ => true,
        }
    }

    /// The packed format of the decoder that holds the same samples.
    pub fn to_packed_sample(self) -> (sample: Sample)
        requires
            self.is_known(),
        ensures
            sample == self.packed(),
    {
        match self {
            SampleFormat::U8 => Sample::U8(Packing::Packed),
            SampleFormat::I16 => Sample::I16(Packing::Packed),
            SampleFormat::I32 => Sample::I32(Packing::Packed),
            SampleFormat::I64 => Sample::I64(Packing::Packed),
            SampleFormat::F32 => Sample::F32(Packing::Packed),
            SampleFormat::F64 => Sample::F64(Packing::Packed),
            _ => Sample::Unknown,
        }
    }
}

impl Sample {
    /// The format of the device that holds the same samples.
    pub open spec fn device_format(self) -> SampleFormat {
        match self {
            Sample::Unknown => arbitrary(),
            Sample::U8(_) => SampleFormat::U8,
            Sample::I16(_) => SampleFormat::I16,
            Sample::I32(_) => SampleFormat::I32,
            Sample::I64(_) => SampleFormat::I64,
            Sample::F32(_) => SampleFormat::F32,
            Sample::F64(_) => SampleFormat::F64,
        }
    }

    /// The format of the device that holds the same samples.
    pub fn to_device_format(self) -> (format: SampleFormat)
        requires
            self != Sample::Unknown,
        ensures
            format == self.device_format(),
    {
        match self {
            Sample::U8(_) => SampleFormat::U8,
            Sample::I16(_) => SampleFormat::I16,
            Sample::I32(_) => SampleFormat::I32,
            Sample::I64(_) => SampleFormat::I64,
            Sample::F32(_) => SampleFormat::F32,
            _ => SampleFormat::F64,
        }
    }

    /// The bytes that one sample of one channel takes.
    pub open spec fn width(self) -> nat {
        match self {
            Sample::Unknown => 0,
            _ => self.device_format().width(),
        }
    }

    /// The bytes that one sample of one channel takes.
    pub fn bytes(self) -> (bytes: usize)
        ensures
            bytes == self.width(),
            bytes <= 8,
    {
        match self {
            Sample::Unknown => 0,
            Sample::U8(_) => 1,
            Sample::I16(_) => 2,
            Sample::I32(_) => 4,
            Sample::I64(_) => 8,
            Sample::F32(_) => 4,
            Sample::F64(_) => 8,
        }
    }
}

/// The format that the device is opened with: the one that is wanted, else the decoder's own.
pub open spec fn chosen_format(
    decoded: DecodedAudio,
    output_format: Option<CpalParameters>,
) -> SampleFormat {
    match output_format {
        Some(wanted) => wanted.format,
        None => decoded.format.device_format(),
    }
}

impl AudioOutputPlan {
    /// Whether this brings what is decoded to the device in the way that is wanted: whatever is
    /// not wanted otherwise stays as the decoder delivers it, but for planar samples, which the
    /// device does not take.
    pub open spec fn serves(
        self,
        decoded: DecodedAudio,
        output_format: Option<CpalParameters>,
    ) -> bool {
        &&& self.device_format == chosen_format(decoded, output_format)
        &&& self.frame_format == self.device_format.packed()
        &&& match output_format {
            Some(wanted) => self.channels == wanted.channels && self.rate == wanted.rate,
            None => self.channels == decoded.channels as u16 && self.rate == decoded.rate,
        }
        &&& self.resample == !(self.frame_format == decoded.format && self.rate == decoded.rate
            && self.channels == decoded.channels)
        &&& self.bytes_per_sample == self.device_format.width() * decoded.channels
        &&& self.sample_rate == decoded.rate
    }
}

/// Decides how decoded audio is brought to the device.
pub fn create_audio_output(
    decoded: DecodedAudio,
    output_format: Option<CpalParameters>,
) -> (plan: AudioOutputPlan)
    requires
        decoded.format != Sample::Unknown,
        chosen_format(decoded, output_format).is_known(),
        chosen_format(decoded, output_format).width() * decoded.channels <= usize::MAX,
    ensures
        plan.serves(decoded, output_format),
{
    let own_format = decoded.format.to_device_format();
    let device_format = match output_format {
        Some(wanted) => wanted.format,
        None => own_format,
    };
    let frame_format = device_format.to_packed_sample();
    let (channels, rate): (u16, u32) = match output_format {
        Some(wanted) => (wanted.channels, wanted.rate),
        None => (
            #[verifier::truncate]
            (decoded.channels as u16),
            decoded.rate,
        ),
    };
    let resample = frame_format != decoded.format || rate != decoded.rate || channels as u32
        != decoded.channels;
    AudioOutputPlan {
        device_format,
        frame_format,
        channels,
        rate,
        resample,
        bytes_per_sample: frame_format.bytes() * decoded.channels as usize,
        sample_rate: decoded.rate,
    }
}

/// The quotient cut towards zero.
pub open spec fn quotient(a: int, b: int) -> int {
    if a >= 0 {
        a / b
    } else {
        -((-a) / b)
    }
}

/// The timestamp, in milliseconds, of a decoded frame as the resampler wants it: in units of both
/// sample rates together.
///
/// The steps come in this order to keep the numbers small while losing little precision.
pub open spec fn to_resampler(pts: int, input_rate: int, output_rate: int) -> int {
    quotient(pts * input_rate, 1000) * output_rate
}

/// A timestamp of the resampler in milliseconds.
pub open spec fn from_resampler(pts: int, input_rate: int, output_rate: int) -> int {
    quotient(quotient(pts, output_rate) * 1000, input_rate)
}

/// The timestamp of a decoded frame as the resampler wants it.
pub fn resampler_input_pts(pts: i64, input_rate: u32, output_rate: u32) -> (scaled: i64)
    requires
        i64::MIN <= pts * input_rate <= i64::MAX,
        i64::MIN <= to_resampler(pts as int, input_rate as int, output_rate as int) <= i64::MAX,
    ensures
        scaled == to_resampler(pts as int, input_rate as int, output_rate as int),
{
    ((pts * input_rate as i64) / 1000) * output_rate as i64
}

/// The timestamp of a resampled frame, in milliseconds, from that of the resampler.
pub fn resampler_output_pts(next_pts: i64, input_rate: u32, output_rate: u32) -> (pts: i64)
    requires
        input_rate > 0,
        output_rate > 0,
        i64::MIN <= quotient(next_pts as int, output_rate as int) * 1000 <= i64::MAX,
    ensures
        pts == from_resampler(next_pts as int, input_rate as int, output_rate as int),
{
    ((next_pts / output_rate as i64) * 1000) / input_rate as i64
}

/// Planar samples are always brought into packed form.
pub proof fn law_planar_is_resampled(
    decoded: DecodedAudio,
    output_format: Option<CpalParameters>,
    plan: AudioOutputPlan,
)
    requires
        plan.serves(decoded, output_format),
        match decoded.format {
            Sample::U8(packing) => packing == Packing::Planar,
            Sample::I16(packing) => packing == Packing::Planar,
            Sample::I32(packing) => packing == Packing::Planar,
            Sample::I64(packing) => packing == Packing::Planar,
            Sample::F32(packing) => packing == Packing::Planar,
            Sample::F64(packing) => packing == Packing::Planar,
            Sample::Unknown => false,
        },
    ensures
        plan.resample,
{
}

/// A decoder that delivers packed samples is not resampled if nothing else is wanted.
pub proof fn law_own_format_needs_no_resampling(decoded: DecodedAudio, plan: AudioOutputPlan)
    requires
        plan.serves(decoded, None),
        decoded.format == decoded.format.device_format().packed(),
        decoded.format != Sample::Unknown,
        decoded.channels <= u16::MAX,
    ensures
        !plan.resample,
{
}

/// The bytes of one sample of all channels hold a whole number of the device's samples.
pub proof fn law_frames_hold_whole_samples(
    decoded: DecodedAudio,
    output_format: Option<CpalParameters>,
    plan: AudioOutputPlan,
)
    requires
        plan.serves(decoded, output_format),
    ensures
        plan.bytes_per_sample as int % plan.device_format.width() as int == 0,
{
    vstd::arithmetic::div_mod::lemma_mod_multiples_basic(
        decoded.channels as int,
        plan.device_format.width() as int,
    );
}

/// What goes through the resampler unchanged keeps its timestamp, but for the rounding towards
/// zero: no more than one millisecond is lost at input rates from 1000 on.
pub proof fn law_resampler_keeps_time(pts: int, input_rate: int, output_rate: int)
    requires
        input_rate >= 1000,
        output_rate > 0,
    ensures
        ({
            let back = from_resampler(
                to_resampler(pts, input_rate, output_rate),
                input_rate,
                output_rate,
            );
            if pts >= 0 {
                pts - 1 <= back <= pts
            } else {
                pts <= back <= pts + 1
            }
        }),
{
    if pts >= 0 {
        lemma_resampler_keeps_time(pts, input_rate, output_rate);
    } else {
        lemma_resampler_keeps_time(-pts, input_rate, output_rate);
        assert((-pts) * input_rate == -(pts * input_rate)) by (nonlinear_arith);
        let whole = quotient(pts * input_rate, 1000);
        assert((-whole) * output_rate == -(whole * output_rate)) by (nonlinear_arith);
    }
}

proof fn lemma_resampler_keeps_time(pts: int, input_rate: int, output_rate: int)
    requires
        pts >= 0,
        input_rate >= 1000,
        output_rate > 0,
    ensures
        pts - 1 <= from_resampler(
            to_resampler(pts, input_rate, output_rate),
            input_rate,
            output_rate,
        ) <= pts,
{
    let units = pts * input_rate;
    assert(units >= 0) by (nonlinear_arith)
        requires
            pts >= 0,
            input_rate >= 1000,
            units == pts * input_rate,
    ;
    let whole = units / 1000;
    assert(whole * output_rate >= 0) by (nonlinear_arith)
        requires
            whole >= 0,
            output_rate > 0,
    ;
    vstd::arithmetic::div_mod::lemma_div_multiples_vanish(whole, output_rate);
    vstd::arithmetic::mul::lemma_mul_is_commutative(whole, output_rate);
    let back = (whole * 1000) / input_rate;
    vstd::arithmetic::div_mod::lemma_fundamental_div_mod(whole * 1000, input_rate);
    let rest = (whole * 1000) % input_rate;
    assert(pts - 1 <= back <= pts) by (nonlinear_arith)
        requires
            input_rate >= 1000,
            pts * input_rate - 999 <= whole * 1000 <= pts * input_rate,
            whole * 1000 == input_rate * back + rest,
            0 <= rest < input_rate,
    ;
}

/// The resampler's timestamps count seconds divided by both rates, whichever these are: a whole
/// number of seconds goes in as that many times both rates, and comes out as that many times a
/// thousand milliseconds.
pub proof fn law_resampler_counts_in_both_rates(seconds: int, input_rate: int, output_rate: int)
    requires
        input_rate > 0,
        output_rate > 0,
    ensures
        to_resampler(1000 * seconds, input_rate, output_rate) == seconds * input_rate * output_rate,
        from_resampler(seconds * input_rate * output_rate, input_rate, output_rate) == 1000
            * seconds,
{
    let size = if seconds >= 0 {
        seconds
    } else {
        -seconds
    };
    let whole = size * input_rate;
    assert(whole >= 0 && (1000 * size) * input_rate == 1000 * whole) by (nonlinear_arith)
        requires
            size >= 0,
            input_rate > 0,
            whole == size * input_rate,
    ;
    law_resampler_rounds_input(1000 * size, input_rate, output_rate, whole);
    let scaled = whole * output_rate;
    assert(whole * output_rate <= scaled < (whole + 1) * output_rate && scaled >= 0)
        by (nonlinear_arith)
        requires
            whole >= 0,
            output_rate > 0,
            scaled == whole * output_rate,
    ;
    law_resampler_rounds_output(scaled, input_rate, output_rate, whole);
    let back = from_resampler(scaled, input_rate, output_rate);
    assert(back == 1000 * size) by (nonlinear_arith)
        requires
            input_rate > 0,
            whole == size * input_rate,
            back * input_rate <= whole * 1000 < (back + 1) * input_rate,
    ;
    if seconds < 0 {
        law_resampler_mirrors_time(1000 * size, input_rate, output_rate);
        law_resampler_mirrors_time(scaled, input_rate, output_rate);
        assert(seconds * input_rate * output_rate == -scaled) by (nonlinear_arith)
            requires
                seconds == -size,
                scaled == size * input_rate * output_rate,
        ;
        assert(1000 * seconds == -(1000 * size));
    }
}

/// A timestamp goes into the resampler as the number of the input's samples before it, rounded
/// down, times the output's rate.
pub proof fn law_resampler_rounds_input(
    pts: int,
    input_rate: int,
    output_rate: int,
    samples: int,
)
    requires
        pts >= 0,
        input_rate > 0,
        samples * 1000 <= pts * input_rate < (samples + 1) * 1000,
    ensures
        to_resampler(pts, input_rate, output_rate) == samples * output_rate,
{
    assert(pts * input_rate >= 0) by (nonlinear_arith)
        requires
            pts >= 0,
            input_rate > 0,
    ;
}

/// A timestamp comes out of the resampler as the milliseconds, rounded down, that the input's
/// samples before it take, these rounded down too.
pub proof fn law_resampler_rounds_output(
    pts: int,
    input_rate: int,
    output_rate: int,
    samples: int,
)
    requires
        pts >= 0,
        input_rate > 0,
        output_rate > 0,
        samples * output_rate <= pts < (samples + 1) * output_rate,
    ensures
        ({
            let millis = from_resampler(pts, input_rate, output_rate);
            millis * input_rate <= samples * 1000 < (millis + 1) * input_rate
        }),
{
    let rest = pts - samples * output_rate;
    assert(pts == samples * output_rate + rest && 0 <= rest < output_rate) by (nonlinear_arith)
        requires
            rest == pts - samples * output_rate,
            samples * output_rate <= pts < (samples + 1) * output_rate,
    ;
    vstd::arithmetic::div_mod::lemma_fundamental_div_mod_converse(pts, output_rate, samples, rest);
    assert(samples >= 0) by (nonlinear_arith)
        requires
            pts >= 0,
            output_rate > 0,
            pts < (samples + 1) * output_rate,
    ;
    let millis = samples * 1000 / input_rate;
    vstd::arithmetic::div_mod::lemma_fundamental_div_mod(samples * 1000, input_rate);
    assert(millis * input_rate <= samples * 1000 < (millis + 1) * input_rate)
        by (nonlinear_arith)
        requires
            samples * 1000 == input_rate * millis + (samples * 1000) % input_rate,
            0 <= (samples * 1000) % input_rate < input_rate,
    ;
}

/// Times before zero are treated like those after it.
pub proof fn law_resampler_mirrors_time(pts: int, input_rate: int, output_rate: int)
    requires
        input_rate > 0,
        output_rate > 0,
    ensures
        to_resampler(-pts, input_rate, output_rate) == -to_resampler(pts, input_rate, output_rate),
        from_resampler(-pts, input_rate, output_rate) == -from_resampler(
            pts,
            input_rate,
            output_rate,
        ),
{
    assert((-pts) * input_rate == -(pts * input_rate)) by (nonlinear_arith);
    let whole = quotient(pts * input_rate, 1000);
    assert(quotient((-pts) * input_rate, 1000) == -whole);
    assert((-whole) * output_rate == -(whole * output_rate)) by (nonlinear_arith);
    assert(quotient(0, output_rate) == 0) by {
        vstd::arithmetic::div_mod::lemma_div_basics(output_rate);
    }
    assert(quotient(0, input_rate) == 0) by {
        vstd::arithmetic::div_mod::lemma_div_basics(input_rate);
    }
}

/// The device is opened as is wanted. If nothing is wanted it is opened with as many channels as
/// the decoder delivers, and at its rate, whether the samples are planar or packed; the number of
/// channels is cut to sixteen bits.
pub proof fn law_device_is_opened_as_wanted(
    decoded: DecodedAudio,
    output_format: Option<CpalParameters>,
    plan: AudioOutputPlan,
)
    requires
        plan.serves(decoded, output_format),
    ensures
        match output_format {
            Some(wanted) => {
                &&& plan.device_format == wanted.format
                &&& plan.channels == wanted.channels
                &&& plan.rate == wanted.rate
            },
            None => {
                &&& plan.rate == decoded.rate
                &&& (decoded.channels - plan.channels) % 0x1_0000 == 0
                &&& decoded.channels <= u16::MAX ==> plan.channels == decoded.channels
                &&& decoded.channels <= u16::MAX && decoded.format != Sample::Unknown
                    ==> plan.bytes_per_sample == decoded.format.width() * plan.channels
            },
        },
        plan.sample_rate == decoded.rate,
{
    let channels = decoded.channels;
    assert(channels as u16 == channels % 0x1_0000) by (bit_vector);
}

/// The frames in the queue hold the device's samples, and the decoder's frames go there as they
/// are exactly if they have that form, and the device's rate and number of channels.
pub proof fn law_resampled_exactly_if_different(
    decoded: DecodedAudio,
    output_format: Option<CpalParameters>,
    plan: AudioOutputPlan,
)
    requires
        plan.serves(decoded, output_format),
        plan.device_format.is_known(),
    ensures
        plan.frame_format.device_format() == plan.device_format,
        plan.frame_format != Sample::Unknown,
        plan.bytes_per_sample == plan.frame_format.width() * decoded.channels,
        plan.resample <==> plan.frame_format != decoded.format || plan.rate != decoded.rate
            || plan.channels != decoded.channels,
{
}

/// Both sides' formats hold the same samples where they have the same name, packed or planar, and
/// only packed ones go to the device.
pub proof fn law_formats_correspond(packing: Packing)
    ensures
        Sample::U8(packing).device_format() == SampleFormat::U8,
        Sample::I16(packing).device_format() == SampleFormat::I16,
        Sample::I32(packing).device_format() == SampleFormat::I32,
        Sample::I64(packing).device_format() == SampleFormat::I64,
        Sample::F32(packing).device_format() == SampleFormat::F32,
        Sample::F64(packing).device_format() == SampleFormat::F64,
        SampleFormat::U8.packed() == Sample::U8(Packing::Packed),
        SampleFormat::I16.packed() == Sample::I16(Packing::Packed),
        SampleFormat::I32.packed() == Sample::I32(Packing::Packed),
        SampleFormat::I64.packed() == Sample::I64(Packing::Packed),
        SampleFormat::F32.packed() == Sample::F32(Packing::Packed),
        SampleFormat::F64.packed() == Sample::F64(Packing::Packed),
{
}

/// A format of the device is known to the decoder exactly if some format of the decoder holds the
/// same samples. Both then take as many bytes.
pub proof fn law_known_formats(format: SampleFormat)
    ensures
        format.is_known() ==> {
            &&& format.packed() != Sample::Unknown
            &&& format.packed().device_format() == format
            &&& format.packed().width() == format.width()
        },
        !format.is_known() ==> forall|sample: Sample|
            sample != Sample::Unknown ==> #[trigger] sample.device_format() != format,
{
}

/// A sample takes as many bits as its format's name says.
pub proof fn law_sample_widths(packing: Packing)
    ensures
        8 * SampleFormat::I8.width() == 8,
        8 * SampleFormat::I16.width() == 16,
        8 * SampleFormat::I32.width() == 32,
        8 * SampleFormat::I64.width() == 64,
        8 * SampleFormat::U8.width() == 8,
        8 * SampleFormat::U16.width() == 16,
        8 * SampleFormat::U32.width() == 32,
        8 * SampleFormat::U64.width() == 64,
        8 * SampleFormat::F32.width() == 32,
        8 * SampleFormat::F64.width() == 64,
        8 * Sample::U8(packing).width() == 8,
        8 * Sample::I16(packing).width() == 16,
        8 * Sample::I32(packing).width() == 32,
        8 * Sample::I64(packing).width() == 64,
        8 * Sample::F32(packing).width() == 32,
        8 * Sample::F64(packing).width() == 64,
        Sample::Unknown.width() == 0,
{
}

} // verus!
