use ffmpeg_player::format::{
    create_audio_output, resampler_input_pts, resampler_output_pts, AudioOutputPlan,
    CpalParameters, DecodedAudio, Packing, Sample, SampleFormat,
};

#[test]
fn packed_audio_is_played_as_it_is() {
    let decoded = DecodedAudio { format: Sample::I16(Packing::Packed), rate: 48000, channels: 2 };
    assert_eq!(
        create_audio_output(decoded, None),
        AudioOutputPlan {
            device_format: SampleFormat::I16,
            frame_format: Sample::I16(Packing::Packed),
            channels: 2,
            rate: 48000,
            resample: false,
            bytes_per_sample: 4,
            sample_rate: 48000,
        }
    );
}

#[test]
fn planar_audio_is_packed() {
    let formats = [
        (Sample::U8(Packing::Planar), Sample::U8(Packing::Packed), SampleFormat::U8, 1),
        (Sample::I16(Packing::Planar), Sample::I16(Packing::Packed), SampleFormat::I16, 2),
        (Sample::I32(Packing::Planar), Sample::I32(Packing::Packed), SampleFormat::I32, 4),
        (Sample::I64(Packing::Planar), Sample::I64(Packing::Packed), SampleFormat::I64, 8),
        (Sample::F32(Packing::Planar), Sample::F32(Packing::Packed), SampleFormat::F32, 4),
        (Sample::F64(Packing::Planar), Sample::F64(Packing::Packed), SampleFormat::F64, 8),
    ];
    for (planar, packed, device, width) in formats {
        let decoded = DecodedAudio { format: planar, rate: 44100, channels: 6 };
        let plan = create_audio_output(decoded, None);
        assert!(plan.resample);
        assert_eq!(plan.frame_format, packed);
        assert_eq!(plan.device_format, device);
        assert_eq!(plan.bytes_per_sample, 6 * width);
        assert_eq!(plan.bytes_per_sample % width, 0);
        assert_eq!(packed.bytes(), width);
    }
    assert_eq!(Sample::Unknown.bytes(), 0);
}

#[test]
fn wanted_format_is_resampled_to() {
    let decoded = DecodedAudio { format: Sample::F32(Packing::Packed), rate: 44100, channels: 2 };
    let wanted = CpalParameters { format: SampleFormat::F32, rate: 48000, channels: 2 };
    let plan = create_audio_output(decoded, Some(wanted));
    assert!(plan.resample);
    assert_eq!(plan.rate, 48000);
    assert_eq!(plan.sample_rate, 44100);

    let wanted = CpalParameters { format: SampleFormat::F32, rate: 44100, channels: 1 };
    let plan = create_audio_output(decoded, Some(wanted));
    assert!(plan.resample);
    assert_eq!(plan.channels, 1);
    assert_eq!(plan.bytes_per_sample, 8);

    let wanted = CpalParameters { format: SampleFormat::I16, rate: 44100, channels: 2 };
    let plan = create_audio_output(decoded, Some(wanted));
    assert!(plan.resample);
    assert_eq!(plan.frame_format, Sample::I16(Packing::Packed));

    let wanted = CpalParameters { format: SampleFormat::F32, rate: 44100, channels: 2 };
    assert!(!create_audio_output(decoded, Some(wanted)).resample);
}

#[test]
fn timestamps_go_through_the_resampler() {
    assert_eq!(resampler_input_pts(1001, 44100, 48000), 44144 * 48000);
    assert_eq!(resampler_output_pts(44144 * 48000, 44100, 48000), 1000);
    assert_eq!(resampler_input_pts(1000, 48000, 44100), 48000 * 44100);
    assert_eq!(resampler_output_pts(48000 * 44100, 48000, 44100), 1000);
    assert_eq!(resampler_input_pts(-1001, 44100, 48000), -44144 * 48000);
    assert_eq!(resampler_output_pts(-44144 * 48000, 44100, 48000), -1000);
    for pts in [0i64, 1, 2, 999, 12345, 3_600_000] {
        let back = resampler_output_pts(resampler_input_pts(pts, 44100, 48000), 44100, 48000);
        assert!(back == pts || back == pts - 1);
    }
}

#[test]
fn decoder_knows_some_device_formats() {
    assert!(SampleFormat::U8.has_packed_sample());
    assert!(SampleFormat::I16.has_packed_sample());
    assert!(SampleFormat::F64.has_packed_sample());
    assert!(!SampleFormat::I8.has_packed_sample());
    assert!(!SampleFormat::U16.has_packed_sample());
    assert!(!SampleFormat::U32.has_packed_sample());
    assert!(!SampleFormat::U64.has_packed_sample());
}
