use std::io::Cursor;

use biquad::{Coefficients, Q_BUTTERWORTH_F32, ToHertz, Type};

use brown_noise::filter::LowPassFilter;
use brown_noise::noise::NoiseSource;
use brown_noise::pipeline::Pipeline;
use brown_noise::wav::{decode_wav, encode_wav};

/// Butterworth low-pass coefficients quantized to the library's Q14
/// fixed point.
fn butterworth(cutoff_hz: f32, sample_rate: u32) -> LowPassFilter {
    let coeffs = Coefficients::<f32>::from_params(
        Type::LowPass,
        sample_rate.hz(),
        cutoff_hz.hz(),
        Q_BUTTERWORTH_F32,
    )
    .unwrap();
    let q = |x: f32| (x * 16384.0).round() as i64;
    LowPassFilter::new(q(coeffs.b0), q(coeffs.b1), q(coeffs.b2), q(coeffs.a1), q(coeffs.a2))
        .unwrap()
}

#[test]
fn encoded_header_bytes_are_canonical() {
    let bytes = encode_wav(8000, &vec![0i16, -1]);
    assert_eq!(bytes.len(), 48);
    assert_eq!(&bytes[0..4], b"RIFF");
    assert_eq!(&bytes[4..8], &[40, 0, 0, 0]);
    assert_eq!(&bytes[8..12], b"WAVE");
    assert_eq!(&bytes[12..16], b"fmt ");
    assert_eq!(&bytes[16..20], &[16, 0, 0, 0]);
    assert_eq!(&bytes[20..22], &[1, 0]);
    assert_eq!(&bytes[22..24], &[1, 0]);
    assert_eq!(&bytes[24..28], &[0x40, 0x1F, 0, 0]);
    assert_eq!(&bytes[28..32], &[0x80, 0x3E, 0, 0]);
    assert_eq!(&bytes[32..34], &[2, 0]);
    assert_eq!(&bytes[34..36], &[16, 0]);
    assert_eq!(&bytes[36..40], b"data");
    assert_eq!(&bytes[40..44], &[4, 0, 0, 0]);
    assert_eq!(&bytes[44..48], &[0, 0, 0xFF, 0xFF]);
}

#[test]
fn wav_round_trip_through_own_decoder() {
    let samples = vec![0i16, 1, -1, 32767, -32768, 1234, -4321];
    let bytes = encode_wav(44100, &samples);
    let (rate, back) = decode_wav(&bytes).unwrap();
    assert_eq!(rate, 44100);
    assert_eq!(back, samples);
}

#[test]
fn wav_round_trip_through_conforming_reader() {
    let samples = vec![17i16, -17, 32767, -32768, 0];
    let bytes = encode_wav(22050, &samples);
    let mut reader = hound::WavReader::new(Cursor::new(bytes)).unwrap();
    let spec = reader.spec();
    assert_eq!(spec.channels, 1);
    assert_eq!(spec.sample_rate, 22050);
    assert_eq!(spec.bits_per_sample, 16);
    assert_eq!(spec.sample_format, hound::SampleFormat::Int);
    let back: Vec<i16> = reader.samples::<i16>().map(|s| s.unwrap()).collect();
    assert_eq!(back, samples);
}

#[test]
fn decoder_accepts_conforming_writer_output() {
    let samples = vec![5i16, -6, 700, -800];
    let spec = hound::WavSpec {
        channels: 1,
        sample_rate: 8000,
        bits_per_sample: 16,
        sample_format: hound::SampleFormat::Int,
    };
    let mut cursor = Cursor::new(Vec::new());
    {
        let mut writer = hound::WavWriter::new(&mut cursor, spec).unwrap();
        for &s in &samples {
            writer.write_sample(s).unwrap();
        }
        writer.finalize().unwrap();
    }
    let bytes = cursor.into_inner();
    let (rate, back) = decode_wav(&bytes).unwrap();
    assert_eq!(rate, 8000);
    assert_eq!(back, samples);
}

#[test]
fn decoder_rejects_mangled_bytes() {
    let bytes = encode_wav(8000, &vec![1i16, 2, 3]);
    assert!(decode_wav(&vec![]).is_none());
    let mut truncated = bytes.clone();
    truncated.pop();
    assert!(decode_wav(&truncated).is_none());
    let mut wrong_magic = bytes.clone();
    wrong_magic[0] = b'X';
    assert!(decode_wav(&wrong_magic).is_none());
}

#[test]
fn end_to_end_seeded_run_writes_expected_container() {
    let filter = butterworth(900.0, 8000);
    let mut src = NoiseSource::new(20260101);
    let bytes = Pipeline::render_wav(&mut src, 1, 8000, &filter).unwrap();
    let mut reader = hound::WavReader::new(Cursor::new(bytes)).unwrap();
    let spec = reader.spec();
    assert_eq!(spec.channels, 1);
    assert_eq!(spec.sample_rate, 8000);
    assert_eq!(spec.bits_per_sample, 16);
    assert_eq!(reader.duration(), 8000);
    let samples: Vec<i16> = reader.samples::<i16>().map(|s| s.unwrap()).collect();
    assert_eq!(samples.len(), 8000);
}

#[test]
fn end_to_end_zero_duration_still_yields_valid_container() {
    let filter = butterworth(900.0, 8000);
    let mut src = NoiseSource::new(3);
    let bytes = Pipeline::render_wav(&mut src, 0, 8000, &filter).unwrap();
    let (rate, samples) = decode_wav(&bytes).unwrap();
    assert_eq!(rate, 8000);
    assert!(samples.is_empty());
    let mut reader = hound::WavReader::new(Cursor::new(bytes)).unwrap();
    assert_eq!(reader.spec().sample_rate, 8000);
    assert_eq!(reader.samples::<i16>().count(), 0);
}

#[test]
fn pipeline_stages_cohere() {
    let filter = butterworth(900.0, 8000);
    let mut src = NoiseSource::new(5);
    let out = Pipeline::run(&mut src, 1, 8000, &filter).unwrap();
    assert_eq!(out.brown.len(), 8000);
    assert_eq!(out.filtered.len(), 8000);
    assert_eq!(out.warble_first.len(), 8000);
    assert_eq!(out.warble_second.len(), 8000);
    assert_eq!(out.mixed.len(), 8000);
    // Before the second pass's start offset the chained pass leaves the
    // first pass's samples unchanged.
    assert_eq!(out.warble_first[..4000], out.warble_second[..4000]);
}
