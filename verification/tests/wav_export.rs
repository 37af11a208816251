use std::io::Cursor;

use wavrec::config::StreamConfiguration;
use wavrec::wav::encode_wav;

fn config(sample_rate: u32) -> StreamConfiguration {
    StreamConfiguration::new(sample_rate, 512)
}

fn read_back(bytes: &[u8]) -> (hound::WavSpec, Vec<i16>) {
    let mut reader = hound::WavReader::new(Cursor::new(bytes)).expect("readable WAV");
    let spec = reader.spec();
    let samples: Vec<i16> = reader.samples::<i16>().map(|s| s.expect("sample")).collect();
    (spec, samples)
}

#[test]
fn round_trip_preserves_count_and_values() {
    let floats: [f32; 5] = [0.0, 0.5, -0.5, 1.0, -1.0];
    let samples: Vec<i16> = floats.iter().map(|s| (s * 32767.0).round() as i16).collect();
    let bytes = encode_wav(&config(44100), &samples);
    let (spec, decoded) = read_back(&bytes);
    assert_eq!(spec.channels, 1);
    assert_eq!(spec.sample_rate, 44100);
    assert_eq!(spec.bits_per_sample, 16);
    assert_eq!(spec.sample_format, hound::SampleFormat::Int);
    assert_eq!(decoded.len(), floats.len());
    assert_eq!(decoded, samples);
}

#[test]
fn round_trip_of_empty_capture() {
    let samples: Vec<i16> = Vec::new();
    let bytes = encode_wav(&config(48000), &samples);
    assert_eq!(bytes.len(), 44);
    let (spec, decoded) = read_back(&bytes);
    assert_eq!(spec.sample_rate, 48000);
    assert_eq!(decoded, samples);
}

#[test]
fn round_trip_of_extreme_samples() {
    let samples: Vec<i16> = vec![i16::MIN, -1, 0, 1, i16::MAX];
    let bytes = encode_wav(&config(8000), &samples);
    let (_, decoded) = read_back(&bytes);
    assert_eq!(decoded, samples);
}

#[test]
fn exporting_twice_is_byte_identical() {
    let samples: Vec<i16> = vec![3, -7, 1000, -32768, 32767, 0];
    let once = encode_wav(&config(44100), &samples);
    let twice = encode_wav(&config(44100), &samples);
    assert_eq!(once, twice);
}

#[test]
fn header_and_data_bytes_are_exact() {
    let samples: Vec<i16> = vec![258, -1];
    let bytes = encode_wav(&config(44100), &samples);
    let expected: Vec<u8> = vec![
        0x52, 0x49, 0x46, 0x46, // "RIFF"
        0x28, 0x00, 0x00, 0x00, // remaining length: 36 + 4
        0x57, 0x41, 0x56, 0x45, // "WAVE"
        0x66, 0x6d, 0x74, 0x20, // "fmt "
        0x10, 0x00, 0x00, 0x00, // fmt chunk length 16
        0x01, 0x00, // integer PCM
        0x01, 0x00, // mono
        0x44, 0xac, 0x00, 0x00, // 44100 Hz
        0x88, 0x58, 0x01, 0x00, // 88200 bytes per second
        0x02, 0x00, // block alignment
        0x10, 0x00, // 16 bits per sample
        0x64, 0x61, 0x74, 0x61, // "data"
        0x04, 0x00, 0x00, 0x00, // data length
        0x02, 0x01, // sample 258
        0xff, 0xff, // sample -1
    ];
    assert_eq!(bytes, expected);
}

#[test]
fn encoding_matches_the_reference_writer() {
    let samples: Vec<i16> = vec![0, 1, -1, 12345, -12345, 32767, -32768];
    let ours = encode_wav(&config(22050), &samples);

    let spec = hound::WavSpec {
        channels: 1,
        sample_rate: 22050,
        bits_per_sample: 16,
        sample_format: hound::SampleFormat::Int,
    };
    let mut theirs: Vec<u8> = Vec::new();
    {
        let mut writer =
            hound::WavWriter::new(Cursor::new(&mut theirs), spec).expect("writer");
        for &s in samples.iter() {
            writer.write_sample(s).expect("write sample");
        }
        writer.finalize().expect("finalize");
    }
    assert_eq!(ours, theirs);
}
