use std::io::Cursor;

use transcribe_server::audio::{
    fast_format, pcm16le_samples, wav_fastpath_format, AudioError, WavFastFormat, TARGET_SR,
};

fn wav(sample_rate: u32, channels: u16, bits: u16, format: hound::SampleFormat) -> Vec<u8> {
    let spec = hound::WavSpec { channels, sample_rate, bits_per_sample: bits, sample_format: format };
    let mut cursor = Cursor::new(Vec::new());
    {
        let mut writer = hound::WavWriter::new(&mut cursor, spec).unwrap();
        for k in 0..100 {
            for _ in 0..channels {
                match format {
                    hound::SampleFormat::Int => writer.write_sample(k as i16).unwrap(),
                    hound::SampleFormat::Float => writer.write_sample(k as f32 / 100.0).unwrap(),
                }
            }
        }
        writer.finalize().unwrap();
    }
    cursor.into_inner()
}

#[test]
fn wav_16k_mono_i16_fastpath() {
    let data = wav(TARGET_SR as u32, 1, 16, hound::SampleFormat::Int);
    assert_eq!(wav_fastpath_format(&data), Some(WavFastFormat::Int16));
    let data = wav(TARGET_SR as u32, 1, 32, hound::SampleFormat::Float);
    assert_eq!(wav_fastpath_format(&data), Some(WavFastFormat::Float32));
}

#[test]
fn other_wavs_fall_through_to_libav() {
    assert_eq!(wav_fastpath_format(&wav(44_100, 1, 16, hound::SampleFormat::Int)), None);
    assert_eq!(wav_fastpath_format(&wav(TARGET_SR as u32, 2, 16, hound::SampleFormat::Int)), None);
    assert_eq!(wav_fastpath_format(&wav(TARGET_SR as u32, 1, 24, hound::SampleFormat::Int)), None);
}

#[test]
fn garbage_bytes_are_not_a_fast_path_wav() {
    assert_eq!(wav_fastpath_format(b"not audio"), None);
    assert_eq!(wav_fastpath_format(b"RIFF"), None);
    assert_eq!(wav_fastpath_format(b""), None);
}

#[test]
fn pcm16le_frames_decode_to_samples() {
    assert_eq!(pcm16le_samples(&[0x01, 0x00, 0xff, 0xff, 0x00, 0x80, 0xff, 0x7f]), Some(vec![1, -1, -32768, 32767]));
    assert_eq!(pcm16le_samples(&[]), Some(vec![]));
    assert_eq!(pcm16le_samples(&[0, 1, 2]), None);
}

#[test]
fn audio_errors_display_with_their_cause() {
    assert_eq!(AudioError::Decode("no audio stream".into()).message(), "unsupported or corrupt audio: no audio stream");
}

#[test]
fn only_16k_mono_i16_or_f32_headers_take_the_fast_path() {
    assert_eq!(fast_format(Some((16_000, 1, 16, false))), Some(WavFastFormat::Int16));
    assert_eq!(fast_format(Some((16_000, 1, 32, true))), Some(WavFastFormat::Float32));
    assert_eq!(fast_format(Some((16_000, 1, 32, false))), None);
    assert_eq!(fast_format(Some((16_000, 1, 16, true))), None);
    assert_eq!(fast_format(Some((8_000, 1, 16, false))), None);
    assert_eq!(fast_format(Some((16_000, 2, 16, false))), None);
    assert_eq!(fast_format(None), None);
}
