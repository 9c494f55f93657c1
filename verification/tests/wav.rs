use netmd::types::Wireformat;
use netmd::wav::{atrac3_format, atrac3_info, is_pcm, parse_wav, HeaderProbe};

// A minimal ATRAC3 WAV for a given byte_rate, with a data chunk.
fn make_atrac3_wav(byte_rate: u32, data: &[u8]) -> Vec<u8> {
    let mut v = Vec::new();
    v.extend_from_slice(b"RIFF");
    v.extend_from_slice(&(36u32 + data.len() as u32).to_le_bytes());
    v.extend_from_slice(b"WAVE");
    v.extend_from_slice(b"fmt ");
    v.extend_from_slice(&16u32.to_le_bytes());
    v.extend_from_slice(&0x0270u16.to_le_bytes()); // format tag
    v.extend_from_slice(&2u16.to_le_bytes()); // channels
    v.extend_from_slice(&44100u32.to_le_bytes()); // sample rate
    v.extend_from_slice(&byte_rate.to_le_bytes()); // byte rate
    v.extend_from_slice(&0xC0u16.to_le_bytes()); // block align
    v.extend_from_slice(&0u16.to_le_bytes()); // bits per sample
    v.extend_from_slice(b"data");
    v.extend_from_slice(&(data.len() as u32).to_le_bytes());
    v.extend_from_slice(data);
    v
}

#[test]
fn detects_lp2() {
    let wav = make_atrac3_wav(0x4099, &[0xAA; 16]);
    let (fmt, payload) = atrac3_info(&wav).unwrap();
    assert_eq!(fmt, Wireformat::Lp2);
    assert_eq!(payload, &[0xAA; 16]);
}

#[test]
fn detects_lp4() {
    let wav = make_atrac3_wav(0x204C, &[0xBB; 8]);
    let (fmt, payload) = atrac3_info(&wav).unwrap();
    assert_eq!(fmt, Wireformat::Lp4);
    assert_eq!(payload, &[0xBB; 8]);
}

#[test]
fn rejects_non_atrac3() {
    // PCM file should not be detected as ATRAC3.
    let mut wav = make_atrac3_wav(0x4099, &[0; 8]);
    wav[20] = 0x01;
    wav[21] = 0x00;
    assert!(atrac3_info(&wav).is_none());
}

#[test]
fn header_only_probe_detects_truncated_atrac3() {
    let wav = make_atrac3_wav(0x4099, &[0xAA; 1024]);
    let header = &wav[..12 + 8 + 16 + 4];
    assert_eq!(atrac3_format(header), HeaderProbe::Found(Some(Wireformat::Lp2)));
    assert!(atrac3_info(header).is_none());
}

#[test]
fn header_only_probe_rejects_non_riff() {
    assert_eq!(atrac3_format(b"\x00\x00\x18ftypM4A "), HeaderProbe::NotWav);
    assert_eq!(atrac3_format(&[]), HeaderProbe::NotWav);
}

#[test]
fn header_only_probe_found_non_atrac3_is_definitive() {
    let mut wav = make_atrac3_wav(0x4099, &[0u8; 8]);
    wav[20] = 0x01; // format tag -> PCM
    wav[21] = 0x00;
    assert_eq!(atrac3_format(&wav), HeaderProbe::Found(None));
}

#[test]
fn header_only_probe_inconclusive_when_fmt_past_prefix() {
    let mut v = Vec::new();
    v.extend_from_slice(b"RIFF");
    v.extend_from_slice(&0u32.to_le_bytes());
    v.extend_from_slice(b"WAVE");
    v.extend_from_slice(b"JUNK");
    v.extend_from_slice(&9000u32.to_le_bytes());
    v.extend_from_slice(&vec![0u8; 9000]);
    v.extend_from_slice(b"fmt ");
    v.extend_from_slice(&16u32.to_le_bytes());
    v.extend_from_slice(&0x0270u16.to_le_bytes());
    v.extend_from_slice(&2u16.to_le_bytes());
    v.extend_from_slice(&44100u32.to_le_bytes());
    v.extend_from_slice(&0x4099u32.to_le_bytes());
    v.extend_from_slice(&0xC0u16.to_le_bytes());
    v.extend_from_slice(&0u16.to_le_bytes());
    v.extend_from_slice(b"data");
    v.extend_from_slice(&4u32.to_le_bytes());
    v.extend_from_slice(&[1, 2, 3, 4]);

    let prefix = &v[..8 * 1024];
    assert_eq!(atrac3_format(prefix), HeaderProbe::Inconclusive);
    let (fmt, _) = atrac3_info(&v).unwrap();
    assert_eq!(fmt, Wireformat::Lp2);
}

#[test]
fn handles_fact_chunk() {
    let mut v = Vec::new();
    v.extend_from_slice(b"RIFF");
    v.extend_from_slice(&100u32.to_le_bytes());
    v.extend_from_slice(b"WAVE");
    v.extend_from_slice(b"fmt ");
    v.extend_from_slice(&16u32.to_le_bytes());
    v.extend_from_slice(&0x0270u16.to_le_bytes());
    v.extend_from_slice(&2u16.to_le_bytes());
    v.extend_from_slice(&44100u32.to_le_bytes());
    v.extend_from_slice(&0x4099u32.to_le_bytes());
    v.extend_from_slice(&0xC0u16.to_le_bytes());
    v.extend_from_slice(&0u16.to_le_bytes());
    v.extend_from_slice(b"fact");
    v.extend_from_slice(&8u32.to_le_bytes());
    v.extend_from_slice(&[0u8; 8]);
    v.extend_from_slice(b"data");
    v.extend_from_slice(&4u32.to_le_bytes());
    v.extend_from_slice(&[1, 2, 3, 4]);
    let (fmt, payload) = atrac3_info(&v).unwrap();
    assert_eq!(fmt, Wireformat::Lp2);
    assert_eq!(payload, &[1, 2, 3, 4]);
}

#[test]
fn pcm_wav_is_recognised() {
    let mut wav = make_atrac3_wav(0x4099, &[0; 8]);
    wav[20] = 0x01;
    wav[21] = 0x00;
    assert!(is_pcm(&wav));
    assert!(!is_pcm(&make_atrac3_wav(0x4099, &[0; 8])));
    assert!(parse_wav(b"RIFX").is_err());
}
