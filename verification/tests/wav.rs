use audio_friend::wav::{encode_wav, fits_wav, WAV_HEADER_LEN};

fn number(bytes: &[u8]) -> u64 {
    bytes.iter().rev().fold(0, |n, b| n * 256 + *b as u64)
}

#[test]
fn a_small_file_byte_by_byte() {
    let file = encode_wav(&vec![1, -2], 48_000);
    let expected: Vec<u8> = vec![
        b'R', b'I', b'F', b'F', 40, 0, 0, 0, b'W', b'A', b'V', b'E', b'f', b'm', b't', b' ', 16, 0,
        0, 0, 1, 0, 1, 0, 0x80, 0xbb, 0, 0, 0, 0x77, 1, 0, 2, 0, 16, 0, b'd', b'a', b't', b'a', 4,
        0, 0, 0, 1, 0, 0xfe, 0xff,
    ];
    assert_eq!(file, expected);
}

#[test]
fn an_empty_file_is_a_header() {
    let file = encode_wav(&Vec::new(), 8_000);
    assert_eq!(file.len(), WAV_HEADER_LEN);
    assert_eq!(number(&file[4..8]), 36);
    assert_eq!(number(&file[40..44]), 0);
}

#[test]
fn format_and_lengths_can_be_read_back() {
    for rate in [1u32, 8_000, 44_100, 48_000, 192_000, u32::MAX / 2] {
        let samples: Vec<i16> = (0..1_000).map(|i| i as i16).collect();
        let file = encode_wav(&samples, rate);
        assert_eq!(number(&file[4..8]), file.len() as u64 - 8);
        assert_eq!(number(&file[16..20]), 16);
        assert_eq!(number(&file[20..22]), 1);
        assert_eq!(number(&file[22..24]), 1);
        assert_eq!(number(&file[24..28]), rate as u64);
        assert_eq!(number(&file[28..32]), 2 * rate as u64);
        assert_eq!(number(&file[32..34]), 2);
        assert_eq!(number(&file[34..36]), 16);
        assert_eq!(number(&file[40..44]), 2_000);
        assert_eq!(file.len(), 2_044);
    }
}

#[test]
fn every_sample_can_be_read_back() {
    let samples: Vec<i16> = (i16::MIN..=i16::MAX).collect();
    let file = encode_wav(&samples, 48_000);
    for (i, sample) in samples.iter().enumerate() {
        let at = WAV_HEADER_LEN + 2 * i;
        assert_eq!(i16::from_le_bytes([file[at], file[at + 1]]), *sample);
    }
}

#[test]
fn files_fit_while_their_header_does() {
    assert!(fits_wav(0, 48_000));
    assert!(fits_wav(48_000 * 60, 48_000));
    assert!(fits_wav(10, u32::MAX / 2));
    assert!(!fits_wav(10, u32::MAX / 2 + 1));
    assert!(fits_wav((1 << 31) - 19, 48_000));
    assert!(!fits_wav((1 << 31) - 18, 48_000));
    assert!(!fits_wav((1 << 31) - 1, 48_000));
    assert!(fits_wav(1 << 31, 48_000));
    assert!(!fits_wav(usize::MAX, 48_000));
}
