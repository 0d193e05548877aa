use kotone::wav::{encode_wav, parse_wav, wav_error_message, WavError};

#[test]
fn read_wav_rejects_non_wav() {
    assert_eq!(parse_wav(b"not a wav"), Err(WavError::NotRiff));
}

#[test]
fn wav_roundtrip_keeps_samples() {
    let samples: Vec<i16> = (0..1600).map(|i| (i * 41 - 32768) as i16).collect();
    let bytes = encode_wav(&samples);
    assert_eq!(bytes.len(), 44 + 3200);
    assert_eq!(&bytes[0..4], b"RIFF");
    assert_eq!(&bytes[36..40], b"data");
    assert_eq!(parse_wav(&bytes).unwrap(), samples);
    assert_eq!(parse_wav(&encode_wav(&[])).unwrap(), Vec::<i16>::new());
}

#[test]
fn wav_format_is_checked() {
    let mut bytes = encode_wav(&[1, -1]);
    bytes[22] = 2; // two channels
    assert_eq!(
        parse_wav(&bytes),
        Err(WavError::Unsupported {
            format: 1,
            channels: 2,
            bits: 16
        })
    );
    let header_only = &encode_wav(&[])[..36];
    assert_eq!(parse_wav(header_only), Err(WavError::MissingData));
    let mut no_fmt = encode_wav(&[5]);
    no_fmt[12] = b'x';
    assert_eq!(parse_wav(&no_fmt), Err(WavError::MissingFmt));
    let mut short_fmt = encode_wav(&[5]);
    short_fmt[16] = 8;
    assert_eq!(parse_wav(&short_fmt), Err(WavError::FmtTooShort));
}

#[test]
fn wav_messages() {
    assert_eq!(
        wav_error_message(WavError::NotRiff, "a.wav"),
        "不是有效的 RIFF/WAVE 文件：a.wav"
    );
    assert_eq!(
        wav_error_message(
            WavError::Unsupported {
                format: 3,
                channels: 2,
                bits: 32
            },
            "x"
        ),
        "仅支持 16bit PCM mono wav（format=3 channels=2 bits=32）"
    );
}
