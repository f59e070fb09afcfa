use omni::recording::{
    push_i16, push_u16_as_i16, select_input_device, sizes_fit, wav_bytes, FinishedRecording,
    RecordingConfig,
};

#[test]
fn wav_bytes_contains_data_for_samples() {
    let recording = FinishedRecording {
        samples: vec![0, 1000, -1000, 0],
        sample_rate: 16_000,
        channels: 1,
        duration_ms: 0,
    };

    let wav = wav_bytes(&recording).expect("wav conversion should work");
    assert!(wav.len() > 44, "wav should contain header + sample data");
}

#[test]
fn the_whole_file() {
    let recording = FinishedRecording {
        samples: vec![1, -2],
        sample_rate: 16_000,
        channels: 2,
        duration_ms: 0,
    };
    let wav = wav_bytes(&recording).expect("wav conversion should work");
    let mut expected: Vec<u8> = Vec::new();
    expected.extend_from_slice(b"RIFF");
    expected.extend_from_slice(&40u32.to_le_bytes());
    expected.extend_from_slice(b"WAVEfmt ");
    expected.extend_from_slice(&16u32.to_le_bytes());
    expected.extend_from_slice(&1u16.to_le_bytes());
    expected.extend_from_slice(&2u16.to_le_bytes());
    expected.extend_from_slice(&16_000u32.to_le_bytes());
    expected.extend_from_slice(&64_000u32.to_le_bytes());
    expected.extend_from_slice(&4u16.to_le_bytes());
    expected.extend_from_slice(&16u16.to_le_bytes());
    expected.extend_from_slice(b"data");
    expected.extend_from_slice(&4u32.to_le_bytes());
    expected.extend_from_slice(&[1, 0, 0xfe, 0xff]);
    assert_eq!(wav, expected);
}

#[test]
fn the_whole_file_with_three_channels() {
    let recording = FinishedRecording {
        samples: vec![1, 2, 3],
        sample_rate: 8_000,
        channels: 3,
        duration_ms: 0,
    };
    let wav = wav_bytes(&recording).expect("wav conversion should work");
    let mut expected: Vec<u8> = Vec::new();
    expected.extend_from_slice(b"RIFF");
    expected.extend_from_slice(&66u32.to_le_bytes());
    expected.extend_from_slice(b"WAVEfmt ");
    expected.extend_from_slice(&40u32.to_le_bytes());
    expected.extend_from_slice(&0xfffeu16.to_le_bytes());
    expected.extend_from_slice(&3u16.to_le_bytes());
    expected.extend_from_slice(&8_000u32.to_le_bytes());
    expected.extend_from_slice(&48_000u32.to_le_bytes());
    expected.extend_from_slice(&6u16.to_le_bytes());
    expected.extend_from_slice(&16u16.to_le_bytes());
    expected.extend_from_slice(&22u16.to_le_bytes());
    expected.extend_from_slice(&16u16.to_le_bytes());
    expected.extend_from_slice(&7u32.to_le_bytes());
    expected.extend_from_slice(&[1, 0, 0, 0, 0, 0, 0x10, 0, 0x80, 0, 0, 0xaa, 0, 0x38, 0x9b, 0x71]);
    expected.extend_from_slice(b"data");
    expected.extend_from_slice(&6u32.to_le_bytes());
    expected.extend_from_slice(&[1, 0, 2, 0, 3, 0]);
    assert_eq!(wav, expected);
}

#[test]
fn recordings_that_make_no_file() {
    let mut recording = FinishedRecording {
        samples: vec![1, 2, 3],
        sample_rate: 16_000,
        channels: 0,
        duration_ms: 0,
    };
    assert_eq!(
        wav_bytes(&recording).expect_err("no channel").message,
        "recording channels must be > 0"
    );
    recording.channels = 1;
    recording.sample_rate = 0;
    assert_eq!(
        wav_bytes(&recording).expect_err("no rate").message,
        "recording sample_rate must be > 0"
    );
    recording.sample_rate = 16_000;
    recording.channels = 2;
    let error = wav_bytes(&recording).expect_err("half a frame");
    assert_eq!(error.message, "failed finalizing wav writer");
    assert_eq!(
        error.cause.as_deref(),
        Some("The number of samples written is not a multiple of the number of channels.")
    );
}

#[test]
fn how_long_samples_last() {
    assert_eq!(FinishedRecording::finish(vec![0; 16_000], 16_000, 1).duration_ms, 1_000);
    assert_eq!(FinishedRecording::finish(vec![0; 16_001], 16_000, 2).duration_ms, 500);
    assert_eq!(FinishedRecording::finish(vec![0; 10], 0, 1).duration_ms, 0);
    assert_eq!(FinishedRecording::finish(vec![0; 10], 16_000, 0).duration_ms, 0);
}

#[test]
fn the_default_capture() {
    let config = RecordingConfig::default();
    assert!(config.device_name.is_none());
    assert_eq!(config.sample_rate, 16_000);
    assert_eq!(config.channels, 1);
}

#[test]
fn captured_samples_are_kept_and_sent_on() {
    let mut buffer = vec![7];
    assert_eq!(push_i16(&mut buffer, &[1, -1]), vec![1, -1]);
    assert_eq!(buffer, vec![7, 1, -1]);
    assert_eq!(
        push_u16_as_i16(&mut buffer, &[0, 32_768, 65_535]),
        vec![-32_768, 0, 32_767]
    );
    assert_eq!(buffer, vec![7, 1, -1, -32_768, 0, 32_767]);
}

#[test]
fn which_device_is_captured() {
    let names = vec![Some("A".to_string()), None, Some("B".to_string())];
    assert_eq!(select_input_device(&names, None).expect("default"), None);
    assert_eq!(select_input_device(&names, Some("default")).expect("default"), None);
    assert_eq!(select_input_device(&names, Some("B")).expect("found"), Some(2));
    assert_eq!(
        select_input_device(&names, Some("C")).expect_err("missing").message,
        "requested input device not found: C. Run `omni input list` then `omni input set <id>` \
         (or `omni input set default`)"
    );
}

#[test]
fn sizes_that_fit_the_header() {
    let mut recording = FinishedRecording::finish(vec![1, 2], 16_000, 2);
    assert!(sizes_fit(&recording));
    recording.sample_rate = u32::MAX / 4;
    assert!(sizes_fit(&recording));
    recording.sample_rate = u32::MAX / 4 + 1;
    assert!(!sizes_fit(&recording));
}
