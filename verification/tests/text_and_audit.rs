//! Numeric parsing, decimal rendering, the transcoder command line, and
//! audit JSON sanitizing.

use media_pipeline::audit::{sanitize_json, AuditEvent, JsonValue};
use media_pipeline::ffmpeg::{construct_video_transcoding_options_for_ffmpeg, transcoder_arguments};
use media_pipeline::media::{parse_count, parse_decimal_trunc, parse_u32_field, AudioData, VideoData};
use media_pipeline::text::{u32_to_string, u64_to_string};

#[test]
fn unsigned_fields_parse_defensively() {
    assert_eq!(parse_u32_field("1920"), 1920);
    assert_eq!(parse_u32_field("0"), 0);
    assert_eq!(parse_u32_field(""), 0);
    assert_eq!(parse_u32_field("12a"), 0);
    assert_eq!(parse_u32_field("-5"), 0);
    assert_eq!(parse_u32_field("4294967295"), 4294967295);
    assert_eq!(parse_u32_field("4294967296"), 0);
    assert_eq!(parse_u32_field("99999999999999999999"), 0);
}

#[test]
fn decimal_fields_truncate() {
    assert_eq!(parse_decimal_trunc("29.970"), 29);
    assert_eq!(parse_decimal_trunc("29"), 29);
    assert_eq!(parse_decimal_trunc("29."), 29);
    assert_eq!(parse_decimal_trunc(".5"), 0);
    assert_eq!(parse_decimal_trunc("29.9a"), 0);
    assert_eq!(parse_decimal_trunc("nonsense"), 0);
    assert_eq!(parse_decimal_trunc("5000000000.5"), u32::MAX);
}

#[test]
fn counts_parse_with_sign() {
    assert_eq!(parse_count("3"), 3);
    assert_eq!(parse_count("+3"), 3);
    assert_eq!(parse_count("-3"), -3);
    assert_eq!(parse_count(""), 0);
    assert_eq!(parse_count("-"), 0);
    assert_eq!(parse_count("x3"), 0);
    assert_eq!(parse_count("99999999999999999999999"), 0);
}

#[test]
fn decimal_rendering() {
    assert_eq!(u64_to_string(0), "0");
    assert_eq!(u64_to_string(7), "7");
    assert_eq!(u64_to_string(1234), "1234");
    assert_eq!(u64_to_string(u64::MAX), "18446744073709551615");
    assert_eq!(u32_to_string(300), "300");
}

#[test]
fn transcoder_command_for_a_single_rung() {
    let video =
        VideoData { duration: 5, width: 400, height: 300, bitrate: 100_000, frame_rate: 25 };
    let cmd = construct_video_transcoding_options_for_ffmpeg(&video, &None, "in.mp4");
    let expected = "-i in.mp4 -filter_complex \"[0:v]split=1[v0in];[v0in]scale=256:192[v0fps];[v0fps]fps=25[v0out];\"  -map \"[v0out]\" -c:v:0 libx264 -b:v:0 97k -maxrate:v:0 146k -bufsize:v:0 195k -g 125 -keyint_min 125 -sc_threshold 0 -force_key_frames \"expr:gte(t,n_forced*5)\" -hls_time 5 -map_metadata -1 -f hls -hls_playlist_type vod -hls_flags independent_segments -hls_segment_type mpegts -hls_segment_filename \"stream_%v/data%04d.ts\" -master_pl_name master.m3u8 -var_stream_map \"v:0\" stream_%v/playlist.m3u8";
    assert_eq!(cmd, expected);
}

#[test]
fn transcoder_command_includes_audio_per_stream() {
    let video =
        VideoData { duration: 5, width: 854, height: 480, bitrate: 3_000_000, frame_rate: 30 };
    let audio = Some(AudioData { duration: 5, bitrate: 96_000, sample_rate: 44_100 });
    let (cmd, words) = transcoder_arguments(&video, &audio, "in.mp4");
    // Three rungs at this width; audio capped at the source's 96 kbps.
    assert!(cmd.contains("[0:v]split=3"));
    assert!(cmd.contains(" -map a:0 -c:a:0 aac -b:a:0 93k -ac:0 2"));
    assert!(cmd.contains(" -map a:0 -c:a:2 aac -b:a:2 93k -ac:2 2"));
    assert!(cmd.contains("-var_stream_map \"v:0,a:0 v:1,a:1 v:2,a:2\""));
    let words = words.expect("a well-formed command splits");
    assert_eq!(words[0], "-i");
    assert_eq!(words[1], "in.mp4");
    // The shell splitter strips the quoting around the filter graph.
    assert!(words.iter().any(|w| w.starts_with("[0:v]split=3")));
}

#[test]
fn sanitizing_strips_nul_bytes_everywhere() {
    let event = AuditEvent {
        event_type: "virus_scan".to_string(),
        user_id: None,
        client_ip: "198.51.100.7".to_string(),
        target: Some("res-1".to_string()),
        event_details: Some(JsonValue::Obj(vec![
            ("status".to_string(), JsonValue::Str("infected".to_string())),
            (
                "scan_response".to_string(),
                JsonValue::Str("stream: Eicar\0-Signature FOUND\0".to_string()),
            ),
            (
                "nested".to_string(),
                JsonValue::Arr(vec![
                    JsonValue::Str("a\0b".to_string()),
                    JsonValue::Int(3),
                    JsonValue::Bool(true),
                    JsonValue::Null,
                ]),
            ),
        ])),
    };
    let cleaned = sanitize_json(event.event_details.as_ref().unwrap());
    match cleaned {
        JsonValue::Obj(fields) => {
            assert_eq!(fields.len(), 3);
            match &fields[1].1 {
                JsonValue::Str(s) => assert_eq!(s, "stream: Eicar-Signature FOUND"),
                other => panic!("wrong field: {:?}", other),
            }
            match &fields[2].1 {
                JsonValue::Arr(items) => match &items[0] {
                    JsonValue::Str(s) => assert_eq!(s, "ab"),
                    other => panic!("wrong item: {:?}", other),
                },
                other => panic!("wrong field: {:?}", other),
            }
        }
        other => panic!("wrong shape: {:?}", other),
    }
}

#[test]
fn sanitizing_without_nuls_changes_nothing() {
    let value = JsonValue::Str("clean".to_string());
    match sanitize_json(&value) {
        JsonValue::Str(s) => assert_eq!(s, "clean"),
        other => panic!("wrong shape: {:?}", other),
    }
}
