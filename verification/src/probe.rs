//! Classification of probed files from media-info track listings.
//!
//! The external probe tool emits one `General` track carrying stream
//! counts, plus per-stream tracks.  Classification follows the counts on
//! the first `General` track: video first, then audio, then image,
//! otherwise `Other`.  Track fields arrive as strings and parse
//! defensively (0 on failure).

use vstd::prelude::*;

verus! {

use crate::media::{
    all_digits, digits_value, parse_count_spec, parse_decimal_trunc_spec, parse_u32_spec,
    parse_count, parse_decimal_trunc, parse_u32_field, AudioData, FileType, ImageData, VideoData,
};

/// One track of a media-info report; every field is the tool's raw string.
#[derive(Debug)]
pub enum Track {
    General {
        file_size: String,
        duration: Option<String>,
        format: Option<String>,
        video_count: Option<String>,
        audio_count: Option<String>,
        image_count: Option<String>,
        other_count: Option<String>,
    },
    Video { width: String, height: String, duration: String, frame_rate: String, bitrate: String },
    Audio { duration: String, bitrate: String, sample_rate: String },
    Image { width: String, height: String },
    Other,
}

/// The track listing of a media-info report.
#[derive(Debug)]
pub struct Media {
    pub track: Vec<Track>,
}

/// A full media-info report.
#[derive(Debug)]
pub struct MediaInfo {
    pub media: Media,
}

/// Which variant of `Track` a search is after.
#[derive(Clone, Copy, Debug, PartialEq, Eq, Structural)]
pub enum TrackKind {
    General,
    Video,
    Audio,
    Image,
}

/// `t` is of kind `k`.
pub open spec fn has_kind(t: Track, k: TrackKind) -> bool {
    match k {
        TrackKind::General => t is General,
        TrackKind::Video => t is Video,
        TrackKind::Audio => t is Audio,
        TrackKind::Image => t is Image,
    }
}

/// The first track of kind `k`, if any.
pub open spec fn find_first(tracks: Seq<Track>, k: TrackKind) -> Option<Track>
    decreases tracks.len(),
{
    if tracks.len() == 0 {
        None
    } else if has_kind(tracks[0], k) {
        Some(tracks[0])
    } else {
        find_first(tracks.drop_first(), k)
    }
}

/// Find the first track of kind `k` by a front-to-back scan.
fn find_track<'a>(tracks: &'a Vec<Track>, k: TrackKind) -> (r: Option<&'a Track>)
    ensures
        match r {
            Some(t) => find_first(tracks@, k) == Some(*t),
            None => find_first(tracks@, k) is None,
        },
{
    let n = tracks.len();
    let mut i: usize = 0;
    proof {
        assert(tracks@.skip(0) =~= tracks@);
    }
    while i < n
        invariant
            0 <= i <= n,
            n == tracks@.len(),
            find_first(tracks@, k) == find_first(tracks@.skip(i as int), k),
        decreases n - i,
    {
        let t = &tracks[i];
        let matches_kind = match (t, k) {
            (Track::General { .. }, TrackKind::General) => true,
            (Track::Video { .. }, TrackKind::Video) => true,
            (Track::Audio { .. }, TrackKind::Audio) => true,
            (Track::Image { .. }, TrackKind::Image) => true,
            _ => false,
        };
        assert(matches_kind == has_kind(tracks@[i as int], k));
        if matches_kind {
            assert(tracks@.skip(i as int)[0] == tracks@[i as int]);
            return Some(t);
        }
        proof {
            assert(tracks@.skip(i as int).drop_first() =~= tracks@.skip(i as int + 1));
        }
        i = i + 1;
    }
    proof {
        assert(tracks@.skip(n as int) =~= Seq::<Track>::empty());
    }
    None
}

/// Count field of the `General` track: missing counts as `"0"`.
pub open spec fn count_of(field: Option<String>) -> int {
    match field {
        Some(s) => parse_count_spec(s@),
        None => 0,
    }
}

/// The typed video description read off a `Video` track, with the
/// optional audio track attached.
pub open spec fn spec_extract_video(vt: Track, at: Option<Track>) -> FileType {
    match vt {
        Track::Video { width, height, duration, frame_rate, bitrate } => FileType::Video {
            video: VideoData {
                duration: parse_decimal_trunc_spec(duration@),
                width: parse_u32_spec(width@),
                height: parse_u32_spec(height@),
                bitrate: parse_u32_spec(bitrate@),
                frame_rate: parse_decimal_trunc_spec(frame_rate@),
            },
            audio: match at {
                Some(t) => match t {
                    Track::Audio { duration, bitrate, sample_rate } => Some(
                        AudioData {
                            duration: parse_decimal_trunc_spec(duration@),
                            bitrate: parse_u32_spec(bitrate@),
                            sample_rate: parse_u32_spec(sample_rate@),
                        },
                    ),
                    _ => None,
                },
                None => None,
            },
        },
        _ => FileType::Other,
    }
}

/// The typed audio description read off an `Audio` track.
pub open spec fn spec_extract_audio(at: Track) -> FileType {
    match at {
        Track::Audio { duration, bitrate, sample_rate } => FileType::Audio {
            audio: AudioData {
                duration: parse_decimal_trunc_spec(duration@),
                bitrate: parse_u32_spec(bitrate@),
                sample_rate: parse_u32_spec(sample_rate@),
            },
        },
        _ => FileType::Other,
    }
}

/// The typed image description read off an `Image` track.
pub open spec fn spec_extract_image(it: Track) -> FileType {
    match it {
        Track::Image { width, height } => FileType::Image {
            image: ImageData { width: parse_u32_spec(width@), height: parse_u32_spec(height@) },
        },
        _ => FileType::Other,
    }
}

/// Classification of a track listing, exactly as `create_metadata_object`
/// computes it.
pub open spec fn spec_classify(tracks: Seq<Track>) -> FileType {
    let counts = match find_first(tracks, TrackKind::General) {
        Some(t) => match t {
            Track::General { video_count, audio_count, image_count, .. } => (
                count_of(video_count),
                count_of(audio_count),
                count_of(image_count),
            ),
            _ => (0int, 0int, 0int),
        },
        None => (0int, 0int, 0int),
    };
    if counts.0 > 0 {
        match find_first(tracks, TrackKind::Video) {
            Some(vt) => spec_extract_video(vt, find_first(tracks, TrackKind::Audio)),
            None => FileType::Other,
        }
    } else if counts.1 > 0 {
        match find_first(tracks, TrackKind::Audio) {
            Some(at) => spec_extract_audio(at),
            None => FileType::Other,
        }
    } else if counts.2 > 0 {
        match find_first(tracks, TrackKind::Image) {
            Some(it) => spec_extract_image(it),
            None => FileType::Other,
        }
    } else {
        FileType::Other
    }
}

/// Read the typed video description off a `Video` track.
pub fn extract_video_information(video_track: &Track, audio_track: Option<&Track>) -> (r: FileType)
    ensures
        r == spec_extract_video(
            *video_track,
            match audio_track {
                Some(t) => Some(*t),
                None => None,
            },
        ),
{
    match video_track {
        Track::Video { width, height, duration, frame_rate, bitrate } => {
            let video = VideoData {
                duration: parse_decimal_trunc(duration.as_str()),
                width: parse_u32_field(width.as_str()),
                height: parse_u32_field(height.as_str()),
                bitrate: parse_u32_field(bitrate.as_str()),
                frame_rate: parse_decimal_trunc(frame_rate.as_str()),
            };
            let audio = match audio_track {
                Some(t) => match t {
                    Track::Audio { duration, bitrate, sample_rate } => Some(
                        AudioData {
                            duration: parse_decimal_trunc(duration.as_str()),
                            bitrate: parse_u32_field(bitrate.as_str()),
                            sample_rate: parse_u32_field(sample_rate.as_str()),
                        },
                    ),
                    _ => None,
                },
                None => None,
            };
            FileType::Video { video, audio }
        },
        _ => FileType::Other,
    }
}

/// Read the typed audio description off an `Audio` track.
pub fn extract_audio_information(audio_track: &Track) -> (r: FileType)
    ensures
        r == spec_extract_audio(*audio_track),
{
    match audio_track {
        Track::Audio { duration, bitrate, sample_rate } => FileType::Audio {
            audio: AudioData {
                duration: parse_decimal_trunc(duration.as_str()),
                bitrate: parse_u32_field(bitrate.as_str()),
                sample_rate: parse_u32_field(sample_rate.as_str()),
            },
        },
        _ => FileType::Other,
    }
}

/// Read the typed image description off an `Image` track.
pub fn extract_image_information(image_track: &Track) -> (r: FileType)
    ensures
        r == spec_extract_image(*image_track),
{
    match image_track {
        Track::Image { width, height } => FileType::Image {
            image: ImageData {
                width: parse_u32_field(width.as_str()),
                height: parse_u32_field(height.as_str()),
            },
        },
        _ => FileType::Other,
    }
}

/// Classify a probed file from its track listing.
pub fn create_metadata_object(media_info: &MediaInfo) -> (r: FileType)
    ensures
        r == spec_classify(media_info.media.track@),
{
    let tracks = &media_info.media.track;
    let general = find_track(tracks, TrackKind::General);
    let (video_count, audio_count, image_count): (i64, i64, i64) = match general {
        Some(t) => match t {
            Track::General { video_count, audio_count, image_count, .. } => (
                match video_count {
                    Some(s) => parse_count(s.as_str()),
                    None => 0,
                },
                match audio_count {
                    Some(s) => parse_count(s.as_str()),
                    None => 0,
                },
                match image_count {
                    Some(s) => parse_count(s.as_str()),
                    None => 0,
                },
            ),
            _ => (0, 0, 0),
        },
        None => (0, 0, 0),
    };
    if video_count > 0 {
        match find_track(tracks, TrackKind::Video) {
            Some(vt) => extract_video_information(vt, find_track(tracks, TrackKind::Audio)),
            None => FileType::Other,
        }
    } else if audio_count > 0 {
        match find_track(tracks, TrackKind::Audio) {
            Some(at) => extract_audio_information(at),
            None => FileType::Other,
        }
    } else if image_count > 0 {
        match find_track(tracks, TrackKind::Image) {
            Some(it) => extract_image_information(it),
            None => FileType::Other,
        }
    } else {
        FileType::Other
    }
}

} // verus!
