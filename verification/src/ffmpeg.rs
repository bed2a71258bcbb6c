//! The transcoder invocation: one command line that splits the source
//! into the planned renditions, scales and paces each one, forces
//! keyframes on the segment cadence, and writes an HLS VOD tree with a
//! master playlist.

use vstd::prelude::*;

verus! {

use crate::ladder::{
    min_u32, plan_renditions, selected_ladder, spec_rendition, Rendition, AUDIO_BITRATE,
    SEGMENT_LENGTH_SECONDS,
};
use crate::media::{AudioData, VideoData};
use crate::text::{dec_digits, u32_to_string, u64_to_string};

/// The renditions planned for a source, in ladder order.
pub open spec fn spec_planned(video: VideoData) -> Seq<Rendition> {
    Seq::new(
        selected_ladder(video.width).len(),
        |j: int| spec_rendition(selected_ladder(video.width)[j], video),
    )
}

/// The split output labels `[v0in][v1in]...` for `n` streams.
pub open spec fn split_markers(n: int) -> Seq<char>
    decreases n,
{
    if n <= 0 {
        Seq::empty()
    } else {
        split_markers(n - 1) + "[v"@ + dec_digits(n - 1) + "in]"@
    }
}

/// The scale-and-pace filter for one stream.
pub open spec fn spec_filter_fragment(id: int, rd: Rendition) -> Seq<char> {
    "[v"@ + dec_digits(id) + "in]scale="@ + dec_digits(rd.width as int) + ":"@ + dec_digits(
        rd.height as int,
    ) + "[v"@ + dec_digits(id) + "fps];[v"@ + dec_digits(id) + "fps]fps="@ + dec_digits(
        rd.frame_rate as int,
    ) + "[v"@ + dec_digits(id) + "out];"@
}

/// All filters up to stream `n`.
pub open spec fn filter_fragments(rds: Seq<Rendition>, n: int) -> Seq<char>
    decreases n,
{
    if n <= 0 {
        Seq::empty()
    } else {
        filter_fragments(rds, n - 1) + spec_filter_fragment(n - 1, rds[n - 1])
    }
}

/// The codec mapping for one stream: codec, bitrate caps, buffer, and
/// the keyframe cadence.
pub open spec fn spec_map_fragment(id: int, rd: Rendition) -> Seq<char> {
    " -map \"[v"@ + dec_digits(id) + "out]\" -c:v:"@ + dec_digits(id) + " libx264 -b:v:"@
        + dec_digits(id) + " "@ + dec_digits(rd.video_bitrate as int / 1024) + "k -maxrate:v:"@
        + dec_digits(id) + " "@ + dec_digits(rd.maximum_bitrate as int / 1024) + "k -bufsize:v:"@
        + dec_digits(id) + " "@ + dec_digits(rd.buffer_size as int / 1024) + "k -g "@ + dec_digits(
        rd.keyframe_interval as int,
    ) + " -keyint_min "@ + dec_digits(rd.keyframe_interval as int)
        + " -sc_threshold 0 -force_key_frames \"expr:gte(t,n_forced*5)\" -hls_time "@ + dec_digits(
        SEGMENT_LENGTH_SECONDS as int,
    ) + " -map_metadata -1"@
}

/// All codec mappings up to stream `n`.
pub open spec fn map_fragments(rds: Seq<Rendition>, n: int) -> Seq<char>
    decreases n,
{
    if n <= 0 {
        Seq::empty()
    } else {
        map_fragments(rds, n - 1) + spec_map_fragment(n - 1, rds[n - 1])
    }
}

/// The audio mapping for one stream: stereo at the capped bitrate.
pub open spec fn spec_audio_fragment(id: int, bitrate_k: int) -> Seq<char> {
    " -map a:0 -c:a:"@ + dec_digits(id) + " aac -b:a:"@ + dec_digits(id) + " "@ + dec_digits(
        bitrate_k,
    ) + "k -ac:"@ + dec_digits(id) + " 2"@
}

/// All audio mappings up to stream `n`.
pub open spec fn audio_fragments(n: int, bitrate_k: int) -> Seq<char>
    decreases n,
{
    if n <= 0 {
        Seq::empty()
    } else {
        audio_fragments(n - 1, bitrate_k) + spec_audio_fragment(n - 1, bitrate_k)
    }
}

/// One variant-stream entry: `v:i,a:i` with audio, `v:i` without.
pub open spec fn spec_stream_entry(id: int, with_audio: bool) -> Seq<char> {
    if with_audio {
        "v:"@ + dec_digits(id) + ",a:"@ + dec_digits(id)
    } else {
        "v:"@ + dec_digits(id)
    }
}

/// The space-separated variant-stream map for `n` streams.
pub open spec fn stream_map(n: int, with_audio: bool) -> Seq<char>
    decreases n,
{
    if n <= 0 {
        Seq::empty()
    } else if n == 1 {
        spec_stream_entry(0, with_audio)
    } else {
        stream_map(n - 1, with_audio) + " "@ + spec_stream_entry(n - 1, with_audio)
    }
}

/// The whole transcoder command line for one source.
pub open spec fn spec_ffmpeg_args(
    input: Seq<char>,
    rds: Seq<Rendition>,
    audio_bitrate_k: Option<int>,
) -> Seq<char> {
    let n = rds.len() as int;
    "-i "@ + input + " -filter_complex \"[0:v]split="@ + dec_digits(n) + split_markers(n) + ";"@
        + filter_fragments(rds, n) + "\" "@ + map_fragments(rds, n) + (match audio_bitrate_k {
        Some(k) => audio_fragments(n, k),
        None => Seq::empty(),
    })
        + " -f hls -hls_playlist_type vod -hls_flags independent_segments -hls_segment_type mpegts -hls_segment_filename \"stream_%v/data%04d.ts\" -master_pl_name master.m3u8 -var_stream_map \""@
        + stream_map(n, audio_bitrate_k is Some) + "\" stream_%v/playlist.m3u8"@
}

/// Append the filter for one stream.
fn push_filter_fragment(s: &mut String, id: u64, rd: &Rendition)
    ensures
        final(s)@ == old(s)@ + spec_filter_fragment(id as int, *rd),
{
    s.append("[v");
    s.append(u64_to_string(id).as_str());
    s.append("in]scale=");
    s.append(u32_to_string(rd.width).as_str());
    s.append(":");
    s.append(u32_to_string(rd.height).as_str());
    s.append("[v");
    s.append(u64_to_string(id).as_str());
    s.append("fps];[v");
    s.append(u64_to_string(id).as_str());
    s.append("fps]fps=");
    s.append(u32_to_string(rd.frame_rate).as_str());
    s.append("[v");
    s.append(u64_to_string(id).as_str());
    s.append("out];");
    proof {
        assert(s@ =~= old(s)@ + spec_filter_fragment(id as int, *rd));
    }
}

/// Append the codec mapping for one stream.
fn push_map_fragment(s: &mut String, id: u64, rd: &Rendition)
    ensures
        final(s)@ == old(s)@ + spec_map_fragment(id as int, *rd),
{
    s.append(" -map \"[v");
    s.append(u64_to_string(id).as_str());
    s.append("out]\" -c:v:");
    s.append(u64_to_string(id).as_str());
    s.append(" libx264 -b:v:");
    s.append(u64_to_string(id).as_str());
    s.append(" ");
    s.append(u32_to_string(rd.video_bitrate / 1024).as_str());
    s.append("k -maxrate:v:");
    s.append(u64_to_string(id).as_str());
    s.append(" ");
    s.append(u32_to_string(rd.maximum_bitrate / 1024).as_str());
    s.append("k -bufsize:v:");
    s.append(u64_to_string(id).as_str());
    s.append(" ");
    s.append(u32_to_string(rd.buffer_size / 1024).as_str());
    s.append("k -g ");
    s.append(u32_to_string(rd.keyframe_interval).as_str());
    s.append(" -keyint_min ");
    s.append(u32_to_string(rd.keyframe_interval).as_str());
    s.append(" -sc_threshold 0 -force_key_frames \"expr:gte(t,n_forced*5)\" -hls_time ");
    s.append(u32_to_string(SEGMENT_LENGTH_SECONDS).as_str());
    s.append(" -map_metadata -1");
    proof {
        assert(s@ =~= old(s)@ + spec_map_fragment(id as int, *rd));
    }
}

/// Append the audio mapping for one stream.
fn push_audio_fragment(s: &mut String, id: u64, bitrate_k: u32)
    ensures
        final(s)@ == old(s)@ + spec_audio_fragment(id as int, bitrate_k as int),
{
    s.append(" -map a:0 -c:a:");
    s.append(u64_to_string(id).as_str());
    s.append(" aac -b:a:");
    s.append(u64_to_string(id).as_str());
    s.append(" ");
    s.append(u32_to_string(bitrate_k).as_str());
    s.append("k -ac:");
    s.append(u64_to_string(id).as_str());
    s.append(" 2");
    proof {
        assert(s@ =~= old(s)@ + spec_audio_fragment(id as int, bitrate_k as int));
    }
}

/// Build the whole transcoder command line for one probed source.
pub fn construct_video_transcoding_options_for_ffmpeg(
    video_stats: &VideoData,
    audio_stats: &Option<AudioData>,
    input_file: &str,
) -> (r: String)
    requires
        video_stats.width > 0,
        video_stats.height > 0,
    ensures
        r@ == spec_ffmpeg_args(
            input_file@,
            spec_planned(*video_stats),
            match audio_stats {
                Some(a) => Some(min_u32(AUDIO_BITRATE, a.bitrate) as int / 1024),
                None => None,
            },
        ),
{
    let renditions = plan_renditions(video_stats);
    proof {
        assert(renditions@ =~= spec_planned(*video_stats));
    }
    let n = renditions.len();
    let ghost rds = renditions@;
    let with_audio = match audio_stats {
        Some(_) => true,
        None => false,
    };
    let mut s = String::from_str("-i ");
    s.append(input_file);
    s.append(" -filter_complex \"[0:v]split=");
    s.append(u64_to_string(n as u64).as_str());
    let ghost head = s@;
    let mut i: usize = 0;
    while i < n
        invariant
            0 <= i <= n,
            n == rds.len(),
            s@ == head + split_markers(i as int),
        decreases n - i,
    {
        s.append("[v");
        s.append(u64_to_string(i as u64).as_str());
        s.append("in]");
        proof {
            assert(s@ =~= head + split_markers(i as int + 1));
        }
        i = i + 1;
    }
    s.append(";");
    let ghost head2 = s@;
    let mut i2: usize = 0;
    while i2 < n
        invariant
            0 <= i2 <= n,
            n == rds.len(),
            n == renditions@.len(),
            rds == renditions@,
            s@ == head2 + filter_fragments(rds, i2 as int),
        decreases n - i2,
    {
        push_filter_fragment(&mut s, i2 as u64, &renditions[i2]);
        proof {
            assert(s@ =~= head2 + filter_fragments(rds, i2 as int + 1));
        }
        i2 = i2 + 1;
    }
    s.append("\" ");
    let ghost head3 = s@;
    let mut i3: usize = 0;
    while i3 < n
        invariant
            0 <= i3 <= n,
            n == rds.len(),
            n == renditions@.len(),
            rds == renditions@,
            s@ == head3 + map_fragments(rds, i3 as int),
        decreases n - i3,
    {
        push_map_fragment(&mut s, i3 as u64, &renditions[i3]);
        proof {
            assert(s@ =~= head3 + map_fragments(rds, i3 as int + 1));
        }
        i3 = i3 + 1;
    }
    match audio_stats {
        Some(a) => {
            let bitrate_k = crate::ladder::audio_rendition_bitrate(a.bitrate) / 1024;
            let ghost head4 = s@;
            let mut i4: usize = 0;
            while i4 < n
                invariant
                    0 <= i4 <= n,
                    s@ == head4 + audio_fragments(i4 as int, bitrate_k as int),
                decreases n - i4,
            {
                push_audio_fragment(&mut s, i4 as u64, bitrate_k);
                proof {
                    assert(s@ =~= head4 + audio_fragments(i4 as int + 1, bitrate_k as int));
                }
                i4 = i4 + 1;
            }
        },
        None => {},
    }
    s.append(
        " -f hls -hls_playlist_type vod -hls_flags independent_segments -hls_segment_type mpegts -hls_segment_filename \"stream_%v/data%04d.ts\" -master_pl_name master.m3u8 -var_stream_map \"",
    );
    let ghost head5 = s@;
    let mut i5: usize = 0;
    while i5 < n
        invariant
            0 <= i5 <= n,
            s@ == head5 + stream_map(i5 as int, with_audio),
        decreases n - i5,
    {
        if i5 > 0 {
            s.append(" ");
        }
        s.append("v:");
        s.append(u64_to_string(i5 as u64).as_str());
        if with_audio {
            s.append(",a:");
            s.append(u64_to_string(i5 as u64).as_str());
        }
        proof {
            assert(s@ =~= head5 + stream_map(i5 as int + 1, with_audio));
        }
        i5 = i5 + 1;
    }
    s.append("\" stream_%v/playlist.m3u8");
    proof {
        assert(s@ =~= spec_ffmpeg_args(
            input_file@,
            spec_planned(*video_stats),
            match audio_stats {
                Some(a) => Some(min_u32(AUDIO_BITRATE, a.bitrate) as int / 1024),
                None => None,
            },
        ));
    }
    s
}

/// What the shell splitter yields for a command line.
pub uninterp spec fn shell_words(s: Seq<char>) -> Option<Seq<Seq<char>>>;

/// Relies on `shlex::split`: POSIX-like word splitting of the command
/// line, `None` exactly on erroneous input (an unclosed quote or a
/// trailing backslash).
#[verifier::external_body]
fn split_command(s: &str) -> (r: Option<Vec<String>>)
    ensures
        r is Some <==> shell_words(s@) is Some,
        (r matches Some(v) ==> v@.map_values(|x: String| x@) == shell_words(s@).unwrap()),
{
    shlex::split(s)
}

/// Build the transcoder command line and split it into the argument
/// words handed to the transcoder process.
pub fn transcoder_arguments(
    video_stats: &VideoData,
    audio_stats: &Option<AudioData>,
    input_file: &str,
) -> (r: (String, Option<Vec<String>>))
    requires
        video_stats.width > 0,
        video_stats.height > 0,
    ensures
        r.0@ == spec_ffmpeg_args(
            input_file@,
            spec_planned(*video_stats),
            match audio_stats {
                Some(a) => Some(min_u32(AUDIO_BITRATE, a.bitrate) as int / 1024),
                None => None,
            },
        ),
        r.1 is Some <==> shell_words(r.0@) is Some,
        (r.1 matches Some(v) ==> v@.map_values(|x: String| x@) == shell_words(r.0@).unwrap()),
{
    let cmd = construct_video_transcoding_options_for_ffmpeg(video_stats, audio_stats, input_file);
    let words = split_command(cmd.as_str());
    (cmd, words)
}

} // verus!
