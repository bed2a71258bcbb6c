//! The rendition ladder: which quality rungs a source is transcoded
//! into, and each rung's derived encoding parameters.
//!
//! The lowest rung is always produced; a higher rung is produced exactly
//! when the source is at least as wide.  Heights preserve the source
//! aspect ratio (rounded up), frame rates are capped per rung, and the
//! target bitrate is the smaller of the rung cap and the source bitrate,
//! boosted by half again when the target frame rate reaches 45.

use vstd::prelude::*;

verus! {

use crate::media::VideoData;

/// Seconds per HLS segment; keyframes are forced on this cadence.
pub const SEGMENT_LENGTH_SECONDS: u32 = 5;

/// Audio bitrate cap in bits per second.
pub const AUDIO_BITRATE: u32 = 131072;

/// One quality rung of the ladder.
#[derive(Clone, Copy, Debug, PartialEq, Eq, Structural)]
pub struct TranscodingOptions {
    pub width: u32,
    pub height: u32,
    pub frame_rate: u32,
    pub video_bitrate: u32,
}

/// The 144p rung: 256x144 at 30 fps, 250 kbps.
pub open spec fn rung_144() -> TranscodingOptions {
    TranscodingOptions { width: 256, height: 144, frame_rate: 30, video_bitrate: 256000 }
}

/// The 270p rung: 480x270 at 30 fps, 750 kbps.
pub open spec fn rung_270() -> TranscodingOptions {
    TranscodingOptions { width: 480, height: 270, frame_rate: 30, video_bitrate: 768000 }
}

/// The 480p rung: 854x480 at 30 fps, 2500 kbps.
pub open spec fn rung_480() -> TranscodingOptions {
    TranscodingOptions { width: 854, height: 480, frame_rate: 30, video_bitrate: 2621440 }
}

/// The 720p rung: 1280x720 at 60 fps, 5000 kbps.
pub open spec fn rung_720() -> TranscodingOptions {
    TranscodingOptions { width: 1280, height: 720, frame_rate: 60, video_bitrate: 5242880 }
}

/// The 1080p rung: 1920x1080 at 60 fps, 8000 kbps.
pub open spec fn rung_1080() -> TranscodingOptions {
    TranscodingOptions { width: 1920, height: 1080, frame_rate: 60, video_bitrate: 8388608 }
}

/// The full fixed ladder, lowest rung first.
pub open spec fn spec_ladder() -> Seq<TranscodingOptions> {
    seq![rung_144(), rung_270(), rung_480(), rung_720(), rung_1080()]
}

/// The rungs selected for a source of the given width: the lowest rung
/// always, every other rung exactly when the source is at least as wide.
pub open spec fn selected_ladder(source_width: u32) -> Seq<TranscodingOptions> {
    seq![rung_144()] + (if source_width >= 480 {
        seq![rung_270()]
    } else {
        Seq::empty()
    }) + (if source_width >= 854 {
        seq![rung_480()]
    } else {
        Seq::empty()
    }) + (if source_width >= 1280 {
        seq![rung_720()]
    } else {
        Seq::empty()
    }) + (if source_width >= 1920 {
        seq![rung_1080()]
    } else {
        Seq::empty()
    })
}

/// One planned rendition: the encoding parameters handed to the
/// transcoder for one rung.
#[derive(Clone, Copy, Debug, PartialEq, Eq, Structural)]
pub struct Rendition {
    pub width: u32,
    pub height: u32,
    pub frame_rate: u32,
    pub video_bitrate: u32,
    pub maximum_bitrate: u32,
    pub buffer_size: u32,
    pub keyframe_interval: u32,
}

/// The smaller of two 32-bit values.
pub open spec fn min_u32(a: u32, b: u32) -> u32 {
    if a <= b {
        a
    } else {
        b
    }
}

/// The parameters derived for one rung from the source description.
///
/// Width is capped at the source width; height keeps the source aspect
/// for the rung width, rounded up; the frame rate is capped per rung;
/// the target bitrate is the smaller of rung cap and source bitrate,
/// times one and a half when the target frame rate reaches 45; the
/// maximum bitrate is one and a half times the target and the buffer
/// twice the target; keyframes land every segment.
pub open spec fn spec_rendition(rung: TranscodingOptions, video: VideoData) -> Rendition {
    let fps = min_u32(video.frame_rate, rung.frame_rate);
    let base = min_u32(rung.video_bitrate, video.bitrate);
    let target = if fps >= 45 {
        (3 * base as int) / 2
    } else {
        base as int
    };
    Rendition {
        width: min_u32(rung.width, video.width),
        height: (((rung.width * video.height) as int + video.width - 1) / (video.width as int)) as u32,
        frame_rate: fps,
        video_bitrate: target as u32,
        maximum_bitrate: ((3 * target) / 2) as u32,
        buffer_size: (2 * target) as u32,
        keyframe_interval: (fps * SEGMENT_LENGTH_SECONDS) as u32,
    }
}

/// Derive the parameters of one rung.
pub fn construct_transcoding_options_with_parameters(rung: &TranscodingOptions, video: &VideoData) -> (r:
    Rendition)
    requires
        video.width > 0,
        video.height > 0,
        rung.width <= 1920,
        rung.frame_rate <= 60,
        rung.video_bitrate <= 8388608,
    ensures
        r == spec_rendition(*rung, *video),
{
    let fps = if video.frame_rate <= rung.frame_rate {
        video.frame_rate
    } else {
        rung.frame_rate
    };
    let base = if rung.video_bitrate <= video.bitrate {
        rung.video_bitrate
    } else {
        video.bitrate
    };
    let target: u32 = if fps >= 45 {
        3 * base / 2
    } else {
        base
    };
    let width = if rung.width <= video.width {
        rung.width
    } else {
        video.width
    };
    let rw: u64 = rung.width as u64;
    let vh: u64 = video.height as u64;
    let vw: u64 = video.width as u64;
    proof {
        assert(rw * vh <= 1920 * 0xffff_ffffu64) by (nonlinear_arith)
            requires
                rw <= 1920,
                vh <= 0xffff_ffffu64,
        ;
    }
    let numerator: u64 = rw * vh + vw - 1;
    let height = #[verifier::truncate] ((numerator / vw) as u32);
    proof {
        assert(numerator as int == (rung.width * video.height) as int + video.width - 1);
        assert(numerator as int / (video.width as int) <= numerator as int);
        assert((((rung.width * video.height) as int + video.width - 1) / (video.width as int))
            == numerator as int / (video.width as u64 as int));
    }
    Rendition {
        width,
        height,
        frame_rate: fps,
        video_bitrate: target,
        maximum_bitrate: 3 * target / 2,
        buffer_size: 2 * target,
        keyframe_interval: fps * SEGMENT_LENGTH_SECONDS,
    }
}

/// The rung vector selected for a source width.
pub fn ladder_for_width(source_width: u32) -> (r: Vec<TranscodingOptions>)
    ensures
        r@ == selected_ladder(source_width),
{
    let mut rungs: Vec<TranscodingOptions> = Vec::new();
    rungs.push(TranscodingOptions { width: 256, height: 144, frame_rate: 30, video_bitrate: 256000 });
    if source_width >= 480 {
        rungs.push(
            TranscodingOptions { width: 480, height: 270, frame_rate: 30, video_bitrate: 768000 },
        );
    }
    if source_width >= 854 {
        rungs.push(
            TranscodingOptions { width: 854, height: 480, frame_rate: 30, video_bitrate: 2621440 },
        );
    }
    if source_width >= 1280 {
        rungs.push(
            TranscodingOptions { width: 1280, height: 720, frame_rate: 60, video_bitrate: 5242880 },
        );
    }
    if source_width >= 1920 {
        rungs.push(
            TranscodingOptions {
                width: 1920,
                height: 1080,
                frame_rate: 60,
                video_bitrate: 8388608,
            },
        );
    }
    proof {
        assert(rungs@ =~= selected_ladder(source_width));
    }
    rungs
}

/// Plan the full set of renditions for a probed source.
pub fn plan_renditions(video: &VideoData) -> (r: Vec<Rendition>)
    requires
        video.width > 0,
        video.height > 0,
    ensures
        r@.len() == selected_ladder(video.width).len(),
        forall|j: int|
            0 <= j < r@.len() ==> r@[j] == spec_rendition(
                #[trigger] selected_ladder(video.width)[j],
                *video,
            ),
{
    let rungs = ladder_for_width(video.width);
    let mut out: Vec<Rendition> = Vec::new();
    let n = rungs.len();
    let mut i: usize = 0;
    while i < n
        invariant
            0 <= i <= n,
            n == rungs@.len(),
            rungs@ == selected_ladder(video.width),
            video.width > 0,
            video.height > 0,
            out@.len() == i,
            forall|j: int|
                0 <= j < i ==> out@[j] == spec_rendition(
                    #[trigger] selected_ladder(video.width)[j],
                    *video,
                ),
        decreases n - i,
    {
        proof {
            assert(forall|j: int|
                0 <= j < selected_ladder(video.width).len()
                    ==> (#[trigger] selected_ladder(video.width)[j]).width <= 1920
                    && selected_ladder(video.width)[j].frame_rate <= 60 && selected_ladder(
                    video.width,
                )[j].video_bitrate <= 8388608);
        }
        let rendition = construct_transcoding_options_with_parameters(&rungs[i], video);
        out.push(rendition);
        i = i + 1;
    }
    out
}

/// The audio bitrate used for every rendition: the source audio bitrate
/// capped at 128 kbps.
pub fn audio_rendition_bitrate(source_audio_bitrate: u32) -> (r: u32)
    ensures
        r == min_u32(AUDIO_BITRATE, source_audio_bitrate),
{
    if AUDIO_BITRATE <= source_audio_bitrate {
        AUDIO_BITRATE
    } else {
        source_audio_bitrate
    }
}

/// Ladder monotonicity: the selected rungs are exactly the lowest rung
/// plus every rung no wider than the source, and each rendition's target
/// bitrate stays within the rung cap and the source bitrate, save for
/// the half-again boost that only a target frame rate of at least 45
/// earns.
pub proof fn lemma_ladder_monotonicity(video: VideoData)
    requires
        video.width > 0,
        video.height > 0,
    ensures
        forall|r: TranscodingOptions|
            selected_ladder(video.width).contains(r) <==> (spec_ladder().contains(r) && (r
                == rung_144() || r.width <= video.width)),
        forall|j: int|
            0 <= j < selected_ladder(video.width).len() ==> ({
                let rung = #[trigger] selected_ladder(video.width)[j];
                let rd = spec_rendition(rung, video);
                &&& rd.frame_rate < 45 ==> rd.video_bitrate <= rung.video_bitrate
                    && rd.video_bitrate <= video.bitrate
                &&& rd.frame_rate >= 45 ==> 2 * rd.video_bitrate <= 3 * min_u32(
                    rung.video_bitrate,
                    video.bitrate,
                )
            }),
{
    let w = video.width;
    let sel = selected_ladder(w);
    assert forall|r: TranscodingOptions| sel.contains(r) implies (spec_ladder().contains(r) && (r
        == rung_144() || r.width <= w)) by {
        let j = choose|j: int| 0 <= j < sel.len() && sel[j] == r;
        assert(spec_ladder()[0] == rung_144());
        assert(spec_ladder()[1] == rung_270());
        assert(spec_ladder()[2] == rung_480());
        assert(spec_ladder()[3] == rung_720());
        assert(spec_ladder()[4] == rung_1080());
        if r == rung_144() {
            assert(spec_ladder().contains(r));
        } else if r == rung_270() {
            assert(spec_ladder().contains(r));
        } else if r == rung_480() {
            assert(spec_ladder().contains(r));
        } else if r == rung_720() {
            assert(spec_ladder().contains(r));
        } else {
            assert(r == rung_1080());
            assert(spec_ladder().contains(r));
        }
    }
    assert forall|r: TranscodingOptions| (spec_ladder().contains(r) && (r == rung_144() || r.width
        <= w)) implies sel.contains(r) by {
        let j = choose|j: int| 0 <= j < spec_ladder().len() && spec_ladder()[j] == r;
        assert(sel[0] == rung_144());
        if r == rung_144() {
            assert(sel.contains(r));
        } else if j == 1 {
            assert(sel[1] == rung_270());
            assert(sel.contains(r));
        } else if j == 2 {
            assert(sel[if w >= 480 { 2int } else { 1int }] == rung_480());
            assert(sel.contains(r));
        } else if j == 3 {
            assert(sel[3] == rung_720());
            assert(sel.contains(r));
        } else {
            assert(sel[4] == rung_1080());
            assert(sel.contains(r));
        }
    }
}

} // verus!
