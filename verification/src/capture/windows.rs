//! What the Windows capture backend shows in its source picker: displays,
//! windows and audio-producing applications, built from what the OS listed,
//! and the Windows build that per-application audio needs; how often frames
//! are taken and how much of each is copied.

use vstd::prelude::*;
use crate::text::{chars_of, string_of, dec_digits, decimal};
use crate::text::split::{trim, trim_chars, extend_chars, slice_vec};
use crate::stream::{SourceId, StreamSource, AudioApp, StreamError};

verus! {

/// WASAPI process loopback landed in Windows 10 build 20348 (Server 2022 /
/// Windows 11). Below that there is no per-application audio at all.
pub const MIN_LOOPBACK_BUILD: u32 = 20348;

/// At most this many windows are offered.
pub const MAX_WINDOW_SOURCES: usize = 40;

/// Thumbnails are taken for the first this many windows only.
pub const WINDOW_THUMBNAIL_LIMIT: usize = 16;

/// `WAVE_FORMAT_PCM`: integer samples.
pub const WAVE_FORMAT_PCM: u16 = 1;

/// `WAVE_FORMAT_IEEE_FLOAT`: 32-bit float samples.
pub const WAVE_FORMAT_IEEE_FLOAT: u16 = 3;

/// The fields of a `WAVEFORMATEX` that describe captured audio.
#[derive(Clone, Copy, PartialEq, Eq, Structural, Debug)]
pub struct WaveFormat {
    pub format_tag: u16,
    pub channels: u16,
    pub samples_per_sec: u32,
    pub avg_bytes_per_sec: u32,
    pub block_align: u16,
    pub bits_per_sample: u16,
    pub extra_size: u16,
}

/// The format audio is captured in: 48 kHz stereo, as 32-bit floats or
/// 16-bit integers.
pub fn wave_format(float: bool) -> (r: WaveFormat)
    ensures
        r.format_tag == (if float {
            WAVE_FORMAT_IEEE_FLOAT
        } else {
            WAVE_FORMAT_PCM
        }),
        r.channels == crate::capture::AUDIO_CHANNELS,
        r.samples_per_sec == crate::capture::AUDIO_SAMPLE_RATE,
        r.bits_per_sample == (if float {
            32u16
        } else {
            16u16
        }),
        r.block_align == r.channels * r.bits_per_sample / 8,
        r.avg_bytes_per_sec == r.samples_per_sec * r.block_align,
        r.extra_size == 0,
{
    let bits: u16 = if float {
        32
    } else {
        16
    };
    let channels = crate::capture::AUDIO_CHANNELS as u16;
    let block_align = channels * bits / 8;
    WaveFormat {
        format_tag: if float {
            WAVE_FORMAT_IEEE_FLOAT
        } else {
            WAVE_FORMAT_PCM
        },
        channels,
        samples_per_sec: crate::capture::AUDIO_SAMPLE_RATE,
        avg_bytes_per_sec: crate::capture::AUDIO_SAMPLE_RATE * block_align as u32,
        block_align,
        bits_per_sample: bits,
        extra_size: 0,
    }
}

/// Whether a machine of Windows build `build` can share one application's
/// audio.
pub fn process_loopback_supported(build: u32) -> (r: bool)
    ensures
        r == (build >= MIN_LOOPBACK_BUILD),
{
    build >= MIN_LOOPBACK_BUILD
}

/// The message given when application audio is asked for on a machine of
/// Windows build `build` that lacks it.
pub open spec fn unsupported_build_message(build: u32) -> Seq<char> {
    "sharing application audio needs Windows 10 build 20348 or newer (this machine reports build "@
        + dec_digits(build as nat) + "); update Windows or share without audio"@
}

/// The error given when application audio is asked for on a machine of
/// Windows build `build`.
pub fn unsupported_build_error(build: u32) -> (r: StreamError)
    ensures
        r matches StreamError::Capture(m) && m@ == unsupported_build_message(build),
{
    let mut out = chars_of(
        "sharing application audio needs Windows 10 build 20348 or newer (this machine reports build ",
    );
    let b = decimal(build as u64);
    extend_chars(&mut out, b.as_slice());
    let tail = chars_of("); update Windows or share without audio");
    extend_chars(&mut out, tail.as_slice());
    StreamError::Capture(string_of(out.as_slice()))
}

/// The position of the last path separator (`\` or `/`) in `s`, or -1.
pub open spec fn last_sep(s: Seq<char>) -> int
    decreases s.len(),
{
    if s.len() == 0 {
        -1
    } else if s.last() == '\\' || s.last() == '/' {
        s.len() - 1
    } else {
        last_sep(s.drop_last())
    }
}

/// `s` with `suffix` removed from its end as many times as it is there, as
/// `str::trim_end_matches` does.
pub open spec fn strip_suffixes(s: Seq<char>, suffix: Seq<char>) -> Seq<char>
    decreases s.len(),
{
    if suffix.len() > 0 && suffix.len() <= s.len() && s.skip(s.len() - suffix.len()) == suffix {
        strip_suffixes(s.take(s.len() - suffix.len()), suffix)
    } else {
        s
    }
}

/// The name of an executable from its path: the last path segment without
/// its `.exe` (then `.EXE`) endings.
pub open spec fn exe_stem(path: Seq<char>) -> Seq<char> {
    let seg = path.skip(last_sep(path) + 1);
    strip_suffixes(strip_suffixes(seg, ".exe"@), ".EXE"@)
}

fn strip_suffixes_chars(s: &[char], suffix: &[char]) -> (r: Vec<char>)
    ensures
        r@ == strip_suffixes(s@, suffix@),
{
    let mut n = s.len();
    assert(s@.take(n as int) =~= s@);
    loop
        invariant
            n <= s@.len(),
            strip_suffixes(s@, suffix@) == strip_suffixes(s@.take(n as int), suffix@),
        decreases n,
    {
        let ghost t = s@.take(n as int);
        if suffix.len() == 0 || suffix.len() > n {
            return slice_vec(s, 0, n);
        }
        let start = n - suffix.len();
        let mut j: usize = 0;
        let mut same = true;
        while j < suffix.len()
            invariant
                start + suffix@.len() == n,
                n <= s@.len(),
                0 <= j <= suffix@.len(),
                same == forall|k: int| 0 <= k < j ==> s@[start + k] == suffix@[k],
            decreases suffix@.len() - j,
        {
            if s[start + j] != suffix[j] {
                same = false;
            }
            j = j + 1;
        }
        if same {
            assert(t.skip(start as int) =~= suffix@);
            assert(t.take(start as int) =~= s@.take(start as int));
            n = start;
        } else {
            assert(t.skip(start as int) != suffix@) by {
                let k = choose|k: int| 0 <= k < suffix@.len() && s@[start + k] != suffix@[k];
                assert(t.skip(start as int)[k] == s@[start + k]);
            }
            return slice_vec(s, 0, n);
        }
    }
}

fn exe_stem_chars(path: &[char]) -> (r: Vec<char>)
    ensures
        r@ == exe_stem(path@),
{
    let mut i = path.len();
    assert(path@.take(i as int) =~= path@);
    while i > 0 && path[i - 1] != '\\' && path[i - 1] != '/'
        invariant
            0 <= i <= path@.len(),
            last_sep(path@) == last_sep(path@.take(i as int)),
        decreases i,
    {
        assert(path@.take(i as int).drop_last() =~= path@.take(i - 1));
        i = i - 1;
    }
    let seg = slice_vec(path, i, path.len());
    assert(seg@ =~= path@.skip(last_sep(path@) + 1));
    let exe = chars_of(".exe");
    let upper = chars_of(".EXE");
    let a = strip_suffixes_chars(seg.as_slice(), exe.as_slice());
    strip_suffixes_chars(a.as_slice(), upper.as_slice())
}

/// The name of the process whose executable lies at `path`, if it has one.
pub fn process_name(path: &str) -> (r: Option<String>)
    ensures
        exe_stem(path@).len() == 0 ==> r is None,
        exe_stem(path@).len() > 0 ==> (r matches Some(n) && n@ == exe_stem(path@)),
{
    let p = chars_of(path);
    let stem = exe_stem_chars(p.as_slice());
    if stem.len() == 0 {
        None
    } else {
        Some(string_of(stem.as_slice()))
    }
}

/// The audio application entry of process `pid` whose executable lies at
/// `path`: its name is the executable's stem, and none where that is empty.
pub fn audio_app(pid: u32, path: &str) -> (r: Option<AudioApp>)
    ensures
        exe_stem(path@).len() == 0 ==> r is None,
        exe_stem(path@).len() > 0 ==> (r matches Some(a) && a.pid == pid as i32 && a.name@
            == exe_stem(path@) && a.bundle_id@ == path@),
{
    match process_name(path) {
        None => None,
        Some(name) => Some(AudioApp { pid: pid as i32, name, bundle_id: path.to_owned() }),
    }
}

/// A display as the OS lists it: its handle, its rectangle on the desktop
/// and whether it is the primary one.
#[derive(Clone, Copy, PartialEq, Eq, Structural, Debug)]
pub struct Monitor {
    pub handle: u64,
    pub left: i32,
    pub top: i32,
    pub right: i32,
    pub bottom: i32,
    pub primary: bool,
}

/// A top-level window as the OS lists it, by its 32-bit handle.
#[derive(Clone, Debug)]
pub struct Window {
    pub id: u32,
    pub title: String,
    pub app: Option<String>,
    pub width: u32,
    pub height: u32,
}

/// A side of a rectangle, 0 where it is negative.
pub open spec fn edge(lo: i32, hi: i32) -> int {
    if hi - lo >= 0 {
        hi - lo
    } else {
        0
    }
}

/// The picker title of display number `n`.
pub open spec fn display_title(n: nat, w: nat, h: nat, primary: bool) -> Seq<char> {
    "Display "@ + dec_digits(n) + " ("@ + dec_digits(w) + seq!['×'] + dec_digits(h) + (if primary {
        ", primary)"@
    } else {
        ")"@
    })
}

/// The display `m`, number `i + 1` in the picker, with `thumbnail`.
pub open spec fn display_source_ok(s: StreamSource, i: int, m: Monitor, thumbnail: Option<String>) -> bool {
    let w = edge(m.left, m.right);
    let h = edge(m.top, m.bottom);
    &&& s.id == SourceId::Display { id: (i + 1) as u32 }
    &&& s.title@ == display_title((i + 1) as nat, w as nat, h as nat, m.primary)
    &&& s.app_name is None
    &&& s.width == w
    &&& s.height == h
    &&& s.thumbnail == thumbnail
}

/// A copy of an optional string.
fn copy_opt(s: &Option<String>) -> (r: Option<String>)
    ensures
        r == *s,
{
    match s {
        Some(t) => Some(t.clone()),
        None => None,
    }
}

/// The thumbnail at `i`, where there is one.
pub open spec fn thumb_at(thumbnails: Seq<Option<String>>, i: int) -> Option<String> {
    if i < thumbnails.len() {
        thumbnails[i]
    } else {
        None
    }
}

/// The picker entries of the listed displays, numbered from 1, each with the
/// thumbnail at its position where one was taken.
#[verifier::rlimit(30)]
pub fn display_sources(found: &[Monitor], thumbnails: &[Option<String>]) -> (r: Vec<StreamSource>)
    requires
        found@.len() < u32::MAX,
        forall|i: int|
            0 <= i < found@.len() ==> i32::MIN <= (#[trigger] found@[i]).right - found@[i].left
                <= i32::MAX && i32::MIN <= found@[i].bottom - found@[i].top <= i32::MAX,
    ensures
        r@.len() == found@.len(),
        forall|i: int|
            0 <= i < r@.len() ==> display_source_ok(
                #[trigger] r@[i],
                i,
                found@[i],
                thumb_at(thumbnails@, i),
            ),
{
    let mut out: Vec<StreamSource> = Vec::new();
    let mut i: usize = 0;
    while i < found.len()
        invariant
            0 <= i <= found@.len(),
            found@.len() < u32::MAX,
            forall|k: int|
                0 <= k < found@.len() ==> i32::MIN <= (#[trigger] found@[k]).right - found@[k].left
                    <= i32::MAX && i32::MIN <= found@[k].bottom - found@[k].top <= i32::MAX,
            out@.len() == i,
            forall|k: int|
                0 <= k < i ==> display_source_ok(
                    #[trigger] out@[k],
                    k,
                    found@[k],
                    thumb_at(thumbnails@, k),
                ),
        decreases found@.len() - i,
    {
        let m = found[i];
        let dw = m.right - m.left;
        let dh = m.bottom - m.top;
        let w: u32 = if dw >= 0 {
            dw as u32
        } else {
            0
        };
        let h: u32 = if dh >= 0 {
            dh as u32
        } else {
            0
        };
        let mut title = chars_of("Display ");
        let n = decimal((i + 1) as u64);
        extend_chars(&mut title, n.as_slice());
        let open = chars_of(" (");
        extend_chars(&mut title, open.as_slice());
        let wd = decimal(w as u64);
        extend_chars(&mut title, wd.as_slice());
        title.push('×');
        let hd = decimal(h as u64);
        extend_chars(&mut title, hd.as_slice());
        let close = if m.primary {
            chars_of(", primary)")
        } else {
            chars_of(")")
        };
        extend_chars(&mut title, close.as_slice());
        assert(title@ =~= display_title((i + 1) as nat, w as nat, h as nat, m.primary));
        let thumbnail = if i < thumbnails.len() {
            copy_opt(&thumbnails[i])
        } else {
            None
        };
        let src = StreamSource {
            id: SourceId::Display { id: (i + 1) as u32 },
            title: string_of(title.as_slice()),
            app_name: None,
            width: w,
            height: h,
            thumbnail,
        };
        out.push(src);
        i = i + 1;
    }
    out
}

/// The picker title of a window: its own title, or its application's name
/// where the title is blank.
pub open spec fn window_title(w: Window) -> Seq<char> {
    if trim(w.title@).len() == 0 {
        match w.app {
            Some(a) => a@,
            None => Seq::empty(),
        }
    } else {
        w.title@
    }
}

/// The window `w` in the picker, with `thumbnail`.
pub open spec fn window_source_ok(s: StreamSource, w: Window, thumbnail: Option<String>) -> bool {
    &&& s.id == SourceId::Window { id: w.id }
    &&& s.title@ == window_title(w)
    &&& s.app_name == w.app
    &&& s.width == w.width
    &&& s.height == w.height
    &&& s.thumbnail == thumbnail
}

/// Whether the window at position `i` gets a thumbnail when thumbnails are
/// asked for.
pub fn wants_window_thumbnail(thumbnails: bool, i: usize) -> (r: bool)
    ensures
        r == (thumbnails && i < WINDOW_THUMBNAIL_LIMIT),
{
    thumbnails && i < WINDOW_THUMBNAIL_LIMIT
}

/// The picker entries of the first 40 listed windows, in order, each with the
/// thumbnail at its position where one was taken.
#[verifier::rlimit(30)]
pub fn window_sources(listed: &[Window], thumbnails: &[Option<String>]) -> (r: Vec<StreamSource>)
    ensures
        r@.len() == if listed@.len() < MAX_WINDOW_SOURCES {
            listed@.len()
        } else {
            MAX_WINDOW_SOURCES as nat
        },
        forall|i: int|
            0 <= i < r@.len() ==> window_source_ok(
                #[trigger] r@[i],
                listed@[i],
                thumb_at(thumbnails@, i),
            ),
{
    let mut out: Vec<StreamSource> = Vec::new();
    let mut i: usize = 0;
    while i < listed.len() && i < MAX_WINDOW_SOURCES
        invariant
            0 <= i <= listed@.len(),
            i <= MAX_WINDOW_SOURCES,
            out@.len() == i,
            forall|k: int|
                0 <= k < i ==> window_source_ok(
                    #[trigger] out@[k],
                    listed@[k],
                    thumb_at(thumbnails@, k),
                ),
        decreases listed@.len() - i,
    {
        let w = &listed[i];
        let t = trim_chars(chars_of(w.title.as_str()).as_slice());
        let title = if t.len() == 0 {
            match &w.app {
                Some(a) => a.clone(),
                None => String::new(),
            }
        } else {
            w.title.clone()
        };
        let thumbnail = if i < thumbnails.len() {
            copy_opt(&thumbnails[i])
        } else {
            None
        };
        let src = StreamSource {
            id: SourceId::Window { id: w.id },
            title,
            app_name: copy_opt(&w.app),
            width: w.width,
            height: w.height,
            thumbnail,
        };
        out.push(src);
        i = i + 1;
    }
    out
}

/// The display numbered `id` (from 1) among those listed.
pub fn monitor_from_id(id: u32, found: &[Monitor]) -> (r: Result<Monitor, StreamError>)
    ensures
        (id == 0 || id > found@.len()) ==> r == Err::<Monitor, StreamError>(StreamError::SourceGone),
        (1 <= id <= found@.len()) ==> r == Ok::<Monitor, StreamError>(found@[id - 1]),
{
    if id == 0 || id as usize > found.len() {
        return Err(StreamError::SourceGone);
    }
    Ok(found[(id - 1) as usize])
}

/// The source id of a window: the low 32 bits of its handle, which are all
/// that a window handle carries, so the id reads back as the same window.
pub fn window_id(handle: u64) -> (r: u32)
    ensures
        r == handle % 0x1_0000_0000,
{
    (handle % 0x1_0000_0000) as u32
}

/// What a capture session captures: a display or a window, by OS handle.
#[derive(Clone, Copy, Debug, PartialEq, Eq, Structural)]
pub enum Target {
    Monitor(u64),
    Window(u64),
}

/// The capture target of a display or window source: the display's handle
/// for a display numbered among those listed, the window's handle for a
/// window; an error for a display not listed or a window gone, and for a
/// synthetic source, which no OS capture takes. `window_handle` is the handle
/// that the OS gives for the window id, if it still has the window.
pub fn target_for(
    source: &SourceId,
    found: &[Monitor],
    window_handle: Option<u64>,
) -> (r: Result<Target, StreamError>)
    ensures
        match *source {
            SourceId::Display { id } => if 1 <= id <= found@.len() {
                r == Ok::<Target, StreamError>(Target::Monitor(found@[id - 1].handle))
            } else {
                r == Err::<Target, StreamError>(StreamError::SourceGone)
            },
            SourceId::Window { .. } => match window_handle {
                Some(h) => r == Ok::<Target, StreamError>(Target::Window(h)),
                None => r == Err::<Target, StreamError>(StreamError::SourceGone),
            },
            SourceId::Synthetic { .. } => r == Err::<Target, StreamError>(StreamError::Unsupported),
        },
{
    match source {
        SourceId::Display { id } => match monitor_from_id(*id, found) {
            Ok(m) => Ok(Target::Monitor(m.handle)),
            Err(e) => Err(e),
        },
        SourceId::Window { .. } => match window_handle {
            Some(h) => Ok(Target::Window(h)),
            None => Err(StreamError::SourceGone),
        },
        SourceId::Synthetic { .. } => Err(StreamError::Unsupported),
    }
}

/// The shortest time between two frames at `fps` frames per second (at
/// least one), in nanoseconds.
pub fn min_frame_interval_ns(fps: u16) -> (r: u64)
    ensures
        r == 1_000_000_000int / (if fps == 0 {
            1
        } else {
            fps as int
        }),
{
    let f: u64 = if fps == 0 {
        1
    } else {
        fps as u64
    };
    1_000_000_000 / f
}

/// Whether a frame that arrives `since_last_ns` nanoseconds after the last
/// one taken (`None` before the first) is taken: frames closer together
/// than the interval, less half a millisecond of slack, are dropped.
pub fn frame_due(since_last_ns: Option<u64>, fps: u16) -> (r: bool)
    ensures
        r == match since_last_ns {
            None => true,
            Some(e) => e + 500_000 >= 1_000_000_000int / (if fps == 0 {
                1
            } else {
                fps as int
            }),
        },
{
    match since_last_ns {
        None => true,
        Some(e) => {
            let interval = min_frame_interval_ns(fps);
            !(e < interval && interval - e > 500_000)
        },
    }
}

/// The region copied from a captured frame of `src_w` by `src_h` (negative
/// sizes count as 0) into a texture of `dst_w` by `dst_h`: the smaller of
/// the two in each direction; `None` when it is empty.
pub fn copy_region(dst_w: u32, dst_h: u32, src_w: i32, src_h: i32) -> (r: Option<(u32, u32)>)
    ensures
        ({
            let sw: int = if src_w < 0 {
                0
            } else {
                src_w as int
            };
            let sh: int = if src_h < 0 {
                0
            } else {
                src_h as int
            };
            let right: int = if dst_w <= sw {
                dst_w as int
            } else {
                sw
            };
            let bottom: int = if dst_h <= sh {
                dst_h as int
            } else {
                sh
            };
            if right == 0 || bottom == 0 {
                r is None
            } else {
                r == Some((right as u32, bottom as u32))
            }
        }),
{
    let sw: u32 = if src_w < 0 {
        0
    } else {
        src_w as u32
    };
    let sh: u32 = if src_h < 0 {
        0
    } else {
        src_h as u32
    };
    let right = if dst_w <= sw {
        dst_w
    } else {
        sw
    };
    let bottom = if dst_h <= sh {
        dst_h
    } else {
        sh
    };
    if right == 0 || bottom == 0 {
        None
    } else {
        Some((right, bottom))
    }
}

} // verus!
