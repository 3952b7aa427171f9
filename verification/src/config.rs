//! The mirroring session configuration and the argument vector built from
//! it.
//!
//! `build_args` turns a configuration into exactly the flag sequence the
//! mirroring tool is launched with: an optional device selector pair first,
//! then the four video flags, then `--no-audio` when audio is off, then one
//! flag per enabled toggle in declared order, then an optional record flag.

use vstd::prelude::*;

use crate::text::dec_str;
use crate::text::push_u32_dec;
use crate::text::with_detail;

verus! {

/// The parameters of one mirroring session.
#[derive(Debug, Clone)]
pub struct ScrcpyConfig {
    pub device_id: String,
    pub max_size: u32,
    pub max_fps: u32,
    pub bitrate: String,
    pub video_codec: String,
    pub audio_enabled: bool,
    pub show_touches: bool,
    pub stay_awake: bool,
    pub fullscreen: bool,
    pub borderless: bool,
    pub always_on_top: bool,
    pub turn_screen_off: bool,
    pub record_path: Option<String>,
}

/// The mathematical content of a `ScrcpyConfig`.
pub struct ConfigModel {
    pub device_id: Seq<char>,
    pub max_size: u32,
    pub max_fps: u32,
    pub bitrate: Seq<char>,
    pub video_codec: Seq<char>,
    pub audio_enabled: bool,
    pub show_touches: bool,
    pub stay_awake: bool,
    pub fullscreen: bool,
    pub borderless: bool,
    pub always_on_top: bool,
    pub turn_screen_off: bool,
    pub record_path: Option<Seq<char>>,
}

impl View for ScrcpyConfig {
    type V = ConfigModel;

    open spec fn view(&self) -> ConfigModel {
        ConfigModel {
            device_id: self.device_id@,
            max_size: self.max_size,
            max_fps: self.max_fps,
            bitrate: self.bitrate@,
            video_codec: self.video_codec@,
            audio_enabled: self.audio_enabled,
            show_touches: self.show_touches,
            stay_awake: self.stay_awake,
            fullscreen: self.fullscreen,
            borderless: self.borderless,
            always_on_top: self.always_on_top,
            turn_screen_off: self.turn_screen_off,
            record_path: match self.record_path {
                Some(p) => Some(p@),
                None => None,
            },
        }
    }
}

/// The documented defaults: no device selected, 1920 max dimension, 60
/// frames per second, bit rate `8M`, codec `h264`, audio on, all six
/// display toggles off, no recording.
pub open spec fn default_config() -> ConfigModel {
    ConfigModel {
        device_id: Seq::empty(),
        max_size: 1920,
        max_fps: 60,
        bitrate: "8M"@,
        video_codec: "h264"@,
        audio_enabled: true,
        show_touches: false,
        stay_awake: false,
        fullscreen: false,
        borderless: false,
        always_on_top: false,
        turn_screen_off: false,
        record_path: None,
    }
}

impl Default for ScrcpyConfig {
    fn default() -> (r: Self)
        ensures
            r@ == default_config(),
    {
        let r = ScrcpyConfig {
            device_id: String::new(),
            max_size: 1920,
            max_fps: 60,
            bitrate: String::from_str("8M"),
            video_codec: String::from_str("h264"),
            audio_enabled: true,
            show_touches: false,
            stay_awake: false,
            fullscreen: false,
            borderless: false,
            always_on_top: false,
            turn_screen_off: false,
            record_path: None,
        };
        r
    }
}

/// The device selector pair: present exactly when a device is named.
pub open spec fn device_args(c: ConfigModel) -> Seq<Seq<char>> {
    if c.device_id.len() > 0 {
        seq!["-s"@, c.device_id]
    } else {
        Seq::empty()
    }
}

/// The four video flags, always present, in this order.
pub open spec fn video_args(c: ConfigModel) -> Seq<Seq<char>> {
    seq![
        "--max-size="@ + dec_str(c.max_size as int),
        "--max-fps="@ + dec_str(c.max_fps as int),
        "--video-bit-rate="@ + c.bitrate,
        "--video-codec="@ + c.video_codec,
    ]
}

/// `--no-audio`, present exactly when audio is disabled.
pub open spec fn audio_args(c: ConfigModel) -> Seq<Seq<char>> {
    if !c.audio_enabled {
        seq!["--no-audio"@]
    } else {
        Seq::empty()
    }
}

pub open spec fn toggle_arg(enabled: bool, flag: Seq<char>) -> Seq<Seq<char>> {
    if enabled {
        seq![flag]
    } else {
        Seq::empty()
    }
}

/// One flag per enabled display toggle, in the declared order.
pub open spec fn toggle_args(c: ConfigModel) -> Seq<Seq<char>> {
    toggle_arg(c.show_touches, "--show-touches"@) + toggle_arg(c.stay_awake, "--stay-awake"@)
        + toggle_arg(c.fullscreen, "--fullscreen"@) + toggle_arg(
        c.borderless,
        "--window-borderless"@,
    ) + toggle_arg(c.always_on_top, "--always-on-top"@) + toggle_arg(
        c.turn_screen_off,
        "--turn-screen-off"@,
    )
}

/// The record flag, present exactly when a non-empty recording path is
/// given.
pub open spec fn record_args(c: ConfigModel) -> Seq<Seq<char>> {
    match c.record_path {
        Some(p) => if p.len() > 0 {
            seq!["--record="@ + p]
        } else {
            Seq::empty()
        },
        None => Seq::empty(),
    }
}

/// The whole argument vector the mirroring tool is launched with.
pub open spec fn scrcpy_args(c: ConfigModel) -> Seq<Seq<char>> {
    device_args(c) + video_args(c) + audio_args(c) + toggle_args(c) + record_args(c)
}

/// The views of the strings in `v`.
pub open spec fn arg_views(v: Seq<String>) -> Seq<Seq<char>> {
    v.map_values(|s: String| s@)
}

fn push_arg(args: &mut Vec<String>, a: String)
    ensures
        arg_views(final(args)@) == arg_views(old(args)@).push(a@),
{
    let ghost av = a@;
    let ghost m = arg_views(args@);
    args.push(a);
    proof {
        assert(arg_views(args@) =~= m.push(av));
    }
}

/// 1 when `b` holds, else 0.
pub open spec fn bit(b: bool) -> int {
    if b {
        1
    } else {
        0
    }
}

/// How many elements of `args` at or after index `i` satisfy `p`.
pub open spec fn count_from(args: Seq<Seq<char>>, p: spec_fn(Seq<char>) -> bool, i: int) -> int
    decreases args.len() - i,
{
    if i < 0 || i >= args.len() {
        0
    } else {
        bit(p(args[i])) + count_from(args, p, i + 1)
    }
}

/// How many elements of `args` satisfy `p`.
pub open spec fn count_where(args: Seq<Seq<char>>, p: spec_fn(Seq<char>) -> bool) -> int {
    count_from(args, p, 0)
}

proof fn lemma_count_shift(
    a: Seq<Seq<char>>,
    b: Seq<Seq<char>>,
    p: spec_fn(Seq<char>) -> bool,
    j: int,
)
    requires
        0 <= j <= b.len(),
    ensures
        count_from(a + b, p, a.len() + j) == count_from(b, p, j),
    decreases b.len() - j,
{
    if j < b.len() {
        assert((a + b)[a.len() + j] == b[j]);
        lemma_count_shift(a, b, p, j + 1);
    }
}

proof fn lemma_count_split(
    a: Seq<Seq<char>>,
    b: Seq<Seq<char>>,
    p: spec_fn(Seq<char>) -> bool,
    i: int,
)
    requires
        0 <= i <= a.len(),
    ensures
        count_from(a + b, p, i) == count_from(a, p, i) + count_from(b, p, 0),
    decreases a.len() - i,
{
    if i < a.len() {
        assert((a + b)[i] == a[i]);
        lemma_count_split(a, b, p, i + 1);
    } else {
        lemma_count_shift(a, b, p, 0);
    }
}

/// Counting distributes over concatenation.
pub proof fn lemma_count_concat(a: Seq<Seq<char>>, b: Seq<Seq<char>>, p: spec_fn(Seq<char>) -> bool)
    ensures
        count_where(a + b, p) == count_where(a, p) + count_where(b, p),
{
    lemma_count_split(a, b, p, 0);
}

/// A decimal writing always has at least one digit.
pub proof fn lemma_dec_str_len(n: int)
    requires
        n >= 0,
    ensures
        dec_str(n).len() >= 1,
    decreases n,
{
    if n >= 10 {
        lemma_dec_str_len(n / 10);
    }
}

proof fn lemma_count_toggle(b: bool, f: Seq<char>, p: spec_fn(Seq<char>) -> bool)
    ensures
        count_where(toggle_arg(b, f), p) == (if b {
            bit(p(f))
        } else {
            0
        }),
{
    if b {
        assert(toggle_arg(b, f)[0] == f);
        assert(count_from(toggle_arg(b, f), p, 1) == 0);
    }
}

/// What each element of the built vector contributes to the number of
/// elements satisfying `p`, spelled out piece by piece.
#[verifier::rlimit(100)]
pub proof fn lemma_args_count(c: ConfigModel, p: spec_fn(Seq<char>) -> bool)
    ensures
        count_where(scrcpy_args(c), p) == (if c.device_id.len() > 0 {
            bit(p("-s"@)) + bit(p(c.device_id))
        } else {
            0
        }) + bit(p("--max-size="@ + dec_str(c.max_size as int))) + bit(
            p("--max-fps="@ + dec_str(c.max_fps as int)),
        ) + bit(p("--video-bit-rate="@ + c.bitrate)) + bit(p("--video-codec="@ + c.video_codec))
            + (if !c.audio_enabled {
            bit(p("--no-audio"@))
        } else {
            0
        }) + (if c.show_touches {
            bit(p("--show-touches"@))
        } else {
            0
        }) + (if c.stay_awake {
            bit(p("--stay-awake"@))
        } else {
            0
        }) + (if c.fullscreen {
            bit(p("--fullscreen"@))
        } else {
            0
        }) + (if c.borderless {
            bit(p("--window-borderless"@))
        } else {
            0
        }) + (if c.always_on_top {
            bit(p("--always-on-top"@))
        } else {
            0
        }) + (if c.turn_screen_off {
            bit(p("--turn-screen-off"@))
        } else {
            0
        }) + (match c.record_path {
            Some(q) => if q.len() > 0 {
                bit(p("--record="@ + q))
            } else {
                0
            },
            None => 0,
        }),
{
    let d = device_args(c);
    let v = video_args(c);
    let au = audio_args(c);
    let t = toggle_args(c);
    let r = record_args(c);
    // Outer concatenation.
    lemma_count_concat(d, v, p);
    lemma_count_concat(d + v, au, p);
    lemma_count_concat(d + v + au, t, p);
    lemma_count_concat(d + v + au + t, r, p);
    // Device piece.
    if c.device_id.len() > 0 {
        assert(d[0] == "-s"@ && d[1] == c.device_id);
        assert(count_from(d, p, 2) == 0);
        assert(count_from(d, p, 1) == bit(p(c.device_id)));
    }
    // Video piece.
    assert(v[0] == "--max-size="@ + dec_str(c.max_size as int));
    assert(v[1] == "--max-fps="@ + dec_str(c.max_fps as int));
    assert(v[2] == "--video-bit-rate="@ + c.bitrate);
    assert(v[3] == "--video-codec="@ + c.video_codec);
    assert(count_from(v, p, 4) == 0);
    assert(count_from(v, p, 3) == bit(p(v[3])));
    assert(count_from(v, p, 2) == bit(p(v[2])) + bit(p(v[3])));
    assert(count_from(v, p, 1) == bit(p(v[1])) + bit(p(v[2])) + bit(p(v[3])));
    // Audio piece.
    if !c.audio_enabled {
        assert(au[0] == "--no-audio"@);
        assert(count_from(au, p, 1) == 0);
    }
    // Toggle pieces.
    let t1 = toggle_arg(c.show_touches, "--show-touches"@);
    let t2 = toggle_arg(c.stay_awake, "--stay-awake"@);
    let t3 = toggle_arg(c.fullscreen, "--fullscreen"@);
    let t4 = toggle_arg(c.borderless, "--window-borderless"@);
    let t5 = toggle_arg(c.always_on_top, "--always-on-top"@);
    let t6 = toggle_arg(c.turn_screen_off, "--turn-screen-off"@);
    lemma_count_toggle(c.show_touches, "--show-touches"@, p);
    lemma_count_toggle(c.stay_awake, "--stay-awake"@, p);
    lemma_count_toggle(c.fullscreen, "--fullscreen"@, p);
    lemma_count_toggle(c.borderless, "--window-borderless"@, p);
    lemma_count_toggle(c.always_on_top, "--always-on-top"@, p);
    lemma_count_toggle(c.turn_screen_off, "--turn-screen-off"@, p);
    lemma_count_concat(t1, t2, p);
    lemma_count_concat(t1 + t2, t3, p);
    lemma_count_concat(t1 + t2 + t3, t4, p);
    lemma_count_concat(t1 + t2 + t3 + t4, t5, p);
    lemma_count_concat(t1 + t2 + t3 + t4 + t5, t6, p);
    // Record piece.
    match c.record_path {
        Some(q) => {
            if q.len() > 0 {
                assert(r[0] == "--record="@ + q);
                assert(count_from(r, p, 1) == 0);
            }
        },
        None => {},
    }
}

proof fn lemma_not_prefix_by_len(p: Seq<char>, a: Seq<char>)
    requires
        a.len() < p.len(),
    ensures
        !p.is_prefix_of(a),
{
}

proof fn lemma_not_prefix_by_index(p: Seq<char>, a: Seq<char>, i: int)
    requires
        0 <= i < p.len(),
        i < a.len(),
        p[i] != a[i],
    ensures
        !p.is_prefix_of(a),
{
    if p.is_prefix_of(a) {
        assert(p[i] == a.subrange(0, p.len() as int)[i]);
    }
}

proof fn lemma_prefix_of_concat(p: Seq<char>, s: Seq<char>)
    ensures
        p.is_prefix_of(p + s),
{
    assert(p =~= (p + s).subrange(0, p.len() as int));
}

/// Facts every flag-multiplicity proof leans on: the lengths and leading
/// characters of the built elements.
proof fn lemma_element_shapes(c: ConfigModel)
    ensures
        ("--max-size="@ + dec_str(c.max_size as int)).len() >= 12,
        ("--max-fps="@ + dec_str(c.max_fps as int)).len() >= 11,
        ("--video-bit-rate="@ + c.bitrate).len() >= 17,
        ("--video-codec="@ + c.video_codec).len() >= 14,
        ("--max-size="@ + dec_str(c.max_size as int))[2] == 'm',
        ("--max-fps="@ + dec_str(c.max_fps as int))[2] == 'm',
        ("--max-fps="@ + dec_str(c.max_fps as int))[6] == 'f',
        ("--video-bit-rate="@ + c.bitrate)[2] == 'v',
        ("--video-bit-rate="@ + c.bitrate)[8] == 'b',
        ("--video-codec="@ + c.video_codec)[2] == 'v',
        ("--video-codec="@ + c.video_codec)[8] == 'c',
        c.record_path matches Some(q) ==> ("--record="@ + q).len() >= 9 + q.len() && ("--record="@
            + q)[2] == 'r',
{
    reveal_strlit("--max-size=");
    reveal_strlit("--max-fps=");
    reveal_strlit("--video-bit-rate=");
    reveal_strlit("--video-codec=");
    reveal_strlit("--record=");
    lemma_dec_str_len(c.max_size as int);
    lemma_dec_str_len(c.max_fps as int);
    assert(("--max-size="@ + dec_str(c.max_size as int))[2] == "--max-size="@[2]);
    assert(("--max-fps="@ + dec_str(c.max_fps as int))[2] == "--max-fps="@[2]);
    assert(("--max-fps="@ + dec_str(c.max_fps as int))[6] == "--max-fps="@[6]);
    assert(("--video-bit-rate="@ + c.bitrate)[2] == "--video-bit-rate="@[2]);
    assert(("--video-bit-rate="@ + c.bitrate)[8] == "--video-bit-rate="@[8]);
    assert(("--video-codec="@ + c.video_codec)[2] == "--video-codec="@[2]);
    assert(("--video-codec="@ + c.video_codec)[8] == "--video-codec="@[8]);
    match c.record_path {
        Some(q) => {
            assert(("--record="@ + q)[2] == "--record="@[2]);
        },
        None => {},
    }
}

/// With no device named the built vector never holds the selector flag
/// `-s`.
pub proof fn lemma_no_selector_without_device(c: ConfigModel)
    requires
        c.device_id.len() == 0,
    ensures
        count_where(scrcpy_args(c), |a: Seq<char>| a == "-s"@) == 0,
{
    let p = |a: Seq<char>| a == "-s"@;
    lemma_args_count(c, p);
    lemma_element_shapes(c);
    reveal_strlit("-s");
    reveal_strlit("--no-audio");
    reveal_strlit("--show-touches");
    reveal_strlit("--stay-awake");
    reveal_strlit("--fullscreen");
    reveal_strlit("--window-borderless");
    reveal_strlit("--always-on-top");
    reveal_strlit("--turn-screen-off");
    assert(bit(p("--max-size="@ + dec_str(c.max_size as int))) == 0);
    assert(bit(p("--max-fps="@ + dec_str(c.max_fps as int))) == 0);
    assert(bit(p("--video-bit-rate="@ + c.bitrate)) == 0);
    assert(bit(p("--video-codec="@ + c.video_codec)) == 0);
    assert("-s"@.len() == 2);
    assert("--no-audio"@.len() == 10);
    assert("--show-touches"@.len() == 14);
    assert("--stay-awake"@.len() == 12);
    assert("--fullscreen"@.len() == 12);
    assert("--window-borderless"@.len() == 19);
    assert("--always-on-top"@.len() == 15);
    assert("--turn-screen-off"@.len() == 17);
    assert(bit(p("--no-audio"@)) == 0);
    assert(bit(p("--show-touches"@)) == 0);
    assert(bit(p("--stay-awake"@)) == 0);
    assert(bit(p("--fullscreen"@)) == 0);
    assert(bit(p("--window-borderless"@)) == 0);
    assert(bit(p("--always-on-top"@)) == 0);
    assert(bit(p("--turn-screen-off"@)) == 0);
    match c.record_path {
        Some(q) => {
            if q.len() > 0 {
                assert(("--record="@ + q).len() >= 10);
                assert(bit(p("--record="@ + q)) == 0);
            }
        },
        None => {},
    }
}

/// With a device named, the selector pair stands first in the built
/// vector: `-s`, then the identifier.
pub proof fn lemma_selector_first(c: ConfigModel)
    requires
        c.device_id.len() > 0,
    ensures
        scrcpy_args(c).len() >= 2,
        scrcpy_args(c)[0] == "-s"@,
        scrcpy_args(c)[1] == c.device_id,
{
    let d = device_args(c);
    assert(d[0] == "-s"@ && d[1] == c.device_id);
    assert(scrcpy_args(c)[0] == d[0]);
    assert(scrcpy_args(c)[1] == d[1]);
}

/// The length of the selector piece: 2 when a device is named, else 0.
pub open spec fn selector_len(c: ConfigModel) -> int {
    if c.device_id.len() > 0 {
        2
    } else {
        0
    }
}

/// Where the fixed flags stand: the four video flags come consecutively,
/// in this order, immediately after the optional selector pair;
/// `--no-audio` stands directly after the codec flag when audio is off;
/// and the record element, when present, is the final element.
pub proof fn lemma_args_layout(c: ConfigModel)
    ensures
        scrcpy_args(c)[selector_len(c)] == "--max-size="@ + dec_str(c.max_size as int),
        scrcpy_args(c)[selector_len(c) + 1] == "--max-fps="@ + dec_str(c.max_fps as int),
        scrcpy_args(c)[selector_len(c) + 2] == "--video-bit-rate="@ + c.bitrate,
        scrcpy_args(c)[selector_len(c) + 3] == "--video-codec="@ + c.video_codec,
        !c.audio_enabled ==> scrcpy_args(c)[selector_len(c) + 4] == "--no-audio"@,
        c.record_path matches Some(q) ==> (q.len() > 0 ==> scrcpy_args(c).last() == "--record="@
            + q),
{
    let d = device_args(c);
    let v = video_args(c);
    let au = audio_args(c);
    let t = toggle_args(c);
    let r = record_args(c);
    let s1 = d + v;
    let s2 = s1 + au;
    let s3 = s2 + t;
    let s4 = s3 + r;
    assert(s4 == scrcpy_args(c));
    let sl = selector_len(c);
    assert(d.len() == sl);
    assert forall|k: int| 0 <= k < 4 implies #[trigger] s4[sl + k] == v[k] by {
        assert(s1[sl + k] == v[k]);
        assert(s2[sl + k] == s1[sl + k]);
        assert(s3[sl + k] == s2[sl + k]);
        assert(s4[sl + k] == s3[sl + k]);
    }
    assert(s4[sl + 0] == v[0]);
    assert(s4[sl + 1] == v[1]);
    assert(s4[sl + 2] == v[2]);
    assert(s4[sl + 3] == v[3]);
    if !c.audio_enabled {
        assert(s2[s1.len() as int] == au[0]);
        assert(s3[sl + 4] == s2[sl + 4]);
        assert(s4[sl + 4] == s3[sl + 4]);
    }
    match c.record_path {
        Some(q) => {
            if q.len() > 0 {
                assert(s4[s3.len() as int] == r[0]);
                assert(s4.last() == r[0]);
            }
        },
        None => {},
    }
}

proof fn lemma_flag_lens()
    ensures
        "-s"@.len() == 2,
        "--max-size="@.len() == 11,
        "--max-size="@[0] == '-',
        "--max-size="@[2] == 'm',
        "--max-size="@[6] == 's',
        "--max-fps="@.len() == 10,
        "--max-fps="@[0] == '-',
        "--max-fps="@[2] == 'm',
        "--max-fps="@[6] == 'f',
        "--video-bit-rate="@.len() == 17,
        "--video-bit-rate="@[0] == '-',
        "--video-bit-rate="@[2] == 'v',
        "--video-bit-rate="@[8] == 'b',
        "--video-codec="@.len() == 14,
        "--video-codec="@[0] == '-',
        "--video-codec="@[2] == 'v',
        "--video-codec="@[8] == 'c',
        "--no-audio"@.len() == 10,
        "--no-audio"@[0] == '-',
        "--no-audio"@[2] == 'n',
        "--show-touches"@.len() == 14,
        "--show-touches"@[0] == '-',
        "--show-touches"@[2] == 's',
        "--show-touches"@[3] == 'h',
        "--stay-awake"@.len() == 12,
        "--stay-awake"@[0] == '-',
        "--stay-awake"@[2] == 's',
        "--stay-awake"@[3] == 't',
        "--fullscreen"@.len() == 12,
        "--fullscreen"@[0] == '-',
        "--fullscreen"@[2] == 'f',
        "--window-borderless"@.len() == 19,
        "--window-borderless"@[0] == '-',
        "--window-borderless"@[2] == 'w',
        "--always-on-top"@.len() == 15,
        "--always-on-top"@[0] == '-',
        "--always-on-top"@[2] == 'a',
        "--turn-screen-off"@.len() == 17,
        "--turn-screen-off"@[0] == '-',
        "--turn-screen-off"@[2] == 't',
        "--record="@.len() == 9,
        "--record="@[0] == '-',
        "--record="@[2] == 'r',
{
    reveal_strlit("-s");
    reveal_strlit("--max-size=");
    reveal_strlit("--max-fps=");
    reveal_strlit("--video-bit-rate=");
    reveal_strlit("--video-codec=");
    reveal_strlit("--no-audio");
    reveal_strlit("--show-touches");
    reveal_strlit("--stay-awake");
    reveal_strlit("--fullscreen");
    reveal_strlit("--window-borderless");
    reveal_strlit("--always-on-top");
    reveal_strlit("--turn-screen-off");
    reveal_strlit("--record=");
}

proof fn lemma_ne_flag(id: Seq<char>, f: Seq<char>)
    requires
        id.len() == 0 || id[0] != '-',
        f.len() > 0,
        f[0] == '-',
    ensures
        id != f,
{
    if id == f {
        assert(id[0] == f[0]);
    }
}

/// A device identifier that does not start with `-` never collides with a
/// flag: the built vector holds exactly one element prefixed
/// `--max-size=`.
pub proof fn lemma_max_size_flag_once(c: ConfigModel)
    requires
        c.device_id.len() == 0 || c.device_id[0] != '-',
    ensures
        count_where(scrcpy_args(c), |a: Seq<char>| "--max-size="@.is_prefix_of(a)) == 1,
{
    let p = |a: Seq<char>| "--max-size="@.is_prefix_of(a);
    lemma_args_count(c, p);
    lemma_flag_lens();
    lemma_element_shapes(c);
    let f = "--max-size="@;
    lemma_not_prefix_by_len(f, "-s"@);
    if c.device_id.len() > 0 {
        lemma_not_prefix_by_index(f, c.device_id, 0);
    }
    lemma_prefix_of_concat(f, dec_str(c.max_size as int));
    lemma_not_prefix_by_index(f, "--max-fps="@ + dec_str(c.max_fps as int), 6);
    lemma_not_prefix_by_index(f, "--video-bit-rate="@ + c.bitrate, 2);
    lemma_not_prefix_by_index(f, "--video-codec="@ + c.video_codec, 2);
    lemma_not_prefix_by_len(f, "--no-audio"@);
    lemma_not_prefix_by_index(f, "--show-touches"@, 2);
    lemma_not_prefix_by_index(f, "--stay-awake"@, 2);
    lemma_not_prefix_by_index(f, "--fullscreen"@, 2);
    lemma_not_prefix_by_index(f, "--window-borderless"@, 2);
    lemma_not_prefix_by_index(f, "--always-on-top"@, 2);
    lemma_not_prefix_by_index(f, "--turn-screen-off"@, 2);
    match c.record_path {
        Some(q) => {
            if q.len() > 0 {
                lemma_not_prefix_by_index(f, "--record="@ + q, 2);
            }
        },
        None => {},
    }
}

/// The built vector holds exactly one element prefixed `--max-fps=`.
pub proof fn lemma_max_fps_flag_once(c: ConfigModel)
    requires
        c.device_id.len() == 0 || c.device_id[0] != '-',
    ensures
        count_where(scrcpy_args(c), |a: Seq<char>| "--max-fps="@.is_prefix_of(a)) == 1,
{
    let p = |a: Seq<char>| "--max-fps="@.is_prefix_of(a);
    lemma_args_count(c, p);
    lemma_flag_lens();
    lemma_element_shapes(c);
    let f = "--max-fps="@;
    lemma_not_prefix_by_len(f, "-s"@);
    if c.device_id.len() > 0 {
        lemma_not_prefix_by_index(f, c.device_id, 0);
    }
    lemma_not_prefix_by_index(f, "--max-size="@ + dec_str(c.max_size as int), 6);
    lemma_prefix_of_concat(f, dec_str(c.max_fps as int));
    lemma_not_prefix_by_index(f, "--video-bit-rate="@ + c.bitrate, 2);
    lemma_not_prefix_by_index(f, "--video-codec="@ + c.video_codec, 2);
    lemma_not_prefix_by_index(f, "--no-audio"@, 2);
    lemma_not_prefix_by_index(f, "--show-touches"@, 2);
    lemma_not_prefix_by_index(f, "--stay-awake"@, 2);
    lemma_not_prefix_by_index(f, "--fullscreen"@, 2);
    lemma_not_prefix_by_index(f, "--window-borderless"@, 2);
    lemma_not_prefix_by_index(f, "--always-on-top"@, 2);
    lemma_not_prefix_by_index(f, "--turn-screen-off"@, 2);
    match c.record_path {
        Some(q) => {
            if q.len() > 0 {
                lemma_not_prefix_by_index(f, "--record="@ + q, 2);
            }
        },
        None => {},
    }
}

/// The built vector holds exactly one element prefixed
/// `--video-bit-rate=`.
pub proof fn lemma_bit_rate_flag_once(c: ConfigModel)
    requires
        c.device_id.len() == 0 || c.device_id[0] != '-',
    ensures
        count_where(scrcpy_args(c), |a: Seq<char>| "--video-bit-rate="@.is_prefix_of(a)) == 1,
{
    let p = |a: Seq<char>| "--video-bit-rate="@.is_prefix_of(a);
    lemma_args_count(c, p);
    lemma_flag_lens();
    lemma_element_shapes(c);
    let f = "--video-bit-rate="@;
    lemma_not_prefix_by_len(f, "-s"@);
    if c.device_id.len() > 0 {
        lemma_not_prefix_by_index(f, c.device_id, 0);
    }
    lemma_not_prefix_by_index(f, "--max-size="@ + dec_str(c.max_size as int), 2);
    lemma_not_prefix_by_index(f, "--max-fps="@ + dec_str(c.max_fps as int), 2);
    lemma_prefix_of_concat(f, c.bitrate);
    lemma_not_prefix_by_index(f, "--video-codec="@ + c.video_codec, 8);
    lemma_not_prefix_by_len(f, "--no-audio"@);
    lemma_not_prefix_by_len(f, "--show-touches"@);
    lemma_not_prefix_by_len(f, "--stay-awake"@);
    lemma_not_prefix_by_len(f, "--fullscreen"@);
    lemma_not_prefix_by_index(f, "--window-borderless"@, 2);
    lemma_not_prefix_by_len(f, "--always-on-top"@);
    lemma_not_prefix_by_index(f, "--turn-screen-off"@, 2);
    match c.record_path {
        Some(q) => {
            if q.len() > 0 {
                lemma_not_prefix_by_index(f, "--record="@ + q, 2);
            }
        },
        None => {},
    }
}

/// The built vector holds exactly one element prefixed `--video-codec=`.
pub proof fn lemma_codec_flag_once(c: ConfigModel)
    requires
        c.device_id.len() == 0 || c.device_id[0] != '-',
    ensures
        count_where(scrcpy_args(c), |a: Seq<char>| "--video-codec="@.is_prefix_of(a)) == 1,
{
    let p = |a: Seq<char>| "--video-codec="@.is_prefix_of(a);
    lemma_args_count(c, p);
    lemma_flag_lens();
    lemma_element_shapes(c);
    let f = "--video-codec="@;
    lemma_not_prefix_by_len(f, "-s"@);
    if c.device_id.len() > 0 {
        lemma_not_prefix_by_index(f, c.device_id, 0);
    }
    lemma_not_prefix_by_index(f, "--max-size="@ + dec_str(c.max_size as int), 2);
    lemma_not_prefix_by_index(f, "--max-fps="@ + dec_str(c.max_fps as int), 2);
    lemma_not_prefix_by_index(f, "--video-bit-rate="@ + c.bitrate, 8);
    lemma_prefix_of_concat(f, c.video_codec);
    lemma_not_prefix_by_len(f, "--no-audio"@);
    lemma_not_prefix_by_index(f, "--show-touches"@, 2);
    lemma_not_prefix_by_len(f, "--stay-awake"@);
    lemma_not_prefix_by_len(f, "--fullscreen"@);
    lemma_not_prefix_by_index(f, "--window-borderless"@, 2);
    lemma_not_prefix_by_index(f, "--always-on-top"@, 2);
    lemma_not_prefix_by_index(f, "--turn-screen-off"@, 2);
    match c.record_path {
        Some(q) => {
            if q.len() > 0 {
                lemma_not_prefix_by_index(f, "--record="@ + q, 2);
            }
        },
        None => {},
    }
}

/// The built vector holds `--no-audio` exactly when audio is disabled.
pub proof fn lemma_audio_flag(c: ConfigModel)
    requires
        c.device_id.len() == 0 || c.device_id[0] != '-',
    ensures
        count_where(scrcpy_args(c), |a: Seq<char>| a == "--no-audio"@) == bit(!c.audio_enabled),
{
    let p = |a: Seq<char>| a == "--no-audio"@;
    lemma_args_count(c, p);
    lemma_flag_lens();
    lemma_element_shapes(c);
    lemma_ne_flag(c.device_id, "--no-audio"@);
    match c.record_path {
        Some(q) => {
            if q.len() > 0 {
                assert(bit(p("--record="@ + q)) == 0);
            }
        },
        None => {},
    }
}

/// The built vector holds each toggle flag exactly when its toggle is
/// enabled.
#[verifier::rlimit(100)]
pub proof fn lemma_toggle_flags(c: ConfigModel)
    requires
        c.device_id.len() == 0 || c.device_id[0] != '-',
    ensures
        count_where(scrcpy_args(c), |a: Seq<char>| a == "--show-touches"@) == bit(c.show_touches),
        count_where(scrcpy_args(c), |a: Seq<char>| a == "--stay-awake"@) == bit(c.stay_awake),
        count_where(scrcpy_args(c), |a: Seq<char>| a == "--fullscreen"@) == bit(c.fullscreen),
        count_where(scrcpy_args(c), |a: Seq<char>| a == "--window-borderless"@) == bit(
            c.borderless,
        ),
        count_where(scrcpy_args(c), |a: Seq<char>| a == "--always-on-top"@) == bit(
            c.always_on_top,
        ),
        count_where(scrcpy_args(c), |a: Seq<char>| a == "--turn-screen-off"@) == bit(
            c.turn_screen_off,
        ),
{
    lemma_flag_lens();
    lemma_element_shapes(c);
    lemma_args_count(c, |a: Seq<char>| a == "--show-touches"@);
    lemma_args_count(c, |a: Seq<char>| a == "--stay-awake"@);
    lemma_args_count(c, |a: Seq<char>| a == "--fullscreen"@);
    lemma_args_count(c, |a: Seq<char>| a == "--window-borderless"@);
    lemma_args_count(c, |a: Seq<char>| a == "--always-on-top"@);
    lemma_args_count(c, |a: Seq<char>| a == "--turn-screen-off"@);
    lemma_ne_flag(c.device_id, "--show-touches"@);
    lemma_ne_flag(c.device_id, "--stay-awake"@);
    lemma_ne_flag(c.device_id, "--fullscreen"@);
    lemma_ne_flag(c.device_id, "--window-borderless"@);
    lemma_ne_flag(c.device_id, "--always-on-top"@);
    lemma_ne_flag(c.device_id, "--turn-screen-off"@);
    match c.record_path {
        Some(q) => {
            if q.len() > 0 {
                assert(("--record="@ + q).len() >= 10);
            }
        },
        None => {},
    }
}

/// The built vector holds a `--record=` element exactly when a non-empty
/// recording path is given.
pub proof fn lemma_record_flag(c: ConfigModel)
    requires
        c.device_id.len() == 0 || c.device_id[0] != '-',
    ensures
        count_where(scrcpy_args(c), |a: Seq<char>| "--record="@.is_prefix_of(a)) == (
        match c.record_path {
            Some(q) => bit(q.len() > 0),
            None => 0,
        }),
{
    let p = |a: Seq<char>| "--record="@.is_prefix_of(a);
    lemma_args_count(c, p);
    lemma_flag_lens();
    lemma_element_shapes(c);
    let f = "--record="@;
    lemma_not_prefix_by_len(f, "-s"@);
    if c.device_id.len() > 0 {
        lemma_not_prefix_by_index(f, c.device_id, 0);
    }
    lemma_not_prefix_by_index(f, "--max-size="@ + dec_str(c.max_size as int), 2);
    lemma_not_prefix_by_index(f, "--max-fps="@ + dec_str(c.max_fps as int), 2);
    lemma_not_prefix_by_index(f, "--video-bit-rate="@ + c.bitrate, 2);
    lemma_not_prefix_by_index(f, "--video-codec="@ + c.video_codec, 2);
    lemma_not_prefix_by_index(f, "--no-audio"@, 2);
    lemma_not_prefix_by_index(f, "--show-touches"@, 2);
    lemma_not_prefix_by_index(f, "--stay-awake"@, 2);
    lemma_not_prefix_by_index(f, "--fullscreen"@, 2);
    lemma_not_prefix_by_index(f, "--window-borderless"@, 2);
    lemma_not_prefix_by_index(f, "--always-on-top"@, 2);
    lemma_not_prefix_by_index(f, "--turn-screen-off"@, 2);
    match c.record_path {
        Some(q) => {
            if q.len() > 0 {
                lemma_prefix_of_concat(f, q);
            }
        },
        None => {},
    }
}

fn push_device_args(args: &mut Vec<String>, config: &ScrcpyConfig)
    ensures
        arg_views(final(args)@) == arg_views(old(args)@) + device_args(config@),
{
    let ghost m = arg_views(args@);
    if !config.device_id.as_str().is_empty() {
        push_arg(args, String::from_str("-s"));
        push_arg(args, config.device_id.clone());
        proof {
            assert(arg_views(args@) =~= m + device_args(config@));
        }
    } else {
        proof {
            assert(arg_views(args@) =~= m + device_args(config@));
        }
    }
}

fn push_video_args(args: &mut Vec<String>, config: &ScrcpyConfig)
    ensures
        arg_views(final(args)@) == arg_views(old(args)@) + video_args(config@),
{
    let ghost m = arg_views(args@);
    let mut size_arg = String::from_str("--max-size=");
    push_u32_dec(&mut size_arg, config.max_size);
    push_arg(args, size_arg);
    let mut fps_arg = String::from_str("--max-fps=");
    push_u32_dec(&mut fps_arg, config.max_fps);
    push_arg(args, fps_arg);
    push_arg(args, with_detail("--video-bit-rate=", config.bitrate.as_str()));
    push_arg(args, with_detail("--video-codec=", config.video_codec.as_str()));
    proof {
        assert(arg_views(args@) =~= m + video_args(config@));
    }
}

fn push_audio_args(args: &mut Vec<String>, config: &ScrcpyConfig)
    ensures
        arg_views(final(args)@) == arg_views(old(args)@) + audio_args(config@),
{
    let ghost m = arg_views(args@);
    if !config.audio_enabled {
        push_arg(args, String::from_str("--no-audio"));
    }
    proof {
        assert(arg_views(args@) =~= m + audio_args(config@));
    }
}

fn push_toggle(args: &mut Vec<String>, enabled: bool, flag: &str)
    ensures
        arg_views(final(args)@) == arg_views(old(args)@) + toggle_arg(enabled, flag@),
{
    let ghost m = arg_views(args@);
    if enabled {
        push_arg(args, String::from_str(flag));
    }
    proof {
        assert(arg_views(args@) =~= m + toggle_arg(enabled, flag@));
    }
}

#[verifier::rlimit(50)]
fn push_toggle_args(args: &mut Vec<String>, config: &ScrcpyConfig)
    ensures
        arg_views(final(args)@) == arg_views(old(args)@) + toggle_args(config@),
{
    let ghost c = config@;
    let ghost m = arg_views(args@);
    push_toggle(args, config.show_touches, "--show-touches");
    push_toggle(args, config.stay_awake, "--stay-awake");
    push_toggle(args, config.fullscreen, "--fullscreen");
    push_toggle(args, config.borderless, "--window-borderless");
    push_toggle(args, config.always_on_top, "--always-on-top");
    push_toggle(args, config.turn_screen_off, "--turn-screen-off");
    proof {
        assert(arg_views(args@) =~= m + toggle_args(c));
    }
}

fn push_record_args(args: &mut Vec<String>, config: &ScrcpyConfig)
    ensures
        arg_views(final(args)@) == arg_views(old(args)@) + record_args(config@),
{
    let ghost m = arg_views(args@);
    match &config.record_path {
        Some(path) => {
            if !path.as_str().is_empty() {
                push_arg(args, with_detail("--record=", path.as_str()));
            }
        },
        None => {},
    }
    proof {
        assert(arg_views(args@) =~= m + record_args(config@));
    }
}

/// Builds the argument vector for one session, exactly as `scrcpy_args`
/// states it.
pub fn build_args(config: &ScrcpyConfig) -> (r: Vec<String>)
    ensures
        arg_views(r@) == scrcpy_args(config@),
{
    let ghost c = config@;
    let mut args: Vec<String> = Vec::new();
    proof {
        assert(arg_views(args@) =~= Seq::<Seq<char>>::empty());
        assert(Seq::<Seq<char>>::empty() + device_args(c) =~= device_args(c));
    }
    push_device_args(&mut args, config);
    push_video_args(&mut args, config);
    push_audio_args(&mut args, config);
    push_toggle_args(&mut args, config);
    push_record_args(&mut args, config);
    proof {
        assert(arg_views(args@) =~= scrcpy_args(c));
    }
    args
}

} // verus!
