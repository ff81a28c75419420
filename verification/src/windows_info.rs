//! What the canvas keeps of each open window: which windows are listed,
//! how a window is named, which sizes lay it out, and how its live
//! thumbnail is configured.

use vstd::prelude::*;
use crate::geometry::Rect;
use crate::text::{chars_of, string_from_chars};

verus! {

/// Window style bit of child windows.
pub const WS_CHILD: u32 = 0x4000_0000;
/// Extended window style bit of tool windows (palettes, tooltips).
pub const WS_EX_TOOLWINDOW: u32 = 0x80;

/// Whether a top-level window gets a cell on the canvas: not the canvas
/// itself, visible, not a child window, not a tool window, with a
/// non-empty title, and not owned by the canvas's own process.
pub fn is_listed_window(
    is_canvas: bool,
    visible: bool,
    style: u32,
    ex_style: u32,
    title_len: i32,
    pid: u32,
    canvas_pid: u32,
) -> (r: bool)
    ensures
        r == (!is_canvas && visible && style & WS_CHILD == 0 && ex_style & WS_EX_TOOLWINDOW == 0
            && title_len != 0 && pid != canvas_pid),
{
    if is_canvas {
        return false;
    }
    if !visible {
        return false;
    }
    if style & WS_CHILD != 0 {
        return false;
    }
    if ex_style & WS_EX_TOOLWINDOW != 0 {
        return false;
    }
    if title_len == 0 {
        return false;
    }
    if pid == canvas_pid {
        return false;
    }
    true
}

/// Extended window style bit of always-on-top windows.
pub const WS_EX_TOPMOST: u32 = 0x8;
/// Show state of a minimized window in its saved placement.
pub const SW_SHOWMINIMIZED: u32 = 2;

/// Before a window on the current desktop is pinned: whether it must be
/// restored (it is minimized) and whether it was always on top (it then
/// loses that while pinned and gets it back afterwards).
pub fn pin_preparation(show_cmd: u32, ex_style: u32) -> (r: (bool, bool))
    ensures
        r.0 == (show_cmd == SW_SHOWMINIMIZED),
        r.1 == (ex_style & WS_EX_TOPMOST != 0),
{
    (show_cmd == SW_SHOWMINIMIZED, ex_style & WS_EX_TOPMOST != 0)
}

/// The last component of a Windows path: what follows the last backslash,
/// or the whole path when it has none.
pub open spec fn last_component(p: Seq<char>) -> Seq<char>
    decreases p.len(),
{
    if p.len() == 0 {
        p
    } else if p.last() == '\\' {
        Seq::empty()
    } else {
        last_component(p.drop_last()).push(p.last())
    }
}

/// The characters of ".exe".
pub open spec fn exe_suffix() -> Seq<char> {
    seq!['.', 'e', 'x', 'e']
}

/// The name with every trailing ".exe" removed.
pub open spec fn strip_exe(s: Seq<char>) -> Seq<char>
    decreases s.len(),
{
    if s.len() >= 4 && s.subrange(s.len() - 4, s.len() as int) == exe_suffix() {
        strip_exe(s.subrange(0, s.len() - 4))
    } else {
        s
    }
}

/// The characters of "unknown".
pub open spec fn unknown_name() -> Seq<char> {
    seq!['u', 'n', 'k', 'n', 'o', 'w', 'n']
}

/// The process name shown for a window: the file name of its executable
/// without the ".exe" ending, or "unknown" when the path could not be read.
pub open spec fn process_name_of(path: Option<Seq<char>>) -> Seq<char> {
    match path {
        Some(p) => strip_exe(last_component(p)),
        None => unknown_name(),
    }
}

/// The process name for an executable path (`None` when it could not be
/// read): the file name without its ".exe" endings, or "unknown".
pub fn process_name(path: Option<&str>) -> (r: String)
    ensures
        r@ == process_name_of(
            match path {
                Some(p) => Some(p@),
                None => None,
            },
        ),
{
    match path {
        None => {
            let v: Vec<char> = vec!['u', 'n', 'k', 'n', 'o', 'w', 'n'];
            assert(v@ =~= unknown_name());
            string_from_chars(&v)
        },
        Some(p) => {
            let chars = chars_of(p);
            let name = strip_exe_chars(last_component_chars(&chars));
            string_from_chars(&name)
        },
    }
}

/// The characters after the last backslash.
fn last_component_chars(p: &Vec<char>) -> (r: Vec<char>)
    ensures
        r@ == last_component(p@),
{
    let n = p.len();
    let mut i: usize = n;
    assert(p@.take(n as int) =~= p@);
    assert(p@ + p@.subrange(n as int, n as int) =~= p@);
    while i > 0 && p[i - 1] != '\\'
        invariant
            n == p@.len(),
            i <= n,
            last_component(p@) == last_component(p@.take(i as int)) + p@.subrange(i as int, n as int),
        decreases i,
    {
        assert(p@.take(i as int).drop_last() =~= p@.take(i - 1));
        assert(p@.take(i as int).last() == p@[i - 1]);
        assert(last_component(p@.take(i - 1)).push(p@[i - 1]) + p@.subrange(i as int, n as int)
            =~= last_component(p@.take(i - 1)) + p@.subrange(i - 1, n as int));
        i -= 1;
    }
    if i > 0 {
        assert(p@.take(i as int).last() == p@[i - 1]);
    } else {
        assert(p@.take(0) =~= Seq::<char>::empty());
    }
    assert(last_component(p@.take(i as int)) =~= Seq::<char>::empty());
    let mut out: Vec<char> = Vec::new();
    let mut j: usize = i;
    while j < n
        invariant
            n == p@.len(),
            i <= j <= n,
            out@ =~= p@.subrange(i as int, j as int),
        decreases n - j,
    {
        out.push(p[j]);
        j += 1;
    }
    assert(Seq::<char>::empty() + p@.subrange(i as int, n as int) =~= p@.subrange(i as int, n as int));
    out
}

/// The characters with every trailing ".exe" removed.
fn strip_exe_chars(s: Vec<char>) -> (r: Vec<char>)
    ensures
        r@ == strip_exe(s@),
{
    let mut v = s;
    while v.len() >= 4 && v[v.len() - 4] == '.' && v[v.len() - 3] == 'e' && v[v.len() - 2] == 'x'
        && v[v.len() - 1] == 'e'
        invariant
            strip_exe(v@) == strip_exe(s@),
        decreases v@.len(),
    {
        let ghost before = v@;
        assert(before.subrange(before.len() - 4, before.len() as int) =~= exe_suffix());
        let keep = v.len() - 4;
        v.truncate(keep);
        assert(v@ =~= before.subrange(0, before.len() - 4));
    }
    proof {
        if v@.len() >= 4 {
            if v@.subrange(v@.len() - 4, v@.len() as int) == exe_suffix() {
                assert(v@.subrange(v@.len() - 4, v@.len() as int)[0] == v@[v@.len() - 4]);
                assert(v@.subrange(v@.len() - 4, v@.len() as int)[1] == v@[v@.len() - 3]);
                assert(v@.subrange(v@.len() - 4, v@.len() as int)[2] == v@[v@.len() - 2]);
                assert(v@.subrange(v@.len() - 4, v@.len() as int)[3] == v@[v@.len() - 1]);
            }
        }
    }
    v
}


proof fn lemma_last_component_has_no_backslash(p: Seq<char>)
    ensures
        !last_component(p).contains('\\'),
        last_component(p).len() <= p.len(),
    decreases p.len(),
{
    if p.len() > 0 && p.last() != '\\' {
        lemma_last_component_has_no_backslash(p.drop_last());
        let prev = last_component(p.drop_last());
        assert forall|k: int| 0 <= k < prev.push(p.last()).len() implies prev.push(p.last())[k] != '\\' by {
            if k < prev.len() {
                assert(!prev.contains('\\'));
                assert(prev[k] != '\\');
            }
        }
    }
}

proof fn lemma_strip_exe_is_prefix(s: Seq<char>)
    ensures
        strip_exe(s).len() <= s.len(),
        strip_exe(s) == s.subrange(0, strip_exe(s).len() as int),
        !(strip_exe(s).len() >= 4 && strip_exe(s).subrange(
            strip_exe(s).len() - 4,
            strip_exe(s).len() as int,
        ) == exe_suffix()),
    decreases s.len(),
{
    if s.len() >= 4 && s.subrange(s.len() - 4, s.len() as int) == exe_suffix() {
        let t = s.subrange(0, s.len() - 4);
        lemma_strip_exe_is_prefix(t);
        assert(t.subrange(0, strip_exe(t).len() as int) =~= s.subrange(0, strip_exe(t).len() as int));
    } else {
        assert(s.subrange(0, s.len() as int) =~= s);
    }
}

/// A process name is a bare file name: it holds no backslash and does not
/// end in ".exe".
pub proof fn process_name_is_bare(path: Option<Seq<char>>)
    ensures
        !process_name_of(path).contains('\\'),
        !(process_name_of(path).len() >= 4 && process_name_of(path).subrange(
            process_name_of(path).len() - 4,
            process_name_of(path).len() as int,
        ) == exe_suffix()),
{
    match path {
        Some(p) => {
            let c = last_component(p);
            lemma_last_component_has_no_backslash(p);
            lemma_strip_exe_is_prefix(c);
            let r = strip_exe(c);
            assert forall|k: int| 0 <= k < r.len() implies r[k] != '\\' by {
                assert(r[k] == c.subrange(0, r.len() as int)[k]);
                assert(c[k] != '\\') by {
                    if c[k] == '\\' {
                        assert(c.contains('\\'));
                    }
                }
            }
        },
        None => {
            assert(unknown_name()[0] != '\\');
            assert forall|k: int| 0 <= k < unknown_name().len() implies unknown_name()[k] != '\\' by {}
            assert(unknown_name().subrange(3, 7) != exe_suffix()) by {
                assert(unknown_name().subrange(3, 7)[0] == 'n');
            }
        },
    }
}

/// `k` copies of ".exe", one after the other.
pub open spec fn exe_repeated(k: nat) -> Seq<char>
    decreases k,
{
    if k == 0 {
        Seq::empty()
    } else {
        exe_repeated((k - 1) as nat) + exe_suffix()
    }
}

proof fn lemma_strip_exe_removes_whole_endings(s: Seq<char>) -> (k: nat)
    ensures
        strip_exe(s) + exe_repeated(k) == s,
    decreases s.len(),
{
    if s.len() >= 4 && s.subrange(s.len() - 4, s.len() as int) == exe_suffix() {
        let t = s.subrange(0, s.len() - 4);
        let k0 = lemma_strip_exe_removes_whole_endings(t);
        assert(strip_exe(t) + exe_repeated(k0 + 1) =~= (strip_exe(t) + exe_repeated(k0)) + exe_suffix());
        assert(t + exe_suffix() =~= s);
        k0 + 1
    } else {
        assert(s + Seq::<char>::empty() =~= s);
        0
    }
}

/// Stripping removes only whole ".exe" endings: the name followed by some
/// number of ".exe" gives back what was stripped, and what remains does
/// not itself end in ".exe". So "Microsoft.Photos.exe" becomes
/// "Microsoft.Photos" and a name without the ending is kept whole.
pub proof fn strip_exe_removes_only_exe_endings(s: Seq<char>)
    ensures
        exists|k: nat| strip_exe(s) + #[trigger] exe_repeated(k) == s,
        !(strip_exe(s).len() >= 4 && strip_exe(s).subrange(
            strip_exe(s).len() - 4,
            strip_exe(s).len() as int,
        ) == exe_suffix()),
        !(s.len() >= 4 && s.subrange(s.len() - 4, s.len() as int) == exe_suffix()) ==> strip_exe(s)
            == s,
{
    let k = lemma_strip_exe_removes_whole_endings(s);
    assert(strip_exe(s) + exe_repeated(k) == s);
    lemma_strip_exe_is_prefix(s);
}

/// The last component is what follows the last backslash: a suffix of the
/// path with no backslash, that starts the path or follows a backslash.
pub proof fn last_component_follows_last_backslash(p: Seq<char>)
    ensures
        ({
            let c = last_component(p);
            let start = p.len() - c.len();
            &&& 0 <= start <= p.len()
            &&& p.subrange(start, p.len() as int) == c
            &&& !c.contains('\\')
            &&& (start == 0 || p[start - 1] == '\\')
        }),
    decreases p.len(),
{
    lemma_last_component_has_no_backslash(p);
    if p.len() > 0 {
        if p.last() == '\\' {
            assert(p.subrange(p.len() as int, p.len() as int) =~= Seq::<char>::empty());
        } else {
            last_component_follows_last_backslash(p.drop_last());
            let q = p.drop_last();
            let cq = last_component(q);
            let start = q.len() - cq.len();
            assert(p.subrange(start, p.len() as int) =~= q.subrange(start, q.len() as int).push(p.last()));
            if start > 0 {
                assert(p[start - 1] == q[start - 1]);
            }
        }
    } else {
        assert(p.subrange(0, 0) =~= p);
    }
}

/// The most characters a title under a cell shows.
pub const TITLE_MAX_CHARS: usize = 45;
/// How many characters of a longer title are kept before the ellipsis.
pub const TITLE_KEEP_CHARS: usize = 42;

/// The text under a cell: "[process] title", cut to its first 42
/// characters followed by "..." when it is longer than 45 characters.
pub open spec fn title_text(process: Seq<char>, title: Seq<char>) -> Seq<char> {
    let full = seq!['['] + process + seq![']', ' '] + title;
    if full.len() > TITLE_MAX_CHARS {
        full.take(TITLE_KEEP_CHARS as int) + seq!['.', '.', '.']
    } else {
        full
    }
}

/// The text shown under a window's cell, from its process name and title.
pub fn display_title(process: &str, title: &str) -> (r: String)
    ensures
        r@ == title_text(process@, title@),
{
    let p = chars_of(process);
    let t = chars_of(title);
    let mut full: Vec<char> = Vec::new();
    full.push('[');
    let mut i: usize = 0;
    while i < p.len()
        invariant
            i <= p@.len(),
            full@ =~= seq!['['] + p@.take(i as int),
        decreases p@.len() - i,
    {
        full.push(p[i]);
        i += 1;
    }
    full.push(']');
    full.push(' ');
    let mut j: usize = 0;
    while j < t.len()
        invariant
            j <= t@.len(),
            p@.take(p@.len() as int) =~= p@,
            full@ =~= seq!['['] + p@ + seq![']', ' '] + t@.take(j as int),
        decreases t@.len() - j,
    {
        full.push(t[j]);
        j += 1;
    }
    assert(t@.take(t@.len() as int) =~= t@);
    if full.len() > TITLE_MAX_CHARS {
        let mut short: Vec<char> = Vec::new();
        let mut k: usize = 0;
        while k < TITLE_KEEP_CHARS
            invariant
                k <= TITLE_KEEP_CHARS,
                full@.len() > TITLE_MAX_CHARS,
                short@ =~= full@.take(k as int),
            decreases TITLE_KEEP_CHARS - k,
        {
            short.push(full[k]);
            k += 1;
        }
        short.push('.');
        short.push('.');
        short.push('.');
        string_from_chars(&short)
    } else {
        string_from_chars(&full)
    }
}

/// The text under a cell starts with "[process] " and the title: whole
/// when it fits in 45 characters, else its first 42 characters followed
/// by "...".
pub proof fn title_text_shape(process: Seq<char>, title: Seq<char>)
    ensures
        ({
            let full = seq!['['] + process + seq![']', ' '] + title;
            let t = title_text(process, title);
            &&& full.len() <= 45 ==> t == full
            &&& full.len() > 45 ==> t.len() == 45 && t.take(42) == full.take(42) && t.subrange(42, 45)
                == seq!['.', '.', '.']
        }),
{
    let full = seq!['['] + process + seq![']', ' '] + title;
    let t = title_text(process, title);
    if full.len() > 45 {
        assert(t.take(42) =~= full.take(42));
        assert(t.subrange(42, 45) =~= seq!['.', '.', '.']);
    }
}

/// The text under a cell never exceeds 45 characters, and a title that
/// fits is shown whole.
pub proof fn title_text_fits(process: Seq<char>, title: Seq<char>)
    ensures
        title_text(process, title).len() <= TITLE_MAX_CHARS,
        process.len() + title.len() + 3 <= TITLE_MAX_CHARS ==> title_text(process, title) == seq!['[']
            + process + seq![']', ' '] + title,
{
}


/// The measured sizes of a window: its thumbnail source and its client
/// area, 0 where unknown.
#[derive(Clone, Copy, Debug, PartialEq, Eq, Structural)]
pub struct WindowSizes {
    pub source_w: i32,
    pub source_h: i32,
    pub client_w: i32,
    pub client_h: i32,
}

/// The thumbnail source size as measured: the reported size when both
/// sides are positive, otherwise (0, 0).
pub fn measured_source_size(reported: Option<(i32, i32)>) -> (r: (i32, i32))
    ensures
        r == (match reported {
            Some((w, h)) => if w > 0 && h > 0 {
                (w, h)
            } else {
                (0i32, 0i32)
            },
            None => (0i32, 0i32),
        }),
{
    match reported {
        Some((w, h)) if w > 0 && h > 0 => (w, h),
        _ => (0, 0),
    }
}

/// The size a window's cell is laid out and shown with: its client area
/// when both sides are known, else its thumbnail source.
pub fn layout_size(s: &WindowSizes) -> (r: (i32, i32))
    ensures
        r == (if s.client_w > 0 && s.client_h > 0 {
            (s.client_w, s.client_h)
        } else {
            (s.source_w, s.source_h)
        }),
{
    if s.client_w > 0 && s.client_h > 0 {
        (s.client_w, s.client_h)
    } else {
        (s.source_w, s.source_h)
    }
}

/// The size a pinned window is shown at: each side of the client area,
/// or the thumbnail source's where the client side is unknown; `None`
/// when a side is still unknown.
pub fn pin_client_size(s: &WindowSizes) -> (r: Option<(i32, i32)>)
    ensures
        ({
            let w = if s.client_w > 0 {
                s.client_w
            } else {
                s.source_w
            };
            let h = if s.client_h > 0 {
                s.client_h
            } else {
                s.source_h
            };
            r == (if w <= 0 || h <= 0 {
                None
            } else {
                Some((w, h))
            })
        }),
{
    let w = if s.client_w > 0 {
        s.client_w
    } else {
        s.source_w
    };
    let h = if s.client_h > 0 {
        s.client_h
    } else {
        s.source_h
    };
    if w <= 0 || h <= 0 {
        None
    } else {
        Some((w, h))
    }
}

/// A new measurement merged into the previous one: each value that was
/// not measured (not positive) keeps its previous value.
pub open spec fn keep_measured(prev: i32, now: i32) -> i32 {
    if now <= 0 {
        prev
    } else {
        now
    }
}

/// Merges a new measurement of a window into the previous one, keeping
/// the previous value of every side that was not measured.
pub fn remeasured(prev: WindowSizes, now: WindowSizes) -> (r: WindowSizes)
    ensures
        r.source_w == keep_measured(prev.source_w, now.source_w),
        r.source_h == keep_measured(prev.source_h, now.source_h),
        r.client_w == keep_measured(prev.client_w, now.client_w),
        r.client_h == keep_measured(prev.client_h, now.client_h),
{
    WindowSizes {
        source_w: if now.source_w <= 0 {
            prev.source_w
        } else {
            now.source_w
        },
        source_h: if now.source_h <= 0 {
            prev.source_h
        } else {
            now.source_h
        },
        client_w: if now.client_w <= 0 {
            prev.client_w
        } else {
            now.client_w
        },
        client_h: if now.client_h <= 0 {
            prev.client_h
        } else {
            now.client_h
        },
    }
}

/// Thumbnail property flag: the destination rectangle is set.
pub const TNP_RECT_DESTINATION: u32 = 0x1;
/// Thumbnail property flag: the source rectangle is set.
pub const TNP_RECT_SOURCE: u32 = 0x2;
/// Thumbnail property flag: the opacity is set.
pub const TNP_OPACITY: u32 = 0x4;
/// Thumbnail property flag: the visibility is set.
pub const TNP_VISIBLE: u32 = 0x8;
/// Thumbnail property flag: only the client area is shown.
pub const TNP_SOURCE_CLIENT_AREA_ONLY: u32 = 0x10;

/// How a live thumbnail is shown: which properties are set, where it is
/// drawn, which part of the window it shows, and how opaque it is. It is
/// always visible and shows only the client area.
#[derive(Clone, Copy, Debug, PartialEq, Eq, Structural)]
pub struct ThumbnailProps {
    pub flags: u32,
    pub destination: Rect,
    pub source: Rect,
    pub opacity: u8,
}

/// The thumbnail properties that draw a window's client area of
/// `source_w` by `source_h` into `destination`; the source rectangle is
/// set only when both sides are positive.
pub fn thumbnail_props(destination: Rect, source_w: i32, source_h: i32, opacity: u8) -> (r: ThumbnailProps)
    ensures
        r.flags == (if source_w > 0 && source_h > 0 {
            TNP_RECT_DESTINATION | TNP_VISIBLE | TNP_OPACITY | TNP_SOURCE_CLIENT_AREA_ONLY
                | TNP_RECT_SOURCE
        } else {
            TNP_RECT_DESTINATION | TNP_VISIBLE | TNP_OPACITY | TNP_SOURCE_CLIENT_AREA_ONLY
        }),
        r.destination == destination,
        r.source == (Rect { left: 0i32, top: 0i32, right: source_w, bottom: source_h }),
        r.opacity == opacity,
{
    let has_source = source_w > 0 && source_h > 0;
    let mut flags = TNP_RECT_DESTINATION | TNP_VISIBLE | TNP_OPACITY | TNP_SOURCE_CLIENT_AREA_ONLY;
    if has_source {
        flags = flags | TNP_RECT_SOURCE;
    }
    ThumbnailProps {
        flags,
        destination,
        source: Rect { left: 0, top: 0, right: source_w, bottom: source_h },
        opacity,
    }
}

/// What was learned about one listed window when looking for the current
/// virtual desktop: whether it is cloaked, whether it is on the current
/// desktop (`None` when the query failed), and its desktop id (`None` when
/// the query failed; 0 is the null id).
#[derive(Clone, Copy, Debug, PartialEq, Eq, Structural)]
pub struct DesktopProbe {
    pub cloaked: bool,
    pub on_current: Option<bool>,
    pub desktop: Option<u128>,
}

/// The probe names a usable desktop id: the window is not cloaked and its
/// desktop id is known and not null.
pub open spec fn usable(p: DesktopProbe) -> bool {
    &&& !p.cloaked
    &&& p.desktop matches Some(id) && id != 0
}

/// The probe is usable and its window is known to be on the current
/// desktop.
pub open spec fn confirmed(p: DesktopProbe) -> bool {
    usable(p) && p.on_current == Some(true)
}

/// The probe qualifies: confirmed when `strict`, else usable.
pub open spec fn qualifies(q: DesktopProbe, strict: bool) -> bool {
    if strict {
        confirmed(q)
    } else {
        usable(q)
    }
}

/// Probe `i` is the first that qualifies.
pub open spec fn first_qualifying(probes: Seq<DesktopProbe>, strict: bool, i: int) -> bool {
    &&& 0 <= i < probes.len()
    &&& qualifies(probes[i], strict)
    &&& forall|j: int| 0 <= j < i ==> !qualifies(#[trigger] probes[j], strict)
}

/// Some probe qualifies.
pub open spec fn any_qualifying(probes: Seq<DesktopProbe>, strict: bool) -> bool {
    exists|i: int| 0 <= i < probes.len() && qualifies(#[trigger] probes[i], strict)
}

/// The desktop id of the first probe that qualifies.
pub open spec fn first_desktop(probes: Seq<DesktopProbe>, strict: bool) -> Option<u128> {
    probes[choose|i: int| #[trigger] first_qualifying(probes, strict, i)].desktop
}

/// The current desktop: the id of the first window confirmed to be on it;
/// else the id of the first usable window; else the last known id.
pub open spec fn current_desktop(probes: Seq<DesktopProbe>, cached: Option<u128>) -> Option<u128> {
    if any_qualifying(probes, true) {
        first_desktop(probes, true)
    } else if any_qualifying(probes, false) {
        first_desktop(probes, false)
    } else {
        cached
    }
}

proof fn lemma_first_qualifying(probes: Seq<DesktopProbe>, strict: bool, i: int)
    requires
        first_qualifying(probes, strict, i),
    ensures
        any_qualifying(probes, strict),
        first_desktop(probes, strict) == probes[i].desktop,
{
    assert(qualifies(probes[i], strict));
    assert(first_qualifying(probes, strict, i));
    let c = choose|k: int| #[trigger] first_qualifying(probes, strict, k);
    if c < i {
        assert(!qualifies(probes[c], strict));
    } else if i < c {
        assert(!qualifies(probes[i], strict));
    }
}

/// The index of the first probe that qualifies.
fn find_first(probes: &[DesktopProbe], strict: bool) -> (r: Option<usize>)
    ensures
        r matches Some(i) ==> first_qualifying(probes@, strict, i as int),
        r is None ==> !any_qualifying(probes@, strict),
{
    let n = probes.len();
    let mut i: usize = 0;
    while i < n
        invariant
            n == probes@.len(),
            i <= n,
            forall|j: int| 0 <= j < i ==> !qualifies(#[trigger] probes@[j], strict),
        decreases n - i,
    {
        let q = probes[i];
        let known = match q.desktop {
            Some(id) => id != 0,
            None => false,
        };
        let ok = !q.cloaked && known && (!strict || q.on_current == Some(true));
        if ok {
            return Some(i);
        }
        i += 1;
    }
    None
}

proof fn lemma_some_first_qualifying(probes: Seq<DesktopProbe>, strict: bool, upto: int)
    requires
        0 <= upto <= probes.len(),
        exists|i: int| 0 <= i < upto && qualifies(#[trigger] probes[i], strict),
    ensures
        exists|i: int| #[trigger] first_qualifying(probes, strict, i),
    decreases upto,
{
    if exists|i: int| 0 <= i < upto - 1 && qualifies(#[trigger] probes[i], strict) {
        lemma_some_first_qualifying(probes, strict, upto - 1);
    } else {
        assert(qualifies(probes[upto - 1], strict));
        assert(first_qualifying(probes, strict, upto - 1));
    }
}

/// Whenever some listed window is usable, the current desktop found is a
/// known, non-null id, the one of such a window; otherwise it is the last
/// known id.
pub proof fn current_desktop_is_known(probes: Seq<DesktopProbe>, cached: Option<u128>)
    ensures
        any_qualifying(probes, false) ==> exists|i: int|
            0 <= i < probes.len() && usable(#[trigger] probes[i]) && current_desktop(probes, cached)
                == probes[i].desktop,
        !any_qualifying(probes, false) ==> current_desktop(probes, cached) == cached,
{
    if any_qualifying(probes, true) {
        lemma_some_first_qualifying(probes, true, probes.len() as int);
        let i = choose|i: int| #[trigger] first_qualifying(probes, true, i);
        lemma_first_qualifying(probes, true, i);
        assert(usable(probes[i]));
    } else if any_qualifying(probes, false) {
        lemma_some_first_qualifying(probes, false, probes.len() as int);
        let i = choose|i: int| #[trigger] first_qualifying(probes, false, i);
        lemma_first_qualifying(probes, false, i);
        assert(usable(probes[i]));
    } else {
        assert forall|i: int| 0 <= i < probes.len() implies !qualifies(#[trigger] probes[i], true) by {
            assert(!qualifies(probes[i], false));
        }
    }
}

/// A window confirmed to be on the current desktop wins: when one exists,
/// the desktop found is that of the first such window; else, when a usable
/// window exists, that of the first usable one.
pub proof fn first_confirmed_window_decides(probes: Seq<DesktopProbe>, cached: Option<u128>, i: int)
    requires
        0 <= i < probes.len(),
    ensures
        ({
            let conf = |q: DesktopProbe| !q.cloaked && q.on_current == Some(true) && (q.desktop matches Some(
                id,
            ) && id != 0);
            conf(probes[i]) && (forall|j: int| 0 <= j < i ==> !conf(#[trigger] probes[j]))
                ==> current_desktop(probes, cached) == probes[i].desktop
        }),
        ({
            let use_ = |q: DesktopProbe| !q.cloaked && (q.desktop matches Some(id) && id != 0);
            let conf = |q: DesktopProbe| !q.cloaked && q.on_current == Some(true) && (q.desktop matches Some(
                id,
            ) && id != 0);
            (forall|j: int| 0 <= j < probes.len() ==> !conf(#[trigger] probes[j])) && use_(probes[i])
                && (forall|j: int| 0 <= j < i ==> !use_(#[trigger] probes[j])) ==> current_desktop(
                probes,
                cached,
            ) == probes[i].desktop
        }),
{
    let use_ = |q: DesktopProbe| !q.cloaked && (q.desktop matches Some(id) && id != 0);
    let conf = |q: DesktopProbe| !q.cloaked && q.on_current == Some(true) && (q.desktop matches Some(id) && id != 0);
    if conf(probes[i]) && (forall|j: int| 0 <= j < i ==> !conf(#[trigger] probes[j])) {
        assert forall|j: int| 0 <= j < i implies !qualifies(#[trigger] probes[j], true) by {
            assert(!conf(probes[j]));
        }
        assert(first_qualifying(probes, true, i));
        lemma_first_qualifying(probes, true, i);
    }
    if (forall|j: int| 0 <= j < probes.len() ==> !conf(#[trigger] probes[j])) && use_(probes[i]) && (forall|j: int|
        0 <= j < i ==> !use_(#[trigger] probes[j])) {
        assert forall|j: int| 0 <= j < probes.len() implies !qualifies(#[trigger] probes[j], true) by {
            assert(!conf(probes[j]));
        }
        assert forall|j: int| 0 <= j < i implies !qualifies(#[trigger] probes[j], false) by {
            assert(!use_(probes[j]));
        }
        assert(first_qualifying(probes, false, i));
        lemma_first_qualifying(probes, false, i);
    }
}

/// The current virtual desktop, from what was learned about the listed
/// windows in their order, and the last known one. Returns the desktop
/// and the new last known one.
pub fn choose_current_desktop(probes: &[DesktopProbe], cached: Option<u128>) -> (r: (
    Option<u128>,
    Option<u128>,
))
    ensures
        r.0 == current_desktop(probes@, cached),
        r.1 == r.0,
{
    if let Some(i) = find_first(probes, true) {
        proof {
            lemma_first_qualifying(probes@, true, i as int);
        }
        let id = probes[i].desktop;
        return (id, id);
    }
    if let Some(i) = find_first(probes, false) {
        proof {
            lemma_first_qualifying(probes@, false, i as int);
        }
        let id = probes[i].desktop;
        return (id, id);
    }
    (cached, cached)
}

} // verus!
