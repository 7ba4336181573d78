//! Display detection: `xrandr --verbose`, then `wlr-randr`, then the DRM
//! connectors under `/sys/class/drm`, then a placeholder.
use vstd::prelude::*;
use crate::kv::view_of;
use crate::memory::{opt_seq, opt_view};
use crate::text::{
    chars_of, contains, contains_exec, eq_exec, find, find_first, find_from, find_from_exec,
    first_some, is_float_literal, is_float_literal_exec, lines, lower_of, lowercase, replace, replace_exec, seqs, slice,
    split_lines, split_words, starts_with, starts_with_exec, string_of, trim, trim_exec, words,
};

verus! {

/// One monitor.
#[derive(Clone, Debug)]
pub struct Display {
    pub name: String,
    pub resolution: String,
    pub refresh_rate: String,
    pub color_depth: String,
    pub is_primary: bool,
    pub brightness: String,
    pub rotation: String,
    pub scale_factor: String,
    pub color_profile: String,
    pub connection_type: String,
}

pub struct DisplayView {
    pub name: Seq<char>,
    pub resolution: Seq<char>,
    pub refresh_rate: Seq<char>,
    pub color_depth: Seq<char>,
    pub is_primary: bool,
    pub brightness: Seq<char>,
    pub rotation: Seq<char>,
    pub scale_factor: Seq<char>,
    pub color_profile: Seq<char>,
    pub connection_type: Seq<char>,
}

impl View for Display {
    type V = DisplayView;

    open spec fn view(&self) -> DisplayView {
        DisplayView {
            name: self.name@,
            resolution: self.resolution@,
            refresh_rate: self.refresh_rate@,
            color_depth: self.color_depth@,
            is_primary: self.is_primary,
            brightness: self.brightness@,
            rotation: self.rotation@,
            scale_factor: self.scale_factor@,
            color_profile: self.color_profile@,
            connection_type: self.connection_type@,
        }
    }
}

/// The detected displays, in detection order.
#[derive(Clone, Debug)]
pub struct DisplayInfo {
    pub displays: Vec<Display>,
}

pub open spec fn views(v: Seq<Display>) -> Seq<DisplayView> {
    v.map_values(|d: Display| d@)
}

/// The connection type that a lower-cased connector name shows.
pub open spec fn connection_of(lower: Seq<char>) -> Option<Seq<char>> {
    if contains(lower, "hdmi"@) {
        Some("HDMI"@)
    } else if contains(lower, "dp"@) || contains(lower, "displayport"@) {
        Some("DisplayPort"@)
    } else if contains(lower, "vga"@) {
        Some("VGA"@)
    } else if contains(lower, "dvi"@) {
        Some("DVI"@)
    } else if contains(lower, "usb"@) {
        Some("USB-C"@)
    } else if contains(lower, "lvds"@) || contains(lower, "edp"@) {
        Some("Internal"@)
    } else {
        None
    }
}

/// The connection type of a connector name already in lower case.
pub fn connection_type_of_lowered(lower: &str) -> (r: Option<String>)
    ensures
        view_of(r) == connection_of(lower@),
{
    let l = chars_of(lower);
    let c = if contains_exec(&l, &chars_of("hdmi")) {
        Some("HDMI")
    } else if contains_exec(&l, &chars_of("dp")) || contains_exec(&l, &chars_of("displayport")) {
        Some("DisplayPort")
    } else if contains_exec(&l, &chars_of("vga")) {
        Some("VGA")
    } else if contains_exec(&l, &chars_of("dvi")) {
        Some("DVI")
    } else if contains_exec(&l, &chars_of("usb")) {
        Some("USB-C")
    } else if contains_exec(&l, &chars_of("lvds")) || contains_exec(&l, &chars_of("edp")) {
        Some("Internal")
    } else {
        None
    };
    match c {
        Some(t) => Some(string_of(&chars_of(t))),
        None => None,
    }
}

/// The connection type that a connector name shows, matched without regard to case.
pub fn detect_connection_type(display_name: &str) -> (r: Option<String>)
    ensures
        view_of(r) == connection_of(lower_of(display_name@)),
{
    let lower = lowercase(display_name);
    connection_type_of_lowered(lower.as_str())
}

/// A display of the given name with every other field at its default.
pub open spec fn new_display(name: Seq<char>, primary: bool) -> DisplayView {
    DisplayView {
        name: name,
        resolution: "Unknown"@,
        refresh_rate: "Unknown"@,
        color_depth: "Unknown"@,
        is_primary: primary,
        brightness: "Unknown"@,
        rotation: "Normal"@,
        scale_factor: "1.0"@,
        color_profile: "Default"@,
        connection_type: match connection_of(lower_of(name)) {
            Some(c) => c,
            None => "Unknown"@,
        },
    }
}

fn new_display_exec(name: &Vec<char>, primary: bool) -> (r: Display)
    ensures
        r@ == new_display(name@, primary),
{
    let n = string_of(name);
    let connection = match detect_connection_type(n.as_str()) {
        Some(c) => c,
        None => string_of(&chars_of("Unknown")),
    };
    Display {
        name: n,
        resolution: string_of(&chars_of("Unknown")),
        refresh_rate: string_of(&chars_of("Unknown")),
        color_depth: string_of(&chars_of("Unknown")),
        is_primary: primary,
        brightness: string_of(&chars_of("Unknown")),
        rotation: string_of(&chars_of("Normal")),
        scale_factor: string_of(&chars_of("1.0")),
        color_profile: string_of(&chars_of("Default")),
        connection_type: connection,
    }
}

/// The displays read so far, and the one being read.
pub struct ScanState {
    pub done: Seq<DisplayView>,
    pub cur: Option<DisplayView>,
}

pub open spec fn start() -> ScanState {
    ScanState { done: Seq::empty(), cur: None }
}

/// All displays of a state, the one being read last.
pub open spec fn close(st: ScanState) -> Seq<DisplayView> {
    match st.cur {
        Some(d) => st.done.push(d),
        None => st.done,
    }
}

/// An xrandr `<name> connected [primary] ...` line starts a display.
#[verifier::opaque]
pub open spec fn xr_header(st: ScanState, line: Seq<char>) -> ScanState {
    if contains(line, " connected"@) {
        let ws = words(line);
        ScanState {
            done: close(st),
            cur: if ws.len() > 0 {
                Some(new_display(ws[0], contains(line, "primary"@)))
            } else {
                None
            },
        }
    } else {
        st
    }
}

/// The refresh rate of a starred mode word, where it reads as a number.
pub open spec fn star_rate(w: Seq<char>) -> Option<Seq<char>> {
    if contains(w, "*"@) {
        let r = replace(replace(w, "*"@, Seq::empty()), "+"@, Seq::empty());
        if is_float_literal(r) {
            Some(r + " Hz"@)
        } else {
            None
        }
    } else {
        None
    }
}

/// A mode line marked `*` gives the resolution and the refresh rate.
#[verifier::opaque]
pub open spec fn xr_mode(st: ScanState, line: Seq<char>) -> ScanState {
    match st.cur {
        Some(d) => if contains(line, "*"@) && words(line).len() > 0 {
            let ws = words(line);
            ScanState {
                done: st.done,
                cur: Some(
                    DisplayView {
                        resolution: ws[0],
                        refresh_rate: match first_some(ws, |w: Seq<char>| star_rate(w)) {
                            Some(r) => r,
                            None => d.refresh_rate,
                        },
                        ..d
                    },
                ),
            }
        } else {
            st
        },
        None => st,
    }
}

/// The colour depth of a `Depth: <n> ...` line: the first word after
/// `Depth:`, as `"<n> bit"`.
pub open spec fn depth_text(line: Seq<char>) -> Option<Seq<char>> {
    match find(line, "Depth:"@) {
        Some(k) => {
            let ws = words(line.subrange(k + "Depth:"@.len(), line.len() as int));
            if ws.len() > 0 {
                Some(ws[0] + " bit"@)
            } else {
                None
            }
        },
        None => None,
    }
}

/// A `Depth:` line gives the colour depth.
#[verifier::opaque]
pub open spec fn xr_depth(st: ScanState, line: Seq<char>) -> ScanState {
    match (st.cur, depth_text(line)) {
        (Some(d), Some(t)) => ScanState {
            done: st.done,
            cur: Some(DisplayView { color_depth: t, ..d }),
        },
        _ => st,
    }
}

pub open spec fn xr_step(st: ScanState, raw: Seq<char>) -> ScanState {
    let line = trim(raw);
    xr_depth(xr_mode(xr_header(st, line), line), line)
}

pub open spec fn xr_fold(ls: Seq<Seq<char>>) -> ScanState
    decreases ls.len(),
{
    if ls.len() == 0 {
        start()
    } else {
        xr_step(xr_fold(ls.drop_last()), ls.last())
    }
}

/// The displays that `xrandr --verbose` output describes.
pub open spec fn xrandr_displays(text: Seq<char>) -> Seq<DisplayView> {
    close(xr_fold(lines(text)))
}

/// A line that does not start with a space starts a wlr-randr output block.
#[verifier::opaque]
pub open spec fn wl_header(st: ScanState, raw: Seq<char>) -> ScanState {
    let line = trim(raw);
    if raw.len() > 0 && raw[0] != ' ' && line.len() > 0 {
        ScanState { done: close(st), cur: Some(new_display(words(line)[0], false)) }
    } else {
        st
    }
}

pub open spec fn hz_word(w: Seq<char>) -> Option<Seq<char>> {
    if contains(w, "Hz"@) { Some(w) } else { None }
}

/// A mode line marked `*` gives the resolution and the refresh rate.
#[verifier::opaque]
pub open spec fn wl_mode(st: ScanState, line: Seq<char>) -> ScanState {
    match st.cur {
        Some(d) => if contains(line, "*"@) && words(line).len() > 0 {
            let ws = words(line);
            ScanState {
                done: st.done,
                cur: Some(
                    DisplayView {
                        resolution: ws[0],
                        refresh_rate: match first_some(ws, |w: Seq<char>| hz_word(w)) {
                            Some(r) => r,
                            None => d.refresh_rate,
                        },
                        ..d
                    },
                ),
            }
        } else {
            st
        },
        None => st,
    }
}

pub open spec fn wl_fold(ls: Seq<Seq<char>>) -> ScanState
    decreases ls.len(),
{
    if ls.len() == 0 {
        start()
    } else {
        wl_mode(wl_header(wl_fold(ls.drop_last()), ls.last()), trim(ls.last()))
    }
}

/// The displays that `wlr-randr` output describes; none is marked primary.
pub open spec fn wlr_displays(text: Seq<char>) -> Seq<DisplayView> {
    close(wl_fold(lines(text)))
}


/// A connector under `/sys/class/drm`: its directory name and the contents of
/// its `status` file (`None` where it could not be read).
#[derive(Clone, Debug)]
pub struct DrmConnector {
    pub name: String,
    pub status: Option<String>,
}

/// The connector of a `card<N>-<connector>[-...]` directory name.
pub open spec fn drm_name(n: Seq<char>) -> Option<Seq<char>> {
    if starts_with(n, "card"@) && contains(n, "-"@) {
        let a = find_from(n, '-', 0);
        Some(n.subrange(a + 1, find_from(n, '-', a + 1)))
    } else {
        None
    }
}

pub open spec fn is_connected(status: Option<String>) -> bool {
    match status {
        Some(s) => trim(s@) == "connected"@,
        None => false,
    }
}

/// The connected connectors, the first one found primary.
pub open spec fn drm_fold(cs: Seq<DrmConnector>) -> Seq<DisplayView>
    decreases cs.len(),
{
    if cs.len() == 0 {
        Seq::empty()
    } else {
        let prev = drm_fold(cs.drop_last());
        match drm_name(cs.last().name@) {
            Some(n) => if is_connected(cs.last().status) {
                prev.push(new_display(n, prev.len() == 0))
            } else {
                prev
            },
            None => prev,
        }
    }
}

/// The record that stands for a display that could not be detected.
pub open spec fn placeholder() -> DisplayView {
    DisplayView {
        name: "Display"@,
        resolution: "Unknown"@,
        refresh_rate: "Unknown"@,
        color_depth: "Unknown"@,
        is_primary: true,
        brightness: "Unknown"@,
        rotation: "Normal"@,
        scale_factor: "1.0"@,
        color_profile: "Default"@,
        connection_type: "Unknown"@,
    }
}

/// The displays that the DRM connectors show, or the placeholder alone.
pub open spec fn drm_displays(cs: Seq<DrmConnector>) -> Seq<DisplayView> {
    let d = drm_fold(cs);
    if d.len() == 0 { seq![placeholder()] } else { d }
}

/// The displays of the first source that finds any: xrandr, wlr-randr, DRM.
pub open spec fn display_list(
    xrandr: Option<Seq<char>>,
    wlr: Option<Seq<char>>,
    drm: Seq<DrmConnector>,
) -> Seq<DisplayView> {
    if xrandr is Some && xrandr_displays(xrandr->0).len() > 0 {
        xrandr_displays(xrandr->0)
    } else if wlr is Some && wlr_displays(wlr->0).len() > 0 {
        wlr_displays(wlr->0)
    } else {
        drm_displays(drm)
    }
}

struct Scan {
    done: Vec<Display>,
    cur: Option<Display>,
}

spec fn scan_view(s: Scan) -> ScanState {
    ScanState {
        done: views(s.done@),
        cur: match s.cur {
            Some(d) => Some(d@),
            None => None,
        },
    }
}

fn close_exec(st: Scan) -> (r: Vec<Display>)
    ensures
        views(r@) == close(scan_view(st)),
{
    let Scan { mut done, cur } = st;
    let ghost before = done@;
    match cur {
        Some(d) => {
            done.push(d);
            assert(views(done@) =~= views(before).push(d@));
        },
        None => {},
    }
    done
}

fn xr_header_exec(st: Scan, line: &Vec<char>) -> (r: Scan)
    ensures
        scan_view(r) == xr_header(scan_view(st), line@),
{
    reveal(xr_header);
    if contains_exec(line, &chars_of(" connected")) {
        let done = close_exec(st);
        let ws = split_words(line);
        let cur = if ws.len() > 0 {
            Some(new_display_exec(&ws[0], contains_exec(line, &chars_of("primary"))))
        } else {
            None
        };
        Scan { done, cur }
    } else {
        st
    }
}

fn star_rate_exec(w: &Vec<char>) -> (r: Option<Vec<char>>)
    ensures
        opt_seq(r) == star_rate(w@),
{
    proof {
        reveal_strlit("*");
        reveal_strlit("+");
    }
    if contains_exec(w, &chars_of("*")) {
        let empty: Vec<char> = Vec::new();
        let a = replace_exec(w, &chars_of("*"), &empty);
        let mut r = replace_exec(&a, &chars_of("+"), &empty);
        if is_float_literal_exec(&r) {
            let mut unit = chars_of(" Hz");
            r.append(&mut unit);
            Some(r)
        } else {
            None
        }
    } else {
        None
    }
}

fn hz_word_exec(w: &Vec<char>) -> (r: Option<Vec<char>>)
    ensures
        opt_seq(r) == hz_word(w@),
{
    if contains_exec(w, &chars_of("Hz")) {
        let r = slice(w, 0, w.len());
        assert(w@.subrange(0, w@.len() as int) =~= w@);
        Some(r)
    } else {
        None
    }
}

fn xr_mode_exec(st: Scan, line: &Vec<char>) -> (r: Scan)
    ensures
        scan_view(r) == xr_mode(scan_view(st), line@),
{
    reveal(xr_mode);
    let Scan { done, cur } = st;
    match cur {
        Some(mut d) => {
            if contains_exec(line, &chars_of("*")) {
                let ws = split_words(line);
                if ws.len() > 0 {
                    d.resolution = string_of(&ws[0]);
                    let rate = crate::memory::first_some_exec(
                        &ws,
                        star_rate_exec,
                        Ghost(|w: Seq<char>| star_rate(w)),
                    );
                    match rate {
                        Some(r) => {
                            d.refresh_rate = string_of(&r);
                        },
                        None => {},
                    }
                }
            }
            Scan { done, cur: Some(d) }
        },
        None => Scan { done, cur: None },
    }
}

fn depth_text_exec(line: &Vec<char>) -> (r: Option<Vec<char>>)
    ensures
        opt_seq(r) == depth_text(line@),
{
    proof {
        reveal_strlit("Depth:");
    }
    let n = line.len();
    match find_first(line, &chars_of("Depth:")) {
        Some(k) => {
            let ws = split_words(&slice(line, k + 6, n));
            if ws.len() > 0 {
                let mut depth = slice(&ws[0], 0, ws[0].len());
                assert(ws@[0]@.subrange(0, ws@[0]@.len() as int) =~= ws@[0]@);
                let mut unit = chars_of(" bit");
                depth.append(&mut unit);
                Some(depth)
            } else {
                None
            }
        },
        None => None,
    }
}

fn xr_depth_exec(st: Scan, line: &Vec<char>) -> (r: Scan)
    ensures
        scan_view(r) == xr_depth(scan_view(st), line@),
{
    reveal(xr_depth);
    let Scan { done, cur } = st;
    match cur {
        Some(mut d) => {
            if let Some(t) = depth_text_exec(line) {
                d.color_depth = string_of(&t);
            }
            Scan { done, cur: Some(d) }
        },
        None => Scan { done, cur: None },
    }
}

/// The displays that `xrandr --verbose` output describes.
pub fn detect_displays_xrandr(text: &str) -> (r: Vec<Display>)
    ensures
        views(r@) == xrandr_displays(text@),
{
    let ls = split_lines(&chars_of(text));
    let mut st = Scan { done: Vec::new(), cur: None };
    assert(views(st.done@) =~= Seq::<DisplayView>::empty());
    let mut i: usize = 0;
    while i < ls.len()
        invariant
            i <= ls@.len(),
            seqs(ls@) == lines(text@),
            scan_view(st) == xr_fold(seqs(ls@).take(i as int)),
        decreases ls@.len() - i,
    {
        assert(seqs(ls@).take(i + 1).drop_last() =~= seqs(ls@).take(i as int));
        assert(seqs(ls@).take(i + 1).last() == ls@[i as int]@);
        let line = trim_exec(&ls[i]);
        st = xr_header_exec(st, &line);
        st = xr_mode_exec(st, &line);
        st = xr_depth_exec(st, &line);
        i = i + 1;
    }
    assert(seqs(ls@).take(ls@.len() as int) =~= seqs(ls@));
    close_exec(st)
}

fn wl_header_exec(st: Scan, raw: &Vec<char>) -> (r: Scan)
    ensures
        scan_view(r) == wl_header(scan_view(st), raw@),
{
    reveal(wl_header);
    let line = trim_exec(raw);
    if raw.len() > 0 && raw[0] != ' ' && line.len() > 0 {
        let done = close_exec(st);
        let ws = split_words(&line);
        proof {
            crate::text::lemma_words_nonempty(raw@);
        }
        Scan { done, cur: Some(new_display_exec(&ws[0], false)) }
    } else {
        st
    }
}

fn wl_mode_exec(st: Scan, line: &Vec<char>) -> (r: Scan)
    ensures
        scan_view(r) == wl_mode(scan_view(st), line@),
{
    reveal(wl_mode);
    let Scan { done, cur } = st;
    match cur {
        Some(mut d) => {
            if contains_exec(line, &chars_of("*")) {
                let ws = split_words(line);
                if ws.len() > 0 {
                    d.resolution = string_of(&ws[0]);
                    let rate = crate::memory::first_some_exec(
                        &ws,
                        hz_word_exec,
                        Ghost(|w: Seq<char>| hz_word(w)),
                    );
                    match rate {
                        Some(r) => {
                            d.refresh_rate = string_of(&r);
                        },
                        None => {},
                    }
                }
            }
            Scan { done, cur: Some(d) }
        },
        None => Scan { done, cur: None },
    }
}

/// The displays that `wlr-randr` output describes.
pub fn detect_displays_wlr_randr(text: &str) -> (r: Vec<Display>)
    ensures
        views(r@) == wlr_displays(text@),
{
    let ls = split_lines(&chars_of(text));
    let mut st = Scan { done: Vec::new(), cur: None };
    assert(views(st.done@) =~= Seq::<DisplayView>::empty());
    let mut i: usize = 0;
    while i < ls.len()
        invariant
            i <= ls@.len(),
            seqs(ls@) == lines(text@),
            scan_view(st) == wl_fold(seqs(ls@).take(i as int)),
        decreases ls@.len() - i,
    {
        assert(seqs(ls@).take(i + 1).drop_last() =~= seqs(ls@).take(i as int));
        assert(seqs(ls@).take(i + 1).last() == ls@[i as int]@);
        st = wl_header_exec(st, &ls[i]);
        let line = trim_exec(&ls[i]);
        st = wl_mode_exec(st, &line);
        i = i + 1;
    }
    assert(seqs(ls@).take(ls@.len() as int) =~= seqs(ls@));
    close_exec(st)
}

fn drm_name_exec(n: &Vec<char>) -> (r: Option<Vec<char>>)
    ensures
        opt_seq(r) == drm_name(n@),
{
    if starts_with_exec(n, &chars_of("card")) && contains_exec(n, &chars_of("-")) {
        let a = find_from_exec(n, '-', 0);
        proof {
            crate::text::lemma_find_from(n@, '-', 0);
        }
        if a >= n.len() {
            proof {
                reveal_strlit("-");
                let k = choose|k: int| crate::text::occurs_at(n@, "-"@, k);
                assert(n@.subrange(k, k + 1)[0] == '-');
            }
            return None;
        }
        let b = find_from_exec(n, '-', a + 1);
        Some(slice(n, a + 1, b))
    } else {
        None
    }
}

fn placeholder_exec() -> (r: Display)
    ensures
        r@ == placeholder(),
{
    Display {
        name: string_of(&chars_of("Display")),
        resolution: string_of(&chars_of("Unknown")),
        refresh_rate: string_of(&chars_of("Unknown")),
        color_depth: string_of(&chars_of("Unknown")),
        is_primary: true,
        brightness: string_of(&chars_of("Unknown")),
        rotation: string_of(&chars_of("Normal")),
        scale_factor: string_of(&chars_of("1.0")),
        color_profile: string_of(&chars_of("Default")),
        connection_type: string_of(&chars_of("Unknown")),
    }
}

/// The displays that the DRM connectors show: each connected one, the first
/// primary; the placeholder where none is connected.
pub fn detect_displays_fallback(connectors: &Vec<DrmConnector>) -> (r: Vec<Display>)
    ensures
        views(r@) == drm_displays(connectors@),
{
    let mut out: Vec<Display> = Vec::new();
    assert(views(out@) =~= Seq::<DisplayView>::empty());
    let mut i: usize = 0;
    while i < connectors.len()
        invariant
            i <= connectors@.len(),
            views(out@) == drm_fold(connectors@.take(i as int)),
        decreases connectors@.len() - i,
    {
        assert(connectors@.take(i + 1).drop_last() =~= connectors@.take(i as int));
        let c = &connectors[i];
        if let Some(n) = drm_name_exec(&chars_of(c.name.as_str())) {
            let connected = match &c.status {
                Some(s) => eq_exec(&trim_exec(&chars_of(s.as_str())), &chars_of("connected")),
                None => false,
            };
            if connected {
                let ghost before = out@;
                let d = new_display_exec(&n, out.len() == 0);
                out.push(d);
                assert(views(out@) =~= views(before).push(d@));
            }
        }
        i = i + 1;
    }
    assert(connectors@.take(connectors@.len() as int) =~= connectors@);
    if out.len() == 0 {
        out.push(placeholder_exec());
        assert(views(out@) =~= seq![placeholder()]);
    }
    out
}

/// The displays of the first source that finds any: `xrandr --verbose`
/// output, then `wlr-randr` output (`None` where a tool could not be run),
/// then the DRM connectors, then a placeholder.
pub fn detect_displays(
    xrandr: Option<&str>,
    wlr_randr: Option<&str>,
    connectors: &Vec<DrmConnector>,
) -> (r: Vec<Display>)
    ensures
        views(r@) == display_list(opt_view(xrandr), opt_view(wlr_randr), connectors@),
        r@.len() > 0,
{
    if let Some(t) = xrandr {
        let ds = detect_displays_xrandr(t);
        if ds.len() > 0 {
            return ds;
        }
        assert(xrandr_displays(t@).len() == 0);
    }
    if let Some(t) = wlr_randr {
        let ds = detect_displays_wlr_randr(t);
        if ds.len() > 0 {
            return ds;
        }
        assert(wlr_displays(t@).len() == 0);
    }
    let r = detect_displays_fallback(connectors);
    assert(views(r@).len() > 0);
    r
}

impl DisplayInfo {
    /// The displays, as `detect_displays` finds them.
    pub fn detect(
        xrandr: Option<&str>,
        wlr_randr: Option<&str>,
        connectors: &Vec<DrmConnector>,
    ) -> (r: DisplayInfo)
        ensures
            views(r.displays@) == display_list(opt_view(xrandr), opt_view(wlr_randr), connectors@),
            r.displays@.len() > 0,
    {
        DisplayInfo { displays: detect_displays(xrandr, wlr_randr, connectors) }
    }
}

} // verus!
