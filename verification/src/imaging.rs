//! Pixel heuristics of the filter server's label reader. Images are packed RGB
//! bytes; each pixel's luminance is the integer Rec. 601 weighting. The
//! detectors decide from the share of dark or bright pixels (compared as exact
//! fractions) and from clusters of horizontal edges whether a date, a tape
//! scale, a mix sheet, a cement bag or a scale display is in view.

use vstd::prelude::*;

verus! {

/// Rec. 601 luminance of one RGB pixel, in 0..=255.
pub open spec fn luminance(r: u8, g: u8, b: u8) -> nat {
    ((r as nat) * 299 + (g as nat) * 587 + (b as nat) * 114) / 1000
}

/// Luminance of the `k`-th pixel of a packed RGB buffer.
pub open spec fn pixel_luma(p: Seq<u8>, k: int) -> nat {
    luminance(p[3 * k], p[3 * k + 1], p[3 * k + 2])
}

/// How many of the first `n` pixels are darker than `t` (or, when `brighter`,
/// brighter than `t`).
pub open spec fn luma_count(p: Seq<u8>, n: nat, t: nat, brighter: bool) -> nat
    decreases n,
{
    if n == 0 {
        0
    } else {
        luma_count(p, (n - 1) as nat, t, brighter) + if (if brighter {
            pixel_luma(p, n - 1) > t
        } else {
            pixel_luma(p, n - 1) < t
        }) {
            1nat
        } else {
            0nat
        }
    }
}

/// Sum of the luminance of the first `n` pixels.
pub open spec fn luma_sum(p: Seq<u8>, n: nat) -> nat
    decreases n,
{
    if n == 0 { 0 } else { luma_sum(p, (n - 1) as nat) + pixel_luma(p, n - 1) }
}

/// The pixel count of a buffer whose length is a multiple of three.
pub open spec fn pixel_count(p: Seq<u8>) -> nat {
    p.len() / 3
}

/// Integer luminance of one pixel.
pub fn luma(r: u8, g: u8, b: u8) -> (v: u32)
    ensures
        v == luminance(r, g, b),
        v <= 255,
{
    let v = (r as u32 * 299 + g as u32 * 587 + b as u32 * 114) / 1000;
    v
}

/// Counts the pixels darker than `t` (or brighter, when `brighter`).
pub fn count_luma(pixels: &[u8], t: u32, brighter: bool) -> (c: usize)
    requires
        pixels@.len() % 3 == 0,
    ensures
        c == luma_count(pixels@, pixel_count(pixels@), t as nat, brighter),
        c <= pixel_count(pixels@),
{
    let n = pixels.len() / 3;
    let mut k: usize = 0;
    let mut c: usize = 0;
    while k < n
        invariant
            n == pixel_count(pixels@),
            pixels@.len() == 3 * n,
            pixels@.len() <= usize::MAX,
            k <= n,
            c == luma_count(pixels@, k as nat, t as nat, brighter),
            c <= k,
        decreases n - k,
    {
        let v = luma(pixels[3 * k], pixels[3 * k + 1], pixels[3 * k + 2]);
        let hit = if brighter { v > t } else { v < t };
        if hit {
            c = c + 1;
        }
        k = k + 1;
    }
    c
}

/// Whether the share `count / n` lies strictly between `lo_num / lo_den` and
/// `hi_num / hi_den`; never for an empty image.
pub open spec fn share_between(count: nat, n: nat, lo_num: nat, lo_den: nat, hi_num: nat, hi_den: nat) -> bool {
    n > 0 && count * lo_den > n * lo_num && count * hi_den < n * hi_num
}

fn share_in(count: usize, n: usize, lo_num: u128, lo_den: u128, hi_num: u128, hi_den: u128) -> (b: bool)
    requires
        lo_num <= 1000, lo_den <= 1000, hi_num <= 1000, hi_den <= 1000,
    ensures
        b == share_between(count as nat, n as nat, lo_num as nat, lo_den as nat, hi_num as nat, hi_den as nat),
{
    if n == 0 {
        return false;
    }
    let c = count as u128;
    let m = n as u128;
    proof {
        assert(c * lo_den <= u64::MAX as u128 * 1000) by (nonlinear_arith)
            requires c <= u64::MAX, lo_den <= 1000;
        assert(m * lo_num <= u64::MAX as u128 * 1000) by (nonlinear_arith)
            requires m <= u64::MAX, lo_num <= 1000;
        assert(c * hi_den <= u64::MAX as u128 * 1000) by (nonlinear_arith)
            requires c <= u64::MAX, hi_den <= 1000;
        assert(m * hi_num <= u64::MAX as u128 * 1000) by (nonlinear_arith)
            requires m <= u64::MAX, hi_num <= 1000;
    }
    c * lo_den > m * lo_num && c * hi_den < m * hi_num
}

/// The image is at least `width` x `height` RGB pixels.
pub open spec fn covers(p: Seq<u8>, width: nat, height: nat) -> bool {
    p.len() >= width * height * 3
}

/// A printed label is in view: between 2 % and 30 % of the pixels are dark.
pub open spec fn label_text_present(p: Seq<u8>) -> bool {
    share_between(luma_count(p, pixel_count(p), 100, false), pixel_count(p), 1, 50, 3, 10)
}

/// A mix sheet is in view: between 2 % and 40 % of the pixels are dark.
pub open spec fn mix_sheet_present(p: Seq<u8>) -> bool {
    share_between(luma_count(p, pixel_count(p), 100, false), pixel_count(p), 1, 50, 2, 5)
}

/// Printed digits on a cement bag: between 1 % and 30 % of the pixels are bright.
pub open spec fn bag_print_present(p: Seq<u8>) -> bool {
    share_between(luma_count(p, pixel_count(p), 150, true), pixel_count(p), 1, 100, 3, 10)
}

/// Day number of the reference calendar for a clock reading in seconds since
/// 1970: whole days, truncated to 32 bits as the cast does, minus the 19723
/// days up to 1 January 2024, wrapping as two's complement.
pub open spec fn day_number(now_secs: u64) -> i32 {
    ((now_secs / 86400) as i32).wrapping_sub(19723)
}

/// The day number clamped into 1..=365.
pub open spec fn clamped_day(now_secs: u64) -> i32 {
    let d = day_number(now_secs);
    if d < 1 { 1 } else if d > 365 { 365 } else { d }
}

/// The day read from a label image at clock `now_secs`: present when the image
/// covers the stated size and looks like printed text.
pub open spec fn date_reading(p: Seq<u8>, width: nat, height: nat, now_secs: u64) -> Option<i32> {
    if !covers(p, width, height) {
        None
    } else if label_text_present(p) {
        Some(clamped_day(now_secs))
    } else {
        None
    }
}

/// Reads a date label from an image at the given clock reading.
pub fn date_from_pixels_at(pixels: &[u8], width: usize, height: usize, now_secs: u64) -> (r: Option<i32>)
    requires
        pixels@.len() % 3 == 0,
        width * height * 3 <= usize::MAX,
    ensures
        r == date_reading(pixels@, width as nat, height as nat, now_secs),
{
    if pixels.len() < width * height * 3 {
        return None;
    }
    let dark = count_luma(pixels, 100, false);
    if share_in(dark, pixels.len() / 3, 1, 50, 3, 10) {
        let days = (#[verifier::truncate] ((now_secs / 86400) as i32)).wrapping_sub(19723);
        let clamped = if days < 1 { 1 } else if days > 365 { 365 } else { days };
        Some(clamped)
    } else {
        None
    }
}

/// `std::time::SystemTime`, carried through opaquely.
#[verifier::external_type_specification]
#[verifier::external_body]
pub struct ExSystemTime(std::time::SystemTime);

/// `std::time::SystemTime::now`: the wall clock; nothing is promised of it.
#[verifier::external_body]
fn system_now() -> std::time::SystemTime {
    std::time::SystemTime::now()
}

/// `SystemTime::duration_since(UNIX_EPOCH)`: the time since 1970, or `None`
/// for a clock set before it; nothing is promised of the value.
#[verifier::external_body]
fn since_unix_epoch(t: std::time::SystemTime) -> Option<std::time::Duration> {
    t.duration_since(std::time::UNIX_EPOCH).ok()
}

/// `Duration::as_secs`: whole seconds of a duration.
#[verifier::external_body]
fn whole_seconds(d: std::time::Duration) -> u64 {
    d.as_secs()
}

/// Reads a date label from an image, taking the day from the wall clock. The
/// clock is read only when the image looks like printed text. A clock set
/// before 1970 lies before the first counted day, so it reads as day 1.
pub fn detect_date_from_pixels(pixels: &[u8], width: usize, height: usize) -> (r: Option<i32>)
    requires
        pixels@.len() % 3 == 0,
        width * height * 3 <= usize::MAX,
    ensures
        r is Some <==> covers(pixels@, width as nat, height as nat) && label_text_present(pixels@),
        r matches Some(d) ==> 1 <= d <= 365 && exists|s: u64| d == clamped_day(s),
{
    if pixels.len() < width * height * 3 {
        return None;
    }
    let dark = count_luma(pixels, 100, false);
    if !share_in(dark, pixels.len() / 3, 1, 50, 3, 10) {
        return None;
    }
    match since_unix_epoch(system_now()) {
        Some(d) => {
            let secs = whole_seconds(d);
            let r = date_from_pixels_at(pixels, width, height, secs);
            proof {
                assert(r == Some(clamped_day(secs)));
            }
            r
        },
        None => {
            let r = date_from_pixels_at(pixels, width, height, 0);
            proof {
                assert(r == Some(clamped_day(0)));
            }
            r
        },
    }
}

/// The weight, in kg, read from a cement bag: 25 kg when printed digits are in view.
pub fn detect_cement_bag_weight(pixels: &[u8], width: usize, height: usize) -> (r: Option<u32>)
    requires
        pixels@.len() % 3 == 0,
    ensures
        r == (if bag_print_present(pixels@) { Some(25u32) } else { None }),
{
    let bright = count_luma(pixels, 150, true);
    if share_in(bright, pixels.len() / 3, 1, 100, 3, 10) {
        Some(25)
    } else {
        None
    }
}

/// Whether a mix-design sheet is in view (the sheet's values are then read as
/// the standard placeholder mix).
pub fn detect_mix_design(pixels: &[u8], width: usize, height: usize) -> (r: bool)
    requires
        pixels@.len() % 3 == 0,
    ensures
        r == mix_sheet_present(pixels@),
{
    let dark = count_luma(pixels, 100, false);
    share_in(dark, pixels.len() / 3, 1, 50, 2, 5)
}

/// What a scale display yields: the total luminance of the image when it
/// covers the stated size and at least 50 pixels are bright (above 180).
pub open spec fn scale_reading(p: Seq<u8>, width: nat, height: nat) -> Option<nat> {
    if !covers(p, width, height) {
        None
    } else if luma_count(p, pixel_count(p), 180, true) < 50 {
        None
    } else {
        Some(luma_sum(p, pixel_count(p)))
    }
}

/// Measures a scale display: the total luminance, from which the weight
/// estimate is derived, or `None` when no lit display is in view.
pub fn detect_scale_brightness(pixels: &[u8], width: usize, height: usize) -> (r: Option<u32>)
    requires
        pixels@.len() % 3 == 0,
        width * height * 3 <= usize::MAX,
        luma_sum(pixels@, pixel_count(pixels@)) <= u32::MAX,
    ensures
        r matches Some(v) ==> scale_reading(pixels@, width as nat, height as nat) == Some(v as nat),
        r is None ==> scale_reading(pixels@, width as nat, height as nat) is None,
{
    if pixels.len() < width * height * 3 {
        return None;
    }
    let n = pixels.len() / 3;
    let mut k: usize = 0;
    let mut bright: usize = 0;
    let mut total: u32 = 0;
    while k < n
        invariant
            n == pixel_count(pixels@),
            pixels@.len() == 3 * n,
            pixels@.len() <= usize::MAX,
            k <= n,
            bright == luma_count(pixels@, k as nat, 180, true),
            bright <= k,
            total == luma_sum(pixels@, k as nat),
            luma_sum(pixels@, n as nat) <= u32::MAX,
        decreases n - k,
    {
        proof {
            lemma_luma_sum_monotone(pixels@, (k + 1) as nat, n as nat);
        }
        let v = luma(pixels[3 * k], pixels[3 * k + 1], pixels[3 * k + 2]);
        total = total + v;
        if v > 180 {
            bright = bright + 1;
        }
        k = k + 1;
    }
    if bright < 50 {
        None
    } else {
        Some(total)
    }
}

proof fn lemma_luma_sum_monotone(p: Seq<u8>, a: nat, b: nat)
    requires
        a <= b,
    ensures
        luma_sum(p, a) <= luma_sum(p, b),
    decreases b - a,
{
    if a < b {
        lemma_luma_sum_monotone(p, a, (b - 1) as nat);
    }
}

// ── Tape measurement: clusters of horizontal edges ────────────────────────────

/// Rows `s..e` of `m` form a closed cluster: every row in it is marked, the row
/// before it (if any) is not, and row `e`, which closes it, is not.
pub open spec fn closed_run(m: Seq<bool>, s: int, e: int) -> bool {
    &&& 0 <= s < e < m.len()
    &&& forall|y: int| s <= y < e ==> #[trigger] m[y]
    &&& s == 0 || !m[s - 1]
    &&& !m[e]
}

/// The span from the first closed cluster's first row to the last closed
/// cluster's closing row, when there are at least two closed clusters.
pub open spec fn cluster_span(m: Seq<bool>) -> Option<(int, int)> {
    if exists|s1: int, e1: int, s2: int, e2: int|
        closed_run(m, s1, e1) && closed_run(m, s2, e2) && e1 <= s2
            && (forall|s: int, e: int| #[trigger] closed_run(m, s, e) ==> s1 <= s && e <= e2)
    {
        let (s1, e1, s2, e2) = choose|s1: int, e1: int, s2: int, e2: int|
            closed_run(m, s1, e1) && closed_run(m, s2, e2) && e1 <= s2
                && (forall|s: int, e: int| #[trigger] closed_run(m, s, e) ==> s1 <= s && e <= e2);
        Some((s1, e2))
    } else {
        None
    }
}

proof fn lemma_run_end_unique(m: Seq<bool>, s: int, e: int, e2: int)
    requires
        closed_run(m, s, e),
        closed_run(m, s, e2),
    ensures
        e == e2,
{
    if e < e2 {
        assert(m[e]);
    } else if e2 < e {
        assert(m[e2]);
    }
}

proof fn lemma_runs_ordered(m: Seq<bool>, s1: int, e1: int, s2: int, e2: int)
    requires
        closed_run(m, s1, e1),
        closed_run(m, s2, e2),
        e1 < e2,
    ensures
        e1 < s2,
        s1 < s2,
{
    if s2 <= e1 {
        assert(m[e1]);
    }
}

proof fn lemma_run_start_unique(m: Seq<bool>, s: int, s2: int, e: int)
    requires
        closed_run(m, s, e),
        closed_run(m, s2, e),
    ensures
        s == s2,
{
    if s < s2 {
        assert(m[s2 - 1]);
    } else if s2 < s {
        assert(m[s - 1]);
    }
}

/// Finds the first and last closed clusters of marked rows: the first row of
/// the first and the closing row of the last, when there are at least two.
pub fn cluster_extent(m: &Vec<bool>) -> (r: Option<(usize, usize)>)
    ensures
        r matches Some(p) ==> cluster_span(m@) == Some((p.0 as int, p.1 as int)),
        r is None ==> cluster_span(m@) is None,
{
    let h = m.len();
    let mut in_cluster = false;
    let mut start: usize = 0;
    let mut first: Option<(usize, usize)> = None;
    let mut last_start: usize = 0;
    let mut last_end: usize = 0;
    let mut y: usize = 0;
    while y < h
        invariant
            h == m@.len(),
            y <= h,
            in_cluster == (y > 0 && m@[y - 1]),
            in_cluster ==> start < y && (forall|k: int| start <= k < y ==> #[trigger] m@[k])
                && (start == 0 || !m@[start - 1]),
            first is None ==> forall|s: int, e: int| #[trigger] closed_run(m@, s, e) ==> e >= y,
            first matches Some(f) ==> closed_run(m@, f.0 as int, f.1 as int) && f.1 < y
                && (forall|s: int, e: int| #[trigger] closed_run(m@, s, e) && e < y ==> f.0 <= s && f.1 <= e)
                && closed_run(m@, last_start as int, last_end as int) && last_end < y
                && (forall|s: int, e: int| #[trigger] closed_run(m@, s, e) && e < y ==> e <= last_end),
        decreases h - y,
    {
        if m[y] {
            if !in_cluster {
                in_cluster = true;
                start = y;
            }
        } else if in_cluster {
            in_cluster = false;
            proof {
                assert(closed_run(m@, start as int, y as int));
                assert forall|s: int, e: int| #[trigger] closed_run(m@, s, e) && e == y implies s == start by {
                    lemma_run_start_unique(m@, s, start as int, y as int);
                }
            }
            match first {
                None => {
                    first = Some((start, y));
                },
                Some(_) => {},
            }
            last_start = start;
            last_end = y;
        }
        proof {
            assert forall|s: int, e: int| #[trigger] closed_run(m@, s, e) && e == y implies !in_cluster
                && m@[y as int] == false by {}
        }
        y = y + 1;
    }
    match first {
        None => {
            proof {
                assert(!(exists|s1: int, e1: int, s2: int, e2: int|
                    closed_run(m@, s1, e1) && closed_run(m@, s2, e2) && e1 <= s2
                        && (forall|s: int, e: int| #[trigger] closed_run(m@, s, e) ==> s1 <= s && e <= e2)));
            }
            None
        },
        Some(f) => {
            if f.1 < last_end {
                proof {
                    lemma_runs_ordered(m@, f.0 as int, f.1 as int, last_start as int, last_end as int);
                    let w = (f.0 as int, f.1 as int, last_start as int, last_end as int);
                    assert(closed_run(m@, w.0, w.1) && closed_run(m@, w.2, w.3) && w.1 <= w.2
                        && (forall|s: int, e: int| #[trigger] closed_run(m@, s, e) ==> w.0 <= s && e <= w.3));
                    let (s1, e1, s2, e2) = choose|s1: int, e1: int, s2: int, e2: int|
                        closed_run(m@, s1, e1) && closed_run(m@, s2, e2) && e1 <= s2
                            && (forall|s: int, e: int| #[trigger] closed_run(m@, s, e) ==> s1 <= s && e <= e2);
                    assert(closed_run(m@, s1, e1));
                    assert(closed_run(m@, s2, e2));
                    assert(s1 <= f.0 && f.0 <= s1);
                    assert(e2 <= last_end && last_end <= e2);
                }
                Some((f.0, last_end))
            } else {
                proof {
                    assert(f.1 == last_end);
                    if exists|s1: int, e1: int, s2: int, e2: int|
                        closed_run(m@, s1, e1) && closed_run(m@, s2, e2) && e1 <= s2
                            && (forall|s: int, e: int| #[trigger] closed_run(m@, s, e) ==> s1 <= s && e <= e2)
                    {
                        let (s1, e1, s2, e2) = choose|s1: int, e1: int, s2: int, e2: int|
                            closed_run(m@, s1, e1) && closed_run(m@, s2, e2) && e1 <= s2
                                && (forall|s: int, e: int| #[trigger] closed_run(m@, s, e) ==> s1 <= s && e <= e2);
                        assert(closed_run(m@, s1, e1));
                        assert(closed_run(m@, s2, e2));
                        assert(s1 == f.0 as int);
                        lemma_run_end_unique(m@, s1, e1, f.1 as int);
                        assert(e2 <= last_end);
                        assert(false);
                    }
                }
                None
            }
        },
    }
}

/// Luminance difference between two pixels.
pub open spec fn luma_gap(p: Seq<u8>, a: int, b: int) -> nat {
    let la = pixel_luma(p, a);
    let lb = pixel_luma(p, b);
    if la >= lb { (la - lb) as nat } else { (lb - la) as nat }
}

/// Among the first `x` columns of row `y`, how many differ from the row above
/// by more than 100 luminance levels.
pub open spec fn edge_hits(p: Seq<u8>, w: int, y: int, x: nat) -> nat
    decreases x,
{
    if x == 0 {
        0
    } else {
        edge_hits(p, w, y, (x - 1) as nat) + if luma_gap(p, y * w + x - 1, (y - 1) * w + x - 1) > 100 {
            1nat
        } else {
            0nat
        }
    }
}

/// Row `y` of a `w`-wide image is a tape marking: more than a tenth of its
/// columns are horizontal edges.
pub open spec fn row_marked(p: Seq<u8>, w: nat, y: int) -> bool {
    y >= 1 && edge_hits(p, w as int, y, w) > w / 10
}

/// The marking flags of the rows of a `w` x `h` image.
pub open spec fn row_marks(p: Seq<u8>, w: nat, h: nat) -> Seq<bool> {
    Seq::new(h, |y: int| row_marked(p, w, y))
}

/// The tape size, in cm, read from an image: the standard 5 cm test cube when
/// the markings from the first to the last closed cluster span more than 50 rows
/// but less than half of the image.
pub open spec fn tape_reading(p: Seq<u8>, w: nat, h: nat) -> Option<u32> {
    if !covers(p, w, h) {
        None
    } else {
        match cluster_span(row_marks(p, w, h)) {
            Some((s, e)) => if e - s > 50 && e - s < h / 2 { Some(5u32) } else { None },
            None => None,
        }
    }
}

proof fn lemma_cell_index(y: int, x: int, w: int, h: int)
    requires
        1 <= y < h,
        0 <= x < w,
    ensures
        0 <= (y - 1) * w + x,
        (y - 1) * w + x < y * w + x,
        y * w + x < h * w,
{
    assert((y - 1) * w + x < y * w + x) by (nonlinear_arith)
        requires 0 <= x < w, 1 <= y;
    assert(y * w + x < h * w) by (nonlinear_arith)
        requires 0 <= x < w, y < h;
    assert(0 <= (y - 1) * w) by (nonlinear_arith)
        requires 1 <= y, 0 <= w;
}

fn pixel_luma_at(pixels: &[u8], k: usize) -> (v: u32)
    requires
        3 * k + 2 < pixels@.len(),
    ensures
        v == pixel_luma(pixels@, k as int),
        v <= 255,
{
    let n = pixels.len();
    luma(pixels[3 * k], pixels[3 * k + 1], pixels[3 * k + 2])
}

/// Flags the rows of a `width` x `height` image that are tape markings.
pub fn mark_rows(pixels: &[u8], width: usize, height: usize) -> (m: Vec<bool>)
    requires
        pixels@.len() >= width * height * 3,
        width * height * 3 <= usize::MAX,
    ensures
        m@ == row_marks(pixels@, width as nat, height as nat),
{
    let mut m: Vec<bool> = Vec::new();
    let mut y: usize = 0;
    proof {
        assert(width * height <= width * height * 3) by (nonlinear_arith)
            requires width * height >= 0;
        assert(height * width == width * height) by (nonlinear_arith);
    }
    while y < height
        invariant
            y <= height,
            pixels@.len() >= width * height * 3,
            width * height * 3 <= usize::MAX,
            height * width == width * height,
            m@.len() == y,
            forall|k: int| 0 <= k < y ==> m@[k] == row_marked(pixels@, width as nat, k),
        decreases height - y,
    {
        if y == 0 {
            m.push(false);
        } else {
            let mut x: usize = 0;
            let mut hits: usize = 0;
            while x < width
                invariant
                    1 <= y < height,
                    x <= width,
                    pixels@.len() >= width * height * 3,
                    width * height * 3 <= usize::MAX,
                    height * width == width * height,
                    hits == edge_hits(pixels@, width as int, y as int, x as nat),
                    hits <= x,
                decreases width - x,
            {
                proof {
                    lemma_cell_index(y as int, x as int, width as int, height as int);
                }
                let a = pixel_luma_at(pixels, y * width + x);
                let b = pixel_luma_at(pixels, (y - 1) * width + x);
                let gap = if a >= b { a - b } else { b - a };
                if gap > 100 {
                    hits = hits + 1;
                }
                x = x + 1;
            }
            m.push(hits > width / 10);
        }
        y = y + 1;
    }
    proof {
        assert(m@ =~= row_marks(pixels@, width as nat, height as nat));
    }
    m
}

/// Measures a test cube against a tape: 5 cm when the tape markings span the
/// expected range, `None` otherwise.
pub fn detect_tape_measurement(pixels: &[u8], width: usize, height: usize) -> (r: Option<u32>)
    requires
        pixels@.len() % 3 == 0,
        width * height * 3 <= usize::MAX,
    ensures
        r == tape_reading(pixels@, width as nat, height as nat),
{
    if pixels.len() < width * height * 3 {
        return None;
    }
    let marks = mark_rows(pixels, width, height);
    match cluster_extent(&marks) {
        Some((s, e)) => {
            if e - s > 50 && e - s < height / 2 {
                Some(5)
            } else {
                None
            }
        },
        None => None,
    }
}

} // verus!
