use vstd::prelude::*;

verus! {

// ---------------------------------------------------------------------------
// Brightness mapping
//
// A lightness value is a rational number `num / den` in [0, 1]; for a pixel it
// is the HSL lightness (max(r, g, b) + min(r, g, b)) / 2 with the channels
// normalized to [0, 1], which is exactly (max + min) / 510 for 8-bit channels.
// The ramp is a step function with eight buckets whose thresholds are the
// multiples k/8, closed on the lower bound; `num / den >= k / 8` is decided
// exactly by the integer comparison `8 * num >= k * den`.
// ---------------------------------------------------------------------------

/// The character of ramp bucket `bucket`, from 0 (darkest) to 7 (brightest).
pub open spec fn spec_ramp_char(bucket: int) -> char {
    if bucket >= 7 {
        '$'
    } else if bucket == 6 {
        '#'
    } else if bucket == 5 {
        '@'
    } else if bucket == 4 {
        '%'
    } else if bucket == 3 {
        '*'
    } else if bucket == 2 {
        '~'
    } else if bucket == 1 {
        ','
    } else {
        '`'
    }
}

/// The bucket of lightness `num / den`: the number of thresholds k/8
/// (k = 1, ..., 7) that `num / den` reaches.
pub open spec fn spec_bucket(num: int, den: int) -> int {
    if 8 * num >= 7 * den {
        7
    } else if 8 * num >= 6 * den {
        6
    } else if 8 * num >= 5 * den {
        5
    } else if 8 * num >= 4 * den {
        4
    } else if 8 * num >= 3 * den {
        3
    } else if 8 * num >= 2 * den {
        2
    } else if 8 * num >= 1 * den {
        1
    } else {
        0
    }
}

/// The ramp character for lightness `num / den`.
pub open spec fn spec_map_char(num: int, den: int) -> char {
    spec_ramp_char(spec_bucket(num, den))
}

/// The brightness rank of a ramp character: 0 for the darkest (`` ` ``)
/// through 7 for the brightest (`$`).
pub open spec fn char_rank(c: char) -> int {
    if c == '$' {
        7
    } else if c == '#' {
        6
    } else if c == '@' {
        5
    } else if c == '%' {
        4
    } else if c == '*' {
        3
    } else if c == '~' {
        2
    } else if c == ',' {
        1
    } else {
        0
    }
}

/// An exact lightness value, the rational number `num / den`.
#[derive(Clone, Copy, Debug, PartialEq, Eq, Structural)]
pub struct Lightness {
    pub num: u32,
    pub den: u32,
}

pub open spec fn spec_max3(r: int, g: int, b: int) -> int {
    if r >= g && r >= b {
        r
    } else if g >= b {
        g
    } else {
        b
    }
}

pub open spec fn spec_min3(r: int, g: int, b: int) -> int {
    if r <= g && r <= b {
        r
    } else if g <= b {
        g
    } else {
        b
    }
}

/// The numerator of the HSL lightness of an 8-bit RGB pixel over the
/// denominator 510: max(r, g, b) + min(r, g, b).
pub open spec fn spec_lightness_num(r: u8, g: u8, b: u8) -> int {
    spec_max3(r as int, g as int, b as int) + spec_min3(r as int, g as int, b as int)
}

impl Lightness {
    /// A lightness value is well formed when its denominator is positive.
    pub open spec fn wf(self) -> bool {
        self.den >= 1
    }

    pub fn new(num: u32, den: u32) -> (l: Lightness)
        ensures
            l.num == num,
            l.den == den,
    {
        Lightness { num, den }
    }

    /// The exact HSL lightness of an 8-bit RGB pixel:
    /// (max(r, g, b) + min(r, g, b)) / 510.
    pub fn from_rgb(r: u8, g: u8, b: u8) -> (l: Lightness)
        ensures
            l.num == spec_lightness_num(r, g, b),
            l.den == 510,
            l.wf(),
    {
        let hi: u32 = if r >= g && r >= b {
            r as u32
        } else if g >= b {
            g as u32
        } else {
            b as u32
        };
        let lo: u32 = if r <= g && r <= b {
            r as u32
        } else if g <= b {
            g as u32
        } else {
            b as u32
        };
        Lightness { num: hi + lo, den: 510 }
    }
}

/// Maps a lightness value to the character of its ramp bucket. Total: values
/// above 1 saturate to `$`, and values below 1/8 fall to `` ` ``.
pub fn map_lightness_to_char(l: Lightness) -> (c: char)
    ensures
        c == spec_map_char(l.num as int, l.den as int),
{
    let n8: u64 = 8 * (l.num as u64);
    let d: u64 = l.den as u64;
    if n8 >= 7 * d {
        '$'
    } else if n8 >= 6 * d {
        '#'
    } else if n8 >= 5 * d {
        '@'
    } else if n8 >= 4 * d {
        '%'
    } else if n8 >= 3 * d {
        '*'
    } else if n8 >= 2 * d {
        '~'
    } else if n8 >= d {
        ','
    } else {
        '`'
    }
}

// ---------------------------------------------------------------------------
// Frame rendering
// ---------------------------------------------------------------------------

/// The ramp character of an 8-bit RGB pixel.
pub open spec fn spec_pixel_char(r: u8, g: u8, b: u8) -> char {
    spec_map_char(spec_lightness_num(r, g, b), 510)
}

/// The character rendered for the pixel at row `y`, column `x` of a row-major
/// RGB byte grid of width `w`.
pub open spec fn spec_px(data: Seq<u8>, w: int, y: int, x: int) -> char {
    spec_pixel_char(
        data[3 * (y * w + x)],
        data[3 * (y * w + x) + 1],
        data[3 * (y * w + x) + 2],
    )
}

/// The rendered characters of row `y`, without its terminator.
pub open spec fn spec_row(data: Seq<u8>, w: int, y: int) -> Seq<char> {
    Seq::new(w as nat, |x: int| spec_px(data, w, y, x))
}

/// The rendered text of the first `rows` rows, each row terminated by a
/// newline.
pub open spec fn spec_render_rows(data: Seq<u8>, w: int, rows: nat) -> Seq<char>
    decreases rows,
{
    if rows == 0 {
        Seq::empty()
    } else {
        spec_render_rows(data, w, (rows - 1) as nat) + spec_row(data, w, rows - 1).push('\n')
    }
}

/// The full rendered text of a frame.
pub open spec fn spec_render(f: RawFrame) -> Seq<char> {
    spec_render_rows(f.data@, f.width as int, f.height as nat)
}

/// One decoded video frame: `height` rows of `width` RGB pixels in row-major
/// order. `data` holds three bytes per pixel — red, green, blue.
#[derive(Clone, Debug)]
pub struct RawFrame {
    pub width: usize,
    pub height: usize,
    pub data: Vec<u8>,
}

impl RawFrame {
    /// A frame is well formed when its byte buffer holds exactly three bytes
    /// for each of its `width * height` pixels.
    pub open spec fn wf(self) -> bool {
        self.data@.len() == 3 * self.width * self.height
    }

    /// Wraps `data` as a frame of the given size; rejects a buffer whose
    /// length does not match the size.
    pub fn new(width: usize, height: usize, data: Vec<u8>) -> (f: Option<RawFrame>)
        ensures
            match f {
                Some(fr) => fr.width == width && fr.height == height && fr.data == data
                    && fr.wf(),
                None => data@.len() != 3 * width * height,
            },
    {
        let n = data.len();
        proof {
            lemma_triple_size(width as int, height as int);
        }
        match width.checked_mul(height) {
            None => None,
            Some(px) => {
                if px > usize::MAX / 3 {
                    // The buffer would need more than usize::MAX bytes: no match.
                    None
                } else if n == 3 * px {
                    Some(RawFrame { width, height, data })
                } else {
                    None
                }
            },
        }
    }
}

/// A video source: the path of its file and the playback frame rate.
#[derive(Clone, Debug, Hash)]
pub struct Video {
    pub filename: String,
    pub fps: u32,
}

impl Video {
    pub fn new(path: String, fps: u32) -> (v: Video)
        ensures
            v.filename == path,
            v.fps == fps,
    {
        Video { filename: path, fps }
    }

    /// Renders a raw frame as text: one ramp character per pixel, rows from
    /// top to bottom, each row terminated by a newline.
    pub fn convert_to_ascii(frame: &RawFrame) -> (s: String)
        requires
            frame.wf(),
        ensures
            s@ == spec_render(*frame),
    {
        let width = frame.width;
        let height = frame.height;
        let buf_len = frame.data.len();
        let ghost d = frame.data@;
        let mut s = String::new();
        let mut y: usize = 0;
        while y < height
            invariant
                frame.wf(),
                width == frame.width,
                height == frame.height,
                d == frame.data@,
                buf_len == d.len(),
                y <= height,
                s@ == spec_render_rows(d, width as int, y as nat),
            decreases height - y,
        {
            let mut x: usize = 0;
            while x < width
                invariant
                    frame.wf(),
                    width == frame.width,
                    height == frame.height,
                    d == frame.data@,
                    buf_len == d.len(),
                    y < height,
                    x <= width,
                    s@ == spec_render_rows(d, width as int, y as nat) + spec_row(
                        d,
                        width as int,
                        y as int,
                    ).take(x as int),
                decreases width - x,
            {
                proof {
                    lemma_pixel_index(width as int, height as int, y as int, x as int);
                    assert(3 * (y as int * width as int + x as int) + 2 < frame.data@.len());
                }
                let idx: usize = 3 * (y * width + x);
                let r = frame.data[idx];
                let g = frame.data[idx + 1];
                let b = frame.data[idx + 2];
                let c = map_lightness_to_char(Lightness::from_rgb(r, g, b));
                push_char(&mut s, c);
                proof {
                    assert(s@ =~= spec_render_rows(d, width as int, y as nat) + spec_row(
                        d,
                        width as int,
                        y as int,
                    ).take(x as int + 1));
                }
                x += 1;
            }
            push_char(&mut s, '\n');
            proof {
                assert(spec_row(d, width as int, y as int).take(width as int) =~= spec_row(
                    d,
                    width as int,
                    y as int,
                ));
                assert(s@ =~= spec_render_rows(d, width as int, (y + 1) as nat));
            }
            y += 1;
        }
        s
    }
}

impl PartialEq for Video {
    fn eq(&self, other: &Video) -> (r: bool) {
        self.filename == other.filename && self.fps == other.fps
    }
}

impl Eq for Video {

}

impl vstd::std_specs::cmp::PartialEqSpecImpl for Video {
    open spec fn obeys_eq_spec() -> bool {
        true
    }

    open spec fn eq_spec(&self, other: &Video) -> bool {
        self.filename@ == other.filename@ && self.fps == other.fps
    }
}

/// The character at row `y`, column `x` of the rendered text for `rows` rows
/// of width `w`; column `w` is the row's terminator position.
pub open spec fn spec_render_at(data: Seq<u8>, w: int, rows: nat, y: int, x: int) -> char {
    spec_render_rows(data, w, rows)[y * (w + 1) + x]
}

/// Law: a frame of width `w` renders to rows of exactly `w` characters. The
/// text for `rows` rows has length `rows * (w + 1)`; for each row `y` the
/// characters at columns 0 through `w - 1` are the pixel characters of that
/// row, and column `w` holds the newline terminator.
pub proof fn lemma_render_shape(data: Seq<u8>, w: int, rows: nat)
    requires
        w >= 0,
    ensures
        spec_render_rows(data, w, rows).len() == rows * (w + 1),
        forall|y: int, x: int|
            0 <= y < rows && 0 <= x < w ==> #[trigger] spec_render_at(data, w, rows, y, x)
                == spec_px(data, w, y, x),
        forall|y: int|
            0 <= y < rows ==> #[trigger] spec_render_at(data, w, rows, y, w) == '\n',
    decreases rows,
{
    if rows == 0 {
        assert(rows * (w + 1) == 0) by (nonlinear_arith)
            requires
                rows == 0,
        ;
    } else {
        let prev = (rows - 1) as nat;
        lemma_render_shape(data, w, prev);
        let whole = spec_render_rows(data, w, rows);
        let head = spec_render_rows(data, w, prev);
        assert(rows * (w + 1) == prev * (w + 1) + (w + 1)) by (nonlinear_arith)
            requires
                prev == rows - 1,
                rows >= 1,
        ;
        assert(whole.len() == rows * (w + 1));
        assert forall|y: int, x: int| 0 <= y < rows && 0 <= x < w implies #[trigger] spec_render_at(
            data,
            w,
            rows,
            y,
            x,
        ) == spec_px(data, w, y, x) by {
            lemma_row_position(w, y, x, rows as int);
            if y < rows - 1 {
                assert(whole[y * (w + 1) + x] == head[y * (w + 1) + x]);
                assert(spec_render_at(data, w, prev, y, x) == spec_px(data, w, y, x));
            } else {
                assert(y * (w + 1) == prev * (w + 1));
                assert(whole[y * (w + 1) + x] == spec_row(data, w, y).push('\n')[x]);
            }
        }
        assert forall|y: int| 0 <= y < rows implies #[trigger] spec_render_at(data, w, rows, y, w)
            == '\n' by {
            lemma_row_position(w, y, w, rows as int);
            if y < rows - 1 {
                assert(whole[y * (w + 1) + w] == head[y * (w + 1) + w]);
                assert(spec_render_at(data, w, prev, y, w) == '\n');
            } else {
                assert(y * (w + 1) == prev * (w + 1));
                assert(whole[y * (w + 1) + w] == spec_row(data, w, y).push('\n')[w]);
            }
        }
    }
}

proof fn lemma_row_position(w: int, y: int, x: int, rows: int)
    by (nonlinear_arith)
    requires
        w >= 0,
        0 <= y < rows,
        0 <= x <= w,
    ensures
        0 <= y * (w + 1) + x,
        y * (w + 1) + x < rows * (w + 1),
        y < rows - 1 ==> y * (w + 1) + x < (rows - 1) * (w + 1),
        y == rows - 1 ==> y * (w + 1) + x == (rows - 1) * (w + 1) + x,
{
}

/// Law: rendering is deterministic — two frames of the same size with the
/// same pixel data render to the same text.
pub proof fn lemma_render_deterministic(f1: RawFrame, f2: RawFrame)
    requires
        f1.width == f2.width,
        f1.height == f2.height,
        f1.data@ == f2.data@,
    ensures
        spec_render(f1) == spec_render(f2),
{
}

/// Relies on String::push: it appends exactly the one character at the end.
#[verifier::external_body]
fn push_char(s: &mut String, c: char)
    ensures
        final(s)@ == old(s)@.push(c),
{
    s.push(c);
}

proof fn lemma_triple_size(w: int, h: int)
    by (nonlinear_arith)
    requires
        w >= 0,
        h >= 0,
    ensures
        3 * w * h == 3 * (w * h),
        w * h <= 3 * (w * h),
{
}

proof fn lemma_pixel_index(w: int, h: int, y: int, x: int)
    by (nonlinear_arith)
    requires
        0 <= x < w,
        0 <= y < h,
    ensures
        0 <= 3 * (y * w + x),
        3 * (y * w + x) + 2 < 3 * w * h,
        y * w + x < w * h,
{
}

proof fn lemma_threshold_carries(k: int, n1: int, d1: int, n2: int, d2: int)
    by (nonlinear_arith)
    requires
        d1 >= 1,
        d2 >= 1,
        n1 * d2 <= n2 * d1,
        8 * n1 >= k * d1,
    ensures
        8 * n2 >= k * d2,
{
}

/// Law: the ramp character is monotone in lightness. If `l1 <= l2` as
/// rationals (`l1.num / l1.den <= l2.num / l2.den`, stated by cross
/// multiplication), the character for `l1` has a brightness rank no greater
/// than the character for `l2`.
pub proof fn lemma_map_monotonic(l1: Lightness, l2: Lightness)
    requires
        l1.wf(),
        l2.wf(),
        l1.num * l2.den <= l2.num * l1.den,
    ensures
        char_rank(spec_map_char(l1.num as int, l1.den as int)) <= char_rank(
            spec_map_char(l2.num as int, l2.den as int),
        ),
{
    let n1 = l1.num as int;
    let d1 = l1.den as int;
    let n2 = l2.num as int;
    let d2 = l2.den as int;
    if 8 * n1 >= 1 * d1 {
        lemma_threshold_carries(1, n1, d1, n2, d2);
    }
    if 8 * n1 >= 2 * d1 {
        lemma_threshold_carries(2, n1, d1, n2, d2);
    }
    if 8 * n1 >= 3 * d1 {
        lemma_threshold_carries(3, n1, d1, n2, d2);
    }
    if 8 * n1 >= 4 * d1 {
        lemma_threshold_carries(4, n1, d1, n2, d2);
    }
    if 8 * n1 >= 5 * d1 {
        lemma_threshold_carries(5, n1, d1, n2, d2);
    }
    if 8 * n1 >= 6 * d1 {
        lemma_threshold_carries(6, n1, d1, n2, d2);
    }
    if 8 * n1 >= 7 * d1 {
        lemma_threshold_carries(7, n1, d1, n2, d2);
    }
}

} // verus!
