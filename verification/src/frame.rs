//! Blank-frame detection on a captured window image.
//!
//! A capture is a top-down 32bpp BGRA buffer (GDI's byte order). Only a
//! coarse grid is inspected: every 8th column of every 8th row.
use vstd::prelude::*;

verus! {

/// Distance between two inspected columns (and between two inspected rows).
pub const SAMPLE_STEP: usize = 8;

/// A channel value at or below this counts as "near black".
pub const NEAR_BLACK: u8 = 12;

/// The pixel at grid point (`x`, `y`) is inspected: it lies on the sampling
/// grid, inside the `width` x `height` image, and its blue, green and red
/// bytes (offsets 0, 1 and 2 of the pixel) lie inside a buffer of `len` bytes.
pub open spec fn is_sampled(len: int, width: int, height: int, x: int, y: int) -> bool {
    &&& 0 <= x < width
    &&& 0 <= y < height
    &&& x % (SAMPLE_STEP as int) == 0
    &&& y % (SAMPLE_STEP as int) == 0
    &&& 4 * (y * width + x) + 2 < len
}

/// The B, G and R bytes of the pixel that starts at byte `i` are all near black.
pub open spec fn is_near_black(buf: Seq<u8>, i: int) -> bool {
    &&& buf[i] <= NEAR_BLACK
    &&& buf[i + 1] <= NEAR_BLACK
    &&& buf[i + 2] <= NEAR_BLACK
}

/// Grid point (`x`, `y`) is counted: it is inspected, and, when `dark_only`
/// holds, it is near black.
pub open spec fn is_counted(
    buf: Seq<u8>,
    width: int,
    height: int,
    x: int,
    y: int,
    dark_only: bool,
) -> bool {
    &&& is_sampled(buf.len() as int, width, height, x, y)
    &&& (dark_only ==> is_near_black(buf, 4 * (y * width + x)))
}

/// How many of the points (0, `y`) .. (`n` - 1, `y`) of row `y` are counted.
pub open spec fn row_count(
    buf: Seq<u8>,
    width: int,
    height: int,
    y: int,
    n: int,
    dark_only: bool,
) -> nat
    decreases n,
{
    if n <= 0 {
        0
    } else {
        row_count(buf, width, height, y, n - 1, dark_only) + if is_counted(
            buf,
            width,
            height,
            n - 1,
            y,
            dark_only,
        ) {
            1nat
        } else {
            0nat
        }
    }
}

/// How many points of rows 0 .. `m` - 1 are counted.
pub open spec fn grid_count(buf: Seq<u8>, width: int, height: int, m: int, dark_only: bool) -> nat
    decreases m,
{
    if m <= 0 {
        0
    } else {
        grid_count(buf, width, height, m - 1, dark_only) + row_count(
            buf,
            width,
            height,
            m - 1,
            width,
            dark_only,
        )
    }
}

/// Number of inspected pixels of the image.
pub open spec fn sampled_pixels(buf: Seq<u8>, width: int, height: int) -> nat {
    grid_count(buf, width, height, height, false)
}

/// Number of inspected pixels that are near black.
pub open spec fn dark_pixels(buf: Seq<u8>, width: int, height: int) -> nat {
    grid_count(buf, width, height, height, true)
}

/// The verdict on a capture: no verdict when nothing could be inspected,
/// otherwise "blank" exactly when at least 97% of the inspected pixels are
/// near black.
pub open spec fn blank_verdict(buf: Seq<u8>, width: int, height: int) -> Option<bool> {
    let sampled = sampled_pixels(buf, width, height);
    let dark = dark_pixels(buf, width, height);
    if sampled == 0 {
        None
    } else {
        Some(100 * dark >= 97 * sampled)
    }
}

/// Counting a range of points of a row in which none is counted adds nothing.
proof fn lemma_row_count_flat(
    buf: Seq<u8>,
    width: int,
    height: int,
    y: int,
    a: int,
    b: int,
    dark_only: bool,
)
    requires
        0 <= a <= b,
        forall|n: int| a <= n < b ==> !#[trigger] is_counted(buf, width, height, n, y, dark_only),
    ensures
        row_count(buf, width, height, y, b, dark_only) == row_count(
            buf,
            width,
            height,
            y,
            a,
            dark_only,
        ),
    decreases b - a,
{
    if b > a {
        lemma_row_count_flat(buf, width, height, y, a, b - 1, dark_only);
        assert(!is_counted(buf, width, height, b - 1, y, dark_only));
    }
}

/// A row that is not on the sampling grid contributes nothing.
proof fn lemma_row_count_off_grid(
    buf: Seq<u8>,
    width: int,
    height: int,
    y: int,
    dark_only: bool,
)
    requires
        y % (SAMPLE_STEP as int) != 0 || y >= height || width <= 0,
    ensures
        row_count(buf, width, height, y, width, dark_only) == 0,
{
    if width > 0 {
        lemma_row_count_flat(buf, width, height, y, 0, width, dark_only);
    }
}

/// Counting a range of rows in which no row contributes adds nothing.
proof fn lemma_grid_count_flat(
    buf: Seq<u8>,
    width: int,
    height: int,
    a: int,
    b: int,
    dark_only: bool,
)
    requires
        0 <= a <= b,
        forall|m: int|
            a <= m < b ==> #[trigger] row_count(buf, width, height, m, width, dark_only) == 0,
    ensures
        grid_count(buf, width, height, b, dark_only) == grid_count(
            buf,
            width,
            height,
            a,
            dark_only,
        ),
    decreases b - a,
{
    if b > a {
        lemma_grid_count_flat(buf, width, height, a, b - 1, dark_only);
        assert(row_count(buf, width, height, b - 1, width, dark_only) == 0);
    }
}

/// At most as many pixels are near black as are inspected.
proof fn lemma_row_dark_le_sampled(buf: Seq<u8>, width: int, height: int, y: int, n: int)
    ensures
        row_count(buf, width, height, y, n, true) <= row_count(buf, width, height, y, n, false),
    decreases n,
{
    if n > 0 {
        lemma_row_dark_le_sampled(buf, width, height, y, n - 1);
    }
}

/// When every inspected pixel is near black, the two counts agree.
proof fn lemma_row_all_dark(buf: Seq<u8>, width: int, height: int, y: int, n: int)
    requires
        forall|x: int|
            #[trigger] is_sampled(buf.len() as int, width, height, x, y) ==> is_near_black(
                buf,
                4 * (y * width + x),
            ),
    ensures
        row_count(buf, width, height, y, n, true) == row_count(buf, width, height, y, n, false),
    decreases n,
{
    if n > 0 {
        lemma_row_all_dark(buf, width, height, y, n - 1);
        assert(is_sampled(buf.len() as int, width, height, n - 1, y) ==> is_near_black(
            buf,
            4 * (y * width + (n - 1)),
        ));
    }
}

proof fn lemma_grid_all_dark(buf: Seq<u8>, width: int, height: int, m: int)
    requires
        forall|x: int, y: int|
            #[trigger] is_sampled(buf.len() as int, width, height, x, y) ==> is_near_black(
                buf,
                4 * (y * width + x),
            ),
    ensures
        grid_count(buf, width, height, m, true) == grid_count(buf, width, height, m, false),
    decreases m,
{
    if m > 0 {
        lemma_grid_all_dark(buf, width, height, m - 1);
        lemma_row_all_dark(buf, width, height, m - 1, width);
    }
}

/// When no inspected pixel is near black, none is counted as dark.
proof fn lemma_row_none_dark(buf: Seq<u8>, width: int, height: int, y: int, n: int)
    requires
        forall|x: int|
            #[trigger] is_sampled(buf.len() as int, width, height, x, y) ==> !is_near_black(
                buf,
                4 * (y * width + x),
            ),
    ensures
        row_count(buf, width, height, y, n, true) == 0,
    decreases n,
{
    if n > 0 {
        lemma_row_none_dark(buf, width, height, y, n - 1);
        assert(is_sampled(buf.len() as int, width, height, n - 1, y) ==> !is_near_black(
            buf,
            4 * (y * width + (n - 1)),
        ));
    }
}

proof fn lemma_grid_none_dark(buf: Seq<u8>, width: int, height: int, m: int)
    requires
        forall|x: int, y: int|
            #[trigger] is_sampled(buf.len() as int, width, height, x, y) ==> !is_near_black(
                buf,
                4 * (y * width + x),
            ),
    ensures
        grid_count(buf, width, height, m, true) == 0,
    decreases m,
{
    if m > 0 {
        lemma_grid_none_dark(buf, width, height, m - 1);
        lemma_row_none_dark(buf, width, height, m - 1, width);
    }
}

/// A capture in which every inspected pixel is near black is reported
/// blank.
pub proof fn all_dark_capture_is_blank(buf: Seq<u8>, width: int, height: int)
    requires
        sampled_pixels(buf, width, height) > 0,
        forall|x: int, y: int|
            #[trigger] is_sampled(buf.len() as int, width, height, x, y) ==> is_near_black(
                buf,
                4 * (y * width + x),
            ),
    ensures
        blank_verdict(buf, width, height) == Some(true),
{
    lemma_grid_all_dark(buf, width, height, height);
}

/// A capture in which no inspected pixel is near black is reported not blank.
pub proof fn no_dark_capture_is_not_blank(buf: Seq<u8>, width: int, height: int)
    requires
        sampled_pixels(buf, width, height) > 0,
        forall|x: int, y: int|
            #[trigger] is_sampled(buf.len() as int, width, height, x, y) ==> !is_near_black(
                buf,
                4 * (y * width + x),
            ),
    ensures
        blank_verdict(buf, width, height) == Some(false),
{
    lemma_grid_none_dark(buf, width, height, height);
}

/// Rows at or past `height` contribute nothing.
proof fn lemma_rows_beyond_height(buf: Seq<u8>, width: int, height: int, y: int)
    requires
        0 <= height <= y,
    ensures
        grid_count(buf, width, height, y, false) == grid_count(buf, width, height, height, false),
        grid_count(buf, width, height, y, true) == grid_count(buf, width, height, height, true),
{
    assert forall|m: int| height <= m < y implies #[trigger] row_count(
        buf,
        width,
        height,
        m,
        width,
        false,
    ) == 0 by {
        lemma_row_count_off_grid(buf, width, height, m, false);
    }
    assert forall|m: int| height <= m < y implies #[trigger] row_count(
        buf,
        width,
        height,
        m,
        width,
        true,
    ) == 0 by {
        lemma_row_count_off_grid(buf, width, height, m, true);
    }
    lemma_grid_count_flat(buf, width, height, height, y, false);
    lemma_grid_count_flat(buf, width, height, height, y, true);
}

/// When the first pixel of row `y` lies outside the buffer (or the image has
/// no columns), no later row contributes.
proof fn lemma_rows_beyond_buffer(buf: Seq<u8>, width: int, height: int, y: int)
    requires
        0 <= y < height,
        width <= 0 || 4 * (y * width) + 2 >= buf.len(),
    ensures
        grid_count(buf, width, height, height, false) == grid_count(buf, width, height, y, false),
        grid_count(buf, width, height, height, true) == grid_count(buf, width, height, y, true),
{
    assert forall|m: int| y <= m < height implies #[trigger] row_count(
        buf,
        width,
        height,
        m,
        width,
        false,
    ) == 0 && row_count(buf, width, height, m, width, true) == 0 by {
        if width > 0 {
            assert forall|n: int| 0 <= n < width implies !#[trigger] is_counted(
                buf,
                width,
                height,
                n,
                m,
                false,
            ) by {
                assert(4 * (m * width + n) + 2 >= 4 * (y * width) + 2) by (nonlinear_arith)
                    requires
                        y <= m,
                        0 <= n,
                        width > 0,
                ;
            }
            lemma_row_count_flat(buf, width, height, m, 0, width, false);
            lemma_row_dark_le_sampled(buf, width, height, m, width);
        } else {
            lemma_row_count_off_grid(buf, width, height, m, false);
            lemma_row_count_off_grid(buf, width, height, m, true);
        }
    }
    assert forall|m: int| y <= m < height implies #[trigger] row_count(
        buf,
        width,
        height,
        m,
        width,
        true,
    ) == 0 by {
        assert(row_count(buf, width, height, m, width, false) == 0);
    }
    lemma_grid_count_flat(buf, width, height, y, height, false);
    lemma_grid_count_flat(buf, width, height, y, height, true);
}

/// Columns at or past `width` contribute nothing.
proof fn lemma_columns_beyond_width(buf: Seq<u8>, width: int, height: int, y: int, x: int)
    requires
        0 <= width <= x,
    ensures
        row_count(buf, width, height, y, x, false) == row_count(buf, width, height, y, width, false),
        row_count(buf, width, height, y, x, true) == row_count(buf, width, height, y, width, true),
{
    assert forall|n: int| width <= n < x implies !#[trigger] is_counted(
        buf,
        width,
        height,
        n,
        y,
        false,
    ) by {}
    assert forall|n: int| width <= n < x implies !#[trigger] is_counted(
        buf,
        width,
        height,
        n,
        y,
        true,
    ) by {}
    lemma_row_count_flat(buf, width, height, y, width, x, false);
    lemma_row_count_flat(buf, width, height, y, width, x, true);
}

/// Once the pixel at (`x`, `y`) lies outside the buffer, so does every later
/// pixel of the row.
proof fn lemma_columns_beyond_buffer(buf: Seq<u8>, width: int, height: int, y: int, x: int)
    requires
        0 <= x < width,
        4 * (y * width + x) + 2 >= buf.len(),
    ensures
        row_count(buf, width, height, y, width, false) == row_count(buf, width, height, y, x, false),
        row_count(buf, width, height, y, width, true) == row_count(buf, width, height, y, x, true),
{
    assert forall|n: int| x <= n < width implies !#[trigger] is_counted(
        buf,
        width,
        height,
        n,
        y,
        false,
    ) by {
        assert(4 * (y * width + n) + 2 >= 4 * (y * width + x) + 2);
    }
    assert forall|n: int| x <= n < width implies !#[trigger] is_counted(
        buf,
        width,
        height,
        n,
        y,
        true,
    ) by {
        assert(!is_counted(buf, width, height, n, y, false));
    }
    lemma_row_count_flat(buf, width, height, y, x, width, false);
    lemma_row_count_flat(buf, width, height, y, x, width, true);
}

/// Stepping from column `x` to column `x + 8` adds exactly the point (`x`, `y`).
proof fn lemma_next_sample(buf: Seq<u8>, width: int, height: int, y: int, x: int, dark_only: bool)
    requires
        0 <= x,
        x % (SAMPLE_STEP as int) == 0,
    ensures
        row_count(buf, width, height, y, x + SAMPLE_STEP, dark_only) == row_count(
            buf,
            width,
            height,
            y,
            x,
            dark_only,
        ) + if is_counted(buf, width, height, x, y, dark_only) {
            1nat
        } else {
            0nat
        },
{
    assert forall|n: int| x + 1 <= n < x + SAMPLE_STEP implies !#[trigger] is_counted(
        buf,
        width,
        height,
        n,
        y,
        dark_only,
    ) by {}
    lemma_row_count_flat(buf, width, height, y, x + 1, x + SAMPLE_STEP, dark_only);
}

/// Stepping from row `y` to row `y + 8` adds exactly row `y`.
proof fn lemma_next_row(buf: Seq<u8>, width: int, height: int, y: int, dark_only: bool)
    requires
        0 <= y,
        y % (SAMPLE_STEP as int) == 0,
    ensures
        grid_count(buf, width, height, y + SAMPLE_STEP, dark_only) == grid_count(
            buf,
            width,
            height,
            y,
            dark_only,
        ) + row_count(buf, width, height, y, width, dark_only),
{
    assert forall|m: int| y + 1 <= m < y + SAMPLE_STEP implies #[trigger] row_count(
        buf,
        width,
        height,
        m,
        width,
        dark_only,
    ) == 0 by {
        lemma_row_count_off_grid(buf, width, height, m, dark_only);
    }
    lemma_grid_count_flat(buf, width, height, y + 1, y + SAMPLE_STEP, dark_only);
}

/// Byte offset of the pixel at (`x`, `y`), when its B, G and R bytes lie
/// inside a buffer of `len` bytes.
fn pixel_offset(len: usize, width: usize, x: usize, y: usize) -> (r: Option<usize>)
    ensures
        match r {
            Some(i) => i == 4 * (y * width + x) && i + 2 < len,
            None => 4 * (y * width + x) + 2 >= len,
        },
{
    match y.checked_mul(width) {
        None => {
            assert(4 * (y * width + x) + 2 >= len) by (nonlinear_arith)
                requires
                    y * width > usize::MAX,
                    len <= usize::MAX,
            ;
            None
        },
        Some(row) => match row.checked_add(x) {
            None => None,
            Some(k) => match k.checked_mul(4) {
                None => None,
                Some(i) => {
                    if i < len && len - i > 2 {
                        Some(i)
                    } else {
                        None
                    }
                },
            },
        },
    }
}

/// Whether a captured frame is (nearly) solid black: `None` when no pixel
/// could be inspected, `Some(true)` when at least 97% of the inspected pixels
/// are near black, `Some(false)` otherwise.
pub fn bgra_buffer_is_blank(buf: &[u8], width: usize, height: usize) -> (r: Option<bool>)
    ensures
        r == blank_verdict(buf@, width as int, height as int),
{
    let ghost b = buf@;
    let ghost w = width as int;
    let ghost h = height as int;
    let len = buf.len();
    let mut sampled: usize = 0;
    let mut dark: usize = 0;
    let mut y: usize = 0;
    loop
        invariant
            b == buf@,
            w == width,
            h == height,
            len == buf@.len(),
            y % SAMPLE_STEP == 0,
            y <= height + SAMPLE_STEP,
            sampled == grid_count(b, w, h, y as int, false),
            dark == grid_count(b, w, h, y as int, true),
            sampled <= y * width,
            dark <= sampled,
        ensures
            sampled == sampled_pixels(b, w, h),
            dark == dark_pixels(b, w, h),
        decreases height + SAMPLE_STEP - y,
    {
        if y >= height {
            proof {
                lemma_rows_beyond_height(b, w, h, y as int);
            }
            break;
        }
        let row_ok = width > 0 && pixel_offset(len, width, 0, y).is_some();
        if !row_ok {
            // No pixel of this row or of any later row lies inside the buffer.
            proof {
                lemma_rows_beyond_buffer(b, w, h, y as int);
            }
            break;
        }
        let ghost row_start_sampled = sampled;
        let ghost row_start_dark = dark;
        let mut x: usize = 0;
        loop
            invariant
                b == buf@,
                w == width,
                h == height,
                len == buf@.len(),
                y < height,
                width > 0,
                y % SAMPLE_STEP == 0,
                x % SAMPLE_STEP == 0,
                x <= SAMPLE_STEP * width,
                4 * (y * width) + 2 < len,
                row_start_sampled == grid_count(b, w, h, y as int, false),
                row_start_dark == grid_count(b, w, h, y as int, true),
                sampled == row_start_sampled + row_count(b, w, h, y as int, x as int, false),
                dark == row_start_dark + row_count(b, w, h, y as int, x as int, true),
                sampled <= y * width + x,
                dark <= sampled,
            ensures
                sampled == row_start_sampled + row_count(b, w, h, y as int, w, false),
                dark == row_start_dark + row_count(b, w, h, y as int, w, true),
                sampled <= y * width + SAMPLE_STEP * width,
                dark <= sampled,
            decreases width + SAMPLE_STEP - x,
        {
            if x >= width {
                proof {
                    lemma_columns_beyond_width(b, w, h, y as int, x as int);
                }
                break;
            }
            match pixel_offset(len, width, x, y) {
                None => {
                    proof {
                        lemma_columns_beyond_buffer(b, w, h, y as int, x as int);
                    }
                    break;
                },
                Some(i) => {
                    let is_dark = buf[i] <= NEAR_BLACK && buf[i + 1] <= NEAR_BLACK && buf[i + 2]
                        <= NEAR_BLACK;
                    sampled = sampled + 1;
                    if is_dark {
                        dark = dark + 1;
                    }
                    proof {
                        assert(is_counted(b, w, h, x as int, y as int, false));
                        assert(is_counted(b, w, h, x as int, y as int, true) == is_dark);
                        lemma_next_sample(b, w, h, y as int, x as int, false);
                        lemma_next_sample(b, w, h, y as int, x as int, true);
                    }
                    x = x + SAMPLE_STEP;
                },
            }
        }
        proof {
            assert(sampled <= (y + SAMPLE_STEP) * width) by (nonlinear_arith)
                requires
                    sampled <= y * width + SAMPLE_STEP * width,
            ;
            assert(y <= y * width) by (nonlinear_arith)
                requires
                    width > 0,
                    y >= 0,
            ;
            lemma_next_row(b, w, h, y as int, false);
            lemma_next_row(b, w, h, y as int, true);
        }
        y = y + SAMPLE_STEP;
    }
    if sampled == 0 {
        return None;
    }
    // At least 97% near black, compared exactly in integers.
    Some(dark as u128 * 100 >= sampled as u128 * 97)
}

/// A window's rectangle on screen, in physical pixels, as the window
/// manager reports it.
#[derive(Clone, Copy, Debug, PartialEq, Eq, Structural)]
pub struct ScreenRect {
    pub left: i32,
    pub top: i32,
    pub right: i32,
    pub bottom: i32,
}

/// The size (width, height) of the region to capture for a window whose
/// rectangle is `rect` (`None` when it could not be read), or `None` when
/// there is nothing to capture: no rectangle, or an empty one.
pub fn capture_extent(rect: Option<ScreenRect>) -> (r: Option<(usize, usize)>)
    requires
        rect matches Some(q) ==> i32::MIN <= q.right - q.left <= i32::MAX && i32::MIN <= q.bottom
            - q.top <= i32::MAX,
    ensures
        r == match rect {
            Some(q) => if q.right - q.left > 0 && q.bottom - q.top > 0 {
                Some(((q.right - q.left) as usize, (q.bottom - q.top) as usize))
            } else {
                None
            },
            None => None,
        },
{
    match rect {
        None => None,
        Some(q) => {
            let width = q.right - q.left;
            let height = q.bottom - q.top;
            if width <= 0 || height <= 0 {
                None
            } else {
                Some((width as usize, height as usize))
            }
        },
    }
}

/// The verdict on a window capture: `extent` is what `capture_extent` gave,
/// `pixels` the top-down BGRA image of that size (`None` when the capture
/// itself failed). No verdict when either is missing, otherwise that of
/// `bgra_buffer_is_blank`. A failure to observe is never reported as blank.
pub fn capture_window_is_blank(extent: Option<(usize, usize)>, pixels: Option<&[u8]>) -> (r:
    Option<bool>)
    ensures
        r == match (extent, pixels) {
            (Some((w, h)), Some(p)) => blank_verdict(p@, w as int, h as int),
            _ => None,
        },
{
    match (extent, pixels) {
        (Some((width, height)), Some(buf)) => bgra_buffer_is_blank(buf, width, height),
        _ => None,
    }
}

} // verus!
