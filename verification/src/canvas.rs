//! The raster buffer and its serialization to the plain-text pixel format:
//! a three-line header, rows of whitespace-separated channel triples, lines
//! wrapped at seventy characters on a space boundary, and a trailing
//! newline.

use vstd::prelude::*;
use crate::color::{Color, ppm_color_seq};
use crate::tuple::tv;
use vstd::string::StringExecFns;
use vstd::string::StrSliceExecFns;

verus! {

/// The decimal digit character for `d`.
pub open spec fn digit_char(d: int) -> char {
    if d == 0 {
        '0'
    } else if d == 1 {
        '1'
    } else if d == 2 {
        '2'
    } else if d == 3 {
        '3'
    } else if d == 4 {
        '4'
    } else if d == 5 {
        '5'
    } else if d == 6 {
        '6'
    } else if d == 7 {
        '7'
    } else if d == 8 {
        '8'
    } else {
        '9'
    }
}

/// The decimal digits of a nonnegative number, most significant first.
pub open spec fn dec_seq(n: int) -> Seq<char>
    decreases n,
{
    if n < 10 {
        seq![digit_char(n)]
    } else {
        dec_seq(n / 10).push(digit_char(n % 10))
    }
}

/// One decimal digit as a string slice.
fn digit_str(d: usize) -> (r: &'static str)
    requires
        d < 10,
    ensures
        r@ == seq![digit_char(d as int)],
{
    proof {
        reveal_strlit("0");
        reveal_strlit("1");
        reveal_strlit("2");
        reveal_strlit("3");
        reveal_strlit("4");
        reveal_strlit("5");
        reveal_strlit("6");
        reveal_strlit("7");
        reveal_strlit("8");
        reveal_strlit("9");
    }
    let r = match d {
        0 => "0",
        1 => "1",
        2 => "2",
        3 => "3",
        4 => "4",
        5 => "5",
        6 => "6",
        7 => "7",
        8 => "8",
        _ => "9",
    };
    proof {
        assert(r@ =~= seq![digit_char(d as int)]);
    }
    r
}

/// The decimal representation of `n`.
pub fn to_decimal(n: usize) -> (r: String)
    ensures
        r@ == dec_seq(n as int),
    decreases n,
{
    if n < 10 {
        String::from_str(digit_str(n))
    } else {
        let rest = to_decimal(n / 10);
        let r = rest.concat(digit_str(n % 10));
        proof {
            assert(r@ =~= dec_seq(n as int));
        }
        r
    }
}

/// The greatest index in `[lo, hi)` holding a space, if any.
pub open spec fn rfind_space(s: Seq<char>, lo: int, hi: int) -> Option<int>
    decreases hi - lo,
{
    if hi <= lo {
        None
    } else if s[hi - 1] == ' ' {
        Some(hi - 1)
    } else {
        rfind_space(s, lo, hi - 1)
    }
}

/// A found space lies in the searched window and holds a space.
proof fn lemma_rfind_space_bounds(s: Seq<char>, lo: int, hi: int)
    requires
        rfind_space(s, lo, hi) is Some,
    ensures
        lo <= rfind_space(s, lo, hi)->Some_0 < hi,
    decreases hi - lo,
{
    if hi <= lo {
    } else if s[hi - 1] == ' ' {
    } else {
        lemma_rfind_space_bounds(s, lo, hi - 1);
    }
}

/// One wrapping step at `index`: a space there becomes a newline; otherwise
/// the last space in the seventy characters before it does, if there is
/// one.
pub open spec fn wrap_step(s: Seq<char>, index: int) -> Seq<char> {
    if s[index] == ' ' {
        s.update(index, '\n')
    } else {
        match rfind_space(s, index - 70, index) {
            Some(j) => s.update(j, '\n'),
            None => s,
        }
    }
}

/// The wrapping loop from `index` on, visiting every seventieth position.
pub open spec fn wrap_from(s: Seq<char>, index: int) -> Seq<char>
    decreases s.len() + 70 - index,
    when index >= 70
    via wrap_from_decreases
{
    if index >= s.len() || index < 0 {
        s
    } else {
        wrap_from(wrap_step(s, index), index + 70)
    }
}

#[via_fn]
proof fn wrap_from_decreases(s: Seq<char>, index: int) {
    if 70 <= index < s.len() {
        lemma_wrap_step_len(s, index);
    }
}

/// One wrapping step keeps the length: it only ever replaces a single
/// character.
proof fn lemma_wrap_step_len(s: Seq<char>, index: int)
    requires
        70 <= index < s.len(),
    ensures
        wrap_step(s, index).len() == s.len(),
{
    if s[index] == ' ' {
    } else {
        match rfind_space(s, index - 70, index) {
            Some(j) => {
                lemma_rfind_space_bounds(s, index - 70, index);
            },
            None => {},
        }
    }
}

/// A joined pixel row after line wrapping.
pub open spec fn wrapped(s: Seq<char>) -> Seq<char> {
    wrap_from(s, 70)
}

/// A row of pixels as channel triples joined by single spaces.
pub open spec fn row_seq(row: Seq<Color>) -> Seq<char>
    decreases row.len(),
{
    if row.len() == 0 {
        Seq::empty()
    } else if row.len() == 1 {
        ppm_color_seq(tv(row[0].0))
    } else {
        row_seq(row.drop_last()) + seq![' '] + ppm_color_seq(tv(row.last().0))
    }
}

/// The serialized pixel rows: each row joined, wrapped, and closed with a
/// newline.
pub open spec fn body_seq(rows: Seq<Seq<Color>>) -> Seq<char>
    decreases rows.len(),
{
    if rows.len() == 0 {
        Seq::empty()
    } else {
        body_seq(rows.drop_last()) + wrapped(row_seq(rows.last())) + seq!['\n']
    }
}

/// The three-line header.
pub open spec fn header_seq(w: int, h: int) -> Seq<char> {
    seq!['P', '3', '\n'] + dec_seq(w) + seq![' '] + dec_seq(h) + seq!['\n'] + seq![
        '2',
        '5',
        '5',
        '\n',
    ]
}

/// The raster buffer: `height` rows of `width` pixels.
#[derive(Debug)]
pub struct Canvas {
    pub width: usize,
    pub height: usize,
    pub pixels: Vec<Vec<Color>>,
}

/// The grid of a canvas: its rows of pixels.
pub open spec fn grid(c: &Canvas) -> Seq<Seq<Color>> {
    c.pixels@.map(|i: int, row: Vec<Color>| row@)
}

/// The pixel rows match the stated dimensions.
pub open spec fn canvas_wf(c: &Canvas) -> bool {
    &&& c.pixels@.len() == c.height
    &&& forall|i: int| 0 <= i < c.height ==> (#[trigger] c.pixels@[i])@.len() == c.width
}

/// A pixel coordinate pair: column, then row.
#[derive(Copy, Clone, Debug)]
pub struct PixelIndex(pub usize, pub usize);

/// A whole-row or whole-column coordinate.  Slicing the raster by rows or
/// columns sits outside this kernel's scope, so only the coordinate type is
/// provided.
pub enum SliceIndex {
    Row(usize),
    Column(usize),
}

/// One row of `width` copies of `c`.
fn filled_row(width: usize, c: Color) -> (r: Vec<Color>)
    ensures
        r@.len() == width,
        forall|j: int| 0 <= j < width ==> r@[j] == c,
{
    let mut row: Vec<Color> = Vec::new();
    let mut x: usize = 0;
    while x < width
        invariant
            x <= width,
            row@.len() == x,
            forall|j: int| 0 <= j < x ==> row@[j] == c,
        decreases width - x,
    {
        row.push(c);
        x = x + 1;
    }
    row
}

/// `height` rows of `width` copies of `c`.
fn filled_grid(width: usize, height: usize, c: Color) -> (r: Vec<Vec<Color>>)
    ensures
        r@.len() == height,
        forall|i: int| 0 <= i < height ==> (#[trigger] r@[i])@.len() == width,
        forall|i: int, j: int|
            0 <= i < height && 0 <= j < width ==> #[trigger] r@[i]@[j] == c,
{
    let mut rows: Vec<Vec<Color>> = Vec::new();
    let mut y: usize = 0;
    while y < height
        invariant
            y <= height,
            rows@.len() == y,
            forall|i: int| 0 <= i < y ==> (#[trigger] rows@[i])@.len() == width,
            forall|i: int, j: int| 0 <= i < y && 0 <= j < width ==> #[trigger] rows@[i]@[j] == c,
        decreases height - y,
    {
        rows.push(filled_row(width, c));
        y = y + 1;
    }
    rows
}

impl Canvas {
    /// A canvas of the given size, filled with the default color.
    pub fn with_size(width: usize, height: usize) -> (r: Canvas)
        ensures
            canvas_wf(&r),
            r.width == width,
            r.height == height,
            forall|i: int, j: int|
                0 <= i < height && 0 <= j < width ==> tv((#[trigger] grid(&r)[i][j]).0) == (
                    0int,
                    0int,
                    0int,
                    0int,
                ),
    {
        let c = Color::default();
        Canvas { width, height, pixels: filled_grid(width, height, c) }
    }

    /// A canvas of the same size, filled with the given color.
    pub fn with_default_color(&mut self, default_color: Color) -> (r: Canvas)
        ensures
            *final(self) == *old(self),
            canvas_wf(&r),
            r.width == old(self).width,
            r.height == old(self).height,
            forall|i: int, j: int|
                0 <= i < r.height && 0 <= j < r.width ==> (#[trigger] grid(&r)[i][j])
                    == default_color,
    {
        Canvas {
            width: self.width,
            height: self.height,
            pixels: filled_grid(self.width, self.height, default_color),
        }
    }

    /// Stores a color at column `x`, row `y`.
    pub fn write(&mut self, x: usize, y: usize, pixel: Color)
        requires
            canvas_wf(old(self)),
            x < old(self).width,
            y < old(self).height,
        ensures
            canvas_wf(final(self)),
            final(self).width == old(self).width,
            final(self).height == old(self).height,
            grid(final(self)) == grid(old(self)).update(
                y as int,
                grid(old(self))[y as int].update(x as int, pixel),
            ),
    {
        self.pixels[y].set(x, pixel);
        proof {
            assert(grid(final(self)) =~= grid(old(self)).update(
                y as int,
                grid(old(self))[y as int].update(x as int, pixel),
            ));
        }
    }

    /// The color at a pixel coordinate.
    pub fn pixel(&self, index: PixelIndex) -> (r: Color)
        requires
            canvas_wf(self),
            index.0 < self.width,
            index.1 < self.height,
        ensures
            r == grid(self)[index.1 as int][index.0 as int],
    {
        self.pixels[index.1][index.0]
    }

    /// The three-line header for this canvas's size.
    pub fn ppm_header(&self) -> (r: String)
        ensures
            r@ == header_seq(self.width as int, self.height as int),
    {
        let mut s = String::from_str("P3\n");
        let ws = to_decimal(self.width);
        s.append(ws.as_str());
        s.append(" ");
        let hs = to_decimal(self.height);
        s.append(hs.as_str());
        s.append("\n255\n");
        proof {
            reveal_strlit("P3\n");
            reveal_strlit(" ");
            reveal_strlit("\n255\n");
            assert(s@ =~= header_seq(self.width as int, self.height as int));
        }
        s
    }

    /// The serialized pixel rows.
    pub fn ppm_body(&self) -> (r: String)
        requires
            canvas_wf(self),
        ensures
            r@ == body_seq(grid(self)),
    {
        let mut acc = String::new();
        let mut y: usize = 0;
        while y < self.height
            invariant
                y <= self.height,
                canvas_wf(self),
                acc@ == body_seq(grid(self).take(y as int)),
            decreases self.height - y,
        {
            let joined = join_row(&self.pixels[y]);
            let wrapped_row = wrap_line(&joined);
            acc.append(wrapped_row.as_str());
            acc.append("\n");
            proof {
                reveal_strlit("\n");
                assert(grid(self).take(y + 1).drop_last() =~= grid(self).take(y as int));
                assert(grid(self).take(y + 1).last() == grid(self)[y as int]);
                assert(acc@ =~= body_seq(grid(self).take(y + 1)));
            }
            y = y + 1;
        }
        proof {
            assert(grid(self).take(self.height as int) =~= grid(self));
        }
        acc
    }

    /// The header followed by the serialized rows.
    pub fn to_ppm_string(&self) -> (r: String)
        requires
            canvas_wf(self),
        ensures
            r@ == header_seq(self.width as int, self.height as int) + body_seq(grid(self)),
    {
        let body = self.ppm_body();
        self.ppm_header().concat(body.as_str())
    }
}

/// One pixel row joined with single spaces.
fn join_row(row: &Vec<Color>) -> (r: String)
    ensures
        r@ == row_seq(row@),
{
    let mut acc = String::new();
    let mut x: usize = 0;
    while x < row.len()
        invariant
            x <= row@.len(),
            acc@ == row_seq(row@.take(x as int)),
        decreases row@.len() - x,
    {
        if x > 0 {
            acc.append(" ");
        }
        let triple = row[x].to_ppm_color();
        acc.append(triple.as_str());
        proof {
            reveal_strlit(" ");
            assert(row@.take(x + 1).drop_last() =~= row@.take(x as int));
            assert(row@.take(x + 1).last() == row@[x as int]);
            assert(acc@ =~= row_seq(row@.take(x + 1)));
        }
        x = x + 1;
    }
    proof {
        assert(row@.take(row@.len() as int) =~= row@);
    }
    acc
}

/// Replaces the character at `p` with a newline.
fn replace_with_newline(s: String, p: usize) -> (r: String)
    requires
        p < s@.len(),
    ensures
        r@ == s@.update(p as int, '\n'),
{
    let len = s.as_str().unicode_len();
    let pre = s.as_str().substring_char(0, p);
    let mut r = String::from_str(pre);
    r.append("\n");
    let post = s.as_str().substring_char(p + 1, len);
    r.append(post);
    proof {
        reveal_strlit("\n");
        assert(r@ =~= s@.update(p as int, '\n'));
    }
    r
}

/// The greatest space position in `[lo, hi)`, scanning downward.
fn rfind_space_exec(s: &String, lo: usize, hi: usize) -> (r: Option<usize>)
    requires
        lo <= hi <= s@.len(),
    ensures
        match r {
            Some(j) => rfind_space(s@, lo as int, hi as int) == Some(j as int),
            None => rfind_space(s@, lo as int, hi as int) is None,
        },
{
    let mut j: usize = hi;
    while j > lo
        invariant
            lo <= j <= hi <= s@.len(),
            rfind_space(s@, lo as int, hi as int) == rfind_space(s@, lo as int, j as int),
        decreases j,
    {
        let c = s.as_str().get_char(j - 1);
        if c == ' ' {
            return Some(j - 1);
        }
        j = j - 1;
    }
    None
}

/// Wraps one joined row at every seventieth position, breaking at a space
/// boundary.
fn wrap_line(s: &String) -> (r: String)
    ensures
        r@ == wrapped(s@),
{
    let mut chars = String::from_str(s.as_str());
    let ghost orig = chars@;
    let mut index: usize = 70;
    while index < chars.as_str().unicode_len()
        invariant
            index >= 70,
            orig == s@,
            wrapped(orig) == wrap_from(chars@, index as int),
        decreases chars@.len() + 70 - index,
    {
        let ghost before = chars@;
        let c = chars.as_str().get_char(index);
        if c == ' ' {
            chars = replace_with_newline(chars, index);
        } else {
            match rfind_space_exec(&chars, index - 70, index) {
                Some(j) => {
                    proof {
                        lemma_rfind_space_bounds(chars@, index - 70, index as int);
                    }
                    chars = replace_with_newline(chars, j);
                },
                None => {
                },
            }
        }
        proof {
            assert(chars@ == wrap_step(before, index as int));
            assert(chars@.len() == before.len());
            assert(wrap_from(before, index as int) == wrap_from(chars@, index as int + 70));
        }
        if index > usize::MAX - 70 {
            proof {
                assert(index as int + 70 > chars@.len());
                assert(wrap_from(chars@, index as int + 70) == chars@);
                assert(chars@ == wrapped(orig));
            }
            return chars;
        }
        index = index + 70;
    }
    chars
}

/// A serialized canvas always ends with a newline: the header does, and
/// every pixel row closes with one.
pub proof fn lemma_ppm_ends_newline(w: int, h: int, rows: Seq<Seq<Color>>)
    ensures
        (header_seq(w, h) + body_seq(rows)).len() > 0,
        (header_seq(w, h) + body_seq(rows)).last() == '\n',
{
    if rows.len() == 0 {
        assert(body_seq(rows).len() == 0);
        assert((header_seq(w, h) + body_seq(rows)).last() == header_seq(w, h).last());
    } else {
        assert(body_seq(rows).last() == '\n');
    }
}

} // verus!
