use vstd::prelude::*;

use crate::rgb::{spec_as_byte, RGB};

verus! {

/// The pixel sink: a fixed width and height, and one bulk write of pixels,
/// ordered row by row from the upper left corner. The sink models the pixels
/// it has received, so callers can say what they delivered.
pub trait ImageWrite {
    /// The sink's width and height.
    spec fn spec_bounds(&self) -> (usize, usize);

    /// The pixels the sink has received so far, in the order they arrived.
    spec fn spec_written(&self) -> Seq<RGB>;

    /// Image width and height.
    fn bounds(&self) -> (r: (usize, usize))
        ensures
            r == self.spec_bounds(),
    ;

    /// Full data write starting from the upper left corner: the given pixels
    /// are appended, in order, to what the sink has received.
    fn write_all(&mut self, colors: &[RGB])
        ensures
            final(self).spec_written() == old(self).spec_written() + colors@,
            final(self).spec_bounds() == old(self).spec_bounds(),
    ;
}

/// The shortest decimal numeral of a nonnegative number, as ASCII bytes.
pub open spec fn spec_decimal(n: int) -> Seq<u8>
    recommends
        n >= 0,
    decreases n,
{
    if n < 10 {
        seq![(48 + n) as u8]
    } else {
        spec_decimal(n / 10) + seq![(48 + (n % 10)) as u8]
    }
}

/// Appends the decimal numeral of `n`.
fn push_decimal(out: &mut Vec<u8>, n: u64)
    ensures
        final(out)@ == old(out)@ + spec_decimal(n as int),
    decreases n,
{
    if n < 10 {
        out.push((48 + n) as u8);
        proof {
            assert(out@ =~= old(out)@ + spec_decimal(n as int));
        }
    } else {
        let q = n / 10;
        let r = n % 10;
        proof {
            vstd::arithmetic::div_mod::lemma_div_decreases(n as int, 10);
        }
        push_decimal(out, q);
        out.push((48 + r) as u8);
        proof {
            assert(out@ =~= old(out)@ + spec_decimal(n as int));
        }
    }
}

/// The header of the plain-text format: the magic line, the two bounds, and
/// the channel maximum.
pub open spec fn spec_header(w: int, h: int) -> Seq<u8> {
    seq![80u8, 51u8, 10u8] + spec_decimal(w) + seq![32u8] + spec_decimal(h) + seq![
        10u8,
        50u8,
        53u8,
        53u8,
        10u8,
    ]
}

/// One pixel's line: the three quantized channels in decimal, separated by
/// spaces and closed by a newline.
pub open spec fn spec_rgb_line(c: RGB) -> Seq<u8> {
    spec_decimal(spec_as_byte(c.0 as int)) + seq![32u8] + spec_decimal(spec_as_byte(c.1 as int))
        + seq![32u8] + spec_decimal(spec_as_byte(c.2 as int)) + seq![10u8]
}

/// The lines of a run of pixels, in order.
pub open spec fn spec_pixel_lines(colors: Seq<RGB>) -> Seq<u8>
    decreases colors.len(),
{
    if colors.len() == 0 {
        Seq::empty()
    } else {
        spec_pixel_lines(colors.drop_last()) + spec_rgb_line(colors.last())
    }
}

/// Renders pixels into the plain-text format, quantized to bytes: a header
/// announcing the bounds, then one line of three decimal channel values per
/// pixel, rows ordered top to bottom. The bytes accumulate in an in-memory
/// sink; handing them to a file or stream is the caller's concern.
pub struct P3ImageWriter {
    pub bounds: (usize, usize),
    pub sink: Vec<u8>,
    pub written: Ghost<Seq<RGB>>,
}

impl P3ImageWriter {
    /// Creates a new P3ImageWriter and appends the header to the sink.
    pub fn new(bounds: (usize, usize), sink: Vec<u8>) -> (r: Self)
        ensures
            r.bounds == bounds,
            r.sink@ == sink@ + spec_header(bounds.0 as int, bounds.1 as int),
            r.written@ == Seq::<RGB>::empty(),
    {
        let mut writer = Self { bounds, sink, written: Ghost(Seq::empty()) };
        writer.write_header();
        writer
    }

    /// Appends the format header: the magic line, the bounds, and the
    /// channel maximum.
    pub fn write_header(&mut self)
        ensures
            final(self).bounds == old(self).bounds,
            final(self).written == old(self).written,
            final(self).sink@ == old(self).sink@ + spec_header(
                old(self).bounds.0 as int,
                old(self).bounds.1 as int,
            ),
    {
        self.sink.push(80);
        self.sink.push(51);
        self.sink.push(10);
        push_decimal(&mut self.sink, self.bounds.0 as u64);
        self.sink.push(32);
        push_decimal(&mut self.sink, self.bounds.1 as u64);
        self.sink.push(10);
        self.sink.push(50);
        self.sink.push(53);
        self.sink.push(53);
        self.sink.push(10);
        proof {
            assert(self.sink@ =~= old(self).sink@ + spec_header(
                old(self).bounds.0 as int,
                old(self).bounds.1 as int,
            ));
        }
    }

    /// Appends one line of three decimal channel bytes per pixel, and
    /// records the pixels as received.
    pub fn write_pixels(&mut self, colors: &[RGB])
        ensures
            final(self).bounds == old(self).bounds,
            final(self).written@ == old(self).written@ + colors@,
            final(self).sink@ == old(self).sink@ + spec_pixel_lines(colors@),
    {
        let mut i: usize = 0;
        proof {
            assert(self.sink@ =~= old(self).sink@ + spec_pixel_lines(colors@.subrange(0, 0)));
        }
        while i < colors.len()
            invariant
                i <= colors@.len(),
                self.bounds == old(self).bounds,
                self.written == old(self).written,
                self.sink@ == old(self).sink@ + spec_pixel_lines(colors@.subrange(0, i as int)),
            decreases colors@.len() - i,
        {
            let c = colors[i];
            let bytes = c.as_bytes();
            let ghost before = self.sink@;
            push_decimal(&mut self.sink, bytes[0] as u64);
            self.sink.push(32);
            push_decimal(&mut self.sink, bytes[1] as u64);
            self.sink.push(32);
            push_decimal(&mut self.sink, bytes[2] as u64);
            self.sink.push(10);
            proof {
                assert(self.sink@ =~= before + spec_rgb_line(c));
                let pre = colors@.subrange(0, i as int);
                let cur = colors@.subrange(0, i as int + 1);
                assert(cur.drop_last() =~= pre);
                assert(cur.last() == c);
                assert(self.sink@ =~= old(self).sink@ + spec_pixel_lines(cur));
            }
            i = i + 1;
        }
        self.written = Ghost(self.written@ + colors@);
        proof {
            assert(colors@.subrange(0, colors@.len() as int) =~= colors@);
        }
    }
}

impl ImageWrite for P3ImageWriter {
    open spec fn spec_bounds(&self) -> (usize, usize) {
        self.bounds
    }

    open spec fn spec_written(&self) -> Seq<RGB> {
        self.written@
    }

    fn bounds(&self) -> (r: (usize, usize))
        ensures
            r == self.spec_bounds(),
    {
        self.bounds
    }

    fn write_all(&mut self, colors: &[RGB]) {
        self.write_pixels(colors);
    }
}

/// Walks the pixel coordinates of an image row by row from the upper left
/// corner.
#[derive(Debug, Clone, Copy)]
pub struct Pixels {
    pub width: usize,
    pub height: usize,
    pub x: usize,
    pub y: usize,
}

impl Pixels {
    /// Creates a walk over the given bounds, starting at the upper left.
    pub fn new(bounds: (usize, usize)) -> (r: Self)
        ensures
            r.width == bounds.0,
            r.height == bounds.1,
            r.x == 0,
            r.y == 0,
    {
        Self { width: bounds.0, height: bounds.1, x: 0, y: 0 }
    }

    /// The next pixel coordinate, or nothing once every row is done: the
    /// current position is handed out and the walk steps right, wrapping to
    /// the next row's start.
    pub fn next(&mut self) -> (r: Option<(usize, usize)>)
        ensures
            r is Some <==> old(self).y < old(self).height && old(self).x < old(self).width,
            r matches Some(v) ==> v == (old(self).x, old(self).y),
            r is Some && old(self).x + 1 < old(self).width ==> final(self).x == old(self).x + 1
                && final(self).y == old(self).y,
            r is Some && old(self).x + 1 >= old(self).width ==> final(self).x == 0
                && final(self).y == old(self).y + 1,
            r is None ==> *final(self) == *old(self),
            final(self).width == old(self).width && final(self).height == old(self).height,
    {
        if self.y >= self.height || self.x >= self.width {
            return None;
        }
        let r = (self.x, self.y);
        self.x = self.x + 1;
        if self.x >= self.width {
            self.x = 0;
            self.y = self.y + 1;
        }
        Some(r)
    }
}

} // verus!
