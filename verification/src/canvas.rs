//! The pixel buffer and its plain-text encoding.
//!
//! Pixels are stored as three bytes each, row after row, pixel
//! `(0, 0)` at the top left.  The text encoding is the ASCII form:
//! a header with the raster size and the byte ceiling, then every
//! byte in decimal, ten samples to a line.

use vstd::prelude::*;
use vstd::string::StringExecFns;

use crate::color::ColorRgbByte;

verus! {

/// A width by height buffer of byte pixels.
#[derive(Clone, Debug)]
pub struct Canvas {
    pub width: usize,
    pub height: usize,
    pub frame_buffer: Vec<u8>,
}

/// Build an all-black canvas.
pub fn canvas(width: usize, height: usize) -> (res: Canvas)
    requires
        width * height * 3 < 0x1_0000_0000,
    ensures
        res.width == width,
        res.height == height,
        res.frame_buffer.len() == width * height * 3,
        forall|i: int| 0 <= i < res.frame_buffer.len() ==> res.frame_buffer[i] == 0,
{
    Canvas::new(width, height)
}

/// The decimal digit character of `d`.
pub open spec fn digit_char_s(d: int) -> char {
    if d == 0 {
        '0'
    } else if d == 1 {
        '1'
    } else if d == 2 {
        '2'
    } else if d == 3 {
        '3'
    } else if d == 4 {
        '4'
    } else if d == 5 {
        '5'
    } else if d == 6 {
        '6'
    } else if d == 7 {
        '7'
    } else if d == 8 {
        '8'
    } else {
        '9'
    }
}

/// The decimal digits of a non-negative number, most significant
/// first.
pub open spec fn dec_s(n: int) -> Seq<char>
    decreases n,
{
    if n < 10 {
        seq![digit_char_s(n)]
    } else {
        dec_s(n / 10) + seq![digit_char_s(n % 10)]
    }
}

/// The separator before sample `i`: a line break after every tenth
/// sample, a space otherwise.
pub open spec fn sep_s(i: int) -> Seq<char> {
    if i % 10 == 0 {
        seq!['\n']
    } else {
        seq![' ']
    }
}

/// The first `i` samples in decimal, separated and broken into lines
/// of ten.
pub open spec fn body_upto_s(bytes: Seq<u8>, i: int) -> Seq<char>
    decreases i,
{
    if i <= 0 {
        Seq::empty()
    } else if i == 1 {
        dec_s(bytes[0] as int)
    } else {
        body_upto_s(bytes, i - 1) + sep_s(i - 1) + dec_s(bytes[i - 1] as int)
    }
}

fn digit_str(d: u32) -> (res: &'static str)
    requires
        d < 10,
    ensures
        res@ == seq![digit_char_s(d as int)],
{
    proof {
        reveal_strlit("0");
        reveal_strlit("1");
        reveal_strlit("2");
        reveal_strlit("3");
        reveal_strlit("4");
        reveal_strlit("5");
        reveal_strlit("6");
        reveal_strlit("7");
        reveal_strlit("8");
        reveal_strlit("9");
    }
    match d {
        0 => "0",
        1 => "1",
        2 => "2",
        3 => "3",
        4 => "4",
        5 => "5",
        6 => "6",
        7 => "7",
        8 => "8",
        _ => "9",
    }
}

/// The decimal form of a number.
pub fn dec_u32(n: u32) -> (res: String)
    ensures
        res@ == dec_s(n as int),
    decreases n,
{
    if n < 10 {
        let mut s = String::new();
        s.append(digit_str(n));
        proof {
            assert(s@ =~= dec_s(n as int));
        }
        s
    } else {
        let mut s = dec_u32(n / 10);
        s.append(digit_str(n % 10));
        proof {
            assert(s@ =~= dec_s(n as int));
        }
        s
    }
}

impl Canvas {
    /// Build an all-black canvas.
    pub fn new(width: usize, height: usize) -> (res: Canvas)
        requires
            width * height * 3 < 0x1_0000_0000,
        ensures
            res.width == width,
            res.height == height,
            res.frame_buffer.len() == width * height * 3,
            forall|i: int| 0 <= i < res.frame_buffer.len() ==> res.frame_buffer[i] == 0,
    {
        let total: usize = width * height * 3;
        let mut frame_buffer: Vec<u8> = Vec::new();
        let mut i: usize = 0;
        while i < total
            invariant
                0 <= i <= total,
                frame_buffer.len() == i,
                forall|j: int| 0 <= j < i ==> frame_buffer[j] == 0,
            decreases total - i,
        {
            frame_buffer.push(0);
            i = i + 1;
        }
        Canvas { width, height, frame_buffer }
    }

    /// The buffer offset of pixel `(x, y)`.
    pub open spec fn idx_s(self, x: int, y: int) -> int {
        3 * (x + y * self.width)
    }

    /// The buffer offset of pixel `(x, y)`; two more bytes follow it
    /// within the buffer.
    pub fn idx(&self, x: usize, y: usize) -> (res: usize)
        requires
            x < self.width,
            y < self.height,
            self.frame_buffer.len() == self.width * self.height * 3,
        ensures
            res == self.idx_s(x as int, y as int),
            res + 2 < self.frame_buffer.len(),
    {
        proof {
            lemma_idx_in_bounds(self.width as int, self.height as int, x as int, y as int);
        }
        3 * (x + y * self.width)
    }

    /// Store a pixel's three bytes at a raw offset.
    pub fn set_idx(&mut self, idx: usize, c: ColorRgbByte)
        requires
            idx + 2 < old(self).frame_buffer.len(),
        ensures
            final(self).width == old(self).width,
            final(self).height == old(self).height,
            final(self).frame_buffer.len() == old(self).frame_buffer.len(),
            final(self).frame_buffer[idx as int] == c.r,
            final(self).frame_buffer[idx as int + 1] == c.g,
            final(self).frame_buffer[idx as int + 2] == c.b,
            forall|j: int|
                0 <= j < old(self).frame_buffer.len() && (j < idx || j > idx + 2)
                    ==> final(self).frame_buffer[j] == old(self).frame_buffer[j],
    {
        self.frame_buffer.set(idx, c.r);
        self.frame_buffer.set(idx + 1, c.g);
        self.frame_buffer.set(idx + 2, c.b);
    }

    /// Store a pixel.
    pub fn set(&mut self, x: usize, y: usize, c: ColorRgbByte)
        requires
            x < old(self).width,
            y < old(self).height,
            old(self).frame_buffer.len() == old(self).width * old(self).height * 3,
        ensures
            final(self).width == old(self).width,
            final(self).height == old(self).height,
            final(self).frame_buffer.len() == old(self).frame_buffer.len(),
            ({
                let idx = old(self).idx_s(x as int, y as int);
                final(self).frame_buffer[idx] == c.r && final(self).frame_buffer[idx + 1] == c.g
                    && final(self).frame_buffer[idx + 2] == c.b && (forall|j: int|
                    0 <= j < old(self).frame_buffer.len() && (j < idx || j > idx + 2)
                        ==> final(self).frame_buffer[j] == old(self).frame_buffer[j])
            }),
    {
        let start = self.idx(x, y);
        self.set_idx(start, c);
    }

    /// Read a pixel back.
    pub fn get(&self, x: usize, y: usize) -> (res: ColorRgbByte)
        requires
            x < self.width,
            y < self.height,
            self.frame_buffer.len() == self.width * self.height * 3,
        ensures
            res.r == self.frame_buffer[self.idx_s(x as int, y as int)],
            res.g == self.frame_buffer[self.idx_s(x as int, y as int) + 1],
            res.b == self.frame_buffer[self.idx_s(x as int, y as int) + 2],
    {
        let start = self.idx(x, y);
        ColorRgbByte {
            r: *self.frame_buffer.get(start).unwrap(),
            g: *self.frame_buffer.get(start + 1).unwrap(),
            b: *self.frame_buffer.get(start + 2).unwrap(),
        }
    }

    /// The buffer in decimal, ten samples to a line.
    pub fn to_string(&self) -> (res: String)
        ensures
            res@ == body_upto_s(self.frame_buffer@, self.frame_buffer.len() as int),
    {
        let mut s = String::new();
        let mut i: usize = 0;
        proof {
            assert(s@ =~= body_upto_s(self.frame_buffer@, 0));
        }
        while i < self.frame_buffer.len()
            invariant
                0 <= i <= self.frame_buffer.len(),
                s@ == body_upto_s(self.frame_buffer@, i as int),
            decreases self.frame_buffer.len() - i,
        {
            if i > 0 {
                if i % 10 == 0 {
                    proof {
                        reveal_strlit("\n");
                    }
                    s.append("\n");
                } else {
                    proof {
                        reveal_strlit(" ");
                    }
                    s.append(" ");
                }
            }
            let b = *self.frame_buffer.get(i).unwrap();
            let d = dec_u32(b as u32);
            s.append(d.as_str());
            i = i + 1;
            proof {
                assert(s@ =~= body_upto_s(self.frame_buffer@, i as int));
            }
        }
        s
    }

    /// The whole plain-text image: the header, the samples, and a
    /// final line break.
    pub fn to_ppm_string(&self) -> (res: String)
        requires
            self.width < 0x1_0000_0000,
            self.height < 0x1_0000_0000,
        ensures
            res@ == seq!['P', '3', '\n'] + dec_s(self.width as int) + seq![' '] + dec_s(
                self.height as int,
            ) + seq!['\n', '2', '5', '5', '\n'] + body_upto_s(
                self.frame_buffer@,
                self.frame_buffer.len() as int,
            ) + seq!['\n'],
    {
        proof {
            reveal_strlit("P3\n");
            reveal_strlit(" ");
            reveal_strlit("\n255\n");
            reveal_strlit("\n");
        }
        let mut s = String::from_str("P3\n");
        let w = dec_u32(self.width as u32);
        s.append(w.as_str());
        s.append(" ");
        let h = dec_u32(self.height as u32);
        s.append(h.as_str());
        s.append("\n255\n");
        let body = self.to_string();
        s.append(body.as_str());
        s.append("\n");
        proof {
            assert(s@ =~= seq!['P', '3', '\n'] + dec_s(self.width as int) + seq![' '] + dec_s(
                self.height as int,
            ) + seq!['\n', '2', '5', '5', '\n'] + body_upto_s(
                self.frame_buffer@,
                self.frame_buffer.len() as int,
            ) + seq!['\n']);
        }
        s
    }
}

/// The last pixel's offset leaves room for its three bytes.
pub proof fn lemma_idx_in_bounds(w: int, h: int, x: int, y: int)
    requires
        0 <= x < w,
        0 <= y < h,
    ensures
        3 * (x + y * w) + 2 < w * h * 3,
        0 <= 3 * (x + y * w),
{
    assert(3 * (x + y * w) + 2 < w * h * 3) by (nonlinear_arith)
        requires
            0 <= x < w,
            0 <= y < h,
    ;
    assert(0 <= 3 * (x + y * w)) by (nonlinear_arith)
        requires
            0 <= x,
            0 <= y,
            0 < w,
    ;
}

} // verus!
