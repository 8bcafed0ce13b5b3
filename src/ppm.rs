//! The plain PPM text of an image whose pixels are already 8-bit RGB triples.
//!
//! The text is a header (`P3`, the width and height, the largest channel value
//! 255) followed by the channels in decimal, pixel after pixel. Pixels are
//! separated by a space and wrapped onto a new line before a line would exceed
//! 70 characters; every row of the image ends with a line break.
use vstd::prelude::*;

use crate::canvas::Canvas;

verus! {

/// The longest line the pixel data may have.
pub const MAX_LINE: usize = 70;

/// The character of decimal digit `d`.
pub open spec fn digit(d: int) -> char {
    seq!['0', '1', '2', '3', '4', '5', '6', '7', '8', '9'][d]
}

/// `n` in decimal, without leading zeros.
pub open spec fn decimal(n: nat) -> Seq<char>
    decreases n,
{
    if n < 10 {
        seq![digit(n as int)]
    } else {
        decimal(n / 10).push(digit((n % 10) as int))
    }
}

/// The three channels of a pixel in decimal, separated by spaces.
pub open spec fn pixel_text(p: [u8; 3]) -> Seq<char> {
    decimal(p[0] as nat) + seq![' '] + decimal(p[1] as nat) + seq![' '] + decimal(p[2] as nat)
}

/// The header of a `width` by `height` image.
pub open spec fn ppm_header(width: nat, height: nat) -> Seq<char> {
    seq!['P', '3', '\n'] + decimal(width) + seq![' '] + decimal(height) + seq![
        '\n',
        '2',
        '5',
        '5',
        '\n',
    ]
}

/// The text of the first `k` pixels of an image `width` pixels wide, and the
/// length of its last, unfinished line.
pub open spec fn ppm_rows(pixels: Seq<[u8; 3]>, width: nat, k: nat) -> (Seq<char>, nat)
    decreases k,
{
    if k == 0 || k > pixels.len() {
        (Seq::empty(), 0)
    } else {
        let prev = ppm_rows(pixels, width, (k - 1) as nat);
        let c = pixel_text(pixels[k - 1]);
        let placed = if prev.1 + c.len() + 1 > MAX_LINE {
            (prev.0 + seq!['\n'] + c, c.len())
        } else if prev.1 == 0 {
            (prev.0 + c, c.len())
        } else {
            (prev.0 + seq![' '] + c, prev.1 + c.len() + 1)
        };
        if (k - 1) % (width as int) == width - 1 {
            (placed.0 + seq!['\n'], 0)
        } else {
            placed
        }
    }
}

/// The length of the last line of `s`, the one that no line break ends yet.
pub open spec fn open_line(s: Seq<char>) -> nat
    decreases s.len(),
{
    if s.len() == 0 || s.last() == '\n' {
        0
    } else {
        open_line(s.drop_last()) + 1
    }
}

/// Whether no line of `s` is longer than `MAX_LINE` characters.
pub open spec fn lines_fit(s: Seq<char>) -> bool
    decreases s.len(),
{
    s.len() == 0 || (lines_fit(s.drop_last()) && open_line(s) <= MAX_LINE)
}

/// Whether `s` holds no line break.
pub open spec fn unbroken(s: Seq<char>) -> bool {
    forall|i: int| 0 <= i < s.len() ==> s[i] != '\n'
}

proof fn lemma_decimal_byte(n: nat)
    requires
        n < 256,
    ensures
        decimal(n).len() <= 3,
        unbroken(decimal(n)),
    decreases n,
{
    let digits = seq!['0', '1', '2', '3', '4', '5', '6', '7', '8', '9'];
    assert forall|d: int| 0 <= d < 10 implies digit(d) != '\n' by {
        assert(digit(d) == digits[d]);
    }
    if n >= 10 {
        lemma_decimal_byte(n / 10);
        if n >= 100 {
            assert(n / 10 >= 10);
            assert(decimal(n / 10).len() == decimal(n / 100).len() + 1) by {
                assert((n / 10) / 10 == n / 100);
            }
        }
        assert(decimal(n / 10).len() <= 2);
    }
}

proof fn lemma_pixel_text(p: [u8; 3])
    ensures
        pixel_text(p).len() <= 11,
        unbroken(pixel_text(p)),
{
    lemma_decimal_byte(p[0] as nat);
    lemma_decimal_byte(p[1] as nat);
    lemma_decimal_byte(p[2] as nat);
    let t = pixel_text(p);
    let a = decimal(p[0] as nat);
    let b = decimal(p[1] as nat);
    let c = decimal(p[2] as nat);
    assert forall|i: int| 0 <= i < t.len() implies t[i] != '\n' by {
        if i < a.len() {
            assert(t[i] == a[i]);
        } else if i == a.len() {
        } else if i < a.len() + 1 + b.len() {
            assert(t[i] == b[i - a.len() - 1]);
        } else if i == a.len() + 1 + b.len() {
        } else {
            assert(t[i] == c[i - a.len() - 2 - b.len()]);
        }
    }
}

/// Text without line breaks lengthens the last line by its own length.
proof fn lemma_append_unbroken(a: Seq<char>, b: Seq<char>)
    requires
        unbroken(b),
    ensures
        open_line(a + b) == open_line(a) + b.len(),
        lines_fit(a) && open_line(a) + b.len() <= MAX_LINE ==> lines_fit(a + b),
    decreases b.len(),
{
    if b.len() == 0 {
        assert(a + b =~= a);
    } else {
        let shorter = b.drop_last();
        assert((a + b).drop_last() =~= a + shorter);
        assert((a + b).last() == b.last());
        lemma_append_unbroken(a, shorter);
    }
}

/// The pixel data keeps every line within `MAX_LINE` characters, and the
/// length it reports for its last line is that line's length.
proof fn lemma_rows_fit(pixels: Seq<[u8; 3]>, width: nat, k: nat)
    ensures
        lines_fit(ppm_rows(pixels, width, k).0),
        open_line(ppm_rows(pixels, width, k).0) == ppm_rows(pixels, width, k).1,
    decreases k,
{
    if k > 0 && k <= pixels.len() {
        lemma_rows_fit(pixels, width, (k - 1) as nat);
        let prev = ppm_rows(pixels, width, (k - 1) as nat);
        let c = pixel_text(pixels[k - 1]);
        lemma_pixel_text(pixels[k - 1]);
        let placed = if prev.1 + c.len() + 1 > MAX_LINE {
            let broken = prev.0.push('\n');
            assert(broken.drop_last() =~= prev.0);
            assert(prev.0 + seq!['\n'] + c =~= broken + c);
            lemma_append_unbroken(broken, c);
            (prev.0 + seq!['\n'] + c, c.len())
        } else if prev.1 == 0 {
            lemma_append_unbroken(prev.0, c);
            (prev.0 + c, c.len())
        } else {
            let spaced = seq![' '] + c;
            assert(unbroken(spaced)) by {
                assert forall|i: int| 0 < i < spaced.len() implies spaced[i] != '\n' by {
                    assert(spaced[i] == c[i - 1]);
                }
            }
            assert(prev.0 + seq![' '] + c =~= prev.0 + spaced);
            lemma_append_unbroken(prev.0, spaced);
            (prev.0 + seq![' '] + c, prev.1 + c.len() + 1)
        };
        let ended = placed.0.push('\n');
        assert(ended.drop_last() =~= placed.0);
        assert(placed.0 + seq!['\n'] =~= ended);
    }
}

/// No line of the pixel data of a PPM text is longer than `MAX_LINE`
/// characters.
pub proof fn lemma_ppm_lines_fit(pixels: Seq<[u8; 3]>, width: nat)
    ensures
        lines_fit(ppm_rows(pixels, width, pixels.len()).0),
{
    lemma_rows_fit(pixels, width, pixels.len());
}

fn append_digit(s: &mut String, d: u32)
    requires
        d < 10,
    ensures
        final(s)@ == old(s)@.push(digit(d as int)),
{
    proof {
        reveal_strlit("0");
        reveal_strlit("1");
        reveal_strlit("2");
        reveal_strlit("3");
        reveal_strlit("4");
        reveal_strlit("5");
        reveal_strlit("6");
        reveal_strlit("7");
        reveal_strlit("8");
        reveal_strlit("9");
    }
    let t = match d {
        0 => "0",
        1 => "1",
        2 => "2",
        3 => "3",
        4 => "4",
        5 => "5",
        6 => "6",
        7 => "7",
        8 => "8",
        _ => "9",
    };
    s.append(t);
    assert(s@ =~= old(s)@.push(digit(d as int)));
}

fn append_decimal(s: &mut String, n: u32)
    ensures
        final(s)@ == old(s)@ + decimal(n as nat),
    decreases n,
{
    if n >= 10 {
        append_decimal(s, n / 10);
    }
    append_digit(s, n % 10);
    assert(s@ =~= old(s)@ + decimal(n as nat));
}

fn decimal_len(n: u8) -> (len: usize)
    ensures
        len == decimal(n as nat).len(),
        len <= 3,
{
    if n >= 100 {
        assert(decimal(n as nat).len() == 3) by {
            assert(decimal((n / 10) as nat).len() == 2) by {
                assert(decimal((n / 100) as nat).len() == 1);
                assert((n / 10) as nat / 10 == (n / 100) as nat);
            }
        }
        3
    } else if n >= 10 {
        assert(decimal(n as nat).len() == 2) by {
            assert(decimal((n / 10) as nat).len() == 1);
        }
        2
    } else {
        1
    }
}

fn append_pixel(s: &mut String, p: [u8; 3]) -> (len: usize)
    ensures
        final(s)@ == old(s)@ + pixel_text(p),
        len == pixel_text(p).len(),
        len <= 11,
{
    proof {
        reveal_strlit(" ");
    }
    append_decimal(s, p[0] as u32);
    s.append(" ");
    append_decimal(s, p[1] as u32);
    s.append(" ");
    append_decimal(s, p[2] as u32);
    assert(s@ =~= old(s)@ + pixel_text(p));
    decimal_len(p[0]) + decimal_len(p[1]) + decimal_len(p[2]) + 2
}

impl Canvas<[u8; 3]> {
    /// The image as plain PPM text.
    pub fn into_ppm_string(&self) -> (ppm: String)
        requires
            self.wf(),
        ensures
            ppm@ == ppm_header(self.spec_width(), self.spec_height()) + ppm_rows(
                self@,
                self.spec_width(),
                self@.len(),
            ).0,
    {
        proof {
            reveal_strlit("P3\n");
            reveal_strlit(" ");
            reveal_strlit("\n");
            reveal_strlit("\n255\n");
        }
        let width = self.width();
        let mut ret = String::new();
        ret.append("P3\n");
        append_decimal(&mut ret, width);
        ret.append(" ");
        append_decimal(&mut ret, self.height());
        ret.append("\n255\n");
        let ghost header = ppm_header(self.spec_width(), self.spec_height());
        assert(ret@ =~= header);
        let pixels = self.pixels();
        let n = pixels.len();
        if n > 0 {
            assert(width > 0) by {
                if width == 0 {
                    assert(self.spec_width() * self.spec_height() == 0) by (nonlinear_arith)
                        requires
                            self.spec_width() == 0,
                    ;
                }
            }
        }
        let mut line_len: usize = 0;
        let mut i: usize = 0;
        while i < n
            invariant
                i <= n,
                n == self@.len(),
                pixels@ == self@,
                n > 0 ==> width > 0,
                width == self.spec_width(),
                line_len <= MAX_LINE,
                ret@ == header + ppm_rows(self@, width as nat, i as nat).0,
                line_len == ppm_rows(self@, width as nat, i as nat).1,
            decreases n - i,
        {
            proof {
                reveal_strlit(" ");
                reveal_strlit("\n");
            }
            let ghost prev = ppm_rows(self@, width as nat, i as nat);
            let p = pixels[i];
            let ghost c = pixel_text(p);
            let mut text = String::new();
            let len = append_pixel(&mut text, p);
            assert(text@ =~= c);
            if line_len + len + 1 > MAX_LINE {
                ret.append("\n");
                ret.append(text.as_str());
                line_len = len;
                assert(ret@ =~= header + (prev.0 + seq!['\n'] + c));
            } else if line_len == 0 {
                ret.append(text.as_str());
                line_len = len;
                assert(ret@ =~= header + (prev.0 + c));
            } else {
                ret.append(" ");
                ret.append(text.as_str());
                line_len = line_len + len + 1;
                assert(ret@ =~= header + (prev.0 + seq![' '] + c));
            }
            let ghost placed = ret@;
            if i % (width as usize) == (width as usize) - 1 {
                ret.append("\n");
                line_len = 0;
                assert(ret@ =~= placed + seq!['\n']);
            }
            i += 1;
        }
        ret
    }
}

} // verus!
