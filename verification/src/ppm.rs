use vstd::prelude::*;

verus! {

/// The ASCII code of the digit zero; the other digits follow it in order.
pub const ZERO: u8 = 48;

/// The ASCII code of the minus sign.
pub const MINUS: u8 = 45;

/// The ASCII code of the blank.
pub const BLANK: u8 = 32;

/// The ASCII code of the line feed.
pub const NEWLINE: u8 = 10;

/// The ASCII code of the capital letter P.
pub const LETTER_P: u8 = 80;

/// The ASCII code of the decimal digit `d`.
pub open spec fn digit_spec(d: int) -> u8 {
    (ZERO + d) as u8
}

/// The decimal digits of a natural number, the highest first, with no
/// leading zero.
pub open spec fn decimal_spec(n: int) -> Seq<u8>
    decreases n,
{
    if n < 10 {
        seq![digit_spec(n)]
    } else {
        decimal_spec(n / 10).push(digit_spec(n % 10))
    }
}

/// The decimal digits of a whole number, after a minus sign where it is
/// negative.
pub open spec fn signed_decimal_spec(n: int) -> Seq<u8> {
    if n < 0 {
        seq![MINUS] + decimal_spec(-n)
    } else {
        decimal_spec(n)
    }
}

/// The head of a picture in the plain portable pixmap format: the magic
/// number, width and height, and the greatest value of a channel, each on
/// a line.
pub open spec fn header_spec(width: int, height: int) -> Seq<u8> {
    seq![LETTER_P, digit_spec(3), NEWLINE] + signed_decimal_spec(width) + seq![BLANK] + signed_decimal_spec(height)
        + seq![NEWLINE, digit_spec(2), digit_spec(5), digit_spec(5), NEWLINE]
}

/// The line of one pixel: red, green and blue with a blank between.
pub open spec fn line_spec(rgb: (u8, u8, u8)) -> Seq<u8> {
    decimal_spec(rgb.0 as int) + seq![BLANK] + decimal_spec(rgb.1 as int) + seq![BLANK]
        + decimal_spec(rgb.2 as int) + seq![NEWLINE]
}

/// The lines of a row of pixels, in their order.
pub open spec fn lines_spec(pixels: Seq<(u8, u8, u8)>) -> Seq<u8>
    decreases pixels.len(),
{
    if pixels.len() == 0 {
        Seq::empty()
    } else {
        lines_spec(pixels.drop_last()) + line_spec(pixels.last())
    }
}

/// The text of a picture: the head, then one line for each pixel.
pub open spec fn ppm_spec(width: int, height: int, pixels: Seq<(u8, u8, u8)>) -> Seq<u8> {
    header_spec(width, height) + lines_spec(pixels)
}

/// Appends the decimal digits of `n`.
pub fn push_decimal(out: &mut Vec<u8>, n: u32)
    ensures
        final(out)@ == old(out)@ + decimal_spec(n as int),
    decreases n,
{
    if n >= 10 {
        push_decimal(out, n / 10);
    }
    let d: u8 = (n % 10) as u8;
    out.push(ZERO + d);
    proof {
        assert(out@ =~= old(out)@ + decimal_spec(n as int));
    }
}

/// Appends the decimal digits of `n`, after a minus sign where it is
/// negative.
pub fn push_signed_decimal(out: &mut Vec<u8>, n: i32)
    ensures
        final(out)@ == old(out)@ + signed_decimal_spec(n as int),
{
    if n < 0 {
        out.push(MINUS);
        let magnitude: u32 = (-(n as i64)) as u32;
        push_decimal(out, magnitude);
        proof {
            assert(out@ =~= old(out)@ + signed_decimal_spec(n as int));
        }
    } else {
        push_decimal(out, n as u32);
    }
}

/// Appends the line of one pixel.
pub fn push_line(out: &mut Vec<u8>, rgb: (u8, u8, u8))
    ensures
        final(out)@ == old(out)@ + line_spec(rgb),
{
    push_decimal(out, rgb.0 as u32);
    out.push(BLANK);
    push_decimal(out, rgb.1 as u32);
    out.push(BLANK);
    push_decimal(out, rgb.2 as u32);
    out.push(NEWLINE);
    proof {
        assert(out@ =~= old(out)@ + line_spec(rgb));
    }
}

/// The text of a picture of the given width and height whose pixels are
/// `pixels`, row after row from the top.
pub fn ppm(width: i32, height: i32, pixels: &Vec<(u8, u8, u8)>) -> (out: Vec<u8>)
    ensures
        out@ == ppm_spec(width as int, height as int, pixels@),
{
    let mut out: Vec<u8> = Vec::new();
    out.push(LETTER_P);
    out.push(ZERO + 3);
    out.push(NEWLINE);
    push_signed_decimal(&mut out, width);
    out.push(BLANK);
    push_signed_decimal(&mut out, height);
    out.push(NEWLINE);
    out.push(ZERO + 2);
    out.push(ZERO + 5);
    out.push(ZERO + 5);
    out.push(NEWLINE);
    proof {
        assert(out@ =~= header_spec(width as int, height as int));
        assert(pixels@.take(0) =~= Seq::empty());
    }
    let mut i: usize = 0;
    while i < pixels.len()
        invariant
            i <= pixels@.len(),
            out@ == header_spec(width as int, height as int) + lines_spec(pixels@.take(i as int)),
        decreases pixels@.len() - i,
    {
        push_line(&mut out, pixels[i]);
        proof {
            assert(pixels@.take(i + 1).drop_last() =~= pixels@.take(i as int));
            assert(pixels@.take(i + 1).last() == pixels@[i as int]);
            assert(out@ =~= header_spec(width as int, height as int) + lines_spec(
                pixels@.take(i + 1),
            ));
        }
        i += 1;
    }
    proof {
        assert(pixels@.take(i as int) =~= pixels@);
    }
    out
}

} // verus!
