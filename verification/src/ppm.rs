//! The output encoding: an image as plain text, in the plain variant of the
//! portable pixmap format.
//!
//! ```text
//! <magic>
//! <width> <height>
//! 255
//! <r> <g> <b>
//! ```
//!
//! The magic is the letter `P` and the digit `3`. There is one line of
//! three channels for each pixel, row by row from the top row down and from
//! left to right within a row. Numbers are written in decimal and every
//! line ends with a line feed.

use vstd::prelude::*;

verus! {

/// The byte of the digit zero.
pub const ZERO: u8 = 48;

/// The byte that separates two numbers on a line.
pub const SPACE: u8 = 32;

/// The byte that ends a line.
pub const LINE_FEED: u8 = 10;

/// The largest value of a channel, as the third line of the text names it.
pub const MAX_CHANNEL: u8 = 255;

/// The first line of the text: the letter `P` and the digit `3`.
pub open spec fn magic() -> Seq<u8> {
    seq![80u8, 51u8]
}

/// A pixel as it is written out: three channels from 0 to 255.
#[derive(Clone, Copy, Debug, PartialEq, Eq, Structural)]
pub struct Rgb {
    pub r: u8,
    pub g: u8,
    pub b: u8,
}

/// Why an image buffer cannot be written under a given header.
#[derive(Clone, Copy, Debug, PartialEq, Eq, Structural)]
pub enum ShapeError {
    /// The buffer does not hold as many rows as the header names.
    RowCount,
    /// The row at this place in the buffer, the first such row, does not
    /// hold as many pixels as the header names.
    RowLength { row: usize },
}

/// The decimal digits of `n`, most significant first, without leading
/// zeros; the single digit `0` for zero.
pub open spec fn decimal(n: nat) -> Seq<u8>
    decreases n,
{
    if n < 10 {
        seq![(ZERO + n) as u8]
    } else {
        decimal(n / 10).push((ZERO + n % 10) as u8)
    }
}

/// The line of one pixel: its three channels in decimal, a space between
/// two of them, and a line feed.
pub open spec fn pixel_text(pixel: Rgb) -> Seq<u8> {
    decimal(pixel.r as nat).push(SPACE) + decimal(pixel.g as nat).push(SPACE) + decimal(
        pixel.b as nat,
    ).push(LINE_FEED)
}

/// The lines of the pixels of one row, from left to right.
pub open spec fn row_text(row: Seq<Rgb>) -> Seq<u8>
    decreases row.len(),
{
    if row.len() == 0 {
        Seq::empty()
    } else {
        row_text(row.drop_last()) + pixel_text(row.last())
    }
}

/// The lines of the pixels of an image buffer, row by row.
pub open spec fn rows_text(rows: Seq<Vec<Rgb>>) -> Seq<u8>
    decreases rows.len(),
{
    if rows.len() == 0 {
        Seq::empty()
    } else {
        rows_text(rows.drop_last()) + row_text(rows.last()@)
    }
}

/// The three lines that stand before the pixels.
pub open spec fn header_text(width: u32, height: u32) -> Seq<u8> {
    magic().push(LINE_FEED) + decimal(width as nat).push(SPACE) + decimal(height as nat).push(
        LINE_FEED,
    ) + decimal(MAX_CHANNEL as nat).push(LINE_FEED)
}

/// The whole text of an image.
pub open spec fn image_text(width: u32, height: u32, rows: Seq<Vec<Rgb>>) -> Seq<u8> {
    header_text(width, height) + rows_text(rows)
}

/// The buffer holds `height` rows of `width` pixels each.
pub open spec fn has_shape(rows: Seq<Vec<Rgb>>, width: u32, height: u32) -> bool {
    &&& rows.len() == height
    &&& forall|r: int| 0 <= r < rows.len() ==> (#[trigger] rows[r]).len() == width
}

/// Row `r` is the first of the buffer that does not hold `width` pixels.
pub open spec fn is_first_odd_row(rows: Seq<Vec<Rgb>>, width: u32, r: int) -> bool {
    &&& 0 <= r < rows.len()
    &&& rows[r].len() != width
    &&& forall|q: int| 0 <= q < r ==> (#[trigger] rows[q]).len() == width
}

/// Appends the decimal digits of `n` to `out`.
pub fn push_decimal(out: &mut Vec<u8>, n: u32)
    ensures
        final(out)@ == old(out)@ + decimal(n as nat),
    decreases n,
{
    if n >= 10 {
        push_decimal(out, n / 10);
    }
    out.push(ZERO + (n % 10) as u8);
    assert(out@ =~= old(out)@ + decimal(n as nat));
}

/// Appends the line of one pixel to `out`.
pub fn write_color(out: &mut Vec<u8>, pixel: Rgb)
    ensures
        final(out)@ == old(out)@ + pixel_text(pixel),
{
    push_decimal(out, pixel.r as u32);
    out.push(SPACE);
    push_decimal(out, pixel.g as u32);
    out.push(SPACE);
    push_decimal(out, pixel.b as u32);
    out.push(LINE_FEED);
    assert(out@ =~= old(out)@ + pixel_text(pixel));
}

/// Appends the three lines of the header to `out`.
pub fn write_header(out: &mut Vec<u8>, width: u32, height: u32)
    ensures
        final(out)@ == old(out)@ + header_text(width, height),
{
    out.push(80);
    out.push(51);
    out.push(LINE_FEED);
    push_decimal(out, width);
    out.push(SPACE);
    push_decimal(out, height);
    out.push(LINE_FEED);
    push_decimal(out, MAX_CHANNEL as u32);
    out.push(LINE_FEED);
    assert(out@ =~= old(out)@ + header_text(width, height));
}

/// Appends the lines of the pixels of one row to `out`.
fn write_row(out: &mut Vec<u8>, row: &Vec<Rgb>)
    ensures
        final(out)@ == old(out)@ + row_text(row@),
{
    let mut column: usize = 0;
    assert(row@.take(0) =~= Seq::<Rgb>::empty());
    assert(out@ =~= old(out)@ + row_text(row@.take(0)));
    while column < row.len()
        invariant
            column <= row.len(),
            out@ == old(out)@ + row_text(row@.take(column as int)),
        decreases row.len() - column,
    {
        write_color(out, row[column]);
        proof {
            let next = row@.take(column + 1);
            assert(next.drop_last() =~= row@.take(column as int));
            assert(next.last() == row@[column as int]);
            assert(out@ =~= old(out)@ + row_text(next));
        }
        column = column + 1;
    }
    assert(row@.take(row.len() as int) =~= row@);
}

/// Appends the lines of the pixels of an image buffer to `out`, row by row.
pub fn write_rows(out: &mut Vec<u8>, image: &Vec<Vec<Rgb>>)
    ensures
        final(out)@ == old(out)@ + rows_text(image@),
{
    let mut r: usize = 0;
    assert(image@.take(0) =~= Seq::<Vec<Rgb>>::empty());
    assert(out@ =~= old(out)@ + rows_text(image@.take(0)));
    while r < image.len()
        invariant
            r <= image.len(),
            out@ == old(out)@ + rows_text(image@.take(r as int)),
        decreases image.len() - r,
    {
        write_row(out, &image[r]);
        proof {
            let next = image@.take(r + 1);
            assert(next.drop_last() =~= image@.take(r as int));
            assert(next.last() == image@[r as int]);
            assert(out@ =~= old(out)@ + rows_text(next));
        }
        r = r + 1;
    }
    assert(image@.take(image.len() as int) =~= image@);
}

/// The lines of the pixels of an image buffer, one line for each pixel, row
/// by row from the first row and from left to right within a row.
pub fn write_image(image: &Vec<Vec<Rgb>>) -> (text: Vec<u8>)
    ensures
        text@ == rows_text(image@),
{
    let mut text: Vec<u8> = Vec::new();
    write_rows(&mut text, image);
    assert(text@ =~= rows_text(image@));
    text
}

/// The place of the first row of the buffer that does not hold `width`
/// pixels, if there is one.
fn first_odd_row(image: &Vec<Vec<Rgb>>, width: u32) -> (odd: Option<usize>)
    ensures
        match odd {
            Some(row) => is_first_odd_row(image@, width, row as int),
            None => forall|r: int| 0 <= r < image.len() ==> (#[trigger] image@[r]).len() == width,
        },
{
    let mut r: usize = 0;
    while r < image.len()
        invariant
            r <= image.len(),
            forall|q: int| 0 <= q < r ==> (#[trigger] image@[q]).len() == width,
        decreases image.len() - r,
    {
        if image[r].len() != width as usize {
            return Some(r);
        }
        r = r + 1;
    }
    None
}

/// The whole text of an image: the header of `width` and `height`, then
/// the lines of the pixels. A buffer of another shape than the header
/// names is refused.
pub fn encode(width: u32, height: u32, image: &Vec<Vec<Rgb>>) -> (encoded: Result<
    Vec<u8>,
    ShapeError,
>)
    ensures
        encoded is Ok <==> has_shape(image@, width, height),
        encoded is Ok ==> encoded->Ok_0@ == image_text(width, height, image@),
        encoded == Err::<Vec<u8>, ShapeError>(ShapeError::RowCount) <==> image.len() != height,
        encoded matches Err(ShapeError::RowLength { row }) ==> is_first_odd_row(
            image@,
            width,
            row as int,
        ),
{
    if image.len() != height as usize {
        return Err(ShapeError::RowCount);
    }
    match first_odd_row(image, width) {
        Some(row) => Err(ShapeError::RowLength { row }),
        None => {
            let mut text: Vec<u8> = Vec::new();
            write_header(&mut text, width, height);
            write_rows(&mut text, image);
            assert(text@ =~= image_text(width, height, image@));
            Ok(text)
        },
    }
}

/// The number that a sequence of decimal digits stands for.
pub open spec fn decimal_value(digits: Seq<u8>) -> nat
    decreases digits.len(),
{
    if digits.len() == 0 {
        0
    } else {
        (decimal_value(digits.drop_last()) * 10 + (digits.last() - ZERO)) as nat
    }
}

/// A number can be read back from its decimal digits: they are digits, at
/// least one, none of them a leading zero, and they stand for the number.
pub proof fn law_decimal_reads_back(n: nat)
    ensures
        decimal(n).len() >= 1,
        forall|i: int| 0 <= i < decimal(n).len() ==> ZERO <= #[trigger] decimal(n)[i] <= ZERO + 9,
        decimal(n)[0] == ZERO <==> n == 0,
        decimal_value(decimal(n)) == n,
    decreases n,
{
    if n < 10 {
        assert(decimal(n).drop_last() =~= Seq::<u8>::empty());
        assert(decimal_value(decimal(n).drop_last()) == 0);
    } else {
        law_decimal_reads_back(n / 10);
        assert(decimal(n).drop_last() =~= decimal(n / 10));
        assert(decimal(n)[0] == decimal(n / 10)[0]);
    }
}

/// The number of lines of a text: of line feeds in it.
pub open spec fn lines(text: Seq<u8>) -> nat
    decreases text.len(),
{
    if text.len() == 0 {
        0
    } else if text.last() == LINE_FEED {
        1 + lines(text.drop_last())
    } else {
        lines(text.drop_last())
    }
}

/// The number of pixels of an image buffer.
pub open spec fn pixel_count(rows: Seq<Vec<Rgb>>) -> nat
    decreases rows.len(),
{
    if rows.len() == 0 {
        0
    } else {
        pixel_count(rows.drop_last()) + rows.last()@.len()
    }
}

/// The lines of two texts add up when one text is put behind the other.
proof fn lemma_lines_add_up(first: Seq<u8>, second: Seq<u8>)
    ensures
        lines(first + second) == lines(first) + lines(second),
    decreases second.len(),
{
    if second.len() == 0 {
        assert(first + second =~= first);
    } else {
        assert((first + second).drop_last() =~= first + second.drop_last());
        lemma_lines_add_up(first, second.drop_last());
    }
}

/// A number in decimal followed by one more byte has a line if that byte
/// is a line feed, and none if it is not.
proof fn lemma_lines_of_number(n: nat, end: u8)
    ensures
        lines(decimal(n).push(end)) == if end == LINE_FEED { 1nat } else { 0nat },
{
    law_decimal_reads_back(n);
    lemma_no_line_in_digits(decimal(n));
    assert(decimal(n).push(end).drop_last() =~= decimal(n));
}

/// Digits hold no line feed.
proof fn lemma_no_line_in_digits(digits: Seq<u8>)
    requires
        forall|i: int| 0 <= i < digits.len() ==> ZERO <= #[trigger] digits[i] <= ZERO + 9,
    ensures
        lines(digits) == 0,
    decreases digits.len(),
{
    if digits.len() > 0 {
        lemma_no_line_in_digits(digits.drop_last());
    }
}

/// The line of a pixel is one line.
proof fn lemma_pixel_is_one_line(pixel: Rgb)
    ensures
        lines(pixel_text(pixel)) == 1,
{
    let r = decimal(pixel.r as nat).push(SPACE);
    let g = decimal(pixel.g as nat).push(SPACE);
    let b = decimal(pixel.b as nat).push(LINE_FEED);
    lemma_lines_of_number(pixel.r as nat, SPACE);
    lemma_lines_of_number(pixel.g as nat, SPACE);
    lemma_lines_of_number(pixel.b as nat, LINE_FEED);
    lemma_lines_add_up(r, g);
    lemma_lines_add_up(r + g, b);
}

/// A row is written as one line for each of its pixels.
proof fn lemma_row_is_a_line_for_each_pixel(row: Seq<Rgb>)
    ensures
        lines(row_text(row)) == row.len(),
    decreases row.len(),
{
    if row.len() > 0 {
        lemma_row_is_a_line_for_each_pixel(row.drop_last());
        lemma_pixel_is_one_line(row.last());
        lemma_lines_add_up(row_text(row.drop_last()), pixel_text(row.last()));
    }
}

/// An image buffer is written as one line for each of its pixels.
proof fn lemma_lines_in_rows(rows: Seq<Vec<Rgb>>)
    ensures
        lines(rows_text(rows)) == pixel_count(rows),
    decreases rows.len(),
{
    if rows.len() > 0 {
        lemma_lines_in_rows(rows.drop_last());
        lemma_row_is_a_line_for_each_pixel(rows.last()@);
        lemma_lines_add_up(rows_text(rows.drop_last()), row_text(rows.last()@));
    }
}

/// What is written of an image buffer is empty or ends with a line feed.
proof fn lemma_rows_end_with_a_line_feed(rows: Seq<Vec<Rgb>>)
    ensures
        rows_text(rows).len() == 0 || rows_text(rows).last() == LINE_FEED,
    decreases rows.len(),
{
    if rows.len() > 0 {
        lemma_rows_end_with_a_line_feed(rows.drop_last());
        let row = rows.last()@;
        if row.len() > 0 {
            assert(row_text(row).last() == LINE_FEED);
        } else {
            assert(rows_text(rows) =~= rows_text(rows.drop_last()));
        }
    }
}

/// The text of an image is made of lines: three for the header and one for
/// each pixel of the buffer, and the last byte of the text ends the last
/// line.
pub proof fn law_one_line_for_each_pixel(width: u32, height: u32, rows: Seq<Vec<Rgb>>)
    ensures
        lines(header_text(width, height)) == 3,
        lines(rows_text(rows)) == pixel_count(rows),
        lines(image_text(width, height, rows)) == 3 + pixel_count(rows),
        image_text(width, height, rows).last() == LINE_FEED,
{
    let first = magic().push(LINE_FEED);
    let third = decimal(MAX_CHANNEL as nat).push(LINE_FEED);
    assert(lines(first) == 1) by {
        reveal_with_fuel(lines, 4);
        assert(first.drop_last() =~= magic());
        assert(magic().drop_last() =~= seq![80u8]);
        assert(seq![80u8].drop_last() =~= Seq::<u8>::empty());
    }
    lemma_lines_of_number(width as nat, SPACE);
    lemma_lines_of_number(height as nat, LINE_FEED);
    lemma_lines_of_number(MAX_CHANNEL as nat, LINE_FEED);
    lemma_lines_add_up(first, decimal(width as nat).push(SPACE));
    lemma_lines_add_up(
        first + decimal(width as nat).push(SPACE),
        decimal(height as nat).push(LINE_FEED),
    );
    lemma_lines_add_up(
        first + decimal(width as nat).push(SPACE) + decimal(height as nat).push(LINE_FEED),
        third,
    );
    lemma_lines_in_rows(rows);
    lemma_lines_add_up(header_text(width, height), rows_text(rows));
    lemma_rows_end_with_a_line_feed(rows);
}

} // verus!
