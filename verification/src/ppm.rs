//! The text of a plain PPM file: a header that states the size and the
//! largest channel value, then one `r g b` triple for each pixel, a row of
//! the picture to a line.
//!
//! Colours are gathered in linear space and gamma-encoded only here, where
//! they are written: a channel `x` between 0 and 1 becomes `x` to the power
//! of 1 / 2.2. For 8-bit channels the encoding is exact.

use vstd::prelude::*;

verus! {

/// A pixel ready for writing: its column, its row and its red, green and
/// blue bytes.
pub type Pixel8 = (usize, usize, (u8, u8, u8));

/// The decimal digits of `n` as ASCII, most significant first.
pub open spec fn decimal(n: nat) -> Seq<u8>
    decreases n,
{
    if n < 10 {
        seq![(48 + n) as u8]
    } else {
        decimal(n / 10).push((48 + n % 10) as u8)
    }
}

/// The line that names the format: `P3`.
pub open spec fn magic() -> Seq<u8> {
    seq!['P' as u8, '3' as u8, '\n' as u8]
}

/// The rest of the size line after the two numbers: ` # width, height`.
pub open spec fn size_note() -> Seq<u8> {
    seq![
        ' ' as u8,
        '#' as u8,
        ' ' as u8,
        'w' as u8,
        'i' as u8,
        'd' as u8,
        't' as u8,
        'h' as u8,
        ',' as u8,
        ' ' as u8,
        'h' as u8,
        'e' as u8,
        'i' as u8,
        'g' as u8,
        'h' as u8,
        't' as u8,
        '\n' as u8,
    ]
}

/// The line that states the largest channel value: `255 # max color value`.
pub open spec fn depth_line() -> Seq<u8> {
    seq![
        '2' as u8,
        '5' as u8,
        '5' as u8,
        ' ' as u8,
        '#' as u8,
        ' ' as u8,
        'm' as u8,
        'a' as u8,
        'x' as u8,
        ' ' as u8,
        'c' as u8,
        'o' as u8,
        'l' as u8,
        'o' as u8,
        'r' as u8,
        ' ' as u8,
        'v' as u8,
        'a' as u8,
        'l' as u8,
        'u' as u8,
        'e' as u8,
        '\n' as u8,
    ]
}

/// The header of a picture of the given size.
pub open spec fn header(width: nat, height: nat) -> Seq<u8> {
    magic() + decimal(width) + seq![' ' as u8] + decimal(height) + size_note() + depth_line()
}

/// The text of one colour: its three channels in decimal, a space between.
pub open spec fn triple(rgb: (u8, u8, u8)) -> Seq<u8> {
    decimal(rgb.0 as nat) + seq![' ' as u8] + decimal(rgb.1 as nat) + seq![' ' as u8] + decimal(rgb.2 as nat)
}

/// The text of one pixel with what follows it: a line break after the last
/// column of a row, a space after any other.
pub open spec fn entry(width: nat, pixel: Pixel8) -> Seq<u8> {
    triple(pixel.2) + seq![if pixel.0 + 1 == width {
        '\n' as u8
    } else {
        ' ' as u8
    }]
}

/// The text of the pixels, in the order given.
pub open spec fn body(width: nat, pixels: Seq<Pixel8>) -> Seq<u8>
    decreases pixels.len(),
{
    if pixels.len() == 0 {
        Seq::empty()
    } else {
        body(width, pixels.drop_last()) + entry(width, pixels.last())
    }
}

/// The whole file.
pub open spec fn file(width: nat, height: nat, pixels: Seq<Pixel8>) -> Seq<u8> {
    header(width, height) + body(width, pixels)
}

/// Appends the decimal digits of `n`.
pub fn push_decimal(out: &mut Vec<u8>, n: usize)
    ensures
        final(out)@ == old(out)@ + decimal(n as nat),
    decreases n,
{
    if n >= 10 {
        push_decimal(out, n / 10);
    }
    let digit: u8 = (n % 10) as u8;
    out.push('0' as u8 + digit);
    proof {
        if n < 10 {
            assert(final(out)@ =~= old(out)@ + decimal(n as nat));
        } else {
            assert(final(out)@ =~= old(out)@ + decimal(n as nat));
        }
    }
}

/// Appends `text`.
fn push_all(out: &mut Vec<u8>, text: &[u8])
    ensures
        final(out)@ == old(out)@ + text@,
{
    let mut i: usize = 0;
    while i < text.len()
        invariant
            i <= text@.len(),
            out@ == old(out)@ + text@.subrange(0, i as int),
        decreases text@.len() - i,
    {
        out.push(text[i]);
        i += 1;
        assert(out@ =~= old(out)@ + text@.subrange(0, i as int));
    }
    assert(text@.subrange(0, text@.len() as int) =~= text@);
}

/// The header of a picture of the given size:
/// `P3`, then `<width> <height> # width, height`, then
/// `255 # max color value`, each on a line of its own.
pub fn ppm_header(width: usize, height: usize) -> (text: Vec<u8>)
    ensures
        text@ == header(width as nat, height as nat),
{
    let mut text: Vec<u8> = Vec::new();
    let magic_text: [u8; 3] = ['P' as u8, '3' as u8, '\n' as u8];
    let note_text: [u8; 17] = [
        ' ' as u8,
        '#' as u8,
        ' ' as u8,
        'w' as u8,
        'i' as u8,
        'd' as u8,
        't' as u8,
        'h' as u8,
        ',' as u8,
        ' ' as u8,
        'h' as u8,
        'e' as u8,
        'i' as u8,
        'g' as u8,
        'h' as u8,
        't' as u8,
        '\n' as u8,
    ];
    let depth_text: [u8; 22] = [
        '2' as u8,
        '5' as u8,
        '5' as u8,
        ' ' as u8,
        '#' as u8,
        ' ' as u8,
        'm' as u8,
        'a' as u8,
        'x' as u8,
        ' ' as u8,
        'c' as u8,
        'o' as u8,
        'l' as u8,
        'o' as u8,
        'r' as u8,
        ' ' as u8,
        'v' as u8,
        'a' as u8,
        'l' as u8,
        'u' as u8,
        'e' as u8,
        '\n' as u8,
    ];
    push_all(&mut text, magic_text.as_slice());
    assert(magic_text@ =~= magic());
    push_decimal(&mut text, width);
    text.push(' ' as u8);
    push_decimal(&mut text, height);
    push_all(&mut text, note_text.as_slice());
    assert(note_text@ =~= size_note());
    push_all(&mut text, depth_text.as_slice());
    assert(depth_text@ =~= depth_line());
    assert(text@ =~= header(width as nat, height as nat));
    text
}

/// Appends the text of one colour.
pub fn push_triple(out: &mut Vec<u8>, rgb: (u8, u8, u8))
    ensures
        final(out)@ == old(out)@ + triple(rgb),
{
    push_decimal(out, rgb.0 as usize);
    out.push(' ' as u8);
    push_decimal(out, rgb.1 as usize);
    out.push(' ' as u8);
    push_decimal(out, rgb.2 as usize);
    assert(out@ =~= old(out)@ + triple(rgb));
}

/// The text of one colour, as it stands in the file: `r g b`.
pub fn as_rgb_string(rgb: (u8, u8, u8)) -> (text: Vec<u8>)
    ensures
        text@ == triple(rgb),
{
    let mut text: Vec<u8> = Vec::new();
    push_triple(&mut text, rgb);
    assert(text@ =~= triple(rgb));
    text
}

/// The bytes of the PPM file for a picture `width` by `height` with the
/// given pixels: the header, then every pixel in the order given, a line
/// break after each pixel in the last column and a space after each other.
pub fn write_image(width: usize, height: usize, pixels: &Vec<Pixel8>) -> (text: Vec<u8>)
    ensures
        text@ == file(width as nat, height as nat, pixels@),
{
    let mut text: Vec<u8> = ppm_header(width, height);
    let mut i: usize = 0;
    assert(pixels@.subrange(0, 0) =~= Seq::<Pixel8>::empty());
    while i < pixels.len()
        invariant
            i <= pixels@.len(),
            text@ == header(width as nat, height as nat) + body(width as nat, pixels@.subrange(0, i as int)),
        decreases pixels@.len() - i,
    {
        let (x, _y, rgb) = pixels[i];
        push_triple(&mut text, rgb);
        if width > 0 && x == width - 1 {
            text.push('\n' as u8);
        } else {
            text.push(' ' as u8);
        }
        proof {
            let before = pixels@.subrange(0, i as int);
            let after = pixels@.subrange(0, i as int + 1);
            assert(after.drop_last() =~= before);
            assert(after.last() == pixels@[i as int]);
            assert(text@ =~= header(width as nat, height as nat) + body(width as nat, after));
        }
        i += 1;
    }
    assert(pixels@.subrange(0, pixels@.len() as int) =~= pixels@);
    text
}

/// `x` squared.
pub open spec fn pow2(x: int) -> int {
    x * x
}

/// `x` to the fourth power.
pub open spec fn pow4(x: int) -> int {
    pow2(x) * pow2(x)
}

/// `x` to the fifth power.
pub open spec fn pow5(x: int) -> int {
    pow4(x) * x
}

/// `x` to the eleventh power.
pub open spec fn pow11(x: int) -> int {
    pow4(x) * pow4(x) * pow2(x) * x
}

/// `(2 * 255 * (b / 255)^(5 / 11))^11`, which is a whole number:
/// `2^11 * 255^6 * b^5`.
pub open spec fn gamma_weight(b: int) -> int {
    2048 * (pow4(255) * pow2(255)) * pow5(b)
}

/// Whether `g` is the byte nearest to the gamma encoding of the byte `b`,
/// which is `255 * (b / 255)^(1 / 2.2)`: whether `g - 1/2` lies at or below
/// that number and `g + 1/2` above it. Doubled and raised to the eleventh
/// power, both sides are whole numbers.
pub open spec fn is_gamma(b: int, g: int) -> bool {
    &&& 0 <= g <= 255
    &&& g == 0 || pow11(2 * g - 1) <= gamma_weight(b)
    &&& gamma_weight(b) < pow11(2 * g + 1)
}

/// The gamma encoding of the byte `b`, rounded to a byte.
pub open spec fn gamma(b: u8) -> u8 {
    choose|g: u8| is_gamma(b as int, g as int)
}

/// The colour with each channel gamma-encoded.
pub open spec fn gamma_rgb(rgb: (u8, u8, u8)) -> (u8, u8, u8) {
    (gamma(rgb.0), gamma(rgb.1), gamma(rgb.2))
}

/// The powers grow with their base.
pub proof fn lemma_powers_grow(x: int, y: int)
    requires
        0 <= x <= y,
    ensures
        0 <= pow5(x) <= pow5(y),
        0 <= pow11(x) <= pow11(y),
        x < y ==> pow11(x) < pow11(y),
{
    assert(0 <= pow2(x) <= pow2(y)) by (nonlinear_arith)
        requires
            0 <= x <= y,
            pow2(x) == x * x,
            pow2(y) == y * y,
    ;
    assert(0 <= pow4(x) <= pow4(y)) by (nonlinear_arith)
        requires
            0 <= pow2(x) <= pow2(y),
            pow4(x) == pow2(x) * pow2(x),
            pow4(y) == pow2(y) * pow2(y),
    ;
    assert(0 <= pow5(x) <= pow5(y)) by (nonlinear_arith)
        requires
            0 <= pow4(x) <= pow4(y),
            0 <= x <= y,
            pow5(x) == pow4(x) * x,
            pow5(y) == pow4(y) * y,
    ;
    let a = pow4(x) * pow4(x);
    let b = pow4(y) * pow4(y);
    assert(0 <= a <= b) by (nonlinear_arith)
        requires
            0 <= pow4(x) <= pow4(y),
            a == pow4(x) * pow4(x),
            b == pow4(y) * pow4(y),
    ;
    let c = a * pow2(x);
    let d = b * pow2(y);
    assert(0 <= c <= d) by (nonlinear_arith)
        requires
            0 <= a <= b,
            0 <= pow2(x) <= pow2(y),
            c == a * pow2(x),
            d == b * pow2(y),
    ;
    assert(0 <= c * x <= d * y) by (nonlinear_arith)
        requires
            0 <= c <= d,
            0 <= x <= y,
    ;
    if x < y {
        assert(pow2(y) >= 1) by (nonlinear_arith)
            requires
                y >= 1,
                pow2(y) == y * y,
        ;
        assert(pow4(y) >= 1) by (nonlinear_arith)
            requires
                pow2(y) >= 1,
                pow4(y) == pow2(y) * pow2(y),
        ;
        assert(b >= 1) by (nonlinear_arith)
            requires
                pow4(y) >= 1,
                b == pow4(y) * pow4(y),
        ;
        assert(d >= 1) by (nonlinear_arith)
            requires
                b >= 1,
                pow2(y) >= 1,
                d == b * pow2(y),
        ;
        assert(c * x < d * y) by (nonlinear_arith)
            requires
                0 <= c <= d,
                d >= 1,
                0 <= x < y,
        ;
    }
}

/// A brighter byte weighs more.
pub proof fn lemma_weight_grows(b: int, c: int)
    requires
        0 <= b <= c,
    ensures
        0 <= gamma_weight(b) <= gamma_weight(c),
{
    lemma_powers_grow(b, c);
    let scale = 2048 * (pow4(255) * pow2(255));
    assert(scale >= 0);
    assert(0 <= scale * pow5(b) <= scale * pow5(c)) by (nonlinear_arith)
        requires
            scale >= 0,
            0 <= pow5(b) <= pow5(c),
    ;
}

/// No byte has two gamma encodings.
pub proof fn lemma_gamma_is_unique(b: int, g: int, h: int)
    requires
        is_gamma(b, g),
        is_gamma(b, h),
    ensures
        g == h,
{
    if g < h {
        lemma_powers_grow(2 * g + 1, 2 * h - 1);
    } else if h < g {
        lemma_powers_grow(2 * h + 1, 2 * g - 1);
    }
}

/// The powers of the largest bases that are raised here.
proof fn lemma_largest_powers()
    ensures
        pow2(255) == 65025,
        pow4(255) == 4228250625,
        pow5(255) == 1078203909375,
        gamma_weight(255) == 607116361520826305100000000000,
        pow2(509) == 259081,
        pow4(509) == 67122964561,
        pow11(509) == 594149321766565107986044015109,
        pow2(511) == 261121,
        pow4(511) == 68184176641,
        pow11(511) == 620340165367069806017523226111,
{
    assert(255 * 255 == 65025) by (nonlinear_arith);
    assert(65025 * 65025 == 4228250625) by (nonlinear_arith);
    assert(4228250625 * 255 == 1078203909375) by (nonlinear_arith);
    assert(4228250625 * 65025 == 274941996890625) by (nonlinear_arith);
    assert(2048 * 274941996890625 == 563081209632000000) by (nonlinear_arith);
    assert(563081209632000000 * 1078203909375 == 607116361520826305100000000000) by (nonlinear_arith);
    assert(509 * 509 == 259081) by (nonlinear_arith);
    assert(259081 * 259081 == 67122964561) by (nonlinear_arith);
    assert(67122964561 * 67122964561 == 4505492371457261922721) by (nonlinear_arith);
    assert(4505492371457261922721 * 259081 == 1167287469089518876200479401) by (nonlinear_arith);
    assert(1167287469089518876200479401 * 509 == 594149321766565107986044015109) by (nonlinear_arith);
    assert(511 * 511 == 261121) by (nonlinear_arith);
    assert(261121 * 261121 == 68184176641) by (nonlinear_arith);
    assert(68184176641 * 68184176641 == 4649081944211090042881) by (nonlinear_arith);
    assert(4649081944211090042881 * 261121 == 1213972926354344043087129601) by (nonlinear_arith);
    assert(1213972926354344043087129601 * 511 == 620340165367069806017523226111) by (nonlinear_arith);
}

/// Looks for the gamma encoding of `b` from `g` upward.
proof fn lemma_gamma_from(b: int, g: int) -> (found: int)
    requires
        0 <= b <= 255,
        0 <= g <= 255,
        g == 0 || pow11(2 * g - 1) <= gamma_weight(b),
    ensures
        is_gamma(b, found),
    decreases 255 - g,
{
    if g == 255 {
        lemma_weight_grows(b, 255);
        lemma_largest_powers();
        g
    } else if gamma_weight(b) < pow11(2 * g + 1) {
        g
    } else {
        lemma_gamma_from(b, g + 1)
    }
}

/// Every byte has its gamma encoding: `gamma(b)` lies within a half of
/// `255 * (b / 255)^(1 / 2.2)`.
pub proof fn lemma_gamma(b: u8)
    ensures
        is_gamma(b as int, gamma(b) as int),
{
    let found = lemma_gamma_from(b as int, 0);
    assert(is_gamma(b as int, (found as u8) as int));
}

/// Black stays black, white stays white, and a brighter byte is never
/// encoded darker.
pub proof fn lemma_gamma_keeps_order(b: u8, c: u8)
    requires
        b <= c,
    ensures
        gamma(b) <= gamma(c),
        gamma(0) == 0,
        gamma(255) == 255,
{
    lemma_gamma(b);
    lemma_gamma(c);
    lemma_gamma(0);
    lemma_gamma(255);
    let g = gamma(b) as int;
    let h = gamma(c) as int;
    lemma_weight_grows(b as int, c as int);
    if h < g {
        lemma_powers_grow(2 * h + 1, 2 * g - 1);
    }
    let z = gamma(0) as int;
    if z > 0 {
        lemma_powers_grow(1, 2 * z - 1);
        assert(pow5(0) == 0) by (nonlinear_arith)
            requires
                pow5(0) == pow4(0) * 0,
        ;
        assert(gamma_weight(0) == 0) by (nonlinear_arith)
            requires
                pow5(0) == 0,
                gamma_weight(0) == 2048 * (pow4(255) * pow2(255)) * pow5(0),
        ;
        assert(pow11(1) == 1) by (nonlinear_arith)
            requires
                pow2(1) == 1 * 1,
                pow4(1) == pow2(1) * pow2(1),
                pow11(1) == pow4(1) * pow4(1) * pow2(1) * 1,
        ;
    }
    lemma_largest_powers();
    assert(is_gamma(255, 255));
    lemma_gamma_is_unique(255, gamma(255) as int, 255);
}

/// `x` to the eleventh power.
fn eleventh(x: u128) -> (p: u128)
    requires
        x <= 511,
    ensures
        p == pow11(x as int),
{
    assert(x * x <= 261121) by (nonlinear_arith)
        requires
            x <= 511,
    ;
    let x2: u128 = x * x;
    assert(x2 * x2 <= 68184176641) by (nonlinear_arith)
        requires
            x2 <= 261121,
    ;
    let x4: u128 = x2 * x2;
    assert(x4 * x4 <= 4649081944211090042881) by (nonlinear_arith)
        requires
            x4 <= 68184176641,
    ;
    let x8: u128 = x4 * x4;
    assert(x8 * x2 <= 1213972926354344043087129601) by (nonlinear_arith)
        requires
            x8 <= 4649081944211090042881,
            x2 <= 261121,
    ;
    let x10: u128 = x8 * x2;
    assert(x10 * x <= 620340165367069806017523226111) by (nonlinear_arith)
        requires
            x10 <= 1213972926354344043087129601,
            x <= 511,
    ;
    x10 * x
}

/// The weight of the byte `b`.
fn weight(b: u8) -> (k: u128)
    ensures
        k == gamma_weight(b as int),
{
    let x: u128 = b as u128;
    assert(x * x <= 65025) by (nonlinear_arith)
        requires
            x <= 255,
    ;
    let x2: u128 = x * x;
    assert(x2 * x2 <= 4228250625) by (nonlinear_arith)
        requires
            x2 <= 65025,
    ;
    let x4: u128 = x2 * x2;
    assert(x4 * x <= 1078203909375) by (nonlinear_arith)
        requires
            x4 <= 4228250625,
            x <= 255,
    ;
    let x5: u128 = x4 * x;
    proof {
        lemma_largest_powers();
    }
    assert(563081209632000000 * x5 <= 607116361520826305100000000000) by (nonlinear_arith)
        requires
            x5 <= 1078203909375,
    ;
    let scale: u128 = 563081209632000000;
    assert(scale == 2048 * (pow4(255) * pow2(255))) by (nonlinear_arith)
        requires
            scale == 563081209632000000,
            pow4(255) == 4228250625,
            pow2(255) == 65025,
    ;
    scale * x5
}

/// The gamma encoding of a byte: the byte nearest to
/// `255 * (b / 255)^(1 / 2.2)`.
pub fn gamma_byte(b: u8) -> (g: u8)
    ensures
        is_gamma(b as int, g as int),
        g == gamma(b),
{
    let k: u128 = weight(b);
    let mut g: u8 = 0;
    loop
        invariant
            k == gamma_weight(b as int),
            g == 0 || pow11(2 * g - 1) <= k,
        ensures
            g == 255 || k < pow11(2 * g + 1),
        decreases 255 - g,
    {
        if g == 255 {
            break ;
        }
        let above: u128 = eleventh(2 * (g as u128) + 1);
        if k < above {
            break ;
        }
        g += 1;
    }
    proof {
        if g == 255 {
            lemma_weight_grows(b as int, 255);
            lemma_largest_powers();
        }
        assert(is_gamma(b as int, g as int));
        lemma_gamma(b);
        lemma_gamma_is_unique(b as int, g as int, gamma(b) as int);
    }
    g
}

/// The gamma encodings of all bytes: entry `b` is that of the byte `b`.
pub fn gamma_table() -> (table: Vec<u8>)
    ensures
        table@.len() == 256,
        forall|b: int| 0 <= b < 256 ==> #[trigger] table@[b] == gamma(b as u8),
{
    let mut table: Vec<u8> = Vec::new();
    let mut b: u8 = 0;
    loop
        invariant_except_break
            table@.len() == b,
            forall|c: int| 0 <= c < b ==> #[trigger] table@[c] == gamma(c as u8),
        ensures
            table@.len() == 256,
            forall|c: int| 0 <= c < 256 ==> #[trigger] table@[c] == gamma(c as u8),
        decreases 255 - b,
    {
        table.push(gamma_byte(b));
        if b == 255 {
            break ;
        }
        b += 1;
    }
    table
}

} // verus!
