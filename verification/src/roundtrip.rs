//! The P3 reader reads back exactly what the P3 writer writes.

use vstd::prelude::*;
use crate::decimal::{
    ascii_chars, decimal_bytes, is_digit, lemma_ascii_chars_add,
    lemma_decimal_digits, lemma_parse_decimal_roundtrip,
};
use crate::ppm::{
    pixel_line, pixel_lines, ppm_header, ppm_p3, Rgb8, DIGIT_2, DIGIT_3, DIGIT_5, LETTER_P,
    NEWLINE, SPACE,
};
use crate::texture::{
    comment_open, decommented, first_sample_error, in_comment, is_whitespace, lemma_run_len_bounds,
    lemma_run_len_exact,
    p3_magic, ppm_tokens, run_len, sample_token, sample_values, spec_read_ppm,
    split_ws, token_value, PpmErrorSpec, PpmField, PpmImageSpec,
};

verus! {

/// Channel `c` (0 red, 1 green, 2 blue) of a pixel.
pub open spec fn channel(p: Rgb8, c: int) -> u8 {
    if c == 0 {
        p.0
    } else if c == 1 {
        p.1
    } else {
        p.2
    }
}

/// The samples of a pixel list, `R G B` per pixel, in order.
pub open spec fn pixel_samples(pixels: Seq<Rgb8>) -> Seq<usize> {
    Seq::new(3 * pixels.len(), |k: int| channel(pixels[k / 3], k % 3) as usize)
}

// ---------------------------------------------------------------------------
// Splitting at whitespace
// ---------------------------------------------------------------------------

proof fn lemma_run_len_props(s: Seq<char>)
    ensures
        forall|j: int| 0 <= j < run_len(s) ==> !#[trigger] is_whitespace(s[j]),
        run_len(s) < s.len() ==> is_whitespace(s[run_len(s) as int]),
    decreases s.len(),
{
    lemma_run_len_bounds(s);
    if s.len() > 0 && !is_whitespace(s[0]) {
        let t = s.drop_first();
        lemma_run_len_props(t);
        assert forall|j: int| 0 <= j < run_len(s) implies !#[trigger] is_whitespace(s[j]) by {
            if j > 0 {
                assert(s[j] == t[j - 1]);
            }
        }
    }
}

/// Text that ends with whitespace splits independently of what follows.
pub proof fn lemma_split_ws_append(a: Seq<char>, b: Seq<char>)
    requires
        a.len() > 0,
        is_whitespace(a.last()),
    ensures
        split_ws(a + b) == split_ws(a) + split_ws(b),
    decreases a.len(),
{
    let ab = a + b;
    if is_whitespace(a[0]) {
        assert(ab[0] == a[0]);
        if a.len() == 1 {
            assert(ab.drop_first() =~= b);
            assert(a.drop_first() =~= Seq::<char>::empty());
            assert(split_ws(a.drop_first()) =~= Seq::<Seq<char>>::empty());
            assert(split_ws(a) =~= Seq::<Seq<char>>::empty());
            assert(split_ws(a) + split_ws(b) =~= split_ws(b));
        } else {
            assert(ab.drop_first() =~= a.drop_first() + b);
            lemma_split_ws_append(a.drop_first(), b);
        }
    } else {
        lemma_run_len_props(a);
        lemma_run_len_bounds(a);
        let k = run_len(a) as int;
        if k >= a.len() {
            assert(!is_whitespace(a[a.len() - 1]));
        }
        assert(k < a.len());
        assert forall|j: int| 0 <= j < k implies !#[trigger] is_whitespace(ab[j]) by {
            assert(ab[j] == a[j]);
        }
        assert(ab[k] == a[k]);
        lemma_run_len_exact(ab, k);
        assert(ab.take(k) =~= a.take(k));
        assert(ab.skip(k) =~= a.skip(k) + b);
        let rest = a.skip(k);
        assert(rest.last() == a.last());
        lemma_split_ws_append(rest, b);
        assert(split_ws(ab) =~= seq![a.take(k)] + split_ws(rest) + split_ws(b));
    }
}

/// A nonempty run of non-whitespace followed by one whitespace character is
/// one token.
pub proof fn lemma_split_ws_single(t: Seq<char>, c: char)
    requires
        t.len() > 0,
        forall|j: int| 0 <= j < t.len() ==> !#[trigger] is_whitespace(t[j]),
        is_whitespace(c),
    ensures
        split_ws(t.push(c)) == seq![t],
{
    let s = t.push(c);
    assert(!is_whitespace(s[0]));
    assert forall|j: int| 0 <= j < t.len() implies !#[trigger] is_whitespace(s[j]) by {
        assert(s[j] == t[j]);
    }
    lemma_run_len_exact(s, t.len() as int);
    assert(s.take(t.len() as int) =~= t);
    let rest = s.skip(t.len() as int);
    assert(rest =~= seq![c]);
    assert(rest.drop_first() =~= Seq::<char>::empty());
    assert(split_ws(rest.drop_first()) =~= Seq::<Seq<char>>::empty());
    assert(is_whitespace(rest[0]));
    assert(split_ws(rest) =~= Seq::<Seq<char>>::empty());
    assert(split_ws(s) =~= seq![t]);
}

// ---------------------------------------------------------------------------
// The written text
// ---------------------------------------------------------------------------

/// A decimal spelling as characters.
pub open spec fn dec(n: nat) -> Seq<char> {
    ascii_chars(decimal_bytes(n))
}

proof fn lemma_dec_token(n: nat)
    ensures
        dec(n).len() > 0,
        forall|j: int| 0 <= j < dec(n).len() ==> !#[trigger] is_whitespace(dec(n)[j]),
        forall|j: int| 0 <= j < dec(n).len() ==> #[trigger] dec(n)[j] != '#',
{
    lemma_decimal_digits(n);
    assert forall|j: int| 0 <= j < dec(n).len() implies !#[trigger] is_whitespace(dec(n)[j]) by {
        assert(is_digit(dec(n)[j]));
    }
    assert forall|j: int| 0 <= j < dec(n).len() implies #[trigger] dec(n)[j] != '#' by {
        assert(is_digit(dec(n)[j]));
    }
}

/// A token followed by one whitespace character, as the writer emits it.
proof fn lemma_token_then(n: nat, sep: u8, rest: Seq<u8>)
    requires
        is_whitespace(sep as char),
    ensures
        split_ws(ascii_chars(decimal_bytes(n) + seq![sep] + rest)) == seq![dec(n)] + split_ws(
            ascii_chars(rest),
        ),
{
    lemma_dec_token(n);
    let a = ascii_chars(decimal_bytes(n) + seq![sep]);
    assert(a =~= dec(n).push(sep as char));
    lemma_split_ws_single(dec(n), sep as char);
    lemma_ascii_chars_add(decimal_bytes(n) + seq![sep], rest);
    lemma_split_ws_append(a, ascii_chars(rest));
}

/// The tokens of the pixel lines: three decimal numbers per pixel.
pub open spec fn pixel_tokens(pixels: Seq<Rgb8>) -> Seq<Seq<char>>
    decreases pixels.len(),
{
    if pixels.len() == 0 {
        Seq::empty()
    } else {
        pixel_tokens(pixels.drop_last()) + seq![
            dec(pixels.last().0 as nat),
            dec(pixels.last().1 as nat),
            dec(pixels.last().2 as nat),
        ]
    }
}

proof fn lemma_pixel_line_tokens(p: Rgb8)
    ensures
        split_ws(ascii_chars(pixel_line(p))) == seq![
            dec(p.0 as nat),
            dec(p.1 as nat),
            dec(p.2 as nat),
        ],
{
    let d0 = decimal_bytes(p.0 as nat);
    let d1 = decimal_bytes(p.1 as nat);
    let d2 = decimal_bytes(p.2 as nat);
    let tail2 = d2 + seq![NEWLINE] + Seq::<u8>::empty();
    let tail1 = d1 + seq![SPACE] + tail2;
    assert(pixel_line(p) =~= d0 + seq![SPACE] + tail1);
    assert(ascii_chars(Seq::<u8>::empty()) =~= Seq::<char>::empty());
    assert(split_ws(Seq::<char>::empty()) =~= Seq::<Seq<char>>::empty());
    lemma_token_then(p.2 as nat, NEWLINE, Seq::<u8>::empty());
    lemma_token_then(p.1 as nat, SPACE, tail2);
    lemma_token_then(p.0 as nat, SPACE, tail1);
}

proof fn lemma_pixel_lines_tokens(pixels: Seq<Rgb8>)
    ensures
        split_ws(ascii_chars(pixel_lines(pixels))) == pixel_tokens(pixels),
        pixels.len() > 0 ==> is_whitespace(ascii_chars(pixel_lines(pixels)).last()),
        pixels.len() > 0 ==> ascii_chars(pixel_lines(pixels)).len() > 0,
    decreases pixels.len(),
{
    if pixels.len() == 0 {
        assert(ascii_chars(pixel_lines(pixels)) =~= Seq::<char>::empty());
    } else {
        let init = pixels.drop_last();
        lemma_pixel_lines_tokens(init);
        lemma_pixel_line_tokens(pixels.last());
        lemma_ascii_chars_add(pixel_lines(init), pixel_line(pixels.last()));
        let line = ascii_chars(pixel_line(pixels.last()));
        assert(line.last() == NEWLINE as char);
        if init.len() == 0 {
            assert(ascii_chars(pixel_lines(init)) =~= Seq::<char>::empty());
            assert(ascii_chars(pixel_lines(pixels)) =~= line);
        } else {
            lemma_split_ws_append(ascii_chars(pixel_lines(init)), line);
        }
    }
}

proof fn lemma_header_tokens(width: nat, height: nat)
    ensures
        split_ws(ascii_chars(ppm_header(width, height))) == seq![
            p3_magic(),
            dec(width),
            dec(height),
            dec(255),
        ],
        is_whitespace(ascii_chars(ppm_header(width, height)).last()),
        ascii_chars(ppm_header(width, height)).len() > 0,
{
    reveal_with_fuel(decimal_bytes, 3);
    assert(decimal_bytes(255) =~= seq![DIGIT_2, DIGIT_5, DIGIT_5]);
    let magic_bytes = seq![LETTER_P, DIGIT_3];
    assert(ascii_chars(magic_bytes) =~= p3_magic());
    let t3 = decimal_bytes(255) + seq![NEWLINE] + Seq::<u8>::empty();
    let t2 = decimal_bytes(height) + seq![NEWLINE] + t3;
    let t1 = decimal_bytes(width) + seq![SPACE] + t2;
    assert(ppm_header(width, height) =~= magic_bytes + seq![NEWLINE] + t1);
    assert(ascii_chars(Seq::<u8>::empty()) =~= Seq::<char>::empty());
    assert(split_ws(Seq::<char>::empty()) =~= Seq::<Seq<char>>::empty());
    lemma_token_then(255, NEWLINE, Seq::<u8>::empty());
    lemma_token_then(height, NEWLINE, t3);
    lemma_token_then(width, SPACE, t2);
    // The magic token.
    let m = ascii_chars(magic_bytes + seq![NEWLINE]);
    assert(m =~= p3_magic().push('\n'));
    lemma_split_ws_single(p3_magic(), '\n');
    lemma_ascii_chars_add(magic_bytes + seq![NEWLINE], t1);
    lemma_split_ws_append(m, ascii_chars(t1));
}

/// The written text holds no `#`, so nothing in it is a comment.
proof fn lemma_no_comments(s: Seq<char>)
    requires
        forall|j: int| 0 <= j < s.len() ==> #[trigger] s[j] != '#',
    ensures
        decommented(s) == s,
{
    assert forall|n: int| 0 <= n <= s.len() implies !#[trigger] comment_open(s, n) by {
        lemma_comment_closed(s, n);
    }
    assert forall|i: int| 0 <= i < s.len() implies !#[trigger] in_comment(s, i) by {
        assert(!comment_open(s, i));
    }
    assert(decommented(s) =~= s);
}

proof fn lemma_comment_closed(s: Seq<char>, n: int)
    requires
        forall|j: int| 0 <= j < s.len() ==> #[trigger] s[j] != '#',
        n <= s.len(),
    ensures
        !comment_open(s, n),
    decreases n,
{
    if n > 0 {
        assert(s[n - 1] != '#');
        lemma_comment_closed(s, n - 1);
    }
}

/// No character of `s` is `#`.
pub open spec fn hash_free(s: Seq<char>) -> bool {
    forall|j: int| 0 <= j < s.len() ==> #[trigger] s[j] != '#'
}

proof fn lemma_hash_free_add(a: Seq<char>, b: Seq<char>)
    requires
        hash_free(a),
        hash_free(b),
    ensures
        hash_free(a + b),
{
    assert forall|j: int| 0 <= j < (a + b).len() implies #[trigger] (a + b)[j] != '#' by {
        if j < a.len() {
            assert((a + b)[j] == a[j]);
        } else {
            assert((a + b)[j] == b[j - a.len()]);
        }
    }
}

proof fn lemma_dec_hash_free(n: nat)
    ensures
        hash_free(dec(n)),
{
    lemma_dec_token(n);
}

proof fn lemma_byte_hash_free(b: u8)
    requires
        b != 35,
    ensures
        hash_free(ascii_chars(seq![b])),
{
    let s = ascii_chars(seq![b]);
    assert(s.len() == 1);
    assert(s[0] == b as char);
}

proof fn lemma_header_hash_free(width: nat, height: nat)
    ensures
        hash_free(ascii_chars(ppm_header(width, height))),
{
    let pieces = seq![LETTER_P, DIGIT_3, NEWLINE];
    let tail = seq![DIGIT_2, DIGIT_5, DIGIT_5, NEWLINE];
    let h = ascii_chars(pieces);
    assert forall|j: int| 0 <= j < h.len() implies #[trigger] h[j] != '#' by {
        assert(h[j] == pieces[j] as char);
    }
    let t = ascii_chars(tail);
    assert forall|j: int| 0 <= j < t.len() implies #[trigger] t[j] != '#' by {
        assert(t[j] == tail[j] as char);
    }
    lemma_dec_hash_free(width);
    lemma_dec_hash_free(height);
    lemma_byte_hash_free(SPACE);
    lemma_byte_hash_free(NEWLINE);
    lemma_ascii_chars_add(pieces, decimal_bytes(width));
    lemma_ascii_chars_add(pieces + decimal_bytes(width), seq![SPACE]);
    lemma_ascii_chars_add(pieces + decimal_bytes(width) + seq![SPACE], decimal_bytes(height));
    lemma_ascii_chars_add(
        pieces + decimal_bytes(width) + seq![SPACE] + decimal_bytes(height),
        seq![NEWLINE],
    );
    lemma_ascii_chars_add(
        pieces + decimal_bytes(width) + seq![SPACE] + decimal_bytes(height) + seq![NEWLINE],
        tail,
    );
    lemma_hash_free_add(h, dec(width));
    lemma_hash_free_add(h + dec(width), ascii_chars(seq![SPACE]));
    lemma_hash_free_add(h + dec(width) + ascii_chars(seq![SPACE]), dec(height));
    lemma_hash_free_add(
        h + dec(width) + ascii_chars(seq![SPACE]) + dec(height),
        ascii_chars(seq![NEWLINE]),
    );
    lemma_hash_free_add(
        h + dec(width) + ascii_chars(seq![SPACE]) + dec(height) + ascii_chars(seq![NEWLINE]),
        t,
    );
}

proof fn lemma_line_hash_free(p: Rgb8)
    ensures
        hash_free(ascii_chars(pixel_line(p))),
{
    let d0 = decimal_bytes(p.0 as nat);
    let d1 = decimal_bytes(p.1 as nat);
    let d2 = decimal_bytes(p.2 as nat);
    lemma_dec_hash_free(p.0 as nat);
    lemma_dec_hash_free(p.1 as nat);
    lemma_dec_hash_free(p.2 as nat);
    lemma_byte_hash_free(SPACE);
    lemma_byte_hash_free(NEWLINE);
    lemma_ascii_chars_add(d0, seq![SPACE]);
    lemma_ascii_chars_add(d0 + seq![SPACE], d1);
    lemma_ascii_chars_add(d0 + seq![SPACE] + d1, seq![SPACE]);
    lemma_ascii_chars_add(d0 + seq![SPACE] + d1 + seq![SPACE], d2);
    lemma_ascii_chars_add(d0 + seq![SPACE] + d1 + seq![SPACE] + d2, seq![NEWLINE]);
    let c0 = dec(p.0 as nat);
    let sp = ascii_chars(seq![SPACE]);
    lemma_hash_free_add(c0, sp);
    lemma_hash_free_add(c0 + sp, dec(p.1 as nat));
    lemma_hash_free_add(c0 + sp + dec(p.1 as nat), sp);
    lemma_hash_free_add(c0 + sp + dec(p.1 as nat) + sp, dec(p.2 as nat));
    lemma_hash_free_add(
        c0 + sp + dec(p.1 as nat) + sp + dec(p.2 as nat),
        ascii_chars(seq![NEWLINE]),
    );
}

proof fn lemma_lines_hash_free(pixels: Seq<Rgb8>)
    ensures
        hash_free(ascii_chars(pixel_lines(pixels))),
    decreases pixels.len(),
{
    if pixels.len() == 0 {
        assert(ascii_chars(pixel_lines(pixels)) =~= Seq::<char>::empty());
    } else {
        lemma_lines_hash_free(pixels.drop_last());
        lemma_line_hash_free(pixels.last());
        lemma_ascii_chars_add(pixel_lines(pixels.drop_last()), pixel_line(pixels.last()));
        lemma_hash_free_add(
            ascii_chars(pixel_lines(pixels.drop_last())),
            ascii_chars(pixel_line(pixels.last())),
        );
    }
}

proof fn lemma_pixel_tokens_index(pixels: Seq<Rgb8>)
    ensures
        pixel_tokens(pixels).len() == 3 * pixels.len(),
        forall|i: int, c: int|
            0 <= i < pixels.len() && 0 <= c < 3 ==> #[trigger] pixel_tokens(pixels)[3 * i + c]
                == dec(channel(#[trigger] pixels[i], c) as nat),
    decreases pixels.len(),
{
    if pixels.len() > 0 {
        let init = pixels.drop_last();
        lemma_pixel_tokens_index(init);
        let t = pixel_tokens(pixels);
        assert forall|i: int, c: int| 0 <= i < pixels.len() && 0 <= c < 3 implies #[trigger] t[3
            * i + c] == dec(channel(#[trigger] pixels[i], c) as nat) by {
            if i < init.len() {
                assert(pixels[i] == init[i]);
                assert(t[3 * i + c] == pixel_tokens(init)[3 * i + c]);
            }
        }
    }
}

/// Samples written as decimal tokens read back as themselves.
proof fn lemma_samples_read_back(toks: Seq<Seq<char>>, pixels: Seq<Rgb8>, m: nat)
    requires
        toks.len() == 4 + 3 * pixels.len(),
        forall|i: int, c: int|
            0 <= i < pixels.len() && 0 <= c < 3 ==> #[trigger] toks[4 + 3 * i + c] == dec(
                channel(#[trigger] pixels[i], c) as nat,
            ),
        m <= 3 * pixels.len(),
    ensures
        first_sample_error(toks, m) is None,
        forall|k: int|
            0 <= k < m ==> #[trigger] sample_token(toks, k) == Ok::<usize, PpmErrorSpec>(
                pixel_samples(pixels)[k],
            ),
    decreases m,
{
    if m > 0 {
        lemma_samples_read_back(toks, pixels, (m - 1) as nat);
        let k = m - 1;
        let i = k / 3;
        let c = k % 3;
        assert(k == 3 * i + c && 0 <= c < 3 && 0 <= i < pixels.len());
        let v = channel(pixels[i], c);
        assert(toks[4 + 3 * i + c] == dec(channel(pixels[i], c) as nat));
        assert(toks[4 + k] == dec(v as nat));
        lemma_parse_decimal_roundtrip(v as nat, usize::MAX as nat);
        assert(sample_token(toks, k) == Ok::<usize, PpmErrorSpec>(v as usize));
    }
}

/// Reading back a written P3 image gives the written width and height, the
/// maximum sample value 255 and the written pixels: the reader and the writer
/// agree on the format. Images with a zero width or height are refused by the
/// reader, so they are left out.
pub proof fn lemma_ppm_roundtrip(width: u32, height: u32, pixels: Seq<Rgb8>)
    requires
        width > 0,
        height > 0,
        pixels.len() == width as int * height as int,
    ensures
        spec_read_ppm(ascii_chars(ppm_p3(width as nat, height as nat, pixels))) == Ok::<
            PpmImageSpec,
            PpmErrorSpec,
        >(
            PpmImageSpec {
                width: width as usize,
                height: height as usize,
                maxval: 255,
                samples: pixel_samples(pixels),
            },
        ),
{
    let header = ascii_chars(ppm_header(width as nat, height as nat));
    let lines = ascii_chars(pixel_lines(pixels));
    let text = ascii_chars(ppm_p3(width as nat, height as nat, pixels));
    lemma_ascii_chars_add(ppm_header(width as nat, height as nat), pixel_lines(pixels));
    assert(text == header + lines);
    lemma_header_hash_free(width as nat, height as nat);
    lemma_lines_hash_free(pixels);
    lemma_hash_free_add(header, lines);
    lemma_no_comments(text);
    lemma_header_tokens(width as nat, height as nat);
    lemma_pixel_lines_tokens(pixels);
    lemma_split_ws_append(header, lines);
    let toks = ppm_tokens(text);
    let pt = pixel_tokens(pixels);
    assert(toks == seq![p3_magic(), dec(width as nat), dec(height as nat), dec(255)] + pt);
    lemma_pixel_tokens_index(pixels);
    assert(toks.len() == 4 + 3 * pixels.len());
    assert forall|i: int, c: int| 0 <= i < pixels.len() && 0 <= c < 3 implies #[trigger] toks[4
        + 3 * i + c] == dec(channel(#[trigger] pixels[i], c) as nat) by {
        assert(toks[4 + 3 * i + c] == pt[3 * i + c]);
    }
    lemma_parse_decimal_roundtrip(width as nat, usize::MAX as nat);
    lemma_parse_decimal_roundtrip(height as nat, usize::MAX as nat);
    lemma_parse_decimal_roundtrip(255, usize::MAX as nat);
    assert(token_value(toks, 1, PpmField::Width) == Ok::<usize, PpmErrorSpec>(width as usize));
    assert(token_value(toks, 2, PpmField::Height) == Ok::<usize, PpmErrorSpec>(height as usize));
    assert(token_value(toks, 3, PpmField::Maxval) == Ok::<usize, PpmErrorSpec>(255));
    let n = (3 * (width as usize) * (height as usize)) as nat;
    assert(n == 3 * pixels.len()) by (nonlinear_arith)
        requires
            n == 3 * (width as int) * (height as int),
            pixels.len() == width as int * height as int,
    ;
    lemma_samples_read_back(toks, pixels, n);
    let vals = sample_values(toks, 255, n);
    assert forall|k: int| 0 <= k < n implies #[trigger] vals[k] == pixel_samples(pixels)[k] by {
        assert(sample_token(toks, k) == Ok::<usize, PpmErrorSpec>(pixel_samples(pixels)[k]));
        assert(pixel_samples(pixels)[k] <= 255);
    }
    assert(vals =~= pixel_samples(pixels));
}

} // verus!
