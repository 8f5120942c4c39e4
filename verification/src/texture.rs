//! ASCII P3 PPM texture reader: `P3` magic, `width height`, `maxval`, then
//! `width * height` `R G B` triples. `#` starts a comment that runs to the end
//! of the line. Samples are kept as integers clamped to `maxval`; a sample `s`
//! stands for the intensity `s / maxval` in `[0, 1]`.

use vstd::prelude::*;
use crate::decimal::{parse_unsigned, spec_parse_unsigned};
use crate::text::{chars_of, push_chars, push_text};

verus! {

// ---------------------------------------------------------------------------
// Tokens
// ---------------------------------------------------------------------------

/// `char::is_whitespace`: the Unicode `White_Space` characters.
pub open spec fn is_whitespace(c: char) -> bool {
    ||| '\u{9}' <= c && c <= '\u{d}'
    ||| c == ' '
    ||| c == '\u{85}'
    ||| c == '\u{a0}'
    ||| c == '\u{1680}'
    ||| '\u{2000}' <= c && c <= '\u{200a}'
    ||| c == '\u{2028}'
    ||| c == '\u{2029}'
    ||| c == '\u{202f}'
    ||| c == '\u{205f}'
    ||| c == '\u{3000}'
}

/// Whether a comment is still open after the first `n` characters of `s`: a
/// `#` opens one and the end of its line closes it.
pub open spec fn comment_open(s: Seq<char>, n: int) -> bool
    decreases n,
{
    if n <= 0 {
        false
    } else if s[n - 1] == '\n' {
        false
    } else if s[n - 1] == '#' {
        true
    } else {
        comment_open(s, n - 1)
    }
}

/// Whether the character at `i` belongs to a comment.
pub open spec fn in_comment(s: Seq<char>, i: int) -> bool {
    s[i] != '\n' && (s[i] == '#' || comment_open(s, i))
}

/// `s` with every comment character replaced by a space.
pub open spec fn decommented(s: Seq<char>) -> Seq<char> {
    Seq::new(s.len(), |i: int| if in_comment(s, i) { ' ' } else { s[i] })
}

/// The number of characters before the first whitespace character.
pub open spec fn run_len(s: Seq<char>) -> nat
    decreases s.len(),
{
    if s.len() == 0 || is_whitespace(s[0]) {
        0
    } else {
        1 + run_len(s.drop_first())
    }
}

/// The maximal runs of non-whitespace characters, in order (`split_whitespace`).
pub open spec fn split_ws(s: Seq<char>) -> Seq<Seq<char>>
    decreases s.len(),
{
    if s.len() == 0 {
        Seq::empty()
    } else if is_whitespace(s[0]) {
        split_ws(s.drop_first())
    } else {
        let n = run_len(s);
        proof {
            lemma_run_len_bounds(s);
        }
        seq![s.take(n as int)] + split_ws(s.skip(n as int))
    }
}

/// The tokens of a PPM text: comments dropped, split at whitespace.
pub open spec fn ppm_tokens(text: Seq<char>) -> Seq<Seq<char>> {
    split_ws(decommented(text))
}

/// A leading run is no longer than the text, and nonempty when the text
/// starts with a non-whitespace character.
pub proof fn lemma_run_len_bounds(s: Seq<char>)
    ensures
        run_len(s) <= s.len(),
        s.len() > 0 && !is_whitespace(s[0]) ==> run_len(s) >= 1,
    decreases s.len(),
{
    if s.len() > 0 && !is_whitespace(s[0]) {
        lemma_run_len_bounds(s.drop_first());
    }
}

/// A run of `k` non-whitespace characters ended by whitespace or by the end.
pub proof fn lemma_run_len_exact(s: Seq<char>, k: int)
    requires
        0 <= k <= s.len(),
        forall|j: int| 0 <= j < k ==> !#[trigger] is_whitespace(s[j]),
        k == s.len() || is_whitespace(s[k]),
    ensures
        run_len(s) == k,
    decreases k,
{
    if k > 0 {
        assert(!is_whitespace(s[0]));
        let t = s.drop_first();
        assert forall|j: int| 0 <= j < k - 1 implies !#[trigger] is_whitespace(t[j]) by {
            assert(t[j] == s[j + 1]);
        }
        lemma_run_len_exact(t, k - 1);
    }
}

/// `char::is_whitespace`.
pub fn is_whitespace_char(c: char) -> (b: bool)
    ensures
        b == is_whitespace(c),
{
    ('\u{9}' <= c && c <= '\u{d}') || c == ' ' || c == '\u{85}' || c == '\u{a0}' || c
        == '\u{1680}' || ('\u{2000}' <= c && c <= '\u{200a}') || c == '\u{2028}' || c == '\u{2029}'
        || c == '\u{202f}' || c == '\u{205f}' || c == '\u{3000}'
}

/// Replaces every comment character of `text` with a space.
fn strip_comments(text: &[char]) -> (res: Vec<char>)
    ensures
        res@ == decommented(text@),
{
    let mut res: Vec<char> = Vec::new();
    let mut open = false;
    let mut i: usize = 0;
    while i < text.len()
        invariant
            i <= text@.len(),
            open == comment_open(text@, i as int),
            res@ == decommented(text@).take(i as int),
        decreases text@.len() - i,
    {
        let c = text[i];
        let blank = c != '\n' && (c == '#' || open);
        res.push(if blank { ' ' } else { c });
        open = if c == '\n' { false } else if c == '#' { true } else { open };
        assert(decommented(text@).take(i + 1) =~= decommented(text@).take(i as int).push(
            decommented(text@)[i as int],
        ));
        i = i + 1;
    }
    assert(decommented(text@).take(i as int) =~= decommented(text@));
    res
}

/// Splits `s` at whitespace into its maximal non-whitespace runs.
fn split_whitespace(s: &[char]) -> (tokens: Vec<Vec<char>>)
    ensures
        token_views(tokens@) == split_ws(s@),
{
    let mut tokens: Vec<Vec<char>> = Vec::new();
    let mut i: usize = 0;
    assert(s@.skip(0) =~= s@);
    while i < s.len()
        invariant
            i <= s@.len(),
            token_views(tokens@) + split_ws(s@.skip(i as int)) == split_ws(s@),
        decreases s@.len() - i,
    {
        let rest = Ghost(s@.skip(i as int));
        if is_whitespace_char(s[i]) {
            assert(rest@.drop_first() =~= s@.skip(i + 1));
            i = i + 1;
        } else {
            let start = i;
            let mut token: Vec<char> = Vec::new();
            while i < s.len() && !is_whitespace_char(s[i])
                invariant
                    start <= i <= s@.len(),
                    token@ == s@.subrange(start as int, i as int),
                    forall|j: int| start <= j < i ==> !#[trigger] is_whitespace(s@[j]),
                decreases s@.len() - i,
            {
                token.push(s[i]);
                assert(token@ =~= s@.subrange(start as int, i + 1));
                i = i + 1;
            }
            proof {
                let k = (i - start) as int;
                assert forall|j: int| 0 <= j < k implies !#[trigger] is_whitespace(rest@[j]) by {
                    assert(rest@[j] == s@[start + j]);
                }
                lemma_run_len_exact(rest@, k);
                assert(rest@.take(k) =~= token@);
                assert(rest@.skip(k) =~= s@.skip(i as int));
                assert(split_ws(rest@) == seq![token@] + split_ws(s@.skip(i as int)));
            }
            let ghost before = token_views(tokens@);
            let ghost old_tokens = tokens@;
            tokens.push(token);
            assert(tokens@ =~= old_tokens.push(token));
            assert(token_views(tokens@) =~= before.push(token@));
            assert(before + split_ws(rest@) =~= token_views(tokens@) + split_ws(s@.skip(i as int)));
        }
    }
    assert(s@.skip(i as int) =~= Seq::<char>::empty());
    assert(token_views(tokens@) + Seq::<Seq<char>>::empty() =~= token_views(tokens@));
    tokens
}

/// The character sequences held by a list of tokens.
pub open spec fn token_views(tokens: Seq<Vec<char>>) -> Seq<Seq<char>> {
    tokens.map_values(|t: Vec<char>| t@)
}

/// The tokens of a PPM text.
pub fn tokenize(text: &[char]) -> (tokens: Vec<Vec<char>>)
    ensures
        token_views(tokens@) == ppm_tokens(text@),
{
    let cleaned = strip_comments(text);
    split_whitespace(cleaned.as_slice())
}

// ---------------------------------------------------------------------------
// Images
// ---------------------------------------------------------------------------

/// A header field or sample that the reader expects next.
#[derive(Clone, Copy, Debug, PartialEq, Eq, Structural)]
pub enum PpmField {
    Width,
    Height,
    Maxval,
    PixelComponent,
}

/// Why a text is not a P3 image this reader accepts.
#[derive(Clone, Debug, PartialEq, Eq)]
pub enum PpmError {
    /// No token at all.
    Empty,
    /// The first token, which is not `P3`.
    UnsupportedFormat(Vec<char>),
    /// The text ended before this field.
    Missing(PpmField),
    /// This field's token is not an unsigned number that fits a `usize`.
    Invalid(PpmField, Vec<char>),
    /// Width or height is zero.
    ZeroDimension,
    /// The maximum sample value is zero.
    ZeroMaxval,
}

/// `PpmError` with its tokens as character sequences.
pub enum PpmErrorSpec {
    Empty,
    UnsupportedFormat(Seq<char>),
    Missing(PpmField),
    Invalid(PpmField, Seq<char>),
    ZeroDimension,
    ZeroMaxval,
}

impl View for PpmError {
    type V = PpmErrorSpec;

    open spec fn view(&self) -> PpmErrorSpec {
        match self {
            PpmError::Empty => PpmErrorSpec::Empty,
            PpmError::UnsupportedFormat(t) => PpmErrorSpec::UnsupportedFormat(t@),
            PpmError::Missing(f) => PpmErrorSpec::Missing(*f),
            PpmError::Invalid(f, t) => PpmErrorSpec::Invalid(*f, t@),
            PpmError::ZeroDimension => PpmErrorSpec::ZeroDimension,
            PpmError::ZeroMaxval => PpmErrorSpec::ZeroMaxval,
        }
    }
}

/// A decoded P3 image: `samples` holds `R G B` for each pixel, row-major
/// from the first scanline in the file, each sample clamped to `maxval`.
#[derive(Clone, Debug, PartialEq, Eq)]
pub struct PpmImage {
    pub width: usize,
    pub height: usize,
    pub maxval: usize,
    pub samples: Vec<usize>,
}

/// `PpmImage` with its samples as a sequence.
pub struct PpmImageSpec {
    pub width: usize,
    pub height: usize,
    pub maxval: usize,
    pub samples: Seq<usize>,
}

impl View for PpmImage {
    type V = PpmImageSpec;

    open spec fn view(&self) -> PpmImageSpec {
        PpmImageSpec {
            width: self.width,
            height: self.height,
            maxval: self.maxval,
            samples: self.samples@,
        }
    }
}

impl PpmImage {
    /// Nonzero dimensions and maximum, three samples per pixel, every sample
    /// at most `maxval`: what the reader produces.
    pub open spec fn wf(&self) -> bool {
        &&& self.width > 0
        &&& self.height > 0
        &&& self.maxval > 0
        &&& self.samples@.len() == 3 * self.width * self.height
        &&& forall|i: int| 0 <= i < self.samples@.len() ==> #[trigger] self.samples@[i] <= self.maxval
    }
}

/// `v` limited to at most `hi`.
pub open spec fn at_most(v: usize, hi: usize) -> usize {
    if v <= hi {
        v
    } else {
        hi
    }
}

/// The index of the red sample of pixel `(x, y)`, each coordinate first
/// limited to the last column / row.
pub open spec fn texel_index(width: usize, height: usize, x: usize, y: usize) -> int {
    3 * (at_most(y, (height - 1) as usize) * width + at_most(x, (width - 1) as usize))
}

impl PpmImage {
    /// Nearest-neighbour lookup: the `R G B` samples of pixel `(x, y)`, where a
    /// coordinate past the last column / row reads the last one.
    pub fn texel(&self, x: usize, y: usize) -> (rgb: (usize, usize, usize))
        requires
            self.wf(),
        ensures
            ({
                let i = texel_index(self.width, self.height, x, y);
                rgb == (self.samples@[i], self.samples@[i + 1], self.samples@[i + 2])
            }),
    {
        let cx = if x <= self.width - 1 { x } else { self.width - 1 };
        let cy = if y <= self.height - 1 { y } else { self.height - 1 };
        let len = self.samples.len();
        proof {
            assert(len == 3 * self.width * self.height);
            let w = self.width as int;
            let h = self.height as int;
            assert(0 <= cy * w <= cy * w + cx && 3 * (cy * w + cx) + 2 < 3 * w * h)
                by (nonlinear_arith)
                requires
                    0 <= cx < w,
                    0 <= cy < h,
            ;
        }
        let i = 3 * (cy * self.width + cx);
        (self.samples[i], self.samples[i + 1], self.samples[i + 2])
    }
}

/// The header value or sample at token `i`, parsed as `str::parse::<usize>`.
pub open spec fn token_value(toks: Seq<Seq<char>>, i: int, what: PpmField) -> Result<
    usize,
    PpmErrorSpec,
> {
    if i < 0 || i >= toks.len() {
        Err(PpmErrorSpec::Missing(what))
    } else {
        match spec_parse_unsigned(toks[i], usize::MAX as nat) {
            Some(v) => Ok(v as usize),
            None => Err(PpmErrorSpec::Invalid(what, toks[i])),
        }
    }
}

/// The `k`-th sample token (they follow the four header tokens).
pub open spec fn sample_token(toks: Seq<Seq<char>>, k: int) -> Result<usize, PpmErrorSpec> {
    token_value(toks, 4 + k, PpmField::PixelComponent)
}

/// The first failure among the first `n` samples, in file order.
pub open spec fn first_sample_error(toks: Seq<Seq<char>>, n: nat) -> Option<PpmErrorSpec>
    decreases n,
{
    if n == 0 {
        None
    } else {
        match first_sample_error(toks, (n - 1) as nat) {
            Some(e) => Some(e),
            None => match sample_token(toks, n - 1) {
                Err(e) => Some(e),
                Ok(_) => None,
            },
        }
    }
}

/// `v` clamped to at most `maxval`.
pub open spec fn clamp_sample(v: usize, maxval: usize) -> usize {
    if v <= maxval {
        v
    } else {
        maxval
    }
}

/// The first `n` samples, each clamped to `maxval`.
pub open spec fn sample_values(toks: Seq<Seq<char>>, maxval: usize, n: nat) -> Seq<usize> {
    Seq::new(
        n,
        |k: int|
            match sample_token(toks, k) {
                Ok(v) => clamp_sample(v, maxval),
                Err(_) => 0,
            },
    )
}

/// The token `P3`.
pub open spec fn p3_magic() -> Seq<char> {
    seq!['P', '3']
}

/// What reading a P3 image from its tokens gives: the magic `P3`, width,
/// height and maxval (each an unsigned number), then nonzero width, height
/// and maxval, then `3 * width * height` samples. The first failure, in that
/// order, is the error.
pub open spec fn spec_parse_ppm(toks: Seq<Seq<char>>) -> Result<PpmImageSpec, PpmErrorSpec> {
    if toks.len() == 0 {
        Err(PpmErrorSpec::Empty)
    } else if toks[0] != p3_magic() {
        Err(PpmErrorSpec::UnsupportedFormat(toks[0]))
    } else {
        match token_value(toks, 1, PpmField::Width) {
            Err(e) => Err(e),
            Ok(w) => match token_value(toks, 2, PpmField::Height) {
                Err(e) => Err(e),
                Ok(h) => match token_value(toks, 3, PpmField::Maxval) {
                    Err(e) => Err(e),
                    Ok(m) => if w == 0 || h == 0 {
                        Err(PpmErrorSpec::ZeroDimension)
                    } else if m == 0 {
                        Err(PpmErrorSpec::ZeroMaxval)
                    } else {
                        let n = (3 * w * h) as nat;
                        match first_sample_error(toks, n) {
                            Some(e) => Err(e),
                            None => Ok(
                                PpmImageSpec {
                                    width: w,
                                    height: h,
                                    maxval: m,
                                    samples: sample_values(toks, m, n),
                                },
                            ),
                        }
                    },
                },
            },
        }
    }
}

/// What reading a P3 image from a text gives.
pub open spec fn spec_read_ppm(text: Seq<char>) -> Result<PpmImageSpec, PpmErrorSpec> {
    spec_parse_ppm(ppm_tokens(text))
}

/// The lookup reads the pixel asked for when it is inside the image; a
/// column past the last reads the last column of the same row, and a row past
/// the last reads the last row of the same column. The three samples read are
/// always inside the image.
pub proof fn lemma_texel_index(width: usize, height: usize, x: usize, y: usize)
    requires
        width > 0,
        height > 0,
    ensures
        x < width && y < height ==> texel_index(width, height, x, y) == 3 * (y * width + x),
        x >= width && y < height ==> texel_index(width, height, x, y) == 3 * (y * width + width
            - 1),
        x < width && y >= height ==> texel_index(width, height, x, y) == 3 * ((height - 1) * width
            + x),
        x >= width && y >= height ==> texel_index(width, height, x, y) == 3 * (height * width - 1),
        0 <= texel_index(width, height, x, y),
        texel_index(width, height, x, y) + 2 < 3 * width * height,
{
    let cx = at_most(x, (width - 1) as usize) as int;
    let cy = at_most(y, (height - 1) as usize) as int;
    assert(0 <= cy * width + cx && 3 * (cy * width + cx) + 2 < 3 * width * height)
        by (nonlinear_arith)
        requires
            0 <= cx < width,
            0 <= cy < height,
    ;
    assert((height - 1) * width + width - 1 == height * width - 1) by (nonlinear_arith);
}

/// With no failure among the first `n` samples, each of them reads as a number.
proof fn lemma_no_sample_error(toks: Seq<Seq<char>>, n: nat, k: int)
    requires
        first_sample_error(toks, n) is None,
        0 <= k < n,
    ensures
        sample_token(toks, k) is Ok,
    decreases n,
{
    if k < n - 1 {
        lemma_no_sample_error(toks, (n - 1) as nat, k);
    }
}

/// What a successfully read image holds, in terms of the tokens: the magic
/// is `P3`; width, height and maxval are the numbers the second, third and
/// fourth tokens spell, all positive; there are `3 * width * height` samples,
/// and sample `k` is the number token `4 + k` spells, or `maxval` when that
/// number is larger.
pub proof fn lemma_parsed_image(toks: Seq<Seq<char>>)
    requires
        spec_parse_ppm(toks) is Ok,
    ensures
        ({
            let img = spec_parse_ppm(toks)->Ok_0;
            &&& toks[0] == p3_magic()
            &&& token_value(toks, 1, PpmField::Width) == Ok::<usize, PpmErrorSpec>(img.width)
            &&& token_value(toks, 2, PpmField::Height) == Ok::<usize, PpmErrorSpec>(img.height)
            &&& token_value(toks, 3, PpmField::Maxval) == Ok::<usize, PpmErrorSpec>(img.maxval)
            &&& img.width > 0 && img.height > 0 && img.maxval > 0
            &&& img.samples.len() == 3 * img.width * img.height
            &&& forall|k: int|
                0 <= k < img.samples.len() ==> match #[trigger] sample_token(toks, k) {
                    Ok(v) => img.samples[k] == (if v <= img.maxval {
                        v
                    } else {
                        img.maxval
                    }),
                    Err(_) => false,
                }
        }),
{
    let img = spec_parse_ppm(toks)->Ok_0;
    let n = (3 * img.width * img.height) as nat;
    assert forall|k: int| 0 <= k < img.samples.len() implies match #[trigger] sample_token(toks, k) {
        Ok(v) => img.samples[k] == (if v <= img.maxval {
            v
        } else {
            img.maxval
        }),
        Err(_) => false,
    } by {
        lemma_no_sample_error(toks, n, k);
    }
}

/// Once a sample has failed, the first failure stays the same however many
/// more samples are read.
proof fn lemma_first_sample_error_stable(toks: Seq<Seq<char>>, j: nat, n: nat)
    requires
        j <= n,
        first_sample_error(toks, j) is Some,
    ensures
        first_sample_error(toks, n) == first_sample_error(toks, j),
    decreases n,
{
    if n > j {
        lemma_first_sample_error_stable(toks, j, (n - 1) as nat);
    }
}

/// Parses the token at `pos` as the header value or sample `what`.
pub fn next_usize(tokens: &Vec<Vec<char>>, pos: usize, what: PpmField) -> (r: Result<
    usize,
    PpmError,
>)
    ensures
        match r {
            Ok(v) => token_value(token_views(tokens@), pos as int, what) == Ok::<usize, PpmErrorSpec>(v),
            Err(e) => token_value(token_views(tokens@), pos as int, what) == Err::<usize, PpmErrorSpec>(e@),
        },
{
    if pos >= tokens.len() {
        return Err(PpmError::Missing(what));
    }
    let raw = &tokens[pos];
    assert(token_views(tokens@)[pos as int] == raw@);
    match parse_unsigned(raw.as_slice(), usize::MAX) {
        Some(v) => Ok(v),
        None => Err(PpmError::Invalid(what, raw.clone())),
    }
}

/// Reads a P3 image from its tokens.
pub fn parse_ppm_tokens(tokens: &Vec<Vec<char>>) -> (r: Result<PpmImage, PpmError>)
    ensures
        match r {
            Ok(img) => spec_parse_ppm(token_views(tokens@)) == Ok::<PpmImageSpec, PpmErrorSpec>(img@)
                && img.wf(),
            Err(e) => spec_parse_ppm(token_views(tokens@)) == Err::<PpmImageSpec, PpmErrorSpec>(e@),
        },
{
    let ghost toks = token_views(tokens@);
    if tokens.len() == 0 {
        return Err(PpmError::Empty);
    }
    let magic = &tokens[0];
    assert(toks[0] == magic@);
    if !(magic.len() == 2 && magic[0] == 'P' && magic[1] == '3') {
        assert(magic@ != p3_magic()) by {
            if magic@ == p3_magic() {
                assert(magic@[0] == 'P' && magic@[1] == '3');
            }
        }
        return Err(PpmError::UnsupportedFormat(magic.clone()));
    }
    assert(magic@ =~= p3_magic());
    let width = next_usize(tokens, 1, PpmField::Width)?;
    let height = next_usize(tokens, 2, PpmField::Height)?;
    let maxval = next_usize(tokens, 3, PpmField::Maxval)?;
    if width == 0 || height == 0 {
        return Err(PpmError::ZeroDimension);
    }
    if maxval == 0 {
        return Err(PpmError::ZeroMaxval);
    }
    let ghost n = (3 * width * height) as nat;
    // All four header tokens are present here.
    let avail = tokens.len() - 4;
    let mut enough = false;
    let mut count = avail;
    if width <= avail / height {
        assert(width * height <= avail) by (nonlinear_arith)
            requires
                width <= avail / height,
                height > 0,
        ;
        let pixels = width * height;
        if pixels <= avail / 3 {
            enough = true;
            count = 3 * pixels;
        }
    }
    proof {
        if enough {
            assert(count == n) by (nonlinear_arith)
                requires
                    count == 3 * (width * height),
                    n == 3 * width * height,
            ;
        } else {
            assert(n > avail) by (nonlinear_arith)
                requires
                    !(width <= avail / height && width * height <= avail / 3),
                    height > 0,
                    width > 0,
                    n == 3 * width * height,
            ;
        }
    }
    let mut samples: Vec<usize> = Vec::new();
    let mut k: usize = 0;
    while k < count
        invariant
            toks == token_views(tokens@),
            toks.len() > 0,
            toks[0] == p3_magic(),
            token_value(toks, 1, PpmField::Width) == Ok::<usize, PpmErrorSpec>(width),
            token_value(toks, 2, PpmField::Height) == Ok::<usize, PpmErrorSpec>(height),
            token_value(toks, 3, PpmField::Maxval) == Ok::<usize, PpmErrorSpec>(maxval),
            width > 0,
            height > 0,
            n == 3 * width * height,
            tokens@.len() >= 4,
            tokens@.len() <= usize::MAX,
            count <= avail,
            avail == tokens@.len() - 4,
            enough ==> count == n,
            !enough ==> count == avail && n > avail,
            k <= count,
            maxval > 0,
            first_sample_error(toks, k as nat) is None,
            samples@ == sample_values(toks, maxval, k as nat),
        decreases count - k,
    {
        let v = match next_usize(tokens, 4 + k, PpmField::PixelComponent) {
            Ok(v) => v,
            Err(e) => {
                proof {
                    lemma_first_sample_error_stable(toks, (k + 1) as nat, n);
                }
                return Err(e);
            },
        };
        samples.push(if v <= maxval { v } else { maxval });
        assert(samples@ =~= sample_values(toks, maxval, (k + 1) as nat));
        k = k + 1;
    }
    if !enough {
        proof {
            assert(sample_token(toks, avail as int) == Err::<usize, PpmErrorSpec>(
                PpmErrorSpec::Missing(PpmField::PixelComponent),
            ));
            lemma_first_sample_error_stable(toks, (avail + 1) as nat, n);
        }
        return Err(PpmError::Missing(PpmField::PixelComponent));
    }
    let img = PpmImage { width, height, maxval, samples };
    assert(img@.samples =~= sample_values(toks, maxval, n));
    assert(img.samples@.len() == 3 * width * height);
    Ok(img)
}

/// Reads a P3 image from the text of a PPM file (see the module documentation).
pub fn parse_ppm_p3(text: &str) -> (r: Result<PpmImage, PpmError>)
    ensures
        match r {
            Ok(img) => spec_read_ppm(text@) == Ok::<PpmImageSpec, PpmErrorSpec>(img@) && img.wf(),
            Err(e) => spec_read_ppm(text@) == Err::<PpmImageSpec, PpmErrorSpec>(e@),
        },
{
    let chars = chars_of(text);
    let tokens = tokenize(chars.as_slice());
    parse_ppm_tokens(&tokens)
}

// ---------------------------------------------------------------------------
// Messages
// ---------------------------------------------------------------------------

/// How messages name a header field or sample.
pub open spec fn field_name(what: PpmField) -> Seq<char> {
    match what {
        PpmField::Width => "width"@,
        PpmField::Height => "height"@,
        PpmField::Maxval => "maxval"@,
        PpmField::PixelComponent => "pixel component"@,
    }
}

/// The message that reports `err` for the file at `path`.
pub open spec fn spec_error_message(path: Seq<char>, err: PpmErrorSpec) -> Seq<char> {
    match err {
        PpmErrorSpec::Empty => path + ": empty file"@,
        PpmErrorSpec::UnsupportedFormat(magic) => path + ": unsupported format '"@ + magic
            + "' (only P3 ASCII PPM is supported)"@,
        PpmErrorSpec::Missing(what) => path + ": missing "@ + field_name(what),
        PpmErrorSpec::Invalid(what, raw) => path + ": invalid "@ + field_name(what) + " '"@ + raw
            + "'"@,
        PpmErrorSpec::ZeroDimension => path + ": width/height must be > 0"@,
        PpmErrorSpec::ZeroMaxval => path + ": maxval must be > 0"@,
    }
}

/// The name messages use for `what`.
pub fn field_label(what: PpmField) -> (s: &'static str)
    ensures
        s@ == field_name(what),
{
    match what {
        PpmField::Width => "width",
        PpmField::Height => "height",
        PpmField::Maxval => "maxval",
        PpmField::PixelComponent => "pixel component",
    }
}

/// The message that reports `err` for the file at `path`, as characters.
pub fn error_message(path: &str, err: &PpmError) -> (msg: Vec<char>)
    ensures
        msg@ == spec_error_message(path@, err@),
{
    let mut msg = chars_of(path);
    match err {
        PpmError::Empty => push_text(&mut msg, ": empty file"),
        PpmError::UnsupportedFormat(magic) => {
            push_text(&mut msg, ": unsupported format '");
            push_chars(&mut msg, magic.as_slice());
            push_text(&mut msg, "' (only P3 ASCII PPM is supported)");
        },
        PpmError::Missing(what) => {
            push_text(&mut msg, ": missing ");
            push_text(&mut msg, field_label(*what));
        },
        PpmError::Invalid(what, raw) => {
            push_text(&mut msg, ": invalid ");
            push_text(&mut msg, field_label(*what));
            push_text(&mut msg, " '");
            push_chars(&mut msg, raw.as_slice());
            push_text(&mut msg, "'");
        },
        PpmError::ZeroDimension => push_text(&mut msg, ": width/height must be > 0"),
        PpmError::ZeroMaxval => push_text(&mut msg, ": maxval must be > 0"),
    }
    msg
}

} // verus!
