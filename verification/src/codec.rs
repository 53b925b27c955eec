//! The key codec: a canonical, URL-safe, reversible rendering of a
//! derivative request as a token.
//!
//! A token is `r` or `b` for the transform kind, the transform's numeric
//! fields in fixed-width lowercase hexadecimal, one code character per
//! enumeration field, and the source path as six hexadecimal digits per
//! character.  Every character of a token is a lowercase letter or digit,
//! so tokens survive transport in request paths unescaped.  Parsing
//! accepts exactly the tokens the encoder produces: decoding is proved to
//! invert encoding, and any accepted string is proved to be the encoding
//! of the value decoded from it.
use crate::hex::{
    hex_seq, lemma_hex_canonical, lemma_hex_round_trip, parse_hex_range, parse_hex_seq, pow16,
    push_hex,
};
use crate::request::{
    valid_model, Blur, CachedImage, CachedImageModel, CachedImageOption, Filter, Resize,
    ResizeType,
};
use crate::strutil::{char_from_u32, push_char};
use vstd::prelude::*;

verus! {

/// Failure of [`decode`]: the string is not a token the encoder produces.
#[derive(Clone, Copy, Debug, PartialEq, Eq, Structural)]
pub enum DecodeError {
    Malformed,
}

/// The code character of a resampling filter.
pub open spec fn filter_code(f: Filter) -> char {
    match f {
        Filter::Nearest => 'n',
        Filter::Triangle => 't',
        Filter::CatmullRom => 'c',
        Filter::Gaussian => 'g',
        Filter::Lanczos3 => 'l',
    }
}

/// The filter encoded by a code character, if any.
pub open spec fn filter_of_code(c: char) -> Option<Filter> {
    if c == 'n' {
        Some(Filter::Nearest)
    } else if c == 't' {
        Some(Filter::Triangle)
    } else if c == 'c' {
        Some(Filter::CatmullRom)
    } else if c == 'g' {
        Some(Filter::Gaussian)
    } else if c == 'l' {
        Some(Filter::Lanczos3)
    } else {
        None
    }
}

/// The code character of a resize mode.
pub open spec fn mode_code(t: ResizeType) -> char {
    match t {
        ResizeType::Fit => 'f',
        ResizeType::Cover => 'c',
        ResizeType::Thumbnail => 't',
    }
}

/// The resize mode encoded by a code character, if any.
pub open spec fn mode_of_code(c: char) -> Option<ResizeType> {
    if c == 'f' {
        Some(ResizeType::Fit)
    } else if c == 'c' {
        Some(ResizeType::Cover)
    } else if c == 't' {
        Some(ResizeType::Thumbnail)
    } else {
        None
    }
}

/// The source path rendered as six hexadecimal digits per character.
pub open spec fn src_hex(s: Seq<char>) -> Seq<char>
    decreases s.len(),
{
    if s.len() == 0 {
        Seq::empty()
    } else {
        src_hex(s.drop_last()) + hex_seq(s.last() as u32 as int, 6)
    }
}

/// The canonical token of a request.
pub open spec fn token_spec(m: CachedImageModel) -> Seq<char> {
    match m.option {
        CachedImageOption::Resize(r) => seq!['r'] + hex_seq(r.width as int, 8) + hex_seq(
            r.height as int,
            8,
        ) + hex_seq(r.quality as int, 2) + seq![filter_code(r.filter)] + seq![
            mode_code(r.resize_type),
        ] + src_hex(m.src),
        CachedImageOption::Blur(b) => seq!['b'] + hex_seq(b.width as int, 8) + hex_seq(
            b.height as int,
            8,
        ) + hex_seq(b.svg_width as int, 8) + hex_seq(b.svg_height as int, 8) + hex_seq(
            b.sigma as int,
            8,
        ) + src_hex(m.src),
    }
}

/// The source path encoded in a run of six-digit chunks, or `None` if the
/// run is not a whole number of chunks, a chunk is not hexadecimal, or a
/// chunk is no Unicode scalar value.
pub open spec fn decode_src_hex(s: Seq<char>) -> Option<Seq<char>>
    decreases s.len(),
{
    if s.len() == 0 {
        Some(Seq::empty())
    } else if s.len() < 6 {
        None
    } else {
        match decode_src_hex(s.subrange(0, s.len() - 6)) {
            Option::None => None,
            Option::Some(pre) => match parse_hex_seq(s.subrange(s.len() - 6, s.len() as int)) {
                Option::None => None,
                Option::Some(v) => if vstd::utf8::is_scalar(v as u32) {
                    Some(pre.push((v as u32) as char))
                } else {
                    None
                },
            },
        }
    }
}

/// The request encoded by a token beginning with `r`, if any.
pub open spec fn decode_resize_spec(s: Seq<char>) -> Option<CachedImageModel> {
    if s.len() < 21 {
        None
    } else {
        let w = parse_hex_seq(s.subrange(1, 9));
        let h = parse_hex_seq(s.subrange(9, 17));
        let q = parse_hex_seq(s.subrange(17, 19));
        let f = filter_of_code(s[19]);
        let t = mode_of_code(s[20]);
        let src = decode_src_hex(s.subrange(21, s.len() as int));
        if w is Some && h is Some && q is Some && f is Some && t is Some && src is Some {
            let m = CachedImageModel {
                src: src.unwrap(),
                option: CachedImageOption::Resize(
                    Resize {
                        width: w.unwrap() as u32,
                        height: h.unwrap() as u32,
                        quality: q.unwrap() as u8,
                        filter: f.unwrap(),
                        resize_type: t.unwrap(),
                    },
                ),
            };
            if valid_model(m) {
                Some(m)
            } else {
                None
            }
        } else {
            None
        }
    }
}

/// The request encoded by a token beginning with `b`, if any.
pub open spec fn decode_blur_spec(s: Seq<char>) -> Option<CachedImageModel> {
    if s.len() < 41 {
        None
    } else {
        let w = parse_hex_seq(s.subrange(1, 9));
        let h = parse_hex_seq(s.subrange(9, 17));
        let sw = parse_hex_seq(s.subrange(17, 25));
        let sh = parse_hex_seq(s.subrange(25, 33));
        let sg = parse_hex_seq(s.subrange(33, 41));
        let src = decode_src_hex(s.subrange(41, s.len() as int));
        if w is Some && h is Some && sw is Some && sh is Some && sg is Some && src is Some {
            let m = CachedImageModel {
                src: src.unwrap(),
                option: CachedImageOption::Blur(
                    Blur {
                        width: w.unwrap() as u32,
                        height: h.unwrap() as u32,
                        svg_width: sw.unwrap() as u32,
                        svg_height: sh.unwrap() as u32,
                        sigma: sg.unwrap() as u32,
                    },
                ),
            };
            if valid_model(m) {
                Some(m)
            } else {
                None
            }
        } else {
            None
        }
    }
}

/// The request encoded by a string, if any: the mathematical inverse of
/// [`token_spec`], and `None` on every other string.
pub open spec fn decode_spec(s: Seq<char>) -> Option<CachedImageModel> {
    if s.len() == 0 {
        None
    } else if s[0] == 'r' {
        decode_resize_spec(s)
    } else if s[0] == 'b' {
        decode_blur_spec(s)
    } else {
        None
    }
}

/// An `n`-digit rendering has `n` digits.
pub proof fn lemma_hex_seq_len(v: int, n: nat)
    ensures
        hex_seq(v, n).len() == n,
    decreases n,
{
    if n > 0 {
        lemma_hex_seq_len(v / 16, (n - 1) as nat);
    }
}

/// The source rendering has six digits per source character.
pub proof fn lemma_src_hex_len(s: Seq<char>)
    ensures
        src_hex(s).len() == 6 * s.len(),
    decreases s.len(),
{
    if s.len() > 0 {
        lemma_src_hex_len(s.drop_last());
        lemma_hex_seq_len(s.last() as u32 as int, 6);
    }
}

/// Decoding inverts the source rendering.
proof fn lemma_src_hex_round_trip(s: Seq<char>)
    ensures
        decode_src_hex(src_hex(s)) == Some(s),
    decreases s.len(),
{
    if s.len() == 0 {
        assert(src_hex(s).len() == 0);
    } else {
        let pre = s.drop_last();
        let c = s.last();
        lemma_src_hex_round_trip(pre);
        lemma_src_hex_len(pre);
        lemma_hex_seq_len(c as u32 as int, 6);
        let t = src_hex(s);
        assert(t.subrange(0, t.len() - 6) =~= src_hex(pre));
        assert(t.subrange(t.len() - 6, t.len() as int) =~= hex_seq(c as u32 as int, 6));
        assert(pow16(6) == 0x1000000) by {
            reveal_with_fuel(pow16, 7);
        }
        vstd::utf8::char_is_scalar(c);
        lemma_hex_round_trip(c as u32 as int, 6);
        vstd::utf8::char_u32_cast(c, c as u32);
        assert(pre.push(c) =~= s);
    }
}

/// Rendering inverts source decoding: an accepted run is the rendering of
/// the decoded path.
proof fn lemma_src_hex_canonical(s: Seq<char>, out: Seq<char>)
    requires
        decode_src_hex(s) == Some(out),
    ensures
        src_hex(out) == s,
        s.len() == 6 * out.len(),
    decreases s.len(),
{
    if s.len() == 0 {
        assert(src_hex(out) =~= s);
    } else {
        let front = s.subrange(0, s.len() - 6);
        let chunk = s.subrange(s.len() - 6, s.len() as int);
        let pre = decode_src_hex(front).unwrap();
        let v = parse_hex_seq(chunk).unwrap();
        lemma_src_hex_canonical(front, pre);
        lemma_hex_canonical(chunk, v);
        assert(pow16(6) == 0x1000000) by {
            reveal_with_fuel(pow16, 7);
        }
        let c = (v as u32) as char;
        assert(c as u32 == v as u32);
        assert(out == pre.push(c));
        assert(out.drop_last() =~= pre);
        assert(out.last() == c);
        assert(hex_seq(c as u32 as int, 6) == chunk);
        assert(src_hex(out) =~= s);
    }
}

/// A run whose length is not a whole number of chunks decodes to nothing.
proof fn lemma_decode_src_bad_len(s: Seq<char>)
    requires
        s.len() % 6 != 0,
    ensures
        decode_src_hex(s) is None,
    decreases s.len(),
{
    if s.len() >= 6 {
        lemma_decode_src_bad_len(s.subrange(0, s.len() - 6));
    }
}

/// A run that decodes to nothing still does with whole chunks appended.
proof fn lemma_decode_src_none_extends(a: Seq<char>, b: Seq<char>)
    requires
        decode_src_hex(a) is None,
        b.len() % 6 == 0,
    ensures
        decode_src_hex(a + b) is None,
    decreases b.len(),
{
    if b.len() == 0 {
        assert(a + b =~= a);
    } else {
        let b2 = b.subrange(0, b.len() - 6);
        lemma_decode_src_none_extends(a, b2);
        let t = a + b;
        assert(t.len() >= 6);
        assert(t.subrange(0, t.len() - 6) =~= a + b2);
    }
}

/// Decoding inverts encoding: the token of a valid request decodes back to
/// that request.
pub proof fn lemma_token_round_trip(m: CachedImageModel)
    requires
        valid_model(m),
    ensures
        decode_spec(token_spec(m)) == Some(m),
{
    let t = token_spec(m);
    lemma_src_hex_len(m.src);
    lemma_src_hex_round_trip(m.src);
    match m.option {
        CachedImageOption::Resize(r) => {
            lemma_hex_seq_len(r.width as int, 8);
            lemma_hex_seq_len(r.height as int, 8);
            lemma_hex_seq_len(r.quality as int, 2);
            assert(t.len() == 21 + 6 * m.src.len());
            assert(t[0] == 'r');
            assert(t.subrange(1, 9) =~= hex_seq(r.width as int, 8));
            assert(t.subrange(9, 17) =~= hex_seq(r.height as int, 8));
            assert(t.subrange(17, 19) =~= hex_seq(r.quality as int, 2));
            assert(t[19] == filter_code(r.filter));
            assert(t[20] == mode_code(r.resize_type));
            assert(t.subrange(21, t.len() as int) =~= src_hex(m.src));
            assert(pow16(8) == 0x100000000 && pow16(2) == 0x100) by {
                reveal_with_fuel(pow16, 9);
            }
            lemma_hex_round_trip(r.width as int, 8);
            lemma_hex_round_trip(r.height as int, 8);
            lemma_hex_round_trip(r.quality as int, 2);
            let m2 = decode_resize_spec(t).unwrap();
            assert(m2.src == m.src);
            assert(m2.option == m.option);
            assert(m2 == m);
        },
        CachedImageOption::Blur(b) => {
            lemma_hex_seq_len(b.width as int, 8);
            lemma_hex_seq_len(b.height as int, 8);
            lemma_hex_seq_len(b.svg_width as int, 8);
            lemma_hex_seq_len(b.svg_height as int, 8);
            lemma_hex_seq_len(b.sigma as int, 8);
            assert(t.len() == 41 + 6 * m.src.len());
            assert(t[0] == 'b');
            assert(t.subrange(1, 9) =~= hex_seq(b.width as int, 8));
            assert(t.subrange(9, 17) =~= hex_seq(b.height as int, 8));
            assert(t.subrange(17, 25) =~= hex_seq(b.svg_width as int, 8));
            assert(t.subrange(25, 33) =~= hex_seq(b.svg_height as int, 8));
            assert(t.subrange(33, 41) =~= hex_seq(b.sigma as int, 8));
            assert(t.subrange(41, t.len() as int) =~= src_hex(m.src));
            assert(pow16(8) == 0x100000000) by {
                reveal_with_fuel(pow16, 9);
            }
            lemma_hex_round_trip(b.width as int, 8);
            lemma_hex_round_trip(b.height as int, 8);
            lemma_hex_round_trip(b.svg_width as int, 8);
            lemma_hex_round_trip(b.svg_height as int, 8);
            lemma_hex_round_trip(b.sigma as int, 8);
            let m2 = decode_blur_spec(t).unwrap();
            assert(m2.src == m.src);
            assert(m2.option == m.option);
            assert(m2 == m);
        },
    }
}

/// Encoding inverts decoding: any accepted string is the token of the
/// decoded request, which is valid.  Decoding therefore accepts no string
/// the encoder cannot produce.
pub proof fn lemma_token_canonical(s: Seq<char>, m: CachedImageModel)
    requires
        decode_spec(s) == Some(m),
    ensures
        valid_model(m),
        token_spec(m) == s,
{
    if s[0] == 'r' {
        let w = parse_hex_seq(s.subrange(1, 9)).unwrap();
        let h = parse_hex_seq(s.subrange(9, 17)).unwrap();
        let q = parse_hex_seq(s.subrange(17, 19)).unwrap();
        let src = decode_src_hex(s.subrange(21, s.len() as int)).unwrap();
        lemma_hex_canonical(s.subrange(1, 9), w);
        lemma_hex_canonical(s.subrange(9, 17), h);
        lemma_hex_canonical(s.subrange(17, 19), q);
        lemma_src_hex_canonical(s.subrange(21, s.len() as int), src);
        assert(pow16(8) == 0x100000000 && pow16(2) == 0x100) by {
            reveal_with_fuel(pow16, 9);
        }
        let t = token_spec(m);
        lemma_hex_seq_len(w, 8);
        lemma_hex_seq_len(h, 8);
        lemma_hex_seq_len(q, 2);
        lemma_src_hex_len(src);
        assert(t =~= s);
    } else {
        let w = parse_hex_seq(s.subrange(1, 9)).unwrap();
        let h = parse_hex_seq(s.subrange(9, 17)).unwrap();
        let sw = parse_hex_seq(s.subrange(17, 25)).unwrap();
        let sh = parse_hex_seq(s.subrange(25, 33)).unwrap();
        let sg = parse_hex_seq(s.subrange(33, 41)).unwrap();
        let src = decode_src_hex(s.subrange(41, s.len() as int)).unwrap();
        lemma_hex_canonical(s.subrange(1, 9), w);
        lemma_hex_canonical(s.subrange(9, 17), h);
        lemma_hex_canonical(s.subrange(17, 25), sw);
        lemma_hex_canonical(s.subrange(25, 33), sh);
        lemma_hex_canonical(s.subrange(33, 41), sg);
        lemma_src_hex_canonical(s.subrange(41, s.len() as int), src);
        assert(pow16(8) == 0x100000000) by {
            reveal_with_fuel(pow16, 9);
        }
        let t = token_spec(m);
        lemma_hex_seq_len(w, 8);
        lemma_hex_seq_len(h, 8);
        lemma_hex_seq_len(sw, 8);
        lemma_hex_seq_len(sh, 8);
        lemma_hex_seq_len(sg, 8);
        lemma_src_hex_len(src);
        assert(t =~= s);
    }
}

/// Distinct valid requests have distinct tokens.
pub proof fn lemma_token_injective(m1: CachedImageModel, m2: CachedImageModel)
    requires
        valid_model(m1),
        valid_model(m2),
        token_spec(m1) == token_spec(m2),
    ensures
        m1 == m2,
{
    lemma_token_round_trip(m1);
    lemma_token_round_trip(m2);
}

/// Appends the source rendering of `src` to `out`.
fn push_src_hex(out: &mut String, src: &str)
    ensures
        final(out)@ == old(out)@ + src_hex(src@),
{
    let n = src.unicode_len();
    let mut i: usize = 0;
    while i < n
        invariant
            i <= n,
            n == src@.len(),
            out@ == old(out)@ + src_hex(src@.subrange(0, i as int)),
        decreases n - i,
    {
        let c = src.get_char(i);
        push_hex(out, c as u32, 6);
        proof {
            let p = src@.subrange(0, i + 1);
            assert(p.drop_last() =~= src@.subrange(0, i as int));
            assert(p.last() == c);
            assert(out@ =~= old(out)@ + src_hex(p));
        }
        i = i + 1;
    }
    proof {
        assert(src@.subrange(0, n as int) =~= src@);
    }
}

/// Encodes a valid request as its canonical token.
pub fn encode(img: &CachedImage) -> (r: String)
    requires
        valid_model(img@),
    ensures
        r@ == token_spec(img@),
{
    let mut out = String::new();
    match &img.option {
        CachedImageOption::Resize(rz) => {
            push_char(&mut out, 'r');
            proof {
                assert(out@ =~= seq!['r']);
            }
            push_hex(&mut out, rz.width, 8);
            push_hex(&mut out, rz.height, 8);
            push_hex(&mut out, rz.quality as u32, 2);
            push_char(&mut out, filter_code_exec(rz.filter));
            push_char(&mut out, mode_code_exec(rz.resize_type));
            proof {
                assert(out@ =~= seq!['r'] + hex_seq(rz.width as int, 8) + hex_seq(
                    rz.height as int,
                    8,
                ) + hex_seq(rz.quality as int, 2) + seq![filter_code(rz.filter)] + seq![
                    mode_code(rz.resize_type),
                ]);
            }
            push_src_hex(&mut out, self_src(img));
        },
        CachedImageOption::Blur(b) => {
            push_char(&mut out, 'b');
            proof {
                assert(out@ =~= seq!['b']);
            }
            push_hex(&mut out, b.width, 8);
            push_hex(&mut out, b.height, 8);
            push_hex(&mut out, b.svg_width, 8);
            push_hex(&mut out, b.svg_height, 8);
            push_hex(&mut out, b.sigma, 8);
            push_src_hex(&mut out, self_src(img));
        },
    }
    out
}

/// The source path of a request, as a string slice.
fn self_src(img: &CachedImage) -> (r: &str)
    ensures
        r@ == img@.src,
{
    img.src.as_str()
}

/// The exec counterpart of [`filter_code`].
fn filter_code_exec(f: Filter) -> (r: char)
    ensures
        r == filter_code(f),
{
    match f {
        Filter::Nearest => 'n',
        Filter::Triangle => 't',
        Filter::CatmullRom => 'c',
        Filter::Gaussian => 'g',
        Filter::Lanczos3 => 'l',
    }
}

/// The exec counterpart of [`mode_code`].
fn mode_code_exec(t: ResizeType) -> (r: char)
    ensures
        r == mode_code(t),
{
    match t {
        ResizeType::Fit => 'f',
        ResizeType::Cover => 'c',
        ResizeType::Thumbnail => 't',
    }
}

/// The exec counterpart of [`filter_of_code`].
fn filter_of_code_exec(c: char) -> (r: Option<Filter>)
    ensures
        r == filter_of_code(c),
{
    match c {
        'n' => Some(Filter::Nearest),
        't' => Some(Filter::Triangle),
        'c' => Some(Filter::CatmullRom),
        'g' => Some(Filter::Gaussian),
        'l' => Some(Filter::Lanczos3),
        _ => None,
    }
}

/// The exec counterpart of [`mode_of_code`].
fn mode_of_code_exec(c: char) -> (r: Option<ResizeType>)
    ensures
        r == mode_of_code(c),
{
    match c {
        'f' => Some(ResizeType::Fit),
        'c' => Some(ResizeType::Cover),
        't' => Some(ResizeType::Thumbnail),
        _ => None,
    }
}

/// Decodes the source run of `s` from `start` to the end.
fn decode_src_range(s: &str, start: usize) -> (r: Option<String>)
    requires
        start <= s@.len(),
        s@.len() <= usize::MAX,
    ensures
        r matches Some(out) ==> decode_src_hex(s@.subrange(start as int, s@.len() as int))
            == Some(out@),
        r is None ==> decode_src_hex(s@.subrange(start as int, s@.len() as int)) is None,
{
    let n = s.unicode_len();
    if (n - start) % 6 != 0 {
        proof {
            lemma_decode_src_bad_len(s@.subrange(start as int, n as int));
        }
        return None;
    }
    let mut out = String::new();
    let mut i: usize = start;
    while i < n
        invariant
            start <= i <= n,
            n == s@.len(),
            (i - start) % 6 == 0,
            (n - i) % 6 == 0,
            decode_src_hex(s@.subrange(start as int, i as int)) == Some(out@),
        decreases n - i,
    {
        let ghost done = s@.subrange(start as int, i as int);
        let ghost ext = s@.subrange(start as int, i + 6);
        proof {
            assert(ext.len() == i + 6 - start >= 6);
            assert(ext.subrange(0, ext.len() - 6) =~= done);
            assert(ext.subrange(ext.len() - 6, ext.len() as int) =~= s@.subrange(
                i as int,
                i + 6,
            ));
        }
        let v = match parse_hex_range(s, i, 6) {
            Some(v) => v,
            None => {
                proof {
                    assert(decode_src_hex(ext) is None);
                    lemma_decode_src_none_extends(ext, s@.subrange(i + 6, n as int));
                    assert(ext + s@.subrange(i + 6, n as int) =~= s@.subrange(
                        start as int,
                        n as int,
                    ));
                }
                return None;
            },
        };
        proof {
            assert(pow16(6) == 0x1000000) by {
                reveal_with_fuel(pow16, 7);
            }
            lemma_hex_canonical(s@.subrange(i as int, i + 6), v as int);
        }
        let c = match char_from_u32(v) {
            Some(c) => c,
            None => {
                proof {
                    assert(decode_src_hex(ext) is None);
                    lemma_decode_src_none_extends(ext, s@.subrange(i + 6, n as int));
                    assert(ext + s@.subrange(i + 6, n as int) =~= s@.subrange(
                        start as int,
                        n as int,
                    ));
                }
                return None;
            },
        };
        push_char(&mut out, c);
        proof {
            vstd::utf8::char_u32_cast(c, v);
            assert(decode_src_hex(ext) == Some(out@));
        }
        i = i + 6;
    }
    proof {
        assert(s@.subrange(start as int, i as int) =~= s@.subrange(start as int, n as int));
    }
    Some(out)
}

/// Decodes a token.  Succeeds exactly on the canonical token of a valid
/// request, returning that request; any other string is rejected.
pub fn decode(s: &str) -> (r: Result<CachedImage, DecodeError>)
    ensures
        r matches Ok(img) ==> decode_spec(s@) == Some(img@) && valid_model(img@),
        r is Err ==> decode_spec(s@) is None,
{
    let n = s.unicode_len();
    if n == 0 {
        return Err(DecodeError::Malformed);
    }
    let c0 = s.get_char(0);
    if c0 == 'r' {
        if n < 21 {
            return Err(DecodeError::Malformed);
        }
        let w = match parse_hex_range(s, 1, 8) {
            Some(v) => v,
            None => {
                return Err(DecodeError::Malformed);
            },
        };
        let h = match parse_hex_range(s, 9, 8) {
            Some(v) => v,
            None => {
                return Err(DecodeError::Malformed);
            },
        };
        let q = match parse_hex_range(s, 17, 2) {
            Some(v) => v,
            None => {
                return Err(DecodeError::Malformed);
            },
        };
        let f = match filter_of_code_exec(s.get_char(19)) {
            Some(f) => f,
            None => {
                return Err(DecodeError::Malformed);
            },
        };
        let t = match mode_of_code_exec(s.get_char(20)) {
            Some(t) => t,
            None => {
                return Err(DecodeError::Malformed);
            },
        };
        let src = match decode_src_range(s, 21) {
            Some(src) => src,
            None => {
                return Err(DecodeError::Malformed);
            },
        };
        proof {
            assert(pow16(2) == 0x100) by {
                reveal_with_fuel(pow16, 3);
            }
            lemma_hex_canonical(s@.subrange(17, 19), q as int);
        }
        let img = CachedImage {
            src,
            option: CachedImageOption::Resize(
                Resize {
                    width: w,
                    height: h,
                    quality: q as u8,
                    filter: f,
                    resize_type: t,
                },
            ),
        };
        if img.is_valid() {
            Ok(img)
        } else {
            Err(DecodeError::Malformed)
        }
    } else if c0 == 'b' {
        if n < 41 {
            return Err(DecodeError::Malformed);
        }
        let w = match parse_hex_range(s, 1, 8) {
            Some(v) => v,
            None => {
                return Err(DecodeError::Malformed);
            },
        };
        let h = match parse_hex_range(s, 9, 8) {
            Some(v) => v,
            None => {
                return Err(DecodeError::Malformed);
            },
        };
        let sw = match parse_hex_range(s, 17, 8) {
            Some(v) => v,
            None => {
                return Err(DecodeError::Malformed);
            },
        };
        let sh = match parse_hex_range(s, 25, 8) {
            Some(v) => v,
            None => {
                return Err(DecodeError::Malformed);
            },
        };
        let sg = match parse_hex_range(s, 33, 8) {
            Some(v) => v,
            None => {
                return Err(DecodeError::Malformed);
            },
        };
        let src = match decode_src_range(s, 41) {
            Some(src) => src,
            None => {
                return Err(DecodeError::Malformed);
            },
        };
        let img = CachedImage {
            src,
            option: CachedImageOption::Blur(
                Blur { width: w, height: h, svg_width: sw, svg_height: sh, sigma: sg },
            ),
        };
        if img.is_valid() {
            Ok(img)
        } else {
            Err(DecodeError::Malformed)
        }
    } else {
        Err(DecodeError::Malformed)
    }
}

} // verus!
