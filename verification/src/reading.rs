//! The text of a path can be read back: no two paths have the same text.

use crate::number::{coord_text, decimal, digit_char, fraction, magnitude, sign_text};
use crate::segment::PathSegment;
use crate::svg::{joined, lemma_path_tokens_len, path_text, path_tokens, segment_tokens};
use vstd::prelude::*;

verus! {

/// Whether a character is a decimal digit.
pub open spec fn is_digit(c: char) -> bool {
    c == '0' || c == '1' || c == '2' || c == '3' || c == '4' || c == '5' || c == '6' || c == '7'
        || c == '8' || c == '9'
}

/// Whether every character of a word is a decimal digit.
pub open spec fn all_digits(s: Seq<char>) -> bool {
    forall|i: int| 0 <= i < s.len() ==> is_digit(#[trigger] s[i])
}

/// Whether a word can stand between spaces: it is not empty and holds none.
pub open spec fn is_word(s: Seq<char>) -> bool {
    s.len() > 0 && forall|i: int| 0 <= i < s.len() ==> #[trigger] s[i] != ' '
}

/// Whether a word is the letter of a command.
pub open spec fn is_letter(s: Seq<char>) -> bool {
    s.len() == 1 && (s[0] == 'M' || s[0] == 'L' || s[0] == 'Q' || s[0] == 'C' || s[0] == 'Z')
}

/// Two sequences that are equal after the same number of items was put
/// behind each are equal, and so is what was put behind them.
pub proof fn lemma_split<T>(p1: Seq<T>, s1: Seq<T>, p2: Seq<T>, s2: Seq<T>)
    requires
        p1 + s1 == p2 + s2,
        s1.len() == s2.len(),
    ensures
        p1 == p2,
        s1 == s2,
{
    let whole = p1 + s1;
    let other = p2 + s2;
    assert(whole.len() == other.len());
    assert(p1.len() == p2.len());
    assert forall|i: int| 0 <= i < p1.len() implies p1[i] == p2[i] by {
        assert(whole[i] == other[i]);
    }
    assert forall|i: int| 0 <= i < s1.len() implies s1[i] == s2[i] by {
        assert(whole[p1.len() + i] == other[p2.len() + i]);
    }
    assert(p1 =~= p2);
    assert(s1 =~= s2);
}

/// Different digits have different characters.
pub proof fn lemma_digit_injective(d: int, e: int)
    requires
        0 <= d <= 9,
        0 <= e <= 9,
        digit_char(d) == digit_char(e),
    ensures
        d == e,
{
    reveal(digit_char);
}

/// The character of a digit is a digit.
pub proof fn lemma_digit_is_digit(d: int)
    ensures
        is_digit(digit_char(d)),
{
    reveal(digit_char);
}

/// The digits of a number are digits, and there is at least one.
pub proof fn lemma_decimal_shape(n: nat)
    ensures
        decimal(n).len() >= 1,
        all_digits(decimal(n)),
    decreases n,
{
    lemma_digit_is_digit(n as int);
    lemma_digit_is_digit((n % 10) as int);
    if n >= 10 {
        lemma_decimal_shape(n / 10);
    }
}

/// Different numbers have different digits.
pub proof fn lemma_decimal_injective(n: nat, m: nat)
    requires
        decimal(n) == decimal(m),
    ensures
        n == m,
    decreases n,
{
    lemma_decimal_shape(n / 10);
    lemma_decimal_shape(m / 10);
    if n < 10 && m < 10 {
        assert(decimal(n)[0] == digit_char(n as int));
        assert(decimal(m)[0] == digit_char(m as int));
        lemma_digit_injective(n as int, m as int);
    } else if n >= 10 && m >= 10 {
        let dn = decimal(n / 10);
        let dm = decimal(m / 10);
        let cn = digit_char((n % 10) as int);
        let cm = digit_char((m % 10) as int);
        assert(dn.push(cn) == dm.push(cm));
        assert(dn.push(cn).last() == cn);
        assert(dm.push(cm).last() == cm);
        assert(dn.push(cn).drop_last() =~= dn);
        assert(dm.push(cm).drop_last() =~= dm);
        lemma_decimal_injective(n / 10, m / 10);
        lemma_digit_injective((n % 10) as int, (m % 10) as int);
        assert(n / 10 == m / 10);
        assert(n % 10 == m % 10);
    } else {
        assert(decimal(n).len() == decimal(m).len());
        if n < 10 {
            assert(decimal(n).len() == 1);
            assert(decimal(m).len() == decimal(m / 10).len() + 1);
        } else {
            assert(decimal(m).len() == 1);
            assert(decimal(n).len() == decimal(n / 10).len() + 1);
        }
    }
}

/// The thousandths are written as nothing, or as a point before digits.
pub proof fn lemma_fraction_shape(f: int)
    requires
        0 <= f < 1000,
    ensures
        fraction(f).len() == 0 || (fraction(f)[0] == '.' && all_digits(
            fraction(f).subrange(1, fraction(f).len() as int),
        )),
        forall|i: int| 0 <= i < fraction(f).len() ==> #[trigger] fraction(f)[i] != ' ',
{
    lemma_digit_is_digit(f / 100);
    lemma_digit_is_digit((f / 10) % 10);
    lemma_digit_is_digit(f % 10);
}

/// Different thousandths are written differently.
pub proof fn lemma_fraction_injective(f: int, g: int)
    requires
        0 <= f < 1000,
        0 <= g < 1000,
        fraction(f) == fraction(g),
    ensures
        f == g,
{
    let a = fraction(f);
    let b = fraction(g);
    assert(a.len() == b.len());
    if a.len() >= 2 {
        assert(a[1] == digit_char(f / 100));
        assert(b[1] == digit_char(g / 100));
        lemma_digit_injective(f / 100, g / 100);
    }
    if a.len() >= 3 {
        assert(a[2] == digit_char((f / 10) % 10));
        assert(b[2] == digit_char((g / 10) % 10));
        lemma_digit_injective((f / 10) % 10, (g / 10) % 10);
    }
    if a.len() >= 4 {
        assert(a[3] == digit_char(f % 10));
        assert(b[3] == digit_char(g % 10));
        lemma_digit_injective(f % 10, g % 10);
    }
}

/// The text of a coordinate is a word, and it is no letter of a command.
pub proof fn lemma_coord_text_shape(v: int)
    ensures
        is_word(coord_text(v)),
        !is_letter(coord_text(v)),
{
    let m = magnitude(v);
    let whole = decimal((m / 1000) as nat);
    let part = fraction(m % 1000);
    lemma_decimal_shape((m / 1000) as nat);
    lemma_fraction_shape(m % 1000);
    let text = coord_text(v);
    assert(text == sign_text(v) + whole + part);
    assert forall|i: int| 0 <= i < text.len() implies #[trigger] text[i] != ' ' by {
        let s = sign_text(v).len();
        if i < s {
            assert(text[i] == sign_text(v)[i]);
        } else if i < s + whole.len() {
            assert(text[i] == whole[i - s]);
            assert(is_digit(whole[i - s]));
        } else {
            assert(text[i] == part[i - s - whole.len()]);
        }
    }
    if v < 0 {
        assert(text[0] == '-');
    } else {
        assert(text[0] == whole[0]);
        assert(is_digit(whole[0]));
    }
}

/// Different coordinates have different texts.
pub proof fn lemma_coord_text_injective(u: int, v: int)
    requires
        coord_text(u) == coord_text(v),
    ensures
        u == v,
{
    let mu = magnitude(u);
    let mv = magnitude(v);
    let wu = decimal((mu / 1000) as nat);
    let wv = decimal((mv / 1000) as nat);
    let pu = fraction(mu % 1000);
    let pv = fraction(mv % 1000);
    lemma_decimal_shape((mu / 1000) as nat);
    lemma_decimal_shape((mv / 1000) as nat);
    lemma_fraction_shape(mu % 1000);
    lemma_fraction_shape(mv % 1000);
    let tu = coord_text(u);
    let tv = coord_text(v);
    assert(tu == sign_text(u) + wu + pu);
    assert(tv == sign_text(v) + wv + pv);
    // The sign is told by the first character.
    if u < 0 {
        assert(tu[0] == '-');
        if v >= 0 {
            assert(tv[0] == wv[0]);
            assert(is_digit(wv[0]));
        }
    } else {
        assert(tu[0] == wu[0]);
        assert(is_digit(wu[0]));
        if v < 0 {
            assert(tv[0] == '-');
        }
    }
    assert((u < 0) == (v < 0));
    let s = sign_text(u);
    assert(s == sign_text(v));
    let ru = wu + pu;
    let rv = wv + pv;
    assert(ru =~= tu.subrange(s.len() as int, tu.len() as int));
    assert(rv =~= tv.subrange(s.len() as int, tv.len() as int));
    assert(ru == rv);
    // The whole part ends where the first point stands, or at the end.
    if wu.len() < wv.len() {
        assert(pu.len() > 0);
        assert(ru[wu.len() as int] == pu[0]);
        assert(rv[wu.len() as int] == wv[wu.len() as int]);
        assert(is_digit(wv[wu.len() as int]));
        assert(false);
    }
    if wv.len() < wu.len() {
        assert(pv.len() > 0);
        assert(rv[wv.len() as int] == pv[0]);
        assert(ru[wv.len() as int] == wu[wv.len() as int]);
        assert(is_digit(wu[wv.len() as int]));
        assert(false);
    }
    lemma_split(wu, pu, wv, pv);
    lemma_decimal_injective((mu / 1000) as nat, (mv / 1000) as nat);
    lemma_fraction_injective(mu % 1000, mv % 1000);
}

/// Whether every item is a word.
pub open spec fn all_words(words: Seq<Seq<char>>) -> bool {
    forall|i: int| 0 <= i < words.len() ==> is_word(#[trigger] words[i])
}

proof fn lemma_joined_tail(words: Seq<Seq<char>>)
    requires
        words.len() > 0,
    ensures
        joined(words).len() >= words.last().len(),
        joined(words).subrange(
            joined(words).len() - words.last().len(),
            joined(words).len() as int,
        ) == words.last(),
        words.len() == 1 ==> joined(words).len() == words.last().len(),
        words.len() > 1 ==> joined(words).len() > words.last().len(),
        words.len() > 1 ==> joined(words)[joined(words).len() - words.last().len() - 1] == ' ',
        words.len() > 1 ==> joined(words.drop_last()) == joined(words).subrange(
            0,
            joined(words).len() - words.last().len() - 1,
        ),
{
    let s = joined(words);
    let last = words.last();
    if words.len() == 1 {
        assert(s == words[0]);
        assert(s.subrange(0, s.len() as int) =~= last);
    } else {
        let front = joined(words.drop_last());
        assert(s == front + seq![' '] + last);
        assert(s.len() == front.len() + 1 + last.len());
        assert(s.subrange(s.len() - last.len(), s.len() as int) =~= last);
        assert(s[front.len() as int] == ' ');
        assert(s.subrange(0, front.len() as int) =~= front);
    }
}

/// Different lists of words are different when joined by spaces.
pub proof fn lemma_joined_injective(a: Seq<Seq<char>>, b: Seq<Seq<char>>)
    requires
        all_words(a),
        all_words(b),
        joined(a) == joined(b),
    ensures
        a == b,
    decreases a.len(),
{
    let s = joined(a);
    if a.len() == 0 {
        if b.len() > 0 {
            lemma_joined_tail(b);
            assert(is_word(b[b.len() - 1]));
            assert(false);
        }
        assert(a =~= b);
    } else {
        lemma_joined_tail(a);
        assert(is_word(a[a.len() - 1]));
        assert(b.len() > 0);
        lemma_joined_tail(b);
        assert(is_word(b[b.len() - 1]));
        let la = a.last().len() as int;
        let lb = b.last().len() as int;
        let n = s.len() as int;
        if la < lb {
            if a.len() > 1 {
                let idx = n - la - 1;
                assert(s[idx] == ' ');
                assert(s.subrange(n - lb, n)[idx - (n - lb)] == s[idx]);
                assert(b.last()[idx - (n - lb)] == ' ');
            }
            assert(false);
        }
        if lb < la {
            if b.len() > 1 {
                let idx = n - lb - 1;
                assert(s[idx] == ' ');
                assert(s.subrange(n - la, n)[idx - (n - la)] == s[idx]);
                assert(a.last()[idx - (n - la)] == ' ');
            }
            assert(false);
        }
        assert(a.last() == b.last());
        if a.len() == 1 {
            assert(b.len() == 1);
            assert(a =~= b);
        } else {
            assert(b.len() > 1);
            let fa = a.drop_last();
            let fb = b.drop_last();
            assert forall|i: int| 0 <= i < fa.len() implies is_word(#[trigger] fa[i]) by {
                assert(fa[i] == a[i]);
            }
            assert forall|i: int| 0 <= i < fb.len() implies is_word(#[trigger] fb[i]) by {
                assert(fb[i] == b[i]);
            }
            lemma_joined_injective(fa, fb);
            assert(a =~= fa.push(a.last()));
            assert(b =~= fb.push(b.last()));
        }
    }
}

/// A segment is written as a letter followed by coordinates.
pub proof fn lemma_segment_tokens_shape(seg: PathSegment)
    ensures
        1 <= segment_tokens(seg).len() <= 7,
        is_letter(segment_tokens(seg)[0]),
        all_words(segment_tokens(seg)),
        forall|j: int|
            1 <= j < segment_tokens(seg).len() ==> !is_letter(#[trigger] segment_tokens(seg)[j]),
{
    match seg {
        PathSegment::MoveTo(x, y) | PathSegment::LineTo(x, y) => {
            lemma_coord_text_shape(x as int);
            lemma_coord_text_shape(y as int);
        },
        PathSegment::QuadTo(x1, y1, x, y) => {
            lemma_coord_text_shape(x1 as int);
            lemma_coord_text_shape(y1 as int);
            lemma_coord_text_shape(x as int);
            lemma_coord_text_shape(y as int);
        },
        PathSegment::CubicTo(x1, y1, x2, y2, x, y) => {
            lemma_coord_text_shape(x1 as int);
            lemma_coord_text_shape(y1 as int);
            lemma_coord_text_shape(x2 as int);
            lemma_coord_text_shape(y2 as int);
            lemma_coord_text_shape(x as int);
            lemma_coord_text_shape(y as int);
        },
        PathSegment::Close => {},
    }
}

/// Different segments are written differently.
pub proof fn lemma_segment_tokens_injective(s1: PathSegment, s2: PathSegment)
    requires
        segment_tokens(s1) == segment_tokens(s2),
    ensures
        s1 == s2,
{
    let t1 = segment_tokens(s1);
    let t2 = segment_tokens(s2);
    assert(t1.len() == t2.len());
    assert(t1[0] == t2[0]);
    assert(t1[0][0] == t2[0][0]);
    match s1 {
        PathSegment::MoveTo(x, y) => {
            assert(t1[0][0] == 'M');
            assert(t1[1] == t2[1]);
            assert(t1[2] == t2[2]);
            match s2 {
                PathSegment::MoveTo(u, v) => {
                    lemma_coord_text_injective(x as int, u as int);
                    lemma_coord_text_injective(y as int, v as int);
                },
                PathSegment::LineTo(u, v) => {
                    assert(t2[0][0] == 'L');
                },
                _ => {},
            }
        },
        PathSegment::LineTo(x, y) => {
            assert(t1[0][0] == 'L');
            assert(t1[1] == t2[1]);
            assert(t1[2] == t2[2]);
            match s2 {
                PathSegment::LineTo(u, v) => {
                    lemma_coord_text_injective(x as int, u as int);
                    lemma_coord_text_injective(y as int, v as int);
                },
                PathSegment::MoveTo(u, v) => {
                    assert(t2[0][0] == 'M');
                },
                _ => {},
            }
        },
        PathSegment::QuadTo(x1, y1, x, y) => {
            assert(t1[1] == t2[1]);
            assert(t1[2] == t2[2]);
            assert(t1[3] == t2[3]);
            assert(t1[4] == t2[4]);
            match s2 {
                PathSegment::QuadTo(u1, v1, u, v) => {
                    lemma_coord_text_injective(x1 as int, u1 as int);
                    lemma_coord_text_injective(y1 as int, v1 as int);
                    lemma_coord_text_injective(x as int, u as int);
                    lemma_coord_text_injective(y as int, v as int);
                },
                _ => {},
            }
        },
        PathSegment::CubicTo(x1, y1, x2, y2, x, y) => {
            assert(t1[1] == t2[1]);
            assert(t1[2] == t2[2]);
            assert(t1[3] == t2[3]);
            assert(t1[4] == t2[4]);
            assert(t1[5] == t2[5]);
            assert(t1[6] == t2[6]);
            match s2 {
                PathSegment::CubicTo(u1, v1, u2, v2, u, v) => {
                    lemma_coord_text_injective(x1 as int, u1 as int);
                    lemma_coord_text_injective(y1 as int, v1 as int);
                    lemma_coord_text_injective(x2 as int, u2 as int);
                    lemma_coord_text_injective(y2 as int, v2 as int);
                    lemma_coord_text_injective(x as int, u as int);
                    lemma_coord_text_injective(y as int, v as int);
                },
                _ => {},
            }
        },
        PathSegment::Close => {},
    }
}

/// Every word of a path's text is a word.
pub proof fn lemma_path_tokens_words(segs: Seq<PathSegment>)
    ensures
        all_words(path_tokens(segs)),
    decreases segs.len(),
{
    if segs.len() > 0 {
        lemma_path_tokens_words(segs.drop_last());
        lemma_segment_tokens_shape(segs.last());
        let front = path_tokens(segs.drop_last());
        let back = segment_tokens(segs.last());
        assert forall|i: int| 0 <= i < path_tokens(segs).len() implies is_word(
            #[trigger] path_tokens(segs)[i],
        ) by {
            if i < front.len() {
                assert(path_tokens(segs)[i] == front[i]);
            } else {
                assert(path_tokens(segs)[i] == back[i - front.len()]);
            }
        }
    }
}

/// Different paths have different words.
pub proof fn lemma_path_tokens_injective(a: Seq<PathSegment>, b: Seq<PathSegment>)
    requires
        path_tokens(a) == path_tokens(b),
    ensures
        a == b,
    decreases a.len(),
{
    lemma_path_tokens_len(a);
    lemma_path_tokens_len(b);
    if a.len() == 0 {
        assert(a =~= b);
    } else {
        assert(b.len() > 0);
        let ta = path_tokens(a.drop_last());
        let tb = path_tokens(b.drop_last());
        let sa = segment_tokens(a.last());
        let sb = segment_tokens(b.last());
        let t = path_tokens(a);
        assert(t == ta + sa);
        assert(t == tb + sb);
        lemma_segment_tokens_shape(a.last());
        lemma_segment_tokens_shape(b.last());
        if sa.len() < sb.len() {
            let idx = t.len() - sa.len();
            assert((ta + sa)[idx] == sa[0]);
            assert((tb + sb)[idx] == sb[idx - tb.len()]);
            assert(false);
        }
        if sb.len() < sa.len() {
            let idx = t.len() - sb.len();
            assert((tb + sb)[idx] == sb[0]);
            assert((ta + sa)[idx] == sa[idx - ta.len()]);
            assert(false);
        }
        lemma_split(ta, sa, tb, sb);
        lemma_segment_tokens_injective(a.last(), b.last());
        lemma_path_tokens_injective(a.drop_last(), b.drop_last());
        assert(a =~= a.drop_last().push(a.last()));
        assert(b =~= b.drop_last().push(b.last()));
    }
}

/// The text of a path and the path describe the same commands and
/// coordinates: two paths with the same text are the same path.
pub proof fn lemma_path_text_injective(a: Seq<PathSegment>, b: Seq<PathSegment>)
    requires
        path_text(a) == path_text(b),
    ensures
        a == b,
{
    lemma_path_tokens_words(a);
    lemma_path_tokens_words(b);
    lemma_joined_injective(path_tokens(a), path_tokens(b));
    lemma_path_tokens_injective(a, b);
}

} // verus!
