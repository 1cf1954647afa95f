//! The textual layer of the chain-descriptor format.
//!
//! A chain descriptor arrives as bytes holding a structured textual
//! record; this module parses those bytes into a [`Json`] tree.  The
//! grammar is the familiar one — objects, arrays, strings, numbers,
//! `true`, `false`, `null`, with insignificant whitespace — and every
//! parsing function is specified exactly against a recursive
//! specification of that grammar, so the byte-level behaviour of the
//! parser is pinned down completely.
//!
//! Numbers are kept exact: a parsed number is a [`Decimal`], sign and
//! integer mantissa and a power-of-ten scale, never a lossy binary
//! float.  A number whose significant digits exceed the 64-bit mantissa,
//! or whose exponent is absurdly large, is rejected as malformed rather
//! than rounded.  String escapes are decoded, except that a
//! `\u` escape is validated and carried through undecoded.  Nesting is
//! limited to a fixed depth, as is common for this format's parsers.

use vstd::prelude::*;

verus! {

/// Largest admitted descriptor, in bytes.
pub const MAX_INPUT: usize = 0x0800_0000;

/// Depth limit for nested arrays and objects.
pub const MAX_DEPTH: u32 = 128;

/// Largest admitted absolute value of a number's decimal exponent.
pub const MAX_EXP: u64 = 10_000_000;

/// An exact decimal number: `mant * 10^exp10`, negated when `neg` is
/// set.
#[derive(Clone, Copy, Debug, PartialEq, Eq, Structural)]
pub struct Decimal {
    pub neg: bool,
    pub mant: u64,
    pub exp10: i32,
}

/// A parsed descriptor record.  Object members and array elements are
/// kept in textual order; string and key bytes are kept decoded.
pub enum Json {
    Null,
    Bool(bool),
    Num(Decimal),
    Str(Vec<u8>),
    Arr(Vec<Json>),
    Obj(Vec<(Vec<u8>, Json)>),
}

/// The mathematical shadow of [`Json`]: the same tree over `Seq`.
pub enum JsonV {
    Null,
    Bool(bool),
    Num(Decimal),
    Str(Seq<u8>),
    Arr(Seq<JsonV>),
    Obj(Seq<(Seq<u8>, JsonV)>),
}

/// The tree a [`Json`] value denotes.
pub open spec fn json_view(j: Json) -> JsonV
    decreases j,
{
    match j {
        Json::Null => JsonV::Null,
        Json::Bool(b) => JsonV::Bool(b),
        Json::Num(d) => JsonV::Num(d),
        Json::Str(bytes) => JsonV::Str(bytes@),
        Json::Arr(items) => JsonV::Arr(jsons_view(items@)),
        Json::Obj(pairs) => JsonV::Obj(pairs_view(pairs@)),
    }
}

/// The trees a sequence of [`Json`] values denotes, in order.
pub open spec fn jsons_view(items: Seq<Json>) -> Seq<JsonV>
    decreases items,
{
    if items.len() == 0 {
        Seq::empty()
    } else {
        seq![json_view(items[0])] + jsons_view(items.drop_first())
    }
}

/// The key/tree pairs a sequence of [`Json`] object members denotes.
pub open spec fn pairs_view(pairs: Seq<(Vec<u8>, Json)>) -> Seq<(Seq<u8>, JsonV)>
    decreases pairs,
{
    if pairs.len() == 0 {
        Seq::empty()
    } else {
        seq![(pairs[0].0@, json_view(pairs[0].1))] + pairs_view(pairs.drop_first())
    }
}

/// `jsons_view` maps the sequence elementwise.
pub proof fn lemma_jsons_view(items: Seq<Json>)
    ensures
        jsons_view(items).len() == items.len(),
        forall|k: int| 0 <= k < items.len() ==> jsons_view(items)[k] == json_view(#[trigger] items[k]),
    decreases items,
{
    if items.len() > 0 {
        lemma_jsons_view(items.drop_first());
        assert forall|k: int|
            0 <= k < items.len() implies jsons_view(items)[k] == json_view(
            #[trigger] items[k],
        ) by {
            if k > 0 {
                assert(items.drop_first()[k - 1] == items[k]);
                assert(jsons_view(items)[k] == jsons_view(items.drop_first())[k - 1]);
            }
        }
    }
}

/// `pairs_view` maps the sequence elementwise.
pub proof fn lemma_pairs_view(pairs: Seq<(Vec<u8>, Json)>)
    ensures
        pairs_view(pairs).len() == pairs.len(),
        forall|k: int|
            0 <= k < pairs.len() ==> pairs_view(pairs)[k] == ((#[trigger] pairs[k]).0@, json_view(
                pairs[k].1,
            )),
    decreases pairs,
{
    if pairs.len() > 0 {
        lemma_pairs_view(pairs.drop_first());
        assert forall|k: int|
            0 <= k < pairs.len() implies pairs_view(pairs)[k] == ((#[trigger] pairs[k]).0@,
        json_view(pairs[k].1)) by {
            if k > 0 {
                assert(pairs.drop_first()[k - 1] == pairs[k]);
                assert(pairs_view(pairs)[k] == pairs_view(pairs.drop_first())[k - 1]);
            }
        }
    }
}

/// Appending one element appends its tree.
pub proof fn lemma_jsons_view_push(items: Seq<Json>, j: Json)
    ensures
        jsons_view(items.push(j)) == jsons_view(items).push(json_view(j)),
{
    lemma_jsons_view(items.push(j));
    lemma_jsons_view(items);
    assert forall|k: int|
        0 <= k < items.len() + 1 implies #[trigger] jsons_view(items.push(j))[k] == jsons_view(
        items,
    ).push(json_view(j))[k] by {
        if k < items.len() {
            assert(items.push(j)[k] == items[k]);
        } else {
            assert(items.push(j)[k] == j);
        }
    }
    assert(jsons_view(items.push(j)) =~= jsons_view(items).push(json_view(j)));
}

/// Appending one member appends its key/tree pair.
pub proof fn lemma_pairs_view_push(pairs: Seq<(Vec<u8>, Json)>, k: Vec<u8>, j: Json)
    ensures
        pairs_view(pairs.push((k, j))) == pairs_view(pairs).push((k@, json_view(j))),
{
    lemma_pairs_view(pairs.push((k, j)));
    lemma_pairs_view(pairs);
    assert forall|m: int|
        0 <= m < pairs.len() + 1 implies #[trigger] pairs_view(pairs.push((k, j)))[m]
        == pairs_view(pairs).push((k@, json_view(j)))[m] by {
        if m < pairs.len() {
            assert(pairs.push((k, j))[m] == pairs[m]);
        } else {
            assert(pairs.push((k, j))[m] == (k, j));
        }
    }
    assert(pairs_view(pairs.push((k, j))) =~= pairs_view(pairs).push((k@, json_view(j))));
}

/// Insignificant whitespace: space, tab, line feed, carriage return.
pub open spec fn is_ws(c: u8) -> bool {
    c == 32 || c == 9 || c == 10 || c == 13
}

/// A decimal digit.
pub open spec fn is_digit(c: u8) -> bool {
    48 <= c <= 57
}

/// A hexadecimal digit.
pub open spec fn is_hex(c: u8) -> bool {
    is_digit(c) || (97 <= c <= 102) || (65 <= c <= 70)
}

/// The first index at or after `i` holding a non-whitespace byte, or the
/// input's length if only whitespace remains.
pub open spec fn spec_skip_ws(s: Seq<u8>, i: int) -> int
    decreases s.len() - i when 0 <= i <= s.len()
{
    if i < s.len() && is_ws(s[i]) {
        spec_skip_ws(s, i + 1)
    } else {
        i
    }
}

/// Consumes the run of decimal digits starting at `i` into the
/// accumulator `acc` (most significant first); `None` when the
/// accumulated value would no longer fit 64 bits.
pub open spec fn spec_digits(s: Seq<u8>, i: int, acc: u64) -> Option<(u64, int)>
    decreases s.len() - i when 0 <= i <= s.len()
{
    if i < s.len() && is_digit(s[i]) {
        let d = (s[i] - 48) as u64;
        if acc > (u64::MAX - d) / 10 {
            None
        } else {
            spec_digits(s, i + 1, (acc * 10 + d) as u64)
        }
    } else {
        Some((acc, i))
    }
}

/// The decoded content of a string body that starts at `i` (just after
/// the opening quote), extending the already-decoded `acc`; returns the
/// content and the index just after the closing quote.  The short
/// escapes are decoded; a `\u` escape is validated and carried through
/// undecoded; an unterminated string, an unknown escape or an
/// unescaped control byte is malformed.
pub open spec fn spec_string(s: Seq<u8>, i: int, acc: Seq<u8>) -> Option<(Seq<u8>, int)>
    decreases s.len() - i when 0 <= i <= s.len()
{
    if i >= s.len() {
        None
    } else {
        let c = s[i];
        if c == 34 {
            Some((acc, i + 1))
        } else if c == 92 {
            if i + 1 >= s.len() {
                None
            } else {
                let e = s[i + 1];
                if e == 34 || e == 92 || e == 47 {
                    spec_string(s, i + 2, acc.push(e))
                } else if e == 98 {
                    spec_string(s, i + 2, acc.push(8))
                } else if e == 102 {
                    spec_string(s, i + 2, acc.push(12))
                } else if e == 110 {
                    spec_string(s, i + 2, acc.push(10))
                } else if e == 114 {
                    spec_string(s, i + 2, acc.push(13))
                } else if e == 116 {
                    spec_string(s, i + 2, acc.push(9))
                } else if e == 117 {
                    if i + 6 > s.len() {
                        None
                    } else if is_hex(s[i + 2]) && is_hex(s[i + 3]) && is_hex(s[i + 4]) && is_hex(
                        s[i + 5],
                    ) {
                        spec_string(
                            s,
                            i + 6,
                            acc + seq![92u8, 117u8, s[i + 2], s[i + 3], s[i + 4], s[i + 5]],
                        )
                    } else {
                        None
                    }
                } else {
                    None
                }
            }
        } else if c < 32 {
            None
        } else {
            spec_string(s, i + 1, acc.push(c))
        }
    }
}

/// The exact decimal number whose text starts at `i`: an optional minus
/// sign, an integer part without superfluous leading zeros, an optional
/// fraction, an optional exponent.  Returns the number and the index
/// just after its last byte.
pub open spec fn spec_number(s: Seq<u8>, i: int) -> Option<(Decimal, int)> {
    let (neg, i1): (bool, int) = if i < s.len() && s[i] == 45 {
        (true, i + 1)
    } else {
        (false, i)
    };
    if !(0 <= i1 < s.len() && is_digit(s[i1])) {
        None
    } else {
        let int_part: Option<(u64, int)> = if s[i1] == 48 {
            Some((0u64, i1 + 1))
        } else {
            spec_digits(s, i1, 0u64)
        };
        match int_part {
            None => None,
            Some((mant0, i2)) => {
                let frac_part: Option<(u64, int, int)> = if i2 < s.len() && s[i2] == 46 {
                    if i2 + 1 < s.len() && is_digit(s[i2 + 1]) {
                        match spec_digits(s, i2 + 1, mant0) {
                            None => None,
                            Some((m2, i3)) => Some((m2, i3, i3 - (i2 + 1))),
                        }
                    } else {
                        None
                    }
                } else {
                    Some((mant0, i2, 0))
                };
                match frac_part {
                    None => None,
                    Some((mant, i3, fraclen)) => {
                        let exp_part: Option<(int, int)> = if i3 < s.len() && (s[i3] == 101
                            || s[i3] == 69) {
                            let (esign, i4): (bool, int) = if i3 + 1 < s.len() && s[i3 + 1]
                                == 45 {
                                (true, i3 + 2)
                            } else if i3 + 1 < s.len() && s[i3 + 1] == 43 {
                                (false, i3 + 2)
                            } else {
                                (false, i3 + 1)
                            };
                            if !(i4 < s.len() && is_digit(s[i4])) {
                                None
                            } else {
                                match spec_digits(s, i4, 0u64) {
                                    None => None,
                                    Some((e, i5)) => if e > MAX_EXP {
                                        None
                                    } else {
                                        Some((if esign { -(e as int) } else { e as int }, i5))
                                    },
                                }
                            }
                        } else {
                            Some((0, i3))
                        };
                        match exp_part {
                            None => None,
                            Some((expv, i6)) => Some(
                                (
                                    Decimal { neg, mant, exp10: (expv - fraclen) as i32 },
                                    i6,
                                ),
                            ),
                        }
                    },
                }
            },
        }
    }
}

/// The value whose text starts at byte `i`: a string, a number, one of
/// the three literal words, an array or an object, with `depth` bounding
/// how many levels of arrays and objects may still be opened.  Returns
/// the value's tree and the index just after its last byte.
pub open spec fn spec_value(s: Seq<u8>, i: int, depth: int) -> Option<(JsonV, int)>
    decreases depth, s.len() - i, 0int
        when 0 <= i <= s.len()
{
    if depth <= 0 || i >= s.len() {
        None
    } else {
        let c = s[i];
        if c == 34 {
            match spec_string(s, i + 1, Seq::empty()) {
                None => None,
                Some((content, j)) => Some((JsonV::Str(content), j)),
            }
        } else if c == 45 || is_digit(c) {
            match spec_number(s, i) {
                None => None,
                Some((d, j)) => Some((JsonV::Num(d), j)),
            }
        } else if c == 110 {
            if i + 4 <= s.len() && s[i + 1] == 117 && s[i + 2] == 108 && s[i + 3] == 108 {
                Some((JsonV::Null, i + 4))
            } else {
                None
            }
        } else if c == 116 {
            if i + 4 <= s.len() && s[i + 1] == 114 && s[i + 2] == 117 && s[i + 3] == 101 {
                Some((JsonV::Bool(true), i + 4))
            } else {
                None
            }
        } else if c == 102 {
            if i + 5 <= s.len() && s[i + 1] == 97 && s[i + 2] == 108 && s[i + 3] == 115 && s[i
                + 4] == 101 {
                Some((JsonV::Bool(false), i + 5))
            } else {
                None
            }
        } else if c == 91 {
            let j0 = spec_skip_ws(s, i + 1);
            if !(i < j0 <= s.len()) {
                None
            } else if j0 < s.len() && s[j0] == 93 {
                Some((JsonV::Arr(Seq::empty()), j0 + 1))
            } else {
                match spec_elems(s, j0, depth - 1, Seq::empty()) {
                    None => None,
                    Some((items, j)) => Some((JsonV::Arr(items), j)),
                }
            }
        } else if c == 123 {
            let j0 = spec_skip_ws(s, i + 1);
            if !(i < j0 <= s.len()) {
                None
            } else if j0 < s.len() && s[j0] == 125 {
                Some((JsonV::Obj(Seq::empty()), j0 + 1))
            } else {
                match spec_membs(s, j0, depth - 1, Seq::empty()) {
                    None => None,
                    Some((pairs, j)) => Some((JsonV::Obj(pairs), j)),
                }
            }
        } else {
            None
        }
    }
}

/// The non-empty element list of an array, starting at the first
/// element's first byte, extending the already-parsed `acc`; ends just
/// after the closing bracket.
pub open spec fn spec_elems(s: Seq<u8>, i: int, depth: int, acc: Seq<JsonV>) -> Option<
    (Seq<JsonV>, int),
>
    decreases depth, s.len() - i, 1int
        when 0 <= i <= s.len()
{
    if depth <= 0 {
        None
    } else {
        match spec_value(s, i, depth) {
            None => None,
            Some((v, j)) => {
                if !(i < j <= s.len()) {
                    None
                } else {
                    let k = spec_skip_ws(s, j);
                    if !(k <= s.len()) {
                        None
                    } else if k < s.len() && s[k] == 93 {
                        Some((acc.push(v), k + 1))
                    } else if k < s.len() && s[k] == 44 {
                        let m = spec_skip_ws(s, k + 1);
                        if !(i < m <= s.len()) {
                            None
                        } else {
                            spec_elems(s, m, depth, acc.push(v))
                        }
                    } else {
                        None
                    }
                }
            },
        }
    }
}

/// The non-empty member list of an object, starting at the first
/// member's opening quote, extending the already-parsed `acc`; ends just
/// after the closing brace.
pub open spec fn spec_membs(
    s: Seq<u8>,
    i: int,
    depth: int,
    acc: Seq<(Seq<u8>, JsonV)>,
) -> Option<(Seq<(Seq<u8>, JsonV)>, int)>
    decreases depth, s.len() - i, 1int
        when 0 <= i <= s.len()
{
    if depth <= 0 {
        None
    } else if !(i < s.len() && s[i] == 34) {
        None
    } else {
        match spec_string(s, i + 1, Seq::empty()) {
            None => None,
            Some((key, j)) => {
                if !(i < j <= s.len()) {
                    None
                } else {
                    let k = spec_skip_ws(s, j);
                    if !(k < s.len() && s[k] == 58) {
                        None
                    } else {
                        let m = spec_skip_ws(s, k + 1);
                        if !(i < m <= s.len()) {
                            None
                        } else {
                            match spec_value(s, m, depth) {
                                None => None,
                                Some((v, j2)) => {
                                    if !(m < j2 <= s.len()) {
                                        None
                                    } else {
                                        let k2 = spec_skip_ws(s, j2);
                                        if !(k2 <= s.len()) {
                                            None
                                        } else if k2 < s.len() && s[k2] == 125 {
                                            Some((acc.push((key, v)), k2 + 1))
                                        } else if k2 < s.len() && s[k2] == 44 {
                                            let m2 = spec_skip_ws(s, k2 + 1);
                                            if !(i < m2 <= s.len()) {
                                                None
                                            } else {
                                                spec_membs(s, m2, depth, acc.push((key, v)))
                                            }
                                        } else {
                                            None
                                        }
                                    }
                                },
                            }
                        }
                    }
                }
            },
        }
    }
}

/// The tree of a whole descriptor text: one value, surrounded by
/// whitespace only.
pub open spec fn spec_json(s: Seq<u8>) -> Option<JsonV> {
    let i = spec_skip_ws(s, 0);
    if !(0 <= i <= s.len()) {
        None
    } else {
        match spec_value(s, i, MAX_DEPTH as int) {
            None => None,
            Some((v, j)) => if !(0 <= j <= s.len()) {
                None
            } else if spec_skip_ws(s, j) == s.len() {
                Some(v)
            } else {
                None
            },
        }
    }
}

/// Exec twin of [`spec_skip_ws`].
pub fn skip_ws(s: &Vec<u8>, i: usize) -> (j: usize)
    requires
        i <= s@.len(),
    ensures
        j as int == spec_skip_ws(s@, i as int),
        i <= j <= s@.len(),
{
    let mut j = i;
    while j < s.len() && (s[j] == 32 || s[j] == 9 || s[j] == 10 || s[j] == 13)
        invariant
            i <= j <= s@.len(),
            spec_skip_ws(s@, i as int) == spec_skip_ws(s@, j as int),
        decreases s@.len() - j,
    {
        j = j + 1;
    }
    j
}

/// Exec twin of [`spec_digits`].
pub fn digit_run(s: &Vec<u8>, i: usize, acc: u64) -> (r: Option<(u64, usize)>)
    requires
        i <= s@.len(),
    ensures
        match (r, spec_digits(s@, i as int, acc)) {
            (Some((m, j)), Some((sm, sj))) => m == sm && j as int == sj && i <= j <= s@.len()
                && (i < s@.len() && is_digit(s@[i as int]) ==> j > i),
            (None, None) => true,
            _ => false,
        },
{
    let mut m = acc;
    let mut j = i;
    while j < s.len() && 48 <= s[j] && s[j] <= 57
        invariant
            i <= j <= s@.len(),
            spec_digits(s@, i as int, acc) == spec_digits(s@, j as int, m),
        decreases s@.len() - j,
    {
        let d = s[j] - 48;
        if m > (u64::MAX - d as u64) / 10 {
            return None;
        }
        m = m * 10 + d as u64;
        j = j + 1;
    }
    Some((m, j))
}

/// Exec twin of [`spec_string`]: parses a string body starting just
/// after the opening quote, returning the decoded content and the index
/// just after the closing quote.
pub fn parse_string(s: &Vec<u8>, i: usize) -> (r: Option<(Vec<u8>, usize)>)
    requires
        i <= s@.len(),
    ensures
        match (r, spec_string(s@, i as int, Seq::<u8>::empty())) {
            (Some((out, j)), Some((sout, sj))) => out@ == sout && j as int == sj && i < j
                <= s@.len(),
            (None, None) => true,
            _ => false,
        },
{
    let mut out: Vec<u8> = Vec::new();
    let mut j = i;
    loop
        invariant
            i <= j <= s@.len(),
            spec_string(s@, i as int, Seq::<u8>::empty()) == spec_string(s@, j as int, out@),
        decreases s@.len() - j,
    {
        if j >= s.len() {
            return None;
        }
        let c = s[j];
        if c == 34 {
            return Some((out, j + 1));
        } else if c == 92 {
            if j + 1 >= s.len() {
                return None;
            }
            let e = s[j + 1];
            if e == 34 || e == 92 || e == 47 {
                out.push(e);
                j = j + 2;
            } else if e == 98 {
                out.push(8);
                j = j + 2;
            } else if e == 102 {
                out.push(12);
                j = j + 2;
            } else if e == 110 {
                out.push(10);
                j = j + 2;
            } else if e == 114 {
                out.push(13);
                j = j + 2;
            } else if e == 116 {
                out.push(9);
                j = j + 2;
            } else if e == 117 {
                if s.len() - j < 6 {
                    return None;
                }
                if hex_digit(s[j + 2]) && hex_digit(s[j + 3]) && hex_digit(s[j + 4])
                    && hex_digit(s[j + 5]) {
                    let ghost pre = out@;
                    out.push(92);
                    out.push(117);
                    out.push(s[j + 2]);
                    out.push(s[j + 3]);
                    out.push(s[j + 4]);
                    out.push(s[j + 5]);
                    proof {
                        assert(out@ =~= pre + seq![
                            92u8,
                            117u8,
                            s@[j + 2],
                            s@[j + 3],
                            s@[j + 4],
                            s@[j + 5],
                        ]);
                    }
                    j = j + 6;
                } else {
                    return None;
                }
            } else {
                return None;
            }
        } else if c < 32 {
            return None;
        } else {
            out.push(c);
            j = j + 1;
        }
    }
}

/// Exec hex-digit test.
fn hex_digit(c: u8) -> (r: bool)
    ensures
        r == is_hex(c),
{
    (48 <= c && c <= 57) || (97 <= c && c <= 102) || (65 <= c && c <= 70)
}

/// Exec twin of [`spec_number`].
pub fn parse_number(s: &Vec<u8>, i: usize) -> (r: Option<(Decimal, usize)>)
    requires
        i <= s@.len() <= MAX_INPUT,
    ensures
        match (r, spec_number(s@, i as int)) {
            (Some((d, j)), Some((sd, sj))) => d == sd && j as int == sj && i < j <= s@.len(),
            (None, None) => true,
            _ => false,
        },
{
    let (neg, i1): (bool, usize) = if i < s.len() && s[i] == 45 {
        (true, i + 1)
    } else {
        (false, i)
    };
    if !(i1 < s.len() && 48 <= s[i1] && s[i1] <= 57) {
        return None;
    }
    let (mant0, i2): (u64, usize) = if s[i1] == 48 {
        (0, i1 + 1)
    } else {
        match digit_run(s, i1, 0) {
            None => {
                return None;
            },
            Some(p) => p,
        }
    };
    let (mant, i3, fraclen): (u64, usize, usize) = if i2 < s.len() && s[i2] == 46 {
        if i2 + 1 < s.len() && 48 <= s[i2 + 1] && s[i2 + 1] <= 57 {
            match digit_run(s, i2 + 1, mant0) {
                None => {
                    return None;
                },
                Some((m2, j3)) => (m2, j3, j3 - (i2 + 1)),
            }
        } else {
            return None;
        }
    } else {
        (mant0, i2, 0)
    };
    let (expv, i6): (i64, usize) = if i3 < s.len() && (s[i3] == 101 || s[i3] == 69) {
        let (esign, i4): (bool, usize) = if i3 + 1 < s.len() && s[i3 + 1] == 45 {
            (true, i3 + 2)
        } else if i3 + 1 < s.len() && s[i3 + 1] == 43 {
            (false, i3 + 2)
        } else {
            (false, i3 + 1)
        };
        if !(i4 < s.len() && 48 <= s[i4] && s[i4] <= 57) {
            return None;
        }
        match digit_run(s, i4, 0) {
            None => {
                return None;
            },
            Some((e, i5)) => {
                if e > MAX_EXP {
                    return None;
                }
                (if esign { -(e as i64) } else { e as i64 }, i5)
            },
        }
    } else {
        (0, i3)
    };
    let exp10: i64 = expv - fraclen as i64;
    Some((Decimal { neg, mant, exp10: exp10 as i32 }, i6))
}

/// Exec twin of [`spec_value`].
pub fn parse_value(s: &Vec<u8>, i: usize, depth: u32) -> (r: Option<(Json, usize)>)
    requires
        i <= s@.len() <= MAX_INPUT,
    ensures
        match (r, spec_value(s@, i as int, depth as int)) {
            (Some((v, j)), Some((sv, sj))) => json_view(v) == sv && j as int == sj && i < j
                <= s@.len(),
            (None, None) => true,
            _ => false,
        },
    decreases depth, s@.len() - i, 0int,
{
    if depth == 0 || i >= s.len() {
        return None;
    }
    let c = s[i];
    if c == 34 {
        match parse_string(s, i + 1) {
            None => None,
            Some((content, j)) => Some((Json::Str(content), j)),
        }
    } else if c == 45 || (48 <= c && c <= 57) {
        match parse_number(s, i) {
            None => None,
            Some((d, j)) => Some((Json::Num(d), j)),
        }
    } else if c == 110 {
        if s.len() - i >= 4 && s[i + 1] == 117 && s[i + 2] == 108 && s[i + 3] == 108 {
            Some((Json::Null, i + 4))
        } else {
            None
        }
    } else if c == 116 {
        if s.len() - i >= 4 && s[i + 1] == 114 && s[i + 2] == 117 && s[i + 3] == 101 {
            Some((Json::Bool(true), i + 4))
        } else {
            None
        }
    } else if c == 102 {
        if s.len() - i >= 5 && s[i + 1] == 97 && s[i + 2] == 108 && s[i + 3] == 115 && s[i + 4]
            == 101 {
            Some((Json::Bool(false), i + 5))
        } else {
            None
        }
    } else if c == 91 {
        let j0 = skip_ws(s, i + 1);
        if j0 < s.len() && s[j0] == 93 {
            let items: Vec<Json> = Vec::new();
            proof {
                assert(jsons_view(items@) =~= Seq::<JsonV>::empty());
            }
            Some((Json::Arr(items), j0 + 1))
        } else {
            match parse_elems(s, j0, depth - 1) {
                None => None,
                Some((items, j)) => Some((Json::Arr(items), j)),
            }
        }
    } else if c == 123 {
        let j0 = skip_ws(s, i + 1);
        if j0 < s.len() && s[j0] == 125 {
            let pairs: Vec<(Vec<u8>, Json)> = Vec::new();
            proof {
                assert(pairs_view(pairs@) =~= Seq::<(Seq<u8>, JsonV)>::empty());
            }
            Some((Json::Obj(pairs), j0 + 1))
        } else {
            match parse_membs(s, j0, depth - 1) {
                None => None,
                Some((pairs, j)) => Some((Json::Obj(pairs), j)),
            }
        }
    } else {
        None
    }
}

/// Exec twin of [`spec_elems`].
pub fn parse_elems(s: &Vec<u8>, i: usize, depth: u32) -> (r: Option<(Vec<Json>, usize)>)
    requires
        i <= s@.len() <= MAX_INPUT,
    ensures
        match (r, spec_elems(s@, i as int, depth as int, Seq::<JsonV>::empty())) {
            (Some((items, j)), Some((sitems, sj))) => jsons_view(items@) == sitems && j as int
                == sj && i < j <= s@.len(),
            (None, None) => true,
            _ => false,
        },
    decreases depth, s@.len() - i, 1int,
{
    if depth == 0 {
        return None;
    }
    let mut acc: Vec<Json> = Vec::new();
    let mut cur = i;
    loop
        invariant
            i <= cur <= s@.len() <= MAX_INPUT,
            0 < depth,
            spec_elems(s@, i as int, depth as int, Seq::<JsonV>::empty()) == spec_elems(
                s@,
                cur as int,
                depth as int,
                jsons_view(acc@),
            ),
        decreases s@.len() - cur,
    {
        let parsed = parse_value(s, cur, depth);
        match parsed {
            None => {
                return None;
            },
            Some((v, j)) => {
                let k = skip_ws(s, j);
                proof {
                    lemma_jsons_view_push(acc@, v);
                }
                acc.push(v);
                if k < s.len() && s[k] == 93 {
                    return Some((acc, k + 1));
                } else if k < s.len() && s[k] == 44 {
                    let m = skip_ws(s, k + 1);
                    cur = m;
                } else {
                    return None;
                }
            },
        }
    }
}

/// Exec twin of [`spec_membs`].
pub fn parse_membs(s: &Vec<u8>, i: usize, depth: u32) -> (r: Option<
    (Vec<(Vec<u8>, Json)>, usize),
>)
    requires
        i <= s@.len() <= MAX_INPUT,
    ensures
        match (r, spec_membs(s@, i as int, depth as int, Seq::<(Seq<u8>, JsonV)>::empty())) {
            (Some((pairs, j)), Some((spairs, sj))) => pairs_view(pairs@) == spairs && j as int
                == sj && i < j <= s@.len(),
            (None, None) => true,
            _ => false,
        },
    decreases depth, s@.len() - i, 1int,
{
    if depth == 0 {
        return None;
    }
    let mut acc: Vec<(Vec<u8>, Json)> = Vec::new();
    let mut cur = i;
    loop
        invariant
            i <= cur <= s@.len() <= MAX_INPUT,
            0 < depth,
            spec_membs(s@, i as int, depth as int, Seq::<(Seq<u8>, JsonV)>::empty())
                == spec_membs(s@, cur as int, depth as int, pairs_view(acc@)),
        decreases s@.len() - cur,
    {
        if !(cur < s.len() && s[cur] == 34) {
            return None;
        }
        let key = match parse_string(s, cur + 1) {
            None => {
                return None;
            },
            Some(p) => p,
        };
        let (key_bytes, j) = key;
        let k = skip_ws(s, j);
        if !(k < s.len() && s[k] == 58) {
            return None;
        }
        let m = skip_ws(s, k + 1);
        let parsed = parse_value(s, m, depth);
        match parsed {
            None => {
                return None;
            },
            Some((v, j2)) => {
                let k2 = skip_ws(s, j2);
                proof {
                    lemma_pairs_view_push(acc@, key_bytes, v);
                }
                acc.push((key_bytes, v));
                if k2 < s.len() && s[k2] == 125 {
                    return Some((acc, k2 + 1));
                } else if k2 < s.len() && s[k2] == 44 {
                    let m2 = skip_ws(s, k2 + 1);
                    cur = m2;
                } else {
                    return None;
                }
            },
        }
    }
}

/// Exec twin of [`spec_json`]: parses a whole descriptor text.
pub fn parse_json(s: &Vec<u8>) -> (r: Option<Json>)
    requires
        s@.len() <= MAX_INPUT,
    ensures
        match (r, spec_json(s@)) {
            (Some(v), Some(sv)) => json_view(v) == sv,
            (None, None) => true,
            _ => false,
        },
{
    let i = skip_ws(s, 0);
    match parse_value(s, i, MAX_DEPTH) {
        None => None,
        Some((v, j)) => {
            let k = skip_ws(s, j);
            if k == s.len() {
                Some(v)
            } else {
                None
            }
        },
    }
}

} // verus!
