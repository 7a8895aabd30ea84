//! Parsing of index ranges in access matchers, such as `0-3,5,e` or `*`.

use vstd::prelude::*;
use vstd::string::StringSliceAdditionalSpecFns;

verus! {

/// A range of indices, `[start, end]`.
pub type ReflexiveAccessRange = (usize, usize);

/// `true` for the bytes that may appear in a range matcher: digits, `,`, `-`, `e` and `*`.
pub open spec fn spec_allowed_range_byte(b: u8) -> bool {
    (0x30 <= b <= 0x39) || b == 0x2C || b == 0x2D || b == 0x65 || b == 0x2A
}

/// The index of the first occurrence of `c` in `s`.
#[verifier::opaque]
pub open spec fn spec_first_byte_index(s: Seq<u8>, c: u8) -> Option<int> {
    if exists|i: int| 0 <= i < s.len() && s[i] == c {
        Some(choose|i: int| 0 <= i < s.len() && s[i] == c && forall|j: int| 0 <= j < i ==> s[j] != c)
    } else {
        None
    }
}

/// The value of a sequence of decimal digits.
pub open spec fn spec_decimal(s: Seq<u8>) -> int
    decreases s.len(),
{
    if s.len() == 0 {
        0
    } else {
        spec_decimal(s.drop_last()) * 10 + (s.last() - 0x30)
    }
}

/// `true` if every byte is a decimal digit.
pub open spec fn spec_all_digits(s: Seq<u8>) -> bool {
    forall|i: int| 0 <= i < s.len() ==> 0x30 <= #[trigger] s[i] <= 0x39
}

/// Parsing one bound of a range: `e` is the last index, otherwise a decimal number that fits in a `usize`.
pub open spec fn spec_range_number(n: Seq<u8>, len: int) -> Result<int, Seq<char>> {
    if exists|i: int| 0 <= i < n.len() && n[i] == 0x65 {
        if n.len() == 1 && n[0] == 0x65 {
            Ok(len - 1)
        } else {
            Err("cannot use exponents"@)
        }
    } else if n.len() == 0 || !spec_all_digits(n) || spec_decimal(n) > usize::MAX {
        Err("cannot parse number"@)
    } else {
        Ok(spec_decimal(n))
    }
}

/// The bounds of a range piece split at `-`: the first number, the second number if there is one, and whether
/// there is more than one `-`.
pub open spec fn spec_split_dash(r: Seq<u8>) -> (Seq<u8>, Option<Seq<u8>>, bool) {
    match spec_first_byte_index(r, 0x2D) {
        None => (r, None, false),
        Some(i1) => {
            let rest = r.subrange(i1 + 1, r.len() as int);
            match spec_first_byte_index(rest, 0x2D) {
                None => (r.take(i1), Some(rest), false),
                Some(i2) => (r.take(i1), Some(rest.take(i2)), true),
            }
        },
    }
}

/// Parsing one comma-separated piece: `Ok(None)` for `*` when there is nothing to select.
pub open spec fn spec_range_piece(r: Seq<u8>, len: int) -> Result<Option<(int, int)>, Seq<char>> {
    if r.len() == 0 {
        Err("empty range"@)
    } else if r[0] == 0x2D || r.last() == 0x2D {
        Err("range cannot start or end with `-`"@)
    } else if r.len() == 1 && r[0] == 0x2A {
        if len == 0 {
            Ok(None)
        } else {
            Ok(Some((0, len - 1)))
        }
    } else if len == 0 {
        Err("out of bounds"@)
    } else {
        let (n1, n2, more) = spec_split_dash(r);
        match spec_range_number(n1, len) {
            Err(e) => Err(e),
            Ok(first) => {
                let end = match n2 {
                    Some(n) => spec_range_number(n, len),
                    None => Ok(first),
                };
                match end {
                    Err(e) => Err(e),
                    Ok(end) => {
                        if more {
                            Err("only one `-` allowed per range"@)
                        } else if first > end {
                            Err("start of range must be before the end"@)
                        } else if end >= len {
                            Err("out of bounds"@)
                        } else {
                            Ok(Some((first, end)))
                        }
                    },
                }
            },
        }
    }
}

/// Adding the result of one piece in front of the results of the pieces after it.
pub open spec fn spec_prepend_piece(
    piece: Result<Option<(int, int)>, Seq<char>>,
    rest: Result<Seq<(int, int)>, Seq<char>>,
) -> Result<Seq<(int, int)>, Seq<char>> {
    match piece {
        Err(e) => Err(e),
        Ok(p) => match rest {
            Err(e) => Err(e),
            Ok(rest) => match p {
                Some(r) => Ok(seq![r] + rest),
                None => Ok(rest),
            },
        },
    }
}

/// Parsing the comma-separated pieces of `s` in order; the first error wins.
pub open spec fn spec_range_pieces(s: Seq<u8>, len: int) -> Result<Seq<(int, int)>, Seq<char>>
    decreases s.len(),
{
    match spec_first_byte_index(s, 0x2C) {
        None => spec_prepend_piece(spec_range_piece(s, len), Ok(Seq::empty())),
        Some(k) => if 0 <= k < s.len() {
            spec_prepend_piece(spec_range_piece(s.take(k), len), spec_range_pieces(s.subrange(k + 1, s.len() as int), len))
        } else {
            Err(Seq::empty())
        },
    }
}

/// Parsing a whole matcher: the ranges it names, in order, or the error message.
pub open spec fn spec_parse_ranges(matcher: Seq<u8>, len: int) -> Result<Seq<(int, int)>, Seq<char>> {
    if exists|i: int| 0 <= i < matcher.len() && !spec_allowed_range_byte(#[trigger] matcher[i]) {
        Err("invalid character in matcher"@)
    } else {
        spec_range_pieces(matcher, len)
    }
}

/// `true` if `x` lies in one of the ranges.
pub open spec fn spec_covered(ranges: Seq<(int, int)>, x: int) -> bool {
    exists|k: int| 0 <= k < ranges.len() && #[trigger] ranges[k].0 <= x && x <= ranges[k].1
}

/// `true` if the ranges are non-empty, sorted, and separated by at least one index not in any range.
pub open spec fn spec_canonical(ranges: Seq<(int, int)>) -> bool {
    &&& forall|k: int| 0 <= k < ranges.len() ==> #[trigger] ranges[k].0 <= ranges[k].1
    &&& forall|k: int| 0 <= k < ranges.len() - 1 ==> #[trigger] ranges[k].1 + 1 < ranges[k + 1].0
}

/// The ranges as integer pairs.
pub open spec fn spec_ranges_int(v: Seq<ReflexiveAccessRange>) -> Seq<(int, int)> {
    v.map_values(|r: ReflexiveAccessRange| (r.0 as int, r.1 as int))
}

/// Find the first `c` in `s[start..end]`, as an index into `s`.
pub(crate) fn first_byte_index(s: &[u8], start: usize, end: usize, c: u8) -> (r: Option<usize>)
    requires
        start <= end <= s@.len(),
    ensures
        match spec_first_byte_index(s@.subrange(start as int, end as int), c) {
            Some(i) => r == Some((start + i) as usize) && 0 <= i < end - start,
            None => r is None,
        },
{
    proof {
        reveal(spec_first_byte_index);
    }
    let ghost sub = s@.subrange(start as int, end as int);
    let mut i: usize = start;
    while i < end
        invariant
            start <= i <= end <= s@.len(),
            sub == s@.subrange(start as int, end as int),
            forall|j: int| 0 <= j < i - start ==> sub[j] != c,
        decreases end - i,
    {
        if s[i] == c {
            proof {
                reveal(spec_first_byte_index);
                let k = (i - start) as int;
                assert(sub[k] == c);
                let w = choose|w: int| 0 <= w < sub.len() && sub[w] == c && forall|j: int| 0 <= j < w ==> sub[j] != c;
                if w < k {
                } else if k < w {
                    assert(sub[k] != c);
                }
            }
            return Some(i);
        }
        i = i + 1;
    }
    None
}

/// The value of digits does not shrink when digits are added.
proof fn lemma_decimal_prefix(s: Seq<u8>, i: int)
    requires
        spec_all_digits(s),
        0 <= i <= s.len(),
    ensures
        0 <= spec_decimal(s.take(i)) <= spec_decimal(s),
    decreases s.len() - i,
{
    if i == s.len() {
        assert(s.take(i) =~= s);
        lemma_decimal_nonneg(s);
    } else {
        lemma_decimal_prefix(s, i + 1);
        assert(s.take(i + 1).drop_last() =~= s.take(i));
        lemma_decimal_nonneg(s.take(i));
    }
}

/// The value of digits is not negative.
proof fn lemma_decimal_nonneg(s: Seq<u8>)
    requires
        spec_all_digits(s),
    ensures
        spec_decimal(s) >= 0,
    decreases s.len(),
{
    if s.len() > 0 {
        assert(spec_all_digits(s.drop_last()));
        lemma_decimal_nonneg(s.drop_last());
        assert(0x30 <= s[s.len() - 1] <= 0x39);
    }
}

/// Parse one bound of a range in `s[start..end]`.
fn parse_range_number(s: &[u8], start: usize, end: usize, len: usize) -> (r: Result<usize, &'static str>)
    requires
        start <= end <= s@.len(),
        len > 0,
    ensures
        match spec_range_number(s@.subrange(start as int, end as int), len as int) {
            Ok(v) => r matches Ok(x) && x == v,
            Err(e) => r matches Err(m) && m@ == e,
        },
{
    let ghost n = s@.subrange(start as int, end as int);
    match first_byte_index(s, start, end, 0x65) {
        Some(_) => {
            proof {
                reveal(spec_first_byte_index);
            }
            if end - start == 1 {
                return Ok(len - 1);
            } else {
                return Err("cannot use exponents");
            }
        },
        None => {},
    }
    proof {
        reveal(spec_first_byte_index);
        if exists|i: int| 0 <= i < n.len() && n[i] == 0x65 {
            let i = choose|i: int| 0 <= i < n.len() && n[i] == 0x65;
            assert(spec_first_byte_index(n, 0x65) is Some);
        }
    }
    if start == end {
        return Err("cannot parse number");
    }
    let mut value: usize = 0;
    let mut i: usize = start;
    while i < end
        invariant
            start <= i <= end <= s@.len(),
            n == s@.subrange(start as int, end as int),
            spec_all_digits(n.take(i - start)),
            value == spec_decimal(n.take(i - start)),
            !(exists|j: int| 0 <= j < n.len() && n[j] == 0x65),
        decreases end - i,
    {
        let b = s[i];
        if b < 0x30 || b > 0x39 {
            proof {
                assert(!(0x30 <= n[i - start] <= 0x39));
                assert(!spec_all_digits(n));
            }
            return Err("cannot parse number");
        }
        let d = (b - 0x30) as usize;
        proof {
            assert(n.take(i - start + 1).drop_last() =~= n.take(i - start));
            assert(n.take(i - start + 1).last() == b);
            assert(spec_all_digits(n.take(i - start + 1)));
        }
        let next = match value.checked_mul(10) {
            Some(m) => m.checked_add(d),
            None => None,
        };
        match next {
            Some(v) => {
                value = v;
            },
            None => {
                proof {
                    if spec_all_digits(n) {
                        lemma_decimal_prefix(n, i - start + 1);
                    }
                }
                return Err("cannot parse number");
            },
        }
        i = i + 1;
    }
    proof {
        assert(n.take(i - start) =~= n);
    }
    Ok(value)
}

/// Split the piece `s[start..end]` at `-`: the end of the first number, the bounds of the second number if there
/// is one, and whether there is more than one `-`.
fn split_dash(s: &[u8], start: usize, end: usize) -> (r: (usize, Option<(usize, usize)>, bool))
    requires
        start <= end <= s@.len(),
    ensures
        start <= r.0 <= end,
        r.1 matches Some((a, b)) ==> start <= a <= b <= end,
        ({
            let (n1, n2, more) = spec_split_dash(s@.subrange(start as int, end as int));
            &&& n1 == s@.subrange(start as int, r.0 as int)
            &&& more == r.2
            &&& match n2 {
                Some(n) => r.1 matches Some((a, b)) && n == s@.subrange(a as int, b as int),
                None => r.1 is None,
            }
        }),
{
    let ghost piece = s@.subrange(start as int, end as int);
    match first_byte_index(s, start, end, 0x2D) {
        None => (end, None, false),
        Some(i1) => {
            proof {
                assert(s@.subrange(start as int, i1 as int) =~= piece.take(i1 - start));
                assert(s@.subrange(i1 + 1, end as int) =~= piece.subrange(i1 - start + 1, piece.len() as int));
            }
            match first_byte_index(s, i1 + 1, end, 0x2D) {
                None => (i1, Some((i1 + 1, end)), false),
                Some(i2) => {
                    proof {
                        assert(s@.subrange(i1 + 1, i2 as int) =~= piece.subrange(i1 - start + 1, piece.len() as int).take(
                            i2 - i1 - 1));
                    }
                    (i1, Some((i1 + 1, i2)), true)
                },
            }
        },
    }
}

/// Parse one comma-separated piece in `s[start..end]`.
fn parse_range_piece(s: &[u8], start: usize, end: usize, len: usize) -> (r: Result<Option<(usize, usize)>, &'static str>)
    requires
        start <= end <= s@.len(),
    ensures
        match spec_range_piece(s@.subrange(start as int, end as int), len as int) {
            Ok(None) => r == Ok::<Option<(usize, usize)>, &'static str>(None),
            Ok(Some((a, b))) => r matches Ok(Some(p)) && p.0 == a && p.1 == b,
            Err(e) => r matches Err(m) && m@ == e,
        },
{
    let ghost piece = s@.subrange(start as int, end as int);
    if start == end {
        return Err("empty range");
    }
    if s[start] == 0x2D || s[end - 1] == 0x2D {
        return Err("range cannot start or end with `-`");
    }
    if end - start == 1 && s[start] == 0x2A {
        if len == 0 {
            return Ok(None);
        } else {
            return Ok(Some((0, len - 1)));
        }
    }
    if len == 0 {
        return Err("out of bounds");
    }
    let (n1_end, n2, more) = split_dash(s, start, end);
    let ghost split = spec_split_dash(piece);
    assert(split.0 == s@.subrange(start as int, n1_end as int));
    let first = match parse_range_number(s, start, n1_end, len) {
        Ok(v) => v,
        Err(e) => return Err(e),
    };
    let end_value = match n2 {
        Some((a, b)) => match parse_range_number(s, a, b, len) {
            Ok(v) => v,
            Err(e) => return Err(e),
        },
        None => first,
    };
    proof {
        assert(piece.len() > 0 && piece[0] == s@[start as int] && piece.last() == s@[end - 1]);
        assert(!(piece.len() == 1 && piece[0] == 0x2A));
        assert(spec_range_number(split.0, len as int) == Ok::<int, Seq<char>>(first as int));
        match split.1 {
            Some(n) => {
                assert(spec_range_number(n, len as int) == Ok::<int, Seq<char>>(end_value as int));
            },
            None => {
                assert(end_value == first);
            },
        }
        assert(split.2 == more);
    }
    if more {
        return Err("only one `-` allowed per range");
    }
    if first > end_value {
        return Err("start of range must be before the end");
    }
    if end_value >= len {
        return Err("out of bounds");
    }
    Ok(Some((first, end_value)))
}

/// The ranges of the pieces already parsed, followed by those of the pieces still to parse.
pub open spec fn spec_append_ranges(
    done: Seq<(int, int)>,
    rest: Result<Seq<(int, int)>, Seq<char>>,
) -> Result<Seq<(int, int)>, Seq<char>> {
    match rest {
        Ok(r) => Ok(done + r),
        Err(e) => Err(e),
    }
}

/// Parse the comma-separated pieces of `s`, in order.
fn parse_range_pieces(s: &[u8], len: usize) -> (r: Result<Vec<ReflexiveAccessRange>, &'static str>)
    ensures
        match spec_range_pieces(s@, len as int) {
            Ok(v) => r matches Ok(x) && spec_ranges_int(x@) == v,
            Err(e) => r matches Err(m) && m@ == e,
        },
{
    let mut out: Vec<ReflexiveAccessRange> = Vec::new();
    let mut pos: usize = 0;
    assert(s@.subrange(0, s@.len() as int) =~= s@);
    loop
        invariant
            pos <= s@.len(),
            spec_range_pieces(s@, len as int) == spec_append_ranges(
                spec_ranges_int(out@),
                spec_range_pieces(s@.subrange(pos as int, s@.len() as int), len as int),
            ),
        decreases s@.len() - pos,
    {
        let ghost rest = s@.subrange(pos as int, s@.len() as int);
        let ghost old_out = spec_ranges_int(out@);
        match first_byte_index(s, pos, s.len(), 0x2C) {
            None => {
                let piece = parse_range_piece(s, pos, s.len(), len);
                match piece {
                    Err(e) => {
                        return Err(e);
                    },
                    Ok(Some(p)) => {
                        out.push(p);
                        proof {
                            assert(spec_ranges_int(out@) =~= old_out + seq![(p.0 as int, p.1 as int)]);
                        }
                    },
                    Ok(None) => {
                        proof {
                            assert(old_out + Seq::<(int, int)>::empty() =~= old_out);
                        }
                    },
                }
                return Ok(out);
            },
            Some(k) => {
                proof {
                    assert(rest.take(k - pos) =~= s@.subrange(pos as int, k as int));
                    assert(rest.subrange(k - pos + 1, rest.len() as int) =~= s@.subrange(k + 1, s@.len() as int));
                }
                let piece = parse_range_piece(s, pos, k, len);
                match piece {
                    Err(e) => {
                        return Err(e);
                    },
                    Ok(Some(p)) => {
                        out.push(p);
                        proof {
                            let new_out = spec_ranges_int(out@);
                            assert(new_out =~= old_out + seq![(p.0 as int, p.1 as int)]);
                            let later = spec_range_pieces(s@.subrange(k + 1, s@.len() as int), len as int);
                            match later {
                                Ok(l) => {
                                    assert(old_out + (seq![(p.0 as int, p.1 as int)] + l) =~= new_out + l);
                                },
                                Err(_) => {},
                            }
                        }
                    },
                    Ok(None) => {},
                }
                pos = k + 1;
            },
        }
    }
}

/// `true` if the ranges are sorted by their start.
pub open spec fn spec_sorted_by_start(r: Seq<(int, int)>) -> bool {
    forall|i: int, j: int| 0 <= i < j < r.len() ==> r[i].0 <= r[j].0
}

/// `true` if every range has its start no later than its end.
pub open spec fn spec_well_ordered(r: Seq<(int, int)>) -> bool {
    forall|k: int| 0 <= k < r.len() ==> #[trigger] r[k].0 <= r[k].1
}

/// Adding a range at the end covers what it covers in addition.
proof fn lemma_covered_push(t: Seq<(int, int)>, e: (int, int), x: int)
    ensures
        spec_covered(t.push(e), x) <==> (spec_covered(t, x) || (e.0 <= x && x <= e.1)),
{
    let t1 = t.push(e);
    if spec_covered(t1, x) {
        let k = choose|k: int| 0 <= k < t1.len() && #[trigger] t1[k].0 <= x && x <= t1[k].1;
        if k < t.len() {
            assert(t[k] == t1[k]);
        }
    }
    if spec_covered(t, x) {
        let k = choose|k: int| 0 <= k < t.len() && #[trigger] t[k].0 <= x && x <= t[k].1;
        assert(t1[k] == t[k]);
    }
    if e.0 <= x && x <= e.1 {
        assert(t1[t.len() as int] == e);
    }
}

/// Inserting a range anywhere covers what it covers in addition.
proof fn lemma_covered_insert(o: Seq<(int, int)>, pos: int, e: (int, int), x: int)
    requires
        0 <= pos <= o.len(),
    ensures
        spec_covered(o.insert(pos, e), x) <==> (spec_covered(o, x) || (e.0 <= x && x <= e.1)),
{
    o.insert_ensures(pos, e);
    let n = o.insert(pos, e);
    if spec_covered(n, x) {
        let k = choose|k: int| 0 <= k < n.len() && #[trigger] n[k].0 <= x && x <= n[k].1;
        if k < pos {
            assert(o[k] == n[k]);
        } else if k > pos {
            assert(o[k - 1] == n[k]);
            assert(o[k - 1].0 <= x);
        }
    }
    if spec_covered(o, x) {
        let k = choose|k: int| 0 <= k < o.len() && #[trigger] o[k].0 <= x && x <= o[k].1;
        if k < pos {
            assert(n[k] == o[k]);
        } else {
            assert(n[k + 1] == o[k]);
            assert(n[k + 1].0 <= x);
        }
    }
    if e.0 <= x && x <= e.1 {
        assert(n[pos] == e);
    }
}

/// Inserting a range before the first range with a later start keeps the ranges sorted.
proof fn lemma_sorted_insert(o: Seq<(int, int)>, pos: int, e: (int, int))
    requires
        0 <= pos <= o.len(),
        spec_sorted_by_start(o),
        spec_well_ordered(o),
        e.0 <= e.1,
        forall|k: int| 0 <= k < pos ==> o[k].0 <= e.0,
        pos < o.len() ==> o[pos].0 > e.0,
    ensures
        spec_sorted_by_start(o.insert(pos, e)),
        spec_well_ordered(o.insert(pos, e)),
{
    o.insert_ensures(pos, e);
    let n = o.insert(pos, e);
    assert forall|k: int| 0 <= k < n.len() implies #[trigger] n[k].0 <= n[k].1 by {
        if k < pos {
            assert(n[k] == o[k]);
        } else if k > pos {
            assert(n[k] == o[k - 1]);
        }
    }
    assert forall|a: int, b: int| 0 <= a < b < n.len() implies n[a].0 <= n[b].0 by {
        if b < pos {
            assert(n[a] == o[a] && n[b] == o[b]);
        } else if b == pos {
            assert(n[a] == o[a]);
        } else {
            assert(n[b] == o[b - 1]);
            if a < pos {
                assert(n[a] == o[a]);
                assert(o[pos].0 <= o[b - 1].0);
            } else if a == pos {
                assert(o[pos].0 <= o[b - 1].0);
            } else {
                assert(n[a] == o[a - 1]);
            }
        }
    }
}

/// The ranges as integer pairs, after one more range is added at the end.
proof fn lemma_ranges_int_push(v: Seq<ReflexiveAccessRange>, e: ReflexiveAccessRange)
    ensures
        spec_ranges_int(v.push(e)) =~= spec_ranges_int(v).push((e.0 as int, e.1 as int)),
{
}

/// Sort ranges by their start, keeping the indices they cover.
fn sort_ranges(v: &Vec<ReflexiveAccessRange>) -> (r: Vec<ReflexiveAccessRange>)
    requires
        spec_well_ordered(spec_ranges_int(v@)),
    ensures
        spec_well_ordered(spec_ranges_int(r@)),
        spec_sorted_by_start(spec_ranges_int(r@)),
        forall|x: int| spec_covered(spec_ranges_int(r@), x) <==> spec_covered(spec_ranges_int(v@), x),
{
    let mut out: Vec<ReflexiveAccessRange> = Vec::new();
    let mut i: usize = 0;
    while i < v.len()
        invariant
            i <= v@.len(),
            spec_well_ordered(spec_ranges_int(v@)),
            spec_well_ordered(spec_ranges_int(out@)),
            spec_sorted_by_start(spec_ranges_int(out@)),
            forall|x: int| spec_covered(spec_ranges_int(out@), x) <==> spec_covered(spec_ranges_int(v@.take(i as int)), x),
        decreases v@.len() - i,
    {
        let e = v[i];
        let mut pos: usize = 0;
        while pos < out.len() && out[pos].0 <= e.0
            invariant
                pos <= out@.len(),
                forall|k: int| 0 <= k < pos ==> out@[k].0 <= e.0,
            decreases out@.len() - pos,
        {
            pos = pos + 1;
        }
        let ghost old_out = out@;
        out.insert(pos, e);
        proof {
            let o = spec_ranges_int(old_out);
            let ee = (e.0 as int, e.1 as int);
            assert(spec_ranges_int(out@) =~= o.insert(pos as int, ee));
            assert(v@.take(i + 1) =~= v@.take(i as int).push(e));
            lemma_ranges_int_push(v@.take(i as int), e);
            assert(spec_ranges_int(v@)[i as int].0 <= spec_ranges_int(v@)[i as int].1);
            lemma_sorted_insert(o, pos as int, ee);
            assert forall|x: int| spec_covered(spec_ranges_int(out@), x) <==> spec_covered(spec_ranges_int(v@.take(i + 1)), x) by {
                lemma_covered_insert(o, pos as int, ee, x);
                lemma_covered_push(spec_ranges_int(v@.take(i as int)), ee, x);
            }
        }
        i = i + 1;
    }
    proof {
        assert(v@.take(v@.len() as int) =~= v@);
    }
    out
}

/// Join sorted ranges that overlap or touch.
fn merge_sorted_ranges(v: &Vec<ReflexiveAccessRange>) -> (r: Vec<ReflexiveAccessRange>)
    requires
        spec_well_ordered(spec_ranges_int(v@)),
        spec_sorted_by_start(spec_ranges_int(v@)),
        forall|k: int| 0 <= k < v@.len() ==> #[trigger] v@[k].1 < usize::MAX,
    ensures
        spec_canonical(spec_ranges_int(r@)),
        forall|x: int| spec_covered(spec_ranges_int(r@), x) <==> spec_covered(spec_ranges_int(v@), x),
{
    let mut out: Vec<ReflexiveAccessRange> = Vec::new();
    let mut i: usize = 0;
    while i < v.len()
        invariant
            i <= v@.len(),
            spec_well_ordered(spec_ranges_int(v@)),
            spec_sorted_by_start(spec_ranges_int(v@)),
            forall|k: int| 0 <= k < v@.len() ==> #[trigger] v@[k].1 < usize::MAX,
            spec_canonical(spec_ranges_int(out@)),
            out@.len() > 0 ==> forall|j: int| i <= j < v@.len() ==> out@.last().0 <= #[trigger] v@[j].0,
            out@.len() > 0 ==> out@.last().1 < usize::MAX,
            forall|x: int| spec_covered(spec_ranges_int(out@), x) <==> spec_covered(spec_ranges_int(v@.take(i as int)), x),
        decreases v@.len() - i,
    {
        let e = v[i];
        let ghost o = spec_ranges_int(out@);
        let ghost ee = (e.0 as int, e.1 as int);
        proof {
            assert(v@.take(i + 1) =~= v@.take(i as int).push(e));
            lemma_ranges_int_push(v@.take(i as int), e);
            assert(spec_ranges_int(v@)[i as int] == ee);
            assert forall|j: int| i + 1 <= j < v@.len() implies e.0 <= #[trigger] v@[j].0 by {
                assert(spec_ranges_int(v@)[i as int].0 <= spec_ranges_int(v@)[j].0);
            }
        }
        let n_out = out.len();
        if n_out > 0 && e.0 <= out[n_out - 1].1 + 1 {
            let last = out[n_out - 1];
            let new_end = if e.1 > last.1 { e.1 } else { last.1 };
            let ghost old_out = out@;
            out.set(n_out - 1, (last.0, new_end));
            proof {
                let n = spec_ranges_int(out@);
                let base = o.drop_last();
                assert(o =~= base.push((last.0 as int, last.1 as int)));
                assert(n =~= base.push((last.0 as int, new_end as int)));
                assert(last.0 <= e.0);
                assert forall|x: int| spec_covered(n, x) <==> spec_covered(spec_ranges_int(v@.take(i + 1)), x) by {
                    lemma_covered_push(base, (last.0 as int, last.1 as int), x);
                    lemma_covered_push(base, (last.0 as int, new_end as int), x);
                    lemma_covered_push(spec_ranges_int(v@.take(i as int)), ee, x);
                }
                assert forall|k: int| 0 <= k < n.len() implies #[trigger] n[k].0 <= n[k].1 by {
                    if k < n.len() - 1 {
                        assert(n[k] == o[k]);
                    }
                }
                assert forall|k: int| 0 <= k < n.len() - 1 implies #[trigger] n[k].1 + 1 < n[k + 1].0 by {
                    assert(n[k] == o[k]);
                    assert(n[k + 1].0 == o[k + 1].0);
                }
            }
        } else {
            let ghost old_out = out@;
            out.push(e);
            proof {
                let n = spec_ranges_int(out@);
                lemma_ranges_int_push(old_out, e);
                assert(n =~= o.push(ee));
                assert forall|x: int| spec_covered(n, x) <==> spec_covered(spec_ranges_int(v@.take(i + 1)), x) by {
                    lemma_covered_push(o, ee, x);
                    lemma_covered_push(spec_ranges_int(v@.take(i as int)), ee, x);
                }
                assert forall|k: int| 0 <= k < n.len() implies #[trigger] n[k].0 <= n[k].1 by {
                    if k < n.len() - 1 {
                        assert(n[k] == o[k]);
                    }
                }
                assert forall|k: int| 0 <= k < n.len() - 1 implies #[trigger] n[k].1 + 1 < n[k + 1].0 by {
                    assert(n[k] == o[k]);
                    if k + 1 < n.len() - 1 {
                        assert(n[k + 1] == o[k + 1]);
                    }
                }
            }
        }
        i = i + 1;
    }
    proof {
        assert(v@.take(v@.len() as int) =~= v@);
    }
    out
}

/// Every range of a parsed piece lies inside `[0, len)`.
proof fn lemma_range_piece_bounds(r: Seq<u8>, len: int)
    requires
        len >= 0,
    ensures
        spec_range_piece(r, len) matches Ok(Some(p)) ==> 0 <= p.0 <= p.1 < len,
{
    if let Ok(Some(p)) = spec_range_piece(r, len) {
        if !(r.len() == 1 && r[0] == 0x2A) {
            let (n1, n2, more) = spec_split_dash(r);
            if let Ok(v) = spec_range_number(n1, len) {
                if !(exists|i: int| 0 <= i < n1.len() && n1[i] == 0x65) {
                    lemma_decimal_nonneg(n1);
                }
            }
        }
    }
}

/// Every range of parsed pieces lies inside `[0, len)`.
proof fn lemma_range_pieces_bounds(s: Seq<u8>, len: int)
    requires
        len >= 0,
    ensures
        spec_range_pieces(s, len) matches Ok(v) ==> forall|k: int| 0 <= k < v.len() ==> 0 <= #[trigger] v[k].0 <= v[k].1 < len,
    decreases s.len(),
{
    match spec_first_byte_index(s, 0x2C) {
        None => {
            lemma_range_piece_bounds(s, len);
        },
        Some(k) => {
            if 0 <= k < s.len() {
                lemma_range_piece_bounds(s.take(k), len);
                lemma_range_pieces_bounds(s.subrange(k + 1, s.len() as int), len);
                if let Ok(v) = spec_range_pieces(s, len) {
                    let rest = spec_range_pieces(s.subrange(k + 1, s.len() as int), len);
                    assert forall|j: int| 0 <= j < v.len() implies 0 <= #[trigger] v[j].0 <= v[j].1 < len by {
                        if let Ok(Some(p)) = spec_range_piece(s.take(k), len) {
                            if j > 0 {
                                assert(v[j] == rest->Ok_0[j - 1]);
                            }
                        } else {
                            assert(v[j] == rest->Ok_0[j]);
                        }
                    }
                }
            }
        },
    }
}

/// Parse an index matcher such as `0-3,5,e` or `*` against an array of `len` elements.
///
/// Pieces are separated by `,`; each piece is `*` (every index), one index, or two indices joined by `-`, where `e`
/// names the last index. The result holds the ranges sorted, with overlapping and touching ranges joined.
pub fn parse_range(matcher: &str, len: usize) -> (r: Result<Vec<ReflexiveAccessRange>, &'static str>)
    ensures
        match spec_parse_ranges(matcher.spec_bytes(), len as int) {
            Ok(pieces) => r matches Ok(v) && spec_canonical(spec_ranges_int(v@)) && forall|x: int|
                spec_covered(spec_ranges_int(v@), x) <==> spec_covered(pieces, x),
            Err(e) => r matches Err(m) && m@ == e,
        },
{
    parse_range_bytes(matcher.as_bytes(), len)
}

/// Parse an index matcher held as bytes, as [`parse_range`] does.
pub(crate) fn parse_range_bytes(bytes: &[u8], len: usize) -> (r: Result<Vec<ReflexiveAccessRange>, &'static str>)
    ensures
        match spec_parse_ranges(bytes@, len as int) {
            Ok(pieces) => r matches Ok(v) && spec_canonical(spec_ranges_int(v@)) && forall|x: int|
                spec_covered(spec_ranges_int(v@), x) <==> spec_covered(pieces, x),
            Err(e) => r matches Err(m) && m@ == e,
        },
{
    let mut i: usize = 0;
    while i < bytes.len()
        invariant
            i <= bytes@.len(),
            forall|j: int| 0 <= j < i ==> spec_allowed_range_byte(#[trigger] bytes@[j]),
        decreases bytes@.len() - i,
    {
        let b = bytes[i];
        if !((0x30 <= b && b <= 0x39) || b == 0x2C || b == 0x2D || b == 0x65 || b == 0x2A) {
            proof {
                assert(!spec_allowed_range_byte(bytes@[i as int]));
            }
            return Err("invalid character in matcher");
        }
        i = i + 1;
    }
    let pieces = match parse_range_pieces(bytes, len) {
        Ok(p) => p,
        Err(e) => return Err(e),
    };
    proof {
        lemma_range_pieces_bounds(bytes@, len as int);
        let p = spec_ranges_int(pieces@);
        assert forall|k: int| 0 <= k < p.len() implies #[trigger] p[k].0 <= p[k].1 by {}
    }
    let sorted = sort_ranges(&pieces);
    proof {
        let p = spec_ranges_int(pieces@);
        let q = spec_ranges_int(sorted@);
        assert forall|k: int| 0 <= k < sorted@.len() implies #[trigger] sorted@[k].1 < usize::MAX by {
            assert(q[k].0 <= q[k].1);
            assert(q[k].0 <= q[k].1 && q[k].1 <= q[k].1);
            assert(spec_covered(q, q[k].1));
            assert(spec_covered(p, q[k].1));
            let j = choose|j: int| 0 <= j < p.len() && #[trigger] p[j].0 <= q[k].1 && q[k].1 <= p[j].1;
            assert(p[j].1 < len);
        }
    }
    Ok(merge_sorted_ranges(&sorted))
}

} // verus!
