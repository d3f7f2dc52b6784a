//! Distribution of gradient stops over a line width, and rendering of text
//! where every character is wrapped in a color escape sequence.

use vstd::arithmetic::div_mod::{lemma_fundamental_div_mod, lemma_mod_division_less_than_divisor};
use vstd::prelude::*;
use vstd::string::{StrSliceExecFns, StringExecFns};

use crate::gradient::{blend_at, is_exactly, two_stop_seq, ColorStep};
use crate::rgb::RGB;
use crate::text::{decimal_chars, push_char, push_decimal, to_chars};

verus! {

/// The per-segment character budget: the width divided by the number of
/// segments (floor). With fewer than three stops there is at most one
/// segment, and it spans the whole width.
pub open spec fn chunk_of(n: int, width: int) -> int {
    if n > 2 {
        width / (n - 1)
    } else {
        width
    }
}

/// The first segment: from the first stop toward the second (or toward the
/// first itself, when it is alone), across one chunk of positions.
pub open spec fn seg_first(stops: Seq<RGB>, width: int) -> Seq<ColorStep> {
    let to = if stops.len() >= 2 {
        stops[1]
    } else {
        stops[0]
    };
    two_stop_seq(stops[0], to, chunk_of(stops.len() as int, width))
}

/// The length of segment `k`, for `k >= 1`: one chunk, except that the final
/// segment also absorbs the remainder the floor division left over.
pub open spec fn seg_len_at(n: int, width: int, k: int) -> int {
    let chunk = chunk_of(n, width);
    if k == n - 2 {
        chunk + (width - chunk * (n - 1))
    } else {
        chunk
    }
}

/// Segment `k`, for `k >= 1`, between stop `k` and stop `k + 1`: the
/// positions of a two-stop gradient with one extra step whose first position
/// is dropped, because it repeats the boundary color the previous segment
/// ended at. A zero-length segment yields its end boundary color alone.
pub open spec fn seg_mid(stops: Seq<RGB>, width: int, k: int) -> Seq<ColorStep> {
    let l = seg_len_at(stops.len() as int, width, k);
    if l == 0 {
        seq![ColorStep::Exact(stops[k + 1])]
    } else {
        two_stop_seq(stops[k], stops[k + 1], l + 1).skip(1)
    }
}

/// The segments from `k` on, for `k >= 1`, concatenated.
pub open spec fn segs_from(stops: Seq<RGB>, width: int, k: int) -> Seq<ColorStep>
    decreases stops.len() - k,
{
    if k + 1 >= stops.len() {
        Seq::empty()
    } else {
        seg_mid(stops, width, k) + segs_from(stops, width, k + 1)
    }
}

/// Every position of the whole gradient path: the first segment, then each
/// later segment in order.
pub open spec fn all_segs(stops: Seq<RGB>, width: int) -> Seq<ColorStep> {
    seg_first(stops, width) + segs_from(stops, width, 1)
}

/// The distribution of `stops` over `width` character positions: the first
/// `width` positions of the gradient path.
pub open spec fn plan_spec(stops: Seq<RGB>, width: int) -> Seq<ColorStep> {
    all_segs(stops, width).take(width)
}

/// The chunk, multiplied by the segment count, never exceeds the width.
proof fn lemma_chunk_bound(n: int, width: int)
    requires
        n >= 1,
        width >= 0,
    ensures
        0 <= chunk_of(n, width) <= width,
        n >= 2 ==> chunk_of(n, width) * (n - 1) <= width,
{
    if n > 2 {
        lemma_fundamental_div_mod(width, n - 1);
        lemma_mod_division_less_than_divisor(width, n - 1);
        assert(0 <= chunk_of(n, width) && chunk_of(n, width) * (n - 1) <= width && chunk_of(
            n,
            width,
        ) <= width) by (nonlinear_arith)
            requires
                n > 2,
                width >= 0,
                width == (n - 1) * (width / (n - 1)) + width % (n - 1),
                0 <= width % (n - 1) < n - 1,
                chunk_of(n, width) == width / (n - 1),
        ;
    } else if n == 2 {
        assert(chunk_of(n, width) * (n - 1) <= width) by (nonlinear_arith)
            requires
                chunk_of(n, width) == width,
                n == 2,
        ;
    }
}

/// The exact total length of the segments from `k` on.
proof fn lemma_segs_from_len(stops: Seq<RGB>, width: int, k: int)
    requires
        stops.len() >= 3,
        1 <= k <= stops.len() - 2,
        width >= 1,
    ensures
        chunk_of(stops.len() as int, width) >= 1 ==> segs_from(stops, width, k).len() == width
            - chunk_of(stops.len() as int, width) * k,
        chunk_of(stops.len() as int, width) == 0 ==> segs_from(stops, width, k).len() == width + (
        stops.len() - 2 - k),
    decreases stops.len() - k,
{
    let n = stops.len() as int;
    let chunk = chunk_of(n, width);
    lemma_chunk_bound(n, width);
    if k == n - 2 {
        assert(segs_from(stops, width, k) == seg_mid(stops, width, k) + segs_from(
            stops,
            width,
            k + 1,
        ));
        assert(segs_from(stops, width, k + 1) =~= Seq::<ColorStep>::empty());
        let l = seg_len_at(n, width, k);
        assert(l == chunk + (width - chunk * (n - 1)));
        if chunk >= 1 {
            assert(chunk * (n - 2) + chunk == chunk * (n - 1)) by (nonlinear_arith);
            assert(l == width - chunk * (n - 2));
            assert(l >= chunk);
            assert(seg_mid(stops, width, k).len() == l);
        } else {
            assert(l == width);
            assert(seg_mid(stops, width, k).len() == width);
        }
    } else {
        lemma_segs_from_len(stops, width, k + 1);
        let l = seg_len_at(n, width, k);
        assert(l == chunk);
        if chunk >= 1 {
            assert(seg_mid(stops, width, k).len() == chunk);
            assert(chunk * (k + 1) == chunk * k + chunk) by (nonlinear_arith);
            assert(chunk * (k + 1) <= chunk * (n - 1)) by (nonlinear_arith)
                requires
                    chunk >= 1,
                    k + 1 <= n - 1,
            ;
        } else {
            assert(seg_mid(stops, width, k).len() == 1);
        }
    }
}

/// The gradient path is long enough to cover the width; with a chunk of at
/// least one (or at most two stops) it covers it exactly.
proof fn lemma_all_segs_len(stops: Seq<RGB>, width: int)
    requires
        stops.len() >= 1,
        width >= 0,
    ensures
        all_segs(stops, width).len() >= width,
        stops.len() <= 2 ==> all_segs(stops, width).len() == width,
        stops.len() >= 3 && chunk_of(stops.len() as int, width) >= 1 ==> all_segs(
            stops,
            width,
        ).len() == width,
{
    let n = stops.len() as int;
    let chunk = chunk_of(n, width);
    lemma_chunk_bound(n, width);
    assert(seg_first(stops, width).len() == chunk);
    if n <= 2 {
        assert(segs_from(stops, width, 1) =~= Seq::<ColorStep>::empty());
    } else {
        if width == 0 {
            assert(all_segs(stops, width).len() >= 0);
        } else {
            lemma_segs_from_len(stops, width, 1);
            if chunk >= 1 {
                assert(chunk * 1 == chunk) by (nonlinear_arith);
            }
        }
    }
}

/// The distribution always yields exactly one position per character of the
/// width.
pub proof fn lemma_plan_len(stops: Seq<RGB>, width: int)
    requires
        stops.len() >= 1,
        width >= 0,
    ensures
        plan_spec(stops, width).len() == width,
{
    lemma_all_segs_len(stops, width);
}

/// The last position of the segments from `k` on stands exactly at the last
/// stop, as long as each segment spans at least one character.
proof fn lemma_segs_from_last(stops: Seq<RGB>, width: int, k: int)
    requires
        stops.len() >= 3,
        1 <= k <= stops.len() - 2,
        width >= 1,
        chunk_of(stops.len() as int, width) >= 1,
    ensures
        segs_from(stops, width, k).len() >= 1,
        is_exactly(segs_from(stops, width, k).last(), stops.last()),
    decreases stops.len() - k,
{
    let n = stops.len() as int;
    let chunk = chunk_of(n, width);
    lemma_chunk_bound(n, width);
    let l = seg_len_at(n, width, k);
    let seg = seg_mid(stops, width, k);
    if k == n - 2 {
        assert(chunk * (n - 2) + chunk == chunk * (n - 1)) by (nonlinear_arith);
        assert(l >= chunk >= 1);
        assert(seg.len() == l);
        assert(seg.last() == blend_at(stops[k], stops[k + 1], l, l + 1));
        assert(segs_from(stops, width, k + 1) =~= Seq::<ColorStep>::empty());
        assert(segs_from(stops, width, k).last() == seg.last());
    } else {
        lemma_segs_from_last(stops, width, k + 1);
        assert(segs_from(stops, width, k).last() == segs_from(stops, width, k + 1).last());
    }
}

/// The invariant of the distributor: over a positive width, a non-empty stop
/// list yields exactly one position per character, the first position stands
/// exactly at the first stop, and the last position stands exactly at the
/// last stop. With two or more stops this holds as long as the width grants
/// every segment at least one character and spans at least two characters in
/// all; a solid single stop needs no such room.
pub proof fn lemma_distributor_endpoints(stops: Seq<RGB>, width: int)
    requires
        stops.len() >= 1,
        width >= 1,
        stops.len() == 1 || (width >= stops.len() - 1 && width >= 2),
    ensures
        plan_spec(stops, width).len() == width,
        is_exactly(plan_spec(stops, width).first(), stops.first()),
        is_exactly(plan_spec(stops, width).last(), stops.last()),
{
    let n = stops.len() as int;
    let chunk = chunk_of(n, width);
    let plan = plan_spec(stops, width);
    let full = all_segs(stops, width);
    lemma_plan_len(stops, width);
    lemma_all_segs_len(stops, width);
    lemma_chunk_bound(n, width);
    if n >= 3 {
        lemma_fundamental_div_mod(width, n - 1);
        lemma_mod_division_less_than_divisor(width, n - 1);
        assert(chunk >= 1) by (nonlinear_arith)
            requires
                n >= 3,
                width >= n - 1,
                width == (n - 1) * (width / (n - 1)) + width % (n - 1),
                0 <= width % (n - 1) < n - 1,
                chunk == width / (n - 1),
        ;
    }
    assert(seg_first(stops, width).len() == chunk >= 1);
    assert(plan[0] == full[0]);
    assert(full[0] == seg_first(stops, width)[0]);
    assert(seg_first(stops, width)[0] == blend_at(
        stops[0],
        if n >= 2 {
            stops[1]
        } else {
            stops[0]
        },
        0,
        chunk,
    ));
    assert(is_exactly(plan.first(), stops.first()));
    assert(full.len() == width);
    assert(plan =~= full);
    if n == 1 {
        assert(plan.last() == blend_at(stops[0], stops[0], width - 1, chunk));
    } else if n == 2 {
        assert(segs_from(stops, width, 1) =~= Seq::<ColorStep>::empty());
        assert(plan.last() == seg_first(stops, width).last());
        assert(plan.last() == blend_at(stops[0], stops[1], width - 1, width));
    } else {
        lemma_segs_from_last(stops, width, 1);
        assert(plan.last() == segs_from(stops, width, 1).last());
    }
}

/// Produces the multi-stop distribution of `stops` over `width` character
/// positions: one [`ColorStep`] per position, walking the stops left to
/// right, with the remainder of the width absorbed by the final segment.
pub fn plan_colors(stops: &Vec<RGB>, width: usize) -> (out: Vec<ColorStep>)
    requires
        stops@.len() >= 1,
    ensures
        out@ == plan_spec(stops@, width as int),
        out@.len() == width,
{
    proof {
        lemma_all_segs_len(stops@, width as int);
        lemma_chunk_bound(stops@.len() as int, width as int);
    }
    let ghost full = all_segs(stops@, width as int);
    let n = stops.len();
    let chunk: usize = if n > 2 {
        width / (n - 1)
    } else {
        width
    };
    let mut out: Vec<ColorStep> = Vec::new();

    // First segment: stop 0 toward stop 1 (or itself), one chunk of steps.
    let from0 = stops[0];
    let to0 = if n >= 2 {
        stops[1]
    } else {
        stops[0]
    };
    let mut j: usize = 0;
    while j < chunk
        invariant
            stops@.len() == n >= 1,
            chunk == chunk_of(n as int, width as int),
            chunk <= width,
            j <= chunk,
            from0 == stops@[0],
            to0 == (if n >= 2 {
                stops@[1]
            } else {
                stops@[0]
            }),
            out@ =~= seg_first(stops@, width as int).take(j as int),
        decreases chunk - j,
    {
        let step = if chunk <= 1 {
            ColorStep::Blend { from: from0, to: to0, num: 0, den: 1 }
        } else {
            ColorStep::Blend { from: from0, to: to0, num: j, den: chunk - 1 }
        };
        proof {
            assert(step == blend_at(from0, to0, j as int, chunk as int));
            assert(seg_first(stops@, width as int).take(j + 1) =~= seg_first(
                stops@,
                width as int,
            ).take(j as int).push(step));
        }
        out.push(step);
        j = j + 1;
    }
    proof {
        assert(out@ =~= seg_first(stops@, width as int));
        assert(out@ + segs_from(stops@, width as int, 1) =~= full);
    }

    // Later segments, each picking up at the boundary color the previous one
    // ended at, until the width is covered.
    let mut k: usize = 1;
    while k < n - 1 && out.len() < width
        invariant
            stops@.len() == n >= 1,
            chunk == chunk_of(n as int, width as int),
            n >= 2 ==> chunk * (n - 1) <= width,
            1 <= k <= n || n == 1,
            out@.len() <= width,
            full == all_segs(stops@, width as int),
            full.len() >= width,
            out@ =~= full.take(out@.len() as int),
            out@.len() < width ==> out@ + segs_from(stops@, width as int, k as int) =~= full,
        decreases n - k,
    {
        let ghost rest = segs_from(stops@, width as int, k + 1);
        proof {
            assert(segs_from(stops@, width as int, k as int) == seg_mid(
                stops@,
                width as int,
                k as int,
            ) + rest);
        }
        let l: usize;
        if k + 2 == n {
            proof {
                assert((chunk as int) * ((k + 1) as int) == (chunk as int) * ((n - 1) as int));
                assert((chunk as int) * ((n - 1) as int) >= chunk) by (nonlinear_arith)
                    requires
                        n >= 3,
                        chunk >= 0,
                ;
            }
            l = chunk + (width - chunk * (k + 1));
        } else {
            l = chunk;
        }
        proof {
            assert(l == seg_len_at(n as int, width as int, k as int));
            assert(l <= width);
        }
        let ghost seg = seg_mid(stops@, width as int, k as int);
        if l == 0 {
            let step = ColorStep::Exact(stops[k + 1]);
            proof {
                assert(seg =~= seq![step]);
                assert(out@.push(step) + rest =~= full);
                assert(out@.push(step) =~= full.take(out@.len() as int + 1));
            }
            out.push(step);
        } else {
            let from = stops[k];
            let to = stops[k + 1];
            let mut pushed: usize = 0;
            while pushed < l && out.len() < width
                invariant
                    stops@.len() == n >= 1,
                    k + 1 < n,
                    from == stops@[k as int],
                    to == stops@[k as int + 1],
                    pushed <= l,
                    l == seg_len_at(n as int, width as int, k as int),
                    1 <= l <= width,
                    seg == seg_mid(stops@, width as int, k as int),
                    rest == segs_from(stops@, width as int, k + 1),
                    out@.len() <= width,
                    full == all_segs(stops@, width as int),
                    full.len() >= width,
                    out@ =~= full.take(out@.len() as int),
                    out@.len() < width ==> out@ + seg.skip(pushed as int) + rest =~= full,
                decreases l - pushed,
            {
                let step = ColorStep::Blend { from, to, num: pushed + 1, den: l };
                proof {
                    assert(seg[pushed as int] == blend_at(from, to, pushed + 1, l + 1));
                    assert(seg.skip(pushed as int) =~= seq![step] + seg.skip(pushed as int + 1));
                    assert(out@.push(step) + seg.skip(pushed as int + 1) + rest =~= out@ + seg.skip(
                        pushed as int,
                    ) + rest);
                    assert(out@.push(step) + seg.skip(pushed as int + 1) + rest =~= full);
                    assert(out@.push(step) =~= full.take(out@.len() as int + 1));
                }
                out.push(step);
                pushed = pushed + 1;
            }
            proof {
                if out@.len() < width {
                    assert(pushed == l);
                    assert(seg.skip(l as int) =~= Seq::<ColorStep>::empty());
                    assert(out@ + rest =~= out@ + seg.skip(pushed as int) + rest);
                }
            }
        }
        k = k + 1;
    }
    proof {
        if out@.len() < width {
            assert(k >= n - 1);
            assert(segs_from(stops@, width as int, k as int) =~= Seq::<ColorStep>::empty());
            assert(out@ =~= full);
            assert(false);
        }
        assert(out@ =~= plan_spec(stops@, width as int));
    }
    out
}

// ----- line geometry -----

/// The index of the first newline of `s`, or the length of `s` when it holds
/// none.
pub open spec fn first_nl(s: Seq<char>) -> int
    decreases s.len(),
{
    if s.len() == 0 {
        0
    } else if s[0] == '\n' {
        0
    } else {
        1 + first_nl(s.drop_first())
    }
}

/// The first newline lies within bounds, is a newline, and no newline comes
/// before it.
proof fn lemma_first_nl(s: Seq<char>)
    ensures
        0 <= first_nl(s) <= s.len(),
        first_nl(s) < s.len() ==> s[first_nl(s)] == '\n',
        forall|i: int| 0 <= i < first_nl(s) ==> s[i] != '\n',
    decreases s.len(),
{
    if s.len() == 0 || s[0] == '\n' {
    } else {
        lemma_first_nl(s.drop_first());
        assert forall|i: int| 0 <= i < first_nl(s) implies s[i] != '\n' by {
            if i >= 1 {
                assert(s.drop_first()[i - 1] == s[i]);
            }
        }
        if first_nl(s) < s.len() {
            assert(s.drop_first()[first_nl(s) - 1] == s[first_nl(s)]);
        }
    }
}

/// A scan that passes `m` characters without meeting a newline and then
/// stops, at a newline or at the end, has found the first newline.
proof fn lemma_first_nl_is(s: Seq<char>, m: int)
    requires
        0 <= m <= s.len(),
        forall|i: int| 0 <= i < m ==> s[i] != '\n',
        m < s.len() ==> s[m] == '\n',
    ensures
        first_nl(s) == m,
    decreases s.len(),
{
    if s.len() == 0 {
    } else if s[0] == '\n' {
        assert(m == 0);
    } else {
        assert(m >= 1);
        assert forall|i: int| 0 <= i < m - 1 implies s.drop_first()[i] != '\n' by {
            assert(s.drop_first()[i] == s[i + 1]);
        }
        if m - 1 < s.drop_first().len() {
            assert(s.drop_first()[m - 1] == s[m]);
        }
        lemma_first_nl_is(s.drop_first(), m - 1);
    }
}

/// `s` split at its newlines: the lines, without their terminators. There is
/// always at least one line, and a trailing newline yields an empty final
/// line.
pub open spec fn split_lines_spec(s: Seq<char>) -> Seq<Seq<char>>
    decreases s.len(),
    via split_lines_spec_decreases
{
    if first_nl(s) == s.len() {
        seq![s]
    } else {
        seq![s.take(first_nl(s))] + split_lines_spec(s.skip(first_nl(s) + 1))
    }
}

#[via_fn]
proof fn split_lines_spec_decreases(s: Seq<char>) {
    lemma_first_nl(s);
}

/// The length of the longest of the given sequences.
pub open spec fn max_len_of(lines: Seq<Seq<char>>) -> int
    decreases lines.len(),
{
    if lines.len() == 0 {
        0
    } else {
        let rest = max_len_of(lines.drop_first());
        if lines[0].len() >= rest {
            lines[0].len() as int
        } else {
            rest
        }
    }
}

/// The character count of the longest line of `s`.
pub open spec fn line_width_spec(s: Seq<char>) -> int {
    max_len_of(split_lines_spec(s))
}

/// No line is longer than the longest one.
proof fn lemma_max_len_of_ge(lines: Seq<Seq<char>>, i: int)
    requires
        0 <= i < lines.len(),
    ensures
        lines[i].len() <= max_len_of(lines),
    decreases lines.len(),
{
    if i >= 1 {
        lemma_max_len_of_ge(lines.drop_first(), i - 1);
        assert(lines.drop_first()[i - 1] == lines[i]);
    }
}

/// The views of a vector of character vectors.
pub open spec fn views_of(lines: Seq<Vec<char>>) -> Seq<Seq<char>> {
    lines.map_values(|l: Vec<char>| l@)
}

fn find_nl(chars: &Vec<char>, start: usize) -> (r: Option<usize>)
    requires
        start <= chars@.len(),
    ensures
        match r {
            Some(p) => start <= p < chars@.len() && first_nl(chars@.skip(start as int)) == p
                - start,
            None => first_nl(chars@.skip(start as int)) == chars@.len() - start,
        },
{
    let n = chars.len();
    let mut p = start;
    while p < n
        invariant
            start <= p <= n == chars@.len(),
            forall|i: int| start <= i < p ==> chars@[i] != '\n',
        decreases n - p,
    {
        if chars[p] == '\n' {
            proof {
                assert forall|i: int| 0 <= i < p - start implies chars@.skip(start as int)[i]
                    != '\n' by {
                    assert(chars@.skip(start as int)[i] == chars@[start + i]);
                }
                lemma_first_nl_is(chars@.skip(start as int), p - start);
            }
            return Some(p);
        }
        p = p + 1;
    }
    proof {
        assert forall|i: int| 0 <= i < n - start implies chars@.skip(start as int)[i] != '\n' by {
            assert(chars@.skip(start as int)[i] == chars@[start + i]);
        }
        lemma_first_nl_is(chars@.skip(start as int), n - start);
    }
    None
}

fn copy_range(chars: &Vec<char>, start: usize, end: usize) -> (line: Vec<char>)
    requires
        start <= end <= chars@.len(),
    ensures
        line@ == chars@.subrange(start as int, end as int),
{
    let mut line: Vec<char> = Vec::new();
    let mut i = start;
    while i < end
        invariant
            start <= i <= end <= chars@.len(),
            line@ =~= chars@.subrange(start as int, i as int),
        decreases end - i,
    {
        line.push(chars[i]);
        i = i + 1;
        proof {
            assert(line@ =~= chars@.subrange(start as int, i as int));
        }
    }
    line
}

/// Splits a character sequence into its lines, cutting at every newline.
fn split_lines(chars: &Vec<char>) -> (lines: Vec<Vec<char>>)
    ensures
        views_of(lines@) == split_lines_spec(chars@),
{
    let n = chars.len();
    let mut lines: Vec<Vec<char>> = Vec::new();
    let mut start: usize = 0;
    proof {
        assert(views_of(lines@) =~= Seq::<Seq<char>>::empty());
        assert(chars@.skip(0) =~= chars@);
    }
    loop
        invariant_except_break
            start <= n == chars@.len(),
            split_lines_spec(chars@) =~= views_of(lines@) + split_lines_spec(
                chars@.skip(start as int),
            ),
        ensures
            views_of(lines@) =~= split_lines_spec(chars@),
        decreases n - start,
    {
        let ghost suffix = chars@.skip(start as int);
        match find_nl(chars, start) {
            Some(p) => {
                let line = copy_range(chars, start, p);
                lines.push(line);
                proof {
                    assert(suffix.take(first_nl(suffix)) =~= chars@.subrange(
                        start as int,
                        p as int,
                    ));
                    assert(suffix.skip(first_nl(suffix) + 1) =~= chars@.skip(p + 1));
                    assert(split_lines_spec(suffix) == seq![line@] + split_lines_spec(
                        chars@.skip(p + 1),
                    ));
                    assert(views_of(lines@) =~= views_of(lines@.drop_last()) + seq![line@]);
                    assert(split_lines_spec(chars@) =~= views_of(lines@) + split_lines_spec(
                        chars@.skip(p + 1),
                    ));
                }
                start = p + 1;
            },
            None => {
                let line = copy_range(chars, start, n);
                lines.push(line);
                proof {
                    assert(suffix =~= chars@.subrange(start as int, n as int));
                    assert(split_lines_spec(suffix) == seq![line@]);
                    assert(views_of(lines@) =~= views_of(lines@.drop_last()) + seq![line@]);
                    assert(views_of(lines@) =~= split_lines_spec(chars@));
                }
                break ;
            },
        }
    }
    lines
}

// ----- escape-coded rendering -----

/// Whether the escape sequences color the text itself or the cells behind
/// it.
#[derive(Debug, Clone, Copy, PartialEq, Eq, Structural)]
pub enum ColorType {
    /// Color the characters themselves. The default.
    Foreground,
    /// Color the background behind the characters.
    Background,
}

impl ColorType {
    /// The mode number carried by the escape sequence: 38 selects the
    /// foreground, 48 the background.
    pub open spec fn code(&self) -> int {
        match self {
            ColorType::Foreground => 38,
            ColorType::Background => 48,
        }
    }
}

/// One character wrapped in its color: the ANSI 24-bit sequence
/// `ESC [ <mode> ; 2 ; <r> ; <g> ; <b> m`, the character, and the reset
/// sequence `ESC [ 0 m`.
pub open spec fn wrap_spec(c: char, color: RGB, ct: ColorType) -> Seq<char> {
    seq!['\u{1b}', '['] + decimal_chars(ct.code()) + seq![';', '2', ';'] + decimal_chars(
        color.r as int,
    ) + seq![';'] + decimal_chars(color.g as int) + seq![';'] + decimal_chars(color.b as int)
        + seq!['m', c, '\u{1b}', '[', '0', 'm']
}

/// The rendering of the tail of one line from position `j` on: each
/// character wrapped in the color of its position.
pub open spec fn render_line_from(line: Seq<char>, table: Seq<RGB>, ct: ColorType, j: int) -> Seq<
    char,
>
    decreases line.len() - j,
{
    if j < 0 || j >= line.len() {
        Seq::empty()
    } else {
        wrap_spec(line[j], table[j], ct) + render_line_from(line, table, ct, j + 1)
    }
}

/// The rendering of one whole line.
pub open spec fn render_line_spec(line: Seq<char>, table: Seq<RGB>, ct: ColorType) -> Seq<char> {
    render_line_from(line, table, ct, 0)
}

/// The rendering of the lines from `i` on, joined by the newlines that
/// separated them. Every line starts over at the front of the color table.
pub open spec fn render_lines_from(
    lines: Seq<Seq<char>>,
    table: Seq<RGB>,
    ct: ColorType,
    i: int,
) -> Seq<char>
    decreases lines.len() - i,
{
    if i < 0 || i >= lines.len() {
        Seq::empty()
    } else if i == lines.len() - 1 {
        render_line_spec(lines[i], table, ct)
    } else {
        render_line_spec(lines[i], table, ct) + seq!['\n'] + render_lines_from(
            lines,
            table,
            ct,
            i + 1,
        )
    }
}

/// The full rendering of `text` with the given per-position colors: every
/// line colored from the front of the table, newlines passed through
/// unchanged.
pub open spec fn render_spec(text: Seq<char>, table: Seq<RGB>, ct: ColorType) -> Seq<char> {
    render_lines_from(split_lines_spec(text), table, ct, 0)
}

/// Wraps one character in the escape sequence carrying its color.
pub fn colorize_char(c: char, color: RGB, ct: ColorType) -> (out: String)
    ensures
        out@ == wrap_spec(c, color, ct),
{
    let mut out = String::new();
    push_char(&mut out, '\u{1b}');
    push_char(&mut out, '[');
    match ct {
        ColorType::Foreground => push_decimal(&mut out, 38),
        ColorType::Background => push_decimal(&mut out, 48),
    }
    push_char(&mut out, ';');
    push_char(&mut out, '2');
    push_char(&mut out, ';');
    push_decimal(&mut out, color.r as u64);
    push_char(&mut out, ';');
    push_decimal(&mut out, color.g as u64);
    push_char(&mut out, ';');
    push_decimal(&mut out, color.b as u64);
    push_char(&mut out, 'm');
    push_char(&mut out, c);
    push_char(&mut out, '\u{1b}');
    push_char(&mut out, '[');
    push_char(&mut out, '0');
    push_char(&mut out, 'm');
    proof {
        assert(out@ =~= wrap_spec(c, color, ct));
    }
    out
}

/// Renders one line, wrapping each of its characters in the color of its
/// position.
fn render_line(line: &Vec<char>, table: &Vec<RGB>, ct: ColorType) -> (out: String)
    requires
        line@.len() <= table@.len(),
    ensures
        out@ == render_line_spec(line@, table@, ct),
{
    let mut out = String::new();
    let mut j: usize = 0;
    while j < line.len()
        invariant
            j <= line@.len() <= table@.len(),
            render_line_spec(line@, table@, ct) =~= out@ + render_line_from(
                line@,
                table@,
                ct,
                j as int,
            ),
        decreases line@.len() - j,
    {
        let piece = colorize_char(line[j], table[j], ct);
        out.append(piece.as_str());
        j = j + 1;
        proof {
            assert(render_line_spec(line@, table@, ct) =~= out@ + render_line_from(
                line@,
                table@,
                ct,
                j as int,
            ));
        }
    }
    proof {
        assert(render_line_spec(line@, table@, ct) =~= out@);
    }
    out
}

/// The character count of the longest of the given lines.
fn max_line_len(lines: &Vec<Vec<char>>) -> (w: usize)
    ensures
        w as int == max_len_of(views_of(lines@)),
{
    let ghost views = views_of(lines@);
    let mut w: usize = 0;
    let mut i: usize = lines.len();
    proof {
        assert(views.skip(i as int) =~= Seq::<Seq<char>>::empty());
    }
    while i > 0
        invariant
            i <= lines@.len(),
            views == views_of(lines@),
            w as int == max_len_of(views.skip(i as int)),
        decreases i,
    {
        i = i - 1;
        let li = lines[i].len();
        proof {
            assert(views.skip(i as int).drop_first() =~= views.skip(i as int + 1));
            assert(views.skip(i as int)[0] == lines@[i as int]@);
        }
        if li > w {
            w = li;
        }
    }
    proof {
        assert(views.skip(0) =~= views);
    }
    w
}

/// A gradient string representation: a text, the gradient stops to spread
/// over it, and the choice of foreground or background coloring.
#[derive(Debug, Clone)]
pub struct GradientDisplay {
    /// The text to colorize.
    pub text: String,
    /// The ordered gradient stops.
    pub colors: Vec<RGB>,
    /// Foreground or background coloring.
    pub color_type: ColorType,
}

impl GradientDisplay {
    /// Pairs a text with the gradient stops to spread over it. Foreground
    /// coloring is the default.
    pub fn new(text: &str, colors: Vec<RGB>) -> (d: Self)
        ensures
            d.text@ == text@,
            d.colors == colors,
            d.color_type == ColorType::Foreground,
    {
        GradientDisplay { text: text.to_owned(), colors, color_type: ColorType::Foreground }
    }

    /// Colorize background.
    ///
    /// Default is foreground.
    pub fn background(self) -> (d: Self)
        ensures
            d.text == self.text,
            d.colors == self.colors,
            d.color_type == ColorType::Background,
    {
        GradientDisplay { color_type: ColorType::Background, ..self }
    }

    /// Colorize foreground.
    ///
    /// It's a default option.
    pub fn foreground(self) -> (d: Self)
        ensures
            d.text == self.text,
            d.colors == self.colors,
            d.color_type == ColorType::Foreground,
    {
        GradientDisplay { color_type: ColorType::Foreground, ..self }
    }

    /// The character count of the longest line of the text: the width every
    /// line's gradient is sized to.
    pub fn line_width(&self) -> (w: usize)
        ensures
            w as int == line_width_spec(self.text@),
    {
        let cs = to_chars(self.text.as_str());
        let lines = split_lines(&cs);
        max_line_len(&lines)
    }

    /// The color request of every character position across the line width:
    /// the stops distributed over the width of the longest line.
    pub fn plan(&self) -> (steps: Vec<ColorStep>)
        ensures
            self.colors@.len() >= 1 ==> steps@ == plan_spec(
                self.colors@,
                line_width_spec(self.text@),
            ),
            self.colors@.len() >= 1 ==> steps@.len() == line_width_spec(self.text@),
            self.colors@.len() == 0 ==> steps@ == Seq::<ColorStep>::empty(),
    {
        if self.colors.len() == 0 {
            Vec::new()
        } else {
            let w = self.line_width();
            plan_colors(&self.colors, w)
        }
    }

    /// Renders the text, wrapping each character of line position `p` in the
    /// color `table[p]`. The table is the line width's worth of colors,
    /// resolved from [`GradientDisplay::plan`] by an interpolator. With no
    /// stops at all, or no character to color, the text passes through
    /// unchanged.
    pub fn render(&self, table: &Vec<RGB>) -> (out: String)
        requires
            self.colors@.len() >= 1 && line_width_spec(self.text@) >= 1 ==> table@.len()
                == line_width_spec(self.text@),
        ensures
            self.colors@.len() == 0 || line_width_spec(self.text@) == 0 ==> out@ == self.text@,
            self.colors@.len() >= 1 && line_width_spec(self.text@) >= 1 ==> out@ == render_spec(
                self.text@,
                table@,
                self.color_type,
            ),
    {
        if self.colors.len() == 0 {
            return self.text.clone();
        }
        let cs = to_chars(self.text.as_str());
        let lines = split_lines(&cs);
        let w = max_line_len(&lines);
        if w == 0 {
            return self.text.clone();
        }
        let ghost views = views_of(lines@);
        let mut out = String::new();
        let mut i: usize = 0;
        proof {
            assert(render_spec(self.text@, table@, self.color_type) =~= out@ + render_lines_from(
                views,
                table@,
                self.color_type,
                0,
            ));
        }
        while i < lines.len()
            invariant
                i <= lines@.len(),
                views == views_of(lines@),
                views == split_lines_spec(self.text@),
                forall|p: int| 0 <= p < lines@.len() ==> lines@[p]@ == views[p],
                w as int == max_len_of(views),
                table@.len() == w,
                render_spec(self.text@, table@, self.color_type) =~= out@ + render_lines_from(
                    views,
                    table@,
                    self.color_type,
                    i as int,
                ),
            decreases lines@.len() - i,
        {
            proof {
                lemma_max_len_of_ge(views, i as int);
            }
            let piece = render_line(&lines[i], table, self.color_type);
            out.append(piece.as_str());
            if i + 1 < lines.len() {
                push_char(&mut out, '\n');
            }
            i = i + 1;
            proof {
                assert(render_spec(self.text@, table@, self.color_type) =~= out@
                    + render_lines_from(views, table@, self.color_type, i as int));
            }
        }
        proof {
            assert(render_spec(self.text@, table@, self.color_type) =~= out@);
        }
        out
    }
}

/// Rendering is deterministic: two renderings of the same text, with the
/// same color table and the same coloring mode, are identical, character
/// for character.
pub proof fn lemma_render_deterministic(
    text: Seq<char>,
    table: Seq<RGB>,
    ct: ColorType,
    out1: Seq<char>,
    out2: Seq<char>,
)
    requires
        out1 == render_spec(text, table, ct),
        out2 == render_spec(text, table, ct),
    ensures
        out1 == out2,
{
}

/// An empty text has line width zero, so the renderer passes it through
/// unchanged.
pub proof fn lemma_empty_text_width(text: Seq<char>)
    requires
        text.len() == 0,
    ensures
        line_width_spec(text) == 0,
{
    assert(split_lines_spec(text) == seq![text]);
    assert(seq![text].drop_first() =~= Seq::<Seq<char>>::empty());
    assert(max_len_of(Seq::<Seq<char>>::empty()) == 0);
    assert(max_len_of(seq![text]) == 0);
}

/// Methods to colorize a string with a gradient.
pub trait GradientStr: View<V = Seq<char>> {
    /// This function takes a list of colors, which represent a gradient,
    /// and colorizes the string.
    fn gradient(&self, colors: Vec<RGB>) -> (d: GradientDisplay)
        ensures
            d.text@ == self@,
            d.colors == colors,
            d.color_type == ColorType::Foreground,
    ;
}

impl GradientStr for str {
    fn gradient(&self, colors: Vec<RGB>) -> (d: GradientDisplay) {
        GradientDisplay::new(self, colors)
    }
}

impl GradientStr for String {
    fn gradient(&self, colors: Vec<RGB>) -> (d: GradientDisplay) {
        GradientDisplay::new(self.as_str(), colors)
    }
}

} // verus!
