//! Finding the pixels that changed since the last synchronization.

use vstd::prelude::*;

use crate::local_monitor::script::{spec_clear, spec_set_color_dec, spec_set_color_hex, spec_set_cursor, spec_write_multi, spec_write_one};
use crate::local_monitor::LocalMonitor;
use crate::misc::{AsIfPixel, ColorId};

verus! {

/// One cell to draw: zero-based `(x, y)` and the pixel to show there.
pub type DrawEntry = (usize, usize, AsIfPixel);

/// Draw order: by text color, then background color, both as the host
/// numbers them. Equal colors stay in their given order.
pub open spec fn color_le(a: DrawEntry, b: DrawEntry) -> bool {
    a.2.text_color.spec_number() < b.2.text_color.spec_number() || (a.2.text_color.spec_number()
        == b.2.text_color.spec_number() && a.2.background_color.spec_number()
        <= b.2.background_color.spec_number())
}

/// `e` inserted behind every entry that does not order after it under `leq`:
/// the stable insertion step.
pub open spec fn stable_insert(
    leq: spec_fn(DrawEntry, DrawEntry) -> bool,
    s: Seq<DrawEntry>,
    e: DrawEntry,
) -> Seq<DrawEntry>
    decreases s.len(),
{
    if s.len() == 0 {
        seq![e]
    } else if leq(s[0], e) {
        seq![s[0]] + stable_insert(leq, s.drop_first(), e)
    } else {
        seq![e] + s
    }
}

/// The entries ordered by `leq`, entries that compare equal kept in their
/// given order: the stable insertion sort of `s`.
pub open spec fn stable_sort_spec(
    leq: spec_fn(DrawEntry, DrawEntry) -> bool,
    s: Seq<DrawEntry>,
) -> Seq<DrawEntry>
    decreases s.len(),
{
    if s.len() == 0 {
        Seq::empty()
    } else {
        stable_insert(leq, stable_sort_spec(leq, s.drop_last()), s.last())
    }
}

/// The entries in basic draw order.
pub open spec fn sort_by_color_spec(s: Seq<DrawEntry>) -> Seq<DrawEntry> {
    stable_sort_spec(|a: DrawEntry, b: DrawEntry| color_le(a, b), s)
}

/// Inserting adds `e` and keeps the rest: membership in the stable insertion.
proof fn lemma_stable_insert_elements(
    leq: spec_fn(DrawEntry, DrawEntry) -> bool,
    s: Seq<DrawEntry>,
    e: DrawEntry,
    x: DrawEntry,
)
    ensures
        stable_insert(leq, s, e).contains(x) <==> (s.contains(x) || x == e),
    decreases s.len(),
{
    if s.len() == 0 {
        let r = stable_insert(leq, s, e);
        assert(r =~= seq![e]);
        assert(r[0] == e);
        if r.contains(x) {
            let k = choose|k: int| 0 <= k < r.len() && r[k] == x;
            assert(k == 0);
        }
        if x == e {
            assert(r[0] == x);
            assert(r.contains(x));
        }
    } else if leq(s[0], e) {
        lemma_stable_insert_elements(leq, s.drop_first(), e, x);
        let r = stable_insert(leq, s, e);
        assert(r == seq![s[0]] + stable_insert(leq, s.drop_first(), e));
        if r.contains(x) {
            let k = choose|k: int| 0 <= k < r.len() && r[k] == x;
            if k == 0 {
                assert(s[0] == x && s.contains(x));
            } else {
                assert(stable_insert(leq, s.drop_first(), e)[k - 1] == x);
                assert(stable_insert(leq, s.drop_first(), e).contains(x));
                if s.drop_first().contains(x) {
                    let m = choose|m: int| 0 <= m < s.drop_first().len() && s.drop_first()[m] == x;
                    assert(s[m + 1] == x);
                    assert(s.contains(x));
                }
            }
        }
        if s.contains(x) {
            let k = choose|k: int| 0 <= k < s.len() && s[k] == x;
            if k == 0 {
                assert(r[0] == x);
            } else {
                assert(s.drop_first()[k - 1] == x);
                assert(s.drop_first().contains(x));
                let m = choose|m: int|
                    0 <= m < stable_insert(leq, s.drop_first(), e).len() && stable_insert(
                        leq,
                        s.drop_first(),
                        e,
                    )[m] == x;
                assert(r[m + 1] == x);
            }
            assert(r.contains(x));
        }
        if x == e {
            let m = choose|m: int|
                0 <= m < stable_insert(leq, s.drop_first(), e).len() && stable_insert(
                    leq,
                    s.drop_first(),
                    e,
                )[m] == x;
            assert(r[m + 1] == x);
            assert(r.contains(x));
        }
    } else {
        let r = stable_insert(leq, s, e);
        assert(r == seq![e] + s);
        if r.contains(x) {
            let k = choose|k: int| 0 <= k < r.len() && r[k] == x;
            if k == 0 {
            } else {
                assert(s[k - 1] == x);
                assert(s.contains(x));
            }
        }
        if s.contains(x) {
            let k = choose|k: int| 0 <= k < s.len() && s[k] == x;
            assert(r[k + 1] == x);
            assert(r.contains(x));
        }
        if x == e {
            assert(r[0] == x);
            assert(r.contains(x));
        }
    }
}

/// Sorting adds nothing and loses nothing: membership in the sorted entries.
proof fn lemma_sort_elements(
    leq: spec_fn(DrawEntry, DrawEntry) -> bool,
    s: Seq<DrawEntry>,
    x: DrawEntry,
)
    ensures
        stable_sort_spec(leq, s).contains(x) <==> s.contains(x),
    decreases s.len(),
{
    if s.len() == 0 {
    } else {
        lemma_sort_elements(leq, s.drop_last(), x);
        lemma_stable_insert_elements(leq, stable_sort_spec(leq, s.drop_last()), s.last(), x);
        if s.contains(x) {
            let k = choose|k: int| 0 <= k < s.len() && s[k] == x;
            if k < s.len() - 1 {
                assert(s.drop_last()[k] == x);
                assert(s.drop_last().contains(x));
            } else {
                assert(s.last() == x);
            }
        }
        if s.drop_last().contains(x) {
            let k = choose|k: int| 0 <= k < s.drop_last().len() && s.drop_last()[k] == x;
            assert(s[k] == x);
            assert(s.contains(x));
        }
        if s.last() == x {
            assert(s[s.len() - 1] == x);
            assert(s.contains(x));
        }
    }
}

/// Inserting at the first position whose entry orders after `e` is the
/// stable insertion.
proof fn lemma_stable_insert_at(
    leq: spec_fn(DrawEntry, DrawEntry) -> bool,
    s: Seq<DrawEntry>,
    e: DrawEntry,
    i: int,
)
    requires
        0 <= i <= s.len(),
        forall|k: int| 0 <= k < i ==> leq(#[trigger] s[k], e),
        i < s.len() ==> !leq(s[i], e),
    ensures
        stable_insert(leq, s, e) == s.subrange(0, i) + seq![e] + s.subrange(i, s.len() as int),
    decreases s.len(),
{
    if s.len() == 0 {
        assert(stable_insert(leq, s, e) =~= s.subrange(0, i) + seq![e] + s.subrange(
            i,
            s.len() as int,
        ));
    } else if i == 0 {
        assert(stable_insert(leq, s, e) =~= s.subrange(0, i) + seq![e] + s.subrange(
            i,
            s.len() as int,
        ));
    } else {
        assert(leq(s[0], e));
        assert forall|k: int| 0 <= k < i - 1 implies leq(#[trigger] s.drop_first()[k], e) by {
            assert(s.drop_first()[k] == s[k + 1]);
        }
        assert(i - 1 < s.drop_first().len() ==> !leq(s.drop_first()[i - 1], e));
        lemma_stable_insert_at(leq, s.drop_first(), e, i - 1);
        assert(stable_insert(leq, s, e) =~= s.subrange(0, i) + seq![e] + s.subrange(
            i,
            s.len() as int,
        ));
    }
}

/// Inserting makes the entries one longer.
proof fn lemma_stable_insert_len(
    leq: spec_fn(DrawEntry, DrawEntry) -> bool,
    s: Seq<DrawEntry>,
    e: DrawEntry,
)
    ensures
        stable_insert(leq, s, e).len() == s.len() + 1,
    decreases s.len(),
{
    if s.len() == 0 {
    } else if leq(s[0], e) {
        lemma_stable_insert_len(leq, s.drop_first(), e);
    } else {
    }
}

/// Sorting keeps the number of entries.
proof fn lemma_sort_len(leq: spec_fn(DrawEntry, DrawEntry) -> bool, s: Seq<DrawEntry>)
    ensures
        stable_sort_spec(leq, s).len() == s.len(),
    decreases s.len(),
{
    if s.len() == 0 {
    } else {
        lemma_sort_len(leq, s.drop_last());
        lemma_stable_insert_len(leq, stable_sort_spec(leq, s.drop_last()), s.last());
    }
}

/// Draw-order comparison of two entries.
fn color_le_exec(a: &DrawEntry, b: &DrawEntry) -> (r: bool)
    ensures
        r == color_le(*a, *b),
{
    let at = a.2.text_color.to_number();
    let bt = b.2.text_color.to_number();
    if at < bt {
        true
    } else if at == bt {
        a.2.background_color.to_number() <= b.2.background_color.to_number()
    } else {
        false
    }
}

/// Insert `e` behind every entry that does not order after it in the basic
/// draw order.
fn sorted_insert(out: &mut Vec<DrawEntry>, e: DrawEntry)
    ensures
        final(out)@ == stable_insert(|a: DrawEntry, b: DrawEntry| color_le(a, b), old(out)@, e),
{
    let n = out.len();
    let mut i: usize = 0;
    while i < n && color_le_exec(&out[i], &e)
        invariant
            n == out@.len(),
            i <= n,
            *out == *old(out),
            forall|k: int| 0 <= k < i ==> color_le(#[trigger] out@[k], e),
        decreases n - i,
    {
        i = i + 1;
    }
    proof {
        lemma_stable_insert_at(|a: DrawEntry, b: DrawEntry| color_le(a, b), out@, e, i as int);
    }
    out.insert(i, e);
    proof {
        assert(final(out)@ =~= old(out)@.subrange(0, i as int) + seq![e] + old(out)@.subrange(
            i as int,
            old(out)@.len() as int,
        ));
    }
}

/// Sort the entries into draw order, equal colors kept in their given order.
fn sort_by_color(draw: Vec<DrawEntry>) -> (r: Vec<DrawEntry>)
    ensures
        r@ == sort_by_color_spec(draw@),
{
    let mut draw = draw;
    let mut out: Vec<DrawEntry> = Vec::new();
    let n = draw.len();
    let mut i: usize = 0;
    while i < n
        invariant
            n == draw@.len(),
            i <= n,
            out@ == sort_by_color_spec(draw@.subrange(0, i as int)),
        decreases n - i,
    {
        let e = draw[i];
        sorted_insert(&mut out, e);
        proof {
            assert(draw@.subrange(0, i + 1).drop_last() =~= draw@.subrange(0, i as int));
            assert(draw@.subrange(0, i + 1).last() == draw@[i as int]);
        }
        i = i + 1;
    }
    proof {
        assert(draw@.subrange(0, n as int) =~= draw@);
    }
    out
}

impl LocalMonitor {
    /// Whether the cell at zero-based `(i, j)` needs to be sent: the wanted
    /// pixel differs from the last-synchronized one, and not merely as one
    /// blank against another blank on the same background.
    pub open spec fn spec_differs(&self, i: int, j: int) -> bool {
        let p = self.data.spec_index(i, j);
        let q = self.last_sync.spec_index(i, j);
        !(p == q || (p.spec_is_whitespace() && q.spec_is_whitespace() && p.background_color
            == q.background_color))
    }

    /// The cells that need to be sent, as zero-based `(x, y, pixel)` triples:
    /// exactly the differing cells, each with its wanted pixel, in ascending
    /// `(x, y)` order.
    pub fn gen_nonsynced(&self) -> (r: Vec<(usize, usize, AsIfPixel)>)
        requires
            self.wf(),
        ensures
            r@ == nonsynced_cells(*self),
            forall|k: int|
                0 <= k < r@.len() ==> ((#[trigger] r@[k]).0 < self.spec_x() && r@[k].1
                    < self.spec_y() && self.spec_differs(r@[k].0 as int, r@[k].1 as int) && r@[k].2
                    == self.spec_get(r@[k].0 as int, r@[k].1 as int)),
            forall|i: int, j: int|
                0 <= i < self.spec_x() && 0 <= j < self.spec_y() && self.spec_differs(i, j)
                    ==> exists|k: int|
                    0 <= k < r@.len() && (#[trigger] r@[k]).0 == i && r@[k].1 == j,
            forall|k1: int, k2: int|
                0 <= k1 < k2 < r@.len() ==> ((#[trigger] r@[k1]).0 < (#[trigger] r@[k2]).0 || (
                r@[k1].0 == r@[k2].0 && r@[k1].1 < r@[k2].1)),
    {
        let mut to_write: Vec<(usize, usize, AsIfPixel)> = Vec::new();
        let sx = self.x();
        let sy = self.y();
        let mut i: usize = 0;
        while i < sx
            invariant
                self.wf(),
                sx == self.spec_x(),
                sy == self.spec_y(),
                i <= sx,
                nonsynced_cells(*self) == to_write@ + cells_where(
                    *self,
                    |a: int, b: int| self.spec_differs(a, b),
                    i as int,
                    0,
                ),
                forall|k: int|
                    0 <= k < to_write@.len() ==> ((#[trigger] to_write@[k]).0 < i && to_write@[k].1
                        < sy && self.spec_differs(to_write@[k].0 as int, to_write@[k].1 as int)
                        && to_write@[k].2 == self.spec_get(
                        to_write@[k].0 as int,
                        to_write@[k].1 as int,
                    )),
                forall|a: int, b: int|
                    0 <= a < i && 0 <= b < sy && self.spec_differs(a, b) ==> exists|k: int|
                        0 <= k < to_write@.len() && (#[trigger] to_write@[k]).0 == a
                            && to_write@[k].1 == b,
                forall|k1: int, k2: int|
                    0 <= k1 < k2 < to_write@.len() ==> ((#[trigger] to_write@[k1]).0 < (
                    #[trigger] to_write@[k2]).0 || (to_write@[k1].0 == to_write@[k2].0
                        && to_write@[k1].1 < to_write@[k2].1)),
            decreases sx - i,
        {
            let mut j: usize = 0;
            while j < sy
                invariant
                    self.wf(),
                    sx == self.spec_x(),
                    sy == self.spec_y(),
                    i < sx,
                    j <= sy,
                    nonsynced_cells(*self) == to_write@ + cells_where(
                        *self,
                        |a: int, b: int| self.spec_differs(a, b),
                        i as int,
                        j as int,
                    ),
                    forall|k: int|
                        0 <= k < to_write@.len() ==> (((#[trigger] to_write@[k]).0 < i || (
                        to_write@[k].0 == i && to_write@[k].1 < j)) && to_write@[k].0 < sx
                            && to_write@[k].1 < sy && self.spec_differs(
                            to_write@[k].0 as int,
                            to_write@[k].1 as int,
                        ) && to_write@[k].2 == self.spec_get(
                            to_write@[k].0 as int,
                            to_write@[k].1 as int,
                        )),
                    forall|a: int, b: int|
                        0 <= a < sx && 0 <= b < sy && (a < i || (a == i && b < j))
                            && self.spec_differs(a, b) ==> exists|k: int|
                            0 <= k < to_write@.len() && (#[trigger] to_write@[k]).0 == a
                                && to_write@[k].1 == b,
                    forall|k1: int, k2: int|
                        0 <= k1 < k2 < to_write@.len() ==> ((#[trigger] to_write@[k1]).0 < (
                        #[trigger] to_write@[k2]).0 || (to_write@[k1].0 == to_write@[k2].0
                            && to_write@[k1].1 < to_write@[k2].1)),
                decreases sy - j,
            {
                let p = self.data.read(i, j);
                let q = self.last_sync.read(i, j);
                let skip = p == q || (p.is_whitespace() && q.is_whitespace() && p.background_color
                    == q.background_color);
                let ghost prevw = to_write@;
                if !skip {
                    to_write.push((i, j, p));
                }
                proof {
                    let pred = |a: int, b: int| self.spec_differs(a, b);
                    assert(cells_where(*self, pred, i as int, j as int) == (if pred(
                        i as int,
                        j as int,
                    ) {
                        seq![(i, j, self.spec_get(i as int, j as int))]
                    } else {
                        Seq::<DrawEntry>::empty()
                    }) + cells_where(*self, pred, i as int, j + 1));
                    assert(pred(i as int, j as int) == !skip);
                    if !skip {
                        assert(to_write@ =~= prevw + seq![(i, j, p)]);
                        assert(prevw + (seq![(i, j, p)] + cells_where(*self, pred, i as int, j + 1))
                            =~= to_write@ + cells_where(*self, pred, i as int, j + 1));
                    } else {
                        assert(prevw + (Seq::<DrawEntry>::empty() + cells_where(
                            *self,
                            pred,
                            i as int,
                            j + 1,
                        )) =~= to_write@ + cells_where(*self, pred, i as int, j + 1));
                    }
                    let w = to_write@;
                    assert forall|a: int, b: int|
                        0 <= a < sx && 0 <= b < sy && (a < i || (a == i && b < j + 1))
                            && self.spec_differs(a, b) implies exists|k: int|
                        0 <= k < w.len() && (#[trigger] w[k]).0 == a && w[k].1 == b by {
                        if a < i || (a == i && b < j) {
                            let k = choose|k: int|
                                0 <= k < prevw.len() && (#[trigger] prevw[k]).0 == a && prevw[k].1
                                    == b;
                            assert(w[k] == prevw[k]);
                        } else {
                            assert(!skip);
                            assert(w[prevw.len() as int].0 == a && w[prevw.len() as int].1 == b);
                        }
                    }
                }
                j = j + 1;
            }
            proof {
                let pred = |a: int, b: int| self.spec_differs(a, b);
                assert(cells_where(*self, pred, i as int, sy as int) == cells_where(
                    *self,
                    pred,
                    i + 1,
                    0,
                ));
            }
            i = i + 1;
        }
        proof {
            let pred = |a: int, b: int| self.spec_differs(a, b);
            assert(cells_where(*self, pred, sx as int, 0) == Seq::<DrawEntry>::empty());
            assert(to_write@ + Seq::<DrawEntry>::empty() =~= to_write@);
        }
        to_write
    }
}

/// The script of the basic draw pass over entries already in draw order,
/// with the colors `last_t` on `last_b` already set: each entry sets its
/// colors when they differ from the pair last set, then sets the cursor to
/// its cell and writes its character.
pub open spec fn draw_basic_script(
    name: Seq<char>,
    s: Seq<DrawEntry>,
    last_t: ColorId,
    last_b: ColorId,
) -> Seq<char>
    decreases s.len(),
{
    if s.len() == 0 {
        Seq::empty()
    } else {
        let e = s[0];
        (if e.2.text_color == last_t && e.2.background_color == last_b {
            Seq::<char>::empty()
        } else {
            spec_set_color_hex(name, e.2)
        }) + spec_set_cursor(name, e.0 as int, e.1 as int) + spec_write_one(name, e.2.spec_text())
            + draw_basic_script(name, s.drop_first(), e.2.text_color, e.2.background_color)
    }
}

/// The script-line count of the basic draw pass: two lines per color change
/// and two for each entry's cursor move and write.
pub open spec fn draw_basic_count(s: Seq<DrawEntry>, last_t: ColorId, last_b: ColorId) -> int
    decreases s.len(),
{
    if s.len() == 0 {
        0int
    } else {
        let e = s[0];
        (if e.2.text_color == last_t && e.2.background_color == last_b {
            0int
        } else {
            2int
        }) + 2 + draw_basic_count(s.drop_first(), e.2.text_color, e.2.background_color)
    }
}

impl LocalMonitor {
    /// Draw the given cells in the plainest way: sort them into draw order,
    /// set the colors once up front, and per entry re-set the colors when
    /// they change, move the cursor and write the character. Returns the
    /// script (empty unless `create_str` asks for text) and the line count
    /// the full script stands for.
    pub fn gen_draw_basic(&self, draw: Vec<DrawEntry>, create_str: bool) -> (r: (String, usize))
        requires
            draw@.len() > 0,
            4 * draw@.len() + 2 <= usize::MAX,
            forall|k: int|
                0 <= k < draw@.len() ==> (#[trigger] draw@[k]).0 < usize::MAX && draw@[k].1
                    < usize::MAX,
        ensures
            r.1 == 2 + draw_basic_count(
                sort_by_color_spec(draw@),
                sort_by_color_spec(draw@)[0].2.text_color,
                sort_by_color_spec(draw@)[0].2.background_color,
            ),
            create_str ==> r.0@ == spec_set_color_hex(self.name@, sort_by_color_spec(draw@)[0].2)
                + draw_basic_script(
                self.name@,
                sort_by_color_spec(draw@),
                sort_by_color_spec(draw@)[0].2.text_color,
                sort_by_color_spec(draw@)[0].2.background_color,
            ),
            !create_str ==> r.0@.len() == 0,
    {
        let ghost input = draw@;
        let to_write = sort_by_color(draw);
        let n = to_write.len();
        proof {
            lemma_sort_len(|a: DrawEntry, b: DrawEntry| color_le(a, b), input);
            assert forall|k: int|
                0 <= k < to_write@.len() implies (#[trigger] to_write@[k]).0 < usize::MAX
                && to_write@[k].1 < usize::MAX by {
                assert(to_write@[k] == to_write@[k] && to_write@.contains(to_write@[k]));
                lemma_sort_elements(|a: DrawEntry, b: DrawEntry| color_le(a, b), input, to_write@[k]);
                let m = choose|m: int| 0 <= m < input.len() && input[m] == to_write@[k];
                assert(input[m].0 < usize::MAX && input[m].1 < usize::MAX);
            }
        }
        let mut write_script = String::new();
        let first = to_write[0];
        let mut code_line = self.ext_script_set_color(&mut write_script, create_str, first.2);
        let mut last_t = first.2.text_color;
        let mut last_b = first.2.background_color;
        let ghost full_script = spec_set_color_hex(self.name@, to_write@[0].2) + draw_basic_script(
            self.name@,
            to_write@,
            to_write@[0].2.text_color,
            to_write@[0].2.background_color,
        );
        let ghost full_count = 2 + draw_basic_count(
            to_write@,
            to_write@[0].2.text_color,
            to_write@[0].2.background_color,
        );
        proof {
            assert(to_write@.skip(0) =~= to_write@);
        }
        let mut i: usize = 0;
        while i < n
            invariant
                n == to_write@.len(),
                n == input.len(),
                i <= n,
                4 * n + 2 <= usize::MAX,
                forall|k: int|
                    0 <= k < to_write@.len() ==> (#[trigger] to_write@[k]).0 < usize::MAX
                        && to_write@[k].1 < usize::MAX,
                code_line <= 2 + 4 * i,
                code_line + draw_basic_count(to_write@.skip(i as int), last_t, last_b)
                    == full_count,
                create_str ==> write_script@ + draw_basic_script(
                    self.name@,
                    to_write@.skip(i as int),
                    last_t,
                    last_b,
                ) == full_script,
                !create_str ==> write_script@.len() == 0,
            decreases n - i,
        {
            let ghost rest = to_write@.skip(i as int);
            proof {
                assert(rest[0] == to_write@[i as int]);
                assert(rest.drop_first() =~= to_write@.skip(i + 1));
            }
            let e = to_write[i];
            let ghost script_before = write_script@;
            let same = e.2.text_color == last_t && e.2.background_color == last_b;
            let mut step: usize = 0;
            if !same {
                step = self.ext_script_set_color(&mut write_script, create_str, e.2);
            }
            let c1 = self.ext_script_set_cursor(&mut write_script, create_str, e.0, e.1);
            let c2 = self.ext_script_write_char(&mut write_script, create_str, e.2);
            code_line = code_line + step + c1 + c2;
            proof {
                if create_str {
                    assert(write_script@ =~= script_before + (if same {
                        Seq::<char>::empty()
                    } else {
                        spec_set_color_hex(self.name@, e.2)
                    }) + spec_set_cursor(self.name@, e.0 as int, e.1 as int) + spec_write_one(
                        self.name@,
                        e.2.spec_text(),
                    ));
                    assert(write_script@ + draw_basic_script(
                        self.name@,
                        to_write@.skip(i + 1),
                        e.2.text_color,
                        e.2.background_color,
                    ) =~= full_script);
                }
            }
            last_t = e.2.text_color;
            last_b = e.2.background_color;
            i = i + 1;
        }
        proof {
            assert(to_write@.skip(n as int) =~= Seq::<DrawEntry>::empty());
        }
        (write_script, code_line)
    }
}

/// Text-run draw order: by text color, then background color, then row,
/// then column. Equal keys stay in their given order.
pub open spec fn long_le(a: DrawEntry, b: DrawEntry) -> bool {
    if a.2.text_color.spec_number() != b.2.text_color.spec_number() {
        a.2.text_color.spec_number() < b.2.text_color.spec_number()
    } else if a.2.background_color.spec_number() != b.2.background_color.spec_number() {
        a.2.background_color.spec_number() < b.2.background_color.spec_number()
    } else if a.1 != b.1 {
        a.1 < b.1
    } else {
        a.0 <= b.0
    }
}

/// The entries in text-run draw order.
pub open spec fn sort_long_spec(s: Seq<DrawEntry>) -> Seq<DrawEntry> {
    stable_sort_spec(|a: DrawEntry, b: DrawEntry| long_le(a, b), s)
}

/// Text-run draw-order comparison of two entries.
fn long_le_exec(a: &DrawEntry, b: &DrawEntry) -> (r: bool)
    ensures
        r == long_le(*a, *b),
{
    let at = a.2.text_color.to_number();
    let bt = b.2.text_color.to_number();
    if at != bt {
        at < bt
    } else {
        let ab = a.2.background_color.to_number();
        let bb = b.2.background_color.to_number();
        if ab != bb {
            ab < bb
        } else if a.1 != b.1 {
            a.1 < b.1
        } else {
            a.0 <= b.0
        }
    }
}

/// Insert `e` behind every entry that does not order after it in the
/// text-run draw order.
fn sorted_insert_long(out: &mut Vec<DrawEntry>, e: DrawEntry)
    ensures
        final(out)@ == stable_insert(|a: DrawEntry, b: DrawEntry| long_le(a, b), old(out)@, e),
{
    let n = out.len();
    let mut i: usize = 0;
    while i < n && long_le_exec(&out[i], &e)
        invariant
            n == out@.len(),
            i <= n,
            *out == *old(out),
            forall|k: int| 0 <= k < i ==> long_le(#[trigger] out@[k], e),
        decreases n - i,
    {
        i = i + 1;
    }
    proof {
        lemma_stable_insert_at(|a: DrawEntry, b: DrawEntry| long_le(a, b), out@, e, i as int);
    }
    out.insert(i, e);
    proof {
        assert(final(out)@ =~= old(out)@.subrange(0, i as int) + seq![e] + old(out)@.subrange(
            i as int,
            old(out)@.len() as int,
        ));
    }
}

/// Sort the entries into text-run draw order, equal keys kept in their given
/// order.
fn sort_long(draw: Vec<DrawEntry>) -> (r: Vec<DrawEntry>)
    ensures
        r@ == sort_long_spec(draw@),
{
    let mut draw = draw;
    let mut out: Vec<DrawEntry> = Vec::new();
    let n = draw.len();
    let mut i: usize = 0;
    while i < n
        invariant
            n == draw@.len(),
            i <= n,
            out@ == sort_long_spec(draw@.subrange(0, i as int)),
        decreases n - i,
    {
        let e = draw[i];
        sorted_insert_long(&mut out, e);
        proof {
            assert(draw@.subrange(0, i + 1).drop_last() =~= draw@.subrange(0, i as int));
            assert(draw@.subrange(0, i + 1).last() == draw@[i as int]);
        }
        i = i + 1;
    }
    proof {
        assert(draw@.subrange(0, n as int) =~= draw@);
    }
    out
}

/// The character for the hexadecimal digit `d`, lower case.
pub open spec fn spec_hex_digit(d: int) -> char {
    if d == 0 {
        '0'
    } else if d == 1 {
        '1'
    } else if d == 2 {
        '2'
    } else if d == 3 {
        '3'
    } else if d == 4 {
        '4'
    } else if d == 5 {
        '5'
    } else if d == 6 {
        '6'
    } else if d == 7 {
        '7'
    } else if d == 8 {
        '8'
    } else if d == 9 {
        '9'
    } else if d == 10 {
        'a'
    } else if d == 11 {
        'b'
    } else if d == 12 {
        'c'
    } else if d == 13 {
        'd'
    } else if d == 14 {
        'e'
    } else {
        'f'
    }
}

/// An ASCII character as it appears inside a generated script string:
/// tab, return, newline, backslash and both quotes are backslash-escaped,
/// other control characters are written as a braced hexadecimal escape, and
/// everything else stands as itself.
pub open spec fn spec_escape_char(c: char) -> Seq<char> {
    if c == '\t' {
        seq!['\\', 't']
    } else if c == '\r' {
        seq!['\\', 'r']
    } else if c == '\n' {
        seq!['\\', 'n']
    } else if c == '\\' {
        seq!['\\', '\\']
    } else if c == '\'' {
        seq!['\\', '\'']
    } else if c == '"' {
        seq!['\\', '"']
    } else if (c as u32) < 32 || (c as u32) == 127 {
        if (c as u32) < 16 {
            seq!['\\', 'u', '{', spec_hex_digit(c as int), '}']
        } else {
            seq!['\\', 'u', '{', spec_hex_digit(c as int / 16), spec_hex_digit(c as int % 16), '}']
        }
    } else {
        seq![c]
    }
}

/// The character for the hexadecimal digit `d`, lower case.
pub(crate) fn hex_digit_str(d: u32) -> (s: &'static str)
    requires
        d < 16,
    ensures
        s@ == seq![spec_hex_digit(d as int)],
{
    let s: &'static str = match d {
        0 => "0",
        1 => "1",
        2 => "2",
        3 => "3",
        4 => "4",
        5 => "5",
        6 => "6",
        7 => "7",
        8 => "8",
        9 => "9",
        10 => "a",
        11 => "b",
        12 => "c",
        13 => "d",
        14 => "e",
        _ => "f",
    };
    proof {
        reveal_strlit("0");
        reveal_strlit("1");
        reveal_strlit("2");
        reveal_strlit("3");
        reveal_strlit("4");
        reveal_strlit("5");
        reveal_strlit("6");
        reveal_strlit("7");
        reveal_strlit("8");
        reveal_strlit("9");
        reveal_strlit("a");
        reveal_strlit("b");
        reveal_strlit("c");
        reveal_strlit("d");
        reveal_strlit("e");
        reveal_strlit("f");
        assert(s@ =~= seq![spec_hex_digit(d as int)]);
    }
    s
}

/// Append the in-script form of one ASCII character to a run of text.
fn push_escaped(run: &mut String, c: char)
    requires
        crate::misc::is_ascii_char(c),
    ensures
        final(run)@ == old(run)@ + spec_escape_char(c),
{
    if c == '\t' {
        run.append("\\t");
        proof {
            reveal_strlit("\\t");
            assert(final(run)@ =~= old(run)@ + spec_escape_char(c));
        }
    } else if c == '\r' {
        run.append("\\r");
        proof {
            reveal_strlit("\\r");
            assert(final(run)@ =~= old(run)@ + spec_escape_char(c));
        }
    } else if c == '\n' {
        run.append("\\n");
        proof {
            reveal_strlit("\\n");
            assert(final(run)@ =~= old(run)@ + spec_escape_char(c));
        }
    } else if c == '\\' {
        run.append("\\\\");
        proof {
            reveal_strlit("\\\\");
            assert(final(run)@ =~= old(run)@ + spec_escape_char(c));
        }
    } else if c == '\'' {
        run.append("\\'");
        proof {
            reveal_strlit("\\'");
            assert(final(run)@ =~= old(run)@ + spec_escape_char(c));
        }
    } else if c == '"' {
        run.append("\\\"");
        proof {
            reveal_strlit("\\\"");
            assert(final(run)@ =~= old(run)@ + spec_escape_char(c));
        }
    } else {
        let code = c as u32;
        if code < 32 || code == 127 {
            run.append("\\u{");
            proof {
                reveal_strlit("\\u{");
            }
            if code < 16 {
                run.append(hex_digit_str(code));
            } else {
                run.append(hex_digit_str(code / 16));
                run.append(hex_digit_str(code % 16));
            }
            run.append("}");
            proof {
                reveal_strlit("}");
                assert(final(run)@ =~= old(run)@ + spec_escape_char(c));
            }
        } else {
            crate::strfmt::push_char(run, c);
            proof {
                assert(final(run)@ =~= old(run)@ + spec_escape_char(c));
            }
        }
    }
}

/// The cells of the monitor satisfying `pred`, walked from zero-based
/// `(i, j)`: column by column, rows in order within each column.
pub open spec fn cells_where(
    m: LocalMonitor,
    pred: spec_fn(int, int) -> bool,
    i: int,
    j: int,
) -> Seq<DrawEntry>
    decreases m.spec_x() - i, m.spec_y() - j,
{
    if i < 0 || j < 0 || i >= m.spec_x() {
        Seq::empty()
    } else if j >= m.spec_y() {
        cells_where(m, pred, i + 1, 0)
    } else {
        (if pred(i, j) {
            seq![(i as usize, j as usize, m.spec_get(i, j))]
        } else {
            Seq::<DrawEntry>::empty()
        }) + cells_where(m, pred, i, j + 1)
    }
}

/// The cells that `gen_nonsynced` reports: those that differ from the
/// last-synchronized buffer.
pub open spec fn nonsynced_cells(m: LocalMonitor) -> Seq<DrawEntry> {
    cells_where(m, |i: int, j: int| m.spec_differs(i, j), 0, 0)
}

/// The cells a clearing redraw must still paint over the cleared background:
/// those on another background, or showing a visible character.
pub open spec fn cleared_cells(m: LocalMonitor, color: ColorId) -> Seq<DrawEntry> {
    cells_where(
        m,
        |i: int, j: int| m.spec_get(i, j).background_color != color || !m.spec_get(
            i,
            j,
        ).spec_is_whitespace(),
        0,
        0,
    )
}

/// A walk from `(i, j)` visits at most the cells that are left.
proof fn lemma_cells_where_len(m: LocalMonitor, pred: spec_fn(int, int) -> bool, i: int, j: int)
    requires
        0 <= i <= m.spec_x(),
        0 <= j <= m.spec_y(),
        i < m.spec_x() || j == 0,
    ensures
        cells_where(m, pred, i, j).len() <= (m.spec_x() - i) * m.spec_y() - j,
    decreases m.spec_x() - i, m.spec_y() - j,
{
    let sx = m.spec_x() as int;
    let sy = m.spec_y() as int;
    if i >= sx {
    } else if j >= sy {
        lemma_cells_where_len(m, pred, i + 1, 0);
        assert((sx - (i + 1)) * sy == (sx - i) * sy - sy) by (nonlinear_arith);
    } else {
        lemma_cells_where_len(m, pred, i, j + 1);
    }
}

/// The script of the whole text-run draw of some cells: nothing for no
/// cells; else the first entry's colors and cursor, then the run pass over
/// the entries in text-run order.
pub open spec fn long_str_full_script(name: Seq<char>, sy_mon: int, draw: Seq<DrawEntry>) -> Seq<
    char,
> {
    if draw.len() == 0 {
        Seq::empty()
    } else {
        let s = sort_long_spec(draw);
        spec_set_color_hex(name, s[0].2) + spec_set_cursor(name, s[0].0 as int, s[0].1 as int)
            + long_str_script(
            name,
            sy_mon,
            s,
            s[0].2.text_color,
            s[0].2.background_color,
            s[0].0 as int,
            s[0].1 as int,
            Seq::<char>::empty(),
        )
    }
}

/// The line count of the whole text-run draw of some cells.
pub open spec fn long_str_full_count(sy_mon: int, draw: Seq<DrawEntry>) -> int {
    if draw.len() == 0 {
        0int
    } else {
        let s = sort_long_spec(draw);
        3 + long_str_count(
            sy_mon,
            s,
            s[0].2.text_color,
            s[0].2.background_color,
            s[0].0 as int,
            s[0].1 as int,
        )
    }
}

/// The script of the text-run draw pass over entries already in text-run
/// order. The pass keeps a current color pair, a cursor position and a run
/// of pending text: an entry that continues the run at the cursor in the
/// current colors only extends the run; any change first writes the pending
/// run out, then sets what changed. After a write the cursor stands one cell
/// to the right, except on the monitor's last row, where it wraps to the
/// start of the next row. The final pending run is written at the end.
pub open spec fn long_str_script(
    name: Seq<char>,
    sy_mon: int,
    s: Seq<DrawEntry>,
    last_t: ColorId,
    last_b: ColorId,
    cx: int,
    cy: int,
    run: Seq<char>,
) -> Seq<char>
    decreases s.len(),
{
    if s.len() == 0 {
        spec_write_multi(name, run)
    } else {
        let e = s[0];
        let same_color = e.2.text_color == last_t && e.2.background_color == last_b;
        let same_pos = e.0 == cx && e.1 == cy;
        (if !same_color || !same_pos {
            spec_write_multi(name, run)
        } else {
            Seq::<char>::empty()
        }) + (if !same_color {
            spec_set_color_hex(name, e.2)
        } else {
            Seq::<char>::empty()
        }) + (if !same_pos {
            spec_set_cursor(name, e.0 as int, e.1 as int)
        } else {
            Seq::<char>::empty()
        }) + long_str_script(
            name,
            sy_mon,
            s.drop_first(),
            e.2.text_color,
            e.2.background_color,
            if e.1 == sy_mon {
                1
            } else {
                e.0 + 1
            },
            if e.1 == sy_mon {
                e.1 + 1
            } else {
                e.1 as int
            },
            (if !same_color || !same_pos {
                Seq::<char>::empty()
            } else {
                run
            }) + spec_escape_char(e.2.spec_text()),
        )
    }
}

/// The script-line count of the text-run draw pass: one line per run
/// written out, two per color change, one per cursor move, and one for the
/// final run.
pub open spec fn long_str_count(
    sy_mon: int,
    s: Seq<DrawEntry>,
    last_t: ColorId,
    last_b: ColorId,
    cx: int,
    cy: int,
) -> int
    decreases s.len(),
{
    if s.len() == 0 {
        1int
    } else {
        let e = s[0];
        let same_color = e.2.text_color == last_t && e.2.background_color == last_b;
        let same_pos = e.0 == cx && e.1 == cy;
        (if !same_color || !same_pos {
            1int
        } else {
            0int
        }) + (if !same_color {
            2int
        } else {
            0int
        }) + (if !same_pos {
            1int
        } else {
            0int
        }) + long_str_count(
            sy_mon,
            s.drop_first(),
            e.2.text_color,
            e.2.background_color,
            if e.1 == sy_mon {
                1
            } else {
                e.0 + 1
            },
            if e.1 == sy_mon {
                e.1 + 1
            } else {
                e.1 as int
            },
        )
    }
}

impl LocalMonitor {
    /// Draw the given cells as runs of text: sort them into text-run order,
    /// set the first entry's colors and cursor, and then extend a pending
    /// run while each entry continues at the cursor in the current colors,
    /// writing the run out whenever the colors or the position jump. Returns
    /// the script (empty unless `create_str` asks for text) and the line
    /// count the full script stands for; no cells make an empty script of
    /// no lines.
    #[verifier::rlimit(100)]
    #[verifier::spinoff_prover]
    pub fn gen_draw_opt_cursor_long_str(&self, draw: Vec<DrawEntry>, create_str: bool) -> (r: (
        String,
        usize,
    ))
        requires
            4 * draw@.len() + 4 <= usize::MAX,
            forall|k: int|
                0 <= k < draw@.len() ==> (#[trigger] draw@[k]).0 < usize::MAX && draw@[k].1
                    < usize::MAX && draw@[k].2.wf(),
        ensures
            r.1 == long_str_full_count(self.spec_y() as int, draw@),
            create_str ==> r.0@ == long_str_full_script(self.name@, self.spec_y() as int, draw@),
            !create_str ==> r.0@.len() == 0,
    {
        if draw.len() == 0 {
            return (String::new(), 0);
        }
        let ghost input = draw@;
        let to_write = sort_long(draw);
        let n = to_write.len();
        proof {
            lemma_sort_len(|a: DrawEntry, b: DrawEntry| long_le(a, b), input);
            assert forall|k: int|
                0 <= k < to_write@.len() implies (#[trigger] to_write@[k]).0 < usize::MAX
                && to_write@[k].1 < usize::MAX && to_write@[k].2.wf() by {
                assert(to_write@[k] == to_write@[k] && to_write@.contains(to_write@[k]));
                lemma_sort_elements(
                    |a: DrawEntry, b: DrawEntry| long_le(a, b),
                    input,
                    to_write@[k],
                );
                let m = choose|m: int| 0 <= m < input.len() && input[m] == to_write@[k];
                assert(input[m].0 < usize::MAX && input[m].1 < usize::MAX && input[m].2.wf());
            }
        }
        let sy = self.y();
        let mut write_script = String::new();
        let first = to_write[0];
        let mut code_line = self.ext_script_set_color(&mut write_script, create_str, first.2);
        let c0 = self.ext_script_set_cursor(&mut write_script, create_str, first.0, first.1);
        code_line = code_line + c0;
        let mut last_t = first.2.text_color;
        let mut last_b = first.2.background_color;
        let mut cx = first.0;
        let mut cy = first.1;
        let mut run = String::new();
        let ghost full_script = spec_set_color_hex(self.name@, to_write@[0].2) + spec_set_cursor(
            self.name@,
            to_write@[0].0 as int,
            to_write@[0].1 as int,
        ) + long_str_script(
            self.name@,
            sy as int,
            to_write@,
            to_write@[0].2.text_color,
            to_write@[0].2.background_color,
            to_write@[0].0 as int,
            to_write@[0].1 as int,
            Seq::<char>::empty(),
        );
        let ghost full_count = 3 + long_str_count(
            sy as int,
            to_write@,
            to_write@[0].2.text_color,
            to_write@[0].2.background_color,
            to_write@[0].0 as int,
            to_write@[0].1 as int,
        );
        proof {
            assert(to_write@.skip(0) =~= to_write@);
        }
        let mut i: usize = 0;
        while i < n
            invariant
                n == to_write@.len(),
                n == input.len(),
                i <= n,
                4 * n + 4 <= usize::MAX,
                sy == self.spec_y(),
                forall|k: int|
                    0 <= k < to_write@.len() ==> (#[trigger] to_write@[k]).0 < usize::MAX
                        && to_write@[k].1 < usize::MAX && to_write@[k].2.wf(),
                code_line <= 3 + 4 * i,
                code_line + long_str_count(
                    sy as int,
                    to_write@.skip(i as int),
                    last_t,
                    last_b,
                    cx as int,
                    cy as int,
                ) == full_count,
                create_str ==> write_script@ + long_str_script(
                    self.name@,
                    sy as int,
                    to_write@.skip(i as int),
                    last_t,
                    last_b,
                    cx as int,
                    cy as int,
                    run@,
                ) == full_script,
                !create_str ==> write_script@.len() == 0,
            decreases n - i,
        {
            let ghost rest = to_write@.skip(i as int);
            proof {
                assert(rest[0] == to_write@[i as int]);
                assert(rest.drop_first() =~= to_write@.skip(i + 1));
            }
            let e = to_write[i];
            let ghost script_before = write_script@;
            let ghost run_before = run@;
            let ghost state_before = (last_t, last_b, cx as int, cy as int);
            let same_color = e.2.text_color == last_t && e.2.background_color == last_b;
            let same_pos = e.0 == cx && e.1 == cy;
            let ghost flush_part = if !same_color || !same_pos {
                spec_write_multi(self.name@, run_before)
            } else {
                Seq::<char>::empty()
            };
            let ghost color_part = if !same_color {
                spec_set_color_hex(self.name@, e.2)
            } else {
                Seq::<char>::empty()
            };
            let ghost cursor_part = if !same_pos {
                spec_set_cursor(self.name@, e.0 as int, e.1 as int)
            } else {
                Seq::<char>::empty()
            };
            let mut step: usize = 0;
            if !same_color || !same_pos {
                step = self.ext_script_write_multi_char(&mut write_script, create_str, run.as_str());
                run = String::new();
            }
            if !same_color {
                let c = self.ext_script_set_color(&mut write_script, create_str, e.2);
                step = step + c;
            }
            if !same_pos {
                let c = self.ext_script_set_cursor(&mut write_script, create_str, e.0, e.1);
                step = step + c;
            }
            code_line = code_line + step;
            push_escaped(&mut run, e.2.text());
            proof {
                let ghost ncx: int = if e.1 == sy {
                    1
                } else {
                    e.0 + 1
                };
                let ghost ncy: int = if e.1 == sy {
                    e.1 + 1
                } else {
                    e.1 as int
                };
                let run_new = (if !same_color || !same_pos {
                    Seq::<char>::empty()
                } else {
                    run_before
                }) + spec_escape_char(e.2.spec_text());
                assert(run@ =~= run_new);
                let tail = long_str_script(
                    self.name@,
                    sy as int,
                    rest.drop_first(),
                    e.2.text_color,
                    e.2.background_color,
                    ncx,
                    ncy,
                    run_new,
                );
                assert(long_str_script(
                    self.name@,
                    sy as int,
                    rest,
                    state_before.0,
                    state_before.1,
                    state_before.2,
                    state_before.3,
                    run_before,
                ) == flush_part + color_part + cursor_part + tail);
                if create_str {
                    assert(write_script@ =~= script_before + flush_part + color_part
                        + cursor_part);
                    assert(script_before + (flush_part + color_part + cursor_part + tail) =~= (
                    script_before + flush_part + color_part + cursor_part) + tail);
                    assert(write_script@ + tail == full_script);
                }
                assert(long_str_count(
                    sy as int,
                    rest,
                    state_before.0,
                    state_before.1,
                    state_before.2,
                    state_before.3,
                ) == (if !same_color || !same_pos {
                    1int
                } else {
                    0int
                }) + (if !same_color {
                    2int
                } else {
                    0int
                }) + (if !same_pos {
                    1int
                } else {
                    0int
                }) + long_str_count(
                    sy as int,
                    rest.drop_first(),
                    e.2.text_color,
                    e.2.background_color,
                    ncx,
                    ncy,
                ));
            }
            last_t = e.2.text_color;
            last_b = e.2.background_color;
            if e.1 == sy {
                cx = 1;
                cy = e.1 + 1;
            } else {
                cx = e.0 + 1;
                cy = e.1;
            }
            i = i + 1;
        }
        let fin = self.ext_script_write_multi_char(&mut write_script, create_str, run.as_str());
        code_line = code_line + fin;
        proof {
            assert(to_write@.skip(n as int) =~= Seq::<DrawEntry>::empty());
        }
        (write_script, code_line)
    }
}

/// Each entry of the run pass stands for at most four script lines, plus
/// one for the final run.
proof fn lemma_long_str_count_bound(
    sy_mon: int,
    s: Seq<DrawEntry>,
    last_t: ColorId,
    last_b: ColorId,
    cx: int,
    cy: int,
)
    ensures
        1 <= long_str_count(sy_mon, s, last_t, last_b, cx, cy) <= 4 * s.len() + 1,
    decreases s.len(),
{
    if s.len() == 0 {
    } else {
        let e = s[0];
        lemma_long_str_count_bound(
            sy_mon,
            s.drop_first(),
            e.2.text_color,
            e.2.background_color,
            if e.1 == sy_mon {
                1
            } else {
                e.0 + 1
            },
            if e.1 == sy_mon {
                e.1 + 1
            } else {
                e.1 as int
            },
        );
    }
}

impl LocalMonitor {
    /// The cells a clearing redraw must still paint when the board is first
    /// cleared to `color`: those on another background, or showing a visible
    /// character.
    fn gen_cleared(&self, color: ColorId) -> (r: Vec<DrawEntry>)
        requires
            self.wf(),
        ensures
            r@ == cleared_cells(*self, color),
            forall|k: int|
                0 <= k < r@.len() ==> ((#[trigger] r@[k]).0 < self.spec_x() && r@[k].1
                    < self.spec_y() && r@[k].2 == self.spec_get(r@[k].0 as int, r@[k].1 as int)
                    && r@[k].2.wf()),
    {
        let mut out: Vec<DrawEntry> = Vec::new();
        let sx = self.x();
        let sy = self.y();
        let mut i: usize = 0;
        while i < sx
            invariant
                self.wf(),
                sx == self.spec_x(),
                sy == self.spec_y(),
                i <= sx,
                cleared_cells(*self, color) == out@ + cells_where(
                    *self,
                    |a: int, b: int| self.spec_get(a, b).background_color != color
                        || !self.spec_get(a, b).spec_is_whitespace(),
                    i as int,
                    0,
                ),
                forall|k: int|
                    0 <= k < out@.len() ==> ((#[trigger] out@[k]).0 < sx && out@[k].1 < sy
                        && out@[k].2 == self.spec_get(out@[k].0 as int, out@[k].1 as int)
                        && out@[k].2.wf()),
            decreases sx - i,
        {
            let mut j: usize = 0;
            while j < sy
                invariant
                    self.wf(),
                    sx == self.spec_x(),
                    sy == self.spec_y(),
                    i < sx,
                    j <= sy,
                    cleared_cells(*self, color) == out@ + cells_where(
                        *self,
                        |a: int, b: int| self.spec_get(a, b).background_color != color
                            || !self.spec_get(a, b).spec_is_whitespace(),
                        i as int,
                        j as int,
                    ),
                    forall|k: int|
                        0 <= k < out@.len() ==> ((#[trigger] out@[k]).0 < sx && out@[k].1 < sy
                            && out@[k].2 == self.spec_get(out@[k].0 as int, out@[k].1 as int)
                            && out@[k].2.wf()),
                decreases sy - j,
            {
                let p = self.data.read(i, j);
                let keep = !(p.background_color == color) || !p.is_whitespace();
                let ghost prevw = out@;
                if keep {
                    out.push((i, j, p));
                }
                proof {
                    let pred = |a: int, b: int| self.spec_get(a, b).background_color != color
                        || !self.spec_get(a, b).spec_is_whitespace();
                    assert(cells_where(*self, pred, i as int, j as int) == (if pred(
                        i as int,
                        j as int,
                    ) {
                        seq![(i, j, self.spec_get(i as int, j as int))]
                    } else {
                        Seq::<DrawEntry>::empty()
                    }) + cells_where(*self, pred, i as int, j + 1));
                    assert(pred(i as int, j as int) == keep);
                    if keep {
                        assert(out@ =~= prevw + seq![(i, j, p)]);
                        assert(prevw + (seq![(i, j, p)] + cells_where(*self, pred, i as int, j + 1))
                            =~= out@ + cells_where(*self, pred, i as int, j + 1));
                    } else {
                        assert(prevw + (Seq::<DrawEntry>::empty() + cells_where(
                            *self,
                            pred,
                            i as int,
                            j + 1,
                        )) =~= out@ + cells_where(*self, pred, i as int, j + 1));
                    }
                }
                j = j + 1;
            }
            proof {
                let pred = |a: int, b: int| self.spec_get(a, b).background_color != color
                    || !self.spec_get(a, b).spec_is_whitespace();
                assert(cells_where(*self, pred, i as int, sy as int) == cells_where(
                    *self,
                    pred,
                    i + 1,
                    0,
                ));
            }
            i = i + 1;
        }
        proof {
            let pred = |a: int, b: int| self.spec_get(a, b).background_color != color
                || !self.spec_get(a, b).spec_is_whitespace();
            assert(cells_where(*self, pred, sx as int, 0) == Seq::<DrawEntry>::empty());
            assert(out@ + Seq::<DrawEntry>::empty() =~= out@);
        }
        out
    }

    /// Redraw by clearing: clear the whole board to `bg_color`, then draw
    /// back, as text runs, every cell that the clearing does not already
    /// show. Returns the script and its line count.
    pub fn gen_draw_opt_clear(&self, bg_color: ColorId) -> (r: (String, usize))
        requires
            self.wf(),
            4 * (self.spec_x() * self.spec_y()) + 8 <= usize::MAX,
        ensures
            r.0@ == spec_clear(self.name@, bg_color) + long_str_full_script(
                self.name@,
                self.spec_y() as int,
                cleared_cells(*self, bg_color),
            ),
            r.1 == 2 + long_str_full_count(
                self.spec_y() as int,
                cleared_cells(*self, bg_color),
            ),
    {
        let cleared = self.gen_cleared(bg_color);
        proof {
            lemma_cells_where_len(
                *self,
                |a: int, b: int| self.spec_get(a, b).background_color != bg_color
                    || !self.spec_get(a, b).spec_is_whitespace(),
                0,
                0,
            );
            if cleared@.len() > 0 {
                lemma_sort_len(|a: DrawEntry, b: DrawEntry| long_le(a, b), cleared@);
                lemma_long_str_count_bound(
                    self.spec_y() as int,
                    sort_long_spec(cleared@),
                    sort_long_spec(cleared@)[0].2.text_color,
                    sort_long_spec(cleared@)[0].2.background_color,
                    sort_long_spec(cleared@)[0].0 as int,
                    sort_long_spec(cleared@)[0].1 as int,
                );
            }
        }
        let (mut s, c) = self.gen_script_clear(bg_color);
        let d = self.gen_draw_opt_cursor_long_str(cleared, true);
        s.append(d.0.as_str());
        let total = c + d.1;
        proof {
            assert(s@ =~= spec_clear(self.name@, bg_color) + long_str_full_script(
                self.name@,
                self.spec_y() as int,
                cleared_cells(*self, bg_color),
            ));
        }
        (s, total)
    }

    /// The script that brings the real monitor level with the local buffer,
    /// drawing the changed cells as text runs, and its line count; the
    /// wanted pixels are then recorded as sent. An empty script of no lines
    /// means nothing differed. The returned script must in fact be run on
    /// the host.
    pub fn sync_script(&mut self) -> (r: (String, usize))
        requires
            old(self).wf(),
            4 * (old(self).spec_x() * old(self).spec_y()) + 8 <= usize::MAX,
        ensures
            final(self).wf(),
            final(self).spec_x() == old(self).spec_x(),
            final(self).spec_y() == old(self).spec_y(),
            final(self).name@ == old(self).name@,
            final(self).data == old(self).data,
            nonsynced_cells(*old(self)).len() == 0 ==> r.0@.len() == 0 && r.1 == 0 && *final(self)
                == *old(self),
            nonsynced_cells(*old(self)).len() > 0 ==> r.0@ == long_str_full_script(
                old(self).name@,
                old(self).spec_y() as int,
                nonsynced_cells(*old(self)),
            ) && r.1 == long_str_full_count(
                old(self).spec_y() as int,
                nonsynced_cells(*old(self)),
            ) && forall|i: int, j: int|
                0 <= i < old(self).spec_x() && 0 <= j < old(self).spec_y() ==> final(self).last_sync.spec_index(i, j) == old(self).spec_get(i, j),
    {
        let to_write = self.gen_nonsynced();
        if to_write.len() == 0 {
            return (String::new(), 0);
        }
        proof {
            lemma_cells_where_len(*self, |a: int, b: int| self.spec_differs(a, b), 0, 0);
        }
        let d = self.gen_draw_opt_cursor_long_str(to_write, true);
        self.copy_data_to_last_sync();
        d
    }

    /// The script that brings the real monitor level with the local buffer
    /// by clearing it to `bg_color` and drawing back what the clearing does
    /// not show, and its line count; the wanted pixels are then recorded as
    /// sent. An empty script of no lines means nothing differed. The
    /// returned script must in fact be run on the host.
    pub fn sync_clear_script(&mut self, bg_color: ColorId) -> (r: (String, usize))
        requires
            old(self).wf(),
            4 * (old(self).spec_x() * old(self).spec_y()) + 8 <= usize::MAX,
        ensures
            final(self).wf(),
            final(self).spec_x() == old(self).spec_x(),
            final(self).spec_y() == old(self).spec_y(),
            final(self).name@ == old(self).name@,
            final(self).data == old(self).data,
            nonsynced_cells(*old(self)).len() == 0 ==> r.0@.len() == 0 && r.1 == 0 && *final(self)
                == *old(self),
            nonsynced_cells(*old(self)).len() > 0 ==> r.0@ == spec_clear(
                old(self).name@,
                bg_color,
            ) + long_str_full_script(
                old(self).name@,
                old(self).spec_y() as int,
                cleared_cells(*old(self), bg_color),
            ) && r.1 == 2 + long_str_full_count(
                old(self).spec_y() as int,
                cleared_cells(*old(self), bg_color),
            ) && forall|i: int, j: int|
                0 <= i < old(self).spec_x() && 0 <= j < old(self).spec_y() ==> final(self).last_sync.spec_index(i, j) == old(self).spec_get(i, j),
    {
        let to_write = self.gen_nonsynced();
        if to_write.len() == 0 {
            return (String::new(), 0);
        }
        let d = self.gen_draw_opt_clear(bg_color);
        self.copy_data_to_last_sync();
        d
    }
}

/// Cursor draw order: by text color, then background color, then the
/// drawn character, then row. Equal keys stay in their given order.
pub open spec fn cursor_le(a: DrawEntry, b: DrawEntry) -> bool {
    if a.2.text_color.spec_number() != b.2.text_color.spec_number() {
        a.2.text_color.spec_number() < b.2.text_color.spec_number()
    } else if a.2.background_color.spec_number() != b.2.background_color.spec_number() {
        a.2.background_color.spec_number() < b.2.background_color.spec_number()
    } else if a.2.spec_text() != b.2.spec_text() {
        (a.2.spec_text() as u32) < (b.2.spec_text() as u32)
    } else {
        a.1 <= b.1
    }
}

/// The entries in cursor draw order.
pub open spec fn sort_cursor_spec(s: Seq<DrawEntry>) -> Seq<DrawEntry> {
    stable_sort_spec(|a: DrawEntry, b: DrawEntry| cursor_le(a, b), s)
}

/// Cursor draw-order comparison of two entries.
fn cursor_le_exec(a: &DrawEntry, b: &DrawEntry) -> (r: bool)
    ensures
        r == cursor_le(*a, *b),
{
    let at = a.2.text_color.to_number();
    let bt = b.2.text_color.to_number();
    if at != bt {
        at < bt
    } else {
        let ab = a.2.background_color.to_number();
        let bb = b.2.background_color.to_number();
        if ab != bb {
            ab < bb
        } else {
            let ac = a.2.text() as u32;
            let bc = b.2.text() as u32;
            if ac != bc {
                ac < bc
            } else {
                a.1 <= b.1
            }
        }
    }
}

/// Insert `e` behind every entry that does not order after it in the cursor
/// draw order.
fn sorted_insert_cursor(out: &mut Vec<DrawEntry>, e: DrawEntry)
    ensures
        final(out)@ == stable_insert(|a: DrawEntry, b: DrawEntry| cursor_le(a, b), old(out)@, e),
{
    let n = out.len();
    let mut i: usize = 0;
    while i < n && cursor_le_exec(&out[i], &e)
        invariant
            n == out@.len(),
            i <= n,
            *out == *old(out),
            forall|k: int| 0 <= k < i ==> cursor_le(#[trigger] out@[k], e),
        decreases n - i,
    {
        i = i + 1;
    }
    proof {
        lemma_stable_insert_at(|a: DrawEntry, b: DrawEntry| cursor_le(a, b), out@, e, i as int);
    }
    out.insert(i, e);
    proof {
        assert(final(out)@ =~= old(out)@.subrange(0, i as int) + seq![e] + old(out)@.subrange(
            i as int,
            old(out)@.len() as int,
        ));
    }
}

/// Sort the entries into cursor draw order, equal keys kept in their given
/// order.
fn sort_cursor(draw: Vec<DrawEntry>) -> (r: Vec<DrawEntry>)
    ensures
        r@ == sort_cursor_spec(draw@),
{
    let mut draw = draw;
    let mut out: Vec<DrawEntry> = Vec::new();
    let n = draw.len();
    let mut i: usize = 0;
    while i < n
        invariant
            n == draw@.len(),
            i <= n,
            out@ == sort_cursor_spec(draw@.subrange(0, i as int)),
        decreases n - i,
    {
        let e = draw[i];
        sorted_insert_cursor(&mut out, e);
        proof {
            assert(draw@.subrange(0, i + 1).drop_last() =~= draw@.subrange(0, i as int));
            assert(draw@.subrange(0, i + 1).last() == draw@[i as int]);
        }
        i = i + 1;
    }
    proof {
        assert(draw@.subrange(0, n as int) =~= draw@);
    }
    out
}

/// The script of the cursor draw pass over entries already in cursor order,
/// with the colors `last_t` on `last_b` already set and the cursor at
/// `(cx, cy)`: each entry sets its colors when they differ, moves the cursor
/// unless it already stands on the cell, and writes its character, leaving
/// the cursor one cell to the right.
pub open spec fn cursor_script(
    name: Seq<char>,
    s: Seq<DrawEntry>,
    last_t: ColorId,
    last_b: ColorId,
    cx: int,
    cy: int,
) -> Seq<char>
    decreases s.len(),
{
    if s.len() == 0 {
        Seq::empty()
    } else {
        let e = s[0];
        let same_color = e.2.text_color == last_t && e.2.background_color == last_b;
        let same_pos = e.0 == cx && e.1 == cy;
        (if !same_color {
            spec_set_color_dec(name, e.2)
        } else {
            Seq::<char>::empty()
        }) + (if !same_pos {
            spec_set_cursor(name, e.0 as int, e.1 as int)
        } else {
            Seq::<char>::empty()
        }) + spec_write_one(name, e.2.spec_text()) + cursor_script(
            name,
            s.drop_first(),
            e.2.text_color,
            e.2.background_color,
            e.0 + 1,
            e.1 as int,
        )
    }
}

/// The script-line count of the cursor draw pass.
pub open spec fn cursor_count(s: Seq<DrawEntry>, last_t: ColorId, last_b: ColorId, cx: int, cy: int) -> int
    decreases s.len(),
{
    if s.len() == 0 {
        0int
    } else {
        let e = s[0];
        let same_color = e.2.text_color == last_t && e.2.background_color == last_b;
        let same_pos = e.0 == cx && e.1 == cy;
        (if !same_color {
            2int
        } else {
            0int
        }) + (if !same_pos {
            1int
        } else {
            0int
        }) + 1 + cursor_count(s.drop_first(), e.2.text_color, e.2.background_color, e.0 + 1, e.1 as int)
    }
}

/// How many cells show as blanks over background `c`, walked from
/// zero-based `(i, j)` like `cells_where`.
pub open spec fn ws_bg_count(m: LocalMonitor, c: ColorId, i: int, j: int) -> int
    decreases m.spec_x() - i, m.spec_y() - j,
{
    if i < 0 || j < 0 || i >= m.spec_x() {
        0int
    } else if j >= m.spec_y() {
        ws_bg_count(m, c, i + 1, 0)
    } else {
        (if m.spec_get(i, j).spec_is_whitespace() && m.spec_get(i, j).background_color == c {
            1int
        } else {
            0int
        }) + ws_bg_count(m, c, i, j + 1)
    }
}

/// The blank-cell counts of the sixteen palette colors.
pub open spec fn blank_counts(m: LocalMonitor) -> Seq<int> {
    Seq::new(16, |k: int| ws_bg_count(m, ColorId::from_index(k), 0, 0))
}

/// The position of the first maximum of `s` from `k` on, given the running
/// maximum `max` first seen at `max_idx`.
pub open spec fn argmax_from(s: Seq<int>, k: int, max: int, max_idx: int) -> int
    decreases s.len() - k,
{
    if k < 0 || k >= s.len() {
        max_idx
    } else if s[k] > max {
        argmax_from(s, k + 1, s[k], k)
    } else {
        argmax_from(s, k + 1, max, max_idx)
    }
}

/// The background most of the monitor's blank cells already show: the first
/// color with the most blank cells, counting an all-visible board as white.
pub open spec fn best_clear_color(m: LocalMonitor) -> ColorId {
    ColorId::from_index(argmax_from(blank_counts(m), 0, 0, 0))
}

/// The palette position of a color.
fn color_slot(c: ColorId) -> (r: usize)
    ensures
        r as u32 == c.color_index(),
        r < 16,
{
    match c {
        ColorId::White => 0,
        ColorId::Orange => 1,
        ColorId::Magenta => 2,
        ColorId::LightBlue => 3,
        ColorId::Yellow => 4,
        ColorId::Lime => 5,
        ColorId::Pink => 6,
        ColorId::Gray => 7,
        ColorId::LightGray => 8,
        ColorId::Cyan => 9,
        ColorId::Purple => 10,
        ColorId::Blue => 11,
        ColorId::Brown => 12,
        ColorId::Green => 13,
        ColorId::Red => 14,
        ColorId::Black => 15,
    }
}

impl LocalMonitor {
    /// Count, for every palette color, the cells showing as blanks over it.
    fn count_blanks(&self) -> (r: Vec<usize>)
        requires
            self.wf(),
            self.spec_x() * self.spec_y() <= usize::MAX,
        ensures
            r@.len() == 16,
            forall|k: int| 0 <= k < 16 ==> (#[trigger] r@[k]) as int == blank_counts(*self)[k],
    {
        let mut counts: Vec<usize> = Vec::new();
        let mut z: usize = 0;
        while z < 16
            invariant
                z <= 16,
                counts@.len() == z,
                forall|k: int| 0 <= k < z ==> (#[trigger] counts@[k]) == 0,
            decreases 16 - z,
        {
            counts.push(0);
            z = z + 1;
        }
        let sx = self.x();
        let sy = self.y();
        proof {
            vstd::arithmetic::mul::lemma_mul_nonnegative(sx as int, sy as int);
        }
        let mut i: usize = 0;
        while i < sx
            invariant
                self.wf(),
                sx == self.spec_x(),
                sy == self.spec_y(),
                sx * sy <= usize::MAX,
                i <= sx,
                counts@.len() == 16,
                forall|k: int| 0 <= k < 16 ==> 0 <= (#[trigger] counts@[k]) as int <= i * sy,
                forall|k: int|
                    0 <= k < 16 ==> ws_bg_count(*self, ColorId::from_index(k), 0, 0) == (
                    #[trigger] counts@[k]) as int + ws_bg_count(
                        *self,
                        ColorId::from_index(k),
                        i as int,
                        0,
                    ),
            decreases sx - i,
        {
            let mut j: usize = 0;
            while j < sy
                invariant
                    self.wf(),
                    sx == self.spec_x(),
                    sy == self.spec_y(),
                    sx * sy <= usize::MAX,
                    i < sx,
                    j <= sy,
                    counts@.len() == 16,
                    forall|k: int| 0 <= k < 16 ==> 0 <= (#[trigger] counts@[k]) as int <= i * sy + j,
                    forall|k: int|
                        0 <= k < 16 ==> ws_bg_count(*self, ColorId::from_index(k), 0, 0) == (
                        #[trigger] counts@[k]) as int + ws_bg_count(
                            *self,
                            ColorId::from_index(k),
                            i as int,
                            j as int,
                        ),
                decreases sy - j,
            {
                proof {
                    assert((i + 1) * sy <= sx * sy) by (nonlinear_arith)
                        requires
                            i < sx,
                            0 <= sy,
                    ;
                    assert(i * sy + j + 1 <= (i + 1) * sy) by (nonlinear_arith)
                        requires
                            j < sy,
                            0 <= i,
                    ;
                }
                let p = self.data.read(i, j);
                let ghost prevc = counts@;
                if p.is_whitespace() {
                    let slot = color_slot(p.background_color);
                    let c = counts[slot];
                    counts.set(slot, c + 1);
                }
                proof {
                    assert forall|k: int|
                        0 <= k < 16 implies ws_bg_count(*self, ColorId::from_index(k), 0, 0) == (
                    #[trigger] counts@[k]) as int + ws_bg_count(
                        *self,
                        ColorId::from_index(k),
                        i as int,
                        j + 1,
                    ) by {
                        let c = ColorId::from_index(k);
                        assert(ws_bg_count(*self, c, i as int, j as int) == (if self.spec_get(
                            i as int,
                            j as int,
                        ).spec_is_whitespace() && self.spec_get(i as int, j as int).background_color
                            == c {
                            1int
                        } else {
                            0int
                        }) + ws_bg_count(*self, c, i as int, j + 1));
                        assert(ColorId::from_index(p.background_color.color_index() as int)
                            == p.background_color);
                    }
                }
                j = j + 1;
            }
            proof {
                assert forall|k: int|
                    0 <= k < 16 implies ws_bg_count(*self, ColorId::from_index(k), i as int, sy as int)
                    == ws_bg_count(*self, ColorId::from_index(k), i + 1, 0) by {
                }
                assert((i + 1) * sy == i * sy + sy) by (nonlinear_arith);
            }
            i = i + 1;
        }
        proof {
            assert forall|k: int|
                0 <= k < 16 implies ws_bg_count(*self, ColorId::from_index(k), sx as int, 0)
                == 0 by {
            }
        }
        counts
    }

    /// Draw the given cells one character at a time, in cursor order: set
    /// the first entry's colors and cursor, then per entry re-set the colors
    /// when they change, move the cursor unless it already stands on the
    /// cell, and write the character. Returns the script and its line count.
    #[verifier::rlimit(100)]
    #[verifier::spinoff_prover]
    pub fn gen_draw_opt_cursor(&self, draw: Vec<DrawEntry>) -> (r: (String, usize))
        requires
            draw@.len() > 0,
            4 * draw@.len() + 3 <= usize::MAX,
            forall|k: int|
                0 <= k < draw@.len() ==> (#[trigger] draw@[k]).0 < usize::MAX && draw@[k].1
                    < usize::MAX,
        ensures
            r.0@ == spec_set_color_dec(self.name@, sort_cursor_spec(draw@)[0].2) + spec_set_cursor(
                self.name@,
                sort_cursor_spec(draw@)[0].0 as int,
                sort_cursor_spec(draw@)[0].1 as int,
            ) + cursor_script(
                self.name@,
                sort_cursor_spec(draw@),
                sort_cursor_spec(draw@)[0].2.text_color,
                sort_cursor_spec(draw@)[0].2.background_color,
                sort_cursor_spec(draw@)[0].0 as int,
                sort_cursor_spec(draw@)[0].1 as int,
            ),
            r.1 == 3 + cursor_count(
                sort_cursor_spec(draw@),
                sort_cursor_spec(draw@)[0].2.text_color,
                sort_cursor_spec(draw@)[0].2.background_color,
                sort_cursor_spec(draw@)[0].0 as int,
                sort_cursor_spec(draw@)[0].1 as int,
            ),
    {
        let ghost input = draw@;
        let to_write = sort_cursor(draw);
        let n = to_write.len();
        proof {
            lemma_sort_len(|a: DrawEntry, b: DrawEntry| cursor_le(a, b), input);
            assert forall|k: int|
                0 <= k < to_write@.len() implies (#[trigger] to_write@[k]).0 < usize::MAX
                && to_write@[k].1 < usize::MAX by {
                assert(to_write@[k] == to_write@[k] && to_write@.contains(to_write@[k]));
                lemma_sort_elements(
                    |a: DrawEntry, b: DrawEntry| cursor_le(a, b),
                    input,
                    to_write@[k],
                );
                let m = choose|m: int| 0 <= m < input.len() && input[m] == to_write@[k];
                assert(input[m].0 < usize::MAX && input[m].1 < usize::MAX);
            }
        }
        let first = to_write[0];
        let (mut write_script, hc) = self.gen_script_set_color(first.2);
        let (cursor_s, cc) = self.gen_script_set_cursor(first.0, first.1);
        write_script.append(cursor_s.as_str());
        let mut code_line = hc + cc;
        let mut last_t = first.2.text_color;
        let mut last_b = first.2.background_color;
        let mut cx = first.0;
        let mut cy = first.1;
        let ghost full_script = spec_set_color_dec(self.name@, to_write@[0].2) + spec_set_cursor(
            self.name@,
            to_write@[0].0 as int,
            to_write@[0].1 as int,
        ) + cursor_script(
            self.name@,
            to_write@,
            to_write@[0].2.text_color,
            to_write@[0].2.background_color,
            to_write@[0].0 as int,
            to_write@[0].1 as int,
        );
        let ghost full_count = 3 + cursor_count(
            to_write@,
            to_write@[0].2.text_color,
            to_write@[0].2.background_color,
            to_write@[0].0 as int,
            to_write@[0].1 as int,
        );
        proof {
            assert(to_write@.skip(0) =~= to_write@);
            assert(write_script@ =~= spec_set_color_dec(self.name@, to_write@[0].2)
                + spec_set_cursor(self.name@, to_write@[0].0 as int, to_write@[0].1 as int));
        }
        let mut i: usize = 0;
        while i < n
            invariant
                n == to_write@.len(),
                i <= n,
                4 * n + 3 <= usize::MAX,
                forall|k: int|
                    0 <= k < to_write@.len() ==> (#[trigger] to_write@[k]).0 < usize::MAX
                        && to_write@[k].1 < usize::MAX,
                code_line <= 3 + 4 * i,
                code_line + cursor_count(
                    to_write@.skip(i as int),
                    last_t,
                    last_b,
                    cx as int,
                    cy as int,
                ) == full_count,
                write_script@ + cursor_script(
                    self.name@,
                    to_write@.skip(i as int),
                    last_t,
                    last_b,
                    cx as int,
                    cy as int,
                ) == full_script,
            decreases n - i,
        {
            let ghost rest = to_write@.skip(i as int);
            proof {
                assert(rest[0] == to_write@[i as int]);
                assert(rest.drop_first() =~= to_write@.skip(i + 1));
            }
            let e = to_write[i];
            let ghost script_before = write_script@;
            let same_color = e.2.text_color == last_t && e.2.background_color == last_b;
            let same_pos = e.0 == cx && e.1 == cy;
            let mut step: usize = 0;
            if !same_color {
                let (part, c) = self.gen_script_set_color(e.2);
                write_script.append(part.as_str());
                step = c;
            }
            if !same_pos {
                let (part, c) = self.gen_script_set_cursor(e.0, e.1);
                write_script.append(part.as_str());
                step = step + c;
            }
            let (part, c) = self.gen_script_write_char(e.2);
            write_script.append(part.as_str());
            step = step + c;
            code_line = code_line + step;
            proof {
                assert(write_script@ =~= script_before + (if !same_color {
                    spec_set_color_dec(self.name@, e.2)
                } else {
                    Seq::<char>::empty()
                }) + (if !same_pos {
                    spec_set_cursor(self.name@, e.0 as int, e.1 as int)
                } else {
                    Seq::<char>::empty()
                }) + spec_write_one(self.name@, e.2.spec_text()));
                let tail = cursor_script(
                    self.name@,
                    rest.drop_first(),
                    e.2.text_color,
                    e.2.background_color,
                    e.0 + 1,
                    e.1 as int,
                );
                assert(script_before + ((if !same_color {
                    spec_set_color_dec(self.name@, e.2)
                } else {
                    Seq::<char>::empty()
                }) + (if !same_pos {
                    spec_set_cursor(self.name@, e.0 as int, e.1 as int)
                } else {
                    Seq::<char>::empty()
                }) + spec_write_one(self.name@, e.2.spec_text()) + tail) =~= write_script@ + tail);
            }
            last_t = e.2.text_color;
            last_b = e.2.background_color;
            cx = e.0 + 1;
            cy = e.1;
            i = i + 1;
        }
        proof {
            assert(to_write@.skip(n as int) =~= Seq::<DrawEntry>::empty());
            assert(write_script@ + Seq::<char>::empty() =~= write_script@);
        }
        (write_script, code_line)
    }

    /// Redraw the given cells the cheaper of two ways: as plain text runs,
    /// or by first clearing the board to the background most of its blanks
    /// already show and drawing back the rest. Whichever script stands for
    /// fewer lines is returned, the text runs winning ties.
    pub fn gen_draw_opt_auto_clear(&self, draw: Vec<DrawEntry>) -> (r: (String, usize))
        requires
            self.wf(),
            4 * (self.spec_x() * self.spec_y()) + 8 <= usize::MAX,
            4 * draw@.len() + 4 <= usize::MAX,
            forall|k: int|
                0 <= k < draw@.len() ==> (#[trigger] draw@[k]).0 < usize::MAX && draw@[k].1
                    < usize::MAX && draw@[k].2.wf(),
        ensures
            2 + long_str_full_count(
                self.spec_y() as int,
                cleared_cells(*self, best_clear_color(*self)),
            ) >= long_str_full_count(self.spec_y() as int, draw@) ==> r.0@
                == long_str_full_script(self.name@, self.spec_y() as int, draw@) && r.1
                == long_str_full_count(self.spec_y() as int, draw@),
            2 + long_str_full_count(
                self.spec_y() as int,
                cleared_cells(*self, best_clear_color(*self)),
            ) < long_str_full_count(self.spec_y() as int, draw@) ==> r.0@ == spec_clear(
                self.name@,
                best_clear_color(*self),
            ) + long_str_full_script(
                self.name@,
                self.spec_y() as int,
                cleared_cells(*self, best_clear_color(*self)),
            ) && r.1 == 2 + long_str_full_count(
                self.spec_y() as int,
                cleared_cells(*self, best_clear_color(*self)),
            ),
    {
        let default_r = self.gen_draw_opt_cursor_long_str(draw, true);

        let counts = self.count_blanks();
        let mut max: usize = 0;
        let mut max_idx: usize = 0;
        let mut k: usize = 0;
        while k < 16
            invariant
                counts@.len() == 16,
                forall|z: int| 0 <= z < 16 ==> (#[trigger] counts@[z]) as int == blank_counts(
                    *self,
                )[z],
                k <= 16,
                max_idx < 16,
                argmax_from(blank_counts(*self), 0, 0, 0) == argmax_from(
                    blank_counts(*self),
                    k as int,
                    max as int,
                    max_idx as int,
                ),
            decreases 16 - k,
        {
            let c = counts[k];
            if c > max {
                max = c;
                max_idx = k;
            }
            k = k + 1;
        }
        let clear_color = ColorId::from_number_overflow(max_idx as u32);
        proof {
            assert(max_idx as int % 16 == max_idx as int);
            assert(clear_color == best_clear_color(*self));
        }

        let clear_r = self.gen_draw_opt_clear(clear_color);
        if clear_r.1 >= default_r.1 {
            default_r
        } else {
            clear_r
        }
    }
}

} // verus!
