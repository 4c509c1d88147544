//! A monitor mirrored in memory: writes land in a local pixel buffer, and
//! only the pixels that changed since the last synchronization are sent on.
//!
//! Cell coordinates in the public operations start at 1.

pub mod drawing;
pub mod script;

use vstd::prelude::*;
use vstd::string::StringExecFns;

use crate::misc::{AsIfPixel, ColorId, Direction, Side};
use crate::vec2d::Vec2d;

verus! {

/// How a monitor is reached: a peripheral on a side of the computer, or a
/// named remote peripheral through a wrapper on that side.
#[derive(Debug, Clone)]
pub enum InitMethod {
    Remote { side: Side, name: String },
    Local(Side),
}

impl From<Side> for InitMethod {
    /// A bare side stands for a local monitor on that side.
    fn from(value: Side) -> Self {
        InitMethod::Local(value)
    }
}

impl vstd::std_specs::convert::FromSpecImpl<Side> for InitMethod {
    open spec fn obeys_from_spec() -> bool {
        true
    }

    open spec fn from_spec(v: Side) -> Self {
        InitMethod::Local(v)
    }
}

/// The pixel buffer of one monitor: the pixels as the program wants them,
/// the pixels as of the last synchronization, and the name the generated
/// scripts reach the monitor by.
#[derive(Debug, Clone)]
pub struct LocalMonitor {
    pub data: Vec2d<AsIfPixel>,
    pub last_sync: Vec2d<AsIfPixel>,
    pub name: String,
}

impl LocalMonitor {
    /// Both buffers are proper grids of one same size, and every wanted
    /// pixel holds an ASCII character.
    pub open spec fn wf(&self) -> bool {
        &&& self.data.wf()
        &&& self.last_sync.wf()
        &&& self.last_sync.spec_x() == self.data.spec_x()
        &&& self.last_sync.spec_y() == self.data.spec_y()
        &&& forall|i: int, j: int|
            0 <= i < self.spec_x() && 0 <= j < self.spec_y() ==> (#[trigger] self.spec_get(
                i,
                j,
            )).wf()
    }

    /// The monitor's width.
    pub open spec fn spec_x(&self) -> usize {
        self.data.spec_x()
    }

    /// The monitor's height.
    pub open spec fn spec_y(&self) -> usize {
        self.data.spec_y()
    }

    /// The wanted pixel at zero-based `(x, y)`.
    pub open spec fn spec_get(&self, x: int, y: int) -> AsIfPixel {
        self.data.spec_index(x, y)
    }

    /// The wanted pixels as a grid of columns: `grid()[x][y]` is the cell at
    /// zero-based `(x, y)`.
    pub open spec fn grid(&self) -> Seq<Seq<AsIfPixel>> {
        Seq::new(
            self.spec_x() as nat,
            |i: int| Seq::new(self.spec_y() as nat, |j: int| self.spec_get(i, j)),
        )
    }

    /// The name the generated scripts reach a monitor by.
    pub open spec fn spec_gen_name(init_method: InitMethod) -> Seq<char> {
        match init_method {
            InitMethod::Remote { side, name } => "monitor_remote_"@ + side.spec_name() + "_"@
                + name@,
            InitMethod::Local(side) => "monitor_local_"@ + side.spec_name(),
        }
    }

    /// The name the generated scripts reach a monitor by.
    pub fn gen_name(init_method: &InitMethod) -> (r: String)
        ensures
            r@ == Self::spec_gen_name(*init_method),
    {
        match init_method {
            InitMethod::Remote { side, name } => {
                let mut s = String::new();
                s.append("monitor_remote_");
                s.append(side.name());
                s.append("_");
                s.append(name.as_str());
                s
            },
            InitMethod::Local(side) => {
                let mut s = String::new();
                s.append("monitor_local_");
                s.append(side.name());
                s
            },
        }
    }

    /// The monitor's name.
    pub fn name(&self) -> (r: &str)
        ensures
            r@ == self.name@,
    {
        self.name.as_str()
    }

    /// A monitor with no cells and no name.
    pub fn new_empty() -> (m: LocalMonitor)
        ensures
            m.wf(),
            m.spec_x() == 0,
            m.spec_y() == 0,
            m.name@ == Seq::<char>::empty(),
    {
        LocalMonitor { data: Vec2d::new_empty(), last_sync: Vec2d::new_empty(), name: String::new() }
    }

    /// An `x` by `y` monitor showing `pixel` everywhere, named for
    /// `init_method`. The last-synchronized buffer is filled with a pixel of
    /// a different background color, so that the first synchronization sends
    /// every cell.
    pub fn new(x: usize, y: usize, pixel: AsIfPixel, init_method: &InitMethod) -> (m: LocalMonitor)
        requires
            x * y <= usize::MAX,
            pixel.wf(),
        ensures
            m.wf(),
            m.spec_x() == x,
            m.spec_y() == y,
            forall|i: int, j: int| 0 <= i < x && 0 <= j < y ==> m.spec_get(i, j) == pixel,
            m.name@ == Self::spec_gen_name(*init_method),
    {
        let off_color = ColorId::from_number_overflow((pixel.background_color.to_number() + 1)
            as u32);
        LocalMonitor {
            data: Vec2d::new_filled_copy(x, y, pixel),
            last_sync: Vec2d::new_filled_copy(x, y, AsIfPixel::colored_whitespace(off_color)),
            name: Self::gen_name(init_method),
        }
    }

    /// Resize the monitor to `x` by `y`, showing `pixel` everywhere; the name
    /// stays. As in `new`, the last-synchronized buffer is deliberately set
    /// out of step.
    pub fn resize(&mut self, x: usize, y: usize, pixel: AsIfPixel)
        requires
            x * y <= usize::MAX,
            pixel.wf(),
        ensures
            final(self).wf(),
            final(self).spec_x() == x,
            final(self).spec_y() == y,
            forall|i: int, j: int| 0 <= i < x && 0 <= j < y ==> final(self).spec_get(i, j) == pixel,
            final(self).name@ == old(self).name@,
    {
        let off_color = ColorId::from_number_overflow((pixel.background_color.to_number() + 1)
            as u32);
        self.data = Vec2d::new_filled_copy(x, y, pixel);
        self.last_sync = Vec2d::new_filled_copy(x, y, AsIfPixel::colored_whitespace(off_color));
    }

    /// The monitor's size as `(x, y)`.
    pub fn size(&self) -> (s: (usize, usize))
        ensures
            s == ((self.spec_x(), self.spec_y())),
    {
        self.data.size()
    }

    /// The monitor's width.
    pub fn x(&self) -> (r: usize)
        ensures
            r == self.spec_x(),
    {
        self.data.x()
    }

    /// The monitor's height.
    pub fn y(&self) -> (r: usize)
        ensures
            r == self.spec_y(),
    {
        self.data.y()
    }

    /// The pixel at one-based `(x, y)`, or `None` beyond the monitor's edge.
    pub fn get(&self, x: usize, y: usize) -> (p: Option<AsIfPixel>)
        requires
            self.wf(),
            x >= 1,
            y >= 1,
        ensures
            p is Some <==> x <= self.spec_x() && y <= self.spec_y(),
            p matches Some(pix) ==> pix == self.spec_get(x - 1, y - 1),
    {
        if x > self.x() || y > self.y() {
            None
        } else {
            let x = x - 1;
            let y = y - 1;
            Some(self.data.read(x, y))
        }
    }

    /// Write `pixel` at one-based `(x, y)`; writes beyond the monitor's edge,
    /// or at a zero coordinate, change nothing.
    pub fn write(&mut self, x: usize, y: usize, pixel: AsIfPixel)
        requires
            old(self).wf(),
            pixel.wf(),
        ensures
            final(self).wf(),
            final(self).spec_x() == old(self).spec_x(),
            final(self).spec_y() == old(self).spec_y(),
            final(self).name@ == old(self).name@,
            final(self).last_sync == old(self).last_sync,
            1 <= x <= old(self).spec_x() && 1 <= y <= old(self).spec_y() ==> final(self).spec_get(
                x - 1,
                y - 1,
            ) == pixel,
            forall|i: int, j: int|
                0 <= i < old(self).spec_x() && 0 <= j < old(self).spec_y() && !(i == x - 1 && j == y
                    - 1) ==> final(self).spec_get(i, j) == old(self).spec_get(i, j),
    {
        if x > self.x() || y > self.y() || x == 0 || y == 0 {
            return ;
        }
        let x = x - 1;
        let y = y - 1;
        let p0 = self.data.read(x, y);
        let ghost prev = *self;
        if !pixel_eq(p0, pixel) {
            self.data.set(x, y, pixel);
        }
        proof {
            assert forall|i: int, j: int|
                0 <= i < self.spec_x() && 0 <= j < self.spec_y() implies (#[trigger] self.spec_get(
                i,
                j,
            )).wf() by {
                if i == x && j == y {
                } else {
                    assert(self.spec_get(i, j) == prev.spec_get(i, j));
                }
            }
        }
    }

    /// Show `color`-on-`color` blanks everywhere in the local buffer; the
    /// last-synchronized buffer keeps what was actually sent.
    pub fn clear_local(&mut self, color: ColorId)
        requires
            old(self).wf(),
        ensures
            final(self).wf(),
            final(self).spec_x() == old(self).spec_x(),
            final(self).spec_y() == old(self).spec_y(),
            final(self).name@ == old(self).name@,
            final(self).last_sync == old(self).last_sync,
            forall|i: int, j: int|
                0 <= i < old(self).spec_x() && 0 <= j < old(self).spec_y() ==> final(self).spec_get(
                    i,
                    j,
                ) == AsIfPixel::colored_whitespace_spec(color),
    {
        let pixel = AsIfPixel::colored_whitespace(color);
        let sx = self.x();
        let sy = self.y();
        let mut i: usize = 0;
        while i < sx
            invariant
                self.wf(),
                sx == self.spec_x(),
                sy == self.spec_y(),
                self.name@ == old(self).name@,
                self.last_sync == old(self).last_sync,
                i <= sx,
                pixel == AsIfPixel::colored_whitespace_spec(color),
                forall|a: int, b: int|
                    0 <= a < i && 0 <= b < sy ==> self.spec_get(a, b) == pixel,
                forall|a: int, b: int|
                    i <= a < sx && 0 <= b < sy ==> self.spec_get(a, b) == old(self).spec_get(a, b),
            decreases sx - i,
        {
            let mut j: usize = 0;
            while j < sy
                invariant
                    self.wf(),
                    sx == self.spec_x(),
                    sy == self.spec_y(),
                    self.name@ == old(self).name@,
                    self.last_sync == old(self).last_sync,
                    i < sx,
                    j <= sy,
                    pixel == AsIfPixel::colored_whitespace_spec(color),
                    forall|a: int, b: int|
                        0 <= a < i && 0 <= b < sy ==> self.spec_get(a, b) == pixel,
                    forall|b: int| 0 <= b < j ==> self.spec_get(i as int, b) == pixel,
                    forall|a: int, b: int|
                        i < a < sx && 0 <= b < sy ==> self.spec_get(a, b) == old(self).spec_get(
                            a,
                            b,
                        ),
                    forall|b: int|
                        j <= b < sy ==> self.spec_get(i as int, b) == old(self).spec_get(
                            i as int,
                            b,
                        ),
                decreases sy - j,
            {
                let ghost prev = *self;
                self.data.set(i, j, pixel);
                proof {
                    assert forall|a: int, b: int|
                        0 <= a < i && 0 <= b < sy implies self.spec_get(a, b) == pixel by {
                        assert(prev.spec_get(a, b) == pixel);
                        assert(self.data.spec_index(a, b) == prev.data.spec_index(a, b));
                    }
                    assert forall|b: int| 0 <= b < j implies self.spec_get(i as int, b)
                        == pixel by {
                        assert(prev.spec_get(i as int, b) == pixel);
                        assert(self.data.spec_index(i as int, b) == prev.data.spec_index(
                            i as int,
                            b,
                        ));
                    }
                    assert forall|a: int, b: int|
                        0 <= a < sx && 0 <= b < sy implies (#[trigger] self.spec_get(
                        a,
                        b,
                    )).wf() by {
                        if a == i && b == j {
                        } else {
                            assert(self.spec_get(a, b) == prev.spec_get(a, b));
                            assert(prev.spec_get(a, b).wf());
                        }
                    }
                }
                j = j + 1;
            }
            i = i + 1;
        }
    }

    /// Write `text` from one-based `(x, y)` along `direction`, one cell per
    /// character, skipping characters outside the ASCII range, and stopping
    /// at the monitor's edge.
    pub fn write_str(
        &mut self,
        x: usize,
        y: usize,
        direction: Direction,
        text: &str,
        background_color: ColorId,
        text_color: ColorId,
    )
        requires
            old(self).wf(),
            x <= isize::MAX as usize,
            y <= isize::MAX as usize,
            old(self).spec_x() <= isize::MAX as usize,
            old(self).spec_y() <= isize::MAX as usize,
        ensures
            final(self).wf(),
            final(self).spec_x() == old(self).spec_x(),
            final(self).spec_y() == old(self).spec_y(),
            final(self).name@ == old(self).name@,
            final(self).last_sync == old(self).last_sync,
            final(self).grid() == grid_write_str(
                old(self).grid(),
                old(self).spec_x() as int,
                old(self).spec_y() as int,
                x as int,
                y as int,
                direction.spec_dxdy().0 as int,
                direction.spec_dxdy().1 as int,
                text@,
                background_color,
                text_color,
            ),
    {
        let (dx, dy) = direction.to_dxdy();
        let (dx, dy): (i128, i128) = (dx as i128, dy as i128);
        let (size_x, size_y) = self.size();
        let (size_x, size_y): (i128, i128) = (size_x as i128, size_y as i128);

        let mut now_x: i128 = x as i128;
        let mut now_y: i128 = y as i128;

        let ghost goal = grid_write_str(
            old(self).grid(),
            size_x as int,
            size_y as int,
            x as int,
            y as int,
            dx as int,
            dy as int,
            text@,
            background_color,
            text_color,
        );
        proof {
            assert(text@.skip(0) =~= text@);
        }
        let n = text.unicode_len();
        let mut k: usize = 0;
        while k < n
            invariant
                self.wf(),
                self.spec_x() == old(self).spec_x(),
                self.spec_y() == old(self).spec_y(),
                self.name@ == old(self).name@,
                self.last_sync == old(self).last_sync,
                n == text@.len(),
                k <= n,
                size_x == self.spec_x(),
                size_y == self.spec_y(),
                size_x <= isize::MAX,
                size_y <= isize::MAX,
                x <= isize::MAX,
                y <= isize::MAX,
                (-1) <= dx <= 1,
                (-1) <= dy <= 1,
                dx as int == direction.spec_dxdy().0 as int,
                dy as int == direction.spec_dxdy().1 as int,
                (now_x == x && now_y == y) || (1 <= now_x <= size_x && 1 <= now_y <= size_y),
                goal == grid_write_str(
                    old(self).grid(),
                    size_x as int,
                    size_y as int,
                    x as int,
                    y as int,
                    dx as int,
                    dy as int,
                    text@,
                    background_color,
                    text_color,
                ),
                goal == grid_write_str(
                    self.grid(),
                    size_x as int,
                    size_y as int,
                    now_x as int,
                    now_y as int,
                    dx as int,
                    dy as int,
                    text@.skip(k as int),
                    background_color,
                    text_color,
                ),
            decreases n - k,
        {
            let ghost k0 = k as int;
            let ghost rest = text@.skip(k0);
            let c = text.get_char(k);
            k = k + 1;
            proof {
                assert(rest[0] == text@[k0]);
                assert(rest.drop_first() =~= text@.skip(k0 + 1));
            }
            let pixel = match AsIfPixel::new(c, background_color, text_color) {
                Some(p) => p,
                None => {
                    continue ;
                },
            };
            proof {
                assert(pixel == (AsIfPixel {
                    text: c,
                    background_color,
                    text_color,
                }));
            }
            let ghost pre = *self;
            if now_x >= 0 && now_y >= 0 {
                self.write(now_x as usize, now_y as usize, pixel);
                proof {
                    lemma_write_is_grid_write(pre, *self, now_x as usize, now_y as usize, pixel);
                }
            } else {
                proof {
                    assert(self.grid() == grid_write(pre.grid(), now_x as int, now_y as int, pixel));
                }
            }
            now_x = now_x + dx;
            now_y = now_y + dy;
            if now_x <= 0 || now_x > size_x || now_y <= 0 || now_y > size_y {
                proof {
                    assert(goal == self.grid());
                }
                return ;
            }
        }
        proof {
            assert(text@.skip(n as int) =~= Seq::<char>::empty());
        }
    }
}

impl LocalMonitor {
    /// Record the wanted pixels as what was last sent: after this, nothing
    /// differs.
    pub fn copy_data_to_last_sync(&mut self)
        requires
            old(self).wf(),
        ensures
            final(self).wf(),
            final(self).data == old(self).data,
            final(self).name@ == old(self).name@,
            final(self).spec_x() == old(self).spec_x(),
            final(self).spec_y() == old(self).spec_y(),
            forall|i: int, j: int|
                0 <= i < old(self).spec_x() && 0 <= j < old(self).spec_y() ==> final(self).last_sync.spec_index(i, j) == old(self).spec_get(i, j),
    {
        let sx = self.x();
        let sy = self.y();
        let mut i: usize = 0;
        while i < sx
            invariant
                self.wf(),
                sx == self.spec_x(),
                sy == self.spec_y(),
                i <= sx,
                self.data == old(self).data,
                self.name@ == old(self).name@,
                forall|a: int, b: int|
                    0 <= a < i && 0 <= b < sy ==> self.last_sync.spec_index(a, b) == old(self).spec_get(a, b),
            decreases sx - i,
        {
            let mut j: usize = 0;
            while j < sy
                invariant
                    self.wf(),
                    sx == self.spec_x(),
                    sy == self.spec_y(),
                    i < sx,
                    j <= sy,
                    self.data == old(self).data,
                    self.name@ == old(self).name@,
                    forall|a: int, b: int|
                        0 <= a < i && 0 <= b < sy ==> self.last_sync.spec_index(a, b) == old(self).spec_get(a, b),
                    forall|b: int|
                        0 <= b < j ==> self.last_sync.spec_index(i as int, b) == old(self).spec_get(i as int, b),
                decreases sy - j,
            {
                let p = self.data.read(i, j);
                let ghost prev = *self;
                self.last_sync.set(i, j, p);
                proof {
                    assert forall|a: int, b: int|
                        0 <= a < sx && 0 <= b < sy implies (#[trigger] self.spec_get(
                        a,
                        b,
                    )).wf() by {
                        assert(self.spec_get(a, b) == prev.spec_get(a, b));
                        assert(prev.spec_get(a, b).wf());
                    }
                    assert forall|a: int, b: int|
                        0 <= a < i && 0 <= b < sy implies self.last_sync.spec_index(a, b) == old(self).spec_get(a, b) by {
                        assert(self.last_sync.spec_index(a, b) == prev.last_sync.spec_index(a, b));
                    }
                    assert forall|b: int|
                        0 <= b < j implies self.last_sync.spec_index(i as int, b) == old(self).spec_get(i as int, b) by {
                        assert(self.last_sync.spec_index(i as int, b) == prev.last_sync.spec_index(
                            i as int,
                            b,
                        ));
                    }
                }
                j = j + 1;
            }
            i = i + 1;
        }
    }
}

/// Whether two pixels are equal, field for field.
fn pixel_eq(a: AsIfPixel, b: AsIfPixel) -> (r: bool)
    ensures
        r == (a == b),
{
    a == b
}

/// A grid with `p` written at one-based `(x, y)`; writes beyond the edge, or
/// at a zero coordinate, change nothing. This is `LocalMonitor::write` at the
/// level of grids.
pub open spec fn grid_write(g: Seq<Seq<AsIfPixel>>, x: int, y: int, p: AsIfPixel) -> Seq<
    Seq<AsIfPixel>,
> {
    if 1 <= x <= g.len() && 1 <= y <= g[x - 1].len() {
        g.update(x - 1, g[x - 1].update(y - 1, p))
    } else {
        g
    }
}

/// A grid after writing `text` from one-based `(x, y)` in unit steps of
/// `(dx, dy)`: each ASCII character lands on the current cell and the
/// position advances; other characters are skipped in place; the walk ends
/// with the text, or as soon as the position leaves the `sx` by `sy` board.
/// This is `LocalMonitor::write_str` at the level of grids.
pub open spec fn grid_write_str(
    g: Seq<Seq<AsIfPixel>>,
    sx: int,
    sy: int,
    x: int,
    y: int,
    dx: int,
    dy: int,
    text: Seq<char>,
    bg: ColorId,
    tc: ColorId,
) -> Seq<Seq<AsIfPixel>>
    decreases text.len(),
{
    if text.len() == 0 {
        g
    } else {
        let c = text[0];
        if !crate::misc::is_ascii_char(c) {
            grid_write_str(g, sx, sy, x, y, dx, dy, text.drop_first(), bg, tc)
        } else {
            let g2 = grid_write(
                g,
                x,
                y,
                (AsIfPixel { text: c, background_color: bg, text_color: tc }),
            );
            let nx = x + dx;
            let ny = y + dy;
            if nx <= 0 || nx > sx || ny <= 0 || ny > sy {
                g2
            } else {
                grid_write_str(g2, sx, sy, nx, ny, dx, dy, text.drop_first(), bg, tc)
            }
        }
    }
}

/// One `LocalMonitor::write` moves the grid exactly as `grid_write` says.
proof fn lemma_write_is_grid_write(
    pre: LocalMonitor,
    post: LocalMonitor,
    x: usize,
    y: usize,
    p: AsIfPixel,
)
    requires
        pre.wf(),
        post.wf(),
        post.spec_x() == pre.spec_x(),
        post.spec_y() == pre.spec_y(),
        1 <= x <= pre.spec_x() && 1 <= y <= pre.spec_y() ==> post.spec_get(x - 1, y - 1) == p,
        forall|i: int, j: int|
            0 <= i < pre.spec_x() && 0 <= j < pre.spec_y() && !(i == x - 1 && j == y - 1)
                ==> post.spec_get(i, j) == pre.spec_get(i, j),
    ensures
        post.grid() == grid_write(pre.grid(), x as int, y as int, p),
{
    let g1 = post.grid();
    let g2 = grid_write(pre.grid(), x as int, y as int, p);
    assert forall|i: int| 0 <= i < g1.len() implies g1[i] =~= g2[i] by {
        assert forall|j: int| 0 <= j < pre.spec_y() implies g1[i][j] == g2[i][j] by {
            if i == x - 1 && j == y - 1 {
            } else {
                assert(post.spec_get(i, j) == pre.spec_get(i, j));
            }
        }
    }
    assert(g1 =~~= g2);
}

} // verus!
