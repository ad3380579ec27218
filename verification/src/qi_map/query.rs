//! What a query asks for: positions, segments and channels.
use super::{ChannelId, IndexId, SegmentId};
use vstd::prelude::*;

verus! {

/// A position of the map by column and row.
#[derive(Debug, Clone, Copy, PartialEq, Eq, Structural)]
pub struct Pixel {
    pub x: IndexId,
    pub y: IndexId,
}

impl Pixel {
    pub fn new(x: IndexId, y: IndexId) -> (pixel: Self)
        ensures
            pixel.x == x,
            pixel.y == y,
    {
        Self { x, y }
    }

    /// The number of the pixel where the rows are `cols` long and numbered
    /// one after the other.
    pub fn to_index(&self, cols: IndexId) -> (index: IndexId)
        requires
            self.y * cols + self.x <= usize::MAX,
        ensures
            index == self.y * cols + self.x,
    {
        assert(self.y * cols <= self.y * cols + self.x);
        self.y * cols + self.x
    }
}

/// The pixels of the rectangle with the corners `start` and `end`, row by
/// row, each row from left to right.
pub open spec fn row_major(start: Pixel, end: Pixel) -> Seq<Pixel>
    recommends
        start.x <= end.x,
        start.y <= end.y,
{
    let cols = end.x - start.x + 1;
    let rows = end.y - start.y + 1;
    Seq::new((rows * cols) as nat, |k: int| Pixel { x: (start.x + k % cols) as usize, y: (start.y + k / cols) as usize })
}

/// A rectangle of pixels, both corners included.
#[derive(Debug, Clone, Copy)]
pub struct PixelRect {
    start: Pixel,
    end: Pixel,
}

impl View for PixelRect {
    type V = Seq<Pixel>;

    /// The pixels of the rectangle in row-major order.
    closed spec fn view(&self) -> Seq<Pixel> {
        row_major(self.start, self.end)
    }
}

impl PixelRect {
    /// The corner with the smallest column and row.
    pub closed spec fn first(&self) -> Pixel {
        self.start
    }

    /// The corner with the largest column and row.
    pub closed spec fn last(&self) -> Pixel {
        self.end
    }

    #[verifier::type_invariant]
    spec fn inv(&self) -> bool {
        self.start.x <= self.end.x && self.start.y <= self.end.y
    }

    /// What holds of every rectangle.
    pub proof fn lemma_view(&self)
        requires
            self.first().x <= self.last().x,
            self.first().y <= self.last().y,
        ensures
            self@ == row_major(self.first(), self.last()),
            self@.len() == (self.last().y - self.first().y + 1) * (self.last().x - self.first().x + 1),
    {
        let cols = self.end.x - self.start.x + 1;
        let rows = self.end.y - self.start.y + 1;
        assert(rows * cols >= 0) by (nonlinear_arith)
            requires
                rows >= 1,
                cols >= 1,
        ;
    }

    /// The rectangle between two pixels, whichever corners they are.
    pub fn new(start: Pixel, end: Pixel) -> (rect: Self)
        ensures
            rect.first().x == (if start.x < end.x {
                start.x
            } else {
                end.x
            }),
            rect.last().x == (if start.x < end.x {
                end.x
            } else {
                start.x
            }),
            rect.first().y == (if start.y < end.y {
                start.y
            } else {
                end.y
            }),
            rect.last().y == (if start.y < end.y {
                end.y
            } else {
                start.y
            }),
            rect@ == row_major(rect.first(), rect.last()),
    {
        let Pixel { x: xa, y: ya } = start;
        let Pixel { x: xb, y: yb } = end;
        let (x0, x1) = if xa < xb {
            (xa, xb)
        } else {
            (xb, xa)
        };
        let (y0, y1) = if ya < yb {
            (ya, yb)
        } else {
            (yb, ya)
        };
        let start = Pixel { x: x0, y: y0 };
        let end = Pixel { x: x1, y: y1 };
        Self { start, end }
    }

    /// Number of rows.
    pub fn rows(&self) -> (n: IndexId)
        requires
            self.last().y - self.first().y < usize::MAX,
        ensures
            self.first().y <= self.last().y,
            n == self.last().y - self.first().y + 1,
    {
        proof {
            use_type_invariant(self);
        }
        self.end.y - self.start.y + 1
    }

    /// Number of columns.
    pub fn cols(&self) -> (n: IndexId)
        requires
            self.last().x - self.first().x < usize::MAX,
        ensures
            self.first().x <= self.last().x,
            n == self.last().x - self.first().x + 1,
    {
        proof {
            use_type_invariant(self);
        }
        self.end.x - self.start.x + 1
    }

    /// A walk over the pixels in row-major order, from the first.
    pub fn iter(&self) -> (walk: PixelRectIter<'_>)
        ensures
            walk.remaining() == self@,
    {
        PixelRectIter::new(self)
    }
}

/// A walk over the pixels of a rectangle.
pub struct PixelRectIter<'a> {
    inner: &'a PixelRect,
    x: IndexId,
    y: IndexId,
    done: bool,
}

impl<'a> PixelRectIter<'a> {
    #[verifier::type_invariant]
    spec fn inv(&self) -> bool {
        &&& self.inner.start.x <= self.inner.end.x
        &&& self.inner.start.y <= self.inner.end.y
        &&& self.inner.start.x <= self.x <= self.inner.end.x
        &&& self.inner.start.y <= self.y <= self.inner.end.y
    }

    /// Number of pixels that the walk has left behind.
    closed spec fn passed(&self) -> int {
        if self.done {
            (self.inner.end.y - self.inner.start.y + 1) * (self.inner.end.x - self.inner.start.x + 1)
        } else {
            (self.y - self.inner.start.y) * (self.inner.end.x - self.inner.start.x + 1) + (self.x
                - self.inner.start.x)
        }
    }

    /// The pixels that the walk has yet to give, in order.
    pub closed spec fn remaining(&self) -> Seq<Pixel> {
        self.inner@.skip(self.passed())
    }

    pub fn new(inner: &'a PixelRect) -> (walk: Self)
        ensures
            walk.remaining() == inner@,
    {
        proof {
            use_type_invariant(inner);
        }
        let walk = Self { inner, x: inner.start.x, y: inner.start.y, done: false };
        assert(walk.passed() == 0) by (nonlinear_arith)
            requires
                walk.passed() == (walk.y - walk.inner.start.y) * (walk.inner.end.x - walk.inner.start.x + 1) + (
                walk.x - walk.inner.start.x),
                walk.y == walk.inner.start.y,
                walk.x == walk.inner.start.x,
        ;
        assert(inner@.skip(0) =~= inner@);
        walk
    }

    /// The next pixel, or `None` once all were given.
    pub fn next(&mut self) -> (r: Option<Pixel>)
        ensures
            old(self).remaining().len() == 0 ==> r is None && final(self).remaining() == old(self).remaining(),
            old(self).remaining().len() > 0 ==> r == Some(old(self).remaining()[0]) && final(self).remaining()
                == old(self).remaining().drop_first(),
    {
        proof {
            use_type_invariant(&*self);
        }
        let ghost cols = self.inner.end.x - self.inner.start.x + 1;
        let ghost rows = self.inner.end.y - self.inner.start.y + 1;
        let ghost dx = self.x - self.inner.start.x;
        let ghost dy = self.y - self.inner.start.y;
        let ghost all = self.inner@;
        proof {
            assert(rows * cols >= 0) by (nonlinear_arith)
                requires
                    rows >= 1,
                    cols >= 1,
            ;
            assert(all.len() == rows * cols);
        }
        if self.done {
            assert(self.remaining() =~= Seq::<Pixel>::empty());
            return None;
        }
        let ghost k = dy * cols + dx;
        let pixel = Pixel { x: self.x, y: self.y };
        proof {
            assert(k == self.passed());
            assert(0 <= k < rows * cols && k / cols == dy && k % cols == dx) by {
                assert(dy * cols + dx < rows * cols) by (nonlinear_arith)
                    requires
                        0 <= dy < rows,
                        0 <= dx < cols,
                ;
                assert(dy * cols >= 0) by (nonlinear_arith)
                    requires
                        dy >= 0,
                        cols >= 1,
                ;
                vstd::arithmetic::div_mod::lemma_fundamental_div_mod_converse(k, cols, dy, dx);
            }
            assert(all[k] == pixel);
            assert(self.remaining()[0] == pixel);
            assert(self.remaining().drop_first() =~= all.skip(k + 1));
        }
        if self.x < self.inner.end.x {
            self.x = self.x + 1;
            assert(self.passed() == k + 1) by (nonlinear_arith)
                requires
                    self.passed() == (self.y - self.inner.start.y) * (self.inner.end.x - self.inner.start.x + 1)
                        + (self.x - self.inner.start.x),
                    k == dy * cols + dx,
                    cols == self.inner.end.x - self.inner.start.x + 1,
                    dy == self.y - self.inner.start.y,
                    dx + 1 == self.x - self.inner.start.x,
            ;
        } else if self.y < self.inner.end.y {
            self.x = self.inner.start.x;
            self.y = self.y + 1;
            assert(self.passed() == k + 1) by (nonlinear_arith)
                requires
                    self.passed() == (self.y - self.inner.start.y) * (self.inner.end.x - self.inner.start.x + 1)
                        + (self.x - self.inner.start.x),
                    k == dy * cols + dx,
                    cols == self.inner.end.x - self.inner.start.x + 1,
                    dy + 1 == self.y - self.inner.start.y,
                    dx + 1 == cols,
                    self.x == self.inner.start.x,
            ;
        } else {
            self.done = true;
            assert(self.passed() == k + 1) by (nonlinear_arith)
                requires
                    self.passed() == rows * cols,
                    k == dy * cols + dx,
                    dy + 1 == rows,
                    dx + 1 == cols,
            ;
        }
        Some(pixel)
    }
}

/// Which positions a query selects.
#[derive(Debug, Clone, Copy)]
pub enum IndexQuery {
    /// Every position of the dataset.
    All,
    /// The position with the given number.
    Index(IndexId),
    /// The positions of the pixels of a rectangle.
    PixelRect(PixelRect),
    /// The position of one pixel.
    Pixel(Pixel),
}

/// Which segments a query selects at each position.
#[derive(Debug, Clone)]
pub enum SegmentQuery {
    /// Every segment that the position declares.
    All,
    /// The segments with the given numbers.
    Indices(Vec<SegmentId>),
}

/// Which channels a query selects in each segment.
#[derive(Debug, Clone)]
pub enum ChannelQuery {
    /// Every channel that the segment declares.
    All,
    /// Those of the given channels that the segment declares.
    Include(Vec<ChannelId>),
}

impl ChannelQuery {
    /// Selects the channels with the given names.
    pub fn including(channels: Vec<&str>) -> (query: Self)
        ensures
            query matches ChannelQuery::Include(names) && names.len() == channels.len() && forall|i: int|
                0 <= i < names.len() ==> (#[trigger] names[i])@ == channels[i]@,
    {
        let mut names: Vec<ChannelId> = Vec::new();
        let mut i: usize = 0;
        while i < channels.len()
            invariant
                i <= channels.len(),
                names.len() == i,
                forall|j: int| 0 <= j < i ==> (#[trigger] names[j])@ == channels[j]@,
            decreases channels.len() - i,
        {
            names.push(channels[i].to_owned());
            i += 1;
        }
        Self::Include(names)
    }
}

/// A selection of data by position, segment and channel.
#[derive(Debug, Clone)]
pub struct Query {
    pub index: IndexQuery,
    pub segment: SegmentQuery,
    pub channel: ChannelQuery,
}

impl Query {
    /// The query for everything.
    pub fn select_all() -> (query: Self)
        ensures
            query.index is All,
            query.segment is All,
            query.channel is All,
    {
        Self { index: IndexQuery::All, segment: SegmentQuery::All, channel: ChannelQuery::All }
    }
}

/// Which property files a query selects.
#[derive(Debug, Clone)]
pub enum MetadataQuery {
    /// Every property file of the archive.
    All,
    /// The property file of the dataset.
    Dataset,
    /// The property file of the shared data.
    SharedData,
    /// The property files of the selected positions.
    Index(IndexQuery),
    /// The property files of the selected segments at the selected
    /// positions.
    Segment { index: IndexQuery, segment: SegmentQuery },
}

} // verus!
