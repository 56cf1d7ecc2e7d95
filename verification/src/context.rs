use vstd::prelude::*;

verus! {

/// A cell of the frame: a character and its RGB colour.
pub type Pixel = (char, (u8, u8, u8));

/// The blank cell.
pub open spec fn blank() -> Pixel {
    (' ', (0u8, 0u8, 0u8))
}

/// The terminal frame: `width * height` cells, row by row.
pub struct Context {
    pub width: u16,
    pub height: u16,
    pub frame_buffer: Vec<Pixel>,
    pub image: bool,
}

impl Context {
    /// The buffer holds one cell per position of the frame, and the frame's
    /// cell count fits in a `u16`, as resizing computes it in one.
    pub open spec fn wf(&self) -> bool {
        &&& self.frame_buffer@.len() == self.width as int * self.height as int
        &&& self.width as int * self.height as int <= u16::MAX
    }

    /// The index of cell `(x, y)`.
    pub open spec fn index_of(&self, x: int, y: int) -> int {
        x + y * self.width
    }

    /// An empty frame.
    pub fn new(image: bool) -> (c: Self)
        ensures
            c.wf(),
            c.width == 0,
            c.height == 0,
            c.frame_buffer@.len() == 0,
            c.image == image,
    {
        Context { width: 0, height: 0, frame_buffer: Vec::new(), image }
    }

    /// Sets cell `(x, y)`; a position outside the frame changes nothing.
    pub fn set_pixel(&mut self, x: u16, y: u16, ch: char, color: (u8, u8, u8))
        requires
            old(self).frame_buffer@.len() == old(self).width as int * old(self).height as int,
            (x < old(self).width && y < old(self).height) ==> old(self).index_of(x as int, y as int) <= u16::MAX,
        ensures
            final(self).wf() == old(self).wf(),
            final(self).width == old(self).width,
            final(self).height == old(self).height,
            final(self).image == old(self).image,
            final(self).frame_buffer@ == if x < old(self).width && y < old(self).height {
                old(self).frame_buffer@.update(old(self).index_of(x as int, y as int), (ch, color))
            } else {
                old(self).frame_buffer@
            },
    {
        if x < self.width && y < self.height {
            proof {
                assert(y as int * self.width as int <= (self.height as int - 1) * self.width as int) by (nonlinear_arith)
                    requires
                        y < self.height,
                ;
                assert((self.height as int - 1) * self.width as int == self.height as int * self.width as int - self.width as int) by (nonlinear_arith);
                assert(self.height as int * self.width as int == self.width as int * self.height as int) by (nonlinear_arith);
                assert(0 <= y as int * self.width as int) by (nonlinear_arith);
            }
            let idx = x + y * self.width;
            self.frame_buffer.set(idx as usize, (ch, color));
        }
    }

    /// Blanks every cell.
    pub fn clear(&mut self)
        ensures
            final(self).width == old(self).width,
            final(self).height == old(self).height,
            final(self).image == old(self).image,
            final(self).frame_buffer@.len() == old(self).frame_buffer@.len(),
            forall|i: int| 0 <= i < final(self).frame_buffer@.len() ==> #[trigger] final(self).frame_buffer@[i] == blank(),
    {
        let n = self.frame_buffer.len();
        let mut i: usize = 0;
        while i < n
            invariant
                n == self.frame_buffer@.len(),
                n == old(self).frame_buffer@.len(),
                self.width == old(self).width,
                self.height == old(self).height,
                self.image == old(self).image,
                i <= n,
                forall|k: int| 0 <= k < i ==> #[trigger] self.frame_buffer@[k] == blank(),
            decreases n - i,
        {
            self.frame_buffer.set(i, (' ', (0, 0, 0)));
            i += 1;
        }
    }

    /// Adopts the terminal size `tw` x `th`: when it differs from the frame's,
    /// the buffer is cut to or padded with blank cells up to `tw * th` cells,
    /// the cells it keeps unchanged.
    pub fn resize(&mut self, tw: u16, th: u16)
        requires
            old(self).wf(),
            (old(self).width != tw || old(self).height != th) ==> tw as int * th as int <= u16::MAX,
        ensures
            final(self).wf(),
            final(self).width == tw,
            final(self).height == th,
            final(self).image == old(self).image,
            (old(self).width == tw && old(self).height == th) ==> final(self).frame_buffer@ == old(self).frame_buffer@,
            (old(self).width != tw || old(self).height != th) ==> {
                let n = tw as int * th as int;
                let m = old(self).frame_buffer@.len() as int;
                &&& n <= m ==> final(self).frame_buffer@ == old(self).frame_buffer@.subrange(0, n)
                &&& n > m ==> final(self).frame_buffer@ == old(self).frame_buffer@ + Seq::new(
                    (n - m) as nat,
                    |i: int| blank(),
                )
            },
    {
        if self.width != tw || self.height != th {
            self.width = tw;
            self.height = th;
            let n = (tw * th) as usize;
            let ghost old_buf = self.frame_buffer@;
            if n <= self.frame_buffer.len() {
                self.frame_buffer.truncate(n);
            } else {
                while self.frame_buffer.len() < n
                    invariant
                        n == tw as int * th as int,
                        n <= u16::MAX,
                        self.width == tw,
                        self.height == th,
                        self.image == old(self).image,
                        old_buf.len() <= self.frame_buffer@.len() <= n,
                        self.frame_buffer@ == old_buf + Seq::new(
                            (self.frame_buffer@.len() - old_buf.len()) as nat,
                            |i: int| blank(),
                        ),
                    decreases n - self.frame_buffer@.len(),
                {
                    let ghost before = self.frame_buffer@;
                    self.frame_buffer.push((' ', (0, 0, 0)));
                    assert(self.frame_buffer@ =~= old_buf + Seq::new(
                        (self.frame_buffer@.len() - old_buf.len()) as nat,
                        |i: int| blank(),
                    ));
                }
            }
        }
    }

    /// The characters of the frame, cell by cell.
    pub fn frame_chars(&self) -> (cs: Vec<char>)
        ensures
            cs@.len() == self.frame_buffer@.len(),
            forall|i: int| 0 <= i < cs@.len() ==> #[trigger] cs@[i] == self.frame_buffer@[i].0,
    {
        let n = self.frame_buffer.len();
        let mut cs: Vec<char> = Vec::new();
        let mut i: usize = 0;
        while i < n
            invariant
                n == self.frame_buffer@.len(),
                i <= n,
                cs@.len() == i,
                forall|k: int| 0 <= k < i ==> #[trigger] cs@[k] == self.frame_buffer@[k].0,
            decreases n - i,
        {
            cs.push(self.frame_buffer[i].0);
            i += 1;
        }
        cs
    }
}

} // verus!
