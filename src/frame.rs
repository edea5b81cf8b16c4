//! The frame buffer of a render and the job that fills it band by band.
//!
//! The image is `width` pixels wide and `height` rows high, stored row-major
//! from the top row down, three bytes (red, green, blue) per pixel. Each row is
//! one band: bands are rendered independently, possibly in parallel, and each
//! is handed in exactly once. The job moves from `Idle` to `Rendering` when it
//! is started and to `Complete` once every band has been handed in; only a
//! complete job gives up its pixels.
use vstd::arithmetic::div_mod::lemma_mod_multiples_vanish;
use vstd::prelude::*;

verus! {

/// One 8-bit RGB pixel.
#[derive(Clone, Copy, Debug, PartialEq, Eq, Structural)]
pub struct Rgb {
    pub r: u8,
    pub g: u8,
    pub b: u8,
}

/// Channel `c` (0 red, 1 green, 2 blue) of `p`.
pub open spec fn channel(p: Rgb, c: int) -> u8 {
    if c == 0 {
        p.r
    } else if c == 1 {
        p.g
    } else {
        p.b
    }
}

/// The bytes of a run of pixels: three per pixel, in order.
pub open spec fn packed(ps: Seq<Rgb>) -> Seq<u8> {
    Seq::new(3 * ps.len(), |k: int| channel(ps[k / 3], k % 3))
}

/// `n` copies of the pixel `p`.
pub open spec fn uniform(p: Rgb, n: nat) -> Seq<Rgb> {
    Seq::new(n, |_i: int| p)
}

/// Packs a run of pixels into bytes, three per pixel.
pub fn pack_pixels(pixels: &Vec<Rgb>) -> (r: Vec<u8>)
    requires
        3 * pixels@.len() <= usize::MAX,
    ensures
        r@ == packed(pixels@),
{
    let mut out: Vec<u8> = Vec::with_capacity(3 * pixels.len());
    let mut i: usize = 0;
    while i < pixels.len()
        invariant
            i <= pixels@.len(),
            3 * pixels@.len() <= usize::MAX,
            out@.len() == 3 * i,
            forall|k: int| 0 <= k < 3 * i ==> out@[k] == channel(pixels@[k / 3], k % 3),
        decreases pixels@.len() - i,
    {
        let p = pixels[i];
        out.push(p.r);
        out.push(p.g);
        out.push(p.b);
        assert forall|k: int| 0 <= k < 3 * (i + 1) implies out@[k] == channel(
            pixels@[k / 3],
            k % 3,
        ) by {
            if k >= 3 * i {
                assert(k / 3 == i) by (nonlinear_arith)
                    requires
                        3 * i <= k < 3 * (i + 1),
                ;
                assert(k % 3 == k - 3 * i) by (nonlinear_arith)
                    requires
                        3 * i <= k < 3 * (i + 1),
                ;
            }
        }
        i = i + 1;
    }
    assert(out@ =~= packed(pixels@));
    out
}

/// Row `y` of a frame whose rows are `n` bytes long.
pub open spec fn row_of(pixels: Seq<u8>, n: int, y: int) -> Seq<u8> {
    pixels.subrange(y * n, (y + 1) * n)
}

/// Where a render job stands.
#[derive(Clone, Copy, Debug, PartialEq, Eq, Structural)]
pub enum Phase {
    /// Created, not started: no band has been handed in.
    Idle,
    /// Started: bands are being handed in.
    Rendering,
    /// Every band has been handed in.
    Complete,
}

/// Why a render job refused a request.
#[derive(Clone, Copy, Debug, PartialEq, Eq, Structural)]
pub enum JobError {
    /// The frame's bytes (three per pixel) do not fit in a `usize`.
    TooLarge,
    /// The request does not fit the job's phase.
    WrongPhase,
    /// No band has that index.
    NoSuchBand,
    /// That band has been handed in already.
    BandTaken,
    /// The bytes handed in are not one row's worth.
    WrongLength,
}

/// The abstract state of a render job.
pub struct JobView {
    pub width: nat,
    pub height: nat,
    pub phase: Phase,
    /// The frame, row-major from the top row, three bytes per pixel.
    pub pixels: Seq<u8>,
    /// Which bands (rows) have been handed in.
    pub done: Seq<bool>,
}

impl JobView {
    /// Bytes per row.
    pub open spec fn row_len(self) -> nat {
        3 * self.width
    }

    /// The bytes of row `y`.
    pub open spec fn band(self, y: int) -> Seq<u8> {
        row_of(self.pixels, self.row_len() as int, y)
    }

    /// Whether every band has been handed in.
    pub open spec fn all_done(self) -> bool {
        forall|y: int| 0 <= y < self.done.len() ==> self.done[y]
    }

    /// The frame has room for every pixel, each band has a flag, nothing is
    /// handed in before the start, and the job is complete exactly when it
    /// has started and every band is in.
    pub open spec fn wf(self) -> bool {
        &&& 3 * self.width * self.height <= usize::MAX
        &&& self.pixels.len() == 3 * self.width * self.height
        &&& self.done.len() == self.height
        &&& self.phase is Idle ==> forall|y: int| 0 <= y < self.done.len() ==> !self.done[y]
        &&& (self.phase is Complete <==> (self.phase !is Idle && self.all_done()))
    }
}

/// A frame being rendered band by band.
pub struct RenderJob {
    width: usize,
    height: usize,
    phase: Phase,
    pixels: Vec<u8>,
    done: Vec<bool>,
}

impl View for RenderJob {
    type V = JobView;

    closed spec fn view(&self) -> JobView {
        JobView {
            width: self.width as nat,
            height: self.height as nat,
            phase: self.phase,
            pixels: self.pixels@,
            done: self.done@,
        }
    }
}

proof fn lemma_row_fits(width: nat, height: nat, y: nat)
    requires
        y < height,
        3 * width * height <= usize::MAX,
    ensures
        3 * width <= usize::MAX,
        (y + 1) * (3 * width) <= 3 * width * height,
        y * (3 * width) + 3 * width == (y + 1) * (3 * width),
{
    assert((y + 1) * (3 * width) <= height * (3 * width)) by (nonlinear_arith)
        requires
            y + 1 <= height,
    ;
    assert(height * (3 * width) == 3 * width * height) by (nonlinear_arith);
    assert(3 * width <= 3 * width * height) by (nonlinear_arith)
        requires
            height >= 1,
    ;
    assert(y * (3 * width) + 3 * width == (y + 1) * (3 * width)) by (nonlinear_arith);
}

proof fn lemma_rows_apart(z: int, y: int, n: int, height: int)
    requires
        0 <= z < height,
        0 <= y < height,
        z != y,
        n >= 0,
    ensures
        0 <= z * n,
        (z + 1) * n <= height * n,
        (z + 1) * n <= y * n || (y + 1) * n <= z * n,
        (z + 1) * n == z * n + n,
{
    assert(0 <= z * n) by (nonlinear_arith)
        requires
            z >= 0,
            n >= 0,
    ;
    assert((z + 1) * n <= height * n) by (nonlinear_arith)
        requires
            z + 1 <= height,
            n >= 0,
    ;
    if z < y {
        assert((z + 1) * n <= y * n) by (nonlinear_arith)
            requires
                z + 1 <= y,
                n >= 0,
        ;
    } else {
        assert((y + 1) * n <= z * n) by (nonlinear_arith)
            requires
                y + 1 <= z,
                n >= 0,
        ;
    }
    assert((z + 1) * n == z * n + n) by (nonlinear_arith);
}

impl RenderJob {
    pub open spec fn wf(&self) -> bool {
        self@.wf()
    }

    /// A new, idle job for a `width` x `height` frame, all black.
    pub fn new(width: usize, height: usize) -> (r: Result<RenderJob, JobError>)
        ensures
            r is Err <==> 3 * width * height > usize::MAX,
            r is Err ==> r == Err::<RenderJob, JobError>(JobError::TooLarge),
            r matches Ok(job) ==> {
                &&& job.wf()
                &&& job@.width == width
                &&& job@.height == height
                &&& job@.phase == Phase::Idle
                &&& job@.pixels == Seq::new((3 * width * height) as nat, |_k: int| 0u8)
                &&& job@.done == Seq::new(height as nat, |_y: int| false)
            },
    {
        assert(3 * width * height == (width * height) * 3) by (nonlinear_arith);
        let area = match width.checked_mul(height) {
            Some(n) => n,
            None => {
                assert((width * height) * 3 >= width * height) by (nonlinear_arith)
                    requires
                        width * height >= 0,
                ;
                return Err(JobError::TooLarge);
            },
        };
        let len = match area.checked_mul(3) {
            Some(n) => n,
            None => {
                return Err(JobError::TooLarge);
            },
        };
        let pixels: Vec<u8> = vec![0u8; len];
        let done: Vec<bool> = vec![false; height];
        let job = RenderJob { width, height, phase: Phase::Idle, pixels, done };
        assert(job@.pixels =~= Seq::new((3 * width * height) as nat, |_k: int| 0u8));
        assert(job@.done =~= Seq::new(height as nat, |_y: int| false));
        Ok(job)
    }

    /// Pixels per row.
    pub fn width(&self) -> (r: usize)
        ensures
            r == self@.width,
    {
        self.width
    }

    /// Rows, which are also the bands.
    pub fn height(&self) -> (r: usize)
        ensures
            r == self@.height,
    {
        self.height
    }

    /// The job's phase.
    pub fn phase(&self) -> (r: Phase)
        ensures
            r == self@.phase,
    {
        self.phase
    }

    /// Whether band `y` has been handed in.
    pub fn is_band_done(&self, y: usize) -> (r: bool)
        requires
            self.wf(),
        ensures
            r == (y < self@.height && self@.done[y as int]),
    {
        y < self.height && self.done[y]
    }

    /// Whether every band has been handed in.
    pub fn is_complete(&self) -> (r: bool)
        requires
            self.wf(),
        ensures
            r == (self@.phase == Phase::Complete),
    {
        self.phase == Phase::Complete
    }

    /// Starts an idle job. A frame without rows is complete at once.
    pub fn start(&mut self) -> (r: Result<(), JobError>)
        requires
            old(self).wf(),
        ensures
            final(self).wf(),
            r is Err <==> old(self)@.phase != Phase::Idle,
            r is Err ==> r == Err::<(), JobError>(JobError::WrongPhase) && *final(self) == *old(self),
            r is Ok ==> final(self)@ == (JobView {
                phase: if old(self)@.height == 0 {
                    Phase::Complete
                } else {
                    Phase::Rendering
                },
                ..old(self)@
            }),
    {
        if self.phase != Phase::Idle {
            return Err(JobError::WrongPhase);
        }
        if self.height == 0 {
            self.phase = Phase::Complete;
        } else {
            self.phase = Phase::Rendering;
            assert(!self@.done[0]);
        }
        Ok(())
    }

    fn all_bands_done(&self) -> (r: bool)
        ensures
            r == self@.all_done(),
    {
        let mut y: usize = 0;
        while y < self.done.len()
            invariant
                y <= self.done@.len(),
                forall|k: int| 0 <= k < y ==> self.done@[k],
            decreases self.done@.len() - y,
        {
            if !self.done[y] {
                assert(!self@.done[y as int]);
                assert(!self@.all_done());
                return false;
            }
            y = y + 1;
        }
        true
    }

    /// Hands in the bytes of band (row) `y`. The row is copied into the frame
    /// and no other byte changes; the job completes with its last band.
    pub fn submit_band(&mut self, y: usize, row: &Vec<u8>) -> (r: Result<(), JobError>)
        requires
            old(self).wf(),
        ensures
            final(self).wf(),
            old(self)@.phase != Phase::Rendering ==> r == Err::<(), JobError>(JobError::WrongPhase),
            old(self)@.phase == Phase::Rendering && y >= old(self)@.height ==> r == Err::<
                (),
                JobError,
            >(JobError::NoSuchBand),
            old(self)@.phase == Phase::Rendering && y < old(self)@.height && old(self)@.done[y as int]
                ==> r == Err::<(), JobError>(JobError::BandTaken),
            old(self)@.phase == Phase::Rendering && y < old(self)@.height && !old(self)@.done[y as int]
                && row@.len() != old(self)@.row_len() ==> r == Err::<(), JobError>(
                JobError::WrongLength,
            ),
            r is Ok <==> {
                &&& old(self)@.phase == Phase::Rendering
                &&& y < old(self)@.height
                &&& !old(self)@.done[y as int]
                &&& row@.len() == old(self)@.row_len()
            },
            r is Err ==> *final(self) == *old(self),
            r is Ok ==> {
                let n = old(self)@.row_len();
                &&& final(self)@.width == old(self)@.width
                &&& final(self)@.height == old(self)@.height
                &&& final(self)@.pixels == old(self)@.pixels.subrange(0, y * n) + row@
                    + old(self)@.pixels.subrange((y + 1) * n, old(self)@.pixels.len() as int)
                &&& final(self)@.band(y as int) == row@
                &&& forall|z: int|
                    0 <= z < old(self)@.height && z != y ==> #[trigger] final(self)@.band(z)
                        == old(self)@.band(z)
                &&& final(self)@.done == old(self)@.done.update(y as int, true)
                &&& final(self)@.phase == if final(self)@.all_done() {
                    Phase::Complete
                } else {
                    Phase::Rendering
                }
            },
    {
        if self.phase != Phase::Rendering {
            return Err(JobError::WrongPhase);
        }
        if y >= self.height {
            return Err(JobError::NoSuchBand);
        }
        if self.done[y] {
            return Err(JobError::BandTaken);
        }
        proof {
            lemma_row_fits(self.width as nat, self.height as nat, y as nat);
        }
        let n: usize = 3 * self.width;
        if row.len() != n {
            return Err(JobError::WrongLength);
        }
        let base: usize = y * n;
        let ghost before = self.pixels@;
        let ghost start = *self;
        let mut i: usize = 0;
        while i < n
            invariant
                i <= n,
                n == 3 * self.width,
                row@.len() == n,
                base == y * n,
                base + n <= before.len(),
                before.len() <= usize::MAX,
                before.len() == 3 * self.width * self.height,
                self.width == start.width,
                self.height == start.height,
                self.phase == start.phase,
                self.done@ == start.done@,
                y < self.height,
                self.pixels@.len() == before.len(),
                forall|k: int|
                    0 <= k < before.len() ==> self.pixels@[k] == if base <= k < base + i {
                        row@[k - base]
                    } else {
                        before[k]
                    },
            decreases n - i,
        {
            self.pixels.set(base + i, row[i]);
            i = i + 1;
        }
        assert(self.pixels@ =~= before.subrange(0, base as int) + row@ + before.subrange(
            base + n,
            before.len() as int,
        ));
        proof {
            let after = self.pixels@;
            assert(after.subrange(base as int, base + n) =~= row@);
            assert forall|z: int| 0 <= z < self.height && z != y implies #[trigger] row_of(
                after,
                n as int,
                z,
            ) == row_of(before, n as int, z) by {
                lemma_rows_apart(z, y as int, n as int, self.height as int);
                assert(after.subrange(z * n, (z + 1) * n) =~= before.subrange(z * n, (z + 1) * n));
            }
        }
        self.done.set(y, true);
        if self.all_bands_done() {
            assert(self@.all_done() && self@.done == self.done@);
            self.phase = Phase::Complete;
        }
        Ok(())
    }

    /// The finished frame: `Some` exactly when the job is complete.
    pub fn into_pixels(self) -> (r: Option<Vec<u8>>)
        requires
            self.wf(),
        ensures
            r is Some <==> self@.phase == Phase::Complete,
            r matches Some(v) ==> v@ == self@.pixels,
    {
        if self.phase == Phase::Complete {
            Some(self.pixels)
        } else {
            None
        }
    }
}

/// A frame whose every row holds one pixel value repeated holds that value at
/// every pixel: when each band of a blank scene is rendered to the same
/// colour, the finished frame is that colour throughout.
pub proof fn lemma_uniform_rows_make_uniform_frame(v: JobView, p: Rgb)
    requires
        v.wf(),
        forall|y: int| 0 <= y < v.height ==> #[trigger] v.band(y) == packed(uniform(p, v.width)),
    ensures
        v.pixels == packed(uniform(p, v.width * v.height)),
{
    let n = v.row_len() as int;
    let goal = packed(uniform(p, v.width * v.height));
    assert(goal.len() == v.pixels.len()) by (nonlinear_arith)
        requires
            goal.len() == 3 * (v.width * v.height),
            v.pixels.len() == 3 * v.width * v.height,
    ;
    assert forall|k: int| 0 <= k < v.pixels.len() implies v.pixels[k] == goal[k] by {
        let y = k / n;
        let j = k % n;
        assert(n > 0) by (nonlinear_arith)
            requires
                k < 3 * v.width * v.height,
                n == 3 * v.width,
                k >= 0,
        ;
        assert(k == y * n + j && 0 <= j < n) by (nonlinear_arith)
            requires
                n > 0,
                y == k / n,
                j == k % n,
        ;
        assert(0 <= y < v.height) by (nonlinear_arith)
            requires
                k == y * n + j,
                0 <= j < n,
                k < n * v.height,
                k >= 0,
        ;
        assert(k == 3 * (y * v.width) + j) by (nonlinear_arith)
            requires
                k == y * n + j,
                n == 3 * v.width,
        ;
        lemma_mod_multiples_vanish(y * v.width, j, 3);
        assert((y + 1) * n == y * n + n) by (nonlinear_arith);
        assert((y + 1) * n <= v.height * n) by (nonlinear_arith)
            requires
                y + 1 <= v.height,
                n >= 0,
        ;
        assert(v.height * n == v.pixels.len()) by (nonlinear_arith)
            requires
                n == 3 * v.width,
                v.pixels.len() == 3 * v.width * v.height,
        ;
        assert(v.band(y)[j] == v.pixels[k]);
        assert(packed(uniform(p, v.width))[j] == channel(p, j % 3));
    }
    assert(v.pixels =~= goal);
}

} // verus!
