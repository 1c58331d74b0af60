//! The fade-in of the start-up banner, frame by frame.
//!
//! The banner appears from the left: in every frame each line shows a little
//! more of itself, lines further down lagging behind, and the first hidden
//! characters of a line are covered by noise. This module computes what a
//! frame shows; drawing it is left to the caller.

use vstd::prelude::*;

verus! {

/// Number of noise characters drawn for a line.
pub const NOISE_WIDTH: usize = 5;

/// The `n`-th of the five noise characters `@Oo*.`, counted round.
pub open spec fn noise_char(n: int) -> u8 {
    let k = n % 5;
    if k == 0 {
        0x40
    } else if k == 1 {
        0x4f
    } else if k == 2 {
        0x6f
    } else if k == 3 {
        0x2a
    } else {
        0x2e
    }
}

/// The seed that follows `seed`.
pub open spec fn next_seed(seed: int) -> int {
    (seed * 13 + 7) % 0x1_0000
}

/// The seed after `n` characters were drawn.
pub open spec fn seed_after(seed: int, n: nat) -> int
    decreases n,
{
    if n == 0 {
        seed
    } else {
        next_seed(seed_after(seed, (n - 1) as nat))
    }
}

/// The `n`-th character drawn from a generator that stands at `seed`,
/// counted from zero.
pub open spec fn drawn(seed: int, n: nat) -> u8 {
    noise_char(seed_after(seed, n))
}

/// The generator of the noise: a fixed sequence of characters.
#[derive(Clone, Copy, Debug, PartialEq, Eq)]
pub struct Noise {
    seed: u32,
}

impl View for Noise {
    type V = int;

    /// The seed that the generator stands at.
    closed spec fn view(&self) -> int {
        self.seed as int
    }
}

impl Noise {
    #[verifier::type_invariant]
    closed spec fn in_range(self) -> bool {
        self.seed < 0x1_0000
    }

    /// The generator at its starting seed.
    pub fn new() -> (r: Noise)
        ensures
            r@ == 1000,
    {
        Noise { seed: 1000 }
    }

    /// Draws the next character.
    pub fn next_char(&mut self) -> (c: u8)
        ensures
            c == noise_char(old(self)@),
            final(self)@ == next_seed(old(self)@),
    {
        proof {
            use_type_invariant(&*self);
        }
        let seed: u32 = self.seed;
        let n: u32 = seed % 5;
        let stepped: u32 = seed * 13 + 7;
        assert(stepped & 0xffff == stepped % 0x1_0000) by (bit_vector);
        self.seed = stepped & 0xffff;
        if n == 0 {
            0x40
        } else if n == 1 {
            0x4f
        } else if n == 2 {
            0x6f
        } else if n == 3 {
            0x2a
        } else {
            0x2e
        }
    }

    /// Draws the noise for one line: `NOISE_WIDTH` characters.
    pub fn fill(&mut self) -> (buf: Vec<u8>)
        ensures
            buf@.len() == NOISE_WIDTH,
            forall|i: int| 0 <= i < NOISE_WIDTH ==> buf@[i] == drawn(old(self)@, i as nat),
            final(self)@ == seed_after(old(self)@, NOISE_WIDTH as nat),
    {
        let ghost start = self@;
        let mut buf: Vec<u8> = Vec::new();
        let mut i: usize = 0;
        while i < NOISE_WIDTH
            invariant
                i <= NOISE_WIDTH,
                buf@.len() == i,
                self@ == seed_after(start, i as nat),
                forall|j: int| 0 <= j < i ==> buf@[j] == drawn(start, j as nat),
            decreases NOISE_WIDTH - i,
        {
            let c = self.next_char();
            buf.push(c);
            i = i + 1;
        }
        buf
    }
}

/// How far line `line_no` is uncovered in frame `frame`, in bytes: five to
/// begin with and one more every third frame, each line one less than the
/// line above it.
pub open spec fn offset_of(frame: int, line_no: int) -> int {
    if 5 + frame / 3 > line_no {
        5 + frame / 3 - line_no
    } else {
        0
    }
}

/// How far line `line_no` is uncovered in frame `frame`.
pub fn frame_offset(frame: usize, line_no: usize) -> (r: usize)
    ensures
        r == offset_of(frame as int, line_no as int),
{
    let lead: usize = frame / 3;
    if lead >= line_no {
        lead - line_no + 5
    } else if 5 > line_no - lead {
        5 - (line_no - lead)
    } else {
        0
    }
}

/// Where a line is cut in a frame.
#[derive(Clone, Copy, Debug, PartialEq, Eq, Structural)]
pub struct LineCut {
    /// So many bytes from the start of the line are shown as they are.
    pub shown: usize,
    /// So many noise characters follow.
    pub noise: usize,
    /// The bytes from here to the end of the line follow, drawn dark.
    pub rest_from: usize,
}

impl LineCut {
    /// Part of the line is still covered: another frame is due.
    pub open spec fn is_covered(self) -> bool {
        self.noise > 0
    }

    /// Whether part of the line is still covered.
    pub fn covered(&self) -> (r: bool)
        ensures
            r == self.is_covered(),
    {
        self.noise > 0
    }
}

/// Where a line of `len` bytes is cut when it is uncovered up to `offset`:
/// a line that is no longer than that is shown whole; of a longer one the
/// first `offset` bytes are shown, then noise as wide as what is hidden but
/// no wider than `NOISE_WIDTH`, then the line from the second hidden byte on.
pub open spec fn cut_of(len: int, offset: int) -> LineCut {
    if len > offset {
        LineCut {
            shown: offset as usize,
            noise: (if len - offset < NOISE_WIDTH {
                len - offset
            } else {
                NOISE_WIDTH as int
            }) as usize,
            rest_from: (offset + 1) as usize,
        }
    } else {
        LineCut { shown: len as usize, noise: 0, rest_from: len as usize }
    }
}

/// Where line `line_no`, of `len` bytes, is cut in frame `frame`.
pub fn cut_line(len: usize, frame: usize, line_no: usize) -> (r: LineCut)
    ensures
        r == cut_of(len as int, offset_of(frame as int, line_no as int)),
        r.shown <= len,
        r.shown <= r.rest_from <= len,
{
    let offset = frame_offset(frame, line_no);
    if len > offset {
        let hidden: usize = len - offset;
        LineCut {
            shown: offset,
            noise: if hidden < NOISE_WIDTH {
                hidden
            } else {
                NOISE_WIDTH
            },
            rest_from: offset + 1,
        }
    } else {
        LineCut { shown: len, noise: 0, rest_from: len }
    }
}

/// Number of lines among the first `n` that are still covered in `frame`.
pub open spec fn covered_before(lengths: Seq<usize>, frame: int, n: nat) -> nat
    decreases n,
{
    if n == 0 {
        0
    } else {
        covered_before(lengths, frame, (n - 1) as nat) + if lengths[n - 1] > offset_of(
            frame,
            n - 1,
        ) {
            1nat
        } else {
            0nat
        }
    }
}

/// Number of noise characters that the first `n` lines of `frame` draw:
/// `NOISE_WIDTH` for every line that is still covered.
pub open spec fn chars_drawn(lengths: Seq<usize>, frame: int, n: nat) -> nat {
    (NOISE_WIDTH * covered_before(lengths, frame, n)) as nat
}

/// One line of a frame: where the line is cut, and the noise that covers
/// the cut.
#[derive(Debug, PartialEq, Eq)]
pub struct FrameLine {
    pub cut: LineCut,
    pub noise: Vec<u8>,
}

/// One frame of the fade-in.
#[derive(Debug, PartialEq, Eq)]
pub struct Frame {
    pub lines: Vec<FrameLine>,
    /// Some line is still covered: another frame is due.
    pub more: bool,
}

/// Line `k` of frame `frame` is as it should be, the generator having stood
/// at `seed` when the frame began: it is cut as `cut_of` says, and its noise
/// is the first characters of the five that were drawn for it, every covered
/// line above it having drawn five before.
pub open spec fn line_drawn(
    lengths: Seq<usize>,
    frame: int,
    seed: int,
    k: int,
    line: FrameLine,
) -> bool {
    let before = chars_drawn(lengths, frame, k as nat);
    &&& line.cut == cut_of(lengths[k] as int, offset_of(frame, k))
    &&& line.noise@.len() == line.cut.noise
    &&& forall|i: int|
        0 <= i < line.cut.noise ==> #[trigger] line.noise@[i] == drawn(seed, (before + i) as nat)
}

proof fn lemma_seed_after_sum(seed: int, m: nat, n: nat)
    ensures
        seed_after(seed_after(seed, m), n) == seed_after(seed, m + n),
    decreases n,
{
    if n > 0 {
        lemma_seed_after_sum(seed, m, (n - 1) as nat);
    }
}

/// Computes frame `frame` of the fade-in of a banner whose lines have the
/// lengths `lengths`, in bytes. Noise is drawn from `noise`, five characters
/// for every line that is still covered.
pub fn fade_frame(lengths: &Vec<usize>, frame: usize, noise: &mut Noise) -> (r: Frame)
    ensures
        r.lines@.len() == lengths@.len(),
        forall|k: int|
            0 <= k < lengths@.len() ==> line_drawn(
                lengths@,
                frame as int,
                old(noise)@,
                k,
                #[trigger] r.lines@[k],
            ),
        r.more <==> covered_before(lengths@, frame as int, lengths@.len()) > 0,
        final(noise)@ == seed_after(
            old(noise)@,
            chars_drawn(lengths@, frame as int, lengths@.len()),
        ),
{
    let ghost start = noise@;
    let mut lines: Vec<FrameLine> = Vec::new();
    let mut more: bool = false;
    let mut k: usize = 0;
    while k < lengths.len()
        invariant
            k <= lengths@.len(),
            lines@.len() == k,
            forall|j: int|
                0 <= j < k ==> line_drawn(lengths@, frame as int, start, j, #[trigger] lines@[j]),
            more <==> covered_before(lengths@, frame as int, k as nat) > 0,
            noise@ == seed_after(start, chars_drawn(lengths@, frame as int, k as nat)),
        decreases lengths@.len() - k,
    {
        let ghost before = chars_drawn(lengths@, frame as int, k as nat);
        let cut = cut_line(lengths[k], frame, k);
        let mut drawn_now: Vec<u8> = Vec::new();
        if cut.covered() {
            more = true;
            let buf = noise.fill();
            let mut i: usize = 0;
            while i < cut.noise
                invariant
                    i <= cut.noise <= NOISE_WIDTH,
                    buf@.len() == NOISE_WIDTH,
                    drawn_now@.len() == i,
                    forall|j: int| 0 <= j < i ==> drawn_now@[j] == buf@[j],
                decreases cut.noise - i,
            {
                drawn_now.push(buf[i]);
                i = i + 1;
            }
            proof {
                lemma_seed_after_sum(start, before, NOISE_WIDTH as nat);
                assert forall|j: int| 0 <= j < cut.noise implies #[trigger] drawn_now@[j] == drawn(
                    start,
                    (before + j) as nat,
                ) by {
                    lemma_seed_after_sum(start, before, j as nat);
                }
            }
        }
        lines.push(FrameLine { cut, noise: drawn_now });
        k = k + 1;
    }
    Frame { lines, more }
}

/// A banner is uncovered for good from some frame on: once the first line is
/// uncovered beyond the length of the longest line and three frames for
/// every line have passed besides, no line is covered any more.
pub proof fn lemma_fade_in_ends(lengths: Seq<usize>, longest: int, frame: int, n: nat)
    requires
        n <= lengths.len(),
        forall|k: int| 0 <= k < lengths.len() ==> lengths[k] <= longest,
        frame >= 3 * (longest + lengths.len()),
    ensures
        covered_before(lengths, frame, n) == 0,
    decreases n,
{
    if n > 0 {
        lemma_fade_in_ends(lengths, longest, frame, (n - 1) as nat);
    }
}

} // verus!
