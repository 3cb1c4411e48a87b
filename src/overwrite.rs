//! The overwrite engine: fixed-size, pattern-driven passes over a file's
//! existing bytes. The engine decides each step and produces the bytes; the
//! caller performs the file operations and reports back. A ghost image of the
//! file records what the writes leave behind.

use vstd::prelude::*;
use rand::RngCore;

verus! {

/// The chunk size of the built-in plans: one MiB.
pub const DEFAULT_CHUNK: usize = 1048576;

/// What one pass writes.
#[derive(Debug, Clone, Copy, PartialEq, Eq, Structural)]
pub enum Pattern {
    /// Every byte 0x00.
    Zeros,
    /// Every byte 0xFF.
    Ones,
    /// Cryptographically random bytes.
    Random,
}

/// One overwrite pass.
#[derive(Debug, Clone, Copy, PartialEq, Eq, Structural)]
pub struct Pass {
    pub pattern: Pattern,
    /// Bytes per write; positive.
    pub chunk_size: usize,
}

/// An ordered sequence of passes.
#[derive(Debug, Clone)]
pub struct OverwritePlan {
    pub passes: Vec<Pass>,
}

/// Every pass writes `DEFAULT_CHUNK` bytes at a time.
pub open spec fn default_chunks(passes: Seq<Pass>) -> bool {
    forall|k: int| 0 <= k < passes.len() ==> #[trigger] passes[k].chunk_size == DEFAULT_CHUNK
}

/// Every pass writes a positive number of bytes at a time.
pub open spec fn plan_wf(passes: Seq<Pass>) -> bool {
    forall|k: int| 0 <= k < passes.len() ==> #[trigger] passes[k].chunk_size > 0
}

/// The patterns of a plan, pass by pass.
pub open spec fn patterns_of(passes: Seq<Pass>) -> Seq<Pattern> {
    Seq::new(passes.len(), |k: int| passes[k].pattern)
}

impl OverwritePlan {
    /// A single zero-fill pass.
    pub fn quick() -> (r: OverwritePlan)
        ensures
            plan_wf(r.passes@),
            default_chunks(r.passes@),
            patterns_of(r.passes@) == seq![Pattern::Zeros],
    {
        let mut passes: Vec<Pass> = Vec::new();
        passes.push(Pass { pattern: Pattern::Zeros, chunk_size: DEFAULT_CHUNK });
        let r = OverwritePlan { passes };
        assert(patterns_of(r.passes@) =~= seq![Pattern::Zeros]);
        r
    }

    /// Three cryptographically random passes.
    pub fn standard() -> (r: OverwritePlan)
        ensures
            plan_wf(r.passes@),
            default_chunks(r.passes@),
            patterns_of(r.passes@) == seq![Pattern::Random, Pattern::Random, Pattern::Random],
    {
        let mut passes: Vec<Pass> = Vec::new();
        passes.push(Pass { pattern: Pattern::Random, chunk_size: DEFAULT_CHUNK });
        passes.push(Pass { pattern: Pattern::Random, chunk_size: DEFAULT_CHUNK });
        passes.push(Pass { pattern: Pattern::Random, chunk_size: DEFAULT_CHUNK });
        let r = OverwritePlan { passes };
        assert(patterns_of(r.passes@) =~= seq![Pattern::Random, Pattern::Random, Pattern::Random]);
        r
    }

    /// Zeros, then ones, then random bytes, in that order.
    pub fn dod() -> (r: OverwritePlan)
        ensures
            plan_wf(r.passes@),
            default_chunks(r.passes@),
            patterns_of(r.passes@) == seq![Pattern::Zeros, Pattern::Ones, Pattern::Random],
    {
        let mut passes: Vec<Pass> = Vec::new();
        passes.push(Pass { pattern: Pattern::Zeros, chunk_size: DEFAULT_CHUNK });
        passes.push(Pass { pattern: Pattern::Ones, chunk_size: DEFAULT_CHUNK });
        passes.push(Pass { pattern: Pattern::Random, chunk_size: DEFAULT_CHUNK });
        let r = OverwritePlan { passes };
        assert(patterns_of(r.passes@) =~= seq![Pattern::Zeros, Pattern::Ones, Pattern::Random]);
        r
    }
}

/// The byte a fixed pattern writes.
pub open spec fn byte_of(p: Pattern) -> u8 {
    match p {
        Pattern::Ones => 0xFF,
        _ => 0,
    }
}

/// `b` is a byte that pattern `p` may produce.
pub open spec fn produces(p: Pattern, b: u8) -> bool {
    p == Pattern::Random || b == byte_of(p)
}

/// The first `n` bytes of the image were written by pattern `p`. A byte the
/// engine never wrote is `None`.
pub open spec fn filled_upto(img: Seq<Option<u8>>, n: int, p: Pattern) -> bool {
    forall|i: int| 0 <= i < n ==> (#[trigger] img[i] matches Some(b) && produces(p, b))
}

/// The image after writing `d` at offset `off`.
pub open spec fn write_at(img: Seq<Option<u8>>, off: int, d: Seq<u8>) -> Seq<Option<u8>> {
    Seq::new(img.len(), |i: int| if off <= i < off + d.len() { Some(d[i - off]) } else { img[i] })
}

/// Where the engine stands.
#[derive(Debug, Clone, Copy, PartialEq, Eq, Structural)]
pub enum WipeStage {
    /// Open the file for writing, without truncating it.
    Open,
    /// Seek to offset 0 for the next pass.
    Seek,
    /// Write the next chunk of the current pass.
    Write,
    /// Flush the completed pass to storage.
    Flush,
    /// Every pass is durably written.
    Done,
    /// A file operation failed; the file keeps what the last write left.
    Failed,
}

/// What the caller is to do next.
#[derive(Debug)]
pub enum WipeAction {
    Open,
    Seek,
    /// Write these bytes at the current position.
    Write(Vec<u8>),
    Flush,
    Done,
    Failed,
}

/// The abstract state of an overwrite.
pub struct WipeView {
    /// The file's length, which no step changes.
    pub length: nat,
    pub passes: Seq<Pass>,
    /// How many passes are flushed.
    pub pass: nat,
    /// The position within the current pass.
    pub offset: nat,
    pub stage: WipeStage,
    /// The file's bytes as the engine's writes left them.
    pub image: Seq<Option<u8>>,
    /// The image as each flushed pass left it.
    pub flushed: Seq<Seq<Option<u8>>>,
}

/// The invariant of an overwrite.
pub open spec fn wipe_wf(v: WipeView) -> bool {
    &&& plan_wf(v.passes)
    &&& v.image.len() == v.length
    &&& v.flushed.len() == v.pass
    &&& v.pass <= v.passes.len()
    &&& v.offset <= v.length
    &&& forall|k: int| 0 <= k < v.flushed.len() ==> (#[trigger] v.flushed[k]).len() == v.length
    &&& forall|k: int|
        0 <= k < v.flushed.len() ==> filled_upto(#[trigger] v.flushed[k], v.length as int, v.passes[k].pattern)
    &&& v.stage == WipeStage::Open ==> v.pass == 0 && v.length > 0
    &&& v.stage == WipeStage::Seek ==> v.pass < v.passes.len() && v.length > 0
    &&& v.stage == WipeStage::Write ==> v.pass < v.passes.len() && v.offset < v.length
    &&& v.stage == WipeStage::Flush ==> v.pass < v.passes.len() && v.offset == v.length && v.length > 0
    &&& (v.stage == WipeStage::Write || v.stage == WipeStage::Flush) ==> filled_upto(
        v.image,
        v.offset as int,
        v.passes[v.pass as int].pattern,
    )
    &&& v.stage == WipeStage::Done ==> v.pass == v.passes.len() || v.length == 0
}

/// The size of the chunk written at the current position.
pub open spec fn chunk_len(v: WipeView) -> int {
    let c = v.passes[v.pass as int].chunk_size as int;
    let left = v.length - v.offset;
    if c < left {
        c
    } else {
        left
    }
}

/// `a` is the action that the state `v` calls for.
pub open spec fn wipe_action_is(a: WipeAction, v: WipeView) -> bool {
    match v.stage {
        WipeStage::Open => a is Open,
        WipeStage::Seek => a is Seek,
        WipeStage::Write => a matches WipeAction::Write(d) && d@.len() == chunk_len(v) && forall|i: int|
            0 <= i < d@.len() ==> produces(v.passes[v.pass as int].pattern, #[trigger] d@[i]),
        WipeStage::Flush => a is Flush,
        WipeStage::Done => a is Done,
        WipeStage::Failed => a is Failed,
    }
}

/// The state after the action `a` of state `v` was carried out.
pub open spec fn wipe_next(v: WipeView, a: WipeAction) -> WipeView {
    match v.stage {
        WipeStage::Open => WipeView {
            stage: if v.passes.len() == 0 {
                WipeStage::Done
            } else {
                WipeStage::Seek
            },
            ..v
        },
        WipeStage::Seek => WipeView { stage: WipeStage::Write, offset: 0, ..v },
        WipeStage::Write => {
            let d = a->Write_0@;
            let off = v.offset + d.len();
            WipeView {
                image: write_at(v.image, v.offset as int, d),
                offset: off as nat,
                stage: if off == v.length {
                    WipeStage::Flush
                } else {
                    WipeStage::Write
                },
                ..v
            }
        },
        WipeStage::Flush => WipeView {
            flushed: v.flushed.push(v.image),
            pass: v.pass + 1,
            stage: if v.pass + 1 == v.passes.len() {
                WipeStage::Done
            } else {
                WipeStage::Seek
            },
            ..v
        },
        _ => v,
    }
}

/// Relies on `rand::thread_rng` and `RngCore::fill_bytes`: `n` bytes from the
/// thread-local generator, which rand seeds from the operating system;
/// nothing is known of their values.
#[verifier::external_body]
fn random_bytes(n: usize) -> (r: Vec<u8>)
    ensures
        r@.len() == n,
{
    let mut buf = vec![0u8; n];
    rand::thread_rng().fill_bytes(&mut buf);
    buf
}

/// `n` copies of `b`.
fn repeat_byte(b: u8, n: usize) -> (r: Vec<u8>)
    ensures
        r@ == Seq::new(n as nat, |i: int| b),
{
    let mut v: Vec<u8> = Vec::new();
    let mut i: usize = 0;
    while i < n
        invariant
            i <= n,
            v@ == Seq::new(i as nat, |k: int| b),
        decreases n - i,
    {
        v.push(b);
        i = i + 1;
        assert(v@ =~= Seq::new(i as nat, |k: int| b));
    }
    v
}

/// `n` bytes of pattern `p`.
pub fn pattern_chunk(p: Pattern, n: usize) -> (r: Vec<u8>)
    ensures
        r@.len() == n,
        forall|i: int| 0 <= i < n ==> produces(p, #[trigger] r@[i]),
        p != Pattern::Random ==> r@ == Seq::new(n as nat, |i: int| byte_of(p)),
{
    match p {
        Pattern::Zeros => repeat_byte(0, n),
        Pattern::Ones => repeat_byte(0xFF, n),
        Pattern::Random => random_bytes(n),
    }
}

/// Overwrites a file of a given length according to a plan.
pub struct Overwriter {
    length: usize,
    passes: Vec<Pass>,
    pass: usize,
    offset: usize,
    stage: WipeStage,
    image: Ghost<Seq<Option<u8>>>,
    flushed: Ghost<Seq<Seq<Option<u8>>>>,
}

impl View for Overwriter {
    type V = WipeView;

    closed spec fn view(&self) -> WipeView {
        WipeView {
            length: self.length as nat,
            passes: self.passes@,
            pass: self.pass as nat,
            offset: self.offset as nat,
            stage: self.stage,
            image: self.image@,
            flushed: self.flushed@,
        }
    }
}

impl Overwriter {
    /// Starts an overwrite of a file of `length` bytes. A file of no bytes
    /// needs nothing done: the engine starts finished.
    pub fn new(length: usize, plan: OverwritePlan) -> (r: Overwriter)
        requires
            plan_wf(plan.passes@),
        ensures
            wipe_wf(r@),
            r@.length == length,
            r@.passes == plan.passes@,
            r@.pass == 0,
            r@.flushed.len() == 0,
            r@.image == Seq::new(length as nat, |i: int| None::<u8>),
            length == 0 ==> r@.stage == WipeStage::Done,
            length > 0 ==> r@.stage == WipeStage::Open,
    {
        Overwriter {
            length,
            passes: plan.passes,
            pass: 0,
            offset: 0,
            stage: if length == 0 {
                WipeStage::Done
            } else {
                WipeStage::Open
            },
            image: Ghost(Seq::new(length as nat, |i: int| None::<u8>)),
            flushed: Ghost(Seq::empty()),
        }
    }

    /// The current stage.
    pub fn stage(&self) -> (r: WipeStage)
        ensures
            r == self@.stage,
    {
        self.stage
    }

    /// How many passes have been flushed.
    pub fn passes_done(&self) -> (r: usize)
        ensures
            r == self@.pass,
    {
        self.pass
    }

    /// The action the current state calls for; for a write, the bytes.
    pub fn next_action(&self) -> (a: WipeAction)
        requires
            wipe_wf(self@),
        ensures
            wipe_action_is(a, self@),
    {
        match self.stage {
            WipeStage::Open => WipeAction::Open,
            WipeStage::Seek => WipeAction::Seek,
            WipeStage::Write => {
                let p = self.passes[self.pass];
                let left = self.length - self.offset;
                let n = if p.chunk_size < left {
                    p.chunk_size
                } else {
                    left
                };
                WipeAction::Write(pattern_chunk(p.pattern, n))
            },
            WipeStage::Flush => WipeAction::Flush,
            WipeStage::Done => WipeAction::Done,
            WipeStage::Failed => WipeAction::Failed,
        }
    }

    /// Records that `a`, the action of the current state, was carried out.
    pub fn advance(&mut self, a: &WipeAction)
        requires
            wipe_wf(old(self)@),
            wipe_action_is(*a, old(self)@),
        ensures
            wipe_wf(final(self)@),
            final(self)@ == wipe_next(old(self)@, *a),
    {
        proof {
            lemma_length_kept(self@, *a);
        }
        match self.stage {
            WipeStage::Open => {
                self.stage = if self.passes.len() == 0 {
                    WipeStage::Done
                } else {
                    WipeStage::Seek
                };
            },
            WipeStage::Seek => {
                self.offset = 0;
                self.stage = WipeStage::Write;
            },
            WipeStage::Write => {
                match a {
                    WipeAction::Write(d) => {
                        let ghost old_image = self.image@;
                        let ghost pat = self.passes@[self.pass as int].pattern;
                        self.image = Ghost(write_at(self.image@, self.offset as int, d@));
                        assert(filled_upto(self.image@, self.offset + d@.len(), pat)) by {
                            assert forall|i: int| 0 <= i < self.offset + d@.len() implies (
                            #[trigger] self.image@[i] matches Some(b) && produces(pat, b)) by {
                                if i >= self.offset {
                                    assert(produces(pat, d@[i - self.offset]));
                                }
                            }
                        }
                        self.offset = self.offset + d.len();
                        self.stage = if self.offset == self.length {
                            WipeStage::Flush
                        } else {
                            WipeStage::Write
                        };
                    },
                    _ => {},
                }
            },
            WipeStage::Flush => {
                let ghost before = self.flushed@;
                self.flushed = Ghost(self.flushed@.push(self.image@));
                assert(self.flushed@.last() == self.image@);
                assert forall|k: int| 0 <= k < before.len() implies #[trigger] self.flushed@[k] == before[k] by {}
                let total = self.passes.len();
                self.pass = self.pass + 1;
                self.stage = if self.pass == total {
                    WipeStage::Done
                } else {
                    WipeStage::Seek
                };
            },
            _ => {},
        }
    }

    /// Records that the current file operation failed.
    pub fn fail(&mut self)
        requires
            wipe_wf(old(self)@),
        ensures
            wipe_wf(final(self)@),
            final(self)@ == (WipeView { stage: WipeStage::Failed, ..old(self)@ }),
    {
        self.stage = WipeStage::Failed;
    }
}

/// Every step of an overwrite keeps the invariant, and with it the file's
/// length: whatever the plan, the image always holds exactly as many bytes
/// as the file had at the start, and so does the image each flushed pass leaves.
pub proof fn lemma_length_kept(v: WipeView, a: WipeAction)
    requires
        wipe_wf(v),
        wipe_action_is(a, v),
    ensures
        wipe_wf(wipe_next(v, a)),
        wipe_next(v, a).image.len() == v.length,
        wipe_next(v, a).length == v.length,
        forall|k: int|
            0 <= k < wipe_next(v, a).flushed.len() ==> (#[trigger] wipe_next(v, a).flushed[k]).len()
                == v.length,
{
    let w = wipe_next(v, a);
    if v.stage == WipeStage::Write {
        let d = a->Write_0@;
        let pat = v.passes[v.pass as int].pattern;
        assert forall|i: int| 0 <= i < v.offset + d.len() implies (#[trigger] w.image[i] matches Some(b)
            && produces(pat, b)) by {
            if i >= v.offset {
                assert(produces(pat, d[i - v.offset]));
            }
        }
    }
    if v.stage == WipeStage::Flush {
        assert forall|k: int| 0 <= k < w.flushed.len() implies filled_upto(
            #[trigger] w.flushed[k],
            v.length as int,
            w.passes[k].pattern,
        ) by {
            if k < v.flushed.len() {
                assert(w.flushed[k] == v.flushed[k]);
            }
        }
    }
    assert(w.image.len() == w.length);
    assert(forall|k: int| 0 <= k < w.flushed.len() ==> (#[trigger] w.flushed[k]).len() == w.length);
}

/// Under the zeros-ones-random plan, the first flushed pass leaves every
/// byte zero, the second every byte 0xFF, and the third leaves every byte
/// written, the length still unchanged.
pub proof fn lemma_dod_passes(v: WipeView)
    requires
        wipe_wf(v),
        patterns_of(v.passes) == seq![Pattern::Zeros, Pattern::Ones, Pattern::Random],
    ensures
        v.flushed.len() >= 1 ==> v.flushed[0] == Seq::new(v.length, |i: int| Some(0u8)),
        v.flushed.len() >= 2 ==> v.flushed[1] == Seq::new(v.length, |i: int| Some(0xFFu8)),
        v.flushed.len() >= 3 ==> v.flushed[2].len() == v.length && forall|i: int|
            0 <= i < v.length ==> #[trigger] v.flushed[2][i] is Some,
{
    assert(v.passes.len() == patterns_of(v.passes).len());
    assert(v.passes[0].pattern == Pattern::Zeros);
    assert(v.passes[1].pattern == Pattern::Ones);
    assert(v.passes[2].pattern == Pattern::Random);
    if v.flushed.len() >= 1 {
        assert(filled_upto(v.flushed[0], v.length as int, Pattern::Zeros));
        assert(v.flushed[0] =~= Seq::new(v.length, |i: int| Some(0u8)));
    }
    if v.flushed.len() >= 2 {
        assert(filled_upto(v.flushed[1], v.length as int, Pattern::Ones));
        assert(v.flushed[1] =~= Seq::new(v.length, |i: int| Some(0xFFu8)));
    }
    if v.flushed.len() >= 3 {
        assert(filled_upto(v.flushed[2], v.length as int, v.passes[2].pattern));
    }
}

} // verus!
