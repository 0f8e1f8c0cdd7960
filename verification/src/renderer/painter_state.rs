//! Save/restore stack of a painter: one transform and one clip-layer count per frame.
use vstd::prelude::*;

verus! {

/// Abstract state of a [`PainterStack`]: transforms and clip counts, one per frame,
/// the current frame last.
pub struct PainterModel<X> {
    pub xforms: Seq<X>,
    pub clips: Seq<u32>,
}

/// Stack of painter frames. The base frame is never popped.
pub struct PainterStack<X> {
    xforms: Vec<X>,
    clips: Vec<u32>,
}

impl<X> View for PainterStack<X> {
    type V = PainterModel<X>;

    closed spec fn view(&self) -> PainterModel<X> {
        PainterModel { xforms: self.xforms@, clips: self.clips@ }
    }
}

/// Sum of the clip counts of all frames.
pub open spec fn clip_total(c: Seq<u32>) -> int
    decreases c.len(),
{
    if c.len() == 0 {
        0
    } else {
        clip_total(c.drop_last()) + c.last()
    }
}

/// A prefix holds no more clip layers than a longer prefix.
proof fn lemma_clip_total_prefix(c: Seq<u32>, i: int, j: int)
    requires
        0 <= i <= j <= c.len(),
    ensures
        clip_total(c.take(i)) <= clip_total(c.take(j)),
    decreases j - i,
{
    if i < j {
        lemma_clip_total_prefix(c, i, j - 1);
        assert(c.take(j).drop_last() =~= c.take(j - 1));
    }
}

/// Well-formed stacks have as many clip counts as transforms, and at least one frame.
pub open spec fn frames_ok<X>(m: PainterModel<X>) -> bool {
    m.xforms.len() == m.clips.len() && m.xforms.len() >= 1
}

impl<X: Copy> PainterStack<X> {
    /// A stack holding the base frame: `base` transform, no clip layer.
    pub fn new(base: X) -> (r: PainterStack<X>)
        ensures
            r@.xforms == seq![base],
            r@.clips == seq![0u32],
    {
        let mut xforms = Vec::new();
        xforms.push(base);
        let mut clips = Vec::new();
        clips.push(0u32);
        PainterStack { xforms, clips }
    }

    /// The current transform.
    pub fn current(&self) -> (r: X)
        requires
            frames_ok(self@),
        ensures
            r == self@.xforms.last(),
    {
        self.xforms[self.xforms.len() - 1]
    }

    /// Replaces the current transform (the caller composes the translation).
    pub fn set_current(&mut self, x: X)
        requires
            frames_ok(old(self)@),
        ensures
            final(self)@.xforms == old(self)@.xforms.update(old(self)@.xforms.len() - 1, x),
            final(self)@.clips == old(self)@.clips,
    {
        let i = self.xforms.len() - 1;
        self.xforms.set(i, x);
    }

    /// Opens a new frame with the current transform and no clip layer.
    pub fn save(&mut self)
        requires
            frames_ok(old(self)@),
        ensures
            final(self)@.xforms == old(self)@.xforms.push(old(self)@.xforms.last()),
            final(self)@.clips == old(self)@.clips.push(0u32),
    {
        let current = self.xforms[self.xforms.len() - 1];
        self.xforms.push(current);
        self.clips.push(0);
    }

    /// Counts one more clip layer in the current frame.
    pub fn add_clip(&mut self)
        requires
            frames_ok(old(self)@),
            old(self)@.clips.last() < u32::MAX,
        ensures
            final(self)@.xforms == old(self)@.xforms,
            final(self)@.clips == old(self)@.clips.update(
                old(self)@.clips.len() - 1,
                (old(self)@.clips.last() + 1) as u32,
            ),
    {
        let i = self.clips.len() - 1;
        let c = self.clips[i];
        self.clips.set(i, c + 1);
    }

    /// Closes the current frame and returns how many clip layers to pop; at the base
    /// frame nothing happens and 0 is returned.
    pub fn restore(&mut self) -> (r: u32)
        requires
            frames_ok(old(self)@),
        ensures
            old(self)@.xforms.len() <= 1 ==> r == 0 && final(self)@ == old(self)@,
            old(self)@.xforms.len() > 1 ==> r == old(self)@.clips.last()
                && final(self)@.xforms == old(self)@.xforms.drop_last()
                && final(self)@.clips == old(self)@.clips.drop_last(),
    {
        if self.xforms.len() <= 1 {
            return 0;
        }
        let c = self.clips.pop().unwrap();
        self.xforms.pop();
        c
    }

    /// Depth of the stack and the number of clip layers still open over all frames.
    pub fn stack_state(&self) -> (r: (usize, u32))
        requires
            frames_ok(self@),
            clip_total(self@.clips) <= u32::MAX,
        ensures
            r == (self@.xforms.len() as usize, clip_total(self@.clips) as u32),
    {
        let mut total: u32 = 0;
        let mut i: usize = 0;
        while i < self.clips.len()
            invariant
                i <= self.clips@.len(),
                clip_total(self.clips@) <= u32::MAX,
                total == clip_total(self.clips@.take(i as int)),
            decreases self.clips@.len() - i,
        {
            proof {
                lemma_clip_total_prefix(self.clips@, i as int + 1, self.clips@.len() as int);
                assert(self.clips@.take(self.clips@.len() as int) =~= self.clips@);
                assert(self.clips@.take(i as int + 1).drop_last() =~= self.clips@.take(i as int));
            }
            total = total + self.clips[i];
            i = i + 1;
        }
        assert(self.clips@.take(self.clips@.len() as int) =~= self.clips@);
        (self.xforms.len(), total)
    }
}

/// A save followed by a restore gives back the stack as it was and pops no layer.
pub proof fn law_save_restore_round_trip<X>(m: PainterModel<X>)
    requires
        frames_ok(m),
    ensures
        m.xforms.push(m.xforms.last()).drop_last() == m.xforms,
        m.clips.push(0u32).drop_last() == m.clips,
        m.clips.push(0u32).last() == 0,
        m.xforms.push(m.xforms.last()).len() > 1,
{
    assert(m.xforms.push(m.xforms.last()).drop_last() =~= m.xforms);
    assert(m.clips.push(0u32).drop_last() =~= m.clips);
}

} // verus!
