//! The decisions of the application loop, one frame at a time.
use vstd::prelude::*;

verus! {

/// The outcome of one frame of the application loop.
pub struct FrameStep {
    /// The windows to close at the start of the next frame: those that were
    /// quitting in this frame, in the order they were visited.
    pub close_next: Vec<u32>,
    /// The windows left once those closed in this frame are gone.
    pub remaining: Vec<u32>,
    /// The loop goes on while a window is left.
    pub running: bool,
}

/// The windows of `ids` whose flag in `quitting` is set, in order.
pub open spec fn quitting_ids(ids: Seq<u32>, quitting: Seq<bool>) -> Seq<u32>
    decreases ids.len(),
{
    if ids.len() == 0 {
        Seq::empty()
    } else {
        let rest = quitting_ids(ids.drop_last(), quitting);
        if quitting[ids.len() - 1] {
            rest.push(ids.last())
        } else {
            rest
        }
    }
}

/// Keeps the windows that are not in `closing`.
pub open spec fn not_closing(closing: Seq<u32>) -> spec_fn(u32) -> bool {
    |w: u32| !closing.contains(w)
}

/// One frame of the application loop: the windows in `closing` (those that
/// were quitting in the previous frame) close now; the windows of `ids`
/// quitting in this frame close at the start of the next one; the loop goes
/// on while a window is left.
pub fn frame_step(ids: &Vec<u32>, quitting: &Vec<bool>, closing: &Vec<u32>) -> (r: FrameStep)
    requires
        ids@.len() == quitting@.len(),
    ensures
        r.close_next@ == quitting_ids(ids@, quitting@),
        r.remaining@ == ids@.filter(not_closing(closing@)),
        r.running == (r.remaining@.len() > 0),
{
    let mut close_next: Vec<u32> = Vec::new();
    let mut remaining: Vec<u32> = Vec::new();
    let mut i: usize = 0;
    proof {
        assert(ids@.subrange(0, 0) =~= Seq::<u32>::empty());
    }
    while i < ids.len()
        invariant
            ids@.len() == quitting@.len(),
            i <= ids@.len(),
            close_next@ == quitting_ids(ids@.subrange(0, i as int), quitting@),
            remaining@ == ids@.subrange(0, i as int).filter(not_closing(closing@)),
        decreases ids@.len() - i,
    {
        let w = ids[i];
        proof {
            reveal(Seq::filter);
            let t = ids@.subrange(0, i + 1);
            assert(t.drop_last() =~= ids@.subrange(0, i as int));
            assert(t.last() == w);
        }
        if quitting[i] {
            close_next.push(w);
        }
        let mut closes = false;
        let mut j: usize = 0;
        while j < closing.len()
            invariant
                j <= closing@.len(),
                closes == closing@.subrange(0, j as int).contains(w),
            decreases closing@.len() - j,
        {
            proof {
                let c = closing@.subrange(0, j + 1);
                assert(c.drop_last() =~= closing@.subrange(0, j as int));
                if c.contains(w) && !c.drop_last().contains(w) {
                    let k = choose|k: int| 0 <= k < c.len() && c[k] == w;
                    if k < c.len() - 1 {
                        assert(c.drop_last()[k] == w);
                    }
                }
                if c.drop_last().contains(w) {
                    let k = choose|k: int| 0 <= k < c.drop_last().len() && c.drop_last()[k] == w;
                    assert(c[k] == w);
                }
                if closing@[j as int] == w {
                    assert(c[j as int] == w);
                }
            }
            if closing[j] == w {
                closes = true;
            }
            j = j + 1;
        }
        proof {
            assert(closing@.subrange(0, j as int) =~= closing@);
        }
        if !closes {
            remaining.push(w);
        }
        proof {
            reveal(Seq::filter);
        }
        i = i + 1;
    }
    proof {
        assert(ids@.subrange(0, i as int) =~= ids@);
    }
    let running = remaining.len() > 0;
    FrameStep { close_next, remaining, running }
}

/// How long to wait, in milliseconds, after a frame that took `elapsed` so
/// that frames start `frame` apart: the rest of the frame, or nothing once
/// the frame took that long.
pub fn frame_pause(elapsed: u64, frame: u64) -> (r: u64)
    ensures
        r == (if elapsed < frame { frame - elapsed } else { 0 }),
{
    if elapsed < frame {
        frame - elapsed
    } else {
        0
    }
}

} // verus!
