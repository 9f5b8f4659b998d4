use vstd::prelude::*;

use crate::Fault;
use crate::cycle::spec_tick;
use crate::machine::{Chip8, MachineView};

verus! {

/// Instruction cycles run in each frame: a fixed batch, not derived from
/// elapsed time.
pub const CYCLES_PER_FRAME: u32 = 10;

/// What the frame loop should do with the host's audio sink this frame.
#[derive(Clone, Copy, PartialEq, Eq, Structural, Debug)]
pub enum AudioAction {
    /// The tone must start: the sound timer just became nonzero.
    Start,
    /// The tone must stop: the sound timer just reached zero.
    Stop,
    /// No crossing: leave the sink alone.
    Keep,
}

/// Edge-triggered audio gate: the tone starts exactly on a zero to
/// nonzero crossing of the sound timer and stops exactly on a nonzero to
/// zero crossing; between crossings the sink is never touched, so the
/// tone is not restarted every frame.
pub fn audio_action(sound_timer: u8, playing: bool) -> (r: AudioAction)
    ensures
        r == AudioAction::Start <==> (sound_timer > 0 && !playing),
        r == AudioAction::Stop <==> (sound_timer == 0 && playing),
        r == AudioAction::Keep <==> (sound_timer > 0) == playing,
{
    if sound_timer > 0 && !playing {
        AudioAction::Start
    } else if sound_timer == 0 && playing {
        AudioAction::Stop
    } else {
        AudioAction::Keep
    }
}

/// `k` fault-free cycles lead from `s1` to `s2`, for some sequence of
/// random bytes.
pub open spec fn ticks_to(s1: MachineView, s2: MachineView, k: nat) -> bool
    decreases k,
{
    if k == 0 {
        s1 == s2
    } else {
        exists|b: u8|
            (#[trigger] spec_tick(s1, b)).1 is Ok && ticks_to(
                spec_tick(s1, b).0,
                s2,
                (k - 1) as nat,
            )
    }
}

/// A fault-free cycle appended after `k` cycles makes `k + 1` cycles.
pub proof fn lemma_ticks_to_extend(s1: MachineView, s2: MachineView, k: nat, b: u8)
    requires
        ticks_to(s1, s2, k),
        spec_tick(s2, b).1 is Ok,
    ensures
        ticks_to(s1, spec_tick(s2, b).0, k + 1),
    decreases k,
{
    if k == 0 {
        assert((#[trigger] spec_tick(s1, b)).1 is Ok && ticks_to(
            spec_tick(s1, b).0,
            spec_tick(s1, b).0,
            0,
        ));
    } else {
        let b0 = choose|b0: u8|
            (#[trigger] spec_tick(s1, b0)).1 is Ok && ticks_to(
                spec_tick(s1, b0).0,
                s2,
                (k - 1) as nat,
            );
        lemma_ticks_to_extend(spec_tick(s1, b0).0, s2, (k - 1) as nat, b);
        assert((#[trigger] spec_tick(s1, b0)).1 is Ok && ticks_to(
            spec_tick(s1, b0).0,
            spec_tick(s2, b).0,
            k,
        ));
    }
}

impl Chip8 {
    /// Runs the frame's fixed batch of instruction cycles, collecting
    /// the diagnostic word of each unknown instruction met. Stops at the
    /// first fault, leaving the machine as the faulting cycle's contract
    /// says; otherwise the machine has advanced by exactly
    /// `CYCLES_PER_FRAME` cycles.
    pub fn run_frame_cycles(&mut self) -> (r: (Vec<u16>, Option<Fault>))
        requires
            old(self)@.wf(),
        ensures
            final(self)@.wf(),
            r.1 is None ==> ticks_to(old(self)@, final(self)@, CYCLES_PER_FRAME as nat),
            r.1 matches Some(f) ==> exists|m: MachineView, k: nat, b: u8|
                k < (CYCLES_PER_FRAME as nat) && #[trigger] ticks_to(old(self)@, m, k) && (#[trigger] spec_tick(
                    m,
                    b,
                )) == (final(self)@, Err::<Option<u16>, Fault>(f)),
            r.0@.len() <= CYCLES_PER_FRAME,
    {
        let mut diags: Vec<u16> = Vec::new();
        let mut c: u32 = 0;
        while c < CYCLES_PER_FRAME
            invariant
                self@.wf(),
                c <= CYCLES_PER_FRAME,
                diags@.len() <= c,
                ticks_to(old(self)@, self@, c as nat),
            decreases CYCLES_PER_FRAME - c,
        {
            let ghost pre = self@;
            let tr = self.tick();
            proof {
                let b = choose|b: u8| (self@, tr) == spec_tick(pre, b);
                if tr is Err {
                    assert((c as nat) < (CYCLES_PER_FRAME as nat) && ticks_to(
                        old(self)@,
                        pre,
                        c as nat,
                    ) && spec_tick(pre, b) == (self@, tr));
                } else {
                    lemma_ticks_to_extend(old(self)@, pre, c as nat, b);
                }
            }
            match tr {
                Ok(None) => {},
                Ok(Some(w)) => {
                    diags.push(w);
                },
                Err(f) => {
                    return (diags, Some(f));
                },
            }
            c = c + 1;
        }
        (diags, None)
    }
}

} // verus!
