//! A profiler: named frames, each with the time that it took and the frame
//! that it was entered from. The times are handed in, in nanoseconds.
use vstd::prelude::*;

verus! {

/// The handle of a frame: its position among the frames of a profiler.
pub type Handle = usize;

/// The handle of the first frame.
pub const ROOT: Handle = 0usize;

/// The time between the entry into a frame and the exit from it.
#[derive(Debug, Clone, Copy, PartialEq, Eq, Structural)]
pub struct TimeFrame {
    enter: i64,
    exit: i64,
}

impl TimeFrame {
    /// The time of the entry.
    pub closed spec fn entered(&self) -> i64 {
        self.enter
    }

    /// The time of the exit.
    pub closed spec fn exited(&self) -> i64 {
        self.exit
    }

    /// The nanoseconds between the entry and the exit; the largest or the
    /// smallest number where the difference does not fit.
    pub fn nanoseconds(&self) -> (n: i64)
        ensures
            n == clamp(self.exited() - self.entered()),
    {
        match self.exit.checked_sub(self.enter) {
            Some(n) => n,
            None => if self.exit >= self.enter {
                i64::MAX
            } else {
                i64::MIN
            },
        }
    }
}

/// A number, or the nearest that fits in 64 bits.
pub open spec fn clamp(n: int) -> int {
    if n > i64::MAX {
        i64::MAX as int
    } else if n < i64::MIN {
        i64::MIN as int
    } else {
        n
    }
}

/// A timer: the time of an entry that has not been left yet.
#[derive(Debug, Clone, Copy, PartialEq, Eq, Structural)]
pub struct Timer(Option<i64>);

impl Timer {
    /// The time of the entry, while the timer runs.
    pub closed spec fn running(&self) -> Option<i64> {
        self.0
    }

    /// A timer that does not run.
    pub fn new() -> (t: Self)
        ensures
            t.running() is None,
    {
        Timer(None)
    }

    /// Stops the timer.
    pub fn reset(&mut self)
        ensures
            final(self).running() is None,
    {
        self.0 = None
    }

    /// Starts the timer at a time.
    pub fn set(&mut self, enter: i64) -> (t: i64)
        ensures
            t == enter,
            final(self).running() == Some(enter),
    {
        self.0 = Some(enter);
        enter
    }

    /// Starts a timer that does not run.
    pub fn enter(&mut self, now: i64) -> (t: i64)
        requires
            old(self).running() is None,
        ensures
            t == now,
            final(self).running() == Some(now),
    {
        self.set(now)
    }

    /// Stops a timer that runs, and gives the time that it ran.
    pub fn exit(&mut self, now: i64) -> (frame: TimeFrame)
        requires
            old(self).running() is Some,
        ensures
            final(self).running() is None,
            frame.entered() == old(self).running()->Some_0,
            frame.exited() == now,
    {
        let enter = match self.0 {
            Some(enter) => enter,
            None => now,
        };
        self.reset();
        TimeFrame { enter, exit: now }
    }
}

/// A frame of a profiler.
#[derive(Debug, Clone, Copy)]
pub struct Frame {
    name: &'static str,
    index: Handle,
    parent: Handle,
    timer: Timer,
    frame: Option<TimeFrame>,
}

impl Frame {
    /// The handle of the frame.
    pub closed spec fn handle(&self) -> Handle {
        self.index
    }

    /// The handle of the frame that this one was entered from.
    pub closed spec fn from(&self) -> Handle {
        self.parent
    }

    /// The name of the frame.
    pub closed spec fn label(&self) -> Seq<char> {
        self.name@
    }

    /// The time of the entry, while the frame is entered and not left.
    pub closed spec fn running(&self) -> Option<i64> {
        self.timer.running()
    }

    /// The time that the frame took, once it was left.
    pub closed spec fn taken(&self) -> Option<TimeFrame> {
        self.frame
    }

    /// A frame that has not been entered.
    pub fn new(index: Handle, parent: Handle, name: &'static str) -> (f: Self)
        ensures
            f.handle() == index,
            f.from() == parent,
            f.label() == name@,
            f.running() is None,
            f.taken() is None,
    {
        Frame { name, index, parent, timer: Timer::new(), frame: None }
    }

    /// The handle of the frame.
    pub fn index(&self) -> (h: Handle)
        ensures
            h == self.handle(),
    {
        self.index
    }

    /// The handle of the frame that this one was entered from.
    pub fn parent(&self) -> (h: Handle)
        ensures
            h == self.from(),
    {
        self.parent
    }

    /// The name of the frame.
    pub fn name(&self) -> (n: &str)
        ensures
            n@ == self.label(),
    {
        self.name
    }

    /// Enters a frame that is not entered.
    pub fn enter(&mut self, now: i64) -> (t: i64)
        requires
            old(self).running() is None,
        ensures
            t == now,
            final(self).running() == Some(now),
            final(self).handle() == old(self).handle(),
            final(self).from() == old(self).from(),
            final(self).label() == old(self).label(),
            final(self).taken() == old(self).taken(),
    {
        self.timer.enter(now)
    }

    /// Leaves a frame that is entered.
    pub fn exit(&mut self, now: i64)
        requires
            old(self).running() is Some,
        ensures
            final(self).running() is None,
            final(self).handle() == old(self).handle(),
            final(self).from() == old(self).from(),
            final(self).label() == old(self).label(),
            final(self).taken() is Some,
            final(self).taken()->Some_0.entered() == old(self).running()->Some_0,
            final(self).taken()->Some_0.exited() == now,
    {
        self.frame = Some(self.timer.exit(now));
    }

    /// The nanoseconds that a frame took that was left.
    pub fn time(&self) -> (n: i64)
        requires
            self.taken() is Some,
        ensures
            n == clamp(self.taken()->Some_0.exited() - self.taken()->Some_0.entered()),
    {
        match &self.frame {
            Some(frame) => frame.nanoseconds(),
            None => 0,
        }
    }
}

/// The nanoseconds that a frame took that was left.
pub open spec fn span(frame: Frame) -> i64 {
    clamp(frame.taken()->Some_0.exited() - frame.taken()->Some_0.entered()) as i64
}

/// Of the frames with handles from 1 to below `n`, those that were entered
/// from `parent`, with their times, in the order of their handles.
pub open spec fn entered_from(frames: Seq<Frame>, parent: Handle, n: int) -> Seq<(Handle, i64)>
    decreases n,
{
    if n <= 1 || n > frames.len() {
        Seq::<(Handle, i64)>::empty()
    } else if frames[n - 1].from() == parent {
        entered_from(frames, parent, n - 1).push(((n - 1) as usize, span(frames[n - 1])))
    } else {
        entered_from(frames, parent, n - 1)
    }
}

/// The sum of the times of a list of tallies, each sum clamped to 64 bits.
pub open spec fn tallied(tally: Seq<(Handle, i64)>) -> int
    decreases tally.len(),
{
    if tally.len() == 0 {
        0
    } else {
        clamp(tallied(tally.drop_last()) + tally.last().1)
    }
}

/// A frame with the times of the frames that were entered from it.
#[derive(Debug)]
pub struct AnalyzedFrame {
    index: Handle,
    parent: Handle,
    total: i64,
    tally: Vec<(Handle, i64)>,
}

impl AnalyzedFrame {
    /// The handle of the frame.
    pub closed spec fn handle(&self) -> Handle {
        self.index
    }

    /// The handle of the frame that this one was entered from.
    pub closed spec fn from(&self) -> Handle {
        self.parent
    }

    /// The nanoseconds that the frame took.
    pub closed spec fn whole(&self) -> i64 {
        self.total
    }

    /// The frames that were entered from this one, with their times.
    pub closed spec fn parts(&self) -> Seq<(Handle, i64)> {
        self.tally@
    }

    /// The analysis of a frame that was left, without the frames that were
    /// entered from it.
    pub fn from_frame(frame: &Frame) -> (a: Self)
        requires
            frame.taken() is Some,
        ensures
            a.handle() == frame.handle(),
            a.from() == frame.from(),
            a.whole() == clamp(
                frame.taken()->Some_0.exited() - frame.taken()->Some_0.entered(),
            ),
            a.parts().len() == 0,
    {
        AnalyzedFrame {
            parent: frame.parent,
            index: frame.index,
            total: frame.time(),
            tally: Vec::new(),
        }
    }

    /// The nanoseconds that the frame took.
    pub fn total(&self) -> (n: i64)
        ensures
            n == self.whole(),
    {
        self.total
    }

    /// The sum of the times of the frames that were entered from this one.
    pub fn tally_up(&self) -> (n: i64)
        ensures
            n == tallied(self.parts()),
    {
        let mut sum: i64 = 0;
        let mut i: usize = 0;
        assert(self.tally@.take(0) =~= Seq::<(Handle, i64)>::empty());
        while i < self.tally.len()
            invariant
                i <= self.tally@.len(),
                sum == tallied(self.tally@.take(i as int)),
            decreases self.tally@.len() - i,
        {
            let val = self.tally[i].1;
            proof {
                let next = self.tally@.take(i as int + 1);
                assert(next.drop_last() =~= self.tally@.take(i as int));
                assert(next.last() == self.tally@[i as int]);
            }
            sum = match sum.checked_add(val) {
                Some(s) => s,
                None => if val > 0 {
                    i64::MAX
                } else {
                    i64::MIN
                },
            };
            i += 1;
        }
        assert(self.tally@.take(i as int) =~= self.tally@);
        sum
    }

    /// The frames that were entered from this one, with their times.
    pub fn tally(&self) -> (t: &Vec<(Handle, i64)>)
        ensures
            t@ == self.parts(),
    {
        &self.tally
    }

    /// Adds a frame that was entered from this one, with its time.
    pub fn subtally(&mut self, handle: Handle, tally: i64)
        ensures
            final(self).handle() == old(self).handle(),
            final(self).from() == old(self).from(),
            final(self).whole() == old(self).whole(),
            final(self).parts() == old(self).parts().push((handle, tally)),
    {
        self.tally.push((handle, tally))
    }
}

/// The frames of a profiler: each enters from an earlier frame, or from
/// itself where it is the first.
#[derive(Debug)]
pub struct Profiler {
    frames: Vec<Frame>,
    top: Handle,
}

impl Profiler {
    /// The frames, in the order in which they were entered.
    pub closed spec fn frames(&self) -> Seq<Frame> {
        self.frames@
    }

    /// The frame that was entered last and not left.
    pub closed spec fn top(&self) -> Handle {
        self.top
    }

    /// Each frame has its position as its handle and was entered from a
    /// frame that is there; the top is a frame, or zero where there is none.
    pub closed spec fn wf(&self) -> bool {
        &&& forall|i: int|
            0 <= i < self.frames@.len() ==> (#[trigger] self.frames@[i]).handle() == i
                && self.frames@[i].from() <= i
        &&& if self.frames@.len() == 0 {
            self.top == 0
        } else {
            self.top < self.frames@.len()
        }
    }

    /// A profiler without frames.
    pub fn new() -> (p: Self)
        ensures
            p.wf(),
            p.frames().len() == 0,
            p.top() == 0,
    {
        Profiler { frames: Vec::new(), top: 0usize }
    }

    /// Enters a new frame from the top frame, and makes it the top.
    pub fn push(&mut self, name: &'static str, now: i64)
        requires
            old(self).wf(),
        ensures
            final(self).wf(),
            final(self).frames().len() == old(self).frames().len() + 1,
            final(self).frames().take(old(self).frames().len() as int) == old(self).frames(),
            final(self).top() == old(self).frames().len(),
            final(self).frames().last().label() == name@,
            final(self).frames().last().from() == old(self).top(),
            final(self).frames().last().running() == Some(now),
    {
        let index = self.frames.len();
        let mut frame = Frame::new(index, self.top, name);
        frame.enter(now);
        let ghost before = self.frames@;
        self.frames.push(frame);
        self.top = index;
        proof {
            assert(self.frames@.take(index as int) =~= before);
            assert forall|i: int| 0 <= i < self.frames@.len() implies (
            #[trigger] self.frames@[i]).handle() == i && self.frames@[i].from() <= i by {
                if i < index {
                    assert(self.frames@[i] == before[i]);
                }
            }
        }
    }

    /// Leaves the top frame, and makes the frame that it was entered from
    /// the top.
    pub fn pop(&mut self, now: i64) -> (frame: Frame)
        requires
            old(self).wf(),
            old(self).frames().len() > 0,
            old(self).frames()[old(self).top() as int].running() is Some,
        ensures
            final(self).wf(),
            final(self).frames().len() == old(self).frames().len(),
            final(self).top() == old(self).frames()[old(self).top() as int].from(),
            frame == final(self).frames()[old(self).top() as int],
            frame.running() is None,
            frame.taken() is Some,
            forall|i: int|
                0 <= i < old(self).frames().len() && i != old(self).top() ==> (
                #[trigger] final(self).frames()[i]) == old(self).frames()[i],
    {
        let at = self.top;
        let mut frame = self.frames[at];
        frame.exit(now);
        self.frames.set(at, frame);
        self.top = frame.parent();
        frame
    }

    /// The frame of a handle.
    pub fn lookup(&self, handle: Handle) -> (f: &Frame)
        requires
            handle < self.frames().len(),
        ensures
            *f == self.frames()[handle as int],
    {
        &self.frames[handle]
    }

    /// Whether every frame was left.
    pub open spec fn finished(&self) -> bool {
        forall|i: int| 0 <= i < self.frames().len() ==> (#[trigger] self.frames()[i]).taken() is Some
    }

    /// The frames, each with its time and without the frames that were
    /// entered from it.
    fn untallied_analysis(&self) -> (list: Vec<AnalyzedFrame>)
        requires
            self.finished(),
        ensures
            list@.len() == self.frames().len(),
            forall|i: int|
                0 <= i < list@.len() ==> (#[trigger] list@[i]).handle() == self.frames()[i].handle()
                    && list@[i].from() == self.frames()[i].from() && list@[i].whole() == span(
                    self.frames()[i],
                ) && list@[i].parts().len() == 0,
    {
        let mut list: Vec<AnalyzedFrame> = Vec::new();
        let mut i: usize = 0;
        while i < self.frames.len()
            invariant
                i <= self.frames@.len(),
                self.finished(),
                list@.len() == i,
                forall|k: int|
                    0 <= k < i ==> (#[trigger] list@[k]).handle() == self.frames@[k].handle()
                        && list@[k].from() == self.frames@[k].from() && list@[k].whole() == span(
                        self.frames@[k],
                    ) && list@[k].parts().len() == 0,
            decreases self.frames@.len() - i,
        {
            assert(self.frames()[i as int].taken() is Some);
            list.push(AnalyzedFrame::from_frame(&self.frames[i]));
            i += 1;
        }
        list
    }

    /// The analysis of the frames: each with its time, and with the frames
    /// that were entered from it and their times, in the order of their
    /// handles.
    pub fn analysis(&self) -> (a: Analysis)
        requires
            self.wf(),
            self.finished(),
        ensures
            a.frames() == self.frames(),
            a.analyzed().len() == self.frames().len(),
            forall|i: int|
                0 <= i < a.analyzed().len() ==> (#[trigger] a.analyzed()[i]).handle()
                    == self.frames()[i].handle() && a.analyzed()[i].from() == self.frames()[i].from()
                    && a.analyzed()[i].whole() == span(self.frames()[i]) && a.analyzed()[i].parts()
                    == entered_from(self.frames(), i as usize, self.frames().len() as int),
    {
        let mut analysis = self.untallied_analysis();
        let mut i: usize = 1;
        proof {
            assert forall|p: int| 0 <= p < analysis@.len() implies (#[trigger] analysis@[p]).parts()
                == entered_from(self.frames@, p as usize, 1) by {
                assert(analysis@[p].parts() =~= Seq::<(Handle, i64)>::empty());
            }
        }
        while i < analysis.len()
            invariant
                1 <= i,
                analysis@.len() >= 1 ==> i <= analysis@.len(),
                self.wf(),
                analysis@.len() == self.frames@.len(),
                forall|p: int|
                    0 <= p < analysis@.len() ==> (#[trigger] analysis@[p]).handle()
                        == self.frames@[p].handle() && analysis@[p].from() == self.frames@[p].from()
                        && analysis@[p].whole() == span(self.frames@[p]) && analysis@[p].parts()
                        == entered_from(self.frames@, p as usize, i as int),
            decreases analysis@.len() - i,
        {
            let parent = self.frames[i].parent();
            let total = analysis[i].total();
            assert(self.frames@[i as int].from() <= i);
            let ghost before = analysis@;
            let mut entry = AnalyzedFrame {
                index: analysis[parent].index,
                parent: analysis[parent].parent,
                total: analysis[parent].total,
                tally: Vec::new(),
            };
            let mut k: usize = 0;
            while k < analysis[parent].tally.len()
                invariant
                    parent < analysis@.len(),
                    k <= analysis@[parent as int].tally@.len(),
                    entry.tally@ == analysis@[parent as int].tally@.take(k as int),
                    entry.index == analysis@[parent as int].index,
                    entry.parent == analysis@[parent as int].parent,
                    entry.total == analysis@[parent as int].total,
                decreases analysis@[parent as int].tally@.len() - k,
            {
                entry.tally.push(analysis[parent].tally[k]);
                assert(entry.tally@ =~= analysis@[parent as int].tally@.take(k as int + 1));
                k += 1;
            }
            assert(analysis@[parent as int].tally@.take(k as int) =~= analysis@[parent as int].tally@);
            entry.subtally(i, total);
            analysis.set(parent, entry);
            proof {
                assert forall|p: int| 0 <= p < analysis@.len() implies (
                #[trigger] analysis@[p]).handle() == self.frames@[p].handle() && analysis@[p].from()
                    == self.frames@[p].from() && analysis@[p].whole() == span(self.frames@[p])
                    && analysis@[p].parts() == entered_from(self.frames@, p as usize, i + 1) by {
                    if p == parent {
                        assert(before[p].parts() == entered_from(self.frames@, p as usize, i as int));
                    } else {
                        assert(analysis@[p] == before[p]);
                    }
                }
            }
            i += 1;
        }
        let mut frames: Vec<Frame> = Vec::new();
        let mut j: usize = 0;
        while j < self.frames.len()
            invariant
                j <= self.frames@.len(),
                frames@ == self.frames@.take(j as int),
            decreases self.frames@.len() - j,
        {
            frames.push(self.frames[j]);
            assert(frames@ =~= self.frames@.take(j as int + 1));
            j += 1;
        }
        assert(self.frames@.take(j as int) =~= self.frames@);
        Analysis { frames, analysis }
    }
}

/// The frames of a profiler with their analysis.
#[derive(Debug)]
pub struct Analysis {
    frames: Vec<Frame>,
    analysis: Vec<AnalyzedFrame>,
}

impl Analysis {
    /// The frames.
    pub closed spec fn frames(&self) -> Seq<Frame> {
        self.frames@
    }

    /// The analyzed frames.
    pub closed spec fn analyzed(&self) -> Seq<AnalyzedFrame> {
        self.analysis@
    }

    /// A frame and its analysis.
    pub fn frame(&self, handle: Handle) -> (r: (&Frame, &AnalyzedFrame))
        requires
            handle < self.frames().len(),
            handle < self.analyzed().len(),
        ensures
            *r.0 == self.frames()[handle as int],
            *r.1 == self.analyzed()[handle as int],
    {
        (&self.frames[handle], &self.analysis[handle])
    }

    /// The nanoseconds that the first frame took.
    pub fn total(&self) -> (n: i64)
        requires
            self.analyzed().len() > 0,
        ensures
            n == self.analyzed()[0].whole(),
    {
        self.analysis[0].total()
    }
}

/// The quotient of a number and a positive number, rounded towards zero.
pub open spec fn quotient(a: int, b: int) -> int {
    if a >= 0 {
        a / b
    } else {
        -((-a) / b)
    }
}

/// What is left of a number after its quotient with a positive number; it
/// has the sign of the number.
pub open spec fn remainder(a: int, b: int) -> int {
    a - b * quotient(a, b)
}

/// The seconds, milliseconds, microseconds and nanoseconds of a number of
/// nanoseconds. The parts of a negative number are negative or zero.
pub fn nanoseconds_to_human_time(ns: i64) -> (t: (i64, i64, i64, i64))
    ensures
        t.0 == quotient(ns as int, 1_000_000_000),
        t.1 == quotient(remainder(ns as int, 1_000_000_000), 1_000_000),
        t.2 == quotient(remainder(ns as int, 1_000_000), 1_000),
        t.3 == remainder(ns as int, 1_000),
        ns == t.0 * 1_000_000_000 + t.1 * 1_000_000 + t.2 * 1_000 + t.3,
{
    let size: u64 = if ns >= 0 {
        ns as u64
    } else if ns == i64::MIN {
        9223372036854775808u64
    } else {
        (-ns) as u64
    };
    let ss = size / 1_000_000_000u64;
    let tt = size % 1_000_000_000u64;
    let ms = tt / 1_000_000u64;
    let tt = tt % 1_000_000u64;
    let us = tt / 1_000u64;
    let rest = tt % 1_000u64;
    assert(size == ss * 1_000_000_000 + ms * 1_000_000 + us * 1_000 + rest);
    assert(size % 1_000_000 == us * 1_000 + rest) by (nonlinear_arith)
        requires
            size == ss * 1_000_000_000 + ms * 1_000_000 + us * 1_000 + rest,
            us < 1_000,
            rest < 1_000,
    ;
    assert(size % 1_000 == rest) by (nonlinear_arith)
        requires
            size == ss * 1_000_000_000 + ms * 1_000_000 + us * 1_000 + rest,
            rest < 1_000,
    ;
    assert(size / 1_000_000 == ss * 1_000 + ms) by (nonlinear_arith)
        requires
            size == ss * 1_000_000_000 + ms * 1_000_000 + us * 1_000 + rest,
            us < 1_000,
            rest < 1_000,
    ;
    assert(size / 1_000 == ss * 1_000_000 + ms * 1_000 + us) by (nonlinear_arith)
        requires
            size == ss * 1_000_000_000 + ms * 1_000_000 + us * 1_000 + rest,
            rest < 1_000,
    ;
    if ns >= 0 {
        (ss as i64, ms as i64, us as i64, rest as i64)
    } else {
        (-(ss as i64), -(ms as i64), -(us as i64), -(rest as i64))
    }
}

} // verus!
