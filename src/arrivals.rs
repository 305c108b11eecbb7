use vstd::prelude::*;

verus! {

/// Every offset of `s` is positive and later than the one before it.
pub open spec fn strictly_ascending(s: Seq<u64>) -> bool {
    &&& forall|i: int, j: int| 0 <= i < j < s.len() ==> s[i] < s[j]
    &&& forall|i: int| 0 <= i < s.len() ==> s[i] > 0
}

/// The running total that the next accepted sample extends.
pub open spec fn last_offset(s: Seq<u64>) -> int {
    if s.len() == 0 {
        0
    } else {
        s.last() as int
    }
}

/// Arrival offsets built as running sums of positive inter-arrival samples, so that they
/// realise a Poisson arrival process when the samples are exponential.
pub struct ArrivalSchedule {
    offsets: Vec<u64>,
    size: usize,
}

pub struct ArrivalScheduleView {
    pub offsets: Seq<u64>,
    pub size: nat,
}

impl View for ArrivalSchedule {
    type V = ArrivalScheduleView;

    closed spec fn view(&self) -> ArrivalScheduleView {
        ArrivalScheduleView { offsets: self.offsets@, size: self.size as nat }
    }
}

impl ArrivalScheduleView {
    pub open spec fn wf(self) -> bool {
        &&& self.offsets.len() <= self.size
        &&& strictly_ascending(self.offsets)
    }

    /// Whether `sample` is taken: it must be positive, the schedule not yet full, and the
    /// new total within the clock's range. A refused sample is drawn again.
    pub open spec fn accepts(self, sample: u64) -> bool {
        &&& sample > 0
        &&& self.offsets.len() < self.size
        &&& last_offset(self.offsets) + sample <= u64::MAX
    }
}

impl ArrivalSchedule {
    /// An empty schedule that will hold `size` arrivals.
    pub fn new(size: usize) -> (s: ArrivalSchedule)
        ensures
            s@.offsets == Seq::<u64>::empty(),
            s@.size == size,
            s@.wf(),
    {
        ArrivalSchedule { offsets: Vec::new(), size }
    }

    /// Offers one inter-arrival sample; an accepted one adds the next arrival, at the
    /// running total plus the sample.
    pub fn offer(&mut self, sample: u64) -> (accepted: bool)
        requires
            old(self)@.wf(),
        ensures
            final(self)@.wf(),
            accepted == old(self)@.accepts(sample),
            accepted ==> final(self)@ == (ArrivalScheduleView {
                offsets: old(self)@.offsets.push((last_offset(old(self)@.offsets) + sample) as u64),
                ..old(self)@
            }),
            !accepted ==> final(self)@ == old(self)@,
    {
        if sample == 0 || self.offsets.len() >= self.size {
            return false;
        }
        let last: u64 = if self.offsets.len() == 0 {
            0
        } else {
            self.offsets[self.offsets.len() - 1]
        };
        if last > u64::MAX - sample {
            return false;
        }
        self.offsets.push(last + sample);
        true
    }

    pub fn is_complete(&self) -> (r: bool)
        requires
            self@.wf(),
        ensures
            r == (self@.offsets.len() == self@.size),
    {
        self.offsets.len() == self.size
    }

    /// The arrival offsets gathered so far.
    pub fn offsets(&self) -> (r: &Vec<u64>)
        ensures
            r@ == self@.offsets,
    {
        &self.offsets
    }
}

/// A complete schedule holds exactly the requested number of arrivals, strictly ascending
/// and all after the start.
pub proof fn lemma_complete_schedule(s: ArrivalScheduleView)
    requires
        s.wf(),
        s.offsets.len() == s.size,
    ensures
        s.offsets.len() == s.size,
        forall|i: int, j: int| 0 <= i < j < s.offsets.len() ==> s.offsets[i] < s.offsets[j],
        forall|i: int| 0 <= i < s.offsets.len() ==> s.offsets[i] > 0,
{
}

} // verus!
