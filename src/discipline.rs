use vstd::prelude::*;
use vstd::string::*;

use crate::process::{remaining, waited_by, Process};

verus! {

/// The rule by which a ready queue orders its processes.
#[derive(Clone, Copy, Debug, PartialEq, Eq, Structural)]
pub enum QueueDiscipline {
    /// First in, first out: insertion order.
    FIFO,
    /// Shortest process next: ascending service demand.
    SPN,
    /// First come, first served: insertion order.
    FCFS,
    /// Shortest job first: ascending service demand.
    SJF,
    /// Highest response ratio next: descending (waiting + demand) / demand.
    HRRN,
    /// Round robin: insertion order, one quantum per dispatch.
    RR,
    /// Shortest remaining time first, one quantum per dispatch.
    SRF,
}

/// The scheduler a simulation runs: a single discipline or one of the multi-level queues.
#[derive(Clone, Copy, Debug, PartialEq, Eq, Structural)]
pub enum Queues {
    FIFO,
    SPN,
    FCFS,
    SJF,
    HRRN,
    RR,
    SRF,
    MLQ,
    MLFQ,
}

/// Whether `a`'s response ratio `(w + d) / d` at `now` is strictly higher than `b`'s, where
/// `w` is the time spent ready by `now` and `d` the demand. A process without service demand
/// has an unbounded ratio.
pub open spec fn higher_response_ratio(a: Process, b: Process, now: u64) -> bool {
    if a.cpu_burst_time == 0 {
        b.cpu_burst_time != 0
    } else if b.cpu_burst_time == 0 {
        false
    } else {
        waited_by(a, now) * b.cpu_burst_time > waited_by(b, now) * a.cpu_burst_time
    }
}

/// Whether discipline `d`, selecting at `now`, strictly prefers `a` to `b`. Processes that
/// neither precedes keep their relative order.
pub open spec fn ranks_before(d: QueueDiscipline, now: u64, a: Process, b: Process) -> bool {
    match d {
        QueueDiscipline::SPN | QueueDiscipline::SJF => a.cpu_burst_time < b.cpu_burst_time,
        QueueDiscipline::HRRN => higher_response_ratio(a, b, now),
        QueueDiscipline::SRF => remaining(a) < remaining(b),
        _ => false,
    }
}

/// Whether a dispatch under `d` is bounded by the time quantum.
pub open spec fn preemptive(d: QueueDiscipline) -> bool {
    d == QueueDiscipline::RR || d == QueueDiscipline::SRF
}

/// `ranks_before` is a strict weak order: asymmetric, and whatever `x` precedes it also
/// precedes everything that does not precede that.
pub proof fn lemma_ranks_before_order(
    d: QueueDiscipline,
    now: u64,
    x: Process,
    a: Process,
    b: Process,
)
    requires
        x.wf(),
        a.wf(),
        b.wf(),
    ensures
        ranks_before(d, now, x, a) ==> !ranks_before(d, now, a, x),
        ranks_before(d, now, x, a) && !ranks_before(d, now, b, a) ==> ranks_before(d, now, x, b),
{
    if d == QueueDiscipline::HRRN {
        if x.cpu_burst_time != 0 && a.cpu_burst_time != 0 && b.cpu_burst_time != 0 {
            let (xw, xb, aw, ab, bw, bb) = (
                waited_by(x, now),
                x.cpu_burst_time as int,
                waited_by(a, now),
                a.cpu_burst_time as int,
                waited_by(b, now),
                b.cpu_burst_time as int,
            );
            assert(xw * ab > aw * xb && bw * ab <= aw * bb ==> xw * bb > bw * xb) by (nonlinear_arith)
                requires
                    xb > 0,
                    ab > 0,
                    bb > 0,
                    xw >= 0,
                    bw >= 0,
                    aw >= 0,
            {
                if xw * ab > aw * xb && bw * ab <= aw * bb {
                    assert(xw * ab * bb > aw * xb * bb);
                    assert(bw * ab * xb <= aw * bb * xb);
                    assert(xw * bb * ab > bw * xb * ab);
                }
            }
        }
    }
}

/// Compares two processes under discipline `d`.
pub fn ranks_before_exec(d: QueueDiscipline, now: u64, a: &Process, b: &Process) -> (r: bool)
    requires
        a.wf(),
        b.wf(),
    ensures
        r == ranks_before(d, now, *a, *b),
{
    match d {
        QueueDiscipline::SPN | QueueDiscipline::SJF => a.cpu_burst_time < b.cpu_burst_time,
        QueueDiscipline::HRRN => {
            if a.cpu_burst_time == 0 {
                b.cpu_burst_time != 0
            } else if b.cpu_burst_time == 0 {
                false
            } else {
                let (aw, ab, bw, bb) = (
                    a.waited(now) as u128,
                    a.cpu_burst_time as u128,
                    b.waited(now) as u128,
                    b.cpu_burst_time as u128,
                );
                assert(aw * bb <= u64::MAX * u64::MAX) by (nonlinear_arith)
                    requires
                        aw <= u64::MAX,
                        bb <= u64::MAX,
                ;
                assert(bw * ab <= u64::MAX * u64::MAX) by (nonlinear_arith)
                    requires
                        bw <= u64::MAX,
                        ab <= u64::MAX,
                ;
                aw * bb > bw * ab
            }
        },
        QueueDiscipline::SRF => a.cpu_burst_time - a.processed_time < b.cpu_burst_time
            - b.processed_time,
        _ => false,
    }
}

/// Whether characters `s` equal the literal `lit`.
pub(crate) fn str_equals(s: &str, lit: &str) -> (r: bool)
    ensures
        r == (s@ == lit@),
{
    let n = s.unicode_len();
    if n != lit.unicode_len() {
        return false;
    }
    let mut i: usize = 0;
    while i < n
        invariant
            n == s@.len(),
            n == lit@.len(),
            i <= n,
            forall|k: int| 0 <= k < i ==> s@[k] == lit@[k],
        decreases n - i,
    {
        if s.get_char(i) != lit.get_char(i) {
            return false;
        }
        i = i + 1;
    }
    assert(s@ =~= lit@);
    true
}

/// Whether `c` has the Unicode `White_Space` property.
pub open spec fn is_white_space(c: char) -> bool {
    let n = c as u32;
    ||| 0x09 <= n <= 0x0D
    ||| n == 0x20
    ||| n == 0x85
    ||| n == 0xA0
    ||| n == 0x1680
    ||| 0x2000 <= n <= 0x200A
    ||| n == 0x2028
    ||| n == 0x2029
    ||| n == 0x202F
    ||| n == 0x205F
    ||| n == 0x3000
}

/// `s` without its leading white space.
pub open spec fn trim_start_of(s: Seq<char>) -> Seq<char>
    decreases s.len(),
{
    if s.len() > 0 && is_white_space(s[0]) {
        trim_start_of(s.drop_first())
    } else {
        s
    }
}

/// `s` without its trailing white space.
pub open spec fn trim_end_of(s: Seq<char>) -> Seq<char>
    decreases s.len(),
{
    if s.len() > 0 && is_white_space(s.last()) {
        trim_end_of(s.drop_last())
    } else {
        s
    }
}

/// `s` without leading and trailing white space.
pub open spec fn trimmed(s: Seq<char>) -> Seq<char> {
    trim_end_of(trim_start_of(s))
}

/// Relies on `str::trim`: the string without leading and trailing characters that have the
/// Unicode `White_Space` property.
#[verifier::external_body]
pub(crate) fn trim_str(s: &str) -> (r: &str)
    ensures
        r@ == trimmed(s@),
{
    s.trim()
}

/// The discipline a level of a multi-level queue uses, as named by `t`.
pub open spec fn level_discipline_of(t: Seq<char>) -> QueueDiscipline {
    if t == "SJF"@ {
        QueueDiscipline::SJF
    } else if t == "SRTF"@ {
        QueueDiscipline::SRF
    } else if t == "FCFS"@ {
        QueueDiscipline::FCFS
    } else if t == "SPN"@ {
        QueueDiscipline::SPN
    } else if t == "HRRN"@ {
        QueueDiscipline::HRRN
    } else {
        QueueDiscipline::RR
    }
}

/// The scheduler named by `t`, if the name is known.
pub open spec fn queues_of(t: Seq<char>) -> Option<Queues> {
    if t == "FCFS"@ {
        Some(Queues::FCFS)
    } else if t == "FIFO"@ {
        Some(Queues::FIFO)
    } else if t == "SPN"@ {
        Some(Queues::SPN)
    } else if t == "SJF"@ {
        Some(Queues::SJF)
    } else if t == "HRRN"@ {
        Some(Queues::HRRN)
    } else if t == "RR"@ {
        Some(Queues::RR)
    } else if t == "SRTF"@ {
        Some(Queues::SRF)
    } else if t == "MLQ"@ {
        Some(Queues::MLQ)
    } else if t == "MLFQ"@ {
        Some(Queues::MLFQ)
    } else {
        None
    }
}

impl QueueDiscipline {
    /// Reads an already trimmed level name; an unknown one means round robin.
    pub fn from_level_name(t: &str) -> (d: QueueDiscipline)
        ensures
            d == level_discipline_of(t@),
    {
        if str_equals(t, "SJF") {
            QueueDiscipline::SJF
        } else if str_equals(t, "SRTF") {
            QueueDiscipline::SRF
        } else if str_equals(t, "FCFS") {
            QueueDiscipline::FCFS
        } else if str_equals(t, "SPN") {
            QueueDiscipline::SPN
        } else if str_equals(t, "HRRN") {
            QueueDiscipline::HRRN
        } else {
            QueueDiscipline::RR
        }
    }

    /// Reads a level name, ignoring surrounding white space.
    pub fn parse_level(s: &str) -> (d: QueueDiscipline)
        ensures
            d == level_discipline_of(trimmed(s@)),
    {
        QueueDiscipline::from_level_name(trim_str(s))
    }

    /// Whether a dispatch under this discipline is bounded by the time quantum.
    pub fn is_preemptive(&self) -> (r: bool)
        ensures
            r == preemptive(*self),
    {
        match self {
            QueueDiscipline::RR | QueueDiscipline::SRF => true,
            _ => false,
        }
    }
}

impl Queues {
    /// The scheduler named by `t`, or `None` for an unknown name.
    pub fn from_name(t: &str) -> (q: Option<Queues>)
        ensures
            q == queues_of(t@),
    {
        if str_equals(t, "FCFS") {
            Some(Queues::FCFS)
        } else if str_equals(t, "FIFO") {
            Some(Queues::FIFO)
        } else if str_equals(t, "SPN") {
            Some(Queues::SPN)
        } else if str_equals(t, "SJF") {
            Some(Queues::SJF)
        } else if str_equals(t, "HRRN") {
            Some(Queues::HRRN)
        } else if str_equals(t, "RR") {
            Some(Queues::RR)
        } else if str_equals(t, "SRTF") {
            Some(Queues::SRF)
        } else if str_equals(t, "MLQ") {
            Some(Queues::MLQ)
        } else if str_equals(t, "MLFQ") {
            Some(Queues::MLFQ)
        } else {
            None
        }
    }

    /// The scheduler named by `t`; an unknown name falls back to FIFO, and the flag says
    /// whether the name was recognised.
    pub fn from_name_or_fifo(t: &str) -> (r: (Queues, bool))
        ensures
            r.1 == (queues_of(t@) is Some),
            r.0 == (match queues_of(t@) {
                Some(q) => q,
                None => Queues::FIFO,
            }),
    {
        match Queues::from_name(t) {
            Some(q) => (q, true),
            None => (Queues::FIFO, false),
        }
    }

    /// The scheduler at position `i` of the menu
    /// FIFO, SPN, FCFS, SJF, HRRN, RR, SRF, MLQ, MLFQ; FIFO past its end.
    pub fn from_index(i: usize) -> (q: Queues)
        ensures
            q == (if i == 1 {
                Queues::SPN
            } else if i == 2 {
                Queues::FCFS
            } else if i == 3 {
                Queues::SJF
            } else if i == 4 {
                Queues::HRRN
            } else if i == 5 {
                Queues::RR
            } else if i == 6 {
                Queues::SRF
            } else if i == 7 {
                Queues::MLQ
            } else if i == 8 {
                Queues::MLFQ
            } else {
                Queues::FIFO
            }),
    {
        if i == 1 {
            Queues::SPN
        } else if i == 2 {
            Queues::FCFS
        } else if i == 3 {
            Queues::SJF
        } else if i == 4 {
            Queues::HRRN
        } else if i == 5 {
            Queues::RR
        } else if i == 6 {
            Queues::SRF
        } else if i == 7 {
            Queues::MLQ
        } else if i == 8 {
            Queues::MLFQ
        } else {
            Queues::FIFO
        }
    }

    /// The scheduler's display name.
    pub fn name(&self) -> (s: &'static str)
        ensures
            s@ == (match self {
                Queues::FIFO => "FIFO"@,
                Queues::SPN => "SPN"@,
                Queues::FCFS => "FCFS"@,
                Queues::SJF => "SJF"@,
                Queues::HRRN => "HRRN"@,
                Queues::RR => "RR"@,
                Queues::SRF => "SRF"@,
                Queues::MLQ => "MLQ"@,
                Queues::MLFQ => "MLFQ"@,
            }),
    {
        match self {
            Queues::FIFO => "FIFO",
            Queues::SPN => "SPN",
            Queues::FCFS => "FCFS",
            Queues::SJF => "SJF",
            Queues::HRRN => "HRRN",
            Queues::RR => "RR",
            Queues::SRF => "SRF",
            Queues::MLQ => "MLQ",
            Queues::MLFQ => "MLFQ",
        }
    }
}

} // verus!
