use vstd::prelude::*;

verus! {

/// Smallest instant a scheduled task may carry: 0000-01-01T00:00:00Z, in unix seconds.
pub const MIN_INSTANT: i64 = -62167219200;

/// Largest instant a scheduled task may carry: 9999-12-31T23:59:59Z, in unix seconds.
pub const MAX_INSTANT: i64 = 253402300799;

pub open spec fn instant_in_range(t: int) -> bool {
    MIN_INSTANT <= t <= MAX_INSTANT
}

/// A wall-clock time of day.
#[derive(Debug, Clone, Copy, PartialEq, Eq, Structural)]
pub struct TimeOfDay {
    pub hour: u32,
    pub minute: u32,
    pub second: u32,
}

impl TimeOfDay {
    pub open spec fn wf(&self) -> bool {
        self.hour < 24 && self.minute < 60 && self.second < 60
    }

    /// Seconds elapsed since midnight.
    pub open spec fn seconds(&self) -> int {
        self.hour * 3600 + self.minute * 60 + self.second
    }

    /// The same time with its seconds dropped, as the stored `HH:MM` form keeps it.
    pub open spec fn to_minute(&self) -> TimeOfDay {
        TimeOfDay { hour: self.hour, minute: self.minute, second: 0 }
    }

    pub fn new(hour: u32, minute: u32, second: u32) -> (r: Option<TimeOfDay>)
        ensures
            r is Some <==> (hour < 24 && minute < 60 && second < 60),
            r matches Some(t) ==> t.wf() && t.hour == hour && t.minute == minute && t.second
                == second,
    {
        if hour < 24 && minute < 60 && second < 60 {
            Some(TimeOfDay { hour, minute, second })
        } else {
            None
        }
    }

    pub fn seconds_from_midnight(&self) -> (r: u32)
        requires
            self.wf(),
        ensures
            r as int == self.seconds(),
            r < 86400,
    {
        self.hour * 3600 + self.minute * 60 + self.second
    }
}

/// A user's intent to play a stored audio file: now, once at an instant, or
/// daily at a list of wall-clock times.
#[allow(inconsistent_fields)]
#[derive(Debug, Clone, PartialEq, Eq)]
pub enum Task {
    Now { name: String, priority: bool, file_name: String },
    /// `time` is an instant in unix seconds.
    Scheduled { name: String, file_name: String, priority: bool, time: i64 },
    Recurring { name: String, file_name: String, priority: bool, time: Vec<TimeOfDay> },
}

/// The three kinds of task.
#[derive(Debug, Clone, Copy, PartialEq, Eq, Structural)]
pub enum TaskKind {
    Now,
    Scheduled,
    Recurring,
}

pub open spec fn all_times_wf(ts: Seq<TimeOfDay>) -> bool {
    forall|i: int| 0 <= i < ts.len() ==> (#[trigger] ts[i]).wf()
}

impl Task {
    /// A scheduled instant lies in the supported range; a recurring task has
    /// at least one time, each of them a valid time of day.
    pub open spec fn wf(&self) -> bool {
        match self {
            Task::Now { .. } => true,
            Task::Scheduled { time, .. } => instant_in_range(*time as int),
            Task::Recurring { time, .. } => time@.len() > 0 && all_times_wf(time@),
        }
    }

    pub open spec fn kind(&self) -> TaskKind {
        match self {
            Task::Now { .. } => TaskKind::Now,
            Task::Scheduled { .. } => TaskKind::Scheduled,
            Task::Recurring { .. } => TaskKind::Recurring,
        }
    }

    pub open spec fn name_view(&self) -> Seq<char> {
        match self {
            Task::Now { name, .. } => name@,
            Task::Scheduled { name, .. } => name@,
            Task::Recurring { name, .. } => name@,
        }
    }

    pub open spec fn file_name_view(&self) -> Seq<char> {
        match self {
            Task::Now { file_name, .. } => file_name@,
            Task::Scheduled { file_name, .. } => file_name@,
            Task::Recurring { file_name, .. } => file_name@,
        }
    }

    pub open spec fn priority_view(&self) -> bool {
        match self {
            Task::Now { priority, .. } => *priority,
            Task::Scheduled { priority, .. } => *priority,
            Task::Recurring { priority, .. } => *priority,
        }
    }

    /// Whether the task satisfies `wf`; callers outside the library test this
    /// before storing a task that did not come from the form.
    pub fn is_valid(&self) -> (r: bool)
        ensures
            r == self.wf(),
    {
        match self {
            Task::Now { .. } => true,
            Task::Scheduled { time, .. } => MIN_INSTANT <= *time && *time <= MAX_INSTANT,
            Task::Recurring { time, .. } => {
                if time.len() == 0 {
                    return false;
                }
                let mut k: usize = 0;
                while k < time.len()
                    invariant
                        k <= time@.len(),
                        self.wf() <==> (time@.len() > 0 && all_times_wf(time@)),
                        forall|i: int| 0 <= i < k ==> (#[trigger] time@[i]).wf(),
                    decreases time@.len() - k,
                {
                    let t = time[k];
                    if !(t.hour < 24 && t.minute < 60 && t.second < 60) {
                        assert(!time@[k as int].wf());
                        assert(!all_times_wf(time@));
                        return false;
                    }
                    k = k + 1;
                }
                true
            },
        }
    }

    pub fn is_now(&self) -> (r: bool)
        ensures
            r <==> self.kind() == TaskKind::Now,
    {
        match self {
            Task::Now { .. } => true,
            Task::Scheduled { .. } => false,
            Task::Recurring { .. } => false,
        }
    }

    pub fn kind_of(&self) -> (r: TaskKind)
        ensures
            r == self.kind(),
    {
        match self {
            Task::Now { .. } => TaskKind::Now,
            Task::Scheduled { .. } => TaskKind::Scheduled,
            Task::Recurring { .. } => TaskKind::Recurring,
        }
    }

    /// The kind's name as it is stored and shown: `now`, `scheduled` or `recurring`.
    pub fn get_type(&self) -> (r: &'static str)
        ensures
            r@ == kind_text(self.kind()),
    {
        kind_str(self.kind_of())
    }

    pub fn get_name(&self) -> (r: &String)
        ensures
            r@ == self.name_view(),
    {
        match self {
            Task::Now { name, .. } => name,
            Task::Scheduled { name, .. } => name,
            Task::Recurring { name, .. } => name,
        }
    }

    pub fn get_priority(&self) -> (r: bool)
        ensures
            r == self.priority_view(),
    {
        match self {
            Task::Now { priority, .. } => *priority,
            Task::Scheduled { priority, .. } => *priority,
            Task::Recurring { priority, .. } => *priority,
        }
    }

    pub fn get_file_name(&self) -> (r: &String)
        ensures
            r@ == self.file_name_view(),
    {
        match self {
            Task::Now { file_name, .. } => file_name,
            Task::Scheduled { file_name, .. } => file_name,
            Task::Recurring { file_name, .. } => file_name,
        }
    }
}

pub open spec fn kind_text(k: TaskKind) -> Seq<char> {
    match k {
        TaskKind::Now => "now"@,
        TaskKind::Scheduled => "scheduled"@,
        TaskKind::Recurring => "recurring"@,
    }
}

/// The three kind names differ.
pub proof fn lemma_kind_texts_distinct()
    ensures
        "now"@ != "scheduled"@,
        "now"@ != "recurring"@,
        "scheduled"@ != "recurring"@,
{
    reveal_strlit("now");
    reveal_strlit("scheduled");
    reveal_strlit("recurring");
    assert("now"@.len() != "scheduled"@.len());
    assert("now"@.len() != "recurring"@.len());
    assert("scheduled"@[0] != "recurring"@[0]);
}

pub fn kind_str(k: TaskKind) -> (r: &'static str)
    ensures
        r@ == kind_text(k),
{
    match k {
        TaskKind::Now => "now",
        TaskKind::Scheduled => "scheduled",
        TaskKind::Recurring => "recurring",
    }
}

/// A stored audio clip.
#[derive(Debug, Clone)]
pub struct File {
    pub name: String,
    pub data: Vec<u8>,
}

/// What the sink is playing: the name of the current track.
#[derive(Debug, Clone, PartialEq, Eq)]
pub struct NowPlaying {
    pub name: String,
}

} // verus!
