//! The stored form of tasks: one row per task, with the scheduled instant
//! written in RFC 3339 and the recurring times as `HH:MM` joined by `;`, and
//! the rules the store follows on its schema and its errors.

use vstd::prelude::*;
use crate::clock::{format_hm, format_rfc3339, hm_parse_of, hm_text, parse_hm, parse_rfc3339, rfc3339_parse_of, rfc3339_text};
use crate::task::{instant_in_range, lemma_kind_texts_distinct, all_times_wf, kind_text, Task, TimeOfDay};
use crate::text::chars_eq;

verus! {

/// The schema version that this library writes.
pub const DB_VERSION: u32 = 1;

/// One row of the task table.
#[derive(Debug, Clone, PartialEq, Eq)]
pub struct TaskRow {
    pub kind: String,
    pub name: String,
    pub priority: bool,
    pub file_name: String,
    pub time: Option<String>,
}

/// What a store operation can fail with.
#[derive(Debug, Clone, Copy, PartialEq, Eq, Structural)]
pub enum StoreError {
    /// An insert met a row with the same name.
    NameConflict,
    /// No row has the requested name.
    NotFound,
    /// The database failed, or holds a row that does not decode.
    Storage,
}

/// How the database engine reported a failure.
#[derive(Debug, Clone, Copy, PartialEq, Eq, Structural)]
pub enum DbFailure {
    /// A uniqueness constraint refused the statement.
    ConstraintViolation,
    /// A query for one row found none.
    NoRows,
    /// Anything else.
    Other,
}

/// The store's error for a failure of the engine.
pub fn db_err(f: DbFailure) -> (r: StoreError)
    ensures
        r == match f {
            DbFailure::ConstraintViolation => StoreError::NameConflict,
            DbFailure::NoRows => StoreError::NotFound,
            DbFailure::Other => StoreError::Storage,
        },
{
    match f {
        DbFailure::ConstraintViolation => StoreError::NameConflict,
        DbFailure::NoRows => StoreError::NotFound,
        DbFailure::Other => StoreError::Storage,
    }
}

/// A delete reports that the row existed when it removed exactly one.
pub fn existed(changed: usize) -> (r: bool)
    ensures
        r == (changed == 1),
{
    changed == 1
}

/// The migrations that bring a database at `version` to `DB_VERSION`, oldest
/// first: one for each version from `version` up to the latest, none for a
/// database that is already current or newer.
pub fn migrations_from(version: u32) -> (r: Vec<u32>)
    ensures
        r@.len() == if version < DB_VERSION { DB_VERSION - version } else { 0 },
        forall|i: int| 0 <= i < r@.len() ==> r@[i] == version + i,
{
    let mut out: Vec<u32> = Vec::new();
    let mut v = version;
    while v < DB_VERSION
        invariant
            version <= v <= if version < DB_VERSION { DB_VERSION } else { version },
            out@.len() == v - version,
            forall|i: int| 0 <= i < out@.len() ==> out@[i] == version + i,
        decreases DB_VERSION - v,
    {
        out.push(v);
        v = v + 1;
    }
    out
}

/// Recurring times written `HH:MM`, joined by `;`.
pub open spec fn times_text(ts: Seq<TimeOfDay>) -> Seq<char>
    decreases ts.len(),
{
    if ts.len() == 0 {
        Seq::empty()
    } else if ts.len() == 1 {
        hm_text(ts[0])
    } else {
        times_text(ts.drop_last()) + seq![';'] + hm_text(ts.last())
    }
}

/// The text stored in the `time` column for a task.
pub open spec fn time_text(t: Task) -> Option<Seq<char>> {
    match t {
        Task::Now { .. } => None,
        Task::Scheduled { time, .. } => Some(rfc3339_text(time)),
        Task::Recurring { time, .. } => Some(times_text(time@)),
    }
}

pub open spec fn opt_text(o: Option<String>) -> Option<Seq<char>> {
    match o {
        Some(s) => Some(s@),
        None => None,
    }
}

/// `row` is the stored form of `t`.
pub open spec fn row_of(t: Task, row: TaskRow) -> bool {
    &&& row.kind@ == kind_text(t.kind())
    &&& row.name@ == t.name_view()
    &&& row.priority == t.priority_view()
    &&& row.file_name@ == t.file_name_view()
    &&& opt_text(row.time) == time_text(t)
}

impl Task {
    /// The text stored in the `time` column: none for an immediate task, the
    /// instant in RFC 3339 for a scheduled one, the times for a recurring one.
    pub fn time_to_str(&self) -> (r: Option<String>)
        requires
            self.wf(),
        ensures
            opt_text(r) == time_text(*self),
    {
        match self {
            Task::Now { .. } => None,
            Task::Scheduled { time, .. } => Some(format_rfc3339(*time)),
            Task::Recurring { time, .. } => Some(join_times(time)),
        }
    }
}

fn join_times(ts: &Vec<TimeOfDay>) -> (r: String)
    requires
        all_times_wf(ts@),
    ensures
        r@ == times_text(ts@),
{
    let mut out = String::new();
    let mut k: usize = 0;
    while k < ts.len()
        invariant
            k <= ts@.len(),
            all_times_wf(ts@),
            out@ == times_text(ts@.subrange(0, k as int)),
        decreases ts@.len() - k,
    {
        let piece = format_hm(ts[k]);
        let ghost pre = ts@.subrange(0, k as int);
        let ghost next = ts@.subrange(0, k + 1);
        assert(next.drop_last() =~= pre);
        if k > 0 {
            out.append(";");
            proof {
                reveal_strlit(";");
            }
        }
        out.append(piece.as_str());
        assert(out@ =~= times_text(next));
        k = k + 1;
    }
    assert(ts@.subrange(0, k as int) =~= ts@);
    out
}

/// The row that stores `task`.
pub fn task_row(task: &Task) -> (r: TaskRow)
    requires
        task.wf(),
    ensures
        row_of(*task, r),
{
    TaskRow {
        kind: String::from_str(task.get_type()),
        name: task.get_name().clone(),
        priority: task.get_priority(),
        file_name: task.get_file_name().clone(),
        time: task.time_to_str(),
    }
}

/// The pieces of a text cut at each `;`.
pub open spec fn split_semis(s: Seq<char>) -> Seq<Seq<char>>
    decreases s.len(),
{
    if s.len() == 0 {
        seq![Seq::empty()]
    } else {
        let p = split_semis(s.drop_last());
        if s.last() == ';' {
            p.push(Seq::empty())
        } else {
            p.update(p.len() - 1, p.last().push(s.last()))
        }
    }
}

proof fn lemma_split_len(s: Seq<char>)
    ensures
        split_semis(s).len() >= 1,
    decreases s.len(),
{
    if s.len() > 0 {
        lemma_split_len(s.drop_last());
    }
}

/// Text without `;` is one piece; a `;` followed by such text adds one piece.
proof fn lemma_split_tail(a: Seq<char>, b: Seq<char>)
    requires
        !b.contains(';'),
    ensures
        split_semis(a + seq![';'] + b) == split_semis(a).push(b),
        split_semis(b) == seq![b],
    decreases b.len(),
{
    lemma_split_len(a);
    let s = a + seq![';'] + b;
    if b.len() == 0 {
        assert(s.drop_last() =~= a);
        assert(s.last() == ';');
        assert(b =~= Seq::<char>::empty());
        assert(split_semis(s) == split_semis(a).push(Seq::empty()));
        assert(split_semis(b) == seq![Seq::<char>::empty()]);
    } else {
        let b2 = b.drop_last();
        assert(!b2.contains(';')) by {
            if b2.contains(';') {
                let i = choose|i: int| 0 <= i < b2.len() && b2[i] == ';';
                assert(b[i] == ';');
            }
        }
        lemma_split_tail(a, b2);
        assert((a + seq![';'] + b).drop_last() =~= a + seq![';'] + b2);
        assert(b.last() != ';') by {
            assert(b[b.len() - 1] == b.last());
        }
        assert(b2.push(b.last()) =~= b);
        assert(b.drop_last() =~= b2);
        assert(s.last() == b.last());
        assert(s.drop_last() =~= a + seq![';'] + b2);
        lemma_split_len(a + seq![';'] + b2);
        assert(split_semis(a + seq![';'] + b) =~= split_semis(a).push(b));
        assert(split_semis(b) =~= seq![b]);
    }
}

proof fn lemma_hm_no_semi(t: TimeOfDay)
    requires
        t.wf(),
    ensures
        !hm_text(t).contains(';'),
        hm_text(t).len() == 5,
{
    let s = hm_text(t);
    assert(s.len() == 5);
    if s.contains(';') {
        let i = choose|i: int| 0 <= i < s.len() && s[i] == ';';
        assert(s[i] == ';');
    }
}

/// The times text of valid times cuts back into each time's `HH:MM`.
proof fn lemma_split_times(ts: Seq<TimeOfDay>)
    requires
        ts.len() > 0,
        all_times_wf(ts),
    ensures
        split_semis(times_text(ts)) == ts.map_values(|t: TimeOfDay| hm_text(t)),
    decreases ts.len(),
{
    lemma_hm_no_semi(ts.last());
    assert(ts.last() == ts[ts.len() - 1]);
    if ts.len() == 1 {
        lemma_split_tail(Seq::empty(), hm_text(ts[0]));
        assert(ts.map_values(|t: TimeOfDay| hm_text(t)) =~= seq![hm_text(ts[0])]);
    } else {
        let init = ts.drop_last();
        assert(all_times_wf(init)) by {
            assert forall|i: int| 0 <= i < init.len() implies (#[trigger] init[i]).wf() by {
                assert(init[i] == ts[i]);
            }
        }
        lemma_split_times(init);
        lemma_split_tail(times_text(init), hm_text(ts.last()));
        assert(ts.map_values(|t: TimeOfDay| hm_text(t)) =~= init.map_values(
            |t: TimeOfDay| hm_text(t),
        ).push(hm_text(ts.last())));
    }
}

/// The pieces that a prefix of a text has completed are pieces of the text.
proof fn lemma_split_prefix(s: Seq<char>, j: int)
    requires
        0 <= j <= s.len(),
    ensures
        split_semis(s.subrange(0, j)).len() <= split_semis(s).len(),
        forall|k: int|
            0 <= k < split_semis(s.subrange(0, j)).len() - 1 ==> #[trigger] split_semis(
                s.subrange(0, j),
            )[k] == split_semis(s)[k],
    decreases s.len() - j,
{
    if j < s.len() {
        lemma_split_prefix(s, j + 1);
        assert(s.subrange(0, j + 1).drop_last() =~= s.subrange(0, j));
        lemma_split_len(s.subrange(0, j));
        let p = split_semis(s.subrange(0, j));
        let q = split_semis(s.subrange(0, j + 1));
        assert forall|k: int| 0 <= k < p.len() - 1 implies #[trigger] p[k] == q[k] by {}
    } else {
        assert(s.subrange(0, j) =~= s);
    }
}

/// Every `;`-separated piece of the text parses as `HH:MM`.
pub open spec fn all_pieces_parse(s: Seq<char>) -> bool {
    forall|i: int| 0 <= i < split_semis(s).len() ==> (#[trigger] hm_parse_of(split_semis(s)[i])) is Some
}

/// Reads the stored recurring times: each `;`-separated piece is parsed as
/// `HH:MM`; `None` where a piece does not parse.
fn parse_times(s: &str) -> (r: Option<Vec<TimeOfDay>>)
    ensures
        r is Some <==> all_pieces_parse(s@),
        r matches Some(v) ==> forall|i: int|
            0 <= i < v@.len() ==> hm_parse_of(split_semis(s@)[i]) == Some(#[trigger] v@[i]),
        r matches Some(v) ==> v@.len() == split_semis(s@).len() && all_times_wf(v@) && forall|i: int|
            0 <= i < v@.len() ==> (#[trigger] v@[i]).second == 0,
        forall|ts: Seq<TimeOfDay>|
            ts.len() > 0 && all_times_wf(ts) && (forall|i: int|
                0 <= i < ts.len() ==> (#[trigger] ts[i]).second == 0) && s@ == #[trigger] times_text(
                ts,
            ) ==> (r matches Some(v) && v@ == ts),
{
    let n = s.unicode_len();
    let mut out: Vec<TimeOfDay> = Vec::new();
    let mut start: usize = 0;
    let mut i: usize = 0;
    let ghost mut done: Seq<Seq<char>> = Seq::empty();
    assert(s@.subrange(0, 0) =~= Seq::<char>::empty());
    proof {
        lemma_split_len(s@);
    }
    while i < n
        invariant
            start <= i <= n == s@.len(),
            split_semis(s@.subrange(0, i as int)) == done.push(s@.subrange(start as int, i as int)),
            out@.len() == done.len(),
            all_times_wf(out@),
            forall|k: int| 0 <= k < out@.len() ==> (#[trigger] out@[k]).second == 0,
            forall|k: int, t: TimeOfDay|
                0 <= k < out@.len() && t.wf() && t.second == 0 && #[trigger] done[k] == #[trigger] hm_text(t)
                    ==> out@[k] == t,
            forall|k: int| 0 <= k < done.len() ==> #[trigger] done[k] == split_semis(s@)[k],
            forall|k: int| 0 <= k < out@.len() ==> hm_parse_of(done[k]) == Some(#[trigger] out@[k]),
            done.len() < split_semis(s@).len(),
        decreases n - i,
    {
        let c = s.get_char(i);
        let ghost pre = s@.subrange(0, i as int);
        let ghost next = s@.subrange(0, i + 1);
        assert(next.drop_last() =~= pre);
        assert(next.last() == c);
        if c == ';' {
            let piece = s.substring_char(start, i);
            proof {
                lemma_split_prefix(s@, i + 1);
                assert(split_semis(next) == done.push(piece@).push(Seq::empty()));
                assert(split_semis(next)[done.len() as int] == piece@);
            }
            match parse_hm(piece) {
                Some(t) => {
                    out.push(t);
                    proof {
                        done = done.push(piece@);
                    }
                },
                None => {
                    proof {
                        assert(hm_parse_of(split_semis(s@)[done.len() as int]) is None);
                        assert forall|ts: Seq<TimeOfDay>|
                            ts.len() > 0 && all_times_wf(ts) && (forall|i: int|
                                0 <= i < ts.len() ==> (#[trigger] ts[i]).second == 0) && s@
                                == #[trigger] times_text(ts) implies false by {
                            lemma_split_times(ts);
                            let k = done.len() as int;
                            assert(split_semis(s@)[k] == hm_text(ts[k]));
                            assert(ts[k].wf());
                        }
                    }
                    return None;
                },
            }
            start = i + 1;
            assert(s@.subrange(start as int, i + 1) =~= Seq::<char>::empty());
        } else {
            proof {
                assert(s@.subrange(start as int, i + 1) =~= s@.subrange(start as int, i as int).push(c));
                assert(split_semis(next) =~= done.push(s@.subrange(start as int, i + 1)));
            }
        }
        i = i + 1;
    }
    assert(s@.subrange(0, n as int) =~= s@);
    let last = s.substring_char(start, n);
    match parse_hm(last) {
        Some(t) => {
            out.push(t);
            proof {
                let pieces = done.push(last@);
                assert(split_semis(s@) == pieces);
                assert forall|k: int| 0 <= k < out@.len() implies hm_parse_of(split_semis(s@)[k])
                    == Some(#[trigger] out@[k]) by {
                    if k < done.len() {
                        assert(pieces[k] == done[k]);
                    }
                }
                assert forall|k: int| 0 <= k < split_semis(s@).len() implies (#[trigger] hm_parse_of(
                    split_semis(s@)[k],
                )) is Some by {
                    if k < done.len() {
                        assert(pieces[k] == done[k]);
                        assert(hm_parse_of(done[k]) == Some(out@[k]));
                    }
                }
                assert forall|ts: Seq<TimeOfDay>|
                    ts.len() > 0 && all_times_wf(ts) && (forall|i: int|
                        0 <= i < ts.len() ==> (#[trigger] ts[i]).second == 0) && s@ == #[trigger] times_text(
                        ts,
                    ) implies out@ == ts by {
                    lemma_split_times(ts);
                    assert forall|k: int| 0 <= k < ts.len() implies out@[k] == ts[k] by {
                        assert(pieces[k] == hm_text(ts[k]));
                        assert(ts[k].wf());
                        if k < done.len() {
                            assert(done[k] == hm_text(ts[k]));
                        }
                    }
                    assert(out@ =~= ts);
                }
            }
            Some(out)
        },
        None => {
            proof {
                assert(split_semis(s@) == done.push(last@));
                assert(hm_parse_of(split_semis(s@)[done.len() as int]) is None);
                assert forall|ts: Seq<TimeOfDay>|
                    ts.len() > 0 && all_times_wf(ts) && (forall|i: int|
                        0 <= i < ts.len() ==> (#[trigger] ts[i]).second == 0) && s@ == #[trigger] times_text(
                        ts,
                    ) implies false by {
                    lemma_split_times(ts);
                    let k = done.len() as int;
                    assert(split_semis(s@)[k] == hm_text(ts[k]));
                    assert(ts[k].wf());
                }
            }
            None
        },
    }
}

/// Recurring times as the stored form keeps them: to the minute.
pub open spec fn to_minutes(ts: Seq<TimeOfDay>) -> Seq<TimeOfDay> {
    ts.map_values(|t: TimeOfDay| t.to_minute())
}

/// `b` is what reading back the stored form of `a` gives: the same task, with
/// recurring times cut to the minute.
pub open spec fn same_stored(a: Task, b: Task) -> bool {
    &&& a.kind() == b.kind()
    &&& a.name_view() == b.name_view()
    &&& a.file_name_view() == b.file_name_view()
    &&& a.priority_view() == b.priority_view()
    &&& match (a, b) {
        (Task::Scheduled { time: x, .. }, Task::Scheduled { time: y, .. }) => x == y,
        (Task::Recurring { time: x, .. }, Task::Recurring { time: y, .. }) => y@ == to_minutes(x@),
        _ => true,
    }
}

pub open spec fn is_kind_text(s: Seq<char>) -> bool {
    s == "now"@ || s == "scheduled"@ || s == "recurring"@
}

/// A row decodes when its kind is known and, for a scheduled task, its time
/// reads as an instant in range, or, for a recurring task, every piece of its
/// times reads as `HH:MM`.
pub open spec fn decodable(row: TaskRow) -> bool {
    ||| row.kind@ == "now"@
    ||| (row.kind@ == "scheduled"@ && (opt_text(row.time) matches Some(s) && rfc3339_parse_of(s) matches Some(
        x,
    ) && instant_in_range(x as int)))
    ||| (row.kind@ == "recurring"@ && (opt_text(row.time) matches Some(s) && all_pieces_parse(s)))
}

/// A decoded task's time is what chrono reads from the row's time text.
pub open spec fn time_decodes(row: TaskRow, t: Task) -> bool {
    match t {
        Task::Now { .. } => true,
        Task::Scheduled { time, .. } => opt_text(row.time) matches Some(s) && rfc3339_parse_of(s) == Some(
            time,
        ),
        Task::Recurring { time, .. } => opt_text(row.time) matches Some(s) && time@.len()
            == split_semis(s).len() && forall|i: int|
            0 <= i < time@.len() ==> hm_parse_of(split_semis(s)[i]) == Some(#[trigger] time@[i]),
    }
}

/// What `parse_task` states of its result: it decodes exactly the decodable
/// rows; a decoded task is valid, carries the row's kind, name, priority and
/// file name, and has the time chrono reads from the row; any failure is a
/// storage error; and the stored form of a valid task always decodes, to that
/// task up to the minute.
pub open spec fn row_decodes(row: TaskRow, r: Result<Task, StoreError>) -> bool {
    &&& r matches Ok(t) ==> {
        &&& t.wf()
        &&& row.kind@ == kind_text(t.kind())
        &&& row.name@ == t.name_view()
        &&& row.priority == t.priority_view()
        &&& row.file_name@ == t.file_name_view()
    }
    &&& r matches Err(e) ==> e == StoreError::Storage
    &&& (r is Ok <==> decodable(row))
    &&& r matches Ok(t) ==> time_decodes(row, t)
    &&& !is_kind_text(row.kind@) ==> r is Err
    &&& forall|t: Task| t.wf() && #[trigger] row_of(t, row) ==> (r matches Ok(b) && same_stored(t, b))
}

proof fn lemma_times_text_minutes(ts: Seq<TimeOfDay>)
    ensures
        times_text(ts) == times_text(to_minutes(ts)),
    decreases ts.len(),
{
    let m = to_minutes(ts);
    if ts.len() > 1 {
        lemma_times_text_minutes(ts.drop_last());
        assert(to_minutes(ts.drop_last()) =~= m.drop_last());
        assert(m.last() == ts.last().to_minute());
        assert(hm_text(ts.last()) == hm_text(ts.last().to_minute()));
    } else if ts.len() == 1 {
        assert(hm_text(ts[0]) == hm_text(ts[0].to_minute()));
    }
}

/// Decodes a row of the task table.
pub fn parse_task(row: &TaskRow) -> (r: Result<Task, StoreError>)
    ensures
        row_decodes(*row, r),
{
    proof {
        lemma_kind_texts_distinct();
    }
    let kind = row.kind.as_str();
    if chars_eq(kind, "now") {
        Ok(Task::Now { name: row.name.clone(), priority: row.priority, file_name: row.file_name.clone() })
    } else if chars_eq(kind, "scheduled") {
        let text = match &row.time {
            Some(t) => t.as_str(),
            None => {
                return Err(StoreError::Storage);
            },
        };
        match parse_rfc3339(text) {
            Some(time) => {
                if time < crate::task::MIN_INSTANT || time > crate::task::MAX_INSTANT {
                    return Err(StoreError::Storage);
                }
                Ok(
                    Task::Scheduled {
                        name: row.name.clone(),
                        file_name: row.file_name.clone(),
                        priority: row.priority,
                        time,
                    },
                )
            },
            None => Err(StoreError::Storage),
        }
    } else if chars_eq(kind, "recurring") {
        let text = match &row.time {
            Some(t) => t.as_str(),
            None => {
                return Err(StoreError::Storage);
            },
        };
        proof {
            assert forall|t: Task| t.wf() && #[trigger] row_of(t, *row) implies t is Recurring
                && text@ == times_text(to_minutes(t->Recurring_time@)) && to_minutes(
                t->Recurring_time@,
            ).len() > 0 && all_times_wf(to_minutes(t->Recurring_time@)) && (forall|i: int|
                0 <= i < to_minutes(t->Recurring_time@).len() ==> (#[trigger] to_minutes(
                    t->Recurring_time@,
                )[i]).second == 0) by {
                lemma_times_text_minutes(t->Recurring_time@);
                let m = to_minutes(t->Recurring_time@);
                assert forall|i: int| 0 <= i < m.len() implies (#[trigger] m[i]).wf() by {
                    assert(t->Recurring_time@[i].wf());
                }
            }
        }
        match parse_times(text) {
            Some(time) => {
                proof {
                    lemma_split_len(text@);
                }
                Ok(
                    Task::Recurring {
                        name: row.name.clone(),
                        file_name: row.file_name.clone(),
                        priority: row.priority,
                        time,
                    },
                )
            },
            None => Err(StoreError::Storage),
        }
    } else {
        Err(StoreError::Storage)
    }
}

/// Storing a task and decoding its row gives the task back, with recurring
/// times cut to the minute as the stored `HH:MM` form keeps them.
pub proof fn lemma_store_round_trip(t: Task, row: TaskRow, back: Result<Task, StoreError>)
    requires
        t.wf(),
        row_of(t, row),
        row_decodes(row, back),
    ensures
        back matches Ok(b) && same_stored(t, b),
{
}

} // verus!
