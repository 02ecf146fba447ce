//! The task list: task states, positions in the list, keyboard-layout
//! transliteration of search text, and the rules by which tasks are added,
//! edited, dropped and removed.

use crate::calendar::Date;
use crate::filter_parser::Attr;
use crate::lexical::chars_of;
use std::ops::RangeInclusive;
use chrono::Datelike;
use vstd::prelude::*;
use vstd::std_specs::range::ContainsSpec;
use vstd::string::{StrSliceExecFns, StringExecFns};

verus! {

/// Relies on `String::push`: the character is appended to the text.
pub assume_specification[ String::push ](s: &mut String, ch: char)
    ensures
        final(s)@ == old(s)@.push(ch),
;

/// The keys of the keyboard layout map: the Latin keys in order.
pub open spec fn latin_keys() -> Seq<char> {
    "qwertyuiop[]asdfghjkl;'zxcvbnm,./"@
}

/// The Russian letters on the same keys, in the same order.
pub open spec fn cyrillic_keys() -> Seq<char> {
    "йцукенгшщзхъфывапролджэячсмитьбю."@
}

/// The character typed on the key at or after position `i` that holds `c` in
/// the Latin layout, in the Russian layout; `c` itself where no key does.
pub open spec fn translit_from(c: char, i: int) -> char
    decreases latin_keys().len() - i,
{
    if 0 <= i < latin_keys().len() {
        if latin_keys()[i] == c {
            cyrillic_keys()[i]
        } else {
            translit_from(c, i + 1)
        }
    } else {
        c
    }
}

pub open spec fn translit(c: char) -> char {
    translit_from(c, 0)
}

fn translit_char(c: char) -> (r: char)
    ensures
        r == translit(c),
{
    let latin = "qwertyuiop[]asdfghjkl;'zxcvbnm,./";
    let cyrillic = "йцукенгшщзхъфывапролджэячсмитьбю.";
    proof {
        reveal_strlit("qwertyuiop[]asdfghjkl;'zxcvbnm,./");
        reveal_strlit("йцукенгшщзхъфывапролджэячсмитьбю.");
    }
    let n = latin.unicode_len();
    let mut i: usize = 0;
    while i < n
        invariant
            n == latin@.len() == cyrillic@.len(),
            latin@ == latin_keys(),
            cyrillic@ == cyrillic_keys(),
            i <= n,
            translit_from(c, 0) == translit_from(c, i as int),
        decreases n - i,
    {
        if latin.get_char(i) == c {
            return cyrillic.get_char(i);
        }
        i = i + 1;
    }
    c
}

/// Retypes text typed in the Latin layout as the Russian letters on the same
/// keys; other characters stay as they are.
pub fn translate(input: &str) -> (r: String)
    ensures
        r@ == input@.map_values(|c: char| translit(c)),
{
    let v = chars_of(input);
    let mut out = String::new();
    let mut i: usize = 0;
    while i < v.len()
        invariant
            v@ == input@,
            i <= v.len(),
            out@ == input@.subrange(0, i as int).map_values(|c: char| translit(c)),
        decreases v.len() - i,
    {
        out.push(translit_char(v[i]));
        i = i + 1;
        assert(out@ =~= input@.subrange(0, i as int).map_values(|c: char| translit(c)));
    }
    assert(input@.subrange(0, i as int) =~= input@);
    out
}

/// The state of a task.
#[derive(Debug, Clone, Copy, PartialEq, Eq, Hash, Structural)]
pub enum Status {
    Todo,
    Done,
    Drop,
}

impl Status {
    pub open spec fn spec_is_visible(self) -> bool {
        self != Status::Drop
    }

    /// Whether tasks in this state are listed by default: all but dropped ones.
    pub fn is_visible(self) -> (r: bool)
        ensures
            r == self.spec_is_visible(),
    {
        match self {
            Status::Todo | Status::Done => true,
            Status::Drop => false,
        }
    }

    /// The state that its lowercase name spells: `todo`, `done` or `drop`.
    pub fn parse(s: &str) -> (r: Option<Status>)
        ensures
            r == (if s@ == "todo"@ {
                Some(Status::Todo)
            } else if s@ == "done"@ {
                Some(Status::Done)
            } else if s@ == "drop"@ {
                Some(Status::Drop)
            } else {
                None
            }),
    {
        let v = chars_of(s);
        let n = v.len();
        assert(v@.subrange(0, n as int) =~= s@);
        if crate::lexical::word_is(&v, 0, n, "todo") {
            Some(Status::Todo)
        } else if crate::lexical::word_is(&v, 0, n, "done") {
            Some(Status::Done)
        } else if crate::lexical::word_is(&v, 0, n, "drop") {
            Some(Status::Drop)
        } else {
            None
        }
    }

    /// The state's name as it is shown: `Todo`, `Done` or `Drop`.
    pub fn name(self) -> (r: &'static str)
        ensures
            r@ == match self {
                Status::Todo => "Todo"@,
                Status::Done => "Done"@,
                Status::Drop => "Drop"@,
            },
    {
        match self {
            Status::Todo => "Todo",
            Status::Done => "Done",
            Status::Drop => "Drop",
        }
    }
}

/// A position in the task list.
#[derive(Debug, Clone, Copy, PartialEq, Eq, Structural)]
pub struct Idx(pub usize);

impl From<usize> for Idx {
    fn from(value: usize) -> (r: Idx)
        ensures
            r == Idx(value),
    {
        Idx(value)
    }
}

impl vstd::std_specs::convert::FromSpecImpl<usize> for Idx {
    open spec fn obeys_from_spec() -> bool {
        true
    }

    open spec fn from_spec(v: usize) -> Idx {
        Idx(v)
    }
}

impl From<Idx> for usize {
    fn from(value: Idx) -> (r: usize)
        ensures
            r == value.0,
    {
        value.0
    }
}

impl vstd::std_specs::convert::FromSpecImpl<Idx> for usize {
    open spec fn obeys_from_spec() -> bool {
        true
    }

    open spec fn from_spec(v: Idx) -> usize {
        v.0
    }
}

/// Where a task stands in the list, and its ID.
#[derive(Debug, Clone, Copy, PartialEq, Eq, Structural)]
pub struct Loc {
    pub idx: Idx,
    pub id: usize,
}

impl Loc {
    pub fn new<I: Into<Idx>>(idx: I, id: usize) -> (r: Loc)
        ensures
            r.id == id,
            call_ensures(I::into, (idx,), r.idx),
    {
        Loc { idx: idx.into(), id }
    }
}

/// A moment in time: seconds since the Unix epoch and the nanoseconds past them.
#[derive(Debug, Clone, Copy, PartialEq, Eq, Structural)]
pub struct Timestamp {
    pub secs: i64,
    pub nanos: u32,
}

/// What chrono gives as the UTC calendar day of a Unix time in seconds.
pub uninterp spec fn utc_day(secs: int) -> Option<Date>;

/// Relies on chrono's `DateTime::<Utc>::from_timestamp` and `date_naive`:
/// the UTC day of a Unix time depends on its seconds alone, and is a real day
/// within chrono's range when chrono can represent the time at all.
#[verifier::external_body]
fn utc_date(secs: i64) -> (r: Option<Date>)
    ensures
        r == utc_day(secs as int),
        r matches Some(d) ==> d.wf(),
{
    chrono::DateTime::from_timestamp(secs, 0).map(
        |t| {
            let d = t.date_naive();
            Date { year: d.year(), month: d.month(), day: d.day() }
        },
    )
}

/// A task of the list.
#[derive(Debug, Clone)]
pub struct Task {
    pub id: usize,
    pub status: Status,
    pub title: String,
    pub created_at: Timestamp,
    pub updated_at: Timestamp,
    pub comments: String,
}

/// New comment text: more lines to add, or the whole comment as edited.
#[derive(Debug, Clone)]
pub enum Multiline {
    Append(String),
    Full(String),
}

/// The comments of a task after `comment` is taken in: appended text goes on
/// a line of its own, empty appended text changes nothing, and edited text
/// replaces the whole.
pub open spec fn commented(old: Seq<char>, comment: Multiline) -> Seq<char> {
    match comment {
        Multiline::Append(c) => if c@.len() == 0 {
            old
        } else if old.len() == 0 {
            c@
        } else {
            old + seq!['\n'] + c@
        },
        Multiline::Full(c) => c@,
    }
}

/// Whether the UTC day of `t` lies within `range`.
pub open spec fn day_in_range(t: Timestamp, range: RangeInclusive<Date>) -> bool {
    match utc_day(t.secs as int) {
        Some(d) => range.contains_spec(&d),
        None => false,
    }
}

impl Task {
    pub fn change_title(&mut self, new_title: String, now: Timestamp)
        ensures
            final(self).title == new_title,
            final(self).updated_at == now,
            final(self).id == old(self).id,
            final(self).status == old(self).status,
            final(self).created_at == old(self).created_at,
            final(self).comments == old(self).comments,
    {
        self.title = new_title;
        self.updated_at = now;
    }

    /// Takes in new comment text; the task counts as updated only where its
    /// comments changed.
    pub fn add_comment(&mut self, comment: Multiline, now: Timestamp)
        ensures
            final(self).comments@ == commented(old(self).comments@, comment),
            final(self).updated_at == if final(self).comments@ != old(self).comments@ {
                now
            } else {
                old(self).updated_at
            },
            final(self).id == old(self).id,
            final(self).status == old(self).status,
            final(self).title == old(self).title,
            final(self).created_at == old(self).created_at,
    {
        let previous = self.comments.clone();
        match comment {
            Multiline::Append(c) => {
                if !c.as_str().is_empty() {
                    if !self.comments.as_str().is_empty() {
                        self.comments.push('\n');
                    }
                    self.comments.append(c.as_str());
                }
            },
            Multiline::Full(c) => self.comments = c,
        }
        if !(self.comments == previous) {
            self.updated_at = now;
        }
    }

    pub fn set_status(&mut self, status: Status, now: Timestamp)
        ensures
            final(self).status == status,
            final(self).updated_at == now,
            final(self).id == old(self).id,
            final(self).title == old(self).title,
            final(self).created_at == old(self).created_at,
            final(self).comments == old(self).comments,
    {
        self.status = status;
        self.updated_at = now;
    }

    /// Whether the UTC day of the timestamp that `attr` names lies within `range`.
    pub fn in_range(&self, attr: Attr, range: &RangeInclusive<Date>) -> (r: bool)
        ensures
            r == day_in_range(
                match attr {
                    Attr::Updated => self.updated_at,
                    Attr::Created => self.created_at,
                },
                *range,
            ),
    {
        let t = match attr {
            Attr::Updated => self.updated_at,
            Attr::Created => self.created_at,
        };
        match utc_date(t.secs) {
            Some(d) => range.contains(&d),
            None => false,
        }
    }
}

/// The task list, in file order.
pub struct Tasks {
    inner: Vec<Task>,
}

impl View for Tasks {
    type V = Seq<Task>;

    closed spec fn view(&self) -> Seq<Task> {
        self.inner@
    }
}

/// The tasks of `s` that are not dropped, in order.
pub open spec fn visible_tasks(s: Seq<Task>) -> Seq<Task> {
    s.filter(|t: Task| t.status.spec_is_visible())
}

/// How many tasks of `s` are done.
pub open spec fn count_done(s: Seq<Task>) -> nat
    decreases s.len(),
{
    if s.len() == 0 {
        0
    } else {
        count_done(s.drop_last()) + if s.last().status == Status::Done {
            1nat
        } else {
            0nat
        }
    }
}

/// The largest ID in `s`, zero for no tasks.
pub open spec fn max_id(s: Seq<Task>) -> nat
    decreases s.len(),
{
    if s.len() == 0 {
        0
    } else {
        let m = max_id(s.drop_last());
        if s.last().id > m {
            s.last().id as nat
        } else {
            m
        }
    }
}

/// `t` with a new status and update time.
pub open spec fn with_status(t: Task, status: Status, now: Timestamp) -> Task {
    Task { status, updated_at: now, ..t }
}

impl Tasks {
    pub fn new(inner: Vec<Task>) -> (r: Tasks)
        ensures
            r@ == inner@,
    {
        Tasks { inner }
    }

    /// The tasks, in order.
    pub fn into_inner(self) -> (r: Vec<Task>)
        ensures
            r@ == self@,
    {
        self.inner
    }

    pub fn len(&self) -> (r: usize)
        ensures
            r == self@.len(),
    {
        self.inner.len()
    }

    pub fn find_idx(&self, idx: Idx) -> (r: Option<&Task>)
        ensures
            idx.0 < self@.len() ==> r == Some(&self@[idx.0 as int]),
            idx.0 >= self@.len() ==> r is None,
    {
        let i: usize = idx.into();
        if i < self.inner.len() {
            Some(&self.inner[i])
        } else {
            None
        }
    }

    /// Sets the status of the task at `idx`; false where there is none.
    pub fn set_status_idx(&mut self, idx: Idx, status: Status, now: Timestamp) -> (r: bool)
        ensures
            r == (idx.0 < old(self)@.len()),
            r ==> final(self)@ == old(self)@.update(
                idx.0 as int,
                with_status(old(self)@[idx.0 as int], status, now),
            ),
            !r ==> final(self)@ == old(self)@,
    {
        let i: usize = idx.into();
        if i < self.inner.len() {
            self.inner[i].set_status(status, now);
            assert(self.inner@ =~= old(self)@.update(
                i as int,
                with_status(old(self)@[i as int], status, now),
            ));
            true
        } else {
            false
        }
    }

    pub fn set_done_idx(&mut self, idx: Idx, now: Timestamp) -> (r: bool)
        ensures
            r == (idx.0 < old(self)@.len()),
            r ==> final(self)@ == old(self)@.update(
                idx.0 as int,
                with_status(old(self)@[idx.0 as int], Status::Done, now),
            ),
            !r ==> final(self)@ == old(self)@,
    {
        self.set_status_idx(idx, Status::Done, now)
    }

    pub fn set_todo_idx(&mut self, idx: Idx, now: Timestamp) -> (r: bool)
        ensures
            r == (idx.0 < old(self)@.len()),
            r ==> final(self)@ == old(self)@.update(
                idx.0 as int,
                with_status(old(self)@[idx.0 as int], Status::Todo, now),
            ),
            !r ==> final(self)@ == old(self)@,
    {
        self.set_status_idx(idx, Status::Todo, now)
    }

    pub fn set_dropped_idx(&mut self, idx: Idx, now: Timestamp) -> (r: bool)
        ensures
            r == (idx.0 < old(self)@.len()),
            r ==> final(self)@ == old(self)@.update(
                idx.0 as int,
                with_status(old(self)@[idx.0 as int], Status::Drop, now),
            ),
            !r ==> final(self)@ == old(self)@,
    {
        self.set_status_idx(idx, Status::Drop, now)
    }

    /// Renames the task at `idx`; false where there is none.
    pub fn change_title_idx(&mut self, idx: Idx, new_title: String, now: Timestamp) -> (r: bool)
        ensures
            r == (idx.0 < old(self)@.len()),
            r ==> final(self)@ == old(self)@.update(
                idx.0 as int,
                Task { title: new_title, updated_at: now, ..old(self)@[idx.0 as int] },
            ),
            !r ==> final(self)@ == old(self)@,
    {
        let i: usize = idx.into();
        if i < self.inner.len() {
            self.inner[i].change_title(new_title, now);
            assert(self.inner@ =~= old(self)@.update(
                i as int,
                Task { title: new_title, updated_at: now, ..old(self)@[i as int] },
            ));
            true
        } else {
            false
        }
    }

    /// Takes new comment text into the task at `idx`; false where there is none.
    pub fn add_comment_idx(&mut self, idx: Idx, comment: Multiline, now: Timestamp) -> (r: bool)
        ensures
            r == (idx.0 < old(self)@.len()),
            r ==> final(self)@.len() == old(self)@.len() && (forall|k: int|
                0 <= k < old(self)@.len() && k != idx.0 ==> final(self)@[k] == old(self)@[k])
                && final(self)@[idx.0 as int].comments@ == commented(
                old(self)@[idx.0 as int].comments@,
                comment,
            ) && final(self)@[idx.0 as int].id == old(self)@[idx.0 as int].id
                && final(self)@[idx.0 as int].status == old(self)@[idx.0 as int].status
                && final(self)@[idx.0 as int].title == old(self)@[idx.0 as int].title,
            !r ==> final(self)@ == old(self)@,
    {
        let i: usize = idx.into();
        if i < self.inner.len() {
            self.inner[i].add_comment(comment, now);
            true
        } else {
            false
        }
    }

    /// Removes all dropped tasks and says how many there were.
    pub fn remove_dropped(&mut self) -> (r: usize)
        ensures
            final(self)@ == visible_tasks(old(self)@),
            r == old(self)@.len() - final(self)@.len(),
    {
        let ghost before = self.inner@;
        let mut kept: Vec<Task> = Vec::new();
        let orig_len = self.inner.len();
        let mut rest: Vec<Task> = Vec::new();
        std::mem::swap(&mut rest, &mut self.inner);
        let mut i: usize = 0;
        while rest.len() > 0
            invariant
                i + rest.len() == orig_len == before.len(),
                rest@ == before.subrange(i as int, orig_len as int),
                kept@ == visible_tasks(before.take(i as int)),
                kept.len() <= i,
            decreases rest.len(),
        {
            let t = rest.remove(0);
            proof {
                assert(t == before[i as int]);
                assert(before.take(i + 1).drop_last() =~= before.take(i as int));
                reveal_with_fuel(Seq::filter, 1);
            }
            if t.status.is_visible() {
                kept.push(t);
            }
            i = i + 1;
            assert(rest@ =~= before.subrange(i as int, orig_len as int));
        }
        assert(before.take(orig_len as int) =~= before);
        let new_len = kept.len();
        self.inner = kept;
        orig_len - new_len
    }

    /// Drops every done task and says how many there were.
    pub fn drop_done(&mut self, now: Timestamp) -> (r: usize)
        ensures
            final(self)@.len() == old(self)@.len(),
            forall|k: int|
                0 <= k < old(self)@.len() ==> final(self)@[k] == if old(self)@[k].status
                    == Status::Done {
                    with_status(old(self)@[k], Status::Drop, now)
                } else {
                    old(self)@[k]
                },
            r == count_done(old(self)@),
    {
        let ghost before = self.inner@;
        let mut dropped: usize = 0;
        let mut i: usize = 0;
        while i < self.inner.len()
            invariant
                self.inner@.len() == before.len(),
                i <= before.len(),
                forall|k: int|
                    0 <= k < i ==> self.inner@[k] == if before[k].status == Status::Done {
                        with_status(before[k], Status::Drop, now)
                    } else {
                        before[k]
                    },
                forall|k: int| i <= k < before.len() ==> self.inner@[k] == before[k],
                dropped == count_done(before.take(i as int)),
                dropped <= i,
            decreases before.len() - i,
        {
            proof {
                assert(before.take(i + 1).drop_last() =~= before.take(i as int));
            }
            if self.inner[i].status == Status::Done {
                self.inner[i].set_status(Status::Drop, now);
                dropped = dropped + 1;
            }
            i = i + 1;
        }
        assert(before.take(i as int) =~= before);
        dropped
    }

    /// Takes the task at `idx` out of the list.
    pub fn remove(&mut self, idx: Idx) -> (r: Option<Task>)
        ensures
            idx.0 < old(self)@.len() ==> r == Some(old(self)@[idx.0 as int]) && final(self)@
                == old(self)@.remove(idx.0 as int),
            idx.0 >= old(self)@.len() ==> r is None && final(self)@ == old(self)@,
    {
        let i: usize = idx.into();
        if i < self.inner.len() {
            Some(self.inner.remove(i))
        } else {
            None
        }
    }

    /// Where a new task goes: at the end of the list, with the ID after the
    /// largest one in use.
    pub fn next_loc(&self) -> (r: Loc)
        requires
            max_id(self@) < usize::MAX,
        ensures
            r.idx == Idx(self@.len() as usize),
            r.id == max_id(self@) + 1,
    {
        let mut m: usize = 0;
        let mut i: usize = 0;
        while i < self.inner.len()
            invariant
                i <= self@.len(),
                m == max_id(self@.take(i as int)),
            decreases self@.len() - i,
        {
            proof {
                assert(self@.take(i + 1).drop_last() =~= self@.take(i as int));
            }
            if self.inner[i].id > m {
                m = self.inner[i].id;
            }
            i = i + 1;
        }
        assert(self@.take(i as int) =~= self@);
        Loc::new(self.inner.len(), m + 1)
    }

    /// Appends a new task with the given title and status, and says where it
    /// went.
    pub fn add(&mut self, title: String, status: Status, now: Timestamp) -> (r: Loc)
        requires
            max_id(old(self)@) < usize::MAX,
        ensures
            r.idx == Idx(old(self)@.len() as usize),
            r.id == max_id(old(self)@) + 1,
            final(self)@.len() == old(self)@.len() + 1,
            final(self)@.drop_last() == old(self)@,
            final(self)@.last().id == r.id,
            final(self)@.last().title == title,
            final(self)@.last().status == status,
            final(self)@.last().comments@.len() == 0,
            final(self)@.last().created_at == now,
            final(self)@.last().updated_at == now,
    {
        let loc = self.next_loc();
        let task = Task {
            id: loc.id,
            title,
            comments: String::new(),
            status,
            created_at: now,
            updated_at: now,
        };
        self.inner.push(task);
        assert(self.inner@.drop_last() =~= old(self)@);
        loc
    }
}

/// How a search text matched a task.
#[derive(Debug, Clone, Copy, PartialEq, Eq, Structural)]
pub enum Candidate {
    ById,
    SubsetOfTitle,
    SimilarTitle,
    SubsetOfComment,
    SimilarComment,
}

/// Whether a search may show `t`: dropped tasks only when asked for.
pub open spec fn shown(t: Task, show_dropped: bool) -> bool {
    show_dropped || t.status.spec_is_visible()
}

pub open spec fn loc_at(s: Seq<Task>, k: int) -> Loc {
    Loc { idx: Idx(k as usize), id: s[k].id }
}

/// Whether the task at `k` matched by its ID and may be shown.
pub open spec fn id_hit(s: Seq<Task>, found: Seq<Option<Candidate>>, show_dropped: bool, k: int) -> bool {
    found[k] == Some(Candidate::ById) && shown(s[k], show_dropped)
}

/// The places, among the first `n`, of the tasks that matched and may be shown.
pub open spec fn found_locs(
    s: Seq<Task>,
    found: Seq<Option<Candidate>>,
    show_dropped: bool,
    n: int,
) -> Seq<Loc>
    decreases n,
{
    if n <= 0 {
        Seq::empty()
    } else {
        let prev = found_locs(s, found, show_dropped, n - 1);
        if found[n - 1] is Some && shown(s[n - 1], show_dropped) {
            prev.push(loc_at(s, n - 1))
        } else {
            prev
        }
    }
}

/// The places of all tasks, in order.
pub open spec fn all_locs_of(s: Seq<Task>) -> Seq<Loc> {
    Seq::new(s.len(), |k: int| loc_at(s, k))
}

impl Tasks {
    /// Whether every ID is taken up to the largest one a `usize` holds, so
    /// that no new task can get an ID of its own.
    pub fn next_id_overflows(&self) -> (r: bool)
        ensures
            r == (max_id(self@) >= usize::MAX),
    {
        let mut i: usize = 0;
        let mut m: usize = 0;
        while i < self.inner.len()
            invariant
                i <= self@.len(),
                m == max_id(self@.take(i as int)),
            decreases self@.len() - i,
        {
            proof {
                assert(self@.take(i + 1).drop_last() =~= self@.take(i as int));
            }
            if self.inner[i].id > m {
                m = self.inner[i].id;
            }
            i = i + 1;
        }
        assert(self@.take(i as int) =~= self@);
        m == usize::MAX
    }

    /// Every task's place, in order.
    pub fn all_locs(&self) -> (r: Vec<Loc>)
        ensures
            r@ == all_locs_of(self@),
    {
        let mut out: Vec<Loc> = Vec::new();
        let mut i: usize = 0;
        while i < self.inner.len()
            invariant
                i <= self@.len(),
                out@ == all_locs_of(self@).take(i as int),
            decreases self@.len() - i,
        {
            out.push(Loc::new(i, self.inner[i].id));
            i = i + 1;
            assert(out@ =~= all_locs_of(self@).take(i as int));
        }
        assert(all_locs_of(self@).take(i as int) =~= all_locs_of(self@));
        out
    }

    /// What a search shows. `found` is `None` for an empty search text, which
    /// shows every task when `empty_show_all` holds and none otherwise; else it
    /// holds what matching found for each task, and the result is that of
    /// `pick_found`.
    pub fn find(
        &self,
        found: &Option<Vec<Option<Candidate>>>,
        show_dropped: bool,
        empty_show_all: bool,
    ) -> (r: Vec<Loc>)
        requires
            found matches Some(f) ==> f.len() == self@.len(),
        ensures
            found is None ==> r@ == if empty_show_all {
                all_locs_of(self@)
            } else {
                Seq::empty()
            },
            found matches Some(f) ==> (forall|k: int|
                0 <= k < self@.len() && id_hit(self@, f@, show_dropped, k) && (forall|j: int|
                    0 <= j < k ==> !id_hit(self@, f@, show_dropped, j)) ==> r@ == seq![
                    loc_at(self@, k),
                ]),
            found matches Some(f) ==> ((forall|k: int|
                0 <= k < self@.len() ==> !id_hit(self@, f@, show_dropped, k)) ==> r@ == found_locs(
                self@,
                f@,
                show_dropped,
                self@.len() as int,
            )),
    {
        match found {
            None => if empty_show_all {
                self.all_locs()
            } else {
                Vec::new()
            },
            Some(f) => self.pick_found(f, show_dropped),
        }
    }

    /// What a search shows, given what matching found for each task: the
    /// first task that matched by its ID alone where there is one that may be
    /// shown, else every task that matched and may be shown, in order.
    pub fn pick_found(&self, found: &Vec<Option<Candidate>>, show_dropped: bool) -> (r: Vec<Loc>)
        requires
            found.len() == self@.len(),
        ensures
            forall|k: int|
                0 <= k < self@.len() && id_hit(self@, found@, show_dropped, k) && (forall|j: int|
                    0 <= j < k ==> !id_hit(self@, found@, show_dropped, j)) ==> r@ == seq![
                    loc_at(self@, k),
                ],
            (forall|k: int| 0 <= k < self@.len() ==> !id_hit(self@, found@, show_dropped, k))
                ==> r@ == found_locs(self@, found@, show_dropped, self@.len() as int),
    {
        let mut out: Vec<Loc> = Vec::new();
        let mut i: usize = 0;
        while i < self.inner.len()
            invariant
                i <= self@.len() == found@.len(),
                forall|j: int| 0 <= j < i ==> !id_hit(self@, found@, show_dropped, j),
                out@ == found_locs(self@, found@, show_dropped, i as int),
            decreases self@.len() - i,
        {
            let shows = show_dropped || self.inner[i].status.is_visible();
            match found[i] {
                Some(c) => {
                    if c == Candidate::ById && shows {
                        let one = vec![Loc { idx: Idx(i), id: self.inner[i].id }];
                        assert(id_hit(self@, found@, show_dropped, i as int));
                        assert(one@ =~= seq![loc_at(self@, i as int)]);
                        return one;
                    }
                    if shows {
                        out.push(Loc { idx: Idx(i), id: self.inner[i].id });
                    }
                },
                None => {},
            }
            i = i + 1;
        }
        out
    }
}

} // verus!
