//! The session log: the rows a session writes, and how a report reads them
//! back. A row is `task,start,end`; a session that did not end leaves a row
//! without its end, which a report passes over.

use crate::text::{
    is_space, lemma_split_is_not_empty, lemma_split_joined, lemma_split_without_separator,
    lemma_trim_keeps_last, lemma_trim_leaves_clean_text, split, split_on, trim, trimmed,
};
use vstd::prelude::*;
use vstd::string::StringExecFns;

verus! {

/// A point in time as read from a timestamp: seconds since the start of
/// 1970 in UTC, the nanoseconds beyond them (a thousand million and more
/// within a leap second), and the offset from UTC in seconds that the
/// timestamp was written with.
#[derive(Debug, Clone, Copy, PartialEq, Eq, Structural)]
pub struct Stamp {
    pub secs: i64,
    pub nanos: u32,
    pub offset: i32,
}

/// The seconds of a stamp stay within this distance of the start of 1970,
/// some 250,000 years either way.
pub const STAMP_SECONDS_LIMIT: i64 = 8_000_000_000_000;

impl Stamp {
    /// Whether the nanoseconds stay below one second: the stamp does not
    /// lie within a leap second.
    pub open spec fn is_plain(self) -> bool {
        self.nanos < 1_000_000_000
    }

    /// Whether the stamp is a point in time: its seconds are within the
    /// limit, and its nanoseconds reach a second only within a leap
    /// second, the last second of a minute.
    pub open spec fn wf(self) -> bool {
        &&& -STAMP_SECONDS_LIMIT <= self.secs <= STAMP_SECONDS_LIMIT
        &&& self.is_plain() || (self.nanos < 2_000_000_000 && self.secs % 60 == 59)
    }

    /// The stamp in nanoseconds since the start of 1970.
    pub open spec fn total_nanos(self) -> int {
        self.secs * 1_000_000_000 + self.nanos
    }
}

/// `a` divided by `b`, rounded toward zero.
pub open spec fn toward_zero(a: int, b: int) -> int
    recommends
        b > 0,
{
    if a >= 0 {
        a / b
    } else {
        -((-a) / b)
    }
}

/// The whole minutes from one stamp to another: the whole seconds between
/// them, rounded toward zero, in minutes, rounded toward zero again. It is
/// negative where the second stamp is the earlier one.
pub open spec fn whole_minutes(start: Stamp, end: Stamp) -> int {
    toward_zero(toward_zero(end.total_nanos() - start.total_nanos(), 1_000_000_000), 60)
}

/// What `chrono::DateTime::parse_from_rfc3339` makes of a text: the
/// seconds, nanoseconds and offset of the date and time, or `None` where it
/// reports an error.
pub uninterp spec fn rfc3339_stamp(text: Seq<char>) -> Option<(i64, u32, i32)>;

/// The whole minutes that `chrono` counts from one point in time to
/// another, each given by its seconds and nanoseconds, where one of them
/// lies within a leap second.
pub uninterp spec fn chrono_minutes(
    start_secs: i64,
    start_nanos: u32,
    end_secs: i64,
    end_nanos: u32,
) -> i64;

/// The minutes from one stamp to another: the whole minutes between them;
/// where a leap second is involved, what `chrono` counts.
pub open spec fn minutes_of(start: Stamp, end: Stamp) -> int {
    if start.is_plain() && end.is_plain() {
        whole_minutes(start, end)
    } else {
        chrono_minutes(start.secs, start.nanos, end.secs, end.nanos) as int
    }
}

/// Calls `chrono::DateTime::parse_from_rfc3339`. The result is a function
/// of the text alone; it is named, not spelled out. A date and time comes
/// back as its `timestamp`, its `timestamp_subsec_nanos` and the seconds of
/// its offset; an error comes back as `None`. What comes back is a point in
/// time: the years that can be written have four digits, and the
/// nanoseconds reach a second only where the text has second 60.
#[verifier::external_body]
fn read_rfc3339(text: &str) -> (stamp: Option<Stamp>)
    ensures
        match stamp {
            Some(s) => rfc3339_stamp(text@) == Some((s.secs, s.nanos, s.offset)) && s.wf(),
            None => rfc3339_stamp(text@) is None,
        },
{
    match chrono::DateTime::parse_from_rfc3339(text) {
        Ok(time) => Some(
            Stamp {
                secs: time.timestamp(),
                nanos: time.timestamp_subsec_nanos(),
                offset: time.offset().local_minus_utc(),
            },
        ),
        Err(_) => None,
    }
}

/// Calls `chrono::DateTime::signed_duration_since` on the two points in
/// time, made by `chrono::DateTime::from_timestamp`, and takes the
/// `num_minutes` of the difference. Two stamps that are points in time
/// always have a difference. Outside leap seconds it is the whole seconds
/// between them in whole minutes, each rounded toward zero; within a leap
/// second it is named, not spelled out.
#[verifier::external_body]
fn minutes_between(start: &Stamp, end: &Stamp) -> (minutes: Option<i64>)
    ensures
        start.wf() && end.wf() ==> minutes is Some,
        start.wf() && end.wf() && start.is_plain() && end.is_plain() ==> minutes->0
            == whole_minutes(*start, *end),
        start.wf() && end.wf() && !(start.is_plain() && end.is_plain()) ==> minutes->0
            == chrono_minutes(start.secs, start.nanos, end.secs, end.nanos),
{
    let from = chrono::DateTime::from_timestamp(start.secs, start.nanos)?;
    let to = chrono::DateTime::from_timestamp(end.secs, end.nanos)?;
    Some(to.signed_duration_since(from).num_minutes())
}

/// Whether `c` can stand in a timestamp as it is written: a digit, a sign,
/// a colon, a point or the letter `T`.
pub open spec fn is_stamp_char(c: char) -> bool {
    ||| '0' <= c <= '9'
    ||| c == '+'
    ||| c == '-'
    ||| c == ':'
    ||| c == '.'
    ||| c == 'T'
}

/// Whether `text` is made like a written timestamp: not empty, and of
/// such characters only.
pub open spec fn is_stamp_text(text: Seq<char>) -> bool {
    &&& text.len() > 0
    &&& forall|i: int| 0 <= i < text.len() ==> is_stamp_char(#[trigger] text[i])
}

/// Calls `chrono::Local::now` and writes the time with
/// `chrono::DateTime::to_rfc3339`. The text depends on the clock and on the
/// machine's time zone. Whatever they are, it is made of digits, signs,
/// colons, at most one point and the letter `T`.
#[verifier::external_body]
fn local_time_now() -> (text: String)
    ensures
        is_stamp_text(text@),
{
    chrono::Local::now().to_rfc3339()
}

/// The task name of a session that was given none.
pub open spec fn unnamed_task() -> Seq<char> {
    "No task specified"@
}

/// What a session writes to the log when it starts: the task, the start
/// time, and a comma after each. The row stays open.
pub open spec fn row_opening(task: Option<Seq<char>>, started: Seq<char>) -> Seq<char> {
    let name = match task {
        Some(name) => name,
        None => unnamed_task(),
    };
    name + seq![','] + started + seq![',']
}

/// What a session writes to the log when it stops: the end time and a line
/// break, which close the row.
pub open spec fn row_closing(ended: Seq<char>) -> Seq<char> {
    ended + seq!['\n']
}

/// Writes the opening of a row for a given start time.
pub fn open_row(task: &Option<String>, started: &str) -> (row: String)
    ensures
        row@ == row_opening(task.deep_view(), started@),
{
    proof {
        reveal_strlit(",");
        assert(","@ =~= seq![',']);
    }
    let mut row = match task {
        Some(name) => name.clone(),
        None => "No task specified".to_owned(),
    };
    row.append(",");
    row.append(started);
    row.append(",");
    row
}

/// Writes the closing of a row for a given end time.
pub fn close_row(ended: &str) -> (row: String)
    ensures
        row@ == row_closing(ended@),
{
    proof {
        reveal_strlit("\n");
        assert("\n"@ =~= seq!['\n']);
    }
    let mut row = ended.to_owned();
    row.append("\n");
    row
}

/// Writes the opening of a row with the time it is now.
pub fn open_row_now(task: &Option<String>) -> (row: String)
    ensures
        exists|started: Seq<char>|
            is_stamp_text(started) && row@ == #[trigger] row_opening(task.deep_view(), started),
{
    let started = local_time_now();
    open_row(task, started.as_str())
}

/// Writes the closing of a row with the time it is now.
pub fn close_row_now() -> (row: String)
    ensures
        exists|ended: Seq<char>| is_stamp_text(ended) && row@ == #[trigger] row_closing(ended),
{
    let ended = local_time_now();
    close_row(ended.as_str())
}

/// A line of the log, as a report sees it.
#[derive(Debug, Clone, PartialEq, Eq)]
pub enum LogLine {
    /// A session that ran and ended.
    Complete { task: String, start: Stamp, end: Stamp, minutes: i64 },
    /// A row that does not have three fields, such as that of a session
    /// which never ended. `number` counts lines from 1.
    Incomplete { number: usize, text: String },
    /// A row with three fields whose times cannot be read.
    Malformed { number: usize, text: String },
}

/// A line of the log as plain values.
pub enum LogLineView {
    Complete { task: Seq<char>, start: Stamp, end: Stamp, minutes: i64 },
    Incomplete { number: nat, text: Seq<char> },
    Malformed { number: nat, text: Seq<char> },
}

impl View for LogLine {
    type V = LogLineView;

    open spec fn view(&self) -> LogLineView {
        match *self {
            LogLine::Complete { task, start, end, minutes } => LogLineView::Complete {
                task: task@,
                start,
                end,
                minutes,
            },
            LogLine::Incomplete { number, text } => LogLineView::Incomplete {
                number: number as nat,
                text: text@,
            },
            LogLine::Malformed { number, text } => LogLineView::Malformed {
                number: number as nat,
                text: text@,
            },
        }
    }
}

/// The stamp that a text stands for, if it is a timestamp of a point in
/// time. The empty text, which an open row has in the place of its end, is
/// none.
pub open spec fn stamp_of(text: Seq<char>) -> Option<Stamp> {
    if text.len() == 0 {
        None
    } else {
        match rfc3339_stamp(text) {
            Some((secs, nanos, offset)) => if (Stamp { secs, nanos, offset }).wf() {
                Some(Stamp { secs, nanos, offset })
            } else {
                None
            },
            None => None,
        }
    }
}

/// Reads a timestamp.
pub fn read_stamp(text: &str) -> (stamp: Option<Stamp>)
    ensures
        stamp == stamp_of(text@),
{
    if text.is_empty() {
        None
    } else {
        read_rfc3339(text)
    }
}

/// What three fields of a row amount to: a complete session exactly where
/// both times can be read, with the minutes between them; else a malformed
/// row.
pub open spec fn row_of(
    number: nat,
    line: Seq<char>,
    task: Seq<char>,
    start: Option<Stamp>,
    end: Option<Stamp>,
) -> LogLineView {
    if start is Some && end is Some {
        LogLineView::Complete {
            task,
            start: start->0,
            end: end->0,
            minutes: minutes_of(start->0, end->0) as i64,
        }
    } else {
        LogLineView::Malformed { number, text: line }
    }
}

/// The row that is built from what was read of three fields and from a
/// count of minutes: a complete session where both times and the count are
/// there, else a malformed row.
pub open spec fn assembled_row(
    number: nat,
    line: Seq<char>,
    task: Seq<char>,
    start: Option<Stamp>,
    end: Option<Stamp>,
    minutes: Option<i64>,
) -> LogLineView {
    if start is Some && end is Some && minutes is Some {
        LogLineView::Complete { task, start: start->0, end: end->0, minutes: minutes->0 }
    } else {
        LogLineView::Malformed { number, text: line }
    }
}

/// What a report makes of the line with the given number: nothing of a line
/// that is blank once trimmed; of any other, by its fields between commas,
/// a complete session, an incomplete row or a malformed one.
pub open spec fn line_of(number: nat, raw: Seq<char>) -> Option<LogLineView> {
    let line = trimmed(raw);
    let fields = split_on(line, ',');
    if line.len() == 0 {
        None
    } else if fields.len() == 3 {
        let start = stamp_of(fields[1]);
        let end = stamp_of(fields[2]);
        Some(row_of(number, line, fields[0], start, end))
    } else {
        Some(LogLineView::Incomplete { number, text: line })
    }
}

/// What a report makes of some lines, the first of which has number 1.
pub open spec fn lines_of(lines: Seq<Seq<char>>) -> Seq<LogLineView>
    decreases lines.len(),
{
    if lines.len() == 0 {
        Seq::empty()
    } else {
        let before = lines_of(lines.drop_last());
        match line_of(lines.len(), lines.last()) {
            Some(line) => before.push(line),
            None => before,
        }
    }
}

/// What a report makes of a log: of each of its lines, in order.
pub open spec fn report_of(content: Seq<char>) -> Seq<LogLineView> {
    lines_of(split_on(content, '\n'))
}

/// Builds the line for a row of three fields from what was read of them.
pub fn assemble_row(
    number: usize,
    line: &str,
    task: &str,
    start: Option<Stamp>,
    end: Option<Stamp>,
    minutes: Option<i64>,
) -> (row: LogLine)
    ensures
        row@ == assembled_row(number as nat, line@, task@, start, end, minutes),
{
    match (start, end, minutes) {
        (Some(start), Some(end), Some(minutes)) => LogLine::Complete {
            task: task.to_owned(),
            start,
            end,
            minutes,
        },
        _ => LogLine::Malformed { number, text: line.to_owned() },
    }
}

/// Reads one line of the log.
pub fn read_line(number: usize, raw: &str) -> (read: Option<LogLine>)
    ensures
        read.is_some() == line_of(number as nat, raw@).is_some(),
        read matches Some(line) ==> line@ == line_of(number as nat, raw@)->0,
{
    let line = trim(raw);
    if line.is_empty() {
        return None;
    }
    let fields = split(line, ',');
    if fields.len() == 3 {
        let start = read_stamp(fields[1].as_str());
        let end = read_stamp(fields[2].as_str());
        let minutes = match (&start, &end) {
            (Some(from), Some(to)) => minutes_between(from, to),
            _ => None,
        };
        Some(assemble_row(number, line, fields[0].as_str(), start, end, minutes))
    } else {
        Some(LogLine::Incomplete { number, text: line.to_owned() })
    }
}

/// The views of some lines.
pub open spec fn views(lines: Seq<LogLine>) -> Seq<LogLineView> {
    Seq::new(lines.len(), |i: int| lines[i]@)
}

/// Reads a log for a report. No content makes it fail: what cannot be read
/// as a session is handed out as an incomplete or a malformed row, for the
/// caller to warn of.
pub fn parse_log(content: &str) -> (lines: Vec<LogLine>)
    ensures
        views(lines@) == report_of(content@),
{
    let raw = split(content, '\n');
    let mut lines: Vec<LogLine> = Vec::new();
    let mut i: usize = 0;
    let ghost all = raw.deep_view();
    proof {
        assert(all.take(0) =~= Seq::<Seq<char>>::empty());
        assert(views(lines@) =~= Seq::<LogLineView>::empty());
    }
    while i < raw.len()
        invariant
            i <= raw.len(),
            all == raw.deep_view(),
            views(lines@) == lines_of(all.take(i as int)),
        decreases raw.len() - i,
    {
        let ghost before = views(lines@);
        proof {
            let next = all.take(i + 1);
            assert(next.drop_last() =~= all.take(i as int));
            assert(next.last() == raw@[i as int]@);
            assert(next.len() == i + 1);
        }
        match read_line(i + 1, raw[i].as_str()) {
            Some(line) => {
                lines.push(line);
                proof {
                    assert(views(lines@) =~= before.push(line@));
                }
            },
            None => {},
        }
        i += 1;
    }
    proof {
        assert(all.take(raw.len() as int) =~= all);
    }
    lines
}

/// A row that does not have exactly three fields is never taken for a
/// session: the row of a session that did not end is handed out as
/// incomplete, with its number and its text.
pub proof fn lemma_short_row_is_incomplete(number: nat, raw: Seq<char>)
    requires
        trimmed(raw).len() > 0,
        split_on(trimmed(raw), ',').len() != 3,
    ensures
        line_of(number, raw) == Some(LogLineView::Incomplete { number, text: trimmed(raw) }),
{
}

/// A line that cannot be read takes nothing from the lines before it: what
/// a report makes of them stays, in order, and at most one more line
/// follows.
pub proof fn lemma_lines_are_read_one_by_one(lines: Seq<Seq<char>>, next: Seq<char>)
    ensures
        lines_of(lines.push(next)) == match line_of((lines.len() + 1) as nat, next) {
            Some(line) => lines_of(lines).push(line),
            None => lines_of(lines),
        },
{
    assert(lines.push(next).drop_last() =~= lines);
}

/// The row of a session that did not end is never taken for a session,
/// whatever its task and its start time hold: it is handed out as a
/// malformed or an incomplete row.
pub proof fn lemma_open_row_is_no_session(number: nat, task: Option<Seq<char>>, started: Seq<char>)
    ensures
        line_of(number, row_opening(task, started)) matches Some(line) && !(line is Complete),
{
    let row = row_opening(task, started);
    assert(row.last() == ',');
    lemma_trim_keeps_last(row);
    let line = trimmed(row);
    let fields = split_on(line, ',');
    lemma_split_is_not_empty(line.drop_last(), ',');
    assert(fields.last() == Seq::<char>::empty());
    if fields.len() == 3 {
        assert(stamp_of(fields[2]) is None);
    }
}

/// What a session writes, a report reads back: the opening and the closing
/// of a row make one line of three fields, which is a complete session
/// where both times can be read, and nothing follows it. This holds for
/// fields without comma and line break, where the task does not begin and
/// the end time does not end with white space.
pub proof fn lemma_written_row_reads_back(task: Seq<char>, started: Seq<char>, ended: Seq<char>)
    requires
        forall|i: int| 0 <= i < task.len() ==> task[i] != ',' && task[i] != '\n',
        forall|i: int| 0 <= i < started.len() ==> started[i] != ',' && started[i] != '\n',
        forall|i: int| 0 <= i < ended.len() ==> ended[i] != ',' && ended[i] != '\n',
        task.len() > 0 ==> !is_space(task[0]),
        ended.len() > 0 ==> !is_space(ended.last()),
    ensures
        report_of(row_opening(Some(task), started) + row_closing(ended)) == seq![
            row_of(
                1,
                task + seq![','] + started + seq![','] + ended,
                task,
                stamp_of(started),
                stamp_of(ended),
            ),
        ],
{
    let line = task + seq![','] + started + seq![','] + ended;
    let content = row_opening(Some(task), started) + row_closing(ended);
    assert(content =~= line + seq!['\n'] + Seq::<char>::empty());
    lemma_split_joined(line, Seq::<char>::empty(), '\n');
    lemma_split_without_separator(line, '\n');
    let lines = split_on(content, '\n');
    assert(lines =~= seq![line, Seq::<char>::empty()]);
    assert(lines.drop_last() =~= seq![line]);
    assert(seq![line].drop_last() =~= Seq::<Seq<char>>::empty());
    lemma_trim_leaves_clean_text(line);
    lemma_trim_leaves_clean_text(Seq::<char>::empty());
    lemma_split_joined(task + seq![','] + started, ended, ',');
    lemma_split_joined(task, started, ',');
    lemma_split_without_separator(task, ',');
    lemma_split_without_separator(started, ',');
    lemma_split_without_separator(ended, ',');
    let fields = split_on(line, ',');
    assert(fields =~= seq![task, started, ended]);
    assert(line.len() > 0 && trimmed(line) == line);
    assert(line_of(1, line) is Some);
    assert(lines_of(Seq::<Seq<char>>::empty()) =~= Seq::<LogLineView>::empty());
    assert(seq![line].last() == line);
    assert(lines_of(seq![line]) =~= seq![line_of(1, line)->0]);
    assert(lines.last() == Seq::<char>::empty());
    assert(line_of(2, Seq::<char>::empty()) is None);
}

/// A written timestamp holds no comma and no line break, and neither
/// begins nor ends with white space: it can stand in a row as it is.
pub proof fn lemma_stamp_text_is_clean(text: Seq<char>)
    requires
        is_stamp_text(text),
    ensures
        forall|i: int| 0 <= i < text.len() ==> text[i] != ',' && text[i] != '\n',
        !is_space(text[0]),
        !is_space(text.last()),
{
    assert forall|i: int| 0 <= i < text.len() implies text[i] != ',' && text[i] != '\n'
        && !is_space(text[i]) by {
        assert(is_stamp_char(text[i]));
    }
}

/// A row of three fields is a session exactly where both of its times can
/// be read; its minutes are then the whole minutes from the one to the
/// other, where no leap second is involved.
pub proof fn lemma_row_is_session_where_times_read(
    number: nat,
    line: Seq<char>,
    task: Seq<char>,
    start: Option<Stamp>,
    end: Option<Stamp>,
)
    ensures
        row_of(number, line, task, start, end) is Complete <==> start is Some && end is Some,
        start is Some && end is Some && start->0.is_plain() && end->0.is_plain() ==> row_of(
            number,
            line,
            task,
            start,
            end,
        ) == (LogLineView::Complete {
            task,
            start: start->0,
            end: end->0,
            minutes: whole_minutes(start->0, end->0) as i64,
        }),
{
}

} // verus!
