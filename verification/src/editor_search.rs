//! Walking through the matches of a search.
//!
//! The editor searches inside a target range and reports where a match ends.
//! What follows from that is decided here: where the next search begins, how
//! the end of a range moves when text in it is replaced, which match counts.
//!
//! A match of no width would be found again and again. A walk that only looks
//! steps over it by hand. So does a replacement of all matches, but only where
//! the new text is empty and the document goes on: where text is put in, or at
//! the end of the document, the search goes on right there and may find the
//! next match of no width. That a replacement comes to an end is therefore
//! stated for matches that have width, and for those of no width with nothing
//! put in while the document goes on. After a match that has width the search
//! goes on right behind the new text, so that nothing is left out.
use vstd::prelude::*;

verus! {

/// Options of a search.
#[derive(Clone, Copy, PartialEq, Eq, Structural, Debug)]
pub struct SearchFlags {
    pub match_case: bool,
    pub whole_word: bool,
    pub regex: bool,
}

/// The options that the three check boxes stand for.
pub fn flags_from(match_case: bool, whole_word: bool, regex: bool) -> (f: SearchFlags)
    ensures
        f.match_case == match_case,
        f.whole_word == whole_word,
        f.regex == regex,
{
    SearchFlags { match_case, whole_word, regex }
}

/// A reading of the editor as a position: nothing below zero.
pub open spec fn position_of(reading: isize) -> u64 {
    if reading < 0 {
        0
    } else {
        reading as u64
    }
}

/// A reading of the editor as a position.
pub fn to_position(reading: isize) -> (r: u64)
    ensures
        r == position_of(reading),
{
    if reading < 0 {
        0
    } else {
        reading as u64
    }
}

/// Where the search goes on after a match that ends at `end`, when it began at
/// `cursor`: at the end, or where the editor says the next position is
/// (`after`) if the match did not get past the cursor.
pub open spec fn advanced(cursor: u64, end: u64, after: isize) -> u64 {
    if end > cursor {
        end
    } else {
        position_of(after)
    }
}

fn advance(cursor: u64, end: u64, after: isize) -> (r: u64)
    ensures
        r == advanced(cursor, end, after),
{
    if end > cursor {
        end
    } else {
        to_position(after)
    }
}

/// What the editor guarantees of a match found from `cursor` up to `upper`: it
/// ends in that range, and the position after its end is beyond it, up to the
/// end of the range.
pub open spec fn match_in(cursor: u64, upper: u64, end: u64, after: isize) -> bool {
    &&& cursor <= end <= upper
    &&& end < upper ==> after > end
}

/// A count of the matches in a document.
#[derive(Clone, Copy, PartialEq, Eq, Structural, Debug)]
pub struct CountSweep {
    pub cursor: u64,
    pub doc_len: u64,
    pub count: usize,
}

impl CountSweep {
    /// A count that has not begun, over a document of this length; `None` for
    /// an empty query, which matches nothing.
    pub fn new(query_is_empty: bool, doc_len: isize) -> (r: Option<CountSweep>)
        ensures
            r == if query_is_empty {
                None
            } else {
                Some(CountSweep { cursor: 0, doc_len: position_of(doc_len), count: 0 })
            },
    {
        if query_is_empty {
            None
        } else {
            Some(CountSweep { cursor: 0, doc_len: to_position(doc_len), count: 0 })
        }
    }

    /// The range to search next; `None` once the document is through.
    pub fn target(&self) -> (r: Option<(u64, u64)>)
        ensures
            r == if self.cursor < self.doc_len {
                Some((self.cursor, self.doc_len))
            } else {
                None
            },
    {
        if self.cursor < self.doc_len {
            Some((self.cursor, self.doc_len))
        } else {
            None
        }
    }

    /// Take a match in that ends at `end`.
    pub fn found(&mut self, end: u64, after: isize)
        requires
            old(self).count < usize::MAX,
        ensures
            final(self).count == old(self).count + 1,
            final(self).doc_len == old(self).doc_len,
            final(self).cursor == advanced(old(self).cursor, end, after),
    {
        self.count = self.count + 1;
        self.cursor = advance(self.cursor, end, after);
    }
}

/// A match, as the editor reports it: where it ends, and the position after
/// that.
pub struct MatchEnd {
    pub end: u64,
    pub after: isize,
}

/// Where the cursor is after a row of matches.
pub open spec fn cursor_after(start: u64, matches: Seq<MatchEnd>) -> u64
    decreases matches.len(),
{
    if matches.len() == 0 {
        start
    } else {
        advanced(
            cursor_after(start, matches.drop_last()),
            matches.last().end,
            matches.last().after,
        )
    }
}

/// Each of a row of matches was found where the walk stood then, before the
/// end of the range.
pub open spec fn walk_in(start: u64, upper: u64, matches: Seq<MatchEnd>) -> bool
    decreases matches.len(),
{
    matches.len() == 0 || {
        let cursor = cursor_after(start, matches.drop_last());
        &&& walk_in(start, upper, matches.drop_last())
        &&& cursor < upper
        &&& match_in(cursor, upper, matches.last().end, matches.last().after)
    }
}

/// A walk that stops at the end of its range comes to an end: every match, of
/// no width too, takes the cursor on, so there are no more matches than
/// positions.
pub proof fn walks_end(start: u64, upper: u64, matches: Seq<MatchEnd>)
    requires
        start <= upper,
        walk_in(start, upper, matches),
    ensures
        cursor_after(start, matches) >= start + matches.len(),
        matches.len() > 0 ==> cursor_after(start, matches.drop_last()) < cursor_after(
            start,
            matches,
        ),
        matches.len() <= upper - start,
    decreases matches.len(),
{
    if matches.len() > 0 {
        walks_end(start, upper, matches.drop_last());
    }
}

/// One replacement: where the match was, where the new text ends, and the
/// position after that.
#[derive(Clone, Copy, PartialEq, Eq, Structural, Debug)]
pub struct Replacement {
    pub match_start: u64,
    pub match_end: u64,
    pub new_end: u64,
    pub after: isize,
}

/// The length of the new text less that of the old.
pub open spec fn growth(r: Replacement) -> int {
    let new_len = if r.new_end >= r.match_start {
        r.new_end - r.match_start
    } else {
        0
    };
    new_len - (r.match_end - r.match_start)
}

/// The end of a range that ended at `range_end`, after a replacement from
/// which the search goes on at `cursor`.
pub open spec fn moved_end(range_end: u64, cursor: u64, r: Replacement) -> int {
    if range_end + growth(r) >= cursor {
        range_end + growth(r)
    } else {
        cursor as int
    }
}

/// Positions that the editor can have.
pub open spec fn is_position(n: int) -> bool {
    0 <= n <= i64::MAX
}

/// How far a replacement of all matches has got.
#[derive(Clone, Copy, PartialEq, Eq, Structural, Debug)]
pub enum ReplacePhase {
    /// Not begun.
    Fresh,
    /// Ready for the first search.
    Open,
    /// A match is being looked for.
    Searching,
    /// The match between these positions is being replaced.
    Replacing { match_start: u64, match_end: u64 },
    /// All is replaced.
    Closed,
    /// The result has been given.
    Over,
}

/// What a replacement of all matches asks of the editor.
#[derive(Clone, Copy, PartialEq, Eq, Debug)]
pub enum ReplaceAction {
    /// Take what follows as one change, which one undo takes back.
    BeginUndo,
    /// Look for a match between these positions.
    Search { from: u64, to: u64 },
    /// Put the new text in the place of the match.
    Replace,
    /// The change is complete.
    EndUndo,
    /// So many matches were replaced; the range, if there is one, ends here.
    Finish { count: usize, range_end: Option<u64> },
}

/// What the editor says: how long the document is, where a match was found if
/// there is one, where the text ends that was put in, and the position after
/// that.
#[derive(Clone, Copy, PartialEq, Eq, Debug)]
pub struct ReplaceReading {
    pub doc_len: isize,
    pub found: Option<(u64, u64)>,
    pub new_end: u64,
    pub after: isize,
}

/// A replacement of all matches, in a range or in the whole document. The end
/// of a range moves with every change in length.
#[derive(Clone, Copy, PartialEq, Eq, Debug)]
pub struct ReplaceRun {
    pub phase: ReplacePhase,
    pub cursor: u64,
    pub range_end: Option<u64>,
    pub count: usize,
}

/// A run at its start.
pub open spec fn fresh_run(start: u64, range_end: Option<u64>) -> ReplaceRun {
    ReplaceRun { phase: ReplacePhase::Fresh, cursor: start, range_end, count: 0 }
}

/// The search that a run asks for.
pub open spec fn search_of(run: ReplaceRun, r: ReplaceReading) -> ReplaceAction {
    ReplaceAction::Search {
        from: run.cursor,
        to: match run.range_end {
            Some(end) => end,
            None => position_of(r.doc_len),
        },
    }
}

/// The replacement that was made, of a match between these positions.
pub open spec fn made(match_start: u64, match_end: u64, r: ReplaceReading) -> Replacement {
    Replacement { match_start, match_end, new_end: r.new_end, after: r.after }
}

/// Where the search goes on after a replacement, when it began at `cursor`:
/// behind the new text if the match had width, and past it by hand otherwise.
pub open spec fn goes_on_at(cursor: u64, done: Replacement) -> u64 {
    if done.match_end > done.match_start {
        done.new_end
    } else {
        advanced(cursor, done.new_end, done.after)
    }
}

/// A run after that replacement, still to be told whether to go on.
pub open spec fn after_replacement(run: ReplaceRun, done: Replacement) -> ReplaceRun {
    let cursor = goes_on_at(run.cursor, done);
    ReplaceRun {
        phase: run.phase,
        cursor,
        range_end: match run.range_end {
            Some(end) => Some(moved_end(end, cursor, done) as u64),
            None => None,
        },
        count: (run.count + 1) as usize,
    }
}

/// Whether a run has come to the end of its range.
pub open spec fn at_end(run: ReplaceRun) -> bool {
    run.range_end matches Some(end) && run.cursor >= end
}

/// A run with another phase.
pub open spec fn in_phase(run: ReplaceRun, phase: ReplacePhase) -> ReplaceRun {
    ReplaceRun { phase, ..run }
}

/// What a run does next, and where it then stands.
pub open spec fn replace_next(run: ReplaceRun, r: ReplaceReading) -> (ReplaceRun, ReplaceAction) {
    match run.phase {
        ReplacePhase::Fresh => (in_phase(run, ReplacePhase::Open), ReplaceAction::BeginUndo),
        ReplacePhase::Open => (in_phase(run, ReplacePhase::Searching), search_of(run, r)),
        ReplacePhase::Searching => match r.found {
            Some((match_start, match_end)) => (
                in_phase(run, ReplacePhase::Replacing { match_start, match_end }),
                ReplaceAction::Replace,
            ),
            None => (in_phase(run, ReplacePhase::Closed), ReplaceAction::EndUndo),
        },
        ReplacePhase::Replacing { match_start, match_end } => {
            let next = after_replacement(run, made(match_start, match_end, r));
            if at_end(next) {
                (in_phase(next, ReplacePhase::Closed), ReplaceAction::EndUndo)
            } else {
                (in_phase(next, ReplacePhase::Searching), search_of(next, r))
            }
        },
        ReplacePhase::Closed | ReplacePhase::Over => (
            in_phase(run, ReplacePhase::Over),
            ReplaceAction::Finish { count: run.count, range_end: run.range_end },
        ),
    }
}

/// The numbers of a replacement can be held.
pub open spec fn replacement_fits(run: ReplaceRun, r: ReplaceReading) -> bool {
    run.phase matches ReplacePhase::Replacing { match_start, match_end } ==> {
        let done = made(match_start, match_end, r);
        &&& run.count < usize::MAX
        &&& run.range_end matches Some(end) ==> {
            &&& is_position(end as int)
            &&& is_position(match_start as int)
            &&& is_position(match_end as int)
            &&& is_position(r.new_end as int)
            &&& i64::MIN <= growth(done) <= i64::MAX
            &&& i64::MIN <= end + growth(done) <= i64::MAX
        }
    }
}

impl ReplaceRun {
    /// A replacement in the whole document; `None` for an empty query, which
    /// replaces nothing.
    pub fn in_document(query_is_empty: bool) -> (r: Option<ReplaceRun>)
        ensures
            r == if query_is_empty {
                None
            } else {
                Some(fresh_run(0, None))
            },
    {
        if query_is_empty {
            None
        } else {
            Some(ReplaceRun { phase: ReplacePhase::Fresh, cursor: 0, range_end: None, count: 0 })
        }
    }

    /// A replacement in `start..end`; `None` for an empty query or range.
    pub fn in_range(query_is_empty: bool, start: u64, end: u64) -> (r: Option<ReplaceRun>)
        ensures
            r == if query_is_empty || end <= start {
                None
            } else {
                Some(fresh_run(start, Some(end)))
            },
    {
        if query_is_empty || end <= start {
            None
        } else {
            Some(
                ReplaceRun {
                    phase: ReplacePhase::Fresh,
                    cursor: start,
                    range_end: Some(end),
                    count: 0,
                },
            )
        }
    }

    fn search(&self, doc_len: isize) -> (action: ReplaceAction)
        ensures
            forall|r: ReplaceReading|
                r.doc_len == doc_len ==> action == #[trigger] search_of(*self, r),
    {
        ReplaceAction::Search {
            from: self.cursor,
            to: match self.range_end {
                Some(end) => end,
                None => to_position(doc_len),
            },
        }
    }

    /// Go on: what to do next, given what the editor said to the last.
    pub fn step(&mut self, r: ReplaceReading) -> (action: ReplaceAction)
        requires
            replacement_fits(*old(self), r),
        ensures
            (*final(self), action) == replace_next(*old(self), r),
    {
        match self.phase {
            ReplacePhase::Fresh => {
                self.phase = ReplacePhase::Open;
                ReplaceAction::BeginUndo
            },
            ReplacePhase::Open => {
                let action: ReplaceAction = self.search(r.doc_len);
                self.phase = ReplacePhase::Searching;
                action
            },
            ReplacePhase::Searching => match r.found {
                Some((match_start, match_end)) => {
                    self.phase = ReplacePhase::Replacing { match_start, match_end };
                    ReplaceAction::Replace
                },
                None => {
                    self.phase = ReplacePhase::Closed;
                    ReplaceAction::EndUndo
                },
            },
            ReplacePhase::Replacing { match_start, match_end } => {
                let cursor: u64 = if match_end > match_start {
                    r.new_end
                } else {
                    advance(self.cursor, r.new_end, r.after)
                };
                let mut done: bool = false;
                if let Some(end) = self.range_end {
                    let new_len: u64 = r.new_end.saturating_sub(match_start);
                    let delta: i64 = new_len as i64 - (match_end as i64 - match_start as i64);
                    let moved: i64 = end as i64 + delta;
                    let kept: u64 = if moved >= 0 && moved as u64 >= cursor {
                        moved as u64
                    } else {
                        cursor
                    };
                    self.range_end = Some(kept);
                    done = cursor >= kept;
                }
                self.cursor = cursor;
                self.count = self.count + 1;
                if done {
                    self.phase = ReplacePhase::Closed;
                    ReplaceAction::EndUndo
                } else {
                    let action: ReplaceAction = self.search(r.doc_len);
                    self.phase = ReplacePhase::Searching;
                    action
                }
            },
            ReplacePhase::Closed | ReplacePhase::Over => {
                self.phase = ReplacePhase::Over;
                ReplaceAction::Finish { count: self.count, range_end: self.range_end }
            },
        }
    }
}

/// Where a run stands after a row of steps.
pub open spec fn replaced_so_far(run: ReplaceRun, readings: Seq<ReplaceReading>) -> ReplaceRun
    decreases readings.len(),
{
    if readings.len() == 0 {
        run
    } else {
        replace_next(replaced_so_far(run, readings.drop_last()), readings.last()).0
    }
}

/// What a run did at a step.
pub open spec fn replace_action(run: ReplaceRun, readings: Seq<ReplaceReading>, i: int) -> ReplaceAction {
    replace_next(replaced_so_far(run, readings.take(i)), readings[i]).1
}

/// How many matches a run replaced in a row of steps.
pub open spec fn replacements_in(run: ReplaceRun, readings: Seq<ReplaceReading>) -> nat
    decreases readings.len(),
{
    if readings.len() == 0 {
        0
    } else {
        replacements_in(run, readings.drop_last()) + if replace_action(
            run,
            readings,
            readings.len() - 1,
        ) is Replace {
            1nat
        } else {
            0nat
        }
    }
}

proof fn after_one_more(run: ReplaceRun, readings: Seq<ReplaceReading>, n: int)
    requires
        0 <= n < readings.len(),
    ensures
        replaced_so_far(run, readings.take(n + 1)) == replace_next(
            replaced_so_far(run, readings.take(n)),
            readings[n],
        ).0,
{
    assert(readings.take(n + 1).drop_last() =~= readings.take(n));
}

proof fn begun_by_the_first_step(run: ReplaceRun, readings: Seq<ReplaceReading>, n: int)
    requires
        run.phase is Fresh,
        0 <= n <= readings.len(),
    ensures
        replaced_so_far(run, readings.take(n)).phase is Fresh <==> n == 0,
    decreases n,
{
    if n > 0 {
        begun_by_the_first_step(run, readings, n - 1);
        after_one_more(run, readings, n - 1);
    }
}

proof fn closed_for_good(run: ReplaceRun, readings: Seq<ReplaceReading>, m: int, n: int)
    requires
        0 <= m <= n <= readings.len(),
        replaced_so_far(run, readings.take(m)).phase is Closed || replaced_so_far(
            run,
            readings.take(m),
        ).phase is Over,
    ensures
        replaced_so_far(run, readings.take(n)).phase is Closed || replaced_so_far(
            run,
            readings.take(n),
        ).phase is Over,
    decreases n,
{
    if m < n {
        closed_for_good(run, readings, m, n - 1);
        after_one_more(run, readings, n - 1);
    }
}

proof fn closed_by_a_step(run: ReplaceRun, readings: Seq<ReplaceReading>, n: int)
    requires
        run.phase is Fresh,
        0 <= n <= readings.len(),
        replaced_so_far(run, readings.take(n)).phase is Closed || replaced_so_far(
            run,
            readings.take(n),
        ).phase is Over,
    ensures
        exists|j: int| 0 <= j < n && replace_action(run, readings, j) is EndUndo,
    decreases n,
{
    if n > 0 {
        after_one_more(run, readings, n - 1);
        let before = replaced_so_far(run, readings.take(n - 1)).phase;
        if before is Closed || before is Over {
            closed_by_a_step(run, readings, n - 1);
        } else {
            assert(replace_action(run, readings, n - 1) is EndUndo);
        }
    }
}

/// One undo takes a replacement of all matches back: the change is begun
/// before everything else and once, every replacement falls into it, and once
/// it is complete nothing is left but the result.
pub proof fn one_undo_takes_it_all_back(
    start: u64,
    range_end: Option<u64>,
    readings: Seq<ReplaceReading>,
    i: int,
)
    requires
        0 <= i < readings.len(),
    ensures
        replace_action(fresh_run(start, range_end), readings, i) is BeginUndo <==> i == 0,
        replace_action(fresh_run(start, range_end), readings, i) is EndUndo ==> forall|j: int|
            i < j < readings.len() ==> (#[trigger] replace_action(
                fresh_run(start, range_end),
                readings,
                j,
            )) is Finish,
        replace_action(fresh_run(start, range_end), readings, i) is Finish ==> exists|j: int|
            0 <= j < i && replace_action(fresh_run(start, range_end), readings, j) is EndUndo,
{
    let run = fresh_run(start, range_end);
    begun_by_the_first_step(run, readings, i);
    after_one_more(run, readings, i);
    if replace_action(run, readings, i) is EndUndo {
        assert forall|j: int| i < j < readings.len() implies (#[trigger] replace_action(
            run,
            readings,
            j,
        )) is Finish by {
            closed_for_good(run, readings, i + 1, j);
        }
    }
    if replace_action(run, readings, i) is Finish {
        closed_by_a_step(run, readings, i);
    }
}

/// The number that a replacement of all matches reports is that of the
/// replacements it made.
pub proof fn replacements_are_counted(
    start: u64,
    range_end: Option<u64>,
    readings: Seq<ReplaceReading>,
)
    requires
        readings.len() <= usize::MAX,
    ensures
        ({
            let run = replaced_so_far(fresh_run(start, range_end), readings);
            let made = replacements_in(fresh_run(start, range_end), readings);
            &&& made <= readings.len()
            &&& made == if run.phase is Replacing {
                run.count + 1
            } else {
                run.count as int
            }
        }),
    decreases readings.len(),
{
    if readings.len() > 0 {
        let run = fresh_run(start, range_end);
        replacements_are_counted(start, range_end, readings.drop_last());
        assert(readings.take(readings.len() - 1) =~= readings.drop_last());
    }
}

/// Where the range of a run ends in a document of this length.
pub open spec fn end_of(run: ReplaceRun, doc_len: int) -> int {
    match run.range_end {
        Some(end) => end as int,
        None => doc_len,
    }
}

/// How much lies between the cursor of a run and the end of its range, in a
/// document of this length.
pub open spec fn still_ahead(run: ReplaceRun, doc_len: int) -> nat {
    if end_of(run, doc_len) > run.cursor {
        (end_of(run, doc_len) - run.cursor) as nat
    } else {
        0
    }
}

/// A match lies between the cursor and the end of the range, and before the end
/// if it has no width.
pub open spec fn found_ahead(cursor: u64, end: int, match_start: u64, match_end: u64) -> bool {
    &&& cursor <= match_start <= match_end <= end
    &&& match_start == match_end ==> match_end < end
}

/// A replacement that was made well in a range that ends at `end`: the match
/// lies ahead of the cursor and the new text begins where the match did. In the
/// place of a match of no width nothing is put, and the position after it is
/// beyond it.
pub open spec fn made_well(cursor: u64, end: int, done: Replacement) -> bool {
    &&& found_ahead(cursor, end, done.match_start, done.match_end)
    &&& done.match_start <= done.new_end
    &&& done.match_start == done.match_end ==> done.new_end == done.match_start && done.after
        > done.new_end
}

/// Behind a replaced match that has width nothing is left out and nothing
/// comes in: the search goes on where the new text ends, and what is ahead then
/// is what lay behind the match.
pub proof fn the_tail_stays_ahead(run: ReplaceRun, doc_len: int, done: Replacement)
    requires
        made_well(run.cursor, end_of(run, doc_len), done),
        done.match_start < done.match_end,
        end_of(run, doc_len) + growth(done) <= u64::MAX,
    ensures
        after_replacement(run, done).cursor == done.new_end,
        still_ahead(after_replacement(run, done), doc_len + growth(done)) == end_of(run, doc_len)
            - done.match_end,
{
}

/// Each replacement leaves less ahead, whatever the length of the new text.
pub proof fn a_replacement_leaves_less(run: ReplaceRun, doc_len: int, done: Replacement)
    requires
        made_well(run.cursor, end_of(run, doc_len), done),
        end_of(run, doc_len) + growth(done) <= u64::MAX,
    ensures
        still_ahead(after_replacement(run, done), doc_len + growth(done)) < still_ahead(
            run,
            doc_len,
        ),
{
}

/// What an editor says to a step of a run, in a document that was `doc_len`
/// long: a match that it finds lies in the range searched and is replaced well,
/// and the document grows by as much as the new text is longer.
pub open spec fn told_well(run: ReplaceRun, doc_len: int, r: ReplaceReading) -> bool {
    match run.phase {
        ReplacePhase::Searching => {
            &&& r.doc_len == doc_len
            &&& r.found matches Some((match_start, match_end)) ==> found_ahead(
                run.cursor,
                end_of(run, doc_len),
                match_start,
                match_end,
            )
        },
        ReplacePhase::Replacing { match_start, match_end } => {
            &&& made_well(run.cursor, end_of(run, doc_len), made(match_start, match_end, r))
            &&& r.doc_len == doc_len + growth(made(match_start, match_end, r))
            &&& replacement_fits(run, r)
        },
        _ => r.doc_len == doc_len,
    }
}

/// The length of a document that was `doc_len` long, after a row of steps.
pub open spec fn length_after(doc_len: int, readings: Seq<ReplaceReading>) -> int {
    if readings.len() == 0 {
        doc_len
    } else {
        readings.last().doc_len as int
    }
}

/// Each of a row of steps was told well, in a document that was `doc_len` long
/// at first.
pub open spec fn all_told_well(
    run: ReplaceRun,
    doc_len: int,
    readings: Seq<ReplaceReading>,
) -> bool
    decreases readings.len(),
{
    readings.len() == 0 || {
        let before = readings.drop_last();
        &&& all_told_well(run, doc_len, before)
        &&& told_well(
            replaced_so_far(run, before),
            length_after(doc_len, before),
            readings.last(),
        )
    }
}

proof fn less_is_ahead(
    start: u64,
    range_end: Option<u64>,
    doc_len: int,
    readings: Seq<ReplaceReading>,
)
    requires
        all_told_well(fresh_run(start, range_end), doc_len, readings),
    ensures
        ({
            let run = replaced_so_far(fresh_run(start, range_end), readings);
            let made = replacements_in(fresh_run(start, range_end), readings);
            let now = length_after(doc_len, readings);
            let n = readings.len();
            &&& match run.phase {
                ReplacePhase::Fresh => n == 0 && made == 0,
                ReplacePhase::Open => n == 1 && made == 0,
                ReplacePhase::Searching => n == 2 + 2 * made,
                ReplacePhase::Replacing { match_start, match_end } => n == 1 + 2 * made
                    && found_ahead(run.cursor, end_of(run, now), match_start, match_end),
                ReplacePhase::Closed => n <= 3 + 2 * made,
                ReplacePhase::Over => true,
            }
            &&& still_ahead(run, now) + made <= still_ahead(
                fresh_run(start, range_end),
                doc_len,
            ) + if run.phase is Replacing {
                1int
            } else {
                0int
            }
        }),
    decreases readings.len(),
{
    if readings.len() > 0 {
        let fresh = fresh_run(start, range_end);
        let before = readings.drop_last();
        let run = replaced_so_far(fresh, before);
        let r = readings.last();
        less_is_ahead(start, range_end, doc_len, before);
        assert(readings.take(readings.len() - 1) =~= before);
        if let ReplacePhase::Replacing { match_start, match_end } = run.phase {
            a_replacement_leaves_less(
                run,
                length_after(doc_len, before),
                made(match_start, match_end, r),
            );
        }
    }
}

/// A replacement of all matches ends, as long as each is replaced well: it
/// makes no more replacements than there are positions ahead of it at first,
/// and it is over after twice as many steps and four more.
pub proof fn replacements_end(
    start: u64,
    range_end: Option<u64>,
    doc_len: int,
    readings: Seq<ReplaceReading>,
)
    requires
        all_told_well(fresh_run(start, range_end), doc_len, readings),
    ensures
        ({
            let fresh = fresh_run(start, range_end);
            let ahead = still_ahead(fresh, doc_len);
            &&& replacements_in(fresh, readings) <= ahead
            &&& readings.len() >= 2 * ahead + 4 ==> replaced_so_far(fresh, readings).phase is Over
        }),
{
    less_is_ahead(start, range_end, doc_len, readings);
}

/// Every match that was found has width.
pub open spec fn finds_width(readings: Seq<ReplaceReading>) -> bool {
    forall|i: int|
        0 <= i < readings.len() ==> ((#[trigger] readings[i]).found matches Some((from, to))
            ==> from < to)
}

/// How much of what was ahead at first a run has gone through in a row of
/// steps: for each match that was replaced, what was searched before it, and
/// the match itself.
pub open spec fn gone_through(run: ReplaceRun, readings: Seq<ReplaceReading>) -> int
    decreases readings.len(),
{
    if readings.len() == 0 {
        0
    } else {
        let before = readings.drop_last();
        let now = replaced_so_far(run, before);
        gone_through(run, before) + match now.phase {
            ReplacePhase::Replacing { match_start, match_end } => match_end - now.cursor,
            _ => 0,
        }
    }
}

proof fn all_is_accounted_for(
    start: u64,
    range_end: Option<u64>,
    doc_len: int,
    readings: Seq<ReplaceReading>,
)
    requires
        all_told_well(fresh_run(start, range_end), doc_len, readings),
        finds_width(readings),
        start <= end_of(fresh_run(start, range_end), doc_len),
    ensures
        ({
            let fresh = fresh_run(start, range_end);
            let run = replaced_so_far(fresh, readings);
            let now = length_after(doc_len, readings);
            &&& run.cursor <= end_of(run, now)
            &&& run.phase matches ReplacePhase::Replacing { match_start, match_end } ==> match_start
                < match_end
            &&& gone_through(fresh, readings) + still_ahead(run, now) == still_ahead(fresh, doc_len)
        }),
    decreases readings.len(),
{
    if readings.len() > 0 {
        let fresh = fresh_run(start, range_end);
        let before = readings.drop_last();
        let run = replaced_so_far(fresh, before);
        let r = readings.last();
        assert(readings[readings.len() - 1] == r);
        assert forall|i: int| 0 <= i < before.len() implies ((#[trigger] before[i]).found matches Some(
            (from, to),
        ) ==> from < to) by {
            assert(before[i] == readings[i]);
        }
        all_is_accounted_for(start, range_end, doc_len, before);
        if let ReplacePhase::Replacing { match_start, match_end } = run.phase {
            the_tail_stays_ahead(
                run,
                length_after(doc_len, before),
                made(match_start, match_end, r),
            );
        }
    }
}

/// A replacement of all matches leaves no match unvisited, as long as the
/// matches have width: what it has searched and replaced and what is still
/// ahead make up what was ahead at first, without a gap, and it completes the
/// change only when a search of all that is ahead has found nothing or nothing
/// is ahead any more.
pub proof fn no_match_is_left_out(
    start: u64,
    range_end: Option<u64>,
    doc_len: int,
    readings: Seq<ReplaceReading>,
)
    requires
        all_told_well(fresh_run(start, range_end), doc_len, readings),
        finds_width(readings),
        start <= end_of(fresh_run(start, range_end), doc_len),
        readings.len() > 0,
    ensures
        ({
            let fresh = fresh_run(start, range_end);
            let before = replaced_so_far(fresh, readings.drop_last());
            let run = replaced_so_far(fresh, readings);
            let now = length_after(doc_len, readings);
            &&& gone_through(fresh, readings) + still_ahead(run, now) == still_ahead(fresh, doc_len)
            &&& replace_action(fresh, readings, readings.len() - 1) is EndUndo ==> {
                ||| before.phase is Searching && readings.last().found is None
                ||| still_ahead(run, now) == 0
            }
        }),
{
    let fresh = fresh_run(start, range_end);
    all_is_accounted_for(start, range_end, doc_len, readings);
    assert(readings.take(readings.len() - 1) =~= readings.drop_last());
}

/// Where a search for the next match in `start..end` begins: at the caret if
/// that is in the range, else at its start. `None` for an empty query or
/// range.
pub fn next_in_range(query_is_empty: bool, start: u64, end: u64, caret: isize) -> (r: Option<
    (u64, u64),
>)
    ensures
        r == if query_is_empty || end <= start {
            None
        } else if start <= position_of(caret) < end {
            Some((position_of(caret), end))
        } else {
            Some((start, end))
        },
{
    if query_is_empty || end <= start {
        return None;
    }
    let at: u64 = to_position(caret);
    if at >= start && at < end {
        Some((at, end))
    } else {
        Some((start, end))
    }
}

/// A search for the last match before the caret, which walks forward from the
/// start of the range.
#[derive(Clone, Copy, PartialEq, Eq, Debug)]
pub struct PrevSweep {
    pub cursor: u64,
    pub upper: u64,
    pub last: Option<(u64, u64)>,
}

impl PrevSweep {
    /// A search in `start..end`, up to the caret if that is in the range.
    pub fn new(query_is_empty: bool, start: u64, end: u64, caret: isize) -> (r: Option<PrevSweep>)
        ensures
            r == if query_is_empty || end <= start {
                None
            } else {
                Some(
                    PrevSweep {
                        cursor: start,
                        upper: if start < position_of(caret) <= end {
                            position_of(caret)
                        } else {
                            end
                        },
                        last: None,
                    },
                )
            },
    {
        if query_is_empty || end <= start {
            return None;
        }
        let at: u64 = to_position(caret);
        let upper: u64 = if at > start && at <= end {
            at
        } else {
            end
        };
        Some(PrevSweep { cursor: start, upper, last: None })
    }

    /// The range to search next; `None` once the walk is at its end.
    pub fn target(&self) -> (r: Option<(u64, u64)>)
        ensures
            r == if self.cursor < self.upper {
                Some((self.cursor, self.upper))
            } else {
                None
            },
    {
        if self.cursor < self.upper {
            Some((self.cursor, self.upper))
        } else {
            None
        }
    }

    /// Take a match in; it is the last one so far.
    pub fn found(&mut self, start: u64, end: u64, after: isize)
        ensures
            final(self).last == Some((start, end)),
            final(self).upper == old(self).upper,
            final(self).cursor == advanced(old(self).cursor, end, after),
    {
        self.last = Some((start, end));
        self.cursor = advance(self.cursor, end, after);
    }
}

/// The selection to replace, if there is one to look at: nothing for an empty
/// query or an empty selection.
pub fn selection_to_replace(query_is_empty: bool, sel_start: isize, sel_end: isize) -> (r: Option<
    (u64, u64),
>)
    ensures
        r == if query_is_empty || position_of(sel_start) == position_of(sel_end) {
            None
        } else {
            Some((position_of(sel_start), position_of(sel_end)))
        },
{
    if query_is_empty {
        return None;
    }
    let start: u64 = to_position(sel_start);
    let end: u64 = to_position(sel_end);
    if start == end {
        None
    } else {
        Some((start, end))
    }
}

/// Whether a selection is replaced, given the match that was found in it: only
/// if the match is all of it. The user may have selected something else since
/// the last search.
pub fn replaces_selection(selection: (u64, u64), found: Option<(u64, u64)>) -> (r: bool)
    ensures
        r == (found == Some(selection)),
{
    match found {
        Some((start, end)) => start == selection.0 && end == selection.1,
        None => false,
    }
}

/// What a search reports: the place of a match, for an answer that is not -1.
pub fn search_result(answer: isize) -> (r: Option<u64>)
    ensures
        r == if answer == -1 {
            None
        } else {
            Some(answer as u64)
        },
{
    if answer == -1 {
        None
    } else {
        Some(answer as u64)
    }
}

/// Every search that a run asks for covers all that is still ahead: it begins
/// at the cursor and goes to the end of the range or, without a range, to the
/// end of the document.
pub proof fn a_search_covers_all_that_is_ahead(run: ReplaceRun, r: ReplaceReading)
    ensures
        replace_next(run, r).1 matches ReplaceAction::Search { from, to } ==> {
            let next = replace_next(run, r).0;
            &&& from == next.cursor
            &&& next.range_end matches Some(end) ==> to == end
            &&& next.range_end is None && r.doc_len >= 0 ==> to == r.doc_len
            &&& next.range_end is None && r.doc_len < 0 ==> to == 0
        },
{
}

/// A match that was found is replaced, where it was found; and the run is at an
/// end of searching when nothing was found.
pub proof fn what_is_found_is_replaced(run: ReplaceRun, r: ReplaceReading)
    requires
        run.phase is Searching,
    ensures
        r.found is None ==> replace_next(run, r).1 == ReplaceAction::EndUndo,
        r.found matches Some((from, to)) ==> replace_next(run, r).1 == ReplaceAction::Replace
            && replace_next(run, r).0.phase == (ReplacePhase::Replacing {
            match_start: from,
            match_end: to,
        }),
        replace_next(run, r).0.cursor == run.cursor,
        replace_next(run, r).0.range_end == run.range_end,
        replace_next(run, r).0.count == run.count,
{
}

/// After a replacement the search goes on behind the new text, one more match
/// counts, and the end of a range has moved by as much as the new text is longer
/// than the old. The run goes on unless its range is used up, and a run without
/// a range always does.
pub proof fn a_replacement_moves_on(run: ReplaceRun, r: ReplaceReading)
    requires
        run.phase matches ReplacePhase::Replacing { match_start, match_end } && run.cursor
            <= match_start <= match_end && match_start <= r.new_end && (match_start < match_end
            || run.cursor < r.new_end),
        run.count < usize::MAX,
        run.range_end matches Some(end) ==> run.phase->match_end <= end && end + r.new_end
            <= u64::MAX,
    ensures
        ({
            let next = replace_next(run, r).0;
            let action = replace_next(run, r).1;
            &&& next.cursor == r.new_end
            &&& next.count == run.count + 1
            &&& run.range_end is None ==> next.range_end is None && action is Search
            &&& run.range_end matches Some(end) ==> {
                &&& next.range_end matches Some(moved) && moved - r.new_end == end
                    - run.phase->match_end
                &&& action is Search <==> run.phase->match_end < end
                &&& action is EndUndo <==> run.phase->match_end == end
            }
        }),
{
}

/// A match of no width with nothing put in its place, at the cursor, is stepped
/// over: the search goes on where the editor says the next position is.
pub proof fn a_match_of_no_width_is_stepped_over(run: ReplaceRun, r: ReplaceReading)
    requires
        run.phase == (ReplacePhase::Replacing { match_start: run.cursor, match_end: run.cursor }),
        r.new_end == run.cursor,
        r.after >= 0,
    ensures
        replace_next(run, r).0.cursor == r.after,
{
}

/// A run begins where it was told to, counts from nothing, and in the end
/// reports its count and the end of its range.
pub proof fn a_run_reports_what_it_did(run: ReplaceRun, r: ReplaceReading)
    ensures
        run.phase is Fresh || run.phase is Open ==> replace_next(run, r).0.cursor == run.cursor
            && replace_next(run, r).0.range_end == run.range_end && replace_next(run, r).0.count
            == run.count,
        run.phase is Fresh ==> replace_next(run, r).1 is BeginUndo,
        run.phase is Open ==> replace_next(run, r).1 is Search,
        run.phase is Closed || run.phase is Over ==> replace_next(run, r).1
            == (ReplaceAction::Finish { count: run.count, range_end: run.range_end }),
        forall|start: u64, range_end: Option<u64>|
            (#[trigger] fresh_run(start, range_end)).cursor == start && fresh_run(
                start,
                range_end,
            ).range_end == range_end && fresh_run(start, range_end).count == 0 && fresh_run(
                start,
                range_end,
            ).phase is Fresh,
{
}

/// A reading of the editor is the position itself, and zero if it is below
/// that.
pub proof fn a_position_is_never_negative(reading: isize)
    ensures
        reading >= 0 ==> position_of(reading) == reading,
        reading < 0 ==> position_of(reading) == 0,
{
}

/// A search for the next match stays in its range and, where the caret is in
/// the range, does not look behind it; where the caret is not, it looks through
/// all of the range.
pub proof fn the_next_match_is_looked_for_ahead(
    query_is_empty: bool,
    start: u64,
    end: u64,
    caret: isize,
    r: Option<(u64, u64)>,
)
    requires
        call_ensures(next_in_range, (query_is_empty, start, end, caret), r),
    ensures
        r is Some <==> !query_is_empty && start < end,
        r matches Some((from, to)) ==> {
            &&& start <= from < end
            &&& to == end
            &&& start <= caret < end ==> from == caret
            &&& from != start ==> from == caret
        },
{
}

/// A search for the match before the caret walks from the start of its range,
/// up to the caret if that is behind the start, and has found nothing yet.
pub proof fn the_match_before_is_looked_for_behind(
    query_is_empty: bool,
    start: u64,
    end: u64,
    caret: isize,
    r: Option<PrevSweep>,
)
    requires
        call_ensures(PrevSweep::new, (query_is_empty, start, end, caret), r),
    ensures
        r is Some <==> !query_is_empty && start < end,
        r matches Some(sweep) ==> {
            &&& sweep.cursor == start
            &&& start < sweep.upper <= end
            &&& start < caret <= end ==> sweep.upper == caret
            &&& sweep.upper != end ==> sweep.upper == caret
            &&& sweep.last is None
        },
{
}

/// A walk goes on behind a match that took it on, and by hand over one that did
/// not; it never stands still before the end of its range.
pub proof fn a_walk_goes_on_behind_its_match(cursor: u64, upper: u64, end: u64, after: isize)
    requires
        match_in(cursor, upper, end, after),
    ensures
        end > cursor ==> advanced(cursor, end, after) == end,
        end == cursor && after >= 0 ==> advanced(cursor, end, after) == after,
        cursor < upper ==> advanced(cursor, end, after) > cursor,
        end <= advanced(cursor, end, after) || end == upper,
{
}

/// A selection is looked at exactly if there is a query and the selection is
/// not empty, and only a match that is all of it is replaced.
pub proof fn a_selection_is_replaced_whole(
    query_is_empty: bool,
    sel_start: isize,
    sel_end: isize,
    found: Option<(u64, u64)>,
    selection: Option<(u64, u64)>,
    replaced: bool,
)
    requires
        0 <= sel_start <= sel_end,
        call_ensures(selection_to_replace, (query_is_empty, sel_start, sel_end), selection),
        selection is Some ==> call_ensures(replaces_selection, (selection->0, found), replaced),
    ensures
        selection is Some <==> !query_is_empty && sel_start < sel_end,
        selection is Some ==> (replaced <==> (found matches Some((from, to)) && from
            == sel_start && to == sel_end)),
{
}

/// A count looks through the whole document, from its start to its end, and
/// takes each match in as one; it never looks again at what lies before the end
/// of a match.
pub proof fn a_match_counts_once(
    doc_len: isize,
    made: Option<CountSweep>,
    sweep: CountSweep,
    range: Option<(u64, u64)>,
    end: u64,
    after: isize,
)
    requires
        doc_len >= 0,
        call_ensures(CountSweep::new, (false, doc_len), made),
        call_ensures(CountSweep::target, (&sweep,), range),
    ensures
        made matches Some(count) && count.cursor == 0 && count.doc_len == doc_len && count.count
            == 0,
        range is None <==> sweep.cursor >= sweep.doc_len,
        range matches Some((from, to)) ==> from == sweep.cursor && to == sweep.doc_len,
        forall|count: &mut CountSweep| #[trigger] call_ensures(
            CountSweep::found,
            (count, end, after),
            (),
        ) ==> {
            &&& final(count).count == count.count + 1
            &&& final(count).doc_len == count.doc_len
            &&& end > count.cursor ==> final(count).cursor == end
            &&& end <= count.cursor && after >= 0 ==> final(count).cursor == after
        },
{
}

/// The search for the match before the caret keeps the match that it took in
/// last, as it was, and looks on behind it up to where it was told to.
pub proof fn the_last_match_is_kept(
    sweep: PrevSweep,
    range: Option<(u64, u64)>,
    start: u64,
    end: u64,
    after: isize,
)
    requires
        call_ensures(PrevSweep::target, (&sweep,), range),
    ensures
        range is None <==> sweep.cursor >= sweep.upper,
        range matches Some((from, to)) ==> from == sweep.cursor && to == sweep.upper,
        forall|walk: &mut PrevSweep| #[trigger] call_ensures(
            PrevSweep::found,
            (walk, start, end, after),
            (),
        ) ==> {
            &&& final(walk).last == Some((start, end))
            &&& final(walk).upper == walk.upper
            &&& end > walk.cursor ==> final(walk).cursor == end
            &&& end <= walk.cursor && after >= 0 ==> final(walk).cursor == after
        },
{
}

/// A replacement of all matches begins at the start of the document or of its
/// range, and there is none for an empty query or an empty range.
pub proof fn a_run_begins_at_the_start(
    query_is_empty: bool,
    start: u64,
    end: u64,
    whole: Option<ReplaceRun>,
    part: Option<ReplaceRun>,
)
    requires
        call_ensures(ReplaceRun::in_document, (query_is_empty,), whole),
        call_ensures(ReplaceRun::in_range, (query_is_empty, start, end), part),
    ensures
        whole is None <==> query_is_empty,
        whole matches Some(run) ==> run.cursor == 0 && run.range_end is None && run.count == 0,
        part is None <==> query_is_empty || start >= end,
        part matches Some(run) ==> run.cursor == start && run.range_end == Some(end) && run.count
            == 0,
{
}

/// What the editor answers is where the match is, but for the answer that there
/// is none.
pub proof fn an_answer_is_a_place(answer: isize, r: Option<u64>)
    requires
        answer >= -1,
        call_ensures(search_result, (answer,), r),
    ensures
        r is None <==> answer == -1,
        r matches Some(place) ==> place == answer,
{
}

/// A replacement changes the length of a document by what is put in less what
/// is taken out, and the end of a range moves by as much, but not before the
/// place where the search goes on.
pub proof fn a_range_moves_with_its_text(range_end: u64, cursor: u64, done: Replacement)
    ensures
        done.new_end >= done.match_start ==> growth(done) == done.new_end - done.match_end,
        done.new_end < done.match_start ==> growth(done) == done.match_start - done.match_end,
        moved_end(range_end, cursor, done) >= cursor,
        range_end + growth(done) >= cursor ==> moved_end(range_end, cursor, done) == range_end
            + growth(done),
        range_end + growth(done) < cursor ==> moved_end(range_end, cursor, done) == cursor,
{
}

/// A run that has completed its change is closed, and one that has reported is
/// over.
pub proof fn a_completed_run_is_closed(run: ReplaceRun, r: ReplaceReading)
    ensures
        replace_next(run, r).1 is EndUndo ==> replace_next(run, r).0.phase is Closed,
        replace_next(run, r).1 is Finish ==> replace_next(run, r).0.phase is Over,
        replace_next(run, r).1 is Search ==> replace_next(run, r).0.phase is Searching,
        replace_next(run, r).1 is BeginUndo ==> replace_next(run, r).0.phase is Open,
        replace_next(run, r).1 is Replace ==> replace_next(run, r).0.phase is Replacing,
{
}

} // verus!
