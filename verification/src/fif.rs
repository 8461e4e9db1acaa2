//! Find in Files: the request, the results dock and the jump to a match.
//!
//! Matches are kept as they come in and become rows when the job ends. Texts
//! that come from files and paths arrive here fit for display.
use vstd::prelude::*;
use vstd::utf8::encode_utf8;
use crate::editor_search::SearchFlags;
use crate::paths::{same_path, same_way};
use crate::text::{
    chars_of, decimal, push_decimal, same_text, split_words, string_of, text_of, texts, to_text, trim_text,
    trimmed, words,
};

verus! {

/// Height that the dock asks for.
pub const DOCK_MIN_HEIGHT: i32 = 160;

/// What the Find in Files page of the dialog holds.
pub struct FifInputs {
    pub query: String,
    /// The replacement, for a replace in files.
    pub replacement: Option<String>,
    pub match_case: bool,
    pub whole_word: bool,
    pub regex: bool,
    pub directory: String,
    pub filters: String,
    pub recurse: bool,
    pub hidden: bool,
}

/// A search to start.
pub struct FifRequest {
    pub query: String,
    pub replacement: Option<String>,
    pub flags: SearchFlags,
    pub root: String,
    /// Patterns that a file has to match one of; none means every file.
    pub includes: Vec<String>,
    pub recurse: bool,
    pub hidden: bool,
}

/// A filter that stands for all files.
pub open spec fn is_everything(token: Seq<char>) -> bool {
    token == "*"@ || token == "*.*"@
}

/// A filter that leaves files out, which is not supported.
pub open spec fn is_negation(token: Seq<char>) -> bool {
    token.len() > 0 && token[0] == '!'
}

/// A pattern that applies at any depth already.
pub open spec fn is_anchored(token: Seq<char>) -> bool {
    token.len() >= 3 && token[0] == '*' && token[1] == '*' && token[2] == '/'
}

/// The pattern of a filter: the filter, made to apply at any depth.
pub open spec fn pattern_of(token: Seq<char>) -> Seq<char> {
    if is_anchored(token) {
        token
    } else {
        "**/"@ + token
    }
}

/// The patterns of a row of filters; `None` if one of them is a negation.
pub open spec fn patterns_of(tokens: Seq<Seq<char>>) -> Option<Seq<Seq<char>>>
    decreases tokens.len(),
{
    if tokens.len() == 0 {
        Some(Seq::empty())
    } else {
        match patterns_of(tokens.drop_last()) {
            None => None,
            Some(before) => {
                let token = tokens.last();
                if is_everything(token) {
                    Some(before)
                } else if is_negation(token) {
                    None
                } else {
                    Some(before.push(pattern_of(token)))
                }
            },
        }
    }
}

/// What is said about a negation in the filters.
pub open spec fn negation_message() -> Seq<char> {
    "filters: '!' negation is not supported — remove those tokens"@
}

/// Work out the patterns that the filters box stands for. Filters are
/// separated by white space.
pub fn filter_patterns(filters: &str) -> (r: Result<Vec<String>, String>)
    ensures
        match patterns_of(words(filters@)) {
            Some(patterns) => r is Ok && texts(r->Ok_0@) == patterns,
            None => r is Err && r->Err_0@ == negation_message(),
        },
{
    let tokens: Vec<String> = split_words(filters);
    let ghost all = texts(tokens@);
    let mut out: Vec<String> = Vec::new();
    let mut i: usize = 0;
    while i < tokens.len()
        invariant
            i <= tokens@.len(),
            all == texts(tokens@),
            all == words(filters@),
            patterns_of(all.take(i as int)) == Some(texts(out@)),
        decreases tokens.len() - i,
    {
        assert(all.take(i + 1).drop_last() =~= all.take(i as int));
        let token: &str = tokens[i].as_str();
        let chars: Vec<char> = chars_of(token);
        if !(same_text(token, "*") || same_text(token, "*.*")) {
            if chars.len() > 0 && chars[0] == '!' {
                proof {
                    negation_decides(all, i as int);
                }
                return Err(
                    String::from_str("filters: '!' negation is not supported — remove those tokens"),
                );
            }
            let ghost before = texts(out@);
            if chars.len() >= 3 && chars[0] == '*' && chars[1] == '*' && chars[2] == '/' {
                let pattern: String = string_of(&chars);
                out.push(pattern);
                assert(texts(out@) =~= before.push(pattern@));
            } else {
                let mut pattern: String = String::from_str("**/");
                pattern.append(token);
                out.push(pattern);
                assert(texts(out@) =~= before.push(pattern@));
            }
        }
        i += 1;
    }
    assert(all.take(i as int) =~= all);
    Ok(out)
}

proof fn negation_decides(tokens: Seq<Seq<char>>, i: int)
    requires
        0 <= i < tokens.len(),
        patterns_of(tokens.take(i + 1)) is None,
    ensures
        patterns_of(tokens) is None,
    decreases tokens.len(),
{
    if i == tokens.len() - 1 {
        assert(tokens.take(i + 1) =~= tokens);
    } else {
        assert(tokens.drop_last().take(i + 1) =~= tokens.take(i + 1));
        negation_decides(tokens.drop_last(), i);
    }
}

/// Every pattern applies at any depth, and there are no more patterns than
/// filters; filters that all stand for everything leave no pattern.
pub proof fn patterns_are_anchored(tokens: Seq<Seq<char>>, i: int)
    requires
        patterns_of(tokens) is Some,
        0 <= i < patterns_of(tokens)->Some_0.len(),
    ensures
        is_anchored(patterns_of(tokens)->Some_0[i]),
        patterns_of(tokens)->Some_0.len() <= tokens.len(),
    decreases tokens.len(),
{
    let before = patterns_of(tokens.drop_last())->Some_0;
    reveal_strlit("**/");
    if before.len() > 0 {
        patterns_are_anchored(
            tokens.drop_last(),
            if i < before.len() {
                i
            } else {
                0
            },
        );
    }
}

/// Turn what the dialog holds into a search, or say what is wrong with it: no
/// search term, no directory, or a filter that is not supported, in this
/// order.
pub fn run_search(inputs: FifInputs) -> (r: Result<FifRequest, String>)
    ensures
        if inputs.query@.len() == 0 {
            r is Err && r->Err_0@ == "Enter a search term"@
        } else if trimmed(inputs.directory@).len() == 0 {
            r is Err && r->Err_0@ == "Enter a directory to search"@
        } else {
            match patterns_of(words(inputs.filters@)) {
                None => r is Err && r->Err_0@ == negation_message(),
                Some(patterns) => {
                    &&& r is Ok
                    &&& r->Ok_0.query == inputs.query
                    &&& r->Ok_0.replacement == inputs.replacement
                    &&& r->Ok_0.flags == (SearchFlags {
                        match_case: inputs.match_case,
                        whole_word: inputs.whole_word,
                        regex: inputs.regex,
                    })
                    &&& r->Ok_0.root@ == trimmed(inputs.directory@)
                    &&& texts(r->Ok_0.includes@) == patterns
                    &&& r->Ok_0.recurse == inputs.recurse
                    &&& r->Ok_0.hidden == inputs.hidden
                },
            }
        },
{
    if inputs.query.as_str().is_empty() {
        return Err(String::from_str("Enter a search term"));
    }
    let root: String = trim_text(inputs.directory.as_str());
    if root.as_str().is_empty() {
        return Err(String::from_str("Enter a directory to search"));
    }
    match filter_patterns(inputs.filters.as_str()) {
        Err(e) => Err(e),
        Ok(includes) => Ok(
            FifRequest {
                query: inputs.query,
                replacement: inputs.replacement,
                flags: SearchFlags {
                    match_case: inputs.match_case,
                    whole_word: inputs.whole_word,
                    regex: inputs.regex,
                },
                root,
                includes,
                recurse: inputs.recurse,
                hidden: inputs.hidden,
            },
        ),
    }
}

/// One match in a file: its line, counted from one, the columns it goes from
/// and to, in bytes, and the line's text for display.
pub struct FifMatch {
    pub line_no: u32,
    pub col_start: u32,
    pub col_end: u32,
    pub line_text: String,
}

/// A file with matches.
pub struct PendingFile {
    pub path: Vec<u8>,
    /// The path for display.
    pub display: String,
    pub matches: Vec<FifMatch>,
    /// Not all of the file's matches are there.
    pub truncated: bool,
}

/// What became of a replacement in a buffer that is open.
#[derive(Clone, Copy, PartialEq, Eq, Structural, Debug)]
pub enum OpenBufferOutcome {
    Replaced,
    SkippedDirty,
    TabClosed,
}

/// The numbers of a job that ran to its end.
#[derive(Clone, Copy, PartialEq, Eq, Structural, Debug)]
pub struct FifStats {
    pub total_matches: usize,
    pub files_with_matches: usize,
    pub files_scanned: usize,
    pub total_replacements: usize,
    pub files_modified: usize,
    pub global_cap_hit: bool,
    pub depth_cap_hit: bool,
}

/// What a worker reports. Every report names the job it belongs to.
pub enum FifEvent {
    FileMatches { job: u64, file: PendingFile },
    ReplacedInOpenBuffer { job: u64, replaced: usize, outcome: OpenBufferOutcome },
    Done { job: u64, stats: FifStats },
    Cancelled { job: u64 },
    /// Something that does not concern the dock.
    Other,
}

/// How a job ended.
#[derive(Clone, Copy, PartialEq, Eq, Structural, Debug)]
pub enum Terminal {
    Done(FifStats),
    Cancelled,
}

/// Where a result leads. The path is kept as text.
pub struct JumpTarget {
    pub path: String,
    pub line_no: u32,
    pub col_start: u32,
    pub col_end: u32,
}

/// A row of the results: what it shows, and where it leads.
pub struct ResultRow {
    pub file: String,
    pub line: String,
    pub text: String,
    pub target: JumpTarget,
}

/// [`ResultRow`] as a value.
#[verifier::ext_equal]
pub struct RowView {
    pub file: Seq<char>,
    pub line: Seq<char>,
    pub text: Seq<char>,
    pub path: Seq<char>,
    pub line_no: u32,
    pub col_start: u32,
    pub col_end: u32,
}

impl ResultRow {
    pub open spec fn view(&self) -> RowView {
        RowView {
            file: self.file@,
            line: self.line@,
            text: self.text@,
            path: self.target.path@,
            line_no: self.target.line_no,
            col_start: self.target.col_start,
            col_end: self.target.col_end,
        }
    }
}

/// A row leads to a match in the file whose path reads `path`: to its line and
/// to the columns that it goes from and to; and it shows the line's text.
pub open spec fn leads_to_match(row: ResultRow, path: Seq<char>, m: FifMatch) -> bool {
    &&& row.target.path@ == path
    &&& row.target.line_no == m.line_no
    &&& row.target.col_start == m.col_start
    &&& row.target.col_end == m.col_end
    &&& row.text@ == m.line_text@
}

/// The rows as values.
pub open spec fn row_views(rows: Seq<ResultRow>) -> Seq<RowView> {
    rows.map_values(|r: ResultRow| r@)
}

/// The results dock: its rows and header, and the job that fills it.
pub struct FifDock {
    pub rows: Vec<ResultRow>,
    pub header: String,
    pub cancel_enabled: bool,
    pub active_job: Option<u64>,
    pub pending: Vec<PendingFile>,
    pub pending_jump: Option<JumpTarget>,
    pub hit_files: usize,
    pub hit_matches: usize,
    pub replaced_in_buffers: usize,
    pub skipped_dirty: usize,
    pub is_replace: bool,
}

/// The job that an event belongs to, if the dock is concerned.
pub open spec fn job_of(ev: FifEvent) -> Option<u64> {
    match ev {
        FifEvent::FileMatches { job, file } => Some(job),
        FifEvent::ReplacedInOpenBuffer { job, replaced, outcome } => Some(job),
        FifEvent::Done { job, stats } => Some(job),
        FifEvent::Cancelled { job } => Some(job),
        FifEvent::Other => None,
    }
}

/// The files that a job reported, in order.
pub open spec fn files_of(events: Seq<FifEvent>, job: u64) -> Seq<PendingFile>
    decreases events.len(),
{
    if events.len() == 0 {
        Seq::empty()
    } else {
        let before = files_of(events.drop_last(), job);
        match events.last() {
            FifEvent::FileMatches { job: j, file } => if j == job {
                before.push(file)
            } else {
                before
            },
            _ => before,
        }
    }
}

/// The matches in a row of files.
pub open spec fn match_count(files: Seq<PendingFile>) -> nat
    decreases files.len(),
{
    if files.len() == 0 {
        0
    } else {
        match_count(files.drop_last()) + files.last().matches@.len()
    }
}

/// The replacements that a job made in open buffers.
pub open spec fn replaced_of(events: Seq<FifEvent>, job: u64) -> nat
    decreases events.len(),
{
    if events.len() == 0 {
        0
    } else {
        replaced_of(events.drop_last(), job) + match events.last() {
            FifEvent::ReplacedInOpenBuffer { job: j, replaced, outcome } => if j == job && outcome
                == OpenBufferOutcome::Replaced {
                replaced as nat
            } else {
                0
            },
            _ => 0,
        }
    }
}

/// The open files that a job left alone because they had unsaved changes.
pub open spec fn skipped_of(events: Seq<FifEvent>, job: u64) -> nat
    decreases events.len(),
{
    if events.len() == 0 {
        0
    } else {
        skipped_of(events.drop_last(), job) + match events.last() {
            FifEvent::ReplacedInOpenBuffer { job: j, replaced, outcome } => if j == job && outcome
                == OpenBufferOutcome::SkippedDirty {
                1nat
            } else {
                0
            },
            _ => 0,
        }
    }
}

/// How a job ended, as far as a row of events tells: by the last of them that
/// is about its end.
pub open spec fn terminal_of(events: Seq<FifEvent>, job: u64) -> Option<Terminal>
    decreases events.len(),
{
    if events.len() == 0 {
        None
    } else {
        match events.last() {
            FifEvent::Done { job: j, stats } if j == job => Some(Terminal::Done(stats)),
            FifEvent::Cancelled { job: j } if j == job => Some(Terminal::Cancelled),
            _ => terminal_of(events.drop_last(), job),
        }
    }
}

/// The header while a job runs.
pub open spec fn progress_text(matches: nat, files: nat) -> Seq<char> {
    "Searching… "@ + decimal(matches) + " matches in "@ + decimal(files) + " files"@
}

/// A text, if a condition holds.
pub open spec fn text_if(condition: bool, text: Seq<char>) -> Seq<char> {
    if condition {
        text
    } else {
        Seq::empty()
    }
}

/// The header once a job has ended.
pub open spec fn summary_spec(
    term: Terminal,
    is_replace: bool,
    hit_matches: nat,
    hit_files: nat,
    in_buffers: nat,
    skipped: nat,
) -> Seq<char> {
    match term {
        Terminal::Cancelled => "Cancelled — "@ + decimal(hit_matches) + " matches in "@ + decimal(
            hit_files,
        ) + " files so far"@ + text_if(
            is_replace && in_buffers > 0,
            ", "@ + decimal(in_buffers) + " replaced in open buffers"@,
        ),
        Terminal::Done(stats) => (if is_replace {
            "Replaced "@ + decimal(stats.total_replacements as nat + in_buffers)
                + " occurrences in "@ + decimal(stats.files_modified as nat) + " files on disk"@
                + text_if(in_buffers > 0, ", "@ + decimal(in_buffers) + " in open buffers"@) + text_if(
                skipped > 0,
                " (skipped "@ + decimal(skipped) + " open file(s) with unsaved changes)"@,
            )
        } else {
            decimal(stats.total_matches as nat) + " matches in "@ + decimal(
                stats.files_with_matches as nat,
            ) + " files ("@ + decimal(stats.files_scanned as nat) + " scanned)"@
        }) + text_if(
            stats.global_cap_hit || stats.depth_cap_hit,
            " — results incomplete, some content was not searched"@,
        ),
    }
}

/// What a file's rows call it.
pub open spec fn file_label(file: PendingFile) -> Seq<char> {
    file.display@ + text_if(file.truncated, " (truncated)"@)
}

/// The row of a match, in a file whose path reads `path`.
pub open spec fn row_of(file: PendingFile, path: Seq<char>, m: FifMatch) -> RowView {
    RowView {
        file: file_label(file),
        line: decimal(m.line_no as nat),
        text: m.line_text@,
        path,
        line_no: m.line_no,
        col_start: m.col_start,
        col_end: m.col_end,
    }
}

/// The rows of a file whose path reads `path`, one for each match.
pub open spec fn rows_of_file(file: PendingFile, path: Seq<char>) -> Seq<RowView> {
    Seq::new(file.matches@.len(), |i: int| row_of(file, path, file.matches@[i]))
}

/// The rows of a row of files.
pub open spec fn rows_of(files: Seq<PendingFile>) -> Seq<RowView>
    decreases files.len(),
{
    if files.len() == 0 {
        Seq::empty()
    } else {
        rows_of(files.drop_last()) + rows_of_file(
            files.last(),
            text_of(files.last().path@),
        )
    }
}

/// There are as many rows as matches.
pub proof fn a_row_for_every_match(files: Seq<PendingFile>)
    ensures
        rows_of(files).len() == match_count(files),
    decreases files.len(),
{
    if files.len() > 0 {
        a_row_for_every_match(files.drop_last());
    }
}

fn push_count(out: &mut String, n: usize)
    ensures
        final(out)@ == old(out)@ + decimal(n as nat),
{
    push_decimal(out, n as u64);
}

/// An empty dock.
pub fn build_dock() -> (d: FifDock)
    ensures
        d.rows@.len() == 0,
        d.header@ == "Find in Files"@,
        !d.cancel_enabled,
        d.active_job is None,
        d.pending@.len() == 0,
        d.pending_jump is None,
        d.hit_files == 0,
        d.hit_matches == 0,
        d.replaced_in_buffers == 0,
        d.skipped_dirty == 0,
        !d.is_replace,
{
    FifDock {
        rows: Vec::new(),
        header: String::from_str("Find in Files"),
        cancel_enabled: false,
        active_job: None,
        pending: Vec::new(),
        pending_jump: None,
        hit_files: 0,
        hit_matches: 0,
        replaced_in_buffers: 0,
        skipped_dirty: 0,
        is_replace: false,
    }
}

impl FifDock {
    /// The dock's counts are those of the files it keeps.
    pub open spec fn wf(&self) -> bool {
        &&& self.hit_files == self.pending@.len()
        &&& self.hit_matches == match_count(self.pending@)
    }

    /// Make the dock ready for a job that has just started; nothing of an
    /// earlier one is left.
    pub fn begin_job(&mut self, job: u64, is_replace: bool)
        ensures
            final(self).wf(),
            final(self).active_job == Some(job),
            final(self).is_replace == is_replace,
            final(self).rows@.len() == 0,
            final(self).pending@.len() == 0,
            final(self).pending_jump is None,
            final(self).hit_files == 0,
            final(self).hit_matches == 0,
            final(self).replaced_in_buffers == 0,
            final(self).skipped_dirty == 0,
            final(self).header@ == "Searching…"@,
            final(self).cancel_enabled,
    {
        self.active_job = Some(job);
        self.pending = Vec::new();
        self.pending_jump = None;
        self.hit_files = 0;
        self.hit_matches = 0;
        self.replaced_in_buffers = 0;
        self.skipped_dirty = 0;
        self.is_replace = is_replace;
        self.rows = Vec::new();
        self.header = String::from_str("Searching…");
        self.cancel_enabled = true;
    }

    /// The header once the job has ended.
    pub fn summary(&self, term: &Terminal) -> (s: String)
        requires
            term matches Terminal::Done(stats) ==> stats.total_replacements + self.replaced_in_buffers
                <= usize::MAX,
        ensures
            s@ == summary_spec(
                *term,
                self.is_replace,
                self.hit_matches as nat,
                self.hit_files as nat,
                self.replaced_in_buffers as nat,
                self.skipped_dirty as nat,
            ),
    {
        match term {
            Terminal::Cancelled => {
                let mut s: String = String::from_str("Cancelled — ");
                push_count(&mut s, self.hit_matches);
                s.append(" matches in ");
                push_count(&mut s, self.hit_files);
                s.append(" files so far");
                let ghost head = s@;
                if self.is_replace && self.replaced_in_buffers > 0 {
                    s.append(", ");
                    push_count(&mut s, self.replaced_in_buffers);
                    s.append(" replaced in open buffers");
                }
                assert(s@ =~= head + text_if(
                    self.is_replace && self.replaced_in_buffers > 0,
                    ", "@ + decimal(self.replaced_in_buffers as nat) + " replaced in open buffers"@,
                ));
                s
            },
            Terminal::Done(stats) => {
                let mut s: String = String::new();
                if self.is_replace {
                    s.append("Replaced ");
                    push_count(&mut s, stats.total_replacements + self.replaced_in_buffers);
                    s.append(" occurrences in ");
                    push_count(&mut s, stats.files_modified);
                    s.append(" files on disk");
                    let ghost head = s@;
                    if self.replaced_in_buffers > 0 {
                        s.append(", ");
                        push_count(&mut s, self.replaced_in_buffers);
                        s.append(" in open buffers");
                    }
                    assert(s@ =~= head + text_if(
                        self.replaced_in_buffers > 0,
                        ", "@ + decimal(self.replaced_in_buffers as nat) + " in open buffers"@,
                    ));
                    let ghost more = s@;
                    if self.skipped_dirty > 0 {
                        s.append(" (skipped ");
                        push_count(&mut s, self.skipped_dirty);
                        s.append(" open file(s) with unsaved changes)");
                    }
                    assert(s@ =~= more + text_if(
                        self.skipped_dirty > 0,
                        " (skipped "@ + decimal(self.skipped_dirty as nat)
                            + " open file(s) with unsaved changes)"@,
                    ));
                    assert(head =~= "Replaced "@ + decimal(
                        stats.total_replacements as nat + self.replaced_in_buffers as nat,
                    ) + " occurrences in "@ + decimal(stats.files_modified as nat)
                        + " files on disk"@);
                } else {
                    push_count(&mut s, stats.total_matches);
                    s.append(" matches in ");
                    push_count(&mut s, stats.files_with_matches);
                    s.append(" files (");
                    push_count(&mut s, stats.files_scanned);
                    s.append(" scanned)");
                    assert(s@ =~= decimal(stats.total_matches as nat) + " matches in "@ + decimal(
                        stats.files_with_matches as nat,
                    ) + " files ("@ + decimal(stats.files_scanned as nat) + " scanned)"@);
                }
                let ghost body = s@;
                if stats.global_cap_hit || stats.depth_cap_hit {
                    s.append(" — results incomplete, some content was not searched");
                }
                assert(s@ =~= body + text_if(
                    stats.global_cap_hit || stats.depth_cap_hit,
                    " — results incomplete, some content was not searched"@,
                ));
                s
            },
        }
    }

    /// Turn the files into rows, write the summary, and be done with the job.
    pub fn finalize(&mut self, term: &Terminal)
        requires
            old(self).wf(),
            term matches Terminal::Done(stats) ==> stats.total_replacements
                + old(self).replaced_in_buffers <= usize::MAX,
        ensures
            final(self).wf(),
            row_views(final(self).rows@) == row_views(old(self).rows@) + rows_of(old(self).pending@),
            final(self).header@ == summary_spec(
                *term,
                old(self).is_replace,
                old(self).hit_matches as nat,
                old(self).hit_files as nat,
                old(self).replaced_in_buffers as nat,
                old(self).skipped_dirty as nat,
            ),
            !final(self).cancel_enabled,
            final(self).active_job is None,
            final(self).pending == old(self).pending,
            final(self).pending_jump == old(self).pending_jump,
            final(self).hit_files == old(self).hit_files,
            final(self).hit_matches == old(self).hit_matches,
            final(self).replaced_in_buffers == old(self).replaced_in_buffers,
            final(self).skipped_dirty == old(self).skipped_dirty,
            final(self).is_replace == old(self).is_replace,
    {
        let header: String = self.summary(term);
        push_rows(&mut self.rows, &self.pending);
        self.header = header;
        self.cancel_enabled = false;
        self.active_job = None;
    }

    /// The user gave the running job up: it is told to stop, and the header says
    /// so until the job has answered.
    pub fn cancel(&mut self)
        ensures
            final(self).header@ == "Cancelling…"@,
            *final(self) == (FifDock { header: final(self).header, ..*old(self) }),
    {
        self.header = String::from_str("Cancelling…");
    }

    /// The dock is closed. `true` if a job was running, which is then to be
    /// cancelled.
    pub fn close(&mut self) -> (cancel: bool)
        ensures
            cancel == old(self).active_job is Some,
            *final(self) == (FifDock { active_job: None, ..*old(self) }),
    {
        let running: bool = self.active_job.is_some();
        self.active_job = None;
        running
    }
}

/// Add the rows of a file whose path reads `path`.
pub fn push_file_rows(rows: &mut Vec<ResultRow>, file: &PendingFile, path: &String)
    ensures
        row_views(final(rows)@) == row_views(old(rows)@) + rows_of_file(*file, path@),
        final(rows)@.len() == old(rows)@.len() + file.matches@.len(),
        forall|i: int|
            0 <= i < file.matches@.len() ==> leads_to_match(
                #[trigger] final(rows)@[old(rows)@.len() + i],
                path@,
                file.matches@[i],
            ),
{
    let mut label: String = file.display.clone();
    if file.truncated {
        label.append(" (truncated)");
    }
    assert(label@ =~= file_label(*file));
    let ghost done = row_views(rows@);
    let ghost wanted = rows_of_file(*file, path@);
    let mut i: usize = 0;
    while i < file.matches.len()
        invariant
            i <= file.matches@.len(),
            label@ == file_label(*file),
            wanted == rows_of_file(*file, path@),
            row_views(rows@) =~= done + wanted.take(i as int),
            rows@.len() == old(rows)@.len() + i,
            forall|k: int|
                0 <= k < i ==> leads_to_match(
                    #[trigger] rows@[old(rows)@.len() + k],
                    path@,
                    file.matches@[k],
                ),
        decreases file.matches.len() - i,
    {
        let m: &FifMatch = &file.matches[i];
        let mut line: String = String::new();
        push_decimal(&mut line, m.line_no as u64);
        assert(line@ =~= decimal(m.line_no as nat));
        let row: ResultRow = ResultRow {
            file: label.clone(),
            line,
            text: m.line_text.clone(),
            target: JumpTarget {
                path: path.clone(),
                line_no: m.line_no,
                col_start: m.col_start,
                col_end: m.col_end,
            },
        };
        assert(row@ =~= wanted[i as int]);
        let ghost now = row_views(rows@);
        rows.push(row);
        assert(row_views(rows@) =~= now.push(row@));
        i += 1;
    }
    assert(wanted.take(i as int) =~= wanted);
}

fn push_rows(rows: &mut Vec<ResultRow>, files: &Vec<PendingFile>)
    ensures
        row_views(final(rows)@) == row_views(old(rows)@) + rows_of(files@),
{
    let ghost before = row_views(rows@);
    let mut f: usize = 0;
    while f < files.len()
        invariant
            f <= files@.len(),
            row_views(rows@) =~= before + rows_of(files@.take(f as int)),
        decreases files.len() - f,
    {
        assert(files@.take(f + 1).drop_last() =~= files@.take(f as int));
        let path: String = to_text(&files[f].path);
        push_file_rows(rows, &files[f], &path);
        f += 1;
    }
    assert(files@.take(f as int) =~= files@);
}

/// Whether the divider has to move when the dock comes up over `total` pixels,
/// and where to: so that the dock has the height it asks for. `None` if it is
/// up already, or if there is no room for that.
pub fn divider_position(already_visible: bool, total: i32) -> (r: Option<i32>)
    ensures
        r == if already_visible || total <= 2 * DOCK_MIN_HEIGHT {
            None
        } else {
            Some((total - DOCK_MIN_HEIGHT) as i32)
        },
{
    if !already_visible && total > DOCK_MIN_HEIGHT * 2 {
        Some(total - DOCK_MIN_HEIGHT)
    } else {
        None
    }
}

/// The counts that `events` bring a dock to can be held.
pub open spec fn counts_fit(d: FifDock, events: Seq<FifEvent>, job: u64) -> bool {
    &&& d.hit_matches + match_count(files_of(events, job)) <= usize::MAX
    &&& d.pending@.len() + files_of(events, job).len() <= usize::MAX
    &&& d.skipped_dirty + skipped_of(events, job) <= usize::MAX
    &&& terminal_of(events, job) matches Some(Terminal::Done(stats)) ==> stats.total_replacements
        + d.replaced_in_buffers + replaced_of(events, job) <= usize::MAX
    &&& d.replaced_in_buffers + replaced_of(events, job) <= usize::MAX
}

/// Take a row of events in. Without a running job they are dropped; events of
/// other jobs are too. What the job found is kept, with the header counting;
/// once it has ended, the rows are made.
pub fn drain_into_dock(dock: &mut FifDock, events: Vec<FifEvent>)
    requires
        old(dock).wf(),
        old(dock).active_job matches Some(job) ==> counts_fit(*old(dock), events@, job),
    ensures
        final(dock).wf(),
        match old(dock).active_job {
            None => *final(dock) == *old(dock),
            Some(job) => {
                let files = old(dock).pending@ + files_of(events@, job);
                &&& final(dock).pending@ == files
                &&& final(dock).hit_files == files.len()
                &&& final(dock).hit_matches == match_count(files)
                &&& final(dock).replaced_in_buffers == old(dock).replaced_in_buffers + replaced_of(
                    events@,
                    job,
                )
                &&& final(dock).skipped_dirty == old(dock).skipped_dirty + skipped_of(events@, job)
                &&& final(dock).is_replace == old(dock).is_replace
                &&& final(dock).pending_jump == old(dock).pending_jump
                &&& match terminal_of(events@, job) {
                    None => {
                        &&& final(dock).active_job == Some(job)
                        &&& final(dock).rows == old(dock).rows
                        &&& final(dock).cancel_enabled == old(dock).cancel_enabled
                        &&& final(dock).header@ == progress_text(match_count(files), files.len())
                    },
                    Some(term) => {
                        &&& final(dock).active_job is None
                        &&& row_views(final(dock).rows@) == row_views(old(dock).rows@) + rows_of(
                            files,
                        )
                        &&& !final(dock).cancel_enabled
                        &&& final(dock).header@ == summary_spec(
                            term,
                            old(dock).is_replace,
                            match_count(files),
                            files.len(),
                            (old(dock).replaced_in_buffers + replaced_of(events@, job)) as nat,
                            (old(dock).skipped_dirty + skipped_of(events@, job)) as nat,
                        )
                    },
                }
            },
        },
{
    let job: u64 = match dock.active_job {
        None => {
            return ;
        },
        Some(job) => job,
    };
    let terminal: Option<Terminal> = absorb_events(dock, events, job);
    match terminal {
        Some(term) => dock.finalize(&term),
        None => {
            let mut header: String = String::from_str("Searching… ");
            push_count(&mut header, dock.hit_matches);
            header.append(" matches in ");
            push_count(&mut header, dock.hit_files);
            header.append(" files");
            dock.header = header;
        },
    }
}

fn absorb_events(dock: &mut FifDock, events: Vec<FifEvent>, job: u64) -> (terminal: Option<Terminal>)
    requires
        old(dock).wf(),
        counts_fit(*old(dock), events@, job),
    ensures
        final(dock).wf(),
        final(dock).pending@ == old(dock).pending@ + files_of(events@, job),
        final(dock).replaced_in_buffers == old(dock).replaced_in_buffers + replaced_of(events@, job),
        final(dock).skipped_dirty == old(dock).skipped_dirty + skipped_of(events@, job),
        final(dock).is_replace == old(dock).is_replace,
        final(dock).pending_jump == old(dock).pending_jump,
        final(dock).active_job == old(dock).active_job,
        final(dock).rows == old(dock).rows,
        final(dock).cancel_enabled == old(dock).cancel_enabled,
        terminal == terminal_of(events@, job),
{
    let ghost all = events@;
    let ghost before = *dock;
    let mut terminal: Option<Terminal> = None;
    for ev in it: events
        invariant
            it.seq() == all,
            before.wf(),
            counts_fit(before, all, job),
            dock.wf(),
            dock.pending@ =~= before.pending@ + files_of(all.take(it.index() as int), job),
            dock.replaced_in_buffers == before.replaced_in_buffers + replaced_of(
                all.take(it.index() as int),
                job,
            ),
            dock.skipped_dirty == before.skipped_dirty + skipped_of(
                all.take(it.index() as int),
                job,
            ),
            dock.is_replace == before.is_replace,
            dock.pending_jump == before.pending_jump,
            dock.active_job == before.active_job,
            dock.rows == before.rows,
            dock.cancel_enabled == before.cancel_enabled,
            terminal == terminal_of(all.take(it.index() as int), job),
    {
        let ghost i = it.index() as int;
        proof {
            assert(all.take(i + 1).drop_last() =~= all.take(i));
            assert(all.take(i + 1).last() == ev);
            totals_grow(all, job, i + 1);
            match_count_concat(before.pending@, files_of(all.take(i + 1), job));
        }
        match ev {
            FifEvent::FileMatches { job: j, file } => {
                if j == job {
                    let ghost kept = dock.pending@;
                    assert(kept.push(file).drop_last() =~= kept);
                    assert(before.pending@ + files_of(all.take(i + 1), job) =~= kept.push(file));
                    dock.hit_files = dock.hit_files + 1;
                    dock.hit_matches = dock.hit_matches + file.matches.len();
                    dock.pending.push(file);
                }
            },
            FifEvent::ReplacedInOpenBuffer { job: j, replaced, outcome } => {
                if j == job {
                    match outcome {
                        OpenBufferOutcome::Replaced => {
                            dock.replaced_in_buffers = dock.replaced_in_buffers + replaced;
                        },
                        OpenBufferOutcome::SkippedDirty => {
                            dock.skipped_dirty = dock.skipped_dirty + 1;
                        },
                        OpenBufferOutcome::TabClosed => {},
                    }
                }
            },
            FifEvent::Done { job: j, stats } => {
                if j == job {
                    terminal = Some(Terminal::Done(stats));
                }
            },
            FifEvent::Cancelled { job: j } => {
                if j == job {
                    terminal = Some(Terminal::Cancelled);
                }
            },
            FifEvent::Other => {},
        }
    }
    assert(all.take(all.len() as int) =~= all);
    terminal
}

proof fn match_count_concat(a: Seq<PendingFile>, b: Seq<PendingFile>)
    ensures
        match_count(a + b) == match_count(a) + match_count(b),
    decreases b.len(),
{
    if b.len() == 0 {
        assert(a + b =~= a);
    } else {
        match_count_concat(a, b.drop_last());
        assert((a + b).drop_last() =~= a + b.drop_last());
    }
}

proof fn totals_grow(events: Seq<FifEvent>, job: u64, i: int)
    requires
        0 <= i <= events.len(),
    ensures
        match_count(files_of(events.take(i), job)) <= match_count(files_of(events, job)),
        files_of(events.take(i), job).len() <= files_of(events, job).len(),
        replaced_of(events.take(i), job) <= replaced_of(events, job),
        skipped_of(events.take(i), job) <= skipped_of(events, job),
    decreases events.len() - i,
{
    if i < events.len() {
        totals_grow(events, job, i + 1);
        assert(events.take(i + 1).drop_last() =~= events.take(i));
        let before = files_of(events.take(i), job);
        let after = files_of(events.take(i + 1), job);
        if after != before {
            assert(after.drop_last() =~= before);
        }
    } else {
        assert(events.take(i) =~= events);
    }
}

/// Events of other jobs leave a dock as it is: what a job finds is what its own
/// events say, with any others mixed in between or not.
pub proof fn stale_events_do_not_count(events: Seq<FifEvent>, job: u64)
    requires
        forall|i: int| 0 <= i < events.len() ==> job_of(#[trigger] events[i]) != Some(job),
    ensures
        files_of(events, job).len() == 0,
        replaced_of(events, job) == 0,
        skipped_of(events, job) == 0,
        terminal_of(events, job) is None,
    decreases events.len(),
{
    if events.len() > 0 {
        let t = events.drop_last();
        assert forall|i: int| 0 <= i < t.len() implies job_of(#[trigger] t[i]) != Some(job) by {
            assert(events[i] == t[i]);
        }
        assert(job_of(events[events.len() - 1]) != Some(job));
        stale_events_do_not_count(t, job);
    }
}

/// What opening a result's file came to.
#[derive(Clone, Copy, PartialEq, Eq, Structural, Debug)]
pub enum OpenFileOutcome {
    SwitchedToExisting,
    AlreadyActive,
    Loading,
    Rejected,
}

/// What follows from it.
#[derive(Clone, Copy, PartialEq, Eq, Structural, Debug)]
pub struct RowActivation {
    /// Bind the view to the tab that was switched to.
    pub rebind: bool,
    /// Jump now.
    pub jump: bool,
    /// Forget the jump.
    pub forget: bool,
}

/// What follows after a result's file was opened: a jump now if the file is
/// there, later if it is being read, and never if it could not be opened.
pub fn row_activated(outcome: OpenFileOutcome) -> (r: RowActivation)
    ensures
        r.rebind == (outcome == OpenFileOutcome::SwitchedToExisting),
        r.jump == (outcome == OpenFileOutcome::SwitchedToExisting || outcome
            == OpenFileOutcome::AlreadyActive),
        r.forget == (outcome == OpenFileOutcome::Rejected),
{
    match outcome {
        OpenFileOutcome::SwitchedToExisting => RowActivation {
            rebind: true,
            jump: true,
            forget: false,
        },
        OpenFileOutcome::AlreadyActive => RowActivation {
            rebind: false,
            jump: true,
            forget: false,
        },
        OpenFileOutcome::Loading => RowActivation { rebind: false, jump: false, forget: false },
        OpenFileOutcome::Rejected => RowActivation { rebind: false, jump: false, forget: true },
    }
}

/// The line of a match, counted from zero.
pub open spec fn line_index(line_no: u32) -> int {
    if line_no == 0 {
        0
    } else {
        line_no - 1
    }
}

impl FifDock {
    /// The line to go to for a jump that waits, if its path and that of the
    /// active file lead the same way.
    pub fn jump_line(&self, active_path: &Option<Vec<u8>>) -> (r: Option<usize>)
        ensures
            match (self.pending_jump, *active_path) {
                (Some(jump), Some(path)) if same_way(encode_utf8(jump.path@), path@) => r matches Some(
                    line,
                ) && line == line_index(jump.line_no),
                _ => r is None,
            },
    {
        match (&self.pending_jump, active_path) {
            (Some(jump), Some(path)) => if same_path(jump.path.as_str().as_bytes(), path.as_slice()) {
                Some(jump.line_no.saturating_sub(1) as usize)
            } else {
                None
            },
            _ => None,
        }
    }

    /// Make the jump: the selection that covers the match, on a line that
    /// starts at `line_start`. The jump does not wait any more.
    pub fn take_jump(&mut self, line_start: isize) -> (r: Option<(usize, usize)>)
        requires
            old(self).pending_jump matches Some(jump) ==> line_start + jump.col_start <= usize::MAX
                && line_start + jump.col_end <= usize::MAX,
        ensures
            *final(self) == (FifDock { pending_jump: None, ..*old(self) }),
            match old(self).pending_jump {
                Some(jump) => {
                    let start = if line_start < 0 {
                        0
                    } else {
                        line_start as int
                    };
                    r matches Some((from, to)) && from == start + jump.col_start && to == start
                        + jump.col_end
                },
                None => r is None,
            },
    {
        let selection: Option<(usize, usize)> = match &self.pending_jump {
            Some(jump) => {
                let start: usize = if line_start < 0 {
                    0
                } else {
                    line_start as usize
                };
                Some((start + jump.col_start as usize, start + jump.col_end as usize))
            },
            None => None,
        };
        self.pending_jump = None;
        selection
    }
}

/// Each match has its row, at its place among the rows of all files: behind
/// those of the files before and of the matches before in its own file. The row
/// leads to the match, by its line and by both of its columns, and shows the
/// line it is on.
pub proof fn a_row_leads_to_its_match(files: Seq<PendingFile>, f: int, i: int)
    requires
        0 <= f < files.len(),
        0 <= i < files[f].matches@.len(),
    ensures
        ({
            let place = match_count(files.take(f)) + i;
            let m = files[f].matches@[i];
            &&& 0 <= place < rows_of(files).len()
            &&& rows_of(files)[place].line_no == m.line_no
            &&& rows_of(files)[place].col_start == m.col_start
            &&& rows_of(files)[place].col_end == m.col_end
            &&& rows_of(files)[place].text == m.line_text@
            &&& rows_of(files)[place].line == decimal(m.line_no as nat)
            &&& rows_of(files)[place].path == text_of(files[f].path@)
            &&& !files[f].truncated ==> rows_of(files)[place].file == files[f].display@
            &&& files[f].truncated ==> rows_of(files)[place].file == files[f].display@
                + " (truncated)"@
        }),
    decreases files.len(),
{
    a_row_for_every_match(files.drop_last());
    if f == files.len() - 1 {
        assert(files.take(f) =~= files.drop_last());
        assert(files[f].display@ + Seq::<char>::empty() =~= files[f].display@);
    } else {
        assert(files.drop_last().take(f) =~= files.take(f));
        a_row_leads_to_its_match(files.drop_last(), f, i);
    }
}

/// A jump over the row of a match selects that match: it goes to the match's
/// line, counted from zero, and from there covers the columns that the match
/// goes from and to.
pub proof fn a_jump_selects_the_match(row: ResultRow, path: Seq<char>, m: FifMatch)
    requires
        leads_to_match(row, path, m),
        m.line_no > 0,
    ensures
        row.target.path@ == path,
        line_index(row.target.line_no) + 1 == m.line_no,
        forall|line_start: int|
            line_start + row.target.col_start == #[trigger] (line_start + m.col_start) && line_start
                + row.target.col_end == line_start + m.col_end,
{
}

/// A row as a value says what the row says.
pub proof fn a_row_is_told_by_its_value(row: ResultRow)
    ensures
        row@.file == row.file@,
        row@.line == row.line@,
        row@.text == row.text@,
        row@.path == row.target.path@,
        row@.line_no == row.target.line_no,
        row@.col_start == row.target.col_start,
        row@.col_end == row.target.col_end,
{
}

/// The filters that name files, in order: all but those that stand for every
/// file.
pub open spec fn naming(tokens: Seq<Seq<char>>) -> Seq<Seq<char>> {
    tokens.filter(|t: Seq<char>| t != "*"@ && t != "*.*"@)
}

/// The filters are refused exactly if one of them begins with an exclamation
/// mark. Otherwise each of those that name files has its pattern, in order: the
/// filter itself, with `**/` before it unless it begins with that.
pub proof fn every_filter_has_its_pattern(tokens: Seq<Seq<char>>)
    ensures
        patterns_of(tokens) is None <==> exists|i: int|
            0 <= i < tokens.len() && (#[trigger] tokens[i]).len() > 0 && tokens[i][0] == '!',
        patterns_of(tokens) matches Some(patterns) ==> {
            &&& patterns.len() == naming(tokens).len()
            &&& forall|i: int|
                0 <= i < patterns.len() ==> (#[trigger] patterns[i]) == if "**/"@.is_prefix_of(
                    naming(tokens)[i],
                ) {
                    naming(tokens)[i]
                } else {
                    "**/"@ + naming(tokens)[i]
                }
        },
    decreases tokens.len(),
{
    reveal(Seq::filter);
    reveal_strlit("**/");
    reveal_strlit("*");
    reveal_strlit("*.*");
    if tokens.len() > 0 {
        let less = tokens.drop_last();
        let token = tokens.last();
        every_filter_has_its_pattern(less);
        let kept = naming(tokens);
        let before = naming(less);
        if patterns_of(less) is None {
            let i = choose|i: int|
                0 <= i < less.len() && (#[trigger] less[i]).len() > 0 && less[i][0] == '!';
            assert(tokens[i] == less[i]);
        } else if token.len() > 0 && token[0] == '!' {
            assert(token[0] != "*"@[0] && token[0] != "*.*"@[0]);
            assert(tokens[tokens.len() - 1] == token);
        } else {
            assert forall|i: int| 0 <= i < tokens.len() && (#[trigger] tokens[i]).len() > 0 implies
                tokens[i][0] != '!' by {
                if i < less.len() {
                    assert(less[i] == tokens[i]);
                }
            }
        }
        if token != "*"@ && token != "*.*"@ {
            assert(kept == before.push(token));
            assert("**/"@.is_prefix_of(token) <==> is_anchored(token)) by {
                let head = token.subrange(0, 3);
                if is_anchored(token) {
                    assert("**/"@ =~= head);
                }
                if "**/"@.is_prefix_of(token) {
                    assert(head[0] == token[0] && head[1] == token[1] && head[2] == token[2]);
                }
            }
        } else {
            assert(kept == before);
        }
    }
}

/// What two rows of events bring is what the one brings and then the other.
pub proof fn events_add_up(a: Seq<FifEvent>, b: Seq<FifEvent>, job: u64)
    ensures
        files_of(a + b, job) == files_of(a, job) + files_of(b, job),
        replaced_of(a + b, job) == replaced_of(a, job) + replaced_of(b, job),
        skipped_of(a + b, job) == skipped_of(a, job) + skipped_of(b, job),
        terminal_of(b, job) is Some ==> terminal_of(a + b, job) == terminal_of(b, job),
        terminal_of(b, job) is None ==> terminal_of(a + b, job) == terminal_of(a, job),
    decreases b.len(),
{
    if b.len() == 0 {
        assert(a + b =~= a);
        assert(files_of(a, job) + files_of(b, job) =~= files_of(a, job));
    } else {
        events_add_up(a, b.drop_last(), job);
        assert((a + b).drop_last() =~= a + b.drop_last());
        assert((a + b).last() == b.last());
        assert(files_of(a + b, job) =~= files_of(a, job) + files_of(b, job));
    }
}

/// What one event of a job brings: a file with matches is kept; replacements in
/// an open buffer are counted, and a buffer left alone for its unsaved changes
/// counts as one; and a job ends as its last event says.
pub proof fn an_event_tells_one_thing(job: u64, file: PendingFile, replaced: usize, stats: FifStats)
    ensures
        ({
            let found = seq![FifEvent::FileMatches { job, file }];
            &&& files_of(found, job) == seq![file]
            &&& replaced_of(found, job) == 0
            &&& skipped_of(found, job) == 0
            &&& terminal_of(found, job) is None
        }),
        ({
            let made = seq![
                FifEvent::ReplacedInOpenBuffer {
                    job,
                    replaced,
                    outcome: OpenBufferOutcome::Replaced,
                },
            ];
            &&& files_of(made, job).len() == 0
            &&& replaced_of(made, job) == replaced
            &&& skipped_of(made, job) == 0
            &&& terminal_of(made, job) is None
        }),
        ({
            let left = seq![
                FifEvent::ReplacedInOpenBuffer {
                    job,
                    replaced,
                    outcome: OpenBufferOutcome::SkippedDirty,
                },
            ];
            &&& files_of(left, job).len() == 0
            &&& replaced_of(left, job) == 0
            &&& skipped_of(left, job) == 1
            &&& terminal_of(left, job) is None
        }),
        ({
            let gone = seq![
                FifEvent::ReplacedInOpenBuffer {
                    job,
                    replaced,
                    outcome: OpenBufferOutcome::TabClosed,
                },
            ];
            &&& files_of(gone, job).len() == 0
            &&& replaced_of(gone, job) == 0
            &&& skipped_of(gone, job) == 0
            &&& terminal_of(gone, job) is None
        }),
        ({
            let done = seq![FifEvent::Done { job, stats }];
            &&& files_of(done, job).len() == 0
            &&& replaced_of(done, job) == 0
            &&& skipped_of(done, job) == 0
            &&& terminal_of(done, job) == Some(Terminal::Done(stats))
        }),
        terminal_of(seq![FifEvent::Cancelled { job }], job) == Some(Terminal::Cancelled),
        files_of(seq![FifEvent::Cancelled { job }], job).len() == 0,
{
    reveal_with_fuel(files_of, 2);
    reveal_with_fuel(replaced_of, 2);
    reveal_with_fuel(skipped_of, 2);
    reveal_with_fuel(terminal_of, 2);
    assert(files_of(seq![FifEvent::FileMatches { job, file }], job) =~= seq![file]);
}

/// The event of a job that is not the dock's own brings nothing, whatever it
/// is.
pub proof fn a_foreign_event_brings_nothing(ev: FifEvent, job: u64)
    requires
        match ev {
            FifEvent::FileMatches { job: j, file } => j != job,
            FifEvent::ReplacedInOpenBuffer { job: j, replaced, outcome } => j != job,
            FifEvent::Done { job: j, stats } => j != job,
            FifEvent::Cancelled { job: j } => j != job,
            FifEvent::Other => true,
        },
    ensures
        files_of(seq![ev], job).len() == 0,
        replaced_of(seq![ev], job) == 0,
        skipped_of(seq![ev], job) == 0,
        terminal_of(seq![ev], job) is None,
{
    reveal_with_fuel(files_of, 2);
    reveal_with_fuel(replaced_of, 2);
    reveal_with_fuel(skipped_of, 2);
    reveal_with_fuel(terminal_of, 2);
}

/// The matches of a row of files are those of each, taken together.
pub proof fn matches_add_up(files: Seq<PendingFile>, more: Seq<PendingFile>, one: PendingFile)
    ensures
        match_count(files + more) == match_count(files) + match_count(more),
        match_count(seq![one]) == one.matches@.len(),
{
    reveal_with_fuel(match_count, 2);
    match_count_concat(files, more);
    assert(seq![one].drop_last() =~= Seq::<PendingFile>::empty());
}

/// The header of a search that ran to its end tells its three numbers, and that
/// it is incomplete exactly if one of the limits was hit.
pub proof fn a_search_is_summed_up(
    stats: FifStats,
    hit_matches: nat,
    hit_files: nat,
    in_buffers: nat,
    skipped: nat,
)
    ensures
        ({
            let said = summary_spec(
                Terminal::Done(stats),
                false,
                hit_matches,
                hit_files,
                in_buffers,
                skipped,
            );
            let told = decimal(stats.total_matches as nat) + " matches in "@ + decimal(
                stats.files_with_matches as nat,
            ) + " files ("@ + decimal(stats.files_scanned as nat) + " scanned)"@;
            &&& stats.global_cap_hit || stats.depth_cap_hit ==> said == told
                + " — results incomplete, some content was not searched"@
            &&& !stats.global_cap_hit && !stats.depth_cap_hit ==> said == told
        }),
{
}

/// The header of a replacement counts what was replaced on disk and in open
/// buffers together; it names the open buffers, and the files that were left
/// alone, exactly if there are any.
pub proof fn a_replacement_is_summed_up(
    stats: FifStats,
    hit_matches: nat,
    hit_files: nat,
    in_buffers: nat,
    skipped: nat,
)
    requires
        !stats.global_cap_hit,
        !stats.depth_cap_hit,
    ensures
        ({
            let said = summary_spec(
                Terminal::Done(stats),
                true,
                hit_matches,
                hit_files,
                in_buffers,
                skipped,
            );
            let told = "Replaced "@ + decimal((stats.total_replacements + in_buffers) as nat)
                + " occurrences in "@ + decimal(stats.files_modified as nat) + " files on disk"@;
            let open = ", "@ + decimal(in_buffers) + " in open buffers"@;
            let left = " (skipped "@ + decimal(skipped) + " open file(s) with unsaved changes)"@;
            &&& in_buffers == 0 && skipped == 0 ==> said == told
            &&& in_buffers > 0 && skipped == 0 ==> said == told + open
            &&& in_buffers == 0 && skipped > 0 ==> said == told + left
            &&& in_buffers > 0 && skipped > 0 ==> said == told + open + left
        }),
        summary_spec(
            Terminal::Done(FifStats { depth_cap_hit: true, ..stats }),
            true,
            hit_matches,
            hit_files,
            in_buffers,
            skipped,
        ) == summary_spec(Terminal::Done(stats), true, hit_matches, hit_files, in_buffers, skipped)
            + " — results incomplete, some content was not searched"@,
        summary_spec(
            Terminal::Done(FifStats { global_cap_hit: true, ..stats }),
            true,
            hit_matches,
            hit_files,
            in_buffers,
            skipped,
        ) == summary_spec(Terminal::Done(stats), true, hit_matches, hit_files, in_buffers, skipped)
            + " — results incomplete, some content was not searched"@,
{
    let said = summary_spec(
        Terminal::Done(stats),
        true,
        hit_matches,
        hit_files,
        in_buffers,
        skipped,
    );
    let told = "Replaced "@ + decimal((stats.total_replacements + in_buffers) as nat)
        + " occurrences in "@ + decimal(stats.files_modified as nat) + " files on disk"@;
    let open = ", "@ + decimal(in_buffers) + " in open buffers"@;
    let left = " (skipped "@ + decimal(skipped) + " open file(s) with unsaved changes)"@;
    let none = Seq::<char>::empty();
    assert(told + none + none + none =~= told);
    assert(told + open + none + none =~= told + open);
    assert(told + none + left + none =~= told + left);
    assert(told + open + left + none =~= told + open + left);
    let end = " — results incomplete, some content was not searched"@;
    assert(said + none =~= said);
}

/// The header of a job that was given up, and of one that runs, tells the
/// matches and the files so far.
pub proof fn what_was_found_so_far_is_told(matches: nat, files: nat, in_buffers: nat, skipped: nat)
    ensures
        summary_spec(Terminal::Cancelled, false, matches, files, in_buffers, skipped)
            == "Cancelled — "@ + decimal(matches) + " matches in "@ + decimal(files)
            + " files so far"@,
        in_buffers > 0 ==> summary_spec(
            Terminal::Cancelled,
            true,
            matches,
            files,
            in_buffers,
            skipped,
        ) == "Cancelled — "@ + decimal(matches) + " matches in "@ + decimal(files)
            + " files so far"@ + ", "@ + decimal(in_buffers) + " replaced in open buffers"@,
        summary_spec(Terminal::Cancelled, true, matches, files, 0, skipped) == summary_spec(
            Terminal::Cancelled,
            false,
            matches,
            files,
            0,
            skipped,
        ),
        progress_text(matches, files) == "Searching… "@ + decimal(matches) + " matches in "@
            + decimal(files) + " files"@,
{
    let told = "Cancelled — "@ + decimal(matches) + " matches in "@ + decimal(files)
        + " files so far"@;
    assert(told + Seq::<char>::empty() =~= told);
    assert(told + (", "@ + decimal(in_buffers) + " replaced in open buffers"@) =~= told + ", "@
        + decimal(in_buffers) + " replaced in open buffers"@);
}

/// Lines are counted from one in a match and from zero in the editor; the line
/// of a match without a number is the first.
pub proof fn lines_count_from_zero_in_the_editor(line_no: u32)
    ensures
        line_no > 0 ==> line_index(line_no) == line_no - 1,
        line_no == 0 ==> line_index(line_no) == 0,
{
}

/// A search is started exactly if there is a term, a directory and no filter
/// that is refused, and it is the one that the dialog holds.
pub proof fn a_search_is_what_the_dialog_holds(inputs: FifInputs, r: Result<FifRequest, String>)
    requires
        call_ensures(run_search, (inputs,), r),
    ensures
        r is Ok <==> inputs.query@.len() > 0 && trimmed(inputs.directory@).len() > 0 && patterns_of(
            words(inputs.filters@),
        ) is Some,
        r matches Ok(request) ==> {
            &&& request.query@ == inputs.query@
            &&& request.replacement == inputs.replacement
            &&& request.flags.match_case == inputs.match_case
            &&& request.flags.whole_word == inputs.whole_word
            &&& request.flags.regex == inputs.regex
            &&& request.root@ == trimmed(inputs.directory@)
            &&& request.recurse == inputs.recurse
            &&& request.hidden == inputs.hidden
            &&& Some(texts(request.includes@)) == patterns_of(words(inputs.filters@))
        },
        inputs.query@.len() == 0 ==> (r matches Err(why) && why@ == "Enter a search term"@),
        inputs.query@.len() > 0 && trimmed(inputs.directory@).len() == 0 ==> (r matches Err(why)
            && why@ == "Enter a directory to search"@),
        inputs.query@.len() > 0 && trimmed(inputs.directory@).len() > 0 && patterns_of(
            words(inputs.filters@),
        ) is None ==> (r matches Err(why) && why@
            == "filters: '!' negation is not supported — remove those tokens"@),
{
}

/// The dock comes up a hundred and sixty pixels high, if that leaves as much
/// above it and it is not up already.
pub proof fn the_dock_comes_up_at_its_height(visible: bool, total: i32, r: Option<i32>)
    requires
        call_ensures(divider_position, (visible, total), r),
    ensures
        r is Some <==> !visible && total > 320,
        r matches Some(at) ==> total - at == 160,
{
}

/// A file that is open is jumped in at once, one that is read later is jumped in
/// later, and one that cannot be opened never is; the view is bound only to a
/// tab that was switched to.
pub proof fn a_result_is_jumped_to_when_it_is_there(outcome: OpenFileOutcome, r: RowActivation)
    requires
        call_ensures(row_activated, (outcome,), r),
    ensures
        r.rebind <==> outcome == OpenFileOutcome::SwitchedToExisting,
        r.jump <==> outcome == OpenFileOutcome::SwitchedToExisting || outcome
            == OpenFileOutcome::AlreadyActive,
        r.forget <==> outcome == OpenFileOutcome::Rejected,
{
}

/// A jump that waits selects, on a line that starts at a place, from there the
/// columns of the match, and waits no more.
pub proof fn a_waiting_jump_is_made_once(
    jump: JumpTarget,
    line_start: isize,
    first: Option<(usize, usize)>,
    second: Option<(usize, usize)>,
)
    requires
        line_start >= 0,
    ensures
        forall|d: &mut FifDock, e: &mut FifDock|
            (d.pending_jump == Some(jump) && #[trigger] call_ensures(
                FifDock::take_jump,
                (d, line_start),
                first,
            ) && #[trigger] call_ensures(FifDock::take_jump, (e, line_start), second) && *e
                == *final(d)) ==> {
                &&& first matches Some((from, to)) && from == line_start + jump.col_start && to
                    == line_start + jump.col_end
                &&& second is None
                &&& final(d).rows == d.rows
            },
{
}

/// A job that begins finds an empty dock that says so and can be cancelled; to
/// close the dock forgets the job, and says whether there was one.
pub proof fn a_job_begins_afresh(job: u64, is_replace: bool, running: bool)
    ensures
        forall|d: &mut FifDock| #[trigger]
            call_ensures(FifDock::begin_job, (d, job, is_replace), ()) ==> {
                &&& final(d).active_job == Some(job)
                &&& final(d).is_replace == is_replace
                &&& final(d).rows@.len() == 0
                &&& final(d).pending@.len() == 0
                &&& final(d).hit_files == 0 && final(d).hit_matches == 0
                &&& final(d).replaced_in_buffers == 0 && final(d).skipped_dirty == 0
                &&& final(d).header@ == "Searching…"@
                &&& final(d).cancel_enabled
                &&& final(d).pending_jump is None
            },
        forall|d: &mut FifDock| #[trigger]
            call_ensures(FifDock::close, (d,), running) ==> (running <==> d.active_job is Some)
                && final(d).active_job is None && final(d).rows == d.rows,
        forall|d: &mut FifDock| #[trigger]
            call_ensures(FifDock::cancel, (d,), ()) ==> final(d).header@ == "Cancelling…"@ && final(
                d).active_job == d.active_job,
{
}

} // verus!
