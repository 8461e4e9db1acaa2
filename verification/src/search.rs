//! The dialogs for going to a line, and for finding and replacing.
use vstd::prelude::*;
use crate::editor_search::{flags_from, SearchFlags};
use crate::text::{
    chars_of, decimal, decimal_denotes, digit_value, is_white, numeral_value, push_decimal,
    trim_end, trim_start, trim_text, trimmed,
};

verus! {

/// The digits of a number: what stands after a plus sign, if there is one.
pub open spec fn digits_of(s: Seq<char>) -> Seq<char> {
    if s.len() > 0 && s[0] == '+' {
        s.skip(1)
    } else {
        s
    }
}

/// There is something, and it is digits all through.
pub open spec fn is_numeral(s: Seq<char>) -> bool {
    s.len() > 0 && forall|i: int| 0 <= i < s.len() ==> digit_value(#[trigger] s[i]) >= 0
}

/// The number that a text stands for, if it is one and can be held.
pub open spec fn number_of(s: Seq<char>) -> Option<int> {
    let digits = digits_of(s);
    if is_numeral(digits) && numeral_value(digits) <= usize::MAX {
        Some(numeral_value(digits))
    } else {
        None
    }
}

proof fn prefixes_are_smaller(s: Seq<char>, n: int)
    requires
        is_numeral(s),
        0 <= n <= s.len(),
    ensures
        0 <= numeral_value(s.take(n)) <= numeral_value(s),
    decreases s.len(),
{
    assert(digit_value(s[s.len() - 1]) >= 0);
    if s.len() == 1 {
        assert(s.drop_last() =~= Seq::<char>::empty());
        assert(numeral_value(s.drop_last()) == 0);
        if n == 0 {
            assert(s.take(0) =~= Seq::<char>::empty());
        } else {
            assert(s.take(n) =~= s);
        }
    } else if n == s.len() {
        assert(s.take(n) =~= s);
        assert(is_numeral(s.drop_last()));
        prefixes_are_smaller(s.drop_last(), 0);
    } else {
        assert(is_numeral(s.drop_last()));
        assert(s.drop_last().take(n) =~= s.take(n));
        prefixes_are_smaller(s.drop_last(), n);
    }
}

/// Read a number: digits, with a plus sign before them or none, up to the
/// largest that can be held.
pub fn parse_number(s: &str) -> (r: Option<usize>)
    ensures
        match number_of(s@) {
            Some(n) => r is Some && r->Some_0 == n,
            None => r is None,
        },
{
    let chars: Vec<char> = chars_of(s);
    let from: usize = if chars.len() > 0 && chars[0] == '+' {
        1
    } else {
        0
    };
    let ghost digits = digits_of(s@);
    assert(digits =~= s@.skip(from as int));
    if chars.len() == from {
        return None;
    }
    let mut value: usize = 0;
    let mut i: usize = from;
    assert(digits.take(0) =~= Seq::<char>::empty());
    while i < chars.len()
        invariant
            from <= i <= chars@.len(),
            from < chars@.len(),
            chars@ == s@,
            digits == digits_of(s@),
            digits == s@.skip(from as int),
            forall|j: int| 0 <= j < i - from ==> digit_value(#[trigger] digits[j]) >= 0,
            value == numeral_value(digits.take(i - from)),
        decreases chars.len() - i,
    {
        let c: char = chars[i];
        assert(c == digits[i - from]);
        if !('0' <= c && c <= '9') {
            assert(digit_value(digits[i - from]) < 0);
            return None;
        }
        let d: usize = (c as u32 - '0' as u32) as usize;
        let ghost next = digits.take(i - from + 1);
        assert(next.drop_last() =~= digits.take(i - from));
        assert(numeral_value(next) == value * 10 + d);
        if value > (usize::MAX - d) / 10 {
            proof {
                if is_numeral(digits) {
                    prefixes_are_smaller(digits, i - from + 1);
                }
            }
            return None;
        }
        value = value * 10 + d;
        i += 1;
    }
    assert(digits.take(i - from) =~= digits);
    Some(value)
}

/// The line to go to for what was typed, counted from zero, in a document of
/// `lines` lines; lines are typed counted from one. `None` if the document has
/// no such line: the caret is not moved to where nobody asked for.
pub open spec fn goto_spec(text: Seq<char>, lines: isize) -> Option<int> {
    match number_of(trimmed(text)) {
        Some(n) if 1 <= n <= lines => Some(n - 1),
        _ => None,
    }
}

/// Find the line to go to for what was typed.
pub fn goto_line(text: &str, lines: isize) -> (r: Option<usize>)
    ensures
        match goto_spec(text@, lines) {
            Some(line) => r is Some && r->Some_0 == line,
            None => r is None,
        },
{
    let typed: String = trim_text(text);
    match parse_number(typed.as_str()) {
        Some(line) => if line >= 1 && lines >= 0 && line <= lines as usize {
            Some(line - 1)
        } else {
            None
        },
        None => None,
    }
}

/// Typing the number of a line of the document leads to that line, and typing
/// the number of a line beyond its end leads nowhere.
pub proof fn every_line_can_be_typed(line: usize, lines: isize)
    requires
        line < usize::MAX,
    ensures
        goto_spec(decimal((line + 1) as nat), lines) == if line < lines {
            Some(line as int)
        } else {
            None
        },
{
    let n = (line + 1) as nat;
    let s = decimal(n);
    decimal_denotes(n);
    assert(digit_value(s[0]) >= 0);
    assert(digit_value(s[s.len() - 1]) >= 0);
    assert(!is_white(s[0]) && !is_white(s[s.len() - 1]));
    assert(trim_start(s) == s);
    assert(trim_end(s) == s);
}

/// The dialog for finding and replacing.
pub struct FindReplaceDialog {
    /// It shows what is needed to replace, too.
    pub replaces: bool,
    pub query: String,
    pub replacement: String,
    pub match_case: bool,
    pub whole_word: bool,
    pub regex: bool,
    pub status: String,
}

/// A selection can be taken over as what to find: it is on one line.
pub open spec fn is_one_line(text: Seq<char>) -> bool {
    forall|i: int| 0 <= i < text.len() ==> text[i] != '\n'
}

fn on_one_line(text: &str) -> (r: bool)
    ensures
        r == is_one_line(text@),
{
    let chars: Vec<char> = chars_of(text);
    let mut i: usize = 0;
    while i < chars.len()
        invariant
            i <= chars@.len(),
            chars@ == text@,
            forall|j: int| 0 <= j < i ==> text@[j] != '\n',
        decreases chars.len() - i,
    {
        if chars[i] == '\n' {
            return false;
        }
        i += 1;
    }
    true
}

/// What a search in the document came to.
#[derive(Copy, Clone, PartialEq, Eq, Structural, Debug)]
pub enum SearchOutcome {
    /// A match was looked for.
    Find { found: bool },
    /// Matches were counted.
    Count { matches: u64 },
    /// One match was to be replaced.
    ReplaceOne { replaced: bool },
    /// All matches were replaced.
    ReplaceAll { count: u64 },
}

/// What the dialog says of a search.
pub open spec fn outcome_text(outcome: SearchOutcome) -> Seq<char> {
    match outcome {
        SearchOutcome::Find { found } => if found {
            ""@
        } else {
            "Not found"@
        },
        SearchOutcome::Count { matches } => decimal(matches as nat) + " matches"@,
        SearchOutcome::ReplaceOne { replaced } => if replaced {
            "Replaced"@
        } else {
            "Not found"@
        },
        SearchOutcome::ReplaceAll { count } => decimal(count as nat) + " replaced"@,
    }
}

impl FindReplaceDialog {
    /// The dialog as it is made.
    pub fn new() -> (d: FindReplaceDialog)
        ensures
            !d.replaces,
            d.query@.len() == 0,
            d.replacement@.len() == 0,
            !d.match_case && !d.whole_word && !d.regex,
            d.status@.len() == 0,
    {
        FindReplaceDialog {
            replaces: false,
            query: String::new(),
            replacement: String::new(),
            match_case: false,
            whole_word: false,
            regex: false,
            status: String::new(),
        }
    }

    /// The title of its window.
    pub fn title(&self) -> (r: &'static str)
        ensures
            r@ == if self.replaces {
                "Replace"@
            } else {
                "Find"@
            },
    {
        if self.replaces {
            "Replace"
        } else {
            "Find"
        }
    }

    /// What the boxes stand for.
    pub fn flags(&self) -> (f: SearchFlags)
        ensures
            f == (SearchFlags {
                match_case: self.match_case,
                whole_word: self.whole_word,
                regex: self.regex,
            }),
    {
        flags_from(self.match_case, self.whole_word, self.regex)
    }

    /// Open the dialog. What is selected on one line becomes what to find;
    /// else that stays as it was.
    pub fn open(&mut self, replace_mode: bool, selection: Option<String>)
        ensures
            *final(self) == (FindReplaceDialog {
                replaces: replace_mode,
                query: if selection is Some && is_one_line(selection->Some_0@) {
                    selection->Some_0
                } else {
                    old(self).query
                },
                status: final(self).status,
                ..*old(self)
            }),
            final(self).status@ == ""@,
    {
        self.replaces = replace_mode;
        if let Some(text) = selection {
            if on_one_line(text.as_str()) {
                self.query = text;
            }
        }
        self.status = String::from_str("");
    }

    /// Whether a button of the dialog does anything: there is something to
    /// find.
    pub fn can_search(&self) -> (r: bool)
        ensures
            r == (self.query@.len() > 0),
    {
        !self.query.as_str().is_empty()
    }

    /// Say what a search came to.
    pub fn report(&mut self, outcome: SearchOutcome)
        ensures
            *final(self) == (FindReplaceDialog { status: final(self).status, ..*old(self) }),
            final(self).status@ == outcome_text(outcome),
    {
        self.status = outcome_status(outcome);
    }

    /// Say what a repeated search came to: only that nothing was found.
    pub fn report_repeat(&mut self, found: bool)
        ensures
            *final(self) == (FindReplaceDialog { status: final(self).status, ..*old(self) }),
            final(self).status@ == if found {
                old(self).status@
            } else {
                "Not found"@
            },
    {
        if !found {
            self.status = String::from_str("Not found");
        }
    }
}

fn outcome_status(outcome: SearchOutcome) -> (r: String)
    ensures
        r@ == outcome_text(outcome),
{
    match outcome {
        SearchOutcome::Find { found } => String::from_str(
            if found {
                ""
            } else {
                "Not found"
            },
        ),
        SearchOutcome::Count { matches } => {
            let mut out: String = String::new();
            push_decimal(&mut out, matches);
            out.append(" matches");
            assert(out@ =~= decimal(matches as nat) + " matches"@);
            out
        },
        SearchOutcome::ReplaceOne { replaced } => String::from_str(
            if replaced {
                "Replaced"
            } else {
                "Not found"
            },
        ),
        SearchOutcome::ReplaceAll { count } => {
            let mut out: String = String::new();
            push_decimal(&mut out, count);
            out.append(" replaced");
            assert(out@ =~= decimal(count as nat) + " replaced"@);
            out
        },
    }
}

/// A number is read as it is written, with a plus sign before it or none, if it
/// can be held.
pub proof fn a_number_is_read_as_written(n: nat)
    ensures
        n <= usize::MAX ==> number_of(decimal(n)) == Some(n as int) && number_of(
            seq!['+'] + decimal(n),
        ) == Some(n as int),
        n > usize::MAX ==> number_of(decimal(n)) is None,
{
    decimal_denotes(n);
    let s = decimal(n);
    assert(digit_value(s[0]) >= 0);
    assert(digits_of(s) == s);
    assert((seq!['+'] + s).skip(1) =~= s);
}

/// What is empty, or a lone sign, or has anything in it that is no digit, is no
/// number.
pub proof fn what_is_no_number(s: Seq<char>, i: int)
    ensures
        s.len() == 0 ==> number_of(s) is None,
        s == seq!['+'] ==> number_of(s) is None,
        0 < i < s.len() && !('0' <= s[i] <= '9') ==> number_of(s) is None,
        s.len() > 0 && s[0] != '+' && !('0' <= s[0] <= '9') ==> number_of(s) is None,
{
    if 0 < i < s.len() && !('0' <= s[i] <= '9') {
        if s[0] == '+' {
            assert(digits_of(s)[i - 1] == s[i]);
            assert(digit_value(digits_of(s)[i - 1]) < 0);
        } else {
            assert(digit_value(digits_of(s)[i]) < 0);
        }
    }
    if s.len() > 0 && s[0] != '+' && !('0' <= s[0] <= '9') {
        assert(digit_value(digits_of(s)[0]) < 0);
    }
}

/// A line is gone to exactly if what was typed, without the white space around
/// it, is the number of a line of the document.
pub proof fn a_line_is_gone_to_by_its_number(text: Seq<char>, lines: isize)
    ensures
        goto_spec(text, lines) is Some <==> (number_of(trimmed(text)) matches Some(n) && 1 <= n
            && n <= lines),
        goto_spec(text, lines) matches Some(line) ==> number_of(trimmed(text)) == Some(line + 1),
{
}

/// What the dialog says of a search.
pub proof fn the_dialog_says_what_was_found(n: u64)
    ensures
        outcome_text(SearchOutcome::Find { found: true }) == ""@,
        outcome_text(SearchOutcome::Find { found: false }) == "Not found"@,
        outcome_text(SearchOutcome::ReplaceOne { replaced: true }) == "Replaced"@,
        outcome_text(SearchOutcome::ReplaceOne { replaced: false }) == "Not found"@,
        outcome_text(SearchOutcome::Count { matches: n }) == decimal(n as nat) + " matches"@,
        outcome_text(SearchOutcome::ReplaceAll { count: n }) == decimal(n as nat) + " replaced"@,
{
}

/// The dialog opens on what is selected if that is on one line, and on what was
/// searched for otherwise; its boxes stay as they are.
pub proof fn the_dialog_opens_on_the_selection(replace_mode: bool, text: String, k: int)
    ensures
        forall|d: &mut FindReplaceDialog| #[trigger]
            call_ensures(FindReplaceDialog::open, (d, replace_mode, Some(text)), ()) ==> {
                &&& final(d).replaces == replace_mode
                &&& (forall|i: int| 0 <= i < text@.len() ==> text@[i] != '\n') ==> final(d).query@
                    == text@
                &&& 0 <= k < text@.len() && text@[k] == '\n' ==> final(d).query@ == d.query@
                &&& final(d).match_case == d.match_case
                &&& final(d).whole_word == d.whole_word
                &&& final(d).regex == d.regex
                &&& final(d).replacement == d.replacement
            },
        forall|d: &mut FindReplaceDialog| #[trigger]
            call_ensures(FindReplaceDialog::open, (d, replace_mode, None), ()) ==> final(d).query
                == d.query && final(d).replaces == replace_mode,
{
}

/// The dialog's boxes are the search's options, and it is called by what it
/// does.
pub proof fn the_boxes_are_the_options(d: FindReplaceDialog, f: SearchFlags, title: &str, can: bool)
    requires
        call_ensures(FindReplaceDialog::flags, (&d,), f),
        call_ensures(FindReplaceDialog::can_search, (&d,), can),
    ensures
        f.match_case == d.match_case,
        f.whole_word == d.whole_word,
        f.regex == d.regex,
        can <==> d.query@.len() > 0,
{
}

/// The dialog says what a search came to, and of a repeated one only that
/// nothing was found; neither changes what is searched for.
pub proof fn a_report_changes_the_status_alone(outcome: SearchOutcome)
    ensures
        forall|d: &mut FindReplaceDialog| #[trigger]
            call_ensures(FindReplaceDialog::report, (d, outcome), ()) ==> final(d).status@
                == outcome_text(outcome) && final(d).query == d.query && final(d).replacement
                == d.replacement,
        forall|d: &mut FindReplaceDialog| #[trigger]
            call_ensures(FindReplaceDialog::report_repeat, (d, true), ()) ==> final(d).status@
                == d.status@ && final(d).query == d.query,
        forall|d: &mut FindReplaceDialog| #[trigger]
            call_ensures(FindReplaceDialog::report_repeat, (d, false), ()) ==> final(d).status@
                == "Not found"@ && final(d).query == d.query,
{
}

} // verus!
