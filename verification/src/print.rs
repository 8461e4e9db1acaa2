//! Printing: where pages begin, and what is said when printing fails.
use vstd::prelude::*;
use crate::text::{decimal, push_decimal};

verus! {

/// The most pages that are printed.
pub const MAX_PAGES: usize = 100_000;

/// The page after `cp` begins at `next`, as far as measuring goes.
pub open spec fn measured<F: Fn(isize) -> isize>(measure: F, cp: isize, next: isize) -> bool {
    call_ensures(measure, (cp,), next)
}

/// `starts` is where the pages begin of a document of `doc_len` characters: at
/// the beginning, and each page where the one before says it ends.
pub open spec fn is_pagination<F: Fn(isize) -> isize>(
    doc_len: isize,
    measure: F,
    starts: Seq<isize>,
) -> bool {
    &&& 1 <= starts.len() <= MAX_PAGES
    &&& starts[0] == 0
    &&& forall|i: int|
        0 <= i < starts.len() - 1 ==> measured(measure, #[trigger] starts[i], starts[i + 1])
    &&& forall|i: int, j: int|
        0 <= i < j < starts.len() ==> #[trigger] starts[i] < #[trigger] starts[j]
    &&& doc_len > 0 ==> forall|i: int| 0 <= i < starts.len() ==> #[trigger] starts[i] < doc_len
    &&& doc_len <= 0 ==> starts.len() == 1
}

/// No page follows the last of `starts`: the document is empty or there are too
/// many pages, or what comes after the last page is its end or no further on.
pub open spec fn is_complete<F: Fn(isize) -> isize>(
    doc_len: isize,
    measure: F,
    starts: Seq<isize>,
) -> bool {
    ||| doc_len <= 0
    ||| starts.len() == MAX_PAGES
    ||| exists|next: isize| #[trigger]
        measured(measure, starts.last(), next) && (next <= starts.last() || next >= doc_len)
}

/// Find where the pages begin. `measure` is given the beginning of a page and
/// says where the next one begins. There is always one page, and a `measure`
/// that does not get on ends the search.
pub fn paginate<F: Fn(isize) -> isize>(doc_len: isize, measure: F) -> (starts: Vec<isize>)
    requires
        forall|cp: isize| 0 <= cp < doc_len ==> #[trigger] call_requires(measure, (cp,)),
    ensures
        is_pagination(doc_len, measure, starts@),
        is_complete(doc_len, measure, starts@),
{
    let mut starts: Vec<isize> = Vec::new();
    if doc_len <= 0 {
        starts.push(0);
        return starts;
    }
    let mut cp: isize = 0;
    starts.push(cp);
    loop
        invariant
            0 <= cp < doc_len,
            forall|cp: isize| 0 <= cp < doc_len ==> #[trigger] call_requires(measure, (cp,)),
            is_pagination(doc_len, measure, starts@),
            starts@.last() == cp,
        ensures
            is_pagination(doc_len, measure, starts@),
            is_complete(doc_len, measure, starts@),
        decreases MAX_PAGES - starts.len(),
    {
        let next: isize = measure(cp);
        assert(measured(measure, starts@.last(), next));
        if next <= cp || next >= doc_len {
            break;
        }
        if starts.len() >= MAX_PAGES {
            break;
        }
        let ghost before = starts@;
        starts.push(next);
        proof {
            assert forall|i: int| 0 <= i < starts@.len() - 1 implies measured(
                measure,
                #[trigger] starts@[i],
                starts@[i + 1],
            ) by {
                if i < before.len() - 1 {
                    assert(starts@[i] == before[i]);
                    assert(starts@[i + 1] == before[i + 1]);
                }
            }
        }
        cp = next;
    }
    starts
}

/// With a measure that always says the same, the pages can only begin in one
/// way.
pub proof fn pages_are_determined<F: Fn(isize) -> isize>(
    doc_len: isize,
    measure: F,
    a: Seq<isize>,
    b: Seq<isize>,
)
    requires
        is_pagination(doc_len, measure, a),
        is_complete(doc_len, measure, a),
        is_pagination(doc_len, measure, b),
        is_complete(doc_len, measure, b),
        forall|cp: isize, x: isize, y: isize| #[trigger]
            measured(measure, cp, x) && #[trigger] measured(measure, cp, y) ==> x == y,
    ensures
        a == b,
{
    pages_agree(doc_len, measure, a, b, 0);
    no_page_follows(doc_len, measure, a, b);
    no_page_follows(doc_len, measure, b, a);
    assert(a =~= b);
}

proof fn pages_agree<F: Fn(isize) -> isize>(
    doc_len: isize,
    measure: F,
    a: Seq<isize>,
    b: Seq<isize>,
    n: int,
)
    requires
        is_pagination(doc_len, measure, a),
        is_pagination(doc_len, measure, b),
        forall|cp: isize, x: isize, y: isize| #[trigger]
            measured(measure, cp, x) && #[trigger] measured(measure, cp, y) ==> x == y,
        0 <= n < a.len(),
        n < b.len(),
        forall|i: int| 0 <= i <= n ==> a[i] == b[i],
    ensures
        forall|i: int| 0 <= i < a.len() && i < b.len() ==> a[i] == b[i],
    decreases a.len() - n,
{
    if n + 1 < a.len() && n + 1 < b.len() {
        assert(measured(measure, a[n], a[n + 1]));
        assert(measured(measure, b[n], b[n + 1]));
        pages_agree(doc_len, measure, a, b, n + 1);
    }
}

proof fn no_page_follows<F: Fn(isize) -> isize>(
    doc_len: isize,
    measure: F,
    a: Seq<isize>,
    b: Seq<isize>,
)
    requires
        is_pagination(doc_len, measure, a),
        is_complete(doc_len, measure, a),
        is_pagination(doc_len, measure, b),
        is_complete(doc_len, measure, b),
        forall|cp: isize, x: isize, y: isize| #[trigger]
            measured(measure, cp, x) && #[trigger] measured(measure, cp, y) ==> x == y,
        forall|i: int| 0 <= i < a.len() && i < b.len() ==> a[i] == b[i],
    ensures
        b.len() <= a.len(),
{
    if a.len() < b.len() {
        let last = a.len() - 1;
        assert(measured(measure, b[last], b[last + 1]));
        assert(b[last] < b[last + 1]);
    }
}

/// Where a page begins that is asked for by its number; at the beginning, if
/// there is no such page.
pub fn page_start(starts: &Vec<isize>, page_nr: i32) -> (r: (usize, isize))
    ensures
        r.0 == if page_nr < 0 {
            0
        } else {
            page_nr as int
        },
        r.1 == if r.0 < starts@.len() {
            starts@[r.0 as int]
        } else {
            0
        },
{
    let idx: usize = if page_nr < 0 {
        0
    } else {
        page_nr as usize
    };
    let start: isize = if idx < starts.len() {
        starts[idx]
    } else {
        0
    };
    (idx, start)
}

/// The number of pages, as far as it can be told.
pub fn page_count(starts: &Vec<isize>) -> (r: i32)
    ensures
        r == if starts@.len() <= i32::MAX {
            starts@.len() as i32
        } else {
            i32::MAX
        },
{
    let count: usize = starts.len();
    if count <= i32::MAX as usize {
        count as i32
    } else {
        i32::MAX
    }
}

/// What stands at the top of a page: its number, counted from one, and how many
/// there are.
pub fn page_text(page: usize, total: usize) -> (r: String)
    ensures
        r@ == "Page "@ + decimal(page as nat) + " of "@ + decimal(total as nat),
{
    let mut out: String = String::from_str("Page ");
    push_decimal(&mut out, page as u64);
    out.append(" of ");
    push_decimal(&mut out, total as u64);
    out
}

/// Whether printing begins: without a dialog an empty document is not printed.
pub fn prints(no_dialog: bool, length: isize) -> (r: bool)
    ensures
        r == !(no_dialog && length <= 0),
{
    !(no_dialog && length <= 0)
}

/// What printing came to.
pub enum PrintOutcome {
    Failed(String),
    Cancelled,
    Done,
}

/// What to say of a print: the error, if there was one; and, without a dialog
/// that the user could have cancelled, that there was no printer.
pub fn print_report(outcome: PrintOutcome, no_dialog: bool) -> (r: Option<String>)
    ensures
        match outcome {
            PrintOutcome::Failed(reason) => r is Some && r->Some_0@ == reason@,
            PrintOutcome::Cancelled => if no_dialog {
                r is Some && r->Some_0@
                    == "No printer is installed, or the default printer could not be opened."@
            } else {
                r is None
            },
            PrintOutcome::Done => r is None,
        },
{
    match outcome {
        PrintOutcome::Failed(reason) => Some(reason),
        PrintOutcome::Cancelled => if no_dialog {
            Some(
                String::from_str(
                    "No printer is installed, or the default printer could not be opened.",
                ),
            )
        } else {
            None
        },
        PrintOutcome::Done => None,
    }
}

/// The pages of a document begin at its start and go on in order, each where
/// the one before was measured to end, none at or beyond the end of the
/// document; the last one reaches it, or cannot be measured further, or is the
/// hundred thousandth.
pub proof fn pages_cover_the_document<F: Fn(isize) -> isize>(
    doc_len: isize,
    measure: F,
    starts: Vec<isize>,
    i: int,
)
    requires
        doc_len > 0,
        is_pagination(doc_len, measure, starts@),
        is_complete(doc_len, measure, starts@),
        0 <= i < starts@.len(),
    ensures
        starts@[0] == 0,
        0 <= starts@[i] < doc_len,
        i > 0 ==> starts@[i - 1] < starts@[i] && call_ensures(
            measure,
            (starts@[i - 1],),
            starts@[i],
        ),
        starts@.len() <= 100_000,
        starts@.len() < 100_000 ==> exists|next: isize| #[trigger]
            call_ensures(measure, (starts@.last(),), next) && (next <= starts@.last() || next
                >= doc_len),
{
    if i > 0 {
        assert(starts@[0] < starts@[i]);
        assert(measured(measure, starts@[i - 1], starts@[i - 1 + 1]));
    }
    if starts@.len() < 100_000 {
        let next = choose|next: isize| #[trigger]
            measured(measure, starts@.last(), next) && (next <= starts@.last() || next >= doc_len);
        assert(call_ensures(measure, (starts@.last(),), next));
    }
}

/// A page is found by its number, and its start with it; a number that no page
/// has stands for the beginning.
pub proof fn a_page_is_found_by_its_number(
    starts: Vec<isize>,
    page_nr: i32,
    r: (usize, isize),
    count: i32,
)
    requires
        page_nr >= 0,
        starts@.len() <= i32::MAX,
        call_ensures(page_start, (&starts, page_nr), r),
        call_ensures(page_count, (&starts,), count),
    ensures
        r.0 == page_nr,
        page_nr < starts@.len() ==> r.1 == starts@[page_nr as int],
        page_nr >= starts@.len() ==> r.1 == 0,
        count == starts@.len(),
{
}

/// Only a print without a dialog leaves an empty document alone, and only such
/// a one says that there was no printer when it came to nothing.
pub proof fn a_print_without_a_dialog_speaks_up(
    no_dialog: bool,
    length: isize,
    begins: bool,
    cancelled: Option<String>,
    done: Option<String>,
)
    requires
        call_ensures(prints, (no_dialog, length), begins),
        call_ensures(print_report, (PrintOutcome::Cancelled, no_dialog), cancelled),
        call_ensures(print_report, (PrintOutcome::Done, no_dialog), done),
    ensures
        !begins <==> no_dialog && length <= 0,
        cancelled is Some <==> no_dialog,
        done is None,
{
}

/// An empty document has one page, which begins at its start.
pub proof fn an_empty_document_has_one_page<F: Fn(isize) -> isize>(
    doc_len: isize,
    measure: F,
    starts: Seq<isize>,
)
    requires
        doc_len <= 0,
        is_pagination(doc_len, measure, starts),
    ensures
        starts == seq![0isize],
{
    assert(starts =~= seq![0isize]);
}

} // verus!
