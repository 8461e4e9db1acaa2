//! The Language menu and the Encoding menu.
//!
//! Languages come sorted by name. Those that share a first letter stand in a
//! submenu of that letter; a language that has its letter to itself stands in
//! the menu directly.
use vstd::prelude::*;
use crate::text::chars_of;

verus! {

/// Where further user-defined languages can be found.
pub const UDL_COLLECTION_URL: &'static str =
    "https://github.com/notepad-plus-plus/userDefinedLanguages";

/// Whether a character has the Unicode property Alphabetic.
pub uninterp spec fn alphabetic(c: char) -> bool;

/// `char::is_alphabetic` says whether a character has the Unicode property
/// Alphabetic, which is a matter of the character alone. Which characters have
/// it is left to Unicode's tables.
pub assume_specification[ char::is_alphabetic ](c: char) -> (r: bool)
    ensures
        r == alphabetic(c),
;

/// The letter that a character is filed under, where `beyond` says whether it
/// is a letter if it is beyond ASCII: an ASCII letter under its upper case,
/// another letter under itself, and what is no letter under a space.
pub open spec fn filed_under(c: char, beyond: bool) -> char {
    if 'a' <= c <= 'z' {
        ((c as u32) - 32) as char
    } else if 'A' <= c <= 'Z' || (c >= '\u{80}' && beyond) {
        c
    } else {
        ' '
    }
}

/// The letter that a character is filed under, where `beyond` says whether it
/// is a letter if it is beyond ASCII.
pub fn file_under(c: char, beyond: bool) -> (r: char)
    ensures
        r == filed_under(c, beyond),
{
    if 'a' <= c && c <= 'z' {
        ((c as u8) - 32) as char
    } else if ('A' <= c && c <= 'Z') || (c >= '\u{80}' && beyond) {
        c
    } else {
        ' '
    }
}

/// The letter that a name is filed under.
pub open spec fn letter_of(label: Seq<char>) -> char {
    if label.len() == 0 {
        ' '
    } else {
        filed_under(label[0], alphabetic(label[0]))
    }
}

/// The letter that a name is filed under: its first, in upper case. Names that
/// do not begin with a letter, and an empty one, are kept together under a
/// space.
pub fn first_letter(label: &str) -> (r: char)
    ensures
        r == letter_of(label@),
{
    let chars: Vec<char> = chars_of(label);
    if chars.len() == 0 {
        return ' ';
    }
    let c: char = chars[0];
    file_under(c, c.is_alphabetic())
}

/// A line of the Language menu. A number is a place in the table of languages.
#[derive(Copy, Clone, PartialEq, Eq, Structural, Debug)]
pub enum LanguageLine {
    /// The language itself.
    Language(usize),
    /// A submenu of the languages from `from` up to and not including `to`.
    Letter { letter: char, from: usize, to: usize },
    Separator,
    /// The submenu of user-defined languages.
    UserDefined,
}

/// Where the run of equal letters that `i` belongs to ends, seen from `j`.
pub open spec fn run_end(letters: Seq<char>, i: int, j: int) -> int
    decreases letters.len() - j,
{
    if j < letters.len() && letters[j] == letters[i] {
        run_end(letters, i, j + 1)
    } else {
        j
    }
}

proof fn run_end_bounds(letters: Seq<char>, i: int, j: int)
    requires
        0 <= i < j <= letters.len(),
        forall|k: int| i <= k < j ==> letters[k] == letters[i],
    ensures
        j <= run_end(letters, i, j) <= letters.len(),
        forall|k: int| i <= k < run_end(letters, i, j) ==> letters[k] == letters[i],
        run_end(letters, i, j) < letters.len() ==> letters[run_end(letters, i, j)] != letters[i],
    decreases letters.len() - j,
{
    if j < letters.len() && letters[j] == letters[i] {
        run_end_bounds(letters, i, j + 1);
    }
}

/// The line of the run from `i` to `j`.
pub open spec fn line_of_run(letters: Seq<char>, i: int, j: int) -> LanguageLine {
    if j == i + 1 {
        LanguageLine::Language(i as usize)
    } else {
        LanguageLine::Letter { letter: letters[i], from: i as usize, to: j as usize }
    }
}

/// The lines of the languages from `i` on.
pub open spec fn letter_lines(letters: Seq<char>, i: int) -> Seq<LanguageLine>
    decreases letters.len() - i,
{
    let j = run_end(letters, i, i + 1);
    if 0 <= i < j <= letters.len() {
        seq![line_of_run(letters, i, j)] + letter_lines(letters, j)
    } else {
        Seq::empty()
    }
}

/// The Language menu: the first language, which is plain text, then the others
/// by letter, then the user-defined ones, with separators in between.
pub open spec fn language_lines(letters: Seq<char>) -> Seq<LanguageLine> {
    seq![LanguageLine::Language(0), LanguageLine::Separator] + letter_lines(letters, 1) + seq![
        LanguageLine::Separator,
        LanguageLine::UserDefined,
    ]
}

/// The letters of a table of names.
pub open spec fn letters_of(labels: Seq<String>) -> Seq<char> {
    labels.map_values(|l: String| letter_of(l@))
}

/// Make the Language menu for a table of names.
pub fn build_language_menu(labels: &Vec<String>) -> (r: Vec<LanguageLine>)
    requires
        labels@.len() > 0,
    ensures
        r@ == language_lines(letters_of(labels@)),
{
    let count: usize = labels.len();
    let mut letters: Vec<char> = Vec::new();
    let mut n: usize = 0;
    while n < count
        invariant
            n <= count == labels@.len(),
            letters@ =~= letters_of(labels@).take(n as int),
        decreases count - n,
    {
        letters.push(first_letter(labels[n].as_str()));
        n += 1;
    }
    assert(letters@ =~= letters_of(labels@));
    let mut out: Vec<LanguageLine> = Vec::new();
    out.push(LanguageLine::Language(0));
    out.push(LanguageLine::Separator);
    let ghost head = out@;
    let mut i: usize = 1;
    while i < count
        invariant
            1 <= i <= count == letters@.len(),
            out@ + letter_lines(letters@, i as int) =~= head + letter_lines(letters@, 1),
        decreases count - i,
    {
        let mut j: usize = i + 1;
        while j < count && letters[j] == letters[i]
            invariant
                i < j <= count == letters@.len(),
                run_end(letters@, i as int, i + 1) == run_end(letters@, i as int, j as int),
            decreases count - j,
        {
            j += 1;
        }
        proof {
            run_end_bounds(letters@, i as int, i + 1);
        }
        let ghost before = out@;
        let line: LanguageLine = if j - i == 1 {
            LanguageLine::Language(i)
        } else {
            LanguageLine::Letter { letter: letters[i], from: i, to: j }
        };
        out.push(line);
        assert(before + letter_lines(letters@, i as int) =~= out@ + letter_lines(
            letters@,
            j as int,
        ));
        i = j;
    }
    assert(out@ =~= head + letter_lines(letters@, 1));
    out.push(LanguageLine::Separator);
    out.push(LanguageLine::UserDefined);
    assert(out@ =~= language_lines(letters@));
    out
}

/// The languages that a line leads to.
pub open spec fn leads_to(line: LanguageLine, k: int) -> bool {
    match line {
        LanguageLine::Language(i) => k == i,
        LanguageLine::Letter { letter, from, to } => from <= k < to,
        _ => false,
    }
}

/// Every language from `i` on stands on exactly one line. A submenu holds two or
/// more, all of its letter.
pub proof fn letters_cover(letters: Seq<char>, i: int, k: int)
    requires
        0 <= i <= k < letters.len() <= usize::MAX,
    ensures
        exists|n: int|
            0 <= n < letter_lines(letters, i).len() && leads_to(
                #[trigger] letter_lines(letters, i)[n],
                k,
            ),
        forall|n: int, m: int|
            0 <= n < letter_lines(letters, i).len() && 0 <= m < letter_lines(letters, i).len()
                && leads_to(#[trigger] letter_lines(letters, i)[n], k) && leads_to(
                #[trigger] letter_lines(letters, i)[m],
                k,
            ) ==> n == m,
        forall|n: int|
            0 <= n < letter_lines(letters, i).len() && leads_to(
                #[trigger] letter_lines(letters, i)[n],
                k,
            ) ==> (letter_lines(letters, i)[n] matches LanguageLine::Letter { letter, from, to }
                ==> letter == letters[k] && to - from >= 2),
    decreases letters.len() - i,
{
    let j = run_end(letters, i, i + 1);
    run_end_bounds(letters, i, i + 1);
    let lines = letter_lines(letters, i);
    let rest = letter_lines(letters, j);
    assert(lines.skip(1) =~= rest);
    if k < j {
        assert(leads_to(lines[0], k));
        assert forall|n: int| 0 < n < lines.len() implies !leads_to(#[trigger] lines[n], k) by {
            assert(lines[n] == rest[n - 1]);
            lines_start_late(letters, j, n - 1, k);
        }
    } else {
        letters_cover(letters, j, k);
        let n = choose|n: int| 0 <= n < rest.len() && leads_to(#[trigger] rest[n], k);
        assert(lines[n + 1] == rest[n]);
        assert(!leads_to(lines[0], k));
        assert forall|n: int, m: int|
            0 <= n < lines.len() && 0 <= m < lines.len() && leads_to(#[trigger] lines[n], k)
                && leads_to(#[trigger] lines[m], k) implies n == m by {
            assert(lines[n] == rest[n - 1]);
            assert(lines[m] == rest[m - 1]);
        }
        assert forall|n: int| 0 <= n < lines.len() && leads_to(#[trigger] lines[n], k) implies (
        lines[n] matches LanguageLine::Letter { letter, from, to } ==> letter == letters[k] && to
            - from >= 2) by {
            assert(lines[n] == rest[n - 1]);
        }
    }
}

proof fn lines_start_late(letters: Seq<char>, i: int, n: int, k: int)
    requires
        0 <= k < i <= letters.len() <= usize::MAX,
        0 <= n < letter_lines(letters, i).len(),
    ensures
        !leads_to(letter_lines(letters, i)[n], k),
    decreases letters.len() - i,
{
    let j = run_end(letters, i, i + 1);
    run_end_bounds(letters, i, i + 1);
    let lines = letter_lines(letters, i);
    let rest = letter_lines(letters, j);
    assert(lines.skip(1) =~= rest);
    if n > 0 {
        assert(lines[n] == rest[n - 1]);
        lines_start_late(letters, j, n - 1, k);
    }
}

/// Every language of the table can be chosen, and from one place only.
pub proof fn every_language_stands_once(letters: Seq<char>, k: int)
    requires
        0 <= k < letters.len() <= usize::MAX,
    ensures
        exists|n: int|
            0 <= n < language_lines(letters).len() && leads_to(
                #[trigger] language_lines(letters)[n],
                k,
            ),
        forall|n: int, m: int|
            0 <= n < language_lines(letters).len() && 0 <= m < language_lines(letters).len()
                && leads_to(#[trigger] language_lines(letters)[n], k) && leads_to(
                #[trigger] language_lines(letters)[m],
                k,
            ) ==> n == m,
{
    let lines = language_lines(letters);
    let mid = letter_lines(letters, 1);
    assert forall|n: int| 2 <= n < lines.len() - 2 implies lines[n] == mid[n - 2] by {}
    if k == 0 {
        assert(leads_to(lines[0], 0));
        assert forall|n: int| 0 < n < lines.len() implies !leads_to(#[trigger] lines[n], 0) by {
            if 2 <= n < lines.len() - 2 {
                lines_start_late(letters, 1, n - 2, 0);
            }
        }
    } else {
        letters_cover(letters, 1, k);
        let n = choose|n: int| 0 <= n < mid.len() && leads_to(#[trigger] mid[n], k);
        assert(lines[n + 2] == mid[n]);
        assert forall|n: int, m: int|
            0 <= n < lines.len() && 0 <= m < lines.len() && leads_to(#[trigger] lines[n], k)
                && leads_to(#[trigger] lines[m], k) implies n == m by {
            assert(lines[n] == mid[n - 2]);
            assert(lines[m] == mid[m - 2]);
        }
    }
}

/// Whether the item of a language is marked: it is the active tab's.
pub fn language_marked(id: i32, active: Option<i32>) -> (r: bool)
    ensures
        r == (active == Some(id)),
{
    match active {
        Some(a) => a == id,
        None => false,
    }
}

/// How a file is encoded.
#[derive(Copy, Clone, PartialEq, Eq, Structural, Debug)]
pub enum Encoding {
    Utf8,
    Utf8Bom,
    Utf16Le,
    Utf16LeBom,
    Utf16Be,
    Utf16BeBom,
    /// Anything else.
    Other,
}

/// The rows of the Encoding menu: what they say and the encoding they choose,
/// if it can be chosen.
pub open spec fn encoding_rows() -> Seq<(Seq<char>, Option<Encoding>)> {
    seq![
        ("_ANSI"@, None),
        ("UTF-_8 (no BOM)"@, Some(Encoding::Utf8)),
        ("UTF-8 with _BOM"@, Some(Encoding::Utf8Bom)),
        ("UTF-16 _LE BOM"@, Some(Encoding::Utf16LeBom)),
        ("UTF-16 B_E BOM"@, Some(Encoding::Utf16BeBom)),
    ]
}

/// A row of the Encoding menu.
#[derive(Copy, Clone, Debug)]
pub struct EncodingRow {
    pub label: &'static str,
    /// The encoding it chooses; a row without one is greyed.
    pub encoding: Option<Encoding>,
}

/// Make the Encoding menu.
pub fn build_encoding_menu() -> (r: Vec<EncodingRow>)
    ensures
        r@.len() == encoding_rows().len(),
        forall|i: int|
            0 <= i < r@.len() ==> ((#[trigger] r@[i]).label@, r@[i].encoding)
                == encoding_rows()[i],
{
    vec![
        EncodingRow { label: "_ANSI", encoding: None },
        EncodingRow { label: "UTF-_8 (no BOM)", encoding: Some(Encoding::Utf8) },
        EncodingRow { label: "UTF-8 with _BOM", encoding: Some(Encoding::Utf8Bom) },
        EncodingRow { label: "UTF-16 _LE BOM", encoding: Some(Encoding::Utf16LeBom) },
        EncodingRow { label: "UTF-16 B_E BOM", encoding: Some(Encoding::Utf16BeBom) },
    ]
}

/// The row that an encoding belongs to: UTF-16 found without a mark counts as
/// UTF-16 with one.
pub open spec fn family(e: Encoding) -> Option<Encoding> {
    match e {
        Encoding::Utf8 => Some(Encoding::Utf8),
        Encoding::Utf8Bom => Some(Encoding::Utf8Bom),
        Encoding::Utf16Le | Encoding::Utf16LeBom => Some(Encoding::Utf16LeBom),
        Encoding::Utf16Be | Encoding::Utf16BeBom => Some(Encoding::Utf16BeBom),
        Encoding::Other => None,
    }
}

/// Whether the row for `item` is marked while the file is in `active`.
pub fn same_encoding_family(active: Encoding, item: Encoding) -> (r: bool)
    ensures
        r == (family(active) == Some(item)),
{
    match (active, item) {
        (Encoding::Utf8, Encoding::Utf8) => true,
        (Encoding::Utf8Bom, Encoding::Utf8Bom) => true,
        (Encoding::Utf16LeBom, Encoding::Utf16LeBom) => true,
        (Encoding::Utf16Le, Encoding::Utf16LeBom) => true,
        (Encoding::Utf16BeBom, Encoding::Utf16BeBom) => true,
        (Encoding::Utf16Be, Encoding::Utf16BeBom) => true,
        _ => false,
    }
}

/// Exactly one row is marked for an encoding that the menu knows, and none for
/// any other.
pub proof fn one_encoding_is_marked(active: Encoding)
    ensures
        active is Other <==> forall|i: int|
            0 <= i < encoding_rows().len() ==> !(#[trigger] encoding_rows()[i].1 is Some
                && encoding_rows()[i].1 == family(active)),
        forall|i: int, j: int|
            0 <= i < encoding_rows().len() && 0 <= j < encoding_rows().len() && family(active) is Some
                && #[trigger] encoding_rows()[i].1 == family(active)
                && #[trigger] encoding_rows()[j].1 == family(active) ==> i == j,
{
    let rows = encoding_rows();
    assert(rows[1].1 == Some(Encoding::Utf8));
    assert(rows[2].1 == Some(Encoding::Utf8Bom));
    assert(rows[3].1 == Some(Encoding::Utf16LeBom));
    assert(rows[4].1 == Some(Encoding::Utf16BeBom));
}

/// A name is filed under its first letter in upper case; a letter beyond ASCII
/// stands for itself, and everything else is kept under a space.
pub proof fn a_name_is_filed_under_its_first_letter(c: char, beyond: bool)
    ensures
        'a' <= c <= 'z' ==> 'A' <= filed_under(c, beyond) <= 'Z' && filed_under(c, beyond) as u32
            + 32 == c as u32,
        'A' <= c <= 'Z' ==> filed_under(c, beyond) == c,
        c >= '\u{80}' && beyond ==> filed_under(c, beyond) == c,
        c >= '\u{80}' && !beyond ==> filed_under(c, beyond) == ' ',
        c < 'A' || ('Z' < c < 'a') || ('z' < c < '\u{80}') ==> filed_under(c, beyond) == ' ',
{
}

/// A name that is empty is filed under a space, and any other by its first
/// character alone.
pub proof fn the_first_character_decides(label: Seq<char>, more: Seq<char>)
    ensures
        label.len() == 0 ==> letter_of(label) == ' ',
        label.len() > 0 ==> letter_of(label + more) == letter_of(label),
        label.len() > 0 && 'A' <= label[0] <= 'Z' ==> letter_of(label) == label[0],
        label.len() > 0 && label[0] >= '\u{80}' ==> letter_of(label) == if alphabetic(label[0]) {
            label[0]
        } else {
            ' '
        },
{
}

/// Each name of a table has its letter, at its place.
pub proof fn every_name_has_its_letter(labels: Seq<String>, i: int)
    requires
        0 <= i < labels.len(),
    ensures
        letters_of(labels).len() == labels.len(),
        letters_of(labels)[i] == letter_of(labels[i]@),
{
}

proof fn lines_lead_on(letters: Seq<char>, i: int, n: int, k: int)
    requires
        0 <= i <= letters.len() <= usize::MAX,
        0 <= n < letter_lines(letters, i).len(),
        leads_to(letter_lines(letters, i)[n], k),
    ensures
        i <= k < letters.len(),
    decreases letters.len() - i,
{
    if i < letters.len() {
        let j = run_end(letters, i, i + 1);
        run_end_bounds(letters, i, i + 1);
        let lines = letter_lines(letters, i);
        let rest = letter_lines(letters, j);
        assert(lines.skip(1) =~= rest);
        if n > 0 {
            assert(lines[n] == rest[n - 1]);
            lines_lead_on(letters, j, n - 1, k);
        }
    }
}

/// The languages stand in the menu in the order of the table.
pub proof fn languages_stand_in_order(letters: Seq<char>, i: int, n: int, m: int, k: int, l: int)
    requires
        0 <= i <= letters.len() <= usize::MAX,
        0 <= n < m < letter_lines(letters, i).len(),
        leads_to(letter_lines(letters, i)[n], k),
        leads_to(letter_lines(letters, i)[m], l),
    ensures
        k < l,
    decreases letters.len() - i,
{
    if i < letters.len() {
        let j = run_end(letters, i, i + 1);
        run_end_bounds(letters, i, i + 1);
        let lines = letter_lines(letters, i);
        let rest = letter_lines(letters, j);
        assert(lines.skip(1) =~= rest);
        assert(lines[m] == rest[m - 1]);
        lines_lead_on(letters, j, m - 1, l);
        if n > 0 {
            assert(lines[n] == rest[n - 1]);
            languages_stand_in_order(letters, j, n - 1, m - 1, k, l);
        }
    }
}

/// Neighbours that share a letter stand in one submenu, and neighbours that do
/// not stand apart.
pub proof fn neighbours_of_one_letter_share_a_submenu(letters: Seq<char>, i: int, n: int, k: int)
    requires
        0 <= i <= k,
        k + 1 < letters.len() <= usize::MAX,
        0 <= n < letter_lines(letters, i).len(),
        leads_to(letter_lines(letters, i)[n], k),
    ensures
        leads_to(letter_lines(letters, i)[n], k + 1) <==> letters[k] == letters[k + 1],
        letters[k] == letters[k + 1] ==> letter_lines(letters, i)[n] is Letter,
    decreases letters.len() - i,
{
    let j = run_end(letters, i, i + 1);
    run_end_bounds(letters, i, i + 1);
    let lines = letter_lines(letters, i);
    let rest = letter_lines(letters, j);
    assert(lines.skip(1) =~= rest);
    if n > 0 {
        assert(lines[n] == rest[n - 1]);
        lines_lead_on(letters, j, n - 1, k);
        neighbours_of_one_letter_share_a_submenu(letters, j, n - 1, k);
    }
}

/// The menu begins with plain text, which is the first of the table, and ends
/// with the user-defined languages, each set off from the others.
pub proof fn the_menu_is_framed(letters: Seq<char>)
    ensures
        ({
            let lines = language_lines(letters);
            let n = lines.len();
            &&& n == letter_lines(letters, 1).len() + 4
            &&& lines[0] == LanguageLine::Language(0)
            &&& lines[1] == LanguageLine::Separator
            &&& lines[n - 2] == LanguageLine::Separator
            &&& lines[n - 1] == LanguageLine::UserDefined
            &&& forall|i: int|
                2 <= i < n - 2 ==> #[trigger] lines[i] == letter_lines(letters, 1)[i - 2]
        }),
{
}

/// A language's item is marked exactly if it is the active tab's.
pub proof fn the_active_language_is_marked(id: i32, active: Option<i32>, r: bool)
    requires
        call_ensures(language_marked, (id, active), r),
    ensures
        r <==> active is Some && active->0 == id,
{
}

/// The Encoding menu offers these encodings, in this order; the first row
/// cannot be chosen.
pub proof fn the_encodings_that_are_offered()
    ensures
        encoding_rows().len() == 5,
        encoding_rows()[0].1 is None,
        encoding_rows()[1].1 == Some(Encoding::Utf8),
        encoding_rows()[2].1 == Some(Encoding::Utf8Bom),
        encoding_rows()[3].1 == Some(Encoding::Utf16LeBom),
        encoding_rows()[4].1 == Some(Encoding::Utf16BeBom),
        encoding_rows()[0].0 == "_ANSI"@,
        encoding_rows()[1].0 == "UTF-_8 (no BOM)"@,
        encoding_rows()[2].0 == "UTF-8 with _BOM"@,
        encoding_rows()[3].0 == "UTF-16 _LE BOM"@,
        encoding_rows()[4].0 == "UTF-16 B_E BOM"@,
{
}

/// An encoding that is offered marks its own row; UTF-16 without a mark shows
/// on the row of the same byte order with one; anything else shows on none.
pub proof fn a_row_is_marked_for_its_encoding(active: Encoding, item: Encoding, r: bool)
    requires
        call_ensures(same_encoding_family, (active, item), r),
    ensures
        active == Encoding::Utf8 ==> (r <==> item == Encoding::Utf8),
        active == Encoding::Utf8Bom ==> (r <==> item == Encoding::Utf8Bom),
        active == Encoding::Utf16Le || active == Encoding::Utf16LeBom ==> (r <==> item
            == Encoding::Utf16LeBom),
        active == Encoding::Utf16Be || active == Encoding::Utf16BeBom ==> (r <==> item
            == Encoding::Utf16BeBom),
        active == Encoding::Other ==> !r,
{
}

} // verus!
