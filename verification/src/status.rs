//! The seven-part status bar: which text each part shows.
//!
//! | part | content                        |
//! |------|--------------------------------|
//! | 0    | language name                  |
//! | 1    | spring, empty unless a plugin writes to it |
//! | 2    | `length: N   lines: N`         |
//! | 3    | `Ln: N   Col: N   Pos: N`      |
//! | 4    | line-ending name               |
//! | 5    | encoding name                  |
//! | 6    | INS or OVR                     |
use vstd::prelude::*;
use crate::text::{chars_of, decimal, decimal_denotes, decimal_text, digit_value, push_decimal};

verus! {

/// How many parts the bar has.
pub const PART_COUNT: usize = 7;

pub const PART_LANG: usize = 0;

pub const PART_LENGTH: usize = 2;

pub const PART_CURSOR: usize = 3;

pub const PART_EOL: usize = 4;

pub const PART_ENCODING: usize = 5;

pub const PART_INSOVR: usize = 6;

/// A row of characters with a comma before every complete group of three
/// that has something in front of it.
pub open spec fn grouped(s: Seq<char>) -> Seq<char>
    decreases s.len(),
{
    if s.len() <= 3 {
        s
    } else {
        grouped(s.take(s.len() - 3)) + seq![','] + s.skip(s.len() - 3)
    }
}

/// `s` without its commas.
pub open spec fn without_commas(s: Seq<char>) -> Seq<char>
    decreases s.len(),
{
    if s.len() == 0 {
        s
    } else if s.last() == ',' {
        without_commas(s.drop_last())
    } else {
        without_commas(s.drop_last()).push(s.last())
    }
}

/// The first `k` characters of a row of `n`, each preceded by its comma where
/// the characters from it to the end of the row make whole groups of three.
spec fn spread(s: Seq<char>, n: int, k: nat) -> Seq<char>
    decreases k,
{
    if k == 0 {
        Seq::empty()
    } else {
        let head = spread(s, n, (k - 1) as nat);
        let c = s[k - 1];
        if k > 1 && (n - (k - 1)) % 3 == 0 {
            head.push(',').push(c)
        } else {
            head.push(c)
        }
    }
}

proof fn spread_shorter(s: Seq<char>, t: Seq<char>, n: int, k: nat)
    requires
        k <= s.len(),
        k <= t.len(),
        forall|i: int| 0 <= i < k ==> s[i] == t[i],
    ensures
        spread(s, n, k) == spread(t, n - 3, k),
    decreases k,
{
    if k > 0 {
        spread_shorter(s, t, n, (k - 1) as nat);
        assert((n - (k - 1)) % 3 == (n - 3 - (k - 1)) % 3);
    }
}

proof fn spread_is_grouped(s: Seq<char>)
    ensures
        spread(s, s.len() as int, s.len()) == grouped(s),
    decreases s.len(),
{
    let n = s.len() as int;
    reveal_with_fuel(spread, 4);
    if n > 3 {
        let t = s.take(n - 3);
        spread_is_grouped(t);
        spread_shorter(s, t, n, (n - 3) as nat);
        assert(spread(s, n, (n - 3) as nat) == grouped(t));
        assert(spread(s, n, s.len()) =~= grouped(t) + seq![','] + s.skip(n - 3));
    } else {
        assert(spread(s, n, s.len()) =~= s);
    }
}

proof fn without_commas_concat(a: Seq<char>, b: Seq<char>)
    ensures
        without_commas(a + b) == without_commas(a) + without_commas(b),
    decreases b.len(),
{
    if b.len() == 0 {
        assert(a + b =~= a);
        assert(without_commas(a) + without_commas(b) =~= without_commas(a));
    } else {
        without_commas_concat(a, b.drop_last());
        assert((a + b).drop_last() =~= a + b.drop_last());
        if b.last() != ',' {
            assert(without_commas(a + b) =~= without_commas(a) + without_commas(b));
        }
    }
}

proof fn without_commas_of_plain(s: Seq<char>)
    requires
        forall|i: int| 0 <= i < s.len() ==> s[i] != ',',
    ensures
        without_commas(s) == s,
    decreases s.len(),
{
    if s.len() > 0 {
        without_commas_of_plain(s.drop_last());
        assert(s =~= s.drop_last().push(s.last()));
    }
}

proof fn grouping_undone(s: Seq<char>)
    requires
        forall|i: int| 0 <= i < s.len() ==> s[i] != ',',
    ensures
        without_commas(grouped(s)) == s,
    decreases s.len(),
{
    if s.len() <= 3 {
        without_commas_of_plain(s);
    } else {
        let head = s.take(s.len() - 3);
        let tail = s.skip(s.len() - 3);
        grouping_undone(head);
        without_commas_of_plain(tail);
        without_commas_concat(grouped(head) + seq![','], tail);
        without_commas_concat(grouped(head), seq![',']);
        assert(seq![','].drop_last() =~= Seq::<char>::empty());
        assert(without_commas(Seq::<char>::empty()) =~= Seq::<char>::empty());
        assert(without_commas(seq![',']) == without_commas(seq![','].drop_last()));
        assert(head + Seq::<char>::empty() =~= head);
        assert(head + tail =~= s);
    }
}

/// Grouping only adds separators: taking the commas out of a formatted number
/// gives its decimal numeral back, and it never begins with one.
pub proof fn thousands_keep_the_numeral(n: nat)
    ensures
        without_commas(grouped(decimal(n))) == decimal(n),
        grouped(decimal(n)).len() >= 1,
        grouped(decimal(n))[0] != ',',
{
    decimal_denotes(n);
    let s = decimal(n);
    assert forall|i: int| 0 <= i < s.len() implies s[i] != ',' by {
        assert(digit_value(s[i]) >= 0);
    }
    grouping_undone(s);
    grouped_starts_as(s);
}

proof fn grouped_starts_as(s: Seq<char>)
    requires
        s.len() >= 1,
    ensures
        grouped(s).len() >= 1,
        grouped(s)[0] == s[0],
    decreases s.len(),
{
    if s.len() > 3 {
        grouped_starts_as(s.take(s.len() - 3));
    }
}

/// The decimal numeral of `n` with a comma between groups of three digits.
pub fn format_thousands(n: u64) -> (out: String)
    ensures
        out@ == grouped(decimal(n as nat)),
{
    let digits: Vec<char> = chars_of(decimal_text(n).as_str());
    let mut out: String = String::new();
    let mut i: usize = 0;
    while i < digits.len()
        invariant
            i <= digits.len(),
            out@ == spread(digits@, digits@.len() as int, i as nat),
        decreases digits.len() - i,
    {
        if i > 0 && (digits.len() - i) % 3 == 0 {
            out.push(',');
        }
        out.push(digits[i]);
        i += 1;
    }
    proof {
        spread_is_grouped(digits@);
    }
    out
}

/// The text of a part that shows `label`: two spaces, then the label.
pub open spec fn indented(label: Seq<char>) -> Seq<char> {
    "  "@ + label
}

/// The text of the length part.
pub open spec fn length_text(length: nat, lines: nat) -> Seq<char> {
    "  length: "@ + grouped(decimal(length)) + "   lines: "@ + grouped(decimal(lines))
}

/// One more than `n`, held at the largest value the counter can have.
pub open spec fn one_based(n: u64) -> nat {
    if n == u64::MAX {
        n as nat
    } else {
        (n + 1) as nat
    }
}

/// The text of the cursor part, for a zero-based line and column.
pub open spec fn cursor_text(line: u64, col: u64, pos: u64) -> Seq<char> {
    "  Ln: "@ + decimal(one_based(line)) + "   Col: "@ + decimal(one_based(col)) + "   Pos: "@
        + grouped(decimal(pos as nat))
}

/// The text of the overtype part.
pub open spec fn overtype_text(overtype: bool) -> Seq<char> {
    if overtype {
        "  OVR"@
    } else {
        "  INS"@
    }
}

/// How wide one part is: its width in characters, and whether it takes the
/// slack when the window is resized. A width of 0 sets none.
#[derive(Clone, Copy, PartialEq, Eq, Structural, Debug)]
pub struct PartWidth {
    pub chars: i32,
    pub expands: bool,
}

/// The seven parts' widths, in order. Only the spring, part 1, expands.
pub open spec fn part_widths_spec() -> Seq<PartWidth> {
    seq![
        PartWidth { chars: 22, expands: false },
        PartWidth { chars: 0, expands: true },
        PartWidth { chars: 26, expands: false },
        PartWidth { chars: 30, expands: false },
        PartWidth { chars: 18, expands: false },
        PartWidth { chars: 14, expands: false },
        PartWidth { chars: 5, expands: false },
    ]
}

/// The widths to build the bar with.
pub fn part_widths() -> (r: Vec<PartWidth>)
    ensures
        r@ == part_widths_spec(),
{
    vec![
        PartWidth { chars: 22, expands: false },
        PartWidth { chars: 0, expands: true },
        PartWidth { chars: 26, expands: false },
        PartWidth { chars: 30, expands: false },
        PartWidth { chars: 18, expands: false },
        PartWidth { chars: 14, expands: false },
        PartWidth { chars: 5, expands: false },
    ]
}

/// The texts that the bar's labels show.
pub struct StatusBar {
    labels: Vec<String>,
}

impl StatusBar {
    /// The shown texts, part by part.
    pub closed spec fn parts(&self) -> Seq<Seq<char>> {
        Seq::new(self.labels@.len(), |i: int| self.labels@[i]@)
    }

    /// There is a label for every part.
    pub closed spec fn wf(&self) -> bool {
        self.labels@.len() == PART_COUNT
    }

    /// A well-formed bar has a text for each of its parts.
    pub proof fn parts_are_seven(&self)
        requires
            self.wf(),
        ensures
            self.parts().len() == PART_COUNT,
    {
    }

    /// A bar whose parts are all empty.
    pub fn new() -> (bar: StatusBar)
        ensures
            bar.wf(),
            bar.parts().len() == PART_COUNT,
            forall|i: int| 0 <= i < PART_COUNT ==> (#[trigger] bar.parts()[i]).len() == 0,
    {
        let mut labels: Vec<String> = Vec::new();
        let mut i: usize = 0;
        while i < PART_COUNT
            invariant
                i <= PART_COUNT,
                labels@.len() == i,
                forall|j: int| 0 <= j < i ==> (#[trigger] labels@[j])@.len() == 0,
            decreases PART_COUNT - i,
        {
            labels.push(String::new());
            i += 1;
        }
        StatusBar { labels }
    }

    /// The text of one part; empty for a part that does not exist.
    pub fn part(&self, part: usize) -> (text: &str)
        requires
            self.wf(),
        ensures
            part < PART_COUNT ==> text@ == self.parts()[part as int],
            part >= PART_COUNT ==> text@ == ""@,
    {
        if part < self.labels.len() {
            self.labels[part].as_str()
        } else {
            ""
        }
    }

    /// Write one part; a part that does not exist is ignored.
    fn set(&mut self, part: usize, text: String)
        requires
            old(self).wf(),
        ensures
            final(self).wf(),
            part < PART_COUNT ==> final(self).parts() == old(self).parts().update(part as int, text@),
            part >= PART_COUNT ==> final(self).parts() == old(self).parts(),
    {
        if part < self.labels.len() {
            self.labels.set(part, text);
            assert(self.parts() =~= old(self).parts().update(part as int, text@));
        }
    }

    /// Write the parts that change with the language, the line ending or the
    /// encoding, and leave the others.
    pub fn set_static_parts(&mut self, lang: &str, eol: &str, encoding: &str)
        requires
            old(self).wf(),
        ensures
            final(self).wf(),
            final(self).parts() == old(self).parts()
                .update(PART_LANG as int, indented(lang@))
                .update(PART_EOL as int, indented(eol@))
                .update(PART_ENCODING as int, indented(encoding@)),
    {
        self.set(PART_LANG, indented_text(lang));
        self.set(PART_EOL, indented_text(eol));
        self.set(PART_ENCODING, indented_text(encoding));
    }

    /// Write the parts that change on every caret move and edit: the length
    /// and line count, the caret (shown one-based), and the overtype mark.
    pub fn set_dynamic_parts(
        &mut self,
        length: u64,
        lines: u64,
        caret_line: u64,
        caret_col: u64,
        pos: u64,
        overtype: bool,
    )
        requires
            old(self).wf(),
        ensures
            final(self).wf(),
            final(self).parts() == old(self).parts()
                .update(PART_LENGTH as int, length_text(length as nat, lines as nat))
                .update(PART_CURSOR as int, cursor_text(caret_line, caret_col, pos))
                .update(PART_INSOVR as int, overtype_text(overtype)),
    {
        let mut size: String = String::from_str("  length: ");
        size.append(format_thousands(length).as_str());
        size.append("   lines: ");
        size.append(format_thousands(lines).as_str());
        self.set(PART_LENGTH, size);
        let mut cursor: String = String::from_str("  Ln: ");
        push_decimal(&mut cursor, caret_line.saturating_add(1));
        cursor.append("   Col: ");
        push_decimal(&mut cursor, caret_col.saturating_add(1));
        cursor.append("   Pos: ");
        cursor.append(format_thousands(pos).as_str());
        self.set(PART_CURSOR, cursor);
        let mark: String = if overtype {
            String::from_str("  OVR")
        } else {
            String::from_str("  INS")
        };
        self.set(PART_INSOVR, mark);
    }

    /// Write a part on a plugin's behalf: the text is shown as it is, until
    /// the next host update of that part.
    pub fn set_plugin_part(&mut self, part: usize, text: &str)
        requires
            old(self).wf(),
        ensures
            final(self).wf(),
            part < PART_COUNT ==> final(self).parts() == old(self).parts().update(part as int, text@),
            part >= PART_COUNT ==> final(self).parts() == old(self).parts(),
    {
        self.set(part, text.to_owned());
    }
}

fn indented_text(label: &str) -> (r: String)
    ensures
        r@ == indented(label@),
{
    let mut out: String = String::from_str("  ");
    out.append(label);
    out
}

/// The two kinds of host update touch different parts, so neither disturbs
/// what the other wrote, and no host update touches the spring.
pub proof fn host_updates_are_independent(
    parts: Seq<Seq<char>>,
    lang: Seq<char>,
    eol: Seq<char>,
    encoding: Seq<char>,
    size: Seq<char>,
    cursor: Seq<char>,
    mark: Seq<char>,
)
    requires
        parts.len() == PART_COUNT,
    ensures
        ({
            let fixed = parts.update(PART_LANG as int, lang).update(PART_EOL as int, eol).update(
                PART_ENCODING as int,
                encoding,
            );
            let both = fixed.update(PART_LENGTH as int, size).update(
                PART_CURSOR as int,
                cursor,
            ).update(PART_INSOVR as int, mark);
            &&& both == parts.update(PART_LENGTH as int, size).update(
                PART_CURSOR as int,
                cursor,
            ).update(PART_INSOVR as int, mark).update(PART_LANG as int, lang).update(
                PART_EOL as int,
                eol,
            ).update(PART_ENCODING as int, encoding)
            &&& both[1] == parts[1]
        }),
{
    let fixed = parts.update(PART_LANG as int, lang).update(PART_EOL as int, eol).update(
        PART_ENCODING as int,
        encoding,
    );
    let both = fixed.update(PART_LENGTH as int, size).update(PART_CURSOR as int, cursor).update(
        PART_INSOVR as int,
        mark,
    );
    assert(both =~= parts.update(PART_LENGTH as int, size).update(PART_CURSOR as int, cursor).update(
        PART_INSOVR as int,
        mark,
    ).update(PART_LANG as int, lang).update(PART_EOL as int, eol).update(
        PART_ENCODING as int,
        encoding,
    ));
}

/// The parts of the bar, from left to right.
pub proof fn the_parts_of_the_bar()
    ensures
        PART_COUNT == 7,
        PART_LANG == 0,
        PART_LENGTH == 2,
        PART_CURSOR == 3,
        PART_EOL == 4,
        PART_ENCODING == 5,
        PART_INSOVR == 6,
{
}

/// The commas of a number stand before each three digits from its end, and
/// nowhere else.
pub proof fn commas_part_threes(s: Seq<char>, k: int)
    requires
        s.len() > 0,
        forall|i: int| 0 <= i < s.len() ==> s[i] != ',',
        0 <= k < grouped(s).len(),
    ensures
        grouped(s).len() == s.len() + (s.len() - 1) / 3,
        grouped(s)[k] == ',' <==> (grouped(s).len() - k) % 4 == 0,
    decreases s.len(),
{
    if s.len() > 3 {
        let head = s.take(s.len() - 3);
        let tail = s.skip(s.len() - 3);
        let n = grouped(head).len();
        if k < n {
            commas_part_threes(head, k);
            assert(grouped(s)[k] == grouped(head)[k]);
        } else {
            grouped_starts_as(head);
            commas_part_threes(head, 0);
            if k > n {
                assert(grouped(s)[k] == tail[k - n - 1]);
                assert(tail[k - n - 1] == s[s.len() - 3 + k - n - 1]);
            }
        }
    }
}

/// The length part tells how long the text is and how many lines it has; the
/// caret part tells line, column and position, of which the first two count
/// from one.
pub proof fn what_the_parts_say(length: nat, lines: nat, line: u64, col: u64, pos: u64)
    requires
        line < u64::MAX,
        col < u64::MAX,
    ensures
        length_text(length, lines) == "  length: "@ + grouped(decimal(length)) + "   lines: "@
            + grouped(decimal(lines)),
        cursor_text(line, col, pos) == "  Ln: "@ + decimal((line + 1) as nat) + "   Col: "@
            + decimal((col + 1) as nat) + "   Pos: "@ + grouped(decimal(pos as nat)),
        overtype_text(true) == "  OVR"@,
        overtype_text(false) == "  INS"@,
        one_based(u64::MAX) == u64::MAX,
{
}

/// The widths of the parts; only the second one gives way.
pub proof fn only_the_spring_gives_way(i: int)
    requires
        0 <= i < 7,
    ensures
        part_widths_spec().len() == 7,
        part_widths_spec()[i].expands <==> i == 1,
        part_widths_spec()[0].chars == 22,
        part_widths_spec()[1].chars == 0,
        part_widths_spec()[2].chars == 26,
        part_widths_spec()[3].chars == 30,
        part_widths_spec()[4].chars == 18,
        part_widths_spec()[5].chars == 14,
        part_widths_spec()[6].chars == 5,
{
}

/// What the host writes goes into the parts it is about, and leaves the others
/// as they were.
pub proof fn a_part_shows_what_it_is_about(
    lang: &str,
    eol: &str,
    encoding: &str,
    length: u64,
    lines: u64,
    line: u64,
    col: u64,
    pos: u64,
    overtype: bool,
)
    ensures
        forall|bar: &mut StatusBar|
            bar.wf() && #[trigger] call_ensures(
                StatusBar::set_static_parts,
                (bar, lang, eol, encoding),
                (),
            ) ==> {
                &&& final(bar).parts()[0] == "  "@ + lang@
                &&& final(bar).parts()[4] == "  "@ + eol@
                &&& final(bar).parts()[5] == "  "@ + encoding@
                &&& final(bar).parts()[1] == bar.parts()[1]
                &&& final(bar).parts()[2] == bar.parts()[2]
                &&& final(bar).parts()[3] == bar.parts()[3]
                &&& final(bar).parts()[6] == bar.parts()[6]
            },
        forall|bar: &mut StatusBar|
            bar.wf() && #[trigger] call_ensures(
                StatusBar::set_dynamic_parts,
                (bar, length, lines, line, col, pos, overtype),
                (),
            ) ==> {
                &&& final(bar).parts()[2] == "  length: "@ + grouped(decimal(length as nat))
                    + "   lines: "@ + grouped(decimal(lines as nat))
                &&& line < u64::MAX && col < u64::MAX ==> final(bar).parts()[3] == "  Ln: "@
                    + decimal((line + 1) as nat) + "   Col: "@ + decimal((col + 1) as nat)
                    + "   Pos: "@ + grouped(decimal(pos as nat))
                &&& overtype ==> final(bar).parts()[6] == "  OVR"@
                &&& !overtype ==> final(bar).parts()[6] == "  INS"@
                &&& final(bar).parts()[0] == bar.parts()[0]
                &&& final(bar).parts()[1] == bar.parts()[1]
                &&& final(bar).parts()[4] == bar.parts()[4]
                &&& final(bar).parts()[5] == bar.parts()[5]
            },
{
}

/// What a plugin writes is shown as it is, in the part it names, and read back
/// from there; a part that is not there takes nothing.
pub proof fn a_plugin_reads_what_it_wrote(part: usize, text: &str, other: int, read: &str)
    requires
        0 <= other < 7,
    ensures
        forall|bar: &mut StatusBar|
            bar.wf() && #[trigger] call_ensures(StatusBar::set_plugin_part, (bar, part, text), ())
                ==> {
                &&& part < 7 && call_ensures(StatusBar::part, (final(bar), part), read) ==> read@
                    == text@
                &&& other != part ==> final(bar).parts()[other] == bar.parts()[other]
            },
{
}

} // verus!
