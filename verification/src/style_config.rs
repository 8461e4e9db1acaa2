//! The style configurator: what its controls mean, and its list of fonts.
use vstd::prelude::*;
use crate::platform::{opacity_percent, rgb_to_scintilla_colour};
use crate::text::{chars_of, same_text, texts};

verus! {

/// The sizes that can be chosen.
pub const SIZE_MIN: i32 = 5;

pub const SIZE_MAX: i32 = 72;

/// The opacities that can be chosen, in percent.
pub const OPACITY_MIN: i32 = 20;

pub const OPACITY_MAX: i32 = 100;

/// The colours of text and of what is behind it, where none is set.
pub const DEFAULT_FG: (u8, u8, u8) = (0, 0, 0);

pub const DEFAULT_BG: (u8, u8, u8) = (0xff, 0xff, 0xff);

/// How text looks.
pub struct StyleEntry {
    pub font_name: String,
    pub font_size: u16,
    pub bold: bool,
    pub italic: bool,
    pub underline: bool,
    /// Colours, as red, green and blue. `None` if what is set is no colour.
    pub fg: Option<(u8, u8, u8)>,
    pub bg: Option<(u8, u8, u8)>,
}

/// How much of what is behind the window shows through.
#[derive(Copy, Clone, PartialEq, Eq, Structural, Debug)]
pub struct Transparency {
    pub enabled: bool,
    pub percent: u8,
}

/// The controls of the dialog.
pub struct StyleControls {
    /// The font that is chosen, if one is.
    pub font: Option<String>,
    pub size: i32,
    pub bold: bool,
    pub italic: bool,
    pub underline: bool,
    pub fg: (u8, u8, u8),
    pub bg: (u8, u8, u8),
    pub transparent: bool,
    /// The opacity in whole percent.
    pub opacity: i32,
}

/// A number, brought into a range.
pub open spec fn within(n: i32, low: i32, high: i32) -> i32 {
    if n < low {
        low
    } else if n > high {
        high
    } else {
        n
    }
}

fn brought_within(n: i32, low: i32, high: i32) -> (r: i32)
    ensures
        r == within(n, low, high),
{
    if n < low {
        low
    } else if n > high {
        high
    } else {
        n
    }
}

/// What the controls mean. Without a chosen font the font stays as it was.
pub open spec fn style_meaning(c: StyleControls, prior_font: String) -> (StyleEntry, Transparency) {
    (
        StyleEntry {
            font_name: match c.font {
                Some(font) => font,
                None => prior_font,
            },
            font_size: within(c.size, SIZE_MIN, SIZE_MAX) as u16,
            bold: c.bold,
            italic: c.italic,
            underline: c.underline,
            fg: Some(c.fg),
            bg: Some(c.bg),
        },
        Transparency {
            enabled: c.transparent,
            percent: within(c.opacity, OPACITY_MIN, OPACITY_MAX) as u8,
        },
    )
}

/// Read the controls.
pub fn read_styles(c: StyleControls, prior_font: String) -> (r: (StyleEntry, Transparency))
    ensures
        r == style_meaning(c, prior_font),
{
    let font_name: String = match c.font {
        Some(font) => font,
        None => prior_font,
    };
    let size: i32 = brought_within(c.size, SIZE_MIN, SIZE_MAX);
    let percent: i32 = brought_within(c.opacity, OPACITY_MIN, OPACITY_MAX);
    (
        StyleEntry {
            font_name,
            font_size: size as u16,
            bold: c.bold,
            italic: c.italic,
            underline: c.underline,
            fg: Some(c.fg),
            bg: Some(c.bg),
        },
        Transparency { enabled: c.transparent, percent: percent as u8 },
    )
}

/// A colour, or another one in its place.
pub open spec fn colour_or(parsed: Option<(u8, u8, u8)>, fallback: (u8, u8, u8)) -> (u8, u8, u8) {
    match parsed {
        Some(colour) => colour,
        None => fallback,
    }
}

/// A colour as the dialog opens with it: the one that is set or, if that is no
/// colour, the one that text has otherwise.
pub fn seed_colour(parsed: Option<(u8, u8, u8)>, fallback: (u8, u8, u8)) -> (r: (u8, u8, u8))
    ensures
        r == colour_or(parsed, fallback),
{
    match parsed {
        Some(colour) => colour,
        None => fallback,
    }
}

/// A text comes before another: at the first place where they differ its
/// character is the lesser, or it ends there.
pub open spec fn comes_before(a: Seq<char>, b: Seq<char>) -> bool
    decreases a.len(),
{
    if b.len() == 0 {
        false
    } else if a.len() == 0 {
        true
    } else if a[0] != b[0] {
        a[0] < b[0]
    } else {
        comes_before(a.skip(1), b.skip(1))
    }
}

fn is_before(a: &Vec<char>, b: &Vec<char>) -> (r: bool)
    ensures
        r == comes_before(a@, b@),
{
    let mut i: usize = 0;
    assert(a@.skip(0) =~= a@);
    assert(b@.skip(0) =~= b@);
    while i < a.len() && i < b.len() && a[i] == b[i]
        invariant
            i <= a@.len(),
            i <= b@.len(),
            comes_before(a@.skip(i as int), b@.skip(i as int)) == comes_before(a@, b@),
        decreases a.len() - i,
    {
        assert(a@.skip(i as int).skip(1) =~= a@.skip(i + 1));
        assert(b@.skip(i as int).skip(1) =~= b@.skip(i + 1));
        i += 1;
    }
    if i >= b.len() {
        false
    } else if i >= a.len() {
        true
    } else {
        a[i] < b[i]
    }
}

proof fn before_is_transitive(a: Seq<char>, b: Seq<char>, c: Seq<char>)
    requires
        comes_before(a, b),
        comes_before(b, c),
    ensures
        comes_before(a, c),
    decreases a.len(),
{
    if a.len() > 0 && a[0] == b[0] && b[0] == c[0] {
        before_is_transitive(a.skip(1), b.skip(1), c.skip(1));
    }
}

proof fn before_is_total(a: Seq<char>, b: Seq<char>)
    ensures
        comes_before(a, b) || a == b || comes_before(b, a),
    decreases a.len(),
{
    if a.len() == 0 || b.len() == 0 {
        if a.len() == b.len() {
            assert(a =~= b);
        }
    } else if a[0] == b[0] {
        let p = a.skip(1);
        let q = b.skip(1);
        before_is_total(p, q);
        if p == q {
            assert(a.len() == p.len() + 1);
            assert(b.len() == q.len() + 1);
            assert forall|i: int| 0 <= i < a.len() implies a[i] == b[i] by {
                if i > 0 {
                    assert(p[i - 1] == a[i]);
                    assert(q[i - 1] == b[i]);
                }
            }
            assert(a =~= b);
        }
    }
}

proof fn before_is_strict(a: Seq<char>)
    ensures
        !comes_before(a, a),
    decreases a.len(),
{
    if a.len() > 0 {
        before_is_strict(a.skip(1));
    }
}

/// Texts in order, none twice.
pub open spec fn is_sorted(s: Seq<Seq<char>>) -> bool {
    forall|i: int, j: int| 0 <= i < j < s.len() ==> comes_before(#[trigger] s[i], #[trigger] s[j])
}

/// The place where `t` belongs in `s`: those before it come before it, and
/// the others do not.
pub open spec fn belongs_at(s: Seq<Seq<char>>, t: Seq<char>, at: int) -> bool {
    &&& 0 <= at <= s.len()
    &&& forall|i: int| 0 <= i < at ==> comes_before(#[trigger] s[i], t)
    &&& forall|i: int| at <= i < s.len() ==> !comes_before(#[trigger] s[i], t)
}

proof fn insertion_keeps_order(s: Seq<Seq<char>>, t: Seq<char>, at: int)
    requires
        is_sorted(s),
        belongs_at(s, t, at),
        at < s.len() ==> s[at] != t,
    ensures
        is_sorted(s.insert(at, t)),
{
    let r = s.insert(at, t);
    assert forall|i: int, j: int| 0 <= i < j < r.len() implies comes_before(
        #[trigger] r[i],
        #[trigger] r[j],
    ) by {
        if j == at {
            assert(r[i] == s[i]);
        } else if i == at {
            assert(r[j] == s[j - 1]);
            before_is_total(s[at], t);
            assert(!comes_before(s[at], t));
            if j - 1 > at {
                assert(comes_before(s[at], s[j - 1]));
                before_is_transitive(t, s[at], s[j - 1]);
            }
        } else if i > at {
            assert(r[i] == s[i - 1] && r[j] == s[j - 1]);
        } else if j > at {
            assert(r[i] == s[i] && r[j] == s[j - 1]);
        } else {
            assert(r[i] == s[i] && r[j] == s[j]);
        }
    }
}

/// The families in order, each once.
pub fn sorted_families(names: &Vec<String>) -> (r: Vec<String>)
    ensures
        is_sorted(texts(r@)),
        forall|t: Seq<char>| texts(r@).contains(t) <==> texts(names@).contains(t),
{
    let mut out: Vec<String> = Vec::new();
    let mut n: usize = 0;
    while n < names.len()
        invariant
            n <= names@.len(),
            is_sorted(texts(out@)),
            forall|t: Seq<char>|
                texts(out@).contains(t) <==> texts(names@).take(n as int).contains(t),
        decreases names.len() - n,
    {
        let ghost before = texts(out@);
        let ghost fresh = texts(names@)[n as int];
        insert_family(&mut out, &names[n]);
        proof {
            let now = texts(names@).take(n + 1);
            let prior = texts(names@).take(n as int);
            assert(now =~= prior.push(fresh));
            assert forall|t: Seq<char>| texts(out@).contains(t) <==> now.contains(t) by {
                if now.contains(t) {
                    let k = choose|k: int| 0 <= k < now.len() && now[k] == t;
                    if k < n {
                        assert(prior[k] == t);
                        assert(prior.contains(t));
                    }
                }
                if prior.contains(t) {
                    let k = choose|k: int| 0 <= k < prior.len() && prior[k] == t;
                    assert(now[k] == t);
                }
                if t == fresh {
                    assert(now[n as int] == t);
                }
            }
        }
        n += 1;
    }
    assert(texts(names@).take(n as int) =~= texts(names@));
    out
}

fn insert_family(out: &mut Vec<String>, name: &String)
    requires
        is_sorted(texts(old(out)@)),
    ensures
        is_sorted(texts(final(out)@)),
        forall|t: Seq<char>|
            texts(final(out)@).contains(t) <==> texts(old(out)@).contains(t) || t == name@,
{
    let ghost s = texts(out@);
    let key: Vec<char> = chars_of(name.as_str());
    let mut at: usize = 0;
    while at < out.len() && is_before(&chars_of(out[at].as_str()), &key)
        invariant
            at <= out@.len(),
            s == texts(out@),
            key@ == name@,
            forall|i: int| 0 <= i < at ==> comes_before(#[trigger] s[i], name@),
        decreases out.len() - at,
    {
        at += 1;
    }
    proof {
        assert forall|i: int| at <= i < s.len() implies !comes_before(#[trigger] s[i], name@) by {
            assert(s[at as int] == out@[at as int]@);
            if comes_before(s[i], name@) && i > at {
                assert(comes_before(s[at as int], s[i]));
                before_is_transitive(s[at as int], s[i], name@);
            }
        }
    }
    if at < out.len() && same_text(out[at].as_str(), name.as_str()) {
        assert(s[at as int] == name@);
        assert(s.contains(name@));
        return ;
    }
    let copy: String = name.clone();
    out.insert(at, copy);
    proof {
        let r = texts(out@);
        assert(r =~= s.insert(at as int, name@));
        if at < s.len() {
            assert(s[at as int] != name@);
        }
        insertion_keeps_order(s, name@, at as int);
        assert forall|t: Seq<char>| r.contains(t) <==> s.contains(t) || t == name@ by {
            if s.contains(t) {
                let k = choose|k: int| 0 <= k < s.len() && s[k] == t;
                if k < at {
                    assert(r[k] == t);
                } else {
                    assert(r[k + 1] == t);
                }
            }
            assert(r[at as int] == name@);
            if r.contains(t) && t != name@ {
                let k = choose|k: int| 0 <= k < r.len() && r[k] == t;
                if k < at {
                    assert(s[k] == t);
                } else {
                    assert(s[k - 1] == t);
                }
            }
        }
    }
}

/// In order and each once, the same families make the same list.
pub proof fn the_list_is_determined(a: Seq<Seq<char>>, b: Seq<Seq<char>>)
    requires
        is_sorted(a),
        is_sorted(b),
        forall|t: Seq<char>| a.contains(t) <==> b.contains(t),
    ensures
        a == b,
    decreases a.len(),
{
    if a.len() == 0 {
        if b.len() > 0 {
            assert(b.contains(b[0]));
        }
        assert(a =~= b);
    } else {
        assert(a.contains(a[a.len() - 1]));
        let k = choose|k: int| 0 <= k < b.len() && b[k] == a[a.len() - 1];
        assert(b.contains(b[b.len() - 1]));
        let m = choose|m: int| 0 <= m < a.len() && a[m] == b[b.len() - 1];
        let x = a[a.len() - 1];
        let y = b[b.len() - 1];
        if x != y {
            assert(comes_before(b[k], b[b.len() - 1]));
            assert(comes_before(a[m], a[a.len() - 1]));
            before_is_transitive(x, y, x);
            before_is_strict(x);
        }
        let p = a.drop_last();
        let q = b.drop_last();
        assert(is_sorted(p)) by {
            assert forall|i: int, j: int| 0 <= i < j < p.len() implies comes_before(
                #[trigger] p[i],
                #[trigger] p[j],
            ) by {
                assert(comes_before(a[i], a[j]));
            }
        }
        assert(is_sorted(q)) by {
            assert forall|i: int, j: int| 0 <= i < j < q.len() implies comes_before(
                #[trigger] q[i],
                #[trigger] q[j],
            ) by {
                assert(comes_before(b[i], b[j]));
            }
        }
        assert forall|t: Seq<char>| p.contains(t) <==> q.contains(t) by {
            before_is_strict(x);
            if p.contains(t) {
                let i = choose|i: int| 0 <= i < p.len() && p[i] == t;
                assert(a[i] == t);
                assert(a.contains(t));
                assert(comes_before(a[i], a[a.len() - 1]));
                let j = choose|j: int| 0 <= j < b.len() && b[j] == t;
                if j < q.len() {
                    assert(q[j] == t);
                }
            }
            if q.contains(t) {
                let i = choose|i: int| 0 <= i < q.len() && q[i] == t;
                assert(b[i] == t);
                assert(b.contains(t));
                assert(comes_before(b[i], b[b.len() - 1]));
                let j = choose|j: int| 0 <= j < a.len() && a[j] == t;
                if j < p.len() {
                    assert(p[j] == t);
                }
            }
        }
        the_list_is_determined(p, q);
        assert(a =~= p.push(x));
        assert(b =~= q.push(y));
    }
}

/// The list of fonts, and the one that is chosen in it.
pub struct FontCombo {
    pub items: Vec<String>,
    pub active: u32,
}

/// The number of a place in the list; a place that has none counts as the
/// first.
pub open spec fn place_number(at: int) -> int {
    if at <= u32::MAX {
        at
    } else {
        0
    }
}

/// The families in a list of fonts, which has one more font before them or
/// not.
pub open spec fn families_in(r: FontCombo, extra: bool) -> Seq<Seq<char>> {
    if extra {
        texts(r.items@).skip(1)
    } else {
        texts(r.items@)
    }
}

/// What is in one row is in the other.
pub open spec fn same_families(a: Seq<Seq<char>>, b: Seq<Seq<char>>) -> bool {
    forall|t: Seq<char>| a.contains(t) <==> b.contains(t)
}

/// A list of fonts made for a current one: the families, each once and in
/// order, and before them the current font if it is none of them. The current
/// font is chosen; without one, the first of the list.
pub open spec fn lists_fonts(names: Seq<Seq<char>>, current: Seq<char>, r: FontCombo) -> bool {
    let listed = names.contains(current);
    let extra = current.len() > 0 && !listed;
    &&& is_sorted(families_in(r, extra))
    &&& same_families(families_in(r, extra), names)
    &&& extra ==> r.items@.len() > 0 && r.items@[0]@ == current
    &&& listed ==> exists|at: int|
        0 <= at < r.items@.len() && (#[trigger] r.items@[at])@ == current && r.active
            == place_number(at)
    &&& !listed ==> r.active == 0
}

/// The font that is chosen in a list, if the list has one at that place.
pub open spec fn chosen_font(fonts: FontCombo) -> Option<Seq<char>> {
    if fonts.active < fonts.items@.len() {
        Some(fonts.items@[fonts.active as int]@)
    } else {
        None
    }
}

/// The list of fonts: the families and, before them, the current font if it is
/// none of them. The current font is chosen; without one, the first of the
/// list.
pub fn build_font_combo(names: &Vec<String>, current: &String) -> (r: FontCombo)
    ensures
        lists_fonts(texts(names@), current@, r),
{
    let families: Vec<String> = sorted_families(names);
    let count: usize = families.len();
    let mut place: Option<usize> = None;
    let mut i: usize = 0;
    while i < count
        invariant
            i <= count == families@.len(),
            match place {
                Some(at) => at < i && families@[at as int]@ == current@,
                None => forall|j: int| 0 <= j < i ==> families@[j]@ != current@,
            },
        decreases count - i,
    {
        if same_text(families[i].as_str(), current.as_str()) {
            place = Some(i);
        }
        i += 1;
    }
    let ghost sorted = texts(families@);
    proof {
        if place is None {
            assert(!sorted.contains(current@)) by {
                if sorted.contains(current@) {
                    let k = choose|k: int| 0 <= k < sorted.len() && sorted[k] == current@;
                    assert(families@[k]@ == current@);
                }
            }
        } else {
            assert(sorted[place->Some_0 as int] == current@);
            assert(sorted.contains(current@));
        }
    }
    let mut items: Vec<String> = families;
    match place {
        Some(at) => {
            let active: u32 = if at <= u32::MAX as usize {
                at as u32
            } else {
                0
            };
            assert(items@[at as int]@ == current@);
            FontCombo { items, active }
        },
        None => {
            if !current.as_str().is_empty() {
                let copy: String = current.clone();
                items.insert(0, copy);
                assert(texts(items@).skip(1) =~= sorted);
            }
            FontCombo { items, active: 0 }
        },
    }
}

/// The controls as the dialog opens with them, with `font` chosen in the list:
/// what is set, brought into the ranges that can be chosen, and the default
/// where what is set is no colour.
pub open spec fn style_controls(
    entry: StyleEntry,
    font: Option<String>,
    transparency: Transparency,
) -> StyleControls {
    StyleControls {
        font,
        size: within(entry.font_size as i32, SIZE_MIN, SIZE_MAX),
        bold: entry.bold,
        italic: entry.italic,
        underline: entry.underline,
        fg: colour_or(entry.fg, DEFAULT_FG),
        bg: colour_or(entry.bg, DEFAULT_BG),
        transparent: transparency.enabled,
        opacity: within(transparency.percent as i32, OPACITY_MIN, OPACITY_MAX),
    }
}

/// The text of a font that may be chosen.
pub open spec fn font_text(font: Option<String>) -> Option<Seq<char>> {
    match font {
        Some(f) => Some(f@),
        None => None,
    }
}

/// Set the controls as the dialog opens with them, over a list of fonts.
pub fn build_content(entry: &StyleEntry, fonts: &FontCombo, transparency: Transparency) -> (c:
    StyleControls)
    ensures
        c == style_controls(*entry, c.font, transparency),
        font_text(c.font) == chosen_font(*fonts),
{
    let size: i32 = brought_within(entry.font_size as i32, SIZE_MIN, SIZE_MAX);
    let opacity: i32 = brought_within(transparency.percent as i32, OPACITY_MIN, OPACITY_MAX);
    let font: Option<String> = if (fonts.active as usize) < fonts.items.len() {
        Some(fonts.items[fonts.active as usize].clone())
    } else {
        None
    };
    StyleControls {
        font,
        size,
        bold: entry.bold,
        italic: entry.italic,
        underline: entry.underline,
        fg: seed_colour(entry.fg, DEFAULT_FG),
        bg: seed_colour(entry.bg, DEFAULT_BG),
        transparent: transparency.enabled,
        opacity,
    }
}

/// What the dialog saves if nothing was touched, `font` being what its list
/// opened on.
pub open spec fn untouched(
    entry: StyleEntry,
    font: Option<String>,
    transparency: Transparency,
) -> (StyleEntry, Transparency) {
    style_meaning(style_controls(entry, font, transparency), entry.font_name)
}

/// Opening the dialog and saving changes nothing that can be chosen: a font
/// that has a name, colours that are some, and numbers in their ranges. The
/// place of the font has to be one that the list can number.
pub proof fn an_untouched_style_stays(
    entry: StyleEntry,
    names: Seq<Seq<char>>,
    fonts: FontCombo,
    font: Option<String>,
    transparency: Transparency,
)
    requires
        lists_fonts(names, entry.font_name@, fonts),
        font_text(font) == chosen_font(fonts),
        entry.font_name@.len() > 0,
        fonts.items@.len() <= u32::MAX,
        entry.fg is Some,
        entry.bg is Some,
        SIZE_MIN <= entry.font_size <= SIZE_MAX,
        OPACITY_MIN <= transparency.percent <= OPACITY_MAX,
    ensures
        untouched(entry, font, transparency).0.font_name@ == entry.font_name@,
        untouched(entry, font, transparency) == (
            StyleEntry { font_name: untouched(entry, font, transparency).0.font_name, ..entry },
            transparency,
        ),
{
}

/// A family that comes before all others.
pub open spec fn is_first_family(names: Seq<Seq<char>>, first: Seq<char>) -> bool {
    &&& names.contains(first)
    &&& forall|t: Seq<char>| #[trigger]
        names.contains(t) && t != first ==> comes_before(first, t)
}

/// A font without a name gives way to the first of the families, and stays
/// without one only where there is no family.
pub proof fn a_nameless_font_is_replaced(
    entry: StyleEntry,
    names: Seq<Seq<char>>,
    fonts: FontCombo,
    font: Option<String>,
    transparency: Transparency,
)
    requires
        lists_fonts(names, entry.font_name@, fonts),
        font_text(font) == chosen_font(fonts),
        entry.font_name@.len() == 0,
        !names.contains(entry.font_name@),
    ensures
        names.len() > 0 ==> is_first_family(
            names,
            untouched(entry, font, transparency).0.font_name@,
        ),
        names.len() == 0 ==> untouched(entry, font, transparency).0.font_name@ == entry.font_name@,
{
    let items = texts(fonts.items@);
    if names.len() > 0 {
        assert(names.contains(names[0]));
        assert(items.contains(names[0]));
        assert(items.contains(items[0]));
        assert(untouched(entry, font, transparency).0.font_name@ == items[0]);
        assert forall|t: Seq<char>| #[trigger]
            names.contains(t) && t != items[0] implies comes_before(items[0], t) by {
            assert(items.contains(t));
            let k = choose|k: int| 0 <= k < items.len() && items[k] == t;
            assert(comes_before(items[0], items[k]));
        }
    } else if items.len() > 0 {
        assert(items.contains(items[0]));
        assert(names.contains(items[0]));
    }
}

/// What is no colour is saved as black text on white.
pub proof fn no_colour_becomes_the_default(
    entry: StyleEntry,
    font: Option<String>,
    transparency: Transparency,
)
    ensures
        untouched(entry, font, transparency).0.fg == Some(colour_or(entry.fg, DEFAULT_FG)),
        untouched(entry, font, transparency).0.bg == Some(colour_or(entry.bg, DEFAULT_BG)),
{
}

/// Something to tell the editor about its default style.
pub enum StyleStep {
    Font(String),
    Size(i32),
    Fore(u32),
    Back(u32),
    Bold(bool),
    Italic(bool),
    Underline(bool),
    /// Make every other style like the default one.
    ClearAll,
    /// Put back the styles that are not like it.
    Predefined,
    /// Make the window this opaque, in percent.
    Opacity(u8),
    /// Colour the text anew.
    Colourise,
}

/// What applying a style tells the editor, in order. A colour that is none is
/// taken for black text on white.
pub fn apply_default_style(
    entry: StyleEntry,
    transparency: Transparency,
) -> (r: Vec<StyleStep>)
    ensures
        ({
            let (f, b) = (colour_or(entry.fg, DEFAULT_FG), colour_or(entry.bg, DEFAULT_BG));
            r@ == seq![
                StyleStep::Font(entry.font_name),
                StyleStep::Size(entry.font_size as i32),
                StyleStep::Fore((f.0 + 256 * f.1 + 65536 * f.2) as u32),
                StyleStep::Back((b.0 + 256 * b.1 + 65536 * b.2) as u32),
                StyleStep::Bold(entry.bold),
                StyleStep::Italic(entry.italic),
                StyleStep::Underline(entry.underline),
                StyleStep::ClearAll,
                StyleStep::Predefined,
                StyleStep::Opacity(
                    if !transparency.enabled || transparency.percent > 100 {
                        100
                    } else {
                        transparency.percent
                    },
                ),
                StyleStep::Colourise,
            ]
        }),
{
    let fore: u32 = rgb_to_scintilla_colour(seed_colour(entry.fg, DEFAULT_FG));
    let back: u32 = rgb_to_scintilla_colour(seed_colour(entry.bg, DEFAULT_BG));
    let opacity: u8 = opacity_percent(transparency.enabled, transparency.percent);
    let mut steps: Vec<StyleStep> = Vec::new();
    steps.push(StyleStep::Font(entry.font_name));
    steps.push(StyleStep::Size(entry.font_size as i32));
    steps.push(StyleStep::Fore(fore));
    steps.push(StyleStep::Back(back));
    steps.push(StyleStep::Bold(entry.bold));
    steps.push(StyleStep::Italic(entry.italic));
    steps.push(StyleStep::Underline(entry.underline));
    steps.push(StyleStep::ClearAll);
    steps.push(StyleStep::Predefined);
    steps.push(StyleStep::Opacity(opacity));
    steps.push(StyleStep::Colourise);
    steps
}

/// The controls mean what they show; a size counts between five and
/// seventy-two, and an opacity between twenty and a hundred percent.
pub proof fn the_controls_mean_what_they_show(c: StyleControls, prior_font: String)
    ensures
        ({
            let (entry, transparency) = style_meaning(c, prior_font);
            &&& c.font is Some ==> entry.font_name@ == c.font->0@
            &&& c.font is None ==> entry.font_name@ == prior_font@
            &&& 5 <= c.size <= 72 ==> entry.font_size == c.size
            &&& c.size < 5 ==> entry.font_size == 5
            &&& c.size > 72 ==> entry.font_size == 72
            &&& entry.bold == c.bold
            &&& entry.italic == c.italic
            &&& entry.underline == c.underline
            &&& entry.fg == Some(c.fg)
            &&& entry.bg == Some(c.bg)
            &&& transparency.enabled == c.transparent
            &&& 20 <= c.opacity <= 100 ==> transparency.percent == c.opacity
            &&& c.opacity < 20 ==> transparency.percent == 20
            &&& c.opacity > 100 ==> transparency.percent == 100
        }),
{
}

/// The dialog opens with what is set, and with black on white where that is no
/// colour.
pub proof fn the_dialog_opens_with_what_is_set(
    entry: StyleEntry,
    font: Option<String>,
    t: Transparency,
)
    ensures
        ({
            let c = style_controls(entry, font, t);
            &&& c.font == font
            &&& 5 <= entry.font_size <= 72 ==> c.size == entry.font_size
            &&& entry.font_size < 5 ==> c.size == 5
            &&& entry.font_size > 72 ==> c.size == 72
            &&& c.bold == entry.bold
            &&& c.italic == entry.italic
            &&& c.underline == entry.underline
            &&& entry.fg is Some ==> c.fg == entry.fg->0
            &&& entry.fg is None ==> c.fg == (0u8, 0u8, 0u8)
            &&& entry.bg is Some ==> c.bg == entry.bg->0
            &&& entry.bg is None ==> c.bg == (255u8, 255u8, 255u8)
            &&& c.transparent == t.enabled
            &&& 20 <= t.percent <= 100 ==> c.opacity == t.percent
            &&& t.percent < 20 ==> c.opacity == 20
            &&& t.percent > 100 ==> c.opacity == 100
        }),
{
}

/// A text comes before another exactly if it is a beginning of it, or has the
/// lesser character where they first differ.
pub proof fn the_first_difference_decides(head: Seq<char>, a: Seq<char>, b: Seq<char>)
    ensures
        a.len() > 0 && b.len() > 0 && a[0] != b[0] ==> (comes_before(head + a, head + b) <==> a[0]
            < b[0]),
        b.len() > 0 ==> comes_before(head, head + b),
        !comes_before(head + b, head),
    decreases head.len(),
{
    if head.len() > 0 {
        the_first_difference_decides(head.skip(1), a, b);
        assert((head + a).skip(1) =~= head.skip(1) + a);
        assert((head + b).skip(1) =~= head.skip(1) + b);
    } else {
        assert(head + a =~= a);
        assert(head + b =~= b);
    }
}

/// In the list of fonts the current one is chosen: at its place among the
/// families, or before them all if it is none of them. Every family is listed,
/// and nothing else is.
pub proof fn the_current_font_is_chosen(
    names: Vec<String>,
    current: String,
    r: FontCombo,
    t: Seq<char>,
)
    requires
        call_ensures(build_font_combo, (&names, &current), r),
        r.items@.len() <= u32::MAX,
        current@.len() > 0,
    ensures
        r.active < r.items@.len(),
        r.items@[r.active as int]@ == current@,
        texts(r.items@).contains(t) <==> texts(names@).contains(t) || t == current@,
        !texts(names@).contains(current@) ==> r.active == 0,
{
    let all = texts(r.items@);
    let extra = !texts(names@).contains(current@);
    let families = families_in(r, extra);
    assert(families.contains(t) <==> texts(names@).contains(t));
    if extra {
        if families.contains(t) {
            let k = choose|k: int| 0 <= k < families.len() && families[k] == t;
            assert(all[k + 1] == t);
        }
        if all.contains(t) {
            let k = choose|k: int| 0 <= k < all.len() && all[k] == t;
            if k > 0 {
                assert(families[k - 1] == t);
            }
        }
        assert(all[0] == current@);
    } else {
        let at = choose|at: int|
            0 <= at < r.items@.len() && (#[trigger] r.items@[at])@ == current@ && r.active
                == place_number(at);
        assert(r.items@[at]@ == current@);
    }
}

/// A style is applied to the default first and to the others from it, with its
/// own font, size, colours and marks; the text is coloured anew in the end.
pub proof fn a_style_is_applied_as_it_is_set(
    entry: StyleEntry,
    t: Transparency,
    r: Vec<StyleStep>,
    fg: (u8, u8, u8),
    bg: (u8, u8, u8),
)
    requires
        entry.fg == Some(fg),
        entry.bg == Some(bg),
        call_ensures(apply_default_style, (entry, t), r),
    ensures
        r@.len() == 11,
        r@[0] matches StyleStep::Font(font) && font@ == entry.font_name@,
        r@[1] == StyleStep::Size(entry.font_size as i32),
        r@[2] matches StyleStep::Fore(c) && c == fg.0 + 256 * fg.1 + 65536 * fg.2,
        r@[3] matches StyleStep::Back(c) && c == bg.0 + 256 * bg.1 + 65536 * bg.2,
        r@[4] == StyleStep::Bold(entry.bold),
        r@[5] == StyleStep::Italic(entry.italic),
        r@[6] == StyleStep::Underline(entry.underline),
        r@[7] is ClearAll,
        r@[8] is Predefined,
        r@[9] matches StyleStep::Opacity(p) && (t.enabled && t.percent <= 100 ==> p == t.percent)
            && (!t.enabled ==> p == 100),
        r@[10] is Colourise,
{
}

/// A place in the list is its own number, as far as there are numbers; beyond
/// them the first is chosen.
pub proof fn a_place_is_its_own_number(at: int)
    ensures
        0 <= at <= u32::MAX ==> place_number(at) == at,
        at > u32::MAX ==> place_number(at) == 0,
{
}

} // verus!
