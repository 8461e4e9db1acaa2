//! Text building on Unicode scalar values.
//!
//! A string is viewed as the sequence of its characters. Everything here is
//! stated over that view, so a caller's contract can speak of whole texts.
use vstd::prelude::*;
use vstd::utf8::{
    decode_utf8, decode_utf8_encode_utf8, encode_utf8, encode_utf8_valid_utf8, valid_utf8,
};

verus! {

/// `String::push` appends one character and keeps what was there.
pub assume_specification[ String::push ](s: &mut String, c: char)
    ensures
        final(s)@ == old(s)@.push(c),
;

/// The text that bytes are taken for, be they valid UTF-8 or not.
pub uninterp spec fn lossy_text(bytes: Seq<u8>) -> Seq<char>;

/// `String::from_utf8_lossy` makes a text of bytes. Bytes that are valid UTF-8
/// come out as the text they encode; what is not valid comes out as U+FFFD. How
/// many of those stand for one stretch is left to std.
#[verifier::external_body]
fn from_utf8_lossy(bytes: &Vec<u8>) -> (r: String)
    ensures
        r@ == lossy_text(bytes@),
        valid_utf8(bytes@) ==> r@ == decode_utf8(bytes@),
        !valid_utf8(bytes@) ==> r@.contains('\u{fffd}'),
{
    String::from_utf8_lossy(bytes).into_owned()
}

/// Bytes as text: the text that they encode or, where they encode none, the
/// text that they are taken for.
pub open spec fn text_of(bytes: Seq<u8>) -> Seq<char> {
    if valid_utf8(bytes) {
        decode_utf8(bytes)
    } else {
        lossy_text(bytes)
    }
}

/// Bytes as text.
pub fn to_text(bytes: &Vec<u8>) -> (r: String)
    ensures
        r@ == text_of(bytes@),
        !valid_utf8(bytes@) ==> r@.contains('\u{fffd}'),
{
    from_utf8_lossy(bytes)
}

/// Bytes that are text survive being taken for text, and no others do.
pub proof fn only_text_survives(bytes: Seq<u8>)
    ensures
        encode_utf8(text_of(bytes)) == bytes <==> valid_utf8(bytes),
{
    encode_utf8_valid_utf8(text_of(bytes));
    if valid_utf8(bytes) {
        decode_utf8_encode_utf8(bytes);
    }
}

/// The characters of an optional string.
pub open spec fn optional_text(s: Option<&str>) -> Option<Seq<char>> {
    match s {
        Some(t) => Some(t@),
        None => None,
    }
}

/// The character of a decimal digit.
pub open spec fn digit_char(d: int) -> char {
    if d == 0 {
        '0'
    } else if d == 1 {
        '1'
    } else if d == 2 {
        '2'
    } else if d == 3 {
        '3'
    } else if d == 4 {
        '4'
    } else if d == 5 {
        '5'
    } else if d == 6 {
        '6'
    } else if d == 7 {
        '7'
    } else if d == 8 {
        '8'
    } else {
        '9'
    }
}

/// The decimal numeral of `n`, without leading zeros.
pub open spec fn decimal(n: nat) -> Seq<char>
    decreases n,
{
    if n < 10 {
        seq![digit_char(n as int)]
    } else {
        decimal(n / 10).push(digit_char((n % 10) as int))
    }
}

/// What a decimal digit stands for; `-1` for any other character.
pub open spec fn digit_value(c: char) -> int {
    if '0' <= c && c <= '9' {
        c as int - '0' as int
    } else {
        -1
    }
}

/// The number that a row of digits denotes.
pub open spec fn numeral_value(s: Seq<char>) -> int
    decreases s.len(),
{
    if s.len() == 0 {
        0
    } else {
        numeral_value(s.drop_last()) * 10 + digit_value(s.last())
    }
}

/// A numeral denotes the number it was made from, is made of digits, and has
/// no leading zero unless it is the numeral of zero.
pub proof fn decimal_denotes(n: nat)
    ensures
        numeral_value(decimal(n)) == n,
        decimal(n).len() >= 1,
        forall|i: int| 0 <= i < decimal(n).len() ==> digit_value(#[trigger] decimal(n)[i]) >= 0,
        n > 0 ==> decimal(n)[0] != '0',
    decreases n,
{
    if n < 10 {
        assert(decimal(n).drop_last() =~= Seq::<char>::empty());
        assert(numeral_value(decimal(n).drop_last()) == 0);
    } else {
        decimal_denotes(n / 10);
        assert(decimal(n).drop_last() =~= decimal(n / 10));
    }
}

/// The exec counterpart of [`digit_char`].
pub fn digit_to_char(d: u64) -> (c: char)
    requires
        d < 10,
    ensures
        c == digit_char(d as int),
{
    match d {
        0 => '0',
        1 => '1',
        2 => '2',
        3 => '3',
        4 => '4',
        5 => '5',
        6 => '6',
        7 => '7',
        8 => '8',
        _ => '9',
    }
}

/// Append the decimal numeral of `n`.
pub fn push_decimal(out: &mut String, n: u64)
    ensures
        final(out)@ == old(out)@ + decimal(n as nat),
    decreases n,
{
    if n >= 10 {
        push_decimal(out, n / 10);
    }
    out.push(digit_to_char(n % 10));
    assert(out@ =~= old(out)@ + decimal(n as nat));
}

/// The decimal numeral of `n` as a string.
pub fn decimal_text(n: u64) -> (r: String)
    ensures
        r@ == decimal(n as nat),
{
    let mut out: String = String::new();
    push_decimal(&mut out, n);
    assert(out@ =~= decimal(n as nat));
    out
}

/// The characters of `s`, in order.
pub fn chars_of(s: &str) -> (r: Vec<char>)
    ensures
        r@ == s@,
{
    let mut out: Vec<char> = Vec::new();
    for c in it: s.chars()
        invariant
            out@ =~= it.seq().take(it.index()),
    {
        out.push(c);
    }
    out
}

/// The string made of `chars`.
pub fn string_of(chars: &Vec<char>) -> (r: String)
    ensures
        r@ == chars@,
{
    string_of_range(chars, 0, chars.len())
}

/// The string made of `chars[from..to]`.
pub fn string_of_range(chars: &Vec<char>, from: usize, to: usize) -> (r: String)
    requires
        from <= to <= chars.len(),
    ensures
        r@ == chars@.subrange(from as int, to as int),
{
    let mut out: String = String::new();
    let mut i: usize = from;
    while i < to
        invariant
            from <= i <= to <= chars.len(),
            out@ =~= chars@.subrange(from as int, i as int),
        decreases to - i,
    {
        out.push(chars[i]);
        i += 1;
    }
    out
}

/// Whether two strings hold the same characters.
pub fn same_text(a: &str, b: &str) -> (r: bool)
    ensures
        r == (a@ == b@),
{
    let x: Vec<char> = chars_of(a);
    let y: Vec<char> = chars_of(b);
    if x.len() != y.len() {
        return false;
    }
    let mut i: usize = 0;
    while i < x.len()
        invariant
            i <= x.len() == y.len(),
            x@ == a@,
            y@ == b@,
            x@.take(i as int) =~= y@.take(i as int),
        decreases x.len() - i,
    {
        if x[i] != y[i] {
            assert(a@[i as int] != b@[i as int]);
            return false;
        }
        assert(x@.take(i + 1) =~= x@.take(i as int).push(x@[i as int]));
        assert(y@.take(i + 1) =~= y@.take(i as int).push(y@[i as int]));
        i += 1;
    }
    assert(x@.take(i as int) =~= x@);
    assert(y@.take(i as int) =~= y@);
    true
}

/// The white space characters of Unicode.
pub open spec fn is_white(c: char) -> bool {
    let n = c as int;
    ||| 0x9 <= n <= 0xd
    ||| n == 0x20
    ||| n == 0x85
    ||| n == 0xa0
    ||| n == 0x1680
    ||| 0x2000 <= n <= 0x200a
    ||| n == 0x2028
    ||| n == 0x2029
    ||| n == 0x202f
    ||| n == 0x205f
    ||| n == 0x3000
}

/// Whether `c` is white space.
pub fn white(c: char) -> (r: bool)
    ensures
        r == is_white(c),
{
    let n: u32 = c as u32;
    (0x9 <= n && n <= 0xd) || n == 0x20 || n == 0x85 || n == 0xa0 || n == 0x1680 || (0x2000 <= n
        && n <= 0x200a) || n == 0x2028 || n == 0x2029 || n == 0x202f || n == 0x205f || n == 0x3000
}

/// `s` from its first character that is not white space.
pub open spec fn trim_start(s: Seq<char>) -> Seq<char>
    decreases s.len(),
{
    if s.len() > 0 && is_white(s[0]) {
        trim_start(s.skip(1))
    } else {
        s
    }
}

/// `s` up to its last character that is not white space.
pub open spec fn trim_end(s: Seq<char>) -> Seq<char>
    decreases s.len(),
{
    if s.len() > 0 && is_white(s.last()) {
        trim_end(s.drop_last())
    } else {
        s
    }
}

/// `s` without white space at its ends.
pub open spec fn trimmed(s: Seq<char>) -> Seq<char> {
    trim_end(trim_start(s))
}

/// `s` without white space at its ends.
pub fn trim_text(s: &str) -> (r: String)
    ensures
        r@ == trimmed(s@),
{
    let chars: Vec<char> = chars_of(s);
    let mut from: usize = 0;
    assert(chars@.skip(0) =~= chars@);
    while from < chars.len() && white(chars[from])
        invariant
            from <= chars@.len(),
            trim_start(chars@) == trim_start(chars@.skip(from as int)),
        decreases chars.len() - from,
    {
        assert(chars@.skip(from as int).skip(1) =~= chars@.skip(from + 1));
        from += 1;
    }
    let mut to: usize = chars.len();
    assert(chars@.skip(from as int) =~= chars@.subrange(from as int, to as int));
    while to > from && white(chars[to - 1])
        invariant
            from <= to <= chars@.len(),
            trimmed(chars@) == trim_end(chars@.subrange(from as int, to as int)),
        decreases to - from,
    {
        assert(chars@.subrange(from as int, to as int).drop_last() =~= chars@.subrange(
            from as int,
            to - 1,
        ));
        to -= 1;
    }
    string_of_range(&chars, from, to)
}

/// The texts of a row of strings.
pub open spec fn texts(v: Seq<String>) -> Seq<Seq<char>> {
    v.map_values(|s: String| s@)
}

/// `s` cut at every `sep`.
pub open spec fn pieces(s: Seq<char>, sep: char) -> Seq<Seq<char>>
    decreases s.len(),
{
    if s.len() == 0 {
        seq![Seq::empty()]
    } else {
        let before = pieces(s.drop_last(), sep);
        if s.last() == sep {
            before.push(Seq::empty())
        } else {
            before.drop_last().push(before.last().push(s.last()))
        }
    }
}

/// `s` cut at every `sep`.
pub fn split_text(s: &str, sep: char) -> (r: Vec<String>)
    ensures
        texts(r@) == pieces(s@, sep),
{
    let chars: Vec<char> = chars_of(s);
    let mut out: Vec<String> = Vec::new();
    let mut piece: String = String::new();
    let mut i: usize = 0;
    assert(texts(out@).push(piece@) =~= pieces(chars@.take(0), sep));
    while i < chars.len()
        invariant
            i <= chars@.len(),
            texts(out@).push(piece@) =~= pieces(chars@.take(i as int), sep),
        decreases chars.len() - i,
    {
        assert(chars@.take(i + 1).drop_last() =~= chars@.take(i as int));
        let ghost before = texts(out@).push(piece@);
        let c: char = chars[i];
        if c == sep {
            out.push(piece);
            piece = String::new();
            assert(texts(out@) =~= before);
        } else {
            piece.push(c);
            assert(before.drop_last() =~= texts(out@));
        }
        i += 1;
    }
    assert(chars@.take(i as int) =~= chars@);
    out.push(piece);
    assert(texts(out@) =~= pieces(chars@, sep));
    out
}

/// The words of `s`: its longest runs of characters that are not white space.
pub open spec fn words(s: Seq<char>) -> Seq<Seq<char>>
    decreases s.len(),
{
    if s.len() == 0 {
        Seq::empty()
    } else {
        let before = words(s.drop_last());
        if is_white(s.last()) {
            before
        } else if s.len() == 1 || is_white(s[s.len() - 2]) {
            before.push(seq![s.last()])
        } else {
            before.drop_last().push(before.last().push(s.last()))
        }
    }
}

/// The words of `s`, in order.
pub fn split_words(s: &str) -> (r: Vec<String>)
    ensures
        texts(r@) == words(s@),
{
    let chars: Vec<char> = chars_of(s);
    let mut out: Vec<String> = Vec::new();
    let mut word: String = String::new();
    let mut in_word: bool = false;
    let mut i: usize = 0;
    while i < chars.len()
        invariant
            i <= chars@.len(),
            in_word <==> (i > 0 && !is_white(chars@[i - 1])),
            in_word ==> texts(out@).push(word@) =~= words(chars@.take(i as int)),
            !in_word ==> texts(out@) =~= words(chars@.take(i as int)),
            !in_word ==> word@.len() == 0,
        decreases chars.len() - i,
    {
        let ghost here = chars@.take(i + 1);
        assert(here.drop_last() =~= chars@.take(i as int));
        let c: char = chars[i];
        let ghost open = texts(out@).push(word@);
        if white(c) {
            if in_word {
                out.push(word);
                word = String::new();
                assert(texts(out@) =~= open);
            }
            in_word = false;
        } else {
            word.push(c);
            if in_word {
                assert(open.drop_last() =~= texts(out@));
            } else {
                assert(word@ =~= seq![c]);
            }
            in_word = true;
        }
        i += 1;
    }
    assert(chars@.take(i as int) =~= chars@);
    if in_word {
        let ghost open = texts(out@).push(word@);
        out.push(word);
        assert(texts(out@) =~= open);
    }
    out
}

/// A word is not empty and holds no white space.
pub proof fn words_are_solid(s: Seq<char>, i: int, j: int)
    requires
        0 <= i < words(s).len(),
        0 <= j < words(s)[i].len(),
    ensures
        !is_white(words(s)[i][j]),
    decreases s.len(),
{
    let before = words(s.drop_last());
    if is_white(s.last()) {
        words_are_solid(s.drop_last(), i, j);
    } else if s.len() == 1 || is_white(s[s.len() - 2]) {
        if i < before.len() {
            words_are_solid(s.drop_last(), i, j);
        }
    } else {
        words_nonempty(s.drop_last());
        if i < before.len() - 1 || j < before.last().len() {
            words_are_solid(s.drop_last(), i, j);
        }
    }
}

/// Every word has a character, and a text that ends in one has a word.
pub proof fn words_nonempty(s: Seq<char>)
    ensures
        forall|i: int| 0 <= i < words(s).len() ==> (#[trigger] words(s)[i]).len() > 0,
        s.len() > 0 && !is_white(s.last()) ==> words(s).len() > 0,
    decreases s.len(),
{
    if s.len() > 0 {
        let t = s.drop_last();
        words_nonempty(t);
        let before = words(t);
        assert forall|i: int| 0 <= i < words(s).len() implies (#[trigger] words(s)[i]).len() > 0 by {
            if is_white(s.last()) {
                assert(before[i].len() > 0);
            } else if s.len() == 1 || is_white(s[s.len() - 2]) {
                if i < before.len() {
                    assert(before[i].len() > 0);
                }
            } else {
                assert(t.last() == s[s.len() - 2]);
                if i < before.len() - 1 {
                    assert(before[i].len() > 0);
                }
            }
        }
    }
}

/// Trimming leaves no white space at either end.
pub proof fn trimmed_has_solid_ends(s: Seq<char>)
    ensures
        trimmed(s).len() > 0 ==> !is_white(trimmed(s)[0]) && !is_white(trimmed(s).last()),
{
    trim_start_is_solid(s);
    trim_end_is_solid(trim_start(s));
}

proof fn trim_start_is_solid(s: Seq<char>)
    ensures
        trim_start(s).len() > 0 ==> !is_white(trim_start(s)[0]),
    decreases s.len(),
{
    if s.len() > 0 && is_white(s[0]) {
        trim_start_is_solid(s.skip(1));
    }
}

proof fn trim_end_is_solid(s: Seq<char>)
    ensures
        trim_end(s).len() > 0 ==> !is_white(trim_end(s).last()) && trim_end(s)[0] == s[0],
    decreases s.len(),
{
    if s.len() > 0 && is_white(s.last()) {
        trim_end_is_solid(s.drop_last());
    }
}

/// A digit's character stands for the digit.
pub proof fn a_digit_stands_for_itself(d: int)
    requires
        0 <= d < 10,
    ensures
        digit_char(d) as int == 0x30 + d,
        digit_value(digit_char(d)) == d,
{
}

/// White space is what ends a word or a line, and the spaces of Unicode; no
/// letter, digit or sign of ASCII is.
pub proof fn white_space_is_white(c: char)
    ensures
        c < '\u{80}' ==> (is_white(c) <==> c == ' ' || c == '\t' || c == '\n' || c == '\u{b}' || c
            == '\u{c}' || c == '\r'),
        c >= '\u{80}' ==> (is_white(c) <==> c == '\u{85}' || c == '\u{a0}' || c == '\u{1680}' || (
        '\u{2000}' <= c <= '\u{200a}') || c == '\u{2028}' || c == '\u{2029}' || c == '\u{202f}'
            || c == '\u{205f}' || c == '\u{3000}'),
{
}

/// Trimming takes white space off both ends and nothing else: what is left is a
/// stretch of the text, with nothing but white space before and behind it.
pub proof fn trimming_takes_only_white_space(s: Seq<char>) -> (cut: (int, int))
    ensures
        0 <= cut.0 <= cut.1 <= s.len(),
        trimmed(s) == s.subrange(cut.0, cut.1),
        forall|i: int| 0 <= i < cut.0 ==> is_white(#[trigger] s[i]),
        forall|i: int| cut.1 <= i < s.len() ==> is_white(#[trigger] s[i]),
        trimmed(s).len() > 0 ==> !is_white(trimmed(s)[0]) && !is_white(trimmed(s).last()),
{
    let from = start_is_cut(s);
    let t = trim_start(s);
    let to = end_is_cut(t);
    trimmed_has_solid_ends(s);
    assert(t.subrange(0, to) =~= s.subrange(from, from + to));
    assert forall|i: int| from + to <= i < s.len() implies is_white(#[trigger] s[i]) by {
        assert(t[i - from] == s[i]);
    }
    (from, from + to)
}

proof fn start_is_cut(s: Seq<char>) -> (from: int)
    ensures
        0 <= from <= s.len(),
        trim_start(s) == s.skip(from),
        forall|i: int| 0 <= i < from ==> is_white(#[trigger] s[i]),
    decreases s.len(),
{
    if s.len() > 0 && is_white(s[0]) {
        let rest = start_is_cut(s.skip(1));
        assert(s.skip(1).skip(rest) =~= s.skip(rest + 1));
        assert forall|i: int| 0 <= i < rest + 1 implies is_white(#[trigger] s[i]) by {
            if i > 0 {
                assert(s.skip(1)[i - 1] == s[i]);
            }
        }
        rest + 1
    } else {
        assert(s.skip(0) =~= s);
        0
    }
}

proof fn end_is_cut(s: Seq<char>) -> (to: int)
    ensures
        0 <= to <= s.len(),
        trim_end(s) == s.subrange(0, to),
        forall|i: int| to <= i < s.len() ==> is_white(#[trigger] s[i]),
    decreases s.len(),
{
    if s.len() > 0 && is_white(s.last()) {
        let to = end_is_cut(s.drop_last());
        assert(s.drop_last().subrange(0, to) =~= s.subrange(0, to));
        assert forall|i: int| to <= i < s.len() implies is_white(#[trigger] s[i]) by {
            if i < s.len() - 1 {
                assert(s.drop_last()[i] == s[i]);
            }
        }
        to
    } else {
        assert(s.subrange(0, s.len() as int) =~= s);
        s.len() as int
    }
}

/// A text is cut at its separators and nowhere else: what stands on both sides
/// of one is cut on its own, and what has none is one piece.
pub proof fn a_text_is_cut_at_its_separators(
    a: Seq<char>,
    b: Seq<char>,
    sep: char,
    piece: Seq<char>,
)
    requires
        forall|i: int| 0 <= i < piece.len() ==> piece[i] != sep,
    ensures
        pieces(a.push(sep) + b, sep) == pieces(a, sep) + pieces(b, sep),
        pieces(piece, sep) == seq![piece],
{
    pieces_join(a, b, sep);
    one_piece(piece, sep);
}

proof fn pieces_join(a: Seq<char>, b: Seq<char>, sep: char)
    ensures
        pieces(a.push(sep) + b, sep) == pieces(a, sep) + pieces(b, sep),
        pieces(b, sep).len() > 0,
    decreases b.len(),
{
    let all = a.push(sep) + b;
    if b.len() == 0 {
        assert(all.drop_last() =~= a);
        assert(pieces(all, sep) =~= pieces(a, sep) + pieces(b, sep));
    } else {
        pieces_join(a, b.drop_last(), sep);
        assert(all.drop_last() =~= a.push(sep) + b.drop_last());
        assert(pieces(all, sep) =~= pieces(a, sep) + pieces(b, sep));
    }
}

proof fn one_piece(piece: Seq<char>, sep: char)
    requires
        forall|i: int| 0 <= i < piece.len() ==> piece[i] != sep,
    ensures
        pieces(piece, sep) == seq![piece],
    decreases piece.len(),
{
    if piece.len() > 0 {
        one_piece(piece.drop_last(), sep);
        assert(piece.drop_last().push(piece.last()) =~= piece);
        assert(seq![piece.drop_last()].drop_last() =~= Seq::<Seq<char>>::empty());
        assert(pieces(piece, sep) =~= seq![piece]);
    } else {
        assert(piece =~= Seq::<char>::empty());
        assert(pieces(piece, sep) =~= seq![piece]);
    }
}

/// Words are parted by white space and by nothing else: what stands on both
/// sides of it has its own words, and a run of other characters is one word.
pub proof fn words_are_parted_by_white_space(a: Seq<char>, w: char, b: Seq<char>, run: Seq<char>)
    requires
        is_white(w),
        run.len() > 0,
        forall|i: int| 0 <= i < run.len() ==> !is_white(run[i]),
    ensures
        words(a.push(w) + b) == words(a) + words(b),
        words(run) == seq![run],
        words(Seq::<char>::empty()).len() == 0,
{
    words_join(a, w, b);
    one_word(run);
}

proof fn words_join(a: Seq<char>, w: char, b: Seq<char>)
    requires
        is_white(w),
    ensures
        words(a.push(w) + b) == words(a) + words(b),
    decreases b.len(),
{
    let all = a.push(w) + b;
    if b.len() == 0 {
        assert(all =~= a.push(w));
        assert(all.drop_last() =~= a);
        assert(words(all) =~= words(a) + words(b));
    } else {
        let less = b.drop_last();
        words_join(a, w, less);
        words_nonempty(less);
        assert(all.drop_last() =~= a.push(w) + less);
        if b.len() > 1 {
            assert(all[all.len() - 2] == b[b.len() - 2]);
            assert(less.last() == b[b.len() - 2]);
        } else {
            assert(all[all.len() - 2] == w);
        }
        assert(words(all) =~= words(a) + words(b));
    }
}

proof fn one_word(run: Seq<char>)
    requires
        run.len() > 0,
        forall|i: int| 0 <= i < run.len() ==> !is_white(run[i]),
    ensures
        words(run) == seq![run],
    decreases run.len(),
{
    if run.len() > 1 {
        one_word(run.drop_last());
        assert(run.drop_last().push(run.last()) =~= run);
        assert(seq![run.drop_last()].drop_last() =~= Seq::<Seq<char>>::empty());
        assert(words(run) =~= seq![run]);
    } else {
        assert(run =~= seq![run.last()]);
        assert(words(run.drop_last()) =~= Seq::<Seq<char>>::empty());
        assert(words(run) =~= seq![run]);
    }
}

/// The texts of a row of strings are theirs, in order.
pub proof fn every_string_has_its_text(v: Seq<String>, i: int)
    requires
        0 <= i < v.len(),
    ensures
        texts(v).len() == v.len(),
        texts(v)[i] == v[i]@,
{
}

} // verus!
