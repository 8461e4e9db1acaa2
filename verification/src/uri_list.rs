//! Reading dropped `text/uri-list` payloads.
//!
//! The payload is cut into entries here. Turning a `file:` URI into a path is
//! the toolkit's business; which of the resulting paths are local files is
//! decided here again, once for every way a drop can arrive.
use vstd::prelude::*;
use crate::text::{
    chars_of, pieces, same_text, split_text, texts, trim_text, trim_start, trimmed,
    trimmed_has_solid_ends, is_white,
};

verus! {

/// A line of a uri-list that names something: neither blank nor a comment.
pub open spec fn names_something(line: Seq<char>) -> bool {
    line.len() > 0 && line[0] != '#'
}

/// The entries among a row of lines, without the white space around them.
pub open spec fn entries_of(lines: Seq<Seq<char>>) -> Seq<Seq<char>>
    decreases lines.len(),
{
    if lines.len() == 0 {
        Seq::empty()
    } else {
        let before = entries_of(lines.drop_last());
        let line = trimmed(lines.last());
        if names_something(line) {
            before.push(line)
        } else {
            before
        }
    }
}

/// The entries of a uri-list, in order: its lines, whether they end in a line
/// feed alone or in a carriage return and a line feed, without blank lines
/// and comments.
pub fn uri_list_entries(list: &str) -> (r: Vec<String>)
    ensures
        texts(r@) == entries_of(pieces(list@, '\n')),
{
    let lines: Vec<String> = split_text(list, '\n');
    let ghost all = texts(lines@);
    let mut out: Vec<String> = Vec::new();
    let mut i: usize = 0;
    while i < lines.len()
        invariant
            i <= lines@.len(),
            all == texts(lines@),
            texts(out@) =~= entries_of(all.take(i as int)),
        decreases lines.len() - i,
    {
        assert(all.take(i + 1).drop_last() =~= all.take(i as int));
        let line: String = trim_text(lines[i].as_str());
        let chars: Vec<char> = chars_of(line.as_str());
        if chars.len() > 0 && chars[0] != '#' {
            let ghost before = texts(out@);
            out.push(line);
            assert(texts(out@) =~= before.push(line@));
        }
        i += 1;
    }
    assert(all.take(i as int) =~= all);
    out
}

/// Every entry names something, and has no white space around it.
pub proof fn entries_are_clean(lines: Seq<Seq<char>>, i: int)
    requires
        0 <= i < entries_of(lines).len(),
    ensures
        names_something(entries_of(lines)[i]),
        !is_white(entries_of(lines)[i][0]),
        !is_white(entries_of(lines)[i].last()),
    decreases lines.len(),
{
    if i < entries_of(lines.drop_last()).len() {
        entries_are_clean(lines.drop_last(), i);
    } else {
        trimmed_has_solid_ends(lines.last());
    }
}

proof fn pieces_join(a: Seq<char>, b: Seq<char>, sep: char)
    ensures
        pieces(a.push(sep) + b, sep) == pieces(a, sep) + pieces(b, sep),
        pieces(b, sep).len() > 0,
    decreases b.len(),
{
    let all = a.push(sep) + b;
    if b.len() == 0 {
        assert(all.drop_last() =~= a);
        assert(pieces(all, sep) =~= pieces(a, sep) + pieces(b, sep));
    } else {
        let t = b.drop_last();
        pieces_join(a, t, sep);
        assert(all.drop_last() =~= a.push(sep) + t);
        assert(pieces(all, sep) =~= pieces(a, sep) + pieces(b, sep));
    }
}

proof fn entries_join(a: Seq<Seq<char>>, b: Seq<Seq<char>>)
    ensures
        entries_of(a + b) == entries_of(a) + entries_of(b),
    decreases b.len(),
{
    if b.len() == 0 {
        assert(a + b =~= a);
        assert(entries_of(a + b) =~= entries_of(a) + entries_of(b));
    } else {
        entries_join(a, b.drop_last());
        assert((a + b).drop_last() =~= a + b.drop_last());
        assert(entries_of(a + b) =~= entries_of(a) + entries_of(b));
    }
}

/// Two lists with a line end between them have the entries of the first
/// followed by those of the second.
pub proof fn lists_join(a: Seq<char>, b: Seq<char>)
    ensures
        entries_of(pieces(a.push('\n') + b, '\n')) == entries_of(pieces(a, '\n')) + entries_of(
            pieces(b, '\n'),
        ),
{
    pieces_join(a, b, '\n');
    entries_join(pieces(a, '\n'), pieces(b, '\n'));
}

/// A text with a carriage return put before every line feed.
pub open spec fn with_carriage_returns(s: Seq<char>) -> Seq<char>
    decreases s.len(),
{
    if s.len() == 0 {
        s
    } else {
        let before = with_carriage_returns(s.drop_last());
        if s.last() == '\n' {
            before.push('\r').push('\n')
        } else {
            before.push(s.last())
        }
    }
}

proof fn trimmed_drops_a_white_end(s: Seq<char>, c: char)
    requires
        is_white(c),
    ensures
        trimmed(s.push(c)) == trimmed(s),
{
    trim_start_before_a_white_end(s, c);
    if trim_start(s).len() > 0 {
        assert(trim_start(s).push(c).drop_last() =~= trim_start(s));
    }
}

proof fn trim_start_before_a_white_end(s: Seq<char>, c: char)
    requires
        is_white(c),
    ensures
        trim_start(s.push(c)) == if trim_start(s).len() == 0 {
            trim_start(s)
        } else {
            trim_start(s).push(c)
        },
    decreases s.len(),
{
    if s.len() == 0 {
        assert(s.push(c).skip(1) =~= s);
    } else if is_white(s[0]) {
        assert(s.push(c).skip(1) =~= s.skip(1).push(c));
        trim_start_before_a_white_end(s.skip(1), c);
    }
}

/// Two rows of lines that are the same without the white space around them.
spec fn same_trimmed(a: Seq<Seq<char>>, b: Seq<Seq<char>>) -> bool {
    &&& a.len() == b.len()
    &&& forall|i: int| 0 <= i < a.len() ==> trimmed(#[trigger] a[i]) == trimmed(b[i])
}

proof fn entries_go_by_trimmed_lines(a: Seq<Seq<char>>, b: Seq<Seq<char>>)
    requires
        same_trimmed(a, b),
    ensures
        entries_of(a) == entries_of(b),
    decreases a.len(),
{
    if a.len() > 0 {
        assert forall|i: int| 0 <= i < a.drop_last().len() implies trimmed(
            #[trigger] a.drop_last()[i],
        ) == trimmed(b.drop_last()[i]) by {
            assert(a.drop_last()[i] == a[i]);
        }
        entries_go_by_trimmed_lines(a.drop_last(), b.drop_last());
        assert(trimmed(a[a.len() - 1]) == trimmed(b[a.len() - 1]));
    }
}

proof fn lines_with_carriage_returns(s: Seq<char>)
    ensures
        pieces(s, '\n').len() > 0,
        pieces(with_carriage_returns(s), '\n').last() == pieces(s, '\n').last(),
        same_trimmed(pieces(with_carriage_returns(s), '\n'), pieces(s, '\n')),
    decreases s.len(),
{
    if s.len() > 0 {
        let t = s.drop_last();
        lines_with_carriage_returns(t);
        let c = with_carriage_returns(t);
        let old_lines = pieces(t, '\n');
        let new_lines = pieces(c, '\n');
        if s.last() == '\n' {
            assert(c.push('\r').push('\n').drop_last() =~= c.push('\r'));
            assert(c.push('\r').drop_last() =~= c);
            trimmed_drops_a_white_end(new_lines.last(), '\r');
            let marked = new_lines.drop_last().push(new_lines.last().push('\r'));
            assert(pieces(c.push('\r'), '\n') == marked);
            assert(pieces(with_carriage_returns(s), '\n') == marked.push(Seq::empty()));
            assert(pieces(s, '\n') == old_lines.push(Seq::empty()));
        } else {
            assert(c.push(s.last()).drop_last() =~= c);
        }
        assert forall|i: int| 0 <= i < pieces(s, '\n').len() implies trimmed(
            #[trigger] pieces(with_carriage_returns(s), '\n')[i],
        ) == trimmed(pieces(s, '\n')[i]) by {
            if i < old_lines.len() {
                assert(trimmed(new_lines[i]) == trimmed(old_lines[i]));
            }
        }
    }
}

/// A list whose lines end in a carriage return and a line feed has the entries
/// of the same list with line feeds alone.
pub proof fn line_ends_do_not_matter(s: Seq<char>)
    ensures
        entries_of(pieces(with_carriage_returns(s), '\n')) == entries_of(pieces(s, '\n')),
{
    lines_with_carriage_returns(s);
    entries_go_by_trimmed_lines(pieces(with_carriage_returns(s), '\n'), pieces(s, '\n'));
}

proof fn paths_join(a: Seq<Option<DecodedUri>>, b: Seq<Option<DecodedUri>>)
    ensures
        local_paths_spec(a + b) == local_paths_spec(a) + local_paths_spec(b),
    decreases b.len(),
{
    if b.len() == 0 {
        assert(a + b =~= a);
        assert(local_paths_spec(a + b) =~= local_paths_spec(a) + local_paths_spec(b));
    } else {
        paths_join(a, b.drop_last());
        assert((a + b).drop_last() =~= a + b.drop_last());
        assert(local_paths_spec(a + b) =~= local_paths_spec(a) + local_paths_spec(b));
    }
}

/// The paths of a row of entries, where `decode` gives what each stands for.
pub open spec fn paths_of(
    entries: Seq<Seq<char>>,
    decode: spec_fn(Seq<char>) -> Option<DecodedUri>,
) -> Seq<Seq<u8>> {
    local_paths_spec(entries.map_values(decode))
}

/// However entries are decoded, the paths of two lists with a line end between
/// them are those of the first followed by those of the second, and line feeds
/// alone give the same paths as carriage returns with them.
pub proof fn dropped_paths_join(
    a: Seq<char>,
    b: Seq<char>,
    decode: spec_fn(Seq<char>) -> Option<DecodedUri>,
)
    ensures
        paths_of(entries_of(pieces(a.push('\n') + b, '\n')), decode) == paths_of(
            entries_of(pieces(a, '\n')),
            decode,
        ) + paths_of(entries_of(pieces(b, '\n')), decode),
        paths_of(entries_of(pieces(with_carriage_returns(a), '\n')), decode) == paths_of(
            entries_of(pieces(a, '\n')),
            decode,
        ),
{
    let first = entries_of(pieces(a, '\n'));
    let second = entries_of(pieces(b, '\n'));
    lists_join(a, b);
    line_ends_do_not_matter(a);
    assert((first + second).map_values(decode) =~= first.map_values(decode) + second.map_values(
        decode,
    ));
    paths_join(first.map_values(decode), second.map_values(decode));
}

/// A URI that was decoded: the path, and the host it names, if any.
pub struct DecodedUri {
    pub path: Vec<u8>,
    pub host: Option<String>,
}

/// A host that is this machine: none, or `localhost`.
pub open spec fn local_host(host: Option<String>) -> bool {
    match host {
        None => true,
        Some(h) => h@ == "localhost"@,
    }
}

/// Whether `host` is this machine.
pub fn is_local_host(host: &Option<String>) -> (r: bool)
    ensures
        r == local_host(*host),
{
    match host {
        None => true,
        Some(h) => same_text(h.as_str(), "localhost"),
    }
}

/// The path of a decoded URI, if it is one of this machine's files. `None`
/// stands for a URI that could not be decoded.
pub open spec fn local_path_spec(uri: Option<DecodedUri>) -> Option<Seq<u8>> {
    match uri {
        Some(d) => if local_host(d.host) {
            Some(d.path@)
        } else {
            None
        },
        None => None,
    }
}

/// The local paths among a row of decoded URIs, in order.
pub open spec fn local_paths_spec(uris: Seq<Option<DecodedUri>>) -> Seq<Seq<u8>>
    decreases uris.len(),
{
    if uris.len() == 0 {
        Seq::empty()
    } else {
        let before = local_paths_spec(uris.drop_last());
        match local_path_spec(uris.last()) {
            Some(path) => before.push(path),
            None => before,
        }
    }
}

/// The bytes of a row of paths.
pub open spec fn path_bytes(v: Seq<Vec<u8>>) -> Seq<Seq<u8>> {
    v.map_values(|p: Vec<u8>| p@)
}

fn copy_bytes(path: &Vec<u8>) -> (r: Vec<u8>)
    ensures
        r@ == path@,
{
    let mut out: Vec<u8> = Vec::new();
    let mut i: usize = 0;
    while i < path.len()
        invariant
            i <= path@.len(),
            out@ =~= path@.take(i as int),
        decreases path.len() - i,
    {
        out.push(path[i]);
        i += 1;
    }
    out
}

/// The paths of the URIs that name files of this machine, in order. A URI that
/// names another host never becomes a local path.
pub fn local_paths(uris: &Vec<Option<DecodedUri>>) -> (r: Vec<Vec<u8>>)
    ensures
        path_bytes(r@) == local_paths_spec(uris@),
{
    let mut out: Vec<Vec<u8>> = Vec::new();
    let mut i: usize = 0;
    while i < uris.len()
        invariant
            i <= uris@.len(),
            path_bytes(out@) =~= local_paths_spec(uris@.take(i as int)),
        decreases uris.len() - i,
    {
        assert(uris@.take(i + 1).drop_last() =~= uris@.take(i as int));
        match &uris[i] {
            Some(d) => if is_local_host(&d.host) {
                let ghost before = path_bytes(out@);
                let path: Vec<u8> = copy_bytes(&d.path);
                out.push(path);
                assert(path_bytes(out@) =~= before.push(path@));
            },
            None => {},
        }
        i += 1;
    }
    assert(uris@.take(i as int) =~= uris@);
    out
}

/// No path comes out but that of a URI on this machine.
pub proof fn no_remote_path(uris: Seq<Option<DecodedUri>>, i: int)
    requires
        0 <= i < local_paths_spec(uris).len(),
    ensures
        exists|k: int|
            0 <= k < uris.len() && local_path_spec(#[trigger] uris[k]) == Some(
                local_paths_spec(uris)[i],
            ),
    decreases uris.len(),
{
    let t = uris.drop_last();
    if i < local_paths_spec(t).len() {
        no_remote_path(t, i);
        let k = choose|k: int|
            0 <= k < t.len() && local_path_spec(#[trigger] t[k]) == Some(local_paths_spec(t)[i]);
        assert(uris[k] == t[k]);
    } else {
        assert(uris[uris.len() - 1] == uris.last());
    }
}

/// A line of a list is an entry, without the white space around it, exactly if
/// that leaves something that does not begin as a comment does; entries keep
/// their order.
pub proof fn a_line_is_an_entry_unless_blank_or_comment(lines: Seq<Seq<char>>, line: Seq<char>)
    ensures
        entries_of(Seq::<Seq<char>>::empty()).len() == 0,
        trimmed(line).len() > 0 && trimmed(line)[0] != '#' ==> entries_of(lines.push(line))
            == entries_of(lines).push(trimmed(line)),
        trimmed(line).len() == 0 || trimmed(line)[0] == '#' ==> entries_of(lines.push(line))
            == entries_of(lines),
{
    assert(lines.push(line).drop_last() =~= lines);
}

/// A dropped file's path comes out exactly if it could be decoded and names no
/// host or this machine; paths keep their order.
pub proof fn a_local_path_comes_out(uris: Seq<Option<DecodedUri>>, d: DecodedUri)
    ensures
        local_paths_spec(Seq::<Option<DecodedUri>>::empty()).len() == 0,
        local_paths_spec(uris.push(None)) == local_paths_spec(uris),
        d.host is None || d.host->0@ == "localhost"@ ==> local_paths_spec(uris.push(Some(d)))
            == local_paths_spec(uris).push(d.path@),
        d.host is Some && d.host->0@ != "localhost"@ ==> local_paths_spec(uris.push(Some(d)))
            == local_paths_spec(uris),
{
    assert(uris.push(None).drop_last() =~= uris);
    assert(uris.push(Some(d)).drop_last() =~= uris);
}

} // verus!
