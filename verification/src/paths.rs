//! Paths as the system takes them: bytes, of which not all count.
//!
//! Two paths are the same if they have the same parts. Repeated slashes, a
//! slash at the end and parts that are a lone dot do not count, except for a
//! dot that begins the path. Nothing else is made equal: a part that is two
//! dots counts as it stands.
use vstd::prelude::*;

verus! {

/// The byte between the parts of a path.
pub const SLASH: u8 = 0x2f;

/// The byte of a dot.
pub const DOT: u8 = 0x2e;

/// A path cut at every slash.
pub open spec fn cut(path: Seq<u8>) -> Seq<Seq<u8>>
    decreases path.len(),
{
    if path.len() == 0 {
        seq![Seq::empty()]
    } else {
        let before = cut(path.drop_last());
        if path.last() == SLASH {
            before.push(Seq::empty())
        } else {
            before.drop_last().push(before.last().push(path.last()))
        }
    }
}

/// A piece of a path that counts: it is there, and no lone dot.
pub open spec fn counts(piece: Seq<u8>) -> bool {
    piece.len() > 0 && piece != seq![DOT]
}

/// The pieces that count, in order.
pub open spec fn counted(pieces: Seq<Seq<u8>>) -> Seq<Seq<u8>>
    decreases pieces.len(),
{
    if pieces.len() == 0 {
        Seq::empty()
    } else if counts(pieces.last()) {
        counted(pieces.drop_last()).push(pieces.last())
    } else {
        counted(pieces.drop_last())
    }
}

/// A path that begins at the root.
pub open spec fn is_absolute(path: Seq<u8>) -> bool {
    path.len() > 0 && path[0] == SLASH
}

/// A path whose first part is a lone dot.
pub open spec fn begins_with_dot(path: Seq<u8>) -> bool {
    path.len() > 0 && path[0] == DOT && (path.len() == 1 || path[1] == SLASH)
}

/// Two paths that lead the same way.
pub open spec fn same_way(a: Seq<u8>, b: Seq<u8>) -> bool {
    &&& is_absolute(a) == is_absolute(b)
    &&& begins_with_dot(a) == begins_with_dot(b)
    &&& counted(cut(a)) == counted(cut(b))
}

spec fn views(v: Seq<Vec<u8>>) -> Seq<Seq<u8>> {
    v.map_values(|p: Vec<u8>| p@)
}

/// Add a piece to the parts of a path, if it counts.
fn keep(parts: &mut Vec<Vec<u8>>, piece: Vec<u8>)
    ensures
        views(final(parts)@) == if counts(piece@) {
            views(old(parts)@).push(piece@)
        } else {
            views(old(parts)@)
        },
{
    if piece.len() > 1 || (piece.len() == 1 && piece[0] != DOT) {
        assert(piece@[0] != DOT || piece@.len() > 1);
        let ghost p = piece@;
        parts.push(piece);
        assert(views(parts@) =~= views(old(parts)@).push(p));
    } else {
        assert(piece@.len() == 1 ==> piece@ =~= seq![DOT]);
    }
}

/// The parts of a path, in order.
fn parts_of(path: &[u8]) -> (r: Vec<Vec<u8>>)
    ensures
        views(r@) == counted(cut(path@)),
{
    let mut parts: Vec<Vec<u8>> = Vec::new();
    let mut piece: Vec<u8> = Vec::new();
    let mut i: usize = 0;
    assert(cut(path@.take(0)) =~= seq![Seq::<u8>::empty()]);
    assert(cut(path@.take(0)).drop_last() =~= Seq::<Seq<u8>>::empty());
    assert(views(parts@) =~= counted(cut(path@.take(0)).drop_last()));
    while i < path.len()
        invariant
            i <= path@.len(),
            cut(path@.take(i as int)).len() > 0,
            views(parts@) == counted(cut(path@.take(i as int)).drop_last()),
            piece@ == cut(path@.take(i as int)).last(),
        decreases path.len() - i,
    {
        let ghost before = cut(path@.take(i as int));
        let ghost now = cut(path@.take(i + 1));
        assert(path@.take(i + 1).drop_last() =~= path@.take(i as int));
        if path[i] == SLASH {
            assert(now == before.push(Seq::empty()));
            assert(now.drop_last() =~= before);
            keep(&mut parts, piece);
            piece = Vec::new();
        } else {
            assert(now == before.drop_last().push(before.last().push(path@[i as int])));
            assert(now.drop_last() =~= before.drop_last());
            piece.push(path[i]);
        }
        i += 1;
    }
    assert(path@.take(i as int) =~= path@);
    keep(&mut parts, piece);
    parts
}

fn same_bytes(a: &Vec<u8>, b: &Vec<u8>) -> (r: bool)
    ensures
        r == (a@ == b@),
{
    if a.len() != b.len() {
        return false;
    }
    let mut i: usize = 0;
    while i < a.len()
        invariant
            i <= a@.len() == b@.len(),
            forall|j: int| 0 <= j < i ==> a@[j] == b@[j],
        decreases a.len() - i,
    {
        if a[i] != b[i] {
            assert(a@[i as int] != b@[i as int]);
            return false;
        }
        i += 1;
    }
    assert(a@ =~= b@);
    true
}

fn same_parts(a: &Vec<Vec<u8>>, b: &Vec<Vec<u8>>) -> (r: bool)
    ensures
        r == (views(a@) == views(b@)),
{
    if a.len() != b.len() {
        assert(views(a@).len() != views(b@).len());
        return false;
    }
    let mut i: usize = 0;
    while i < a.len()
        invariant
            i <= a@.len() == b@.len(),
            forall|j: int| 0 <= j < i ==> a@[j]@ == b@[j]@,
        decreases a.len() - i,
    {
        if !same_bytes(&a[i], &b[i]) {
            assert(views(a@)[i as int] != views(b@)[i as int]);
            return false;
        }
        i += 1;
    }
    assert(views(a@) =~= views(b@));
    true
}

fn dot_begins(path: &[u8]) -> (r: bool)
    ensures
        r == begins_with_dot(path@),
{
    path.len() > 0 && path[0] == DOT && (path.len() == 1 || path[1] == SLASH)
}

/// Whether two paths lead the same way.
pub fn same_path(a: &[u8], b: &[u8]) -> (r: bool)
    ensures
        r == same_way(a@, b@),
{
    let absolute: bool = a.len() > 0 && a[0] == SLASH;
    let other: bool = b.len() > 0 && b[0] == SLASH;
    absolute == other && dot_begins(a) == dot_begins(b) && same_parts(&parts_of(a), &parts_of(b))
}

proof fn cuts_join(a: Seq<u8>, b: Seq<u8>)
    ensures
        cut(a.push(SLASH) + b) == cut(a) + cut(b),
        cut(b).len() > 0,
    decreases b.len(),
{
    let all = a.push(SLASH) + b;
    if b.len() == 0 {
        assert(all.drop_last() =~= a);
        assert(cut(all) =~= cut(a) + cut(b));
    } else {
        cuts_join(a, b.drop_last());
        assert(all.drop_last() =~= a.push(SLASH) + b.drop_last());
        assert(cut(all) =~= cut(a) + cut(b));
    }
}

proof fn counted_join(a: Seq<Seq<u8>>, b: Seq<Seq<u8>>)
    ensures
        counted(a + b) == counted(a) + counted(b),
    decreases b.len(),
{
    if b.len() == 0 {
        assert(a + b =~= a);
        assert(counted(a + b) =~= counted(a) + counted(b));
    } else {
        counted_join(a, b.drop_last());
        assert((a + b).drop_last() =~= a + b.drop_last());
        assert(counted(a + b) =~= counted(a) + counted(b));
    }
}

/// A second slash between two parts of a path does not count, nor does a lone
/// dot, nor a slash at the end.
pub proof fn what_does_not_count(a: Seq<u8>, b: Seq<u8>)
    requires
        a.len() > 0,
    ensures
        same_way(a.push(SLASH) + b, a.push(SLASH).push(SLASH) + b),
        same_way(a.push(SLASH) + b, a.push(SLASH).push(DOT).push(SLASH) + b),
        same_way(a, a.push(SLASH)),
{
    let slashed = a.push(SLASH);
    let dotted = slashed.push(DOT);
    let none = Seq::<u8>::empty();
    let dot = seq![DOT];
    cuts_join(a, b);
    cuts_join(slashed, b);
    cuts_join(dotted, b);
    cuts_join(a, none);
    cuts_join(a, dot);
    assert(a.push(SLASH) + none =~= slashed);
    assert(a.push(SLASH) + dot =~= dotted);
    assert(dot.drop_last() =~= none);
    assert(none.push(DOT) =~= dot);
    assert(cut(none) =~= seq![none]);
    assert(cut(dot) =~= seq![dot]);
    assert(seq![none].drop_last() =~= Seq::<Seq<u8>>::empty());
    assert(seq![dot].drop_last() =~= Seq::<Seq<u8>>::empty());
    assert(counted(Seq::<Seq<u8>>::empty()) == Seq::<Seq<u8>>::empty());
    assert(!counts(seq![none].last()) && !counts(seq![dot].last()));
    assert(counted(cut(none)) == Seq::<Seq<u8>>::empty());
    assert(counted(cut(dot)) == Seq::<Seq<u8>>::empty());
    counted_join(cut(a), cut(none));
    counted_join(cut(a), cut(dot));
    counted_join(cut(a), cut(b));
    counted_join(cut(slashed), cut(b));
    counted_join(cut(dotted), cut(b));
    assert(counted(cut(slashed)) =~= counted(cut(a)));
    assert(counted(cut(dotted)) =~= counted(cut(a)));
}

/// A path is cut at its slashes and nowhere else: what stands on both sides of
/// one is cut on its own, and what has no slash is one piece.
pub proof fn a_path_is_cut_at_its_slashes(a: Seq<u8>, b: Seq<u8>, piece: Seq<u8>)
    requires
        forall|i: int| 0 <= i < piece.len() ==> piece[i] != 0x2f,
    ensures
        cut(a.push(0x2f) + b) == cut(a) + cut(b),
        cut(piece) == seq![piece],
    decreases piece.len(),
{
    cuts_join(a, b);
    if piece.len() > 0 {
        a_path_is_cut_at_its_slashes(a, b, piece.drop_last());
        assert(piece.drop_last().push(piece.last()) =~= piece);
        assert(seq![piece.drop_last()].drop_last() =~= Seq::<Seq<u8>>::empty());
        assert(cut(piece) =~= seq![piece]);
    } else {
        assert(piece =~= Seq::<u8>::empty());
        assert(cut(piece) =~= seq![piece]);
    }
}

/// The parts of a path are its pieces, in order, without the empty ones and
/// those that are a lone dot.
pub proof fn the_parts_are_the_pieces_that_count(pieces: Seq<Seq<u8>>)
    ensures
        counted(pieces) == pieces.filter(|p: Seq<u8>| p.len() > 0 && p != seq![0x2eu8]),
    decreases pieces.len(),
{
    reveal(Seq::filter);
    if pieces.len() > 0 {
        the_parts_are_the_pieces_that_count(pieces.drop_last());
    }
}

/// Two paths lead the same way exactly if both begin at the root or neither
/// does, both begin with a lone dot or neither does, and their parts are the
/// same.
pub proof fn what_makes_two_paths_one(a: Seq<u8>, b: Seq<u8>, r: bool)
    ensures
        same_way(a, b) <==> {
            &&& (a.len() > 0 && a[0] == 0x2f) <==> (b.len() > 0 && b[0] == 0x2f)
            &&& (a.len() > 0 && a[0] == 0x2e && (a.len() == 1 || a[1] == 0x2f)) <==> (b.len() > 0
                && b[0] == 0x2e && (b.len() == 1 || b[1] == 0x2f))
            &&& counted(cut(a)) == counted(cut(b))
        },
        same_way(a, a),
        same_way(a, b) <==> same_way(b, a),
{
}

/// Names without a slash lead the same way only if they are the same, dots
/// apart; so a different file name is a different path.
pub proof fn different_names_are_different_paths(dir: Seq<u8>, a: Seq<u8>, b: Seq<u8>)
    requires
        forall|i: int| 0 <= i < a.len() ==> a[i] != 0x2f,
        forall|i: int| 0 <= i < b.len() ==> b[i] != 0x2f,
        a.len() > 0 && a != seq![0x2eu8],
        b.len() > 0 && b != seq![0x2eu8],
        same_way(dir.push(0x2f) + a, dir.push(0x2f) + b),
    ensures
        a == b,
{
    a_path_is_cut_at_its_slashes(dir, a, a);
    a_path_is_cut_at_its_slashes(dir, b, b);
    counted_join(cut(dir), cut(a));
    counted_join(cut(dir), cut(b));
    assert(counted(seq![a]) =~= seq![a]) by {
        assert(seq![a].drop_last() =~= Seq::<Seq<u8>>::empty());
        assert(counted(Seq::<Seq<u8>>::empty()) == Seq::<Seq<u8>>::empty());
    }
    assert(counted(seq![b]) =~= seq![b]) by {
        assert(seq![b].drop_last() =~= Seq::<Seq<u8>>::empty());
        assert(counted(Seq::<Seq<u8>>::empty()) == Seq::<Seq<u8>>::empty());
    }
    let before = counted(cut(dir));
    assert((before + seq![a]).last() == a);
    assert((before + seq![b]).last() == b);
}

} // verus!
