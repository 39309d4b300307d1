//! Paths inside a root filesystem, as lists of names from the root down.

use crate::text::{chars_eq, from_chars, string_views, to_chars, views};
use crate::words::{pieces_of, split};
use vstd::prelude::*;

verus! {

/// Whether a piece of a path names something: it is neither empty nor `.`.
pub open spec fn is_plain_name(piece: Seq<char>) -> bool {
    piece.len() > 0 && piece != "."@
}

/// The pieces that name something, other than `..`, in order.
pub open spec fn names_in(pieces: Seq<Seq<char>>) -> Seq<Seq<char>>
    decreases pieces.len(),
{
    if pieces.len() == 0 {
        Seq::empty()
    } else if is_plain_name(pieces.last()) {
        names_in(pieces.drop_last()).push(pieces.last())
    } else {
        names_in(pieces.drop_last())
    }
}

/// The names of an archive path, from the root down: what the slashes
/// separate, without empty pieces and without `.`.
pub open spec fn components_of(path: Seq<char>) -> Seq<Seq<char>> {
    names_in(pieces_of(path, '/'))
}

/// Whether an archive path could lead out of the directory it is unpacked
/// in: it begins with a slash, or one of its pieces is `..`.
pub open spec fn is_unsafe_path(path: Seq<char>) -> bool {
    (path.len() > 0 && path[0] == '/') || pieces_of(path, '/').contains(".."@)
}

/// Whether `a` leads to `b` or to something above `b`: the names of `a` are
/// the first names of `b`.
pub open spec fn is_prefix_path(a: Seq<Seq<char>>, b: Seq<Seq<char>>) -> bool {
    a.len() <= b.len() && b.take(a.len() as int) == a
}

/// Where one arrives from `base` by following `pieces` in order: an empty
/// piece and `.` stay, `..` goes one up, a name goes down. `None` where
/// `..` would go above the root.
pub open spec fn resolved_from(base: Seq<Seq<char>>, pieces: Seq<Seq<char>>) -> Option<
    Seq<Seq<char>>,
>
    decreases pieces.len(),
{
    if pieces.len() == 0 {
        Some(base)
    } else {
        match resolved_from(base, pieces.drop_last()) {
            None => None,
            Some(at) => {
                let piece = pieces.last();
                if !is_plain_name(piece) {
                    Some(at)
                } else if piece == ".."@ {
                    if at.len() == 0 {
                        None
                    } else {
                        Some(at.drop_last())
                    }
                } else {
                    Some(at.push(piece))
                }
            },
        }
    }
}

/// What a link stands for. A symbolic link whose target does not begin
/// with a slash is read from the directory that holds the link; every other
/// link is read from the root.
pub open spec fn link_source(link_path: Seq<Seq<char>>, link_name: Seq<char>, symbolic: bool)
    -> Option<Seq<Seq<char>>> {
    let relative = symbolic && !(link_name.len() > 0 && link_name[0] == '/');
    let base = if relative && link_path.len() > 0 {
        link_path.drop_last()
    } else {
        Seq::empty()
    };
    resolved_from(base, pieces_of(link_name, '/'))
}

/// Whether two paths have the same names.
pub fn same_path(a: &Vec<String>, b: &Vec<String>) -> (r: bool)
    ensures
        r == (string_views(a@) == string_views(b@)),
{
    if a.len() != b.len() {
        proof {
            assert(string_views(a@).len() != string_views(b@).len());
        }
        return false;
    }
    let mut i: usize = 0;
    while i < a.len()
        invariant
            i <= a.len(),
            a.len() == b.len(),
            forall|j: int| 0 <= j < i ==> a[j]@ == b[j]@,
        decreases a.len() - i,
    {
        if a[i] != b[i] {
            proof {
                assert(string_views(a@)[i as int] != string_views(b@)[i as int]);
            }
            return false;
        }
        i += 1;
    }
    proof {
        assert(string_views(a@) =~= string_views(b@));
    }
    true
}

/// Whether the names of `a` are the first names of `b`.
pub fn is_prefix(a: &Vec<String>, b: &Vec<String>) -> (r: bool)
    ensures
        r == is_prefix_path(string_views(a@), string_views(b@)),
{
    if a.len() > b.len() {
        return false;
    }
    let mut i: usize = 0;
    while i < a.len()
        invariant
            i <= a.len() <= b.len(),
            forall|j: int| 0 <= j < i ==> a[j]@ == b[j]@,
        decreases a.len() - i,
    {
        if a[i] != b[i] {
            proof {
                assert(string_views(b@).take(a.len() as int)[i as int] != string_views(a@)[i as int]);
            }
            return false;
        }
        i += 1;
    }
    proof {
        assert(string_views(b@).take(a.len() as int) =~= string_views(a@));
    }
    true
}

/// The names of an archive path, from the root down.
pub fn components(path: &str) -> (out: Vec<String>)
    ensures
        string_views(out@) == components_of(path@),
{
    let pieces = split(&to_chars(path), '/');
    let dot = to_chars(".");
    let mut out: Vec<String> = Vec::new();
    let mut i: usize = 0;
    proof {
        assert(string_views(out@) =~= names_in(views(pieces@).take(0)));
    }
    while i < pieces.len()
        invariant
            i <= pieces.len(),
            dot@ == "."@,
            string_views(out@) == names_in(views(pieces@).take(i as int)),
        decreases pieces.len() - i,
    {
        let ghost all = views(pieces@);
        let ghost before = string_views(out@);
        proof {
            assert(all.take(i + 1).drop_last() =~= all.take(i as int));
            assert(all.take(i + 1).last() == pieces[i as int]@);
        }
        if pieces[i].len() > 0 && !chars_eq(&pieces[i], &dot) {
            out.push(from_chars(&pieces[i]));
            proof {
                assert(string_views(out@) =~= before.push(pieces[i as int]@));
            }
        }
        i += 1;
    }
    proof {
        assert(views(pieces@).take(pieces.len() as int) =~= views(pieces@));
    }
    out
}

/// Whether an archive path could lead out of the directory it is unpacked in.
pub fn is_unsafe(path: &str) -> (r: bool)
    ensures
        r == is_unsafe_path(path@),
{
    let v = to_chars(path);
    if v.len() > 0 && v[0] == '/' {
        return true;
    }
    let pieces = split(&v, '/');
    let up = to_chars("..");
    let mut i: usize = 0;
    while i < pieces.len()
        invariant
            i <= pieces.len(),
            up@ == ".."@,
            views(pieces@) == pieces_of(path@, '/'),
            forall|j: int| 0 <= j < i ==> pieces[j]@ != ".."@,
        decreases pieces.len() - i,
    {
        if chars_eq(&pieces[i], &up) {
            proof {
                let all = views(pieces@);
                assert(all[i as int] == ".."@);
                assert(all.contains(".."@));
                assert(all == pieces_of(path@, '/'));
            }
            return true;
        }
        i += 1;
    }
    proof {
        let all = views(pieces@);
        if all.contains(".."@) {
            let j = choose|j: int| 0 <= j < all.len() && all[j] == ".."@;
            assert(pieces[j]@ == ".."@);
        }
    }
    false
}

/// Follows `pieces` from `base`.
pub fn resolve_from(base: Vec<String>, pieces: &Vec<Vec<char>>) -> (r: Option<Vec<String>>)
    ensures
        match r {
            Some(at) => resolved_from(string_views(base@), views(pieces@)) == Some(
                string_views(at@),
            ),
            None => resolved_from(string_views(base@), views(pieces@)) is None,
        },
{
    let dot = to_chars(".");
    let up = to_chars("..");
    let ghost start = string_views(base@);
    let mut at = base;
    let mut i: usize = 0;
    proof {
        assert(views(pieces@).take(0) =~= Seq::<Seq<char>>::empty());
    }
    while i < pieces.len()
        invariant
            i <= pieces.len(),
            dot@ == "."@,
            up@ == ".."@,
            start == string_views(base@),
            resolved_from(start, views(pieces@).take(i as int)) == Some(string_views(at@)),
        decreases pieces.len() - i,
    {
        let ghost all = views(pieces@);
        let ghost before = string_views(at@);
        proof {
            assert(all.take(i + 1).drop_last() =~= all.take(i as int));
            assert(all.take(i + 1).last() == pieces[i as int]@);
        }
        if pieces[i].len() == 0 || chars_eq(&pieces[i], &dot) {
        } else if chars_eq(&pieces[i], &up) {
            if at.len() == 0 {
                proof {
                    assert(before.len() == 0);
                    assert(is_plain_name(all.take(i + 1).last()));
                    assert(resolved_from(start, all.take(i + 1)) is None);
                    lemma_resolve_stays_lost(start, all, i + 1);
                    assert(resolved_from(start, all) is None);
                }
                return None;
            }
            at.pop();
            proof {
                assert(string_views(at@) =~= before.drop_last());
            }
        } else {
            at.push(from_chars(&pieces[i]));
            proof {
                assert(string_views(at@) =~= before.push(pieces[i as int]@));
            }
        }
        i += 1;
    }
    proof {
        assert(views(pieces@).take(pieces.len() as int) =~= views(pieces@));
    }
    Some(at)
}

/// Once a path has gone above the root, no further piece brings it back.
pub proof fn lemma_resolve_stays_lost(base: Seq<Seq<char>>, pieces: Seq<Seq<char>>, k: int)
    requires
        0 <= k <= pieces.len(),
        resolved_from(base, pieces.take(k)) is None,
    ensures
        resolved_from(base, pieces) is None,
    decreases pieces.len() - k,
{
    if k == pieces.len() {
        assert(pieces.take(k) =~= pieces);
    } else {
        assert(pieces.take(k + 1).drop_last() =~= pieces.take(k));
        lemma_resolve_stays_lost(base, pieces, k + 1);
    }
}

/// What a link stands for.
pub fn resolve_link(link_path: &Vec<String>, link_name: &str, symbolic: bool) -> (r: Option<
    Vec<String>,
>)
    ensures
        match r {
            Some(at) => link_source(string_views(link_path@), link_name@, symbolic) == Some(
                string_views(at@),
            ),
            None => link_source(string_views(link_path@), link_name@, symbolic) is None,
        },
{
    let name = to_chars(link_name);
    let relative = symbolic && !(name.len() > 0 && name[0] == '/');
    let mut base: Vec<String> = Vec::new();
    if relative && link_path.len() > 0 {
        let mut i: usize = 0;
        while i < link_path.len() - 1
            invariant
                link_path.len() > 0,
                i <= link_path.len() - 1,
                base.len() == i,
                forall|j: int| 0 <= j < i ==> base[j]@ == link_path[j]@,
            decreases link_path.len() - i,
        {
            base.push(link_path[i].clone());
            i += 1;
        }
        proof {
            assert(string_views(base@) =~= string_views(link_path@).drop_last());
        }
    } else {
        proof {
            assert(string_views(base@) =~= Seq::<Seq<char>>::empty());
        }
    }
    let pieces = split(&name, '/');
    resolve_from(base, &pieces)
}

} // verus!
