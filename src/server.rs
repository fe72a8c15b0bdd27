//! Which file of the plugins directory a request to the local artifact
//! server names. A request path `/plugins/<sub-path>` is split at `/` and
//! normalised; a path that climbs out of the plugins directory is refused.
use vstd::prelude::*;

use crate::plugins::strings_view;

verus! {

/// The prefix under which artifacts are served.
pub open spec fn served_prefix() -> Seq<char> {
    seq!['/', 'p', 'l', 'u', 'g', 'i', 'n', 's', '/']
}

/// The pieces of `s` between the `/` characters, empty pieces included, as
/// splitting a string at `/` gives them.
pub open spec fn segments(s: Seq<char>) -> Seq<Seq<char>>
    decreases s.len(),
{
    if s.len() == 0 {
        seq![Seq::empty()]
    } else if s.last() == '/' {
        segments(s.drop_last()).push(Seq::empty())
    } else {
        let g = segments(s.drop_last());
        g.update(g.len() - 1, g.last().push(s.last()))
    }
}

/// A segment that names a directory entry: neither empty, nor `.`, nor `..`.
pub open spec fn is_plain(seg: Seq<char>) -> bool {
    seg.len() > 0 && seg != seq!['.'] && seg != seq!['.', '.']
}

/// The normal form of a relative path given by its segments: empty segments
/// and `.` are dropped, `..` removes the segment before it, and a `..` with
/// nothing before it (a climb out of the root) makes the path invalid.
pub open spec fn normalize(segs: Seq<Seq<char>>) -> Option<Seq<Seq<char>>>
    decreases segs.len(),
{
    if segs.len() == 0 {
        Some(Seq::empty())
    } else {
        match normalize(segs.drop_last()) {
            None => None,
            Some(acc) => {
                let seg = segs.last();
                if seg.len() == 0 || seg == seq!['.'] {
                    Some(acc)
                } else if seg == seq!['.', '.'] {
                    if acc.len() == 0 {
                        None
                    } else {
                        Some(acc.drop_last())
                    }
                } else {
                    Some(acc.push(seg))
                }
            },
        }
    }
}

/// The entry of the plugins directory a request path names, as the segments
/// of its path relative to that directory; `None` when the request is not
/// under the served prefix or climbs out of the directory.
pub open spec fn resolve(path: Seq<char>) -> Option<Seq<Seq<char>>> {
    let p = served_prefix();
    if p.len() <= path.len() && path.subrange(0, p.len() as int) == p {
        normalize(segments(path.subrange(p.len() as int, path.len() as int)))
    } else {
        None
    }
}

/// Every path the server accepts stays inside the plugins directory: its
/// normal form consists of plain names only, with no `..` left to climb.
pub proof fn lemma_normalized_is_plain(segs: Seq<Seq<char>>)
    requires
        normalize(segs) is Some,
    ensures
        forall|i: int| 0 <= i < normalize(segs)->Some_0.len() ==> is_plain(#[trigger] normalize(segs)->Some_0[i]),
    decreases segs.len(),
{
    if segs.len() > 0 {
        lemma_normalized_is_plain(segs.drop_last());
        let acc = normalize(segs.drop_last())->Some_0;
        let r = normalize(segs)->Some_0;
        assert forall|i: int| 0 <= i < r.len() implies is_plain(#[trigger] r[i]) by {
            if i < acc.len() {
                assert(r[i] == acc[i]);
            }
        }
    }
}

fn split_segments(s: &str) -> (r: Vec<String>)
    ensures
        strings_view(r@) == segments(s@),
{
    let n = s.unicode_len();
    let mut out: Vec<String> = Vec::new();
    let mut start: usize = 0;
    let mut i: usize = 0;
    proof {
        assert(s@.take(0) =~= Seq::<char>::empty());
        assert(strings_view(out@).push(s@.subrange(0, 0)) =~= segments(s@.take(0)));
    }
    while i < n
        invariant
            n == s@.len(),
            start <= i <= n,
            strings_view(out@).push(s@.subrange(start as int, i as int)) == segments(s@.take(i as int)),
        decreases n - i,
    {
        let ghost prev = strings_view(out@);
        proof {
            assert(s@.take(i as int + 1).drop_last() =~= s@.take(i as int));
            assert(s@.take(i as int + 1).last() == s@[i as int]);
        }
        if s.get_char(i) == '/' {
            let piece = String::from_str(s.substring_char(start, i));
            out.push(piece);
            proof {
                assert(strings_view(out@) =~= prev.push(s@.subrange(start as int, i as int)));
                assert(s@.subrange(i as int + 1, i as int + 1) =~= Seq::<char>::empty());
            }
            start = i + 1;
        } else {
            proof {
                assert(s@.subrange(start as int, i as int).push(s@[i as int]) =~= s@.subrange(start as int, i as int + 1));
                let g = prev.push(s@.subrange(start as int, i as int));
                assert(g.update(g.len() - 1, g.last().push(s@[i as int])) =~= prev.push(s@.subrange(start as int, i as int + 1)));
            }
        }
        i += 1;
    }
    let piece = String::from_str(s.substring_char(start, n));
    out.push(piece);
    proof {
        assert(s@.take(n as int) =~= s@);
        assert(strings_view(out@) =~= segments(s@));
    }
    out
}

fn is_dot(seg: &str) -> (r: bool)
    ensures
        r == (seg@ == seq!['.']),
{
    if seg.unicode_len() == 1 && seg.get_char(0) == '.' {
        assert(seg@ =~= seq!['.']);
        true
    } else {
        false
    }
}

fn is_dot_dot(seg: &str) -> (r: bool)
    ensures
        r == (seg@ == seq!['.', '.']),
{
    if seg.unicode_len() == 2 && seg.get_char(0) == '.' && seg.get_char(1) == '.' {
        assert(seg@ =~= seq!['.', '.']);
        true
    } else {
        false
    }
}

fn normalize_segments(segs: Vec<String>) -> (r: Option<Vec<String>>)
    ensures
        r is Some <==> normalize(strings_view(segs@)) is Some,
        r is Some ==> strings_view(r->Some_0@) == normalize(strings_view(segs@))->Some_0,
{
    let ghost sv = strings_view(segs@);
    let mut out: Vec<String> = Vec::new();
    let mut k: usize = 0;
    proof {
        assert(sv.take(0) =~= Seq::<Seq<char>>::empty());
        assert(strings_view(out@) =~= Seq::<Seq<char>>::empty());
    }
    while k < segs.len()
        invariant
            k <= segs.len(),
            sv == strings_view(segs@),
            normalize(sv.take(k as int)) == Some(strings_view(out@)),
        decreases segs.len() - k,
    {
        proof {
            assert(sv.take(k as int + 1).drop_last() =~= sv.take(k as int));
            assert(sv.take(k as int + 1).last() == segs@[k as int]@);
        }
        let seg = segs[k].as_str();
        let ghost prev = strings_view(out@);
        if seg.unicode_len() == 0 || is_dot(seg) {
        } else if is_dot_dot(seg) {
            if out.len() == 0 {
                proof {
                    lemma_normalize_none_stays(sv, k as int + 1);
                    assert(sv.take(segs.len() as int) =~= sv);
                }
                return None;
            }
            out.pop();
            proof {
                assert(strings_view(out@) =~= prev.drop_last());
            }
        } else {
            out.push(String::from_str(seg));
            proof {
                assert(strings_view(out@) =~= prev.push(seg@));
            }
        }
        k += 1;
    }
    proof {
        assert(sv.take(k as int) =~= sv);
    }
    Some(out)
}

proof fn lemma_normalize_none_stays(segs: Seq<Seq<char>>, k: int)
    requires
        0 <= k <= segs.len(),
        normalize(segs.take(k)) is None,
    ensures
        normalize(segs) is None,
    decreases segs.len() - k,
{
    if k < segs.len() {
        assert(segs.take(k + 1).drop_last() =~= segs.take(k));
        lemma_normalize_none_stays(segs, k + 1);
    } else {
        assert(segs.take(k) =~= segs);
    }
}

/// The entry of the plugins directory that the request path `path` names,
/// as the names on the way down from that directory; `None` (a refusal)
/// where the path does not start with `/plugins/` or, once normalised,
/// climbs out of the plugins directory. Every name returned is plain.
pub fn resolve_artifact_request(path: &str) -> (r: Option<Vec<String>>)
    ensures
        r is Some <==> resolve(path@) is Some,
        r is Some ==> strings_view(r->Some_0@) == resolve(path@)->Some_0,
        r is Some ==> forall|i: int| 0 <= i < r->Some_0@.len() ==> is_plain(#[trigger] r->Some_0@[i]@),
{
    let prefix = "/plugins/";
    proof {
        reveal_strlit("/plugins/");
        assert(prefix@ =~= served_prefix());
    }
    let n = path.unicode_len();
    let m = prefix.unicode_len();
    if n < m {
        return None;
    }
    let mut i: usize = 0;
    while i < m
        invariant
            n == path@.len(),
            m == prefix@.len(),
            prefix@ == served_prefix(),
            m <= n,
            i <= m,
            forall|t: int| 0 <= t < i ==> path@[t] == prefix@[t],
        decreases m - i,
    {
        if path.get_char(i) != prefix.get_char(i) {
            assert(path@.subrange(0, m as int)[i as int] != prefix@[i as int]);
            return None;
        }
        i += 1;
    }
    assert(path@.subrange(0, m as int) =~= prefix@);
    let rest = path.substring_char(m, n);
    let segs = split_segments(rest);
    let r = normalize_segments(segs);
    proof {
        if r is Some {
            lemma_normalized_is_plain(segments(rest@));
            let v = r->Some_0@;
            assert forall|i: int| 0 <= i < v.len() implies is_plain(#[trigger] v[i]@) by {
                assert(strings_view(v)[i] == v[i]@);
            }
        }
    }
    r
}

} // verus!
