//! The music library's ordering and lookups: tracks sorted by their lower-case
//! file stem, duplicates recognised by path.
use vstd::prelude::*;
use crate::text::{chars_eq, chars_lt, chars_of, lowercase, seq_lt, to_lowercase};
use crate::track::{stem_or_unknown, track_view, tracks_view, Track, TrackView};

verus! {

broadcast use vstd::string::group_string_axioms;

/// The key the library is sorted by: the track's file stem ("Unknown" where it has none) in lower case.
pub open spec fn track_key(t: TrackView) -> Seq<char> {
    lowercase(stem_or_unknown(t.path))
}

/// Where a stable insertion puts an element with key `k` into `s[..p]`: after the
/// trailing elements whose keys are not greater than `k`.
pub open spec fn insert_pos(s: Seq<TrackView>, k: Seq<char>, p: int) -> int
    decreases p,
{
    if p > 0 && p <= s.len() && seq_lt(k, track_key(s[p - 1])) {
        insert_pos(s, k, p - 1)
    } else {
        p
    }
}

/// `s` sorted by `track_key`, keeping the order of tracks with equal keys
/// (the order `slice::sort_by` gives with that key).
pub open spec fn sort_tracks(s: Seq<TrackView>) -> Seq<TrackView>
    decreases s.len(),
{
    if s.len() == 0 {
        s
    } else {
        let r = sort_tracks(s.drop_last());
        r.insert(insert_pos(r, track_key(s.last()), r.len() as int), s.last())
    }
}

proof fn lemma_insert_pos_bounds(s: Seq<TrackView>, k: Seq<char>, p: int)
    requires
        0 <= p <= s.len(),
    ensures
        0 <= insert_pos(s, k, p) <= p,
    decreases p,
{
    if p > 0 && seq_lt(k, track_key(s[p - 1])) {
        lemma_insert_pos_bounds(s, k, p - 1);
    }
}

pub proof fn lemma_sort_tracks_len(s: Seq<TrackView>)
    ensures
        sort_tracks(s).len() == s.len(),
    decreases s.len(),
{
    if s.len() > 0 {
        lemma_sort_tracks_len(s.drop_last());
        let r = sort_tracks(s.drop_last());
        lemma_insert_pos_bounds(r, track_key(s.last()), r.len() as int);
    }
}

/// The sort key of a track.
pub fn track_sort_key(t: &Track) -> (k: Vec<char>)
    ensures
        k@ == track_key(track_view(*t)),
{
    let stem = t.file_stem();
    let lower = to_lowercase(stem.as_str());
    chars_of(lower.as_str())
}

/// The tracks of `v` sorted by `track_key`, stably (see `sort_tracks`).
pub fn sorted_tracks(v: &Vec<Track>) -> (res: Vec<Track>)
    ensures
        tracks_view(res@) == sort_tracks(tracks_view(v@)),
{
    let ghost tv = tracks_view(v@);
    let n = v.len();
    let mut keys: Vec<Vec<char>> = Vec::new();
    let mut i: usize = 0;
    while i < n
        invariant
            i <= n == v@.len() == tv.len(),
            tv == tracks_view(v@),
            keys@.len() == i,
            forall|j: int| 0 <= j < i ==> (#[trigger] keys@[j])@ == track_key(tv[j]),
        decreases n - i,
    {
        keys.push(track_sort_key(&v[i]));
        i = i + 1;
    }
    // the sorted order, as positions in v
    let mut order: Vec<usize> = Vec::new();
    let mut k: usize = 0;
    assert(tv.take(0) =~= Seq::<TrackView>::empty());
    while k < n
        invariant
            k <= n == tv.len(),
            keys@.len() == n,
            forall|j: int| 0 <= j < n ==> (#[trigger] keys@[j])@ == track_key(tv[j]),
            order@.len() == k,
            forall|j: int| 0 <= j < k ==> (#[trigger] order@[j]) < n,
            Seq::new(order@.len(), |j: int| tv[order@[j] as int]) == sort_tracks(tv.take(k as int)),
        decreases n - k,
    {
        let ghost r = sort_tracks(tv.take(k as int));
        assert(tv.take(k + 1).drop_last() =~= tv.take(k as int));
        assert(tv.take(k + 1).last() == tv[k as int]);
        let mut p = order.len();
        while p > 0 && chars_lt(&keys[k], &keys[order[p - 1]])
            invariant
                p <= order@.len() == k < n == tv.len(),
                keys@.len() == n,
                forall|j: int| 0 <= j < n ==> (#[trigger] keys@[j])@ == track_key(tv[j]),
                forall|j: int| 0 <= j < k ==> (#[trigger] order@[j]) < n,
                r == Seq::new(order@.len(), |j: int| tv[order@[j] as int]),
                insert_pos(r, track_key(tv[k as int]), r.len() as int) == insert_pos(r, track_key(tv[k as int]), p as int),
            decreases p,
        {
            assert(r[p - 1] == tv[order@[p - 1] as int]);
            p = p - 1;
        }
        assert(r[p - 1] == tv[order@[p - 1] as int] || p == 0);
        let ghost old_order = order@;
        order.insert(p, k);
        proof {
            lemma_insert_pos_bounds(r, track_key(tv[k as int]), r.len() as int);
            let nr = r.insert(p as int, tv[k as int]);
            assert(Seq::new(order@.len(), |j: int| tv[order@[j] as int]) =~= nr) by {
                assert forall|j: int| 0 <= j < order@.len() implies tv[order@[j] as int] == nr[j] by {
                    if j < p {
                        assert(order@[j] == old_order[j]);
                    } else if j == p {
                    } else {
                        assert(order@[j] == old_order[j - 1]);
                    }
                }
            }
        }
        k = k + 1;
    }
    assert(tv.take(n as int) =~= tv);
    let mut res: Vec<Track> = Vec::new();
    let mut m: usize = 0;
    while m < n
        invariant
            m <= n == v@.len() == tv.len(),
            tv == tracks_view(v@),
            order@.len() == n,
            forall|j: int| 0 <= j < n ==> (#[trigger] order@[j]) < n,
            Seq::new(order@.len(), |j: int| tv[order@[j] as int]) == sort_tracks(tv),
            res@.len() == m,
            forall|j: int| 0 <= j < m ==> track_view(#[trigger] res@[j]) == sort_tracks(tv)[j],
        decreases n - m,
    {
        let t = v[order[m]].duplicate();
        assert(track_view(t) == tv[order@[m as int] as int]);
        res.push(t);
        m = m + 1;
    }
    assert(tracks_view(res@) =~= sort_tracks(tv));
    res
}

/// The last position in `lib` of a track with path `p`.
pub open spec fn last_index_of_path(lib: Seq<TrackView>, p: Seq<char>) -> Option<int>
    decreases lib.len(),
{
    if lib.len() == 0 {
        None
    } else if lib.last().path == p {
        Some(lib.len() - 1)
    } else {
        last_index_of_path(lib.drop_last(), p)
    }
}

/// Whether some track of `lib` has path `p`.
pub open spec fn has_path(lib: Seq<TrackView>, p: Seq<char>) -> bool {
    exists|i: int| 0 <= i < lib.len() && (#[trigger] lib[i]).path == p
}

/// The last position in `lib` of a track with path `p` (what a map from paths to
/// positions, filled in order, holds for `p`).
pub fn find_last_path(lib: &Vec<Track>, p: &str) -> (res: Option<usize>)
    ensures
        (match res { Some(i) => Some(i as int), None => None }) == last_index_of_path(tracks_view(lib@), p@),
{
    let ghost tv = tracks_view(lib@);
    let pc = chars_of(p);
    let mut i = lib.len();
    assert(tv.take(i as int) =~= tv);
    while i > 0
        invariant
            i <= lib@.len() == tv.len(),
            tv == tracks_view(lib@),
            pc@ == p@,
            last_index_of_path(tv, p@) == last_index_of_path(tv.take(i as int), p@),
        decreases i,
    {
        assert(tv.take(i as int).last() == tv[i - 1]);
        assert(tv.take(i as int).drop_last() =~= tv.take(i - 1));
        let c = chars_of(lib[i - 1].path.as_str());
        if chars_eq(&c, &pc) {
            return Some(i - 1);
        }
        i = i - 1;
    }
    None
}

pub proof fn lemma_last_index_has_path(lib: Seq<TrackView>, p: Seq<char>)
    ensures
        (last_index_of_path(lib, p) is Some) == has_path(lib, p),
        last_index_of_path(lib, p) matches Some(i) ==> 0 <= i < lib.len() && lib[i].path == p,
    decreases lib.len(),
{
    if lib.len() > 0 {
        lemma_last_index_has_path(lib.drop_last(), p);
        if lib.last().path != p {
            if has_path(lib, p) {
                let i = choose|i: int| 0 <= i < lib.len() && (#[trigger] lib[i]).path == p;
                assert(lib.drop_last()[i] == lib[i]);
            }
            if has_path(lib.drop_last(), p) {
                let i = choose|i: int| 0 <= i < lib.drop_last().len() && (#[trigger] lib.drop_last()[i]).path == p;
                assert(lib[i] == lib.drop_last()[i]);
            }
        }
    }
}

/// Whether some track of `lib` has path `p`.
pub fn contains_path(lib: &Vec<Track>, p: &str) -> (res: bool)
    ensures
        res == has_path(tracks_view(lib@), p@),
{
    proof { lemma_last_index_has_path(tracks_view(lib@), p@); }
    find_last_path(lib, p).is_some()
}

// ───────────────────────── the order of the library ─────────────────────────

/// No text comes before itself.
pub proof fn lemma_seq_lt_irreflexive(a: Seq<char>)
    ensures
        !seq_lt(a, a),
    decreases a.len(),
{
    if a.len() > 0 {
        lemma_seq_lt_irreflexive(a.drop_first());
    }
}

/// The order of texts is transitive.
pub proof fn lemma_seq_lt_transitive(a: Seq<char>, b: Seq<char>, c: Seq<char>)
    requires
        seq_lt(a, b),
        seq_lt(b, c),
    ensures
        seq_lt(a, c),
    decreases a.len(),
{
    if a.len() > 0 && b.len() > 0 && c.len() > 0 && a[0] == b[0] && b[0] == c[0] {
        lemma_seq_lt_transitive(a.drop_first(), b.drop_first(), c.drop_first());
    }
}

/// Of two different texts one comes first, and not both.
pub proof fn lemma_seq_lt_total(a: Seq<char>, b: Seq<char>)
    ensures
        a == b || seq_lt(a, b) || seq_lt(b, a),
        !(seq_lt(a, b) && seq_lt(b, a)),
    decreases a.len(),
{
    if a.len() > 0 && b.len() > 0 && a[0] == b[0] {
        lemma_seq_lt_total(a.drop_first(), b.drop_first());
        if a.drop_first() == b.drop_first() {
            assert(a =~= seq![a[0]] + a.drop_first());
            assert(b =~= seq![b[0]] + b.drop_first());
        }
    } else if a.len() == 0 && b.len() == 0 {
        assert(a =~= b);
    } else if a.len() > 0 && b.len() > 0 {
        vstd::utf8::char_u32_cast(a[0], a[0] as u32);
        vstd::utf8::char_u32_cast(b[0], b[0] as u32);
        assert((a[0] as u32) != (b[0] as u32));
    }
}

/// Whether the tracks are in order of their keys: no track's key comes before
/// the key of a track ahead of it.
pub open spec fn keys_sorted(s: Seq<TrackView>) -> bool {
    forall|i: int, j: int| 0 <= i < j < s.len() ==> !seq_lt(#[trigger] track_key(s[j]), #[trigger] track_key(s[i]))
}

/// Where a stable insertion puts key `k` into the first `p` tracks of a sorted
/// list: every track from there on has a later key, and the track before it does not.
proof fn lemma_insert_pos_place(s: Seq<TrackView>, k: Seq<char>, p: int)
    requires
        0 <= p <= s.len(),
    ensures
        forall|i: int| insert_pos(s, k, p) <= i < p ==> seq_lt(k, #[trigger] track_key(s[i])),
        insert_pos(s, k, p) > 0 ==> !seq_lt(k, track_key(s[insert_pos(s, k, p) - 1])),
    decreases p,
{
    if p > 0 && seq_lt(k, track_key(s[p - 1])) {
        lemma_insert_pos_place(s, k, p - 1);
    }
}

/// Inserting a track where `insert_pos` says keeps a sorted list sorted.
proof fn lemma_insert_sorted(r: Seq<TrackView>, x: TrackView)
    requires
        keys_sorted(r),
    ensures
        keys_sorted(r.insert(insert_pos(r, track_key(x), r.len() as int), x)),
{
    let k = track_key(x);
    let p = insert_pos(r, k, r.len() as int);
    lemma_insert_pos_bounds(r, k, r.len() as int);
    lemma_insert_pos_place(r, k, r.len() as int);
    let t = r.insert(p, x);
    assert forall|i: int, j: int| 0 <= i < j < t.len() implies !seq_lt(#[trigger] track_key(t[j]), #[trigger] track_key(t[i])) by {
        if j < p {
            assert(t[i] == r[i] && t[j] == r[j]);
        } else if j == p {
            assert(t[i] == r[i]);
            let a = track_key(r[i]);
            let b = track_key(r[p - 1]);
            lemma_seq_lt_total(a, b);
            lemma_seq_lt_total(k, a);
            if i < p - 1 {
                assert(!seq_lt(track_key(r[p - 1]), track_key(r[i])));
            }
            if seq_lt(k, a) {
                if seq_lt(a, b) {
                    lemma_seq_lt_transitive(k, a, b);
                }
            }
        } else if i == p {
            assert(t[j] == r[j - 1]);
            assert(seq_lt(k, track_key(r[j - 1])));
            lemma_seq_lt_total(k, track_key(r[j - 1]));
        } else if i < p {
            assert(t[i] == r[i] && t[j] == r[j - 1]);
        } else {
            assert(t[i] == r[i - 1] && t[j] == r[j - 1]);
        }
    }
}

/// The library order: `sort_tracks` puts the tracks in order of their keys and
/// keeps every track, each as often as it came.
pub proof fn law_sort_tracks_sorted_permutation(s: Seq<TrackView>)
    ensures
        keys_sorted(sort_tracks(s)),
        sort_tracks(s).to_multiset() == s.to_multiset(),
    decreases s.len(),
{
    broadcast use vstd::seq_lib::group_to_multiset_ensures;
    if s.len() > 0 {
        law_sort_tracks_sorted_permutation(s.drop_last());
        let r = sort_tracks(s.drop_last());
        let k = track_key(s.last());
        lemma_insert_pos_bounds(r, k, r.len() as int);
        lemma_insert_sorted(r, s.last());
        vstd::seq_lib::to_multiset_insert(r, insert_pos(r, k, r.len() as int), s.last());
        assert(s =~= s.drop_last().push(s.last()));
    } else {
        assert(sort_tracks(s) == s);
    }
}

} // verus!
