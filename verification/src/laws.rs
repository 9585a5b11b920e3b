use vstd::prelude::*;
use crate::load::{dir_frames_ok, frames_ok, image_ok};
use crate::order::{entries_sorted, lemma_lex_antisym, lex_le};

verus! {

/// No two entries of a directory listing share a full path; a directory's
/// direct entries always satisfy this.
pub open spec fn paths_distinct(s: Seq<(Vec<u8>, Vec<u8>)>) -> bool {
    forall|i: int, j: int|
        0 <= i < j < s.len() ==> (#[trigger] s[i]).0@ != (#[trigger] s[j]).0@
}

/// A value found at two positions of a sequence is counted at least twice.
proof fn lemma_count_two(s: Seq<(Vec<u8>, Vec<u8>)>, i: int, j: int)
    requires
        0 <= i < j < s.len(),
        s[i] == s[j],
    ensures
        s.to_multiset().count(s[i]) >= 2,
{
    s.to_multiset_ensures();
    let t = s.remove(i);
    t.to_multiset_ensures();
    assert(t[j - 1] == s[j]);
    assert(t.contains(s[j]));
    assert(t.to_multiset() =~= s.to_multiset().remove(s[i]));
    vstd::seq_lib::to_multiset_contains(t, s[j]);
}

/// A value counted at least twice is found at two positions.
proof fn lemma_two_indices(s: Seq<(Vec<u8>, Vec<u8>)>, x: (Vec<u8>, Vec<u8>))
    requires
        s.to_multiset().count(x) >= 2,
    ensures
        exists|i: int, j: int| 0 <= i < j < s.len() && s[i] == x && s[j] == x,
{
    s.to_multiset_ensures();
    vstd::seq_lib::to_multiset_contains(s, x);
    assert(s.contains(x));
    let i = choose|i: int| 0 <= i < s.len() && s[i] == x;
    let t = s.remove(i);
    t.to_multiset_ensures();
    assert(t.to_multiset() =~= s.to_multiset().remove(x));
    assert(t.to_multiset().count(x) >= 1);
    vstd::seq_lib::to_multiset_contains(t, x);
    assert(t.contains(x));
    let k = choose|k: int| 0 <= k < t.len() && t[k] == x;
    if k < i {
        assert(s[k] == x);
        assert(0 <= k < i < s.len() && s[k] == x && s[i] == x);
    } else {
        assert(s[k + 1] == x);
        assert(0 <= i < k + 1 < s.len() && s[i] == x && s[k + 1] == x);
    }
}

/// Path distinctness only speaks of which entries are present, so it
/// carries over to any reordering.
proof fn lemma_paths_distinct_permuted(a: Seq<(Vec<u8>, Vec<u8>)>, b: Seq<(Vec<u8>, Vec<u8>)>)
    requires
        paths_distinct(a),
        a.to_multiset() == b.to_multiset(),
    ensures
        paths_distinct(b),
{
    assert forall|i: int, j: int|
        0 <= i < j < b.len() implies (#[trigger] b[i]).0@ != (#[trigger] b[j]).0@ by {
        a.to_multiset_ensures();
        b.to_multiset_ensures();
        if b[i] == b[j] {
            lemma_count_two(b, i, j);
            lemma_two_indices(a, b[i]);
        } else {
            assert(b.contains(b[i]) && b.contains(b[j]));
            vstd::seq_lib::to_multiset_contains(b, b[i]);
            vstd::seq_lib::to_multiset_contains(b, b[j]);
            vstd::seq_lib::to_multiset_contains(a, b[i]);
            vstd::seq_lib::to_multiset_contains(a, b[j]);
            assert(a.contains(b[i]) && a.contains(b[j]));
            let k = choose|k: int| 0 <= k < a.len() && a[k] == b[i];
            let l = choose|l: int| 0 <= l < a.len() && a[l] == b[j];
            assert(k != l);
        }
    }
}

/// Directory-sequence ordering is deterministic: two orderings of the same
/// entries that are both ascending in the full path are the same ordering,
/// however the filesystem listed the entries. Holds whenever no two
/// entries share a path, as a directory's direct entries never do.
pub proof fn lemma_sorted_entries_unique(s1: Seq<(Vec<u8>, Vec<u8>)>, s2: Seq<(Vec<u8>, Vec<u8>)>)
    requires
        entries_sorted(s1),
        entries_sorted(s2),
        s1.to_multiset() == s2.to_multiset(),
        paths_distinct(s1),
    ensures
        s1 == s2,
    decreases s1.len(),
{
    s1.to_multiset_ensures();
    s2.to_multiset_ensures();
    if s1.len() == 0 {
        assert(s2.len() == 0);
        assert(s1 =~= s2);
    } else {
        assert(s2.len() == s1.len());
        let a = s1[0];
        let b = s2[0];
        vstd::seq_lib::to_multiset_contains(s1, b);
        vstd::seq_lib::to_multiset_contains(s2, a);
        vstd::seq_lib::to_multiset_contains(s1, a);
        vstd::seq_lib::to_multiset_contains(s2, b);
        assert(s1.contains(a));
        assert(s2.contains(b));
        assert(s1.contains(b) && s2.contains(a));
        let i = choose|i: int| 0 <= i < s1.len() && s1[i] == b;
        let j = choose|j: int| 0 <= j < s2.len() && s2[j] == a;
        if i == 0 {
            assert(a == b);
        } else if j == 0 {
            assert(a == b);
        } else {
            assert(lex_le(s1[0].0@, s1[i].0@));
            assert(lex_le(s2[0].0@, s2[j].0@));
            lemma_lex_antisym(a.0@, b.0@);
            assert(a.0@ == b.0@);
            assert(s1[0].0@ == s1[i].0@);
            assert(false);
        }
        let t1 = s1.drop_first();
        let t2 = s2.drop_first();
        assert(t1 =~= s1.remove(0));
        assert(t2 =~= s2.remove(0));
        assert(t1.to_multiset() =~= s1.to_multiset().remove(a));
        assert(t2.to_multiset() =~= s2.to_multiset().remove(b));
        assert(t1.to_multiset() == t2.to_multiset());
        assert(entries_sorted(t1)) by {
            assert forall|p: int, q: int|
                0 <= p < q < t1.len() implies lex_le((#[trigger] t1[p]).0@, (#[trigger] t1[q]).0@) by {
                assert(t1[p] == s1[p + 1] && t1[q] == s1[q + 1]);
            }
        }
        assert(entries_sorted(t2)) by {
            assert forall|p: int, q: int|
                0 <= p < q < t2.len() implies lex_le((#[trigger] t2[p]).0@, (#[trigger] t2[q]).0@) by {
                assert(t2[p] == s2[p + 1] && t2[q] == s2[q + 1]);
            }
        }
        assert(paths_distinct(t1)) by {
            assert forall|p: int, q: int|
                0 <= p < q < t1.len() implies (#[trigger] t1[p]).0@ != (#[trigger] t1[q]).0@ by {
                assert(t1[p] == s1[p + 1] && t1[q] == s1[q + 1]);
            }
        }
        lemma_sorted_entries_unique(t1, t2);
        assert forall|k: int| 0 <= k < s1.len() implies s1[k] == s2[k] by {
            if k > 0 {
                assert(s1[k] == t1[k - 1]);
                assert(s2[k] == t2[k - 1]);
            }
        }
        assert(s1 =~= s2);
    }
}

/// Loading a still image is deterministic: any two images that satisfy the
/// still-image contract for the same name, bytes and target dimensions
/// carry the same name and the same pixels.
pub proof fn lemma_still_load_deterministic(
    name: Seq<char>,
    bytes: Seq<u8>,
    width: u32,
    height: u32,
    img1: crate::model::Image,
    img2: crate::model::Image,
)
    requires
        image_ok(name, bytes, width, height, img1),
        image_ok(name, bytes, width, height, img2),
    ensures
        img1.name@ == img2.name@,
        img1.pixels@ == img2.pixels@,
{
}

/// Loading an animation is deterministic: any two frame lists that satisfy
/// the frame contract for the same sources and target dimensions agree,
/// frame by frame, on names and pixels.
pub proof fn lemma_animation_load_deterministic(
    base: Seq<char>,
    sources: Seq<(u16, u16, Seq<u8>)>,
    width: u32,
    height: u32,
    frames1: Seq<crate::model::Image>,
    frames2: Seq<crate::model::Image>,
)
    requires
        frames_ok(base, sources, width, height, frames1),
        frames_ok(base, sources, width, height, frames2),
    ensures
        frames1.len() == frames2.len(),
        forall|i: int|
            0 <= i < frames1.len() ==> (#[trigger] frames1[i]).name@ == frames2[i].name@
                && frames1[i].pixels@ == frames2[i].pixels@,
{
}

/// Loading a directory sequence is deterministic: for entries with
/// pairwise distinct paths, any two frame lists loaded from some sorted
/// ordering of them agree, frame by frame, on names and pixels.
pub proof fn lemma_dir_load_deterministic(
    base: Seq<char>,
    entries: Seq<(Vec<u8>, Vec<u8>)>,
    width: u32,
    height: u32,
    frames1: Seq<crate::model::Image>,
    frames2: Seq<crate::model::Image>,
)
    requires
        paths_distinct(entries),
        exists|s: Seq<(Vec<u8>, Vec<u8>)>|
            entries_sorted(s) && s.to_multiset() == entries.to_multiset() && #[trigger] dir_frames_ok(
                base,
                s,
                width,
                height,
                frames1,
            ),
        exists|s: Seq<(Vec<u8>, Vec<u8>)>|
            entries_sorted(s) && s.to_multiset() == entries.to_multiset() && #[trigger] dir_frames_ok(
                base,
                s,
                width,
                height,
                frames2,
            ),
    ensures
        frames1.len() == frames2.len(),
        forall|i: int|
            0 <= i < frames1.len() ==> (#[trigger] frames1[i]).name@ == frames2[i].name@
                && frames1[i].pixels@ == frames2[i].pixels@,
{
    let s1 = choose|s: Seq<(Vec<u8>, Vec<u8>)>|
        entries_sorted(s) && s.to_multiset() == entries.to_multiset() && #[trigger] dir_frames_ok(
            base,
            s,
            width,
            height,
            frames1,
        );
    let s2 = choose|s: Seq<(Vec<u8>, Vec<u8>)>|
        entries_sorted(s) && s.to_multiset() == entries.to_multiset() && #[trigger] dir_frames_ok(
            base,
            s,
            width,
            height,
            frames2,
        );
    lemma_paths_distinct_permuted(entries, s1);
    lemma_sorted_entries_unique(s1, s2);
    assert forall|i: int|
        0 <= i < frames1.len() implies (#[trigger] frames1[i]).name@ == frames2[i].name@
        && frames1[i].pixels@ == frames2[i].pixels@ by {
        assert(image_ok(
            crate::text::frame_label(base, i),
            (#[trigger] s1[i]).1@,
            width,
            height,
            frames1[i],
        ));
        assert(image_ok(crate::text::frame_label(base, i), s2[i].1@, width, height, frames2[i]));
    }
}

} // verus!
