use vstd::prelude::*;

verus! {

/// Ascending lexicographic order on byte strings: `a` comes no later than
/// `b` when `a` is a prefix of `b` or the first differing byte is smaller.
pub open spec fn lex_le(a: Seq<u8>, b: Seq<u8>) -> bool
    decreases a.len(),
{
    if a.len() == 0 {
        true
    } else if b.len() == 0 {
        false
    } else if a[0] < b[0] {
        true
    } else if a[0] > b[0] {
        false
    } else {
        lex_le(a.drop_first(), b.drop_first())
    }
}

pub proof fn lemma_lex_refl(a: Seq<u8>)
    ensures
        lex_le(a, a),
    decreases a.len(),
{
    if a.len() > 0 {
        lemma_lex_refl(a.drop_first());
    }
}

pub proof fn lemma_lex_total(a: Seq<u8>, b: Seq<u8>)
    ensures
        lex_le(a, b) || lex_le(b, a),
    decreases a.len(),
{
    if a.len() > 0 && b.len() > 0 && a[0] == b[0] {
        lemma_lex_total(a.drop_first(), b.drop_first());
    }
}

pub proof fn lemma_lex_trans(a: Seq<u8>, b: Seq<u8>, c: Seq<u8>)
    requires
        lex_le(a, b),
        lex_le(b, c),
    ensures
        lex_le(a, c),
    decreases a.len(),
{
    if a.len() > 0 && b.len() > 0 && c.len() > 0 && a[0] == b[0] && b[0] == c[0] {
        lemma_lex_trans(a.drop_first(), b.drop_first(), c.drop_first());
    }
}

pub proof fn lemma_lex_antisym(a: Seq<u8>, b: Seq<u8>)
    requires
        lex_le(a, b),
        lex_le(b, a),
    ensures
        a == b,
    decreases a.len(),
{
    if a.len() == 0 {
        assert(b.len() == 0);
        assert(a =~= b);
    } else {
        assert(b.len() > 0);
        assert(a[0] == b[0]);
        lemma_lex_antisym(a.drop_first(), b.drop_first());
        assert forall|k: int| 0 <= k < a.len() implies a[k] == b[k] by {
            if k > 0 {
                assert(a[k] == a.drop_first()[k - 1]);
                assert(b[k] == b.drop_first()[k - 1]);
            }
        }
        assert(a =~= b);
    }
}

/// Two byte strings that agree on their first `i` bytes compare the same
/// way as their tails past `i`.
proof fn lemma_lex_skip(a: Seq<u8>, b: Seq<u8>, i: int)
    requires
        0 <= i <= a.len(),
        i <= b.len(),
        forall|j: int| 0 <= j < i ==> a[j] == b[j],
    ensures
        lex_le(a, b) == lex_le(a.skip(i), b.skip(i)),
    decreases i,
{
    if i == 0 {
        assert(a.skip(0) =~= a);
        assert(b.skip(0) =~= b);
    } else {
        assert(a.drop_first().skip(i - 1) =~= a.skip(i));
        assert(b.drop_first().skip(i - 1) =~= b.skip(i));
        lemma_lex_skip(a.drop_first(), b.drop_first(), i - 1);
    }
}

/// Decide lexicographic order on byte vectors.
pub fn lex_le_bytes(a: &Vec<u8>, b: &Vec<u8>) -> (r: bool)
    ensures
        r == lex_le(a@, b@),
{
    let mut i: usize = 0;
    loop
        invariant
            i <= a@.len(),
            i <= b@.len(),
            forall|j: int| 0 <= j < i ==> a@[j] == b@[j],
        decreases a@.len() - i,
    {
        proof {
            lemma_lex_skip(a@, b@, i as int);
        }
        if i >= a.len() {
            return true;
        }
        if i >= b.len() {
            return false;
        }
        let x = a[i];
        let y = b[i];
        if x != y {
            return x < y;
        }
        i = i + 1;
    }
}

/// A directory listing entry handed to the sequence loader: the entry's
/// full path, then the bytes of the file it names.
pub open spec fn entries_sorted(s: Seq<(Vec<u8>, Vec<u8>)>) -> bool {
    forall|i: int, j: int| 0 <= i < j < s.len() ==> lex_le(s[i].0@, s[j].0@)
}

/// Sort directory entries by their full path in ascending lexicographic
/// order. The result holds exactly the entries given, reordered; the order
/// of the result does not depend on the order of the input.
pub fn sort_entries(input: Vec<(Vec<u8>, Vec<u8>)>) -> (out: Vec<(Vec<u8>, Vec<u8>)>)
    ensures
        entries_sorted(out@),
        out@.to_multiset() == input@.to_multiset(),
        out@.len() == input@.len(),
{
    broadcast use vstd::seq_lib::group_to_multiset_ensures;
    broadcast use vstd::multiset::group_multiset_axioms;

    let ghost orig = input@;
    let mut v = input;
    let mut out: Vec<(Vec<u8>, Vec<u8>)> = Vec::new();
    while v.len() > 0
        invariant
            out@.to_multiset().add(v@.to_multiset()) =~= orig.to_multiset(),
            out@.len() + v@.len() == orig.len(),
            entries_sorted(out@),
            forall|i: int, j: int|
                0 <= i < out@.len() && 0 <= j < v@.len() ==> lex_le(out@[i].0@, v@[j].0@),
        decreases v@.len(),
    {
        let mut m: usize = 0;
        let mut k: usize = 1;
        proof {
            lemma_lex_refl(v@[0].0@);
        }
        while k < v.len()
            invariant
                m < k,
                k <= v@.len(),
                v@.len() > 0,
                forall|j: int| 0 <= j < k ==> lex_le(v@[m as int].0@, v@[j].0@),
            decreases v@.len() - k,
        {
            if lex_le_bytes(&v[k].0, &v[m].0) {
                proof {
                    assert forall|j: int| 0 <= j < k implies lex_le(v@[k as int].0@, v@[j].0@) by {
                        lemma_lex_trans(v@[k as int].0@, v@[m as int].0@, v@[j].0@);
                    }
                    lemma_lex_refl(v@[k as int].0@);
                }
                m = k;
            } else {
                proof {
                    lemma_lex_total(v@[k as int].0@, v@[m as int].0@);
                }
            }
            k = k + 1;
        }
        let ghost v_before = v@;
        let e = v.remove(m);
        proof {
            v_before.to_multiset_ensures();
            out@.to_multiset_ensures();
            assert(e == v_before[m as int]);
            assert(v@ == v_before.remove(m as int));
            assert(v@.to_multiset() =~= v_before.remove(m as int).to_multiset());
            assert(v@.to_multiset() =~= v_before.to_multiset().remove(e));
            assert(out@.push(e).to_multiset() =~= out@.to_multiset().insert(e));
            assert(v_before.contains(e));
            assert(v_before.to_multiset().count(e) > 0);
            assert(out@.push(e).to_multiset().add(v@.to_multiset()) =~= orig.to_multiset());
        }
        out.push(e);
    }
    proof {
        assert(out@.to_multiset() =~= orig.to_multiset());
    }
    out
}

} // verus!
