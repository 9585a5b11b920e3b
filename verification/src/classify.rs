use vstd::prelude::*;
use crate::model::Error;

verus! {

/// The three loader categories an asset can fall in.
#[derive(PartialEq, Eq, Structural, Clone, Copy, Debug)]
pub enum AssetKind {
    StaticImage,
    AnimatedGif,
    DirectorySequence,
}

/// The byte 0x2F, the path separator `/`.
pub open spec fn slash() -> u8 {
    0x2F
}

/// The byte 0x2E, the extension separator `.`.
pub open spec fn dot() -> u8 {
    0x2E
}

/// The bytes of the literal extension `gif`.
pub open spec fn gif_ext() -> Seq<u8> {
    seq![0x67u8, 0x69u8, 0x66u8]
}

/// The greatest index at which `c` occurs in `s`, or -1 when it does not
/// occur at all.
pub open spec fn last_pos(s: Seq<u8>, c: u8) -> int
    decreases s.len(),
{
    if s.len() == 0 {
        -1
    } else if s[s.len() - 1] == c {
        s.len() - 1
    } else {
        last_pos(s.drop_last(), c)
    }
}

pub proof fn lemma_last_pos(s: Seq<u8>, c: u8)
    ensures
        -1 <= last_pos(s, c) < s.len(),
        last_pos(s, c) >= 0 ==> s[last_pos(s, c)] == c,
        forall|j: int| last_pos(s, c) < j < s.len() ==> s[j] != c,
    decreases s.len(),
{
    if s.len() > 0 && s[s.len() - 1] != c {
        lemma_last_pos(s.drop_last(), c);
        assert forall|j: int| last_pos(s, c) < j < s.len() implies s[j] != c by {
            if j < s.len() - 1 {
                assert(s.drop_last()[j] == s[j]);
            }
        }
    }
}

/// The file extension of a path: the part of the file name (what follows
/// the last `/`, or the whole path) after its last `.`. A file name with
/// no `.`, or whose only `.` begins it, has no extension.
pub open spec fn spec_extension(p: Seq<u8>) -> Option<Seq<u8>> {
    let name = p.skip(last_pos(p, slash()) + 1);
    let d = last_pos(name, dot());
    if d <= 0 {
        None
    } else {
        Some(name.skip(d + 1))
    }
}

/// Scan a range of `p` backwards for the last occurrence of `c`, returning
/// its index when the range holds one.
fn last_index_in(p: &Vec<u8>, from: usize, c: u8) -> (r: Option<usize>)
    requires
        from <= p@.len(),
    ensures
        match r {
            Some(i) => from <= i < p@.len() && last_pos(p@.skip(from as int), c) == i - from,
            None => last_pos(p@.skip(from as int), c) == -1,
        },
{
    proof {
        lemma_last_pos(p@.skip(from as int), c);
    }
    let mut k: usize = p.len();
    while k > from
        invariant
            from <= k <= p@.len(),
            forall|j: int| k <= j < p@.len() ==> p@[j] != c,
            -1 <= last_pos(p@.skip(from as int), c) < p@.skip(from as int).len(),
            last_pos(p@.skip(from as int), c) >= 0 ==> p@.skip(from as int)[last_pos(
                p@.skip(from as int),
                c,
            )] == c,
            forall|j: int|
                last_pos(p@.skip(from as int), c) < j < p@.skip(from as int).len() ==> p@.skip(
                    from as int,
                )[j] != c,
        decreases k,
    {
        k = k - 1;
        if p[k] == c {
            proof {
                let sk = p@.skip(from as int);
                assert(sk[k - from] == c);
                assert forall|j: int| k - from < j < sk.len() implies sk[j] != c by {
                    assert(sk[j] == p@[j + from]);
                }
                if last_pos(sk, c) > k - from {
                    assert(sk[last_pos(sk, c)] != c);
                }
                if last_pos(sk, c) < k - from {
                    assert(false);
                }
            }
            return Some(k);
        }
    }
    proof {
        let sk = p@.skip(from as int);
        if last_pos(sk, c) >= 0 {
            assert(p@[last_pos(sk, c) + from] == c);
        }
    }
    None
}

/// Extract the file extension of a path, as `spec_extension` describes it.
pub fn extension_of(p: &Vec<u8>) -> (r: Option<Vec<u8>>)
    ensures
        match r {
            Some(e) => spec_extension(p@) == Some(e@),
            None => spec_extension(p@) is None,
        },
{
    let n: usize = p.len();
    proof {
        assert(n == p@.len());
    }
    let name_start: usize = match last_index_in(p, 0, 0x2F) {
        Some(i) => {
            proof {
                assert(p@.skip(0) =~= p@);
            }
            i + 1
        },
        None => {
            proof {
                assert(p@.skip(0) =~= p@);
            }
            0
        },
    };
    match last_index_in(p, name_start, 0x2E) {
        Some(d) => {
            if d == name_start {
                None
            } else {
                let mut e: Vec<u8> = Vec::new();
                let mut i: usize = d + 1;
                while i < n
                    invariant
                        n == p@.len(),
                        d + 1 <= i <= p@.len(),
                        e@ =~= p@.subrange(d + 1, i as int),
                    decreases p@.len() - i,
                {
                    let b = p[i];
                    e.push(b);
                    i = i + 1;
                }
                proof {
                    let name = p@.skip(name_start as int);
                    assert(name.skip(d - name_start + 1) =~= p@.subrange(d + 1, p@.len() as int));
                    assert(e@ =~= name.skip(last_pos(name, dot()) + 1));
                }
                Some(e)
            }
        },
        None => None,
    }
}

/// Decide which loader handles an asset: a directory is a frame sequence,
/// a file whose extension is exactly `gif` is an animation, any other file
/// with an extension is a still image, and a file without an extension is
/// a classification error naming the path.
pub fn classify(is_dir: bool, path: &Vec<u8>) -> (r: Result<AssetKind, Error>)
    ensures
        is_dir ==> r == Ok::<AssetKind, Error>(AssetKind::DirectorySequence),
        !is_dir ==> match spec_extension(path@) {
            Some(e) => r == Ok::<AssetKind, Error>(
                if e == gif_ext() {
                    AssetKind::AnimatedGif
                } else {
                    AssetKind::StaticImage
                },
            ),
            None => r matches Err(Error::MissingExtension(p)) && p@ == path@,
        },
{
    if is_dir {
        return Ok(AssetKind::DirectorySequence);
    }
    match extension_of(path) {
        None => Err(Error::MissingExtension(path.clone())),
        Some(e) => {
            // the bytes of the literal "gif"
            let is_gif = e.len() == 3 && e[0] == 0x67 && e[1] == 0x69 && e[2] == 0x66;
            proof {
                if is_gif {
                    assert(e@ =~= gif_ext());
                } else {
                    assert(e@ !~= gif_ext());
                }
            }
            if is_gif {
                Ok(AssetKind::AnimatedGif)
            } else {
                Ok(AssetKind::StaticImage)
            }
        },
    }
}

} // verus!
