//! Finding files whose content was seen before: each file is known by the
//! SHA3-256 digest of its bytes, images and videos apart.

use vstd::prelude::*;
use crate::naming::MediaKind;

verus! {

/// The SHA3-256 digest of a byte string.
pub uninterp spec fn sha3_256(data: Seq<u8>) -> Seq<u8>;

/// `sha3::Sha3_256::digest`: Verus takes the result to be `sha3_256` of the
/// bytes, 32 bytes long (the output size of the type). Nothing else of the
/// hash function is stated.
#[verifier::external_body]
fn digest_of(data: &[u8]) -> (d: Vec<u8>)
    ensures
        d@ == sha3_256(data@),
        d@.len() == 32,
{
    <sha3::Sha3_256 as sha3::Digest>::digest(data).to_vec()
}

/// The digest of `data` (SHA3-256).
pub fn content_digest(data: &[u8]) -> (d: Vec<u8>)
    ensures
        d@ == sha3_256(data@),
        d@.len() == 32,
{
    digest_of(data)
}

/// One step of duplicate detection on a set of digests seen so far: whether
/// the digest is new, and the set afterwards.
pub open spec fn observe(seen: Set<Seq<u8>>, d: Seq<u8>) -> (bool, Set<Seq<u8>>) {
    (!seen.contains(d), seen.insert(d))
}

/// The set after recording all of `ds`, one after the other.
pub open spec fn observe_all(seen: Set<Seq<u8>>, ds: Seq<Seq<u8>>) -> Set<Seq<u8>>
    decreases ds.len(),
{
    if ds.len() == 0 {
        seen
    } else {
        observe_all(seen, ds.drop_last()).insert(ds.last())
    }
}

/// Whether the `i`th of `ds` is new when all of them are recorded in order.
pub open spec fn observed_fresh(seen: Set<Seq<u8>>, ds: Seq<Seq<u8>>, i: int) -> bool {
    observe(observe_all(seen, ds.take(i)), ds[i]).0
}

proof fn lemma_observe_all(seen: Set<Seq<u8>>, ds: Seq<Seq<u8>>, d: Seq<u8>)
    ensures
        observe_all(seen, ds).contains(d) <==> (seen.contains(d) || ds.contains(d)),
    decreases ds.len(),
{
    if ds.len() > 0 {
        lemma_observe_all(seen, ds.drop_last(), d);
        if ds.drop_last().contains(d) {
            let k = choose|k: int| 0 <= k < ds.drop_last().len() && ds.drop_last()[k] == d;
            assert(ds[k] == d);
        }
        if ds.contains(d) && d != ds.last() {
            let k = choose|k: int| 0 <= k < ds.len() && ds[k] == d;
            assert(ds.drop_last()[k] == d);
        }
        if d == ds.last() {
            assert(ds[ds.len() - 1] == d);
        }
    }
}

/// A file is taken for a duplicate exactly when a file before it, or one
/// already seen, had the same content.
pub proof fn law_duplicate_iff_seen_before(seen: Set<Seq<u8>>, ds: Seq<Seq<u8>>, i: int)
    requires
        0 <= i < ds.len(),
    ensures
        !observed_fresh(seen, ds, i) <==> (seen.contains(ds[i]) || exists|j: int|
            0 <= j < i && ds[j] == ds[i]),
{
    lemma_observe_all(seen, ds.take(i), ds[i]);
    if ds.take(i).contains(ds[i]) {
        let k = choose|k: int| 0 <= k < ds.take(i).len() && ds.take(i)[k] == ds[i];
        assert(ds[k] == ds[i]);
    }
    if exists|j: int| 0 <= j < i && ds[j] == ds[i] {
        let j = choose|j: int| 0 <= j < i && ds[j] == ds[i];
        assert(ds.take(i)[j] == ds[i]);
    }
}

fn bytes_equal(a: &Vec<u8>, b: &Vec<u8>) -> (r: bool)
    ensures
        r == (a@ == b@),
{
    if a.len() != b.len() {
        return false;
    }
    let mut i: usize = 0;
    while i < a.len()
        invariant
            a.len() == b.len(),
            i <= a.len(),
            forall|j: int| 0 <= j < i ==> a@[j] == b@[j],
        decreases a.len() - i,
    {
        if a[i] != b[i] {
            return false;
        }
        i = i + 1;
    }
    assert(a@ =~= b@);
    true
}

/// The digests of a list, as a set.
pub open spec fn digest_set(list: Seq<Vec<u8>>) -> Set<Seq<u8>> {
    Set::new(|d: Seq<u8>| exists|i: int| 0 <= i < list.len() && list[i]@ == d)
}

/// No digest occurs twice in the list.
pub open spec fn distinct_digests(list: Seq<Vec<u8>>) -> bool {
    forall|i: int, j: int| 0 <= i < list.len() && 0 <= j < list.len() && i != j ==> list[i]@ != list[j]@
}

fn list_has(list: &Vec<Vec<u8>>, d: &Vec<u8>) -> (r: bool)
    ensures
        r == digest_set(list@).contains(d@),
{
    let mut i: usize = 0;
    while i < list.len()
        invariant
            i <= list.len(),
            forall|j: int| 0 <= j < i ==> list@[j]@ != d@,
        decreases list.len() - i,
    {
        if bytes_equal(&list[i], d) {
            return true;
        }
        i = i + 1;
    }
    false
}

/// Adds `d` to the list unless it is there; says whether it was new.
fn list_observe(list: &mut Vec<Vec<u8>>, d: Vec<u8>) -> (fresh: bool)
    requires
        distinct_digests(old(list)@),
    ensures
        distinct_digests(final(list)@),
        (fresh, digest_set(final(list)@)) == observe(digest_set(old(list)@), d@),
{
    let ghost dv = d@;
    if list_has(list, &d) {
        assert(digest_set(old(list)@).insert(dv) =~= digest_set(old(list)@));
        false
    } else {
        list.push(d);
        assert(digest_set(list@) =~= digest_set(old(list)@).insert(dv)) by {
            assert forall|x: Seq<u8>| digest_set(list@).contains(x) implies digest_set(old(list)@).insert(dv).contains(x) by {
                let i = choose|i: int| 0 <= i < list@.len() && list@[i]@ == x;
                if i < old(list)@.len() {
                    assert(old(list)@[i]@ == x);
                }
            }
            assert forall|x: Seq<u8>| digest_set(old(list)@).insert(dv).contains(x) implies digest_set(list@).contains(x) by {
                if x == dv {
                    assert(list@[old(list)@.len() as int]@ == x);
                } else {
                    let i = choose|i: int| 0 <= i < old(list)@.len() && old(list)@[i]@ == x;
                    assert(list@[i]@ == x);
                }
            }
        }
        assert forall|i: int, j: int| 0 <= i < list@.len() && 0 <= j < list@.len() && i != j implies list@[i]@ != list@[j]@ by {
            if i == old(list)@.len() {
                assert(!digest_set(old(list)@).contains(dv));
                assert(old(list)@[j]@ != dv);
            } else if j == old(list)@.len() {
                assert(!digest_set(old(list)@).contains(dv));
                assert(old(list)@[i]@ != dv);
            } else {
                assert(old(list)@[i]@ != old(list)@[j]@);
            }
        }
        true
    }
}

/// The digests seen so far, images and videos apart.
#[derive(Debug)]
pub struct DuplicateTracker {
    images: Vec<Vec<u8>>,
    videos: Vec<Vec<u8>>,
}

impl DuplicateTracker {
    #[verifier::type_invariant]
    spec fn keys_unique(&self) -> bool {
        distinct_digests(self.images@) && distinct_digests(self.videos@)
    }

    /// The digests seen so far for one kind of file.
    pub closed spec fn seen(&self, kind: MediaKind) -> Set<Seq<u8>> {
        match kind {
            MediaKind::Image => digest_set(self.images@),
            MediaKind::Video => digest_set(self.videos@),
        }
    }

    /// Nothing seen yet.
    pub fn new() -> (t: DuplicateTracker)
        ensures
            t.seen(MediaKind::Image) == Set::<Seq<u8>>::empty(),
            t.seen(MediaKind::Video) == Set::<Seq<u8>>::empty(),
    {
        let t = DuplicateTracker { images: Vec::new(), videos: Vec::new() };
        assert(t.seen(MediaKind::Image) =~= Set::<Seq<u8>>::empty());
        assert(t.seen(MediaKind::Video) =~= Set::<Seq<u8>>::empty());
        t
    }

    /// Records a digest for one kind of file; says whether it is new.
    pub fn record(&mut self, kind: MediaKind, digest: Vec<u8>) -> (fresh: bool)
        ensures
            (fresh, final(self).seen(kind)) == observe(old(self).seen(kind), digest@),
            forall|k: MediaKind| k != kind ==> final(self).seen(k) == old(self).seen(k),
    {
        proof {
            use_type_invariant(&*self);
        }
        let mut images: Vec<Vec<u8>> = Vec::new();
        let mut videos: Vec<Vec<u8>> = Vec::new();
        std::mem::swap(&mut images, &mut self.images);
        std::mem::swap(&mut videos, &mut self.videos);
        let fresh = match kind {
            MediaKind::Image => list_observe(&mut images, digest),
            MediaKind::Video => list_observe(&mut videos, digest),
        };
        self.images = images;
        self.videos = videos;
        fresh
    }

    /// Records a file's content by its digest; says whether it is new.
    pub fn record_content(&mut self, kind: MediaKind, content: &[u8]) -> (fresh: bool)
        ensures
            (fresh, final(self).seen(kind)) == observe(old(self).seen(kind), sha3_256(content@)),
            forall|k: MediaKind| k != kind ==> final(self).seen(k) == old(self).seen(k),
    {
        let d = content_digest(content);
        self.record(kind, d)
    }
}

} // verus!
