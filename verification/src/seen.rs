//! The set of bytecodes that a run has seen.
//!
//! The texts are kept in buckets under a 64-bit fingerprint of their bytes,
//! so that a lookup compares a text only with those that share its
//! fingerprint.

use std::collections::HashMap;
use vstd::prelude::*;
use vstd::string::*;
use vstd::utf8::encode_utf8;

verus! {

broadcast use vstd::std_specs::hash::group_hash_axioms;

/// The fingerprint of a text: the FNV-1a hash of its bytes.
pub closed spec fn fingerprint(bytes: Seq<u8>) -> u64
    decreases bytes.len(),
{
    if bytes.len() == 0 {
        0xcbf2_9ce4_8422_2325
    } else {
        vstd::wrapping::u64_specs::wrapping_mul(
            fingerprint(bytes.drop_last()) ^ (bytes.last() as u64),
            0x0100_0000_01b3,
        )
    }
}

fn fingerprint_of(bytes: &[u8]) -> (h: u64)
    ensures
        h == fingerprint(bytes@),
{
    let n: usize = bytes.len();
    let mut h: u64 = 0xcbf2_9ce4_8422_2325;
    let mut i: usize = 0;
    assert(bytes@.take(0) =~= Seq::<u8>::empty());
    while i < n
        invariant
            n == bytes@.len(),
            i <= n,
            h == fingerprint(bytes@.take(i as int)),
        decreases n - i,
    {
        assert(bytes@.take(i + 1).drop_last() =~= bytes@.take(i as int));
        h = (h ^ (bytes[i] as u64)).wrapping_mul(0x0100_0000_01b3);
        i = i + 1;
    }
    assert(bytes@.take(n as int) =~= bytes@);
    h
}

/// The fingerprint under which a text is kept.
pub closed spec fn bucket_key(text: Seq<char>) -> u64 {
    fingerprint(encode_utf8(text))
}

/// One of the texts of the bucket is `text`.
pub open spec fn bucket_holds(bucket: Seq<String>, text: Seq<char>) -> bool {
    exists|i: int| 0 <= i < bucket.len() && (#[trigger] bucket[i])@ == text
}

/// A count as far as it fits: the largest count for anything above it.
pub open spec fn saturated(n: nat) -> usize {
    if n > usize::MAX {
        usize::MAX
    } else {
        n as usize
    }
}

fn scan(bucket: &Vec<String>, text: &String) -> (found: bool)
    ensures
        found == bucket_holds(bucket@, text@),
{
    let n: usize = bucket.len();
    let mut i: usize = 0;
    while i < n
        invariant
            n == bucket@.len(),
            i <= n,
            forall|j: int| 0 <= j < i ==> (#[trigger] bucket@[j])@ != text@,
        decreases n - i,
    {
        if bucket[i].eq(text) {
            return true;
        }
        i = i + 1;
    }
    false
}

/// A set of texts.
pub struct SeenSet {
    buckets: HashMap<u64, Vec<String>>,
    count: usize,
    items: Ghost<Set<Seq<char>>>,
}

impl View for SeenSet {
    type V = Set<Seq<char>>;

    closed spec fn view(&self) -> Set<Seq<char>> {
        self.items@
    }
}

impl SeenSet {
    /// The buckets hold exactly the texts of the set, each under its
    /// fingerprint, and the count is that of the set.
    pub closed spec fn wf(&self) -> bool {
        &&& self.items@.finite()
        &&& self.count == saturated(self.items@.len())
        &&& forall|k: u64, i: int|
            self.buckets@.contains_key(k) && 0 <= i < self.buckets@[k]@.len() ==> bucket_key(
                (#[trigger] self.buckets@[k]@[i])@,
            ) == k && self.items@.contains(self.buckets@[k]@[i]@)
        &&& forall|t: Seq<char>| #[trigger]
            self.items@.contains(t) ==> self.buckets@.contains_key(bucket_key(t)) && bucket_holds(
                self.buckets@[bucket_key(t)]@,
                t,
            )
    }

    /// The empty set.
    pub fn new() -> (set: SeenSet)
        ensures
            set.wf(),
            set@ == Set::<Seq<char>>::empty(),
    {
        SeenSet { buckets: HashMap::new(), count: 0, items: Ghost(Set::empty()) }
    }

    /// The number of texts in the set, as far as it fits a count.
    pub fn len(&self) -> (n: usize)
        requires
            self.wf(),
        ensures
            n == saturated(self@.len()),
            self@.finite(),
    {
        self.count
    }

    /// Whether the text is in the set.
    pub fn contains(&self, text: &String) -> (found: bool)
        requires
            self.wf(),
        ensures
            found == self@.contains(text@),
    {
        let k = fingerprint_of(text.as_str().as_bytes());
        match self.buckets.get(&k) {
            Some(bucket) => scan(bucket, text),
            None => false,
        }
    }

    /// Puts the text into the set; says whether it was new.
    pub fn insert(&mut self, text: String) -> (fresh: bool)
        requires
            old(self).wf(),
        ensures
            final(self).wf(),
            fresh == !old(self)@.contains(text@),
            final(self)@ == old(self)@.insert(text@),
    {
        if self.contains(&text) {
            assert(self.items@.insert(text@) =~= self.items@);
            return false;
        }
        let k = fingerprint_of(text.as_str().as_bytes());
        let ghost old_buckets = self.buckets@;
        let ghost old_items = self.items@;
        let ghost new_text = text@;
        let mut bucket = match self.buckets.remove(&k) {
            Some(b) => b,
            None => Vec::new(),
        };
        let ghost old_bucket = bucket@;
        bucket.push(text);
        let ghost new_bucket = bucket@;
        self.buckets.insert(k, bucket);
        self.items = Ghost(old_items.insert(new_text));
        if self.count < usize::MAX {
            self.count = self.count + 1;
        }
        proof {
            assert(self.buckets@ =~= old_buckets.insert(k, self.buckets@[k]));
            assert(self.buckets@[k]@ == new_bucket);
            assert forall|k2: u64, i: int|
                self.buckets@.contains_key(k2) && 0 <= i < self.buckets@[k2]@.len() implies bucket_key(
                (#[trigger] self.buckets@[k2]@[i])@,
            ) == k2 && self.items@.contains(self.buckets@[k2]@[i]@) by {
                if k2 == k {
                    if i < old_bucket.len() {
                        assert(new_bucket[i] == old_bucket[i]);
                        assert(old_buckets.contains_key(k));
                        assert(old_buckets[k]@[i] == old_bucket[i]);
                    }
                } else {
                    assert(old_buckets.contains_key(k2));
                    assert(self.buckets@[k2] == old_buckets[k2]);
                }
            }
            assert forall|t: Seq<char>| #[trigger]
                self.items@.contains(t) implies self.buckets@.contains_key(bucket_key(t))
                && bucket_holds(self.buckets@[bucket_key(t)]@, t) by {
                if t == new_text {
                    assert(new_bucket[new_bucket.len() - 1]@ == t);
                } else {
                    assert(old_items.contains(t));
                    let kt = bucket_key(t);
                    assert(old_buckets.contains_key(kt));
                    if kt == k {
                        let j = choose|j: int|
                            0 <= j < old_bucket.len() && (#[trigger] old_bucket[j])@ == t;
                        assert(new_bucket[j]@ == t);
                    } else {
                        assert(self.buckets@[kt] == old_buckets[kt]);
                    }
                }
            }
        }
        true
    }

    /// Empties the set.
    pub fn clear(&mut self)
        ensures
            final(self).wf(),
            final(self)@ == Set::<Seq<char>>::empty(),
    {
        self.buckets.clear();
        self.count = 0;
        self.items = Ghost(Set::empty());
    }
}

} // verus!
