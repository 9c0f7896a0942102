use vstd::prelude::*;
use vstd::relations::{sorted_by, total_ordering};
use vstd::seq_lib::lemma_sorted_unique;

verus! {

/// The `i`-th 16-bit word of a digest, read little-endian.
pub open spec fn word_at(d: Seq<u8>, i: int) -> u16 {
    (d[2 * i] as int + 256 * d[2 * i + 1] as int) as u16
}

/// A 16-byte digest seen as its eight 16-bit words.
pub open spec fn words_of(d: Seq<u8>) -> Seq<u16> {
    Seq::new(8, |i: int| word_at(d, i))
}

/// Eight 16-bit words laid out little-endian as 16 bytes.
pub open spec fn bytes_of(w: Seq<u16>) -> Seq<u8> {
    Seq::new(16, |k: int| if k % 2 == 0 { (w[k / 2] % 256) as u8 } else { (w[k / 2] / 256) as u8 })
}

pub open spec fn word_leq(a: u16, b: u16) -> bool {
    a <= b
}

pub open spec fn sorted_words(w: Seq<u16>) -> bool {
    forall|i: int, j: int| 0 <= i < j < w.len() ==> w[i] <= w[j]
}

/// The canonical form of a digest: its words sorted ascending.
pub open spec fn canonical_spec(d: Seq<u8>) -> Seq<u8> {
    bytes_of(words_of(d).sort_by(|a: u16, b: u16| word_leq(a, b)))
}

proof fn lemma_word_leq_total()
    ensures
        total_ordering(|a: u16, b: u16| word_leq(a, b)),
{
}

/// The sorted arrangement of a word sequence is the only sorted sequence
/// holding the same words.
proof fn lemma_sorted_is_sort_by(w: Seq<u16>, s: Seq<u16>)
    requires
        sorted_words(s),
        s.to_multiset() == w.to_multiset(),
    ensures
        s == w.sort_by(|a: u16, b: u16| word_leq(a, b)),
{
    let leq = |a: u16, b: u16| word_leq(a, b);
    lemma_word_leq_total();
    w.lemma_sort_by_ensures(leq);
    assert(sorted_by(s, leq));
    lemma_sorted_unique(s, w.sort_by(leq), leq);
}

/// Digests whose words are rearrangements of one another have one
/// canonical form.
pub proof fn lemma_permuted_digests_canonicalize_equal(a: Seq<u8>, b: Seq<u8>)
    requires
        words_of(a).to_multiset() == words_of(b).to_multiset(),
    ensures
        canonical_spec(a) == canonical_spec(b),
{
    let leq = |x: u16, y: u16| word_leq(x, y);
    lemma_word_leq_total();
    words_of(a).lemma_sort_by_ensures(leq);
    words_of(b).lemma_sort_by_ensures(leq);
    lemma_sorted_unique(words_of(a).sort_by(leq), words_of(b).sort_by(leq), leq);
}

fn decode_words(d: &[u8; 16]) -> (w: Vec<u16>)
    ensures
        w@ == words_of(d@),
{
    let mut w: Vec<u16> = Vec::new();
    let mut i: usize = 0;
    while i < 8
        invariant
            0 <= i <= 8,
            d@.len() == 16,
            w@.len() == i,
            forall|k: int| 0 <= k < i ==> w@[k] == word_at(d@, k),
        decreases 8 - i,
    {
        let lo = d[2 * i] as u16;
        let hi = d[2 * i + 1] as u16;
        w.push(lo + 256 * hi);
        i = i + 1;
    }
    assert(w@ =~= words_of(d@));
    w
}

fn encode_words(w: &Vec<u16>) -> (d: [u8; 16])
    requires
        w@.len() == 8,
    ensures
        d@ == bytes_of(w@),
{
    let mut d: [u8; 16] = [0u8; 16];
    let mut i: usize = 0;
    while i < 8
        invariant
            0 <= i <= 8,
            w@.len() == 8,
            d@.len() == 16,
            forall|k: int| 0 <= k < 2 * i ==> d@[k] == bytes_of(w@)[k],
        decreases 8 - i,
    {
        let x = w[i];
        d[2 * i] = (x % 256) as u8;
        d[2 * i + 1] = (x / 256) as u8;
        assert forall|k: int| 0 <= k < 2 * (i + 1) implies d@[k] == bytes_of(w@)[k] by {
            if k >= 2 * i {
                assert(k / 2 == i);
            }
        }
        i = i + 1;
    }
    assert(d@ =~= bytes_of(w@));
    d
}

/// Sorts the words ascending by selection.
fn sort_words(w: &mut Vec<u16>)
    ensures
        sorted_words(final(w)@),
        final(w)@.to_multiset() == old(w)@.to_multiset(),
        final(w)@.len() == old(w)@.len(),
{
    broadcast use vstd::multiset::group_multiset_axioms;

    let n = w.len();
    let mut i: usize = 0;
    while i < n
        invariant
            n == w@.len(),
            0 <= i <= n,
            w@.to_multiset() == old(w)@.to_multiset(),
            forall|a: int, b: int| 0 <= a < b < i ==> w@[a] <= w@[b],
            forall|a: int, b: int| 0 <= a < i <= b < n ==> w@[a] <= w@[b],
        decreases n - i,
    {
        let mut m: usize = i;
        let mut j: usize = i + 1;
        while j < n
            invariant
                n == w@.len(),
                i <= m < n,
                i < j <= n,
                forall|k: int| i <= k < j ==> w@[m as int] <= w@[k],
            decreases n - j,
        {
            if w[j] < w[m] {
                m = j;
            }
            j = j + 1;
        }
        let a = w[i];
        let b = w[m];
        let ghost before = w@;
        w.set(i, b);
        w.set(m, a);
        proof {
            let mid = before.update(i as int, b);
            vstd::seq_lib::to_multiset_update(before, i as int, b);
            vstd::seq_lib::to_multiset_update(mid, m as int, a);
            assert(before[i as int] == a && before[m as int] == b);
            assert(before.contains(b));
            vstd::seq_lib::to_multiset_contains(before, b);
            assert(before.to_multiset().count(b) > 0);
            assert(w@ == mid.update(m as int, a));
            assert(mid[m as int] == b);
            assert(before.contains(a));
            vstd::seq_lib::to_multiset_contains(before, a);
            let m0 = before.to_multiset();
            assert forall|x: u16| w@.to_multiset().count(x) == m0.count(x) by {
                if x == a && x == b {
                } else if x == a {
                } else if x == b {
                }
            }
            assert(w@.to_multiset() =~= m0);
        }
        i = i + 1;
    }
}

/// Puts a digest in canonical form: its eight little-endian 16-bit words
/// sorted ascending.
pub fn canonicalize(digest: &[u8; 16]) -> (r: [u8; 16])
    ensures
        r@ == canonical_spec(digest@),
        sorted_words(words_of(r@)),
        words_of(r@).to_multiset() == words_of(digest@).to_multiset(),
{
    let mut w = decode_words(digest);
    let ghost w0 = w@;
    sort_words(&mut w);
    proof {
        lemma_sorted_is_sort_by(w0, w@);
    }
    let r = encode_words(&w);
    proof {
        assert forall|i: int| 0 <= i < 8 implies word_at(r@, i) == w@[i] by {
            let x = w@[i];
            assert(r@[2 * i] == (x % 256) as u8);
            assert(r@[2 * i + 1] == (x / 256) as u8);
        }
        assert(words_of(r@) =~= w@);
    }
    r
}

} // verus!
