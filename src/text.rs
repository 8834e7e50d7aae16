//! Character-sequence comparison of names.
use core::cmp::Ordering;
use vstd::prelude::*;

verus! {

/// Lexicographic order on the characters of `a` and `b`, from position `i` on.
pub open spec fn text_cmp_from(a: Seq<char>, b: Seq<char>, i: nat) -> Ordering
    decreases a.len() - i,
{
    if i >= a.len() {
        if i >= b.len() {
            Ordering::Equal
        } else {
            Ordering::Less
        }
    } else if i >= b.len() {
        Ordering::Greater
    } else if (a[i as int] as int) < (b[i as int] as int) {
        Ordering::Less
    } else if (a[i as int] as int) > (b[i as int] as int) {
        Ordering::Greater
    } else {
        text_cmp_from(a, b, i + 1)
    }
}

/// Lexicographic order on characters: a proper prefix comes first.
pub open spec fn text_cmp(a: Seq<char>, b: Seq<char>) -> Ordering {
    text_cmp_from(a, b, 0)
}

/// The opposite outcome of a comparison.
pub open spec fn flipped(o: Ordering) -> Ordering {
    match o {
        Ordering::Less => Ordering::Greater,
        Ordering::Equal => Ordering::Equal,
        Ordering::Greater => Ordering::Less,
    }
}

/// Compares two texts character by character.
pub fn compare_text(a: &str, b: &str) -> (r: Ordering)
    ensures
        r == text_cmp(a@, b@),
{
    let la = a.unicode_len();
    let lb = b.unicode_len();
    let mut i: usize = 0;
    while i < la && i < lb
        invariant
            la == a@.len(),
            lb == b@.len(),
            i <= la,
            i <= lb,
            text_cmp(a@, b@) == text_cmp_from(a@, b@, i as nat),
        decreases la - i,
    {
        let ca = a.get_char(i) as u32;
        let cb = b.get_char(i) as u32;
        if ca < cb {
            return Ordering::Less;
        } else if ca > cb {
            return Ordering::Greater;
        }
        i = i + 1;
    }
    if i < lb {
        Ordering::Less
    } else if i < la {
        Ordering::Greater
    } else {
        Ordering::Equal
    }
}

proof fn lemma_text_cmp_from_flip(a: Seq<char>, b: Seq<char>, i: nat)
    ensures
        text_cmp_from(b, a, i) == flipped(text_cmp_from(a, b, i)),
    decreases a.len() - i,
{
    if i < a.len() && i < b.len() && a[i as int] == b[i as int] {
        lemma_text_cmp_from_flip(a, b, i + 1);
    }
}

proof fn lemma_text_cmp_from_equal(a: Seq<char>, b: Seq<char>, i: nat)
    requires
        i <= a.len(),
        i <= b.len(),
        forall|j: int| 0 <= j < i ==> a[j] == b[j],
    ensures
        text_cmp_from(a, b, i) == Ordering::Equal <==> a == b,
    decreases a.len() - i,
{
    if i < a.len() && i < b.len() && a[i as int] == b[i as int] {
        lemma_text_cmp_from_equal(a, b, i + 1);
    } else if i == a.len() && i == b.len() {
        assert(a =~= b);
    }
}

proof fn lemma_text_cmp_from_less_trans(a: Seq<char>, b: Seq<char>, c: Seq<char>, i: nat)
    requires
        text_cmp_from(a, b, i) == Ordering::Less,
        text_cmp_from(b, c, i) == Ordering::Less,
    ensures
        text_cmp_from(a, c, i) == Ordering::Less,
    decreases a.len() - i,
{
    if i < a.len() && i < b.len() && i < c.len() && a[i as int] == b[i as int] && b[i as int]
        == c[i as int] {
        lemma_text_cmp_from_less_trans(a, b, c, i + 1);
    }
}

/// Smaller than a text that is smaller than a third: smaller than the third.
pub proof fn lemma_text_cmp_transitive(a: Seq<char>, b: Seq<char>, c: Seq<char>)
    requires
        text_cmp(a, b) == Ordering::Less,
        text_cmp(b, c) == Ordering::Less,
    ensures
        text_cmp(a, c) == Ordering::Less,
{
    lemma_text_cmp_from_less_trans(a, b, c, 0);
}

/// Swapping the two texts flips the outcome.
pub proof fn lemma_text_cmp_antisymmetric(a: Seq<char>, b: Seq<char>)
    ensures
        text_cmp(b, a) == flipped(text_cmp(a, b)),
{
    lemma_text_cmp_from_flip(a, b, 0);
}

/// Two texts compare equal exactly when they are the same characters.
pub proof fn lemma_text_cmp_equal(a: Seq<char>, b: Seq<char>)
    ensures
        text_cmp(a, b) == Ordering::Equal <==> a == b,
{
    lemma_text_cmp_from_equal(a, b, 0);
}

} // verus!
