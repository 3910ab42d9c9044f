//! The order of strings by their bytes, and lists sorted by it.

use vstd::prelude::*;
use vstd::seq_lib::to_multiset_insert;
use vstd::string::StringSliceAdditionalSpecFns;
use vstd::utf8::encode_utf8;
use vstd::utf8::encode_utf8_decode_utf8;

verus! {

/// The lexicographic order of byte strings: the first byte that differs
/// decides, and a string stands before every longer one that starts with it.
pub open spec fn bytes_le(left: Seq<u8>, right: Seq<u8>) -> bool
    decreases left.len(),
{
    if left.len() == 0 {
        true
    } else if right.len() == 0 {
        false
    } else if left[0] != right[0] {
        left[0] < right[0]
    } else {
        bytes_le(left.drop_first(), right.drop_first())
    }
}

/// The order of strings: that of their UTF-8 bytes.
pub open spec fn text_le(left: Seq<char>, right: Seq<char>) -> bool {
    bytes_le(encode_utf8(left), encode_utf8(right))
}

/// Whether each string of a list stands at or before all those after it.
pub open spec fn is_sorted(texts: Seq<Seq<char>>) -> bool {
    forall|i: int, j: int| 0 <= i < j < texts.len() ==> text_le(#[trigger] texts[i], #[trigger] texts[j])
}

/// A sorted list with one more string, put behind the last one that does not
/// stand after it.
pub open spec fn insert_sorted(sorted: Seq<Seq<char>>, text: Seq<char>) -> Seq<Seq<char>>
    decreases sorted.len(),
{
    if sorted.len() == 0 {
        seq![text]
    } else if text_le(sorted.last(), text) {
        sorted.push(text)
    } else {
        insert_sorted(sorted.drop_last(), text).push(sorted.last())
    }
}

/// The strings of a list in sorted order.
pub open spec fn sort_texts(texts: Seq<Seq<char>>) -> Seq<Seq<char>>
    decreases texts.len(),
{
    if texts.len() == 0 {
        Seq::empty()
    } else {
        insert_sorted(sort_texts(texts.drop_last()), texts.last())
    }
}

/// Any two byte strings are ordered one way or the other.
pub proof fn lemma_bytes_le_total(left: Seq<u8>, right: Seq<u8>)
    ensures
        bytes_le(left, right) || bytes_le(right, left),
    decreases left.len(),
{
    if left.len() > 0 && right.len() > 0 && left[0] == right[0] {
        lemma_bytes_le_total(left.drop_first(), right.drop_first());
    }
}

/// The order of byte strings is transitive.
pub proof fn lemma_bytes_le_transitive(a: Seq<u8>, b: Seq<u8>, c: Seq<u8>)
    requires
        bytes_le(a, b),
        bytes_le(b, c),
    ensures
        bytes_le(a, c),
    decreases a.len(),
{
    if a.len() > 0 && a[0] == b[0] && b[0] == c[0] {
        lemma_bytes_le_transitive(a.drop_first(), b.drop_first(), c.drop_first());
    }
}

/// Byte strings that are ordered both ways are the same.
pub proof fn lemma_bytes_le_antisymmetric(a: Seq<u8>, b: Seq<u8>)
    requires
        bytes_le(a, b),
        bytes_le(b, a),
    ensures
        a == b,
    decreases a.len(),
{
    if a.len() > 0 {
        lemma_bytes_le_antisymmetric(a.drop_first(), b.drop_first());
        assert(a =~= seq![a[0]] + a.drop_first());
        assert(b =~= seq![b[0]] + b.drop_first());
    } else {
        assert(a =~= b);
    }
}

/// Whether one string stands at or before another.
pub fn text_at_most(left: &str, right: &str) -> (at_most: bool)
    ensures
        at_most == text_le(left@, right@),
{
    let a = left.as_bytes();
    let b = right.as_bytes();
    let mut i: usize = 0;
    assert(a@.skip(0) =~= a@ && b@.skip(0) =~= b@);
    while i < a.len() && i < b.len()
        invariant
            i <= a.len(),
            i <= b.len(),
            a@ == encode_utf8(left@),
            b@ == encode_utf8(right@),
            bytes_le(a@, b@) == bytes_le(a@.skip(i as int), b@.skip(i as int)),
        decreases a.len() - i,
    {
        assert(a@.skip(i as int)[0] == a[i as int] && b@.skip(i as int)[0] == b[i as int]);
        if a[i] != b[i] {
            return a[i] < b[i];
        }
        assert(a@.skip(i as int).drop_first() =~= a@.skip(i + 1));
        assert(b@.skip(i as int).drop_first() =~= b@.skip(i + 1));
        i += 1;
    }
    i == a.len()
}

/// Any two strings are ordered one way or the other.
pub proof fn lemma_text_le_total(left: Seq<char>, right: Seq<char>)
    ensures
        text_le(left, right) || text_le(right, left),
{
    lemma_bytes_le_total(encode_utf8(left), encode_utf8(right));
}

/// The order of strings is transitive.
pub proof fn lemma_text_le_transitive(a: Seq<char>, b: Seq<char>, c: Seq<char>)
    requires
        text_le(a, b),
        text_le(b, c),
    ensures
        text_le(a, c),
{
    lemma_bytes_le_transitive(encode_utf8(a), encode_utf8(b), encode_utf8(c));
}

/// Strings that are ordered both ways are the same.
pub proof fn lemma_text_le_antisymmetric(a: Seq<char>, b: Seq<char>)
    requires
        text_le(a, b),
        text_le(b, a),
    ensures
        a == b,
{
    lemma_bytes_le_antisymmetric(encode_utf8(a), encode_utf8(b));
    encode_utf8_decode_utf8(a);
    encode_utf8_decode_utf8(b);
}

/// Where a string goes into a sorted list: behind an entry that does not
/// stand after it, and before the entries that all do.
pub open spec fn is_insert_position(sorted: Seq<Seq<char>>, text: Seq<char>, at: int) -> bool {
    &&& 0 <= at <= sorted.len()
    &&& at > 0 ==> text_le(sorted[at - 1], text)
    &&& forall|k: int| at <= k < sorted.len() ==> !text_le(#[trigger] sorted[k], text)
}

/// Putting a string into a list at its insert position is `insert_sorted`.
pub proof fn lemma_insert_at(sorted: Seq<Seq<char>>, text: Seq<char>, at: int)
    requires
        is_insert_position(sorted, text, at),
    ensures
        insert_sorted(sorted, text) == sorted.insert(at, text),
    decreases sorted.len(),
{
    if sorted.len() == 0 {
        assert(sorted.insert(at, text) =~= seq![text]);
    } else if at == sorted.len() {
        assert(sorted.insert(at, text) =~= sorted.push(text));
    } else {
        assert(!text_le(sorted[sorted.len() - 1], text));
        let front = sorted.drop_last();
        assert(is_insert_position(front, text, at)) by {
            assert forall|k: int| at <= k < front.len() implies !text_le(#[trigger] front[k], text) by {
                assert(front[k] == sorted[k]);
            }
        }
        lemma_insert_at(front, text, at);
        assert(sorted.insert(at, text) =~= front.insert(at, text).push(sorted.last()));
    }
}

/// Every list has an insert position for every string.
pub proof fn lemma_insert_position_exists(sorted: Seq<Seq<char>>, text: Seq<char>) -> (at: int)
    ensures
        is_insert_position(sorted, text, at),
        insert_sorted(sorted, text) == sorted.insert(at, text),
    decreases sorted.len(),
{
    let at = if sorted.len() == 0 || text_le(sorted.last(), text) {
        sorted.len() as int
    } else {
        let front = sorted.drop_last();
        let inner = lemma_insert_position_exists(front, text);
        assert forall|k: int| inner <= k < sorted.len() implies !text_le(#[trigger] sorted[k], text) by {
            if k < front.len() {
                assert(front[k] == sorted[k]);
            }
        }
        inner
    };
    lemma_insert_at(sorted, text, at);
    at
}

/// A sorted list stays sorted when a string is put in by `insert_sorted`.
pub proof fn lemma_insert_keeps_sorted(sorted: Seq<Seq<char>>, text: Seq<char>)
    requires
        is_sorted(sorted),
    ensures
        is_sorted(insert_sorted(sorted, text)),
{
    let at = lemma_insert_position_exists(sorted, text);
    let longer = sorted.insert(at, text);
    assert forall|i: int, j: int| 0 <= i < j < longer.len() implies text_le(
        #[trigger] longer[i],
        #[trigger] longer[j],
    ) by {
        if j == at {
            if i < at - 1 {
                assert(text_le(sorted[i], sorted[at - 1]));
                lemma_text_le_transitive(sorted[i], sorted[at - 1], text);
            }
        } else if i == at {
            assert(!text_le(sorted[j - 1], text));
            lemma_text_le_total(sorted[j - 1], text);
        } else {
            let old_i = if i < at { i } else { i - 1 };
            let old_j = if j < at { j } else { j - 1 };
            assert(text_le(sorted[old_i], sorted[old_j]));
        }
    }
}

/// The result of sorting is sorted.
pub proof fn lemma_sort_is_sorted(texts: Seq<Seq<char>>)
    ensures
        is_sorted(sort_texts(texts)),
    decreases texts.len(),
{
    if texts.len() > 0 {
        lemma_sort_is_sorted(texts.drop_last());
        lemma_insert_keeps_sorted(sort_texts(texts.drop_last()), texts.last());
    }
}

/// Sorting keeps every string, as often as it occurs, and adds none.
pub proof fn lemma_sort_is_permutation(texts: Seq<Seq<char>>)
    ensures
        sort_texts(texts).to_multiset() == texts.to_multiset(),
        sort_texts(texts).len() == texts.len(),
    decreases texts.len(),
{
    broadcast use vstd::seq_lib::group_to_multiset_ensures;

    if texts.len() > 0 {
        let front = texts.drop_last();
        lemma_sort_is_permutation(front);
        let at = lemma_insert_position_exists(sort_texts(front), texts.last());
        to_multiset_insert(sort_texts(front), at, texts.last());
        assert(texts =~= front.push(texts.last()));
        assert(front.push(texts.last()).to_multiset() =~= front.to_multiset().insert(texts.last()));
    } else {
        assert(sort_texts(texts) =~= texts);
    }
}

/// There is one sorted arrangement of a list: two sorted lists that hold the
/// same strings, each as often as the other, are the same list.
pub proof fn lemma_sorted_arrangement_is_unique(left: Seq<Seq<char>>, right: Seq<Seq<char>>)
    requires
        is_sorted(left),
        is_sorted(right),
        left.to_multiset() == right.to_multiset(),
    ensures
        left == right,
    decreases left.len(),
{
    broadcast use vstd::seq_lib::group_to_multiset_ensures;

    assert(left.len() == right.len()) by {
        left.to_multiset_ensures();
        right.to_multiset_ensures();
    }
    if left.len() == 0 {
        assert(left =~= right);
    } else {
        let last = left.len() - 1;
        assert(left.contains(left[last]) && right.contains(right[last]));
        assert(right.to_multiset().count(left[last]) > 0 && left.to_multiset().count(right[last]) > 0);
        let i = choose|i: int| 0 <= i < right.len() && right[i] == left[last];
        let j = choose|j: int| 0 <= j < left.len() && left[j] == right[last];
        lemma_text_le_total(left[last], left[last]);
        lemma_text_le_total(right[last], right[last]);
        assert(text_le(right[i], right[last]));
        assert(text_le(left[j], left[last]));
        lemma_text_le_antisymmetric(left[last], right[last]);
        assert(left.remove(last) =~= left.drop_last());
        assert(right.remove(last) =~= right.drop_last());
        assert(left.drop_last().to_multiset() == right.drop_last().to_multiset());
        assert(is_sorted(left.drop_last())) by {
            assert forall|i: int, j: int| 0 <= i < j < left.drop_last().len() implies text_le(
                #[trigger] left.drop_last()[i],
                #[trigger] left.drop_last()[j],
            ) by {
                assert(text_le(left[i], left[j]));
            }
        }
        assert(is_sorted(right.drop_last())) by {
            assert forall|i: int, j: int| 0 <= i < j < right.drop_last().len() implies text_le(
                #[trigger] right.drop_last()[i],
                #[trigger] right.drop_last()[j],
            ) by {
                assert(text_le(right[i], right[j]));
            }
        }
        lemma_sorted_arrangement_is_unique(left.drop_last(), right.drop_last());
        assert(left =~= left.drop_last().push(left[last]));
        assert(right =~= right.drop_last().push(right[last]));
    }
}

/// Sorting gives the one sorted arrangement of a list.
pub proof fn lemma_sort_gives_the_sorted_arrangement(texts: Seq<Seq<char>>, sorted: Seq<Seq<char>>)
    requires
        is_sorted(sorted),
        sorted.to_multiset() == texts.to_multiset(),
    ensures
        sorted == sort_texts(texts),
{
    lemma_sort_is_sorted(texts);
    lemma_sort_is_permutation(texts);
    lemma_sorted_arrangement_is_unique(sorted, sort_texts(texts));
}

/// A sorted copy of a list of strings.
pub fn sorted_texts(texts: &[String]) -> (sorted: Vec<String>)
    ensures
        sorted.deep_view() == sort_texts(texts.deep_view()),
        is_sorted(sorted.deep_view()),
        sorted.deep_view().to_multiset() == texts.deep_view().to_multiset(),
{
    let mut sorted: Vec<String> = Vec::new();
    let mut n: usize = 0;
    assert(texts.deep_view().take(0) =~= Seq::empty());
    assert(sorted.deep_view() =~= Seq::empty());
    while n < texts.len()
        invariant
            n <= texts.len(),
            sorted.deep_view() == sort_texts(texts.deep_view().take(n as int)),
        decreases texts.len() - n,
    {
        let text = texts[n].clone();
        let mut at: usize = sorted.len();
        while at > 0 && !text_at_most(sorted[at - 1].as_str(), text.as_str())
            invariant
                at <= sorted.len(),
                forall|k: int| at <= k < sorted.len() ==> !text_le(#[trigger] sorted[k]@, text@),
            decreases at,
        {
            at -= 1;
        }
        let ghost before = sorted.deep_view();
        proof {
            assert(is_insert_position(before, text@, at as int)) by {
                assert forall|k: int| at <= k < before.len() implies !text_le(#[trigger] before[k], text@) by {
                    assert(before[k] == sorted[k]@);
                }
                if at > 0 {
                    assert(before[at - 1] == sorted[at - 1]@);
                }
            }
            lemma_insert_at(before, text@, at as int);
        }
        sorted.insert(at, text);
        proof {
            assert(sorted.deep_view() =~= before.insert(at as int, text@));
            let upto = texts.deep_view().take(n + 1);
            assert(upto.drop_last() =~= texts.deep_view().take(n as int));
            assert(upto.last() == text@);
        }
        n += 1;
    }
    proof {
        assert(texts.deep_view().take(n as int) =~= texts.deep_view());
        lemma_sort_is_sorted(texts.deep_view());
        lemma_sort_is_permutation(texts.deep_view());
    }
    sorted
}

} // verus!
