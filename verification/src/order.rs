//! The order of text: character by character, a prefix before what it begins.

use vstd::prelude::*;

use crate::text::{same_text, to_chars};

verus! {

/// `a` stands before `b` in the order of text.
pub open spec fn before(a: Seq<char>, b: Seq<char>) -> bool
    decreases a.len(),
{
    if b.len() == 0 {
        false
    } else if a.len() == 0 {
        true
    } else if a[0] != b[0] {
        (a[0] as int) < (b[0] as int)
    } else {
        before(a.skip(1), b.skip(1))
    }
}

/// Each text of the sequence stands before every later one.
pub open spec fn ascending(texts: Seq<Seq<char>>) -> bool {
    forall|i: int, j: int|
        0 <= i < j < texts.len() ==> before(#[trigger] texts[i], #[trigger] texts[j])
}

/// No text stands before itself.
pub proof fn before_is_irreflexive(a: Seq<char>)
    ensures
        !before(a, a),
    decreases a.len(),
{
    if a.len() > 0 {
        before_is_irreflexive(a.skip(1));
    }
}

/// What stands before a text stands before all that the text stands before.
pub proof fn before_is_transitive(a: Seq<char>, b: Seq<char>, c: Seq<char>)
    requires
        before(a, b),
        before(b, c),
    ensures
        before(a, c),
    decreases a.len(),
{
    if a.len() > 0 && b.len() > 0 && c.len() > 0 && a[0] == b[0] && b[0] == c[0] {
        before_is_transitive(a.skip(1), b.skip(1), c.skip(1));
    }
}

/// Of two different texts one stands before the other.
pub proof fn before_is_total(a: Seq<char>, b: Seq<char>)
    ensures
        a == b || before(a, b) || before(b, a),
    decreases a.len(),
{
    if a.len() == 0 || b.len() == 0 {
        if a.len() == b.len() {
            assert(a =~= b);
        }
    } else if a[0] == b[0] {
        before_is_total(a.skip(1), b.skip(1));
        if a.skip(1) == b.skip(1) {
            assert(a =~= seq![a[0]] + a.skip(1));
            assert(b =~= seq![b[0]] + b.skip(1));
        }
    }
}

/// Two texts never stand before each other.
pub proof fn before_is_asymmetric(a: Seq<char>, b: Seq<char>)
    requires
        before(a, b),
    ensures
        !before(b, a),
        a != b,
{
    before_is_irreflexive(a);
    if before(b, a) {
        before_is_transitive(a, b, a);
    }
}

/// Two ascending sequences of the same texts are the same sequence.
pub proof fn ascending_is_unique(a: Seq<Seq<char>>, b: Seq<Seq<char>>)
    requires
        ascending(a),
        ascending(b),
        forall|t: Seq<char>| a.contains(t) <==> b.contains(t),
    ensures
        a == b,
    decreases a.len(),
{
    if a.len() == 0 {
        if b.len() > 0 {
            assert(b.contains(b[0]));
        }
        assert(a =~= b);
    } else {
        assert(a.contains(a[0]));
        let k = choose|k: int| 0 <= k < b.len() && b[k] == a[0];
        assert(b.contains(b[0]));
        let m = choose|m: int| 0 <= m < a.len() && a[m] == b[0];
        if k > 0 {
            before_is_asymmetric(b[0], b[k]);
            if m > 0 {
                before_is_asymmetric(a[0], a[m]);
            }
        }
        assert(a[0] == b[0]);
        let x = a.skip(1);
        let y = b.skip(1);
        assert forall|t: Seq<char>| x.contains(t) implies y.contains(t) by {
            let i = choose|i: int| 0 <= i < x.len() && x[i] == t;
            assert(a[i + 1] == t);
            assert(a.contains(t));
            let j = choose|j: int| 0 <= j < b.len() && b[j] == t;
            before_is_asymmetric(a[0], a[i + 1]);
            assert(y[j - 1] == t);
        }
        assert forall|t: Seq<char>| y.contains(t) implies x.contains(t) by {
            let i = choose|i: int| 0 <= i < y.len() && y[i] == t;
            assert(b[i + 1] == t);
            assert(b.contains(t));
            let j = choose|j: int| 0 <= j < a.len() && a[j] == t;
            before_is_asymmetric(b[0], b[i + 1]);
            assert(x[j - 1] == t);
        }
        ascending_is_unique(x, y);
        assert(a =~= seq![a[0]] + x);
        assert(b =~= seq![b[0]] + y);
    }
}

/// Whether `a` stands before `b`.
pub fn text_before(a: &str, b: &str) -> (less: bool)
    ensures
        less == before(a@, b@),
{
    let x = to_chars(a);
    let y = to_chars(b);
    let mut i: usize = 0;
    assert(x@.skip(0) =~= x@);
    assert(y@.skip(0) =~= y@);
    while i < x.len() && i < y.len()
        invariant
            i <= x@.len(),
            i <= y@.len(),
            x@ == a@,
            y@ == b@,
            before(a@, b@) == before(x@.skip(i as int), y@.skip(i as int)),
        decreases x@.len() - i,
    {
        if x[i] != y[i] {
            return x[i] < y[i];
        }
        assert(x@.skip(i as int).skip(1) =~= x@.skip(i + 1));
        assert(y@.skip(i as int).skip(1) =~= y@.skip(i + 1));
        i = i + 1;
    }
    i < y.len()
}

/// `text` put in its place among ascending `texts`, unless it is there already.
pub open spec fn inserted(texts: Seq<Seq<char>>, text: Seq<char>) -> Seq<Seq<char>>
    decreases texts.len(),
{
    if texts.len() == 0 || before(text, texts[0]) {
        seq![text] + texts
    } else if texts[0] == text {
        texts
    } else {
        seq![texts[0]] + inserted(texts.skip(1), text)
    }
}

/// The texts in ascending order, each of them once.
pub open spec fn sorted_distinct(texts: Seq<Seq<char>>) -> Seq<Seq<char>>
    decreases texts.len(),
{
    if texts.len() == 0 {
        Seq::empty()
    } else {
        inserted(sorted_distinct(texts.drop_last()), texts.last())
    }
}

/// Inserting at the place that the order gives is what `inserted` does.
proof fn inserted_at(texts: Seq<Seq<char>>, text: Seq<char>, place: int)
    requires
        0 <= place <= texts.len(),
        forall|j: int| 0 <= j < place ==> before(#[trigger] texts[j], text),
        place < texts.len() ==> !before(texts[place], text),
    ensures
        inserted(texts, text) == (if place < texts.len() && texts[place] == text {
            texts
        } else {
            texts.insert(place, text)
        }),
    decreases place,
{
    if place == 0 {
        if texts.len() > 0 {
            before_is_total(texts[0], text);
            if texts[0] == text {
                before_is_irreflexive(text);
            }
        }
        assert(seq![text] + texts =~= texts.insert(0, text));
    } else {
        before_is_asymmetric(texts[0], text);
        let rest = texts.skip(1);
        assert forall|j: int| 0 <= j < place - 1 implies before(#[trigger] rest[j], text) by {
            assert(rest[j] == texts[j + 1]);
        }
        inserted_at(rest, text, place - 1);
        assert(seq![texts[0]] + rest =~= texts);
        assert(seq![texts[0]] + rest.insert(place - 1, text) =~= texts.insert(place, text));
    }
}

/// Inserting keeps the order and adds the text, and nothing else.
pub proof fn inserted_is_ascending(texts: Seq<Seq<char>>, text: Seq<char>)
    requires
        ascending(texts),
    ensures
        ascending(inserted(texts, text)),
        forall|t: Seq<char>| #[trigger]
            inserted(texts, text).contains(t) <==> texts.contains(t) || t == text,
    decreases texts.len(),
{
    let after = inserted(texts, text);
    if texts.len() == 0 || before(text, texts[0]) {
        assert forall|j: int| 0 <= j < texts.len() implies before(text, #[trigger] texts[j]) by {
            if j > 0 {
                before_is_transitive(text, texts[0], texts[j]);
            }
        }
        assert(after[0] == text);
        assert forall|t: Seq<char>| #[trigger] after.contains(t) implies texts.contains(t) || t
            == text by {
            let k = choose|k: int| 0 <= k < after.len() && after[k] == t;
            if k > 0 {
                assert(texts[k - 1] == t);
            }
        }
        assert forall|t: Seq<char>| texts.contains(t) || t == text
            implies #[trigger] after.contains(
            t,
        ) by {
            if t != text {
                let k = choose|k: int| 0 <= k < texts.len() && texts[k] == t;
                assert(after[k + 1] == t);
            }
        }
        assert(ascending(after));
    } else if texts[0] != text {
        let rest = texts.skip(1);
        inserted_is_ascending(rest, text);
        let tail = inserted(rest, text);
        before_is_total(text, texts[0]);
        assert forall|j: int| 0 <= j < tail.len() implies before(texts[0], #[trigger] tail[j]) by {
            assert(tail.contains(tail[j]));
            if tail[j] != text {
                let k = choose|k: int| 0 <= k < rest.len() && rest[k] == tail[j];
                assert(rest[k] == texts[k + 1]);
            }
        }
        assert forall|i: int, j: int| 0 <= i < j < after.len() implies before(
            #[trigger] after[i],
            #[trigger] after[j],
        ) by {
            assert(after[j] == tail[j - 1]);
            if i > 0 {
                assert(after[i] == tail[i - 1]);
            }
        }
        assert forall|t: Seq<char>| #[trigger] after.contains(t) implies texts.contains(t) || t
            == text by {
            let k = choose|k: int| 0 <= k < after.len() && after[k] == t;
            if k == 0 {
                assert(texts[0] == t);
            } else {
                assert(tail[k - 1] == t);
                assert(tail.contains(t));
                if t != text {
                    let m = choose|m: int| 0 <= m < rest.len() && rest[m] == t;
                    assert(texts[m + 1] == t);
                }
            }
        }
        assert forall|t: Seq<char>| texts.contains(t) || t == text
            implies #[trigger] after.contains(
            t,
        ) by {
            if t == texts[0] {
                assert(after[0] == t);
            } else {
                if t != text {
                    let m = choose|m: int| 0 <= m < texts.len() && texts[m] == t;
                    assert(rest[m - 1] == t);
                }
                assert(tail.contains(t));
                let k = choose|k: int| 0 <= k < tail.len() && tail[k] == t;
                assert(after[k + 1] == t);
            }
        }
    } else {
        assert(texts.contains(texts[0]));
    }
}

/// Sorting gives ascending texts: those that were given, and no others.
pub proof fn sorted_distinct_is_ascending(texts: Seq<Seq<char>>)
    ensures
        ascending(sorted_distinct(texts)),
        forall|t: Seq<char>| #[trigger] sorted_distinct(texts).contains(t) <==> texts.contains(t),
    decreases texts.len(),
{
    if texts.len() > 0 {
        let shorter = texts.drop_last();
        sorted_distinct_is_ascending(shorter);
        inserted_is_ascending(sorted_distinct(shorter), texts.last());
        assert forall|t: Seq<char>| #[trigger] sorted_distinct(texts).contains(t)
            implies texts.contains(
            t,
        ) by {
            if t == texts.last() {
                assert(texts[texts.len() - 1] == t);
            } else {
                assert(sorted_distinct(shorter).contains(t));
                let k = choose|k: int| 0 <= k < shorter.len() && shorter[k] == t;
                assert(texts[k] == t);
            }
        }
        assert forall|t: Seq<char>| texts.contains(t) implies #[trigger] sorted_distinct(
            texts,
        ).contains(t) by {
            if t != texts.last() {
                let k = choose|k: int| 0 <= k < texts.len() && texts[k] == t;
                assert(shorter[k] == t);
                assert(sorted_distinct(shorter).contains(t));
            }
        }
    }
}

/// Puts `text` in its place among ascending `texts`, unless it is there.
pub fn insert_text(texts: &mut Vec<String>, text: &str)
    requires
        ascending(old(texts).deep_view()),
    ensures
        final(texts).deep_view() == inserted(old(texts).deep_view(), text@),
{
    let ghost given = texts.deep_view();
    let mut place: usize = 0;
    while place < texts.len() && text_before(texts[place].as_str(), text)
        invariant
            place <= texts@.len(),
            given == texts.deep_view(),
            forall|j: int| 0 <= j < place ==> before(#[trigger] given[j], text@),
        decreases texts@.len() - place,
    {
        assert(given[place as int] == texts@[place as int]@);
        place = place + 1;
    }
    proof {
        if place < texts@.len() {
            assert(given[place as int] == texts@[place as int]@);
        }
        inserted_at(given, text@, place as int);
    }
    if place < texts.len() && same_text(texts[place].as_str(), text) {
        return;
    }
    texts.insert(place, text.to_string());
    assert(texts.deep_view() =~= given.insert(place as int, text@));
}

/// The order is that of dictionaries: of two texts the one comes first that
/// ends where they part, or has the smaller character there.
pub proof fn before_is_lexicographic(a: Seq<char>, b: Seq<char>)
    ensures
        before(a, b) <==> exists|k: int|
            0 <= k <= a.len() && k < b.len() && #[trigger] a.take(k) == b.take(k) && (k == a.len()
                || (a[k] as int) < (b[k] as int)),
    decreases a.len(),
{
    if b.len() > 0 && a.len() == 0 {
        assert(a.take(0) =~= b.take(0));
    } else if b.len() > 0 && a[0] != b[0] {
        assert(a.take(0) =~= b.take(0));
        assert forall|k: int|
            0 < k <= a.len() && k < b.len() implies #[trigger] a.take(k) != b.take(k) by {
            assert(a.take(k)[0] != b.take(k)[0]);
        }
    } else if b.len() > 0 {
        let x = a.skip(1);
        let y = b.skip(1);
        before_is_lexicographic(x, y);
        if before(a, b) {
            let k = choose|k: int|
                0 <= k <= x.len() && k < y.len() && #[trigger] x.take(k) == y.take(k) && (k
                    == x.len() || (x[k] as int) < (y[k] as int));
            assert forall|i: int| 0 <= i < k + 1 implies a[i] == b[i] by {
                if i > 0 {
                    assert(x.take(k)[i - 1] == y.take(k)[i - 1]);
                }
            }
            assert(a.take(k + 1) =~= b.take(k + 1));
        }
        if exists|k: int|
            0 <= k <= a.len() && k < b.len() && #[trigger] a.take(k) == b.take(k) && (k == a.len()
                || (a[k] as int) < (b[k] as int)) {
            let k = choose|k: int|
                0 <= k <= a.len() && k < b.len() && #[trigger] a.take(k) == b.take(k) && (k
                    == a.len() || (a[k] as int) < (b[k] as int));
            assert(x.take(k - 1) =~= y.take(k - 1)) by {
                assert forall|i: int| 0 <= i < k - 1 implies x[i] == y[i] by {
                    assert(a.take(k)[i + 1] == b.take(k)[i + 1]);
                }
            }
        }
    }
}

} // verus!
