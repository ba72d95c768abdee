//! Laws of text.
use vstd::prelude::*;

use crate::text::{ascending, before, decimal, escaped, joined, occurs, texts};

verus! {

/// The number that a run of decimal digits stands for.
pub open spec fn value_of(digits: Seq<char>) -> int
    decreases digits.len(),
{
    if digits.len() == 0 {
        0
    } else {
        value_of(digits.drop_last()) * 10 + (digits.last() as int - 48)
    }
}

/// A number in decimal is a run of digits that stands for the number, and has no leading zero.
pub proof fn law_decimal(n: nat)
    ensures
        decimal(n).len() > 0,
        forall|i: int| 0 <= i < decimal(n).len() ==> 48 <= #[trigger] decimal(n)[i] as int <= 57,
        value_of(decimal(n)) == n,
        decimal(n)[0] as int == 48 ==> n == 0 && decimal(n).len() == 1,
    decreases n,
{
    reveal_with_fuel(value_of, 2);
    if n >= 10 {
        law_decimal(n / 10);
        let shorter = decimal(n / 10);
        assert(decimal(n).drop_last() =~= shorter);
        assert(decimal(n)[0] == shorter[0]);
        assert forall|i: int| 0 <= i < decimal(n).len() implies 48 <= #[trigger] decimal(n)[i] as int <= 57 by {
            if i < shorter.len() {
                assert(decimal(n)[i] == shorter[i]);
            }
        }
    } else {
        assert(decimal(n).drop_last() =~= Seq::empty());
    }
}

/// Joining puts the separator between each two parts that are next to each other, and nowhere else.
pub proof fn law_joined(a: Seq<Seq<char>>, b: Seq<Seq<char>>, part: Seq<char>, separator: Seq<char>)
    ensures
        joined(Seq::empty(), separator) == Seq::<char>::empty(),
        joined(seq![part], separator) == part,
        a.len() > 0 && b.len() > 0 ==> joined(a + b, separator) == joined(a, separator) + separator + joined(b, separator),
    decreases b.len(),
{
    if a.len() > 0 && b.len() > 0 {
        assert((a + b).drop_last() =~= a + b.drop_last());
        assert((a + b).last() == b.last());
        if b.len() == 1 {
            assert(a + b.drop_last() =~= a);
            assert(joined(a + b, separator) == joined(a, separator) + separator + b[0]);
        } else {
            law_joined(a, b.drop_last(), part, separator);
            assert(joined(a + b, separator) =~= joined(a, separator) + separator + joined(b, separator));
        }
    }
}

/// A pattern occurs in a text exactly where the text is the pattern with something before and after it.
pub proof fn law_occurs(text: Seq<char>, pattern: Seq<char>)
    ensures
        occurs(text, pattern) <==> exists|head: Seq<char>, tail: Seq<char>| text == #[trigger] (head + pattern + tail),
{
    if occurs(text, pattern) {
        let at = choose|at: int| crate::text::stands_at(text, pattern, at);
        let head = text.take(at);
        let tail = text.skip(at + pattern.len());
        assert(text =~= head + pattern + tail);
    }
    if exists|head: Seq<char>, tail: Seq<char>| text == #[trigger] (head + pattern + tail) {
        let (head, tail) = choose|head: Seq<char>, tail: Seq<char>| text == #[trigger] (head + pattern + tail);
        let at = head.len() as int;
        assert(text.subrange(at, at + pattern.len()) =~= pattern);
        assert(crate::text::stands_at(text, pattern, at));
    }
}

/// Texts are ordered by the first character in which they differ; a text comes before its continuations.
pub proof fn law_before(a: Seq<char>, b: Seq<char>)
    ensures
        before(a, b) <==> (a.len() < b.len() && a =~= b.take(a.len() as int)) || exists|k: int|
            0 <= k < a.len() && k < b.len() && #[trigger] a.take(k) == b.take(k) && a[k] < b[k],
    decreases a.len(),
{
    if a.len() == 0 {
        if b.len() > 0 {
            assert(a =~= b.take(0));
        }
    } else if b.len() > 0 {
        let c = a.skip(1);
        let d = b.skip(1);
        if a[0] == b[0] {
            law_before(c, d);
            if c.len() < d.len() && c =~= d.take(c.len() as int) {
                assert forall|i: int| 0 <= i < a.len() implies a[i] == b[i] by {
                    if i > 0 {
                        assert(a[i] == c[i - 1]);
                        assert(c[i - 1] == d.take(c.len() as int)[i - 1]);
                        assert(b[i] == d[i - 1]);
                    }
                }
                assert(a =~= b.take(a.len() as int));
            }
            if a.len() < b.len() && a =~= b.take(a.len() as int) {
                assert forall|i: int| 0 <= i < c.len() implies c[i] == d[i] by {
                    assert(c[i] == a[i + 1]);
                    assert(a[i + 1] == b.take(a.len() as int)[i + 1]);
                }
                assert(c =~= d.take(c.len() as int));
            }
            if exists|k: int| 0 <= k < c.len() && k < d.len() && #[trigger] c.take(k) == d.take(k) && c[k] < d[k] {
                let k = choose|k: int| 0 <= k < c.len() && k < d.len() && #[trigger] c.take(k) == d.take(k) && c[k] < d[k];
                assert forall|i: int| 0 <= i < k + 1 implies a[i] == b[i] by {
                    if i > 0 {
                        assert(c.take(k)[i - 1] == d.take(k)[i - 1]);
                        assert(a[i] == c[i - 1] && b[i] == d[i - 1]);
                    }
                }
                assert(a.take(k + 1) =~= b.take(k + 1));
            }
            if exists|k: int| 0 <= k < a.len() && k < b.len() && #[trigger] a.take(k) == b.take(k) && a[k] < b[k] {
                let k = choose|k: int| 0 <= k < a.len() && k < b.len() && #[trigger] a.take(k) == b.take(k) && a[k] < b[k];
                assert forall|i: int| 0 <= i < k - 1 implies c[i] == d[i] by {
                    assert(a.take(k)[i + 1] == b.take(k)[i + 1]);
                    assert(c[i] == a[i + 1] && d[i] == b[i + 1]);
                }
                assert(c.take(k - 1) =~= d.take(k - 1));
                assert(c[k - 1] == a[k] && d[k - 1] == b[k]);
            }
        } else {
            if a[0] < b[0] {
                assert(a.take(0) =~= b.take(0));
            }
            if a.len() < b.len() && a =~= b.take(a.len() as int) {
                assert(a[0] == b.take(a.len() as int)[0]);
            }
            if exists|k: int| 0 <= k < a.len() && k < b.len() && #[trigger] a.take(k) == b.take(k) && a[k] < b[k] {
                let k = choose|k: int| 0 <= k < a.len() && k < b.len() && #[trigger] a.take(k) == b.take(k) && a[k] < b[k];
                if k > 0 {
                    assert(a.take(k)[0] == b.take(k)[0]);
                }
            }
        }
    }
}

/// An ascending list is sorted, and holds nothing twice.
pub proof fn law_ascending(list: Seq<Seq<char>>, i: int, j: int)
    requires
        ascending(list),
        0 <= i < j < list.len(),
    ensures
        before(list[i], list[j]),
        list[i] != list[j],
{
    crate::text::law_before_irreflexive(list[i]);
}

/// Escaping goes character by character: a backslash and a double quote get a backslash before them, and every
/// other character stays as it is.
pub proof fn law_escaped(a: Seq<char>, b: Seq<char>, c: char)
    ensures
        escaped(Seq::empty()) == Seq::<char>::empty(),
        escaped(seq!['\\']) == seq!['\\', '\\'],
        escaped(seq!['"']) == seq!['\\', '"'],
        c != '\\' && c != '"' ==> escaped(seq![c]) == seq![c],
        escaped(a + b) == escaped(a) + escaped(b),
    decreases b.len(),
{
    assert forall|d: char| #[trigger] escaped(seq![d]) == crate::text::escaped_char(d) by {
        assert(seq![d].drop_last() =~= Seq::empty());
        assert(escaped(Seq::<char>::empty()) =~= Seq::empty());
        assert(escaped(seq![d]) =~= crate::text::escaped_char(d));
    }
    if b.len() == 0 {
        assert(a + b =~= a);
        assert(escaped(a) + escaped(b) =~= escaped(a));
    } else {
        assert((a + b).drop_last() =~= a + b.drop_last());
        law_escaped(a, b.drop_last(), c);
        assert(escaped(a + b) =~= escaped(a) + escaped(b));
    }
}

/// The texts of strings are theirs, in order.
pub proof fn law_texts(strings: Seq<String>, i: int)
    requires
        0 <= i < strings.len(),
    ensures
        texts(strings).len() == strings.len(),
        texts(strings)[i] == strings[i]@,
{
}

} // verus!
