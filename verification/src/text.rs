//! Text: decimal numbers, joining, searching, ordering and escaping.
use vstd::prelude::*;

verus! {

/// `String::push` appends the given character to the end of the string.
pub assume_specification[ String::push ](text: &mut String, c: char)
    ensures
        final(text)@ == old(text)@.push(c),
;

/// What formatting a string with `{:?}` yields: the string between double quotes, with the
/// characters that do not print as themselves escaped.
pub uninterp spec fn quoted(text: Seq<char>) -> Seq<char>;

/// Formats a string with `{:?}`, the `Debug` formatting of `str`. Which characters it escapes, and
/// how, is left to the name `quoted`: it depends on tables of Unicode properties.
#[verifier::external_body]
pub(crate) fn quote(text: &str) -> (quotation: String)
    ensures
        quotation@ == quoted(text@),
{
    format!("{:?}", text)
}

/// What `str::to_lowercase` yields.
pub uninterp spec fn lowercased(text: Seq<char>) -> Seq<char>;

/// The lowercase equivalent of a string, as `str::to_lowercase` gives it. How each character is
/// mapped is left to the name `lowercased`: it depends on tables of Unicode properties.
#[verifier::external_body]
pub(crate) fn lowercase(text: &str) -> (lower: String)
    ensures
        lower@ == lowercased(text@),
{
    text.to_lowercase()
}

/// The texts of a run of strings.
pub open spec fn texts(strings: Seq<String>) -> Seq<Seq<char>> {
    strings.map_values(|s: String| s@)
}

/// The decimal digit of a number below ten.
pub open spec fn digit(n: nat) -> char {
    (48 + n) as char
}

/// A number in decimal, without leading zeros.
pub open spec fn decimal(n: nat) -> Seq<char>
    decreases n,
{
    if n < 10 {
        seq![digit(n)]
    } else {
        decimal(n / 10).push(digit(n % 10))
    }
}

/// Appends a number in decimal.
pub fn push_decimal(text: &mut String, n: u64)
    ensures
        final(text)@ == old(text)@ + decimal(n as nat),
    decreases n,
{
    if n >= 10 {
        push_decimal(text, n / 10);
    }
    let d: u8 = (n % 10) as u8;
    let c: char = (48 + d) as char;
    text.push(c);
}

/// The parts in order, with the separator between each two neighbours.
pub open spec fn joined(parts: Seq<Seq<char>>, separator: Seq<char>) -> Seq<char>
    decreases parts.len(),
{
    if parts.len() == 0 {
        Seq::empty()
    } else if parts.len() == 1 {
        parts[0]
    } else {
        joined(parts.drop_last(), separator) + separator + parts.last()
    }
}

/// Joins strings with a separator between them.
pub fn join(parts: &Vec<String>, separator: &str) -> (text: String)
    ensures
        text@ == joined(texts(parts@), separator@),
{
    let mut text = String::new();
    let ghost all = texts(parts@);
    let mut i: usize = 0;
    while i < parts.len()
        invariant
            i <= parts.len(),
            all == texts(parts@),
            text@ == joined(all.take(i as int), separator@),
        decreases parts.len() - i,
    {
        assert(all.take(i + 1).drop_last() =~= all.take(i as int));
        if i > 0 {
            text.append(separator);
        }
        text.append(parts[i].as_str());
        i += 1;
    }
    assert(all.take(i as int) =~= all);
    text
}

/// Whether `pattern` stands in `text` from position `at` on.
pub open spec fn stands_at(text: Seq<char>, pattern: Seq<char>, at: int) -> bool {
    0 <= at <= text.len() - pattern.len() && text.subrange(at, at + pattern.len()) == pattern
}

/// Whether `pattern` occurs somewhere in `text`.
pub open spec fn occurs(text: Seq<char>, pattern: Seq<char>) -> bool {
    exists|at: int| stands_at(text, pattern, at)
}

/// The characters of a string.
pub(crate) fn characters(text: &str) -> (chars: Vec<char>)
    ensures
        chars@ == text@,
{
    let mut chars: Vec<char> = Vec::new();
    for c in it: text.chars()
        invariant
            it.seq() == text@,
            chars@ == it.seq().take(it.index() as int),
    {
        chars.push(c);
        assert(it.seq().take(it.index() + 1) =~= it.seq().take(it.index() as int).push(c));
    }
    assert(chars@ =~= text@);
    chars
}

/// Whether a pattern occurs in a text.
pub fn contains(text: &str, pattern: &str) -> (found: bool)
    ensures
        found == occurs(text@, pattern@),
{
    let t = characters(text);
    let p = characters(pattern);
    if p.len() > t.len() {
        return false;
    }
    let last: usize = t.len() - p.len();
    let mut at: usize = 0;
    while at <= last
        invariant
            at <= last + 1,
            last == t.len() - p.len(),
            t@ == text@,
            p@ == pattern@,
            forall|k: int| 0 <= k < at ==> !stands_at(text@, pattern@, k),
        decreases last + 1 - at,
    {
        let mut n: usize = 0;
        while n < p.len() && t[at + n] == p[n]
            invariant
                n <= p.len(),
                at + p.len() <= t.len(),
                forall|k: int| 0 <= k < n ==> t@[at + k] == p@[k],
            decreases p.len() - n,
        {
            n += 1;
        }
        if n == p.len() {
            assert(text@.subrange(at as int, at + pattern@.len()) =~= pattern@);
            assert(stands_at(text@, pattern@, at as int));
            return true;
        }
        assert(!stands_at(text@, pattern@, at as int)) by {
            if stands_at(text@, pattern@, at as int) {
                assert(text@.subrange(at as int, at + pattern@.len())[n as int] == pattern@[n as int]);
            }
        }
        if at == last {
            return false;
        }
        at += 1;
    }
    false
}

/// Whether `a` comes before `b` when texts are ordered by their characters, from the first on.
pub open spec fn before(a: Seq<char>, b: Seq<char>) -> bool
    decreases a.len(),
{
    if b.len() == 0 {
        false
    } else if a.len() == 0 {
        true
    } else if a[0] != b[0] {
        a[0] < b[0]
    } else {
        before(a.skip(1), b.skip(1))
    }
}

/// No text comes before itself.
pub proof fn law_before_irreflexive(a: Seq<char>)
    ensures
        !before(a, a),
    decreases a.len(),
{
    if a.len() > 0 {
        law_before_irreflexive(a.skip(1));
    }
}

/// Of two different texts, one comes before the other.
pub proof fn law_before_total(a: Seq<char>, b: Seq<char>)
    ensures
        a == b || before(a, b) || before(b, a),
    decreases a.len(),
{
    if a.len() > 0 && b.len() > 0 && a[0] == b[0] {
        law_before_total(a.skip(1), b.skip(1));
        if a.skip(1) == b.skip(1) {
            assert(a =~= seq![a[0]] + a.skip(1));
            assert(b =~= seq![b[0]] + b.skip(1));
        }
    } else if a.len() == 0 && b.len() == 0 {
        assert(a =~= b);
    }
}

/// What comes before a text comes before every later text.
pub proof fn law_before_transitive(a: Seq<char>, b: Seq<char>, c: Seq<char>)
    requires
        before(a, b),
        before(b, c),
    ensures
        before(a, c),
    decreases a.len(),
{
    if a.len() > 0 && a[0] == b[0] && b[0] == c[0] {
        law_before_transitive(a.skip(1), b.skip(1), c.skip(1));
    }
}

/// Whether a text comes before another.
pub fn is_before(a: &str, b: &str) -> (earlier: bool)
    ensures
        earlier == before(a@, b@),
{
    let x = characters(a);
    let y = characters(b);
    let mut i: usize = 0;
    assert(a@.skip(0) =~= a@ && b@.skip(0) =~= b@);
    while i < x.len() && i < y.len()
        invariant
            x@ == a@,
            y@ == b@,
            i <= x.len(),
            i <= y.len(),
            before(a@, b@) == before(a@.skip(i as int), b@.skip(i as int)),
        decreases x.len() - i,
    {
        if x[i] != y[i] {
            return x[i] < y[i];
        }
        assert(a@.skip(i as int).skip(1) =~= a@.skip(i + 1));
        assert(b@.skip(i as int).skip(1) =~= b@.skip(i + 1));
        i += 1;
    }
    i < y.len()
}

/// Whether each text comes before all that follow it.
pub open spec fn ascending(list: Seq<Seq<char>>) -> bool {
    forall|i: int, j: int| 0 <= i < j < list.len() ==> before(#[trigger] list[i], #[trigger] list[j])
}

/// Adds a text to an ascending list at its place, unless it is there.
pub fn insert_ascending(list: &mut Vec<String>, text: &str)
    requires
        ascending(texts(old(list)@)),
    ensures
        ascending(texts(final(list)@)),
        forall|t: Seq<char>|
            texts(final(list)@).contains(t) <==> texts(old(list)@).contains(t) || t == text@,
{
    let ghost start = texts(list@);
    let mut i: usize = 0;
    while i < list.len() && is_before(list[i].as_str(), text)
        invariant
            i <= list.len(),
            list@ == old(list)@,
            start == texts(list@),
            forall|k: int| 0 <= k < i ==> before(#[trigger] start[k], text@),
        decreases list.len() - i,
    {
        i += 1;
    }
    if i < list.len() && !is_before(text, list[i].as_str()) {
        proof {
            law_before_total(start[i as int], text@);
            assert(start[i as int] == text@);
        }
        return;
    }
    list.insert(i, text.to_string());
    proof {
        let grown = texts(list@);
        assert(grown =~= start.insert(i as int, text@));
        assert forall|a: int, b: int| 0 <= a < b < grown.len() implies before(#[trigger] grown[a], #[trigger] grown[b]) by {
            if b == i {
                assert(grown[a] == start[a]);
            } else if a == i {
                assert(grown[b] == start[b - 1]);
                if b - 1 > i {
                    law_before_transitive(text@, start[i as int], start[b - 1]);
                }
            } else {
                let a0 = if a < i { a } else { a - 1 };
                let b0 = if b < i { b } else { b - 1 };
                assert(grown[a] == start[a0] && grown[b] == start[b0]);
            }
        }
        assert forall|t: Seq<char>| grown.contains(t) <==> start.contains(t) || t == text@ by {
            if start.contains(t) {
                let k = start.index_of(t);
                assert(grown[if k < i { k } else { k + 1 }] == t);
            }
            assert(grown[i as int] == text@);
            if grown.contains(t) && t != text@ {
                let k = grown.index_of(t);
                assert(start[if k < i { k } else { k - 1 }] == t);
            }
        }
    }
}

/// One character inside a string literal: a backslash stands before a backslash and a double quote.
pub open spec fn escaped_char(c: char) -> Seq<char> {
    if c == '\\' || c == '"' {
        seq!['\\', c]
    } else {
        seq![c]
    }
}

/// A text inside a string literal.
pub open spec fn escaped(text: Seq<char>) -> Seq<char>
    decreases text.len(),
{
    if text.len() == 0 {
        Seq::empty()
    } else {
        escaped(text.drop_last()) + escaped_char(text.last())
    }
}

/// Escapes the backslashes and double quotes of a text.
pub fn escape(text: &str) -> (literal: String)
    ensures
        literal@ == escaped(text@),
{
    let chars = characters(text);
    let mut literal = String::new();
    let mut i: usize = 0;
    while i < chars.len()
        invariant
            chars@ == text@,
            i <= chars.len(),
            literal@ == escaped(text@.take(i as int)),
        decreases chars.len() - i,
    {
        let c = chars[i];
        if c == '\\' || c == '"' {
            literal.push('\\');
        }
        literal.push(c);
        assert(text@.take(i + 1).drop_last() =~= text@.take(i as int));
        assert(literal@ =~= escaped(text@.take(i as int)) + escaped_char(c));
        i += 1;
    }
    assert(text@.take(i as int) =~= text@);
    literal
}

/// What a string literal stands for: a backslash takes the character after it as it is. `None` where
/// a double quote would end the literal, or where it ends in the middle of an escape.
pub open spec fn unescaped(literal: Seq<char>) -> Option<Seq<char>>
    decreases literal.len(),
{
    if literal.len() == 0 {
        Some(Seq::empty())
    } else if literal[0] == '"' {
        None
    } else if literal[0] == '\\' {
        if literal.len() < 2 {
            None
        } else {
            match unescaped(literal.skip(2)) {
                Some(rest) => Some(seq![literal[1]] + rest),
                None => None,
            }
        }
    } else {
        match unescaped(literal.skip(1)) {
            Some(rest) => Some(seq![literal[0]] + rest),
            None => None,
        }
    }
}

proof fn lemma_unescaped_append(literal: Seq<char>, c: char)
    requires
        unescaped(literal) is Some,
    ensures
        unescaped(literal + escaped_char(c)) == Some(unescaped(literal)->0.push(c)),
    decreases literal.len(),
{
    let more = literal + escaped_char(c);
    if literal.len() == 0 {
        assert(more =~= escaped_char(c));
        let tail = more.skip(if c == '\\' || c == '"' { 2 } else { 1 });
        assert(tail =~= Seq::<char>::empty());
        assert(unescaped(tail) == Some(Seq::<char>::empty()));
        assert(seq![c] + Seq::<char>::empty() =~= Seq::<char>::empty().push(c));
    } else {
        let n: int = if literal[0] == '\\' { 2 } else { 1 };
        assert(more.skip(n) =~= literal.skip(n) + escaped_char(c));
        lemma_unescaped_append(literal.skip(n), c);
        let rest = unescaped(literal.skip(n))->0;
        let first = literal[n - 1];
        assert(more[n - 1] == first && more[0] == literal[0]);
        assert(seq![first] + rest.push(c) =~= (seq![first] + rest).push(c));
    }
}

/// A string literal that holds an escaped text stands for that text: no character of it ends the
/// literal early, and none is lost or added.
pub proof fn law_escape_reads_back(text: Seq<char>)
    ensures
        unescaped(escaped(text)) == Some(text),
    decreases text.len(),
{
    if text.len() == 0 {
        assert(text =~= Seq::<char>::empty());
    } else {
        law_escape_reads_back(text.drop_last());
        lemma_unescaped_append(escaped(text.drop_last()), text.last());
        assert(text.drop_last().push(text.last()) =~= text);
    }
}

} // verus!
