//! Text as sequences of characters: conversion, comparison, trimming,
//! splitting, joining and ordering.
use vstd::prelude::*;

verus! {

/// `String::push`: the character becomes the last one of the string, and
/// nothing before it changes.
pub assume_specification[ String::push ](s: &mut String, c: char)
    ensures
        final(s)@ == old(s)@.push(c),
;

/// The texts that a sequence of strings holds.
pub open spec fn views(strings: Seq<String>) -> Seq<Seq<char>> {
    strings.map_values(|s: String| s@)
}

/// The text that an optional string holds.
pub open spec fn opt_view(s: Option<String>) -> Option<Seq<char>> {
    match s {
        Some(text) => Some(text@),
        None => None,
    }
}

/// The text that an optional string slice holds.
pub open spec fn opt_str_view(s: Option<&str>) -> Option<Seq<char>> {
    match s {
        Some(text) => Some(text@),
        None => None,
    }
}

/// An optional string as an optional slice.
pub fn as_str<'a>(s: &'a Option<String>) -> (r: Option<&'a str>)
    ensures
        opt_str_view(r) == opt_view(*s),
{
    match s {
        Some(text) => Some(text.as_str()),
        None => None,
    }
}

/// The characters of a text.
pub fn chars_of(s: &str) -> (r: Vec<char>)
    ensures
        r@ == s@,
{
    let mut out: Vec<char> = Vec::new();
    for c in it: s.chars()
        invariant
            out@ == it.seq().take(it.index() as int),
            it.seq() == s@,
    {
        out.push(c);
    }
    out
}

/// The text made of `chars[from..to]`.
pub fn text_between(chars: &Vec<char>, from: usize, to: usize) -> (r: String)
    requires
        from <= to <= chars@.len(),
    ensures
        r@ == chars@.subrange(from as int, to as int),
{
    let mut out = String::new();
    let mut i: usize = from;
    while i < to
        invariant
            from <= i <= to <= chars@.len(),
            out@ == chars@.subrange(from as int, i as int),
        decreases to - i,
    {
        out.push(chars[i]);
        i += 1;
        assert(chars@.subrange(from as int, i as int) == chars@.subrange(from as int, i - 1).push(
            chars@[i - 1],
        ));
    }
    out
}

/// The text made of all of `chars`.
pub fn text_of(chars: &Vec<char>) -> (r: String)
    ensures
        r@ == chars@,
{
    assert(chars@.subrange(0, chars@.len() as int) == chars@);
    text_between(chars, 0, chars.len())
}

/// Whether two texts hold the same characters.
pub fn same_text(a: &str, b: &str) -> (r: bool)
    ensures
        r == (a@ == b@),
{
    let mut rest = b.chars();
    let ghost mut seen: int = 0;
    for c in it: a.chars()
        invariant
            it.seq() == a@,
            seen == it.index(),
            seen <= b@.len(),
            vstd::std_specs::iter::IteratorSpec::obeys_prophetic_iter_laws(&rest),
            vstd::std_specs::iter::IteratorSpec::remaining(&rest) == b@.skip(seen),
            a@.take(seen) == b@.take(seen),
    {
        match rest.next() {
            Some(d) => {
                if c != d {
                    assert(a@[seen] != b@[seen]);
                    return false;
                }
                proof {
                    assert(a@.take(seen + 1) == a@.take(seen).push(a@[seen]));
                    assert(b@.take(seen + 1) == b@.take(seen).push(b@[seen]));
                    assert(b@.skip(seen).drop_first() == b@.skip(seen + 1));
                    seen = seen + 1;
                }
            },
            None => {
                return false;
            },
        }
    }
    let end = rest.next();
    proof {
        assert(a@.take(a@.len() as int) == a@);
        assert(end is None ==> b@.take(b@.len() as int) == b@);
    }
    end.is_none()
}

/// An optional text that is present but empty counts as absent.
pub open spec fn non_empty(s: Option<Seq<char>>) -> Option<Seq<char>> {
    match s {
        Some(text) => if text.len() == 0 {
            None
        } else {
            Some(text)
        },
        None => None,
    }
}

/// An optional text, or nothing where it is absent or empty.
pub fn present<'a>(s: Option<&'a str>) -> (r: Option<&'a str>)
    ensures
        opt_str_view(r) == non_empty(opt_str_view(s)),
        r is Some ==> r == s,
{
    match s {
        Some(text) => if text.is_empty() {
            None
        } else {
            Some(text)
        },
        None => None,
    }
}

/// Whether a character is white space (the Unicode property `White_Space`).
pub open spec fn is_space(c: char) -> bool {
    let n = c as u32;
    ||| 0x9 <= n <= 0xD
    ||| n == 0x20
    ||| n == 0x85
    ||| n == 0xA0
    ||| n == 0x1680
    ||| 0x2000 <= n <= 0x200A
    ||| n == 0x2028
    ||| n == 0x2029
    ||| n == 0x202F
    ||| n == 0x205F
    ||| n == 0x3000
}

/// Whether a character is white space.
pub fn is_whitespace(c: char) -> (r: bool)
    ensures
        r == is_space(c),
{
    let n: u32 = c as u32;
    (0x9 <= n && n <= 0xD) || n == 0x20 || n == 0x85 || n == 0xA0 || n == 0x1680 || (0x2000 <= n
        && n <= 0x200A) || n == 0x2028 || n == 0x2029 || n == 0x202F || n == 0x205F || n == 0x3000
}

/// A text without the white space at its start.
pub open spec fn without_leading_space(s: Seq<char>) -> Seq<char>
    decreases s.len(),
{
    if s.len() > 0 && is_space(s[0]) {
        without_leading_space(s.drop_first())
    } else {
        s
    }
}

/// A text without the white space at its end.
pub open spec fn without_trailing_space(s: Seq<char>) -> Seq<char>
    decreases s.len(),
{
    if s.len() > 0 && is_space(s.last()) {
        without_trailing_space(s.drop_last())
    } else {
        s
    }
}

/// A text without the white space around it.
pub open spec fn trimmed(s: Seq<char>) -> Seq<char> {
    without_trailing_space(without_leading_space(s))
}

/// The first index at or after `from` that holds no white space.
pub fn skip_space(chars: &Vec<char>, from: usize) -> (r: usize)
    requires
        from <= chars@.len(),
    ensures
        from <= r <= chars@.len(),
        chars@.skip(r as int) == without_leading_space(chars@.skip(from as int)),
        r < chars@.len() ==> !is_space(chars@[r as int]),
{
    let mut i: usize = from;
    while i < chars.len() && is_whitespace(chars[i])
        invariant
            from <= i <= chars@.len(),
            without_leading_space(chars@.skip(i as int)) == without_leading_space(
                chars@.skip(from as int),
            ),
        decreases chars@.len() - i,
    {
        assert(chars@.skip(i as int).drop_first() =~= chars@.skip(i + 1));
        i += 1;
    }
    i
}

/// A text without the white space around it.
pub fn trim(s: &str) -> (r: String)
    ensures
        r@ == trimmed(s@),
{
    let chars = chars_of(s);
    let start = skip_space(&chars, 0);
    assert(chars@.skip(0) =~= chars@);
    let ghost body = chars@.skip(start as int);
    let mut end: usize = chars.len();
    assert(chars@.subrange(start as int, end as int) =~= body);
    while end > start && is_whitespace(chars[end - 1])
        invariant
            start <= end <= chars@.len(),
            without_trailing_space(chars@.subrange(start as int, end as int))
                == without_trailing_space(body),
        decreases end,
    {
        assert(chars@.subrange(start as int, end as int).drop_last() =~= chars@.subrange(
            start as int,
            end - 1,
        ));
        end -= 1;
    }
    text_between(&chars, start, end)
}

/// The index of the first `c`, or the length where there is none.
pub open spec fn first_at(s: Seq<char>, c: char) -> nat
    decreases s.len(),
{
    if s.len() == 0 || s[0] == c {
        0nat
    } else {
        1 + first_at(s.drop_first(), c)
    }
}

/// What `first_at` gives is the first place of the character.
pub proof fn lemma_first_at(s: Seq<char>, c: char)
    ensures
        0 <= first_at(s, c) <= s.len(),
        first_at(s, c) < s.len() ==> s[first_at(s, c) as int] == c,
        forall|i: int| 0 <= i < first_at(s, c) ==> s[i] != c,
        first_at(s, c) == s.len() <==> !s.contains(c),
    decreases s.len(),
{
    if s.len() > 0 && s[0] != c {
        let rest = s.drop_first();
        lemma_first_at(rest, c);
        assert forall|i: int| 0 <= i < first_at(s, c) implies s[i] != c by {
            if i > 0 {
                assert(s[i] == rest[i - 1]);
            }
        }
        if first_at(s, c) == s.len() {
            assert(!s.contains(c));
        } else {
            assert(s[first_at(s, c) as int] == c);
        }
    }
}

/// A first place is where the character stands and none stands before.
pub proof fn lemma_first_at_is(s: Seq<char>, c: char, k: int)
    requires
        0 <= k <= s.len(),
        k < s.len() ==> s[k] == c,
        forall|i: int| 0 <= i < k ==> s[i] != c,
    ensures
        first_at(s, c) == k,
{
    lemma_first_at(s, c);
}

/// The index of the first `c` at or after `from`, or the length where there
/// is none.
pub fn find_char(chars: &Vec<char>, c: char, from: usize) -> (r: usize)
    requires
        from <= chars@.len(),
    ensures
        from <= r <= chars@.len(),
        r == from + first_at(chars@.skip(from as int), c),
{
    let mut i: usize = from;
    while i < chars.len() && chars[i] != c
        invariant
            from <= i <= chars@.len(),
            forall|k: int| from <= k < i ==> chars@[k] != c,
        decreases chars@.len() - i,
    {
        i += 1;
    }
    proof {
        lemma_first_at_is(chars@.skip(from as int), c, i - from);
    }
    i
}

/// The parts of a text between one separator and the next.
pub open spec fn split_text(s: Seq<char>, sep: char) -> Seq<Seq<char>>
    decreases s.len(),
{
    let at = first_at(s, sep) as int;
    if at >= s.len() {
        seq![s]
    } else {
        seq![s.take(at)] + split_text(s.skip(at + 1), sep)
    }
}

/// The parts of a text between one separator and the next.
pub fn split(s: &str, sep: char) -> (r: Vec<String>)
    ensures
        views(r@) == split_text(s@, sep),
        r@.len() > 0,
{
    let chars = chars_of(s);
    let mut out: Vec<String> = Vec::new();
    let mut from: usize = 0;
    assert(chars@.skip(0) =~= chars@);
    proof {
        lemma_first_at(s@, sep);
    }
    assert(split_text(s@, sep) =~= views(out@) + split_text(s@, sep));
    loop
        invariant_except_break
            chars@ == s@,
            from <= chars@.len(),
            split_text(s@, sep) == views(out@) + split_text(chars@.skip(from as int), sep),
        ensures
            views(out@) == split_text(s@, sep),
            out@.len() > 0,
        decreases chars@.len() - from,
    {
        let at = find_char(&chars, sep, from);
        let ghost rest = chars@.skip(from as int);
        let ghost before = out@;
        proof {
            lemma_first_at(rest, sep);
        }
        let part = text_between(&chars, from, at);
        out.push(part);
        assert(part@ =~= rest.take(at - from));
        assert(views(out@) =~= views(before).push(part@));
        if at == chars.len() {
            assert(rest.take(at - from) =~= rest);
            assert(views(out@) =~= split_text(s@, sep));
            break;
        }
        assert(rest.skip(at - from + 1) =~= chars@.skip(at + 1));
        from = at + 1;
        assert(views(out@) + split_text(chars@.skip(from as int), sep) =~= views(before)
            + split_text(rest, sep));
    }
    out
}

/// The texts one after the other, with the separator between them.
pub open spec fn join_texts(parts: Seq<Seq<char>>, sep: Seq<char>) -> Seq<char>
    decreases parts.len(),
{
    if parts.len() == 0 {
        Seq::empty()
    } else if parts.len() == 1 {
        parts[0]
    } else {
        join_texts(parts.drop_last(), sep) + sep + parts.last()
    }
}

/// The texts one after the other, with the separator between them.
pub fn join(parts: &Vec<String>, sep: &str) -> (r: String)
    ensures
        r@ == join_texts(views(parts@), sep@),
{
    let mut out = String::new();
    let mut i: usize = 0;
    while i < parts.len()
        invariant
            i <= parts@.len(),
            out@ == join_texts(views(parts@).take(i as int), sep@),
        decreases parts@.len() - i,
    {
        if i > 0 {
            out.append(sep);
        }
        out.append(parts[i].as_str());
        proof {
            let longer = views(parts@).take(i + 1);
            assert(longer.drop_last() =~= views(parts@).take(i as int));
            if i == 0 {
                assert(out@ =~= longer[0]);
            }
        }
        i += 1;
    }
    assert(views(parts@).take(parts@.len() as int) =~= views(parts@));
    out
}

/// Whether one text comes before another in the order of their characters.
pub open spec fn text_less(a: Seq<char>, b: Seq<char>) -> bool
    decreases a.len(),
{
    if b.len() == 0 {
        false
    } else if a.len() == 0 {
        true
    } else if a[0] != b[0] {
        a[0] < b[0]
    } else {
        text_less(a.drop_first(), b.drop_first())
    }
}

/// Whether one text comes before another.
pub fn comes_before(a: &str, b: &str) -> (r: bool)
    ensures
        r == text_less(a@, b@),
{
    let left = chars_of(a);
    let right = chars_of(b);
    let mut i: usize = 0;
    assert(left@.skip(0) =~= left@);
    assert(right@.skip(0) =~= right@);
    while i < left.len() && i < right.len() && left[i] == right[i]
        invariant
            i <= left@.len(),
            i <= right@.len(),
            text_less(a@, b@) == text_less(left@.skip(i as int), right@.skip(i as int)),
        decreases left@.len() - i,
    {
        assert(left@.skip(i as int).drop_first() =~= left@.skip(i + 1));
        assert(right@.skip(i as int).drop_first() =~= right@.skip(i + 1));
        i += 1;
    }
    if i == right.len() {
        false
    } else if i == left.len() {
        true
    } else {
        left[i] < right[i]
    }
}

/// The order of texts is one in which no text comes before itself.
pub proof fn text_less_irreflexive(a: Seq<char>)
    ensures
        !text_less(a, a),
    decreases a.len(),
{
    if a.len() > 0 {
        text_less_irreflexive(a.drop_first());
    }
}

/// Of two different texts one comes before the other.
pub proof fn text_less_total(a: Seq<char>, b: Seq<char>)
    ensures
        a == b || text_less(a, b) || text_less(b, a),
    decreases a.len(),
{
    if a.len() == 0 || b.len() == 0 {
        assert(a.len() == b.len() ==> a =~= b);
    } else if a[0] == b[0] {
        text_less_total(a.drop_first(), b.drop_first());
        if a.drop_first() == b.drop_first() {
            assert(a =~= seq![a[0]] + a.drop_first());
            assert(b =~= seq![b[0]] + b.drop_first());
        }
    }
}

/// What comes before a text comes before all that the text comes before.
pub proof fn text_less_transitive(a: Seq<char>, b: Seq<char>, c: Seq<char>)
    requires
        text_less(a, b),
        text_less(b, c),
    ensures
        text_less(a, c),
    decreases a.len(),
{
    if a.len() > 0 && a[0] == b[0] && b[0] == c[0] {
        text_less_transitive(a.drop_first(), b.drop_first(), c.drop_first());
    }
}

/// Whether each text comes before all that follow it.
pub open spec fn in_order(s: Seq<Seq<char>>) -> bool {
    forall|i: int, j: int| 0 <= i < j < s.len() ==> text_less(#[trigger] s[i], #[trigger] s[j])
}

/// Whether a text is one of the given ones.
pub fn contains_text(texts: &Vec<String>, text: &str) -> (r: bool)
    ensures
        r == views(texts@).contains(text@),
{
    let mut i: usize = 0;
    while i < texts.len()
        invariant
            i <= texts@.len(),
            forall|k: int| 0 <= k < i ==> (#[trigger] texts@[k])@ != text@,
        decreases texts@.len() - i,
    {
        if same_text(texts[i].as_str(), text) {
            assert(views(texts@)[i as int] == text@);
            return true;
        }
        i += 1;
    }
    proof {
        assert forall|k: int| 0 <= k < texts@.len() implies #[trigger] views(texts@)[k] != text@ by {
            assert(texts@[k]@ != text@);
        }
    }
    false
}

/// No part of a split text holds the separator.
pub proof fn lemma_split_parts(s: Seq<char>, sep: char)
    ensures
        split_text(s, sep).len() > 0,
        forall|i: int|
            0 <= i < split_text(s, sep).len() ==> !(#[trigger] split_text(s, sep)[i]).contains(sep),
    decreases s.len(),
{
    lemma_first_at(s, sep);
    let at = first_at(s, sep) as int;
    let parts = split_text(s, sep);
    if at < s.len() {
        let rest = s.skip(at + 1);
        lemma_split_parts(rest, sep);
        assert forall|i: int| 0 <= i < parts.len() implies !(#[trigger] parts[i]).contains(sep) by {
            if i == 0 {
                assert(parts[0] == s.take(at));
            } else {
                assert(parts[i] == split_text(rest, sep)[i - 1]);
            }
        }
    } else {
        assert(parts[0] == s);
    }
}

/// Splitting a text and one more part behind a separator.
proof fn lemma_split_append(a: Seq<char>, b: Seq<char>, sep: char)
    requires
        !b.contains(sep),
    ensures
        split_text(a + seq![sep] + b, sep) == split_text(a, sep).push(b),
    decreases a.len(),
{
    let s = a + seq![sep] + b;
    lemma_first_at(a, sep);
    let at = first_at(a, sep) as int;
    if at < a.len() {
        lemma_first_at_is(s, sep, at);
        let rest = a.skip(at + 1);
        assert(s.take(at) =~= a.take(at));
        assert(s.skip(at + 1) =~= rest + seq![sep] + b);
        lemma_split_append(rest, b, sep);
        assert(split_text(s, sep) =~= split_text(a, sep).push(b));
    } else {
        lemma_first_at_is(s, sep, at);
        assert(s.take(at) =~= a);
        assert(s.skip(at + 1) =~= b);
        lemma_first_at(b, sep);
        assert(split_text(b, sep) =~= seq![b]);
        assert(split_text(s, sep) =~= split_text(a, sep).push(b));
    }
}

/// Joining parts that do not hold the separator and splitting the result gives
/// the parts back.
pub proof fn split_undoes_join(parts: Seq<Seq<char>>, sep: char)
    requires
        parts.len() > 0,
        forall|i: int| 0 <= i < parts.len() ==> !(#[trigger] parts[i]).contains(sep),
    ensures
        split_text(join_texts(parts, seq![sep]), sep) == parts,
    decreases parts.len(),
{
    if parts.len() == 1 {
        lemma_first_at(parts[0], sep);
        assert(split_text(parts[0], sep) =~= parts);
    } else {
        let init = parts.drop_last();
        assert forall|i: int| 0 <= i < init.len() implies !(#[trigger] init[i]).contains(sep) by {
            assert(init[i] == parts[i]);
        }
        split_undoes_join(init, sep);
        assert(parts.last() == parts[parts.len() - 1]);
        lemma_split_append(join_texts(init, seq![sep]), parts.last(), sep);
        assert(init.push(parts.last()) =~= parts);
    }
}

proof fn lemma_without_leading_space(s: Seq<char>)
    ensures
        exists|k: int| 0 <= k <= s.len() && without_leading_space(s) == #[trigger] s.skip(k),
        without_leading_space(s).len() > 0 ==> !is_space(without_leading_space(s)[0]),
    decreases s.len(),
{
    if s.len() > 0 && is_space(s[0]) {
        lemma_without_leading_space(s.drop_first());
        let k = choose|k: int|
            0 <= k <= s.drop_first().len() && without_leading_space(s.drop_first()) == #[trigger]
                s.drop_first().skip(k);
        assert(s.drop_first().skip(k) =~= s.skip(k + 1));
    } else {
        assert(s.skip(0) =~= s);
    }
}

proof fn lemma_without_trailing_space(s: Seq<char>)
    ensures
        exists|k: int| 0 <= k <= s.len() && without_trailing_space(s) == #[trigger] s.take(k),
        without_trailing_space(s).len() > 0 ==> !is_space(without_trailing_space(s).last()),
    decreases s.len(),
{
    if s.len() > 0 && is_space(s.last()) {
        lemma_without_trailing_space(s.drop_last());
        let k = choose|k: int|
            0 <= k <= s.drop_last().len() && without_trailing_space(s.drop_last()) == #[trigger]
                s.drop_last().take(k);
        assert(s.drop_last().take(k) =~= s.take(k));
    } else {
        assert(s.take(s.len() as int) =~= s);
    }
}

/// What is left of a text without the space around it is a part of the text,
/// has no space around it, and stays as it is when trimmed again.
pub proof fn trimming_settles(s: Seq<char>)
    ensures
        exists|i: int, j: int| 0 <= i <= j <= s.len() && trimmed(s) == #[trigger] s.subrange(i, j),
        trimmed(s).len() > 0 ==> !is_space(trimmed(s)[0]) && !is_space(trimmed(s).last()),
        trimmed(trimmed(s)) == trimmed(s),
{
    let body = without_leading_space(s);
    lemma_without_leading_space(s);
    lemma_without_trailing_space(body);
    let i = choose|i: int| 0 <= i <= s.len() && body == #[trigger] s.skip(i);
    let n = choose|n: int|
        0 <= n <= body.len() && without_trailing_space(body) == #[trigger] body.take(n);
    assert(body.take(n) =~= s.subrange(i, i + n));
    let t = trimmed(s);
    if t.len() > 0 {
        assert(t[0] == body[0]);
    }
}

/// Texts in order are determined by which texts they are.
pub proof fn order_is_unique(a: Seq<Seq<char>>, b: Seq<Seq<char>>)
    requires
        in_order(a),
        in_order(b),
        forall|t: Seq<char>| #[trigger] a.contains(t) <==> b.contains(t),
    ensures
        a == b,
{
    lemma_order_prefix(a, b, a.len() as int);
    lemma_order_prefix(b, a, b.len() as int);
    assert(a.take(a.len() as int) =~= a);
    assert(b.take(b.len() as int) =~= b);
}

proof fn lemma_order_prefix(a: Seq<Seq<char>>, b: Seq<Seq<char>>, k: int)
    requires
        in_order(a),
        in_order(b),
        forall|t: Seq<char>| #[trigger] a.contains(t) <==> b.contains(t),
        0 <= k <= a.len(),
    ensures
        k <= b.len(),
        a.take(k) == b.take(k),
    decreases k,
{
    if k > 0 {
        let n = k - 1;
        lemma_order_prefix(a, b, n);
        assert(a.contains(a[n]));
        let j = choose|j: int| 0 <= j < b.len() && b[j] == a[n];
        if j < n {
            assert(a.take(n)[j] == b.take(n)[j]);
            text_less_irreflexive(a[n]);
        }
        assert(b.contains(b[n]) && a.contains(b[n]));
        let i = choose|i: int| 0 <= i < a.len() && a[i] == b[n];
        if i < n {
            assert(a.take(n)[i] == b.take(n)[i]);
            text_less_irreflexive(b[n]);
        }
        if a[n] != b[n] {
            text_less_transitive(a[n], b[n], a[n]);
            text_less_irreflexive(a[n]);
        }
        assert(a.take(k) =~= a.take(n).push(a[n]));
        assert(b.take(k) =~= b.take(n).push(b[n]));
    } else {
        assert(a.take(0) =~= b.take(0));
    }
}

/// Whether a text is white space alone.
pub open spec fn is_blank(s: Seq<char>) -> bool {
    forall|i: int| 0 <= i < s.len() ==> is_space(#[trigger] s[i])
}

proof fn lemma_leading_space_goes(blank: Seq<char>, s: Seq<char>)
    requires
        is_blank(blank),
        s.len() > 0 ==> !is_space(s[0]),
    ensures
        without_leading_space(blank + s) == s,
    decreases blank.len(),
{
    if blank.len() > 0 {
        assert((blank + s)[0] == blank[0]);
        assert((blank + s).drop_first() =~= blank.drop_first() + s);
        lemma_leading_space_goes(blank.drop_first(), s);
    } else {
        assert(blank + s =~= s);
    }
}

proof fn lemma_trailing_space_goes(s: Seq<char>, blank: Seq<char>)
    requires
        is_blank(blank),
        s.len() > 0 ==> !is_space(s.last()),
    ensures
        without_trailing_space(s + blank) == s,
    decreases blank.len(),
{
    if blank.len() > 0 {
        assert((s + blank).last() == blank.last());
        assert(blank.last() == blank[blank.len() - 1]);
        assert((s + blank).drop_last() =~= s + blank.drop_last());
        lemma_trailing_space_goes(s, blank.drop_last());
    } else {
        assert(s + blank =~= s);
    }
}

/// A text in white space is left without it, and white space alone leaves nothing.
pub proof fn trimming_leaves_what_is_in_the_space(
    before: Seq<char>,
    s: Seq<char>,
    after: Seq<char>,
)
    requires
        is_blank(before),
        is_blank(after),
        s.len() > 0 ==> !is_space(s[0]) && !is_space(s.last()),
    ensures
        trimmed(before + s + after) == s,
{
    if s.len() > 0 {
        assert(before + s + after =~= before + (s + after));
        assert((s + after)[0] == s[0]);
        lemma_leading_space_goes(before, s + after);
        lemma_trailing_space_goes(s, after);
    } else {
        let all = before + s + after;
        assert(is_blank(all)) by {
            assert forall|i: int| 0 <= i < all.len() implies is_space(#[trigger] all[i]) by {
                if i < before.len() {
                    assert(all[i] == before[i]);
                } else {
                    assert(all[i] == after[i - before.len()]);
                }
            }
        }
        lemma_leading_space_goes(all, s);
        assert(all + s =~= all);
        assert(without_trailing_space(s) =~= s);
    }
}

/// The blanks, tabs and ends of lines of ASCII are white space, and no letter, no
/// digit and no mark of ASCII is.
pub proof fn ascii_space_is_blanks_and_ends_of_lines(c: char)
    requires
        (c as u32) < 0x80,
    ensures
        is_space(c) <==> c == ' ' || c == '\t' || c == '\n' || c == '\r' || c == '\x0B' || c
            == '\x0C',
{
}

/// The separator joined between the parts of a split text gives the text back.
pub proof fn join_undoes_split(s: Seq<char>, sep: char)
    ensures
        join_texts(split_text(s, sep), seq![sep]) == s,
    decreases s.len(),
{
    lemma_first_at(s, sep);
    let at = first_at(s, sep) as int;
    if at < s.len() {
        let rest = s.skip(at + 1);
        join_undoes_split(rest, sep);
        lemma_split_parts(rest, sep);
        lemma_join_first(s.take(at), split_text(rest, sep), seq![sep]);
        assert(s =~= s.take(at) + seq![sep] + rest);
    }
}

proof fn lemma_join_first(first: Seq<char>, parts: Seq<Seq<char>>, sep: Seq<char>)
    requires
        parts.len() > 0,
    ensures
        join_texts(seq![first] + parts, sep) == first + sep + join_texts(parts, sep),
    decreases parts.len(),
{
    reveal_with_fuel(join_texts, 2);
    let all = seq![first] + parts;
    if parts.len() == 1 {
        assert(all.drop_last() =~= seq![first]);
        assert(all.last() == parts[0]);
    } else {
        assert(all.drop_last() =~= seq![first] + parts.drop_last());
        lemma_join_first(first, parts.drop_last(), sep);
        assert(all.last() == parts.last());
        assert(join_texts(all, sep) =~= first + sep + join_texts(parts, sep));
    }
}

} // verus!
