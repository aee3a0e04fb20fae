//! Texts: the operations on strings that the compiler needs.
use vstd::prelude::*;

verus! {

/// `==` on two string slices: whether they hold the same characters.
#[verifier::external_body]
pub(crate) fn str_eq(a: &str, b: &str) -> (r: bool)
    ensures
        r == (a@ == b@),
{
    a == b
}

/// `String::push`: appends one character.
pub assume_specification[ String::push ](s: &mut String, c: char)
    ensures
        final(s)@ == old(s)@.push(c),
;

/// The characters with the Unicode property White_Space.
pub open spec fn white_space(c: char) -> bool {
    let u = c as u32;
    ||| 0x9 <= u <= 0xd
    ||| u == 0x20
    ||| u == 0x85
    ||| u == 0xa0
    ||| u == 0x1680
    ||| 0x2000 <= u <= 0x200a
    ||| u == 0x2028
    ||| u == 0x2029
    ||| u == 0x202f
    ||| u == 0x205f
    ||| u == 0x3000
}

/// `char::is_whitespace`: whether the character has the Unicode property White_Space.
pub assume_specification[ char::is_whitespace ](c: char) -> (r: bool)
    ensures
        r == white_space(c),
;

/// The characters of a text.
pub fn chars_of(s: &str) -> (r: Vec<char>)
    ensures
        r@ == s@,
{
    let mut r: Vec<char> = Vec::new();
    for c in it: s.chars()
        invariant
            it.seq() == s@,
            r@ == s@.take(it.index() as int),
    {
        proof {
            assert(s@.take(it.index() as int).push(c) =~= s@.take(it.index() + 1));
        }
        r.push(c);
    }
    assert(s@.take(s@.len() as int) =~= s@);
    r
}

/// The text of characters `from` to `to`.
pub fn text_of(chars: &Vec<char>, from: usize, to: usize) -> (r: String)
    requires
        from <= to <= chars@.len(),
    ensures
        r@ == chars@.subrange(from as int, to as int),
{
    let mut r: String = String::new();
    let mut i: usize = from;
    assert(chars@.subrange(from as int, from as int) =~= Seq::empty());
    while i < to
        invariant
            from <= i <= to <= chars@.len(),
            r@ == chars@.subrange(from as int, i as int),
        decreases to - i,
    {
        r.push(chars[i]);
        i += 1;
        assert(chars@.subrange(from as int, i as int) =~= chars@.subrange(from as int, i - 1).push(
            chars@[i - 1],
        ));
    }
    r
}

/// Two texts, one after the other.
pub fn joined_pair(a: &str, b: &str) -> (r: String)
    ensures
        r@ == a@ + b@,
{
    let mut r: String = a.to_owned();
    r.append(b);
    r
}

/// The first place of `x` in `s`.
pub open spec fn position<T>(s: Seq<T>, x: T) -> Option<nat>
    decreases s.len(),
{
    if s.len() == 0 {
        None
    } else {
        match position(s.drop_last(), x) {
            Some(i) => Some(i),
            None => if s.last() == x {
                Some((s.len() - 1) as nat)
            } else {
                None
            },
        }
    }
}

/// A position found in a beginning of a sequence is that in the whole of it.
pub proof fn lemma_position_prefix<T>(s: Seq<T>, x: T, n: int)
    requires
        0 <= n <= s.len(),
    ensures
        position(s.take(n), x) is Some ==> position(s, x) == position(s.take(n), x),
    decreases s.len() - n,
{
    if n < s.len() {
        assert(s.take(n + 1).drop_last() =~= s.take(n));
        lemma_position_prefix(s, x, n + 1);
    } else {
        assert(s.take(n) =~= s);
    }
}

/// What a position is: a place of `x`, and the first.
pub proof fn lemma_position<T>(s: Seq<T>, x: T)
    ensures
        match position(s, x) {
            Some(i) => i < s.len() && s[i as int] == x && (forall|j: int| 0 <= j < i ==> s[j] != x),
            None => forall|j: int| 0 <= j < s.len() ==> s[j] != x,
        },
    decreases s.len(),
{
    if s.len() > 0 {
        lemma_position(s.drop_last(), x);
        assert forall|j: int| 0 <= j < s.len() - 1 implies s[j] == s.drop_last()[j] by {}
    }
}

/// Texts joined with `separator` between them.
pub open spec fn joined(parts: Seq<Seq<char>>, separator: Seq<char>) -> Seq<char>
    decreases parts.len(),
{
    if parts.len() == 0 {
        Seq::empty()
    } else if parts.len() == 1 {
        parts[0]
    } else {
        joined(parts.drop_last(), separator) + separator + parts.last()
    }
}

/// The texts of a list of strings.
pub open spec fn texts(s: Seq<String>) -> Seq<Seq<char>> {
    s.map_values(|x: String| x@)
}

/// Joins texts with `separator` between them.
pub fn join(parts: &Vec<String>, separator: &str) -> (r: String)
    ensures
        r@ == joined(texts(parts@), separator@),
{
    let mut r: String = String::new();
    let n: usize = parts.len();
    let mut i: usize = 0;
    let ghost all = texts(parts@);
    assert(all.take(0) =~= Seq::empty());
    while i < n
        invariant
            i <= n,
            n == parts@.len(),
            all == texts(parts@),
            r@ == joined(all.take(i as int), separator@),
        decreases n - i,
    {
        assert(all.take(i + 1).drop_last() =~= all.take(i as int));
        if i > 0 {
            r.append(separator);
        }
        r.append(parts[i].as_str());
        proof {
            assert(all.take(i + 1).last() == parts@[i as int]@);
            if i == 0 {
                assert(Seq::<char>::empty() + parts@[0]@ =~= parts@[0]@);
            }
        }
        i += 1;
    }
    assert(all.take(n as int) =~= all);
    r
}

/// The parts of a text between the characters `c`.
pub open spec fn split_on(s: Seq<char>, c: char) -> Seq<Seq<char>>
    decreases s.len(),
{
    if s.len() == 0 {
        seq![Seq::empty()]
    } else {
        let before = split_on(s.drop_last(), c);
        if s.last() == c {
            before.push(Seq::empty())
        } else {
            before.update(before.len() - 1, before.last().push(s.last()))
        }
    }
}

/// There is always at least one part.
pub proof fn lemma_split_nonempty(s: Seq<char>, c: char)
    ensures
        split_on(s, c).len() > 0,
    decreases s.len(),
{
    if s.len() > 0 {
        lemma_split_nonempty(s.drop_last(), c);
    }
}

/// The parts are made of the characters of the text other than `c`.
pub proof fn lemma_split_characters(s: Seq<char>, c: char, i: int, j: int)
    requires
        0 <= i < split_on(s, c).len(),
        0 <= j < split_on(s, c)[i].len(),
    ensures
        split_on(s, c)[i][j] != c,
        s.contains(split_on(s, c)[i][j]),
    decreases s.len(),
{
    if s.len() > 0 {
        let before = split_on(s.drop_last(), c);
        lemma_split_nonempty(s.drop_last(), c);
        if s.last() != c && i == before.len() - 1 && j == before[i].len() {
            assert(s[s.len() - 1] == s.last());
        } else {
            lemma_split_characters(s.drop_last(), c, i, j);
            let k = choose|k: int| 0 <= k < s.len() - 1 && s.drop_last()[k] == before[i][j];
            assert(s[k] == before[i][j]);
        }
    }
}

/// A text after a `c`, with none in it, is one more part.
pub proof fn lemma_split_one_more(a: Seq<char>, c: char, b: Seq<char>)
    requires
        !b.contains(c),
    ensures
        split_on(a.push(c) + b, c) == split_on(a, c).push(b),
    decreases b.len(),
{
    let s = a.push(c) + b;
    if b.len() == 0 {
        assert(s =~= a.push(c));
        assert(a.push(c).drop_last() =~= a);
        assert(b =~= Seq::empty());
    } else {
        assert(s.drop_last() =~= a.push(c) + b.drop_last());
        assert forall|i: int| 0 <= i < b.len() - 1 implies b.drop_last()[i] != c by {
            assert(b.contains(b[i]));
        }
        lemma_split_one_more(a, c, b.drop_last());
        assert(b.contains(b.last()));
        assert(b.drop_last().push(b.last()) =~= b);
        assert(split_on(s, c) =~= split_on(a, c).push(b));
    }
}

/// A text without a `c` is one part.
pub proof fn lemma_split_whole(s: Seq<char>, c: char)
    requires
        !s.contains(c),
    ensures
        split_on(s, c) == seq![s],
    decreases s.len(),
{
    if s.len() == 0 {
        assert(s =~= Seq::empty());
    } else {
        assert forall|i: int| 0 <= i < s.len() - 1 implies s.drop_last()[i] != c by {
            assert(s.contains(s[i]));
        }
        lemma_split_whole(s.drop_last(), c);
        assert(s.contains(s.last()));
        assert(s.drop_last().push(s.last()) =~= s);
        assert(split_on(s, c) =~= seq![s]);
    }
}

/// Splits a text at the characters `c`.
pub fn split(s: &str, c: char) -> (r: Vec<String>)
    ensures
        texts(r@) == split_on(s@, c),
        r@.len() > 0,
{
    let chars = chars_of(s);
    let n: usize = chars.len();
    let mut r: Vec<String> = Vec::new();
    r.push(String::new());
    let mut i: usize = 0;
    assert(chars@.take(0) =~= Seq::empty());
    assert(texts(r@) =~= seq![Seq::<char>::empty()]);
    while i < n
        invariant
            i <= n,
            n == chars@.len(),
            r@.len() > 0,
            texts(r@) == split_on(chars@.take(i as int), c),
        decreases n - i,
    {
        let ghost before = texts(r@);
        assert(chars@.take(i + 1).drop_last() =~= chars@.take(i as int));
        let x = chars[i];
        if x == c {
            r.push(String::new());
            assert(texts(r@) =~= before.push(Seq::empty()));
        } else {
            let k: usize = r.len();
            let last = &mut r[k - 1];
            last.push(x);
            assert(texts(r@) =~= before.update(before.len() - 1, before.last().push(x)));
        }
        i += 1;
    }
    assert(chars@.take(n as int) =~= chars@);
    r
}

} // verus!
