//! Small tools on text: strings seen as sequences of characters.

use vstd::prelude::*;
use vstd::std_specs::iter::IteratorSpec;

verus! {

/// `String::push` appends one character.
pub assume_specification[ String::push ](s: &mut String, c: char)
    ensures
        final(s)@ == old(s)@.push(c),
;

/// The texts held by a list of strings.
pub open spec fn texts(v: Seq<String>) -> Seq<Seq<char>> {
    v.map_values(|s: String| s@)
}

/// The characters of a string.
pub fn chars_of(s: &str) -> (v: Vec<char>)
    ensures
        v@ == s@,
{
    let mut v: Vec<char> = Vec::new();
    let it0 = s.chars();
    for c in it: it0
        invariant
            it.seq() == s@,
            v@ == it.seq().take(it.index() as int),
    {
        v.push(c);
    }
    v
}

/// The string made of the given characters.
pub fn string_of(chars: &Vec<char>) -> (s: String)
    ensures
        s@ == chars@,
{
    let mut s = String::new();
    let mut i: usize = 0;
    while i < chars.len()
        invariant
            i <= chars.len(),
            s@ == chars@.take(i as int),
        decreases chars.len() - i,
    {
        s.push(chars[i]);
        i += 1;
    }
    s
}

/// Tells whether two strings hold the same text.
pub fn same_text(a: &str, b: &str) -> (r: bool)
    ensures
        r == (a@ == b@),
{
    let x = a.to_owned();
    let y = b.to_owned();
    x == y
}

/// An owned copy of a string.
pub fn owned(s: &str) -> (r: String)
    ensures
        r@ == s@,
{
    s.to_owned()
}

/// A copy of a list of strings.
pub fn clone_strings(v: &Vec<String>) -> (r: Vec<String>)
    ensures
        texts(r@) == texts(v@),
{
    let mut r: Vec<String> = Vec::new();
    let mut i: usize = 0;
    while i < v.len()
        invariant
            i <= v.len(),
            texts(r@) == texts(v@).take(i as int),
        decreases v.len() - i,
    {
        let ghost before = r@;
        let copy = v[i].clone();
        r.push(copy);
        i += 1;
        assert(texts(r@) =~= texts(before).push(copy@));
        assert(texts(v@).take(i as int) =~= texts(v@).take(i - 1).push(v@[i - 1]@));
    }
    assert(texts(v@).take(v.len() as int) =~= texts(v@));
    r
}

/// Tells whether `c` occurs in `s`.
pub fn contains_char(s: &str, c: char) -> (r: bool)
    ensures
        r == s@.contains(c),
{
    let chars = chars_of(s);
    let mut i: usize = 0;
    while i < chars.len()
        invariant
            i <= chars.len(),
            chars@ == s@,
            forall|j: int| 0 <= j < i ==> chars@[j] != c,
        decreases chars.len() - i,
    {
        if chars[i] == c {
            return true;
        }
        i += 1;
    }
    false
}

/// The pieces of `s` between occurrences of `sep`. A text without `sep` is
/// one piece; the empty text is one empty piece.
pub open spec fn split_text(s: Seq<char>, sep: char) -> Seq<Seq<char>>
    decreases s.len(),
{
    if s.len() == 0 {
        seq![Seq::empty()]
    } else {
        let head = split_text(s.drop_last(), sep);
        if s.last() == sep {
            head.push(Seq::empty())
        } else {
            head.drop_last().push(head.last().push(s.last()))
        }
    }
}

/// A split has at least one piece.
pub proof fn lemma_split_nonempty(s: Seq<char>, sep: char)
    ensures
        split_text(s, sep).len() >= 1,
    decreases s.len(),
{
    if s.len() > 0 {
        lemma_split_nonempty(s.drop_last(), sep);
    }
}

/// No piece of a split holds the separator.
pub proof fn lemma_split_pieces_clean(s: Seq<char>, sep: char)
    ensures
        forall|i: int|
            0 <= i < split_text(s, sep).len() ==> !(#[trigger] split_text(s, sep)[i]).contains(
                sep,
            ),
    decreases s.len(),
{
    lemma_split_nonempty(s, sep);
    if s.len() > 0 {
        lemma_split_pieces_clean(s.drop_last(), sep);
        lemma_split_nonempty(s.drop_last(), sep);
        let head = split_text(s.drop_last(), sep);
        assert forall|i: int| 0 <= i < split_text(s, sep).len() implies !(#[trigger] split_text(
            s,
            sep,
        )[i]).contains(sep) by {
            if s.last() == sep {
                if i < head.len() {
                    assert(split_text(s, sep)[i] == head[i]);
                }
            } else {
                if i < head.len() - 1 {
                    assert(split_text(s, sep)[i] == head[i]);
                } else {
                    let piece = head.last().push(s.last());
                    assert(split_text(s, sep)[i] == piece);
                    assert(!head[head.len() - 1].contains(sep));
                    if piece.contains(sep) {
                        let k = choose|k: int| 0 <= k < piece.len() && piece[k] == sep;
                        if k < head.last().len() {
                            assert(head.last()[k] == sep);
                            assert(head.last().contains(sep));
                        }
                    }
                }
            }
        }
    }
}

/// Splits `s` at each occurrence of `sep`.
pub fn split(s: &str, sep: char) -> (pieces: Vec<String>)
    ensures
        texts(pieces@) == split_text(s@, sep),
        pieces@.len() >= 1,
{
    let chars = chars_of(s);
    let mut done: Vec<String> = Vec::new();
    let mut current: Vec<char> = Vec::new();
    let mut i: usize = 0;
    assert(chars@.take(0) =~= Seq::<char>::empty());
    assert(texts(done@).push(current@) =~= seq![Seq::<char>::empty()]);
    while i < chars.len()
        invariant
            i <= chars.len(),
            texts(done@).push(current@) == split_text(chars@.take(i as int), sep),
        decreases chars.len() - i,
    {
        let c = chars[i];
        let ghost head = split_text(chars@.take(i as int), sep);
        let ghost old_done = done@;
        let ghost old_current = current@;
        proof {
            assert(chars@.take(i + 1).drop_last() =~= chars@.take(i as int));
            assert(head.last() == old_current);
            assert(head.drop_last() =~= texts(old_done));
        }
        if c == sep {
            done.push(string_of(&current));
            current = Vec::new();
            assert(texts(done@) =~= texts(old_done).push(old_current));
        } else {
            current.push(c);
        }
        i += 1;
    }
    assert(chars@.take(chars.len() as int) =~= chars@);
    let ghost old_done = done@;
    done.push(string_of(&current));
    assert(texts(done@) =~= texts(old_done).push(current@));
    done
}

/// The texts written one after the other, with `sep` between them.
pub open spec fn joined_text(pieces: Seq<Seq<char>>, sep: Seq<char>) -> Seq<char>
    decreases pieces.len(),
{
    if pieces.len() == 0 {
        Seq::empty()
    } else if pieces.len() == 1 {
        pieces[0]
    } else {
        joined_text(pieces.drop_last(), sep) + sep + pieces.last()
    }
}

/// Writes the strings one after the other, with `sep` between them.
pub fn join(pieces: &Vec<String>, sep: &str) -> (r: String)
    ensures
        r@ == joined_text(texts(pieces@), sep@),
{
    let mut out = String::new();
    let mut i: usize = 0;
    assert(texts(pieces@).take(0) =~= Seq::<Seq<char>>::empty());
    while i < pieces.len()
        invariant
            i <= pieces.len(),
            out@ == joined_text(texts(pieces@).take(i as int), sep@),
        decreases pieces.len() - i,
    {
        proof {
            let next = texts(pieces@).take(i + 1);
            assert(next.drop_last() =~= texts(pieces@).take(i as int));
            assert(next.last() == pieces@[i as int]@);
            if i == 0 {
                assert(next[0] == pieces@[i as int]@);
                assert(out@ + pieces@[i as int]@ =~= pieces@[i as int]@);
            }
        }
        if i > 0 {
            out.append(sep);
        }
        out.append(pieces[i].as_str());
        i += 1;
    }
    assert(texts(pieces@).take(pieces.len() as int) =~= texts(pieces@));
    out
}

/// Tells whether `prefix` stands at the start of `s`.
pub open spec fn has_prefix(s: Seq<char>, prefix: Seq<char>) -> bool {
    prefix.len() <= s.len() && s.subrange(0, prefix.len() as int) == prefix
}

/// Tells whether `s` starts with `prefix`.
pub fn starts_with(s: &str, prefix: &str) -> (r: bool)
    ensures
        r == has_prefix(s@, prefix@),
{
    let a = chars_of(s);
    let b = chars_of(prefix);
    if b.len() > a.len() {
        return false;
    }
    let mut i: usize = 0;
    while i < b.len()
        invariant
            i <= b.len() <= a.len(),
            a@ == s@,
            b@ == prefix@,
            forall|j: int| 0 <= j < i ==> a@[j] == b@[j],
        decreases b.len() - i,
    {
        if a[i] != b[i] {
            assert(s@.subrange(0, prefix@.len() as int)[i as int] != prefix@[i as int]);
            return false;
        }
        i += 1;
    }
    assert(s@.subrange(0, prefix@.len() as int) =~= prefix@);
    true
}

/// The character that stands for a digit.
pub open spec fn digit_char(d: int) -> char {
    if d == 0 {
        '0'
    } else if d == 1 {
        '1'
    } else if d == 2 {
        '2'
    } else if d == 3 {
        '3'
    } else if d == 4 {
        '4'
    } else if d == 5 {
        '5'
    } else if d == 6 {
        '6'
    } else if d == 7 {
        '7'
    } else if d == 8 {
        '8'
    } else {
        '9'
    }
}

/// A number written in base ten, without leading zeros.
pub open spec fn decimal(n: nat) -> Seq<char>
    decreases n,
{
    if n < 10 {
        seq![digit_char(n as int)]
    } else {
        decimal(n / 10).push(digit_char((n % 10) as int))
    }
}

fn digit(d: u64) -> (c: char)
    requires
        d < 10,
    ensures
        c == digit_char(d as int),
{
    if d == 0 {
        '0'
    } else if d == 1 {
        '1'
    } else if d == 2 {
        '2'
    } else if d == 3 {
        '3'
    } else if d == 4 {
        '4'
    } else if d == 5 {
        '5'
    } else if d == 6 {
        '6'
    } else if d == 7 {
        '7'
    } else if d == 8 {
        '8'
    } else {
        '9'
    }
}

fn push_decimal(out: &mut String, n: u64)
    ensures
        final(out)@ == old(out)@ + decimal(n as nat),
    decreases n,
{
    if n >= 10 {
        push_decimal(out, n / 10);
    }
    out.push(digit(n % 10));
    assert(out@ =~= old(out)@ + decimal(n as nat));
}

/// Writes a number in base ten.
pub fn decimal_text(n: u64) -> (s: String)
    ensures
        s@ == decimal(n as nat),
{
    let mut s = String::new();
    push_decimal(&mut s, n);
    assert(Seq::<char>::empty() + decimal(n as nat) =~= decimal(n as nat));
    s
}


/// The number of times that `c` stands in `s`.
pub open spec fn count_char(s: Seq<char>, c: char) -> nat
    decreases s.len(),
{
    if s.len() == 0 {
        0
    } else {
        count_char(s.drop_last(), c) + if s.last() == c {
            1nat
        } else {
            0nat
        }
    }
}

/// A split has one piece more than the text has separators.
pub proof fn lemma_split_len(s: Seq<char>, sep: char)
    ensures
        split_text(s, sep).len() == count_char(s, sep) + 1,
    decreases s.len(),
{
    if s.len() > 0 {
        lemma_split_len(s.drop_last(), sep);
    }
}

/// Splitting a text that ends a piece longer: the last piece grows, the
/// others stay.
pub proof fn lemma_split_append_clean(s: Seq<char>, tail: Seq<char>, sep: char)
    requires
        !tail.contains(sep),
    ensures
        split_text(s + tail, sep) == split_text(s, sep).drop_last().push(
            split_text(s, sep).last() + tail,
        ),
    decreases tail.len(),
{
    lemma_split_nonempty(s, sep);
    let head = split_text(s, sep);
    if tail.len() == 0 {
        assert(s + tail =~= s);
        assert(head.last() + tail =~= head.last());
        assert(head.drop_last().push(head.last()) =~= head);
    } else {
        let init = tail.drop_last();
        assert forall|i: int| 0 <= i < init.len() implies init[i] != sep by {
            assert(tail.contains(tail[i]));
        }
        lemma_split_append_clean(s, init, sep);
        assert((s + tail).drop_last() =~= s + init);
        assert(tail.contains(tail.last()));
        let mid = split_text(s + init, sep);
        assert(mid.last() == head.last() + init);
        assert(mid.drop_last() =~= head.drop_last());
        assert((head.last() + init).push(tail.last()) =~= head.last() + tail);
    }
}

/// Splitting a text made of a text, a separator and a clean tail gives the
/// pieces of the first text and then the tail.
pub proof fn lemma_split_join_step(s: Seq<char>, tail: Seq<char>, sep: char)
    requires
        !tail.contains(sep),
    ensures
        split_text(s + seq![sep] + tail, sep) == split_text(s, sep).push(tail),
{
    let with_sep = s + seq![sep];
    assert(with_sep.drop_last() =~= s);
    assert(with_sep.last() == sep);
    assert(split_text(with_sep, sep) == split_text(s, sep).push(Seq::empty()));
    lemma_split_append_clean(with_sep, tail, sep);
    assert(split_text(s, sep).push(Seq::empty()).drop_last() =~= split_text(s, sep));
    assert(Seq::<char>::empty() + tail =~= tail);
}

/// Splitting what was joined gives the pieces back, where no piece holds
/// the separator.
pub proof fn lemma_split_joined(pieces: Seq<Seq<char>>, sep: char)
    requires
        pieces.len() >= 1,
        forall|i: int| 0 <= i < pieces.len() ==> !(#[trigger] pieces[i]).contains(sep),
    ensures
        split_text(joined_text(pieces, seq![sep]), sep) == pieces,
    decreases pieces.len(),
{
    if pieces.len() == 1 {
        lemma_split_append_clean(Seq::empty(), pieces[0], sep);
        assert(Seq::<char>::empty() + pieces[0] =~= pieces[0]);
        assert(split_text(Seq::empty(), sep) =~= seq![Seq::<char>::empty()]);
        assert(seq![Seq::<char>::empty()].drop_last().push(pieces[0]) =~= pieces);
    } else {
        let init = pieces.drop_last();
        assert forall|i: int| 0 <= i < init.len() implies !(#[trigger] init[i]).contains(sep) by {
            assert(init[i] == pieces[i]);
        }
        lemma_split_joined(init, sep);
        lemma_split_join_step(joined_text(init, seq![sep]), pieces.last(), sep);
        assert(init.push(pieces.last()) =~= pieces);
    }
}


/// What is left of `s` behind `prefix`, where `s` starts with it.
pub fn strip_prefix(s: &str, prefix: &str) -> (r: Option<String>)
    ensures
        match r {
            Some(rest) => has_prefix(s@, prefix@) && rest@ == s@.subrange(
                prefix@.len() as int,
                s@.len() as int,
            ),
            None => !has_prefix(s@, prefix@),
        },
{
    if !starts_with(s, prefix) {
        return None;
    }
    let a = chars_of(s);
    let b = chars_of(prefix);
    let mut rest: Vec<char> = Vec::new();
    let mut i: usize = b.len();
    while i < a.len()
        invariant
            b.len() <= i <= a.len(),
            rest@ == a@.subrange(b.len() as int, i as int),
        decreases a.len() - i,
    {
        rest.push(a[i]);
        i += 1;
        assert(rest@ =~= a@.subrange(b.len() as int, i as int));
    }
    Some(string_of(&rest))
}

/// Splitting at a separator splits the pieces: those before it, then those
/// behind it.
pub proof fn lemma_split_concat(s: Seq<char>, t: Seq<char>, sep: char)
    ensures
        split_text(s + seq![sep] + t, sep) == split_text(s, sep) + split_text(t, sep),
    decreases t.len(),
{
    lemma_split_nonempty(s, sep);
    if t.len() == 0 {
        lemma_split_join_step(s, t, sep);
        assert(split_text(s, sep).push(t) =~= split_text(s, sep) + split_text(t, sep));
    } else {
        let init = t.drop_last();
        lemma_split_concat(s, init, sep);
        lemma_split_nonempty(init, sep);
        assert((s + seq![sep] + t).drop_last() =~= s + seq![sep] + init);
        let left = split_text(s, sep);
        let right = split_text(init, sep);
        if t.last() == sep {
            assert((left + right).push(Seq::empty()) =~= left + right.push(Seq::empty()));
        } else {
            assert((left + right).last() == right.last());
            assert((left + right).drop_last() =~= left + right.drop_last());
            assert((left + right.drop_last()).push(right.last().push(t.last())) =~= left
                + right.drop_last().push(right.last().push(t.last())));
        }
    }
}

/// A copy of an optional string.
pub fn clone_option(s: &Option<String>) -> (r: Option<String>)
    ensures
        r == *s,
{
    match s {
        Some(text) => Some(text.clone()),
        None => None,
    }
}

/// The text of an optional string.
pub open spec fn option_view(s: Option<String>) -> Option<Seq<char>> {
    match s {
        Some(text) => Some(text@),
        None => None,
    }
}


/// Joining pieces of which the last is longer gives a longer text.
pub proof fn lemma_join_extend_last(pieces: Seq<Seq<char>>, sep: Seq<char>, tail: Seq<char>)
    requires
        pieces.len() >= 1,
    ensures
        joined_text(pieces.drop_last().push(pieces.last() + tail), sep) == joined_text(
            pieces,
            sep,
        ) + tail,
{
    let longer = pieces.drop_last().push(pieces.last() + tail);
    assert(longer.drop_last() =~= pieces.drop_last());
    assert(longer.last() == pieces.last() + tail);
    if pieces.len() == 1 {
        assert(longer[0] == pieces[0] + tail);
    } else {
        assert(joined_text(pieces.drop_last(), sep) + sep + (pieces.last() + tail)
            =~= joined_text(pieces.drop_last(), sep) + sep + pieces.last() + tail);
    }
}

/// Joining what was split gives the text back.
pub proof fn lemma_join_split(s: Seq<char>, sep: char)
    ensures
        joined_text(split_text(s, sep), seq![sep]) == s,
    decreases s.len(),
{
    lemma_split_nonempty(s, sep);
    if s.len() == 0 {
        assert(split_text(s, sep)[0] =~= s);
    } else {
        let init = s.drop_last();
        lemma_join_split(init, sep);
        lemma_split_nonempty(init, sep);
        let head = split_text(init, sep);
        if s.last() == sep {
            let all = head.push(Seq::empty());
            assert(all.drop_last() =~= head);
            assert(joined_text(head, seq![sep]) + seq![sep] + Seq::<char>::empty() =~= s);
        } else {
            lemma_join_extend_last(head, seq![sep], seq![s.last()]);
            assert(head.last() + seq![s.last()] =~= head.last().push(s.last()));
            assert(init + seq![s.last()] =~= s);
        }
    }
}

/// Splitting a text joined of two lists of pieces gives the pieces of the
/// first list as they would be split of their own text, and then the clean
/// pieces of the second.
pub proof fn lemma_split_joined_behind(start: Seq<char>, pieces: Seq<Seq<char>>, sep: char)
    requires
        forall|i: int| 0 <= i < pieces.len() ==> !(#[trigger] pieces[i]).contains(sep),
    ensures
        split_text(joined_text(seq![start] + pieces, seq![sep]), sep) == split_text(start, sep)
            + pieces,
    decreases pieces.len(),
{
    let all = seq![start] + pieces;
    if pieces.len() == 0 {
        assert(all =~= seq![start]);
        assert(split_text(start, sep) + pieces =~= split_text(start, sep));
    } else {
        let init = pieces.drop_last();
        assert forall|i: int| 0 <= i < init.len() implies !(#[trigger] init[i]).contains(sep) by {
            assert(init[i] == pieces[i]);
        }
        lemma_split_joined_behind(start, init, sep);
        assert(all.drop_last() =~= seq![start] + init);
        assert(all.last() == pieces.last());
        lemma_split_join_step(joined_text(seq![start] + init, seq![sep]), pieces.last(), sep);
        assert((split_text(start, sep) + init).push(pieces.last()) =~= split_text(start, sep)
            + pieces);
    }
}

} // verus!
