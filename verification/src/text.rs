//! Character-level utilities shared by the configuration parser, the
//! container resolver and the error formatting: splitting on a separator,
//! token extraction, substring containment, and joining with a separator.

use vstd::prelude::*;

verus! {

/// Index of the first occurrence of `sep` in `s`, or `s.len()` if absent.
pub open spec fn first_at(s: Seq<char>, sep: char) -> int
    decreases s.len(),
{
    if s.len() == 0 {
        0
    } else if s[0] == sep {
        0
    } else {
        1 + first_at(s.drop_first(), sep)
    }
}

/// `first_at` is pinned down by its characteristic properties.
pub proof fn lemma_first_at_unique(s: Seq<char>, sep: char, i: int)
    requires
        0 <= i <= s.len(),
        forall|j: int| 0 <= j < i ==> s[j] != sep,
        i < s.len() ==> s[i] == sep,
    ensures
        first_at(s, sep) == i,
    decreases s.len(),
{
    if s.len() != 0 && s[0] != sep {
        assert forall|j: int| 0 <= j < i - 1 implies s.drop_first()[j] != sep by {
            assert(s.drop_first()[j] == s[j + 1]);
        }
        lemma_first_at_unique(s.drop_first(), sep, i - 1);
    }
}

/// The pieces of `s` between occurrences of `sep`, in order; `n` separators
/// give `n + 1` pieces, so an empty sequence gives one empty piece.
pub open spec fn spec_split(s: Seq<char>, sep: char) -> Seq<Seq<char>>
    decreases s.len(),
{
    let i = first_at(s, sep);
    if 0 <= i < s.len() {
        seq![s.take(i)] + spec_split(s.skip(i + 1), sep)
    } else {
        seq![s]
    }
}

/// Collects the characters of a string slice into a vector, giving random
/// access for the scanning loops below.
pub fn str_chars(s: &str) -> (v: Vec<char>)
    ensures
        v@ == s@,
{
    let n = s.unicode_len();
    let mut v: Vec<char> = Vec::new();
    let mut i: usize = 0;
    while i < n
        invariant
            i <= n,
            v@ == s@.take(i as int),
        decreases n - i,
    {
        v.push(s.get_char(i));
        proof {
            assert(v@ =~= s@.take(i + 1));
        }
        i = i + 1;
    }
    proof {
        assert(s@.take(n as int) =~= s@);
    }
    v
}

/// The index ranges of a vector of half-open ranges into `chars`, as the
/// sequence of the sub-sequences they delimit.
pub open spec fn range_views(chars: Seq<char>, r: Seq<(usize, usize)>) -> Seq<Seq<char>> {
    r.map_values(|p: (usize, usize)| chars.subrange(p.0 as int, p.1 as int))
}

/// Half-open index ranges of the pieces of `chars[from..to]` split on `sep`,
/// in order; the ranges index into `chars` itself.
pub fn split_range(chars: &Vec<char>, from: usize, to: usize, sep: char) -> (r: Vec<
    (usize, usize),
>)
    requires
        from <= to <= chars@.len(),
    ensures
        range_views(chars@, r@) == spec_split(chars@.subrange(from as int, to as int), sep),
        forall|k: int| 0 <= k < r@.len() ==> from <= #[trigger] r@[k].0 <= r@[k].1 <= to,
{
    let ghost whole = chars@.subrange(from as int, to as int);
    let mut r: Vec<(usize, usize)> = Vec::new();
    let mut start: usize = from;
    let mut i: usize = from;
    proof {
        assert(whole.skip(0) =~= whole);
    }
    while i < to
        invariant
            from <= start <= i <= to,
            forall|j: int| start <= j < i ==> chars@[j] != sep,
            spec_split(whole, sep) =~= range_views(chars@, r@) + spec_split(
                chars@.subrange(start as int, to as int),
                sep,
            ),
            forall|k: int| 0 <= k < r@.len() ==> from <= #[trigger] r@[k].0 <= r@[k].1 <= to,
        decreases to - i,
    {
        if chars[i] == sep {
            proof {
                let rest = chars@.subrange(start as int, to as int);
                assert forall|j: int| 0 <= j < i - start implies rest[j] != sep by {
                    assert(rest[j] == chars@[start + j]);
                }
                assert(rest[i - start] == sep);
                lemma_first_at_unique(rest, sep, i - start);
                assert(rest.take(i - start) =~= chars@.subrange(start as int, i as int));
                assert(rest.skip(i - start + 1) =~= chars@.subrange(i + 1, to as int));
                assert(range_views(chars@, r@.push((start, i))) =~= range_views(chars@, r@).push(
                    chars@.subrange(start as int, i as int),
                ));
                assert(spec_split(whole, sep) =~= range_views(chars@, r@.push((start, i)))
                    + spec_split(chars@.subrange(i + 1, to as int), sep));
            }
            r.push((start, i));
            start = i + 1;
        }
        i = i + 1;
    }
    proof {
        let rest = chars@.subrange(start as int, to as int);
        assert forall|j: int| 0 <= j < rest.len() implies rest[j] != sep by {
            assert(rest[j] == chars@[start + j]);
        }
        lemma_first_at_unique(rest, sep, rest.len() as int);
        assert(spec_split(rest, sep) =~= seq![rest]);
        assert(range_views(chars@, r@.push((start, to))) =~= range_views(chars@, r@).push(rest));
    }
    r.push((start, to));
    r
}

/// Keeps the non-empty ranges, in order.
pub fn nonempty_ranges(chars: &Vec<char>, pieces: &Vec<(usize, usize)>) -> (r: Vec<(usize, usize)>)
    requires
        forall|k: int| 0 <= k < pieces@.len() ==> #[trigger] pieces@[k].0 <= pieces@[k].1 <= chars@.len(),
    ensures
        range_views(chars@, r@) == nonempty_pieces(range_views(chars@, pieces@)),
        forall|k: int|
            0 <= k < r@.len() ==> exists|j: int|
                0 <= j < pieces@.len() && #[trigger] r@[k] == pieces@[j],
{
    let ghost all = range_views(chars@, pieces@);
    let mut r: Vec<(usize, usize)> = Vec::new();
    let mut i: usize = 0;
    proof {
        assert(all.skip(0) =~= all);
    }
    while i < pieces.len()
        invariant
            i <= pieces@.len(),
            nonempty_pieces(all) =~= range_views(chars@, r@) + nonempty_pieces(
                all.skip(i as int),
            ),
            forall|k: int|
                0 <= k < r@.len() ==> exists|j: int|
                    0 <= j < pieces@.len() && #[trigger] r@[k] == pieces@[j],
        decreases pieces@.len() - i,
    {
        let (a, b) = pieces[i];
        proof {
            let rest = all.skip(i as int);
            assert(rest[0] == all[i as int]);
            assert(rest.drop_first() =~= all.skip(i + 1));
        }
        if a < b {
            r.push((a, b));
            proof {
                assert(range_views(chars@, r@) =~= range_views(chars@, r@.drop_last()).push(
                    chars@.subrange(a as int, b as int),
                ));
                assert(nonempty_pieces(all) =~= range_views(chars@, r@) + nonempty_pieces(
                    all.skip(i + 1),
                ));
            }
        } else {
            proof {
                assert(chars@.subrange(a as int, b as int).len() == 0);
            }
        }
        i = i + 1;
    }
    proof {
        assert(nonempty_pieces(all.skip(pieces@.len() as int)) =~= Seq::<Seq<char>>::empty());
    }
    r
}

/// Whether the characters of `chars` in `[from, to)` spell exactly `w`.
pub fn range_matches_str(chars: &Vec<char>, from: usize, to: usize, w: &str) -> (b: bool)
    requires
        from <= to <= chars@.len(),
    ensures
        b == (chars@.subrange(from as int, to as int) == w@),
{
    let n = w.unicode_len();
    if to - from != n {
        return false;
    }
    let mut j: usize = 0;
    while j < n
        invariant
            j <= n,
            n == w@.len(),
            to - from == n,
            chars@.subrange(from as int, from + j) =~= w@.take(j as int),
        decreases n - j,
    {
        if chars[from + j] != w.get_char(j) {
            proof {
                let sub = chars@.subrange(from as int, to as int);
                if sub == w@ {
                    assert(sub[j as int] == chars@[from + j]);
                }
            }
            return false;
        }
        proof {
            assert(chars@.subrange(from as int, from + j + 1) =~= chars@.subrange(
                from as int,
                from + j,
            ).push(chars@[from + j]));
            assert(w@.take(j + 1) =~= w@.take(j as int).push(w@[j as int]));
        }
        j = j + 1;
    }
    proof {
        assert(chars@.subrange(from as int, to as int) =~= w@.take(n as int));
        assert(w@.take(n as int) =~= w@);
    }
    true
}

/// The non-empty pieces, kept in order: splitting on a space and dropping
/// empty pieces collapses runs of repeated spaces.
pub open spec fn nonempty_pieces(pieces: Seq<Seq<char>>) -> Seq<Seq<char>>
    decreases pieces.len(),
{
    if pieces.len() == 0 {
        Seq::empty()
    } else if pieces[0].len() > 0 {
        seq![pieces[0]] + nonempty_pieces(pieces.drop_first())
    } else {
        nonempty_pieces(pieces.drop_first())
    }
}

/// The whitespace-delimited tokens of a line, after collapsing repeated
/// spaces.
pub open spec fn spec_tokens(line: Seq<char>) -> Seq<Seq<char>> {
    nonempty_pieces(spec_split(line, ' '))
}

/// Whether `needle` occurs in `hay` starting at index `i`.
pub open spec fn contains_at(hay: Seq<char>, needle: Seq<char>, i: int) -> bool {
    0 <= i && i + needle.len() <= hay.len() && hay.subrange(i, i + needle.len()) == needle
}

/// Whether the characters of `chars` in `[from, to)` begin with `w`.
pub fn range_starts_with(chars: &Vec<char>, from: usize, to: usize, w: &str) -> (b: bool)
    requires
        from <= to <= chars@.len(),
    ensures
        b == contains_at(chars@.subrange(from as int, to as int), w@, 0),
{
    let ghost sub = chars@.subrange(from as int, to as int);
    let n = w.unicode_len();
    if to - from < n {
        return false;
    }
    let mut j: usize = 0;
    while j < n
        invariant
            j <= n,
            n == w@.len(),
            n <= to - from,
            chars@.subrange(from as int, from + j) =~= w@.take(j as int),
        decreases n - j,
    {
        if chars[from + j] != w.get_char(j) {
            proof {
                if contains_at(sub, w@, 0) {
                    assert(sub.subrange(0, n as int)[j as int] == chars@[from + j]);
                }
            }
            return false;
        }
        proof {
            assert(chars@.subrange(from as int, from + j + 1) =~= chars@.subrange(
                from as int,
                from + j,
            ).push(chars@[from + j]));
            assert(w@.take(j + 1) =~= w@.take(j as int).push(w@[j as int]));
        }
        j = j + 1;
    }
    proof {
        assert(sub.subrange(0, n as int) =~= chars@.subrange(from as int, from + n));
        assert(w@.take(n as int) =~= w@);
    }
    true
}

/// Substring containment, the (deliberately textual) matching policy of the
/// container resolver.
pub open spec fn seq_contains(hay: Seq<char>, needle: Seq<char>) -> bool {
    exists|i: int| contains_at(hay, needle, i)
}

/// Whether `needle` occurs as a contiguous run of characters in
/// `chars[from..to]`.
pub fn range_contains_seq(chars: &Vec<char>, from: usize, to: usize, needle: &Vec<char>) -> (b:
    bool)
    requires
        from <= to <= chars@.len(),
    ensures
        b == seq_contains(chars@.subrange(from as int, to as int), needle@),
{
    let ghost hay = chars@.subrange(from as int, to as int);
    if needle.len() > to - from {
        proof {
            assert forall|k: int| !contains_at(hay, needle@, k) by {}
        }
        return false;
    }
    let mut i: usize = 0;
    while i <= (to - from) - needle.len()
        invariant
            needle@.len() <= hay.len(),
            hay == chars@.subrange(from as int, to as int),
            i <= hay.len() - needle@.len() + 1,
            forall|k: int| 0 <= k < i ==> !contains_at(hay, needle@, k),
        decreases to - from - needle@.len() + 1 - i,
    {
        let mut j: usize = 0;
        let mut all_eq = true;
        while j < needle.len()
            invariant
                i + needle@.len() <= hay.len(),
                hay == chars@.subrange(from as int, to as int),
                j <= needle@.len(),
                all_eq <==> hay.subrange(i as int, i + j) =~= needle@.take(j as int),
            decreases needle@.len() - j,
        {
            let ghost prev = all_eq;
            if chars[from + i + j] != needle[j] {
                proof {
                    assert(hay[i + j] == chars@[from + i + j]);
                }
                all_eq = false;
            }
            proof {
                let a = hay.subrange(i as int, i + j + 1);
                let b = needle@.take(j + 1);
                assert(hay[i + j] == chars@[from + i + j]);
                if prev && hay[i + j] == needle@[j as int] {
                    assert(a =~= hay.subrange(i as int, i + j).push(hay[i + j]));
                    assert(b =~= needle@.take(j as int).push(needle@[j as int]));
                } else {
                    if a =~= b {
                        assert(a[j as int] == hay[i + j]);
                        assert(b[j as int] == needle@[j as int]);
                        assert(a.take(j as int) =~= hay.subrange(i as int, i + j));
                        assert(b.take(j as int) =~= needle@.take(j as int));
                    }
                }
            }
            j = j + 1;
        }
        proof {
            assert(needle@.take(needle@.len() as int) =~= needle@);
        }
        if all_eq {
            proof {
                assert(contains_at(hay, needle@, i as int));
            }
            return true;
        }
        i = i + 1;
    }
    proof {
        assert forall|k: int| !contains_at(hay, needle@, k) by {
            if contains_at(hay, needle@, k) {
                assert(0 <= k <= hay.len() - needle@.len());
            }
        }
    }
    false
}

/// Whether any of the characters of `chars` in `[from, to)` equals `c`.
pub fn range_contains_char(chars: &Vec<char>, from: usize, to: usize, c: char) -> (b: bool)
    requires
        from <= to <= chars@.len(),
    ensures
        b == chars@.subrange(from as int, to as int).contains(c),
{
    let ghost sub = chars@.subrange(from as int, to as int);
    let mut i: usize = from;
    while i < to
        invariant
            from <= i <= to,
            forall|j: int| 0 <= j < i - from ==> sub[j] != c,
        decreases to - i,
    {
        if chars[i] == c {
            proof {
                assert(sub[i - from] == c);
            }
            return true;
        }
        i = i + 1;
    }
    false
}

/// Joining with a separator between successive items (none before the first).
pub open spec fn spec_join(items: Seq<Seq<char>>, sep: Seq<char>) -> Seq<char>
    decreases items.len(),
{
    if items.len() == 0 {
        Seq::empty()
    } else if items.len() == 1 {
        items[0]
    } else {
        spec_join(items.drop_last(), sep) + sep + items.last()
    }
}

/// Concatenates the items of `items` with `sep` between successive items.
pub fn join_strings(items: &Vec<String>, sep: &str) -> (r: String)
    ensures
        r@ == spec_join(items.deep_view(), sep@),
{
    let ghost deep = items.deep_view();
    let mut r = String::new();
    let mut i: usize = 0;
    while i < items.len()
        invariant
            i <= items@.len(),
            deep == items.deep_view(),
            r@ == spec_join(deep.take(i as int), sep@),
        decreases items@.len() - i,
    {
        if i > 0 {
            r.append(sep);
        }
        r.append(items[i].as_str());
        proof {
            let now = deep.take(i + 1);
            assert(now.drop_last() =~= deep.take(i as int));
            assert(now.last() == deep[i as int]);
        }
        i = i + 1;
    }
    proof {
        assert(deep.take(items@.len() as int) =~= deep);
    }
    r
}

/// Appends one owned copy of `t` to `v`.
pub fn push_token(v: &mut Vec<String>, t: &str)
    ensures
        final(v).deep_view() == old(v).deep_view().push(t@),
{
    v.push(t.to_owned());
    proof {
        assert(v.deep_view() =~= old(v).deep_view().push(t@));
    }
}

} // verus!
