//! Character-level helpers shared by the line and field grammars: splitting
//! on a separator, whitespace tokens, and decimal integers.
use vstd::prelude::*;
use vstd::string::StrSliceExecFns;

verus! {

/// The characters of `s`, in order.
pub fn chars_of(s: &str) -> (r: Vec<char>)
    ensures
        r@ == s@,
{
    let mut r: Vec<char> = Vec::new();
    for c in it: s.chars()
        invariant
            r@ == it.seq().take(it.index() as int),
    {
        r.push(c);
    }
    proof {
        broadcast use vstd::string::axiom_spec_iter;
    }
    assert(r@ =~= s@);
    r
}

/// Unicode `White_Space` characters, the set that `char::is_whitespace` names.
pub open spec fn is_space(c: char) -> bool {
    ||| ('\u{9}' <= c && c <= '\u{d}')
    ||| c == ' '
    ||| c == '\u{85}'
    ||| c == '\u{a0}'
    ||| c == '\u{1680}'
    ||| ('\u{2000}' <= c && c <= '\u{200a}')
    ||| c == '\u{2028}'
    ||| c == '\u{2029}'
    ||| c == '\u{202f}'
    ||| c == '\u{205f}'
    ||| c == '\u{3000}'
}

pub fn char_is_space(c: char) -> (r: bool)
    ensures
        r == is_space(c),
{
    ('\u{9}' <= c && c <= '\u{d}') || c == ' ' || c == '\u{85}' || c == '\u{a0}' || c
        == '\u{1680}' || ('\u{2000}' <= c && c <= '\u{200a}') || c == '\u{2028}' || c
        == '\u{2029}' || c == '\u{202f}' || c == '\u{205f}' || c == '\u{3000}'
}

/// What separates the pieces of a text.
#[derive(Clone, Copy, Debug, PartialEq, Eq, Structural)]
pub enum Separator {
    Char(char),
    Space,
}

pub open spec fn separates(sep: Separator, c: char) -> bool {
    match sep {
        Separator::Char(d) => c == d,
        Separator::Space => is_space(c),
    }
}

fn is_separator(sep: Separator, c: char) -> (r: bool)
    ensures
        r == separates(sep, c),
{
    match sep {
        Separator::Char(d) => c == d,
        Separator::Space => char_is_space(c),
    }
}

/// The pieces of `s` between separators, empty ones included; always at least one.
pub open spec fn split(s: Seq<char>, sep: Separator) -> Seq<Seq<char>>
    decreases s.len(),
{
    if s.len() == 0 {
        seq![Seq::empty()]
    } else {
        let rest = split(s.drop_first(), sep);
        if separates(sep, s[0]) {
            seq![Seq::empty()] + rest
        } else {
            rest.update(0, seq![s[0]] + rest[0])
        }
    }
}

/// The maximal runs of non-space characters of `s`.
pub open spec fn words(s: Seq<char>) -> Seq<Seq<char>> {
    split(s, Separator::Space).filter(nonempty())
}

pub open spec fn nonempty() -> spec_fn(Seq<char>) -> bool {
    |w: Seq<char>| w.len() > 0
}

/// The texts that index ranges pick out of `s`.
pub open spec fn pieces(s: Seq<char>, ranges: Seq<(usize, usize)>) -> Seq<Seq<char>> {
    ranges.map_values(|r: (usize, usize)| s.subrange(r.0 as int, r.1 as int))
}

pub open spec fn ranges_within(ranges: Seq<(usize, usize)>, lo: int, hi: int) -> bool {
    forall|k: int| 0 <= k < ranges.len() ==> lo <= #[trigger] ranges[k].0 <= ranges[k].1 <= hi
}

proof fn lemma_split_nonempty(s: Seq<char>, sep: Separator)
    ensures
        split(s, sep).len() >= 1,
    decreases s.len(),
{
    if s.len() > 0 {
        lemma_split_nonempty(s.drop_first(), sep);
    }
}

/// The ranges of the pieces of `s[lo..hi]` between separators.
pub fn split_ranges(s: &Vec<char>, lo: usize, hi: usize, sep: Separator) -> (r: Vec<(usize, usize)>)
    requires
        lo <= hi <= s@.len(),
    ensures
        pieces(s@, r@) == split(s@.subrange(lo as int, hi as int), sep),
        ranges_within(r@, lo as int, hi as int),
{
    let mut r: Vec<(usize, usize)> = Vec::new();
    let mut start: usize = lo;
    let mut i: usize = lo;
    proof {
        let whole = split(s@.subrange(lo as int, hi as int), sep);
        lemma_split_nonempty(s@.subrange(lo as int, hi as int), sep);
        assert(s@.subrange(lo as int, lo as int) + whole[0] =~= whole[0]);
        assert(whole.update(0, whole[0]) =~= whole);
        assert(pieces(s@, r@) + whole =~= whole);
    }
    while i < hi
        invariant
            lo <= start <= i <= hi <= s@.len(),
            ranges_within(r@, lo as int, hi as int),
            split(s@.subrange(lo as int, hi as int), sep) == pieces(s@, r@) + ({
                let rest = split(s@.subrange(i as int, hi as int), sep);
                rest.update(0, s@.subrange(start as int, i as int) + rest[0])
            }),
        decreases hi - i,
    {
        let ghost tail = s@.subrange(i as int, hi as int);
        let ghost next = s@.subrange(i + 1, hi as int);
        let ghost rest = split(next, sep);
        proof {
            assert(tail.drop_first() =~= next);
            assert(tail[0] == s@[i as int]);
            lemma_split_nonempty(next, sep);
        }
        if is_separator(sep, s[i]) {
            proof {
                let cur = s@.subrange(start as int, i as int);
                assert((seq![Seq::empty()] + rest).update(0, cur + (seq![Seq::empty()]
                    + rest)[0]) =~= seq![cur] + rest);
                assert(rest.update(0, s@.subrange(i + 1, i + 1) + rest[0]) =~= rest) by {
                    assert(s@.subrange(i + 1, i + 1) + rest[0] =~= rest[0]);
                }
                assert(pieces(s@, r@.push((start, i))) =~= pieces(s@, r@).push(cur));
                assert(pieces(s@, r@) + (seq![cur] + rest) =~= pieces(s@, r@).push(cur) + rest);
            }
            r.push((start, i));
            start = i + 1;
        } else {
            proof {
                let cur = s@.subrange(start as int, i as int);
                let grown = s@.subrange(start as int, i + 1);
                assert(cur + (seq![s@[i as int]] + rest[0]) =~= grown + rest[0]);
                assert(rest.update(0, seq![s@[i as int]] + rest[0]).update(
                    0,
                    cur + (seq![s@[i as int]] + rest[0]),
                ) =~= rest.update(0, grown + rest[0]));
            }
        }
        i = i + 1;
    }
    proof {
        let cur = s@.subrange(start as int, hi as int);
        let empty_tail = s@.subrange(hi as int, hi as int);
        assert(empty_tail =~= Seq::<char>::empty());
        assert(seq![Seq::<char>::empty()].update(0, cur + Seq::<char>::empty()) =~= seq![cur]);
        assert(pieces(s@, r@.push((start, hi))) =~= pieces(s@, r@).push(cur));
        assert(pieces(s@, r@) + seq![cur] =~= pieces(s@, r@).push(cur));
    }
    r.push((start, hi));
    r
}

/// The ranges of the whitespace-separated words of `s`.
pub fn word_ranges(s: &Vec<char>) -> (r: Vec<(usize, usize)>)
    ensures
        pieces(s@, r@) == words(s@),
        ranges_within(r@, 0, s@.len() as int),
{
    let all = split_ranges(s, 0, s.len(), Separator::Space);
    let mut r: Vec<(usize, usize)> = Vec::new();
    let mut k: usize = 0;
    while k < all.len()
        invariant
            k <= all@.len(),
            ranges_within(all@, 0, s@.len() as int),
            ranges_within(r@, 0, s@.len() as int),
            pieces(s@, r@) == pieces(s@, all@).take(k as int).filter(nonempty()),
        decreases all@.len() - k,
    {
        let (a, b) = all[k];
        proof {
            let ps = pieces(s@, all@);
            assert(ps.take(k + 1) =~= ps.take(k as int).push(ps[k as int]));
            ps.take(k as int).lemma_filter_push(ps[k as int], nonempty());
            assert(ps[k as int] == s@.subrange(a as int, b as int));
            assert(0 <= all@[k as int].0 <= all@[k as int].1 <= s@.len());
        }
        let ghost ps = pieces(s@, all@);
        if a < b {
            proof {
                assert(ps[k as int].len() == b - a);
                assert(nonempty()(ps[k as int]));
                assert(ps.take(k + 1).filter(nonempty()) == ps.take(k as int).filter(nonempty()).push(
                    ps[k as int],
                ));
                assert(pieces(s@, r@.push((a, b))) =~= pieces(s@, r@).push(
                    s@.subrange(a as int, b as int),
                ));
            }
            r.push((a, b));
        } else {
            assert(!nonempty()(ps[k as int]));
            assert(ps.take(k + 1).filter(nonempty()) == ps.take(k as int).filter(nonempty()));
        }
        k = k + 1;
    }
    proof {
        assert(pieces(s@, all@).take(all@.len() as int) =~= pieces(s@, all@));
        assert(s@.subrange(0, s@.len() as int) =~= s@);
    }
    r
}

/// Whether `s[lo..hi]` is exactly `word`.
pub fn range_is(s: &Vec<char>, lo: usize, hi: usize, word: &str) -> (r: bool)
    requires
        lo <= hi <= s@.len(),
    ensures
        r == (s@.subrange(lo as int, hi as int) == word@),
{
    let n = word.unicode_len();
    if hi - lo != n {
        return false;
    }
    let mut i: usize = 0;
    while i < n
        invariant
            i <= n,
            n == word@.len(),
            hi - lo == n,
            lo <= hi <= s@.len(),
            forall|j: int| 0 <= j < i ==> s@[lo + j] == word@[j],
        decreases n - i,
    {
        if s[lo + i] != word.get_char(i) {
            assert(s@.subrange(lo as int, hi as int)[i as int] != word@[i as int]);
            return false;
        }
        i = i + 1;
    }
    assert(s@.subrange(lo as int, hi as int) =~= word@);
    true
}

} // verus!
