//! Verified text utilities over sequences of characters.
//!
//! Exec code in this crate works on `Vec<char>` so that every transformation
//! can be specified over `Seq<char>`; conversion back to `String` happens in
//! one place at the edge.

use vstd::prelude::*;

verus! {

/// ASCII whitespace, the class used for token splitting and trimming.
pub open spec fn is_space(c: char) -> bool {
    c == ' ' || c == '\t' || c == '\n' || c == '\r'
}

/// Index of the first occurrence of `sep` in `s`, if any. An empty
/// separator matches at the front.
pub open spec fn first_match(s: Seq<char>, sep: Seq<char>) -> Option<int>
    decreases s.len(),
{
    if sep.len() == 0 {
        Some(0)
    } else if s.len() < sep.len() {
        None
    } else if s.take(sep.len() as int) == sep {
        Some(0)
    } else {
        match first_match(s.skip(1), sep) {
            None => None,
            Some(i) => Some(i + 1),
        }
    }
}

/// A match reported by `first_match` lies within `s`.
pub proof fn lemma_first_match_bounds(s: Seq<char>, sep: Seq<char>)
    requires
        sep.len() > 0,
    ensures
        match first_match(s, sep) {
            None => true,
            Some(i) => 0 <= i && i + sep.len() <= s.len(),
        },
    decreases s.len(),
{
    if sep.len() <= s.len() && s.take(sep.len() as int) != sep {
        lemma_first_match_bounds(s.skip(1), sep);
    }
}

/// Whether `sep` occurs anywhere in `s`.
pub open spec fn contains_sub(s: Seq<char>, sep: Seq<char>) -> bool {
    first_match(s, sep) is Some
}

/// Whether `p` is a prefix of `s`.
pub open spec fn starts_with(s: Seq<char>, p: Seq<char>) -> bool {
    p.len() <= s.len() && s.take(p.len() as int) == p
}

/// `s` split on every occurrence of the (non-empty) separator `sep`.
/// Mirrors `str::split`: `n` separators yield `n + 1` pieces, so adjacent
/// separators and separators at either end yield empty pieces.
pub open spec fn split_on(s: Seq<char>, sep: Seq<char>) -> Seq<Seq<char>>
    decreases s.len(),
    when sep.len() > 0
    via split_on_dec
{
    if sep.len() == 0 {
        seq![s]
    } else {
        match first_match(s, sep) {
            None => seq![s],
            Some(i) => seq![s.take(i)] + split_on(s.skip(i + sep.len()), sep),
        }
    }
}

#[via_fn]
proof fn split_on_dec(s: Seq<char>, sep: Seq<char>) {
    if sep.len() > 0 {
        lemma_first_match_bounds(s, sep);
    }
}

/// All the pieces of `ss`, joined back together in order.
pub open spec fn concat_all(ss: Seq<Seq<char>>) -> Seq<char>
    decreases ss.len(),
{
    if ss.len() == 0 {
        Seq::empty()
    } else {
        concat_all(ss.drop_last()) + ss.last()
    }
}

/// `s` with every occurrence of `sep` deleted.
pub open spec fn remove_all(s: Seq<char>, sep: Seq<char>) -> Seq<char> {
    concat_all(split_on(s, sep))
}

/// Number of leading non-whitespace characters.
pub open spec fn word_run(s: Seq<char>) -> int
    decreases s.len(),
{
    if s.len() == 0 || is_space(s[0]) {
        0
    } else {
        1 + word_run(s.skip(1))
    }
}

/// `word_run` counts a prefix of `s`.
pub proof fn lemma_word_run_bounds(s: Seq<char>)
    ensures
        0 <= word_run(s) <= s.len(),
        s.len() > 0 && !is_space(s[0]) ==> word_run(s) >= 1,
    decreases s.len(),
{
    if s.len() > 0 && !is_space(s[0]) {
        lemma_word_run_bounds(s.skip(1));
    }
}

/// The whitespace-delimited words of `s`, in order, without empties.
pub open spec fn words_of(s: Seq<char>) -> Seq<Seq<char>>
    decreases s.len(),
    via words_of_dec
{
    if s.len() == 0 {
        Seq::empty()
    } else if is_space(s[0]) {
        words_of(s.skip(1))
    } else {
        seq![s.take(word_run(s))] + words_of(s.skip(word_run(s)))
    }
}

#[via_fn]
proof fn words_of_dec(s: Seq<char>) {
    lemma_word_run_bounds(s);
}

/// The first whitespace-delimited word, or empty when there is none.
pub open spec fn first_word(s: Seq<char>) -> Seq<char> {
    if words_of(s).len() == 0 {
        Seq::empty()
    } else {
        words_of(s)[0]
    }
}

/// What remains of `s` after its leading whitespace and first word.
pub open spec fn after_first_word(s: Seq<char>) -> Seq<char>
    decreases s.len(),
    via after_first_word_dec
{
    if s.len() == 0 {
        s
    } else if is_space(s[0]) {
        after_first_word(s.skip(1))
    } else {
        s.skip(word_run(s))
    }
}

#[via_fn]
proof fn after_first_word_dec(s: Seq<char>) {
    lemma_word_run_bounds(s);
}

/// `s` without leading and trailing whitespace.
pub open spec fn trimmed(s: Seq<char>) -> Seq<char>
    decreases s.len(),
{
    if s.len() == 0 {
        s
    } else if is_space(s[0]) {
        trimmed(s.skip(1))
    } else if is_space(s.last()) {
        trimmed(s.drop_last())
    } else {
        s
    }
}

/// Exec check for the whitespace class.
pub fn is_space_char(c: char) -> (r: bool)
    ensures
        r == is_space(c),
{
    c == ' ' || c == '\t' || c == '\n' || c == '\r'
}

/// The characters of `s`, as a vector with the same view.
pub fn str_chars(s: &str) -> (v: Vec<char>)
    ensures
        v@ == s@,
{
    let n = s.unicode_len();
    let mut v: Vec<char> = Vec::new();
    let mut i: usize = 0;
    while i < n
        invariant
            n == s@.len(),
            i <= n,
            v@ == s@.take(i as int),
        decreases n - i,
    {
        let c = s.get_char(i);
        v.push(c);
        i = i + 1;
        proof {
            assert(v@ =~= s@.take(i as int));
        }
    }
    proof {
        assert(v@ =~= s@);
    }
    v
}

/// Rebuilds a string from characters.
///
/// Relies on `core::iter::Iterator::collect` (through the `FromIterator`
/// impl of `String`): collecting characters yields the string of exactly
/// those characters in order.
#[verifier::external_body]
pub fn chars_string(v: &Vec<char>) -> (s: String)
    ensures
        s@ == v@,
{
    v.iter().collect()
}

/// Whether `v` equals the literal `lit`, character for character.
pub fn eq_lit(v: &Vec<char>, lit: &str) -> (r: bool)
    ensures
        r == (v@ == lit@),
{
    let n = lit.unicode_len();
    if v.len() != n {
        proof {
            assert(v@ != lit@);
        }
        return false;
    }
    let mut i: usize = 0;
    while i < n
        invariant
            n == lit@.len(),
            v@.len() == n,
            i <= n,
            forall|j: int| 0 <= j < i ==> v@[j] == lit@[j],
        decreases n - i,
    {
        if v[i] != lit.get_char(i) {
            return false;
        }
        i = i + 1;
    }
    proof {
        assert(v@ =~= lit@);
    }
    true
}

/// Whether `lit` is a prefix of `v`.
pub fn starts_with_lit(v: &Vec<char>, lit: &str) -> (r: bool)
    ensures
        r == starts_with(v@, lit@),
{
    let n = lit.unicode_len();
    if v.len() < n {
        return false;
    }
    let mut i: usize = 0;
    while i < n
        invariant
            n == lit@.len(),
            n <= v@.len(),
            i <= n,
            forall|j: int| 0 <= j < i ==> v@[j] == lit@[j],
        decreases n - i,
    {
        if v[i] != lit.get_char(i) {
            proof {
                assert(v@.take(n as int)[i as int] != lit@[i as int]);
            }
            return false;
        }
        i = i + 1;
    }
    proof {
        assert(v@.take(n as int) =~= lit@);
    }
    true
}

/// Whether `v` matches `sep` at position `at`.
fn matches_at(v: &Vec<char>, sep: &Vec<char>, at: usize) -> (r: bool)
    requires
        at + sep@.len() <= v@.len(),
    ensures
        r == (v@.subrange(at as int, at + sep@.len()) == sep@),
{
    let n = v.len();
    let mut i: usize = 0;
    while i < sep.len()
        invariant
            n == v@.len(),
            at + sep@.len() <= n,
            i <= sep@.len(),
            forall|j: int| 0 <= j < i ==> v@[at + j] == sep@[j],
        decreases sep@.len() - i,
    {
        if v[at + i] != sep[i] {
            proof {
                assert(v@.subrange(at as int, at + sep@.len())[i as int] != sep@[i as int]);
            }
            return false;
        }
        i = i + 1;
    }
    proof {
        assert(v@.subrange(at as int, at + sep@.len()) =~= sep@);
    }
    true
}

/// `first_match` shifts by one when the head cannot start a match.
proof fn lemma_first_match_step(s: Seq<char>, sep: Seq<char>)
    requires
        sep.len() > 0,
        s.len() >= 1,
        !(sep.len() <= s.len() && s.take(sep.len() as int) == sep),
    ensures
        first_match(s, sep) == match first_match(s.skip(1), sep) {
            None => None::<int>,
            Some(i) => Some(i + 1),
        },
{
    if s.len() < sep.len() {
        assert(s.skip(1).len() < sep.len());
    }
}

/// Position of the first occurrence of `sep` in `v` at or after `from`,
/// expressed through `first_match` on the remaining suffix.
fn find_from(v: &Vec<char>, sep: &Vec<char>, from: usize) -> (r: Option<usize>)
    requires
        from <= v@.len(),
        sep@.len() > 0,
    ensures
        match r {
            None => first_match(v@.skip(from as int), sep@) is None,
            Some(i) => from <= i && i + sep@.len() <= v@.len() && first_match(
                v@.skip(from as int),
                sep@,
            ) == Some(i - from),
        },
{
    let mut i: usize = from;
    loop
        invariant
            from <= i <= v@.len(),
            sep@.len() > 0,
            first_match(v@.skip(from as int), sep@) == match first_match(v@.skip(i as int), sep@) {
                None => None::<int>,
                Some(k) => Some(k + (i - from)),
            },
        decreases v@.len() - i,
    {
        if v.len() - i < sep.len() {
            proof {
                assert(v@.skip(i as int).len() < sep@.len());
                assert(first_match(v@.skip(i as int), sep@) is None);
            }
            return None;
        }
        let hit = matches_at(v, sep, i);
        proof {
            assert(v@.skip(i as int).take(sep@.len() as int) =~= v@.subrange(
                i as int,
                i + sep@.len(),
            ));
        }
        if hit {
            proof {
                assert(first_match(v@.skip(i as int), sep@) == Some(0int));
            }
            return Some(i);
        }
        proof {
            lemma_first_match_step(v@.skip(i as int), sep@);
            assert(v@.skip(i as int).skip(1) =~= v@.skip(i + 1));
        }
        i = i + 1;
    }
}

/// Whether the literal `sep` occurs in `v`.
pub fn contains_lit(v: &Vec<char>, sep: &str) -> (r: bool)
    ensures
        r == contains_sub(v@, sep@),
{
    let sepv = str_chars(sep);
    if sepv.len() == 0 {
        proof {
            assert(v@.take(0) =~= sep@);
            assert(first_match(v@, sep@) is Some);
        }
        return true;
    }
    proof {
        assert(v@.skip(0) =~= v@);
    }
    match find_from(v, &sepv, 0) {
        Some(_) => true,
        None => false,
    }
}

/// `v` split on every occurrence of the literal `sep`.
pub fn split_lit(v: &Vec<char>, sep: &str) -> (r: Vec<Vec<char>>)
    requires
        sep@.len() > 0,
    ensures
        r.deep_view() == split_on(v@, sep@),
{
    let sepv = str_chars(sep);
    let n = v.len();
    let mut r: Vec<Vec<char>> = Vec::new();
    let mut start: usize = 0;
    proof {
        assert(v@.skip(0) =~= v@);
        assert(r.deep_view() =~~= Seq::<Seq<char>>::empty());
        assert(r.deep_view() + split_on(v@.skip(0), sep@) =~~= split_on(v@, sep@));
    }
    loop
        invariant
            sepv@ == sep@,
            sep@.len() > 0,
            n == v@.len(),
            start <= v@.len(),
            split_on(v@, sep@) == r.deep_view() + split_on(v@.skip(start as int), sep@),
        decreases v@.len() - start,
    {
        match find_from(v, &sepv, start) {
            None => {
                let mut piece: Vec<char> = Vec::new();
                let mut i: usize = start;
                while i < v.len()
                    invariant
                        start <= i <= v@.len(),
                        piece@ == v@.subrange(start as int, i as int),
                    decreases v@.len() - i,
                {
                    piece.push(v[i]);
                    i = i + 1;
                    proof {
                        assert(piece@ =~= v@.subrange(start as int, i as int));
                    }
                }
                proof {
                    assert(piece@ =~= v@.skip(start as int));
                    assert(split_on(v@.skip(start as int), sep@) =~= seq![v@.skip(start as int)]);
                }
                r.push(piece);
                proof {
                    assert(r.deep_view() =~~= split_on(v@, sep@));
                }
                return r;
            },
            Some(at) => {
                let mut piece: Vec<char> = Vec::new();
                let mut i: usize = start;
                while i < at
                    invariant
                        start <= i <= at,
                        at <= v@.len(),
                        piece@ == v@.subrange(start as int, i as int),
                    decreases at - i,
                {
                    piece.push(v[i]);
                    i = i + 1;
                    proof {
                        assert(piece@ =~= v@.subrange(start as int, i as int));
                    }
                }
                let ghost old_r = r.deep_view();
                let ghost old_start = start as int;
                r.push(piece);
                start = at + sepv.len();
                proof {
                    let rest = v@.skip(old_start);
                    assert(first_match(rest, sep@) == Some(at - old_start));
                    assert(rest.take(at - old_start) =~= v@.subrange(old_start, at as int));
                    assert(rest.skip(at - old_start + sep@.len()) =~= v@.skip(start as int));
                    assert(split_on(rest, sep@) == seq![v@.subrange(old_start, at as int)]
                        + split_on(v@.skip(start as int), sep@));
                    assert(r.deep_view() =~~= old_r + seq![v@.subrange(old_start, at as int)]);
                    assert(r.deep_view() + split_on(v@.skip(start as int), sep@) =~~= split_on(
                        v@,
                        sep@,
                    ));
                }
            },
        }
    }
}

/// `v` with every occurrence of the literal `sep` deleted.
pub fn remove_lit(v: &Vec<char>, sep: &str) -> (r: Vec<char>)
    requires
        sep@.len() > 0,
    ensures
        r@ == remove_all(v@, sep@),
{
    let pieces = split_lit(v, sep);
    let mut r: Vec<char> = Vec::new();
    let mut i: usize = 0;
    proof {
        assert(pieces.deep_view().take(0) =~~= Seq::<Seq<char>>::empty());
        assert(r@ =~= concat_all(pieces.deep_view().take(0)));
    }
    while i < pieces.len()
        invariant
            i <= pieces@.len(),
            r@ == concat_all(pieces.deep_view().take(i as int)),
        decreases pieces@.len() - i,
    {
        let piece = &pieces[i];
        let mut j: usize = 0;
        while j < piece.len()
            invariant
                i < pieces@.len(),
                piece@ == pieces@[i as int]@,
                j <= piece@.len(),
                r@ == concat_all(pieces.deep_view().take(i as int)) + piece@.take(j as int),
            decreases piece@.len() - j,
        {
            r.push(piece[j]);
            j = j + 1;
            proof {
                assert(r@ =~= concat_all(pieces.deep_view().take(i as int)) + piece@.take(
                    j as int,
                ));
            }
        }
        i = i + 1;
        proof {
            let dv = pieces.deep_view();
            assert(dv.take(i as int).drop_last() =~= dv.take(i - 1));
            assert(dv.take(i as int).last() == piece@);
            assert(piece@.take(piece@.len() as int) =~= piece@);
            assert(r@ =~= concat_all(dv.take(i as int)));
        }
    }
    proof {
        assert(pieces.deep_view().take(pieces@.len() as int) =~= pieces.deep_view());
    }
    r
}

/// `v` without leading and trailing whitespace.
pub fn trim_spaces(v: &Vec<char>) -> (r: Vec<char>)
    ensures
        r@ == trimmed(v@),
{
    let mut lo: usize = 0;
    let mut hi: usize = v.len();
    proof {
        assert(v@.subrange(0, v@.len() as int) =~= v@);
    }
    while lo < hi && is_space_char(v[lo])
        invariant
            lo <= hi <= v@.len(),
            trimmed(v@) == trimmed(v@.subrange(lo as int, hi as int)),
            hi == v@.len(),
        decreases hi - lo,
    {
        proof {
            assert(v@.subrange(lo as int, hi as int).skip(1) =~= v@.subrange(
                lo + 1,
                hi as int,
            ));
        }
        lo = lo + 1;
    }
    while lo < hi && is_space_char(v[hi - 1])
        invariant
            lo <= hi <= v@.len(),
            trimmed(v@) == trimmed(v@.subrange(lo as int, hi as int)),
            lo < hi ==> !is_space(v@[lo as int]),
        decreases hi - lo,
    {
        proof {
            let cur = v@.subrange(lo as int, hi as int);
            assert(cur.drop_last() =~= v@.subrange(lo as int, hi - 1));
        }
        hi = hi - 1;
    }
    let mut r: Vec<char> = Vec::new();
    let mut i: usize = lo;
    while i < hi
        invariant
            lo <= i <= hi <= v@.len(),
            r@ == v@.subrange(lo as int, i as int),
        decreases hi - i,
    {
        r.push(v[i]);
        i = i + 1;
        proof {
            assert(r@ =~= v@.subrange(lo as int, i as int));
        }
    }
    proof {
        let cur = v@.subrange(lo as int, hi as int);
        assert(trimmed(cur) == cur);
        assert(r@ =~= cur);
    }
    r
}

/// The first whitespace-delimited word of `v` and what follows it, trimmed.
pub fn first_word_and_rest(v: &Vec<char>) -> (r: (Vec<char>, Vec<char>))
    ensures
        r.0@ == first_word(v@),
        r.1@ == trimmed(after_first_word(v@)),
{
    let mut lo: usize = 0;
    proof {
        assert(v@.skip(0) =~= v@);
    }
    while lo < v.len() && is_space_char(v[lo])
        invariant
            lo <= v@.len(),
            first_word(v@) == first_word(v@.skip(lo as int)),
            after_first_word(v@) == after_first_word(v@.skip(lo as int)),
        decreases v@.len() - lo,
    {
        proof {
            assert(v@.skip(lo as int).skip(1) =~= v@.skip(lo + 1));
        }
        lo = lo + 1;
    }
    let mut hi: usize = lo;
    proof {
        lemma_word_run_bounds(v@.skip(lo as int));
    }
    while hi < v.len() && !is_space_char(v[hi])
        invariant
            lo <= hi <= v@.len(),
            first_word(v@) == first_word(v@.skip(lo as int)),
            after_first_word(v@) == after_first_word(v@.skip(lo as int)),
            lo < v@.len() ==> !is_space(v@[lo as int]),
            word_run(v@.skip(lo as int)) >= hi - lo,
            forall|j: int| lo <= j < hi ==> !is_space(v@[j]),
        decreases v@.len() - hi,
    {
        proof {
            let rest = v@.skip(lo as int);
            lemma_word_run_bound(rest, hi - lo);
        }
        hi = hi + 1;
    }
    proof {
        let rest = v@.skip(lo as int);
        lemma_word_run_exact(rest, hi - lo);
    }
    let mut word: Vec<char> = Vec::new();
    let mut i: usize = lo;
    while i < hi
        invariant
            lo <= i <= hi <= v@.len(),
            word@ == v@.subrange(lo as int, i as int),
        decreases hi - i,
    {
        word.push(v[i]);
        i = i + 1;
        proof {
            assert(word@ =~= v@.subrange(lo as int, i as int));
        }
    }
    let mut tail: Vec<char> = Vec::new();
    let mut j: usize = hi;
    while j < v.len()
        invariant
            hi <= j <= v@.len(),
            tail@ == v@.subrange(hi as int, j as int),
        decreases v@.len() - j,
    {
        tail.push(v[j]);
        j = j + 1;
        proof {
            assert(tail@ =~= v@.subrange(hi as int, j as int));
        }
    }
    proof {
        let rest = v@.skip(lo as int);
        if lo == v@.len() {
            assert(rest =~= Seq::<char>::empty());
            assert(words_of(rest).len() == 0);
            assert(word@ =~= Seq::<char>::empty());
            assert(tail@ =~= rest);
        } else {
            assert(word_run(rest) == hi - lo);
            assert(rest.take(word_run(rest)) =~= v@.subrange(lo as int, hi as int));
            assert(word@ =~= rest.take(word_run(rest)));
            assert(words_of(rest) == seq![rest.take(word_run(rest))] + words_of(
                rest.skip(word_run(rest)),
            ));
            assert(tail@ =~= rest.skip(word_run(rest)));
        }
    }
    let rest_trimmed = trim_spaces(&tail);
    (word, rest_trimmed)
}

/// `word_run` is at least `k + 1` when the first `k + 1` characters are
/// non-whitespace.
proof fn lemma_word_run_bound(s: Seq<char>, k: int)
    requires
        0 <= k < s.len(),
        forall|j: int| 0 <= j <= k ==> !is_space(s[j]),
    ensures
        word_run(s) >= k + 1,
    decreases k,
{
    lemma_word_run_bounds(s.skip(1));
    if k > 0 {
        lemma_word_run_bound(s.skip(1), k - 1);
    }
}

/// `word_run` is exactly `k` when the first `k` characters are non-whitespace
/// and the next one (if any) is whitespace.
proof fn lemma_word_run_exact(s: Seq<char>, k: int)
    requires
        0 <= k <= s.len(),
        forall|j: int| 0 <= j < k ==> !is_space(s[j]),
        k < s.len() ==> is_space(s[k]),
    ensures
        word_run(s) == k,
    decreases k,
{
    if k > 0 {
        lemma_word_run_exact(s.skip(1), k - 1);
    }
}

/// The whitespace-delimited words of `v`.
pub fn words(v: &Vec<char>) -> (r: Vec<Vec<char>>)
    ensures
        r.deep_view() == words_of(v@),
{
    let mut r: Vec<Vec<char>> = Vec::new();
    let mut lo: usize = 0;
    proof {
        assert(v@.skip(0) =~= v@);
        assert(r.deep_view() =~~= Seq::<Seq<char>>::empty());
        assert(r.deep_view() + words_of(v@.skip(0)) =~~= words_of(v@));
    }
    loop
        invariant
            lo <= v@.len(),
            words_of(v@) == r.deep_view() + words_of(v@.skip(lo as int)),
        decreases v@.len() - lo,
    {
        if lo == v.len() {
            proof {
                assert(v@.skip(lo as int) =~= Seq::<char>::empty());
                assert(words_of(v@.skip(lo as int)) =~= Seq::<Seq<char>>::empty());
                assert(r.deep_view() =~~= words_of(v@));
            }
            return r;
        }
        if is_space_char(v[lo]) {
            proof {
                assert(v@.skip(lo as int).skip(1) =~= v@.skip(lo + 1));
            }
            lo = lo + 1;
            continue;
        }
        let mut hi: usize = lo;
        while hi < v.len() && !is_space_char(v[hi])
            invariant
                lo <= hi <= v@.len(),
                lo < v@.len(),
                !is_space(v@[lo as int]),
                forall|j: int| lo <= j < hi ==> !is_space(v@[j]),
            decreases v@.len() - hi,
        {
            hi = hi + 1;
        }
        proof {
            lemma_word_run_exact(v@.skip(lo as int), hi - lo);
            lemma_word_run_bounds(v@.skip(lo as int));
            assert(v@.skip(lo as int)[0] == v@[lo as int]);
            assert(hi > lo);
        }
        let mut word: Vec<char> = Vec::new();
        let mut i: usize = lo;
        while i < hi
            invariant
                lo <= i <= hi <= v@.len(),
                word@ == v@.subrange(lo as int, i as int),
            decreases hi - i,
        {
            word.push(v[i]);
            i = i + 1;
            proof {
                assert(word@ =~= v@.subrange(lo as int, i as int));
            }
        }
        let ghost old_r = r.deep_view();
        let ghost old_lo = lo as int;
        r.push(word);
        lo = hi;
        proof {
            let rest = v@.skip(old_lo);
            assert(word_run(rest) == hi - old_lo);
            assert(rest.take(word_run(rest)) =~= v@.subrange(old_lo, hi as int));
            assert(rest.skip(word_run(rest)) =~= v@.skip(hi as int));
            assert(words_of(rest) == seq![v@.subrange(old_lo, hi as int)] + words_of(
                v@.skip(hi as int),
            ));
            assert(r.deep_view() =~~= old_r + seq![v@.subrange(old_lo, hi as int)]);
            assert(r.deep_view() + words_of(v@.skip(lo as int)) =~~= words_of(v@));
        }
    }
}

} // verus!
