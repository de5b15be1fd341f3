//! Literal text substitution: one pass of `replace_all` per field, applied
//! cumulatively in field order.

use vstd::prelude::*;

verus! {

/// The pattern `pat` stands in `text` at position `i`.
pub open spec fn match_at(text: Seq<char>, pat: Seq<char>, i: int) -> bool {
    &&& 0 <= i
    &&& i + pat.len() <= text.len()
    &&& text.subrange(i, i + pat.len() as int) == pat
}

/// `pat` stands somewhere in `text`.
pub open spec fn occurs(text: Seq<char>, pat: Seq<char>) -> bool {
    exists|i: int| match_at(text, pat, i)
}

/// Replace every occurrence of `pat` in `text` by `rep`: scan left to right,
/// and where `pat` starts, emit `rep` and continue past the match, so matches
/// never overlap and `rep` itself is not rescanned.  An empty pattern never
/// matches.
pub open spec fn replace_all(text: Seq<char>, pat: Seq<char>, rep: Seq<char>) -> Seq<char>
    decreases text.len(),
{
    if text.len() == 0 || pat.len() == 0 {
        text
    } else if match_at(text, pat, 0) {
        rep + replace_all(text.skip(pat.len() as int), pat, rep)
    } else {
        seq![text[0]] + replace_all(text.skip(1), pat, rep)
    }
}

/// Whether `pat` starts in `text` at position `i`, by character comparison.
fn is_match_at(text: &str, pat: &str, i: usize) -> (r: bool)
    requires
        i + pat@.len() <= text@.len(),
        text@.len() <= usize::MAX,
    ensures
        r == match_at(text@, pat@, i as int),
{
    let m = pat.unicode_len();
    let mut j: usize = 0;
    while j < m
        invariant
            m == pat@.len(),
            i + m <= text@.len() <= usize::MAX,
            0 <= j <= m,
            forall|k: int| 0 <= k < j ==> text@[i + k] == pat@[k],
        decreases m - j,
    {
        if text.get_char(i + j) != pat.get_char(j) {
            proof {
                if match_at(text@, pat@, i as int) {
                    assert(text@.subrange(i as int, i + pat@.len() as int)[j as int]
                        == text@[i + j]);
                }
            }
            return false;
        }
        j += 1;
    }
    proof {
        assert(text@.subrange(i as int, i + pat@.len() as int) =~= pat@);
    }
    true
}

proof fn lemma_step_match(text: Seq<char>, pat: Seq<char>, rep: Seq<char>, i: int)
    requires
        pat.len() >= 1,
        0 <= i,
        i + pat.len() <= text.len(),
        match_at(text, pat, i),
    ensures
        replace_all(text.skip(i), pat, rep)
            == rep + replace_all(text.skip(i + pat.len()), pat, rep),
{
    let s = text.skip(i);
    assert(s.subrange(0, pat.len() as int) =~= text.subrange(i, i + pat.len() as int));
    assert(match_at(s, pat, 0));
    assert(s.skip(pat.len() as int) =~= text.skip(i + pat.len()));
}

proof fn lemma_step_skip(text: Seq<char>, pat: Seq<char>, rep: Seq<char>, i: int)
    requires
        pat.len() >= 1,
        0 <= i < text.len(),
        !match_at(text, pat, i),
    ensures
        replace_all(text.skip(i), pat, rep)
            == seq![text[i]] + replace_all(text.skip(i + 1), pat, rep),
{
    let s = text.skip(i);
    assert(s.len() == text.len() - i);
    if i + pat.len() <= text.len() {
        assert(s.subrange(0, pat.len() as int) =~= text.subrange(i, i + pat.len() as int));
        assert(!match_at(s, pat, 0));
    }
    assert(!match_at(s, pat, 0));
    assert(s[0] == text[i]);
    assert(s.skip(1) =~= text.skip(i + 1));
}

/// Replace every occurrence of `pat` in `text` by `rep`, literally: no
/// character of either is special.
pub fn replace_all_str(text: &str, pat: &str, rep: &str) -> (out: String)
    requires
        pat@.len() >= 1,
    ensures
        out@ == replace_all(text@, pat@, rep@),
{
    let n = text.unicode_len();
    let m = pat.unicode_len();
    let mut out = String::new();
    let mut i: usize = 0;
    proof {
        assert(text@.skip(0) =~= text@);
    }
    while i < n
        invariant
            n == text@.len(),
            m == pat@.len(),
            m >= 1,
            0 <= i <= n,
            replace_all(text@, pat@, rep@)
                == out@ + replace_all(text@.skip(i as int), pat@, rep@),
        decreases n - i,
    {
        if m <= n - i && is_match_at(text, pat, i) {
            out.append(rep);
            proof {
                lemma_step_match(text@, pat@, rep@, i as int);
            }
            i += m;
        } else {
            let c = text.substring_char(i, i + 1);
            out.append(c);
            proof {
                assert(c@ =~= seq![text@[i as int]]);
                lemma_step_skip(text@, pat@, rep@, i as int);
            }
            i += 1;
        }
    }
    proof {
        assert(text@.skip(n as int) =~= Seq::<char>::empty());
        assert(out@ + Seq::<char>::empty() =~= out@);
    }
    out
}

/// Character-for-character equality of two texts.
pub fn str_eq(a: &str, b: &str) -> (r: bool)
    ensures
        r == (a@ == b@),
{
    let n = a.unicode_len();
    let m = b.unicode_len();
    if n != m {
        return false;
    }
    let mut i: usize = 0;
    while i < n
        invariant
            n == a@.len(),
            n == b@.len(),
            0 <= i <= n,
            forall|k: int| 0 <= k < i ==> a@[k] == b@[k],
        decreases n - i,
    {
        if a.get_char(i) != b.get_char(i) {
            return false;
        }
        i += 1;
    }
    proof {
        assert(a@ =~= b@);
    }
    true
}

/// The exact-delimiter placeholder for a name: the name framed by two
/// percent signs.
pub open spec fn pattern_of(name: Seq<char>) -> Seq<char> {
    seq!['%'] + name + seq!['%']
}

/// The placeholder text `%name%`.
pub fn pattern_string(name: &str) -> (r: String)
    ensures
        r@ == pattern_of(name@),
{
    proof {
        reveal_strlit("%");
    }
    let mut p = String::from_str("%");
    p.append(name);
    p.append("%");
    proof {
        assert(p@ =~= pattern_of(name@));
    }
    p
}

/// Sequential cumulative substitution: each pair's placeholder is replaced in
/// the output of the previous pair's replacement, first pair first, so text a
/// replacement injects can be consumed by a later pair.
pub open spec fn apply_pairs(text: Seq<char>, pairs: Seq<(Seq<char>, Seq<char>)>) -> Seq<char>
    decreases pairs.len(),
{
    if pairs.len() == 0 {
        text
    } else {
        apply_pairs(replace_all(text, pattern_of(pairs[0].0), pairs[0].1), pairs.drop_first())
    }
}

/// One step of the cumulative pass, unfolded at position `i`.
pub proof fn lemma_apply_step(text: Seq<char>, pairs: Seq<(Seq<char>, Seq<char>)>, i: int)
    requires
        0 <= i < pairs.len(),
    ensures
        apply_pairs(text, pairs.skip(i)) == apply_pairs(
            replace_all(text, pattern_of(pairs[i].0), pairs[i].1),
            pairs.skip(i + 1),
        ),
{
    assert(pairs.skip(i)[0] == pairs[i]);
    assert(pairs.skip(i).drop_first() =~= pairs.skip(i + 1));
}

/// Law: a text that is exactly the placeholder of a name, replaced with
/// `rep`, is exactly `rep`.
pub proof fn lemma_exact_placeholder(name: Seq<char>, rep: Seq<char>)
    ensures
        replace_all(pattern_of(name), pattern_of(name), rep) == rep,
{
    reveal_with_fuel(replace_all, 2);
    let p = pattern_of(name);
    assert(p.subrange(0, p.len() as int) =~= p);
    assert(match_at(p, p, 0));
    assert(p.skip(p.len() as int) =~= Seq::<char>::empty());
    assert(rep + Seq::<char>::empty() =~= rep);
}

/// Law: rendering a text that is exactly one placeholder with a field list
/// holding that one name yields exactly the field's value.
pub proof fn lemma_single_field_round_trip(name: Seq<char>, value: Seq<char>)
    ensures
        apply_pairs(pattern_of(name), seq![(name, value)]) == value,
{
    reveal_with_fuel(apply_pairs, 2);
    lemma_exact_placeholder(name, value);
    assert(seq![(name, value)].drop_first() =~= Seq::<(Seq<char>, Seq<char>)>::empty());
}

/// A pattern that stands nowhere in the text replaces nothing.
pub proof fn lemma_absent_pattern(text: Seq<char>, pat: Seq<char>, rep: Seq<char>)
    requires
        !occurs(text, pat),
    ensures
        replace_all(text, pat, rep) == text,
    decreases text.len(),
{
    if text.len() == 0 || pat.len() == 0 {
    } else {
        assert(!match_at(text, pat, 0));
        assert forall|j: int| !match_at(text.skip(1), pat, j) by {
            if match_at(text.skip(1), pat, j) {
                assert(text.subrange(j + 1, j + 1 + pat.len() as int) =~= text.skip(1).subrange(
                    j,
                    j + pat.len() as int,
                ));
                assert(match_at(text, pat, j + 1));
            }
        }
        lemma_absent_pattern(text.skip(1), pat, rep);
        assert(seq![text[0]] + text.skip(1) =~= text);
    }
}

/// Law: a text in which no listed placeholder stands comes through the whole
/// cumulative pass unchanged.
pub proof fn lemma_no_placeholder_unchanged(text: Seq<char>, pairs: Seq<(Seq<char>, Seq<char>)>)
    requires
        forall|i: int| 0 <= i < pairs.len() ==> !occurs(text, pattern_of(#[trigger] pairs[i].0)),
    ensures
        apply_pairs(text, pairs) == text,
    decreases pairs.len(),
{
    if pairs.len() == 0 {
    } else {
        assert(!occurs(text, pattern_of(pairs[0].0)));
        lemma_absent_pattern(text, pattern_of(pairs[0].0), pairs[0].1);
        assert(forall|i: int|
            0 <= i < pairs.drop_first().len() ==> pairs.drop_first()[i] == pairs[i + 1]);
        lemma_no_placeholder_unchanged(text, pairs.drop_first());
    }
}

} // verus!
