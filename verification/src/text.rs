//! Cutting a text into pieces: classes of characters, splitting at separators,
//! trimming at both ends.
//!
//! Every function here takes the class of characters that it splits at, trims or
//! counts. Words, sentences and blank texts are what the functions give for the
//! classes that the rest of the crate uses.
use vstd::prelude::*;

use crate::unicode::{is_unicode_alphanumeric, is_unicode_whitespace};

verus! {

/// A set of characters that a text is split at, trimmed of or made of.
#[derive(Clone, Copy, Debug, PartialEq, Eq, Structural)]
pub enum CharClass {
    /// Unicode white space.
    Whitespace,
    /// Every character that is neither a Unicode letter nor a Unicode number.
    NonAlphanumeric,
    /// The characters that end a sentence: `.`, `!` and `?`.
    SentenceEnd,
}

impl CharClass {
    /// Whether `c` belongs to the class.
    pub open spec fn spec_contains(self, c: char) -> bool {
        match self {
            CharClass::Whitespace => is_unicode_whitespace(c),
            CharClass::NonAlphanumeric => !is_unicode_alphanumeric(c),
            CharClass::SentenceEnd => c == '.' || c == '!' || c == '?',
        }
    }

    /// Whether `c` belongs to the class.
    #[verifier::when_used_as_spec(spec_contains)]
    pub fn contains(self, c: char) -> (b: bool)
        ensures
            b == self.spec_contains(c),
    {
        match self {
            CharClass::Whitespace => c.is_whitespace(),
            CharClass::NonAlphanumeric => !c.is_alphanumeric(),
            CharClass::SentenceEnd => c == '.' || c == '!' || c == '?',
        }
    }
}

/// Whether `s` holds nothing but characters of `class`. The empty text does.
pub open spec fn consists_of(s: Seq<char>, class: CharClass) -> bool {
    forall|i: int| 0 <= i < s.len() ==> class.contains(#[trigger] s[i])
}

/// The characters of `s` that are not in `class`, in order.
pub open spec fn outside(s: Seq<char>, class: CharClass) -> Seq<char> {
    s.filter(|c: char| !class.contains(c))
}

/// The pieces that the characters of `sep` cut `s` into, in order. There is one
/// piece more than there are separators in `s`; a piece is empty where two
/// separators meet and where `s` begins or ends with one.
pub open spec fn split(s: Seq<char>, sep: CharClass) -> Seq<Seq<char>>
    decreases s.len(),
{
    if s.len() == 0 {
        seq![Seq::<char>::empty()]
    } else {
        let before = split(s.drop_last(), sep);
        if sep.contains(s.last()) {
            before.push(Seq::<char>::empty())
        } else {
            before.drop_last().push(before.last().push(s.last()))
        }
    }
}

/// The pieces between the characters of `sep` that are not empty.
pub open spec fn filled_pieces(s: Seq<char>, sep: CharClass) -> Seq<Seq<char>> {
    split(s, sep).filter(|piece: Seq<char>| piece.len() > 0)
}

/// The pieces between the characters of `sep` that hold more than characters of
/// `filler`.
pub open spec fn substantial_pieces(s: Seq<char>, sep: CharClass, filler: CharClass) -> Seq<
    Seq<char>,
> {
    split(s, sep).filter(|piece: Seq<char>| !consists_of(piece, filler))
}

/// The number of characters in all of `pieces` together.
pub open spec fn total_length(pieces: Seq<Seq<char>>) -> nat
    decreases pieces.len(),
{
    if pieces.len() == 0 {
        0
    } else {
        total_length(pieces.drop_last()) + pieces.last().len()
    }
}

/// A text is blank when it holds nothing but white space; the empty text is blank.
pub open spec fn is_blank(s: Seq<char>) -> bool {
    consists_of(s, CharClass::Whitespace)
}

/// The words of `s`: the pieces between white space that are not empty.
pub open spec fn words(s: Seq<char>) -> Seq<Seq<char>> {
    filled_pieces(s, CharClass::Whitespace)
}

/// The sentences of `s`: the pieces between sentence ends that are not blank.
pub open spec fn sentences(s: Seq<char>) -> Seq<Seq<char>> {
    substantial_pieces(s, CharClass::SentenceEnd, CharClass::Whitespace)
}

/// The first `n` items of `s`, or all of `s` where it has fewer.
pub open spec fn leading<A>(s: Seq<A>, n: nat) -> Seq<A> {
    if n < s.len() {
        s.take(n as int)
    } else {
        s
    }
}

/// `s` without the characters of `class` that it begins with.
pub open spec fn trim_start(s: Seq<char>, class: CharClass) -> Seq<char>
    decreases s.len(),
{
    if s.len() > 0 && class.contains(s.first()) {
        trim_start(s.drop_first(), class)
    } else {
        s
    }
}

/// `s` without the characters of `class` that it ends with.
pub open spec fn trim_end(s: Seq<char>, class: CharClass) -> Seq<char>
    decreases s.len(),
{
    if s.len() > 0 && class.contains(s.last()) {
        trim_end(s.drop_last(), class)
    } else {
        s
    }
}

/// `s` without the characters of `class` at either end.
pub open spec fn trim(s: Seq<char>, class: CharClass) -> Seq<char> {
    trim_end(trim_start(s, class), class)
}

/// The texts that a list of slices holds.
pub open spec fn texts(slices: Seq<&[char]>) -> Seq<Seq<char>> {
    slices.map_values(|slice: &[char]| slice@)
}

/// Splitting always gives a piece, if only an empty one.
pub proof fn lemma_split_has_piece(s: Seq<char>, sep: CharClass)
    ensures
        split(s, sep).len() >= 1,
{
}

/// What one more character does to the pieces: a separator opens a new, empty
/// piece; any other character joins the last piece.
pub proof fn lemma_split_push(s: Seq<char>, c: char, sep: CharClass)
    ensures
        split(s, sep).len() >= 1,
        sep.contains(c) ==> split(s.push(c), sep) == split(s, sep).push(Seq::<char>::empty()),
        !sep.contains(c) ==> split(s.push(c), sep) == split(s, sep).drop_last().push(
            split(s, sep).last().push(c),
        ),
{
    assert(s.push(c).drop_last() =~= s);
}

/// Filtering a list with one more item keeps that item or not, and changes nothing
/// before it.
pub proof fn lemma_filter_push<A>(s: Seq<A>, x: A, keep: spec_fn(A) -> bool)
    ensures
        s.push(x).filter(keep) == if keep(x) {
            s.filter(keep).push(x)
        } else {
            s.filter(keep)
        },
        Seq::<A>::empty().filter(keep) == Seq::<A>::empty(),
{
    reveal(Seq::filter);
    assert(s.push(x).drop_last() =~= s);
}

/// Two tests that agree on every item of a list filter it alike.
pub proof fn lemma_filter_agree<A>(s: Seq<A>, one: spec_fn(A) -> bool, other: spec_fn(A) -> bool)
    requires
        forall|i: int| 0 <= i < s.len() ==> one(#[trigger] s[i]) == other(s[i]),
    ensures
        s.filter(one) == s.filter(other),
    decreases s.len(),
{
    reveal(Seq::filter);
    if s.len() > 0 {
        lemma_filter_agree(s.drop_last(), one, other);
    }
}

/// One more piece adds its length to the total.
pub proof fn lemma_total_length_push(pieces: Seq<Seq<char>>, piece: Seq<char>)
    ensures
        total_length(pieces.push(piece)) == total_length(pieces) + piece.len(),
{
    assert(pieces.push(piece).drop_last() =~= pieces);
}

/// A text with one more character is made of a class when the text was and the
/// character belongs to the class.
pub proof fn lemma_consists_of_push(s: Seq<char>, c: char, class: CharClass)
    ensures
        consists_of(s.push(c), class) <==> consists_of(s, class) && class.contains(c),
{
    let longer = s.push(c);
    if consists_of(longer, class) {
        assert(longer[s.len() as int] == c);
        assert forall|i: int| 0 <= i < s.len() implies class.contains(#[trigger] s[i]) by {
            assert(longer[i] == s[i]);
        }
    }
}

/// The pieces worth keeping are those worth keeping among the pieces that a
/// separator has closed, and the last piece if it is worth keeping.
pub proof fn lemma_kept_pieces(s: Seq<char>, sep: CharClass, keep: spec_fn(Seq<char>) -> bool)
    ensures
        split(s, sep).len() >= 1,
        split(s, sep).filter(keep) == if keep(split(s, sep).last()) {
            split(s, sep).drop_last().filter(keep).push(split(s, sep).last())
        } else {
            split(s, sep).drop_last().filter(keep)
        },
{
    let pieces = split(s, sep);
    assert(pieces =~= pieces.drop_last().push(pieces.last()));
    lemma_filter_push(pieces.drop_last(), pieces.last(), keep);
}

/// What one more character does to the closed pieces and to the last piece: a
/// separator closes the last piece and opens an empty one; any other character
/// joins the last piece and leaves the closed pieces as they were.
pub proof fn lemma_closed_pieces_push(s: Seq<char>, c: char, sep: CharClass)
    ensures
        sep.contains(c) ==> split(s.push(c), sep).drop_last() == split(s, sep) && split(
            s.push(c),
            sep,
        ).last() == Seq::<char>::empty(),
        !sep.contains(c) ==> split(s.push(c), sep).drop_last() == split(s, sep).drop_last()
            && split(s.push(c), sep).last() == split(s, sep).last().push(c),
{
    lemma_split_push(s, c, sep);
}

/// The kept pieces that are closed after `k` characters are the first of the kept
/// pieces of the whole text.
pub proof fn lemma_closed_pieces_lead(
    s: Seq<char>,
    k: int,
    sep: CharClass,
    keep: spec_fn(Seq<char>) -> bool,
)
    requires
        0 <= k <= s.len(),
    ensures
        split(s.take(k), sep).drop_last().filter(keep).is_prefix_of(split(s, sep).filter(keep)),
    decreases s.len() - k,
{
    lemma_kept_pieces(s.take(k), sep, keep);
    if k == s.len() {
        assert(s.take(k) =~= s);
    } else {
        lemma_closed_pieces_push(s.take(k), s[k], sep);
        assert(s.take(k + 1) =~= s.take(k).push(s[k]));
        lemma_closed_pieces_lead(s, k + 1, sep, keep);
    }
}

/// No piece holds a separator.
pub proof fn lemma_pieces_hold_no_separator(s: Seq<char>, sep: CharClass)
    ensures
        forall|k: int, j: int|
            0 <= k < split(s, sep).len() && 0 <= j < split(s, sep)[k].len() ==> !sep.contains(
                #[trigger] split(s, sep)[k][j],
            ),
    decreases s.len(),
{
    if s.len() > 0 {
        lemma_pieces_hold_no_separator(s.drop_last(), sep);
        lemma_split_has_piece(s.drop_last(), sep);
    }
}

/// A piece between separators holds more than separators as soon as it holds
/// anything: the pieces that are not empty are the pieces that are not made of
/// separators alone.
pub proof fn lemma_filled_pieces_are_substantial(s: Seq<char>, sep: CharClass)
    ensures
        filled_pieces(s, sep) == substantial_pieces(s, sep, sep),
{
    let pieces = split(s, sep);
    lemma_pieces_hold_no_separator(s, sep);
    assert forall|k: int| 0 <= k < pieces.len() implies ((#[trigger] pieces[k]).len() > 0
        <==> !consists_of(pieces[k], sep)) by {
        if pieces[k].len() > 0 {
            assert(!sep.contains(pieces[k][0]));
        }
    }
    lemma_filter_agree(
        pieces,
        |piece: Seq<char>| piece.len() > 0,
        |piece: Seq<char>| !consists_of(piece, sep),
    );
}

/// The closed pieces that are not empty and the last piece have, together, as many
/// characters as the text has outside the separators.
proof fn lemma_lengths_so_far(s: Seq<char>, sep: CharClass)
    ensures
        total_length(split(s, sep).drop_last().filter(|piece: Seq<char>| piece.len() > 0)) + split(
            s,
            sep,
        ).last().len() == outside(s, sep).len(),
    decreases s.len(),
{
    let keep = |piece: Seq<char>| piece.len() > 0;
    if s.len() > 0 {
        let before = split(s.drop_last(), sep);
        lemma_lengths_so_far(s.drop_last(), sep);
        lemma_kept_pieces(s.drop_last(), sep, keep);
        lemma_total_length_push(before.drop_last().filter(keep), before.last());
        lemma_closed_pieces_push(s.drop_last(), s.last(), sep);
        lemma_filter_push(s.drop_last(), s.last(), |c: char| !sep.contains(c));
        assert(s.drop_last().push(s.last()) =~= s);
    }
}

/// The pieces that are not empty hold, together, every character that is not a
/// separator, and nothing else: they have as many characters as the text has
/// outside the separators.
pub proof fn lemma_pieces_hold_what_is_outside(s: Seq<char>, sep: CharClass)
    ensures
        total_length(filled_pieces(s, sep)) == outside(s, sep).len(),
{
    let keep = |piece: Seq<char>| piece.len() > 0;
    let pieces = split(s, sep);
    lemma_lengths_so_far(s, sep);
    lemma_kept_pieces(s, sep, keep);
    lemma_total_length_push(pieces.drop_last().filter(keep), pieces.last());
}

/// Words are runs of characters that are not white space: no word is empty, and
/// no word holds white space, however much of it lies between two words.
pub proof fn lemma_words_are_runs(s: Seq<char>)
    ensures
        forall|k: int| 0 <= k < words(s).len() ==> (#[trigger] words(s)[k]).len() > 0,
        forall|k: int, j: int|
            0 <= k < words(s).len() && 0 <= j < words(s)[k].len() ==> !is_unicode_whitespace(
                #[trigger] words(s)[k][j],
            ),
{
    let pieces = split(s, CharClass::Whitespace);
    let keep = |piece: Seq<char>| piece.len() > 0;
    lemma_pieces_hold_no_separator(s, CharClass::Whitespace);
    assert forall|k: int| 0 <= k < words(s).len() implies (#[trigger] words(s)[k]).len() > 0
        && forall|j: int|
        0 <= j < words(s)[k].len() ==> !is_unicode_whitespace(#[trigger] words(s)[k][j]) by {
        pieces.lemma_filter_pred(keep, k);
        assert(pieces.filter(keep).contains(words(s)[k]));
        pieces.lemma_filter_contains_rev(keep, words(s)[k]);
        let at = choose|at: int| 0 <= at < pieces.len() && pieces[at] == words(s)[k];
        assert forall|j: int| 0 <= j < words(s)[k].len() implies !is_unicode_whitespace(
            #[trigger] words(s)[k][j],
        ) by {
            assert(!CharClass::Whitespace.contains(pieces[at][j]));
        }
    }
}

/// A sentence end at the end of a text ends the last sentence and begins none:
/// the text has the sentences that it had without it.
pub proof fn lemma_sentence_end_adds_no_sentence(s: Seq<char>, end: char)
    requires
        CharClass::SentenceEnd.contains(end),
    ensures
        sentences(s.push(end)) == sentences(s),
{
    lemma_split_push(s, end, CharClass::SentenceEnd);
    lemma_filter_push(
        split(s, CharClass::SentenceEnd),
        Seq::<char>::empty(),
        |piece: Seq<char>| !consists_of(piece, CharClass::Whitespace),
    );
}

/// What is left of a text after trimming its start does not begin with a character
/// of the class.
pub proof fn lemma_trim_start_settles(s: Seq<char>, class: CharClass)
    ensures
        trim_start(s, class).len() > 0 ==> !class.contains(trim_start(s, class).first()),
        trim_start(s, class).len() <= s.len(),
    decreases s.len(),
{
    if s.len() > 0 && class.contains(s.first()) {
        lemma_trim_start_settles(s.drop_first(), class);
    }
}

/// What is left of a text after trimming its end does not end with a character of
/// the class, and begins as the text began.
pub proof fn lemma_trim_end_settles(s: Seq<char>, class: CharClass)
    ensures
        trim_end(s, class).len() > 0 ==> !class.contains(trim_end(s, class).last()),
        trim_end(s, class).len() > 0 ==> trim_end(s, class).first() == s.first(),
        trim_end(s, class).len() <= s.len(),
    decreases s.len(),
{
    if s.len() > 0 && class.contains(s.last()) {
        lemma_trim_end_settles(s.drop_last(), class);
    }
}

/// Trimming a trimmed text changes nothing.
pub proof fn lemma_trim_idempotent(s: Seq<char>, class: CharClass)
    ensures
        trim(trim(s, class), class) == trim(s, class),
{
    let started = trim_start(s, class);
    lemma_trim_start_settles(s, class);
    lemma_trim_end_settles(started, class);
}

/// Whether `chars` spells `literal`: the same characters in the same order.
pub fn spells(chars: &[char], literal: &str) -> (same: bool)
    ensures
        same == (chars@ == literal@),
{
    let mut i: usize = 0;
    for c in it: literal.chars()
        invariant
            i == it.index(),
            i <= chars@.len(),
            it.seq() == literal@,
            forall|j: int| 0 <= j < i ==> chars@[j] == literal@[j],
    {
        if i >= chars.len() || chars[i] != c {
            return false;
        }
        i = i + 1;
    }
    if i == chars.len() {
        assert(chars@ =~= literal@);
        true
    } else {
        false
    }
}

/// Whether `chars` holds nothing but characters of `class`.
pub fn holds_only(chars: &[char], class: CharClass) -> (only: bool)
    ensures
        only == consists_of(chars@, class),
{
    let mut i: usize = 0;
    while i < chars.len()
        invariant
            i <= chars@.len(),
            forall|j: int| 0 <= j < i ==> class.contains(#[trigger] chars@[j]),
        decreases chars.len() - i,
    {
        if !class.contains(chars[i]) {
            return false;
        }
        i = i + 1;
    }
    true
}

/// The number of characters of `chars` that are not in `class`.
pub fn count_outside(chars: &[char], class: CharClass) -> (count: usize)
    ensures
        count == outside(chars@, class).len(),
{
    let ghost keep = |c: char| !class.contains(c);
    let mut count: usize = 0;
    let mut i: usize = 0;
    while i < chars.len()
        invariant
            i <= chars@.len(),
            count <= i,
            keep == |c: char| !class.contains(c),
            count == chars@.take(i as int).filter(keep).len(),
        decreases chars.len() - i,
    {
        proof {
            lemma_filter_push(chars@.take(i as int), chars@[i as int], keep);
            assert(chars@.take(i + 1) =~= chars@.take(i as int).push(chars@[i as int]));
        }
        if !class.contains(chars[i]) {
            count = count + 1;
        }
        i = i + 1;
    }
    assert(chars@.take(i as int) =~= chars@);
    count
}

/// The first `limit` of the pieces of `chars` between characters of `sep` that are
/// not empty, or all of them where there are fewer, as slices of `chars`.
pub fn leading_pieces<'a>(chars: &'a [char], sep: CharClass, limit: usize) -> (found: Vec<
    &'a [char],
>)
    ensures
        texts(found@) == leading(filled_pieces(chars@, sep), limit as nat),
{
    let ghost keep = |piece: Seq<char>| piece.len() > 0;
    let mut found: Vec<&'a [char]> = Vec::new();
    let mut start: usize = 0;
    let mut i: usize = 0;
    while i < chars.len() && found.len() < limit
        invariant
            start <= i <= chars@.len(),
            found.len() <= limit,
            keep == |piece: Seq<char>| piece.len() > 0,
            chars@.subrange(start as int, i as int) == split(chars@.take(i as int), sep).last(),
            texts(found@) == split(chars@.take(i as int), sep).drop_last().filter(keep),
        decreases chars.len() - i,
    {
        let c = chars[i];
        proof {
            lemma_kept_pieces(chars@.take(i as int), sep, keep);
            lemma_closed_pieces_push(chars@.take(i as int), c, sep);
            assert(chars@.take(i + 1) =~= chars@.take(i as int).push(c));
        }
        if sep.contains(c) {
            if start < i {
                found.push(&chars[start..i]);
            }
            start = i + 1;
        }
        i = i + 1;
    }
    proof {
        lemma_closed_pieces_lead(chars@, i as int, sep, keep);
        lemma_kept_pieces(chars@, sep, keep);
        if found.len() < limit {
            assert(chars@.take(i as int) =~= chars@);
        }
    }
    if found.len() < limit && start < i {
        found.push(&chars[start..i]);
    }
    found
}

/// How many of the pieces of `chars` between characters of `sep` hold more than
/// characters of `filler`, and how many characters those pieces have together.
pub fn measure_pieces(chars: &[char], sep: CharClass, filler: CharClass) -> (measure: (
    usize,
    usize,
))
    ensures
        measure.0 == substantial_pieces(chars@, sep, filler).len(),
        measure.1 == total_length(substantial_pieces(chars@, sep, filler)),
{
    let ghost keep = |piece: Seq<char>| !consists_of(piece, filler);
    let mut pieces: usize = 0;
    let mut length: usize = 0;
    let mut current: usize = 0;
    let mut substantial: bool = false;
    let mut i: usize = 0;
    while i < chars.len()
        invariant
            i <= chars@.len(),
            keep == |piece: Seq<char>| !consists_of(piece, filler),
            pieces + current <= i,
            length + current <= i,
            substantial ==> current >= 1,
            current == split(chars@.take(i as int), sep).last().len(),
            substantial == !consists_of(split(chars@.take(i as int), sep).last(), filler),
            pieces == split(chars@.take(i as int), sep).drop_last().filter(keep).len(),
            length == total_length(split(chars@.take(i as int), sep).drop_last().filter(keep)),
        decreases chars.len() - i,
    {
        let c = chars[i];
        proof {
            let before = split(chars@.take(i as int), sep);
            lemma_kept_pieces(chars@.take(i as int), sep, keep);
            lemma_closed_pieces_push(chars@.take(i as int), c, sep);
            lemma_total_length_push(before.drop_last().filter(keep), before.last());
            lemma_consists_of_push(before.last(), c, filler);
            assert(chars@.take(i + 1) =~= chars@.take(i as int).push(c));
        }
        if sep.contains(c) {
            if substantial {
                pieces = pieces + 1;
                length = length + current;
            }
            current = 0;
            substantial = false;
        } else {
            current = current + 1;
            if !filler.contains(c) {
                substantial = true;
            }
        }
        i = i + 1;
    }
    proof {
        let all = split(chars@, sep);
        assert(chars@.take(i as int) =~= chars@);
        lemma_kept_pieces(chars@, sep, keep);
        lemma_total_length_push(all.drop_last().filter(keep), all.last());
    }
    if substantial {
        (pieces + 1, length + current)
    } else {
        (pieces, length)
    }
}

/// Where `chars` begins and ends once the characters of `class` are taken off both
/// ends: the trimmed text is `chars[from..to]`, where `from` counts the characters
/// taken off the start. Where nothing is left, `from` and `to` are the same.
pub fn trim_bounds(chars: &[char], class: CharClass) -> (bounds: (usize, usize))
    ensures
        bounds.0 <= bounds.1 <= chars@.len(),
        chars@.subrange(bounds.0 as int, bounds.1 as int) == trim(chars@, class),
        bounds.0 == chars@.len() - trim_start(chars@, class).len(),
        bounds.1 == bounds.0 + trim(chars@, class).len(),
{
    let n = chars.len();
    let mut from: usize = 0;
    assert(chars@.subrange(0, n as int) =~= chars@);
    while from < n && class.contains(chars[from])
        invariant
            from <= n == chars@.len(),
            trim_start(chars@, class) == trim_start(chars@.subrange(from as int, n as int), class),
        decreases n - from,
    {
        assert(chars@.subrange(from as int, n as int).drop_first() =~= chars@.subrange(
            from + 1,
            n as int,
        ));
        from = from + 1;
    }
    let mut to: usize = n;
    while to > from && class.contains(chars[to - 1])
        invariant
            from <= to <= n == chars@.len(),
            trim_start(chars@, class) == chars@.subrange(from as int, n as int),
            trim(chars@, class) == trim_end(chars@.subrange(from as int, to as int), class),
        decreases to,
    {
        assert(chars@.subrange(from as int, to as int).drop_last() =~= chars@.subrange(
            from as int,
            to - 1,
        ));
        to = to - 1;
    }
    (from, to)
}

/// `chars` without the characters of `class` at either end, as a slice of `chars`.
pub fn trimmed<'a>(chars: &'a [char], class: CharClass) -> (inner: &'a [char])
    ensures
        inner@ == trim(chars@, class),
{
    let (from, to) = trim_bounds(chars, class);
    &chars[from..to]
}

} // verus!
