//! Text as sequences of characters: the searching, splitting and trimming that
//! the rest of the library is built on.

use vstd::prelude::*;

verus! {

/// Whether `c` has the Unicode `White_Space` property, as `char::is_whitespace`
/// reports it.
pub uninterp spec fn is_white_space(c: char) -> bool;

/// The lowercase form of `s`, as `str::to_lowercase` computes it.
pub uninterp spec fn lowercase(s: Seq<char>) -> Seq<char>;

/// `char::is_whitespace` decides the `White_Space` property; the contract only
/// gives its answer the name `is_white_space`.
pub assume_specification[ char::is_whitespace ](c: char) -> (r: bool)
    ensures
        r == is_white_space(c),
;

/// `str::to_lowercase` returns the lowercase equivalent of the slice as a new
/// `String`; the contract only gives the result the name `lowercase`.
pub assume_specification[ str::to_lowercase ](s: &str) -> (r: String)
    ensures
        r@ == lowercase(s@),
;

/// `String::push` appends one character to the end of the string.
pub assume_specification[ String::push ](s: &mut String, ch: char)
    ensures
        final(s)@ == old(s)@.push(ch),
;

/// `needle` occurs in `haystack` starting at position `at`.
pub open spec fn occurs_at(haystack: Seq<char>, needle: Seq<char>, at: int) -> bool {
    &&& 0 <= at
    &&& at + needle.len() <= haystack.len()
    &&& haystack.subrange(at, at + needle.len()) == needle
}

/// `needle` occurs somewhere in `haystack` as a contiguous run of characters.
pub open spec fn contains_subseq(haystack: Seq<char>, needle: Seq<char>) -> bool {
    exists|at: int| occurs_at(haystack, needle, at)
}

/// The pieces of `s` between occurrences of `sep`, read from left to right:
/// a separator closes the current piece and opens an empty one, any other
/// character extends the current piece. There is always at least one piece.
pub open spec fn split(s: Seq<char>, sep: char) -> Seq<Seq<char>>
    decreases s.len(),
{
    if s.len() == 0 {
        seq![Seq::empty()]
    } else {
        let pieces = split(s.drop_last(), sep);
        if s.last() == sep {
            pieces.push(Seq::empty())
        } else {
            pieces.drop_last().push(pieces.last().push(s.last()))
        }
    }
}

/// `line` without the carriage return that ends it, if one does.
pub open spec fn strip_cr(line: Seq<char>) -> Seq<char> {
    if line.len() > 0 && line.last() == '\r' {
        line.drop_last()
    } else {
        line
    }
}

/// The lines of `s`. A line ends at a line feed; the carriage return just
/// before that line feed is not part of the line. What follows the last line
/// feed is a line of its own unless it is empty.
pub open spec fn lines(s: Seq<char>) -> Seq<Seq<char>> {
    let pieces = split(s, '\n');
    let ended = pieces.drop_last().map_values(|piece: Seq<char>| strip_cr(piece));
    if pieces.last().len() == 0 {
        ended
    } else {
        ended.push(pieces.last())
    }
}

/// `s` without the white space it begins with.
pub open spec fn trim_start(s: Seq<char>) -> Seq<char>
    decreases s.len(),
{
    if s.len() > 0 && is_white_space(s.first()) {
        trim_start(s.drop_first())
    } else {
        s
    }
}

/// `s` without the white space it ends with.
pub open spec fn trim_end(s: Seq<char>) -> Seq<char>
    decreases s.len(),
{
    if s.len() > 0 && is_white_space(s.last()) {
        trim_end(s.drop_last())
    } else {
        s
    }
}

/// `s` without the white space at either end.
pub open spec fn trim(s: Seq<char>) -> Seq<char> {
    trim_end(trim_start(s))
}

/// The pieces in order, with `sep` between each two neighbours.
pub open spec fn join(pieces: Seq<Seq<char>>, sep: Seq<char>) -> Seq<char>
    decreases pieces.len(),
{
    if pieces.len() == 0 {
        Seq::empty()
    } else if pieces.len() == 1 {
        pieces[0]
    } else {
        join(pieces.drop_last(), sep) + sep + pieces.last()
    }
}

/// The texts that a vector of strings or of character vectors holds.
pub open spec fn views<T: View<V = Seq<char>>>(items: Seq<T>) -> Seq<Seq<char>> {
    Seq::new(items.len(), |i: int| items[i]@)
}

/// Every text has at least one piece.
pub proof fn lemma_split_len(s: Seq<char>, sep: char)
    ensures
        split(s, sep).len() >= 1,
    decreases s.len(),
{
    if s.len() > 0 {
        lemma_split_len(s.drop_last(), sep);
    }
}

/// Splitting two texts put together around a separator gives the pieces of
/// the first followed by the pieces of the second.
pub proof fn lemma_split_concat(a: Seq<char>, b: Seq<char>, sep: char)
    ensures
        split(a + seq![sep] + b, sep) == split(a, sep) + split(b, sep),
    decreases b.len(),
{
    let whole = a + seq![sep] + b;
    lemma_split_len(a, sep);
    if b.len() == 0 {
        assert(whole.drop_last() =~= a);
        assert(split(a, sep) + split(b, sep) =~= split(a, sep).push(Seq::empty()));
    } else {
        let shorter = b.drop_last();
        lemma_split_concat(a, shorter, sep);
        lemma_split_len(shorter, sep);
        assert(whole.drop_last() =~= a + seq![sep] + shorter);
        assert(whole.last() == b.last());
        let before = split(a, sep) + split(shorter, sep);
        if b.last() == sep {
            assert(before.push(Seq::empty()) =~= split(a, sep) + split(shorter, sep).push(
                Seq::empty(),
            ));
        } else {
            assert(before.last() == split(shorter, sep).last());
            assert(before.drop_last() =~= split(a, sep) + split(shorter, sep).drop_last());
            assert(before.drop_last().push(before.last().push(b.last())) =~= split(a, sep) + split(
                shorter,
                sep,
            ).drop_last().push(split(shorter, sep).last().push(b.last())));
        }
    }
}

/// Every character of a piece is a character of the text and is not the
/// separator.
pub proof fn lemma_split_pieces(s: Seq<char>, sep: char)
    ensures
        forall|i: int, j: int|
            0 <= i < split(s, sep).len() && 0 <= j < split(s, sep)[i].len() ==> s.contains(
                #[trigger] split(s, sep)[i][j],
            ) && split(s, sep)[i][j] != sep,
    decreases s.len(),
{
    if s.len() > 0 {
        let shorter = s.drop_last();
        lemma_split_pieces(shorter, sep);
        lemma_split_len(shorter, sep);
        let before = split(shorter, sep);
        assert forall|i: int, j: int|
            0 <= i < split(s, sep).len() && 0 <= j < split(s, sep)[i].len() implies s.contains(
            #[trigger] split(s, sep)[i][j],
        ) && split(s, sep)[i][j] != sep by {
            let c = split(s, sep)[i][j];
            if i < before.len() - 1 || (s.last() == sep && i < before.len()) {
                assert(c == before[i][j]);
                assert(shorter.contains(c));
                let k = choose|k: int| 0 <= k < shorter.len() && shorter[k] == c;
                assert(s[k] == c);
            } else if s.last() != sep && j < before.last().len() {
                assert(c == before[i][j]);
                assert(shorter.contains(c));
                let k = choose|k: int| 0 <= k < shorter.len() && shorter[k] == c;
                assert(s[k] == c);
            } else if s.last() != sep {
                assert(c == s.last());
                assert(s[s.len() - 1] == c);
            }
        }
    }
}

/// A text without the separator is its own single piece.
pub proof fn lemma_split_whole(s: Seq<char>, sep: char)
    requires
        !s.contains(sep),
    ensures
        split(s, sep) == seq![s],
    decreases s.len(),
{
    if s.len() == 0 {
        assert(s =~= Seq::empty());
    } else {
        let shorter = s.drop_last();
        assert forall|k: int| 0 <= k < shorter.len() implies shorter[k] != sep by {
            assert(s[k] == shorter[k]);
            assert(s.contains(s[k]));
        }
        lemma_split_whole(shorter, sep);
        assert(s.contains(s[s.len() - 1]));
        assert(shorter.push(s.last()) =~= s);
        assert(seq![shorter].drop_last().push(seq![shorter].last().push(s.last())) =~= seq![s]);
    }
}

/// Joining the pieces of a text with the separator gives the text back.
pub proof fn lemma_join_split(s: Seq<char>, sep: char)
    ensures
        join(split(s, sep), seq![sep]) == s,
    decreases s.len(),
{
    if s.len() == 0 {
        assert(s =~= Seq::empty());
    } else {
        let shorter = s.drop_last();
        lemma_join_split(shorter, sep);
        lemma_split_len(shorter, sep);
        let before = split(shorter, sep);
        if s.last() == sep {
            let now = before.push(Seq::empty());
            assert(now.drop_last() =~= before);
            assert(join(now, seq![sep]) =~= shorter + seq![sep]);
            assert(shorter + seq![sep] =~= s);
        } else {
            let now = before.drop_last().push(before.last().push(s.last()));
            if before.len() == 1 {
                assert(before[0] == shorter);
                assert(now[0] =~= s);
            } else {
                assert(now.drop_last() =~= before.drop_last());
                assert(join(now, seq![sep]) =~= join(before.drop_last(), seq![sep]) + seq![sep]
                    + before.last().push(s.last()));
                assert(join(before, seq![sep]) == join(before.drop_last(), seq![sep]) + seq![sep]
                    + before.last());
                assert(shorter.push(s.last()) =~= s);
                assert(join(before.drop_last(), seq![sep]) + seq![sep] + before.last().push(
                    s.last(),
                ) =~= (join(before.drop_last(), seq![sep]) + seq![sep] + before.last()).push(
                    s.last(),
                ));
            }
        }
    }
}

/// Every piece of a text occurs in it, the last one at its end.
pub proof fn lemma_piece_occurs(s: Seq<char>, sep: char)
    ensures
        forall|i: int|
            0 <= i < split(s, sep).len() ==> contains_subseq(s, #[trigger] split(s, sep)[i]),
        occurs_at(s, split(s, sep).last(), s.len() - split(s, sep).last().len()),
    decreases s.len(),
{
    lemma_split_len(s, sep);
    if s.len() == 0 {
        assert(occurs_at(s, Seq::<char>::empty(), 0)) by {
            assert(s.subrange(0, 0) =~= Seq::<char>::empty());
        }
        assert(split(s, sep)[0] =~= Seq::<char>::empty());
    } else {
        let shorter = s.drop_last();
        lemma_piece_occurs(shorter, sep);
        lemma_split_len(shorter, sep);
        let before = split(shorter, sep);
        let tail = before.last();
        let tail_at = shorter.len() - tail.len();
        assert(occurs_at(shorter, tail, tail_at));
        assert(occurs_at(s, Seq::<char>::empty(), s.len() as int)) by {
            assert(s.subrange(s.len() as int, s.len() as int) =~= Seq::<char>::empty());
        }
        assert(occurs_at(s, tail.push(s.last()), tail_at)) by {
            assert(s.subrange(tail_at, tail_at + tail.len() + 1) =~= shorter.subrange(
                tail_at,
                tail_at + tail.len(),
            ).push(s.last()));
        }
        assert forall|i: int| 0 <= i < split(s, sep).len() implies contains_subseq(
            s,
            #[trigger] split(s, sep)[i],
        ) by {
            let piece = split(s, sep)[i];
            if i < before.len() - 1 || (s.last() == sep && i < before.len()) {
                assert(piece == before[i]);
                let at = choose|at: int| occurs_at(shorter, piece, at);
                assert(s.subrange(at, at + piece.len()) =~= shorter.subrange(
                    at,
                    at + piece.len(),
                ));
                assert(occurs_at(s, piece, at));
            } else if s.last() == sep {
                assert(piece =~= Seq::<char>::empty());
            } else {
                assert(piece == tail.push(s.last()));
            }
        }
    }
}

/// The number of white-space characters that `s` begins with.
pub open spec fn leading_space(s: Seq<char>) -> nat
    decreases s.len(),
{
    if s.len() > 0 && is_white_space(s.first()) {
        1 + leading_space(s.drop_first())
    } else {
        0
    }
}

/// The number of white-space characters that `s` ends with.
pub open spec fn trailing_space(s: Seq<char>) -> nat
    decreases s.len(),
{
    if s.len() > 0 && is_white_space(s.last()) {
        1 + trailing_space(s.drop_last())
    } else {
        0
    }
}

/// Where what is left after trimming begins in `s`.
pub open spec fn trim_from(s: Seq<char>) -> int {
    leading_space(s) as int
}

/// Where what is left after trimming ends in `s`.
pub open spec fn trim_to(s: Seq<char>) -> int {
    s.len() - trailing_space(s.skip(trim_from(s)))
}

/// Trimming the start takes away the white space at the start, all of it and
/// nothing else.
pub proof fn lemma_trim_start(s: Seq<char>)
    ensures
        leading_space(s) <= s.len(),
        trim_start(s) == s.skip(leading_space(s) as int),
        forall|i: int| 0 <= i < leading_space(s) ==> is_white_space(#[trigger] s[i]),
        leading_space(s) < s.len() ==> !is_white_space(s[leading_space(s) as int]),
    decreases s.len(),
{
    if s.len() > 0 && is_white_space(s.first()) {
        let rest = s.drop_first();
        lemma_trim_start(rest);
        assert(rest.skip(leading_space(rest) as int) =~= s.skip(leading_space(s) as int));
        assert forall|i: int| 0 <= i < leading_space(s) implies is_white_space(
            #[trigger] s[i],
        ) by {
            if i > 0 {
                assert(s[i] == rest[i - 1]);
            }
        }
        if leading_space(s) < s.len() {
            assert(s[leading_space(s) as int] == rest[leading_space(rest) as int]);
        }
    } else {
        assert(s.skip(0) =~= s);
    }
}

/// Trimming the end takes away the white space at the end, all of it and
/// nothing else.
pub proof fn lemma_trim_end(s: Seq<char>)
    ensures
        trailing_space(s) <= s.len(),
        trim_end(s) == s.take(s.len() - trailing_space(s)),
        forall|i: int| s.len() - trailing_space(s) <= i < s.len() ==> is_white_space(#[trigger] s[i]),
        trailing_space(s) < s.len() ==> !is_white_space(s[s.len() - trailing_space(s) - 1]),
    decreases s.len(),
{
    if s.len() > 0 && is_white_space(s.last()) {
        let rest = s.drop_last();
        lemma_trim_end(rest);
        assert(rest.take(rest.len() - trailing_space(rest)) =~= s.take(
            s.len() - trailing_space(s),
        ));
        assert forall|i: int| s.len() - trailing_space(s) <= i < s.len() implies is_white_space(
            #[trigger] s[i],
        ) by {
            if i < s.len() - 1 {
                assert(s[i] == rest[i]);
            }
        }
        if trailing_space(s) < s.len() {
            assert(s[s.len() - trailing_space(s) - 1] == rest[rest.len() - trailing_space(rest)
                - 1]);
        }
    } else {
        assert(s.take(s.len() as int) =~= s);
    }
}

/// What is left after trimming is a stretch of the text: all that comes
/// before it and after it is white space, and unless it is empty it neither
/// begins nor ends with white space.
pub proof fn lemma_trim(s: Seq<char>)
    ensures
        0 <= trim_from(s) <= trim_to(s) <= s.len(),
        trim(s) == s.subrange(trim_from(s), trim_to(s)),
        forall|i: int|
            0 <= i < trim_from(s) || trim_to(s) <= i < s.len() ==> is_white_space(#[trigger] s[i]),
        trim(s).len() > 0 ==> !is_white_space(trim(s).first()) && !is_white_space(trim(s).last()),
{
    let from = trim_from(s);
    let rest = s.skip(from);
    lemma_trim_start(s);
    lemma_trim_end(rest);
    let kept = rest.len() - trailing_space(rest);
    assert(rest.take(kept) =~= s.subrange(from, from + kept));
    assert forall|i: int|
        0 <= i < trim_from(s) || trim_to(s) <= i < s.len() implies is_white_space(
        #[trigger] s[i],
    ) by {
        if i >= from {
            assert(s[i] == rest[i - from]);
        }
    }
    if trim(s).len() > 0 {
        assert(trim(s).first() == s[from]);
        assert(trim(s).last() == rest[kept - 1]);
        if trailing_space(rest) == rest.len() {
            assert(is_white_space(rest[0]));
        }
    }
}

/// Trimming what has been trimmed changes nothing.
pub proof fn lemma_trim_twice(s: Seq<char>)
    ensures
        trim(trim(s)) == trim(s),
{
    lemma_trim(s);
}

/// Any pieces without the separator, at least one, are the pieces of the text
/// that joins them with the separator.
pub proof fn lemma_split_join(pieces: Seq<Seq<char>>, sep: char)
    requires
        pieces.len() >= 1,
        forall|i: int| 0 <= i < pieces.len() ==> !(#[trigger] pieces[i]).contains(sep),
    ensures
        split(join(pieces, seq![sep]), sep) == pieces,
    decreases pieces.len(),
{
    if pieces.len() == 1 {
        lemma_split_whole(pieces[0], sep);
        assert(seq![pieces[0]] =~= pieces);
    } else {
        let shorter = pieces.drop_last();
        assert forall|i: int| 0 <= i < shorter.len() implies !(#[trigger] shorter[i]).contains(
            sep,
        ) by {
            assert(shorter[i] == pieces[i]);
        }
        lemma_split_join(shorter, sep);
        lemma_split_concat(join(shorter, seq![sep]), pieces.last(), sep);
        lemma_split_whole(pieces.last(), sep);
        assert(shorter + seq![pieces.last()] =~= pieces);
    }
}

/// Every character of a line is a character of the text and is no line feed.
pub proof fn lemma_lines(s: Seq<char>)
    ensures
        forall|i: int, j: int|
            0 <= i < lines(s).len() && 0 <= j < lines(s)[i].len() ==> s.contains(
                #[trigger] lines(s)[i][j],
            ) && lines(s)[i][j] != '\n',
{
    let pieces = split(s, '\n');
    lemma_split_len(s, '\n');
    lemma_split_pieces(s, '\n');
    assert forall|i: int, j: int|
        0 <= i < lines(s).len() && 0 <= j < lines(s)[i].len() implies s.contains(
        #[trigger] lines(s)[i][j],
    ) && lines(s)[i][j] != '\n' by {
        assert(lines(s)[i][j] == pieces[i][j]);
    }
}

/// A text that occurs in a stretch of another occurs in that other.
pub proof fn lemma_occurs_in_stretch(s: Seq<char>, from: int, to: int, needle: Seq<char>)
    requires
        0 <= from <= to <= s.len(),
        contains_subseq(s.subrange(from, to), needle),
    ensures
        contains_subseq(s, needle),
{
    let at = choose|at: int| occurs_at(s.subrange(from, to), needle, at);
    assert(s.subrange(from + at, from + at + needle.len()) =~= s.subrange(from, to).subrange(
        at,
        at + needle.len(),
    ));
    assert(occurs_at(s, needle, from + at));
}

/// The characters of `s`, in order.
pub fn to_chars(s: &str) -> (chars: Vec<char>)
    ensures
        chars@ == s@,
{
    let mut chars: Vec<char> = Vec::new();
    for c in it: s.chars()
        invariant
            chars@ == it.seq().take(it.index() as int),
    {
        chars.push(c);
    }
    chars
}

/// The string made of `chars`, in order.
pub fn to_text(chars: &[char]) -> (s: String)
    ensures
        s@ == chars@,
{
    let mut s = String::new();
    let mut i: usize = 0;
    while i < chars.len()
        invariant
            i <= chars.len(),
            s@ == chars@.take(i as int),
        decreases chars.len() - i,
    {
        s.push(chars[i]);
        i += 1;
    }
    s
}

/// A copy of `chars[from..to]`.
fn slice_chars(chars: &[char], from: usize, to: usize) -> (piece: Vec<char>)
    requires
        from <= to <= chars.len(),
    ensures
        piece@ == chars@.subrange(from as int, to as int),
{
    let mut piece: Vec<char> = Vec::new();
    let mut i: usize = from;
    while i < to
        invariant
            from <= i <= to <= chars.len(),
            piece@ == chars@.subrange(from as int, i as int),
        decreases to - i,
    {
        piece.push(chars[i]);
        i += 1;
    }
    piece
}

/// Whether `needle` stands in `haystack` at position `at`.
pub fn matches_at(haystack: &[char], needle: &[char], at: usize) -> (found: bool)
    ensures
        found == occurs_at(haystack@, needle@, at as int),
{
    if at > haystack.len() || needle.len() > haystack.len() - at {
        return false;
    }
    let mut i: usize = 0;
    while i < needle.len()
        invariant
            i <= needle.len(),
            at + needle.len() <= haystack.len(),
            forall|j: int| 0 <= j < i ==> haystack@[at + j] == needle@[j],
        decreases needle.len() - i,
    {
        if haystack[at + i] != needle[i] {
            proof {
                let window = haystack@.subrange(at as int, at + needle.len());
                assert(window[i as int] == haystack@[at + i]);
            }
            return false;
        }
        i += 1;
    }
    assert(haystack@.subrange(at as int, at + needle.len()) =~= needle@);
    true
}

/// Whether the two texts are the same.
pub fn same_chars(a: &[char], b: &[char]) -> (same: bool)
    ensures
        same == (a@ == b@),
{
    if a.len() != b.len() {
        return false;
    }
    let same = matches_at(a, b, 0);
    proof {
        assert(a@.subrange(0, a@.len() as int) =~= a@);
    }
    same
}

/// Whether `haystack` begins with `prefix`.
pub fn starts_with(haystack: &[char], prefix: &[char]) -> (found: bool)
    ensures
        found == prefix@.is_prefix_of(haystack@),
{
    matches_at(haystack, prefix, 0)
}

/// Whether `needle` occurs anywhere in `haystack`. The empty text occurs in
/// every text.
pub fn contains(haystack: &[char], needle: &[char]) -> (found: bool)
    ensures
        found == contains_subseq(haystack@, needle@),
{
    if needle.len() > haystack.len() {
        return false;
    }
    let last: usize = haystack.len() - needle.len();
    let mut at: usize = 0;
    loop
        invariant
            at <= last,
            last == haystack.len() - needle.len(),
            forall|k: int| 0 <= k < at ==> !occurs_at(haystack@, needle@, k),
        decreases last - at,
    {
        if matches_at(haystack, needle, at) {
            return true;
        }
        if at == last {
            return false;
        }
        at += 1;
    }
}

/// The pieces of `s` between occurrences of `sep`.
pub fn split_on(s: &[char], sep: char) -> (pieces: Vec<Vec<char>>)
    ensures
        views(pieces@) == split(s@, sep),
        pieces.len() >= 1,
{
    let mut done: Vec<Vec<char>> = Vec::new();
    let mut piece: Vec<char> = Vec::new();
    let mut i: usize = 0;
    while i < s.len()
        invariant
            i <= s.len(),
            views(done@).push(piece@) == split(s@.take(i as int), sep),
        decreases s.len() - i,
    {
        let ghost before = s@.take(i as int);
        let ghost now = s@.take(i + 1);
        let ghost finished = views(done@);
        let ghost growing = piece@;
        proof {
            assert(now.drop_last() =~= before);
            assert(now.last() == s@[i as int]);
            assert(finished.push(growing).drop_last() =~= finished);
        }
        if s[i] == sep {
            done.push(piece);
            piece = Vec::new();
            assert(views(done@) =~= finished.push(growing));
        } else {
            piece.push(s[i]);
            assert(views(done@) =~= finished);
        }
        i += 1;
    }
    proof {
        assert(s@.take(s@.len() as int) =~= s@);
        assert(views(done@.push(piece)) =~= views(done@).push(piece@));
    }
    done.push(piece);
    done
}

/// The lines of `s`.
pub fn split_lines(s: &[char]) -> (found: Vec<Vec<char>>)
    ensures
        views(found@) == lines(s@),
{
    let pieces = split_on(s, '\n');
    let count: usize = pieces.len();
    let mut found: Vec<Vec<char>> = Vec::new();
    let mut i: usize = 0;
    while i + 1 < count
        invariant
            count == pieces.len(),
            count >= 1,
            i + 1 <= count,
            found.len() == i,
            forall|j: int| 0 <= j < i ==> (#[trigger] found@[j])@ == strip_cr(pieces@[j]@),
        decreases count - i,
    {
        let piece = &pieces[i];
        let len: usize = piece.len();
        let end: usize = if len > 0 && piece[len - 1] == '\r' {
            len - 1
        } else {
            len
        };
        let line = slice_chars(piece.as_slice(), 0, end);
        assert(line@ =~= strip_cr(piece@));
        found.push(line);
        i += 1;
    }
    let ghost ended = views(pieces@).drop_last().map_values(|piece: Seq<char>| strip_cr(piece));
    assert(views(found@) =~= ended);
    let rest = &pieces[count - 1];
    if rest.len() > 0 {
        let line = slice_chars(rest.as_slice(), 0, rest.len());
        assert(line@ =~= rest@);
        found.push(line);
        assert(views(found@) =~= ended.push(rest@));
    }
    found
}

/// `s` without the white space at either end.
pub fn trimmed(s: &[char]) -> (kept: Vec<char>)
    ensures
        kept@ == trim(s@),
{
    let mut from: usize = 0;
    assert(s@.skip(0) =~= s@);
    while from < s.len() && s[from].is_whitespace()
        invariant
            from <= s.len(),
            trim_start(s@) == trim_start(s@.skip(from as int)),
        decreases s.len() - from,
    {
        assert(s@.skip(from as int).drop_first() =~= s@.skip(from + 1));
        from += 1;
    }
    let mut to: usize = s.len();
    proof {
        assert(s@.skip(from as int) =~= s@.subrange(from as int, to as int));
    }
    while to > from && s[to - 1].is_whitespace()
        invariant
            from <= to <= s.len(),
            trim_start(s@) == s@.subrange(from as int, s@.len() as int),
            trim(s@) == trim_end(s@.subrange(from as int, to as int)),
        decreases to,
    {
        assert(s@.subrange(from as int, to as int).drop_last() =~= s@.subrange(
            from as int,
            to - 1,
        ));
        to -= 1;
    }
    slice_chars(s, from, to)
}

/// The pieces in order, with `sep` between each two neighbours.
pub fn join_with(pieces: &Vec<Vec<char>>, sep: &[char]) -> (joined: Vec<char>)
    ensures
        joined@ == join(views(pieces@), sep@),
{
    let mut joined: Vec<char> = Vec::new();
    let mut i: usize = 0;
    while i < pieces.len()
        invariant
            i <= pieces.len(),
            joined@ == join(views(pieces@).take(i as int), sep@),
        decreases pieces.len() - i,
    {
        let ghost now = views(pieces@).take(i + 1);
        proof {
            assert(now.drop_last() =~= views(pieces@).take(i as int));
            assert(now.last() == pieces@[i as int]@);
            if i == 0 {
                assert(now[0] == pieces@[0]@);
            }
        }
        if i > 0 {
            append_chars(&mut joined, sep);
        }
        append_chars(&mut joined, pieces[i].as_slice());
        i += 1;
    }
    assert(views(pieces@).take(pieces@.len() as int) =~= views(pieces@));
    joined
}

/// Puts `more` at the end of `text`.
pub fn append_chars(text: &mut Vec<char>, more: &[char])
    ensures
        final(text)@ == old(text)@ + more@,
{
    let mut i: usize = 0;
    while i < more.len()
        invariant
            i <= more.len(),
            text@ == old(text)@ + more@.take(i as int),
        decreases more.len() - i,
    {
        text.push(more[i]);
        assert(more@.take(i + 1) =~= more@.take(i as int).push(more@[i as int]));
        i += 1;
    }
    assert(more@.take(more@.len() as int) =~= more@);
}

} // verus!
