//! The manifest: the record of installed package identifiers, one per line.
//! The functions here work on the content of the manifest file; reading and
//! writing the file is left to the caller.

use vstd::prelude::*;
use vstd::string::StringExecFns;
use crate::descriptor::{is_descriptor_reference, names_descriptor_file};
use crate::platform::Platform;
use crate::text::{
    append_chars, contains, contains_subseq, join, join_with, lemma_join_split, lemma_lines,
    lemma_occurs_in_stretch, lemma_piece_occurs, lemma_split_concat, lemma_split_join,
    lemma_split_len, lemma_split_pieces, lemma_split_whole, lines, occurs_at, same_chars, split,
    split_lines, strip_cr, to_chars, to_text, trim, trimmed, views,
};

verus! {

/// Where the manifest is kept on each platform.
pub open spec fn package_list_path(platform: Platform) -> Seq<char> {
    match platform {
        Platform::Windows => "C:\\ProgramData\\tpi\\packages"@,
        Platform::Unix => "/var/lib/tpi/packages"@,
    }
}

/// The line feed that ends each line of the manifest.
pub open spec fn line_feed() -> Seq<char> {
    seq!['\n']
}

/// A line is an entry unless it is empty.
pub open spec fn is_entry() -> spec_fn(Seq<char>) -> bool {
    |line: Seq<char>| line.len() > 0
}

/// A line is kept when `identifier` is removed unless it is that identifier.
pub open spec fn other_than(identifier: Seq<char>) -> spec_fn(Seq<char>) -> bool {
    |line: Seq<char>| line != identifier
}

/// The identifiers a manifest records: its lines, but for the empty ones.
pub open spec fn entries(content: Seq<char>) -> Seq<Seq<char>> {
    lines(content).filter(is_entry())
}

/// What recording `identifier` writes, if it writes anything. An identifier is
/// recorded when it refers to a descriptor file and does not yet occur anywhere
/// in the content. It goes on a line of its own after what was there, from
/// which the white space at either end is taken first.
pub open spec fn recorded(content: Seq<char>, identifier: Seq<char>) -> Option<Seq<char>> {
    if names_descriptor_file(identifier) && !contains_subseq(content, identifier) {
        if content.len() == 0 {
            Some(identifier + line_feed())
        } else {
            Some(trim(content) + line_feed() + identifier + line_feed())
        }
    } else {
        None
    }
}

/// The content of the manifest once `identifier` has been recorded.
pub open spec fn after_record(content: Seq<char>, identifier: Seq<char>) -> Seq<char> {
    match recorded(content, identifier) {
        Some(written) => written,
        None => content,
    }
}

/// The content of the manifest once `identifier` has been removed: the lines
/// other than `identifier`, joined by line feeds, and a line feed at the end.
pub open spec fn removed(content: Seq<char>, identifier: Seq<char>) -> Seq<char> {
    join(lines(content).filter(other_than(identifier)), line_feed()) + line_feed()
}

/// The form in which the manifest is kept: empty, or else free of carriage
/// returns and equal to what is left of it after trimming, followed by one
/// line feed.
pub open spec fn well_formed(content: Seq<char>) -> bool {
    content.len() > 0 ==> {
        &&& trim(content) + line_feed() == content
        &&& !content.contains('\r')
    }
}

/// The lines of a well-formed manifest that is not empty are the pieces of its
/// trimmed content; joined and ended by a line feed they make up the manifest,
/// and each of them occurs in it.
pub proof fn lemma_well_formed_lines(content: Seq<char>)
    requires
        well_formed(content),
        content.len() > 0,
    ensures
        lines(content) == split(trim(content), '\n'),
        join(lines(content), line_feed()) + line_feed() == content,
        forall|i: int|
            0 <= i < lines(content).len() ==> contains_subseq(content, #[trigger] lines(content)[i]),
{
    let body = trim(content);
    let pieces = split(body, '\n');
    lemma_split_concat(body, Seq::empty(), '\n');
    lemma_split_len(body, '\n');
    lemma_split_pieces(body, '\n');
    lemma_join_split(body, '\n');
    lemma_piece_occurs(body, '\n');
    assert(body + line_feed() + Seq::<char>::empty() =~= content);
    assert(split(Seq::<char>::empty(), '\n') =~= seq![Seq::<char>::empty()]);
    assert(split(content, '\n') == pieces + seq![Seq::<char>::empty()]);
    assert(split(content, '\n').drop_last() =~= pieces);
    assert forall|i: int| 0 <= i < pieces.len() implies strip_cr(#[trigger] pieces[i])
        == pieces[i] by {
        let piece = pieces[i];
        if piece.len() > 0 && piece.last() == '\r' {
            assert(body.contains(pieces[i][piece.len() - 1]));
            let k = choose|k: int| 0 <= k < body.len() && body[k] == '\r';
            assert(content[k] == '\r');
            assert(content.contains('\r'));
        }
    }
    assert(pieces.map_values(|piece: Seq<char>| strip_cr(piece)) =~= pieces);
    assert(lines(content) == pieces);
    assert(content.subrange(0, body.len() as int) =~= body);
    assert forall|i: int| 0 <= i < pieces.len() implies contains_subseq(
        content,
        #[trigger] pieces[i],
    ) by {
        lemma_occurs_in_stretch(content, 0, body.len() as int, pieces[i]);
    }
}

/// Removing an identifier that is on no line leaves a well-formed manifest
/// that is not empty exactly as it was.
pub proof fn lemma_remove_absent(content: Seq<char>, identifier: Seq<char>)
    requires
        well_formed(content),
        content.len() > 0,
        !lines(content).contains(identifier),
    ensures
        removed(content, identifier) == content,
{
    lemma_well_formed_lines(content);
    lemma_keeps_all(lines(content), identifier);
}

/// Removing an identifier from a well-formed manifest that is not empty
/// strikes the lines equal to it and leaves the other entries as they were, in
/// their order. A manifest without duplicate lines stays without them.
pub proof fn lemma_remove_strikes(content: Seq<char>, identifier: Seq<char>)
    requires
        well_formed(content),
        content.len() > 0,
    ensures
        entries(removed(content, identifier)) == entries(content).filter(other_than(identifier)),
        !entries(removed(content, identifier)).contains(identifier),
        lines(content).no_duplicates() ==> lines(removed(content, identifier)).no_duplicates(),
{
    let all = lines(content);
    let kept = all.filter(other_than(identifier));
    let written = removed(content, identifier);
    let empty = Seq::<char>::empty();
    let none = Seq::<Seq<char>>::empty();
    lemma_well_formed_lines(content);
    lemma_lines_are_plain(content);
    assert(split(empty, '\n') =~= seq![empty]);
    assert forall|i: int| 0 <= i < kept.len() implies !(#[trigger] kept[i]).contains('\n')
        && strip_cr(kept[i]) == kept[i] && kept[i] != identifier by {
        all.lemma_filter_pred(other_than(identifier), i);
        assert(kept.contains(kept[i]));
        all.lemma_filter_contains_rev(other_than(identifier), kept[i]);
    }
    if kept.len() == 0 {
        assert(join(kept, line_feed()) =~= empty);
        assert(written =~= line_feed());
        lemma_split_concat(empty, empty, '\n');
        assert(empty + line_feed() + empty =~= line_feed());
        assert(split(line_feed(), '\n') == seq![empty] + seq![empty]);
        assert(split(line_feed(), '\n').drop_last() =~= seq![empty]);
        assert(lines(written) =~= none.push(empty));
        none.lemma_filter_push(empty, is_entry());
        assert(none.filter(is_entry()) =~= none);
        assert(entries(written) =~= none);
    } else {
        lemma_split_join(kept, '\n');
        lemma_split_concat(join(kept, line_feed()), empty, '\n');
        assert(join(kept, line_feed()) + line_feed() + empty =~= written);
        assert(split(written, '\n') == kept + seq![empty]);
        assert(split(written, '\n').drop_last() =~= kept);
        assert(kept.map_values(|piece: Seq<char>| strip_cr(piece)) =~= kept);
        assert(lines(written) == kept);
        if all.no_duplicates() {
            lemma_kept_stay_distinct(all, identifier);
        }
    }
    lemma_filters_commute(all, identifier);
    if entries(written).contains(identifier) {
        entries(content).lemma_filter_pred(
            other_than(identifier),
            choose|i: int|
                0 <= i < entries(written).len() && entries(written)[i] == identifier,
        );
    }
}

/// In a well-formed manifest that is not empty no line holds a line feed or
/// ends in a carriage return.
pub proof fn lemma_lines_are_plain(content: Seq<char>)
    requires
        well_formed(content),
        content.len() > 0,
    ensures
        forall|i: int|
            0 <= i < lines(content).len() ==> !(#[trigger] lines(content)[i]).contains('\n')
                && strip_cr(lines(content)[i]) == lines(content)[i],
{
    lemma_lines(content);
    assert forall|i: int| 0 <= i < lines(content).len() implies !(#[trigger] lines(
        content,
    )[i]).contains('\n') && strip_cr(lines(content)[i]) == lines(content)[i] by {
        let line = lines(content)[i];
        if line.contains('\n') {
            let j = choose|j: int| 0 <= j < line.len() && line[j] == '\n';
            assert(lines(content)[i][j] != '\n');
        }
        if line.len() > 0 && line.last() == '\r' {
            assert(content.contains(lines(content)[i][line.len() - 1]));
        }
    }
}

/// Striking an identifier and leaving out the empty lines can be done in
/// either order.
pub proof fn lemma_filters_commute(all: Seq<Seq<char>>, identifier: Seq<char>)
    ensures
        all.filter(other_than(identifier)).filter(is_entry()) == all.filter(is_entry()).filter(
            other_than(identifier),
        ),
    decreases all.len(),
{
    if all.len() == 0 {
        assert(all.filter(other_than(identifier)) =~= all);
        assert(all.filter(is_entry()) =~= all);
    } else {
        let shorter = all.drop_last();
        lemma_filters_commute(shorter, identifier);
        assert(shorter.push(all.last()) =~= all);
        shorter.lemma_filter_push(all.last(), other_than(identifier));
        shorter.lemma_filter_push(all.last(), is_entry());
        shorter.filter(other_than(identifier)).lemma_filter_push(all.last(), is_entry());
        shorter.filter(is_entry()).lemma_filter_push(all.last(), other_than(identifier));
    }
}

/// Lines that were all different are still all different when some of them
/// have been struck.
pub proof fn lemma_kept_stay_distinct(all: Seq<Seq<char>>, identifier: Seq<char>)
    requires
        all.no_duplicates(),
    ensures
        all.filter(other_than(identifier)).no_duplicates(),
    decreases all.len(),
{
    if all.len() == 0 {
        assert(all.filter(other_than(identifier)) =~= all);
    } else {
        let shorter = all.drop_last();
        let kept = shorter.filter(other_than(identifier));
        assert forall|i: int, j: int| 0 <= i < j < shorter.len() implies shorter[i]
            != shorter[j] by {
            assert(all[i] == shorter[i] && all[j] == shorter[j]);
        }
        lemma_kept_stay_distinct(shorter, identifier);
        assert(shorter.push(all.last()) =~= all);
        shorter.lemma_filter_push(all.last(), other_than(identifier));
        if kept.contains(all.last()) {
            shorter.lemma_filter_contains_rev(other_than(identifier), all.last());
            let i = choose|i: int| 0 <= i < shorter.len() && shorter[i] == all.last();
            assert(all[i] == all[all.len() - 1]);
        }
    }
}

/// Taking out an identifier that is not among the lines keeps them all.
pub proof fn lemma_keeps_all(all: Seq<Seq<char>>, identifier: Seq<char>)
    requires
        !all.contains(identifier),
    ensures
        all.filter(other_than(identifier)) == all,
    decreases all.len(),
{
    if all.len() == 0 {
        assert(all.filter(other_than(identifier)) =~= all);
    } else {
        let shorter = all.drop_last();
        assert forall|i: int| 0 <= i < shorter.len() implies shorter[i] != identifier by {
            assert(all[i] == shorter[i]);
            assert(all.contains(all[i]));
        }
        lemma_keeps_all(shorter, identifier);
        assert(all.contains(all[all.len() - 1]));
        assert(shorter.push(all.last()) =~= all);
        shorter.lemma_filter_push(all.last(), other_than(identifier));
    }
}

/// An identifier that refers to a descriptor file is not empty and does not
/// end in a carriage return.
pub proof fn lemma_descriptor_file_name(identifier: Seq<char>)
    requires
        names_descriptor_file(identifier),
    ensures
        identifier.len() > 0,
        strip_cr(identifier) == identifier,
{
    reveal_strlit(".srb");
    reveal_strlit(".sorbet");
    if ".srb"@.is_suffix_of(identifier) {
        let tail = identifier.subrange(identifier.len() - 4, identifier.len() as int);
        assert(tail[3] == 'b');
    } else {
        let tail = identifier.subrange(identifier.len() - 7, identifier.len() as int);
        assert(tail[6] == 't');
    }
}

/// Recording an identifier in a well-formed manifest that is not empty, where
/// it is recorded at all, puts it on a new last line and leaves the other
/// lines as they were. No line was equal to it before, so a manifest without
/// duplicate lines stays without them.
pub proof fn lemma_record_adds_line(content: Seq<char>, identifier: Seq<char>)
    requires
        well_formed(content),
        content.len() > 0,
        recorded(content, identifier) is Some,
        !identifier.contains('\n'),
    ensures
        lines(after_record(content, identifier)) == lines(content).push(identifier),
        !lines(content).contains(identifier),
        lines(content).no_duplicates() ==> lines(after_record(content, identifier)).no_duplicates(),
{
    let body = trim(content);
    let written = after_record(content, identifier);
    lemma_well_formed_lines(content);
    lemma_descriptor_file_name(identifier);
    lemma_split_concat(body, identifier + line_feed(), '\n');
    lemma_split_concat(identifier, Seq::empty(), '\n');
    lemma_split_whole(identifier, '\n');
    lemma_split_len(body, '\n');
    assert(split(Seq::<char>::empty(), '\n') =~= seq![Seq::<char>::empty()]);
    assert(identifier + line_feed() + Seq::<char>::empty() =~= identifier + line_feed());
    assert(body + line_feed() + (identifier + line_feed()) =~= written);
    let pieces = split(body, '\n');
    assert(split(written, '\n') == pieces + (seq![identifier] + seq![Seq::<char>::empty()]));
    assert(split(written, '\n').drop_last() =~= pieces.push(identifier));
    assert(pieces.push(identifier).map_values(|piece: Seq<char>| strip_cr(piece))
        =~= pieces.map_values(|piece: Seq<char>| strip_cr(piece)).push(identifier));
    assert(lines(content) == pieces.map_values(|piece: Seq<char>| strip_cr(piece))) by {
        lemma_split_concat(body, Seq::empty(), '\n');
        assert(body + line_feed() + Seq::<char>::empty() =~= content);
        assert(split(content, '\n').drop_last() =~= pieces);
    }
    if lines(content).contains(identifier) {
        let i = choose|i: int| 0 <= i < lines(content).len() && lines(content)[i] == identifier;
        assert(contains_subseq(content, lines(content)[i]));
    }
}

/// Recording an identifier twice is the same as recording it once: after the
/// first time the identifier occurs in the manifest, so the second time
/// nothing is written.
pub proof fn lemma_record_idempotent(content: Seq<char>, identifier: Seq<char>)
    ensures
        recorded(after_record(content, identifier), identifier) is None,
        after_record(after_record(content, identifier), identifier) == after_record(
            content,
            identifier,
        ),
{
    if recorded(content, identifier) is Some {
        let written = after_record(content, identifier);
        let at: int = if content.len() == 0 {
            0
        } else {
            (trim(content).len() + 1) as int
        };
        assert(written.subrange(at, at + identifier.len()) =~= identifier);
        assert(occurs_at(written, identifier, at));
    }
}

/// Recording an identifier and then removing it gives back what the manifest
/// recorded before, provided that the manifest is well formed, that the
/// identifier occurs nowhere in it, and that the identifier, where it is one
/// that gets recorded, fits on one line. A manifest that was not empty comes
/// back character for character; an empty one comes back as a single line
/// feed, which records nothing either.
pub proof fn lemma_record_then_remove(content: Seq<char>, identifier: Seq<char>)
    requires
        well_formed(content),
        !contains_subseq(content, identifier),
        names_descriptor_file(identifier) ==> !identifier.contains('\n'),
    ensures
        entries(removed(after_record(content, identifier), identifier)) == entries(content),
        content.len() > 0 ==> removed(after_record(content, identifier), identifier) == content,
{
    let written = after_record(content, identifier);
    let empty = Seq::<char>::empty();
    assert(split(empty, '\n') =~= seq![empty]);
    if content.len() > 0 {
        lemma_well_formed_lines(content);
        if lines(content).contains(identifier) {
            let i = choose|i: int| 0 <= i < lines(content).len() && lines(content)[i] == identifier;
            assert(contains_subseq(content, lines(content)[i]));
        }
        lemma_keeps_all(lines(content), identifier);
        if recorded(content, identifier) is Some {
            lemma_record_adds_line(content, identifier);
            lines(content).lemma_filter_push(identifier, other_than(identifier));
        }
    } else {
        assert(content =~= empty);
        assert(lines(empty) =~= Seq::<Seq<char>>::empty());
        assert(entries(empty) =~= Seq::<Seq<char>>::empty());
        let none = Seq::<Seq<char>>::empty();
        if recorded(content, identifier) is Some {
            lemma_descriptor_file_name(identifier);
            lemma_split_concat(identifier, empty, '\n');
            lemma_split_whole(identifier, '\n');
            assert(identifier + line_feed() + empty =~= written);
            assert(split(written, '\n') == seq![identifier] + seq![empty]);
            assert(split(written, '\n').drop_last() =~= seq![identifier]);
            assert(lines(written) =~= none.push(identifier));
            none.lemma_filter_push(identifier, other_than(identifier));
        }
        assert(none.filter(other_than(identifier)) =~= none);
        assert(removed(written, identifier) =~= line_feed());
        lemma_split_concat(empty, empty, '\n');
        assert(empty + line_feed() + empty =~= line_feed());
        assert(split(line_feed(), '\n') == seq![empty] + seq![empty]);
        assert(split(line_feed(), '\n').drop_last() =~= seq![empty]);
        assert(lines(line_feed()) =~= none.push(empty));
        none.lemma_filter_push(empty, is_entry());
        assert(none.filter(is_entry()) =~= none);
    }
}

/// The path of the manifest file on `platform`.
pub fn get_package_list(platform: Platform) -> (path: String)
    ensures
        path@ == package_list_path(platform),
{
    match platform {
        Platform::Windows => String::from_str("C:\\ProgramData\\tpi\\packages"),
        Platform::Unix => String::from_str("/var/lib/tpi/packages"),
    }
}

/// The identifiers that the manifest records, from the first to the last.
pub fn installed(content: &str) -> (found: Vec<String>)
    ensures
        views(found@) == entries(content@),
{
    let chars = to_chars(content);
    let all = split_lines(chars.as_slice());
    let mut found: Vec<String> = Vec::new();
    let mut i: usize = 0;
    assert(views(found@) =~= Seq::<Seq<char>>::empty());
    while i < all.len()
        invariant
            i <= all.len(),
            views(found@) == views(all@).take(i as int).filter(is_entry()),
        decreases all.len() - i,
    {
        let ghost seen = views(all@).take(i as int);
        let ghost kept = views(found@);
        proof {
            assert(views(all@).take(i + 1) =~= seen.push(all@[i as int]@));
            seen.lemma_filter_push(all@[i as int]@, is_entry());
        }
        if all[i].len() > 0 {
            found.push(to_text(all[i].as_slice()));
            assert(views(found@) =~= kept.push(all@[i as int]@));
        }
        i += 1;
    }
    assert(views(all@).take(all@.len() as int) =~= views(all@));
    found
}

/// Records `package` in the manifest whose content is `content`. Returns the
/// new content where the manifest has to be rewritten, and `None` where it
/// stays as it is: when `package` is no reference to a descriptor file, or
/// already occurs in the content.
pub fn record(content: &str, package: &str) -> (update: Option<String>)
    ensures
        match update {
            Some(written) => recorded(content@, package@) == Some(written@),
            None => recorded(content@, package@) is None,
        },
{
    let old = to_chars(content);
    let id = to_chars(package);
    if is_descriptor_reference(package) && !contains(old.as_slice(), id.as_slice()) {
        let mut new: Vec<char> = Vec::new();
        if old.len() > 0 {
            new = trimmed(old.as_slice());
            new.push('\n');
        }
        append_chars(&mut new, id.as_slice());
        new.push('\n');
        let written = to_text(new.as_slice());
        proof {
            if old@.len() == 0 {
                assert(written@ =~= package@ + line_feed());
            } else {
                assert(written@ =~= trim(content@) + line_feed() + package@ + line_feed());
            }
        }
        Some(written)
    } else {
        None
    }
}

/// Removes `package` from the manifest whose content is `content`, and returns
/// the content to write: every line other than `package`, each ended by a line
/// feed. Where no line is left, a single line feed is left.
pub fn remove(content: &str, package: &str) -> (written: String)
    ensures
        written@ == removed(content@, package@),
{
    let chars = to_chars(content);
    let id = to_chars(package);
    let all = split_lines(chars.as_slice());
    let mut kept: Vec<Vec<char>> = Vec::new();
    let mut i: usize = 0;
    assert(views(kept@) =~= Seq::<Seq<char>>::empty());
    while i < all.len()
        invariant
            i <= all.len(),
            id@ == package@,
            views(kept@) == views(all@).take(i as int).filter(other_than(package@)),
        decreases all.len() - i,
    {
        let ghost seen = views(all@).take(i as int);
        let ghost so_far = views(kept@);
        proof {
            assert(views(all@).take(i + 1) =~= seen.push(all@[i as int]@));
            seen.lemma_filter_push(all@[i as int]@, other_than(package@));
        }
        if !same_chars(all[i].as_slice(), id.as_slice()) {
            let line = all[i].clone();
            kept.push(line);
            assert(views(kept@) =~= so_far.push(all@[i as int]@));
        }
        i += 1;
    }
    assert(views(all@).take(all@.len() as int) =~= views(all@));
    let feed: Vec<char> = vec!['\n'];
    assert(feed@ =~= line_feed());
    let mut new = join_with(&kept, feed.as_slice());
    new.push('\n');
    to_text(new.as_slice())
}

} // verus!
