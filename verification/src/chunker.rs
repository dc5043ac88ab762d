//! The chunker: the text of an entity is cut into pieces of bounded length,
//! one embedding each.
//!
//! The pieces come from the recursive chunker of `chonkier`, which splits
//! along paragraphs, lines, sentences and words. They are taken as they come
//! where they are a partition of the text into non-empty pieces within the
//! target; otherwise the text is cut at the target length, character by
//! character, which is the last step of the same ladder.
use vstd::prelude::*;
use vstd::string::{StrSliceExecFns, StringExecFns};
use crate::text::same_text;

verus! {

/// The greatest number of characters in a chunk.
pub const CHUNK_TARGET: usize = 2048;

/// The pieces of `pieces`, one after the other.
pub open spec fn joined(pieces: Seq<Seq<char>>) -> Seq<char>
    decreases pieces.len(),
{
    if pieces.len() == 0 {
        Seq::empty()
    } else {
        joined(pieces.drop_last()) + pieces.last()
    }
}

/// No piece is empty and none is longer than `target` characters.
pub open spec fn within(pieces: Seq<Seq<char>>, target: nat) -> bool {
    forall|i: int| 0 <= i < pieces.len() ==> 0 < (#[trigger] pieces[i]).len() <= target
}

/// `pieces` cuts `text` into non-empty pieces of at most `target`
/// characters: nothing is lost, added or reordered.
pub open spec fn partitions(pieces: Seq<Seq<char>>, text: Seq<char>, target: nat) -> bool {
    joined(pieces) == text && within(pieces, target)
}

/// `text` cut every `target` characters; the last piece holds what is left.
pub open spec fn fixed_pieces(text: Seq<char>, target: nat) -> Seq<Seq<char>>
    decreases text.len(),
{
    if target == 0 || text.len() == 0 {
        Seq::empty()
    } else if text.len() <= target {
        seq![text]
    } else {
        seq![text.take(target as int)] + fixed_pieces(text.skip(target as int), target)
    }
}

/// The chunks of `text`: what the recursive chunker proposes where that
/// partitions the text within the target, and the text cut at the target
/// length otherwise.
pub open spec fn chunks_of(text: Seq<char>) -> Seq<Seq<char>> {
    settled(text, recursive_chunks(text, CHUNK_TARGET as nat))
}

/// The chunks of `text` for a proposal of its chunks: the proposal where it
/// partitions the text within the target, and the text cut at the target
/// length otherwise.
pub open spec fn settled(text: Seq<char>, proposed: Seq<Seq<char>>) -> Seq<Seq<char>> {
    if partitions(proposed, text, CHUNK_TARGET as nat) {
        proposed
    } else {
        fixed_pieces(text, CHUNK_TARGET as nat)
    }
}

/// Joining distributes over putting a piece in front.
pub proof fn joined_front(head: Seq<char>, rest: Seq<Seq<char>>)
    ensures
        joined(seq![head] + rest) == head + joined(rest),
    decreases rest.len(),
{
    let all = seq![head] + rest;
    if rest.len() == 0 {
        assert(all.drop_last() =~= Seq::<Seq<char>>::empty());
        assert(joined(all.drop_last()) =~= Seq::<char>::empty());
        assert(joined(all) =~= head + joined(rest));
    } else {
        assert(all.drop_last() =~= seq![head] + rest.drop_last());
        assert(all.last() == rest.last());
        joined_front(head, rest.drop_last());
        assert(joined(all) =~= head + joined(rest));
    }
}

/// Cutting at a fixed length partitions every text.
pub proof fn fixed_pieces_partition(text: Seq<char>, target: nat)
    requires
        target > 0,
    ensures
        partitions(fixed_pieces(text, target), text, target),
    decreases text.len(),
{
    if text.len() == 0 {
        assert(joined(fixed_pieces(text, target)) =~= text);
    } else if text.len() <= target {
        assert(seq![text].drop_last() =~= Seq::<Seq<char>>::empty());
        assert(joined(Seq::<Seq<char>>::empty()) =~= Seq::<char>::empty());
        assert(seq![text].last() == text);
        assert(joined(seq![text]) =~= text);
    } else {
        let head = text.take(target as int);
        let tail = text.skip(target as int);
        fixed_pieces_partition(tail, target);
        joined_front(head, fixed_pieces(tail, target));
        assert(head + tail =~= text);
    }
}

/// The chunks of every text partition it within the target: they are not
/// empty, none is longer than the target, and one after the other they
/// spell the text.
pub proof fn chunks_of_partition(text: Seq<char>)
    ensures
        partitions(chunks_of(text), text, CHUNK_TARGET as nat),
{
    fixed_pieces_partition(text, CHUNK_TARGET as nat);
}

/// What the recursive chunker of `chonkier` makes of `text` for a chunk
/// size of `target` characters.
pub uninterp spec fn recursive_chunks(text: Seq<char>, target: nat) -> Seq<Seq<char>>;

/// Builds a `chonkier::RecursiveChunker` over the character tokenizer, with
/// the chunk size `target` and the default rules, and returns the texts of
/// the chunks that `RecursiveChunker::chunk` gives for `text`. The chunker
/// reads nothing but its argument, so the same text gives the same chunks.
/// With a chunk size of zero its splitting loop does not end.
#[verifier::external_body]
fn chunk_recursively(text: &str, target: usize) -> (chunks: Vec<String>)
    requires
        target > 0,
    ensures
        chunks.deep_view() == recursive_chunks(text@, target as nat),
{
    let chunker = chonkier::RecursiveChunker::new(
        chonkier::CharacterTokenizer::new(),
        target,
        chonkier::RecursiveRules::default(),
    );
    chunker.chunk(&text.to_string()).into_iter().map(|chunk| chunk.text).collect()
}

/// Decides whether `pieces` partitions `text` within `target`.
pub fn is_partition(pieces: &Vec<String>, text: &str, target: usize) -> (holds: bool)
    ensures
        holds == partitions(pieces.deep_view(), text@, target as nat),
{
    let mut whole = String::new();
    let mut i: usize = 0;
    assert(pieces.deep_view().take(0) =~= Seq::<Seq<char>>::empty());
    while i < pieces.len()
        invariant
            i <= pieces.len(),
            whole@ == joined(pieces.deep_view().take(i as int)),
            within(pieces.deep_view().take(i as int), target as nat),
        decreases pieces.len() - i,
    {
        let piece = pieces[i].as_str();
        let length = piece.unicode_len();
        if length == 0 || length > target {
            assert(pieces.deep_view()[i as int] == piece@);
            return false;
        }
        whole.append(piece);
        assert(pieces.deep_view().take(i + 1).drop_last() =~= pieces.deep_view().take(i as int));
        assert(pieces.deep_view().take(i + 1).last() == piece@);
        i += 1;
    }
    assert(pieces.deep_view().take(pieces.len() as int) =~= pieces.deep_view());
    same_text(whole.as_str(), text)
}

/// Cuts `text` every `target` characters; the last piece holds what is
/// left.
pub fn cut_fixed(text: &str, target: usize) -> (pieces: Vec<String>)
    requires
        target > 0,
    ensures
        pieces.deep_view() == fixed_pieces(text@, target as nat),
{
    let length = text.unicode_len();
    let mut pieces: Vec<String> = Vec::new();
    let mut from: usize = 0;
    assert(text@.skip(0) =~= text@);
    assert(pieces.deep_view() =~= Seq::<Seq<char>>::empty());
    while length - from > target
        invariant
            target > 0,
            from <= length,
            length == text@.len(),
            pieces.deep_view() + fixed_pieces(text@.skip(from as int), target as nat)
                == fixed_pieces(text@, target as nat),
        decreases length - from,
    {
        let ghost before = pieces.deep_view();
        let ghost rest = text@.skip(from as int);
        let piece = text.substring_char(from, from + target);
        assert(rest.take(target as int) =~= piece@);
        assert(rest.skip(target as int) =~= text@.skip(from + target));
        pieces.push(piece.to_owned());
        assert(pieces.deep_view() =~= before.push(piece@));
        assert(before.push(piece@) + fixed_pieces(rest.skip(target as int), target as nat)
            =~= before + (seq![piece@] + fixed_pieces(rest.skip(target as int), target as nat)));
        from += target;
    }
    if length > from {
        let ghost before = pieces.deep_view();
        let piece = text.substring_char(from, length);
        assert(text@.skip(from as int) =~= piece@);
        pieces.push(piece.to_owned());
        assert(pieces.deep_view() =~= before.push(piece@));
        assert(before.push(piece@) =~= before + seq![piece@]);
    } else {
        assert(pieces.deep_view() + Seq::<Seq<char>>::empty() =~= pieces.deep_view());
    }
    pieces
}

/// Chunks the text of an entity. The chunks are non-empty, none is longer
/// than `CHUNK_TARGET` characters, and one after the other they spell the
/// text; an empty text has no chunks. The same text always gives the same
/// chunks.
pub fn chunk_entity(text: &str) -> (chunks: Vec<String>)
    ensures
        chunks.deep_view() == chunks_of(text@),
        partitions(chunks.deep_view(), text@, CHUNK_TARGET as nat),
{
    let proposed = chunk_recursively(text, CHUNK_TARGET);
    settle_chunks(text, proposed)
}

/// Settles the chunks of `text` from a proposal: the proposal is taken where
/// it partitions the text within `CHUNK_TARGET`, and the text is cut at that
/// length otherwise. Either way the chunks partition the text.
pub fn settle_chunks(text: &str, proposed: Vec<String>) -> (chunks: Vec<String>)
    ensures
        chunks.deep_view() == settled(text@, proposed.deep_view()),
        partitions(chunks.deep_view(), text@, CHUNK_TARGET as nat),
{
    if is_partition(&proposed, text, CHUNK_TARGET) {
        proposed
    } else {
        proof {
            fixed_pieces_partition(text@, CHUNK_TARGET as nat);
        }
        cut_fixed(text, CHUNK_TARGET)
    }
}

} // verus!
