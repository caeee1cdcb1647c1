//! Splitting of long texts before they are embedded.
//!
//! The engine never splits stored content on its own. A caller whose texts exceed the
//! embedder's window splits them with [`split_for_embedding`] and stores each chunk.

use vstd::prelude::*;
use text_splitter::TextSplitter;
use vstd::string::StrSliceExecFns;
use crate::text::owned;

verus! {

/// A character with the Unicode property `White_Space`.
pub open spec fn is_white_space(c: char) -> bool {
    let code = c as int;
    ||| 0x09 <= code <= 0x0d
    ||| code == 0x20
    ||| code == 0x85
    ||| code == 0xa0
    ||| code == 0x1680
    ||| 0x2000 <= code <= 0x200a
    ||| code == 0x2028
    ||| code == 0x2029
    ||| code == 0x202f
    ||| code == 0x205f
    ||| code == 0x3000
}

/// No character of `s` is white space.
pub open spec fn solid(s: Seq<char>) -> bool {
    forall|i: int| 0 <= i < s.len() ==> !is_white_space(#[trigger] s[i])
}

/// The characters of `s` that are no white space, in order.
pub open spec fn content(s: Seq<char>) -> Seq<char>
    decreases s.len(),
{
    if s.len() == 0 {
        seq![]
    } else if is_white_space(s.last()) {
        content(s.drop_last())
    } else {
        content(s.drop_last()).push(s.last())
    }
}

/// The content of the chunks, one after the other.
pub open spec fn content_of_all(chunks: Seq<String>) -> Seq<char>
    decreases chunks.len(),
{
    if chunks.len() == 0 {
        seq![]
    } else {
        content_of_all(chunks.drop_last()) + content(chunks.last()@)
    }
}

/// The texts of the chunks.
pub open spec fn texts_of(chunks: Seq<String>) -> Seq<Seq<char>> {
    chunks.map_values(|c: String| c@)
}

/// Where the chunk before chunk `i` ends in the text; the start of the text before the
/// first chunk.
pub open spec fn end_before(chunks: Seq<String>, starts: Seq<int>, i: int) -> int {
    if i <= 0 {
        0
    } else {
        starts[i - 1] + chunks[i - 1]@.len()
    }
}

/// Chunk `i` stands in the text at `starts[i]`, behind the chunk before it, with nothing
/// but white space between the two.
pub open spec fn stands_at(
    text: Seq<char>,
    chunks: Seq<String>,
    starts: Seq<int>,
    i: int,
) -> bool {
    &&& end_before(chunks, starts, i) <= starts[i]
    &&& starts[i] + chunks[i]@.len() <= text.len()
    &&& text.subrange(starts[i], starts[i] + chunks[i]@.len()) == chunks[i]@
    &&& blank(text.subrange(end_before(chunks, starts, i), starts[i]))
}

/// Every character of `s` is white space.
pub open spec fn blank(s: Seq<char>) -> bool {
    forall|i: int| 0 <= i < s.len() ==> is_white_space(#[trigger] s[i])
}

/// The chunks stand in the text at `starts`, in order and without overlap, with nothing
/// but white space before, between and behind them.
pub open spec fn is_cut_at(text: Seq<char>, chunks: Seq<String>, starts: Seq<int>) -> bool {
    &&& starts.len() == chunks.len()
    &&& forall|i: int|
        0 <= i < chunks.len() ==> #[trigger] stands_at(text, chunks, starts, i)
    &&& end_before(chunks, starts, chunks.len() as int) <= text.len()
    &&& blank(text.subrange(end_before(chunks, starts, chunks.len() as int), text.len() as int))
}

/// The chunks are pieces of the text, in order and without overlap, that leave out white
/// space only.
pub open spec fn is_cut(text: Seq<char>, chunks: Seq<String>) -> bool {
    exists|starts: Seq<int>| is_cut_at(text, chunks, starts)
}

/// The chunks into which `text` is split at boundaries of sentences and paragraphs.
pub uninterp spec fn semantic_chunks(text: Seq<char>, max_chars: usize) -> Seq<Seq<char>>;

/// Splits a text with `TextSplitter::new` and `TextSplitter::chunks` of the
/// `text-splitter` crate. The claim is that the chunks are a function of the text and the
/// limit, that none is empty or longer than a limit that is not zero, and that they are
/// pieces of the text, in order and without overlap, with nothing but white space left
/// out. At a limit of zero the crate underflows on white space, so texts with white space
/// are left out there.
#[verifier::external_body]
fn split_semantically(text: &str, max_chars: usize) -> (r: Vec<String>)
    requires
        max_chars > 0 || solid(text@),
    ensures
        texts_of(r@) == semantic_chunks(text@, max_chars),
        forall|i: int| 0 <= i < r.len() ==> 0 < (#[trigger] r@[i])@.len(),
        max_chars > 0 ==> forall|i: int| 0 <= i < r.len() ==> (#[trigger] r@[i])@.len() <= max_chars,
        is_cut(text@, r@),
{
    TextSplitter::new(max_chars).chunks(text).map(str::to_owned).collect()
}

proof fn content_splits(a: Seq<char>, b: Seq<char>)
    ensures
        content(a + b) == content(a) + content(b),
    decreases b.len(),
{
    if b.len() == 0 {
        assert(a + b =~= a);
        assert(content(a) + content(b) =~= content(a));
    } else {
        assert((a + b).drop_last() =~= a + b.drop_last());
        content_splits(a, b.drop_last());
        assert(content(a + b) =~= content(a) + content(b));
    }
}

proof fn blank_has_no_content(s: Seq<char>)
    requires
        blank(s),
    ensures
        content(s) == Seq::<char>::empty(),
    decreases s.len(),
{
    if s.len() > 0 {
        assert(is_white_space(s[s.len() - 1]));
        assert forall|i: int| 0 <= i < s.drop_last().len() implies is_white_space(
            #[trigger] s.drop_last()[i],
        ) by {
            assert(s.drop_last()[i] == s[i]);
        }
        blank_has_no_content(s.drop_last());
    }
}

/// The first `n` chunks hold the content of the text up to their end.
proof fn cut_keeps_content_upto(text: Seq<char>, chunks: Seq<String>, starts: Seq<int>, n: nat)
    requires
        is_cut_at(text, chunks, starts),
        n <= chunks.len(),
    ensures
        0 <= end_before(chunks, starts, n as int) <= text.len(),
        content_of_all(chunks.take(n as int)) == content(
            text.take(end_before(chunks, starts, n as int)),
        ),
    decreases n,
{
    if n == 0 {
        assert(chunks.take(0) =~= Seq::<String>::empty());
        assert(text.take(0) =~= Seq::<char>::empty());
    } else {
        cut_keeps_content_upto(text, chunks, starts, (n - 1) as nat);
        assert(stands_at(text, chunks, starts, n - 1));
        let before = end_before(chunks, starts, n - 1);
        let start = starts[n - 1];
        let end = end_before(chunks, starts, n as int);
        let gap = text.subrange(before, start);
        assert(text.take(start) =~= text.take(before) + gap);
        assert(text.take(end) =~= text.take(start) + chunks[n - 1]@);
        content_splits(text.take(before), gap);
        blank_has_no_content(gap);
        content_splits(text.take(start), chunks[n - 1]@);
        assert(content(text.take(before)) + content(gap) =~= content(text.take(before)));
        assert(chunks.take(n as int).drop_last() =~= chunks.take(n - 1));
        assert(chunks.take(n as int).last() == chunks[n - 1]);
    }
}

/// Cutting a text drops, doubles and reorders nothing but white space: the chunks hold its
/// content.
pub proof fn law_cut_keeps_content(text: Seq<char>, chunks: Seq<String>)
    requires
        is_cut(text, chunks),
    ensures
        content_of_all(chunks) == content(text),
{
    let starts = choose|starts: Seq<int>| is_cut_at(text, chunks, starts);
    cut_keeps_content_upto(text, chunks, starts, chunks.len());
    let end = end_before(chunks, starts, chunks.len() as int);
    let rest = text.subrange(end, text.len() as int);
    assert(text =~= text.take(end) + rest);
    content_splits(text.take(end), rest);
    blank_has_no_content(rest);
    assert(content(text.take(end)) + content(rest) =~= content(text.take(end)));
    assert(chunks.take(chunks.len() as int) =~= chunks);
}

/// Splits `text` into chunks of at most `max_chars` characters, at boundaries of
/// sentences and paragraphs where it can. A text that fits is its own only chunk,
/// unchanged, and an empty text has no chunks. The chunks of a longer text are pieces of
/// it, in order; nothing is dropped but white space, and nothing is duplicated. A
/// limit of zero cannot be met; it is taken for texts without white space only.
pub fn split_for_embedding(text: &str, max_chars: usize) -> (r: Vec<String>)
    requires
        max_chars > 0 || solid(text@),
    ensures
        text@.len() == 0 ==> r.len() == 0,
        0 < text@.len() <= max_chars ==> texts_of(r@) == seq![text@],
        text@.len() > max_chars ==> texts_of(r@) == semantic_chunks(text@, max_chars),
        forall|i: int| 0 <= i < r.len() ==> 0 < (#[trigger] r@[i])@.len(),
        max_chars > 0 ==> forall|i: int| 0 <= i < r.len() ==> (#[trigger] r@[i])@.len() <= max_chars,
        is_cut(text@, r@),
        content_of_all(r@) == content(text@),
{
    let len: usize = text.unicode_len();
    let chunks: Vec<String> = if len == 0 {
        let none: Vec<String> = Vec::new();
        assert(is_cut_at(text@, none@, seq![]));
        none
    } else if len <= max_chars {
        let mut whole: Vec<String> = Vec::new();
        whole.push(owned(text));
        proof {
            assert(texts_of(whole@) =~= seq![text@]);
            assert(text@.subrange(0, text@.len() as int) =~= text@);
            assert(stands_at(text@, whole@, seq![0], 0));
            assert(is_cut_at(text@, whole@, seq![0]));
        }
        whole
    } else {
        split_semantically(text, max_chars)
    };
    proof {
        law_cut_keeps_content(text@, chunks@);
    }
    chunks
}

}
