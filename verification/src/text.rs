//! Text as bytes: blanks at the ends, and pieces between separators.

use vstd::prelude::*;

verus! {

/// The blanks that are cut from the ends of a text: space, tab, line feed,
/// vertical tab, form feed and carriage return.
pub open spec fn is_blank(byte: u8) -> bool {
    byte == 32 || (9 <= byte && byte <= 13)
}

/// The text without the blanks at its start.
pub open spec fn trimmed_start(text: Seq<u8>) -> Seq<u8>
    decreases text.len(),
{
    if text.len() > 0 && is_blank(text[0]) {
        trimmed_start(text.skip(1))
    } else {
        text
    }
}

/// The text without the blanks at its end.
pub open spec fn trimmed_end(text: Seq<u8>) -> Seq<u8>
    decreases text.len(),
{
    if text.len() > 0 && is_blank(text.last()) {
        trimmed_end(text.drop_last())
    } else {
        text
    }
}

/// The text without the blanks at both ends.
pub open spec fn trimmed(text: Seq<u8>) -> Seq<u8> {
    trimmed_end(trimmed_start(text))
}

/// The pieces of a text between the occurrences of a separator, in order:
/// one piece more than there are separators, some of them perhaps empty.
pub open spec fn split(text: Seq<u8>, separator: u8) -> Seq<Seq<u8>>
    decreases text.len(),
{
    match text.index_of_first(separator) {
        None => seq![text],
        Some(at) => {
            if 0 <= at < text.len() {
                seq![text.take(at)] + split(text.skip(at + 1), separator)
            } else {
                seq![text]
            }
        },
    }
}

/// The pieces of a list as sequences of bytes.
pub open spec fn piece_views(pieces: Seq<Vec<u8>>) -> Seq<Seq<u8>> {
    Seq::new(pieces.len(), |k: int| pieces[k]@)
}

/// Where a byte stands in a text with no such byte before it, there is its
/// first occurrence.
pub proof fn lemma_first_occurrence(text: Seq<u8>, byte: u8, at: int)
    requires
        0 <= at < text.len(),
        text[at] == byte,
        forall|k: int| 0 <= k < at ==> text[k] != byte,
    ensures
        text.index_of_first(byte) == Some(at),
{
    text.index_of_first_ensures(byte);
    assert(text.contains(byte));
}

/// A text that does not hold a byte has no first occurrence of it.
pub proof fn lemma_no_occurrence(text: Seq<u8>, byte: u8)
    requires
        forall|k: int| 0 <= k < text.len() ==> text[k] != byte,
    ensures
        text.index_of_first(byte) == None::<int>,
{
    text.index_of_first_ensures(byte);
}

/// Blanks in front of a text do not change what is left of it when the
/// blanks at its start are cut.
pub proof fn lemma_trimmed_start(text: Seq<u8>, blanks: int)
    requires
        0 <= blanks <= text.len(),
        forall|k: int| 0 <= k < blanks ==> is_blank(text[k]),
    ensures
        trimmed_start(text) == trimmed_start(text.skip(blanks)),
    decreases blanks,
{
    if blanks > 0 {
        let rest = text.skip(1);
        assert forall|k: int| 0 <= k < blanks - 1 implies is_blank(rest[k]) by {
            assert(rest[k] == text[k + 1]);
        }
        lemma_trimmed_start(rest, blanks - 1);
        assert(rest.skip(blanks - 1) =~= text.skip(blanks));
    } else {
        assert(text.skip(0) =~= text);
    }
}

/// Blanks behind a text do not change what is left of it when the blanks
/// at its end are cut.
pub proof fn lemma_trimmed_end(text: Seq<u8>, kept: int)
    requires
        0 <= kept <= text.len(),
        forall|k: int| kept <= k < text.len() ==> is_blank(text[k]),
    ensures
        trimmed_end(text) == trimmed_end(text.take(kept)),
    decreases text.len() - kept,
{
    if kept < text.len() {
        let front = text.drop_last();
        assert forall|k: int| kept <= k < front.len() implies is_blank(front[k]) by {
            assert(front[k] == text[k]);
        }
        lemma_trimmed_end(front, kept);
        assert(front.take(kept) =~= text.take(kept));
    } else {
        assert(text.take(kept) =~= text);
    }
}

/// Whether two texts hold the same bytes.
pub fn same_bytes(a: &[u8], b: &[u8]) -> (same: bool)
    ensures
        same == (a@ == b@),
{
    if a.len() != b.len() {
        return false;
    }
    let mut k: usize = 0;
    while k < a.len()
        invariant
            k <= a@.len(),
            a@.len() == b@.len(),
            forall|h: int| 0 <= h < k ==> a@[h] == b@[h],
        decreases a@.len() - k,
    {
        if a[k] != b[k] {
            return false;
        }
        k += 1;
    }
    assert(a@ =~= b@);
    true
}

/// The bytes of a text from `from` up to `to`, `to` left out.
pub fn copy_range(text: &[u8], from: usize, to: usize) -> (copy: Vec<u8>)
    requires
        from <= to <= text@.len(),
    ensures
        copy@ == text@.subrange(from as int, to as int),
{
    let mut copy: Vec<u8> = Vec::new();
    let mut k: usize = from;
    while k < to
        invariant
            from <= k <= to <= text@.len(),
            copy@ == text@.subrange(from as int, k as int),
        decreases to - k,
    {
        copy.push(text[k]);
        assert(copy@ =~= text@.subrange(from as int, k + 1));
        k += 1;
    }
    assert(copy@ =~= text@.subrange(from as int, to as int));
    copy
}

/// The text without the blanks at both ends.
pub fn trim(text: &[u8]) -> (kept: Vec<u8>)
    ensures
        kept@ == trimmed(text@),
{
    let mut from: usize = 0;
    while from < text.len() && is_blank_byte(text[from])
        invariant
            from <= text@.len(),
            forall|k: int| 0 <= k < from ==> is_blank(text@[k]),
        decreases text@.len() - from,
    {
        from += 1;
    }
    let mut to: usize = text.len();
    while to > from && is_blank_byte(text[to - 1])
        invariant
            from <= to <= text@.len(),
            forall|k: int| to <= k < text@.len() ==> is_blank(text@[k]),
        decreases to,
    {
        to -= 1;
    }
    proof {
        let rest = text@.skip(from as int);
        lemma_trimmed_start(text@, from as int);
        assert(trimmed_start(rest) == rest);
        assert forall|k: int| to - from <= k < rest.len() implies is_blank(rest[k]) by {
            assert(rest[k] == text@[k + from]);
        }
        lemma_trimmed_end(rest, to - from);
        let kept = rest.take(to - from);
        assert(kept =~= text@.subrange(from as int, to as int));
        if kept.len() > 0 {
            assert(kept.last() == text@[to - 1]);
        }
        assert(trimmed_end(kept) == kept);
    }
    copy_range(text, from, to)
}

/// Whether a byte is one of the blanks.
pub fn is_blank_byte(byte: u8) -> (blank: bool)
    ensures
        blank == is_blank(byte),
{
    byte == 32 || (9 <= byte && byte <= 13)
}

/// The first place of a byte in a text, if it holds one.
pub fn find(text: &[u8], byte: u8) -> (at: Option<usize>)
    ensures
        match at {
            Some(k) => text@.index_of_first(byte) == Some(k as int) && k < text@.len()
                && text@[k as int] == byte,
            None => text@.index_of_first(byte) == None::<int>,
        },
{
    let mut k: usize = 0;
    while k < text.len()
        invariant
            k <= text@.len(),
            forall|h: int| 0 <= h < k ==> text@[h] != byte,
        decreases text@.len() - k,
    {
        if text[k] == byte {
            proof {
                lemma_first_occurrence(text@, byte, k as int);
            }
            return Some(k);
        }
        k += 1;
    }
    proof {
        lemma_no_occurrence(text@, byte);
    }
    None
}

/// The pieces of a text between the occurrences of a separator.
pub fn split_bytes(text: &[u8], separator: u8) -> (pieces: Vec<Vec<u8>>)
    ensures
        piece_views(pieces@) == split(text@, separator),
{
    let mut pieces: Vec<Vec<u8>> = Vec::new();
    let mut from: usize = 0;
    let mut k: usize = 0;
    proof {
        assert(text@.skip(0) =~= text@);
        assert(piece_views(pieces@) + split(text@, separator) =~= split(text@, separator));
    }
    while k < text.len()
        invariant
            from <= k <= text@.len(),
            forall|h: int| from <= h < k ==> text@[h] != separator,
            split(text@, separator) == piece_views(pieces@) + split(
                text@.skip(from as int),
                separator,
            ),
        decreases text@.len() - k,
    {
        if text[k] == separator {
            let piece = copy_range(text, from, k);
            let ghost before = pieces@;
            pieces.push(piece);
            proof {
                let rest = text@.skip(from as int);
                assert forall|h: int| 0 <= h < k - from implies rest[h] != separator by {
                    assert(rest[h] == text@[h + from]);
                }
                lemma_first_occurrence(rest, separator, k - from);
                assert(rest.take(k - from) =~= piece@);
                assert(rest.skip(k - from + 1) =~= text@.skip(k + 1));
                assert(piece_views(pieces@) =~= piece_views(before) + seq![piece@]);
                assert(split(rest, separator) == seq![piece@] + split(
                    text@.skip(k + 1),
                    separator,
                ));
            }
            from = k + 1;
        }
        k += 1;
    }
    let piece = copy_range(text, from, text.len());
    let ghost before = pieces@;
    pieces.push(piece);
    proof {
        let rest = text@.skip(from as int);
        assert forall|h: int| 0 <= h < rest.len() implies rest[h] != separator by {
            assert(rest[h] == text@[h + from]);
        }
        lemma_no_occurrence(rest, separator);
        assert(rest =~= piece@);
        assert(piece_views(pieces@) =~= piece_views(before) + seq![piece@]);
    }
    pieces
}

} // verus!
