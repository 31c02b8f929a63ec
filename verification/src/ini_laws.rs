//! What holds of looking things up in a scene file: it answers as a map
//! would that each entry and each section was put into in turn.

use vstd::prelude::*;
use crate::ini_reader::{
    after_line, after_lines, last_section, last_value, EntryModel, IniError, SectionModel,
};
use crate::text::trimmed;

verus! {

/// One more entry gives its key its value and leaves every other key as
/// it was.
pub proof fn lemma_entry_added(entries: Seq<EntryModel>, entry: EntryModel, key: Seq<u8>)
    ensures
        last_value(entries.push(entry), key) == if entry.key == key {
            Some(entry.value)
        } else {
            last_value(entries, key)
        },
{
    assert(entries.push(entry).drop_last() =~= entries);
}

/// A key has a value exactly if some entry has that key.
pub proof fn lemma_value_known(entries: Seq<EntryModel>, key: Seq<u8>)
    ensures
        last_value(entries, key) is Some <==> exists|k: int|
            0 <= k < entries.len() && (#[trigger] entries[k]).key == key,
    decreases entries.len(),
{
    if entries.len() > 0 {
        let front = entries.drop_last();
        lemma_value_known(front, key);
        if entries.last().key == key {
            assert(entries[entries.len() - 1].key == key);
        } else if last_value(front, key) is Some {
            let k = choose|k: int| 0 <= k < front.len() && (#[trigger] front[k]).key == key;
            assert(entries[k] == front[k]);
        } else {
            assert forall|k: int| 0 <= k < entries.len() implies (#[trigger] entries[k]).key
                != key by {
                if k < front.len() {
                    assert(front[k] == entries[k]);
                }
            }
        }
    }
}

/// One more section takes its name and leaves every other name as it was.
pub proof fn lemma_section_added(
    sections: Seq<SectionModel>,
    section: SectionModel,
    name: Seq<u8>,
)
    ensures
        last_section(sections.push(section), name) == if section.name == name {
            Some(section)
        } else {
            last_section(sections, name)
        },
{
    assert(sections.push(section).drop_last() =~= sections);
}

/// A blank line changes nothing.
pub proof fn lemma_blank_line(sections: Seq<SectionModel>, line: Seq<u8>)
    requires
        trimmed(line).len() == 0,
    ensures
        after_line(sections, line) == Ok::<Seq<SectionModel>, IniError>(sections),
{
}

/// Reading lines one after the other is reading the first of them and
/// then the rest: where the first part cannot be read, nothing can.
pub proof fn lemma_lines_in_turn(
    sections: Seq<SectionModel>,
    first: Seq<Seq<u8>>,
    rest: Seq<Seq<u8>>,
)
    ensures
        after_lines(sections, first + rest) == match after_lines(sections, first) {
            Ok(next) => after_lines(next, rest),
            Err(error) => Err(error),
        },
    decreases first.len(),
{
    if first.len() == 0 {
        assert(first + rest =~= rest);
    } else {
        assert((first + rest)[0] == first[0]);
        assert((first + rest).skip(1) =~= first.skip(1) + rest);
        match after_line(sections, first[0]) {
            Ok(next) => {
                lemma_lines_in_turn(next, first.skip(1), rest);
            },
            Err(_) => {},
        }
    }
}

} // verus!
