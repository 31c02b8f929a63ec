//! The scene file: sections of named values, read from text. Numbers are
//! kept as the text that was written; what they are worth is for the
//! caller to say.

use vstd::prelude::*;
use crate::text::{copy_range, piece_views, same_bytes, split, split_bytes, trim, trimmed};

verus! {

pub const LINE_FEED: u8 = 10;

pub const QUOTE: u8 = 34;

pub const OPEN_PAREN: u8 = 40;

pub const CLOSE_PAREN: u8 = 41;

pub const COMMA: u8 = 44;

pub const EQUALS: u8 = 61;

pub const OPEN_BRACKET: u8 = 91;

pub const CLOSE_BRACKET: u8 = 93;

/// Why a text is no scene file.
#[derive(Clone, Copy, Debug, PartialEq, Eq, Structural)]
pub enum IniError {
    /// A line starts a section name with `[` and does not end it with `]`.
    UnterminatedSection,
    /// A value stands before the first section.
    EntryOutsideSection,
    /// A line names a key and has no `=` after it.
    MissingValue,
    /// A string lacks its closing quote, or a tuple its closing brace.
    UnterminatedLiteral,
    /// A tuple has fewer or more than three fields.
    WrongTupleArity,
}

/// A value as it is written.
pub enum IniValue {
    /// What stands between the quotes of a string.
    Text(Vec<u8>),
    /// What is written where a number is due, without the blanks around it.
    Number(Vec<u8>),
    /// The three fields of a tuple, each without the blanks around it.
    Tuple(Vec<u8>, Vec<u8>, Vec<u8>),
}

/// What an `IniValue` holds.
pub enum ValueModel {
    Text(Seq<u8>),
    Number(Seq<u8>),
    Tuple(Seq<u8>, Seq<u8>, Seq<u8>),
}

impl View for IniValue {
    type V = ValueModel;

    open spec fn view(&self) -> ValueModel {
        match self {
            IniValue::Text(text) => ValueModel::Text(text@),
            IniValue::Number(text) => ValueModel::Number(text@),
            IniValue::Tuple(first, second, third) => ValueModel::Tuple(first@, second@, third@),
        }
    }
}

/// The value that a text stands for. A text that starts with a quote is a
/// string and ends with a quote; one that starts with `(` is a tuple, ends
/// with `)` and has three fields between commas; any other is taken for a
/// number.
pub open spec fn value_of(text: Seq<u8>) -> Result<ValueModel, IniError> {
    let t = trimmed(text);
    if t.len() > 0 && t[0] == QUOTE {
        if t.len() >= 2 && t.last() == QUOTE {
            Ok(ValueModel::Text(t.subrange(1, t.len() - 1)))
        } else {
            Err(IniError::UnterminatedLiteral)
        }
    } else if t.len() > 0 && t[0] == OPEN_PAREN {
        if t.len() >= 2 && t.last() == CLOSE_PAREN {
            let fields = split(t.subrange(1, t.len() - 1), COMMA);
            if fields.len() == 3 {
                Ok(ValueModel::Tuple(trimmed(fields[0]), trimmed(fields[1]), trimmed(fields[2])))
            } else {
                Err(IniError::WrongTupleArity)
            }
        } else {
            Err(IniError::UnterminatedLiteral)
        }
    } else {
        Ok(ValueModel::Number(t))
    }
}

impl IniValue {
    /// Reads one value.
    pub fn from(s: &[u8]) -> (value: Result<IniValue, IniError>)
        ensures
            match value_of(s@) {
                Ok(model) => value is Ok && value->Ok_0@ == model,
                Err(error) => value == Err::<IniValue, IniError>(error),
            },
    {
        let t = trim(s);
        let len = t.len();
        if len > 0 && t[0] == QUOTE {
            if len >= 2 && t[len - 1] == QUOTE {
                Ok(IniValue::Text(copy_range(t.as_slice(), 1, len - 1)))
            } else {
                Err(IniError::UnterminatedLiteral)
            }
        } else if len > 0 && t[0] == OPEN_PAREN {
            if len >= 2 && t[len - 1] == CLOSE_PAREN {
                let inner = copy_range(t.as_slice(), 1, len - 1);
                let fields = split_bytes(inner.as_slice(), COMMA);
                if fields.len() == 3 {
                    proof {
                        assert(piece_views(fields@)[0] == fields@[0]@);
                        assert(piece_views(fields@)[1] == fields@[1]@);
                        assert(piece_views(fields@)[2] == fields@[2]@);
                    }
                    Ok(
                        IniValue::Tuple(
                            trim(fields[0].as_slice()),
                            trim(fields[1].as_slice()),
                            trim(fields[2].as_slice()),
                        ),
                    )
                } else {
                    Err(IniError::WrongTupleArity)
                }
            } else {
                Err(IniError::UnterminatedLiteral)
            }
        } else {
            Ok(IniValue::Number(t))
        }
    }
}

/// A key with its value.
pub struct Entry {
    pub key: Vec<u8>,
    pub value: IniValue,
}

/// What an `Entry` holds.
pub struct EntryModel {
    pub key: Seq<u8>,
    pub value: ValueModel,
}

impl View for Entry {
    type V = EntryModel;

    open spec fn view(&self) -> EntryModel {
        EntryModel { key: self.key@, value: self.value@ }
    }
}

/// The entries of a list as models.
pub open spec fn entry_views(entries: Seq<Entry>) -> Seq<EntryModel> {
    Seq::new(entries.len(), |k: int| entries[k]@)
}

/// The value that a key has after the entries were written down one after
/// the other: that of the last entry with that key.
pub open spec fn last_value(entries: Seq<EntryModel>, key: Seq<u8>) -> Option<ValueModel>
    decreases entries.len(),
{
    if entries.len() == 0 {
        None
    } else if entries.last().key == key {
        Some(entries.last().value)
    } else {
        last_value(entries.drop_last(), key)
    }
}

/// A section: its name and its entries in the order of the file.
pub struct Section {
    pub name: Vec<u8>,
    pub entries: Vec<Entry>,
}

/// What a `Section` holds.
pub struct SectionModel {
    pub name: Seq<u8>,
    pub entries: Seq<EntryModel>,
}

impl View for Section {
    type V = SectionModel;

    open spec fn view(&self) -> SectionModel {
        SectionModel { name: self.name@, entries: entry_views(self.entries@) }
    }
}

impl Section {
    /// The value of `key`: that of the last entry with that key, for a
    /// later entry takes the place of an earlier one.
    pub fn get(&self, key: &[u8]) -> (value: Option<&IniValue>)
        ensures
            match last_value(self@.entries, key@) {
                Some(model) => value is Some && value->Some_0@ == model,
                None => value is None,
            },
    {
        let mut k: usize = self.entries.len();
        proof {
            assert(self@.entries.take(k as int) =~= self@.entries);
        }
        while k > 0
            invariant
                k <= self.entries@.len(),
                last_value(self@.entries, key@) == last_value(self@.entries.take(k as int), key@),
            decreases k,
        {
            let entry = &self.entries[k - 1];
            proof {
                let front = self@.entries.take(k as int);
                assert(front.last() == entry@);
                assert(front.drop_last() =~= self@.entries.take(k - 1));
            }
            if same_bytes(entry.key.as_slice(), key) {
                return Some(&entry.value);
            }
            k -= 1;
        }
        None
    }

    /// Whether the section gives `key` a value.
    pub fn key_exists(&self, key: &[u8]) -> (exists: bool)
        ensures
            exists == last_value(self@.entries, key@).is_some(),
    {
        self.get(key).is_some()
    }
}

/// The sections of a list as models.
pub open spec fn section_views(sections: Seq<Section>) -> Seq<SectionModel> {
    Seq::new(sections.len(), |k: int| sections[k]@)
}

/// The section that a name stands for after the sections were opened one
/// after the other: the last one of that name.
pub open spec fn last_section(sections: Seq<SectionModel>, name: Seq<u8>) -> Option<SectionModel>
    decreases sections.len(),
{
    if sections.len() == 0 {
        None
    } else if sections.last().name == name {
        Some(sections.last())
    } else {
        last_section(sections.drop_last(), name)
    }
}

/// The sections after one more line. A blank line changes nothing. A line
/// that starts with `[` opens a section, named by what stands before the
/// closing `]`. Any other line is an entry of the section opened last: the
/// key before the first `=`, the value between the first `=` and the
/// second, if there is one.
pub open spec fn after_line(sections: Seq<SectionModel>, line: Seq<u8>) -> Result<
    Seq<SectionModel>,
    IniError,
> {
    let t = trimmed(line);
    if t.len() == 0 {
        Ok(sections)
    } else if t[0] == OPEN_BRACKET {
        if t.len() >= 2 && t.last() == CLOSE_BRACKET {
            Ok(
                sections.push(
                    SectionModel { name: t.subrange(1, t.len() - 1), entries: Seq::empty() },
                ),
            )
        } else {
            Err(IniError::UnterminatedSection)
        }
    } else if sections.len() == 0 {
        Err(IniError::EntryOutsideSection)
    } else {
        let parts = split(t, EQUALS);
        if parts.len() < 2 {
            Err(IniError::MissingValue)
        } else {
            match value_of(parts[1]) {
                Err(error) => Err(error),
                Ok(value) => {
                    let open = sections.last();
                    let entry = EntryModel { key: trimmed(parts[0]), value };
                    Ok(
                        sections.drop_last().push(
                            SectionModel { name: open.name, entries: open.entries.push(entry) },
                        ),
                    )
                },
            }
        }
    }
}

/// The sections after all the lines, or what is wrong with the first line
/// that cannot be read.
pub open spec fn after_lines(sections: Seq<SectionModel>, lines: Seq<Seq<u8>>) -> Result<
    Seq<SectionModel>,
    IniError,
>
    decreases lines.len(),
{
    if lines.len() == 0 {
        Ok(sections)
    } else {
        match after_line(sections, lines[0]) {
            Err(error) => Err(error),
            Ok(next) => after_lines(next, lines.skip(1)),
        }
    }
}

/// The sections that a text declares, line by line.
pub open spec fn sections_of(text: Seq<u8>) -> Result<Seq<SectionModel>, IniError> {
    after_lines(Seq::empty(), split(text, LINE_FEED))
}

/// A scene file that has been read: its sections in the order of the file.
pub struct IniConfiguration {
    pub sections: Vec<Section>,
}

impl View for IniConfiguration {
    type V = Seq<SectionModel>;

    open spec fn view(&self) -> Seq<SectionModel> {
        section_views(self.sections@)
    }
}

impl IniConfiguration {
    /// Reads a scene file from its text.
    pub fn new(text: &[u8]) -> (read: Result<IniConfiguration, IniError>)
        ensures
            match sections_of(text@) {
                Ok(model) => read is Ok && read->Ok_0@ == model,
                Err(error) => read == Err::<IniConfiguration, IniError>(error),
            },
    {
        let lines = split_bytes(text, LINE_FEED);
        let mut sections: Vec<Section> = Vec::new();
        let mut k: usize = 0;
        proof {
            assert(piece_views(lines@).skip(0) =~= piece_views(lines@));
            assert(section_views(sections@) =~= Seq::empty());
        }
        while k < lines.len()
            invariant
                k <= lines@.len(),
                piece_views(lines@) == split(text@, LINE_FEED),
                sections_of(text@) == after_lines(
                    section_views(sections@),
                    piece_views(lines@).skip(k as int),
                ),
            decreases lines@.len() - k,
        {
            let ghost before = section_views(sections@);
            let ghost rest = piece_views(lines@).skip(k as int);
            proof {
                assert(rest[0] == lines@[k as int]@);
                assert(rest.skip(1) =~= piece_views(lines@).skip(k + 1));
            }
            let t = trim(lines[k].as_slice());
            let len = t.len();
            if len == 0 {
            } else if t[0] == OPEN_BRACKET {
                if len >= 2 && t[len - 1] == CLOSE_BRACKET {
                    let name = copy_range(t.as_slice(), 1, len - 1);
                    let section = Section { name, entries: Vec::new() };
                    proof {
                        assert(section@.entries =~= Seq::empty());
                    }
                    sections.push(section);
                    proof {
                        assert(section_views(sections@) =~= before.push(
                            SectionModel { name: name@, entries: Seq::empty() },
                        ));
                    }
                } else {
                    return Err(IniError::UnterminatedSection);
                }
            } else if sections.len() == 0 {
                return Err(IniError::EntryOutsideSection);
            } else {
                let parts = split_bytes(t.as_slice(), EQUALS);
                if parts.len() < 2 {
                    return Err(IniError::MissingValue);
                }
                proof {
                    assert(piece_views(parts@)[0] == parts@[0]@);
                    assert(piece_views(parts@)[1] == parts@[1]@);
                }
                let value = match IniValue::from(parts[1].as_slice()) {
                    Ok(value) => value,
                    Err(error) => {
                        return Err(error);
                    },
                };
                let key = trim(parts[0].as_slice());
                let entry = Entry { key, value };
                let mut open = match sections.pop() {
                    Some(open) => open,
                    None => {
                        return Err(IniError::EntryOutsideSection);
                    },
                };
                let ghost opened = open@;
                let ghost others = section_views(sections@);
                proof {
                    assert(opened == before.last());
                    assert(others =~= before.drop_last());
                }
                open.entries.push(entry);
                proof {
                    assert(open@.entries =~= opened.entries.push(entry@));
                }
                sections.push(open);
                proof {
                    assert(section_views(sections@) =~= others.push(
                        SectionModel { name: opened.name, entries: opened.entries.push(entry@) },
                    ));
                }
            }
            k += 1;
        }
        Ok(IniConfiguration { sections })
    }

    /// The section of the given name: the last one that the file opens
    /// under that name, for a later section takes the place of an earlier
    /// one.
    pub fn get_section(&self, section_name: &[u8]) -> (section: Result<&Section, ()>)
        ensures
            match last_section(self@, section_name@) {
                Some(model) => section is Ok && section->Ok_0@ == model,
                None => section is Err,
            },
    {
        let mut k: usize = self.sections.len();
        proof {
            assert(self@.take(k as int) =~= self@);
        }
        while k > 0
            invariant
                k <= self.sections@.len(),
                last_section(self@, section_name@) == last_section(
                    self@.take(k as int),
                    section_name@,
                ),
            decreases k,
        {
            let section = &self.sections[k - 1];
            proof {
                let front = self@.take(k as int);
                assert(front.last() == section@);
                assert(front.drop_last() =~= self@.take(k - 1));
            }
            if same_bytes(section.name.as_slice(), section_name) {
                return Ok(section);
            }
            k -= 1;
        }
        Err(())
    }
}

} // verus!
