//! Directory entries: what a listing is rendered as.

use vstd::prelude::*;
use vstd::string::StringExecFns;
use std::time::SystemTime;
use crate::kvfile::KVFile;
use crate::labels::KV;
use crate::labels::Labels;
use crate::labels::lookup;
use crate::selector_set::SelectorSet;
use crate::selector_set::SelectorSetView;
use crate::store::FileView;

verus! {

/// A directory entry as mathematics.
pub struct EntryView {
    pub name: Seq<char>,
    pub is_dir: bool,
    pub len: u64,
    pub modified: SystemTime,
}

/// The label key under which an object's title stands.
pub open spec fn title_text() -> Seq<char> {
    "title"@
}

/// The name of an object that has no title.
pub open spec fn untitled_text() -> Seq<char> {
    "untitiled"@
}

/// Whether a label key is base metadata, which is not shown as an entry of
/// its own.
pub open spec fn is_basic_key(key: Seq<char>) -> bool {
    key == title_text()
}

/// The length that every directory reports.
pub const DIR_LEN: u64 = 12;

/// A directory of the given name.
pub open spec fn dir_entry(name: Seq<char>, modified: SystemTime) -> EntryView {
    EntryView { name, is_dir: true, len: DIR_LEN, modified }
}

/// The directory for a selector set: under the set's name, with the set's
/// own time, or `now` when the set has none.
pub open spec fn set_entry(set: SelectorSetView, now: SystemTime) -> EntryView {
    dir_entry(
        set.name,
        match set.modified_time {
            Some(time) => time,
            None => now,
        },
    )
}

/// The directory for an object: under its title, or under the placeholder
/// when it has none.
pub open spec fn object_entry(file: FileView, now: SystemTime) -> EntryView {
    dir_entry(
        match lookup(file.labels, title_text()) {
            Some(title) => title,
            None => untitled_text(),
        },
        now,
    )
}

/// The name of the file that shows a label: key, `=`, value.
pub open spec fn label_name(label: (Seq<char>, Seq<char>)) -> Seq<char> {
    label.0 + "="@ + label.1
}

/// The empty file that shows a label.
pub open spec fn label_entry(label: (Seq<char>, Seq<char>), now: SystemTime) -> EntryView {
    EntryView { name: label_name(label), is_dir: false, len: 0, modified: now }
}

/// The directories for a list of selector sets.
pub open spec fn set_entries(sets: Seq<SelectorSetView>, now: SystemTime) -> Seq<EntryView> {
    sets.map_values(|set: SelectorSetView| set_entry(set, now))
}

/// The directories for the values that a selector may take.
pub open spec fn value_entries(values: Seq<Seq<char>>, now: SystemTime) -> Seq<EntryView> {
    values.map_values(|value: Seq<char>| dir_entry(value, now))
}

/// The directories for a list of objects.
pub open spec fn object_entries(files: Seq<FileView>, now: SystemTime) -> Seq<EntryView> {
    files.map_values(|file: FileView| object_entry(file, now))
}

/// The test for the labels that are shown: those that are not base metadata.
pub open spec fn shown_test() -> spec_fn((Seq<char>, Seq<char>)) -> bool {
    |label: (Seq<char>, Seq<char>)| !is_basic_key(label.0)
}

/// The files for the labels of an object, without its base metadata.
pub open spec fn label_entries(labels: Labels, now: SystemTime) -> Seq<EntryView> {
    labels.filter(shown_test()).map_values(|label: (Seq<char>, Seq<char>)| label_entry(label, now))
}

/// The key under which an object's title stands.
pub fn title_key() -> (r: String)
    ensures
        r@ == title_text(),
{
    "title".to_owned()
}

/// A directory with a name and a time of modification.
#[derive(Debug)]
pub struct StaticDir {
    name: String,
    modified_time: SystemTime,
}

impl View for StaticDir {
    type V = EntryView;

    closed spec fn view(&self) -> EntryView {
        dir_entry(self.name@, self.modified_time)
    }
}

impl Clone for StaticDir {
    fn clone(&self) -> (r: Self)
        ensures
            r@ == self@,
    {
        StaticDir { name: self.name.clone(), modified_time: self.modified_time }
    }
}

impl StaticDir {
    /// A directory of the given name and time.
    pub fn new(name: &String, modified_time: SystemTime) -> (r: Self)
        ensures
            r@ == dir_entry(name@, modified_time),
    {
        StaticDir { name: name.clone(), modified_time }
    }

    /// The directory that stands for a selector set.
    pub fn from_selector_set(value: &SelectorSet, now: SystemTime) -> (r: Self)
        ensures
            r@ == set_entry(value@, now),
    {
        let modified_time = match value.modified_time {
            Some(time) => time,
            None => now,
        };
        StaticDir { name: value.name.clone(), modified_time }
    }

    /// The directory that stands for an object.
    pub fn from_file(value: &KVFile, now: SystemTime) -> (r: Self)
        ensures
            r@ == object_entry(value@, now),
    {
        let name = KV::find_value_default(&value.label, &title_key(), "untitiled".to_owned());
        StaticDir { name, modified_time: now }
    }

    /// The directory's name.
    pub fn name(&self) -> (r: String)
        ensures
            r@ == self@.name,
    {
        self.name.clone()
    }

    /// The length that the directory reports.
    pub fn len(&self) -> (r: u64)
        ensures
            r == self@.len,
            r == DIR_LEN,
    {
        DIR_LEN
    }

    /// The time of the last modification.
    pub fn modified(&self) -> (r: SystemTime)
        ensures
            r == self@.modified,
    {
        self.modified_time
    }

    /// Whether this is a directory: it is.
    pub fn is_dir(&self) -> (r: bool)
        ensures
            r == self@.is_dir,
            r,
    {
        true
    }
}

/// Where a seek counts from.
#[derive(Debug, Clone, Copy)]
pub enum SeekPosition {
    /// So many bytes after the start.
    Start(u64),
    /// So many bytes before the end.
    End(i64),
    /// So many bytes after the present offset.
    Current(i64),
}

/// The number `value` brought into the range from `low` to `high`.
pub open spec fn clamped(value: int, low: int, high: int) -> int {
    if value < low {
        low
    } else if value > high {
        high
    } else {
        value
    }
}

/// The offset after a seek in a body of `len` bytes: it never leaves the
/// body.
pub open spec fn sought(len: int, offset: int, pos: SeekPosition) -> int {
    match pos {
        SeekPosition::Start(v) => clamped(v as int, 0, len),
        SeekPosition::End(v) => clamped(len - v, 0, len),
        SeekPosition::Current(v) => clamped(offset + v, 0, len),
    }
}

/// A file with a name, a body and a read offset.
#[derive(Debug)]
pub struct StaticFile {
    name: String,
    modified_time: SystemTime,
    body: Vec<u8>,
    offset: usize,
}

impl View for StaticFile {
    type V = EntryView;

    closed spec fn view(&self) -> EntryView {
        EntryView {
            name: self.name@,
            is_dir: false,
            len: self.body@.len() as u64,
            modified: self.modified_time,
        }
    }
}

impl Clone for StaticFile {
    fn clone(&self) -> (r: Self)
        ensures
            r@ == self@,
            r.body() == self.body(),
            r.offset() == self.offset(),
    {
        proof {
            use_type_invariant(self);
        }
        let body = self.body.clone();
        StaticFile {
            name: self.name.clone(),
            modified_time: self.modified_time,
            body,
            offset: self.offset,
        }
    }
}

impl StaticFile {
    #[verifier::type_invariant]
    spec fn offset_in_body(&self) -> bool {
        self.offset <= self.body@.len()
    }

    /// The bytes of the file.
    pub closed spec fn body(&self) -> Seq<u8> {
        self.body@
    }

    /// The place from which the next read takes its bytes.
    pub closed spec fn offset(&self) -> int {
        self.offset as int
    }

    /// A file of the given name, time and body, to be read from its start.
    pub fn new(name: String, modified_time: SystemTime, body: Vec<u8>) -> (r: Self)
        ensures
            r@.name == name@,
            r@.modified == modified_time,
            !r@.is_dir,
            r@.len == body@.len() as u64,
            r.body() == body@,
            r.offset() == 0,
    {
        StaticFile { name, modified_time, body, offset: 0 }
    }

    /// The empty file that shows a label as `key=value`.
    pub fn from_label(kv: &KV, now: SystemTime) -> (r: Self)
        ensures
            r@ == label_entry(kv@, now),
            r.body() == Seq::<u8>::empty(),
            r.offset() == 0,
    {
        let name = kv.key.clone().concat("=").concat(kv.value.as_str());
        StaticFile { name, modified_time: now, body: Vec::new(), offset: 0 }
    }

    /// The file's name.
    pub fn name(&self) -> (r: String)
        ensures
            r@ == self@.name,
    {
        self.name.clone()
    }

    /// The length of the body.
    pub fn len(&self) -> (r: u64)
        ensures
            r == self@.len,
            r == self.body().len(),
    {
        self.body.len() as u64
    }

    /// The time of the last modification.
    pub fn modified(&self) -> (r: SystemTime)
        ensures
            r == self@.modified,
    {
        self.modified_time
    }

    /// Whether this is a directory: it is not.
    pub fn is_dir(&self) -> (r: bool)
        ensures
            r == self@.is_dir,
            !r,
    {
        false
    }

    /// Reads up to `count` bytes at the offset and moves the offset past
    /// them.
    pub fn read_bytes(&mut self, count: usize) -> (r: Vec<u8>)
        ensures
            final(self)@ == old(self)@,
            final(self).body() == old(self).body(),
            final(self).offset() == clamped(
                old(self).offset() + count,
                0,
                old(self).body().len() as int,
            ),
            r@ == old(self).body().subrange(old(self).offset(), final(self).offset()),
    {
        proof {
            use_type_invariant(&*self);
        }
        let len = self.body.len();
        let end = if count > len - self.offset {
            len
        } else {
            self.offset + count
        };
        let mut taken: Vec<u8> = Vec::new();
        let mut i: usize = self.offset;
        while i < end
            invariant
                self.offset <= i <= end <= self.body@.len(),
                taken@ == self.body@.subrange(self.offset as int, i as int),
            decreases end - i,
        {
            taken.push(self.body[i]);
            i += 1;
        }
        self.offset = end;
        taken
    }

    /// Moves the offset and returns it. An offset that would leave the body
    /// stops at the body's start or end.
    pub fn seek(&mut self, pos: SeekPosition) -> (r: u64)
        ensures
            final(self)@ == old(self)@,
            final(self).body() == old(self).body(),
            final(self).offset() == sought(
                old(self).body().len() as int,
                old(self).offset(),
                pos,
            ),
            r == final(self).offset(),
    {
        proof {
            use_type_invariant(&*self);
        }
        let len = self.body.len();
        let offset = self.offset;
        let target: usize = match pos {
            SeekPosition::Start(v) => {
                if v > len as u64 {
                    len
                } else {
                    v as usize
                }
            },
            SeekPosition::End(v) => {
                if v <= 0 {
                    len
                } else if v as u64 > len as u64 {
                    0
                } else {
                    len - (v as usize)
                }
            },
            SeekPosition::Current(v) => {
                if v >= 0 {
                    if v as u64 > (len - offset) as u64 {
                        len
                    } else {
                        offset + (v as usize)
                    }
                } else {
                    let back: u64 = if v == i64::MIN {
                        0x8000_0000_0000_0000u64
                    } else {
                        (-v) as u64
                    };
                    if back > offset as u64 {
                        0
                    } else {
                        offset - (back as usize)
                    }
                }
            },
        };
        self.offset = target;
        target as u64
    }
}

/// An entry of a listing: a directory or a file.
#[derive(Debug)]
pub enum DirEntry {
    Dir(StaticDir),
    File(StaticFile),
}

impl View for DirEntry {
    type V = EntryView;

    open spec fn view(&self) -> EntryView {
        match self {
            DirEntry::Dir(dir) => dir@,
            DirEntry::File(file) => file@,
        }
    }
}

impl Clone for DirEntry {
    fn clone(&self) -> (r: Self)
        ensures
            r@ == self@,
    {
        match self {
            DirEntry::Dir(dir) => DirEntry::Dir(dir.clone()),
            DirEntry::File(file) => DirEntry::File(file.clone()),
        }
    }
}

/// The entries that a list holds.
pub open spec fn entries_view(entries: Seq<DirEntry>) -> Seq<EntryView> {
    entries.map_values(|entry: DirEntry| entry@)
}

impl DirEntry {
    /// The entry's name.
    pub fn name(&self) -> (r: String)
        ensures
            r@ == self@.name,
    {
        match self {
            DirEntry::Dir(dir) => dir.name(),
            DirEntry::File(file) => file.name(),
        }
    }

    /// The length that the entry reports.
    pub fn len(&self) -> (r: u64)
        ensures
            r == self@.len,
    {
        match self {
            DirEntry::Dir(dir) => dir.len(),
            DirEntry::File(file) => file.len(),
        }
    }

    /// The time of the last modification.
    pub fn modified(&self) -> (r: SystemTime)
        ensures
            r == self@.modified,
    {
        match self {
            DirEntry::Dir(dir) => dir.modified(),
            DirEntry::File(file) => file.modified(),
        }
    }

    /// Whether the entry is a directory.
    pub fn is_dir(&self) -> (r: bool)
        ensures
            r == self@.is_dir,
    {
        match self {
            DirEntry::Dir(dir) => dir.is_dir(),
            DirEntry::File(file) => file.is_dir(),
        }
    }
}

} // verus!
