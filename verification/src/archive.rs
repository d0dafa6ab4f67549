//! What goes into an archive of a folder, and under which names.
//!
//! The walk, the file system and the archive itself are the caller's. It tells a
//! `ZipRun` what it met, one event at a time, and is told what to add.
use crate::paths::{
    byte_views, component_names, folder_name, is_named, nfc_folder_name, path_components,
    reads_folder_name, strip_prefix, FolderError,
};
use crate::text::{
    decode_lossy, is_nfc, is_plain_bytes, is_plain_name, lossy_text, nfc_form, to_nfc,
};
use std::path::Path;
use vstd::prelude::*;
use vstd::utf8::{decode_utf8, valid_utf8};

verus! {

/// How an archive is made.
#[derive(Debug, Clone, Copy, PartialEq, Eq, Structural)]
pub struct ZipOptions {
    /// Compression level, from 0 (store only) to 9 (smallest).
    pub level: u8,
    /// Whether what macOS and Windows leave in folders is kept.
    pub include_mac_cruft: bool,
    /// Whether everything goes into one folder, named after the source.
    pub wrap: bool,
}

impl Default for ZipOptions {
    fn default() -> (options: Self)
        ensures
            options == (ZipOptions { level: 6, include_mac_cruft: false, wrap: true }),
    {
        ZipOptions { level: 6, include_mac_cruft: false, wrap: true }
    }
}

impl ZipOptions {
    /// The options that the flags of the `zip` command stand for.
    pub fn from_flags(level: u8, include_mac_cruft: bool, no_wrap: bool) -> (options: ZipOptions)
        ensures
            options == (ZipOptions { level, include_mac_cruft, wrap: !no_wrap }),
    {
        ZipOptions { level, include_mac_cruft, wrap: !no_wrap }
    }
}

/// How the bytes of an entry are kept.
#[derive(Debug, Clone, Copy, PartialEq, Eq, Structural)]
pub enum Compression {
    Stored,
    Deflated,
}

/// How one entry of an archive is written.
#[derive(Debug, Clone, Copy, PartialEq, Eq, Structural)]
pub struct EntryOptions {
    pub compression: Compression,
    /// The level of the compression, if there is any.
    pub level: Option<i64>,
    pub unix_permissions: u32,
}

/// How the entries of an archive are written. At level 0 they are stored, which
/// knows no level; at any other they are deflated at that level.
pub fn entry_options(options: &ZipOptions) -> (entry: EntryOptions)
    ensures
        entry.compression is Stored <==> options.level == 0,
        entry.level == (if options.level == 0 {
            None
        } else {
            Some(options.level as i64)
        }),
        entry.unix_permissions == 0o644,
{
    if options.level == 0 {
        EntryOptions { compression: Compression::Stored, level: None, unix_permissions: 0o644 }
    } else {
        EntryOptions {
            compression: Compression::Deflated,
            level: Some(options.level as i64),
            unix_permissions: 0o644,
        }
    }
}

/// A name that macOS or Windows leaves in a folder of its own accord.
pub open spec fn is_cruft_text(name: Seq<char>) -> bool {
    ||| name == ".DS_Store"@
    ||| name == "__MACOSX"@
    ||| name == "Thumbs.db"@
    ||| "._"@.is_prefix_of(name)
}

/// A path that is such a leftover, or lies in one.
pub open spec fn is_cruft(rel: Seq<Seq<u8>>) -> bool {
    exists|i: int| 0 <= i < rel.len() && is_cruft_text(lossy_text(#[trigger] rel[i]))
}

/// Whether a name is one that macOS or Windows leaves in a folder.
pub fn is_cruft_name(name: &String) -> (yes: bool)
    ensures
        yes == is_cruft_text(name@),
        yes <==> {
            ||| name@ == ".DS_Store"@
            ||| name@ == "__MACOSX"@
            ||| name@ == "Thumbs.db"@
            ||| name@.len() >= 2 && name@[0] == '.' && name@[1] == '_'
        },
{
    proof {
        reveal_strlit("._");
    }
    if *name == ".DS_Store".to_owned() || *name == "__MACOSX".to_owned() || *name
        == "Thumbs.db".to_owned() {
        return true;
    }
    let text = name.as_str();
    let yes = text.unicode_len() >= 2 && text.get_char(0) == '.' && text.get_char(1) == '_';
    proof {
        if yes {
            assert("._"@ =~= name@.subrange(0, 2));
        } else if "._"@.is_prefix_of(name@) {
            assert(name@.subrange(0, 2)[0] == name@[0]);
            assert(name@.subrange(0, 2)[1] == name@[1]);
        }
    }
    yes
}

/// Whether a path below the folder is what macOS or Windows leaves there, or lies in
/// it.
pub fn is_mac_cruft(rel: &Path) -> (yes: bool)
    ensures
        yes == is_cruft(path_components(rel)),
        reads_unicode(path_components(rel)),
        yes <==> exists|i: int|
            0 <= i < path_components(rel).len() && {
                let name = lossy_text(#[trigger] path_components(rel)[i]);
                ||| name == ".DS_Store"@
                ||| name == "__MACOSX"@
                ||| name == "Thumbs.db"@
                ||| name.len() >= 2 && name[0] == '.' && name[1] == '_'
            },
{
    let names = component_names(rel);
    any_cruft(&names)
}

/// Whether any of these components of a path is a leftover.
pub fn any_cruft(names: &Vec<Vec<u8>>) -> (yes: bool)
    ensures
        yes == is_cruft(byte_views(names@)),
        reads_unicode(byte_views(names@)),
        yes <==> exists|i: int|
            0 <= i < names.len() && {
                let name = lossy_text(#[trigger] byte_views(names@)[i]);
                ||| name == ".DS_Store"@
                ||| name == "__MACOSX"@
                ||| name == "Thumbs.db"@
                ||| name.len() >= 2 && name[0] == '.' && name[1] == '_'
            },
{
    let ghost rel = byte_views(names@);
    let mut yes = false;
    let mut i: usize = 0;
    while i < names.len()
        invariant
            i <= names.len(),
            rel == byte_views(names@),
            yes == exists|j: int| 0 <= j < i && is_cruft_text(lossy_text(#[trigger] rel[j])),
            yes <==> exists|j: int|
                0 <= j < i && {
                    let name = lossy_text(#[trigger] rel[j]);
                    ||| name == ".DS_Store"@
                    ||| name == "__MACOSX"@
                    ||| name == "Thumbs.db"@
                    ||| name.len() >= 2 && name[0] == '.' && name[1] == '_'
                },
            forall|j: int|
                0 <= j < i && valid_utf8(#[trigger] rel[j]) ==> lossy_text(rel[j]) == decode_utf8(
                    rel[j],
                ),
        decreases names.len() - i,
    {
        let name = decode_lossy(&names[i]);
        assert(rel[i as int] == names[i as int]@);
        if is_cruft_name(&name) {
            yes = true;
        }
        i = i + 1;
    }
    yes
}

/// The name of a component in an archive.
pub open spec fn part_text(component: Seq<u8>) -> Seq<char> {
    nfc_form(lossy_text(component))
}

/// The parts of an entry's name: the folder that everything is wrapped in, if any,
/// and the components of the path below the source.
pub open spec fn archive_parts(prefix: Option<Seq<char>>, rel: Seq<Seq<u8>>) -> Seq<Seq<char>> {
    let below = rel.map_values(|component: Seq<u8>| part_text(component));
    match prefix {
        Some(folder) => seq![folder] + below,
        None => below,
    }
}

/// The first `n` parts with a slash between each two.
pub open spec fn joined(parts: Seq<Seq<char>>, n: nat) -> Seq<char>
    decreases n,
{
    if n == 0 {
        seq![]
    } else if n == 1 {
        parts[0]
    } else {
        joined(parts, (n - 1) as nat).push('/') + parts[n - 1]
    }
}

/// All the parts with a slash between each two.
pub open spec fn slash_joined(parts: Seq<Seq<char>>) -> Seq<char> {
    joined(parts, parts.len())
}

/// To put a slash between each two parts is to end each with a slash, and to leave the
/// last one out. Nothing is left of no parts.
pub proof fn law_slash_follows_each_part_but_the_last(parts: Seq<Seq<char>>)
    ensures
        parts.len() == 0 ==> slash_joined(parts).len() == 0,
        parts.len() > 0 ==> slash_joined(parts).push('/') == parts.map_values(
            |part: Seq<char>| part.push('/'),
        ).flatten(),
{
    let ended = parts.map_values(|part: Seq<char>| part.push('/'));
    if parts.len() > 0 {
        lemma_joined_flat(parts, parts.len());
        assert(ended.take(parts.len() as int) =~= ended);
        ended.lemma_flatten_and_flatten_alt_are_equivalent();
    }
}

proof fn lemma_joined_flat(parts: Seq<Seq<char>>, n: nat)
    requires
        0 < n <= parts.len(),
    ensures
        joined(parts, n).push('/') == parts.map_values(
            |part: Seq<char>| part.push('/'),
        ).take(n as int).flatten_alt(),
    decreases n,
{
    let ended = parts.map_values(|part: Seq<char>| part.push('/'));
    let some = ended.take(n as int);
    assert(some.drop_last() =~= ended.take(n - 1));
    assert(some.last() == parts[n - 1].push('/'));
    if n == 1 {
        assert(some.drop_last().flatten_alt() =~= Seq::<char>::empty());
        assert(some.flatten_alt() =~= parts[0].push('/'));
    } else {
        lemma_joined_flat(parts, (n - 1) as nat);
        assert(some.flatten_alt() =~= joined(parts, n).push('/'));
    }
}

/// The path goes down through directory entries alone.
pub open spec fn all_plain(rel: Seq<Seq<u8>>) -> bool {
    forall|i: int| 0 <= i < rel.len() ==> is_plain_bytes(#[trigger] rel[i])
}

/// Each part names a directory entry.
pub open spec fn all_plain_names(parts: Seq<Seq<char>>) -> bool {
    forall|i: int| 0 <= i < parts.len() ==> is_plain_name(#[trigger] parts[i])
}

/// Components that are Unicode are read as what they encode.
pub open spec fn reads_unicode(rel: Seq<Seq<u8>>) -> bool {
    forall|i: int|
        0 <= i < rel.len() && valid_utf8(#[trigger] rel[i]) ==> lossy_text(rel[i]) == decode_utf8(
            rel[i],
        )
}

/// Whether the last component of the path is not in form C, so that its name in the
/// archive differs.
pub open spec fn is_converted(rel: Seq<Seq<u8>>) -> bool {
    rel.len() > 0 && !is_nfc(lossy_text(rel.last()))
}

/// The contents of the strings.
pub open spec fn text_views(texts: Seq<String>) -> Seq<Seq<char>> {
    texts.map_values(|text: String| text@)
}

/// The content of the string, if there is one.
pub open spec fn text_view(text: Option<String>) -> Option<Seq<char>> {
    match text {
        Some(text) => Some(text@),
        None => None,
    }
}

/// The parts of the name of the entry with these components below the source, and
/// whether the last component was converted.
pub fn name_parts(prefix: &Option<String>, rel: &Vec<Vec<u8>>) -> (named: (Vec<String>, bool))
    ensures
        text_views(named.0@) == archive_parts(text_view(*prefix), byte_views(rel@)),
        named.1 == is_converted(byte_views(rel@)),
        forall|i: int| 0 <= i < rel.len() ==> is_nfc(part_text(#[trigger] byte_views(rel@)[i])),
        forall|i: int|
            0 <= i < rel.len() && is_plain_bytes(#[trigger] byte_views(rel@)[i]) ==> is_plain_name(
                part_text(byte_views(rel@)[i]),
            ),
        reads_unicode(byte_views(rel@)),
        named.0.len() == rel.len() + (if prefix is Some {
            1int
        } else {
            0int
        }),
        prefix matches Some(folder) ==> named.0[0]@ == folder@,
        forall|i: int|
            0 <= i < rel.len() ==> named.0[named.0.len() - rel.len() + i]@ == nfc_form(
                lossy_text(#[trigger] rel[i]@),
            ),
        forall|i: int|
            0 <= i < rel.len() && valid_utf8(#[trigger] rel[i]@) ==> named.0[named.0.len()
                - rel.len() + i]@ == nfc_form(decode_utf8(rel[i]@)),
        named.1 <==> rel.len() > 0 && named.0[named.0.len() - 1]@ != lossy_text(
            rel[rel.len() - 1]@,
        ),
{
    let ghost below = byte_views(rel@);
    let ghost texts = below.map_values(|component: Seq<u8>| part_text(component));
    let ghost start: Seq<Seq<char>> = match text_view(*prefix) {
        Some(folder) => seq![folder],
        None => seq![],
    };
    let mut parts: Vec<String> = Vec::new();
    if let Some(folder) = prefix {
        parts.push(folder.clone());
    }
    let mut converted = false;
    let mut i: usize = 0;
    assert(text_views(parts@) =~= start + texts.take(0));
    while i < rel.len()
        invariant
            i <= rel.len(),
            below == byte_views(rel@),
            texts == below.map_values(|component: Seq<u8>| part_text(component)),
            text_views(parts@) == start + texts.take(i as int),
            converted == is_converted(below.take(i as int)),
            forall|j: int| 0 <= j < i ==> is_nfc(part_text(#[trigger] below[j])),
            forall|j: int|
                0 <= j < i && is_plain_bytes(#[trigger] below[j]) ==> is_plain_name(
                    part_text(below[j]),
                ),
            reads_unicode(below.take(i as int)),
        decreases rel.len() - i,
    {
        let original = decode_lossy(&rel[i]);
        let nfc = to_nfc(original.as_str());
        converted = nfc != original;
        let ghost before = text_views(parts@);
        parts.push(nfc);
        proof {
            assert(below[i as int] == rel[i as int]@);
            assert(below.take(i + 1).last() == below[i as int]);
            assert(reads_unicode(below.take(i + 1))) by {
                assert(forall|j: int|
                    0 <= j < i ==> below.take(i + 1)[j] == below.take(i as int)[j]);
            }
            assert(text_views(parts@) =~= before.push(part_text(below[i as int])));
            assert(texts.take(i + 1) =~= texts.take(i as int).push(texts[i as int]));
            assert(text_views(parts@) =~= start + texts.take(i + 1));
        }
        i = i + 1;
    }
    proof {
        assert(texts.take(rel.len() as int) =~= texts);
        assert(below.take(rel.len() as int) =~= below);
        assert(text_views(parts@) =~= archive_parts(text_view(*prefix), below));
        let first = parts.len() - rel.len();
        assert(text_views(parts@).len() == start.len() + texts.len());
        assert forall|i: int| 0 <= i < rel.len() implies parts[first + i]@ == nfc_form(
            lossy_text(#[trigger] rel[i]@),
        ) by {
            assert(text_views(parts@)[first + i] == texts[i]);
            assert(below[i] == rel[i]@);
        }
        if prefix is Some {
            assert(text_views(parts@)[0] == start[0]);
        }
        assert forall|i: int|
            0 <= i < rel.len() && valid_utf8(#[trigger] rel[i]@) implies lossy_text(rel[i]@)
            == decode_utf8(rel[i]@) by {
            assert(below[i] == rel[i]@);
        }
        if rel.len() > 0 {
            assert(below.last() == rel[rel.len() - 1]@);
            assert(parts[first + (rel.len() - 1)]@ == nfc_form(lossy_text(rel[rel.len() - 1]@)));
        }
    }
    (parts, converted)
}

/// The parts with a slash between each two.
pub fn join_parts(parts: &Vec<String>) -> (name: String)
    ensures
        name@ == slash_joined(text_views(parts@)),
        parts.len() == 0 ==> name@.len() == 0,
        parts.len() > 0 ==> name@.push('/') == parts@.map_values(
            |part: String| part@.push('/'),
        ).flatten(),
{
    let ghost texts = text_views(parts@);
    let mut name = String::new();
    let mut i: usize = 0;
    proof {
        reveal_strlit("/");
    }
    while i < parts.len()
        invariant
            i <= parts.len(),
            texts == text_views(parts@),
            "/"@ == seq!['/'],
            name@ == joined(texts, i as nat),
        decreases parts.len() - i,
    {
        if i > 0 {
            name.append("/");
        }
        name.append(parts[i].as_str());
        assert(texts[i as int] == parts[i as int]@);
        assert(name@ =~= joined(texts, (i + 1) as nat));
        i = i + 1;
    }
    proof {
        law_slash_follows_each_part_but_the_last(texts);
        assert(parts@.map_values(|part: String| part@.push('/')) =~= texts.map_values(
            |part: Seq<char>| part.push('/'),
        ));
    }
    name
}

/// What a run over a folder has added so far.
#[derive(Debug, Clone, Copy, PartialEq, Eq, Structural)]
pub struct ZipStats {
    /// Files that were added.
    pub files: usize,
    /// Directories that were added.
    pub dirs: usize,
    /// Entries that were left out.
    pub skipped: usize,
    /// Entries that were added under another name than theirs.
    pub converted: usize,
    /// Bytes of the files, before compression.
    pub bytes: u64,
}

/// The counters as numbers without a limit.
pub struct ZipTally {
    pub files: nat,
    pub dirs: nat,
    pub skipped: nat,
    pub converted: nat,
    pub bytes: nat,
}

impl View for ZipStats {
    type V = ZipTally;

    open spec fn view(&self) -> ZipTally {
        ZipTally {
            files: self.files as nat,
            dirs: self.dirs as nat,
            skipped: self.skipped as nat,
            converted: self.converted as nat,
            bytes: self.bytes as nat,
        }
    }
}

/// Every counter at zero.
pub open spec fn empty_zip_tally() -> ZipTally {
    ZipTally { files: 0, dirs: 0, skipped: 0, converted: 0, bytes: 0 }
}

impl Default for ZipStats {
    fn default() -> (stats: Self)
        ensures
            stats@ == empty_zip_tally(),
            stats.files == 0,
            stats.dirs == 0,
            stats.skipped == 0,
            stats.converted == 0,
            stats.bytes == 0,
    {
        ZipStats { files: 0, dirs: 0, skipped: 0, converted: 0, bytes: 0 }
    }
}

/// What an entry of a folder is.
#[derive(Debug, Clone, Copy, PartialEq, Eq, Structural)]
pub enum EntryKind {
    Directory,
    File,
    /// A link or another special file.
    Other,
}

/// What a run waits for.
#[derive(Debug, Clone, Copy, PartialEq, Eq, Structural)]
pub enum ZipPhase {
    /// The next entry.
    Walking,
    /// That a directory has been added.
    AddingDirectory {
        converted: bool,
    },
    /// That a file has been added.
    AddingFile {
        converted: bool,
    },
}

/// What the caller tells a run.
#[derive(Debug, Clone, Copy)]
pub enum ZipEvent<'a> {
    /// There is an entry of this kind at this path.
    Found {
        path: &'a Path,
        kind: EntryKind,
    },
    /// The directory has been added.
    DirectoryAdded,
    /// The file has been added, and has so many bytes.
    FileAdded {
        bytes: u64,
    },
}

/// An event, with its path as components.
pub enum ZipInput {
    Found { path: Seq<Seq<u8>>, kind: EntryKind },
    DirectoryAdded,
    FileAdded { bytes: u64 },
}

impl<'a> View for ZipEvent<'a> {
    type V = ZipInput;

    open spec fn view(&self) -> ZipInput {
        match *self {
            ZipEvent::Found { path, kind } => ZipInput::Found {
                path: path_components(path),
                kind,
            },
            ZipEvent::DirectoryAdded => ZipInput::DirectoryAdded,
            ZipEvent::FileAdded { bytes } => ZipInput::FileAdded { bytes },
        }
    }
}

/// What the caller is to do next.
#[derive(Debug)]
pub enum ZipAction {
    /// Go on to the next entry.
    Next,
    /// Add a directory under this name, which ends in a slash.
    AddDirectory {
        name: String,
        converted: bool,
    },
    /// Add the file under this name.
    AddFile {
        name: String,
        converted: bool,
    },
    /// Give up: the entry does not lie in the folder.
    Stop,
}

/// An action, with its name as a sequence of characters.
pub enum ZipOutcome {
    Next,
    AddDirectory { name: Seq<char>, converted: bool },
    AddFile { name: Seq<char>, converted: bool },
    Stop,
}

impl View for ZipAction {
    type V = ZipOutcome;

    open spec fn view(&self) -> ZipOutcome {
        match *self {
            ZipAction::Next => ZipOutcome::Next,
            ZipAction::AddDirectory { name, converted } => ZipOutcome::AddDirectory {
                name: name@,
                converted,
            },
            ZipAction::AddFile { name, converted } => ZipOutcome::AddFile {
                name: name@,
                converted,
            },
            ZipAction::Stop => ZipOutcome::Stop,
        }
    }
}

/// Where a run stands.
pub struct ZipState {
    pub folder: Seq<Seq<u8>>,
    pub options: ZipOptions,
    pub prefix: Option<Seq<char>>,
    pub tally: ZipTally,
    pub phase: ZipPhase,
}

impl ZipState {
    /// A run over this folder that has met nothing.
    pub open spec fn fresh(folder: Seq<Seq<u8>>, options: ZipOptions) -> ZipState {
        ZipState {
            folder,
            options,
            prefix: if options.wrap {
                Some(nfc_folder_name(folder))
            } else {
                None
            },
            tally: empty_zip_tally(),
            phase: ZipPhase::Walking,
        }
    }

    /// Whether this entry is left out.
    pub open spec fn skips(self, rel: Seq<Seq<u8>>, kind: EntryKind) -> bool {
        (!self.options.include_mac_cruft && is_cruft(rel)) || kind is Other
    }

    /// The name in the archive of what lies at this path below the folder.
    pub open spec fn name_of(self, rel: Seq<Seq<u8>>) -> Seq<char> {
        slash_joined(archive_parts(self.prefix, rel))
    }

    /// Whether this event can come now, and the counters have room for it.
    pub open spec fn accepts(self, input: ZipInput) -> bool {
        match input {
            ZipInput::Found { .. } => self.phase is Walking && self.tally.skipped < usize::MAX,
            ZipInput::DirectoryAdded => {
                &&& self.phase is AddingDirectory
                &&& self.tally.dirs < usize::MAX
                &&& self.tally.converted < usize::MAX
            },
            ZipInput::FileAdded { bytes } => {
                &&& self.phase is AddingFile
                &&& self.tally.files < usize::MAX
                &&& self.tally.converted < usize::MAX
                &&& self.tally.bytes + bytes <= u64::MAX
            },
        }
    }

    /// Where the run stands after the event, and what is to be done next.
    pub open spec fn next(self, input: ZipInput) -> (ZipState, ZipOutcome) {
        match input {
            ZipInput::Found { path, kind } => {
                let rel = path.skip(self.folder.len() as int);
                if !self.folder.is_prefix_of(path) {
                    (self, ZipOutcome::Stop)
                } else if self.skips(rel, kind) {
                    (
                        ZipState {
                            tally: ZipTally { skipped: self.tally.skipped + 1, ..self.tally },
                            ..self
                        },
                        ZipOutcome::Next,
                    )
                } else if kind is Directory {
                    (
                        ZipState {
                            phase: ZipPhase::AddingDirectory { converted: is_converted(rel) },
                            ..self
                        },
                        ZipOutcome::AddDirectory {
                            name: self.name_of(rel).push('/'),
                            converted: is_converted(rel),
                        },
                    )
                } else {
                    (
                        ZipState {
                            phase: ZipPhase::AddingFile { converted: is_converted(rel) },
                            ..self
                        },
                        ZipOutcome::AddFile {
                            name: self.name_of(rel),
                            converted: is_converted(rel),
                        },
                    )
                }
            },
            ZipInput::DirectoryAdded => (
                ZipState {
                    tally: ZipTally {
                        dirs: self.tally.dirs + 1,
                        converted: self.tally.converted + self.converting(),
                        ..self.tally
                    },
                    phase: ZipPhase::Walking,
                    ..self
                },
                ZipOutcome::Next,
            ),
            ZipInput::FileAdded { bytes } => (
                ZipState {
                    tally: ZipTally {
                        files: self.tally.files + 1,
                        converted: self.tally.converted + self.converting(),
                        bytes: self.tally.bytes + bytes as nat,
                        ..self.tally
                    },
                    phase: ZipPhase::Walking,
                    ..self
                },
                ZipOutcome::Next,
            ),
        }
    }

    /// Entries being added under another name than theirs: at most the current one.
    pub open spec fn converting(self) -> nat {
        match self.phase {
            ZipPhase::AddingDirectory { converted: true } => 1,
            ZipPhase::AddingFile { converted: true } => 1,
            _ => 0,
        }
    }
}

/// Why an archive is not made.
#[derive(Debug, Clone, Copy, PartialEq, Eq, Structural)]
pub enum ZipRefusal {
    /// The source is not a directory.
    NotADirectory,
    /// There is something where the archive would go.
    OutputExists,
}

impl ZipRefusal {
    /// What is said of the refusal, where the folder and the output are written so.
    pub open spec fn text(self, folder: Seq<char>, output: Seq<char>) -> Seq<char> {
        match self {
            ZipRefusal::NotADirectory => "not a directory: "@ + folder,
            ZipRefusal::OutputExists => "output already exists: "@ + output,
        }
    }

    /// What is said of the refusal, where the folder and the output are written so.
    pub fn message(&self, folder: &str, output: &str) -> (message: String)
        ensures
            message@ == self.text(folder@, output@),
            self is NotADirectory ==> message@ == "not a directory: "@ + folder@,
            self is OutputExists ==> message@ == "output already exists: "@ + output@,
    {
        match self {
            ZipRefusal::NotADirectory => {
                let mut message = "not a directory: ".to_owned();
                message.append(folder);
                message
            },
            ZipRefusal::OutputExists => {
                let mut message = "output already exists: ".to_owned();
                message.append(output);
                message
            },
        }
    }
}

/// What the caller was doing when it had to give up, with the paths and names as they
/// are written.
#[derive(Debug)]
pub enum ZipTask {
    Create {
        output: String,
    },
    Walk,
    /// Telling where an entry lies in the folder.
    Locate,
    AddDirectory {
        name: String,
    },
    StartFile {
        name: String,
    },
    Open {
        path: String,
    },
    Copy {
        path: String,
    },
    Finish,
}

impl ZipTask {
    /// What is said, before the error itself, of a task that failed.
    pub open spec fn text(&self) -> Seq<char> {
        match *self {
            ZipTask::Create { output } => "create "@ + output@,
            ZipTask::Walk => "walk error"@,
            ZipTask::Locate => "strip_prefix failed"@,
            ZipTask::AddDirectory { name } => "add dir "@ + name@,
            ZipTask::StartFile { name } => "start_file "@ + name@,
            ZipTask::Open { path } => "open "@ + path@,
            ZipTask::Copy { path } => "copy "@ + path@,
            ZipTask::Finish => "finalize zip"@,
        }
    }

    /// What is said, before the error itself, of a task that failed.
    pub fn context(&self) -> (said: String)
        ensures
            said@ == self.text(),
            said@ == (match *self {
                ZipTask::Create { output } => "create "@ + output@,
                ZipTask::Walk => "walk error"@,
                ZipTask::Locate => "strip_prefix failed"@,
                ZipTask::AddDirectory { name } => "add dir "@ + name@,
                ZipTask::StartFile { name } => "start_file "@ + name@,
                ZipTask::Open { path } => "open "@ + path@,
                ZipTask::Copy { path } => "copy "@ + path@,
                ZipTask::Finish => "finalize zip"@,
            }),
    {
        match self {
            ZipTask::Create { output } => labelled("create ", output),
            ZipTask::Walk => "walk error".to_owned(),
            ZipTask::Locate => "strip_prefix failed".to_owned(),
            ZipTask::AddDirectory { name } => labelled("add dir ", name),
            ZipTask::StartFile { name } => labelled("start_file ", name),
            ZipTask::Open { path } => labelled("open ", path),
            ZipTask::Copy { path } => labelled("copy ", path),
            ZipTask::Finish => "finalize zip".to_owned(),
        }
    }
}

fn labelled(label: &str, what: &String) -> (text: String)
    ensures
        text@ == label@ + what@,
{
    let mut text = label.to_owned();
    text.append(what.as_str());
    text
}

/// Whether an archive may be made, given what is known of the source and of the
/// place where the archive would go. Nothing is ever overwritten.
pub fn check_paths(folder_is_dir: bool, output_exists: bool) -> (checked: Result<(), ZipRefusal>)
    ensures
        checked == (if !folder_is_dir {
            Err(ZipRefusal::NotADirectory)
        } else if output_exists {
            Err(ZipRefusal::OutputExists)
        } else {
            Ok(())
        }),
{
    if !folder_is_dir {
        Err(ZipRefusal::NotADirectory)
    } else if output_exists {
        Err(ZipRefusal::OutputExists)
    } else {
        Ok(())
    }
}

/// A run that puts a folder into an archive.
#[derive(Debug)]
pub struct ZipRun<'a> {
    /// The folder.
    pub folder: &'a Path,
    /// How the archive is made.
    pub options: ZipOptions,
    /// The folder of the archive that everything goes into, if any.
    pub prefix: Option<String>,
    /// What was added so far.
    pub stats: ZipStats,
    /// What the run waits for.
    pub phase: ZipPhase,
}

impl<'a> ZipRun<'a> {
    /// Where the run stands.
    pub open spec fn state(&self) -> ZipState {
        ZipState {
            folder: path_components(self.folder),
            options: self.options,
            prefix: text_view(self.prefix),
            tally: self.stats@,
            phase: self.phase,
        }
    }

    /// The folder that everything goes into is named in form C.
    pub open spec fn wf(&self) -> bool {
        self.prefix matches Some(folder) ==> is_nfc(folder@) && is_plain_name(folder@)
    }

    /// A run over the folder that has met nothing. A folder without a name has none
    /// to give to what it would be wrapped in.
    pub fn start(folder: &'a Path, options: &ZipOptions) -> (run: Result<ZipRun<'a>, FolderError>)
        ensures
            match run {
                Ok(run) => {
                    &&& options.wrap ==> is_named(path_components(folder))
                    &&& run.wf()
                    &&& run.folder == folder
                    &&& run.state() == ZipState::fresh(path_components(folder), *options)
                },
                Err(FolderError::NoName) => options.wrap && !is_named(path_components(folder)),
            },
            options.wrap ==> reads_folder_name(path_components(folder)),
            run is Err <==> options.wrap && !(path_components(folder).len() > 0 && is_plain_bytes(
                path_components(folder).last(),
            )),
            run matches Ok(run) ==> {
                &&& run.folder == folder
                &&& run.options == *options
                &&& run.phase is Walking
                &&& run.stats.files == 0
                &&& run.stats.dirs == 0
                &&& run.stats.skipped == 0
                &&& run.stats.converted == 0
                &&& run.stats.bytes == 0
                &&& !options.wrap ==> run.prefix is None
                &&& options.wrap ==> (run.prefix matches Some(name) && name@ == nfc_form(
                    lossy_text(path_components(folder).last()),
                ))
            },
    {
        let prefix = if options.wrap {
            match folder_name(folder) {
                Ok(name) => Some(name),
                Err(error) => return Err(error),
            }
        } else {
            None
        };
        Ok(
            ZipRun {
                folder,
                options: *options,
                prefix,
                stats: ZipStats::default(),
                phase: ZipPhase::Walking,
            },
        )
    }

    /// Whether this event can come now, and the counters have room for it.
    pub fn accepts(&self, event: &ZipEvent<'_>) -> (yes: bool)
        ensures
            yes == self.state().accepts(event@),
            yes == (match *event {
                ZipEvent::Found { .. } => self.phase is Walking && self.stats.skipped
                    < usize::MAX,
                ZipEvent::DirectoryAdded => {
                    &&& self.phase is AddingDirectory
                    &&& self.stats.dirs < usize::MAX
                    &&& self.stats.converted < usize::MAX
                },
                ZipEvent::FileAdded { bytes } => {
                    &&& self.phase is AddingFile
                    &&& self.stats.files < usize::MAX
                    &&& self.stats.converted < usize::MAX
                    &&& self.stats.bytes + bytes <= u64::MAX
                },
            }),
    {
        match event {
            ZipEvent::Found { .. } => {
                self.phase == ZipPhase::Walking && self.stats.skipped < usize::MAX
            },
            ZipEvent::DirectoryAdded => {
                let adding = match self.phase {
                    ZipPhase::AddingDirectory { .. } => true,
                    _ => false,
                };
                adding && self.stats.dirs < usize::MAX && self.stats.converted < usize::MAX
            },
            ZipEvent::FileAdded { bytes } => {
                let adding = match self.phase {
                    ZipPhase::AddingFile { .. } => true,
                    _ => false,
                };
                adding && self.stats.files < usize::MAX && self.stats.converted < usize::MAX
                    && *bytes <= u64::MAX - self.stats.bytes
            },
        }
    }

    /// Deals with an entry that was met.
    fn found(&mut self, path: &Path, kind: EntryKind) -> (action: ZipAction)
        requires
            old(self).wf(),
            old(self).state().accepts(ZipInput::Found { path: path_components(path), kind }),
        ensures
            final(self).wf(),
            (final(self).state(), action@) == old(self).state().next(
                ZipInput::Found { path: path_components(path), kind },
            ),
            final(self).folder == old(self).folder,
            old(self).state().folder.is_prefix_of(path_components(path)) ==> reads_unicode(
                path_components(path).skip(old(self).state().folder.len() as int),
            ),
            action is AddDirectory || action is AddFile ==> {
                let rel = path_components(path).skip(old(self).state().folder.len() as int);
                let parts = archive_parts(old(self).state().prefix, rel);
                &&& forall|i: int| 0 <= i < parts.len() ==> is_nfc(#[trigger] parts[i])
                &&& all_plain(rel) ==> all_plain_names(parts)
            },
            final(self).options == old(self).options,
            final(self).prefix == old(self).prefix,
            ({
                let n = path_components(old(self).folder).len() as int;
                let inside = path_components(old(self).folder).is_prefix_of(path_components(path));
                let rel = path_components(path).skip(n);
                let leftover = exists|i: int|
                    0 <= i < rel.len() && {
                        let name = lossy_text(#[trigger] rel[i]);
                        ||| name == ".DS_Store"@
                        ||| name == "__MACOSX"@
                        ||| name == "Thumbs.db"@
                        ||| name.len() >= 2 && name[0] == '.' && name[1] == '_'
                    };
                let skipped = (leftover && !old(self).options.include_mac_cruft) || kind is Other;
                let forms = Seq::new(rel.len(), |i: int| nfc_form(lossy_text(rel[i])));
                let parts = match old(self).prefix {
                    Some(folder) => seq![folder@] + forms,
                    None => forms,
                };
                let marked = rel.len() > 0 && nfc_form(lossy_text(rel.last())) != lossy_text(
                    rel.last(),
                );
                &&& action is Stop <==> !inside
                &&& action is Next <==> inside && skipped
                &&& action is AddDirectory <==> inside && !skipped && kind is Directory
                &&& action is AddFile <==> inside && !skipped && kind is File
                &&& action matches ZipAction::AddDirectory { name, converted } ==> {
                    &&& name@ == slash_joined(parts).push('/')
                    &&& converted == marked
                    &&& final(self).phase == (ZipPhase::AddingDirectory { converted })
                }
                &&& action matches ZipAction::AddFile { name, converted } ==> {
                    &&& name@ == slash_joined(parts)
                    &&& converted == marked
                    &&& final(self).phase == (ZipPhase::AddingFile { converted })
                }
                &&& action is Stop || action is Next ==> final(self).phase == old(self).phase
                &&& final(self).stats == (ZipStats {
                    skipped: if action is Next {
                        (old(self).stats.skipped + 1) as usize
                    } else {
                        old(self).stats.skipped
                    },
                    ..old(self).stats
                })
            }),
    {
        let rel = match strip_prefix(path, self.folder) {
            Some(rel) => rel,
            None => return ZipAction::Stop,
        };
        if !self.options.include_mac_cruft && is_mac_cruft(rel) {
            self.stats.skipped = self.stats.skipped + 1;
            return ZipAction::Next;
        }
        let names = component_names(rel);
        let (parts, converted) = name_parts(&self.prefix, &names);
        let archive_name = join_parts(&parts);
        proof {
            let below = path_components(rel);
            let texts = archive_parts(text_view(self.prefix), below);
            let forms = Seq::new(below.len(), |i: int| nfc_form(lossy_text(below[i])));
            assert(texts =~= match self.prefix {
                Some(folder) => seq![folder@] + forms,
                None => forms,
            });
            assert forall|i: int| 0 <= i < texts.len() implies {
                &&& is_nfc(#[trigger] texts[i])
                &&& all_plain(below) ==> is_plain_name(texts[i])
            } by {
                match text_view(self.prefix) {
                    Some(folder) => {
                        if i > 0 {
                            assert(texts[i] == part_text(below[i - 1]));
                        }
                    },
                    None => {
                        assert(texts[i] == part_text(below[i]));
                    },
                }
            }
        }
        match kind {
            EntryKind::Directory => {
                let mut name = archive_name;
                name.append("/");
                proof {
                    reveal_strlit("/");
                    assert(name@ =~= archive_name@.push('/'));
                }
                self.phase = ZipPhase::AddingDirectory { converted };
                ZipAction::AddDirectory { name, converted }
            },
            EntryKind::File => {
                self.phase = ZipPhase::AddingFile { converted };
                ZipAction::AddFile { name: archive_name, converted }
            },
            EntryKind::Other => {
                self.stats.skipped = self.stats.skipped + 1;
                ZipAction::Next
            },
        }
    }

    /// Takes an event, and says what is to be done next. Each part of a name that is
    /// handed out is in form C, and names a directory entry where the component that it
    /// stands for does; and a component that is Unicode is read as what it encodes.
    pub fn step(&mut self, event: ZipEvent<'_>) -> (action: ZipAction)
        requires
            old(self).wf(),
            old(self).state().accepts(event@),
        ensures
            final(self).wf(),
            (final(self).state(), action@) == old(self).state().next(event@),
            final(self).folder == old(self).folder,
            event@ matches ZipInput::Found { path, .. } ==> (old(self).state().folder.is_prefix_of(
                path,
            ) ==> reads_unicode(path.skip(old(self).state().folder.len() as int))),
            action is AddDirectory || action is AddFile ==> {
                let rel = event@->path.skip(old(self).state().folder.len() as int);
                let parts = archive_parts(old(self).state().prefix, rel);
                &&& forall|i: int| 0 <= i < parts.len() ==> is_nfc(#[trigger] parts[i])
                &&& all_plain(rel) ==> all_plain_names(parts)
            },
            final(self).options == old(self).options,
            final(self).prefix == old(self).prefix,
            event matches ZipEvent::Found { path, kind } ==> ({
                let n = path_components(old(self).folder).len() as int;
                let inside = path_components(old(self).folder).is_prefix_of(path_components(path));
                let rel = path_components(path).skip(n);
                let leftover = exists|i: int|
                    0 <= i < rel.len() && {
                        let name = lossy_text(#[trigger] rel[i]);
                        ||| name == ".DS_Store"@
                        ||| name == "__MACOSX"@
                        ||| name == "Thumbs.db"@
                        ||| name.len() >= 2 && name[0] == '.' && name[1] == '_'
                    };
                let skipped = (leftover && !old(self).options.include_mac_cruft) || kind is Other;
                let forms = Seq::new(rel.len(), |i: int| nfc_form(lossy_text(rel[i])));
                let parts = match old(self).prefix {
                    Some(folder) => seq![folder@] + forms,
                    None => forms,
                };
                let marked = rel.len() > 0 && nfc_form(lossy_text(rel.last())) != lossy_text(
                    rel.last(),
                );
                &&& action is Stop <==> !inside
                &&& action is Next <==> inside && skipped
                &&& action is AddDirectory <==> inside && !skipped && kind is Directory
                &&& action is AddFile <==> inside && !skipped && kind is File
                &&& action matches ZipAction::AddDirectory { name, converted } ==> {
                    &&& name@ == slash_joined(parts).push('/')
                    &&& converted == marked
                    &&& final(self).phase == (ZipPhase::AddingDirectory { converted })
                }
                &&& action matches ZipAction::AddFile { name, converted } ==> {
                    &&& name@ == slash_joined(parts)
                    &&& converted == marked
                    &&& final(self).phase == (ZipPhase::AddingFile { converted })
                }
                &&& action is Stop || action is Next ==> final(self).phase == old(self).phase
                &&& final(self).stats == (ZipStats {
                    skipped: if action is Next {
                        (old(self).stats.skipped + 1) as usize
                    } else {
                        old(self).stats.skipped
                    },
                    ..old(self).stats
                })
            }),
            event is DirectoryAdded ==> {
                &&& action is Next
                &&& final(self).phase is Walking
                &&& final(self).stats.dirs == old(self).stats.dirs + 1
                &&& final(self).stats.files == old(self).stats.files
                &&& final(self).stats.skipped == old(self).stats.skipped
                &&& final(self).stats.bytes == old(self).stats.bytes
                &&& final(self).stats.converted == old(self).stats.converted + (if old(self).phase
                    == (ZipPhase::AddingDirectory { converted: true }) {
                    1int
                } else {
                    0int
                })
            },
            event matches ZipEvent::FileAdded { bytes } ==> {
                &&& action is Next
                &&& final(self).phase is Walking
                &&& final(self).stats.files == old(self).stats.files + 1
                &&& final(self).stats.bytes == old(self).stats.bytes + bytes
                &&& final(self).stats.dirs == old(self).stats.dirs
                &&& final(self).stats.skipped == old(self).stats.skipped
                &&& final(self).stats.converted == old(self).stats.converted + (if old(self).phase
                    == (ZipPhase::AddingFile { converted: true }) {
                    1int
                } else {
                    0int
                })
            },
    {
        match event {
            ZipEvent::Found { path, kind } => self.found(path, kind),
            ZipEvent::DirectoryAdded => {
                let converted = match self.phase {
                    ZipPhase::AddingDirectory { converted } => converted,
                    _ => false,
                };
                self.stats.dirs = self.stats.dirs + 1;
                if converted {
                    self.stats.converted = self.stats.converted + 1;
                }
                self.phase = ZipPhase::Walking;
                ZipAction::Next
            },
            ZipEvent::FileAdded { bytes } => {
                let converted = match self.phase {
                    ZipPhase::AddingFile { converted } => converted,
                    _ => false,
                };
                self.stats.files = self.stats.files + 1;
                self.stats.bytes = self.stats.bytes + bytes;
                if converted {
                    self.stats.converted = self.stats.converted + 1;
                }
                self.phase = ZipPhase::Walking;
                ZipAction::Next
            },
        }
    }
}

} // verus!
