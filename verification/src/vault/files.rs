//! The files of a Riot session: what is saved of them, and where it goes back to.

use vstd::prelude::*;

use crate::codec::{format_uuid, is_random_uuid, new_uuid, uuid_text};
use crate::text::{
    after_prefix, byte_len, owned, same, split_on, starts_with, strip_prefix, trim, trimmed,
    utf8_len, views,
};
use crate::vault::auth::{carries_login, has_persistent_auth};
use crate::unicode::utf8_lossy;
use crate::windows::path::{
    components, has_drive, head, is_separator, path_parts, piece_parts, pieces_are_names_or_parents,
    slashed, slashed_of, PathPart,
};

verus! {

pub const MAX_SNAPSHOT_BYTES: usize = 134_217_728;

pub const MAX_FILE_BYTES: u64 = 33_554_432;

pub const MAX_PROFILE_ICON_DATA_URL_BYTES: usize = 393_216;

/// One saved file of a session.
pub struct Entry {
    pub relative: String,
    pub bytes: Vec<u8>,
}

/// A saved session.
pub struct Snapshot {
    pub entries: Vec<Entry>,
}

/// The files of a live session below Riot's data directory, each with the name that it is
/// saved under.
pub const FILES: [(&'static str, &'static str); 4] = [
    ("Riot Client/Data/RiotGamesPrivateSettings.yaml", "client/private.yaml"),
    ("Riot Client/Data/RiotClientPrivateSettings.yaml", "client/legacy-private.yaml"),
    ("Riot Client/Config/RiotClientSettings.yaml", "client/settings.yaml"),
    ("League of Legends/Data/RiotGamesPrivateSettings.yaml", "league/private.yaml"),
];

/// The directories of a live session below Riot's data directory, each with the name that its
/// files are saved under.
pub const DIRS: [(&'static str, &'static str); 2] = [
    ("Riot Client/Data/Sessions", "client/sessions"),
    ("Riot Client/Data/Cookies", "client/cookies"),
];

/// Whether `path` is made of plain names alone: it starts neither at a root nor at a drive nor
/// at `.`, and goes nowhere upwards.
pub open spec fn plain_relative(path: Seq<char>) -> bool {
    &&& path.len() > 0
    &&& !is_separator(path[0])
    &&& !has_drive(path)
    &&& components(path)[0] != "."@
    &&& !components(path).contains(".."@)
}

/// A path is made of plain names alone exactly where it is not empty and each of its components
/// is a name.
pub proof fn plain_paths_have_names_alone(path: Seq<char>)
    ensures
        plain_relative(path) <==> path.len() > 0 && forall|k: int|
            0 <= k < path_parts(path).len() ==> #[trigger] path_parts(path)[k] == PathPart::Normal,
{
    let parts = path_parts(path);
    if path.len() > 0 {
        if is_separator(path[0]) || has_drive(path) {
            assert(parts[0] != PathPart::Normal);
        } else {
            let names = piece_parts(components(path), false);
            assert(head(path) is None);
            pieces_are_names_or_parents(components(path));
            if components(path)[0] == "."@ {
                assert(parts[0] == PathPart::CurDir);
            } else {
                assert(parts =~= names);
                if components(path).contains(".."@) {
                    let k = choose|k: int| 0 <= k < names.len() && names[k] == PathPart::ParentDir;
                    assert(parts[k] == PathPart::ParentDir);
                } else {
                    assert forall|k: int| 0 <= k < parts.len() implies parts[k]
                        == PathPart::Normal by {
                        assert(names.contains(names[k]));
                    }
                }
            }
        }
    }
}

/// Whether `path` is made of plain names alone.
pub fn is_plain_relative(path: &str) -> (plain: bool)
    ensures
        plain == plain_relative(path@),
{
    let n: usize = path.unicode_len();
    if n == 0 {
        return false;
    }
    let first = path.get_char(0);
    if first == '/' || first == '\\' {
        return false;
    }
    if n >= 2 && path.get_char(1) == ':' && (('a' <= first && first <= 'z') || ('A' <= first
        && first <= 'Z')) {
        return false;
    }
    let text = slashed_of(path);
    let parts = split_on(text.as_str(), '/');
    let ghost all = components(path@);
    assert(all == views(parts@));
    assert(all[0] == parts@[0]@);
    if same(parts[0], ".") {
        return false;
    }
    let mut i: usize = 0;
    while i < parts.len()
        invariant
            all == views(parts@),
            all == components(path@),
            i <= parts@.len(),
            forall|k: int| 0 <= k < i ==> all[k] != ".."@,
        decreases parts@.len() - i,
    {
        assert(all[i as int] == parts@[i as int]@);
        if same(parts[i], "..") {
            assert(all.contains(".."@));
            return false;
        }
        i = i + 1;
    }
    true
}

/// A place below Riot's data directory: one of the files, or a path below one of the
/// directories.
pub struct LiveTarget {
    pub source: &'static str,
    pub below: Option<String>,
}

/// A place as a mathematical value.
pub struct TargetModel {
    pub source: Seq<char>,
    pub below: Option<Seq<char>>,
}

impl View for LiveTarget {
    type V = TargetModel;

    open spec fn view(&self) -> TargetModel {
        TargetModel { source: self.source@, below: owned(self.below) }
    }
}

/// The place of the first of the files from `i` on that is saved as `relative`.
pub open spec fn file_target(relative: Seq<char>, i: int) -> Option<TargetModel>
    decreases 4 - i,
{
    if i >= 4 {
        None
    } else if FILES@[i].1@ == relative {
        Some(TargetModel { source: FILES@[i].0@, below: None })
    } else {
        file_target(relative, i + 1)
    }
}

/// The place below the first of the directories from `i` on that `relative` names.
pub open spec fn dir_target(relative: Seq<char>, i: int) -> Option<TargetModel>
    decreases 2 - i,
{
    if i >= 2 {
        None
    } else {
        match after_prefix(relative, DIRS@[i].1@ + "/"@) {
            Some(rest) => if plain_relative(rest) {
                Some(TargetModel { source: DIRS@[i].0@, below: Some(rest) })
            } else {
                dir_target(relative, i + 1)
            },
            None => dir_target(relative, i + 1),
        }
    }
}

/// Where a saved file goes back to. A name that is none of the known ones, or that would leave
/// its directory, has no place.
pub open spec fn target_of(relative: Seq<char>) -> Option<TargetModel> {
    match file_target(relative, 0) {
        Some(target) => Some(target),
        None => dir_target(relative, 0),
    }
}

/// An optional place as a mathematical value.
pub open spec fn target_view(target: Option<LiveTarget>) -> Option<TargetModel> {
    match target {
        Some(place) => Some(place@),
        None => None,
    }
}

/// Where a saved file goes back to.
pub fn target_path(relative: &str) -> (target: Option<LiveTarget>)
    ensures
        target_view(target) == target_of(relative@),
{
    let mut i: usize = 0;
    while i < 4
        invariant
            i <= 4,
            file_target(relative@, 0) == file_target(relative@, i as int),
        decreases 4 - i,
    {
        if same(FILES[i].1, relative) {
            return Some(LiveTarget { source: FILES[i].0, below: None });
        }
        i = i + 1;
    }
    let mut j: usize = 0;
    while j < 2
        invariant
            j <= 2,
            file_target(relative@, 0) is None,
            dir_target(relative@, 0) == dir_target(relative@, j as int),
        decreases 2 - j,
    {
        let mut prefix = DIRS[j].1.to_owned();
        prefix.append("/");
        if let Some(rest) = strip_prefix(relative, prefix.as_str()) {
            if is_plain_relative(rest) {
                return Some(LiveTarget { source: DIRS[j].0, below: Some(rest.to_owned()) });
            }
        }
        j = j + 1;
    }
    None
}

/// The name that a file is saved under which stands at `relative` below a directory that is
/// saved as `target`.
pub open spec fn entry_name(target: Seq<char>, relative: Seq<char>) -> Seq<char> {
    target + "/"@ + slashed(relative)
}

/// The name that a file is saved under which stands at `relative` below a directory that is
/// saved as `target`.
pub fn saved_name(target: &str, relative: &str) -> (name: String)
    ensures
        name@ == entry_name(target@, relative@),
{
    let mut name = target.to_owned();
    name.append("/");
    name.append(slashed_of(relative).as_str());
    name
}

/// The entries of a session as mathematical values.
pub struct EntryModel {
    pub relative: Seq<char>,
    pub bytes: Seq<u8>,
}

impl View for Entry {
    type V = EntryModel;

    open spec fn view(&self) -> EntryModel {
        EntryModel { relative: self.relative@, bytes: self.bytes@ }
    }
}

/// The entries as mathematical values.
pub open spec fn entry_models(entries: Seq<Entry>) -> Seq<EntryModel> {
    entries.map_values(|e: Entry| e@)
}

impl View for Snapshot {
    type V = Seq<EntryModel>;

    open spec fn view(&self) -> Seq<EntryModel> {
        entry_models(self.entries@)
    }
}

/// What to do with an item of a session directory.
#[derive(Clone, Copy, PartialEq, Eq, Structural)]
pub enum Visit {
    Skip,
    Descend,
    Take,
}

/// Links are never followed; directories are walked and files are taken.
pub fn visit(is_symlink: bool, is_dir: bool, is_file: bool) -> (what: Visit)
    ensures
        is_symlink || (!is_dir && !is_file) <==> what == Visit::Skip,
        !is_symlink && is_dir <==> what == Visit::Descend,
        !is_symlink && !is_dir && is_file <==> what == Visit::Take,
{
    if is_symlink {
        Visit::Skip
    } else if is_dir {
        Visit::Descend
    } else if is_file {
        Visit::Take
    } else {
        Visit::Skip
    }
}

/// A session in the course of being saved.
pub struct Collector {
    pub entries: Vec<Entry>,
    pub total: usize,
}

/// Why a file cannot be saved.
pub open spec fn size_refusal(total: int, size: u64) -> Option<Seq<char>> {
    if size > MAX_FILE_BYTES {
        Some("A Riot session file is too large to save safely"@)
    } else if total + size > MAX_SNAPSHOT_BYTES {
        Some("Riot session is too large to save safely"@)
    } else {
        None
    }
}

/// Whether an entry is one of Riot's private settings and carries a login.
pub open spec fn is_login(entry: EntryModel) -> bool {
    (entry.relative == "client/private.yaml"@ || entry.relative == "client/legacy-private.yaml"@)
        && carries_login(utf8_lossy(entry.bytes))
}

impl Collector {
    /// The sizes taken in so far stay within what a session may hold.
    pub open spec fn wf(self) -> bool {
        self.total <= MAX_SNAPSHOT_BYTES
    }

    pub fn new() -> (collector: Collector)
        ensures
            collector.wf(),
            entry_models(collector.entries@) == Seq::<EntryModel>::empty(),
            collector.total == 0,
    {
        let collector = Collector { entries: Vec::new(), total: 0 };
        assert(entry_models(collector.entries@) =~= Seq::empty());
        collector
    }

    /// Takes a file of `size` bytes into account before it is read.
    pub fn reserve(&mut self, size: u64) -> (result: Result<(), String>)
        requires
            old(self).wf(),
        ensures
            final(self).wf(),
            final(self).entries == old(self).entries,
            match result {
                Ok(()) => size_refusal(old(self).total as int, size) is None && final(self).total
                    == old(self).total + size,
                Err(message) => size_refusal(old(self).total as int, size) == Some(message@)
                    && final(self).total == old(self).total,
            },
    {
        if size > MAX_FILE_BYTES {
            return Err("A Riot session file is too large to save safely".to_owned());
        }
        let total: usize = self.total + size as usize;
        if total > MAX_SNAPSHOT_BYTES {
            return Err("Riot session is too large to save safely".to_owned());
        }
        self.total = total;
        Ok(())
    }

    /// Keeps a file that was read.
    pub fn push(&mut self, relative: String, bytes: Vec<u8>)
        requires
            old(self).wf(),
        ensures
            final(self).wf(),
            final(self).total == old(self).total,
            entry_models(final(self).entries@) == entry_models(old(self).entries@).push(
                EntryModel { relative: relative@, bytes: bytes@ },
            ),
    {
        self.entries.push(Entry { relative, bytes });
        assert(entry_models(self.entries@) =~= entry_models(old(self).entries@).push(
            EntryModel { relative: relative@, bytes: bytes@ },
        ));
    }

    /// The finished session.
    pub fn finish(self) -> (snapshot: Snapshot)
        ensures
            snapshot@ == entry_models(self.entries@),
    {
        Snapshot { entries: self.entries }
    }
}

/// Whether any of the entries is a login.
pub open spec fn signed_in(entries: Seq<EntryModel>) -> bool {
    exists|i: int| 0 <= i < entries.len() && is_login(#[trigger] entries[i])
}

/// Goes on with a session once its settings files are collected, if they carry a login.
pub fn capture(files: Collector) -> (result: Result<Collector, String>)
    ensures
        match result {
            Ok(collector) => collector == files && signed_in(entry_models(files.entries@)),
            Err(message) => !signed_in(entry_models(files.entries@)) && message@
                == "No signed-in Riot session found. Sign in with Stay signed in, then try again."@,
        },
{
    let n: usize = files.entries.len();
    let ghost all = entry_models(files.entries@);
    let mut i: usize = 0;
    while i < n
        invariant
            n == files.entries@.len(),
            all == entry_models(files.entries@),
            i <= n,
            forall|k: int| 0 <= k < i ==> !is_login(#[trigger] all[k]),
        decreases n - i,
    {
        let entry = &files.entries[i];
        assert(all[i as int] == entry@);
        if (same(entry.relative.as_str(), "client/private.yaml") || same(
            entry.relative.as_str(),
            "client/legacy-private.yaml",
        )) && has_persistent_auth(entry.bytes.as_slice()) {
            return Ok(files);
        }
        i = i + 1;
    }
    Err(
        "No signed-in Riot session found. Sign in with Stay signed in, then try again.".to_owned(),
    )
}

/// What came of reading one of the live files.
pub enum FileRead {
    Absent,
    Bytes(Vec<u8>),
    Failed(String),
}

/// What the reads from `i` on say of a live login: the first file that carries one or could not
/// be read decides.
pub open spec fn live_session(reads: Seq<FileRead>, i: int) -> Result<bool, Seq<char>>
    decreases reads.len() - i,
{
    if i >= reads.len() {
        Ok(false)
    } else {
        match reads[i] {
            FileRead::Failed(message) => Err(message@),
            FileRead::Bytes(bytes) => if carries_login(utf8_lossy(bytes@)) {
                Ok(true)
            } else {
                live_session(reads, i + 1)
            },
            FileRead::Absent => live_session(reads, i + 1),
        }
    }
}

/// An outcome with its message as a mathematical value.
pub open spec fn outcome_view<T>(result: Result<T, String>) -> Result<T, Seq<char>> {
    match result {
        Ok(value) => Ok(value),
        Err(message) => Err(message@),
    }
}

/// Whether the private settings that were read, in their order, carry a live login.
pub fn live_session_exists(reads: &Vec<FileRead>) -> (result: Result<bool, String>)
    ensures
        outcome_view(result) == live_session(reads@, 0),
{
    let n: usize = reads.len();
    let mut i: usize = 0;
    while i < n
        invariant
            n == reads@.len(),
            i <= n,
            live_session(reads@, 0) == live_session(reads@, i as int),
        decreases n - i,
    {
        match &reads[i] {
            FileRead::Failed(message) => {
                return Err(message.clone());
            },
            FileRead::Bytes(bytes) => {
                if has_persistent_auth(bytes.as_slice()) {
                    return Ok(true);
                }
            },
            FileRead::Absent => {},
        }
        i = i + 1;
    }
    Ok(false)
}

/// The files and directories that are removed before another session moves in.
pub fn clear_live() -> (paths: (Vec<&'static str>, Vec<&'static str>))
    ensures
        paths.0@.len() == 4,
        forall|i: int| 0 <= i < 4 ==> #[trigger] paths.0@[i]@ == FILES@[i].0@,
        paths.1@.len() == 2,
        forall|i: int| 0 <= i < 2 ==> #[trigger] paths.1@[i]@ == DIRS@[i].0@,
{
    let mut files: Vec<&'static str> = Vec::new();
    files.push(FILES[0].0);
    files.push(FILES[1].0);
    files.push(FILES[2].0);
    files.push(FILES[3].0);
    let mut dirs: Vec<&'static str> = Vec::new();
    dirs.push(DIRS[0].0);
    dirs.push(DIRS[1].0);
    (files, dirs)
}

/// Whether every entry has a place to go back to.
pub open spec fn restorable(entries: Seq<EntryModel>) -> bool {
    forall|i: int| 0 <= i < entries.len() ==> target_of(#[trigger] entries[i].relative) is Some
}

/// Finds the place of every entry before anything is touched. One bad entry refuses the whole
/// session.
pub fn restore(snapshot: &Snapshot) -> (result: Result<Vec<LiveTarget>, String>)
    ensures
        match result {
            Ok(targets) => {
                &&& restorable(snapshot@)
                &&& targets@.len() == snapshot@.len()
                &&& forall|i: int|
                    0 <= i < targets@.len() ==> Some(#[trigger] targets@[i]@) == target_of(
                        snapshot@[i].relative,
                    )
            },
            Err(message) => !restorable(snapshot@) && message@
                == "Saved session contains an invalid path"@,
        },
{
    let n: usize = snapshot.entries.len();
    let ghost all = snapshot@;
    let mut targets: Vec<LiveTarget> = Vec::new();
    let mut i: usize = 0;
    while i < n
        invariant
            n == snapshot.entries@.len(),
            all == entry_models(snapshot.entries@),
            all == snapshot@,
            i <= n,
            targets@.len() == i,
            forall|k: int|
                0 <= k < i ==> Some(#[trigger] targets@[k]@) == target_of(all[k].relative),
        decreases n - i,
    {
        assert(all[i as int] == snapshot.entries@[i as int]@);
        match target_path(snapshot.entries[i].relative.as_str()) {
            Some(target) => {
                targets.push(target);
            },
            None => {
                assert(target_of(all[i as int].relative) is None);
                return Err("Saved session contains an invalid path".to_owned());
            },
        }
        i = i + 1;
    }
    assert forall|k: int| 0 <= k < all.len() implies target_of(
        #[trigger] all[k].relative,
    ) is Some by {
        assert(Some(targets@[k]@) == target_of(all[k].relative));
    }
    Ok(targets)
}

/// The length of a session as the system's data protection takes it.
pub fn blob_len(len: usize) -> (result: Result<u32, String>)
    ensures
        match result {
            Ok(n) => n == len,
            Err(message) => len > u32::MAX && message@ == "Session is too large"@,
        },
{
    if len > u32::MAX as usize {
        Err("Session is too large".to_owned())
    } else {
        Ok(len as u32)
    }
}

/// What is said when the system's data protection fails.
pub fn crypt_failure(encrypt: bool, reason: &str) -> (message: String)
    ensures
        message@ == "Windows could not "@ + (if encrypt {
            "protect"@
        } else {
            "unlock"@
        }) + " this session: "@ + reason@,
{
    let mut message = "Windows could not ".to_owned();
    message.append(
        if encrypt {
            "protect"
        } else {
            "unlock"
        },
    );
    message.append(" this session: ");
    message.append(reason);
    message
}

/// The name of a saved session's file.
pub fn snapshot_file_name(id: u128) -> (name: String)
    ensures
        name@ == uuid_text(id) + ".bin"@,
{
    let mut name = format_uuid(id);
    name.append(".bin");
    name
}

/// A new id for a session that is to be saved, with the name of its file.
pub fn new_snapshot_file() -> (file: (u128, String))
    ensures
        is_random_uuid(file.0),
        file.1@ == uuid_text(file.0) + ".bin"@,
{
    let id = new_uuid();
    (id, snapshot_file_name(id))
}

/// The name of the file that the settings are written to before they replace the old ones.
pub fn pending_state_name(id: u128) -> (name: String)
    ensures
        name@ == "state-"@ + uuid_text(id) + ".tmp"@,
{
    let mut name = "state-".to_owned();
    name.append(format_uuid(id).as_str());
    name.append(".tmp");
    name
}

/// A new name for the file that the settings are written to before they replace the old ones.
pub fn new_pending_state() -> (name: String)
    ensures
        exists|id: u128|
            is_random_uuid(id) && name@ == "state-"@ + #[trigger] uuid_text(id) + ".tmp"@,
{
    pending_state_name(new_uuid())
}

/// The name of an account's cached profile icon.
pub fn icon_file_name(account_id: u128) -> (name: String)
    ensures
        name@ == uuid_text(account_id) + ".data-url"@,
{
    let mut name = format_uuid(account_id);
    name.append(".data-url");
    name
}

/// Whether `value` is an image data URL that is small enough to cache.
pub open spec fn is_icon(value: Seq<char>) -> bool {
    utf8_len(value) <= MAX_PROFILE_ICON_DATA_URL_BYTES && (
    "data:image/jpeg;base64,"@.is_prefix_of(value) || "data:image/png;base64,"@.is_prefix_of(value))
}

/// Whether `value` is an image data URL that is small enough to cache.
pub fn valid_profile_icon_data_url(value: &str) -> (valid: bool)
    ensures
        valid == is_icon(value@),
{
    byte_len(value) <= MAX_PROFILE_ICON_DATA_URL_BYTES && (starts_with(
        value,
        "data:image/jpeg;base64,",
    ) || starts_with(value, "data:image/png;base64,"))
}

/// A file name and the text to write there.
pub struct IconFile {
    pub name: String,
    pub text: String,
}

/// Saves presentation-only League profile art outside the settings. The account's UUID is the
/// file name, so Riot IDs and PUUIDs never become paths.
pub fn save_profile_icon(account_id: u128, data_url: &str) -> (result: Result<IconFile, String>)
    ensures
        match result {
            Ok(file) => {
                &&& is_icon(trimmed(data_url@))
                &&& file.name@ == uuid_text(account_id) + ".data-url"@
                &&& file.text@ == trimmed(data_url@)
            },
            Err(message) => !is_icon(trimmed(data_url@)) && message@
                == "League profile icon data is invalid or too large"@,
        },
{
    let value = trim(data_url);
    if !valid_profile_icon_data_url(value) {
        return Err("League profile icon data is invalid or too large".to_owned());
    }
    Ok(IconFile { name: icon_file_name(account_id), text: value.to_owned() })
}

/// What a cached icon shows: nothing where the file is missing, damaged or stale.
pub open spec fn cached_icon(file: Option<Seq<char>>) -> Option<Seq<char>> {
    match file {
        Some(text) => if is_icon(trimmed(text)) {
            Some(trimmed(text))
        } else {
            None
        },
        None => None,
    }
}

/// A cached profile icon as the interface shows it, from the text of its file.
pub fn profile_icon_data_url(file: Option<String>) -> (icon: Option<String>)
    ensures
        owned(icon) == cached_icon(owned(file)),
{
    match file {
        Some(text) => {
            let value = trim(text.as_str());
            if valid_profile_icon_data_url(value) {
                Some(value.to_owned())
            } else {
                None
            }
        },
        None => None,
    }
}

/// A saved icon is shown again just as it was saved.
pub proof fn saved_icon_is_shown(data_url: Seq<char>)
    requires
        is_icon(trimmed(data_url)),
    ensures
        cached_icon(Some(trimmed(data_url))) == Some(trimmed(data_url)),
{
    crate::text::lemma_strip_again(data_url, crate::text::Trim::White);
}

/// Each of the live files goes back to where it was saved from.
pub proof fn saved_file_goes_back(i: int)
    requires
        0 <= i < 4,
    ensures
        target_of(FILES@[i].1@) == Some(TargetModel { source: FILES@[i].0@, below: None }),
{
    lemma_names_differ();
    reveal_with_fuel(file_target, 5);
}

proof fn lemma_names_differ()
    ensures
        forall|i: int, j: int| 0 <= i < j < 4 ==> FILES@[i].1@ != FILES@[j].1@,
{
    reveal_strlit("client/private.yaml");
    reveal_strlit("client/legacy-private.yaml");
    reveal_strlit("client/settings.yaml");
    reveal_strlit("league/private.yaml");
    assert(FILES@[0].1@.len() == 19 && FILES@[0].1@[0] == 'c');
    assert(FILES@[1].1@.len() == 26);
    assert(FILES@[2].1@.len() == 20);
    assert(FILES@[3].1@.len() == 19 && FILES@[3].1@[0] == 'l');
}

proof fn lemma_slashed_again(path: Seq<char>)
    ensures
        slashed(slashed(path)) == slashed(path),
        slashed(path).len() == path.len(),
{
    assert(slashed(slashed(path)) =~= slashed(path));
}

/// A file of a session directory goes back to the path that it was saved from.
pub proof fn saved_directory_file_goes_back(d: int, relative: Seq<char>)
    requires
        0 <= d < 2,
        plain_relative(relative),
    ensures
        target_of(entry_name(DIRS@[d].1@, relative)) == Some(
            TargetModel { source: DIRS@[d].0@, below: Some(slashed(relative)) },
        ),
{
    let name = entry_name(DIRS@[d].1@, relative);
    lemma_slashed_again(relative);
    assert(plain_relative(slashed(relative)));
    reveal_strlit("client/private.yaml");
    reveal_strlit("client/legacy-private.yaml");
    reveal_strlit("client/settings.yaml");
    reveal_strlit("league/private.yaml");
    reveal_strlit("client/sessions");
    reveal_strlit("client/cookies");
    reveal_strlit("/");
    assert(DIRS@[0].1@ == "client/sessions"@);
    assert(DIRS@[1].1@ == "client/cookies"@);
    assert(name[0] == 'c' && name[7] == DIRS@[d].1@[7] && name[9] == DIRS@[d].1@[9]);
    assert(FILES@[0].1@[7] == 'p' && FILES@[1].1@[7] == 'l' && FILES@[2].1@[9] == 't'
        && FILES@[3].1@[0] == 'l');
    reveal_with_fuel(file_target, 5);
    assert(file_target(name, 0) is None);
    let prefix = DIRS@[d].1@ + "/"@;
    assert(name.skip(prefix.len() as int) =~= slashed(relative));
    assert(prefix =~= name.subrange(0, prefix.len() as int));
    if d == 1 {
        let other = DIRS@[0].1@ + "/"@;
        assert(other[7] == 's');
        assert(!other.is_prefix_of(name)) by {
            if other.is_prefix_of(name) {
                assert(name.subrange(0, other.len() as int)[7] == 's');
            }
        }
    }
    reveal_with_fuel(dir_target, 3);
}

/// Whether a name is one that a file is saved under: that of one of the files, or that of a plain
/// path below one of the directories.
pub open spec fn is_saved_name(name: Seq<char>) -> bool {
    ||| exists|i: int| 0 <= i < 4 && name == #[trigger] FILES@[i].1@
    ||| exists|d: int, relative: Seq<char>|
        0 <= d < 2 && plain_relative(relative) && name == #[trigger] entry_name(
            DIRS@[d].1@,
            relative,
        )
}

/// A session whose files were saved under their names can be restored as a whole.
pub proof fn saved_session_is_restorable(entries: Seq<EntryModel>)
    requires
        forall|i: int| 0 <= i < entries.len() ==> is_saved_name(#[trigger] entries[i].relative),
    ensures
        restorable(entries),
{
    assert forall|i: int| 0 <= i < entries.len() implies target_of(
        #[trigger] entries[i].relative,
    ) is Some by {
        let name = entries[i].relative;
        assert(is_saved_name(name));
        if exists|k: int| 0 <= k < 4 && name == #[trigger] FILES@[k].1@ {
            let k = choose|k: int| 0 <= k < 4 && name == #[trigger] FILES@[k].1@;
            saved_file_goes_back(k);
        } else {
            let (d, relative) = choose|d: int, relative: Seq<char>|
                0 <= d < 2 && plain_relative(relative) && name == #[trigger] entry_name(
                    DIRS@[d].1@,
                    relative,
                );
            saved_directory_file_goes_back(d, relative);
        }
    }
}

/// Whatever a saved session names, what is written is one of the known files, or a plain path
/// below one of the known directories.
pub proof fn restored_files_stay_in_place(relative: Seq<char>)
    requires
        target_of(relative) is Some,
    ensures
        ({
            let target = target_of(relative)->Some_0;
            ||| target.below is None && exists|i: int|
                0 <= i < 4 && target.source == #[trigger] FILES@[i].0@
            ||| target.below is Some && plain_relative(target.below->Some_0) && exists|d: int|
                0 <= d < 2 && target.source == #[trigger] DIRS@[d].0@
        }),
{
    reveal_with_fuel(file_target, 5);
    reveal_with_fuel(dir_target, 3);
}

/// A live login is found exactly where one of the files carries one, as long as all files before it
/// could be read; a file that cannot be read before that is never taken for one without a login.
pub proof fn live_login_is_found(reads: Seq<FileRead>, from: int)
    requires
        0 <= from <= reads.len(),
    ensures
        match live_session(reads, from) {
            Ok(true) => exists|k: int|
                from <= k < reads.len() && (#[trigger] reads[k] matches FileRead::Bytes(bytes)
                    && carries_login(utf8_lossy(bytes@))) && forall|j: int|
                    from <= j < k ==> !(#[trigger] reads[j] is Failed),
            Ok(false) => forall|k: int|
                from <= k < reads.len() ==> !(#[trigger] reads[k] is Failed) && !(
                reads[k] matches FileRead::Bytes(bytes) && carries_login(utf8_lossy(bytes@))),
            Err(message) => exists|k: int|
                from <= k < reads.len() && (#[trigger] reads[k] matches FileRead::Failed(reason)
                    && reason@ == message) && forall|j: int|
                    from <= j < k ==> !(#[trigger] reads[j] is Failed) && !(
                    reads[j] matches FileRead::Bytes(bytes) && carries_login(utf8_lossy(bytes@))),
        },
    decreases reads.len() - from,
{
    if from < reads.len() {
        live_login_is_found(reads, from + 1);
    }
}

/// A file is saved as long as it holds no more than 32 MiB and the whole session no more than
/// 128 MiB.
pub proof fn sessions_are_saved_up_to_their_limit(total: int, size: u64)
    ensures
        size_refusal(total, size) is None <==> size <= 32 * 1024 * 1024 && total + size <= 128 * 1024
            * 1024,
{
}

/// An image is cached and shown exactly where it is a JPEG or PNG data URL of at most 384 KiB.
pub proof fn images_are_cached_up_to_their_limit(text: Seq<char>)
    ensures
        cached_icon(Some(text)) is Some <==> utf8_len(trimmed(text)) <= 384 * 1024 && (
        "data:image/jpeg;base64,"@.is_prefix_of(trimmed(text))
            || "data:image/png;base64,"@.is_prefix_of(trimmed(text))),
        cached_icon(Some(text)) matches Some(shown) ==> shown == trimmed(text),
        cached_icon(None) is None,
{
}

/// A session counts as signed in exactly where one of Riot's two private settings files carries a
/// login.
pub proof fn private_settings_sign_in(entries: Seq<EntryModel>)
    ensures
        signed_in(entries) <==> exists|k: int|
            0 <= k < entries.len() && ((#[trigger] entries[k]).relative == "client/private.yaml"@
                || entries[k].relative == "client/legacy-private.yaml"@) && carries_login(
                utf8_lossy(entries[k].bytes),
            ),
{
    if signed_in(entries) {
        let k = choose|k: int| 0 <= k < entries.len() && is_login(#[trigger] entries[k]);
        assert(carries_login(utf8_lossy(entries[k].bytes)));
    }
}

/// The files and directories of a session, and the names that they are saved under.
pub proof fn session_files_go_back_to_riots_places(relative: Seq<char>)
    requires
        plain_relative(relative),
    ensures
        target_of("client/private.yaml"@) == Some(
            TargetModel { source: "Riot Client/Data/RiotGamesPrivateSettings.yaml"@, below: None },
        ),
        target_of("client/legacy-private.yaml"@) == Some(
            TargetModel { source: "Riot Client/Data/RiotClientPrivateSettings.yaml"@, below: None },
        ),
        target_of("client/settings.yaml"@) == Some(
            TargetModel { source: "Riot Client/Config/RiotClientSettings.yaml"@, below: None },
        ),
        target_of("league/private.yaml"@) == Some(
            TargetModel {
                source: "League of Legends/Data/RiotGamesPrivateSettings.yaml"@,
                below: None,
            },
        ),
        target_of("client/sessions"@ + "/"@ + slashed(relative)) == Some(
            TargetModel { source: "Riot Client/Data/Sessions"@, below: Some(slashed(relative)) },
        ),
        target_of("client/cookies"@ + "/"@ + slashed(relative)) == Some(
            TargetModel { source: "Riot Client/Data/Cookies"@, below: Some(slashed(relative)) },
        ),
{
    saved_file_goes_back(0);
    saved_file_goes_back(1);
    saved_file_goes_back(2);
    saved_file_goes_back(3);
    saved_directory_file_goes_back(0, relative);
    saved_directory_file_goes_back(1, relative);
}

} // verus!
