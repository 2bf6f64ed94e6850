//! Saved sessions as bytes, written and read by `bincode`.

use vstd::prelude::*;

use crate::text::{byte_len, utf8_len};
use crate::vault::files::{entry_models, Entry, EntryModel, Snapshot, MAX_SNAPSHOT_BYTES};

verus! {

/// Named files with their bytes.
pub open spec fn pairs(parts: Seq<(&str, &[u8])>) -> Seq<(Seq<char>, Seq<u8>)> {
    parts.map_values(|p: (&str, &[u8])| (p.0@, p.1@))
}

/// Named files with their bytes, as they were read.
pub open spec fn owned_pairs(parts: Seq<(String, Vec<u8>)>) -> Seq<(Seq<char>, Seq<u8>)> {
    parts.map_values(|p: (String, Vec<u8>)| (p.0@, p.1@))
}

/// The entries of a session as named files.
pub open spec fn named_files(entries: Seq<EntryModel>) -> Seq<(Seq<char>, Seq<u8>)> {
    entries.map_values(|e: EntryModel| (e.relative, e.bytes))
}

/// How many bytes a session takes: a length, and for each file two lengths, its name and its
/// bytes.
pub open spec fn session_len(files: Seq<(Seq<char>, Seq<u8>)>) -> nat
    decreases files.len(),
{
    if files.len() == 0 {
        8
    } else {
        session_len(files.drop_last()) + 16 + utf8_len(files.last().0) + files.last().1.len()
    }
}

/// A session as bytes.
pub uninterp spec fn session_bytes(files: Seq<(Seq<char>, Seq<u8>)>) -> Seq<u8>;

/// The session that bytes hold, or what is wrong with them. On a machine whose `usize` has fewer
/// bits a length can be refused with other words.
pub uninterp spec fn session_read(bytes: Seq<u8>, usize_bits: u32) -> Result<
    Seq<(Seq<char>, Seq<u8>)>,
    Seq<char>,
>;

/// What a read gave: the named files, or what is wrong.
pub open spec fn files_in(result: Result<Vec<(String, Vec<u8>)>, String>) -> Result<
    Seq<(Seq<char>, Seq<u8>)>,
    Seq<char>,
> {
    match result {
        Ok(parts) => Ok(owned_pairs(parts@)),
        Err(reason) => Err(reason@),
    }
}

/// A read that gives these files.
pub open spec fn given(files: Seq<(Seq<char>, Seq<u8>)>) -> Result<
    Seq<(Seq<char>, Seq<u8>)>,
    Seq<char>,
> {
    Ok(files)
}

/// What the named files of a read make of it: the session, or a refusal that says what is wrong.
pub open spec fn session_in(read: Result<Seq<(Seq<char>, Seq<u8>)>, Seq<char>>) -> Result<
    Seq<(Seq<char>, Seq<u8>)>,
    Seq<char>,
> {
    match read {
        Ok(files) => Ok(files),
        Err(reason) => Err("Saved account is invalid: "@ + reason),
    }
}

/// The files of a session that was read, or the refusal.
pub open spec fn snapshot_in(result: Result<Snapshot, String>) -> Result<
    Seq<(Seq<char>, Seq<u8>)>,
    Seq<char>,
> {
    match result {
        Ok(snapshot) => Ok(named_files(snapshot@)),
        Err(message) => Err(message@),
    }
}

/// `bincode::serialize` of a list of named files. The bytes are named; their number is that of
/// the fixed-size encoding, in which each length takes eight bytes. Nothing in such a list can
/// make the crate refuse it. One that takes more than an allocation can hold makes it panic and
/// is left out.
#[verifier::external_body]
fn serialize(parts: &Vec<(&str, &[u8])>) -> (result: Result<Vec<u8>, String>)
    requires
        session_len(pairs(parts@)) <= isize::MAX,
    ensures
        match result {
            Ok(bytes) => {
                &&& bytes@ == session_bytes(pairs(parts@))
                &&& bytes@.len() == session_len(pairs(parts@))
            },
            Err(_) => false,
        },
{
    bincode::serialize(parts).map_err(|e| e.to_string())
}

/// `bincode::deserialize` into a list of named files. What comes out is named, and so is what an
/// error says, which beside the bytes depends on nothing but how large a length the machine can
/// hold. Bytes that a list was serialized to by [`serialize`] give the list back.
#[verifier::external_body]
fn deserialize(bytes: &[u8]) -> (result: Result<Vec<(String, Vec<u8>)>, String>)
    ensures
        files_in(result) == session_read(bytes@, usize::BITS),
        forall|files: Seq<(Seq<char>, Seq<u8>)>|
            session_len(files) <= isize::MAX && bytes@ == #[trigger] session_bytes(files)
                ==> files_in(result) == given(files),
{
    bincode::deserialize(bytes).map_err(|e| e.to_string())
}

proof fn lemma_session_len(files: Seq<(Seq<char>, Seq<u8>)>, n: int)
    requires
        0 <= n <= files.len(),
    ensures
        session_len(files.take(n)) <= session_len(files),
    decreases files.len() - n,
{
    if n < files.len() {
        assert(files.take(n + 1).drop_last() =~= files.take(n));
        lemma_session_len(files, n + 1);
    } else {
        assert(files.take(n) =~= files);
    }
}

/// The bytes of a session that is to be saved; one that is too large is refused.
pub fn save_snapshot(snapshot: &Snapshot) -> (result: Result<Vec<u8>, String>)
    ensures
        match result {
            Ok(bytes) => {
                &&& bytes@ == session_bytes(named_files(snapshot@))
                &&& session_len(named_files(snapshot@)) <= MAX_SNAPSHOT_BYTES
            },
            Err(message) => {
                &&& session_len(named_files(snapshot@)) > MAX_SNAPSHOT_BYTES
                &&& message@ == "Riot session is too large to save safely"@
            },
        },
{
    let ghost all = named_files(snapshot@);
    let mut parts: Vec<(&str, &[u8])> = Vec::new();
    let mut total: u128 = 8;
    let mut i: usize = 0;
    assert(pairs(parts@) =~= all.take(0));
    while i < snapshot.entries.len()
        invariant
            i <= snapshot.entries@.len(),
            all == named_files(snapshot@),
            pairs(parts@) == all.take(i as int),
            total == session_len(all.take(i as int)),
            total <= MAX_SNAPSHOT_BYTES,
        decreases snapshot.entries@.len() - i,
    {
        let entry = &snapshot.entries[i];
        let ghost before = pairs(parts@);
        assert(all[i as int] == (entry.relative@, entry.bytes@));
        parts.push((entry.relative.as_str(), entry.bytes.as_slice()));
        assert(pairs(parts@) =~= before.push(all[i as int]));
        assert(all.take(i + 1) =~= all.take(i as int).push(all[i as int]));
        assert(all.take(i + 1).drop_last() =~= all.take(i as int));
        total = total + 16 + byte_len(entry.relative.as_str()) as u128 + entry.bytes.len() as u128;
        i = i + 1;
        if total > MAX_SNAPSHOT_BYTES as u128 {
            proof {
                lemma_session_len(all, i as int);
            }
            return Err("Riot session is too large to save safely".to_owned());
        }
    }
    assert(all.take(i as int) =~= all);
    serialize(&parts)
}

/// The session that bytes hold. Bytes that [`save_snapshot`] gave hold the session that it was
/// given.
pub fn read_snapshot(bytes: &[u8]) -> (result: Result<Snapshot, String>)
    ensures
        snapshot_in(result) == session_in(session_read(bytes@, usize::BITS)),
        forall|saved: Snapshot|
            session_len(named_files(saved@)) <= MAX_SNAPSHOT_BYTES && bytes@
                == #[trigger] session_bytes(named_files(saved@)) ==> (result matches Ok(snapshot)
                && snapshot@ == saved@),
{
    let read = deserialize(bytes);
    let ghost shown = files_in(read);
    let result = snapshot_from(read);
    proof {
        assert forall|saved: Snapshot|
            session_len(named_files(saved@)) <= MAX_SNAPSHOT_BYTES && bytes@
                == #[trigger] session_bytes(named_files(saved@)) implies (result matches Ok(
            snapshot,
        ) && snapshot@ == saved@) by {
            let files = named_files(saved@);
            assert(shown == given(files));
            let snapshot = result->Ok_0;
            assert forall|i: int| 0 <= i < saved@.len() implies snapshot@[i] == saved@[i] by {
                assert(named_files(snapshot@)[i] == files[i]);
            }
            assert(named_files(snapshot@).len() == snapshot@.len());
            assert(snapshot@ =~= saved@);
        }
    }
    result
}

/// The session of the named files that a read gave, or the refusal.
pub fn snapshot_from(read: Result<Vec<(String, Vec<u8>)>, String>) -> (result: Result<
    Snapshot,
    String,
>)
    ensures
        snapshot_in(result) == session_in(files_in(read)),
{
    match read {
        Ok(parts) => Ok(unpack(parts)),
        Err(reason) => {
            let mut message = "Saved account is invalid: ".to_owned();
            message.append(reason.as_str());
            Err(message)
        },
    }
}

fn unpack(parts: Vec<(String, Vec<u8>)>) -> (snapshot: Snapshot)
    ensures
        named_files(snapshot@) == owned_pairs(parts@),
{
    let ghost all = owned_pairs(parts@);
    let mut parts = parts;
    let mut entries: Vec<Entry> = Vec::new();
    assert(named_files(entry_models(entries@)) =~= all.skip(all.len() as int));
    while parts.len() > 0
        invariant
            owned_pairs(parts@) == all.take(parts@.len() as int),
            parts@.len() <= all.len(),
            named_files(entry_models(entries@)) == all.skip(parts@.len() as int),
        decreases parts@.len(),
    {
        let ghost before = parts@;
        let ghost later = entries@;
        if let Some((relative, bytes)) = parts.pop() {
            proof {
                let n = before.len() as int;
                assert(owned_pairs(before)[n - 1] == (relative@, bytes@));
                assert(all[n - 1] == all.take(n)[n - 1]);
                assert(owned_pairs(parts@) =~= all.take(n - 1)) by {
                    assert forall|i: int| 0 <= i < n - 1 implies owned_pairs(parts@)[i]
                        == all.take(n - 1)[i] by {
                        assert(owned_pairs(before)[i] == all.take(n)[i]);
                    }
                }
            }
            let entry = Entry { relative, bytes };
            let ghost first = entry@;
            entries.insert(0, entry);
            proof {
                let n = before.len() as int;
                assert(entries@ =~= later.insert(0, entry));
                assert((first.relative, first.bytes) == all[n - 1]);
                assert(named_files(entry_models(later)).len() == later.len());
                let shown = named_files(entry_models(entries@));
                assert(shown =~= all.skip(n - 1)) by {
                    assert forall|i: int| 0 <= i < shown.len() implies shown[i] == all.skip(
                        n - 1,
                    )[i] by {
                        if i > 0 {
                            assert(entries@[i] == later[i - 1]);
                            assert(named_files(entry_models(later))[i - 1] == all.skip(n)[i - 1]);
                        } else {
                            assert(entries@[0] == entry);
                        }
                    }
                }
            }
        }
    }
    assert(all.skip(0) =~= all);
    Snapshot { entries }
}

/// A session that was read holds the files that were read, and one that could not be read is refused
/// with the reason.
pub proof fn read_session_holds_its_files(files: Seq<(Seq<char>, Seq<u8>)>, reason: Seq<char>)
    ensures
        session_in(given(files)) == Ok::<Seq<(Seq<char>, Seq<u8>)>, Seq<char>>(files),
        session_in(Err(reason)) == Err::<Seq<(Seq<char>, Seq<u8>)>, Seq<char>>(
            "Saved account is invalid: "@ + reason,
        ),
{
}

} // verus!
