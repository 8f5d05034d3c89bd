//! The identifiers under which a miner is known to the pool.

use vstd::prelude::*;
use vstd::string::*;

use crate::clock::{current_millis, is_reading, reading_millis};
use crate::entropy::{base36_random, base36_text, is_base36, law_base36_shape, SUFFIX_LENGTH};
use crate::text::{
    decimal, decimal_text, is_white, law_decimal_injective, law_decimal_shape,
    law_trimmed_is_the_core, optional_text, trim, trim_end, trim_start, trimmed,
};

verus! {

/// The identifiers of a miner.
///
/// There is one copy of them, which passes from session to session: whoever reads them sees what
/// the pool assigned last.
#[derive(Debug)]
pub struct MinerIds {
    /// Made anew in each run.
    pub session_id: String,
    /// Kept in a file across runs.
    pub device_id: String,
    /// Assigned by the pool; nothing until then.
    pub miner_id: Option<String>,
    /// The pool's current job; empty until the first one.
    pub job_id: String,
}

/// What the identifiers of a miner are.
#[verifier::ext_equal]
pub struct MinerIdsView {
    pub session_id: Seq<char>,
    pub device_id: Seq<char>,
    pub miner_id: Option<Seq<char>>,
    pub job_id: Seq<char>,
}

/// What came of reading the file that keeps the device id.
pub enum DeviceFile {
    /// The file's contents.
    Contents(String),
    /// There is no such file.
    NotFound,
    /// The file cannot be read.
    Unreadable,
}

/// Where the device id of a run comes from.
pub enum DeviceChoice {
    /// The file holds it.
    Keep(String),
    /// It is to be made and written to the file, whose directory may have to be made first.
    Create { make_directory: bool },
    /// It cannot be told.
    Fail,
}

/// The identifiers of a run, and whether the device id is still to be written to its file.
pub struct Loaded {
    pub ids: MinerIds,
    /// Set where the device id is new; it says whether the file's directory may be missing.
    pub save: Option<bool>,
}

/// An identifier: a prefix, a time and a suffix, joined by underscores.
pub open spec fn stamped_id(prefix: Seq<char>, millis: nat, suffix: Seq<char>) -> Seq<char> {
    prefix + seq!['_'] + decimal(millis) + seq!['_'] + suffix
}

/// Whether `id` is a new identifier with the given prefix: stamped with the milliseconds of a
/// reading of the clock, and with 13 base-36 digits of entropy behind them.
pub open spec fn is_new_id(prefix: Seq<char>, id: Seq<char>) -> bool {
    exists|reading: Option<(u64, u32)>, words: Seq<u32>|
        is_reading(reading) && words.len() == SUFFIX_LENGTH && id == #[trigger] stamped_id(
            prefix,
            reading_millis(reading),
            base36_text(words),
        )
}

/// The device id that a file's contents hold, if they hold one.
pub open spec fn kept_id(contents: Seq<char>) -> Option<Seq<char>> {
    if trimmed(contents).len() > 0 {
        Some(trimmed(contents))
    } else {
        None
    }
}

impl View for MinerIds {
    type V = MinerIdsView;

    open spec fn view(&self) -> MinerIdsView {
        MinerIdsView {
            session_id: self.session_id@,
            device_id: self.device_id@,
            miner_id: optional_text(self.miner_id),
            job_id: self.job_id@,
        }
    }
}

/// Joins the parts of an identifier.
pub fn join_id(prefix: &str, millis: u128, suffix: &str) -> (id: String)
    ensures
        id@ == stamped_id(prefix@, millis as nat, suffix@),
{
    let mut id = prefix.to_owned();
    id.push('_');
    id.append(decimal_text(millis).as_str());
    id.push('_');
    id.append(suffix);
    id
}

/// Makes an identifier with the given prefix, from the clock and from entropy.
fn new_id(prefix: &str) -> (id: String)
    ensures
        is_new_id(prefix@, id@),
{
    let millis: u128 = current_millis();
    let suffix = base36_random(SUFFIX_LENGTH);
    join_id(prefix, millis, suffix.as_str())
}

/// Makes a device id.
pub fn new_device_id() -> (id: String)
    ensures
        is_new_id("device"@, id@),
{
    new_id("device")
}

/// Makes a session id.
pub fn new_session_id() -> (id: String)
    ensures
        is_new_id("session"@, id@),
{
    new_id("session")
}

/// Decides where the device id comes from.
pub fn choose_device(file: &DeviceFile) -> (choice: DeviceChoice)
    ensures
        match file {
            DeviceFile::Contents(contents) => match kept_id(contents@) {
                Some(id) => choice matches DeviceChoice::Keep(kept) && kept@ == id,
                None => choice == (DeviceChoice::Create { make_directory: false }),
            },
            DeviceFile::NotFound => choice == (DeviceChoice::Create { make_directory: true }),
            DeviceFile::Unreadable => choice == DeviceChoice::Fail,
        },
{
    match file {
        DeviceFile::Contents(contents) => {
            let id = trim(contents.as_str());
            if id.as_str().is_empty() {
                DeviceChoice::Create { make_directory: false }
            } else {
                DeviceChoice::Keep(id)
            }
        },
        DeviceFile::NotFound => DeviceChoice::Create { make_directory: true },
        DeviceFile::Unreadable => DeviceChoice::Fail,
    }
}

impl MinerIds {
    /// Sets up the identifiers of a run: a new session, and the device that `file` holds or, where
    /// it holds none, a new one. Nothing comes of a file that cannot be read.
    pub fn load(file: &DeviceFile) -> (r: Option<Loaded>)
        ensures
            r is None <==> file is Unreadable,
            r matches Some(loaded) ==> {
                &&& is_new_id("session"@, loaded.ids.session_id@)
                &&& loaded.ids.miner_id is None
                &&& loaded.ids.job_id@ == Seq::<char>::empty()
                &&& match file {
                    DeviceFile::Contents(contents) => match kept_id(contents@) {
                        Some(id) => loaded.ids.device_id@ == id && loaded.save is None,
                        None => is_new_id("device"@, loaded.ids.device_id@) && loaded.save == Some(
                            false,
                        ),
                    },
                    _ => is_new_id("device"@, loaded.ids.device_id@) && loaded.save == Some(true),
                }
            },
    {
        let session_id = new_session_id();
        let (device_id, save) = match choose_device(file) {
            DeviceChoice::Keep(id) => (id, None),
            DeviceChoice::Create { make_directory } => (new_device_id(), Some(make_directory)),
            DeviceChoice::Fail => {
                return None;
            },
        };
        let ids = MinerIds { session_id, device_id, miner_id: None, job_id: String::new() };
        Some(Loaded { ids, save })
    }

    /// The miner id that the pool assigned, if it did.
    pub fn miner_id_value(&self) -> (id: Option<String>)
        ensures
            optional_text(id) == self@.miner_id,
    {
        self.miner_id.clone()
    }

    /// The pool's current job.
    pub fn job_id_value(&self) -> (id: String)
        ensures
            id@ == self@.job_id,
    {
        self.job_id.clone()
    }
}

/// A new identifier is its prefix, a number of milliseconds that fits 128 bits, and 13 decimal
/// digits and lower-case letters, joined by underscores.
pub proof fn law_new_id_shape(prefix: Seq<char>, id: Seq<char>)
    requires
        is_new_id(prefix, id),
    ensures
        exists|millis: u128, suffix: Seq<char>|
            id == #[trigger] (prefix + seq!['_'] + decimal(millis as nat) + seq!['_'] + suffix)
                && suffix.len() == 13 && (forall|i: int|
                0 <= i < suffix.len() ==> is_base36(#[trigger] suffix[i])),
{
    let (reading, words) = choose|reading: Option<(u64, u32)>, words: Seq<u32>|
        is_reading(reading) && words.len() == SUFFIX_LENGTH && id == #[trigger] stamped_id(
            prefix,
            reading_millis(reading),
            base36_text(words),
        );
    law_base36_shape(words);
    let millis = reading_millis(reading) as u128;
    assert(id == prefix + seq!['_'] + decimal(millis as nat) + seq!['_'] + base36_text(words));
}

/// A new device id, once written to its file, is the device id of every later run.
pub proof fn law_device_id_is_kept(id: Seq<char>)
    requires
        is_new_id("device"@, id),
    ensures
        kept_id(id) == Some(id),
{
    reveal_strlit("device");
    let (reading, words) = choose|reading: Option<(u64, u32)>, words: Seq<u32>|
        is_reading(reading) && words.len() == SUFFIX_LENGTH && id == #[trigger] stamped_id(
            "device"@,
            reading_millis(reading),
            base36_text(words),
        );
    law_base36_shape(words);
    assert(id.first() == 'd');
    assert(id.last() == base36_text(words).last());
    assert(is_base36(base36_text(words)[words.len() - 1]));
    assert(trim_start(id) == id);
    assert(trim_end(id) == id);
}

/// An identifier determines the time and the suffix that it was made of.
pub proof fn law_id_is_unambiguous(
    prefix: Seq<char>,
    millis1: nat,
    words1: Seq<u32>,
    millis2: nat,
    words2: Seq<u32>,
)
    requires
        stamped_id(prefix, millis1, base36_text(words1)) == stamped_id(
            prefix,
            millis2,
            base36_text(words2),
        ),
    ensures
        millis1 == millis2,
        base36_text(words1) == base36_text(words2),
{
    let (d1, s1) = (decimal(millis1), base36_text(words1));
    let (d2, s2) = (decimal(millis2), base36_text(words2));
    let id1 = stamped_id(prefix, millis1, s1);
    let id2 = stamped_id(prefix, millis2, s2);
    let start = prefix.len() as int + 1;
    law_decimal_shape(millis1);
    law_decimal_shape(millis2);
    assert forall|i: int| 0 <= i < d1.len() implies id1[start + i] == d1[i] by {}
    assert forall|i: int| 0 <= i < d2.len() implies id2[start + i] == d2[i] by {}
    assert(id1[start + d1.len()] == '_');
    assert(id2[start + d2.len()] == '_');
    if d1.len() < d2.len() {
        assert(id2[start + d1.len()] == d2[d1.len() as int]);
    }
    if d2.len() < d1.len() {
        assert(id1[start + d2.len()] == d1[d2.len() as int]);
    }
    assert(d1 == d2) by {
        assert forall|i: int| 0 <= i < d1.len() implies d1[i] == d2[i] by {
            assert(id1[start + i] == id2[start + i]);
        }
    }
    law_decimal_injective(millis1, millis2);
    assert(s1 == id1.skip(start + d1.len() + 1));
    assert(s2 == id2.skip(start + d2.len() + 1));
}

/// An identifier is its prefix, its time and its suffix, with an underscore between each two.
pub proof fn law_id_is_joined(prefix: Seq<char>, millis: nat, suffix: Seq<char>)
    ensures
        stamped_id(prefix, millis, suffix) == prefix + seq!['_'] + decimal(millis) + seq!['_']
            + suffix,
{
}

/// A file keeps a device id unless it holds nothing but white space. The id is all that the file
/// holds between its leading and its trailing white space.
pub proof fn law_device_file(contents: Seq<char>)
    ensures
        kept_id(contents) is None <==> forall|k: int|
            0 <= k < contents.len() ==> is_white(#[trigger] contents[k]),
        kept_id(contents) matches Some(id) ==> exists|from: int, to: int|
            0 <= from < to <= contents.len() && id == #[trigger] contents.subrange(from, to)
                && !is_white(contents[from]) && !is_white(contents[to - 1]) && (forall|k: int|
                0 <= k < from || to <= k < contents.len() ==> is_white(#[trigger] contents[k])),
{
    law_trimmed_is_the_core(contents);
    let (from, to) = choose|from: int, to: int|
        0 <= from <= to <= contents.len() && trimmed(contents) == #[trigger] contents.subrange(
            from,
            to,
        ) && (forall|k: int|
            0 <= k < from || to <= k < contents.len() ==> is_white(#[trigger] contents[k])) && (from
            < to ==> !is_white(contents[from]) && !is_white(contents[to - 1]));
    if trimmed(contents).len() == 0 {
        assert(from == to);
    } else {
        assert(!is_white(contents[from]));
    }
}

/// The identifiers of a miner are the texts of its fields.
pub proof fn law_ids_are_their_texts(ids: MinerIds)
    ensures
        ids@.session_id == ids.session_id@,
        ids@.device_id == ids.device_id@,
        ids@.job_id == ids.job_id@,
        ids@.miner_id is Some <==> ids.miner_id is Some,
        ids.miner_id matches Some(id) ==> ids@.miner_id == Some(id@),
{
}

} // verus!
