//! Durable compressed trajectories of recorded sessions.
//!
//! A trajectory is a stream of observations, one to a line, kept as a compressed file with a
//! record of it in an index. Reading and writing files is left to the caller; what is in them,
//! and whether it is what the record says, is decided here.

use sha2::{Digest, Sha256};
use vstd::prelude::*;
use vstd::string::*;
use crate::clock;
use crate::text;

verus! {

/// The layout of index records.
pub const TRAJECTORY_SCHEMA_VERSION: u32 = 1;

/// How hard trajectories are compressed.
pub const COMPRESSION_LEVEL: i32 = 3;

/// What is known of a session apart from its stream.
#[derive(Clone, Debug)]
pub struct TrajectoryMetadata {
    pub session_id: String,
    pub market_slot: String,
    pub entry_time_ms: i64,
    pub slug: String,
    pub signal_ids: Vec<String>,
    pub completion_status: String,
    pub gap_count: u64,
}

/// A moment in UTC: seconds since the Unix epoch, and nanoseconds past them.
#[derive(Clone, Copy, Debug, PartialEq, Eq, Structural)]
pub struct Moment {
    pub seconds: i64,
    pub nanos: u32,
}

/// What the index holds of a trajectory.
#[derive(Clone, Debug, PartialEq, Eq)]
pub struct TrajectoryIndexRecord {
    pub schema_version: u32,
    pub session_id: String,
    pub market_slot: String,
    pub entry_time_ms: i64,
    pub slug: String,
    pub signal_ids: Vec<String>,
    pub completion_status: String,
    pub gap_count: u64,
    pub path: String,
    pub sha256: String,
    pub observation_count: u64,
    pub uncompressed_bytes: u64,
    pub compressed_bytes: u64,
    pub finalized_at: Moment,
}

/// What a trajectory was found to hold.
#[derive(Clone, Copy, Debug, PartialEq, Eq, Structural)]
pub struct TrajectoryVerification {
    pub observation_count: u64,
    pub uncompressed_bytes: u64,
    pub compressed_bytes: u64,
}

/// What can be wrong with a trajectory.
#[derive(Clone, Copy, Debug, PartialEq, Eq, Structural)]
pub enum Fault {
    /// The stream to keep holds no observation.
    EmptySource,
    /// The trajectory holds no observation.
    EmptyTrajectory,
    /// The compressed stream does not hold as many observations as the stream to keep.
    SealBroken { source: u64, compressed: u64 },
    /// The file has not the size that the index says.
    SizeMismatch { index: u64, disk: u64 },
    /// The file has not the checksum that the index says.
    ChecksumMismatch,
    /// The stream has not as many observations as the index says.
    CountMismatch { index: u64, stream: u64 },
    /// The stream is not as long as the index says.
    LengthMismatch { index: u64, stream: u64 },
}

/// Why a trajectory was refused: something is wrong with it, or the codec gave up.
#[derive(Debug)]
pub enum TrajectoryError {
    Fault(Fault),
    Codec(std::io::Error),
}

/// An error of input or output, as the codec reports them.
#[verifier::external_type_specification]
#[verifier::external_body]
pub struct ExIoError(std::io::Error);

/// Whether a byte is more than ASCII white space.
pub open spec fn visible(byte: u8) -> bool {
    byte != 0x20 && byte != 0x09 && byte != 0x0A && byte != 0x0C && byte != 0x0D
}

/// The lines of a stream, each with the line feed that ends it.
pub open spec fn lines_of(bytes: Seq<u8>) -> Seq<Seq<u8>>
    decreases bytes.len(),
{
    if bytes.len() == 0 {
        Seq::empty()
    } else {
        let before = bytes.drop_last();
        let lines = lines_of(before);
        if before.len() == 0 || before.last() == 0x0A {
            lines.push(seq![bytes.last()])
        } else {
            lines.drop_last().push(lines.last().push(bytes.last()))
        }
    }
}

/// Whether a line holds an observation: anything visible.
pub open spec fn has_content(line: Seq<u8>) -> bool {
    exists|i: int| 0 <= i < line.len() && visible(#[trigger] line[i])
}

/// How many of some lines hold an observation.
pub open spec fn contentful(lines: Seq<Seq<u8>>) -> nat
    decreases lines.len(),
{
    if lines.len() == 0 {
        0
    } else {
        contentful(lines.drop_last()) + (if has_content(lines.last()) {
            1nat
        } else {
            0
        })
    }
}

/// How many observations a stream holds.
pub open spec fn observations_of(bytes: Seq<u8>) -> nat {
    contentful(lines_of(bytes))
}

/// One more byte of a stream.
proof fn lemma_one_more_byte(bytes: Seq<u8>, byte: u8)
    ensures
        lines_of(bytes.push(byte)).len() > 0,
        bytes.len() == 0 || bytes.last() == 0x0A ==> observations_of(bytes.push(byte))
            == observations_of(bytes) + (if visible(byte) {
            1nat
        } else {
            0
        }) && has_content(lines_of(bytes.push(byte)).last()) == visible(byte),
        bytes.len() > 0 && bytes.last() != 0x0A ==> {
            let seen = has_content(lines_of(bytes).last());
            &&& observations_of(bytes.push(byte)) == observations_of(bytes) + (if !seen && visible(
                byte,
            ) {
                1nat
            } else {
                0
            })
            &&& has_content(lines_of(bytes.push(byte)).last()) == (seen || visible(byte))
        },
{
    let longer = bytes.push(byte);
    assert(longer.drop_last() =~= bytes);
    let lines = lines_of(bytes);
    if bytes.len() == 0 || bytes.last() == 0x0A {
        let line = seq![byte];
        assert(lines_of(longer).drop_last() =~= lines);
        if visible(byte) {
            assert(visible(line[0]));
        }
    } else {
        lemma_some_line(bytes);
        let line = lines.last().push(byte);
        assert(lines_of(longer).drop_last() =~= lines.drop_last());
        if has_content(lines.last()) {
            let before = lines.last();
            let i = choose|i: int| 0 <= i < before.len() && visible(#[trigger] before[i]);
            assert(visible(line[i]));
        }
        if visible(byte) {
            assert(visible(line[line.len() - 1]));
        }
        if has_content(line) {
            let i = choose|i: int| 0 <= i < line.len() && visible(#[trigger] line[i]);
            if i < lines.last().len() {
                assert(visible(lines.last()[i]));
            }
        }
    }
}

proof fn lemma_some_line(bytes: Seq<u8>)
    requires
        bytes.len() > 0,
    ensures
        lines_of(bytes).len() > 0,
{
}

/// Counts the observations of a stream and its bytes.
pub fn inspect_uncompressed(bytes: &Vec<u8>) -> (r: (u64, u64))
    ensures
        r.0 == observations_of(bytes@),
        r.1 == bytes@.len(),
{
    let mut count: u64 = 0;
    let mut seen: bool = false;
    let mut i: usize = 0;
    assert(bytes@.take(0) =~= Seq::<u8>::empty());
    while i < bytes.len()
        invariant
            i <= bytes@.len(),
            count <= i,
            count == observations_of(bytes@.take(i as int)),
            i == 0 || bytes@[i - 1] == 0x0A ==> !seen,
            i > 0 && bytes@[i - 1] != 0x0A ==> seen == has_content(
                lines_of(bytes@.take(i as int)).last(),
            ),
        decreases bytes@.len() - i,
    {
        let byte: u8 = bytes[i];
        proof {
            lemma_one_more_byte(bytes@.take(i as int), byte);
            assert(bytes@.take(i as int).push(byte) =~= bytes@.take(i + 1));
            if i > 0 {
                assert(bytes@.take(i as int).last() == bytes@[i - 1]);
            }
        }
        let shows: bool = byte != 0x20 && byte != 0x09 && byte != 0x0A && byte != 0x0C && byte
            != 0x0D;
        if shows && !seen {
            count = count + 1;
        }
        seen = byte != 0x0A && (seen || shows);
        i = i + 1;
    }
    assert(bytes@.take(i as int) =~= bytes@);
    (count, bytes.len() as u64)
}

/// Counts the observations of a stream.
pub fn count_non_empty_lines(bytes: &Vec<u8>) -> (r: u64)
    ensures
        r == observations_of(bytes@),
{
    inspect_uncompressed(bytes).0
}

/// Whether a file name tells that the file is compressed.
pub open spec fn names_zst(name: Seq<char>) -> bool {
    exists|i: int| 0 <= i <= name.len() - 4 && #[trigger] name.subrange(i, i + 4) == ".zst"@
}

/// Whether a file name tells that the file is compressed.
pub fn is_compressed(name: &str) -> (r: bool)
    ensures
        r == names_zst(name@),
{
    let len: usize = name.unicode_len();
    proof {
        reveal_strlit(".zst");
    }
    if len < 4 {
        return false;
    }
    let mut i: usize = 0;
    while i <= len - 4
        invariant
            4 <= len,
            len == name@.len(),
            i <= len - 3,
            ".zst"@ =~= seq!['.', 'z', 's', 't'],
            forall|j: int| 0 <= j < i ==> #[trigger] name@.subrange(j, j + 4) != ".zst"@,
        decreases len - i,
    {
        let ghost here = name@.subrange(i as int, i + 4);
        if name.get_char(i) == '.' && name.get_char(i + 1) == 'z' && name.get_char(i + 2) == 's'
            && name.get_char(i + 3) == 't' {
            assert(here =~= ".zst"@);
            return true;
        }
        assert(here != ".zst"@) by {
            assert(here[0] == name@[i as int] && here[1] == name@[i + 1] && here[2] == name@[i + 2]
                && here[3] == name@[i + 3]);
            if here == ".zst"@ {
                assert(here[0] == '.' && here[1] == 'z' && here[2] == 's' && here[3] == 't');
            }
        }
        i = i + 1;
    }
    false
}

/// What `zstd::stream::decode_all` makes of a compressed stream; `None` where it fails.
pub uninterp spec fn decoded_of(packed: Seq<u8>) -> Option<Seq<u8>>;

/// What `zstd::stream::encode_all` makes of a stream at a level; `None` where it fails.
pub uninterp spec fn encoded_of(bytes: Seq<u8>, level: int) -> Option<Seq<u8>>;

/// Calls `zstd::stream::encode_all` at a level. Whether it succeeds, and what it returns then,
/// depends on the bytes and the level alone, memory permitting; and decoding what it returns gives
/// back what was handed in.
#[verifier::external_body]
fn encode(bytes: &Vec<u8>, level: i32) -> (r: Result<Vec<u8>, std::io::Error>)
    ensures
        match r {
            Ok(packed) => encoded_of(bytes@, level as int) == Some(packed@) && decoded_of(packed@)
                == Some(bytes@),
            Err(_) => encoded_of(bytes@, level as int) is None,
        },
{
    zstd::stream::encode_all(bytes.as_slice(), level)
}

/// Calls `zstd::stream::decode_all`. Whether it succeeds, and what it returns then, depends on the
/// bytes alone, memory permitting.
#[verifier::external_body]
fn decode(bytes: &Vec<u8>) -> (r: Result<Vec<u8>, std::io::Error>)
    ensures
        match r {
            Ok(plain) => decoded_of(bytes@) == Some(plain@),
            Err(_) => decoded_of(bytes@) is None,
        },
{
    zstd::stream::decode_all(bytes.as_slice())
}

/// What `sha2::Sha256` makes of some bytes.
pub uninterp spec fn sha256_of(bytes: Seq<u8>) -> Seq<u8>;

/// Calls `sha2::Digest::digest` of `sha2::Sha256`: 32 bytes that depend on the bytes alone.
#[verifier::external_body]
fn sha256(bytes: &Vec<u8>) -> (r: Vec<u8>)
    ensures
        r@ == sha256_of(bytes@),
        r@.len() == 32,
{
    Sha256::digest(bytes).to_vec()
}

/// The character of a hexadecimal digit.
pub open spec fn hex_char(d: int) -> char {
    if d < 10 {
        (48 + d) as char
    } else {
        (87 + d) as char
    }
}

/// Bytes as pairs of lowercase hexadecimal digits.
pub open spec fn hex_of(bytes: Seq<u8>) -> Seq<char>
    decreases bytes.len(),
{
    if bytes.len() == 0 {
        Seq::empty()
    } else {
        hex_of(bytes.drop_last()).push(hex_char(bytes.last() as int / 16)).push(
            hex_char(bytes.last() as int % 16),
        )
    }
}

fn append_hex_digit(text: &mut String, d: u8)
    requires
        d < 16,
    ensures
        final(text)@ == old(text)@.push(hex_char(d as int)),
{
    if d < 10 {
        text::append_number(text, d as u128);
        assert(text@ =~= old(text)@.push(hex_char(d as int)));
    } else {
        proof {
            reveal_strlit("a");
            reveal_strlit("b");
            reveal_strlit("c");
            reveal_strlit("d");
            reveal_strlit("e");
            reveal_strlit("f");
        }
        let one: &str = if d == 10 {
            "a"
        } else if d == 11 {
            "b"
        } else if d == 12 {
            "c"
        } else if d == 13 {
            "d"
        } else if d == 14 {
            "e"
        } else {
            "f"
        };
        assert(one@ =~= seq![hex_char(d as int)]);
        text.append(one);
        assert(text@ =~= old(text)@.push(hex_char(d as int)));
    }
}

/// Bytes as pairs of lowercase hexadecimal digits.
pub fn hex(bytes: &Vec<u8>) -> (r: String)
    ensures
        r@ == hex_of(bytes@),
{
    let mut r: String = String::new();
    let mut i: usize = 0;
    while i < bytes.len()
        invariant
            i <= bytes@.len(),
            r@ == hex_of(bytes@.take(i as int)),
        decreases bytes@.len() - i,
    {
        append_hex_digit(&mut r, bytes[i] / 16);
        append_hex_digit(&mut r, bytes[i] % 16);
        i = i + 1;
        assert(bytes@.take(i as int).drop_last() =~= bytes@.take(i - 1));
    }
    assert(bytes@.take(i as int) =~= bytes@);
    r
}

/// The checksum of a file, as text.
pub fn sha256_file(bytes: &Vec<u8>) -> (r: String)
    ensures
        r@ == hex_of(sha256_of(bytes@)),
{
    hex(&sha256(bytes))
}

/// Where a trajectory is kept, below the root of all of them.
#[derive(Debug)]
pub struct TrajectoryPath {
    pub directory: String,
    pub date: String,
    pub file: String,
}

/// Whether a trajectory of a session that began on the day of a moment is kept there.
pub open spec fn keeps(path: TrajectoryPath, ms: i64, session_id: Seq<char>) -> bool {
    &&& path.directory@ == "trajectories"@
    &&& clock::dates(ms, path.date@)
    &&& path.file@ == session_id + ".jsonl.zst"@
}

fn path_with(date: String, session_id: &str) -> (r: TrajectoryPath)
    ensures
        r.directory@ == "trajectories"@,
        r.date == date,
        r.file@ == session_id@ + ".jsonl.zst"@,
{
    let mut file: String = String::from_str(session_id);
    file.append(".jsonl.zst");
    TrajectoryPath { directory: String::from_str("trajectories"), date, file }
}

/// Where the trajectory of a session is kept: under the day of its entry, or under that of
/// `fallback_ms` where the calendar does not cover the entry.
pub fn trajectory_path_or(entry_time_ms: i64, fallback_ms: i64, session_id: &str) -> (r: Option<
    TrajectoryPath,
>)
    ensures
        r is Some <==> clock::covered(entry_time_ms) || clock::covered(fallback_ms),
        r matches Some(path) ==> keeps(
            path,
            if clock::covered(entry_time_ms) {
                entry_time_ms
            } else {
                fallback_ms
            },
            session_id@,
        ),
{
    match clock::date(entry_time_ms) {
        Some(date) => Some(path_with(date, session_id)),
        None => match clock::date(fallback_ms) {
            Some(date) => Some(path_with(date, session_id)),
            None => None,
        },
    }
}

/// Where the trajectory of a session is kept: under the day of its entry, or under today where
/// the calendar does not cover the entry.
pub fn trajectory_path(entry_time_ms: i64, session_id: &str) -> (r: TrajectoryPath)
    ensures
        clock::covered(entry_time_ms) ==> keeps(r, entry_time_ms, session_id@),
        exists|ms: i64| clock::covered(ms) && #[trigger] keeps(r, ms, session_id@),
{
    match clock::date(entry_time_ms) {
        Some(date) => {
            let path: TrajectoryPath = path_with(date, session_id);
            assert(keeps(path, entry_time_ms, session_id@));
            path
        },
        None => {
            let now: i64 = clock::now_ms();
            let path: TrajectoryPath = trajectory_path_or(entry_time_ms, now, session_id).unwrap();
            assert(keeps(path, now, session_id@));
            path
        },
    }
}

/// The name under which a file is written before it takes its own.
pub fn temporary_path(path: &str) -> (r: String)
    ensures
        r@ == path@ + ".tmp"@,
{
    let mut r: String = String::from_str(path);
    r.append(".tmp");
    r
}

/// The name of every trajectory tells that the file is compressed, and so does the name under which
/// it is written before.
pub proof fn law_trajectories_are_compressed(path: TrajectoryPath, ms: i64, session_id: Seq<char>)
    requires
        keeps(path, ms, session_id),
    ensures
        names_zst(path.file@),
        names_zst(path.file@ + ".tmp"@),
{
    reveal_strlit(".jsonl.zst");
    reveal_strlit(".zst");
    let i = (session_id.len() + 6) as int;
    assert(path.file@.subrange(i, i + 4) =~= ".zst"@);
    law_temporary_names_tell_the_same(path.file@);
}

/// A name that tells that a file is compressed tells it with the temporary ending too.
pub proof fn law_temporary_names_tell_the_same(name: Seq<char>)
    requires
        names_zst(name),
    ensures
        names_zst(name + ".tmp"@),
{
    let i = choose|i: int|
        0 <= i <= name.len() - 4 && #[trigger] name.subrange(i, i + 4) == ".zst"@;
    assert((name + ".tmp"@).subrange(i, i + 4) =~= name.subrange(i, i + 4));
}

/// The stream in a file; `None` where the name tells that it is compressed and it does not decode.
pub open spec fn stream_of(name: Seq<char>, bytes: Seq<u8>) -> Option<Seq<u8>> {
    if names_zst(name) {
        decoded_of(bytes)
    } else {
        Some(bytes)
    }
}

/// The stream in a file, decompressed where the name tells that it is compressed.
pub fn open_trajectory_reader(name: &str, bytes: &Vec<u8>) -> (r: Result<Vec<u8>, std::io::Error>)
    ensures
        match r {
            Ok(stream) => stream_of(name@, bytes@) == Some(stream@),
            Err(_) => stream_of(name@, bytes@) is None,
        },
{
    if is_compressed(name) {
        decode(bytes)
    } else {
        let mut copy: Vec<u8> = Vec::new();
        let mut i: usize = 0;
        while i < bytes.len()
            invariant
                i <= bytes@.len(),
                copy@ == bytes@.take(i as int),
            decreases bytes@.len() - i,
        {
            copy.push(bytes[i]);
            i = i + 1;
            assert(copy@ =~= bytes@.take(i as int));
        }
        assert(bytes@.take(i as int) =~= bytes@);
        Ok(copy)
    }
}

/// Whether a record is made of these.
pub open spec fn records(
    record: TrajectoryIndexRecord,
    metadata: TrajectoryMetadata,
    path: Seq<char>,
    file: Seq<u8>,
    stream: Seq<u8>,
    finalized_at: Moment,
) -> bool {
    &&& record.schema_version == TRAJECTORY_SCHEMA_VERSION
    &&& record.session_id == metadata.session_id
    &&& record.market_slot == metadata.market_slot
    &&& record.entry_time_ms == metadata.entry_time_ms
    &&& record.slug == metadata.slug
    &&& record.signal_ids == metadata.signal_ids
    &&& record.completion_status == metadata.completion_status
    &&& record.gap_count == metadata.gap_count
    &&& record.path@ == path
    &&& record.sha256@ == hex_of(sha256_of(file))
    &&& record.observation_count == observations_of(stream)
    &&& record.uncompressed_bytes == stream.len()
    &&& record.compressed_bytes == file.len()
    &&& record.finalized_at == finalized_at
}

fn record_with(
    metadata: TrajectoryMetadata,
    path: String,
    sha256: String,
    found: TrajectoryVerification,
    finalized_at: Moment,
) -> (r: TrajectoryIndexRecord)
    ensures
        r.schema_version == TRAJECTORY_SCHEMA_VERSION,
        r.session_id == metadata.session_id,
        r.market_slot == metadata.market_slot,
        r.entry_time_ms == metadata.entry_time_ms,
        r.slug == metadata.slug,
        r.signal_ids == metadata.signal_ids,
        r.completion_status == metadata.completion_status,
        r.gap_count == metadata.gap_count,
        r.path == path,
        r.sha256 == sha256,
        r.observation_count == found.observation_count,
        r.uncompressed_bytes == found.uncompressed_bytes,
        r.compressed_bytes == found.compressed_bytes,
        r.finalized_at == finalized_at,
{
    TrajectoryIndexRecord {
        schema_version: TRAJECTORY_SCHEMA_VERSION,
        session_id: metadata.session_id,
        market_slot: metadata.market_slot,
        entry_time_ms: metadata.entry_time_ms,
        slug: metadata.slug,
        signal_ids: metadata.signal_ids,
        completion_status: metadata.completion_status,
        gap_count: metadata.gap_count,
        path,
        sha256,
        observation_count: found.observation_count,
        uncompressed_bytes: found.uncompressed_bytes,
        compressed_bytes: found.compressed_bytes,
        finalized_at,
    }
}

/// Why a trajectory is refused: for a fault, or because the codec gives up.
pub enum Refusal {
    Fault(Fault),
    Codec,
}

/// Whether an error tells of a refusal.
pub open spec fn tells(error: TrajectoryError, refusal: Refusal) -> bool {
    match (error, refusal) {
        (TrajectoryError::Fault(told), Refusal::Fault(fault)) => told == fault,
        (TrajectoryError::Codec(_), Refusal::Codec) => true,
        _ => false,
    }
}

/// The refusal for a fault, if there is one.
pub open spec fn refusal_for(fault: Option<Fault>) -> Option<Refusal> {
    match fault {
        Some(fault) => Some(Refusal::Fault(fault)),
        None => None,
    }
}

/// What is wrong with a stream to keep, once it was compressed and read back.
pub open spec fn sealing_fault_of(source: Seq<u8>, reread: Seq<u8>) -> Option<Fault> {
    if observations_of(source) == 0 {
        Some(Fault::EmptySource)
    } else if observations_of(reread) != observations_of(source) {
        Some(
            Fault::SealBroken {
                source: observations_of(source) as u64,
                compressed: observations_of(reread) as u64,
            },
        )
    } else {
        None
    }
}

/// Looks whether what was read back still holds every observation.
pub fn sealing_fault(source: &Vec<u8>, reread: &Vec<u8>) -> (r: Option<Fault>)
    ensures
        r == sealing_fault_of(source@, reread@),
{
    let kept: u64 = count_non_empty_lines(source);
    if kept == 0 {
        return Some(Fault::EmptySource);
    }
    let found: u64 = count_non_empty_lines(reread);
    if found != kept {
        return Some(Fault::SealBroken { source: kept, compressed: found });
    }
    None
}

/// Why a stream to keep is not compressed.
pub open spec fn compress_refusal_of(source: Seq<u8>) -> Option<Refusal> {
    if observations_of(source) == 0 {
        Some(Refusal::Fault(Fault::EmptySource))
    } else if encoded_of(source, COMPRESSION_LEVEL as int) is None {
        Some(Refusal::Codec)
    } else {
        None
    }
}

/// Compresses a stream to keep. An empty one is refused.
pub fn compress_trajectory(source: &Vec<u8>) -> (r: Result<Vec<u8>, TrajectoryError>)
    ensures
        match compress_refusal_of(source@) {
            Some(refusal) => r matches Err(error) && tells(error, refusal),
            None => r matches Ok(packed) && encoded_of(source@, COMPRESSION_LEVEL as int) == Some(
                packed@,
            ) && decoded_of(packed@) == Some(source@),
        },
{
    if count_non_empty_lines(source) == 0 {
        return Err(TrajectoryError::Fault(Fault::EmptySource));
    }
    match encode(source, COMPRESSION_LEVEL) {
        Ok(packed) => Ok(packed),
        Err(error) => Err(TrajectoryError::Codec(error)),
    }
}

/// Why the file that a stream was compressed into is refused.
pub open spec fn seal_refusal_of(source: Seq<u8>, name: Seq<char>, file: Seq<u8>) -> Option<
    Refusal,
> {
    match stream_of(name, file) {
        Some(stream) => refusal_for(sealing_fault_of(source, stream)),
        None => Some(Refusal::Codec),
    }
}

/// Reads back the file that a stream was compressed into, and looks whether it still holds every
/// observation.
pub fn check_seal(source: &Vec<u8>, name: &str, file: &Vec<u8>) -> (r: Result<(), TrajectoryError>)
    ensures
        match seal_refusal_of(source@, name@, file@) {
            Some(refusal) => r matches Err(error) && tells(error, refusal),
            None => r is Ok,
        },
{
    match open_trajectory_reader(name, file) {
        Ok(stream) => match sealing_fault(source, &stream) {
            Some(fault) => Err(TrajectoryError::Fault(fault)),
            None => Ok(()),
        },
        Err(error) => Err(TrajectoryError::Codec(error)),
    }
}

/// Makes the record of the file that a stream is kept in.
pub fn record_trajectory(
    source: &Vec<u8>,
    destination: String,
    file: &Vec<u8>,
    metadata: TrajectoryMetadata,
    finalized_at: Moment,
) -> (r: TrajectoryIndexRecord)
    ensures
        records(r, metadata, destination@, file@, source@, finalized_at),
{
    let (observation_count, uncompressed_bytes) = inspect_uncompressed(source);
    let found: TrajectoryVerification = TrajectoryVerification {
        observation_count,
        uncompressed_bytes,
        compressed_bytes: file.len() as u64,
    };
    record_with(metadata, destination, sha256_file(file), found, finalized_at)
}

/// Why a stream is not kept.
pub open spec fn finalize_refusal_of(source: Seq<u8>, name: Seq<char>) -> Option<Refusal> {
    match compress_refusal_of(source) {
        Some(refusal) => Some(refusal),
        None => seal_refusal_of(
            source,
            name,
            encoded_of(source, COMPRESSION_LEVEL as int).unwrap(),
        ),
    }
}

/// Whether a stream was kept as a file with this record.
pub open spec fn finalized(
    record: TrajectoryIndexRecord,
    file: Seq<u8>,
    source: Seq<u8>,
    metadata: TrajectoryMetadata,
    path: Seq<char>,
    finalized_at: Moment,
) -> bool {
    &&& observations_of(source) > 0
    &&& encoded_of(source, COMPRESSION_LEVEL as int) == Some(file)
    &&& decoded_of(file) == Some(source)
    &&& records(record, metadata, path, file, source, finalized_at)
}

/// Compresses a stream, reads it back, and makes the record of it. `name` is the name of the file
/// that the compressed stream is written to at first, `destination` the path that it is kept at.
///
/// Returns the record and the compressed stream. An empty stream is refused before anything else.
/// Whoever writes the file takes the same steps one by one, with the bytes that are on disk.
pub fn finalize_trajectory_sync(
    source: &Vec<u8>,
    name: &str,
    destination: String,
    metadata: TrajectoryMetadata,
    finalized_at: Moment,
) -> (r: Result<(TrajectoryIndexRecord, Vec<u8>), TrajectoryError>)
    ensures
        match finalize_refusal_of(source@, name@) {
            Some(refusal) => r matches Err(error) && tells(error, refusal),
            None => r matches Ok((record, packed)) && finalized(
                record,
                packed@,
                source@,
                metadata,
                destination@,
                finalized_at,
            ),
        },
        names_zst(name@) ==> (r is Ok <==> compress_refusal_of(source@) is None),
{
    let packed: Vec<u8> = match compress_trajectory(source) {
        Ok(packed) => packed,
        Err(error) => {
            return Err(error);
        },
    };
    match check_seal(source, name, &packed) {
        Ok(_) => {},
        Err(error) => {
            return Err(error);
        },
    }
    let record: TrajectoryIndexRecord = record_trajectory(
        source,
        destination,
        &packed,
        metadata,
        finalized_at,
    );
    Ok((record, packed))
}

/// Makes the record of a file whose stream was read, unless it holds no observation.
pub fn record_stream(
    stream: &Vec<u8>,
    path: String,
    bytes: &Vec<u8>,
    metadata: TrajectoryMetadata,
    finalized_at: Moment,
) -> (r: Result<TrajectoryIndexRecord, Fault>)
    ensures
        observations_of(stream@) == 0 ==> r == Err::<TrajectoryIndexRecord, _>(
            Fault::EmptyTrajectory,
        ),
        observations_of(stream@) > 0 ==> (r matches Ok(record) && records(
            record,
            metadata,
            path@,
            bytes@,
            stream@,
            finalized_at,
        )),
{
    let (observation_count, uncompressed_bytes) = inspect_uncompressed(stream);
    if observation_count == 0 {
        return Err(Fault::EmptyTrajectory);
    }
    let found: TrajectoryVerification = TrajectoryVerification {
        observation_count,
        uncompressed_bytes,
        compressed_bytes: bytes.len() as u64,
    };
    Ok(record_with(metadata, path, sha256_file(bytes), found, finalized_at))
}

/// Why a record is not recovered from a file.
pub open spec fn recover_refusal_of(name: Seq<char>, bytes: Seq<u8>) -> Option<Refusal> {
    match stream_of(name, bytes) {
        Some(stream) => if observations_of(stream) == 0 {
            Some(Refusal::Fault(Fault::EmptyTrajectory))
        } else {
            None
        },
        None => Some(Refusal::Codec),
    }
}

/// Makes the record of a trajectory whose file is all that is left.
pub fn recover_trajectory_index_record(
    name: &str,
    path: String,
    bytes: &Vec<u8>,
    metadata: TrajectoryMetadata,
    finalized_at: Moment,
) -> (r: Result<TrajectoryIndexRecord, TrajectoryError>)
    ensures
        match recover_refusal_of(name@, bytes@) {
            Some(refusal) => r matches Err(error) && tells(error, refusal),
            None => r matches Ok(record) && records(
                record,
                metadata,
                path@,
                bytes@,
                stream_of(name@, bytes@).unwrap(),
                finalized_at,
            ),
        },
{
    match open_trajectory_reader(name, bytes) {
        Ok(stream) => match record_stream(&stream, path, bytes, metadata, finalized_at) {
            Ok(record) => Ok(record),
            Err(fault) => Err(TrajectoryError::Fault(fault)),
        },
        Err(error) => Err(TrajectoryError::Codec(error)),
    }
}

/// What holding a file against its record comes to before the stream in it is read.
pub open spec fn file_fault_of(record: TrajectoryIndexRecord, bytes: Seq<u8>) -> Option<Fault> {
    if bytes.len() != record.compressed_bytes {
        Some(
            Fault::SizeMismatch { index: record.compressed_bytes, disk: bytes.len() as u64 },
        )
    } else if hex_of(sha256_of(bytes)) != record.sha256@ {
        Some(Fault::ChecksumMismatch)
    } else {
        None
    }
}

/// What holding the stream in a file against its record comes to.
pub open spec fn stream_fault_of(record: TrajectoryIndexRecord, stream: Seq<u8>) -> Option<Fault> {
    if observations_of(stream) != record.observation_count {
        Some(
            Fault::CountMismatch {
                index: record.observation_count,
                stream: observations_of(stream) as u64,
            },
        )
    } else if stream.len() != record.uncompressed_bytes {
        Some(
            Fault::LengthMismatch {
                index: record.uncompressed_bytes,
                stream: stream.len() as u64,
            },
        )
    } else {
        None
    }
}

fn file_fault(record: &TrajectoryIndexRecord, bytes: &Vec<u8>) -> (r: Option<Fault>)
    ensures
        r == file_fault_of(*record, bytes@),
{
    let disk: u64 = bytes.len() as u64;
    if disk != record.compressed_bytes {
        return Some(Fault::SizeMismatch { index: record.compressed_bytes, disk });
    }
    if sha256_file(bytes) != record.sha256 {
        return Some(Fault::ChecksumMismatch);
    }
    None
}

/// Holds the stream in a file against the file's record.
pub fn stream_fault(record: &TrajectoryIndexRecord, stream: &Vec<u8>) -> (r: Option<Fault>)
    ensures
        r == stream_fault_of(*record, stream@),
{
    let (observation_count, uncompressed_bytes) = inspect_uncompressed(stream);
    if observation_count != record.observation_count {
        return Some(
            Fault::CountMismatch { index: record.observation_count, stream: observation_count },
        );
    }
    if uncompressed_bytes != record.uncompressed_bytes {
        return Some(
            Fault::LengthMismatch { index: record.uncompressed_bytes, stream: uncompressed_bytes },
        );
    }
    None
}

/// Why a file is refused that is held against its record.
pub open spec fn verify_refusal_of(
    record: TrajectoryIndexRecord,
    name: Seq<char>,
    bytes: Seq<u8>,
) -> Option<Refusal> {
    match (file_fault_of(record, bytes), stream_of(name, bytes)) {
        (Some(fault), _) => Some(Refusal::Fault(fault)),
        (None, None) => Some(Refusal::Codec),
        (None, Some(stream)) => refusal_for(stream_fault_of(record, stream)),
    }
}

/// Holds a file, by its name and its bytes, against its record.
pub fn verify_trajectory(record: &TrajectoryIndexRecord, name: &str, bytes: &Vec<u8>) -> (r: Result<
    TrajectoryVerification,
    TrajectoryError,
>)
    ensures
        match verify_refusal_of(*record, name@, bytes@) {
            Some(refusal) => r matches Err(error) && tells(error, refusal),
            None => r == Ok::<_, TrajectoryError>(
                TrajectoryVerification {
                    observation_count: record.observation_count,
                    uncompressed_bytes: record.uncompressed_bytes,
                    compressed_bytes: record.compressed_bytes,
                },
            ),
        },
{
    match file_fault(record, bytes) {
        Some(fault) => {
            return Err(TrajectoryError::Fault(fault));
        },
        None => {},
    }
    let stream: Vec<u8> = match open_trajectory_reader(name, bytes) {
        Ok(stream) => stream,
        Err(error) => {
            return Err(TrajectoryError::Codec(error));
        },
    };
    match stream_fault(record, &stream) {
        Some(fault) => Err(TrajectoryError::Fault(fault)),
        None => Ok(
            TrajectoryVerification {
                observation_count: record.observation_count,
                uncompressed_bytes: record.uncompressed_bytes,
                compressed_bytes: record.compressed_bytes,
            },
        ),
    }
}

/// What was finalized verifies, under any name that tells that it is compressed.
pub proof fn law_finalized_verifies(
    record: TrajectoryIndexRecord,
    metadata: TrajectoryMetadata,
    path: Seq<char>,
    name: Seq<char>,
    packed: Seq<u8>,
    source: Seq<u8>,
    finalized_at: Moment,
)
    requires
        names_zst(name),
        finalized(record, packed, source, metadata, path, finalized_at),
    ensures
        verify_refusal_of(record, name, packed) is None,
{
}

/// From what was finalized the record can be recovered: with the same metadata and the same path it
/// says the same, but for when it was made.
pub proof fn law_finalized_recovers(
    record: TrajectoryIndexRecord,
    again: TrajectoryIndexRecord,
    metadata: TrajectoryMetadata,
    path: Seq<char>,
    name: Seq<char>,
    packed: Seq<u8>,
    source: Seq<u8>,
    finalized_at: Moment,
    recovered_at: Moment,
)
    requires
        names_zst(name),
        finalized(record, packed, source, metadata, path, finalized_at),
    ensures
        recover_refusal_of(name, packed) is None,
        records(again, metadata, path, packed, stream_of(name, packed).unwrap(), recovered_at)
            ==> {
            &&& again.schema_version == record.schema_version
            &&& again.session_id == record.session_id
            &&& again.market_slot == record.market_slot
            &&& again.entry_time_ms == record.entry_time_ms
            &&& again.slug == record.slug
            &&& again.signal_ids == record.signal_ids
            &&& again.completion_status == record.completion_status
            &&& again.gap_count == record.gap_count
            &&& again.path@ == record.path@
            &&& again.sha256@ == record.sha256@
            &&& again.observation_count == record.observation_count
            &&& again.uncompressed_bytes == record.uncompressed_bytes
            &&& again.compressed_bytes == record.compressed_bytes
        },
{
}

/// A record that was recovered from a file verifies against that file.
pub proof fn law_recovered_verifies(
    record: TrajectoryIndexRecord,
    metadata: TrajectoryMetadata,
    path: Seq<char>,
    name: Seq<char>,
    bytes: Seq<u8>,
    finalized_at: Moment,
)
    requires
        recover_refusal_of(name, bytes) is None,
        records(
            record,
            metadata,
            path,
            bytes,
            stream_of(name, bytes).unwrap(),
            finalized_at,
        ),
    ensures
        verify_refusal_of(record, name, bytes) is None,
{
}

/// A file verifies exactly where its size, its checksum, its decoding and what it decodes to are as
/// the record says.
pub proof fn law_verified_files_match(
    record: TrajectoryIndexRecord,
    name: Seq<char>,
    bytes: Seq<u8>,
)
    ensures
        verify_refusal_of(record, name, bytes) is None <==> {
            &&& bytes.len() == record.compressed_bytes
            &&& hex_of(sha256_of(bytes)) == record.sha256@
            &&& stream_of(name, bytes) matches Some(stream) && {
                &&& observations_of(stream) == record.observation_count
                &&& stream.len() == record.uncompressed_bytes
            }
        },
{
}

/// What is said of a fault of the file at a path.
pub open spec fn complaint_of(fault: Fault, path: Seq<char>) -> Seq<char> {
    match fault {
        Fault::EmptySource => "stream source vide: "@ + path,
        Fault::EmptyTrajectory => "trajectoire vide: "@ + path,
        Fault::SealBroken { source, compressed } => "validation trajectoire échouée: source="@
            + text::digits(source as int) + " compressé="@ + text::digits(compressed as int),
        Fault::SizeMismatch { index, disk } => "taille trajectoire inattendue "@ + path
            + ": index="@ + text::digits(index as int) + " disque="@ + text::digits(disk as int),
        Fault::ChecksumMismatch => "checksum trajectoire invalide "@ + path,
        Fault::CountMismatch { index, stream } => "nombre d'observations inattendu "@ + path
            + ": index="@ + text::digits(index as int) + " flux="@ + text::digits(stream as int),
        Fault::LengthMismatch { index, stream } => "taille décompressée inattendue "@ + path
            + ": index="@ + text::digits(index as int) + " flux="@ + text::digits(stream as int),
    }
}

fn complaint_with(head: &str, path: &str) -> (r: String)
    ensures
        r@ == head@ + path@,
{
    let mut r: String = String::from_str(head);
    r.append(path);
    r
}

fn append_pair(text: &mut String, first: &str, a: u64, second: &str, b: u64)
    ensures
        final(text)@ == old(text)@ + first@ + text::digits(a as int) + second@ + text::digits(
            b as int,
        ),
{
    text.append(first);
    text::append_number(text, a as u128);
    text.append(second);
    text::append_number(text, b as u128);
}

/// What is said of a fault of the file at a path.
pub fn complaint(fault: Fault, path: &str) -> (r: String)
    ensures
        r@ == complaint_of(fault, path@),
{
    match fault {
        Fault::EmptySource => complaint_with("stream source vide: ", path),
        Fault::EmptyTrajectory => complaint_with("trajectoire vide: ", path),
        Fault::SealBroken { source, compressed } => {
            let mut r: String = String::from_str("validation trajectoire échouée: source=");
            text::append_number(&mut r, source as u128);
            r.append(" compressé=");
            text::append_number(&mut r, compressed as u128);
            r
        },
        Fault::SizeMismatch { index, disk } => {
            let mut r: String = complaint_with("taille trajectoire inattendue ", path);
            append_pair(&mut r, ": index=", index, " disque=", disk);
            r
        },
        Fault::ChecksumMismatch => complaint_with("checksum trajectoire invalide ", path),
        Fault::CountMismatch { index, stream } => {
            let mut r: String = complaint_with("nombre d'observations inattendu ", path);
            append_pair(&mut r, ": index=", index, " flux=", stream);
            r
        },
        Fault::LengthMismatch { index, stream } => {
            let mut r: String = complaint_with("taille décompressée inattendue ", path);
            append_pair(&mut r, ": index=", index, " flux=", stream);
            r
        },
    }
}

/// A stream that ends in a line feed and another one have the lines of both.
proof fn lemma_lines_add_up(head: Seq<u8>, more: Seq<u8>)
    requires
        head.len() > 0,
        head.last() == 0x0A,
    ensures
        lines_of(head + more) =~= lines_of(head) + lines_of(more),
    decreases more.len(),
{
    if more.len() == 0 {
        assert(head + more =~= head);
    } else {
        let fewer = more.drop_last();
        let whole = head + more;
        assert(whole.drop_last() =~= head + fewer);
        assert(whole.last() == more.last());
        lemma_lines_add_up(head, fewer);
        if fewer.len() == 0 {
            assert(head + fewer =~= head);
        } else {
            assert((head + fewer).last() == fewer.last());
            lemma_some_line(fewer);
        }
    }
}

proof fn lemma_contents_add_up(a: Seq<Seq<u8>>, b: Seq<Seq<u8>>)
    ensures
        contentful(a + b) == contentful(a) + contentful(b),
    decreases b.len(),
{
    if b.len() == 0 {
        assert(a + b =~= a);
    } else {
        assert((a + b).drop_last() =~= a + b.drop_last());
        lemma_contents_add_up(a, b.drop_last());
    }
}

/// The observations of two streams with a line feed between them are those of both.
pub proof fn law_observations_add_up(a: Seq<u8>, b: Seq<u8>)
    ensures
        observations_of(a.push(0x0A) + b) == observations_of(a) + observations_of(b),
{
    let head = a.push(0x0A);
    lemma_lines_add_up(head, b);
    lemma_contents_add_up(lines_of(head), lines_of(b));
    lemma_one_more_byte(a, 0x0A);
}

/// A line holds one observation exactly where some byte of it is no blank, tab, form feed or carriage
/// return, and none otherwise.
pub proof fn law_line_is_one_observation(line: Seq<u8>)
    requires
        forall|i: int| 0 <= i < line.len() ==> #[trigger] line[i] != 10,
    ensures
        observations_of(line) == (if exists|i: int|
            0 <= i < line.len() && #[trigger] line[i] != 32 && line[i] != 9 && line[i] != 12
                && line[i] != 13 {
            1nat
        } else {
            0
        }),
{
    lemma_one_line(line);
    let all = lines_of(line);
    reveal_with_fuel(contentful, 2);
    if line.len() > 0 {
        assert(all.last() == line);
        assert(all.drop_last() =~= Seq::<Seq<u8>>::empty());
        if has_content(line) {
            let i = choose|i: int| 0 <= i < line.len() && visible(#[trigger] line[i]);
            assert(line[i] != 32 && line[i] != 9 && line[i] != 12 && line[i] != 13);
            assert(observations_of(line) == 1);
        }
        if exists|i: int|
            0 <= i < line.len() && #[trigger] line[i] != 32 && line[i] != 9 && line[i] != 12
                && line[i] != 13 {
            let i = choose|i: int|
                0 <= i < line.len() && #[trigger] line[i] != 32 && line[i] != 9 && line[i] != 12
                    && line[i] != 13;
            assert(visible(line[i]));
        }
    }
}

proof fn lemma_one_line(line: Seq<u8>)
    requires
        forall|i: int| 0 <= i < line.len() ==> #[trigger] line[i] != 10,
    ensures
        lines_of(line) =~= (if line.len() == 0 {
            Seq::<Seq<u8>>::empty()
        } else {
            seq![line]
        }),
    decreases line.len(),
{
    if line.len() > 0 {
        let fewer = line.drop_last();
        assert forall|i: int| 0 <= i < fewer.len() implies #[trigger] fewer[i] != 10 by {
            assert(line[i] != 10);
        }
        lemma_one_line(fewer);
        if fewer.len() > 0 {
            assert(fewer.last() == line[fewer.len() - 1]);
            assert(fewer.push(line.last()) =~= line);
        } else {
            assert(seq![line.last()] =~= line);
        }
    }
}

/// What a hexadecimal digit is worth.
pub open spec fn hex_worth(c: char) -> int {
    if '0' <= c <= '9' {
        c as int - 48
    } else {
        c as int - 97 + 10
    }
}

/// Whether a character is a lowercase hexadecimal digit.
pub open spec fn is_hex_digit(c: char) -> bool {
    '0' <= c <= '9' || 'a' <= c <= 'f'
}

/// Every byte is written as two lowercase hexadecimal digits that are worth it, in order.
pub proof fn law_hex_tells_the_bytes(bytes: Seq<u8>, i: int)
    requires
        0 <= i < bytes.len(),
    ensures
        hex_of(bytes).len() == 2 * bytes.len(),
        is_hex_digit(hex_of(bytes)[2 * i]),
        is_hex_digit(hex_of(bytes)[2 * i + 1]),
        hex_worth(hex_of(bytes)[2 * i]) * 16 + hex_worth(hex_of(bytes)[2 * i + 1]) == bytes[i],
    decreases bytes.len(),
{
    let fewer = bytes.drop_last();
    lemma_hex_length(fewer);
    if i < fewer.len() {
        law_hex_tells_the_bytes(fewer, i);
        assert(fewer[i] == bytes[i]);
    }
}

proof fn lemma_hex_length(bytes: Seq<u8>)
    ensures
        hex_of(bytes).len() == 2 * bytes.len(),
    decreases bytes.len(),
{
    if bytes.len() > 0 {
        lemma_hex_length(bytes.drop_last());
    }
}

/// What a fault says is what differs, on the side that it says: an empty stream before anything
/// else, then how many observations there were and how many came back; the size that the index holds
/// and the one on disk before the checksum; then the observations, and the length last.
pub proof fn law_faults_say_what_differs(
    source: Seq<u8>,
    reread: Seq<u8>,
    record: TrajectoryIndexRecord,
    bytes: Seq<u8>,
    stream: Seq<u8>,
)
    requires
        source.len() <= u64::MAX,
        reread.len() <= u64::MAX,
        bytes.len() <= u64::MAX,
        stream.len() <= u64::MAX,
    ensures
        sealing_fault_of(source, reread) is None <==> 0 < observations_of(source)
            && observations_of(source) == observations_of(reread),
        sealing_fault_of(source, reread) == Some(Fault::EmptySource) <==> observations_of(source)
            == 0,
        sealing_fault_of(source, reread) matches Some(Fault::SealBroken { source: a, compressed: b })
            ==> a == observations_of(source) && b == observations_of(reread) && a != b && a > 0,
        file_fault_of(record, bytes) is None <==> record.compressed_bytes == bytes.len()
            && record.sha256@ == hex_of(sha256_of(bytes)),
        file_fault_of(record, bytes) matches Some(Fault::SizeMismatch { index, disk }) ==> index
            == record.compressed_bytes && disk == bytes.len() && index != disk,
        file_fault_of(record, bytes) == Some(Fault::ChecksumMismatch) <==> record.compressed_bytes
            == bytes.len() && record.sha256@ != hex_of(sha256_of(bytes)),
        stream_fault_of(record, stream) is None <==> record.observation_count == observations_of(
            stream,
        ) && record.uncompressed_bytes == stream.len(),
        stream_fault_of(record, stream) matches Some(Fault::CountMismatch { index, stream: found })
            ==> index == record.observation_count && found == observations_of(stream) && index
            != found,
        stream_fault_of(record, stream) matches Some(Fault::LengthMismatch { index, stream: found })
            ==> index == record.uncompressed_bytes && found == stream.len() && index != found
            && record.observation_count == observations_of(stream),
{
    lemma_no_more_observations(source);
    lemma_no_more_observations(reread);
    lemma_no_more_observations(stream);
}

/// There are no more observations than bytes.
proof fn lemma_no_more_observations(bytes: Seq<u8>)
    ensures
        observations_of(bytes) <= bytes.len(),
    decreases bytes.len(),
{
    if bytes.len() > 0 {
        let fewer = bytes.drop_last();
        assert(fewer.push(bytes.last()) =~= bytes);
        lemma_no_more_observations(fewer);
        lemma_one_more_byte(fewer, bytes.last());
    }
}

/// A record tells of its metadata, field by field, and of the file and the stream in it: the size and
/// the checksum of the one, the observations and the length of the other.
pub proof fn law_records_tell(
    record: TrajectoryIndexRecord,
    metadata: TrajectoryMetadata,
    path: Seq<char>,
    file: Seq<u8>,
    stream: Seq<u8>,
    finalized_at: Moment,
)
    requires
        records(record, metadata, path, file, stream, finalized_at),
    ensures
        record.schema_version == 1,
        record.session_id == metadata.session_id,
        record.market_slot == metadata.market_slot,
        record.entry_time_ms == metadata.entry_time_ms,
        record.slug == metadata.slug,
        record.signal_ids == metadata.signal_ids,
        record.completion_status == metadata.completion_status,
        record.gap_count == metadata.gap_count,
        record.path@ == path,
        record.sha256@ == hex_of(sha256_of(file)),
        record.compressed_bytes == file.len(),
        record.observation_count == observations_of(stream),
        record.uncompressed_bytes == stream.len(),
        record.finalized_at == finalized_at,
{
}

/// A stream is refused as empty where it holds no observation, whatever it decodes or encodes to, and
/// only what cannot be encoded or decoded is refused for that.
pub proof fn law_refusals(source: Seq<u8>, name: Seq<char>, bytes: Seq<u8>)
    ensures
        observations_of(source) > 0 && encoded_of(source, 3) is None ==> finalize_refusal_of(
            source,
            name,
        ) == Some(Refusal::Codec),
        observations_of(source) == 0 ==> finalize_refusal_of(source, name) == Some(
            Refusal::Fault(Fault::EmptySource),
        ),
        finalize_refusal_of(source, name) is None ==> observations_of(source) > 0,
        recover_refusal_of(name, bytes) is None <==> (stream_of(name, bytes) matches Some(stream)
            && observations_of(stream) > 0),
        recover_refusal_of(name, bytes) == Some(Refusal::Codec) <==> stream_of(name, bytes) is None,
        recover_refusal_of(name, bytes) == Some(Refusal::Fault(Fault::EmptyTrajectory)) <==> (
        stream_of(name, bytes) matches Some(stream) && observations_of(stream) == 0),
        !names_zst(name) ==> stream_of(name, bytes) == Some(bytes),
        names_zst(name) ==> stream_of(name, bytes) == decoded_of(bytes),
{
}

} // verus!
