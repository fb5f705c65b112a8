//! The wide-character platform family: a path is a sequence of 16-bit units,
//! and the cache and configuration live under the user's known folders.
use vstd::prelude::*;
use crate::error::MainError;
use crate::platform::MigrationKind;
use crate::platform::unix::MigrationNote;

verus! {

/// The separator that `join` inserts.
pub const SEP: u16 = 0x5c;

/// The other separator that a path may end in.
pub const ALT_SEP: u16 = 0x2f;

/// `name` appended to the folder `base` as one more component.
pub open spec fn join(base: Seq<u16>, name: Seq<u16>) -> Seq<u16> {
    if base.len() == 0 || base.last() == SEP || base.last() == ALT_SEP {
        base + name
    } else {
        base.push(SEP) + name
    }
}

/// `Cargo`: the directory under a known folder that the tool uses.
pub open spec fn tool_dir_name() -> Seq<u16> {
    seq![0x43u16, 0x61, 0x72, 0x67, 0x6f]
}

/// Appends the relative component `name` to the folder `base`.
pub fn join_path(base: &[u16], name: &[u16]) -> (r: Vec<u16>)
    ensures
        r@ == join(base@, name@),
{
    let mut r: Vec<u16> = Vec::new();
    let mut i: usize = 0;
    while i < base.len()
        invariant
            i <= base@.len(),
            r@ == base@.subrange(0, i as int),
        decreases base@.len() - i,
    {
        r.push(base[i]);
        i = i + 1;
    }
    if base.len() > 0 && base[base.len() - 1] != SEP && base[base.len() - 1] != ALT_SEP {
        r.push(SEP);
    }
    let ghost mid = r@;
    let mut j: usize = 0;
    while j < name.len()
        invariant
            j <= name@.len(),
            r@ == mid + name@.subrange(0, j as int),
        decreases name@.len() - j,
    {
        r.push(name[j]);
        j = j + 1;
    }
    proof {
        assert(base@.subrange(0, base@.len() as int) =~= base@);
        assert(name@.subrange(0, name@.len() as int) =~= name@);
    }
    r
}

/// The tool's directory under a known folder, from the result of looking the
/// folder up (its path, or the failing result code).
pub open spec fn known_folder_dir(folder: Result<Seq<u16>, i32>) -> Result<Seq<u16>, MainError> {
    match folder {
        Ok(p) => Ok(join(p, tool_dir_name())),
        Err(code) => Err(MainError::KnownFolder { code }),
    }
}

fn tool_dir_under(folder: Result<Vec<u16>, i32>) -> (r: Result<Vec<u16>, MainError>)
    ensures
        match folder {
            Ok(p) => r is Ok && r->Ok_0@ == join(p@, tool_dir_name()),
            Err(code) => r == Err::<Vec<u16>, MainError>(MainError::KnownFolder { code }),
        },
{
    match folder {
        Ok(p) => {
            let name: Vec<u16> = vec![0x43u16, 0x61, 0x72, 0x67, 0x6f];
            assert(name@ =~= tool_dir_name());
            Ok(join_path(p.as_slice(), name.as_slice()))
        },
        Err(code) => Err(MainError::KnownFolder { code }),
    }
}

/// The cache directory: `Cargo` under the local application-data folder,
/// given the result of looking that folder up.
pub fn get_cache_dir(local_app_data: Result<Vec<u16>, i32>) -> (r: Result<Vec<u16>, MainError>)
    ensures
        match local_app_data {
            Ok(p) => r is Ok && r->Ok_0@ == join(p@, tool_dir_name()),
            Err(code) => r == Err::<Vec<u16>, MainError>(MainError::KnownFolder { code }),
        },
{
    tool_dir_under(local_app_data)
}

/// The configuration directory: `Cargo` under the roaming application-data
/// folder, given the result of looking that folder up.
pub fn get_config_dir(roaming_app_data: Result<Vec<u16>, i32>) -> (r: Result<Vec<u16>, MainError>)
    ensures
        match roaming_app_data {
            Ok(p) => r is Ok && r->Ok_0@ == join(p@, tool_dir_name()),
            Err(code) => r == Err::<Vec<u16>, MainError>(MainError::KnownFolder { code }),
        },
{
    tool_dir_under(roaming_app_data)
}

/// This family never had the legacy layout: migrating reports nothing and
/// succeeds, dry run or not.
pub fn migrate_old_data(kind: MigrationKind) -> (r: (Vec<MigrationNote>, Result<(), MainError>))
    ensures
        r.0@.len() == 0,
        r.1 is Ok,
{
    (Vec::new(), Ok(()))
}

/// The unit `w` stored as two bytes, low byte first.
pub open spec fn encode(path: Seq<u16>) -> Seq<u8> {
    Seq::new(2 * path.len(), |i: int| if i % 2 == 0 {
        (path[i / 2] % 256) as u8
    } else {
        (path[i / 2] / 256) as u8
    })
}

/// The units that bytes stand for, two bytes each, low byte first.
pub open spec fn decode(bytes: Seq<u8>) -> Seq<u16> {
    Seq::new(bytes.len() / 2, |i: int| (bytes[2 * i] + 256 * bytes[2 * i + 1]) as u16)
}

/// The bytes under which the wide `path` is stored.
pub fn write_path(path: &[u16]) -> (r: Vec<u8>)
    ensures
        r@ == encode(path@),
{
    let mut r: Vec<u8> = Vec::new();
    let mut i: usize = 0;
    while i < path.len()
        invariant
            i <= path@.len(),
            r@ == encode(path@.subrange(0, i as int)),
        decreases path@.len() - i,
    {
        let word = path[i];
        let lo = (word & 0xff) as u8;
        let hi = (word >> 8) as u8;
        assert(lo == word % 256) by (bit_vector)
            requires lo == (word & 0xff) as u8;
        assert(hi == word / 256) by (bit_vector)
            requires hi == (word >> 8) as u8;
        r.push(lo);
        r.push(hi);
        assert(r@ =~= encode(path@.subrange(0, i + 1)));
        i = i + 1;
    }
    assert(path@.subrange(0, path@.len() as int) =~= path@);
    r
}

/// The wide path stored as `bytes`; an odd number of bytes is corrupt.
pub fn read_path(bytes: &[u8]) -> (r: Result<Vec<u16>, MainError>)
    ensures
        bytes@.len() % 2 == 0 ==> r is Ok && r->Ok_0@ == decode(bytes@),
        bytes@.len() % 2 == 1 ==> r == Err::<Vec<u16>, MainError>(MainError::OddLength { len: bytes@.len() as usize }),
{
    if bytes.len() % 2 == 1 {
        return Err(MainError::OddLength { len: bytes.len() });
    }
    let mut words: Vec<u16> = Vec::new();
    let mut i: usize = 0;
    while i < bytes.len() / 2
        invariant
            bytes@.len() % 2 == 0,
            i <= bytes@.len() / 2,
            words@ =~= decode(bytes@).subrange(0, i as int),
        decreases bytes@.len() / 2 - i,
    {
        let lo = bytes[2 * i];
        let hi = bytes[2 * i + 1];
        let w = (lo as u16) | ((hi as u16) << 8);
        assert(w == lo + 256 * hi) by (bit_vector)
            requires w == (lo as u16) | ((hi as u16) << 8);
        words.push(w);
        i = i + 1;
    }
    Ok(words)
}

/// Decoding what `write_path` wrote gives back the wide path unit for unit.
pub proof fn lemma_round_trip(path: Seq<u16>)
    ensures
        decode(encode(path)) == path,
{
    let e = encode(path);
    assert forall|i: int| 0 <= i < path.len() implies decode(e)[i] == path[i] by {
        assert(e[2 * i] == (path[i] % 256) as u8);
        assert(e[2 * i + 1] == (path[i] / 256) as u8);
    }
    assert(decode(e) =~= path);
}

/// An encoding is even in length.
pub proof fn lemma_encoding_even(path: Seq<u16>)
    ensures
        encode(path).len() % 2 == 0,
{
}

/// Milliseconds between 1601-01-01 and 1970-01-01.
pub const MS_BETWEEN_1601_1970: u64 = 11_644_473_600_000;

/// Milliseconds since the UNIX epoch of a write time in 100-nanosecond units
/// since 1601; none (the metadata could not be read) and times before 1970 give `0`.
pub open spec fn filetime_millis(write_time: Option<u64>) -> nat {
    match write_time {
        Some(t) => if t / 10000 < MS_BETWEEN_1601_1970 {
            0
        } else {
            (t / 10000 - MS_BETWEEN_1601_1970) as nat
        },
        None => 0,
    }
}

/// The last-modified time of a file in milliseconds since the UNIX epoch, from
/// the write time that its metadata gave (none where it could not be read).
pub fn file_last_modified(write_time: Option<u64>) -> (r: u64)
    ensures
        r == filetime_millis(write_time),
        write_time is None ==> r == 0,
{
    match write_time {
        Some(t) => {
            let ms = t / 10000;
            if ms < MS_BETWEEN_1601_1970 {
                0
            } else {
                ms - MS_BETWEEN_1601_1970
            }
        },
        None => 0,
    }
}

/// Colour is passed to the build tool by other means on this family.
pub fn force_cargo_color() -> (r: bool)
    ensures
        !r,
{
    false
}

} // verus!
