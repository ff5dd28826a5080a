//! Prefetch volume-information records.
//!
//! A record set starts at a base offset and holds a fixed count of records laid out one
//! after another. Each record is a 36-byte little-endian header
//! (path offset, path length in UTF-16 units, creation FILETIME, serial number,
//! file-reference offset, file-reference size, directory-table offset, directory count)
//! followed by an unknown trailer whose size depends on the format version.
//! The path offset and the directory-table offset count from the base of the set.
//! A directory entry is a 16-bit unit count, that many UTF-16 units and a 2-byte terminator.

use vstd::prelude::*;
use crate::cursor::{prepend_texts, texts, u16_at, u32_at, u64_at, unix_seconds, utf16_text_at, ByteCursor, Endian};

verus! {

/// Size of the fixed header of a volume record.
pub const VOLUME_HEADER_LEN: usize = 36;

/// The known generations of the volume-information layout.
#[derive(Clone, Copy, Debug, PartialEq, Eq)]
pub enum VolumeVersion {
    V23,
    V26,
    V30,
}

/// Size of the unknown trailer after a record's header, for a known version number.
pub open spec fn trailer_len_of(version: u32) -> Option<nat> {
    if version == 30 {
        Some(60)
    } else if version == 23 || version == 26 {
        Some(68)
    } else {
        None
    }
}

impl VolumeVersion {
    /// The version number as stored in a prefetch file.
    pub open spec fn number(self) -> u32 {
        match self {
            VolumeVersion::V23 => 23,
            VolumeVersion::V26 => 26,
            VolumeVersion::V30 => 30,
        }
    }

    /// The known version with this number.
    pub fn from_number(version: u32) -> (r: Option<VolumeVersion>)
        ensures
            r is Some <==> trailer_len_of(version) is Some,
            r matches Some(v) ==> v.number() == version,
    {
        if version == 23 {
            Some(VolumeVersion::V23)
        } else if version == 26 {
            Some(VolumeVersion::V26)
        } else if version == 30 {
            Some(VolumeVersion::V30)
        } else {
            None
        }
    }

    /// Size of the unknown trailer that follows each record header in this version.
    pub fn trailer_len(self) -> (r: usize)
        ensures
            trailer_len_of(self.number()) == Some(r as nat),
    {
        match self {
            VolumeVersion::V30 => 60,
            VolumeVersion::V23 | VolumeVersion::V26 => 68,
        }
    }
}

/// Size of the trailer for a version number, or `None` for an unsupported version.
pub fn volume_trailer_len(version: u32) -> (r: Option<usize>)
    ensures
        r matches Some(n) ==> trailer_len_of(version) == Some(n as nat),
        r is None ==> trailer_len_of(version) is None,
{
    match VolumeVersion::from_number(version) {
        Some(v) => Some(v.trailer_len()),
        None => None,
    }
}

/// Position just past the directory entry at `p`, terminator included.
pub open spec fn dir_entry_end(d: Seq<u8>, p: int) -> int {
    p + 2 + 2 * u16_at(d, p, Endian::Le) + 2
}

/// The `n` directory entries stored from `p` on, with the position after the last one;
/// `None` when `p` lies past the end of the buffer, even for no entries.
pub open spec fn dirs_at(d: Seq<u8>, p: int, n: nat) -> Option<(Seq<Seq<char>>, int)>
    decreases n,
{
    if p > d.len() {
        None
    } else if n == 0 {
        Some((Seq::empty(), p))
    } else if p + 2 > d.len() || dir_entry_end(d, p) > d.len() {
        None
    } else {
        match dirs_at(d, dir_entry_end(d, p), (n - 1) as nat) {
            Some((rest, e)) => Some(
                (seq![utf16_text_at(d, p + 2, u16_at(d, p, Endian::Le) as nat)] + rest, e),
            ),
            None => None,
        }
    }
}

/// Reads `entries` directory entries from position `pos` of `data`.
fn directories_at(data: &[u8], pos: usize, entries: u32) -> (r: Option<(usize, Vec<String>)>)
    ensures
        r is Some <==> dirs_at(data@, pos as int, entries as nat) is Some,
        r matches Some((e, dirs)) ==> dirs_at(data@, pos as int, entries as nat) == Some(
            (texts(dirs@), e as int),
        ),
{
    let mut c = match ByteCursor::at(data, pos) {
        Some(c) => c,
        None => return None,
    };
    let mut out: Vec<String> = Vec::new();
    let mut k: u32 = 0;
    while k < entries
        invariant
            k <= entries,
            c.wf(),
            c.data@ == data@,
            dirs_at(data@, pos as int, entries as nat) == prepend_texts(
                texts(out@),
                dirs_at(data@, c.pos as int, (entries - k) as nat),
            ),
        decreases entries - k,
    {
        let ghost p = c.pos as int;
        let ghost m = (entries - k) as nat;
        let (size, c1) = match c.read_u16(Endian::Le) {
            Some(x) => x,
            None => return None,
        };
        let (path, c2) = match c1.read_utf16(size as usize) {
            Some(x) => x,
            None => return None,
        };
        let c3 = match c2.skip(2) {
            Some(x) => x,
            None => return None,
        };
        proof {
            let rest = dirs_at(data@, c3.pos as int, (m - 1) as nat);
            assert(c3.pos as int == dir_entry_end(data@, p));
            assert(texts(out@.push(path)) =~= texts(out@).push(path@));
            match rest {
                Some((s, e)) => {
                    assert(texts(out@) + (seq![path@] + s) =~= texts(out@).push(path@) + s);
                },
                None => {},
            }
        }
        out.push(path);
        c = c3;
        k = k + 1;
    }
    proof {
        assert(texts(out@) + Seq::<Seq<char>>::empty() =~= texts(out@));
    }
    Some((c.pos, out))
}

/// How decoding of a record set ended.
#[derive(Clone, Copy, Debug, PartialEq, Eq)]
pub enum VolumeStop {
    /// All requested records were decoded.
    Complete,
    /// The version has no known trailer size, so no record after the first can be found.
    UnsupportedVersion,
    /// The buffer ended inside a structural field.
    Truncated,
}

/// One volume-information record.
#[derive(Clone, Debug)]
pub struct Volume {
    pub volume_path_offset: u32,
    pub volume_number_chars: u32,
    pub volume_path: String,
    pub volume_creation: i64,
    pub volume_serial: u32,
    pub file_ref_offset: u32,
    pub file_ref_data_size: u32,
    pub directory_strings_offset: u32,
    pub number_directory_strings: u32,
    pub directories: Vec<String>,
}

/// The mathematical content of a [`Volume`].
pub struct VolumeView {
    pub volume_path_offset: u32,
    pub volume_number_chars: u32,
    pub volume_path: Seq<char>,
    pub volume_creation: int,
    pub volume_serial: u32,
    pub file_ref_offset: u32,
    pub file_ref_data_size: u32,
    pub directory_strings_offset: u32,
    pub number_directory_strings: u32,
    pub directories: Seq<Seq<char>>,
}

impl View for Volume {
    type V = VolumeView;

    open spec fn view(&self) -> VolumeView {
        VolumeView {
            volume_path_offset: self.volume_path_offset,
            volume_number_chars: self.volume_number_chars,
            volume_path: self.volume_path@,
            volume_creation: self.volume_creation as int,
            volume_serial: self.volume_serial,
            file_ref_offset: self.file_ref_offset,
            file_ref_data_size: self.file_ref_data_size,
            directory_strings_offset: self.directory_strings_offset,
            number_directory_strings: self.number_directory_strings,
            directories: texts(self.directories@),
        }
    }
}

/// The record whose header is at `p`, in a set whose offsets count from `base`.
pub open spec fn volume_at(d: Seq<u8>, base: int, p: int) -> Option<VolumeView> {
    if p + 36 > d.len() {
        None
    } else {
        let path_offset = u32_at(d, p, Endian::Le) as u32;
        let chars = u32_at(d, p + 4, Endian::Le) as u32;
        let dir_offset = u32_at(d, p + 28, Endian::Le) as u32;
        let dir_count = u32_at(d, p + 32, Endian::Le) as u32;
        if base + path_offset + 2 * chars > d.len() {
            None
        } else {
            match dirs_at(d, base + dir_offset, dir_count as nat) {
                Some((dirs, _)) => Some(
                    VolumeView {
                        volume_path_offset: path_offset,
                        volume_number_chars: chars,
                        volume_path: utf16_text_at(d, base + path_offset, chars as nat),
                        volume_creation: unix_seconds(u64_at(d, p + 8, Endian::Le)),
                        volume_serial: u32_at(d, p + 16, Endian::Le) as u32,
                        file_ref_offset: u32_at(d, p + 20, Endian::Le) as u32,
                        file_ref_data_size: u32_at(d, p + 24, Endian::Le) as u32,
                        directory_strings_offset: dir_offset,
                        number_directory_strings: dir_count,
                        directories: dirs,
                    },
                ),
                None => None,
            }
        }
    }
}

/// Decoding `n` records from `p` on: the records, where decoding stopped, and why.
pub open spec fn volumes_from(d: Seq<u8>, base: int, p: int, n: nat, version: u32) -> (
    Seq<VolumeView>,
    int,
    VolumeStop,
)
    decreases n,
{
    if n == 0 {
        (Seq::empty(), p, VolumeStop::Complete)
    } else {
        match volume_at(d, base, p) {
            None => (Seq::empty(), p, VolumeStop::Truncated),
            Some(v) => match trailer_len_of(version) {
                None => (seq![v], p + 36, VolumeStop::UnsupportedVersion),
                Some(t) => if p + 36 + t > d.len() {
                    (seq![v], p + 36, VolumeStop::Truncated)
                } else {
                    let (rest, e, s) = volumes_from(d, base, p + 36 + t, (n - 1) as nat, version);
                    (seq![v] + rest, e, s)
                },
            },
        }
    }
}

/// Decoding `count` records of a set that starts at `offset`.
pub open spec fn volume_records(d: Seq<u8>, offset: u32, count: u32, version: u32) -> (
    Seq<VolumeView>,
    int,
    VolumeStop,
) {
    if offset > d.len() {
        (Seq::empty(), d.len() as int, VolumeStop::Truncated)
    } else {
        volumes_from(d, offset as int, offset as int, count as nat, version)
    }
}

/// The outcome of decoding a record set: the records decoded, the position where
/// decoding stopped, and why it stopped.
#[derive(Clone, Debug)]
pub struct VolumeSet {
    pub volumes: Vec<Volume>,
    pub remaining: usize,
    pub stop: VolumeStop,
}

/// The records of a vector, as mathematical values.
pub open spec fn volume_views(v: Seq<Volume>) -> Seq<VolumeView> {
    v.map_values(|x: Volume| x@)
}

impl VolumeSet {
    /// What the set holds: records, stop position, reason.
    pub open spec fn model(&self) -> (Seq<VolumeView>, int, VolumeStop) {
        (volume_views(self.volumes@), self.remaining as int, self.stop)
    }
}

impl Volume {
    /// Decodes the record whose header is at `p`.
    fn parse_one(data: &[u8], base: usize, p: usize) -> (r: Option<Volume>)
        requires
            base <= data@.len(),
        ensures
            r is Some <==> volume_at(data@, base as int, p as int) is Some,
            r matches Some(v) ==> volume_at(data@, base as int, p as int) == Some(v@),
            r is Some ==> p + VOLUME_HEADER_LEN <= data@.len(),
    {
        let c = match ByteCursor::at(data, p) {
            Some(c) => c,
            None => return None,
        };
        let (volume_path_offset, c) = match c.read_u32(Endian::Le) {
            Some(x) => x,
            None => return None,
        };
        let (volume_number_chars, c) = match c.read_u32(Endian::Le) {
            Some(x) => x,
            None => return None,
        };
        let (volume_creation, c) = match c.read_filetime() {
            Some(x) => x,
            None => return None,
        };
        let (volume_serial, c) = match c.read_u32(Endian::Le) {
            Some(x) => x,
            None => return None,
        };
        let (file_ref_offset, c) = match c.read_u32(Endian::Le) {
            Some(x) => x,
            None => return None,
        };
        let (file_ref_data_size, c) = match c.read_u32(Endian::Le) {
            Some(x) => x,
            None => return None,
        };
        let (directory_strings_offset, c) = match c.read_u32(Endian::Le) {
            Some(x) => x,
            None => return None,
        };
        let (number_directory_strings, _c) = match c.read_u32(Endian::Le) {
            Some(x) => x,
            None => return None,
        };
        if volume_path_offset as usize > data.len() - base {
            return None;
        }
        let path_cursor = ByteCursor { data, pos: base + volume_path_offset as usize };
        let (volume_path, _) = match path_cursor.read_utf16(volume_number_chars as usize) {
            Some(x) => x,
            None => return None,
        };
        if directory_strings_offset as usize > data.len() - base {
            return None;
        }
        let directories = match directories_at(
            data,
            base + directory_strings_offset as usize,
            number_directory_strings,
        ) {
            Some((_, dirs)) => dirs,
            None => return None,
        };
        Some(
            Volume {
                volume_path_offset,
                volume_number_chars,
                volume_path,
                volume_creation,
                volume_serial,
                file_ref_offset,
                file_ref_data_size,
                directory_strings_offset,
                number_directory_strings,
                directories,
            },
        )
    }

    /// Decodes `number_volumes` records of the set that starts at `volume_offset`.
    ///
    /// Decoding stops early, keeping the records already decoded, when the buffer ends
    /// inside a structural field or when `version` is not a known layout version (the
    /// trailer size is then unknown, so only the first record can be located).
    pub fn parse_volume(data: &[u8], volume_offset: u32, number_volumes: &u32, version: u32) -> (r:
        VolumeSet)
        ensures
            r.model() == volume_records(data@, volume_offset, *number_volumes, version),
    {
        if volume_offset as usize > data.len() {
            return VolumeSet { volumes: Vec::new(), remaining: data.len(), stop: VolumeStop::Truncated };
        }
        let base = volume_offset as usize;
        let trailer = volume_trailer_len(version);
        let mut p = base;
        let mut out: Vec<Volume> = Vec::new();
        let mut count: u32 = 0;
        while count < *number_volumes
            invariant
                base == volume_offset,
                base <= p <= data@.len(),
                count <= *number_volumes,
                trailer matches Some(t) ==> trailer_len_of(version) == Some(t as nat),
                trailer is None ==> trailer_len_of(version) is None,
                volume_records(data@, volume_offset, *number_volumes, version) == prepend_volumes(
                    volume_views(out@),
                    volumes_from(data@, base as int, p as int, (*number_volumes - count) as nat, version),
                ),
            decreases *number_volumes - count,
        {
            let ghost before = out@;
            let parsed = Volume::parse_one(data, base, p);
            let v = match parsed {
                Some(v) => v,
                None => {
                    proof {
                        assert(volume_views(out@) + Seq::<VolumeView>::empty() =~= volume_views(out@));
                    }
                    return VolumeSet { volumes: out, remaining: p, stop: VolumeStop::Truncated };
                },
            };
            let len = data.len();
            assert(p + VOLUME_HEADER_LEN <= len);
            out.push(v);
            count = count + 1;
            proof {
                assert(volume_views(out@) =~= volume_views(before).push(v@));
            }
            let next = p + VOLUME_HEADER_LEN;
            match trailer {
                None => {
                    proof {
                        assert(volume_views(before) + seq![v@] =~= volume_views(out@));
                    }
                    return VolumeSet { volumes: out, remaining: next, stop: VolumeStop::UnsupportedVersion };
                },
                Some(t) => {
                    if t > data.len() - next {
                        proof {
                            assert(volume_views(before) + seq![v@] =~= volume_views(out@));
                        }
                        return VolumeSet { volumes: out, remaining: next, stop: VolumeStop::Truncated };
                    }
                    proof {
                        let rest = volumes_from(
                            data@,
                            base as int,
                            next + t,
                            (*number_volumes - count) as nat,
                            version,
                        );
                        assert(volume_views(before) + (seq![v@] + rest.0) =~= volume_views(out@) + rest.0);
                    }
                    p = next + t;
                },
            }
        }
        proof {
            assert(volume_views(out@) + Seq::<VolumeView>::empty() =~= volume_views(out@));
        }
        VolumeSet { volumes: out, remaining: p, stop: VolumeStop::Complete }
    }

    /// Reads `entries` directory entries from position `offset` of `data`, with the position
    /// just past the last one. Fails when the table, or its start, lies past the end.
    pub fn get_directories(data: &[u8], offset: u32, entries: u32) -> (r: Option<(usize, Vec<String>)>)
        ensures
            r is Some <==> dirs_at(data@, offset as int, entries as nat) is Some,
            r matches Some((e, dirs)) ==> dirs_at(data@, offset as int, entries as nat) == Some(
                (texts(dirs@), e as int),
            ),
    {
        directories_at(data, offset as usize, entries)
    }
}

/// A version with no known layout stops decoding after the first record: at most one
/// record comes back, it is the record at the start of the set, and when records were
/// asked for the decoding never reports itself complete.
pub proof fn lemma_unsupported_version_stops(d: Seq<u8>, offset: u32, count: u32, version: u32)
    requires
        trailer_len_of(version) is None,
    ensures
        volume_records(d, offset, count, version).0.len() <= 1,
        count > 0 ==> volume_records(d, offset, count, version).2 != VolumeStop::Complete,
        count > 0 && offset <= d.len() ==> match volume_at(d, offset as int, offset as int) {
            Some(v) => volume_records(d, offset, count, version).0 == seq![v]
                && volume_records(d, offset, count, version).2 == VolumeStop::UnsupportedVersion,
            None => volume_records(d, offset, count, version).0.len() == 0
                && volume_records(d, offset, count, version).2 == VolumeStop::Truncated,
        },
{
}

/// Decoding depends on its inputs alone: two decodings of the same buffer with the same
/// offset, count and version give the same records, stop position and outcome.
pub proof fn lemma_parse_volume_repeatable(
    data: Seq<u8>,
    offset: u32,
    count: u32,
    version: u32,
    first: VolumeSet,
    second: VolumeSet,
)
    requires
        first.model() == volume_records(data, offset, count, version),
        second.model() == volume_records(data, offset, count, version),
    ensures
        first.model() == second.model(),
        volume_views(first.volumes@) == volume_views(second.volumes@),
        first.remaining == second.remaining,
        first.stop == second.stop,
{
}

/// `acc` in front of the records of `o`.
pub open spec fn prepend_volumes(acc: Seq<VolumeView>, o: (Seq<VolumeView>, int, VolumeStop)) -> (
    Seq<VolumeView>,
    int,
    VolumeStop,
) {
    (acc + o.0, o.1, o.2)
}

} // verus!
