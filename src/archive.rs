use vstd::prelude::*;
use std::io::Cursor;
use zip::ZipArchive;
use crate::manifest::ExtractPair;

verus! {

/// std::io::Cursor, the in-memory reader that an archive is parsed from.
#[verifier::external_type_specification]
#[verifier::external_body]
#[verifier::reject_recursive_types(T)]
pub struct ExCursor<T>(std::io::Cursor<T>);

/// zip::ZipArchive, a parsed archive; opaque, described by `zip_members`.
#[verifier::external_type_specification]
#[verifier::external_body]
#[verifier::reject_recursive_types(R)]
pub struct ExZipArchive<R>(zip::ZipArchive<R>);

/// What a parsed zip archive holds, in its index order. For each member:
/// its stored name; whether its header opens (`by_index` succeeds); whether
/// that name resolves to a path enclosed in the extraction root; whether its
/// bytes decompress and pass the checksum; and those bytes.
pub uninterp spec fn zip_members(a: ZipArchive<Cursor<Vec<u8>>>) -> Seq<(Seq<char>, bool, bool, bool, Seq<u8>)>;

/// What parsing `bytes` as a zip archive gives: its members, or `None` where
/// the bytes are not an archive.
pub uninterp spec fn zip_parsed(bytes: Seq<u8>) -> Option<Seq<(Seq<char>, bool, bool, bool, Seq<u8>)>>;

/// The stored name of a member.
pub open spec fn name_of(m: (Seq<char>, bool, bool, bool, Seq<u8>)) -> Seq<char> {
    m.0
}

/// Whether a member's header opens.
pub open spec fn opens(m: (Seq<char>, bool, bool, bool, Seq<u8>)) -> bool {
    m.1
}

/// Whether a member's name stays inside the extraction root.
pub open spec fn enclosed(m: (Seq<char>, bool, bool, bool, Seq<u8>)) -> bool {
    m.2
}

/// Whether a member's bytes read in full and pass the checksum.
pub open spec fn reads(m: (Seq<char>, bool, bool, bool, Seq<u8>)) -> bool {
    m.3
}

/// A member's decompressed bytes.
pub open spec fn data_of(m: (Seq<char>, bool, bool, bool, Seq<u8>)) -> Seq<u8> {
    m.4
}

/// Relies on zip::ZipArchive::new: parses the central directory of an
/// in-memory archive, or fails; the outcome depends on the bytes alone.
#[verifier::external_body]
fn parse_zip(bytes: Vec<u8>) -> (r: Option<ZipArchive<Cursor<Vec<u8>>>>)
    ensures
        r is Some <==> zip_parsed(bytes@) is Some,
        r is Some ==> zip_members(r.unwrap()) == zip_parsed(bytes@).unwrap(),
{
    ZipArchive::new(Cursor::new(bytes)).ok()
}

/// Relies on zip::ZipArchive::len: the number of members.
#[verifier::external_body]
fn zip_len(a: &ZipArchive<Cursor<Vec<u8>>>) -> (r: usize)
    ensures
        r == zip_members(*a).len(),
{
    a.len()
}

/// Relies on zip::ZipArchive::index_for_name: the index of the member stored
/// under exactly `name`.
#[verifier::external_body]
fn zip_index_for_name(a: &ZipArchive<Cursor<Vec<u8>>>, name: &str) -> (r: Option<usize>)
    ensures
        match r {
            Some(i) => i < zip_members(*a).len() && name_of(zip_members(*a)[i as int]) == name@,
            None => forall|i: int| 0 <= i < zip_members(*a).len() ==> name_of(zip_members(*a)[i]) != name@,
        },
{
    a.index_for_name(name)
}

/// Relies on zip::ZipArchive::by_index and zip::read::ZipFile::enclosed_name:
/// whether member `i`'s name resolves to an enclosed path, where its header
/// opens.
#[verifier::external_body]
fn zip_member_enclosed(a: &mut ZipArchive<Cursor<Vec<u8>>>, i: usize) -> (r: Option<bool>)
    ensures
        zip_members(*final(a)) == zip_members(*old(a)),
        r is None <==> (i >= zip_members(*old(a)).len() || !opens(zip_members(*old(a))[i as int])),
        r is Some ==> r.unwrap() == enclosed(zip_members(*old(a))[i as int]),
{
    match a.by_index(i) {
        Ok(f) => Some(f.enclosed_name().is_some()),
        Err(_) => None,
    }
}

/// Relies on zip::ZipArchive::by_index and std::io::Read::read_to_end on the
/// member: its decompressed bytes, where they read and pass the checksum.
#[verifier::external_body]
fn zip_read_member(a: &mut ZipArchive<Cursor<Vec<u8>>>, i: usize) -> (r: Option<Vec<u8>>)
    ensures
        zip_members(*final(a)) == zip_members(*old(a)),
        r is None <==> (i >= zip_members(*old(a)).len() || !reads(zip_members(*old(a))[i as int])),
        r is Some ==> r.unwrap()@ == data_of(zip_members(*old(a))[i as int]),
{
    let mut f = a.by_index(i).ok()?;
    let mut data: Vec<u8> = Vec::new();
    std::io::Read::read_to_end(&mut f, &mut data).ok()?;
    Some(data)
}

/// The outcome of checking every member's stored path.
#[derive(Debug, PartialEq, Eq)]
pub enum ArchiveVerdict {
    /// Every member's path stays inside the extraction root.
    Sound,
    /// Member `index` would escape the extraction root.
    Escaping { index: usize },
    /// Member `index`'s header could not be read.
    Unreadable { index: usize },
    /// The bytes are not a zip archive.
    Malformed,
}

impl ArchiveVerdict {
    /// An archive with this verdict may be kept as downloaded.
    pub open spec fn keeps(&self) -> bool {
        *self is Sound
    }

    pub fn is_sound(&self) -> (r: bool)
        ensures
            r == self.keeps(),
    {
        match self {
            ArchiveVerdict::Sound => true,
            _ => false,
        }
    }

    /// What `check` answers on an archive with these members: the first
    /// member whose header does not open or whose path escapes decides.
    pub open spec fn fits(&self, members: Seq<(Seq<char>, bool, bool, bool, Seq<u8>)>) -> bool {
        match *self {
            ArchiveVerdict::Sound => forall|i: int| 0 <= i < members.len() ==> opens(members[i]) && enclosed(members[i]),
            ArchiveVerdict::Escaping { index } => {
                &&& index < members.len()
                &&& opens(members[index as int])
                &&& !enclosed(members[index as int])
                &&& forall|i: int| 0 <= i < index ==> opens(members[i]) && enclosed(members[i])
            },
            ArchiveVerdict::Unreadable { index } => {
                &&& index < members.len()
                &&& !opens(members[index as int])
                &&& forall|i: int| 0 <= i < index ==> opens(members[i]) && enclosed(members[i])
            },
            ArchiveVerdict::Malformed => false,
        }
    }
}

/// What extracting one pair of a plan came to.
#[derive(Debug, PartialEq, Eq)]
pub enum Extracted {
    /// The member's bytes, to be written at `dst` under the output root.
    Written { dst: String, data: Vec<u8> },
    /// The archive holds no member of that name.
    Missing { src: String },
    /// The member is there but its bytes could not be read.
    Failed { src: String },
}

/// An archive read into memory.
pub struct Archive {
    inner: ZipArchive<Cursor<Vec<u8>>>,
}

/// Whether `r` is the outcome of extracting `pair` from an archive with
/// these members.
pub open spec fn extracted_from(members: Seq<(Seq<char>, bool, bool, bool, Seq<u8>)>, pair: ExtractPair, r: Extracted) -> bool {
    match r {
        Extracted::Written { dst, data } => {
            &&& dst == pair.dst
            &&& exists|i: int|
                0 <= i < members.len() && name_of(members[i]) == pair.src@ && reads(members[i]) && data_of(members[i]) == data@
        },
        Extracted::Missing { src } => {
            &&& src == pair.src
            &&& forall|i: int| 0 <= i < members.len() ==> name_of(members[i]) != pair.src@
        },
        Extracted::Failed { src } => {
            &&& src == pair.src
            &&& exists|i: int| 0 <= i < members.len() && name_of(members[i]) == pair.src@ && !reads(members[i])
        },
    }
}

/// Where member names are distinct, a pair whose member is present and reads
/// is always written, with exactly that member's bytes.
pub proof fn lemma_readable_member_written(
    members: Seq<(Seq<char>, bool, bool, bool, Seq<u8>)>,
    pair: ExtractPair,
    r: Extracted,
    i: int,
)
    requires
        forall|j: int, k: int| 0 <= j < k < members.len() ==> name_of(members[j]) != name_of(members[k]),
        0 <= i < members.len(),
        name_of(members[i]) == pair.src@,
        reads(members[i]),
        extracted_from(members, pair, r),
    ensures
        r matches Extracted::Written { dst, data } && dst == pair.dst && data@ == data_of(members[i]),
{
    match r {
        Extracted::Written { dst, data } => {
            let j = choose|j: int|
                0 <= j < members.len() && name_of(members[j]) == pair.src@ && reads(members[j]) && data_of(members[j]) == data@;
            if j < i {
                assert(name_of(members[j]) != name_of(members[i]));
            } else if i < j {
                assert(name_of(members[i]) != name_of(members[j]));
            }
        },
        Extracted::Missing { .. } => {
            assert(name_of(members[i]) != pair.src@);
        },
        Extracted::Failed { .. } => {
            let j = choose|j: int| 0 <= j < members.len() && name_of(members[j]) == pair.src@ && !reads(members[j]);
            if j < i {
                assert(name_of(members[j]) != name_of(members[i]));
            } else if i < j {
                assert(name_of(members[i]) != name_of(members[j]));
            }
        },
    }
}

impl Archive {
    pub closed spec fn members(&self) -> Seq<(Seq<char>, bool, bool, bool, Seq<u8>)> {
        zip_members(self.inner)
    }

    /// Reads `bytes` as a zip archive; `None` where they are not one.
    pub fn open(bytes: Vec<u8>) -> (r: Option<Archive>)
        ensures
            r is Some <==> zip_parsed(bytes@) is Some,
            r is Some ==> r.unwrap().members() == zip_parsed(bytes@).unwrap(),
    {
        match parse_zip(bytes) {
            Some(inner) => Some(Archive { inner }),
            None => None,
        }
    }

    pub fn len(&self) -> (r: usize)
        ensures
            r == self.members().len(),
    {
        zip_len(&self.inner)
    }

    /// Checks every member's stored path, in index order, and stops at the
    /// first one that would escape the extraction root or cannot be read.
    pub fn check(&mut self) -> (r: ArchiveVerdict)
        ensures
            final(self).members() == old(self).members(),
            r.fits(old(self).members()),
    {
        let n = zip_len(&self.inner);
        let mut i: usize = 0;
        while i < n
            invariant
                n == self.members().len(),
                self.members() == old(self).members(),
                i <= n,
                forall|j: int| 0 <= j < i ==> opens(self.members()[j]) && enclosed(self.members()[j]),
            decreases n - i,
        {
            match zip_member_enclosed(&mut self.inner, i) {
                Some(true) => {},
                Some(false) => {
                    return ArchiveVerdict::Escaping { index: i };
                },
                None => {
                    return ArchiveVerdict::Unreadable { index: i };
                },
            }
            i = i + 1;
        }
        ArchiveVerdict::Sound
    }

    /// Takes out the members that `plan` names, each for its destination, in
    /// plan order; a member that is absent or unreadable is reported and the
    /// rest go on.
    pub fn extract(&mut self, plan: &Vec<ExtractPair>) -> (r: Vec<Extracted>)
        ensures
            final(self).members() == old(self).members(),
            r@.len() == plan@.len(),
            forall|k: int| 0 <= k < plan@.len() ==> extracted_from(old(self).members(), plan@[k], #[trigger] r@[k]),
    {
        let mut out: Vec<Extracted> = Vec::new();
        let n = plan.len();
        let mut k: usize = 0;
        while k < n
            invariant
                n == plan@.len(),
                self.members() == old(self).members(),
                k <= n,
                out@.len() == k,
                forall|j: int| 0 <= j < k ==> extracted_from(old(self).members(), plan@[j], #[trigger] out@[j]),
            decreases n - k,
        {
            let pair = &plan[k];
            let e = match zip_index_for_name(&self.inner, pair.src.as_str()) {
                None => Extracted::Missing { src: pair.src.clone() },
                Some(i) => match zip_read_member(&mut self.inner, i) {
                    Some(data) => Extracted::Written { dst: pair.dst.clone(), data },
                    None => Extracted::Failed { src: pair.src.clone() },
                },
            };
            out.push(e);
            k = k + 1;
        }
        out
    }
}

/// Checks `bytes` as an archive: `Malformed` where they do not parse, else
/// the verdict of `Archive::check`.
pub fn inspect(bytes: Vec<u8>) -> (r: ArchiveVerdict)
    ensures
        r is Malformed <==> zip_parsed(bytes@) is None,
        !(r is Malformed) ==> r.fits(zip_parsed(bytes@).unwrap()),
{
    match Archive::open(bytes) {
        Some(mut a) => a.check(),
        None => ArchiveVerdict::Malformed,
    }
}

} // verus!
