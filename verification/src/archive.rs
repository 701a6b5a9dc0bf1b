//! Tar archives in memory.
use vstd::prelude::*;

use crate::text::{self, Text};

verus! {

// ---- Writing

/// An archive that is being written, over a `tar::Builder` that writes to memory.
#[verifier::external_body]
pub struct ArchiveBuilder {
    builder: tar::Builder<Vec<u8>>,
}

/// The members of an archive that is being written: their names, what their headers
/// record, and their contents.
pub uninterp spec fn builder_members(builder: ArchiveBuilder) -> Seq<
    (Seq<char>, Recorded, Seq<u8>),
>;

/// Whether every member so far was written as a whole.
pub uninterp spec fn builder_is_whole(builder: ArchiveBuilder) -> bool;

/// What an archive records of a file beside its name and contents.
#[derive(Debug, Clone, Copy)]
pub struct Attributes {
    pub mode: u32,
    pub mtime: u64,
    pub uid: u64,
    pub gid: u64,
}

/// What a header records; a field may be blank.
#[derive(Debug, Clone, Copy, PartialEq, Eq)]
pub struct Recorded {
    pub mode: Option<u32>,
    pub mtime: Option<u64>,
    pub uid: Option<u64>,
    pub gid: Option<u64>,
}

impl Attributes {
    pub open spec fn recorded(self) -> Recorded {
        Recorded {
            mode: Some(self.mode),
            mtime: Some(self.mtime),
            uid: Some(self.uid),
            gid: Some(self.gid),
        }
    }
}

impl Recorded {
    /// Whether the fields of a header have room: seven octal digits for the mode, and 63
    /// bits for each of the ids.
    pub open spec fn fit(self) -> bool {
        &&& self.mode is Some ==> self.mode->0 < 0o10000000
        &&& self.uid is Some ==> self.uid->0 <= i64::MAX
        &&& self.gid is Some ==> self.gid->0 <= i64::MAX
    }
}

/// What the header of a file of nobody in particular, and of no time, records.
pub open spec fn ownerless(mode: u32) -> Recorded {
    Recorded { mode: Some(mode), mtime: Some(0), uid: None, gid: None }
}

/// A name that an archive keeps as it is: short, in ASCII, and not a path.
pub open spec fn is_member_name(name: Text) -> bool {
    &&& 0 < name.len() < 100
    &&& text::is_ascii_alphanumeric(name[0])
    &&& forall|i: int|
        0 <= i < name.len() ==> text::is_ascii_alphanumeric(#[trigger] name[i]) || name[i] == '.'
            || name[i] == '-' || name[i] == '_'
}

/// `tar::Builder::new`: a new archive has no member.
#[verifier::external_body]
pub(crate) fn new_builder() -> (r: ArchiveBuilder)
    ensures
        builder_is_whole(r),
        builder_members(r) == Seq::<(Seq<char>, Recorded, Seq<u8>)>::empty(),
{
    ArchiveBuilder { builder: tar::Builder::new(Vec::new()) }
}

/// `tar::Builder::append_data`, on a new GNU header with a size and a mode: the archive has
/// one more member, a regular file with the name, the mode and the contents, whose ids are
/// left blank. It fails where the name does not fit the header, where reading the contents
/// fails or where writing fails: not for such a name, contents in memory and an archive in
/// memory, which grows as needed.
#[verifier::external_body]
pub(crate) fn append_ownerless(
    archive: &mut ArchiveBuilder,
    name: &str,
    mode: u32,
    contents: &[u8],
) -> (r: Result<(), String>)
    requires
        builder_is_whole(*old(archive)),
        is_member_name(name@),
    ensures
        r is Ok,
        builder_is_whole(*final(archive)),
        builder_members(*final(archive)) == builder_members(*old(archive)).push(
            (name@, ownerless(mode), contents@),
        ),
{
    let mut header = tar::Header::new_gnu();
    header.set_size(contents.len() as u64);
    header.set_mode(mode);
    archive.builder.append_data(&mut header, name, contents).map_err(|error| error.to_string())
}

/// `tar::Builder::append_data`, on the header that tar makes for a file on disk without
/// holes: the archive has one more member, a regular file with the name, the attributes and
/// the contents. It fails as seldom as for a file without an owner; setting the device
/// numbers fails only on a header that is neither GNU nor ustar.
#[verifier::external_body]
pub(crate) fn append_member(
    archive: &mut ArchiveBuilder,
    name: &str,
    attributes: Attributes,
    contents: &[u8],
) -> (r: Result<(), String>)
    requires
        builder_is_whole(*old(archive)),
        is_member_name(name@),
    ensures
        r is Ok,
        builder_is_whole(*final(archive)),
        builder_members(*final(archive)) == builder_members(*old(archive)).push(
            (name@, attributes.recorded(), contents@),
        ),
{
    let mut header = tar::Header::new_gnu();
    header.set_entry_type(tar::EntryType::Regular);
    header.set_size(contents.len() as u64);
    header.set_mode(attributes.mode);
    header.set_mtime(attributes.mtime);
    header.set_uid(attributes.uid);
    header.set_gid(attributes.gid);
    header.set_device_major(0).map_err(|error| error.to_string())?;
    header.set_device_minor(0).map_err(|error| error.to_string())?;
    archive.builder.append_data(&mut header, name, contents).map_err(|error| error.to_string())
}

/// `tar::Builder::into_inner`, on an archive whose members are whole: reading the bytes
/// gives the members back, each as a regular file with its name, size and contents, and
/// with what its header records where that fits, and the headers on the way are those of
/// the members and no others. It fails where writing the end of the archive does, which it
/// does not in memory.
#[verifier::external_body]
pub(crate) fn finish_builder(archive: ArchiveBuilder) -> (r: Result<Vec<u8>, String>)
    requires
        builder_is_whole(archive),
    ensures
        match r {
            Ok(bytes) => {
                &&& archive_heads(bytes@) == Ok::<Seq<HeadView>, Seq<char>>(
                    heads_of(builder_members(archive)),
                )
                &&& forall|i: int|
                    0 <= i < builder_members(archive).len() ==> #[trigger] archive_contents(
                        bytes@,
                        i,
                    ) == Ok::<Seq<u8>, Seq<char>>(builder_members(archive)[i].2)
                &&& forall|i: int|
                    0 <= i < builder_members(archive).len() ==> {
                        &&& (#[trigger] archive_attributes(bytes@, i)) is Ok
                        &&& records(
                            archive_attributes(bytes@, i)->Ok_0,
                            builder_members(archive)[i].1,
                        )
                    }
                &&& archive_walk(bytes@) == plain_walk(builder_members(archive).len())
            },
            Err(_) => false,
        },
{
    archive.builder.into_inner().map_err(|error| error.to_string())
}

// ---- Sparse maps

/// The bytes that mark a GNU header.
pub open spec fn gnu_magic() -> Seq<u8> {
    seq![0x75u8, 0x73u8, 0x74u8, 0x61u8, 0x72u8, 0x20u8, 0x20u8, 0u8]
}

/// Whether the block with a number would, as a header, open a map of a sparse file that
/// goes on in further blocks: a GNU header of type `S` with the extension flag.
pub open spec fn opens_sparse_map(bytes: Seq<u8>, block: int) -> bool {
    let from = 512 * block;
    &&& 0 <= block && from + 482 < bytes.len()
    &&& bytes[from + 156] == 0x53
    &&& bytes.subrange(from + 257, from + 265) == gnu_magic()
    &&& bytes[from + 482] == 1
}

/// Whether some block would open such a map.
pub open spec fn has_sparse_map(bytes: Seq<u8>) -> bool {
    exists|block: int| #[trigger] opens_sparse_map(bytes, block)
}

fn starts_gnu_magic(bytes: &[u8], at: usize) -> (r: bool)
    requires
        at + 8 <= bytes@.len(),
    ensures
        r == (bytes@.subrange(at as int, at + 8) == gnu_magic()),
{
    let r = bytes[at] == 0x75 && bytes[at + 1] == 0x73 && bytes[at + 2] == 0x74 && bytes[at + 3]
        == 0x61 && bytes[at + 4] == 0x72 && bytes[at + 5] == 0x20 && bytes[at + 6] == 0x20
        && bytes[at + 7] == 0;
    proof {
        let part = bytes@.subrange(at as int, at + 8);
        let magic = gnu_magic();
        if r {
            assert(part =~= magic);
        } else {
            assert(part[0] != magic[0] || part[1] != magic[1] || part[2] != magic[2] || part[3]
                != magic[3] || part[4] != magic[4] || part[5] != magic[5] || part[6] != magic[6]
                || part[7] != magic[7]);
        }
    }
    r
}

/// Looks for a block that would open a map of a sparse file.
fn finds_sparse_map(bytes: &[u8]) -> (r: bool)
    ensures
        r == has_sparse_map(bytes@),
{
    let mut block: usize = 0;
    let mut left: usize = bytes.len();
    let mut from: usize = 0;
    while left > 482
        invariant
            from == 512 * block,
            from + left == bytes@.len(),
            forall|i: int| i < block ==> !#[trigger] opens_sparse_map(bytes@, i),
        decreases left,
    {
        if bytes[from + 156] == 0x53 && bytes[from + 482] == 1 && starts_gnu_magic(
            bytes,
            from + 257,
        ) {
            assert(opens_sparse_map(bytes@, block as int));
            return true;
        }
        assert(!opens_sparse_map(bytes@, block as int));
        if left < 512 {
            assert forall|i: int| !#[trigger] opens_sparse_map(bytes@, i) by {
                if i > block {
                    assert(512 * i >= 512 * block + 512);
                }
            }
            return false;
        }
        block += 1;
        from += 512;
        left -= 512;
    }
    assert forall|i: int| !#[trigger] opens_sparse_map(bytes@, i) by {
        if i >= block {
            assert(512 * i >= 512 * block);
        }
    }
    false
}

// ---- Headers on the way

/// A header that is met on the way through an archive, or none where it cannot be read.
#[derive(Debug, Clone, Copy)]
pub enum RawHead {
    NotRead,
    Head { is_sparse: bool, is_extended: bool, is_pax: bool },
}

/// The headers that are met on the way through an archive: what `tar::Entries` goes through
/// where it is `raw`.
pub uninterp spec fn archive_walk(archive: Seq<u8>) -> Seq<RawHead>;

/// Goes through `tar::Archive::entries`, made `raw`, which reads the headers one after the
/// other and nothing else. Of each header it tells whether `EntryType::is_gnu_sparse` holds,
/// whether it is a GNU header with the extension flag, and whether
/// `EntryType::is_pax_local_extensions` holds. That the answer depends on the bytes alone is
/// all that is claimed.
#[verifier::external_body]
fn walk(archive: &[u8]) -> (r: Vec<RawHead>)
    ensures
        r@ == archive_walk(archive@),
{
    let mut archive = tar::Archive::new(archive);
    let entries = match archive.entries() {
        Ok(entries) => entries.raw(true),
        Err(_) => return Vec::new(),
    };
    entries.map(|entry| match entry {
        Err(_) => RawHead::NotRead,
        Ok(entry) => RawHead::Head {
            is_sparse: entry.header().entry_type().is_gnu_sparse(),
            is_extended: entry.header().as_gnu().is_some_and(tar::GnuHeader::is_extended),
            is_pax: entry.header().entry_type().is_pax_local_extensions(),
        },
    }).collect()
}

/// The way through an archive of regular files with GNU headers.
pub open spec fn plain_walk(count: nat) -> Seq<RawHead> {
    Seq::new(
        count,
        |i: int| RawHead::Head { is_sparse: false, is_extended: false, is_pax: false },
    )
}

/// Whether a header opens a map of a sparse file that goes on in further blocks.
pub open spec fn extends_map(head: RawHead) -> bool {
    head matches RawHead::Head { is_sparse, is_extended, .. } && is_sparse && is_extended
}

/// Whether a header says that the next member is other than its own header says.
pub open spec fn overrides_next(head: RawHead) -> bool {
    head matches RawHead::Head { is_pax, .. } && is_pax
}

/// Whether a map of a sparse file that goes on in further blocks is met on the way through
/// an archive, as far as the headers tell. Where a member may be longer than its own header
/// says, the next header may be any block.
pub open spec fn meets_sparse_map(archive: Seq<u8>) -> bool {
    let heads = archive_walk(archive);
    ||| exists|i: int| 0 <= i < heads.len() && extends_map(#[trigger] heads[i])
    ||| has_sparse_map(archive) && exists|i: int|
        0 <= i < heads.len() && overrides_next(#[trigger] heads[i])
}

/// Looks for such a map.
pub(crate) fn finds_extended_map(archive: &[u8]) -> (r: bool)
    ensures
        r == meets_sparse_map(archive@),
{
    let heads = walk(archive);
    let mut pax = false;
    let mut i: usize = 0;
    while i < heads.len()
        invariant
            i <= heads@.len(),
            heads@ == archive_walk(archive@),
            pax == (exists|k: int| 0 <= k < i && overrides_next(#[trigger] heads@[k])),
            forall|k: int| 0 <= k < i ==> !extends_map(#[trigger] heads@[k]),
        decreases heads@.len() - i,
    {
        match heads[i] {
            RawHead::NotRead => {},
            RawHead::Head { is_sparse, is_extended, is_pax } => {
                if is_sparse && is_extended {
                    assert(extends_map(heads@[i as int]));
                    return true;
                }
                if is_pax {
                    assert(overrides_next(heads@[i as int]));
                    pax = true;
                }
            },
        }
        i += 1;
    }
    pax && finds_sparse_map(archive)
}

// ---- Reading

/// What the header of a member says.
#[derive(Debug, Clone)]
pub enum HeadRead {
    NotRead { cause: String },
    Head { is_file: bool, is_ustar: bool, path: MemberPath, size: u64 },
}

#[derive(Debug, Clone)]
pub enum MemberPath {
    Path { path: String },
    Invalid { cause: String },
}

pub enum HeadView {
    NotRead { cause: Text },
    Head { is_file: bool, is_ustar: bool, path: Result<Text, Text>, size: u64 },
}

impl DeepView for MemberPath {
    type V = Result<Text, Text>;

    open spec fn deep_view(&self) -> Result<Text, Text> {
        match self {
            MemberPath::Path { path } => Ok(path@),
            MemberPath::Invalid { cause } => Err(cause@),
        }
    }
}

impl DeepView for HeadRead {
    type V = HeadView;

    open spec fn deep_view(&self) -> HeadView {
        match self {
            HeadRead::NotRead { cause } => HeadView::NotRead { cause: cause@ },
            HeadRead::Head { is_file, is_ustar, path, size } => HeadView::Head {
                is_file: *is_file,
                is_ustar: *is_ustar,
                path: path.deep_view(),
                size: *size,
            },
        }
    }
}

/// The GNU headers of regular files.
pub open spec fn heads_of(members: Seq<(Seq<char>, Recorded, Seq<u8>)>) -> Seq<HeadView> {
    members.map_values(
        |member: (Seq<char>, Recorded, Seq<u8>)|
            HeadView::Head {
                is_file: true,
                is_ustar: false,
                path: Ok(member.0),
                size: member.2.len() as u64,
            },
    )
}

/// What the headers in an archive say, up to the first that cannot be read: what
/// `tar::Archive::entries` goes through.
pub uninterp spec fn archive_heads(archive: Seq<u8>) -> Result<Seq<HeadView>, Seq<char>>;

/// The contents of one member of an archive: what reading the `tar::Entry` with that
/// number to its end gives.
pub uninterp spec fn archive_contents(archive: Seq<u8>, index: int) -> Result<Seq<u8>, Seq<char>>;

/// The attributes of one member of an archive: what `mode`, `mtime`, `uid` and `gid` of the
/// `tar::Header` of the entry with that number give, where they give anything.
pub uninterp spec fn archive_attributes(archive: Seq<u8>, index: int) -> Result<
    Recorded,
    Seq<char>,
>;

/// Whether a header tells what it was given, as it does where that fits.
pub open spec fn records(told: Recorded, given: Recorded) -> bool {
    given.fit() ==> told == given
}

/// Goes through `tar::Archive::entries`. Of each entry it tells whether
/// `EntryType::is_file` holds, whether `Header::as_ustar` gives anything, its `path` and its
/// `size`; an error is told by its message. That the answer depends on the bytes alone is
/// all that is claimed. Where a header that is met opens a sparse map which goes on in
/// further blocks, tar adds to a position that may overflow, so such archives are left out.
/// The headers met are those of the raw way, unless a pax header gives a member another size.
#[verifier::external_body]
pub(crate) fn read_heads(archive: &[u8]) -> (r: Result<Vec<HeadRead>, String>)
    requires
        !meets_sparse_map(archive@),
    ensures
        archive_heads(archive@) == (match r {
            Ok(heads) => Ok(heads.deep_view()),
            Err(cause) => Err(cause@),
        }),
{
    let mut archive = tar::Archive::new(archive);
    let entries = archive.entries().map_err(|error| error.to_string())?;
    Ok(entries.map(|entry| match entry {
        Err(error) => HeadRead::NotRead { cause: error.to_string() },
        Ok(entry) => HeadRead::Head {
            is_file: entry.header().entry_type().is_file(),
            is_ustar: entry.header().as_ustar().is_some(),
            path: match entry.path() {
                Ok(path) => MemberPath::Path { path: path.to_string_lossy().into_owned() },
                Err(error) => MemberPath::Invalid { cause: error.to_string() },
            },
            size: entry.size(),
        },
    }).collect())
}

/// Whether a header is that of a regular file.
pub open spec fn is_regular(head: HeadView) -> bool {
    match head {
        HeadView::NotRead { .. } => false,
        HeadView::Head { is_file, .. } => is_file,
    }
}

/// Reads the `tar::Entry` with a number to its end. That the answer depends on the bytes
/// and the number alone is all that is claimed. Only regular files are read: what a sparse
/// map says of a file may be longer than memory.
#[verifier::external_body]
pub(crate) fn read_member(archive: &[u8], index: usize) -> (r: Result<Vec<u8>, String>)
    requires
        !meets_sparse_map(archive@),
        archive_heads(archive@) is Ok,
        index < archive_heads(archive@)->Ok_0.len(),
        is_regular(archive_heads(archive@)->Ok_0[index as int]),
    ensures
        archive_contents(archive@, index as int) == (match r {
            Ok(contents) => Ok(contents@),
            Err(cause) => Err(cause@),
        }),
{
    let mut archive = tar::Archive::new(archive);
    let mut entries = archive.entries().map_err(|error| error.to_string())?;
    let mut contents = Vec::new();
    match entries.nth(index) {
        Some(Ok(mut entry)) => std::io::Read::read_to_end(&mut entry, &mut contents)
            .map_err(|error| error.to_string())?,
        Some(Err(error)) => return Err(error.to_string()),
        None => return Err(String::new()),
    };
    Ok(contents)
}

/// Tells `mode`, `mtime`, `uid` and `gid` of the `tar::Header` of the `tar::Entry` with a
/// number, each where it can be told. That the answer depends on the bytes and the number
/// alone is all that is claimed.
#[verifier::external_body]
pub(crate) fn read_attributes(archive: &[u8], index: usize) -> (r: Result<Recorded, String>)
    requires
        !meets_sparse_map(archive@),
    ensures
        archive_attributes(archive@, index as int) == (match r {
            Ok(recorded) => Ok(recorded),
            Err(cause) => Err(cause@),
        }),
{
    let mut archive = tar::Archive::new(archive);
    let mut entries = archive.entries().map_err(|error| error.to_string())?;
    match entries.nth(index) {
        Some(Ok(entry)) => Ok(Recorded {
            mode: entry.header().mode().ok(),
            mtime: entry.header().mtime().ok(),
            uid: entry.header().uid().ok(),
            gid: entry.header().gid().ok(),
        }),
        Some(Err(error)) => Err(error.to_string()),
        None => Err(String::new()),
    }
}

} // verus!
