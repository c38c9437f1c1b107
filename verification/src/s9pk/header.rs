//! The header of a package file: a magic number, the format version, and
//! the table of contents, which says where each section lies.

use vstd::prelude::*;

verus! {

/// What every package file begins with.
pub const MAGIC: [u8; 2] = [0x3b, 0x3b];

/// The version of the format.
pub const VERSION: u8 = 1;

/// The number of bytes of one entry of the table of contents.
pub const SECTION_SIZE: usize = 16;

/// The number of bytes of the header.
pub const HEADER_SIZE: usize = 83;

/// Where a section lies in the file.
#[derive(Clone, Copy, Debug, PartialEq, Eq, Structural)]
pub struct FileSection {
    pub position: u64,
    pub length: u64,
}

/// Where the sections of a package file lie.
#[derive(Clone, Copy, Debug, PartialEq, Eq, Structural)]
pub struct TableOfContents {
    pub manifest: FileSection,
    pub license: FileSection,
    pub instructions: FileSection,
    pub icon: FileSection,
    pub docker_images: FileSection,
}

/// The header of a package file.
#[derive(Clone, Copy, Debug, PartialEq, Eq, Structural)]
pub struct Header {
    pub table_of_contents: TableOfContents,
}

/// `n` without its `k` least significant bytes.
pub open spec fn shifted(n: u64, k: nat) -> u64
    decreases k,
{
    if k == 0 {
        n
    } else {
        shifted(n, (k - 1) as nat) / 0x100
    }
}

/// The eight bytes of `n`, most significant first.
#[verifier::opaque]
pub open spec fn be64(n: u64) -> Seq<u8> {
    seq![
        (shifted(n, 7) % 0x100) as u8,
        (shifted(n, 6) % 0x100) as u8,
        (shifted(n, 5) % 0x100) as u8,
        (shifted(n, 4) % 0x100) as u8,
        (shifted(n, 3) % 0x100) as u8,
        (shifted(n, 2) % 0x100) as u8,
        (shifted(n, 1) % 0x100) as u8,
        (n % 0x100) as u8,
    ]
}

/// The number whose eight bytes, most significant first, stand at `at` in
/// `bytes`.
pub open spec fn from_be64(bytes: Seq<u8>, at: int) -> u64 {
    (((((((bytes[at] as int * 0x100 + bytes[at + 1] as int) * 0x100 + bytes[at + 2] as int) * 0x100
        + bytes[at + 3] as int) * 0x100 + bytes[at + 4] as int) * 0x100 + bytes[at + 5] as int)
        * 0x100 + bytes[at + 6] as int) * 0x100 + bytes[at + 7] as int) as u64
}

/// The bytes of one entry of the table of contents.
pub open spec fn section_bytes(s: FileSection) -> Seq<u8> {
    be64(s.position) + be64(s.length)
}

/// The entry of the table of contents that stands at `at` in `bytes`.
pub open spec fn section_at(bytes: Seq<u8>, at: int) -> FileSection {
    FileSection { position: from_be64(bytes, at), length: from_be64(bytes, at + 8) }
}

/// The bytes of a header.
#[verifier::opaque]
pub open spec fn header_bytes(h: Header) -> Seq<u8> {
    seq![0x3bu8, 0x3bu8, 1u8] + section_bytes(h.table_of_contents.manifest) + section_bytes(
        h.table_of_contents.license,
    ) + section_bytes(h.table_of_contents.instructions) + section_bytes(h.table_of_contents.icon)
        + section_bytes(h.table_of_contents.docker_images)
}

/// The header that `bytes` begin with, if they begin with one: the magic
/// number, the version, and room for the table of contents.
pub open spec fn header_of(bytes: Seq<u8>) -> Option<Header> {
    if bytes.len() >= HEADER_SIZE && bytes[0] == 0x3b && bytes[1] == 0x3b && bytes[2] == 1 {
        Some(
            Header {
                table_of_contents: TableOfContents {
                    manifest: section_at(bytes, 3),
                    license: section_at(bytes, 19),
                    instructions: section_at(bytes, 35),
                    icon: section_at(bytes, 51),
                    docker_images: section_at(bytes, 67),
                },
            },
        )
    } else {
        None
    }
}

/// Reading the eight bytes of a number gives the number back.
pub proof fn be64_roundtrip(n: u64, bytes: Seq<u8>, at: int)
    requires
        0 <= at,
        at + 8 <= bytes.len(),
        bytes.subrange(at, at + 8) == be64(n),
    ensures
        from_be64(bytes, at) == n,
{
    reveal(be64);
    let b = bytes.subrange(at, at + 8);
    assert(b[0] == bytes[at]);
    assert(b[1] == bytes[at + 1]);
    assert(b[2] == bytes[at + 2]);
    assert(b[3] == bytes[at + 3]);
    assert(b[4] == bytes[at + 4]);
    assert(b[5] == bytes[at + 5]);
    assert(b[6] == bytes[at + 6]);
    assert(b[7] == bytes[at + 7]);
    reveal_with_fuel(shifted, 8);
    let r1 = shifted(n, 1);
    let r2 = shifted(n, 2);
    let r3 = shifted(n, 3);
    let r4 = shifted(n, 4);
    let r5 = shifted(n, 5);
    let r6 = shifted(n, 6);
    let r7 = shifted(n, 7);
    assert(n == r1 * 0x100 + n % 0x100);
    assert(r1 == r2 * 0x100 + r1 % 0x100);
    assert(r2 == r3 * 0x100 + r2 % 0x100);
    assert(r3 == r4 * 0x100 + r3 % 0x100);
    assert(r4 == r5 * 0x100 + r4 % 0x100);
    assert(r5 == r6 * 0x100 + r5 % 0x100);
    assert(r6 == r7 * 0x100 + r6 % 0x100);
    assert(r7 < 0x100);
}

/// A number has eight bytes.
pub proof fn be64_len(n: u64)
    ensures
        be64(n).len() == 8,
{
    reveal(be64);
}

/// An entry of the table of contents is read back from its bytes.
pub proof fn section_roundtrip(s: FileSection, bytes: Seq<u8>, at: int)
    requires
        0 <= at,
        at + 16 <= bytes.len(),
        bytes.subrange(at, at + 16) == section_bytes(s),
    ensures
        section_at(bytes, at) == s,
        section_bytes(s).len() == 16,
{
    be64_len(s.position);
    be64_len(s.length);
    assert(bytes.subrange(at, at + 8) =~= be64(s.position)) by {
        assert(bytes.subrange(at, at + 8) =~= bytes.subrange(at, at + 16).subrange(0, 8));
    }
    assert(bytes.subrange(at + 8, at + 16) =~= be64(s.length)) by {
        assert(bytes.subrange(at + 8, at + 16) =~= bytes.subrange(at, at + 16).subrange(8, 16));
    }
    be64_roundtrip(s.position, bytes, at);
    be64_roundtrip(s.length, bytes, at + 8);
}

/// An entry of the table of contents has sixteen bytes.
pub proof fn section_len(s: FileSection)
    ensures
        section_bytes(s).len() == 16,
{
    be64_len(s.position);
    be64_len(s.length);
}

/// A header is read back from its bytes, whatever follows them.
pub proof fn header_roundtrip(h: Header, rest: Seq<u8>)
    ensures
        header_bytes(h).len() == HEADER_SIZE,
        header_of(header_bytes(h) + rest) == Some(h),
{
    reveal(header_bytes);
    let bytes = header_bytes(h) + rest;
    let t = h.table_of_contents;
    section_len(t.manifest);
    section_len(t.license);
    section_len(t.instructions);
    section_len(t.icon);
    section_len(t.docker_images);
    assert(header_bytes(h).len() == 83);
    assert(bytes.subrange(3, 19) =~= section_bytes(t.manifest));
    assert(bytes.subrange(19, 35) =~= section_bytes(t.license));
    assert(bytes.subrange(35, 51) =~= section_bytes(t.instructions));
    assert(bytes.subrange(51, 67) =~= section_bytes(t.icon));
    assert(bytes.subrange(67, 83) =~= section_bytes(t.docker_images));
    section_roundtrip(t.manifest, bytes, 3);
    section_roundtrip(t.license, bytes, 19);
    section_roundtrip(t.instructions, bytes, 35);
    section_roundtrip(t.icon, bytes, 51);
    section_roundtrip(t.docker_images, bytes, 67);
}

/// Appends the eight bytes of `n`, most significant first.
fn push_be64(n: u64, out: &mut Vec<u8>)
    ensures
        final(out)@ == old(out)@ + be64(n),
{
    proof {
        reveal(be64);
        reveal_with_fuel(shifted, 8);
    }
    let r1 = n / 0x100;
    let r2 = r1 / 0x100;
    let r3 = r2 / 0x100;
    let r4 = r3 / 0x100;
    let r5 = r4 / 0x100;
    let r6 = r5 / 0x100;
    let r7 = r6 / 0x100;
    out.push((r7 % 0x100) as u8);
    out.push((r6 % 0x100) as u8);
    out.push((r5 % 0x100) as u8);
    out.push((r4 % 0x100) as u8);
    out.push((r3 % 0x100) as u8);
    out.push((r2 % 0x100) as u8);
    out.push((r1 % 0x100) as u8);
    out.push((n % 0x100) as u8);
    assert(out@ =~= old(out)@ + be64(n));
}

/// Reads the number whose eight bytes stand at `at`.
fn read_be64(bytes: &[u8], at: usize) -> (n: u64)
    requires
        at + 8 <= bytes@.len(),
    ensures
        n == from_be64(bytes@, at as int),
{
    let mut n: u64 = bytes[at] as u64;
    n = n * 0x100 + bytes[at + 1] as u64;
    n = n * 0x100 + bytes[at + 2] as u64;
    n = n * 0x100 + bytes[at + 3] as u64;
    n = n * 0x100 + bytes[at + 4] as u64;
    n = n * 0x100 + bytes[at + 5] as u64;
    n = n * 0x100 + bytes[at + 6] as u64;
    n = n * 0x100 + bytes[at + 7] as u64;
    n
}

impl FileSection {
    /// Appends the bytes of the entry.
    pub fn serialize(&self, out: &mut Vec<u8>)
        ensures
            final(out)@ == old(out)@ + section_bytes(*self),
    {
        push_be64(self.position, out);
        push_be64(self.length, out);
        assert(out@ =~= old(out)@ + section_bytes(*self));
    }

    /// Reads the entry that stands at `at`.
    pub fn deserialize(bytes: &[u8], at: usize) -> (s: FileSection)
        requires
            at + SECTION_SIZE <= bytes@.len(),
        ensures
            s == section_at(bytes@, at as int),
    {
        let len = bytes.len();
        assert(at + 8 <= len);
        FileSection { position: read_be64(bytes, at), length: read_be64(bytes, at + 8) }
    }
}

impl Header {
    /// The header written before the sections are: every section empty, at
    /// the start of the file.
    pub fn placeholder() -> (h: Header)
        ensures
            h == (Header {
                table_of_contents: TableOfContents {
                    manifest: FileSection { position: 0, length: 0 },
                    license: FileSection { position: 0, length: 0 },
                    instructions: FileSection { position: 0, length: 0 },
                    icon: FileSection { position: 0, length: 0 },
                    docker_images: FileSection { position: 0, length: 0 },
                },
            }),
    {
        let empty = FileSection { position: 0, length: 0 };
        Header {
            table_of_contents: TableOfContents {
                manifest: empty,
                license: empty,
                instructions: empty,
                icon: empty,
                docker_images: empty,
            },
        }
    }

    /// Appends the bytes of the header.
    pub fn serialize(&self, out: &mut Vec<u8>)
        ensures
            final(out)@ == old(out)@ + header_bytes(*self),
    {
        proof {
            reveal(header_bytes);
        }
        out.push(0x3b);
        out.push(0x3b);
        out.push(1);
        self.table_of_contents.manifest.serialize(out);
        self.table_of_contents.license.serialize(out);
        self.table_of_contents.instructions.serialize(out);
        self.table_of_contents.icon.serialize(out);
        self.table_of_contents.docker_images.serialize(out);
        assert(out@ =~= old(out)@ + header_bytes(*self));
    }

    /// Reads the header that `bytes` begin with; `None` where they are too
    /// short, or do not begin with the magic number and the version.
    pub fn deserialize(bytes: &[u8]) -> (h: Option<Header>)
        ensures
            h == header_of(bytes@),
    {
        if bytes.len() < HEADER_SIZE || bytes[0] != 0x3b || bytes[1] != 0x3b || bytes[2] != 1 {
            return None;
        }
        Some(
            Header {
                table_of_contents: TableOfContents {
                    manifest: FileSection::deserialize(bytes, 3),
                    license: FileSection::deserialize(bytes, 19),
                    instructions: FileSection::deserialize(bytes, 35),
                    icon: FileSection::deserialize(bytes, 51),
                    docker_images: FileSection::deserialize(bytes, 67),
                },
            },
        )
    }
}

} // verus!
