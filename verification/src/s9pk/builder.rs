//! Writing a package file: the header, then the sections one after the
//! other, with the table of contents saying where each lies.

use vstd::prelude::*;
use vstd::slice::*;
use vstd::string::*;
use crate::error::{Error, ErrorKind};
use crate::s9pk::header::{
    header_bytes, header_of, header_roundtrip, FileSection, HEADER_SIZE, Header, TableOfContents,
};

verus! {

/// What goes into a package file.
pub struct S9pkPacker<'a> {
    /// What the file holds already; the package is written after it.
    pub writer: Vec<u8>,
    /// The manifest, encoded.
    pub manifest: &'a [u8],
    /// The icon.
    pub icon: &'a [u8],
    /// The container images, as the runtime loads them.
    pub docker_images: &'a [u8],
    /// The instructions, where there are any.
    pub instructions: Option<&'a str>,
}

/// The bytes of the instructions; none where there are no instructions.
pub open spec fn instruction_bytes(instructions: Option<Seq<char>>) -> Seq<u8> {
    match instructions {
        Some(text) => vstd::utf8::encode_utf8(text),
        None => Seq::empty(),
    }
}

/// Where the sections lie when the header starts at `start`: the manifest
/// right after the header, then the icon, the container images and the
/// instructions, each where the one before it ends. There is no license;
/// its section is empty.
pub open spec fn layout(start: int, manifest: int, icon: int, images: int, instructions: int)
    -> TableOfContents {
    let first = start + HEADER_SIZE;
    TableOfContents {
        manifest: FileSection { position: first as u64, length: manifest as u64 },
        license: FileSection { position: (first + manifest) as u64, length: 0 },
        instructions: FileSection {
            position: (first + manifest + icon + images) as u64,
            length: instructions as u64,
        },
        icon: FileSection { position: (first + manifest) as u64, length: icon as u64 },
        docker_images: FileSection {
            position: (first + manifest + icon) as u64,
            length: images as u64,
        },
    }
}

/// The number of bytes of the file once the package is written.
pub open spec fn packed_len(
    before: Seq<u8>,
    manifest: Seq<u8>,
    icon: Seq<u8>,
    images: Seq<u8>,
    instructions: Option<Seq<char>>,
) -> int {
    before.len() + HEADER_SIZE + manifest.len() + icon.len() + images.len() + instruction_bytes(
        instructions,
    ).len()
}

/// The content of a package: its sections, one after the other.
pub open spec fn content(
    manifest: Seq<u8>,
    icon: Seq<u8>,
    images: Seq<u8>,
    instructions: Option<Seq<char>>,
) -> Seq<u8> {
    manifest + icon + images + instruction_bytes(instructions)
}

/// The file once the package is written: what it held, the header, and
/// the content.
pub open spec fn packed(
    before: Seq<u8>,
    manifest: Seq<u8>,
    icon: Seq<u8>,
    images: Seq<u8>,
    instructions: Option<Seq<char>>,
) -> Seq<u8> {
    before + header_bytes(
        Header {
            table_of_contents: layout(
                before.len() as int,
                manifest.len() as int,
                icon.len() as int,
                images.len() as int,
                instruction_bytes(instructions).len() as int,
            ),
        },
    ) + content(manifest, icon, images, instructions)
}

/// The bytes of `section` in `bytes`; `None` where the section does not
/// lie inside them.
pub open spec fn region(bytes: Seq<u8>, section: FileSection) -> Option<Seq<u8>> {
    if section.position + section.length <= bytes.len() {
        Some(bytes.subrange(section.position as int, section.position + section.length))
    } else {
        None
    }
}

/// Do all sections lie inside a file of `len` bytes?
pub open spec fn sections_fit(toc: TableOfContents, len: int) -> bool {
    &&& toc.manifest.position + toc.manifest.length <= len
    &&& toc.license.position + toc.license.length <= len
    &&& toc.instructions.position + toc.instructions.length <= len
    &&& toc.icon.position + toc.icon.length <= len
    &&& toc.docker_images.position + toc.docker_images.length <= len
}

impl<'a> S9pkPacker<'a> {
    /// Writes the package after what `writer` holds: the header, and right
    /// after it the content, which is the manifest, the icon, the container
    /// images and, where there are any, the instructions. Fails, with kind
    /// `Pack`, exactly when the file would be too long for its positions to be
    /// written down.
    pub fn pack(self) -> (r: Result<Vec<u8>, Error>)
        ensures
            r is Ok <==> packed_len(
                self.writer@,
                self.manifest@,
                self.icon@,
                self.docker_images@,
                match self.instructions {
                    Some(t) => Some(t@),
                    None => None,
                },
            ) <= u64::MAX,
            r matches Ok(file) ==> file@ == packed(
                self.writer@,
                self.manifest@,
                self.icon@,
                self.docker_images@,
                match self.instructions {
                    Some(t) => Some(t@),
                    None => None,
                },
            ),
            r matches Err(e) ==> e.kind == ErrorKind::Pack,
    {
        let mut out = self.writer;
        let ghost before = out@;
        let empty: &[u8] = &[];
        let instructions: &[u8] = match self.instructions {
            Some(text) => text.as_bytes(),
            None => {
                assert(empty@ =~= Seq::<u8>::empty());
                empty
            },
        };
        let a = out.len() as u128 + HEADER_SIZE as u128;
        let b = a + self.manifest.len() as u128;
        let c = b + self.icon.len() as u128;
        let d = c + self.docker_images.len() as u128;
        let e = d + instructions.len() as u128;
        if e > u64::MAX as u128 {
            return Err(Error::of(ErrorKind::Pack, "Package Is Too Large"));
        }
        let header = Header {
            table_of_contents: TableOfContents {
                manifest: FileSection { position: a as u64, length: self.manifest.len() as u64 },
                license: FileSection { position: b as u64, length: 0 },
                instructions: FileSection { position: d as u64, length: instructions.len() as u64 },
                icon: FileSection { position: b as u64, length: self.icon.len() as u64 },
                docker_images: FileSection {
                    position: c as u64,
                    length: self.docker_images.len() as u64,
                },
            },
        };
        header.serialize(&mut out);
        out.extend_from_slice(self.manifest);
        out.extend_from_slice(self.icon);
        out.extend_from_slice(self.docker_images);
        out.extend_from_slice(instructions);
        assert(out@ =~= before + header_bytes(header) + (self.manifest@ + self.icon@
            + self.docker_images@ + instructions@));
        Ok(out)
    }
}

/// The sections that follow a header lie where the layout says.
proof fn regions_after_header(
    head: Seq<u8>,
    manifest: Seq<u8>,
    icon: Seq<u8>,
    images: Seq<u8>,
    instructions: Seq<u8>,
)
    requires
        head.len() == HEADER_SIZE,
        head.len() + manifest.len() + icon.len() + images.len() + instructions.len() <= u64::MAX,
    ensures
        ({
            let file = head + (manifest + icon + images + instructions);
            let toc = layout(
                0,
                manifest.len() as int,
                icon.len() as int,
                images.len() as int,
                instructions.len() as int,
            );
            &&& sections_fit(toc, file.len() as int)
            &&& region(file, toc.manifest) == Some(manifest)
            &&& region(file, toc.icon) == Some(icon)
            &&& region(file, toc.docker_images) == Some(images)
            &&& region(file, toc.instructions) == Some(instructions)
            &&& region(file, toc.license) == Some(Seq::<u8>::empty())
        }),
{
    let file = head + (manifest + icon + images + instructions);
    let toc = layout(
        0,
        manifest.len() as int,
        icon.len() as int,
        images.len() as int,
        instructions.len() as int,
    );
    assert(file.len() == 83 + manifest.len() + icon.len() + images.len() + instructions.len());
    assert(region(file, toc.manifest)->0 =~= manifest);
    assert(region(file, toc.icon)->0 =~= icon);
    assert(region(file, toc.docker_images)->0 =~= images);
    assert(region(file, toc.instructions)->0 =~= instructions);
    assert(region(file, toc.license)->0 =~= Seq::<u8>::empty());
}

/// A package written to an empty file is read back. Its header is found,
/// and the table of contents puts the manifest right after the header, the
/// icon right after the manifest, the container images right after the icon
/// and the instructions right after the images, where the file ends. Every
/// section lies inside the file, and the manifest, the icon, the container
/// images and the instructions are the bytes that were packed.
pub proof fn pack_then_read(
    manifest: Seq<u8>,
    icon: Seq<u8>,
    images: Seq<u8>,
    instructions: Option<Seq<char>>,
)
    requires
        packed_len(Seq::empty(), manifest, icon, images, instructions) <= u64::MAX,
    ensures
        ({
            let file = packed(Seq::empty(), manifest, icon, images, instructions);
            let text = instruction_bytes(instructions);
            let toc = layout(
                0,
                manifest.len() as int,
                icon.len() as int,
                images.len() as int,
                text.len() as int,
            );
            &&& header_of(file) == Some(Header { table_of_contents: toc })
            &&& toc.manifest.position == HEADER_SIZE && toc.manifest.length == manifest.len()
            &&& toc.icon.position == HEADER_SIZE + manifest.len() && toc.icon.length == icon.len()
            &&& toc.docker_images.position == HEADER_SIZE + manifest.len() + icon.len()
                && toc.docker_images.length == images.len()
            &&& toc.instructions.position == HEADER_SIZE + manifest.len() + icon.len()
                + images.len() && toc.instructions.length == text.len()
            &&& file.len() == HEADER_SIZE + manifest.len() + icon.len() + images.len() + text.len()
            &&& sections_fit(toc, file.len() as int)
            &&& region(file, toc.manifest) == Some(manifest)
            &&& region(file, toc.icon) == Some(icon)
            &&& region(file, toc.docker_images) == Some(images)
            &&& region(file, toc.instructions) == Some(text)
            &&& region(file, toc.license) == Some(Seq::<u8>::empty())
        }),
{
    let file = packed(Seq::empty(), manifest, icon, images, instructions);
    let toc = layout(
        0,
        manifest.len() as int,
        icon.len() as int,
        images.len() as int,
        instruction_bytes(instructions).len() as int,
    );
    let header = Header { table_of_contents: toc };
    let sections = content(manifest, icon, images, instructions);
    header_roundtrip(header, sections);
    let head = header_bytes(header);
    regions_after_header(head, manifest, icon, images, instruction_bytes(instructions));
    assert(file =~= head + sections);
}

} // verus!
