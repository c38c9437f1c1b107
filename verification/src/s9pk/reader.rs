//! Reading a package file: the header is checked, the content is digested,
//! and each section is handed out as the bytes the table of contents names.

use vstd::prelude::*;
use vstd::slice::*;
use crate::error::{Error, ErrorKind};
use crate::s9pk::builder::{region, sections_fit};
use crate::s9pk::header::{header_of, FileSection, HEADER_SIZE, Header, TableOfContents};
use crate::text::string_of;

verus! {

/// The SHA-256 digest of `data`.
pub uninterp spec fn sha256_digest(data: Seq<u8>) -> Seq<u8>;

/// `Sha256::digest`: the digest of `data`, which depends on `data` alone
/// and has 32 bytes.
#[verifier::external_body]
fn sha256(data: &[u8]) -> (digest: Vec<u8>)
    ensures
        digest@ == sha256_digest(data@),
        digest@.len() == 32,
{
    <sha2::Sha256 as sha2::Digest>::digest(data).to_vec()
}

/// The character of one hexadecimal digit.
pub open spec fn hex_digit(d: int) -> char {
    if d == 0 {
        '0'
    } else if d == 1 {
        '1'
    } else if d == 2 {
        '2'
    } else if d == 3 {
        '3'
    } else if d == 4 {
        '4'
    } else if d == 5 {
        '5'
    } else if d == 6 {
        '6'
    } else if d == 7 {
        '7'
    } else if d == 8 {
        '8'
    } else if d == 9 {
        '9'
    } else if d == 10 {
        'a'
    } else if d == 11 {
        'b'
    } else if d == 12 {
        'c'
    } else if d == 13 {
        'd'
    } else if d == 14 {
        'e'
    } else {
        'f'
    }
}

/// The bytes in hexadecimal, two lower-case digits each.
pub open spec fn hex(bytes: Seq<u8>) -> Seq<char>
    decreases bytes.len(),
{
    if bytes.len() == 0 {
        Seq::empty()
    } else {
        hex(bytes.drop_last()).push(hex_digit(bytes.last() as int / 16)).push(
            hex_digit(bytes.last() as int % 16),
        )
    }
}

fn hex_char(d: u8) -> (c: char)
    requires
        d < 16,
    ensures
        c == hex_digit(d as int),
{
    if d == 0 {
        '0'
    } else if d == 1 {
        '1'
    } else if d == 2 {
        '2'
    } else if d == 3 {
        '3'
    } else if d == 4 {
        '4'
    } else if d == 5 {
        '5'
    } else if d == 6 {
        '6'
    } else if d == 7 {
        '7'
    } else if d == 8 {
        '8'
    } else if d == 9 {
        '9'
    } else if d == 10 {
        'a'
    } else if d == 11 {
        'b'
    } else if d == 12 {
        'c'
    } else if d == 13 {
        'd'
    } else if d == 14 {
        'e'
    } else {
        'f'
    }
}

/// The bytes in hexadecimal.
pub fn to_hex(bytes: &Vec<u8>) -> (s: String)
    ensures
        s@ == hex(bytes@),
{
    let mut out: Vec<char> = Vec::new();
    let mut i: usize = 0;
    assert(bytes@.take(0) =~= Seq::empty());
    while i < bytes.len()
        invariant
            i <= bytes@.len(),
            out@ == hex(bytes@.take(i as int)),
        decreases bytes@.len() - i,
    {
        proof {
            let next = bytes@.take(i as int + 1);
            assert(next.drop_last() =~= bytes@.take(i as int));
            assert(next.last() == bytes@[i as int]);
        }
        out.push(hex_char(bytes[i] / 16));
        out.push(hex_char(bytes[i] % 16));
        i = i + 1;
    }
    assert(bytes@.take(i as int) =~= bytes@);
    string_of(&out)
}

/// What is digested of a file: the content, which is everything after
/// the header.
pub open spec fn digested(file: Seq<u8>) -> Seq<u8> {
    file.skip(HEADER_SIZE as int)
}

/// A package file that has been opened.
#[derive(Debug)]
pub struct S9pkReader {
    bytes: Vec<u8>,
    toc: TableOfContents,
    hash: Vec<u8>,
    hash_string: String,
    validated: bool,
}

impl S9pkReader {
    #[verifier::type_invariant]
    closed spec fn consistent(self) -> bool {
        &&& header_of(self.bytes@) == Some(Header { table_of_contents: self.toc })
        &&& self.hash@ == sha256_digest(digested(self.bytes@))
        &&& self.hash_string@ == hex(self.hash@)
        &&& self.validated ==> sections_fit(self.toc, self.bytes@.len() as int)
    }

    /// The bytes of the file.
    pub closed spec fn file(self) -> Seq<u8> {
        self.bytes@
    }

    /// The table of contents read from the header.
    pub closed spec fn contents(self) -> TableOfContents {
        self.toc
    }

    /// Has the file been validated?
    pub closed spec fn is_validated(self) -> bool {
        self.validated
    }

    /// Opens a package file: reads the header, which has to begin with the
    /// magic number and the version, and digests the content. Fails, with
    /// kind `ValidateS9pk`, exactly when the file does not begin with a header.
    pub fn from_reader(bytes: Vec<u8>) -> (r: Result<S9pkReader, Error>)
        ensures
            r is Ok <==> header_of(bytes@) is Some,
            r matches Ok(reader) ==> reader.file() == bytes@ && Some(
                Header { table_of_contents: reader.contents() },
            ) == header_of(bytes@) && !reader.is_validated(),
            r matches Err(e) ==> e.kind == ErrorKind::ValidateS9pk,
    {
        let header = match Header::deserialize(bytes.as_slice()) {
            Some(h) => h,
            None => {
                return Err(Error::of(ErrorKind::ValidateS9pk, "Package File Invalid or Corrupted"));
            },
        };
        let hash = sha256(slice_subrange(bytes.as_slice(), HEADER_SIZE, bytes.len()));
        let hash_string = to_hex(&hash);
        Ok(
            S9pkReader {
                bytes,
                toc: header.table_of_contents,
                hash,
                hash_string,
                validated: false,
            },
        )
    }

    /// Validates the file: the magic number and the version were checked
    /// and the content digested when the file was opened; now every section
    /// has to lie inside the file. The digest is not held against anything
    /// here: whoever names the digest that is expected compares it with
    /// `hash_str`. Fails, with kind `ValidateS9pk` and the reader unchanged,
    /// exactly when a section does not lie inside the file.
    pub fn validate(&mut self) -> (r: Result<(), Error>)
        ensures
            r is Ok <==> sections_fit(old(self).contents(), old(self).file().len() as int),
            final(self).file() == old(self).file(),
            final(self).contents() == old(self).contents(),
            r is Ok ==> final(self).is_validated(),
            r matches Err(e) ==> e.kind == ErrorKind::ValidateS9pk && *final(self) == *old(self),
    {
        proof {
            use_type_invariant(&*self);
        }
        let len = self.bytes.len();
        if !(fits(&self.toc.manifest, len) && fits(&self.toc.license, len) && fits(
            &self.toc.instructions,
            len,
        ) && fits(&self.toc.icon, len) && fits(&self.toc.docker_images, len)) {
            return Err(Error::of(ErrorKind::ValidateS9pk, "Package File Invalid or Corrupted"));
        }
        self.validated = true;
        Ok(())
    }

    /// Has the file been validated?
    pub fn validated(&self) -> (b: bool)
        ensures
            b == self.is_validated(),
    {
        self.validated
    }

    /// The digest of the content, in hexadecimal: the key of the file in the
    /// download cache.
    pub fn hash_str(&self) -> (s: &str)
        ensures
            s@ == hex(sha256_digest(digested(self.file()))),
    {
        proof {
            use_type_invariant(self);
        }
        self.hash_string.as_str()
    }

    /// The bytes of `section`; an error of kind `ValidateS9pk` exactly when
    /// the section does not lie inside the file.
    fn read(&self, section: &FileSection) -> (r: Result<&[u8], Error>)
        ensures
            r is Ok <==> region(self.file(), *section) is Some,
            r matches Ok(bytes) ==> Some(bytes@) == region(self.file(), *section),
            r matches Err(e) ==> e.kind == ErrorKind::ValidateS9pk,
    {
        let len = self.bytes.len();
        if !fits(section, len) {
            return Err(Error::of(ErrorKind::ValidateS9pk, "Package File Invalid or Corrupted"));
        }
        let from = section.position as usize;
        let to = from + section.length as usize;
        Ok(slice_subrange(self.bytes.as_slice(), from, to))
    }

    /// The manifest, encoded.
    pub fn manifest(&self) -> (r: Result<&[u8], Error>)
        ensures
            r is Ok <==> region(self.file(), self.contents().manifest) is Some,
            r matches Ok(bytes) ==> Some(bytes@) == region(self.file(), self.contents().manifest),
            r matches Err(e) ==> e.kind == ErrorKind::ValidateS9pk,
    {
        self.read(&self.toc.manifest)
    }

    /// The license.
    pub fn license(&self) -> (r: Result<&[u8], Error>)
        ensures
            r is Ok <==> region(self.file(), self.contents().license) is Some,
            r matches Ok(bytes) ==> Some(bytes@) == region(self.file(), self.contents().license),
            r matches Err(e) ==> e.kind == ErrorKind::ValidateS9pk,
    {
        self.read(&self.toc.license)
    }

    /// The icon.
    pub fn icon(&self) -> (r: Result<&[u8], Error>)
        ensures
            r is Ok <==> region(self.file(), self.contents().icon) is Some,
            r matches Ok(bytes) ==> Some(bytes@) == region(self.file(), self.contents().icon),
            r matches Err(e) ==> e.kind == ErrorKind::ValidateS9pk,
    {
        self.read(&self.toc.icon)
    }

    /// The container images.
    pub fn docker_images(&self) -> (r: Result<&[u8], Error>)
        ensures
            r is Ok <==> region(self.file(), self.contents().docker_images) is Some,
            r matches Ok(bytes) ==> Some(bytes@) == region(
                self.file(),
                self.contents().docker_images,
            ),
            r matches Err(e) ==> e.kind == ErrorKind::ValidateS9pk,
    {
        self.read(&self.toc.docker_images)
    }

    /// The instructions; `None` where the package has none, which is where
    /// their section is empty.
    pub fn instructions(&self) -> (r: Result<Option<&[u8]>, Error>)
        ensures
            r is Ok <==> region(self.file(), self.contents().instructions) is Some,
            r matches Ok(found) ==> (found is None <==> self.contents().instructions.length == 0)
                && (found matches Some(bytes) ==> Some(bytes@) == region(
                self.file(),
                self.contents().instructions,
            )),
            r matches Err(e) ==> e.kind == ErrorKind::ValidateS9pk,
    {
        match self.read(&self.toc.instructions) {
            Err(e) => Err(e),
            Ok(bytes) => {
                if self.toc.instructions.length == 0 {
                    Ok(None)
                } else {
                    Ok(Some(bytes))
                }
            },
        }
    }
}

/// Does `section` lie inside a file of `len` bytes?
fn fits(section: &FileSection, len: usize) -> (b: bool)
    ensures
        b == (section.position + section.length <= len),
{
    section.position as u128 + section.length as u128 <= len as u128
}

} // verus!
