//! What a package file has to satisfy before it is installed.

use vstd::prelude::*;
use vstd::string::*;
use crate::config::generate::{config_spec_sound, defaults_of, fields_certain};
use crate::config::rules::{all_hold, check_rules, ConfigRuleEntry};
use crate::config::spec::{fields_violation, ConfigSpec};
use crate::config::validate::pointers_declared;
use crate::config::value::{clone_config, config_view, documents, JsonView, Property};
use crate::dependencies::DepInfo;
use crate::error::ErrorKind;
use crate::id::PackageId;
use crate::ordered_map::{names_in, same_text, OrderedMap};
use crate::path::is_absolute;
use crate::s9pk::manifest::{
    extension_of, path_extension, path_file_stem, path_starts_with, path_under, stem_of,
};
use crate::text::{chars_of, find_char, first_index, has_prefix, starts_with, texts};
use crate::version::{admits, order_of, Order, Version, VersionRange};

verus! {

/// Why a path was refused while packing.
#[derive(Debug)]
pub enum Error {
    InvalidDirectoryName(String),
    InvalidFileName(String),
    InvalidOutputPath(String),
}

/// The message of a packing error.
pub open spec fn error_text(e: Error) -> Seq<char> {
    match e {
        Error::InvalidDirectoryName(p) => "Invalid Directory Name: "@ + p@,
        Error::InvalidFileName(p) => "Invalid File Name: "@ + p@,
        Error::InvalidOutputPath(p) => "Invalid Output Path: "@ + p@,
    }
}

impl Error {
    /// The message of the error.
    pub fn to_string(&self) -> (s: String)
        ensures
            s@ == error_text(*self),
    {
        match self {
            Error::InvalidDirectoryName(p) => {
                let mut s = "Invalid Directory Name: ".to_owned();
                s.append(p.as_str());
                s
            },
            Error::InvalidFileName(p) => {
                let mut s = "Invalid File Name: ".to_owned();
                s.append(p.as_str());
                s
            },
            Error::InvalidOutputPath(p) => {
                let mut s = "Invalid Output Path: ".to_owned();
                s.append(p.as_str());
                s
            },
        }
    }

    /// The error as one of kind `Pack`.
    pub fn into_error(self) -> (e: crate::error::Error)
        ensures
            e.kind == ErrorKind::Pack,
            e.message@ == error_text(self),
    {
        let message = self.to_string();
        crate::error::Error::new(message, ErrorKind::Pack)
    }
}

/// Does a segment `..` start at place `i` of `p`?
pub open spec fn parent_at(p: Seq<char>, i: int) -> bool {
    &&& 0 <= i
    &&& i + 2 <= p.len()
    &&& i == 0 || p[i - 1] == '/'
    &&& p[i] == '.'
    &&& p[i + 1] == '.'
    &&& i + 2 == p.len() || p[i + 2] == '/'
}

/// Does `p` hold a segment `..`?
pub open spec fn has_parent_segment(p: Seq<char>) -> bool {
    exists|i: int| parent_at(p, i)
}

/// A path is contained when it neither starts at the root nor climbs out
/// through a `..`.
pub open spec fn is_contained(p: Seq<char>) -> bool {
    !is_absolute(p) && !has_parent_segment(p)
}

/// Accepts exactly the contained paths; a refused path is named in the
/// error.
pub fn validate_path(p: &str) -> (r: Result<(), Error>)
    ensures
        r is Ok <==> is_contained(p@),
        r matches Err(e) ==> e matches Error::InvalidFileName(name) && name@ == p@,
{
    let chars = crate::text::chars_of(p);
    let n = chars.len();
    if n > 0 && chars[0] == '/' {
        return Err(Error::InvalidFileName(p.to_owned()));
    }
    let mut i: usize = 0;
    while i < n
        invariant
            n == chars@.len(),
            chars@ == p@,
            i <= n,
            forall|j: int| 0 <= j < i ==> !parent_at(p@, j),
        decreases n - i,
    {
        if n - i >= 2 && (i == 0 || chars[i - 1] == '/') && chars[i] == '.' && chars[i + 1] == '.'
            && (i + 2 == n || chars[i + 2] == '/') {
            assert(parent_at(p@, i as int));
            return Err(Error::InvalidFileName(p.to_owned()));
        }
        i = i + 1;
    }
    assert(!has_parent_segment(p@)) by {
        if has_parent_segment(p@) {
            let j = choose|j: int| parent_at(p@, j);
            assert(0 <= j < n);
        }
    }
    Ok(())
}

/// Where the content of an archive entry comes from.
#[derive(Debug)]
pub enum Source {
    /// The YAML file at this path, encoded anew as CBOR.
    Encoded(String),
    /// The file at this path.
    File(String),
    /// The directory at this path, with all it holds.
    Dir(String),
    /// Nothing: the entry is a mark.
    Mark,
}

/// One entry of the archive that a package is packed into.
#[derive(Debug)]
pub struct PackEntry {
    pub name: String,
    pub source: Source,
}

/// An asset that a package declares: where it lies below the `assets`
/// directory, and whether it is a directory.
#[derive(Debug)]
pub struct Asset {
    pub src: String,
    pub is_dir: bool,
}

/// Where the content of an entry comes from, as a plain value.
pub enum SourceView {
    Encoded(Seq<char>),
    File(Seq<char>),
    Dir(Seq<char>),
    Mark,
}

/// An entry as a plain value.
pub open spec fn pack_entry_view(e: PackEntry) -> (Seq<char>, SourceView) {
    (
        e.name@,
        match e.source {
            Source::Encoded(p) => SourceView::Encoded(p@),
            Source::File(p) => SourceView::File(p@),
            Source::Dir(p) => SourceView::Dir(p@),
            Source::Mark => SourceView::Mark,
        },
    )
}

/// The entries as plain values.
pub open spec fn pack_entries_view(entries: Seq<PackEntry>) -> Seq<(Seq<char>, SourceView)> {
    Seq::new(entries.len(), |i: int| pack_entry_view(entries[i]))
}

/// The entries of one asset of the package in directory `dir`: a file
/// under its own name; a directory under its own name, followed by a mark
/// that says where the directory ends.
pub open spec fn asset_entries(dir: Seq<char>, asset: Asset) -> Seq<(Seq<char>, SourceView)> {
    let from = crate::path::joined(crate::path::joined(dir, "assets"@), asset.src@);
    if asset.is_dir {
        seq![
            (asset.src@, SourceView::Dir(from)),
            ("APPMGR_DIR_END:"@ + asset.src@, SourceView::Mark),
        ]
    } else {
        seq![(asset.src@, SourceView::File(from))]
    }
}

/// The entries of the first `upto` assets.
pub open spec fn assets_entries(dir: Seq<char>, assets: Seq<Asset>, upto: int) -> Seq<
    (Seq<char>, SourceView),
>
    decreases upto,
{
    if upto <= 0 {
        Seq::empty()
    } else {
        assets_entries(dir, assets, upto - 1) + asset_entries(dir, assets[upto - 1])
    }
}

/// The entries of the archive of the package in directory `dir`, in their
/// order: the manifest, the schema and the rules, each encoded anew; the
/// instructions where the package has any; the assets; and the image.
pub open spec fn archive_entries(dir: Seq<char>, has_instructions: bool, assets: Seq<Asset>) -> Seq<
    (Seq<char>, SourceView),
> {
    seq![
        ("manifest.cbor"@, SourceView::Encoded(crate::path::joined(dir, "manifest.yaml"@))),
        ("config_spec.cbor"@, SourceView::Encoded(crate::path::joined(dir, "config_spec.yaml"@))),
        ("config_rules.cbor"@, SourceView::Encoded(crate::path::joined(dir, "config_rules.yaml"@))),
    ] + (if has_instructions {
        seq![("instructions.md"@, SourceView::File(crate::path::joined(dir, "instructions.md"@)))]
    } else {
        Seq::empty()
    }) + assets_entries(dir, assets, assets.len() as int) + seq![
        ("image.tar"@, SourceView::File(crate::path::joined(dir, "image.tar"@))),
    ]
}

fn entry_from(name: &str, source: Source) -> (e: PackEntry)
    ensures
        e.name@ == name@,
        e.source == source,
{
    PackEntry { name: name.to_owned(), source }
}

/// Plans the archive of the package in directory `path`, for a host at
/// version `host`. Fails with kind `Pack` where the directory has no name,
/// and with kind `VersionIncompatible` where the package asks for another
/// version of the host than `host`; otherwise the entries of the archive
/// are handed back in their order.
pub fn pack(
    path: &str,
    required: &VersionRange,
    host: &Version,
    has_instructions: bool,
    assets: &Vec<Asset>,
) -> (r: Result<Vec<PackEntry>, crate::error::Error>)
    ensures
        crate::s9pk::manifest::file_name_of(trimmed(path@)) is None ==> (r matches Err(e) && e.kind
            == ErrorKind::Pack),
        crate::s9pk::manifest::file_name_of(trimmed(path@)) is Some && !admits(*required, *host)
            ==> (r matches Err(e) && e.kind == ErrorKind::VersionIncompatible),
        crate::s9pk::manifest::file_name_of(trimmed(path@)) is Some && admits(*required, *host)
            ==> (r matches Ok(entries) && pack_entries_view(entries@) == archive_entries(
            trimmed(path@),
            has_instructions,
            assets@,
        )),
{
    let dir = trim_slashes(path);
    if crate::s9pk::manifest::path_file_name(dir).is_none() {
        return Err(Error::InvalidDirectoryName(dir.to_owned()).into_error());
    }
    if !host.satisfies(required) {
        return Err(
            crate::error::Error::of(ErrorKind::VersionIncompatible, "Unsupported AppMgr version"),
        );
    }
    let mut entries: Vec<PackEntry> = Vec::new();
    entries.push(
        entry_from("manifest.cbor", Source::Encoded(crate::path::join(dir, "manifest.yaml"))),
    );
    entries.push(
        entry_from(
            "config_spec.cbor",
            Source::Encoded(crate::path::join(dir, "config_spec.yaml")),
        ),
    );
    entries.push(
        entry_from(
            "config_rules.cbor",
            Source::Encoded(crate::path::join(dir, "config_rules.yaml")),
        ),
    );
    if has_instructions {
        entries.push(
            entry_from("instructions.md", Source::File(crate::path::join(dir, "instructions.md"))),
        );
    }
    let ghost head = pack_entries_view(entries@);
    assert(head =~= seq![
        ("manifest.cbor"@, SourceView::Encoded(crate::path::joined(dir@, "manifest.yaml"@))),
        ("config_spec.cbor"@, SourceView::Encoded(crate::path::joined(dir@, "config_spec.yaml"@))),
        (
            "config_rules.cbor"@,
            SourceView::Encoded(crate::path::joined(dir@, "config_rules.yaml"@)),
        ),
    ] + (if has_instructions {
        seq![("instructions.md"@, SourceView::File(crate::path::joined(dir@, "instructions.md"@)))]
    } else {
        Seq::empty()
    }));
    let mut i: usize = 0;
    while i < assets.len()
        invariant
            i <= assets@.len(),
            pack_entries_view(entries@) == head + assets_entries(dir@, assets@, i as int),
        decreases assets@.len() - i,
    {
        let asset = &assets[i];
        let base = crate::path::join(dir, "assets");
        let from = crate::path::join(base.as_str(), asset.src.as_str());
        let ghost before = pack_entries_view(entries@);
        if asset.is_dir {
            entries.push(entry_from(asset.src.as_str(), Source::Dir(from)));
            let mut mark = "APPMGR_DIR_END:".to_owned();
            mark.append(asset.src.as_str());
            entries.push(entry_from(mark.as_str(), Source::Mark));
        } else {
            entries.push(entry_from(asset.src.as_str(), Source::File(from)));
        }
        assert(pack_entries_view(entries@) =~= before + asset_entries(dir@, *asset));
        i = i + 1;
    }
    let ghost middle = pack_entries_view(entries@);
    entries.push(entry_from("image.tar", Source::File(crate::path::join(dir, "image.tar"))));
    assert(pack_entries_view(entries@) =~= middle + seq![
        ("image.tar"@, SourceView::File(crate::path::joined(dir@, "image.tar"@))),
    ]);
    Ok(entries)
}

/// The number of `/` that `path` ends in.
pub open spec fn trailing_slashes(path: Seq<char>) -> int
    decreases path.len(),
{
    if path.len() > 0 && path.last() == '/' {
        1 + trailing_slashes(path.drop_last())
    } else {
        0
    }
}

/// `path` without the `/` it ends in.
pub open spec fn trimmed(path: Seq<char>) -> Seq<char> {
    path.take(path.len() - trailing_slashes(path))
}

/// The trailing slashes are slashes, and before them stands none.
pub proof fn trailing_slashes_counts(path: Seq<char>)
    ensures
        0 <= trailing_slashes(path) <= path.len(),
        forall|i: int|
            path.len() - trailing_slashes(path) <= i < path.len() ==> path[i] == '/',
        trailing_slashes(path) < path.len() ==> path[path.len() - trailing_slashes(path) - 1]
            != '/',
    decreases path.len(),
{
    if path.len() > 0 && path.last() == '/' {
        let rest = path.drop_last();
        trailing_slashes_counts(rest);
        assert forall|i: int| path.len() - trailing_slashes(path) <= i < path.len() implies path[i]
            == '/' by {
            if i < rest.len() {
                assert(path[i] == rest[i]);
            }
        }
        if trailing_slashes(path) < path.len() {
            assert(path[path.len() - trailing_slashes(path) - 1] == rest[rest.len()
                - trailing_slashes(rest) - 1]);
        }
    }
}

/// `path` without the `/` it ends in.
pub fn trim_slashes(path: &str) -> (r: &str)
    ensures
        r@ == trimmed(path@),
{
    let n = path.unicode_len();
    let mut end: usize = n;
    proof {
        trailing_slashes_counts(path@);
    }
    while end > 0 && path.get_char(end - 1) == '/'
        invariant
            n == path@.len(),
            end <= n,
            n - end <= trailing_slashes(path@),
            0 <= trailing_slashes(path@) <= path@.len(),
            forall|i: int|
                path@.len() - trailing_slashes(path@) <= i < path@.len() ==> path@[i] == '/',
            trailing_slashes(path@) < path@.len() ==> path@[path@.len() - trailing_slashes(path@)
                - 1] != '/',
        decreases end,
    {
        end = end - 1;
    }
    assert(n - end == trailing_slashes(path@));
    let r = path.substring_char(0, end);
    assert(r@ =~= trimmed(path@));
    r
}

/// May a package file be named `name`: outside the reserved namespace, and
/// made of letters, digits and hyphens only?
pub open spec fn is_file_name_ok(name: Seq<char>) -> bool {
    !has_prefix(name, crate::id::reserved_prefix()) && forall|i: int|
        0 <= i < name.len() ==> crate::id::is_id_char(#[trigger] name[i])
}

fn file_name_ok(name: &str) -> (b: bool)
    ensures
        b == is_file_name_ok(name@),
{
    let chars = chars_of(name);
    let prefix = crate::id::reserved();
    if starts_with(&chars, &prefix) {
        return false;
    }
    let mut i: usize = 0;
    while i < chars.len()
        invariant
            i <= chars@.len(),
            chars@ == name@,
            forall|j: int| 0 <= j < i ==> crate::id::is_id_char(#[trigger] name@[j]),
        decreases chars@.len() - i,
    {
        let c = chars[i];
        if !(crate::text::alphanumeric(c) || c == '-') {
            return false;
        }
        i = i + 1;
    }
    true
}

/// The name of the package that the file at `path` has to hold: the stem
/// of the file's name. The file's name has to end in `.s9pk`, and the stem
/// has to be a name that a package file may have.
pub open spec fn package_name_of(path: Seq<char>) -> Result<Seq<char>, ErrorKind> {
    let path = trimmed(path);
    match extension_of(path) {
        None => Err(ErrorKind::Pack),
        Some(ext) => if ext != "s9pk"@ {
            Err(ErrorKind::ValidateS9pk)
        } else {
            match stem_of(path) {
                None => Err(ErrorKind::Pack),
                Some(name) => if is_file_name_ok(name) {
                    Ok(name)
                } else {
                    Err(ErrorKind::ValidateS9pk)
                },
            }
        },
    }
}

/// The name of the package that the file at `path` has to hold.
pub fn verify_name(path: &str) -> (r: Result<String, crate::error::Error>)
    ensures
        match package_name_of(path@) {
            Ok(name) => r matches Ok(found) && found@ == name,
            Err(kind) => r matches Err(e) && e.kind == kind,
        },
{
    let path = trim_slashes(path);
    let ext = match path_extension(path) {
        Some(ext) => ext,
        None => {
            return Err(Error::InvalidFileName(path.to_owned()).into_error());
        },
    };
    if !same_text(ext, "s9pk") {
        return Err(crate::error::Error::of(ErrorKind::ValidateS9pk, "Extension Must Be '.s9pk'"));
    }
    let name = match path_file_stem(path) {
        Some(name) => name,
        None => {
            return Err(Error::InvalidFileName(path.to_owned()).into_error());
        },
    };
    if !file_name_ok(name) {
        return Err(crate::error::Error::of(ErrorKind::ValidateS9pk, "Invalid Application ID"));
    }
    Ok(name.to_owned())
}

/// The part of an image tag that names the image: what stands before the
/// first `:`.
pub open spec fn repository_of(tag: Seq<char>) -> Seq<char> {
    tag.take(first_index(tag, ':'))
}

/// The name under which the image of package `id` has to be tagged.
pub open spec fn image_name_of(id: Seq<char>) -> Seq<char> {
    "start9/"@ + id
}

/// Is the tag foreign: in the namespace of package images, but not naming
/// the image of `id`?
pub open spec fn is_foreign_tag(tag: Seq<char>, id: Seq<char>) -> bool {
    has_prefix(tag, "start9/"@) && repository_of(tag) != image_name_of(id)
}

/// Are the tags those of the image of package `id`: one of them names that
/// image, and none is foreign?
pub open spec fn tags_ok(tags: Seq<Seq<char>>, id: Seq<char>) -> bool {
    &&& exists|i: int| 0 <= i < tags.len() && repository_of(#[trigger] tags[i]) == image_name_of(id)
    &&& forall|i: int| 0 <= i < tags.len() ==> !is_foreign_tag(#[trigger] tags[i], id)
}

/// Accepts exactly the tags of an image that is tagged as the image of
/// package `id` and carries no foreign tag; anything else is an error of
/// kind `ValidateS9pk`.
pub fn check_image_tags(tags: &Vec<String>, id: &PackageId) -> (r: Result<(), crate::error::Error>)
    ensures
        r is Ok <==> tags_ok(texts(tags@), id@),
        r matches Err(e) ==> e.kind == ErrorKind::ValidateS9pk,
{
    let mut image_name = "start9/".to_owned();
    image_name.append(id.as_str());
    let namespace = chars_of("start9/");
    let mut own = false;
    let mut i: usize = 0;
    while i < tags.len()
        invariant
            i <= tags@.len(),
            image_name@ == image_name_of(id@),
            namespace@ == "start9/"@,
            own <==> exists|j: int|
                0 <= j < i && repository_of(#[trigger] texts(tags@)[j]) == image_name_of(id@),
            forall|j: int| 0 <= j < i ==> !is_foreign_tag(#[trigger] texts(tags@)[j], id@),
        decreases tags@.len() - i,
    {
        let tag = chars_of(tags[i].as_str());
        let colon = find_char(&tag, ':', 0);
        let repository = tags[i].as_str().substring_char(0, colon);
        assert(repository@ =~= repository_of(texts(tags@)[i as int]));
        let same = same_text(repository, image_name.as_str());
        if starts_with(&tag, &namespace) && !same {
            assert(is_foreign_tag(texts(tags@)[i as int], id@));
            return Err(
                crate::error::Error::of(ErrorKind::ValidateS9pk, "Contains prohibited image tag"),
            );
        }
        if same {
            own = true;
        }
        i = i + 1;
    }
    if own {
        Ok(())
    } else {
        Err(crate::error::Error::of(ErrorKind::ValidateS9pk, "Image Is Not Tagged For Package"))
    }
}

/// One part of a package file, in the order in which the parts are checked.
#[derive(Clone, Copy, Debug, PartialEq, Eq, Structural)]
pub enum Stage {
    Manifest,
    ConfigSpec,
    ConfigRules,
    Instructions,
    Image,
    Done,
}

/// The name that the entry of a part has to have.
pub open spec fn entry_name(stage: Stage) -> Option<&'static str> {
    match stage {
        Stage::Manifest => Some("manifest.cbor"),
        Stage::ConfigSpec => Some("config_spec.cbor"),
        Stage::ConfigRules => Some("config_rules.cbor"),
        Stage::Instructions => Some("instructions.md"),
        Stage::Image => Some("image.tar"),
        Stage::Done => None,
    }
}

/// The part that follows: the instructions are skipped where the package
/// has none.
pub open spec fn stage_after(stage: Stage, has_instructions: bool) -> Stage {
    match stage {
        Stage::Manifest => Stage::ConfigSpec,
        Stage::ConfigSpec => Stage::ConfigRules,
        Stage::ConfigRules => if has_instructions {
            Stage::Instructions
        } else {
            Stage::Image
        },
        Stage::Instructions => Stage::Image,
        Stage::Image => Stage::Done,
        Stage::Done => Stage::Done,
    }
}

impl Stage {
    /// The name that the entry of this part has to have.
    pub fn expects(&self) -> (name: Option<&'static str>)
        ensures
            name == entry_name(*self),
    {
        match self {
            Stage::Manifest => Some("manifest.cbor"),
            Stage::ConfigSpec => Some("config_spec.cbor"),
            Stage::ConfigRules => Some("config_rules.cbor"),
            Stage::Instructions => Some("instructions.md"),
            Stage::Image => Some("image.tar"),
            Stage::Done => None,
        }
    }

    /// The part that follows.
    pub fn next(&self, has_instructions: bool) -> (stage: Stage)
        ensures
            stage == stage_after(*self, has_instructions),
    {
        match self {
            Stage::Manifest => Stage::ConfigSpec,
            Stage::ConfigSpec => Stage::ConfigRules,
            Stage::ConfigRules => {
                if has_instructions {
                    Stage::Instructions
                } else {
                    Stage::Image
                }
            },
            Stage::Instructions => Stage::Image,
            Stage::Image => Stage::Done,
            Stage::Done => Stage::Done,
        }
    }

    /// Holds the entry found in the archive against the part that is due:
    /// accepted exactly when there is an entry and it has the name that the
    /// part has to have; anything else is an error of kind `ValidateS9pk`.
    pub fn check_entry(&self, found: Option<&str>) -> (r: Result<(), crate::error::Error>)
        ensures
            r is Ok <==> found is Some && entry_name(*self) is Some && found->0@
                == entry_name(*self)->0@,
            r matches Err(e) ==> e.kind == ErrorKind::ValidateS9pk,
    {
        match (self.expects(), found) {
            (Some(expected), Some(found)) => {
                if same_text(expected, found) {
                    Ok(())
                } else {
                    let mut message = "Package File Invalid or Corrupted: expected ".to_owned();
                    message.append(expected);
                    message.append(", got ");
                    message.append(found);
                    Err(crate::error::Error::new(message, ErrorKind::ValidateS9pk))
                }
            },
            _ => Err(
                crate::error::Error::of(ErrorKind::ValidateS9pk, "Package File Invalid or Corrupted"),
            ),
        }
    }
}

/// An action that a manifest declares: its name and its command.
#[derive(Debug)]
pub struct DeclaredAction {
    pub id: String,
    pub command: Vec<String>,
}

/// What the manifest of a package file says, as far as it is checked.
pub struct Declared<'a> {
    pub id: &'a PackageId,
    pub min_os_version: &'a Version,
    pub public: Option<&'a str>,
    pub shared: Option<&'a str>,
    pub actions: &'a [DeclaredAction],
}

/// Does one of the actions have an empty command?
pub open spec fn has_empty_command(actions: Seq<DeclaredAction>) -> bool {
    exists|i: int| 0 <= i < actions.len() && (#[trigger] actions[i]).command@.len() == 0
}

/// What is wrong with what a manifest declares, for a file that has to
/// hold package `name` on a host at version `host`: the kind of the first
/// of these that applies. The host is older than the manifest asks for; the
/// package is not the one the file is named after; the public and the shared
/// directory lie inside one another; one of the two is not contained; an
/// action has an empty command.
pub open spec fn declared_error(
    id: Seq<char>,
    min_os_version: Version,
    public: Option<Seq<char>>,
    shared: Option<Seq<char>>,
    actions: Seq<DeclaredAction>,
    name: Seq<char>,
    host: Version,
) -> Option<ErrorKind> {
    if order_of(host, min_os_version) == Order::Less {
        Some(ErrorKind::ValidateS9pk)
    } else if id != name {
        Some(ErrorKind::ValidateS9pk)
    } else if public is Some && shared is Some && (path_under(public->0, shared->0) || path_under(
        shared->0,
        public->0,
    )) {
        Some(ErrorKind::ValidateS9pk)
    } else if public is Some && !is_contained(public->0) {
        Some(ErrorKind::Pack)
    } else if shared is Some && !is_contained(shared->0) {
        Some(ErrorKind::Pack)
    } else if has_empty_command(actions) {
        Some(ErrorKind::ValidateS9pk)
    } else {
        None
    }
}

/// The option as a plain value.
pub open spec fn text_of(s: Option<&str>) -> Option<Seq<char>> {
    match s {
        Some(s) => Some(s@),
        None => None,
    }
}

/// What is wrong with what `declared` declares.
pub open spec fn error_declared(declared: Declared, name: Seq<char>, host: Version) -> Option<
    ErrorKind,
> {
    declared_error(
        declared.id@,
        *declared.min_os_version,
        text_of(declared.public),
        text_of(declared.shared),
        declared.actions@,
        name,
        host,
    )
}

/// Holds what a manifest declares against the name of the file and the
/// version of the host.
#[verifier::loop_isolation(false)]
pub fn verify_manifest(declared: &Declared, name: &str, host: &Version) -> (r: Result<
    (),
    crate::error::Error,
>)
    ensures
        match error_declared(*declared, name@, *host) {
            None => r is Ok,
            Some(kind) => r matches Err(e) && e.kind == kind,
        },
{
    match host.compare(declared.min_os_version) {
        Order::Less => {
            return Err(
                crate::error::Error::of(ErrorKind::ValidateS9pk, "Unsupported AppMgr Version"),
            );
        },
        _ => {},
    }
    if !same_text(declared.id.as_str(), name) {
        return Err(
            crate::error::Error::of(
                ErrorKind::ValidateS9pk,
                "Package Name Does Not Match Expected",
            ),
        );
    }
    match (declared.public, declared.shared) {
        (Some(public), Some(shared)) => {
            if path_starts_with(public, shared) || path_starts_with(shared, public) {
                return Err(
                    crate::error::Error::of(
                        ErrorKind::ValidateS9pk,
                        "Public Directory Conflicts With Shared Directory",
                    ),
                );
            }
        },
        _ => {},
    }
    match declared.public {
        Some(public) => match validate_path(public) {
            Err(e) => {
                return Err(e.into_error());
            },
            Ok(()) => {},
        },
        None => {},
    }
    match declared.shared {
        Some(shared) => match validate_path(shared) {
            Err(e) => {
                return Err(e.into_error());
            },
            Ok(()) => {},
        },
        None => {},
    }
    let mut i: usize = 0;
    while i < declared.actions.len()
        invariant
            i <= declared.actions@.len(),
            forall|j: int| 0 <= j < i ==> (#[trigger] declared.actions@[j]).command@.len() > 0,
        decreases declared.actions@.len() - i,
    {
        if declared.actions[i].command.len() == 0 {
            assert(declared.actions@[i as int].command@.len() == 0);
            let mut message = "Command Cannot Be Empty: ".to_owned();
            message.append(declared.actions[i].id.as_str());
            return Err(crate::error::Error::new(message, ErrorKind::ValidateS9pk));
        }
        i = i + 1;
    }
    Ok(())
}

/// Checks the schema of a package with the declared `dependencies`, then
/// generates its default configuration and holds that against the schema. A
/// schema that is not sound, a pointer into a package that is no declared
/// dependency, and a default that could not be generated in time are each an
/// error of kind `ValidateS9pk`; the last can only happen where the schema
/// leaves a text that has to match a pattern to chance.
pub fn verify_config(
    spec: &ConfigSpec,
    dependencies: &OrderedMap<DepInfo>,
    rng: &mut rand::rngs::StdRng,
    timeout: &Option<u64>,
) -> (r: Result<Vec<Property>, crate::error::Error>)
    ensures
        !(config_spec_sound(*spec) && pointers_declared(spec.0@, dependencies@)) ==> r is Err,
        config_spec_sound(*spec) && pointers_declared(spec.0@, dependencies@) && fields_certain(
            spec.0@,
            0,
        ) ==> r is Ok,
        r matches Ok(config) ==> defaults_of(spec.0@, config_view(config@), 0, 0)
            && fields_violation(spec.0@, config_view(config@), 0) is None,
        r matches Err(e) ==> e.kind == ErrorKind::ValidateS9pk,
{
    match spec.validate(dependencies) {
        Err(_) => {
            return Err(crate::error::Error::of(ErrorKind::ValidateS9pk, "Config Spec Is Not Sound"));
        },
        Ok(()) => {},
    }
    let config = match spec.gen(rng, timeout) {
        Ok(c) => c,
        Err(_) => {
            return Err(
                crate::error::Error::of(ErrorKind::ValidateS9pk, "Default Config Not Generated"),
            );
        },
    };
    match spec.matches(&config) {
        Ok(()) => Ok(config),
        Err(_) => Err(
            crate::error::Error::of(
                ErrorKind::ValidateS9pk,
                "Default Config Does Not Match Spec",
            ),
        ),
    }
}

/// Do all the rules hold of `config` as the configuration of package
/// `name`, which is the only configuration there is to read?
pub open spec fn rules_hold(
    rules: Seq<ConfigRuleEntry>,
    name: Seq<char>,
    config: Seq<(Seq<char>, JsonView)>,
) -> bool {
    all_hold(rules, config, seq![(name, config)])
}

/// Holds the rules of a package against its default configuration:
/// accepted exactly when every rule holds of it, read as the configuration
/// of package `name`; a rule that does not hold is an error of kind
/// `ValidateS9pk`.
pub fn verify_rules(rules: &Vec<ConfigRuleEntry>, name: &str, config: &Vec<Property>) -> (r: Result<
    (),
    crate::error::Error,
>)
    ensures
        r is Ok <==> rules_hold(rules@, name@, config_view(config@)),
        r matches Err(e) ==> e.kind == ErrorKind::ValidateS9pk,
{
    let mut configs: OrderedMap<Vec<Property>> = OrderedMap::new();
    configs.insert(name.to_owned(), clone_config(config));
    assert(documents(configs@) =~= seq![(name@, config_view(config@))]);
    match check_rules(rules, config, &configs) {
        Ok(()) => Ok(()),
        Err(_) => Err(
            crate::error::Error::of(
                ErrorKind::ValidateS9pk,
                "Default Config Does Not Satisfy Rule",
            ),
        ),
    }
}

/// What a package file holds, read by whoever opened it: the names of its
/// entries in their order, what its manifest declares, whether it has
/// instructions, its schema, its rules, and the tags of its image; `None`
/// where the image names none.
pub struct Contents<'a> {
    pub entries: Vec<String>,
    pub declared: Declared<'a>,
    pub has_instructions: bool,
    pub config_spec: &'a ConfigSpec,
    pub dependencies: &'a OrderedMap<DepInfo>,
    pub rules: &'a Vec<ConfigRuleEntry>,
    pub image_tags: Option<Vec<String>>,
}

/// Is the `i`-th entry the one that `stage` asks for?
pub open spec fn entry_ok(entries: Seq<Seq<char>>, i: int, stage: Stage) -> bool {
    0 <= i < entries.len() && entry_name(stage) is Some && entries[i] == entry_name(stage)->0@
}

/// Where the image is looked for: after the instructions, or after the
/// rules where there are no instructions.
pub open spec fn after_instructions(has_instructions: bool) -> int {
    if has_instructions {
        4
    } else {
        3
    }
}

/// Is one of the entries from `from` on the image? The entries before
/// it, which hold the assets, are passed over.
pub open spec fn image_follows(entries: Seq<Seq<char>>, from: int) -> bool {
    exists|i: int| from <= i < entries.len() && #[trigger] entries[i] == "image.tar"@
}

/// Are the entries of a package file in their order: the manifest, the
/// schema, the rules, the instructions where the package has any, then what
/// assets there are, and after them the image?
pub open spec fn entries_in_order(entries: Seq<Seq<char>>, has_instructions: bool) -> bool {
    &&& entry_ok(entries, 0, Stage::Manifest)
    &&& entry_ok(entries, 1, Stage::ConfigSpec)
    &&& entry_ok(entries, 2, Stage::ConfigRules)
    &&& has_instructions ==> entry_ok(entries, 3, Stage::Instructions)
    &&& image_follows(entries, after_instructions(has_instructions))
}

/// What is wrong with a package file before its configuration is looked
/// at: the kind of the first of these that applies. The file is not named
/// as a package file has to be; its first entry is not the manifest; what
/// the manifest declares is wrong; its second entry is not the schema.
pub open spec fn head_error(path: Seq<char>, contents: Contents, host: Version) -> Option<
    ErrorKind,
> {
    match package_name_of(path) {
        Err(kind) => Some(kind),
        Ok(name) => if !entry_ok(texts(contents.entries@), 0, Stage::Manifest) {
            Some(ErrorKind::ValidateS9pk)
        } else {
            match error_declared(contents.declared, name, host) {
                Some(kind) => Some(kind),
                None => if !entry_ok(texts(contents.entries@), 1, Stage::ConfigSpec) {
                    Some(ErrorKind::ValidateS9pk)
                } else {
                    None
                },
            }
        },
    }
}

/// Is the rest of a package file as it has to be, as far as chance has no
/// part in it: the schema is sound and points only into declared
/// dependencies, the entries are in their order, and the image is tagged as
/// that of the package and carries no foreign tag?
pub open spec fn tail_ok(contents: Contents) -> bool {
    &&& config_spec_sound(*contents.config_spec)
    &&& pointers_declared(contents.config_spec.0@, contents.dependencies@)
    &&& entries_in_order(texts(contents.entries@), contents.has_instructions)
    &&& contents.image_tags is Some
    &&& tags_ok(texts(contents.image_tags->0@), contents.declared.id@)
}

/// Is `made` a default configuration of the package that matches the
/// schema and satisfies every rule?
pub open spec fn default_passes(contents: Contents, made: Seq<(Seq<char>, JsonView)>) -> bool {
    &&& defaults_of(contents.config_spec.0@, made, 0, 0)
    &&& fields_violation(contents.config_spec.0@, made, 0) is None
    &&& rules_hold(contents.rules@, contents.declared.id@, made)
}

fn entry<'a>(entries: &'a Vec<String>, i: usize) -> (r: Option<&'a str>)
    ensures
        match r {
            Some(name) => i < entries@.len() && name@ == entries@[i as int]@,
            None => i >= entries@.len(),
        },
{
    if i < entries.len() {
        Some(entries[i].as_str())
    } else {
        None
    }
}

/// Is one of the entries from `from` on the image?
fn image_found(entries: &Vec<String>, from: usize) -> (b: bool)
    ensures
        b == image_follows(texts(entries@), from as int),
{
    let mut i: usize = from;
    while i < entries.len()
        invariant
            from <= i,
            forall|j: int| from <= j < i && j < entries@.len() ==> texts(entries@)[j] != "image.tar"@,
        decreases entries@.len() - i,
    {
        if same_text(entries[i].as_str(), "image.tar") {
            assert(texts(entries@)[i as int] == "image.tar"@);
            return true;
        }
        i = i + 1;
    }
    false
}

/// What `pack` plans passes for the entries of a package file: the names
/// of the planned entries are in their order, whatever assets there are.
pub proof fn planned_entries_are_in_order(
    dir: Seq<char>,
    has_instructions: bool,
    assets: Seq<Asset>,
)
    ensures
        entries_in_order(names_in(archive_entries(dir, has_instructions, assets)), has_instructions),
{
    let planned = archive_entries(dir, has_instructions, assets);
    let names = names_in(planned);
    reveal_strlit("manifest.cbor");
    reveal_strlit("config_spec.cbor");
    reveal_strlit("config_rules.cbor");
    reveal_strlit("instructions.md");
    reveal_strlit("image.tar");
    let last = planned.len() - 1;
    assert(planned[last].0 == "image.tar"@);
    assert(names[last] == "image.tar"@);
    assert(planned[0].0 == "manifest.cbor"@);
    assert(planned[1].0 == "config_spec.cbor"@);
    assert(planned[2].0 == "config_rules.cbor"@);
    if has_instructions {
        assert(planned[3].0 == "instructions.md"@);
    }
    assert(last >= after_instructions(has_instructions));
}

/// Verifies a package file. In this order: the file has to be named
/// `<package>.s9pk`; its first entry has to be the manifest, which has to
/// declare that package, a host version not above `host`, public and shared
/// directories that are contained and do not lie inside one another, and no
/// action with an empty command; its second entry has to be the schema, whose
/// default configuration has to come about and match it; its third entry
/// has to be the rules, every one of which has to hold of that default
/// configuration; then the instructions have to follow where the package
/// has any, and after what assets there are the image, which has to be
/// tagged as that of the package and carry no foreign tag. A file that
/// passes has a default configuration that matches the schema and satisfies
/// every rule. A file that meets all that chance has no part in is
/// accepted where every default configuration there can be satisfies the
/// rules and the schema leaves nothing to chance that may fail.
pub fn verify(
    path: &str,
    contents: &Contents,
    host: &Version,
    rng: &mut rand::rngs::StdRng,
    timeout: &Option<u64>,
) -> (r: Result<(), crate::error::Error>)
    ensures
        head_error(path@, *contents, *host) matches Some(kind) ==> (r matches Err(e) && e.kind
            == kind),
        r is Ok ==> head_error(path@, *contents, *host) is None && tail_ok(*contents)
            && exists|made: Seq<(Seq<char>, JsonView)>| #[trigger] default_passes(*contents, made),
        head_error(path@, *contents, *host) is None ==> (r matches Err(e) ==> e.kind
            == ErrorKind::ValidateS9pk),
        head_error(path@, *contents, *host) is None && !tail_ok(*contents) ==> r is Err,
        head_error(path@, *contents, *host) is None && (forall|made: Seq<(Seq<char>, JsonView)>|
            defaults_of(contents.config_spec.0@, made, 0, 0) ==> !#[trigger] rules_hold(
                contents.rules@,
                contents.declared.id@,
                made,
            )) ==> r is Err,
        head_error(path@, *contents, *host) is None && tail_ok(*contents) && fields_certain(
            contents.config_spec.0@,
            0,
        ) && (forall|made: Seq<(Seq<char>, JsonView)>|
            defaults_of(contents.config_spec.0@, made, 0, 0) ==> #[trigger] rules_hold(
                contents.rules@,
                contents.declared.id@,
                made,
            )) ==> r is Ok,
{
    let name = match verify_name(path) {
        Ok(name) => name,
        Err(e) => {
            return Err(e);
        },
    };
    let mut stage = Stage::Manifest;
    match stage.check_entry(entry(&contents.entries, 0)) {
        Err(e) => {
            return Err(e);
        },
        Ok(()) => {},
    }
    match verify_manifest(&contents.declared, name.as_str(), host) {
        Err(e) => {
            return Err(e);
        },
        Ok(()) => {},
    }
    stage = stage.next(contents.has_instructions);
    match stage.check_entry(entry(&contents.entries, 1)) {
        Err(e) => {
            return Err(e);
        },
        Ok(()) => {},
    }
    let config = match verify_config(contents.config_spec, contents.dependencies, rng, timeout) {
        Err(e) => {
            return Err(e);
        },
        Ok(config) => config,
    };
    stage = stage.next(contents.has_instructions);
    match stage.check_entry(entry(&contents.entries, 2)) {
        Err(e) => {
            return Err(e);
        },
        Ok(()) => {},
    }
    match verify_rules(contents.rules, contents.declared.id.as_str(), &config) {
        Err(e) => {
            return Err(e);
        },
        Ok(()) => {},
    }
    assert(default_passes(*contents, config_view(config@)));
    let mut at: usize = 3;
    if contents.has_instructions {
        stage = stage.next(contents.has_instructions);
        match stage.check_entry(entry(&contents.entries, 3)) {
            Err(e) => {
                return Err(e);
            },
            Ok(()) => {},
        }
        at = 4;
    }
    if !image_found(&contents.entries, at) {
        return Err(
            crate::error::Error::of(
                ErrorKind::ValidateS9pk,
                "Package File Invalid or Corrupted: expected image.tar",
            ),
        );
    }
    match &contents.image_tags {
        None => Err(
            crate::error::Error::of(ErrorKind::ValidateS9pk, "Image Names No Tags"),
        ),
        Some(tags) => check_image_tags(tags, contents.declared.id),
    }
}

} // verus!
