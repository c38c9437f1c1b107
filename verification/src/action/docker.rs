//! The container invocation behind an action: how its container is named,
//! and which arguments the runtime is given.

use vstd::prelude::*;
use vstd::string::*;
use crate::action::format::{document_in, encoded_in};
use crate::error::{Error, ErrorKind};
use crate::id::{is_id, is_id_char, is_package_id, Id, PackageId};
use crate::net::{ip_text, ip_to_string, IpPool};
use crate::ordered_map::{lookup, OrderedMap};
use crate::text::{
    chars_of, find_char, first_index, first_index_finds, first_index_is, has_prefix, lacks,
    starts_with, string_from_utf8, string_of, texts,
};
use crate::version::{decimal, push_decimal, version_text, Version};
use crate::volume::{is_read_only, volume_path, Volume, Volumes};

verus! {

/// How what an action reads and writes is encoded.
#[derive(Clone, Copy, Debug, PartialEq, Eq, Structural)]
pub enum DockerIOFormat {
    Json,
    Yaml,
    Cbor,
    Toml,
}

/// The name under which a format is shown.
pub open spec fn format_name(format: DockerIOFormat) -> Seq<char> {
    match format {
        DockerIOFormat::Json => "JSON"@,
        DockerIOFormat::Yaml => "YAML"@,
        DockerIOFormat::Cbor => "CBOR"@,
        DockerIOFormat::Toml => "TOML"@,
    }
}

impl DockerIOFormat {
    /// The name under which the format is shown.
    pub fn to_string(&self) -> (s: String)
        ensures
            s@ == format_name(*self),
    {
        match self {
            DockerIOFormat::Json => "JSON".to_owned(),
            DockerIOFormat::Yaml => "YAML".to_owned(),
            DockerIOFormat::Cbor => "CBOR".to_owned(),
            DockerIOFormat::Toml => "TOML".to_owned(),
        }
    }
}

/// The name of an image inside a package.
#[derive(Debug)]
pub struct ImageId(pub Id);

/// The package that owns the images of the system itself.
pub const SYSTEM_PACKAGE_ID: &'static str = "x_system";

/// The full name of image `image` of `owner`, with the version as its tag
/// where one is given.
pub open spec fn image_name(image: Seq<char>, owner: Seq<char>, version: Option<Version>) -> Seq<
    char,
> {
    let base = "start9/"@ + owner + seq!['/'] + image;
    match version {
        Some(v) => base + seq![':'] + version_text(v),
        None => base,
    }
}

impl ImageId {
    /// The full name of this image as one of `owner`'s.
    pub fn for_package(&self, owner: &str, version: Option<&Version>) -> (name: String)
        ensures
            name@ == image_name(
                self.0@,
                owner@,
                match version {
                    Some(v) => Some(*v),
                    None => None,
                },
            ),
    {
        let mut name = "start9/".to_owned();
        name.append(owner);
        proof {
            reveal_strlit("/");
            reveal_strlit(":");
        }
        name.append("/");
        name.append(self.0.as_str());
        match version {
            Some(v) => {
                name.append(":");
                let t = v.to_string();
                name.append(t.as_str());
                assert(name@ =~= image_name(self.0@, owner@, Some(*v)));
            },
            None => {
                assert(name@ =~= image_name(self.0@, owner@, None));
            },
        }
        name
    }
}

/// The runtime argument that binds host path `src` to container path `dst`.
/// A read-only volume is bound read-only.
pub open spec fn mount_arg(src: Seq<char>, dst: Seq<char>, read_only: bool) -> Seq<char> {
    let bind = "type=bind,src="@ + src + ",dst="@ + dst;
    if read_only {
        bind + ",readonly"@
    } else {
        bind
    }
}

/// The arguments for the mount of `volume_id` at `dst`: none where the
/// package has no such volume.
pub open spec fn one_mount_args(
    volume_id: Seq<char>,
    dst: Seq<char>,
    pkg_id: Seq<char>,
    volumes: Seq<(Seq<char>, Volume)>,
) -> Seq<Seq<char>> {
    match lookup(volumes, volume_id) {
        Some(v) => seq![
            "--mount"@,
            mount_arg(volume_path(v, pkg_id, volume_id), dst, is_read_only(v)),
        ],
        None => Seq::empty(),
    }
}

/// The arguments for all of `mounts`, in their order.
pub open spec fn mount_args(
    mounts: Seq<(Seq<char>, String)>,
    pkg_id: Seq<char>,
    volumes: Seq<(Seq<char>, Volume)>,
) -> Seq<Seq<char>>
    decreases mounts.len(),
{
    if mounts.len() == 0 {
        Seq::empty()
    } else {
        mount_args(mounts.drop_last(), pkg_id, volumes) + one_mount_args(
            mounts.last().0,
            mounts.last().1@,
            pkg_id,
            volumes,
        )
    }
}

/// The arguments that size shared memory.
pub open spec fn shm_args(shm_size_mb: Option<u64>) -> Seq<Seq<char>> {
    match shm_size_mb {
        Some(n) => seq!["--shm-size"@, decimal(n as nat) + seq!['m']],
        None => Seq::empty(),
    }
}

/// A container invocation.
pub struct DockerAction {
    pub image: ImageId,
    pub system: bool,
    pub entrypoint: String,
    pub args: Vec<String>,
    pub mounts: OrderedMap<String>,
    pub io_format: Option<DockerIOFormat>,
    pub inject: bool,
    pub shm_size_mb: Option<u64>,
}

/// What is run: inside the package's existing container for an injected
/// action, otherwise the entrypoint of the image, which is the system's own
/// where the action says so.
pub open spec fn target_args(action: DockerAction, pkg_id: Seq<char>, version: Version) -> Seq<
    Seq<char>,
> {
    if action.inject {
        seq![container_name_text(pkg_id, version), action.entrypoint@]
    } else if action.system {
        seq![
            "--entrypoint"@,
            action.entrypoint@,
            image_name(action.image.0@, SYSTEM_PACKAGE_ID@, None),
        ]
    } else {
        seq![
            "--entrypoint"@,
            action.entrypoint@,
            image_name(action.image.0@, pkg_id, Some(version)),
        ]
    }
}

/// The arguments that describe the container of `action`: its mounts, its
/// shared memory, what is run, and the action's own arguments.
pub open spec fn docker_args_of(
    action: DockerAction,
    pkg_id: Seq<char>,
    version: Version,
    volumes: Seq<(Seq<char>, Volume)>,
) -> Seq<Seq<char>> {
    mount_args(action.mounts@, pkg_id, volumes) + shm_args(action.shm_size_mb) + target_args(
        action,
        pkg_id,
        version,
    ) + texts(action.args@)
}

/// The arguments that create the container of `action` with address `ip`
/// on the private bridge.
pub open spec fn create_args_of(
    action: DockerAction,
    pkg_id: Seq<char>,
    version: Version,
    volumes: Seq<(Seq<char>, Volume)>,
    ip: u32,
) -> Seq<Seq<char>> {
    seq![
        "create"@,
        "--net"@,
        "start9"@,
        "--ip"@,
        ip_text(ip),
        "--name"@,
        container_name_text(pkg_id, version),
    ] + docker_args_of(action, pkg_id, version, volumes)
}

/// The arguments that run `action`: inside the existing container for an
/// injected action, otherwise in a fresh container that is removed when it
/// exits.
pub open spec fn run_args_of(
    action: DockerAction,
    pkg_id: Seq<char>,
    version: Version,
    volumes: Seq<(Seq<char>, Volume)>,
) -> Seq<Seq<char>> {
    (if action.inject {
        seq!["exec"@]
    } else {
        seq!["run"@, "--rm"@]
    }) + docker_args_of(action, pkg_id, version, volumes)
}

/// How an invocation ended.
#[derive(Debug)]
pub struct Exit {
    /// Did the process exit with success?
    pub success: bool,
    /// Its exit code, where it had one.
    pub code: Option<i32>,
    /// What it wrote to its standard output.
    pub stdout: Vec<u8>,
    /// What it wrote to its standard error.
    pub stderr: Vec<u8>,
}

/// What a successful invocation handed back.
#[derive(Debug)]
pub enum Output {
    /// The document that the output held in the action's format.
    Document(serde_json::Value),
    /// The output as text, to be read as a string value.
    Text(String),
    /// Nothing: the null value.
    Null,
}

/// What a failed invocation is reported as: its exit code, zero where it
/// had none, and the text of its standard error.
#[derive(Debug)]
pub struct Failure {
    pub code: i32,
    pub stderr: String,
}

/// `r` is what the end `exit` of an invocation of `action` is read as.
pub open spec fn interpreted(
    action: DockerAction,
    exit: Exit,
    r: Result<Result<Output, Failure>, Error>,
) -> bool {
    &&& !exit.success ==> (r is Ok <==> vstd::utf8::valid_utf8(exit.stderr@))
    &&& !exit.success ==> (r matches Ok(inner) ==> (inner matches Err(f) && f.stderr@
        == vstd::utf8::decode_utf8(exit.stderr@) && f.code == match exit.code {
        Some(c) => c,
        None => 0,
    }))
    &&& exit.success && action.io_format is Some && document_in(
        action.io_format->0,
        exit.stdout@,
    ) is Some ==> (r matches Ok(Ok(Output::Document(d))) && Some(d) == document_in(
        action.io_format->0,
        exit.stdout@,
    ))
    &&& exit.success && action.io_format is None && exit.stdout@.len() == 0 ==> (r matches Ok(
        Ok(Output::Null),
    ))
    &&& exit.success && (if action.io_format is Some {
        document_in(action.io_format->0, exit.stdout@) is None
    } else {
        exit.stdout@.len() > 0
    }) ==> (r is Ok <==> vstd::utf8::valid_utf8(exit.stdout@)) && (r matches Ok(inner) ==> (
    inner matches Ok(Output::Text(t)) && t@ == vstd::utf8::decode_utf8(exit.stdout@)))
    &&& r matches Err(e) ==> e.kind == ErrorKind::Deserialization
}

/// What every container name begins with.
pub open spec fn name_prefix() -> Seq<char> {
    "service_"@
}

/// The name of the container of `pkg_id` at `version`.
pub open spec fn container_name_text(pkg_id: Seq<char>, version: Version) -> Seq<char> {
    name_prefix() + pkg_id + seq!['_'] + version_text(version)
}

/// The package that a container name speaks of: what stands between the
/// prefix and the next `_`, or the end. `None` for a name without the prefix.
pub open spec fn container_owner(name: Seq<char>) -> Option<Seq<char>> {
    if has_prefix(name, name_prefix()) {
        let rest = name.skip(name_prefix().len() as int);
        Some(rest.take(first_index(rest, '_')))
    } else {
        None
    }
}

impl DockerAction {
    /// The name of the container of `pkg_id` at `version`.
    pub fn container_name(pkg_id: &PackageId, version: &Version) -> (name: String)
        ensures
            name@ == container_name_text(pkg_id@, *version),
    {
        let mut name = "service_".to_owned();
        name.append(pkg_id.as_str());
        proof {
            reveal_strlit("_");
        }
        name.append("_");
        let v = version.to_string();
        name.append(v.as_str());
        assert(name@ =~= container_name_text(pkg_id@, *version));
        name
    }

    /// The package that the container named `name` belongs to.
    pub fn uncontainer_name(name: &str) -> (owner: Option<&str>)
        ensures
            owner is Some <==> container_owner(name@) is Some,
            owner matches Some(o) ==> Some(o@) == container_owner(name@),
    {
        let chars = chars_of(name);
        let prefix = chars_of("service_");
        if !starts_with(&chars, &prefix) {
            return None;
        }
        let from = prefix.len();
        let end = find_char(&chars, '_', from);
        proof {
            let rest = name@.skip(from as int);
            first_index_finds(name@, '_', from as int);
            assert forall|i: int| 0 <= i < end - from implies rest[i] != '_' by {
                assert(rest[i] == name@[i + from]);
            }
            first_index_is(rest, '_', 0, end - from);
            assert(rest.take(end - from) =~= name@.subrange(from as int, end as int));
        }
        Some(name.substring_char(from, end))
    }

    /// The arguments that describe the container of this action for package
    /// `pkg_id` at `version`, with the package's `volumes`.
    pub fn docker_args(&self, pkg_id: &PackageId, version: &Version, volumes: &Volumes) -> (res: Vec<
        String,
    >)
        ensures
            texts(res@) == docker_args_of(*self, pkg_id@, *version, volumes@),
    {
        let mut res: Vec<String> = Vec::new();
        let mut i: usize = 0;
        assert(texts(res@) =~= mount_args(self.mounts@.take(0), pkg_id@, volumes@));
        while i < self.mounts.len()
            invariant
                i <= self.mounts@.len(),
                texts(res@) == mount_args(self.mounts@.take(i as int), pkg_id@, volumes@),
            decreases self.mounts@.len() - i,
        {
            let volume_id = self.mounts.key_at(i);
            let dst = self.mounts.value_at(i);
            let ghost before = texts(res@);
            proof {
                let next = self.mounts@.take(i as int + 1);
                assert(next.drop_last() =~= self.mounts@.take(i as int));
                assert(next.last() == self.mounts@[i as int]);
            }
            match volumes.get_by_name(volume_id) {
                Some(volume) => {
                    let src = volume.path_for_name(pkg_id, volume_id);
                    let mut arg = "type=bind,src=".to_owned();
                    arg.append(src.as_str());
                    arg.append(",dst=");
                    arg.append(dst.as_str());
                    if volume.read_only() {
                        arg.append(",readonly");
                    }
                    assert(arg@ =~= mount_arg(src@, dst@, is_read_only(*volume)));
                    res.push("--mount".to_owned());
                    res.push(arg);
                    assert(texts(res@) =~= before + one_mount_args(
                        volume_id@,
                        dst@,
                        pkg_id@,
                        volumes@,
                    ));
                },
                None => {
                    assert(texts(res@) =~= before + one_mount_args(
                        volume_id@,
                        dst@,
                        pkg_id@,
                        volumes@,
                    ));
                },
            }
            i = i + 1;
        }
        assert(self.mounts@.take(i as int) =~= self.mounts@);
        let ghost mounted = texts(res@);
        match self.shm_size_mb {
            Some(n) => {
                res.push("--shm-size".to_owned());
                let mut size: Vec<char> = Vec::new();
                push_decimal(n, &mut size);
                size.push('m');
                let size = string_of(&size);
                assert(size@ =~= decimal(n as nat) + seq!['m']);
                res.push(size);
            },
            None => {},
        }
        assert(texts(res@) =~= mounted + shm_args(self.shm_size_mb));
        let ghost sized = texts(res@);
        if self.inject {
            res.push(Self::container_name(pkg_id, version));
            res.push(self.entrypoint.clone());
        } else {
            res.push("--entrypoint".to_owned());
            res.push(self.entrypoint.clone());
            if self.system {
                res.push(self.image.for_package(SYSTEM_PACKAGE_ID, None));
            } else {
                res.push(self.image.for_package(pkg_id.as_str(), Some(version)));
            }
        }
        assert(texts(res@) =~= sized + target_args(*self, pkg_id@, *version));
        let ghost targeted = texts(res@);
        let mut j: usize = 0;
        while j < self.args.len()
            invariant
                j <= self.args@.len(),
                texts(res@) == targeted + texts(self.args@.take(j as int)),
            decreases self.args@.len() - j,
        {
            let ghost before = texts(res@);
            let ghost old_res = res@;
            res.push(self.args[j].clone());
            proof {
                let want = targeted + texts(self.args@.take(j as int + 1));
                assert(self.args@.take(j as int).len() == j);
                assert(texts(self.args@.take(j as int)).len() == j);
                assert(before.len() == targeted.len() + j);
                assert(res@.len() == old_res.len() + 1);
                assert(texts(res@).len() == before.len() + 1);
                assert(texts(res@).len() == want.len());
                assert forall|k: int| 0 <= k < want.len() implies texts(res@)[k] == want[k] by {
                    if k < before.len() {
                        assert(res@[k] == old_res[k]);
                        assert(texts(res@)[k] == before[k]);
                        if k >= targeted.len() {
                            assert(before[k] == texts(self.args@.take(j as int))[k - targeted.len()]);
                        }
                    } else {
                        assert(res@[k] == self.args@[j as int]);
                    }
                }
                assert(texts(res@) =~= want);
            }
            j = j + 1;
        }
        assert(self.args@.take(j as int) =~= self.args@);
        res
    }

    /// Takes an address from `ip_pool` and gives the arguments that create
    /// the container with it. Fails, with kind `Network` and the pool
    /// untouched, exactly when no address is free.
    pub fn create(
        &self,
        pkg_id: &PackageId,
        version: &Version,
        volumes: &Volumes,
        ip_pool: &mut IpPool,
    ) -> (r: Result<(u32, Vec<String>), Error>)
        ensures
            r is Err <==> !old(ip_pool).has_free(),
            r matches Err(e) ==> e.kind == ErrorKind::Network && *final(ip_pool) == *old(ip_pool),
            r matches Ok(created) ==> old(ip_pool).leases(*final(ip_pool), created.0) && texts(
                created.1@,
            ) == create_args_of(*self, pkg_id@, *version, volumes@, created.0),
    {
        let ip = match ip_pool.get() {
            Some(ip) => ip,
            None => {
                return Err(Error::of(ErrorKind::Network, "No available IP addresses"));
            },
        };
        let mut argv: Vec<String> = Vec::new();
        argv.push("create".to_owned());
        argv.push("--net".to_owned());
        argv.push("start9".to_owned());
        argv.push("--ip".to_owned());
        argv.push(ip_to_string(ip));
        argv.push("--name".to_owned());
        argv.push(Self::container_name(pkg_id, version));
        let ghost head = texts(argv@);
        let mut rest = self.docker_args(pkg_id, version, volumes);
        let ghost tail = texts(rest@);
        let ghost old_argv = argv@;
        let ghost old_rest = rest@;
        argv.append(&mut rest);
        proof {
            assert(argv@ == old_argv + old_rest);
            assert(texts(argv@) =~= head + tail);
            assert(head =~= seq![
                "create"@,
                "--net"@,
                "start9"@,
                "--ip"@,
                ip_text(ip),
                "--name"@,
                container_name_text(pkg_id@, *version),
            ]);
        }
        Ok((ip, argv))
    }

    /// The arguments that run this action.
    pub fn invocation(&self, pkg_id: &PackageId, version: &Version, volumes: &Volumes) -> (argv: Vec<
        String,
    >)
        ensures
            texts(argv@) == run_args_of(*self, pkg_id@, *version, volumes@),
    {
        let mut argv: Vec<String> = Vec::new();
        if self.inject {
            argv.push("exec".to_owned());
        } else {
            argv.push("run".to_owned());
            argv.push("--rm".to_owned());
        }
        let ghost head = texts(argv@);
        let mut rest = self.docker_args(pkg_id, version, volumes);
        let ghost tail = texts(rest@);
        let ghost old_argv = argv@;
        let ghost old_rest = rest@;
        argv.append(&mut rest);
        proof {
            assert(argv@ == old_argv + old_rest);
            assert(texts(argv@) =~= head + tail);
            assert(head =~= if self.inject {
                seq!["exec"@]
            } else {
                seq!["run"@, "--rm"@]
            });
        }
        argv
    }

    /// What is written to the standard input of the invocation: the encoding
    /// of `input` where there is input and the action has a format, and nothing
    /// otherwise. A failure to encode is of kind `Serialization`.
    pub fn encode_input(&self, input: Option<&serde_json::Value>) -> (r: Result<
        Option<Vec<u8>>,
        Error,
    >)
        ensures
            match (input, self.io_format) {
                (Some(value), Some(format)) => match encoded_in(format, *value) {
                    Some(bytes) => r matches Ok(Some(found)) && found@ == bytes,
                    None => r matches Err(e) && e.kind == ErrorKind::Serialization,
                },
                _ => r == Ok::<Option<Vec<u8>>, Error>(None),
            },
    {
        match (input, &self.io_format) {
            (Some(value), Some(format)) => {
                match format.to_vec(value) {
                    Ok(bytes) => Ok(Some(bytes)),
                    Err(e) => Err(e),
                }
            },
            _ => Ok(None),
        }
    }

    /// Reads the end of an invocation. A failed process is no error here: it
    /// is handed back with its exit code and the text of its standard error. The
    /// output of a successful one is the document it holds in the action's
    /// format; where it holds none, or the action has no format, the output as
    /// text; and the null value where there is no format and no output. Output
    /// that has to be text and is no UTF-8 is an error of kind
    /// `Deserialization`.
    pub fn interpret(&self, exit: Exit) -> (r: Result<Result<Output, Failure>, Error>)
        ensures
            interpreted(*self, exit, r),
    {
        let Exit { success, code, stdout, stderr } = exit;
        if !success {
            return match string_from_utf8(stderr) {
                Some(text) => Ok(
                    Err(
                        Failure {
                            code: match code {
                                Some(c) => c,
                                None => 0,
                            },
                            stderr: text,
                        },
                    ),
                ),
                None => Err(Error::of(ErrorKind::Deserialization, "standard error is not UTF-8")),
            };
        }
        match &self.io_format {
            Some(format) => {
                match format.from_slice(stdout.as_slice()) {
                    Ok(document) => {
                        return Ok(Ok(Output::Document(document)));
                    },
                    Err(_) => {},
                }
            },
            None => {
                if stdout.len() == 0 {
                    return Ok(Ok(Output::Null));
                }
            },
        }
        match string_from_utf8(stdout) {
            Some(text) => Ok(Ok(Output::Text(text))),
            None => Err(Error::of(ErrorKind::Deserialization, "standard output is not UTF-8")),
        }
    }

}

/// An identifier holds no `_`.
pub proof fn id_lacks_underscore(id: Seq<char>)
    requires
        is_id(id),
    ensures
        lacks(id, '_'),
{
    assert forall|i: int| 0 <= i < id.len() implies id[i] != '_' by {
        assert(is_id_char(id[i]));
    }
}

/// From the name of a package's container the package is read back, at
/// every version.
pub proof fn container_name_roundtrip(pkg_id: Seq<char>, version: Version)
    requires
        is_package_id(pkg_id),
    ensures
        container_owner(container_name_text(pkg_id, version)) == Some(pkg_id),
{
    let name = container_name_text(pkg_id, version);
    let p = name_prefix();
    assert(name.subrange(0, p.len() as int) =~= p);
    let rest = name.skip(p.len() as int);
    assert(rest =~= pkg_id + seq!['_'] + version_text(version));
    id_lacks_underscore(pkg_id);
    assert forall|i: int| 0 <= i < pkg_id.len() implies rest[i] != '_' by {
        assert(rest[i] == pkg_id[i]);
    }
    assert(rest[pkg_id.len() as int] == '_');
    first_index_is(rest, '_', 0, pkg_id.len() as int);
    assert(rest.take(pkg_id.len() as int) =~= pkg_id);
}

} // verus!
