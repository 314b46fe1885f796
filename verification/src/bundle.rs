//! Bundle installation: architecture mapping, the idempotence probe, the
//! search for a local payload file, payload recompression, the install
//! scripts, and the three-strategy fallback ladder.

use crate::errors::SshPodError;
use crate::strutil::{
    contains_str, join_strings, join_with, split_char, split_on_char, str_eq, trim_spec, trim_str,
};
use vstd::prelude::*;

verus! {

/// The version string written to the `VERSION` marker file.
pub const BUNDLE_VERSION: &'static str = "0.1.0+sshd1";

// ---------------------------------------------------------------------------
// Architecture detection
// ---------------------------------------------------------------------------

/// The bundle architecture a `uname -m` value maps to, when it maps at all.
pub open spec fn spec_arch_of(m: Seq<char>) -> Option<Seq<char>> {
    if m == ("x86_64")@ || m == ("amd64")@ {
        Option::Some(("linux/amd64")@)
    } else if m == ("aarch64")@ || m == ("arm64")@ {
        Option::Some(("linux/arm64")@)
    } else {
        Option::None
    }
}

/// Map the container's `uname -m` output to a bundle architecture:
/// `x86_64`/`amd64` and `aarch64`/`arm64` are supported, anything else is
/// rejected with the trimmed machine name.
pub fn arch_for_machine(machine: &str) -> (r: Result<String, SshPodError>)
    ensures
        match spec_arch_of(trim_spec(machine@)) {
            Option::Some(a) => r matches Ok(v) && v@ == a,
            Option::None => r matches Err(e) && e matches SshPodError::UnsupportedArch {
                machine: m,
            } && m@ == trim_spec(machine@),
        },
{
    let t = trim_str(machine);
    if str_eq(t.as_str(), "x86_64") || str_eq(t.as_str(), "amd64") {
        Result::Ok(String::from_str("linux/amd64"))
    } else if str_eq(t.as_str(), "aarch64") || str_eq(t.as_str(), "arm64") {
        Result::Ok(String::from_str("linux/arm64"))
    } else {
        Result::Err(SshPodError::UnsupportedArch { machine: t })
    }
}

// ---------------------------------------------------------------------------
// Idempotence probe
// ---------------------------------------------------------------------------

/// Whether the marker files read back from the container already carry the
/// wanted version and architecture.
pub open spec fn spec_bundle_current(
    remote_version: Option<Seq<char>>,
    remote_arch: Option<Seq<char>>,
    version: Seq<char>,
    arch: Seq<char>,
) -> bool {
    remote_version == Option::Some(version) && remote_arch == Option::Some(arch)
}

/// Decide from the two speculative marker reads whether installation can be
/// skipped entirely.
pub fn bundle_is_current(
    remote_version: &Option<String>,
    remote_arch: &Option<String>,
    version: &str,
    arch: &str,
) -> (r: bool)
    ensures
        r == spec_bundle_current(
            remote_version.deep_view(),
            remote_arch.deep_view(),
            version@,
            arch@,
        ),
{
    match (remote_version, remote_arch) {
        (Option::Some(v), Option::Some(a)) => {
            str_eq(v.as_str(), version) && str_eq(a.as_str(), arch)
        },
        _ => false,
    }
}

/// A probe that reads back exactly the markers a successful installation
/// wrote reports the bundle as current: the second run of the installer
/// performs no further remote write.
pub proof fn lemma_bundle_probe_idempotent(version: Seq<char>, arch: Seq<char>)
    ensures
        spec_bundle_current(Option::Some(version), Option::Some(arch), version, arch),
{
}

/// Where the `VERSION` marker lives under a base path.
pub fn version_path(base: &str) -> (r: String)
    ensures
        r@ == base@ + ("/bundle/VERSION")@,
{
    let mut r = base.to_owned();
    r.append("/bundle/VERSION");
    r
}

/// Where the `ARCH` marker lives under a base path.
pub fn arch_path(base: &str) -> (r: String)
    ensures
        r@ == base@ + ("/bundle/ARCH")@,
{
    let mut r = base.to_owned();
    r.append("/bundle/ARCH");
    r
}

// ---------------------------------------------------------------------------
// Payload lookup
// ---------------------------------------------------------------------------

/// The payload embedded in the binary for an architecture. This build
/// embeds none (packaging the blobs is outside the library), so every
/// lookup reports that the sibling-file search must run.
pub fn get_bundle(arch: &str) -> (r: Option<Vec<u8>>)
    ensures
        r is None,
{
    let _ = arch;
    Option::None
}

/// The file name of a sibling payload for an architecture.
pub open spec fn spec_bundle_filename(arch: Seq<char>) -> Seq<char> {
    if arch == ("linux/amd64")@ {
        ("sshd_amd64.xz")@
    } else if arch == ("linux/arm64")@ {
        ("sshd_arm64.xz")@
    } else {
        ("sshd_")@ + join_with(split_char(arch, '/'), ("_")@) + (".xz")@
    }
}

/// Build the payload file name, replacing `/` by `_` for an architecture
/// outside the two known ones.
pub fn bundle_filename(arch: &str) -> (r: String)
    ensures
        r@ == spec_bundle_filename(arch@),
{
    if str_eq(arch, "linux/amd64") {
        String::from_str("sshd_amd64.xz")
    } else if str_eq(arch, "linux/arm64") {
        String::from_str("sshd_arm64.xz")
    } else {
        let parts = split_on_char(arch, '/');
        let joined = join_strings(&parts, "_");
        let mut r = String::from_str("sshd_");
        r.append(joined.as_str());
        r.append(".xz");
        r
    }
}

/// The ordered candidate paths before de-duplication: the working
/// directory, `./bundles/`, the binary's directory, its `bundles/`, and the
/// grandparent's `bundles/`.
pub open spec fn spec_candidate_list(
    filename: Seq<char>,
    exe_dir: Option<Seq<char>>,
    exe_parent: Option<Seq<char>>,
) -> Seq<Seq<char>> {
    seq![filename, ("bundles/")@ + filename] + (match exe_dir {
        Option::Some(d) => seq![d + ("/")@ + filename, d + ("/bundles/")@ + filename],
        Option::None => Seq::empty(),
    }) + (match exe_parent {
        Option::Some(p) => seq![p + ("/bundles/")@ + filename],
        Option::None => Seq::empty(),
    })
}

/// The list with later repetitions of an entry removed.
pub open spec fn spec_dedup(s: Seq<Seq<char>>) -> Seq<Seq<char>>
    decreases s.len(),
{
    if s.len() == 0 {
        s
    } else if contains_str(s.drop_last(), s.last()) {
        spec_dedup(s.drop_last())
    } else {
        spec_dedup(s.drop_last()).push(s.last())
    }
}

proof fn lemma_contains_push(s: Seq<Seq<char>>, x: Seq<char>, y: Seq<char>)
    ensures
        contains_str(s.push(y), x) <==> (contains_str(s, x) || x == y),
{
    assert(s.push(y)[s.len() as int] == y);
    if contains_str(s.push(y), x) && x != y {
        let i = choose|i: int| 0 <= i < s.push(y).len() && s.push(y)[i] == x;
        assert(s[i] == x);
    }
    if contains_str(s, x) {
        let i = choose|i: int| 0 <= i < s.len() && s[i] == x;
        assert(s.push(y)[i] == x);
    }
}

proof fn lemma_dedup_same_membership(s: Seq<Seq<char>>, x: Seq<char>)
    ensures
        contains_str(spec_dedup(s), x) == contains_str(s, x),
    decreases s.len(),
{
    if s.len() > 0 {
        let d = s.drop_last();
        lemma_dedup_same_membership(d, x);
        assert(d.push(s.last()) =~= s);
        lemma_contains_push(d, x, s.last());
        if contains_str(d, s.last()) {
            // dropped duplicate: membership of x unchanged
            if x == s.last() {
                assert(contains_str(d, x));
            }
        } else {
            lemma_contains_push(spec_dedup(d), x, s.last());
        }
    }
}

/// The de-duplicated candidate paths for a payload file, in search order.
pub fn bundle_candidates(
    filename: &str,
    exe_dir: &Option<String>,
    exe_parent: &Option<String>,
) -> (r: Vec<String>)
    ensures
        r.deep_view() == spec_dedup(
            spec_candidate_list(filename@, exe_dir.deep_view(), exe_parent.deep_view()),
        ),
{
    let ghost raw_spec = spec_candidate_list(filename@, exe_dir.deep_view(), exe_parent.deep_view());
    let mut raw: Vec<String> = Vec::new();
    raw.push(filename.to_owned());
    let mut second = String::from_str("bundles/");
    second.append(filename);
    raw.push(second);
    match exe_dir {
        Option::Some(d) => {
            let mut third = d.clone();
            third.append("/");
            third.append(filename);
            raw.push(third);
            let mut fourth = d.clone();
            fourth.append("/bundles/");
            fourth.append(filename);
            raw.push(fourth);
        },
        Option::None => {},
    }
    match exe_parent {
        Option::Some(p) => {
            let mut fifth = p.clone();
            fifth.append("/bundles/");
            fifth.append(filename);
            raw.push(fifth);
        },
        Option::None => {},
    }
    proof {
        assert(raw.deep_view() =~= raw_spec);
    }
    let mut out: Vec<String> = Vec::new();
    let mut i: usize = 0;
    proof {
        assert(raw.deep_view().take(0) =~= Seq::<Seq<char>>::empty());
        assert(out.deep_view() =~= spec_dedup(raw.deep_view().take(0)));
    }
    while i < raw.len()
        invariant
            i <= raw.len(),
            raw.deep_view() == raw_spec,
            raw.deep_view().len() == raw.len(),
            out.deep_view() == spec_dedup(raw.deep_view().take(i as int)),
        decreases raw.len() - i,
    {
        let ghost pre = raw.deep_view().take(i as int);
        let ghost pre1 = raw.deep_view().take(i as int + 1);
        proof {
            assert(pre1.drop_last() =~= pre);
            assert(pre1.last() == raw.deep_view()[i as int]);
            lemma_dedup_same_membership(pre, raw.deep_view()[i as int]);
        }
        if !crate::strutil::vec_contains_str(&out, raw[i].as_str()) {
            let ghost old_out = out.deep_view();
            out.push(raw[i].clone());
            proof {
                assert(out.deep_view() =~= old_out.push(raw.deep_view()[i as int]));
            }
        }
        i += 1;
    }
    proof {
        assert(raw.deep_view().take(raw.len() as int) =~= raw.deep_view());
    }
    out
}

// ---------------------------------------------------------------------------
// Payload recompression
// ---------------------------------------------------------------------------

/// Whether a byte sequence is a well-formed xz stream: decoding succeeds
/// or fails as a function of the bytes alone.
pub uninterp spec fn xz_decodes(data: Seq<u8>) -> bool;

/// What xz decompression yields on a given compressed stream: a pure
/// function of the bytes alone.
pub uninterp spec fn xz_plain_of(data: Seq<u8>) -> Seq<u8>;

/// Whether `out` is a gzip encoding of `plain`. A relation, not a
/// function: the gzip header carries a byte fixed per build target, so
/// two machines may encode the same bytes differently, yet every encoding
/// inflates back to `plain`.
pub uninterp spec fn is_gzip_of(out: Seq<u8>, plain: Seq<u8>) -> bool;

/// Relies on `xz2::read::XzDecoder` (driven by `std::io::Read::read_to_end`):
/// decoding an xz stream is deterministic in the input bytes, and every
/// malformed stream comes back as an error.
#[verifier::external_body]
fn xz_decompress(data: &Vec<u8>) -> (r: Result<Vec<u8>, String>)
    ensures
        r is Ok == xz_decodes(data@),
        r matches Ok(v) ==> v@ == xz_plain_of(data@),
{
    let mut decoder = xz2::read::XzDecoder::new(data.as_slice());
    let mut buf = Vec::new();
    match std::io::Read::read_to_end(&mut decoder, &mut buf) {
        Ok(_) => Ok(buf),
        Err(e) => Err(e.to_string()),
    }
}

/// Relies on `flate2::write::GzEncoder` at the default level: it yields a
/// gzip encoding of the input bytes, and with a `Vec` sink it cannot fail
/// (every error path in the encoder reports a write error of the
/// underlying writer, and writing to a `Vec` never errs).
#[verifier::external_body]
fn gzip_compress(data: &Vec<u8>) -> (r: Result<Vec<u8>, String>)
    ensures
        r is Ok,
        r matches Ok(v) ==> is_gzip_of(v@, data@),
{
    let mut encoder = flate2::write::GzEncoder::new(Vec::new(), flate2::Compression::default());
    if let Err(e) = std::io::Write::write_all(&mut encoder, data.as_slice()) {
        return Err(e.to_string());
    }
    match encoder.finish() {
        Ok(v) => Ok(v),
        Err(e) => Err(e.to_string()),
    }
}

/// The bytes sent for the plain strategy: the xz payload decompressed
/// locally. Succeeds exactly on well-formed xz payloads.
pub fn plain_payload(data: &Vec<u8>) -> (r: Result<Vec<u8>, String>)
    ensures
        r is Ok == xz_decodes(data@),
        r matches Ok(v) ==> v@ == xz_plain_of(data@),
{
    xz_decompress(data)
}

/// The bytes sent for the gzip strategy: the xz payload decompressed
/// locally and re-compressed as gzip, so that `gzip -dc` in the container
/// recovers exactly the decompressed payload. Succeeds exactly on
/// well-formed xz payloads.
pub fn gzip_payload(data: &Vec<u8>) -> (r: Result<Vec<u8>, String>)
    ensures
        r is Ok == xz_decodes(data@),
        r matches Ok(v) ==> is_gzip_of(v@, xz_plain_of(data@)),
{
    let plain = match xz_decompress(data) {
        Ok(v) => v,
        Err(e) => {
            return Result::Err(e);
        },
    };
    gzip_compress(&plain)
}

// ---------------------------------------------------------------------------
// Install scripts
// ---------------------------------------------------------------------------

/// One rung of the fallback ladder.
#[derive(Debug, Clone, Copy, PartialEq, Eq, Structural)]
pub enum InstallMethod {
    Xz,
    Gzip,
    Plain,
}

/// What the decompressed payload holds: the daemon binary alone, or a tar
/// archive unpacking to `bundle/sshd` with its helpers.
#[derive(Debug, Clone, Copy, PartialEq, Eq, Structural)]
pub enum PayloadKind {
    SingleFile,
    TarArchive,
}

/// Whether decompressed payload bytes carry the `ustar` magic of a tar
/// archive at its fixed offset.
pub open spec fn spec_is_tar(data: Seq<u8>) -> bool {
    data.len() >= 262 && data[257] == 117 && data[258] == 115 && data[259] == 116 && data[260]
        == 97 && data[261] == 114
}

/// Classify a decompressed payload by the tar magic.
pub fn payload_kind(plain: &Vec<u8>) -> (r: PayloadKind)
    ensures
        r == (if spec_is_tar(plain@) {
            PayloadKind::TarArchive
        } else {
            PayloadKind::SingleFile
        }),
{
    if plain.len() >= 262 && plain[257] == 117 && plain[258] == 115 && plain[259] == 116
        && plain[260] == 97 && plain[261] == 114 {
        PayloadKind::TarArchive
    } else {
        PayloadKind::SingleFile
    }
}

/// The command each rung pipes a single-file payload through.
pub open spec fn spec_decompress_cmd(m: InstallMethod) -> Seq<char> {
    match m {
        InstallMethod::Xz => ("xz -dc")@,
        InstallMethod::Gzip => ("gzip -dc")@,
        InstallMethod::Plain => ("cat")@,
    }
}

/// The command each rung unpacks a tar payload with.
pub open spec fn spec_tar_cmd(m: InstallMethod) -> Seq<char> {
    match m {
        InstallMethod::Xz => ("tar xJf -")@,
        InstallMethod::Gzip => ("tar xzf -")@,
        InstallMethod::Plain => ("tar xf -")@,
    }
}

/// The trailer every install script ends with: write both marker files and
/// tighten their mode.
pub open spec fn spec_meta_script(base: Seq<char>, version: Seq<char>, arch: Seq<char>) -> Seq<
    char,
> {
    ("printf '%s\\n' \"")@ + version + ("\" > \"")@ + base + ("/bundle/VERSION\"; printf '%s\\n' \"")@
        + arch + ("\" > \"")@ + base + ("/bundle/ARCH\"; chmod 600 \"")@ + base + (
    "/bundle/VERSION\" \"")@ + base + ("/bundle/ARCH\";")@
}

/// How one rung lands stdin in `BASE/bundle/sshd`: a single-file payload
/// is inflated straight into the binary; a tar payload is unpacked under
/// `BASE` (its entries live below `bundle/`). Either way the binary is
/// made executable by owner only.
pub open spec fn spec_unpack_part(m: InstallMethod, payload: PayloadKind, base: Seq<char>) -> Seq<
    char,
> {
    match payload {
        PayloadKind::SingleFile => spec_decompress_cmd(m) + (" > \"")@ + base + (
        "/bundle/sshd\"; ")@,
        PayloadKind::TarArchive => spec_tar_cmd(m) + (" -C \"")@ + base + ("\"; ")@,
    }
}

/// The whole script one rung runs: restrictive umask, create and chmod the
/// bundle directory, land stdin under it, then write the markers.
pub open spec fn spec_install_script(
    m: InstallMethod,
    payload: PayloadKind,
    base: Seq<char>,
    version: Seq<char>,
    arch: Seq<char>,
) -> Seq<char> {
    ("set -eu; umask 077; mkdir -p \"")@ + base + ("/bundle\"; chmod 700 \"")@ + base + ("\" \"")@
        + base + ("/bundle\"; ")@ + spec_unpack_part(m, payload, base) + ("chmod 700 \"")@ + base
        + ("/bundle/sshd\"; ")@ + spec_meta_script(base, version, arch)
}

/// Build the script for one rung of the ladder.
pub fn install_script(
    m: InstallMethod,
    payload: PayloadKind,
    base: &str,
    version: &str,
    arch: &str,
) -> (r: String)
    ensures
        r@ == spec_install_script(m, payload, base@, version@, arch@),
{
    let mut r = String::from_str("set -eu; umask 077; mkdir -p \"");
    r.append(base);
    r.append("/bundle\"; chmod 700 \"");
    r.append(base);
    r.append("\" \"");
    r.append(base);
    r.append("/bundle\"; ");
    match payload {
        PayloadKind::SingleFile => {
            match m {
                InstallMethod::Xz => r.append("xz -dc"),
                InstallMethod::Gzip => r.append("gzip -dc"),
                InstallMethod::Plain => r.append("cat"),
            }
            r.append(" > \"");
            r.append(base);
            r.append("/bundle/sshd\"; ");
        },
        PayloadKind::TarArchive => {
            match m {
                InstallMethod::Xz => r.append("tar xJf -"),
                InstallMethod::Gzip => r.append("tar xzf -"),
                InstallMethod::Plain => r.append("tar xf -"),
            }
            r.append(" -C \"");
            r.append(base);
            r.append("\"; ");
        },
    }
    r.append("chmod 700 \"");
    r.append(base);
    r.append("/bundle/sshd\"; ");
    r.append("printf '%s\\n' \"");
    r.append(version);
    r.append("\" > \"");
    r.append(base);
    r.append("/bundle/VERSION\"; printf '%s\\n' \"");
    r.append(arch);
    r.append("\" > \"");
    r.append(base);
    r.append("/bundle/ARCH\"; chmod 600 \"");
    r.append(base);
    r.append("/bundle/VERSION\" \"");
    r.append(base);
    r.append("/bundle/ARCH\";");
    r
}

// ---------------------------------------------------------------------------
// The fallback ladder
// ---------------------------------------------------------------------------

/// Where the installer stands: which rung to try next, or how it ended.
/// Error messages of failed rungs ride along so the final report can chain
/// all three.
#[derive(Debug, Clone, PartialEq, Eq)]
pub enum InstallState {
    TryXz,
    TryGzip { xz_error: String },
    TryPlain { xz_error: String, gzip_error: String },
    Installed,
    Failed { xz_error: String, gzip_error: String, plain_error: String },
}

/// The rung a state asks to run next, if any.
pub open spec fn spec_ladder_method(s: InstallState) -> Option<InstallMethod> {
    match s {
        InstallState::TryXz => Option::Some(InstallMethod::Xz),
        InstallState::TryGzip { .. } => Option::Some(InstallMethod::Gzip),
        InstallState::TryPlain { .. } => Option::Some(InstallMethod::Plain),
        InstallState::Installed => Option::None,
        InstallState::Failed { .. } => Option::None,
    }
}

/// How one rung's outcome advances the ladder: success installs, failure
/// falls through to the next strategy, and the third failure ends it with
/// all three messages.
pub open spec fn spec_ladder_next(s: InstallState, outcome: Result<(), String>) -> InstallState {
    match s {
        InstallState::TryXz => match outcome {
            Result::Ok(_) => InstallState::Installed,
            Result::Err(e) => InstallState::TryGzip { xz_error: e },
        },
        InstallState::TryGzip { xz_error } => match outcome {
            Result::Ok(_) => InstallState::Installed,
            Result::Err(e) => InstallState::TryPlain { xz_error, gzip_error: e },
        },
        InstallState::TryPlain { xz_error, gzip_error } => match outcome {
            Result::Ok(_) => InstallState::Installed,
            Result::Err(e) => InstallState::Failed { xz_error, gzip_error, plain_error: e },
        },
        InstallState::Installed => InstallState::Installed,
        InstallState::Failed { xz_error, gzip_error, plain_error } => InstallState::Failed {
            xz_error,
            gzip_error,
            plain_error,
        },
    }
}

pub fn ladder_method(s: &InstallState) -> (r: Option<InstallMethod>)
    ensures
        r == spec_ladder_method(*s),
{
    match s {
        InstallState::TryXz => Option::Some(InstallMethod::Xz),
        InstallState::TryGzip { .. } => Option::Some(InstallMethod::Gzip),
        InstallState::TryPlain { .. } => Option::Some(InstallMethod::Plain),
        InstallState::Installed => Option::None,
        InstallState::Failed { .. } => Option::None,
    }
}

pub fn ladder_next(s: InstallState, outcome: Result<(), String>) -> (r: InstallState)
    ensures
        r == spec_ladder_next(s, outcome),
{
    match s {
        InstallState::TryXz => match outcome {
            Result::Ok(_) => InstallState::Installed,
            Result::Err(e) => InstallState::TryGzip { xz_error: e },
        },
        InstallState::TryGzip { xz_error } => match outcome {
            Result::Ok(_) => InstallState::Installed,
            Result::Err(e) => InstallState::TryPlain { xz_error, gzip_error: e },
        },
        InstallState::TryPlain { xz_error, gzip_error } => match outcome {
            Result::Ok(_) => InstallState::Installed,
            Result::Err(e) => InstallState::Failed { xz_error, gzip_error, plain_error: e },
        },
        InstallState::Installed => InstallState::Installed,
        InstallState::Failed { xz_error, gzip_error, plain_error } => InstallState::Failed {
            xz_error,
            gzip_error,
            plain_error,
        },
    }
}

/// On a container that defeats the first two strategies, the ladder runs
/// exactly xz, then gzip, then plain, keeps both intermediate error
/// messages, and stops asking for work once a rung succeeds.
pub proof fn lemma_ladder_three_strategies(e1: String, e2: String)
    ensures
        ({
            let s1 = spec_ladder_next(InstallState::TryXz, Result::Err(e1));
            let s2 = spec_ladder_next(s1, Result::Err(e2));
            let s3 = spec_ladder_next(s2, Result::Ok(()));
            &&& spec_ladder_method(InstallState::TryXz) == Option::Some(InstallMethod::Xz)
            &&& s1 == (InstallState::TryGzip { xz_error: e1 })
            &&& spec_ladder_method(s1) == Option::Some(InstallMethod::Gzip)
            &&& s2 == (InstallState::TryPlain { xz_error: e1, gzip_error: e2 })
            &&& spec_ladder_method(s2) == Option::Some(InstallMethod::Plain)
            &&& s3 == InstallState::Installed
            &&& spec_ladder_method(s3) is None
        }),
{
}

} // verus!
