//! What the engine knows of the verifier-artifact generator: the two proof
//! modes, where the generator is fetched from, how it is called, and the
//! names of the files that it is asked to write.

use crate::error::ConfigIssue;
use crate::error::DeployError;
use crate::forge_utils::create::push_text;
use crate::forge_utils::create::texts;
use crate::text::decimal;
use crate::text::decimal_string;
use crate::text::same_text;
use crate::types::BatchSize;
use crate::types::TreeDepth;
use vstd::prelude::*;
use vstd::string::StringExecFns;

verus! {

/// The file name of the generator within the cache.
pub const MTB_BIN: &'static str = "mtb";

/// Where the releases of the generator are published.
pub const MTB_RELEASES_URL: &'static str = "https://github.com/worldcoin/semaphore-mtb/releases/download";

/// The release of the generator that is used.
pub const MTB_VERSION: &'static str = "1.2.1";

/// What a verifier contract checks: insertions into the tree or deletions
/// from it.
#[derive(Debug, Clone, Copy, PartialEq, Eq, Structural)]
pub enum ProverMode {
    Insertion,
    Deletion,
}

/// The kinds of operating system that the engine tells apart.
#[derive(Debug, Clone, Copy, PartialEq, Eq, Structural)]
pub enum OsType {
    Windows,
    Macos,
    Ubuntu,
    Linux,
    Other,
}

impl ProverMode {
    /// The name of the mode, as the generator knows it.
    pub open spec fn text(&self) -> Seq<char> {
        match *self {
            ProverMode::Insertion => "insertion"@,
            ProverMode::Deletion => "deletion"@,
        }
    }

    /// The name of the mode in lower case.
    pub fn to_string(&self) -> (r: String)
        ensures
            r@ == self.text(),
    {
        match *self {
            ProverMode::Insertion => String::from_str("insertion"),
            ProverMode::Deletion => String::from_str("deletion"),
        }
    }

    /// Reads the name of a mode; only the two names in lower case are
    /// modes.
    pub fn from_str(s: &str) -> (r: Option<ProverMode>)
        ensures
            r == if s@ == "insertion"@ {
                Some(ProverMode::Insertion)
            } else if s@ == "deletion"@ {
                Some(ProverMode::Deletion)
            } else {
                None
            },
    {
        if same_text(s, "insertion") {
            Some(ProverMode::Insertion)
        } else if same_text(s, "deletion") {
            Some(ProverMode::Deletion)
        } else {
            None
        }
    }
}

/// `prefix`, the tree depth, an underscore, the batch size, `suffix`.
pub open spec fn file_name(prefix: Seq<char>, tree_depth: TreeDepth, batch_size: BatchSize, suffix: Seq<char>) -> Seq<
    char,
> {
    prefix + decimal(tree_depth.0 as nat) + seq!['_'] + decimal(batch_size.0 as nat) + suffix
}

/// Writes `prefix`, the tree depth, an underscore, the batch size and
/// `suffix` one after the other.
fn name_file(prefix: &str, tree_depth: TreeDepth, batch_size: BatchSize, suffix: &str) -> (r: String)
    ensures
        r@ == file_name(prefix@, tree_depth, batch_size, suffix@),
{
    proof {
        reveal_strlit("_");
    }
    let mut r = String::from_str(prefix);
    let depth = decimal_string(tree_depth.0);
    r.append(depth.as_str());
    r.append("_");
    let size = decimal_string(batch_size.0);
    r.append(size.as_str());
    r.append(suffix);
    assert("_"@ =~= seq!['_']);
    assert(r@ =~= file_name(prefix@, tree_depth, batch_size, suffix@));
    r
}

/// The name of the file of insertion keys: `keys_insertion_<depth>_<size>`.
pub fn insertion_keys_file_format(tree_depth: TreeDepth, batch_size: BatchSize) -> (r: String)
    ensures
        r@ == file_name("keys_insertion_"@, tree_depth, batch_size, ""@),
{
    name_file("keys_insertion_", tree_depth, batch_size, "")
}

/// The name of the file of deletion keys: `keys_deletion_<depth>_<size>`.
pub fn deletion_keys_file_format(tree_depth: TreeDepth, batch_size: BatchSize) -> (r: String)
    ensures
        r@ == file_name("keys_deletion_"@, tree_depth, batch_size, ""@),
{
    name_file("keys_deletion_", tree_depth, batch_size, "")
}

/// The name of the insertion verifier's source file:
/// `insertion_<depth>_<size>.sol`.
pub fn insertion_verifier_contract_filename(tree_depth: TreeDepth, batch_size: BatchSize) -> (r: String)
    ensures
        r@ == file_name("insertion_"@, tree_depth, batch_size, ".sol"@),
{
    name_file("insertion_", tree_depth, batch_size, ".sol")
}

/// The name of the deletion verifier's source file:
/// `deletion_<depth>_<size>.sol`.
pub fn deletion_verifier_contract_filename(tree_depth: TreeDepth, batch_size: BatchSize) -> (r: String)
    ensures
        r@ == file_name("deletion_"@, tree_depth, batch_size, ".sol"@),
{
    name_file("deletion_", tree_depth, batch_size, ".sol")
}

/// The name of the keys file for a mode.
pub fn keys_file_name(tree_depth: TreeDepth, batch_size: BatchSize, mode: ProverMode) -> (r: String)
    ensures
        r@ == match mode {
            ProverMode::Insertion => file_name("keys_insertion_"@, tree_depth, batch_size, ""@),
            ProverMode::Deletion => file_name("keys_deletion_"@, tree_depth, batch_size, ""@),
        },
{
    match mode {
        ProverMode::Deletion => deletion_keys_file_format(tree_depth, batch_size),
        ProverMode::Insertion => insertion_keys_file_format(tree_depth, batch_size),
    }
}

/// The name of the verifier's source file for a mode.
pub fn verifier_contract_file_name(tree_depth: TreeDepth, batch_size: BatchSize, mode: ProverMode) -> (r: String)
    ensures
        r@ == match mode {
            ProverMode::Insertion => file_name("insertion_"@, tree_depth, batch_size, ".sol"@),
            ProverMode::Deletion => file_name("deletion_"@, tree_depth, batch_size, ".sol"@),
        },
{
    match mode {
        ProverMode::Deletion => deletion_verifier_contract_filename(tree_depth, batch_size),
        ProverMode::Insertion => insertion_verifier_contract_filename(tree_depth, batch_size),
    }
}

/// The arguments with which the generator writes the keys for one verifier
/// variant to `keys_file`.
pub fn generate_keys(keys_file: &str, tree_depth: TreeDepth, batch_size: BatchSize, mode: ProverMode) -> (r: Vec<
    String,
>)
    ensures
        texts(r@) == seq![
            "setup"@,
            "--tree-depth"@,
            decimal(tree_depth.0 as nat),
            "--batch-size"@,
            decimal(batch_size.0 as nat),
            "--output"@,
            keys_file@,
            "--mode"@,
            mode.text(),
        ],
{
    let mut out: Vec<String> = Vec::new();
    assert(texts(out@) =~= Seq::<Seq<char>>::empty());
    push_text(&mut out, "setup");
    push_text(&mut out, "--tree-depth");
    let depth = decimal_string(tree_depth.0);
    push_text(&mut out, depth.as_str());
    push_text(&mut out, "--batch-size");
    let size = decimal_string(batch_size.0);
    push_text(&mut out, size.as_str());
    push_text(&mut out, "--output");
    push_text(&mut out, keys_file);
    push_text(&mut out, "--mode");
    let mode_str = mode.to_string();
    push_text(&mut out, mode_str.as_str());
    assert(texts(out@) =~= seq![
        "setup"@,
        "--tree-depth"@,
        decimal(tree_depth.0 as nat),
        "--batch-size"@,
        decimal(batch_size.0 as nat),
        "--output"@,
        keys_file@,
        "--mode"@,
        mode.text(),
    ]);
    out
}

/// The arguments with which the generator writes the verifier contract for
/// the keys in `keys_file` to `verifier_contract`.
pub fn generate_verifier_contract(keys_file: &str, verifier_contract: &str) -> (r: Vec<String>)
    ensures
        texts(r@) == seq![
            "export-solidity"@,
            "--keys-file"@,
            keys_file@,
            "--output"@,
            verifier_contract@,
        ],
{
    let mut out: Vec<String> = Vec::new();
    assert(texts(out@) =~= Seq::<Seq<char>>::empty());
    push_text(&mut out, "export-solidity");
    push_text(&mut out, "--keys-file");
    push_text(&mut out, keys_file);
    push_text(&mut out, "--output");
    push_text(&mut out, verifier_contract);
    assert(texts(out@) =~= seq![
        "export-solidity"@,
        "--keys-file"@,
        keys_file@,
        "--output"@,
        verifier_contract@,
    ]);
    out
}

/// Judges a run of the generator: a run that failed is a failed
/// generation.
pub fn check_generation(success: bool) -> (r: Result<(), DeployError>)
    ensures
        r == if success {
            Ok::<(), DeployError>(())
        } else {
            Err(DeployError::ArtifactGenerationFailed)
        },
{
    if success {
        Ok(())
    } else {
        Err(DeployError::ArtifactGenerationFailed)
    }
}

/// The name under which the generator is published for an operating
/// system, if it is published for it.
pub open spec fn os_name(os: OsType) -> Option<Seq<char>> {
    match os {
        OsType::Windows => Some("windows"@),
        OsType::Macos => Some("darwin"@),
        OsType::Ubuntu => Some("linux"@),
        OsType::Linux => Some("linux"@),
        OsType::Other => None,
    }
}

/// The name under which the generator is published for an architecture:
/// `amd64` for the two names of the 64-bit x86, else the name itself.
pub open spec fn arch_name(arch: Seq<char>) -> Seq<char> {
    if arch == "x64"@ || arch == "x86_64"@ {
        "amd64"@
    } else {
        arch
    }
}

/// The address of the generator for an operating system and architecture.
pub open spec fn download_url(os: Seq<char>, arch: Seq<char>) -> Seq<char> {
    MTB_RELEASES_URL@ + seq!['/'] + MTB_VERSION@ + "/mtb-"@ + os + seq!['-'] + arch
}

/// The address from which the generator is fetched for this machine.
///
/// Fails where the generator is not published for the operating system,
/// where the architecture is not known, and on the 32-bit x86.
pub fn download_semaphore_mtb_binary(os: OsType, arch: Option<&str>) -> (r: Result<String, DeployError>)
    ensures
        match r {
            Ok(url) => {
                &&& os_name(os) is Some
                &&& arch is Some
                &&& arch->0@ != "x86"@
                &&& url@ == download_url(os_name(os)->0, arch_name(arch->0@))
            },
            Err(e) => {
                &&& e == DeployError::Config(ConfigIssue::UnsupportedPlatform)
                &&& (os_name(os) is None || arch is None || arch->0@ == "x86"@)
            },
        },
{
    let os_text = match os {
        OsType::Windows => "windows",
        OsType::Macos => "darwin",
        OsType::Ubuntu => "linux",
        OsType::Linux => "linux",
        OsType::Other => {
            return Err(DeployError::Config(ConfigIssue::UnsupportedPlatform));
        },
    };
    let given = match arch {
        Some(given) => given,
        None => {
            return Err(DeployError::Config(ConfigIssue::UnsupportedPlatform));
        },
    };
    if same_text(given, "x86") {
        return Err(DeployError::Config(ConfigIssue::UnsupportedPlatform));
    }
    let arch_text = if same_text(given, "x64") || same_text(given, "x86_64") {
        "amd64"
    } else {
        given
    };
    proof {
        reveal_strlit("/");
        reveal_strlit("-");
    }
    let mut url = String::from_str(MTB_RELEASES_URL);
    url.append("/");
    url.append(MTB_VERSION);
    url.append("/mtb-");
    url.append(os_text);
    url.append("-");
    url.append(arch_text);
    assert("/"@ =~= seq!['/']);
    assert("-"@ =~= seq!['-']);
    assert(url@ =~= download_url(os_name(os)->0, arch_name(given@)));
    Ok(url)
}

/// The `os_info` crate's description of the machine that the run is on.
#[verifier::external_type_specification]
#[verifier::external_body]
pub struct ExInfo(os_info::Info);

/// `os_info::get`: asks the machine what it is. Nothing is known of the
/// answer beforehand.
#[verifier::external_body]
fn platform() -> (info: os_info::Info) {
    os_info::get()
}

/// `Info::os_type`: the kind of operating system, as far as the engine
/// tells kinds apart.
#[verifier::external_body]
fn os_type(info: &os_info::Info) -> (os: OsType) {
    match info.os_type() {
        os_info::Type::Windows => OsType::Windows,
        os_info::Type::Macos => OsType::Macos,
        os_info::Type::Ubuntu => OsType::Ubuntu,
        os_info::Type::Linux => OsType::Linux,
        _ => OsType::Other,
    }
}

/// `Info::architecture`: the name of the processor architecture, if the
/// machine tells it.
#[verifier::external_body]
fn architecture(info: &os_info::Info) -> (arch: Option<String>) {
    info.architecture().map(|name| name.to_string())
}

/// The address from which the generator is fetched for the machine that
/// the run is on.
///
/// Fails where the generator is not published for this machine. Whatever
/// the machine says of itself, an address that comes out is an address of
/// a published generator: that of some operating system the generator is
/// published for, and of some architecture other than the 32-bit x86.
pub fn locate_semaphore_mtb_binary() -> (r: Result<String, DeployError>)
    ensures
        match r {
            Ok(url) => exists|os: OsType, arch: Seq<char>|
                {
                    &&& os_name(os) is Some
                    &&& arch != "x86"@
                    &&& url@ == download_url(os_name(os)->0, arch_name(arch))
                },
            Err(e) => e == DeployError::Config(ConfigIssue::UnsupportedPlatform),
        },
{
    let info = platform();
    let os = os_type(&info);
    let arch = architecture(&info);
    let given: Option<&str> = match &arch {
        Some(name) => Some(name.as_str()),
        None => None,
    };
    let r = download_semaphore_mtb_binary(os, given);
    proof {
        if r is Ok {
            assert(os_name(os) is Some && given->0@ != "x86"@ && r->Ok_0@ == download_url(
                os_name(os)->0,
                arch_name(given->0@),
            ));
        }
    }
    r
}

} // verus!
