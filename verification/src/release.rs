//! Release targets of the framework and their release plans.
//!
//! A release target names one published flavour of the framework. The
//! functions here decide everything about a release that is pure
//! computation: which packages belong to it and in what order, the file
//! name its bundle is stored under, and the fully resolved options for
//! building one. Reading or writing bundle files is left to the
//! surrounding tooling.

use vstd::prelude::*;
use vstd::string::StringExecFns;

verus! {

/// File extension under which a release bundle is stored.
pub const RELEASE_BUNDLE_EXTENSION: &'static str = "mrb";

/// The available release targets.
#[derive(Clone, Copy, Debug, PartialEq, Eq, Structural)]
pub enum ReleaseTarget {
    Head,
    Devnet,
    Testnet,
    Mainnet,
}

/// The lower-case name of a release target.
pub open spec fn spec_target_name(t: ReleaseTarget) -> Seq<char> {
    match t {
        ReleaseTarget::Head => "head"@,
        ReleaseTarget::Devnet => "devnet"@,
        ReleaseTarget::Testnet => "testnet"@,
        ReleaseTarget::Mainnet => "mainnet"@,
    }
}

/// `c` is `k` itself, or its upper-case form where `k` is a lower-case
/// letter.
pub open spec fn spec_char_matches_folded(c: char, k: char) -> bool {
    c == k || (65 <= c as u32 && c as u32 <= 90 && c as u32 + 32 == k as u32)
}

/// `s` equals the lower-case keyword `k` up to ASCII case.
pub open spec fn spec_matches_keyword(s: Seq<char>, k: Seq<char>) -> bool {
    s.len() == k.len() && forall|i: int|
        0 <= i < s.len() ==> spec_char_matches_folded(#[trigger] s[i], k[i])
}

/// Compares a name against a lower-case keyword, ignoring ASCII case.
fn matches_keyword(s: &str, k: &str) -> (r: bool)
    ensures
        r == spec_matches_keyword(s@, k@),
{
    let n = s.unicode_len();
    if n != k.unicode_len() {
        return false;
    }
    let mut i: usize = 0;
    while i < n
        invariant
            0 <= i <= n,
            n == s@.len() == k@.len(),
            forall|j: int| 0 <= j < i ==> spec_char_matches_folded(#[trigger] s@[j], k@[j]),
        decreases n - i,
    {
        let c = s.get_char(i) as u32;
        let kc = k.get_char(i) as u32;
        if !(c == kc || (65 <= c && c <= 90 && c + 32 == kc)) {
            return false;
        }
        i += 1;
    }
    true
}

impl ReleaseTarget {
    /// The target's name, as printed and as used in file names.
    pub fn name(self) -> (r: &'static str)
        ensures
            r@ == spec_target_name(self),
    {
        match self {
            ReleaseTarget::Head => "head",
            ReleaseTarget::Devnet => "devnet",
            ReleaseTarget::Testnet => "testnet",
            ReleaseTarget::Mainnet => "mainnet",
        }
    }

    /// Reads a target from its name, ignoring ASCII case. Exactly the four
    /// target names are accepted.
    pub fn from_str(s: &str) -> (r: Result<ReleaseTarget, &'static str>)
        ensures
            spec_matches_keyword(s@, "head"@) ==> r == Ok::<ReleaseTarget, &'static str>(
                ReleaseTarget::Head,
            ),
            !spec_matches_keyword(s@, "head"@) && spec_matches_keyword(s@, "devnet"@) ==> r == Ok::<
                ReleaseTarget,
                &'static str,
            >(ReleaseTarget::Devnet),
            !spec_matches_keyword(s@, "head"@) && !spec_matches_keyword(s@, "devnet"@)
                && spec_matches_keyword(s@, "testnet"@) ==> r == Ok::<
                ReleaseTarget,
                &'static str,
            >(ReleaseTarget::Testnet),
            !spec_matches_keyword(s@, "head"@) && !spec_matches_keyword(s@, "devnet"@)
                && !spec_matches_keyword(s@, "testnet"@) && spec_matches_keyword(s@, "mainnet"@)
                ==> r == Ok::<ReleaseTarget, &'static str>(ReleaseTarget::Mainnet),
            !spec_matches_keyword(s@, "head"@) && !spec_matches_keyword(s@, "devnet"@)
                && !spec_matches_keyword(s@, "testnet"@) && !spec_matches_keyword(s@, "mainnet"@)
                ==> r is Err,
    {
        if matches_keyword(s, "head") {
            Ok(ReleaseTarget::Head)
        } else if matches_keyword(s, "devnet") {
            Ok(ReleaseTarget::Devnet)
        } else if matches_keyword(s, "testnet") {
            Ok(ReleaseTarget::Testnet)
        } else if matches_keyword(s, "mainnet") {
            Ok(ReleaseTarget::Mainnet)
        } else {
            Err("Invalid target. Valid values are: head, devnet, testnet, mainnet")
        }
    }

    /// The package directories belonging to this target, relative to the
    /// framework directory, in the order they need to be published, each
    /// with the optional path of the file where generated bindings for the
    /// package are stored.
    pub fn packages(self) -> (r: Vec<(&'static str, Option<&'static str>)>)
        ensures
            r@.len() == 4,
            r@[0].0@ == "move-stdlib"@ && r@[0].1 is None,
            r@[1].0@ == "aptos-stdlib"@ && r@[1].1 is None,
            r@[2].0@ == "aptos-framework"@ && (r@[2].1 matches Some(b) && b@
                == "src/generated/aptos_framework_sdk_builder.rs"@),
            r@[3].0@ == "aptos-token"@ && (r@[3].1 matches Some(b) && b@
                == "src/generated/aptos_token_sdk_builder.rs"@),
    {
        let mut result: Vec<(&'static str, Option<&'static str>)> = Vec::new();
        result.push(("move-stdlib", None));
        result.push(("aptos-stdlib", None));
        result.push(("aptos-framework", Some("src/generated/aptos_framework_sdk_builder.rs")));
        result.push(("aptos-token", Some("src/generated/aptos_token_sdk_builder.rs")));
        // No target currently carries experimental packages of its own.
        result
    }

    /// The file name under which this target's release bundle is stored:
    /// the target's name, a dot and the bundle extension.
    pub fn file_name(self) -> (r: String)
        ensures
            r@ == spec_target_name(self) + "."@ + RELEASE_BUNDLE_EXTENSION@,
    {
        let mut out = self.name().to_owned();
        out.append(".");
        out.append(RELEASE_BUNDLE_EXTENSION);
        out
    }

    /// Resolves every option of a release build: the absolute package
    /// directories in publishing order, the binding output path for each
    /// package (empty where a package generates none), and the output
    /// bundle path, defaulting to the target's file under the release
    /// directory. `crate_dir` is the framework directory; the surrounding
    /// tooling executes the returned plan.
    pub fn create_release(self, crate_dir: &str, strip: bool, out: Option<String>) -> (r:
        ReleaseOptions)
        ensures
            r.build_options.with_srcs && r.build_options.with_abis
                && r.build_options.with_source_maps && r.build_options.with_error_map,
            r.strip == strip,
            r.packages@.len() == 4,
            r.packages@[0]@ == spec_joined(crate_dir@, "move-stdlib"@),
            r.packages@[1]@ == spec_joined(crate_dir@, "aptos-stdlib"@),
            r.packages@[2]@ == spec_joined(crate_dir@, "aptos-framework"@),
            r.packages@[3]@ == spec_joined(crate_dir@, "aptos-token"@),
            r.rust_bindings@.len() == 4,
            r.rust_bindings@[0]@ == ""@,
            r.rust_bindings@[1]@ == ""@,
            r.rust_bindings@[2]@ == spec_joined(
                crate_dir@,
                "src/generated/aptos_framework_sdk_builder.rs"@,
            ),
            r.rust_bindings@[3]@ == spec_joined(
                crate_dir@,
                "src/generated/aptos_token_sdk_builder.rs"@,
            ),
            r.output@ == match out {
                Some(p) => p@,
                None => spec_joined(crate_dir@, "releases"@) + "/"@ + spec_target_name(self)
                    + "."@ + RELEASE_BUNDLE_EXTENSION@,
            },
    {
        let mut packages: Vec<String> = Vec::new();
        packages.push(join(crate_dir, "move-stdlib"));
        packages.push(join(crate_dir, "aptos-stdlib"));
        packages.push(join(crate_dir, "aptos-framework"));
        packages.push(join(crate_dir, "aptos-token"));
        let mut rust_bindings: Vec<String> = Vec::new();
        rust_bindings.push("".to_owned());
        rust_bindings.push("".to_owned());
        rust_bindings.push(join(crate_dir, "src/generated/aptos_framework_sdk_builder.rs"));
        rust_bindings.push(join(crate_dir, "src/generated/aptos_token_sdk_builder.rs"));
        let output = match out {
            Some(p) => p,
            None => {
                let mut o = join(crate_dir, "releases");
                o.append("/");
                let f = self.file_name();
                o.append(f.as_str());
                o
            },
        };
        ReleaseOptions {
            build_options: BuildOptions {
                with_srcs: true,
                with_abis: true,
                with_source_maps: true,
                with_error_map: true,
            },
            packages,
            rust_bindings,
            output,
            strip,
        }
    }
}

/// A path under a directory: the directory, a separator, the relative path.
pub open spec fn spec_joined(dir: Seq<char>, rel: Seq<char>) -> Seq<char> {
    dir + "/"@ + rel
}

/// Joins a relative path onto a directory with the path separator.
fn join(dir: &str, rel: &str) -> (r: String)
    ensures
        r@ == spec_joined(dir@, rel@),
{
    let mut out = dir.to_owned();
    out.append("/");
    out.append(rel);
    out
}

/// Settings for building every package of a release.
#[derive(Clone, Copy, Debug, PartialEq, Eq, Structural)]
pub struct BuildOptions {
    pub with_srcs: bool,
    pub with_abis: bool,
    pub with_source_maps: bool,
    pub with_error_map: bool,
}

/// A fully resolved release plan: what to build, where generated bindings
/// go, and where the bundle is written.
#[derive(Debug)]
pub struct ReleaseOptions {
    pub build_options: BuildOptions,
    pub packages: Vec<String>,
    pub rust_bindings: Vec<String>,
    pub output: String,
    pub strip: bool,
}

// ---------------------------------------------------------------------------
// Legacy named addresses
// ---------------------------------------------------------------------------

/// An address whose value fits in its last four bytes: zeros, then the four
/// given bytes, most significant first.
pub open spec fn spec_low_u32_address(b0: u8, b1: u8, b2: u8, b3: u8) -> Seq<u8> {
    Seq::new(
        crate::address::ADDRESS_LENGTH as nat,
        |i: int|
            if i == 28 {
                b0
            } else if i == 29 {
                b1
            } else if i == 30 {
                b2
            } else if i == 31 {
                b3
            } else {
                0u8
            },
    )
}

/// Builds an address from the four bytes of its numerical value.
fn low_u32_address(b0: u8, b1: u8, b2: u8, b3: u8) -> (r: crate::address::Address)
    ensures
        r.model() == spec_low_u32_address(b0, b1, b2, b3),
        r.wf(),
{
    let mut bytes: Vec<u8> = Vec::new();
    let mut i: usize = 0;
    while i < 28
        invariant
            0 <= i <= 28,
            bytes@.len() == i,
            forall|j: int| 0 <= j < i ==> bytes@[j] == 0u8,
        decreases 28 - i,
    {
        bytes.push(0u8);
        i += 1;
    }
    bytes.push(b0);
    bytes.push(b1);
    bytes.push(b2);
    bytes.push(b3);
    assert(bytes@ =~= spec_low_u32_address(b0, b1, b2, b3));
    crate::address::Address { bytes }
}

/// The address aliases used by older tests that work directly on sources,
/// skipping the package system, in the order they are defined.
pub fn named_addresses() -> (r: Vec<(String, crate::address::Address)>)
    ensures
        r@.len() == 6,
        r@[0].0@ == "std"@ && r@[0].1.model() == spec_low_u32_address(0, 0, 0, 1),
        r@[1].0@ == "aptos_std"@ && r@[1].1.model() == spec_low_u32_address(0, 0, 0, 1),
        r@[2].0@ == "aptos_framework"@ && r@[2].1.model() == spec_low_u32_address(0, 0, 0, 1),
        r@[3].0@ == "aptos_token"@ && r@[3].1.model() == spec_low_u32_address(0, 0, 0, 2),
        r@[4].0@ == "core_resources"@ && r@[4].1.model() == spec_low_u32_address(
            0x0a,
            0x55,
            0x0c,
            0x18,
        ),
        r@[5].0@ == "vm_reserved"@ && r@[5].1.model() == spec_low_u32_address(0, 0, 0, 0),
{
    let mut result: Vec<(String, crate::address::Address)> = Vec::new();
    result.push(("std".to_owned(), low_u32_address(0, 0, 0, 1)));
    result.push(("aptos_std".to_owned(), low_u32_address(0, 0, 0, 1)));
    result.push(("aptos_framework".to_owned(), low_u32_address(0, 0, 0, 1)));
    result.push(("aptos_token".to_owned(), low_u32_address(0, 0, 0, 2)));
    result.push(("core_resources".to_owned(), low_u32_address(0x0a, 0x55, 0x0c, 0x18)));
    result.push(("vm_reserved".to_owned(), low_u32_address(0, 0, 0, 0)));
    result
}

} // verus!
