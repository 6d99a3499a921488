//! The command lines of the workspace build tasks: the two-stage build
//! (kernel-probe object first, then the daemon that embeds it), the path
//! of the built daemon, and the cargo environment a nested build must not
//! inherit.

use vstd::prelude::*;

verus! {

/// Crate holding the kernel probes.
pub const EBPF_CRATE: &'static str = "agl-health-ebpf";

/// Crate holding the daemon.
pub const DAEMON_CRATE: &'static str = "agl-health-daemon";

/// Target triple of the kernel-probe object.
pub const EBPF_TARGET: &'static str = "bpfel-unknown-none";

/// Build profile.
#[derive(Copy, Clone, Debug, PartialEq, Eq, Structural)]
pub enum Profile {
    Debug,
    Release,
}

impl Profile {
    /// Directory name of the profile under `target/`.
    pub fn as_str(self) -> (s: &'static str)
        ensures
            s@ == (match self {
                Profile::Debug => "debug"@,
                Profile::Release => "release"@,
            }),
    {
        match self {
            Profile::Debug => "debug",
            Profile::Release => "release",
        }
    }

    /// The cargo flag selecting the profile, if any.
    pub fn cargo_flag(self) -> (f: Option<&'static str>)
        ensures
            f == (match self {
                Profile::Debug => None,
                Profile::Release => Some("--release"),
            }),
    {
        match self {
            Profile::Debug => None,
            Profile::Release => Some("--release"),
        }
    }
}

/// Options shared by the build tasks.
#[derive(Clone, Debug)]
pub struct BuildOpts {
    pub profile: Profile,
    /// Target triple for the daemon (cross builds); host when `None`.
    pub target: Option<String>,
    /// Build the variant for kernels without BTF tracepoints.
    pub kernel_5_4: bool,
}

/// The text of each argument.
pub open spec fn arg_texts(args: Seq<String>) -> Seq<Seq<char>> {
    args.map_values(|a: String| a@)
}

fn push_lit(args: &mut Vec<String>, s: &str)
    ensures
        final(args)@.len() == old(args)@.len() + 1,
        arg_texts(final(args)@) == arg_texts(old(args)@).push(s@),
{
    args.push(s.to_owned());
    assert(arg_texts(args@) =~= arg_texts(old(args)@).push(s@));
}

/// Arguments of the kernel-probe build, run in the probe crate's
/// directory. The object is always built optimised, whatever the profile.
pub fn ebpf_build_args(opts: &BuildOpts) -> (args: Vec<String>)
    ensures
        arg_texts(args@) == seq![
            "build"@,
            "-Z"@,
            "build-std=core"@,
            "--target"@,
            EBPF_TARGET@,
            "--release"@,
        ] + if opts.kernel_5_4 {
            seq!["--features"@, "kernel-5-4"@]
        } else {
            Seq::empty()
        },
{
    let mut args: Vec<String> = Vec::new();
    push_lit(&mut args, "build");
    push_lit(&mut args, "-Z");
    push_lit(&mut args, "build-std=core");
    push_lit(&mut args, "--target");
    push_lit(&mut args, EBPF_TARGET);
    push_lit(&mut args, "--release");
    if opts.kernel_5_4 {
        push_lit(&mut args, "--features");
        push_lit(&mut args, "kernel-5-4");
    }
    args
}

/// Arguments of the daemon build: the profile flag, the target when one
/// is given, and the probe features.
pub fn daemon_build_args(opts: &BuildOpts) -> (args: Vec<String>)
    ensures
        arg_texts(args@) == seq!["build"@, "-p"@, DAEMON_CRATE@] + (match opts.profile {
            Profile::Debug => Seq::empty(),
            Profile::Release => seq!["--release"@],
        }) + (match opts.target {
            Some(t) => seq!["--target"@, t@],
            None => Seq::empty(),
        }) + seq![
            "--features"@,
            if opts.kernel_5_4 {
                "ebpf,kernel-5-4"@
            } else {
                "ebpf"@
            },
        ],
{
    let mut args: Vec<String> = Vec::new();
    push_lit(&mut args, "build");
    push_lit(&mut args, "-p");
    push_lit(&mut args, DAEMON_CRATE);
    let ghost base = arg_texts(args@);
    if let Some(flag) = opts.profile.cargo_flag() {
        push_lit(&mut args, flag);
    }
    let ghost with_profile = arg_texts(args@);
    match &opts.target {
        Some(t) => {
            push_lit(&mut args, "--target");
            push_lit(&mut args, t.as_str());
        },
        None => {},
    }
    push_lit(&mut args, "--features");
    if opts.kernel_5_4 {
        push_lit(&mut args, "ebpf,kernel-5-4");
    } else {
        push_lit(&mut args, "ebpf");
    }
    assert(arg_texts(args@) =~= seq!["build"@, "-p"@, DAEMON_CRATE@] + (match opts.profile {
        Profile::Debug => Seq::empty(),
        Profile::Release => seq!["--release"@],
    }) + (match opts.target {
        Some(t) => seq!["--target"@, t@],
        None => Seq::empty(),
    }) + seq![
        "--features"@,
        if opts.kernel_5_4 {
            "ebpf,kernel-5-4"@
        } else {
            "ebpf"@
        },
    ]);
    args
}

/// Path components, below the workspace root, of the built daemon:
/// `target/[<triple>/]<profile>/agl-health-daemon`.
pub fn daemon_binary_components(opts: &BuildOpts) -> (parts: Vec<String>)
    ensures
        arg_texts(parts@) == seq!["target"@] + (match opts.target {
            Some(t) => seq![t@],
            None => Seq::empty(),
        }) + seq![
            match opts.profile {
                Profile::Debug => "debug"@,
                Profile::Release => "release"@,
            },
            DAEMON_CRATE@,
        ],
{
    let mut parts: Vec<String> = Vec::new();
    push_lit(&mut parts, "target");
    match &opts.target {
        Some(t) => push_lit(&mut parts, t.as_str()),
        None => {},
    }
    push_lit(&mut parts, opts.profile.as_str());
    push_lit(&mut parts, DAEMON_CRATE);
    assert(arg_texts(parts@) =~= seq!["target"@] + (match opts.target {
        Some(t) => seq![t@],
        None => Seq::empty(),
    }) + seq![
        match opts.profile {
            Profile::Debug => "debug"@,
            Profile::Release => "release"@,
        },
        DAEMON_CRATE@,
    ]);
    parts
}

/// Environment variables a nested cargo run must not inherit from the
/// outer one.
pub fn cargo_env_overrides() -> (vars: Vec<&'static str>)
    ensures
        vars@ == seq![
            "RUSTUP_TOOLCHAIN",
            "RUSTC",
            "RUSTC_WRAPPER",
            "RUSTC_WORKSPACE_WRAPPER",
            "CARGO",
            "CARGO_MANIFEST_DIR",
            "CARGO_PKG_NAME",
            "CARGO_PKG_VERSION",
            "CARGO_TARGET_DIR",
        ],
{
    vec![
        "RUSTUP_TOOLCHAIN",
        "RUSTC",
        "RUSTC_WRAPPER",
        "RUSTC_WORKSPACE_WRAPPER",
        "CARGO",
        "CARGO_MANIFEST_DIR",
        "CARGO_PKG_NAME",
        "CARGO_PKG_VERSION",
        "CARGO_TARGET_DIR",
    ]
}

/// Kernel types extracted into the probe crate's generated bindings.
pub fn vmlinux_types() -> (types: Vec<&'static str>)
    ensures
        types@ == seq!["task_struct", "sock", "sock_common", "inet_sock"],
{
    vec!["task_struct", "sock", "sock_common", "inet_sock"]
}

} // verus!
