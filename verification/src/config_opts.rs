use vstd::prelude::*;
use crate::errors::Errcode;
use crate::host::{generate_host, hostname_shape};
use crate::ipc::{create_sockets, sys_close};
use crate::text::{dec_u64, spec_split_ws, split_ascii_ws};

verus! {

/// File-type mask and directory bits of st_mode, as stat(2) defines them.
pub const S_IFMT_MASK: u32 = 0o170000;

pub const S_IFDIR_BITS: u32 = 0o040000;

/// `s` with every leading `/` removed.
pub open spec fn spec_strip_slashes(s: Seq<char>) -> Seq<char>
    decreases s.len(),
{
    if s.len() > 0 && s[0] == '/' {
        spec_strip_slashes(s.subrange(1, s.len() as int))
    } else {
        s
    }
}

/// Immutable per-container options, fixed at construction.
#[derive(Debug, Clone)]
pub struct ContainerOptions {
    /// Path of the executable inside the container, `args[0]` of the split
    /// command line.
    pub path: String,
    /// The whitespace-split command line.
    pub args: Vec<String>,
    /// The in-container UID the child will claim.
    pub uid: u32,
    /// Host directory that becomes the container's root filesystem.
    pub mount_directory: String,
    /// The child's end of the synchronization socket pair.
    pub fd: i32,
    /// Generated hostname, also the cgroup leaf name.
    pub hostname: String,
    /// Additional `(host_source, container_target)` bind mounts; targets
    /// are stored relative to the new root.
    pub add_paths: Vec<(String, String)>,
}

impl ContainerOptions {
    /// Well-formedness: a nonempty argv led by `path`, a hostname of the
    /// generated shape, a usable child descriptor, and root-relative
    /// additional mount targets.
    pub open spec fn wf(self) -> bool {
        &&& self.args@.len() >= 1
        &&& self.path@ == self.args@[0]@
        &&& hostname_shape(self.hostname@)
        &&& self.fd >= 0
        &&& forall|i: int|
            0 <= i < self.add_paths@.len() ==> ((#[trigger] self.add_paths@[i].1@).len() == 0
                || self.add_paths@[i].1@[0] != '/')
    }
}

/// Relies on nix::sys::stat::stat: on success, the st_mode field of the
/// named file's status, whose S_IFMT bits give the file type.  The answer
/// reflects the filesystem at the moment of the call.
#[verifier::external_body]
pub(crate) fn sys_stat_mode(path: &String) -> (r: Result<u32, ()>) {
    match nix::sys::stat::stat(path.as_str()) {
        Ok(st) => Ok(st.st_mode),
        Err(_) => Err(()),
    }
}

/// O_PATH and O_CLOEXEC of open(2), as <fcntl.h> fixes them.
pub const O_PATH_BITS: i32 = 0o10000000;

pub const O_CLOEXEC_BITS: i32 = 0o2000000;

/// Relies on nix::fcntl::readlink: the target of the named symbolic link,
/// as the kernel reports it at the moment of the call.
#[verifier::external_body]
fn sys_readlink(path: &String) -> (r: Result<String, ()>) {
    match nix::fcntl::readlink(path.as_str()) {
        Ok(t) => Ok(t.to_string_lossy().into_owned()),
        Err(_) => Err(()),
    }
}

/// Whether `mode` marks a directory.
fn mode_is_dir(mode: u32) -> (r: bool)
    ensures
        r == (mode & S_IFMT_MASK == S_IFDIR_BITS),
{
    mode & S_IFMT_MASK == S_IFDIR_BITS
}

/// The canonical absolute path of an existing location: the path the
/// kernel itself records for an open handle on it, read back through
/// /proc/self/fd.  Fails when the location cannot be opened.
fn canonical_path(p: &String) -> (r: Result<String, ()>) {
    let fd = match crate::mount::sys_open(p, O_PATH_BITS | O_CLOEXEC_BITS, 0) {
        Ok(fd) => fd,
        Err(()) => {
            return Err(());
        },
    };
    let mut link = String::from_str("/proc/self/fd/");
    let digits = dec_u64(fd as u64);
    link.append(digits.as_str());
    let target = sys_readlink(&link);
    let _closed = sys_close(fd);
    target
}

/// `s` with its leading `/` characters removed.
fn strip_leading_slashes(s: &String) -> (r: String)
    ensures
        r@ == spec_strip_slashes(s@),
{
    let n = s.as_str().unicode_len();
    let mut k: usize = 0;
    while k < n && s.as_str().get_char(k) == '/'
        invariant
            0 <= k <= n,
            n == s@.len(),
            forall|j: int| 0 <= j < k ==> s@[j] == '/',
        decreases n - k,
    {
        k += 1;
    }
    assert(k < n ==> s@[k as int] != '/');
    let r = s.as_str().substring_char(k, n).to_owned();
    proof {
        lemma_strip_prefix_slashes(s@, k as int);
    }
    r
}

proof fn lemma_strip_prefix_slashes(s: Seq<char>, k: int)
    requires
        0 <= k <= s.len(),
        forall|j: int| 0 <= j < k ==> s[j] == '/',
        k < s.len() ==> s[k] != '/',
    ensures
        spec_strip_slashes(s) =~= s.subrange(k, s.len() as int),
    decreases k,
{
    if k == 0 {
        assert(s.subrange(0, s.len() as int) =~= s);
    } else {
        let t = s.subrange(1, s.len() as int);
        lemma_strip_prefix_slashes(t, k - 1);
        assert(t.subrange(k - 1, t.len() as int) =~= s.subrange(k, s.len() as int));
    }
}

impl ContainerOptions {
    /// Builds the options for one container: validates the mount root,
    /// splits the command on ASCII whitespace (an empty split is
    /// rejected), draws the random hostname, creates the socket pair, and
    /// normalizes the additional bind mounts (sources canonicalized when
    /// resolvable, targets stripped of leading `/`).  Returns the options
    /// together with both ends of the pair; the child end is also stored
    /// in the options.
    pub fn new(
        command: String,
        uid: u32,
        mount_directory: String,
        add_paths: Vec<(String, String)>,
    ) -> (r: Result<(ContainerOptions, (i32, i32)), Errcode>)
        ensures
            r matches Ok(cs) ==> {
                &&& cs.0.wf()
                &&& cs.0.uid == uid
                &&& cs.0.mount_directory@ == mount_directory@
                &&& cs.0.args.deep_view() == spec_split_ws(command@)
                &&& spec_split_ws(command@).len() >= 1
                &&& cs.0.path@ == spec_split_ws(command@)[0]
                &&& cs.1.0 >= 0
                &&& cs.1.1 >= 0
                &&& cs.1.0 != cs.1.1
                &&& cs.0.fd == cs.1.1
                &&& cs.0.add_paths@.len() == add_paths@.len()
                &&& forall|i: int|
                    0 <= i < add_paths@.len() ==> (#[trigger] cs.0.add_paths@[i].1)@
                        == spec_strip_slashes(add_paths@[i].1@)
            },
            spec_split_ws(command@).len() == 0 ==> r is Err,
            r matches Err(e) ==> {
                ||| e matches Errcode::InvalidArgument(f) && (f@ == "mount_directory"@ || f@
                    == "command"@)
                ||| e == Errcode::WordError
                ||| e == Errcode::SocketError(0)
            },
            (r matches Err(e) && e matches Errcode::InvalidArgument(f) && f@ == "command"@)
                ==> spec_split_ws(command@).len() == 0,
    {
        proof {
            reveal_strlit("mount_directory");
            reveal_strlit("command");
        }
        let dir_ok = match sys_stat_mode(&mount_directory) {
            Ok(mode) => mode_is_dir(mode),
            Err(()) => false,
        };
        if !dir_ok {
            return Err(Errcode::InvalidArgument("mount_directory"));
        }
        let args = split_ascii_ws(command.as_str());
        if args.len() == 0 {
            return Err(Errcode::InvalidArgument("command"));
        }
        let path = args[0].clone();
        let hostname = match generate_host() {
            Ok(h) => h,
            Err(e) => {
                return Err(e);
            },
        };
        let sockets = match create_sockets() {
            Ok(fds) => fds,
            Err(e) => {
                return Err(e);
            },
        };
        let mut normalized: Vec<(String, String)> = Vec::new();
        let mut i: usize = 0;
        while i < add_paths.len()
            invariant
                0 <= i <= add_paths.len(),
                normalized@.len() == i,
                forall|j: int|
                    0 <= j < i ==> (#[trigger] normalized@[j].1)@ == spec_strip_slashes(
                        add_paths@[j].1@,
                    ),
            decreases add_paths.len() - i,
        {
            let src = match canonical_path(&add_paths[i].0) {
                Ok(c) => c,
                Err(()) => add_paths[i].0.clone(),
            };
            let dst = strip_leading_slashes(&add_paths[i].1);
            normalized.push((src, dst));
            i += 1;
        }
        let opts = ContainerOptions {
            path,
            args,
            uid,
            mount_directory,
            fd: sockets.1,
            hostname,
            add_paths: normalized,
        };
        proof {
            assert(opts.args.deep_view() =~~= spec_split_ws(command@));
            assert(opts.path@ == spec_split_ws(command@)[0]);
            assert forall|i2: int|
                0 <= i2 < opts.add_paths@.len() implies ((
            #[trigger] opts.add_paths@[i2].1@).len() == 0 || opts.add_paths@[i2].1@[0] != '/') by {
                lemma_strip_no_leading_slash(add_paths@[i2].1@);
            }
        }
        Ok((opts, sockets))
    }
}

proof fn lemma_strip_no_leading_slash(s: Seq<char>)
    ensures
        spec_strip_slashes(s).len() == 0 || spec_strip_slashes(s)[0] != '/',
    decreases s.len(),
{
    if s.len() > 0 && s[0] == '/' {
        lemma_strip_no_leading_slash(s.subrange(1, s.len() as int));
    }
}

} // verus!
