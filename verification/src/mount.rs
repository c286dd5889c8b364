use vstd::prelude::*;
use crate::errors::Errcode;
use crate::host::random_word_of_len;

verus! {

/// Mount flags the engine uses, named as mount(2) names them.
#[derive(Debug, Clone, Copy, PartialEq, Eq, Structural)]
pub enum MountFlag {
    Rec,
    Private,
    Bind,
}

/// The kernel's bit for each flag, as <sys/mount.h> fixes them.
pub open spec fn spec_flag_bits(f: MountFlag) -> u64 {
    match f {
        MountFlag::Rec => 0x4000,
        MountFlag::Private => 0x40000,
        MountFlag::Bind => 0x1000,
    }
}

/// The or of the bits of all flags in `fs`.
pub open spec fn spec_flags_bits(fs: Seq<MountFlag>) -> u64
    decreases fs.len(),
{
    if fs.len() == 0 {
        0
    } else {
        spec_flags_bits(fs.drop_last()) | spec_flag_bits(fs.last())
    }
}

fn flag_bits(f: MountFlag) -> (r: u64)
    ensures
        r == spec_flag_bits(f),
{
    match f {
        MountFlag::Rec => 0x4000,
        MountFlag::Private => 0x40000,
        MountFlag::Bind => 0x1000,
    }
}

fn flags_bits(flags: &Vec<MountFlag>) -> (r: u64)
    ensures
        r == spec_flags_bits(flags@),
{
    let mut r: u64 = 0;
    let mut i: usize = 0;
    while i < flags.len()
        invariant
            0 <= i <= flags@.len(),
            r == spec_flags_bits(flags@.subrange(0, i as int)),
        decreases flags@.len() - i,
    {
        proof {
            assert(flags@.subrange(0, i + 1).drop_last() =~= flags@.subrange(0, i as int));
            assert(flags@.subrange(0, i + 1).last() == flags@[i as int]);
        }
        r = r | flag_bits(flags[i]);
        i += 1;
    }
    proof {
        assert(flags@.subrange(0, flags@.len() as int) =~= flags@);
    }
    r
}

/// A random directory-name fragment of `n` letters (three when `n` is 0);
/// when the word source has no word of that length, the fixed fragment
/// "hoge".
pub fn random_string(n: usize) -> (r: String)
    ensures
        r@.len() == (if n == 0 {
            3int
        } else {
            n as int
        }) || r@ == "hoge"@,
{
    let len: usize = if n == 0 {
        3
    } else {
        n
    };
    match random_word_of_len(len) {
        Some(w) => w,
        None => {
            let h = String::from_str("hoge");
            h
        },
    }
}

/// Relies on nix::fcntl::open: opens the path with the given open(2)
/// flag and mode bits; on success, a nonnegative descriptor.
#[verifier::external_body]
pub(crate) fn sys_open(path: &String, flag_bits: i32, mode_bits: u32) -> (r: Result<i32, ()>)
    ensures
        r matches Ok(fd) ==> fd >= 0,
{
    match nix::fcntl::open(
        path.as_str(),
        nix::fcntl::OFlag::from_bits_truncate(flag_bits),
        nix::sys::stat::Mode::from_bits_truncate(mode_bits),
    ) {
        Ok(fd) => Ok(fd),
        Err(_) => Err(()),
    }
}

/// Relies on nix::mount::mount: asks the kernel for the mount operation
/// described by the source (None for a flag change on the target), the
/// target, and the flag bits; no filesystem type and no data are passed.
#[verifier::external_body]
fn sys_mount(path: Option<&String>, mount_point: &String, bits: u64) -> (r: Result<(), ()>) {
    let src = path.map(|p| p.as_str());
    match nix::mount::mount(
        src,
        mount_point.as_str(),
        None::<&str>,
        nix::mount::MsFlags::from_bits_truncate(bits),
        None::<&str>,
    ) {
        Ok(()) => Ok(()),
        Err(_) => Err(()),
    }
}

/// Relies on nix::mount::umount2 with MNT_DETACH: asks the kernel to
/// detach the filesystem mounted on the path.
#[verifier::external_body]
fn sys_umount_detach(path: &String) -> (r: Result<(), ()>) {
    match nix::mount::umount2(path.as_str(), nix::mount::MntFlags::MNT_DETACH) {
        Ok(()) => Ok(()),
        Err(_) => Err(()),
    }
}

/// Relies on nix::unistd::unlinkat with RemoveDir against the working
/// directory: removes the named directory entry, as rmdir(2) would.
#[verifier::external_body]
pub(crate) fn sys_rmdir(path: &String) -> (r: Result<(), ()>) {
    match nix::unistd::unlinkat(None, path.as_str(), nix::unistd::UnlinkatFlags::RemoveDir) {
        Ok(()) => Ok(()),
        Err(_) => Err(()),
    }
}

/// Relies on nix::unistd::mkdir with mode 0755: creates one directory
/// level.  The error reports whether the entry already existed (EEXIST)
/// or the creation failed for another reason.
#[verifier::external_body]
fn sys_mkdir(path: &String) -> (r: Result<(), bool>) {
    match nix::unistd::mkdir(path.as_str(), nix::sys::stat::Mode::from_bits_truncate(0o755)) {
        Ok(()) => Ok(()),
        Err(e) => Err(e == nix::errno::Errno::EEXIST),
    }
}

/// Relies on nix::unistd::pivot_root: asks the kernel to make `new_root`
/// the root filesystem of the mount namespace and hang the old root under
/// `put_old`.
#[verifier::external_body]
fn sys_pivot_root(new_root: &String, put_old: &String) -> (r: Result<(), ()>) {
    match nix::unistd::pivot_root(new_root.as_str(), put_old.as_str()) {
        Ok(()) => Ok(()),
        Err(_) => Err(()),
    }
}

/// Relies on nix::unistd::chdir: changes the working directory.
#[verifier::external_body]
fn sys_chdir(path: &String) -> (r: Result<(), ()>) {
    match nix::unistd::chdir(path.as_str()) {
        Ok(()) => Ok(()),
        Err(_) => Err(()),
    }
}

/// Detaches the filesystem mounted on `path`, so that what it held can no
/// longer be reached from this mount namespace.
pub fn unmount_path(path: &String) -> (r: Result<(), Errcode>)
    ensures
        r is Err ==> r == Err::<(), Errcode>(Errcode::MountError(0)),
{
    match sys_umount_detach(path) {
        Ok(()) => Ok(()),
        Err(()) => Err(Errcode::MountError(0)),
    }
}

/// Removes the directory entry at `path`.
pub fn delete_dir(path: &String) -> (r: Result<(), Errcode>)
    ensures
        r is Err ==> r == Err::<(), Errcode>(Errcode::MountError(1)),
{
    match sys_rmdir(path) {
        Ok(()) => Ok(()),
        Err(()) => Err(Errcode::MountError(1)),
    }
}

/// Creates the directory at `path` together with its missing parents; a
/// level that already exists is left as it is.
pub fn create_directory(path: &String) -> (r: Result<(), Errcode>)
    ensures
        r is Err ==> r == Err::<(), Errcode>(Errcode::MountError(2)),
{
    let n = path.as_str().unicode_len();
    let mut i: usize = 0;
    while i < n
        invariant
            0 <= i <= n,
            n == path@.len(),
        decreases n - i,
    {
        if i > 0 && path.as_str().get_char(i) == '/' {
            let prefix = path.as_str().substring_char(0, i).to_owned();
            match sys_mkdir(&prefix) {
                Ok(()) => (),
                Err(true) => (),
                Err(false) => {
                    return Err(Errcode::MountError(2));
                },
            }
        }
        i += 1;
    }
    if n > 0 && path.as_str().get_char(n - 1) != '/' {
        match sys_mkdir(path) {
            Ok(()) => Ok(()),
            Err(true) => Ok(()),
            Err(false) => Err(Errcode::MountError(2)),
        }
    } else {
        Ok(())
    }
}

/// Performs one mount operation: a flag change on `mount_point` when
/// `path` is None, otherwise a mount of `path` onto `mount_point`, with
/// exactly the bits of `flags`.
pub fn mount_directory(path: Option<&String>, mount_point: &String, flags: Vec<MountFlag>) -> (r:
    Result<(), Errcode>)
    ensures
        r is Err ==> r == Err::<(), Errcode>(Errcode::MountError(3)),
{
    let bits = flags_bits(&flags);
    match sys_mount(path, mount_point, bits) {
        Ok(()) => Ok(()),
        Err(()) => Err(Errcode::MountError(3)),
    }
}

/// One operation of the mount engine, as it is asked of the kernel; the
/// flags are the mount(2) flags handed over (their bits are fixed by
/// `spec_flag_bits`, which `mount_directory` is proved to pass on).
pub enum MountOp {
    Remounted { target: Seq<char>, flags: Seq<MountFlag> },
    DirCreated { path: Seq<char> },
    Bound { source: Seq<char>, target: Seq<char>, flags: Seq<MountFlag> },
    Pivoted { new_root: Seq<char>, put_old: Seq<char> },
    ChangedDir { path: Seq<char> },
    Detached { target: Seq<char> },
    Removed { path: Seq<char> },
}

/// A fragment `random_string(n)` can produce: `n` characters, or the
/// fixed fallback.
pub open spec fn spec_rand_fragment(s: Seq<char>, n: int) -> bool {
    s.len() == n || s == "hoge"@
}

/// The opening of the mount plan: the host propagation made private
/// (MS_REC|MS_PRIVATE on `/`), the new root directory created, and the
/// mount root bound onto it (MS_BIND|MS_PRIVATE).
pub open spec fn spec_mount_head(mount_directory: Seq<char>, new_root: Seq<char>) -> Seq<MountOp> {
    seq![
        (MountOp::Remounted { target: "/"@, flags: seq![MountFlag::Rec, MountFlag::Private] }),
        (MountOp::DirCreated { path: new_root }),
        (MountOp::Bound {
            source: mount_directory,
            target: new_root,
            flags: seq![MountFlag::Bind, MountFlag::Private],
        }),
    ]
}

/// The bind steps for the additional paths, in order: each target
/// created under the new root, then bound from its source with
/// MS_BIND|MS_PRIVATE|MS_REC.
pub open spec fn spec_add_bind_ops(adds: Seq<(Seq<char>, Seq<char>)>, new_root: Seq<char>) -> Seq<
    MountOp,
>
    decreases adds.len(),
{
    if adds.len() == 0 {
        Seq::empty()
    } else {
        spec_add_bind_ops(adds.drop_last(), new_root) + seq![
            (MountOp::DirCreated { path: new_root + "/"@ + adds.last().1 }),
            (MountOp::Bound {
                source: adds.last().0,
                target: new_root + "/"@ + adds.last().1,
                flags: seq![MountFlag::Bind, MountFlag::Private, MountFlag::Rec],
            }),
        ]
    }
}

/// The close of the mount plan: the old-root holder created under the
/// new root, the pivot, the chdir to the new `/`, and the detach and
/// removal of the old root.
pub open spec fn spec_mount_close(new_root: Seq<char>, tail: Seq<char>) -> Seq<MountOp> {
    seq![
        (MountOp::DirCreated { path: new_root + "/"@ + tail }),
        (MountOp::Pivoted { new_root: new_root, put_old: new_root + "/"@ + tail }),
        (MountOp::ChangedDir { path: "/"@ }),
        (MountOp::Detached { target: "/"@ + tail }),
        (MountOp::Removed { path: "/"@ + tail }),
    ]
}

/// The whole mount plan for one child: head, one bind pair per
/// additional path, close.
pub open spec fn spec_mount_plan(
    mount_directory: Seq<char>,
    adds: Seq<(Seq<char>, Seq<char>)>,
    new_root: Seq<char>,
    tail: Seq<char>,
) -> Seq<MountOp> {
    spec_mount_head(mount_directory, new_root) + spec_add_bind_ops(adds, new_root)
        + spec_mount_close(new_root, tail)
}

/// Whether `tr` is what the engine has performed of one plan: a prefix
/// of the plan for the root fragment `nr_sfx` and old-root fragment
/// `tl_sfx`.
pub open spec fn spec_mount_trace_prefix(
    mount_directory: Seq<char>,
    adds: Seq<(Seq<char>, Seq<char>)>,
    tr: Seq<MountOp>,
    nr_sfx: Seq<char>,
    tl_sfx: Seq<char>,
) -> bool {
    let plan = spec_mount_plan(
        mount_directory,
        adds,
        "/tmp/bowl."@ + nr_sfx,
        "oldroot."@ + tl_sfx,
    );
    &&& spec_rand_fragment(nr_sfx, 12)
    &&& spec_rand_fragment(tl_sfx, 6)
    &&& tr == plan.take(tr.len() as int)
}

/// The bind steps of `n` additional paths are `2 n` operations.
proof fn lemma_add_ops_len(adds: Seq<(Seq<char>, Seq<char>)>, new_root: Seq<char>)
    ensures
        spec_add_bind_ops(adds, new_root).len() == 2 * adds.len(),
    decreases adds.len(),
{
    if adds.len() > 0 {
        lemma_add_ops_len(adds.drop_last(), new_root);
    }
}

/// The first `2 i` bind steps are exactly the bind steps of the first
/// `i` additional paths.
proof fn lemma_add_ops_prefix(adds: Seq<(Seq<char>, Seq<char>)>, new_root: Seq<char>, i: int)
    requires
        0 <= i <= adds.len(),
    ensures
        spec_add_bind_ops(adds, new_root).take(2 * i) =~~= spec_add_bind_ops(
            adds.take(i),
            new_root,
        ),
    decreases adds.len(),
{
    lemma_add_ops_len(adds, new_root);
    if i == adds.len() {
        assert(adds.take(i) =~= adds);
        assert(spec_add_bind_ops(adds, new_root).take(2 * i) =~~= spec_add_bind_ops(
            adds,
            new_root,
        ));
    } else {
        lemma_add_ops_len(adds.drop_last(), new_root);
        assert(spec_add_bind_ops(adds, new_root).take(2 * i) =~~= spec_add_bind_ops(
            adds.drop_last(),
            new_root,
        ).take(2 * i));
        lemma_add_ops_prefix(adds.drop_last(), new_root, i);
        assert(adds.drop_last().take(i) =~= adds.take(i));
    }
}

/// Whether `tr` is a prefix of the mount plan for some admissible pair
/// of random fragments — what every run of the engine leaves behind.
pub open spec fn spec_mount_trace_admissible(
    mount_directory: Seq<char>,
    adds: Seq<(Seq<char>, Seq<char>)>,
    tr: Seq<MountOp>,
) -> bool {
    exists|nr_sfx: Seq<char>, tl_sfx: Seq<char>|
        #[trigger] spec_mount_trace_prefix(mount_directory, adds, tr, nr_sfx, tl_sfx)
}

/// A trace that stands at the head plus the first `i` bind pairs is a
/// prefix of the plan.
proof fn lemma_mid_loop_prefix(
    md: Seq<char>,
    adds: Seq<(Seq<char>, Seq<char>)>,
    nr: Seq<char>,
    nr_sfx: Seq<char>,
    tl_sfx: Seq<char>,
    tr: Seq<MountOp>,
    i: int,
)
    requires
        nr == "/tmp/bowl."@ + nr_sfx,
        spec_rand_fragment(nr_sfx, 12),
        spec_rand_fragment(tl_sfx, 6),
        0 <= i <= adds.len(),
        tr =~~= spec_mount_head(md, nr) + spec_add_bind_ops(adds.take(i), nr),
    ensures
        spec_mount_trace_prefix(md, adds, tr, nr_sfx, tl_sfx),
{
    let tl = "oldroot."@ + tl_sfx;
    let plan = spec_mount_plan(md, adds, nr, tl);
    lemma_add_ops_len(adds, nr);
    lemma_add_ops_len(adds.take(i), nr);
    lemma_add_ops_prefix(adds, nr, i);
    assert(tr =~~= plan.take(tr.len() as int));
}

/// A trace that stands one target-creation past the first `i` bind
/// pairs is a prefix of the plan.
proof fn lemma_mid_loop_prefix_half(
    md: Seq<char>,
    adds: Seq<(Seq<char>, Seq<char>)>,
    nr: Seq<char>,
    nr_sfx: Seq<char>,
    tl_sfx: Seq<char>,
    tr: Seq<MountOp>,
    i: int,
)
    requires
        nr == "/tmp/bowl."@ + nr_sfx,
        spec_rand_fragment(nr_sfx, 12),
        spec_rand_fragment(tl_sfx, 6),
        0 <= i < adds.len(),
        tr =~~= spec_mount_head(md, nr) + spec_add_bind_ops(adds.take(i), nr) + seq![
            (MountOp::DirCreated { path: nr + "/"@ + adds[i].1 }),
        ],
    ensures
        spec_mount_trace_prefix(md, adds, tr, nr_sfx, tl_sfx),
{
    let tl = "oldroot."@ + tl_sfx;
    let plan = spec_mount_plan(md, adds, nr, tl);
    lemma_add_ops_len(adds, nr);
    lemma_add_ops_len(adds.take(i), nr);
    lemma_add_ops_len(adds.take(i + 1), nr);
    lemma_add_ops_prefix(adds, nr, i);
    lemma_add_ops_prefix(adds, nr, i + 1);
    assert(adds.take(i + 1).drop_last() =~~= adds.take(i));
    assert(adds.take(i + 1).last() == adds[i]);
    assert(spec_add_bind_ops(adds.take(i + 1), nr) =~~= spec_add_bind_ops(adds.take(i), nr)
        + seq![
        (MountOp::DirCreated { path: nr + "/"@ + adds[i].1 }),
        (MountOp::Bound {
            source: adds[i].0,
            target: nr + "/"@ + adds[i].1,
            flags: seq![MountFlag::Bind, MountFlag::Private, MountFlag::Rec],
        }),
    ]);
    let cut = tr.len() as int;
    assert forall|j: int| 0 <= j < cut implies tr[j] == plan[j] by {
        if j < 3 {
        } else if j < 3 + 2 * i {
            assert(plan[j] == spec_add_bind_ops(adds, nr)[j - 3]);
            assert(spec_add_bind_ops(adds, nr).take(2 * i)[j - 3] == spec_add_bind_ops(
                adds,
                nr,
            )[j - 3]);
            assert(tr[j] == spec_add_bind_ops(adds.take(i), nr)[j - 3]);
        } else {
            assert(j == 3 + 2 * i);
            assert(plan[j] == spec_add_bind_ops(adds, nr)[2 * i]);
            assert(spec_add_bind_ops(adds, nr).take(2 * i + 2)[2 * i] == spec_add_bind_ops(
                adds,
                nr,
            )[2 * i]);
            assert(spec_add_bind_ops(adds.take(i + 1), nr)[2 * i] == (MountOp::DirCreated {
                path: nr + "/"@ + adds[i].1,
            }));
        }
    }
    assert(tr =~= plan.take(cut));
}

/// A trace that stands `k` close-steps past the head and all bind
/// pairs is a prefix of the plan.
proof fn lemma_close_prefix(
    md: Seq<char>,
    adds: Seq<(Seq<char>, Seq<char>)>,
    nr: Seq<char>,
    nr_sfx: Seq<char>,
    tl: Seq<char>,
    tl_sfx: Seq<char>,
    tr: Seq<MountOp>,
    k: int,
)
    requires
        nr == "/tmp/bowl."@ + nr_sfx,
        tl == "oldroot."@ + tl_sfx,
        spec_rand_fragment(nr_sfx, 12),
        spec_rand_fragment(tl_sfx, 6),
        0 <= k <= 5,
        tr =~~= spec_mount_head(md, nr) + spec_add_bind_ops(adds, nr) + spec_mount_close(
            nr,
            tl,
        ).take(k),
    ensures
        spec_mount_trace_prefix(md, adds, tr, nr_sfx, tl_sfx),
{
    let plan = spec_mount_plan(md, adds, nr, tl);
    lemma_add_ops_len(adds, nr);
    assert(tr =~~= plan.take(tr.len() as int));
}

/// Builds the pivot-ready tree and switches the mount namespace onto it:
/// makes the host propagation private, bind-mounts `mount_directory` on a
/// fresh `/tmp/bowl.<rand12>` root, binds each additional `(source,
/// target)` pair under it, pivots, and detaches and removes the old root.
/// Every failure is a `MountError` whose discriminant names the step.
/// The returned trace records each operation exactly when it succeeded:
/// whatever the outcome, the operations performed are a prefix of the
/// plan for some random root and old-root fragments, and a run that
/// returns Ok performed exactly the whole plan, nothing else.
pub fn set_mount_point(mount_directory: &String, add_paths: &Vec<(String, String)>) -> (r: (
    Result<(), Errcode>,
    Ghost<Seq<MountOp>>,
))
    ensures
        spec_mount_trace_admissible(mount_directory@, add_paths.deep_view(), r.1@),
        r.0 is Ok ==> exists|nr_sfx: Seq<char>, tl_sfx: Seq<char>|
            {
                &&& spec_rand_fragment(nr_sfx, 12)
                &&& spec_rand_fragment(tl_sfx, 6)
                &&& r.1@ == spec_mount_plan(
                    mount_directory@,
                    add_paths.deep_view(),
                    "/tmp/bowl."@ + nr_sfx,
                    "oldroot."@ + tl_sfx,
                )
            },
        r.0 matches Err(e) ==> {
            ||| e == Errcode::MountError(0)
            ||| e == Errcode::MountError(1)
            ||| e == Errcode::MountError(2)
            ||| e == Errcode::MountError(3)
            ||| e == Errcode::MountError(4)
            ||| e == Errcode::MountError(5)
        },
{
    let ghost mut tr: Seq<MountOp> = Seq::empty();
    let ghost fallback12: Seq<char> = Seq::new(12nat, |k: int| 'a');
    let ghost fallback6: Seq<char> = Seq::new(6nat, |k: int| 'a');

    let root = String::from_str("/");
    let mut private_flags: Vec<MountFlag> = Vec::new();
    private_flags.push(MountFlag::Rec);
    private_flags.push(MountFlag::Private);
    let ghost private_seq = private_flags@;
    match crate::mount::mount_directory(None, &root, private_flags) {
        Ok(()) => {
            proof {
                tr = tr.push(MountOp::Remounted { target: root@, flags: private_seq });
            }
        },
        Err(e) => {
            proof {
                let adds = add_paths.deep_view();
                let plan = spec_mount_plan(
                    mount_directory@,
                    adds,
                    "/tmp/bowl."@ + fallback12,
                    "oldroot."@ + fallback6,
                );
                assert(tr =~~= plan.take(tr.len() as int));
                assert(spec_mount_trace_prefix(mount_directory@, adds, tr, fallback12, fallback6));
                assert(spec_mount_trace_admissible(mount_directory@, adds, tr));
            }
            return (Err(e), Ghost(tr));
        },
    }
    proof {
        assert(private_seq =~= seq![MountFlag::Rec, MountFlag::Private]);
    }

    let mut new_root = String::from_str("/tmp/bowl.");
    let suffix = random_string(12);
    new_root.append(suffix.as_str());
    match create_directory(&new_root) {
        Ok(()) => {
            proof {
                tr = tr.push(MountOp::DirCreated { path: new_root@ });
            }
        },
        Err(e) => {
            proof {
                let adds = add_paths.deep_view();
                let plan = spec_mount_plan(
                    mount_directory@,
                    adds,
                    "/tmp/bowl."@ + suffix@,
                    "oldroot."@ + fallback6,
                );
                assert(tr =~~= plan.take(tr.len() as int));
                assert(spec_mount_trace_prefix(mount_directory@, adds, tr, suffix@, fallback6));
                assert(spec_mount_trace_admissible(mount_directory@, adds, tr));
            }
            return (Err(e), Ghost(tr));
        },
    }

    let mut bind_flags: Vec<MountFlag> = Vec::new();
    bind_flags.push(MountFlag::Bind);
    bind_flags.push(MountFlag::Private);
    let ghost bind_seq = bind_flags@;
    match crate::mount::mount_directory(Some(mount_directory), &new_root, bind_flags) {
        Ok(()) => {
            proof {
                tr = tr.push(
                    MountOp::Bound { source: mount_directory@, target: new_root@, flags: bind_seq },
                );
            }
        },
        Err(e) => {
            proof {
                let adds = add_paths.deep_view();
                let plan = spec_mount_plan(
                    mount_directory@,
                    adds,
                    "/tmp/bowl."@ + suffix@,
                    "oldroot."@ + fallback6,
                );
                assert(tr =~~= plan.take(tr.len() as int));
                assert(spec_mount_trace_prefix(mount_directory@, adds, tr, suffix@, fallback6));
                assert(spec_mount_trace_admissible(mount_directory@, adds, tr));
            }
            return (Err(e), Ghost(tr));
        },
    }
    proof {
        assert(bind_seq =~= seq![MountFlag::Bind, MountFlag::Private]);
        assert(tr =~~= spec_mount_head(mount_directory@, new_root@));
        assert(add_paths.deep_view().take(0) =~= Seq::<(Seq<char>, Seq<char>)>::empty());
        assert(tr =~~= spec_mount_head(mount_directory@, new_root@) + spec_add_bind_ops(
            add_paths.deep_view().take(0),
            new_root@,
        ));
    }

    let mut i: usize = 0;
    while i < add_paths.len()
        invariant
            0 <= i <= add_paths@.len(),
            new_root@ == "/tmp/bowl."@ + suffix@,
            spec_rand_fragment(suffix@, 12),
            spec_rand_fragment(fallback6, 6),
            tr =~~= spec_mount_head(mount_directory@, new_root@) + spec_add_bind_ops(
                add_paths.deep_view().take(i as int),
                new_root@,
            ),
        decreases add_paths@.len() - i,
    {
        let mut target = new_root.clone();
        target.append("/");
        target.append(add_paths[i].1.as_str());
        let ghost entry = (add_paths@[i as int].0@, add_paths@[i as int].1@);
        match create_directory(&target) {
            Ok(()) => {
                proof {
                    tr = tr.push(MountOp::DirCreated { path: target@ });
                }
            },
            Err(e) => {
                proof {
                    lemma_mid_loop_prefix(
                        mount_directory@,
                        add_paths.deep_view(),
                        new_root@,
                        suffix@,
                        fallback6,
                        tr,
                        i as int,
                    );
                    assert(spec_mount_trace_admissible(
                        mount_directory@,
                        add_paths.deep_view(),
                        tr,
                    ));
                }
                return (Err(e), Ghost(tr));
            },
        }
        proof {
            assert(target@ =~= new_root@ + "/"@ + add_paths.deep_view()[i as int].1);
        }
        let mut rec_bind: Vec<MountFlag> = Vec::new();
        rec_bind.push(MountFlag::Bind);
        rec_bind.push(MountFlag::Private);
        rec_bind.push(MountFlag::Rec);
        let ghost rec_seq = rec_bind@;
        match crate::mount::mount_directory(Some(&add_paths[i].0), &target, rec_bind) {
            Ok(()) => {
                proof {
                    tr = tr.push(
                        MountOp::Bound { source: entry.0, target: target@, flags: rec_seq },
                    );
                }
            },
            Err(e) => {
                proof {
                    let adds = add_paths.deep_view();
                    assert(adds[i as int].1 =~= add_paths@[i as int].1@);
                    assert(target@ =~= new_root@ + "/"@ + adds[i as int].1);
                    lemma_mid_loop_prefix_half(
                        mount_directory@,
                        adds,
                        new_root@,
                        suffix@,
                        fallback6,
                        tr,
                        i as int,
                    );
                    assert(spec_mount_trace_admissible(mount_directory@, adds, tr));
                }
                return (Err(e), Ghost(tr));
            },
        }
        proof {
            let adds = add_paths.deep_view();
            assert(rec_seq =~= seq![MountFlag::Bind, MountFlag::Private, MountFlag::Rec]);
            assert(adds.take(i + 1).drop_last() =~~= adds.take(i as int));
            assert(adds.take(i + 1).last() == adds[i as int]);
            assert(adds[i as int].0 =~= add_paths@[i as int].0@);
            assert(adds[i as int].1 =~= add_paths@[i as int].1@);
            assert(tr =~~= spec_mount_head(mount_directory@, new_root@) + spec_add_bind_ops(
                adds.take(i + 1),
                new_root@,
            ));
        }
        i += 1;
    }
    proof {
        assert(add_paths.deep_view().take(add_paths@.len() as int) =~~= add_paths.deep_view());
    }

    let mut tail = String::from_str("oldroot.");
    let tail_suffix = random_string(6);
    tail.append(tail_suffix.as_str());
    let mut put_old = new_root.clone();
    put_old.append("/");
    put_old.append(tail.as_str());
    match create_directory(&put_old) {
        Ok(()) => {
            proof {
                tr = tr.push(MountOp::DirCreated { path: put_old@ });
            }
        },
        Err(e) => {
            proof {
                let adds = add_paths.deep_view();
                assert(tr =~~= spec_mount_head(mount_directory@, new_root@) + spec_add_bind_ops(
                    adds,
                    new_root@,
                ) + spec_mount_close(new_root@, tail@).take(0));
                lemma_close_prefix(
                    mount_directory@,
                    adds,
                    new_root@,
                    suffix@,
                    tail@,
                    tail_suffix@,
                    tr,
                    0,
                );
                assert(spec_mount_trace_admissible(mount_directory@, adds, tr));
            }
            return (Err(e), Ghost(tr));
        },
    }

    if sys_pivot_root(&new_root, &put_old).is_err() {
        proof {
            let adds = add_paths.deep_view();
            assert(tr =~~= spec_mount_head(mount_directory@, new_root@) + spec_add_bind_ops(
                adds,
                new_root@,
            ) + spec_mount_close(new_root@, tail@).take(1));
            lemma_close_prefix(
                mount_directory@,
                adds,
                new_root@,
                suffix@,
                tail@,
                tail_suffix@,
                tr,
                1,
            );
            assert(spec_mount_trace_admissible(mount_directory@, adds, tr));
        }
        return (Err(Errcode::MountError(4)), Ghost(tr));
    }
    proof {
        tr = tr.push(MountOp::Pivoted { new_root: new_root@, put_old: put_old@ });
    }

    if sys_chdir(&root).is_err() {
        proof {
            let adds = add_paths.deep_view();
            assert(tr =~~= spec_mount_head(mount_directory@, new_root@) + spec_add_bind_ops(
                adds,
                new_root@,
            ) + spec_mount_close(new_root@, tail@).take(2));
            lemma_close_prefix(
                mount_directory@,
                adds,
                new_root@,
                suffix@,
                tail@,
                tail_suffix@,
                tr,
                2,
            );
            assert(spec_mount_trace_admissible(mount_directory@, adds, tr));
        }
        return (Err(Errcode::MountError(5)), Ghost(tr));
    }
    proof {
        tr = tr.push(MountOp::ChangedDir { path: root@ });
    }

    let mut old_root = String::from_str("/");
    old_root.append(tail.as_str());
    match unmount_path(&old_root) {
        Ok(()) => {
            proof {
                tr = tr.push(MountOp::Detached { target: old_root@ });
            }
        },
        Err(e) => {
            proof {
                let adds = add_paths.deep_view();
                assert(tr =~~= spec_mount_head(mount_directory@, new_root@) + spec_add_bind_ops(
                    adds,
                    new_root@,
                ) + spec_mount_close(new_root@, tail@).take(3));
                lemma_close_prefix(
                    mount_directory@,
                    adds,
                    new_root@,
                    suffix@,
                    tail@,
                    tail_suffix@,
                    tr,
                    3,
                );
                assert(spec_mount_trace_admissible(mount_directory@, adds, tr));
            }
            return (Err(e), Ghost(tr));
        },
    }
    match delete_dir(&old_root) {
        Ok(()) => {
            proof {
                tr = tr.push(MountOp::Removed { path: old_root@ });
            }
        },
        Err(e) => {
            proof {
                let adds = add_paths.deep_view();
                assert(tr =~~= spec_mount_head(mount_directory@, new_root@) + spec_add_bind_ops(
                    adds,
                    new_root@,
                ) + spec_mount_close(new_root@, tail@).take(4));
                lemma_close_prefix(
                    mount_directory@,
                    adds,
                    new_root@,
                    suffix@,
                    tail@,
                    tail_suffix@,
                    tr,
                    4,
                );
                assert(spec_mount_trace_admissible(mount_directory@, adds, tr));
            }
            return (Err(e), Ghost(tr));
        },
    }
    proof {
        let adds = add_paths.deep_view();
        assert(tr =~~= spec_mount_plan(
            mount_directory@,
            adds,
            "/tmp/bowl."@ + suffix@,
            "oldroot."@ + tail_suffix@,
        ));
        assert(tr =~~= spec_mount_head(mount_directory@, new_root@) + spec_add_bind_ops(
            adds,
            new_root@,
        ) + spec_mount_close(new_root@, tail@).take(5));
        lemma_close_prefix(
            mount_directory@,
            adds,
            new_root@,
            suffix@,
            tail@,
            tail_suffix@,
            tr,
            5,
        );
        assert(spec_mount_trace_admissible(mount_directory@, adds, tr));
    }
    (Ok(()), Ghost(tr))
}

/// Host-side cleanup of the mount point: a placeholder that must stay
/// idempotent; the child's mount namespace disappears with the child.
pub fn clean_mount(_rootpath: &String) -> (r: Result<(), Errcode>)
    ensures
        r is Ok,
{
    Ok(())
}

} // verus!
