//! Plans for mounting composefs images with the new mount API.
//!
//! [`erofs_mount`], [`overlay_fsmount`] and [`composefs_fsmount`] say which steps
//! to take, in order. The caller takes them, and asks [`MountStep::may_continue`]
//! after each one.
use vstd::prelude::*;

use crate::mountregistry;

verus! {

/// Controls fs-verity enforcement for overlay file data.
#[derive(Debug, Clone, Copy, PartialEq, Eq, Structural)]
pub enum VerityRequirement {
    /// Do not require fs-verity.
    Disabled,
    /// Require fs-verity; fail if the kernel does not support it.
    Required,
    /// Try to enable fs-verity; silently continue if unsupported.
    Try,
}

impl Default for VerityRequirement {
    fn default() -> (verity: Self)
        ensures
            verity == VerityRequirement::Disabled,
    {
        VerityRequirement::Disabled
    }
}

/// Options controlling how a composefs image is mounted. File descriptors are of
/// type `F`.
#[derive(Debug)]
pub struct MountOptions<F> {
    upperdirs: Option<(F, F)>,
    read_write: bool,
    idmap_fd: Option<F>,
}

/// The model of [`MountOptions`].
pub struct OptionsModel<F> {
    /// Overlay upper layer and work directory: (upperdir, workdir).
    pub upperdirs: Option<(F, F)>,
    /// Whether the mount should be read-write.
    pub read_write: bool,
    /// User namespace for ID-mapped mounts.
    pub idmap_fd: Option<F>,
}

impl<F> View for MountOptions<F> {
    type V = OptionsModel<F>;

    closed spec fn view(&self) -> OptionsModel<F> {
        OptionsModel {
            upperdirs: self.upperdirs,
            read_write: self.read_write,
            idmap_fd: self.idmap_fd,
        }
    }
}

impl<F> Default for MountOptions<F> {
    fn default() -> (options: Self)
        ensures
            options@ == (OptionsModel::<F> { upperdirs: None, read_write: false, idmap_fd: None }),
    {
        MountOptions { upperdirs: None, read_write: false, idmap_fd: None }
    }
}

impl<F> MountOptions<F> {
    /// Add an overlayfs upper layer and work directory to the mount.
    pub fn set_overlay(&mut self, upperdir: F, workdir: F) -> (options: &mut Self)
        ensures
            options@ == (OptionsModel { upperdirs: Some((upperdir, workdir)), ..old(self)@ }),
            *final(self) == *final(options),
    {
        self.upperdirs = Some((upperdir, workdir));
        self
    }

    /// Make the mount read-write (only meaningful with an overlay).
    pub fn set_read_write(&mut self, read_write: bool) -> (options: &mut Self)
        ensures
            options@ == (OptionsModel { read_write, ..old(self)@ }),
            *final(self) == *final(options),
    {
        self.read_write = read_write;
        self
    }

    /// Set a user namespace file descriptor for ID-mapped mounts.
    pub fn set_idmap(&mut self, fd: F) -> (options: &mut Self)
        ensures
            options@ == (OptionsModel { idmap_fd: Some(fd), ..old(self)@ }),
            *final(self) == *final(options),
    {
        self.idmap_fd = Some(fd);
        self
    }

    /// Whether an overlay upper layer was configured.
    pub fn has_overlay(&self) -> (has: bool)
        ensures
            has == (self@.upperdirs is Some),
    {
        self.upperdirs.is_some()
    }

    /// Whether the mount should be read-write.
    pub fn read_write(&self) -> (read_write: bool)
        ensures
            read_write == self@.read_write,
    {
        self.read_write
    }

    /// The overlay upper layer and work directory, if set.
    pub fn overlay(&self) -> (dirs: Option<&(F, F)>)
        ensures
            match dirs {
                Some(d) => self@.upperdirs == Some(*d),
                None => self@.upperdirs is None,
            },
    {
        self.upperdirs.as_ref()
    }

    /// Consume the options, returning the overlay fds if set.
    pub fn into_overlay(self) -> (dirs: Option<(F, F)>)
        ensures
            dirs == self@.upperdirs,
    {
        self.upperdirs
    }

    /// The user namespace to apply to an erofs mount, if configured.
    pub fn apply_idmap(&self) -> (fd: Option<&F>)
        ensures
            match fd {
                Some(f) => self@.idmap_fd == Some(*f),
                None => self@.idmap_fd is None,
            },
    {
        self.idmap_fd.as_ref()
    }
}

/// What becomes the lower layer of an overlay.
#[derive(Debug)]
pub enum Lower<L> {
    /// A directory that is there already.
    Given(L),
    /// The erofs mount that was made and prepared by the steps before.
    Erofs,
}

/// One step of mounting a file system. `F` stands for the file descriptors of the
/// options, `L` for those of the lower layer and the data directories, `B` for a
/// list of these.
#[derive(Debug)]
pub enum MountStep<F, L, B, S> {
    /// Make the image file mountable (on older kernels, with a loopback device).
    MakeErofsMountable,
    /// Mount the image with the steps of [`erofs_mount`].
    MountErofs,
    /// Apply an ID map to the erofs mount.
    ApplyIdmap {
        /// The user namespace of the ID map.
        userns: F,
    },
    /// Prepare the erofs mount for being the lower layer.
    PrepareErofs,
    /// Open a file system context.
    Open {
        /// The file system type.
        filesystem: S,
    },
    /// Set a flag of the file system.
    SetFlag {
        /// The flag.
        key: S,
    },
    /// Set a string option of the file system.
    SetString {
        /// The option.
        key: S,
        /// Its value.
        value: S,
        /// Whether the kernel may not know the option.
        optional: bool,
    },
    /// Set the source of the file system to the path of the image that was made
    /// mountable.
    SetSourceToImage,
    /// Set the upper directory of the overlay.
    SetUpperdir {
        /// The directory.
        dir: F,
    },
    /// Set the work directory of the overlay.
    SetWorkdir {
        /// The directory.
        dir: F,
    },
    /// Set the lower layer and the data directories of the overlay.
    SetLowerAndData {
        /// The lower layer.
        lower: Lower<L>,
        /// The data directories.
        data: B,
    },
    /// Create the file system.
    Create,
    /// Mount it.
    Mount {
        /// Whether the mount is read-only by its attributes.
        read_only: bool,
    },
}

/// A step that borrows the file descriptors of the options, and the list of the
/// data directories.
pub type Step<'a, F, L> = MountStep<&'a F, L, &'a [L], String>;

/// The model of a [`Step`].
pub type StepModel<F, L> = MountStep<F, L, Seq<L>, Seq<char>>;

impl<'a, F, L> View for MountStep<&'a F, L, &'a [L], String> {
    type V = StepModel<F, L>;

    open spec fn view(&self) -> StepModel<F, L> {
        match self {
            MountStep::MakeErofsMountable => MountStep::MakeErofsMountable,
            MountStep::MountErofs => MountStep::MountErofs,
            MountStep::ApplyIdmap { userns } => MountStep::ApplyIdmap { userns: **userns },
            MountStep::PrepareErofs => MountStep::PrepareErofs,
            MountStep::Open { filesystem } => MountStep::Open { filesystem: filesystem@ },
            MountStep::SetFlag { key } => MountStep::SetFlag { key: key@ },
            MountStep::SetString { key, value, optional } => MountStep::SetString {
                key: key@,
                value: value@,
                optional: *optional,
            },
            MountStep::SetSourceToImage => MountStep::SetSourceToImage,
            MountStep::SetUpperdir { dir } => MountStep::SetUpperdir { dir: **dir },
            MountStep::SetWorkdir { dir } => MountStep::SetWorkdir { dir: **dir },
            MountStep::SetLowerAndData { lower, data } => MountStep::SetLowerAndData {
                lower: *lower,
                data: data@,
            },
            MountStep::Create => MountStep::Create,
            MountStep::Mount { read_only } => MountStep::Mount { read_only: *read_only },
        }
    }
}

/// The models of a list of steps.
pub open spec fn steps<'a, F, L>(v: Seq<Step<'a, F, L>>) -> Seq<StepModel<F, L>> {
    Seq::new(v.len(), |i: int| v[i]@)
}

/// How a step failed.
#[derive(Debug, Clone, Copy, PartialEq, Eq, Structural)]
pub enum StepFailure {
    /// `EINVAL`.
    InvalidArgument,
    /// `ENOSYS`.
    NotImplemented,
    /// Anything else.
    Other,
}

impl<F, L> MountStep<F, L, Seq<L>, Seq<char>> {
    /// Whether the mount goes on after this step had this outcome.
    pub open spec fn goes_on(self, failure: Option<StepFailure>) -> bool {
        match failure {
            None => true,
            Some(StepFailure::Other) => false,
            Some(_) => self matches MountStep::SetString { optional, .. } && optional,
        }
    }
}

impl<'a, F, L> MountStep<&'a F, L, &'a [L], String> {
    /// Whether the mount goes on after this step had this outcome.
    pub fn may_continue(&self, failure: Option<StepFailure>) -> (goes_on: bool)
        ensures
            goes_on == self@.goes_on(failure),
    {
        match failure {
            None => true,
            Some(StepFailure::Other) => false,
            Some(_) => match self {
                MountStep::SetString { optional, .. } => *optional,
                _ => false,
            },
        }
    }
}

fn push_step<'a, F, L>(plan: &mut Vec<Step<'a, F, L>>, step: Step<'a, F, L>)
    ensures
        steps(final(plan)@) == steps(old(plan)@).push(step@),
{
    let ghost before = steps(plan@);
    plan.push(step);
    assert(steps(plan@) =~= before.push(step@));
}

/// A string option that the kernel has to know.
pub open spec fn option<F, L>(key: Seq<char>, value: Seq<char>) -> StepModel<F, L> {
    MountStep::SetString { key, value, optional: false }
}

fn push_option<'a, F, L>(
    plan: &mut Vec<Step<'a, F, L>>,
    key: &str,
    value: String,
    optional: bool,
)
    ensures
        steps(final(plan)@) == steps(old(plan)@).push(
            MountStep::SetString { key: key@, value: value@, optional },
        ),
{
    push_step(plan, MountStep::SetString { key: key.to_owned(), value, optional });
}

/// The steps of an erofs mount.
pub open spec fn erofs_steps<F, L>() -> Seq<StepModel<F, L>> {
    seq![
        MountStep::MakeErofsMountable,
        MountStep::Open { filesystem: "erofs"@ },
        MountStep::SetFlag { key: "ro"@ },
        MountStep::SetSourceToImage,
        MountStep::Create,
        MountStep::Mount { read_only: false },
    ]
}

/// Mounts an erofs image file.
///
/// Creates a read-only erofs mount from an image file. On older kernels, this may
/// involve creating a loopback device.
pub fn erofs_mount<'a, F, L>() -> (plan: Vec<Step<'a, F, L>>)
    ensures
        steps(plan@) == erofs_steps::<F, L>(),
{
    let mut plan: Vec<Step<'a, F, L>> = Vec::new();
    push_step(&mut plan, MountStep::MakeErofsMountable);
    push_step(&mut plan, MountStep::Open { filesystem: "erofs".to_owned() });
    push_step(&mut plan, MountStep::SetFlag { key: "ro".to_owned() });
    push_step(&mut plan, MountStep::SetSourceToImage);
    push_step(&mut plan, MountStep::Create);
    push_step(&mut plan, MountStep::Mount { read_only: false });
    assert(steps(plan@) =~= erofs_steps::<F, L>());
    plan
}

/// The step that turns fs-verity on, if there is one.
pub open spec fn verity_steps<F, L>(verity: VerityRequirement) -> Seq<StepModel<F, L>> {
    match verity {
        VerityRequirement::Disabled => Seq::empty(),
        VerityRequirement::Required => seq![option("verity"@, "require"@)],
        VerityRequirement::Try => seq![tried_verity()],
    }
}

/// The step that turns fs-verity on if the kernel knows it.
pub open spec fn tried_verity<F, L>() -> StepModel<F, L> {
    MountStep::SetString { key: "verity"@, value: "require"@, optional: true }
}

/// The steps of an overlay mount: the first of the overlay directories is the upper
/// directory, the second the work directory.
pub open spec fn overlay_steps<F, L>(
    lower: Lower<L>,
    name: Seq<char>,
    basedirs: Seq<L>,
    verity: VerityRequirement,
    options: OptionsModel<F>,
) -> Seq<StepModel<F, L>> {
    seq![
        MountStep::Open { filesystem: "overlay"@ },
        option("source"@, mountregistry::source_of(name)),
        option("metacopy"@, "on"@),
        option("redirect_dir"@, "on"@),
    ] + verity_steps(verity) + (match options.upperdirs {
        Some((upperdir, workdir)) => seq![
            MountStep::SetUpperdir { dir: upperdir },
            MountStep::SetWorkdir { dir: workdir },
        ],
        None => Seq::empty(),
    }) + seq![
        MountStep::SetLowerAndData { lower, data: basedirs },
        MountStep::Create,
        MountStep::Mount { read_only: !options.read_write },
    ]
}

fn overlay_plan<'a, F, L>(
    lower: Lower<L>,
    name: &str,
    basedirs: &'a [L],
    verity: VerityRequirement,
    options: &'a MountOptions<F>,
) -> (plan: Vec<Step<'a, F, L>>)
    ensures
        steps(plan@) == overlay_steps(lower, name@, basedirs@, verity, options@),
{
    let ghost wanted = overlay_steps(lower, name@, basedirs@, verity, options@);
    let mut plan: Vec<Step<'a, F, L>> = Vec::new();
    push_step(&mut plan, MountStep::Open { filesystem: "overlay".to_owned() });
    push_option(&mut plan, "source", mountregistry::mount_source(name), false);
    push_option(&mut plan, "metacopy", "on".to_owned(), false);
    push_option(&mut plan, "redirect_dir", "on".to_owned(), false);
    match verity {
        VerityRequirement::Disabled => {},
        VerityRequirement::Required => {
            push_option(&mut plan, "verity", "require".to_owned(), false);
        },
        VerityRequirement::Try => {
            push_option(&mut plan, "verity", "require".to_owned(), true);
        },
    }
    if let Some(dirs) = options.overlay() {
        push_step(&mut plan, MountStep::SetUpperdir { dir: &dirs.0 });
        push_step(&mut plan, MountStep::SetWorkdir { dir: &dirs.1 });
    }
    push_step(&mut plan, MountStep::SetLowerAndData { lower, data: basedirs });
    push_step(&mut plan, MountStep::Create);
    push_step(&mut plan, MountStep::Mount { read_only: !options.read_write() });
    assert(steps(plan@) =~= wanted);
    plan
}

/// Creates an overlayfs mount from an existing lower layer and data directories.
///
/// This is the lower-level building block: it configures and mounts an overlay
/// without creating the erofs mount itself. Use [`composefs_fsmount`] when you
/// want the full erofs+overlay stack, or call this directly when reusing an
/// existing erofs mount.
///
/// # Arguments
///
/// * `lower` - The lower layer (typically the root of an erofs mount)
/// * `name` - Name for the mount source (appears as "composefs:{name}")
/// * `basedirs` - The base directories containing actual file data
/// * `verity` - Whether and how to enforce fs-verity verification for overlay files
/// * `options` - Mount options controlling overlay and read-write behaviour
pub fn overlay_fsmount<'a, F, L>(
    lower: L,
    name: &str,
    basedirs: &'a [L],
    verity: VerityRequirement,
    options: &'a MountOptions<F>,
) -> (plan: Vec<Step<'a, F, L>>)
    ensures
        steps(plan@) == overlay_steps(Lower::Given(lower), name@, basedirs@, verity, options@),
{
    overlay_plan(Lower::Given(lower), name, basedirs, verity, options)
}

/// The steps of a composefs mount: the ID map, if there is one, is applied to the
/// erofs mount before it is prepared, and what is prepared becomes the lower layer.
pub open spec fn composefs_steps<F, L>(
    name: Seq<char>,
    basedirs: Seq<L>,
    verity: VerityRequirement,
    options: OptionsModel<F>,
) -> Seq<StepModel<F, L>> {
    seq![MountStep::MountErofs] + (match options.idmap_fd {
        Some(userns) => seq![MountStep::ApplyIdmap { userns }],
        None => Seq::empty(),
    }) + seq![MountStep::PrepareErofs] + overlay_steps(
        Lower::Erofs,
        name,
        basedirs,
        verity,
        options,
    )
}

/// Creates a composefs mount using overlayfs with an erofs image and base
/// directories.
///
/// This mounts a composefs image by creating an overlayfs that layers the erofs
/// image (as the lower layer) over base directories (as data layers). The
/// overlayfs is configured with metacopy and redirect_dir enabled for composefs
/// functionality.
///
/// # Arguments
///
/// * `name` - Name for the mount source (appears as "composefs:{name}")
/// * `basedirs` - The base directories containing actual file data
/// * `verity` - Whether and how to enforce fs-verity verification for overlay files
/// * `options` - Mount options controlling overlay and read-write behaviour
pub fn composefs_fsmount<'a, F, L>(
    name: &str,
    basedirs: &'a [L],
    verity: VerityRequirement,
    options: &'a MountOptions<F>,
) -> (plan: Vec<Step<'a, F, L>>)
    ensures
        steps(plan@) == composefs_steps(name@, basedirs@, verity, options@),
{
    let mut plan: Vec<Step<'a, F, L>> = Vec::new();
    push_step(&mut plan, MountStep::MountErofs);
    if let Some(userns) = options.apply_idmap() {
        push_step(&mut plan, MountStep::ApplyIdmap { userns });
    }
    push_step(&mut plan, MountStep::PrepareErofs);
    let ghost first = steps(plan@);
    let mut rest: Vec<Step<'a, F, L>> = overlay_plan(
        Lower::Erofs,
        name,
        basedirs,
        verity,
        options,
    );
    let ghost last = steps(rest@);
    plan.append(&mut rest);
    assert(steps(plan@) =~= first + last);
    assert(steps(plan@) =~= composefs_steps(name@, basedirs@, verity, options@));
    plan
}

/// Whether a mount got through all its steps with these outcomes.
pub open spec fn completed<F, L>(
    plan: Seq<StepModel<F, L>>,
    outcomes: Seq<Option<StepFailure>>,
) -> bool {
    &&& outcomes.len() == plan.len()
    &&& forall|i: int| 0 <= i < plan.len() ==> (#[trigger] plan[i]).goes_on(outcomes[i])
}

/// Whether a mount turned fs-verity on.
pub open spec fn verity_enforced<F, L>(
    plan: Seq<StepModel<F, L>>,
    outcomes: Seq<Option<StepFailure>>,
) -> bool {
    exists|i: int|
        0 <= i < plan.len() && outcomes[i] is None && (#[trigger] plan[i] matches MountStep::SetString {
            key,
            value,
            ..
        } && key == "verity"@ && value == "require"@)
}

/// A mount that requires fs-verity only completes if it was turned on. One that
/// tries to goes on without it only if the kernel does not know it. All other
/// steps have to succeed.
pub proof fn required_verity_is_enforced<F, L>(
    name: Seq<char>,
    basedirs: Seq<L>,
    verity: VerityRequirement,
    options: OptionsModel<F>,
    outcomes: Seq<Option<StepFailure>>,
)
    requires
        completed(composefs_steps(name, basedirs, verity, options), outcomes),
    ensures
        verity == VerityRequirement::Required ==> verity_enforced(
            composefs_steps(name, basedirs, verity, options),
            outcomes,
        ),
        verity != VerityRequirement::Try ==> forall|i: int|
            0 <= i < outcomes.len() ==> (#[trigger] outcomes[i]) is None,
        verity == VerityRequirement::Try ==> forall|i: int|
            0 <= i < outcomes.len() && (#[trigger] outcomes[i]) is Some
                ==> composefs_steps(name, basedirs, verity, options)[i] == tried_verity::<F, L>(),
{
    let plan = composefs_steps(name, basedirs, verity, options);
    assert forall|i: int| 0 <= i < plan.len() implies (#[trigger] plan[i] matches MountStep::SetString {
        optional: true,
        ..
    } ==> verity == VerityRequirement::Try && plan[i] == tried_verity::<F, L>()) by {}
    assert forall|i: int| 0 <= i < outcomes.len() && (#[trigger] outcomes[i]) is Some implies verity
        == VerityRequirement::Try && plan[i] == tried_verity::<F, L>() by {
        assert(plan[i].goes_on(outcomes[i]));
    }
    if verity == VerityRequirement::Required {
        let at = if options.idmap_fd is Some {
            7int
        } else {
            6
        };
        assert(plan[at] == option::<F, L>("verity"@, "require"@));
    }
}

/// Every file descriptor goes where it belongs: the upper and the work directory are
/// not mixed up, the ID map is that of the options, and the lower layer is the erofs
/// mount, over all the base directories.
pub proof fn descriptors_go_where_they_belong<F, L>(
    name: Seq<char>,
    basedirs: Seq<L>,
    verity: VerityRequirement,
    options: OptionsModel<F>,
    i: int,
)
    requires
        0 <= i < composefs_steps(name, basedirs, verity, options).len(),
    ensures
        match composefs_steps(name, basedirs, verity, options)[i] {
            MountStep::SetUpperdir { dir } => options.upperdirs matches Some(dirs) && dir == dirs.0,
            MountStep::SetWorkdir { dir } => options.upperdirs matches Some(dirs) && dir == dirs.1,
            MountStep::ApplyIdmap { userns } => options.idmap_fd == Some(userns),
            MountStep::SetLowerAndData { lower, data } => lower is Erofs && data == basedirs,
            _ => true,
        },
{
}

/// The overlay is read-only unless it was asked to be read-write.
pub proof fn mount_is_read_only_by_default<F, L>(
    name: Seq<char>,
    basedirs: Seq<L>,
    verity: VerityRequirement,
    options: OptionsModel<F>,
)
    ensures
        composefs_steps(name, basedirs, verity, options).last() == (StepModel::<F, L>::Mount {
            read_only: !options.read_write,
        }),
{
}

/// Whether the step at `i` sets the string option `key`.
pub open spec fn sets<F, L>(plan: Seq<StepModel<F, L>>, i: int, key: Seq<char>) -> bool {
    0 <= i < plan.len() && (plan[i] matches MountStep::SetString { key: k, .. } && k == key)
}

/// Whether the option `key` is set to `value` by exactly one step, which has to
/// succeed, after the file system context was opened and before the file system is
/// created.
pub open spec fn sets_once<F, L>(
    plan: Seq<StepModel<F, L>>,
    key: Seq<char>,
    value: Seq<char>,
) -> bool {
    &&& exists|i: int| #[trigger] sets(plan, i, key)
    &&& forall|i: int, j: int| #[trigger] sets(plan, i, key) && #[trigger] sets(plan, j, key) ==> i
        == j
    &&& forall|i: int| #[trigger]
        sets(plan, i, key) ==> plan[i] == (StepModel::<F, L>::SetString {
            key,
            value,
            optional: false,
        })
    &&& forall|i: int, j: int| #[trigger]
        sets(plan, i, key) && 0 <= j < plan.len() && (#[trigger] plan[j]) is Create ==> i < j
    &&& forall|i: int, j: int| #[trigger]
        sets(plan, i, key) && 0 <= j < plan.len() && (#[trigger] plan[j]) is Open ==> j < i
}

proof fn lemma_option_names()
    ensures
        "source"@ != "metacopy"@,
        "source"@ != "redirect_dir"@,
        "source"@ != "verity"@,
        "metacopy"@ != "redirect_dir"@,
        "metacopy"@ != "verity"@,
        "redirect_dir"@ != "verity"@,
{
    reveal_strlit("source");
    reveal_strlit("metacopy");
    reveal_strlit("redirect_dir");
    reveal_strlit("verity");
    assert("source"@[0] != "verity"@[0]);
    assert("source"@.len() != "metacopy"@.len());
    assert("source"@.len() != "redirect_dir"@.len());
    assert("metacopy"@.len() != "redirect_dir"@.len());
    assert("metacopy"@.len() != "verity"@.len());
    assert("redirect_dir"@.len() != "verity"@.len());
}

/// The steps of an overlay, place by place: how many there are depends only on whether
/// fs-verity is wanted and on whether there are overlay directories.
pub proof fn overlay_steps_are_in_order<F, L>(
    lower: Lower<L>,
    name: Seq<char>,
    basedirs: Seq<L>,
    verity: VerityRequirement,
    options: OptionsModel<F>,
)
    ensures
        ({
            let plan = overlay_steps(lower, name, basedirs, verity, options);
            let v: int = if verity == VerityRequirement::Disabled {
                0
            } else {
                1
            };
            let u: int = if options.upperdirs is Some {
                2
            } else {
                0
            };
            &&& plan.len() == 7 + v + u
            &&& plan[0] == (StepModel::<F, L>::Open { filesystem: "overlay"@ })
            &&& plan[1] == (StepModel::<F, L>::SetString {
                key: "source"@,
                value: "composefs:"@ + name,
                optional: false,
            })
            &&& plan[2] == (StepModel::<F, L>::SetString {
                key: "metacopy"@,
                value: "on"@,
                optional: false,
            })
            &&& plan[3] == (StepModel::<F, L>::SetString {
                key: "redirect_dir"@,
                value: "on"@,
                optional: false,
            })
            &&& verity != VerityRequirement::Disabled ==> plan[4] == (StepModel::<
                F,
                L,
            >::SetString {
                key: "verity"@,
                value: "require"@,
                optional: verity == VerityRequirement::Try,
            })
            &&& options.upperdirs matches Some(dirs) ==> {
                &&& plan[4 + v] == (StepModel::<F, L>::SetUpperdir { dir: dirs.0 })
                &&& plan[5 + v] == (StepModel::<F, L>::SetWorkdir { dir: dirs.1 })
            }
            &&& plan[4 + v + u] == (StepModel::<F, L>::SetLowerAndData { lower, data: basedirs })
            &&& plan[5 + v + u] == StepModel::<F, L>::Create
            &&& plan[6 + v + u] == (StepModel::<F, L>::Mount { read_only: !options.read_write })
        }),
{
}

/// Whatever the requirements and the options are, an overlay has `metacopy` and
/// `redirect_dir` switched on and its source named after the image, each by exactly one
/// step that has to succeed, and before it is created.
pub proof fn overlay_is_configured_for_composefs<F, L>(
    lower: Lower<L>,
    name: Seq<char>,
    basedirs: Seq<L>,
    verity: VerityRequirement,
    options: OptionsModel<F>,
)
    ensures
        ({
            let plan = overlay_steps(lower, name, basedirs, verity, options);
            &&& sets_once(plan, "source"@, "composefs:"@ + name)
            &&& sets_once(plan, "metacopy"@, "on"@)
            &&& sets_once(plan, "redirect_dir"@, "on"@)
        }),
{
    let plan = overlay_steps(lower, name, basedirs, verity, options);
    overlay_steps_are_in_order(lower, name, basedirs, verity, options);
    lemma_option_names();
    assert(sets(plan, 1, "source"@));
    assert(sets(plan, 2, "metacopy"@));
    assert(sets(plan, 3, "redirect_dir"@));
}

/// A composefs mount first mounts the image, applies the ID map if there is one,
/// prepares what was mounted, and then does what an overlay over it takes.
pub proof fn composefs_steps_are_in_order<F, L>(
    name: Seq<char>,
    basedirs: Seq<L>,
    verity: VerityRequirement,
    options: OptionsModel<F>,
    k: int,
)
    ensures
        ({
            let plan = composefs_steps(name, basedirs, verity, options);
            let overlay = overlay_steps(Lower::Erofs, name, basedirs, verity, options);
            let m: int = if options.idmap_fd is Some {
                1
            } else {
                0
            };
            &&& plan.len() == 2 + m + overlay.len()
            &&& plan[0] == StepModel::<F, L>::MountErofs
            &&& options.idmap_fd matches Some(userns) ==> plan[1] == (StepModel::<
                F,
                L,
            >::ApplyIdmap { userns })
            &&& plan[1 + m] == StepModel::<F, L>::PrepareErofs
            &&& 0 <= k < overlay.len() ==> plan[2 + m + k] == overlay[k]
        }),
{
}

/// The same of a composefs mount: it has `metacopy` and `redirect_dir` switched on and
/// its source named after the image.
pub proof fn composefs_is_configured<F, L>(
    name: Seq<char>,
    basedirs: Seq<L>,
    verity: VerityRequirement,
    options: OptionsModel<F>,
)
    ensures
        ({
            let plan = composefs_steps(name, basedirs, verity, options);
            &&& sets_once(plan, "source"@, "composefs:"@ + name)
            &&& sets_once(plan, "metacopy"@, "on"@)
            &&& sets_once(plan, "redirect_dir"@, "on"@)
        }),
{
    let plan = composefs_steps(name, basedirs, verity, options);
    let m: int = if options.idmap_fd is Some {
        1
    } else {
        0
    };
    overlay_steps_are_in_order(Lower::Erofs, name, basedirs, verity, options);
    assert forall|k: int|
        0 <= k < overlay_steps(Lower::Erofs, name, basedirs, verity, options).len() implies plan[2
        + m + k] == #[trigger] overlay_steps(Lower::Erofs, name, basedirs, verity, options)[k] by {
        composefs_steps_are_in_order(name, basedirs, verity, options, k);
    }
    composefs_steps_are_in_order(name, basedirs, verity, options, 0);
    lemma_option_names();
    assert(sets(plan, m + 3, "source"@));
    assert(sets(plan, m + 4, "metacopy"@));
    assert(sets(plan, m + 5, "redirect_dir"@));
}

/// An erofs mount makes the image mountable, configures a read-only erofs with that
/// image as its source, creates it and mounts it, in this order.
pub proof fn erofs_steps_are_in_order<F, L>()
    ensures
        ({
            let plan = erofs_steps::<F, L>();
            &&& plan.len() == 6
            &&& plan[0] == StepModel::<F, L>::MakeErofsMountable
            &&& plan[1] == (StepModel::<F, L>::Open { filesystem: "erofs"@ })
            &&& plan[2] == (StepModel::<F, L>::SetFlag { key: "ro"@ })
            &&& plan[3] == StepModel::<F, L>::SetSourceToImage
            &&& plan[4] == StepModel::<F, L>::Create
            &&& plan[5] == (StepModel::<F, L>::Mount { read_only: false })
        }),
{
}

/// A failed step ends the mount, but for a string option that the kernel may not know
/// and that it said it does not know.
pub proof fn failures_end_the_mount<F, L>(
    step: StepModel<F, L>,
    key: Seq<char>,
    value: Seq<char>,
    optional: bool,
)
    ensures
        step.goes_on(None),
        !step.goes_on(Some(StepFailure::Other)),
        !(step is SetString) ==> !step.goes_on(Some(StepFailure::InvalidArgument))
            && !step.goes_on(Some(StepFailure::NotImplemented)),
        (StepModel::<F, L>::SetString { key, value, optional }).goes_on(
            Some(StepFailure::InvalidArgument),
        ) == optional,
        (StepModel::<F, L>::SetString { key, value, optional }).goes_on(
            Some(StepFailure::NotImplemented),
        ) == optional,
{
}

/// The model of a step has what the step has.
pub proof fn step_models_are_faithful<'a, F, L>(plan: Seq<Step<'a, F, L>>, i: int)
    requires
        0 <= i < plan.len(),
    ensures
        steps(plan).len() == plan.len(),
        match plan[i] {
            MountStep::MakeErofsMountable => steps(plan)[i] is MakeErofsMountable,
            MountStep::MountErofs => steps(plan)[i] is MountErofs,
            MountStep::ApplyIdmap { userns } => steps(plan)[i] == (StepModel::<F, L>::ApplyIdmap {
                userns: *userns,
            }),
            MountStep::PrepareErofs => steps(plan)[i] is PrepareErofs,
            MountStep::Open { filesystem } => steps(plan)[i] == (StepModel::<F, L>::Open {
                filesystem: filesystem@,
            }),
            MountStep::SetFlag { key } => steps(plan)[i] == (StepModel::<F, L>::SetFlag {
                key: key@,
            }),
            MountStep::SetString { key, value, optional } => steps(plan)[i] == (StepModel::<
                F,
                L,
            >::SetString { key: key@, value: value@, optional }),
            MountStep::SetSourceToImage => steps(plan)[i] is SetSourceToImage,
            MountStep::SetUpperdir { dir } => steps(plan)[i] == (StepModel::<F, L>::SetUpperdir {
                dir: *dir,
            }),
            MountStep::SetWorkdir { dir } => steps(plan)[i] == (StepModel::<F, L>::SetWorkdir {
                dir: *dir,
            }),
            MountStep::SetLowerAndData { lower, data } => steps(plan)[i] == (StepModel::<
                F,
                L,
            >::SetLowerAndData { lower, data: data@ }),
            MountStep::Create => steps(plan)[i] is Create,
            MountStep::Mount { read_only } => steps(plan)[i] == (StepModel::<F, L>::Mount {
                read_only,
            }),
        },
{
}

} // verus!
