//! Recoverable moves of a project's plugin packages into its plugin trash and
//! back: which names may be used, and what a move or a restore does given
//! which of the package directory and its trash entry exist. The renames
//! themselves, and the checks of the package's contents, happen outside.
use vstd::prelude::*;

use crate::plugin_lifecycle::{
    digest_ok, identifier_ok, validate_digest, validate_identifier, LifecycleLabel,
};
use crate::text::{chars_of, concat, owned, str_eq, string_from_chars, trim, trim_chars};

verus! {

/// Where a project keeps the packages moved out of its plugins directory.
pub const PLUGIN_TRASH_DIRECTORY: &'static str = ".rho/plugin-trash";

/// The longest directory name or trash key, in bytes.
pub const MAX_COMPONENT_BYTES: usize = 128;

#[derive(Debug, Clone, Copy, PartialEq, Eq, Structural)]
pub enum PluginPackageOwnershipOutcome {
    Moved,
    AlreadyMoved,
    Restored,
    AlreadyRestored,
}

/// What a move or a restore proved about one package.
#[derive(Debug, Clone, PartialEq, Eq)]
pub struct PluginPackageMoveEvidence {
    pub outcome: PluginPackageOwnershipOutcome,
    pub plugin_id: String,
    pub package_digest: String,
    pub directory_name: String,
    pub trash_key: String,
}

#[derive(Debug, Clone, PartialEq, Eq)]
pub enum PluginPackageTrashError {
    InvalidIdentity(String),
    UnsafeOwnership(String),
    RenameFailed(String),
    ValidationFailed(String),
    Injected(TrashFailurePoint),
}

/// Where a move may be made to fail on purpose, to exercise recovery.
#[derive(Debug, Clone, Copy, PartialEq, Eq, Structural)]
pub enum TrashFailurePoint {
    BeforeRename,
    AfterRename,
}

pub open spec fn failure_point_name(p: TrashFailurePoint) -> Seq<char> {
    match p {
        TrashFailurePoint::BeforeRename => "BeforeRename"@,
        TrashFailurePoint::AfterRename => "AfterRename"@,
    }
}

/// The text of a trash error.
pub open spec fn trash_error_text(e: PluginPackageTrashError) -> Seq<char> {
    match e {
        PluginPackageTrashError::InvalidIdentity(m) => "plugin package move identity is invalid: "@
            + m@,
        PluginPackageTrashError::UnsafeOwnership(m) => "plugin package ownership is unsafe: "@ + m@,
        PluginPackageTrashError::RenameFailed(m) => "plugin package rename failed: "@ + m@,
        PluginPackageTrashError::ValidationFailed(m) => "plugin package exact validation failed: "@
            + m@,
        PluginPackageTrashError::Injected(p) => "injected plugin package move failure: "@
            + failure_point_name(p),
    }
}

impl PluginPackageTrashError {
    pub fn message(&self) -> (r: String)
        ensures
            r@ == trash_error_text(*self),
    {
        match self {
            PluginPackageTrashError::InvalidIdentity(m) => concat(
                "plugin package move identity is invalid: ",
                m.as_str(),
            ),
            PluginPackageTrashError::UnsafeOwnership(m) => concat(
                "plugin package ownership is unsafe: ",
                m.as_str(),
            ),
            PluginPackageTrashError::RenameFailed(m) => concat(
                "plugin package rename failed: ",
                m.as_str(),
            ),
            PluginPackageTrashError::ValidationFailed(m) => concat(
                "plugin package exact validation failed: ",
                m.as_str(),
            ),
            PluginPackageTrashError::Injected(p) => concat(
                "injected plugin package move failure: ",
                match p {
                    TrashFailurePoint::BeforeRename => "BeforeRename",
                    TrashFailurePoint::AfterRename => "AfterRename",
                },
            ),
        }
    }
}

/// The broker's trash for plugin packages; moves and restores are serialized
/// by the caller. A failure point, where set, makes the next move fail there.
#[derive(Debug, Clone, Copy, PartialEq, Eq, Structural)]
pub struct PluginPackageTrash {
    pub failure: Option<TrashFailurePoint>,
}

impl PluginPackageTrash {
    pub fn new() -> (r: Self)
        ensures
            r.failure is None,
    {
        PluginPackageTrash { failure: None }
    }

    /// A trash that fails on purpose at the given point.
    pub fn failing_at(point: TrashFailurePoint) -> (r: Self)
        ensures
            r.failure == Some(point),
    {
        PluginPackageTrash { failure: Some(point) }
    }

    /// The injected failure due at a point, if this trash is set to fail there.
    pub fn injected(&self, point: TrashFailurePoint) -> (r: Result<(), PluginPackageTrashError>)
        ensures
            self.failure == Some(point) ==> r == Err::<(), PluginPackageTrashError>(
                PluginPackageTrashError::Injected(point),
            ),
            self.failure != Some(point) ==> r is Ok,
    {
        if self.failure == Some(point) {
            Err(PluginPackageTrashError::Injected(point))
        } else {
            Ok(())
        }
    }
}

impl Default for PluginPackageTrash {
    fn default() -> (r: Self)
        ensures
            r.failure is None,
    {
        PluginPackageTrash::new()
    }
}

/// A name that stays one path component: not empty, at most 128 bytes, not
/// `.` or `..`, and free of `/`, `\` and `:`.
pub open spec fn component_ok(t: Seq<char>) -> bool {
    &&& t.len() > 0
    &&& vstd::utf8::encode_utf8(t).len() <= MAX_COMPONENT_BYTES
    &&& t != "."@
    &&& t != ".."@
    &&& forall|i: int| 0 <= i < t.len() ==> (#[trigger] t[i]) != '/' && t[i] != '\\' && t[i] != ':'
}

/// What names a component in error reports.
#[derive(Debug, Clone, Copy, PartialEq, Eq, Structural)]
pub enum ComponentLabel {
    PluginDirectory,
    TrashKey,
}

pub open spec fn component_label_text(l: ComponentLabel) -> Seq<char> {
    match l {
        ComponentLabel::PluginDirectory => "invalid plugin directory"@,
        ComponentLabel::TrashKey => "invalid trash key"@,
    }
}

/// A trimmed directory name or trash key that stays one path component.
pub fn validate_component(value: &str, label: ComponentLabel) -> (r: Result<String, PluginPackageTrashError>)
    ensures
        component_ok(trim(value@)) ==> (r matches Ok(s) && s@ == trim(value@)),
        !component_ok(trim(value@)) ==> (r matches Err(PluginPackageTrashError::InvalidIdentity(m))
            && m@ == component_label_text(label)),
{
    let v = chars_of(value);
    let t = trim_chars(&v);
    let s = string_from_chars(&t);
    let n = t.len();
    proof {
        reveal_strlit(".");
        reveal_strlit("..");
    }
    let is_dot = (n == 1 && t[0] == '.') || (n == 2 && t[0] == '.' && t[1] == '.');
    assert(is_dot == (t@ == "."@ || t@ == ".."@)) by {
        if n == 1 && t@[0] == '.' {
            assert(t@ =~= "."@);
        }
        if n == 2 && t@[0] == '.' && t@[1] == '.' {
            assert(t@ =~= ".."@);
        }
        if t@ == "."@ {
            assert(t@[0] == "."@[0]);
        }
        if t@ == ".."@ {
            assert(t@[0] == ".."@[0] && t@[1] == ".."@[1]);
        }
    }
    if n == 0 || s.as_str().as_bytes().len() > MAX_COMPONENT_BYTES || is_dot || has_separator(&t) {
        return Err(
            PluginPackageTrashError::InvalidIdentity(
                owned(
                    match label {
                        ComponentLabel::PluginDirectory => "invalid plugin directory",
                        ComponentLabel::TrashKey => "invalid trash key",
                    },
                ),
            ),
        );
    }
    Ok(s)
}

fn has_separator(t: &Vec<char>) -> (r: bool)
    ensures
        r == exists|i: int| 0 <= i < t@.len() && ((#[trigger] t@[i]) == '/' || t@[i] == '\\' || t@[i] == ':'),
{
    let n = t.len();
    let mut i: usize = 0;
    while i < n
        invariant
            n == t@.len(),
            0 <= i <= n,
            forall|k: int| 0 <= k < i ==> (#[trigger] t@[k]) != '/' && t@[k] != '\\' && t@[k] != ':',
        decreases n - i,
    {
        let c = t[i];
        if c == '/' || c == '\\' || c == ':' {
            return true;
        }
        i = i + 1;
    }
    false
}

/// The identity a move or restore is asked for, once checked: a package
/// directory name, a plugin ID, a package digest and a trash key.
#[derive(Debug, Clone, PartialEq, Eq)]
pub struct ValidatedMoveIdentity {
    pub directory_name: String,
    pub plugin_id: String,
    pub digest: String,
    pub trash_key: String,
}

/// Why an identity was refused, checking its parts in order: the directory
/// name, the plugin ID, the digest, the trash key.
pub open spec fn move_identity_problem(
    directory_name: Seq<char>,
    plugin_id: Seq<char>,
    digest: Seq<char>,
    trash_key: Seq<char>,
) -> Option<Seq<char>> {
    if !component_ok(trim(directory_name)) {
        Some(component_label_text(ComponentLabel::PluginDirectory))
    } else if !identifier_ok(trim(plugin_id)) {
        Some("invalid plugin ID"@)
    } else if !digest_ok(digest) {
        Some("invalid package digest"@)
    } else if !component_ok(trim(trash_key)) {
        Some(component_label_text(ComponentLabel::TrashKey))
    } else {
        None
    }
}

impl ValidatedMoveIdentity {
    /// Checks the identity a move or restore is asked for.
    pub fn new(directory_name: &str, plugin_id: &str, expected_digest: &str, trash_key: &str) -> (r:
        Result<Self, PluginPackageTrashError>)
        ensures
            match move_identity_problem(directory_name@, plugin_id@, expected_digest@, trash_key@) {
                Some(m) => r matches Err(PluginPackageTrashError::InvalidIdentity(t)) && t@ == m,
                None => r matches Ok(id) && id.directory_name@ == trim(directory_name@)
                    && id.plugin_id@ == trim(plugin_id@) && id.digest@ == expected_digest@
                    && id.trash_key@ == trim(trash_key@),
            },
    {
        let directory_name = match validate_component(directory_name, ComponentLabel::PluginDirectory) {
            Ok(d) => d,
            Err(e) => {
                return Err(e);
            },
        };
        let plugin_id = match validate_identifier(plugin_id, LifecycleLabel::PluginId) {
            Ok(p) => p,
            Err(_) => {
                return Err(PluginPackageTrashError::InvalidIdentity(owned("invalid plugin ID")));
            },
        };
        let digest = match validate_digest(expected_digest, LifecycleLabel::PackageDigest) {
            Ok(d) => d,
            Err(_) => {
                return Err(PluginPackageTrashError::InvalidIdentity(owned("invalid package digest")));
            },
        };
        let trash_key = match validate_component(trash_key, ComponentLabel::TrashKey) {
            Ok(k) => k,
            Err(e) => {
                return Err(e);
            },
        };
        Ok(ValidatedMoveIdentity { directory_name, plugin_id, digest, trash_key })
    }
}

/// Why the package found at the source no longer is the one asked for: its
/// manifest names another plugin, discovery no longer finds the plugin, or
/// discovery finds it in another directory or with another digest.
pub open spec fn found_package_problem(
    identity: ValidatedMoveIdentity,
    manifest_id: Seq<char>,
    discovered: Option<(Seq<char>, Seq<char>)>,
) -> Option<Seq<char>> {
    if manifest_id != identity.plugin_id@ {
        Some("source plugin ID changed before move"@)
    } else {
        match discovered {
            None => Some("source plugin disappeared before move"@),
            Some((directory, digest)) => if directory != identity.directory_name@ || digest
                != identity.digest@ {
                Some("source directory or digest changed before move"@)
            } else {
                None
            },
        }
    }
}

/// Checks, just before a move, that the package at the source is still the
/// one asked for: the ID its manifest gives and, where discovery found the
/// plugin, the directory and digest it found it with.
pub fn check_found_package(
    identity: &ValidatedMoveIdentity,
    manifest_id: &str,
    discovered: Option<(&str, &str)>,
) -> (r: Result<(), PluginPackageTrashError>)
    ensures
        match found_package_problem(
            *identity,
            manifest_id@,
            match discovered {
                Some((d, g)) => Some((d@, g@)),
                None => None,
            },
        ) {
            Some(m) => r matches Err(PluginPackageTrashError::ValidationFailed(t)) && t@ == m,
            None => r is Ok,
        },
{
    if !str_eq(manifest_id, identity.plugin_id.as_str()) {
        return Err(
            PluginPackageTrashError::ValidationFailed(owned("source plugin ID changed before move")),
        );
    }
    match discovered {
        None => Err(
            PluginPackageTrashError::ValidationFailed(owned("source plugin disappeared before move")),
        ),
        Some((directory, digest)) => {
            if !str_eq(directory, identity.directory_name.as_str()) || !str_eq(
                digest,
                identity.digest.as_str(),
            ) {
                Err(
                    PluginPackageTrashError::ValidationFailed(
                        owned("source directory or digest changed before move"),
                    ),
                )
            } else {
                Ok(())
            }
        },
    }
}

/// Checks that the package a move or restore left in place still has the
/// digest asked for.
pub fn check_package_digest(identity: &ValidatedMoveIdentity, found_digest: &str) -> (r: Result<
    (),
    PluginPackageTrashError,
>)
    ensures
        found_digest@ == identity.digest@ ==> r is Ok,
        found_digest@ != identity.digest@ ==> (r matches Err(
            PluginPackageTrashError::ValidationFailed(t),
        ) && t@ == "package digest changed during ownership validation"@),
{
    if str_eq(found_digest, identity.digest.as_str()) {
        Ok(())
    } else {
        Err(
            PluginPackageTrashError::ValidationFailed(
                owned("package digest changed during ownership validation"),
            ),
        )
    }
}

/// What a move or a restore does next, given which of the package directory
/// and its trash entry exist.
#[derive(Debug, Clone, Copy, PartialEq, Eq, Structural)]
pub enum TrashStep {
    /// Check the package where it stands, rename it, then check it again.
    Rename,
    /// The package is already where it should be: check it there and report.
    AlreadyDone,
}

/// The step a move takes: a package only in the plugins directory is renamed
/// into the trash; one only in the trash was moved already; anything else is
/// unsafe.
pub open spec fn move_step(source_exists: bool, target_exists: bool) -> Result<TrashStep, Seq<char>> {
    if source_exists && !target_exists {
        Ok(TrashStep::Rename)
    } else if !source_exists && target_exists {
        Ok(TrashStep::AlreadyDone)
    } else if source_exists {
        Err("source and trash both exist for one package"@)
    } else {
        Err("neither source nor trash owns the exact package"@)
    }
}

/// The step a restore takes: a package only in the trash is renamed back; one
/// only in the plugins directory was restored already; anything else is unsafe.
pub open spec fn restore_step(source_exists: bool, target_exists: bool) -> Result<TrashStep, Seq<char>> {
    if !source_exists && target_exists {
        Ok(TrashStep::Rename)
    } else if source_exists && !target_exists {
        Ok(TrashStep::AlreadyDone)
    } else if source_exists {
        Err("restore source and trash target both exist"@)
    } else {
        Err("restore package is missing from source and trash"@)
    }
}

pub open spec fn step_result(
    spec_step: Result<TrashStep, Seq<char>>,
    r: Result<TrashStep, PluginPackageTrashError>,
) -> bool {
    match spec_step {
        Ok(s) => r == Ok::<TrashStep, PluginPackageTrashError>(s),
        Err(m) => r matches Err(PluginPackageTrashError::UnsafeOwnership(t)) && t@ == m,
    }
}

pub fn decide_move(source_exists: bool, target_exists: bool) -> (r: Result<TrashStep, PluginPackageTrashError>)
    ensures
        step_result(move_step(source_exists, target_exists), r),
{
    match (source_exists, target_exists) {
        (true, false) => Ok(TrashStep::Rename),
        (false, true) => Ok(TrashStep::AlreadyDone),
        (true, true) => Err(
            PluginPackageTrashError::UnsafeOwnership(
                owned("source and trash both exist for one package"),
            ),
        ),
        (false, false) => Err(
            PluginPackageTrashError::UnsafeOwnership(
                owned("neither source nor trash owns the exact package"),
            ),
        ),
    }
}

pub fn decide_restore(source_exists: bool, target_exists: bool) -> (r: Result<
    TrashStep,
    PluginPackageTrashError,
>)
    ensures
        step_result(restore_step(source_exists, target_exists), r),
{
    match (source_exists, target_exists) {
        (false, true) => Ok(TrashStep::Rename),
        (true, false) => Ok(TrashStep::AlreadyDone),
        (true, true) => Err(
            PluginPackageTrashError::UnsafeOwnership(
                owned("restore source and trash target both exist"),
            ),
        ),
        (false, false) => Err(
            PluginPackageTrashError::UnsafeOwnership(
                owned("restore package is missing from source and trash"),
            ),
        ),
    }
}

/// Where the package is after a step: a rename swaps which side holds it.
pub open spec fn after_step(step: TrashStep, source_exists: bool, target_exists: bool) -> (bool, bool) {
    match step {
        TrashStep::Rename => (target_exists, source_exists),
        TrashStep::AlreadyDone => (source_exists, target_exists),
    }
}

/// Moves and restores are exact and replayable: a move that renames leaves
/// the package where a second move finds it already moved, a restore that
/// renames leaves it where a second restore finds it already restored, and a
/// restore undoes a move.
pub proof fn lemma_move_restore_replay(source_exists: bool, target_exists: bool)
    ensures
        move_step(source_exists, target_exists) == Ok::<TrashStep, Seq<char>>(TrashStep::Rename) ==> ({
            let (s, t) = after_step(TrashStep::Rename, source_exists, target_exists);
            &&& move_step(s, t) == Ok::<TrashStep, Seq<char>>(TrashStep::AlreadyDone)
            &&& restore_step(s, t) == Ok::<TrashStep, Seq<char>>(TrashStep::Rename)
            &&& after_step(TrashStep::Rename, s, t) == (source_exists, target_exists)
        }),
        restore_step(source_exists, target_exists) == Ok::<TrashStep, Seq<char>>(TrashStep::Rename) ==> ({
            let (s, t) = after_step(TrashStep::Rename, source_exists, target_exists);
            &&& restore_step(s, t) == Ok::<TrashStep, Seq<char>>(TrashStep::AlreadyDone)
            &&& move_step(s, t) == Ok::<TrashStep, Seq<char>>(TrashStep::Rename)
        }),
{
}

/// The evidence a finished move or restore reports.
pub fn move_evidence(
    outcome: PluginPackageOwnershipOutcome,
    plugin_id: &str,
    package_digest: &str,
    directory_name: &str,
    trash_key: &str,
) -> (r: PluginPackageMoveEvidence)
    ensures
        r.outcome == outcome,
        r.plugin_id@ == plugin_id@,
        r.package_digest@ == package_digest@,
        r.directory_name@ == directory_name@,
        r.trash_key@ == trash_key@,
{
    PluginPackageMoveEvidence {
        outcome,
        plugin_id: owned(plugin_id),
        package_digest: owned(package_digest),
        directory_name: owned(directory_name),
        trash_key: owned(trash_key),
    }
}

/// The outcome a move or restore reports for the step it took.
pub fn step_outcome(restoring: bool, step: TrashStep) -> (r: PluginPackageOwnershipOutcome)
    ensures
        r == match (restoring, step) {
            (false, TrashStep::Rename) => PluginPackageOwnershipOutcome::Moved,
            (false, TrashStep::AlreadyDone) => PluginPackageOwnershipOutcome::AlreadyMoved,
            (true, TrashStep::Rename) => PluginPackageOwnershipOutcome::Restored,
            (true, TrashStep::AlreadyDone) => PluginPackageOwnershipOutcome::AlreadyRestored,
        },
{
    match (restoring, step) {
        (false, TrashStep::Rename) => PluginPackageOwnershipOutcome::Moved,
        (false, TrashStep::AlreadyDone) => PluginPackageOwnershipOutcome::AlreadyMoved,
        (true, TrashStep::Rename) => PluginPackageOwnershipOutcome::Restored,
        (true, TrashStep::AlreadyDone) => PluginPackageOwnershipOutcome::AlreadyRestored,
    }
}

/// The outcome of a step, by whether it restores and what it did.
pub open spec fn outcome_for(restoring: bool, step: TrashStep) -> PluginPackageOwnershipOutcome {
    match (restoring, step) {
        (false, TrashStep::Rename) => PluginPackageOwnershipOutcome::Moved,
        (false, TrashStep::AlreadyDone) => PluginPackageOwnershipOutcome::AlreadyMoved,
        (true, TrashStep::Rename) => PluginPackageOwnershipOutcome::Restored,
        (true, TrashStep::AlreadyDone) => PluginPackageOwnershipOutcome::AlreadyRestored,
    }
}

/// Why a step is refused when the package it left in place has another
/// digest than the one asked for.
pub open spec fn settle_problem(restoring: bool, step: TrashStep) -> Seq<char> {
    if !restoring {
        "package digest changed during ownership validation"@
    } else if step == TrashStep::Rename {
        "restored package digest changed"@
    } else {
        "already-restored package digest changed"@
    }
}

/// The step a move takes, with the package found at the source compared to
/// the one asked for before any rename: `manifest_id` is the ID the source
/// package's manifest gives and `discovered` the directory and digest that
/// discovery finds the plugin with; they are only looked at for a rename.
pub fn decide_exact_move(
    identity: &ValidatedMoveIdentity,
    source_exists: bool,
    target_exists: bool,
    manifest_id: &str,
    discovered: Option<(&str, &str)>,
) -> (r: Result<TrashStep, PluginPackageTrashError>)
    ensures
        match move_step(source_exists, target_exists) {
            Err(m) => r matches Err(PluginPackageTrashError::UnsafeOwnership(t)) && t@ == m,
            Ok(TrashStep::AlreadyDone) => r == Ok::<TrashStep, PluginPackageTrashError>(
                TrashStep::AlreadyDone,
            ),
            Ok(TrashStep::Rename) => match found_package_problem(
                *identity,
                manifest_id@,
                match discovered {
                    Some((d, g)) => Some((d@, g@)),
                    None => None,
                },
            ) {
                Some(m) => r matches Err(PluginPackageTrashError::ValidationFailed(t)) && t@ == m,
                None => r == Ok::<TrashStep, PluginPackageTrashError>(TrashStep::Rename),
            },
        },
{
    let step = match decide_move(source_exists, target_exists) {
        Err(e) => {
            return Err(e);
        },
        Ok(s) => s,
    };
    if step == TrashStep::Rename {
        match check_found_package(identity, manifest_id, discovered) {
            Err(e) => {
                return Err(e);
            },
            Ok(()) => {},
        }
    }
    Ok(step)
}

/// The step a restore takes, with the package in the trash checked against
/// the digest asked for before it is renamed back: `trash_digest` is the
/// digest found for it, only looked at for a rename.
pub fn decide_exact_restore(
    identity: &ValidatedMoveIdentity,
    source_exists: bool,
    target_exists: bool,
    trash_digest: &str,
) -> (r: Result<TrashStep, PluginPackageTrashError>)
    ensures
        match restore_step(source_exists, target_exists) {
            Err(m) => r matches Err(PluginPackageTrashError::UnsafeOwnership(t)) && t@ == m,
            Ok(TrashStep::AlreadyDone) => r == Ok::<TrashStep, PluginPackageTrashError>(
                TrashStep::AlreadyDone,
            ),
            Ok(TrashStep::Rename) => if trash_digest@ == identity.digest@ {
                r == Ok::<TrashStep, PluginPackageTrashError>(TrashStep::Rename)
            } else {
                r matches Err(PluginPackageTrashError::ValidationFailed(t)) && t@
                    == "package digest changed during ownership validation"@
            },
        },
{
    let step = match decide_restore(source_exists, target_exists) {
        Err(e) => {
            return Err(e);
        },
        Ok(s) => s,
    };
    if step == TrashStep::Rename {
        match check_package_digest(identity, trash_digest) {
            Err(e) => {
                return Err(e);
            },
            Ok(()) => {},
        }
    }
    Ok(step)
}

/// Finishes a move or a restore once the package the step left in place has
/// been found with `found_digest`: the evidence of the step, naming the
/// identity asked for, or the refusal of a package whose digest changed.
pub fn settle_step(
    identity: &ValidatedMoveIdentity,
    restoring: bool,
    step: TrashStep,
    found_digest: &str,
) -> (r: Result<PluginPackageMoveEvidence, PluginPackageTrashError>)
    ensures
        found_digest@ == identity.digest@ ==> (r matches Ok(ev) && ev.outcome == outcome_for(
            restoring,
            step,
        ) && ev.plugin_id@ == identity.plugin_id@ && ev.package_digest@ == identity.digest@
            && ev.directory_name@ == identity.directory_name@ && ev.trash_key@
            == identity.trash_key@),
        found_digest@ != identity.digest@ ==> (r matches Err(
            PluginPackageTrashError::ValidationFailed(t),
        ) && t@ == settle_problem(restoring, step)),
{
    if !str_eq(found_digest, identity.digest.as_str()) {
        let text = if !restoring {
            owned("package digest changed during ownership validation")
        } else if step == TrashStep::Rename {
            owned("restored package digest changed")
        } else {
            owned("already-restored package digest changed")
        };
        return Err(PluginPackageTrashError::ValidationFailed(text));
    }
    Ok(
        move_evidence(
            step_outcome(restoring, step),
            identity.plugin_id.as_str(),
            identity.digest.as_str(),
            identity.directory_name.as_str(),
            identity.trash_key.as_str(),
        ),
    )
}

} // verus!
