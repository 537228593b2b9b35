//! Shim lifecycle decisions.
//!
//! A shim is a filesystem redirect entry, one per managed command name, each
//! pointing at a single shared launcher. The filesystem calls themselves
//! (creating a symbolic link, removing a file) are performed outside this
//! library; this module makes every decision around them: it classifies
//! names as built-in or third-party, refuses to remove built-ins before any
//! filesystem work, and maps each filesystem outcome to the idempotent
//! [`ShimResult`] or to a symlink failure with the system error on the cause
//! chain.

use vstd::prelude::*;

use crate::fail::{ErrorDetails, VoltaError, VoltaFail, FailExt, Fallible};

verus! {

/// Which idempotent branch a shim operation took. Not a failure: creation
/// finding the shim already present, or deletion finding none, is success.
#[derive(Clone, Copy, Debug, PartialEq, Eq, Structural)]
pub enum ShimResult {
    /// The shim was created.
    Created,
    /// The shim already existed; nothing was done.
    AlreadyExists,
    /// The shim was deleted.
    Deleted,
    /// There was no shim to delete; nothing was done.
    DoesntExist,
}

/// How the filesystem answered a request to create the shim's link.
pub enum LinkOutcome {
    /// The link was created.
    Linked,
    /// Some entry already exists at the shim path.
    AlreadyExists,
    /// Any other failure; `inner` is the message of the wrapped inner error
    /// if the system error carries one, `error` the system error's own.
    Failed { inner: Option<String>, error: String },
}

/// How the filesystem answered a request to remove the shim's entry.
pub enum RemovalOutcome {
    /// The entry was removed.
    Removed,
    /// No entry exists at the shim path.
    NotFound,
    /// Any other failure, as in [`LinkOutcome::Failed`].
    Failed { inner: Option<String>, error: String },
}

/// Whether a name is a third-party shim: everything but the tool's own
/// reserved command names.
pub open spec fn is_3p_spec(name: Seq<char>) -> bool {
    name != "node"@ && name != "yarn"@ && name != "npm"@ && name != "npx"@
}

/// Decides whether two strings hold the same characters.
fn str_eq(a: &str, b: &str) -> (r: bool)
    ensures
        r == (a@ == b@),
{
    let alen = a.unicode_len();
    let blen = b.unicode_len();
    if alen != blen {
        return false;
    }
    let mut i: usize = 0;
    while i < alen
        invariant
            i <= alen,
            alen == a@.len(),
            blen == b@.len(),
            alen == blen,
            forall|k: int| 0 <= k < i ==> a@[k] == b@[k],
        decreases alen - i,
    {
        let ca = a.get_char(i);
        let cb = b.get_char(i);
        if (ca as u32) != (cb as u32) {
            proof {
                if a@ == b@ {
                    assert(ca == cb);
                }
            }
            return false;
        }
        proof {
            vstd::utf8::char_u32_cast(ca, ca as u32);
            vstd::utf8::char_u32_cast(cb, cb as u32);
            assert(ca == cb);
        }
        i = i + 1;
    }
    proof {
        assert(a@ =~= b@);
    }
    true
}

/// Classifies a shim name: `false` exactly for the tool's own reserved
/// command names, `true` for every third-party name. The classification
/// gates deletion, not creation.
pub fn is_3p_shim(name: &str) -> (r: bool)
    ensures
        r == is_3p_spec(name@),
{
    !(str_eq(name, "node") || str_eq(name, "yarn") || str_eq(name, "npm") || str_eq(
        name,
        "npx",
    ))
}

/// The symlink failure for a system error: the message is the wrapped inner
/// error's if the system error carries one, else the system error's own.
pub fn from_io_error(inner: &Option<String>, error: &String) -> (r: ErrorDetails)
    ensures
        r is SymlinkError,
        r.spec_message() == (match inner {
            Some(m) => m@,
            None => error@,
        }),
{
    match inner {
        Some(m) => ErrorDetails::SymlinkError { error: m.clone() },
        None => ErrorDetails::SymlinkError { error: error.clone() },
    }
}

/// Creates a shim: maps the filesystem's answer to the link request.
///
/// Success and an already-present entry are both non-error outcomes, so
/// creation is safe to repeat; any other failure becomes a symlink failure
/// whose cause chain keeps the system error's message.
pub fn create(link: LinkOutcome) -> (r: Fallible<ShimResult>)
    ensures
        (match link {
            LinkOutcome::Linked => r == Ok::<ShimResult, VoltaError>(ShimResult::Created),
            LinkOutcome::AlreadyExists => r == Ok::<ShimResult, VoltaError>(
                ShimResult::AlreadyExists,
            ),
            LinkOutcome::Failed { inner, error } => (match r {
                Ok(_) => false,
                Err(e) => {
                    &&& e.details is SymlinkError
                    &&& e.details.spec_message() == (match inner {
                        Some(m) => m@,
                        None => error@,
                    })
                    &&& e.cause_messages() == seq![error@]
                },
            }),
        }),
{
    match link {
        LinkOutcome::Linked => Ok(ShimResult::Created),
        LinkOutcome::AlreadyExists => Ok(ShimResult::AlreadyExists),
        LinkOutcome::Failed { inner, error } => {
            let details = from_io_error(&inner, &error);
            Err(error.with_context(details))
        },
    }
}

/// The message with which deleting a built-in command is refused.
pub open spec fn builtin_error_text(name: Seq<char>) -> Seq<char> {
    "cannot delete `"@ + name + "`, not a 3rd-party executable"@
}

/// Guards deletion: a built-in name is refused outright, before any
/// filesystem work; a third-party name passes.
pub fn delete_guard(shim_name: &str) -> (r: Fallible<()>)
    ensures
        (match r {
            Ok(_) => is_3p_spec(shim_name@),
            Err(e) => {
                &&& !is_3p_spec(shim_name@)
                &&& e.details is SymlinkError
                &&& e.details.spec_message() == builtin_error_text(shim_name@)
                &&& e.cause_messages() == Seq::<Seq<char>>::empty()
            },
        }),
{
    if is_3p_shim(shim_name) {
        Ok(())
    } else {
        let msg = String::from_str("cannot delete `").concat(shim_name).concat(
            "`, not a 3rd-party executable",
        );
        Err(VoltaError::new(ErrorDetails::SymlinkError { error: msg }))
    }
}

/// Deletes a shim: refuses built-ins, and maps the filesystem's answer to
/// the removal request.
///
/// A missing entry is a non-error outcome, so deletion is safe to repeat;
/// any other failure becomes a symlink failure whose cause chain keeps the
/// system error's message. The removal outcome is only consulted for
/// third-party names: for a built-in, deletion fails whatever it holds.
pub fn delete(shim_name: &str, removal: RemovalOutcome) -> (r: Fallible<ShimResult>)
    ensures
        !is_3p_spec(shim_name@) ==> (match r {
            Ok(_) => false,
            Err(e) => {
                &&& e.details is SymlinkError
                &&& e.details.spec_message() == builtin_error_text(shim_name@)
                &&& e.cause_messages() == Seq::<Seq<char>>::empty()
            },
        }),
        is_3p_spec(shim_name@) ==> (match removal {
            RemovalOutcome::Removed => r == Ok::<ShimResult, VoltaError>(ShimResult::Deleted),
            RemovalOutcome::NotFound => r == Ok::<ShimResult, VoltaError>(
                ShimResult::DoesntExist,
            ),
            RemovalOutcome::Failed { inner, error } => (match r {
                Ok(_) => false,
                Err(e) => {
                    &&& e.details is SymlinkError
                    &&& e.details.spec_message() == (match inner {
                        Some(m) => m@,
                        None => error@,
                    })
                    &&& e.cause_messages() == seq![error@]
                },
            }),
        }),
{
    match delete_guard(shim_name) {
        Err(e) => Err(e),
        Ok(_) => match removal {
            RemovalOutcome::Removed => Ok(ShimResult::Deleted),
            RemovalOutcome::NotFound => Ok(ShimResult::DoesntExist),
            RemovalOutcome::Failed { inner, error } => {
                let details = from_io_error(&inner, &error);
                Err(error.with_context(details))
            },
        },
    }
}

// ----------------------------------------------------------------------------
// The shim directory as a model, and the idempotency laws.
// ----------------------------------------------------------------------------

/// A model of the shim directory: which shim names have an entry, and the
/// target each entry points at.
pub ghost struct ShimDirModel {
    pub entries: Map<Seq<char>, Seq<char>>,
}

/// What creating a symbolic link at `name` pointing at `target` does to the
/// directory: an existing entry is reported and left alone; otherwise the
/// link is created.
pub open spec fn link_step(fs: ShimDirModel, name: Seq<char>, target: Seq<char>) -> (
    LinkOutcome,
    ShimDirModel,
) {
    if fs.entries.dom().contains(name) {
        (LinkOutcome::AlreadyExists, fs)
    } else {
        (LinkOutcome::Linked, ShimDirModel { entries: fs.entries.insert(name, target) })
    }
}

/// What removing the entry at `name` does to the directory: a missing entry
/// is reported; otherwise the entry is removed.
pub open spec fn remove_step(fs: ShimDirModel, name: Seq<char>) -> (
    RemovalOutcome,
    ShimDirModel,
) {
    if fs.entries.dom().contains(name) {
        (RemovalOutcome::Removed, ShimDirModel { entries: fs.entries.remove(name) })
    } else {
        (RemovalOutcome::NotFound, fs)
    }
}

/// Law: on a fresh directory, creating a shim links it, and creating it once
/// more reports `AlreadyExists`; after both calls the shim's entry points at
/// the launcher. By the contract of [`create`], the two calls thus yield
/// `Created` and then `AlreadyExists`.
pub proof fn lemma_create_idempotent(fs: ShimDirModel, name: Seq<char>, launcher: Seq<char>)
    requires
        !fs.entries.dom().contains(name),
    ensures
        ({
            let (o1, fs1) = link_step(fs, name, launcher);
            let (o2, fs2) = link_step(fs1, name, launcher);
            &&& o1 == LinkOutcome::Linked
            &&& o2 == LinkOutcome::AlreadyExists
            &&& fs2.entries.dom().contains(name)
            &&& fs2.entries[name] == launcher
        }),
{
}

/// Law: removing a shim that was never created reports `NotFound`; removing
/// one right after it was created removes it, and removing it once more
/// reports `NotFound` again. By the contract of [`delete`], for a
/// third-party name the three removals thus yield `DoesntExist`, `Deleted`
/// and `DoesntExist`.
pub proof fn lemma_delete_idempotent(fs: ShimDirModel, name: Seq<char>, launcher: Seq<char>)
    requires
        !fs.entries.dom().contains(name),
    ensures
        ({
            let (d0, fs0) = remove_step(fs, name);
            let (o1, fs1) = link_step(fs, name, launcher);
            let (d1, fs2) = remove_step(fs1, name);
            let (d2, fs3) = remove_step(fs2, name);
            &&& d0 == RemovalOutcome::NotFound
            &&& fs0 == fs
            &&& o1 == LinkOutcome::Linked
            &&& d1 == RemovalOutcome::Removed
            &&& !fs2.entries.dom().contains(name)
            &&& d2 == RemovalOutcome::NotFound
            &&& fs3 == fs2
        }),
{
}

/// Law: each of the tool's reserved command names is classified as built-in,
/// so by the contract of [`delete`] its deletion always fails with a symlink
/// failure, whatever the filesystem would have answered — and by the
/// contract of [`delete_guard`] the filesystem is never asked.
pub proof fn lemma_builtins_protected(name: Seq<char>)
    requires
        name == "node"@ || name == "yarn"@ || name == "npm"@ || name == "npx"@,
    ensures
        !is_3p_spec(name),
{
}

} // verus!
