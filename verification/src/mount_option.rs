//! Options that a filesystem is mounted with.

use crate::session::SessionACL;
use vstd::prelude::*;

verus! {

/// A mount option.
#[derive(Debug, PartialEq, Eq)]
pub enum MountOption {
    /// Name of the source in mtab.
    FSName(String),
    /// Allow all users to access files on this filesystem.
    AllowOther,
    /// Allow root and the owner to access files on this filesystem.
    AllowRoot,
    /// Unmount when the process that mounted exits.
    AutoUnmount,
    /// Any other option, in the form that the mount program takes.
    Other(String),
}

impl Clone for MountOption {
    fn clone(&self) -> (copy: Self)
        ensures
            copy == *self,
    {
        match self {
            MountOption::FSName(name) => MountOption::FSName(name.clone()),
            MountOption::AllowOther => MountOption::AllowOther,
            MountOption::AllowRoot => MountOption::AllowRoot,
            MountOption::AutoUnmount => MountOption::AutoUnmount,
            MountOption::Other(text) => MountOption::Other(text.clone()),
        }
    }
}

/// The options ask for an automatic unmount, which needs one of `AllowRoot` and
/// `AllowOther`, and give neither.
pub open spec fn lacks_allow(options: Seq<MountOption>) -> bool {
    &&& options.contains(MountOption::AutoUnmount)
    &&& !options.contains(MountOption::AllowRoot)
    &&& !options.contains(MountOption::AllowOther)
}

/// The options that the filesystem is mounted with, where these are asked for.
pub open spec fn effective_options(options: Seq<MountOption>) -> Seq<MountOption> {
    if lacks_allow(options) {
        options.push(MountOption::AllowOther)
    } else {
        options
    }
}

/// Who may use a filesystem for which these options are asked for.
pub open spec fn acl_of(options: Seq<MountOption>) -> SessionACL {
    if options.contains(MountOption::AllowRoot) {
        SessionACL::RootAndOwner
    } else if options.contains(MountOption::AllowOther) {
        SessionACL::All
    } else {
        SessionACL::Owner
    }
}

/// How to mount a filesystem.
#[derive(Debug)]
pub struct MountPlan {
    /// The options to mount with.
    pub options: Vec<MountOption>,
    /// `AllowOther` is among them though nobody asked for it: the session itself
    /// has to turn other users away.
    pub allow_other_added: bool,
}

/// Which of the options that decide about access are given: `AutoUnmount`,
/// `AllowRoot` and `AllowOther`, in this order.
fn access_options(options: &[MountOption]) -> (found: (bool, bool, bool))
    ensures
        found.0 == options@.contains(MountOption::AutoUnmount),
        found.1 == options@.contains(MountOption::AllowRoot),
        found.2 == options@.contains(MountOption::AllowOther),
{
    let mut auto_unmount = false;
    let mut allow_root = false;
    let mut allow_other = false;
    let mut i: usize = 0;
    while i < options.len()
        invariant
            i <= options@.len(),
            auto_unmount == options@.take(i as int).contains(MountOption::AutoUnmount),
            allow_root == options@.take(i as int).contains(MountOption::AllowRoot),
            allow_other == options@.take(i as int).contains(MountOption::AllowOther),
        decreases options@.len() - i,
    {
        match &options[i] {
            MountOption::AutoUnmount => auto_unmount = true,
            MountOption::AllowRoot => allow_root = true,
            MountOption::AllowOther => allow_other = true,
            _ => {},
        }
        proof {
            lemma_take_next(options@, i as int, MountOption::AutoUnmount);
            lemma_take_next(options@, i as int, MountOption::AllowRoot);
            lemma_take_next(options@, i as int, MountOption::AllowOther);
        }
        i += 1;
    }
    assert(options@.take(i as int) =~= options@);
    (auto_unmount, allow_root, allow_other)
}

/// A prefix that is one longer holds what the prefix held, and its last item.
proof fn lemma_take_next(options: Seq<MountOption>, i: int, wanted: MountOption)
    requires
        0 <= i < options.len(),
    ensures
        options.take(i + 1).contains(wanted) <==> (options.take(i).contains(wanted) || options[i]
            == wanted),
{
    let before = options.take(i);
    let after = options.take(i + 1);
    assert(after =~= before.push(options[i]));
    if before.contains(wanted) {
        let k = choose|k: int| 0 <= k < before.len() && before[k] == wanted;
        assert(after[k] == wanted);
    }
    if options[i] == wanted {
        assert(after[i] == wanted);
    }
    if after.contains(wanted) {
        let k = choose|k: int| 0 <= k < after.len() && after[k] == wanted;
        if k < i {
            assert(before[k] == wanted);
        }
    }
}

/// Decides how to mount a filesystem for which `options` are asked for.
///
/// If AutoUnmount is requested, but not AllowRoot or AllowOther, the session
/// enforces the ACL itself and AllowOther is set, because fusermount needs
/// allow_root or allow_other to handle the auto_unmount option.
pub fn mount_plan(options: &[MountOption]) -> (plan: MountPlan)
    ensures
        plan.options@ == effective_options(options@),
        plan.allow_other_added == lacks_allow(options@),
        plan.allow_other_added <==> options@.contains(MountOption::AutoUnmount)
            && !options@.contains(MountOption::AllowRoot) && !options@.contains(
            MountOption::AllowOther,
        ),
        plan.allow_other_added ==> plan.options@ == options@.push(MountOption::AllowOther),
        !plan.allow_other_added ==> plan.options@ == options@,
{
    let (auto_unmount, allow_root, allow_other) = access_options(options);
    let mut mounted: Vec<MountOption> = Vec::with_capacity(options.len());
    let mut i: usize = 0;
    while i < options.len()
        invariant
            i <= options@.len(),
            mounted@ == options@.take(i as int),
        decreases options@.len() - i,
    {
        mounted.push(options[i].clone());
        i += 1;
        assert(options@.take(i as int) =~= options@.take(i - 1).push(options@[i - 1]));
    }
    assert(options@.take(i as int) =~= options@);
    let allow_other_added = auto_unmount && !(allow_root || allow_other);
    if allow_other_added {
        mounted.push(MountOption::AllowOther);
    }
    MountPlan { options: mounted, allow_other_added }
}

/// Decides whom the session of a filesystem serves for which `options` are asked
/// for.
pub fn session_acl(options: &[MountOption]) -> (allowed: SessionACL)
    ensures
        allowed == acl_of(options@),
        allowed == SessionACL::RootAndOwner <==> options@.contains(MountOption::AllowRoot),
        allowed == SessionACL::All <==> options@.contains(MountOption::AllowOther)
            && !options@.contains(MountOption::AllowRoot),
        allowed == SessionACL::Owner <==> !options@.contains(MountOption::AllowOther)
            && !options@.contains(MountOption::AllowRoot),
{
    let (_, allow_root, allow_other) = access_options(options);
    if allow_root {
        SessionACL::RootAndOwner
    } else if allow_other {
        SessionACL::All
    } else {
        SessionACL::Owner
    }
}

/// Whom a session serves depends on which options are asked for: `AllowRoot` opens
/// it to root, `AllowOther` without it to all, and without either of them it is
/// the owner's alone.
pub proof fn policy_follows_the_allow_options(options: Seq<MountOption>)
    ensures
        acl_of(options) == SessionACL::RootAndOwner <==> options.contains(MountOption::AllowRoot),
        acl_of(options) == SessionACL::All <==> options.contains(MountOption::AllowOther)
            && !options.contains(MountOption::AllowRoot),
        acl_of(options) == SessionACL::Owner <==> !options.contains(MountOption::AllowOther)
            && !options.contains(MountOption::AllowRoot),
{
}

/// Where in the list the options stand plays no part: two lists of the same
/// options, in any order, and however often each is repeated, give the same
/// policy, and both get `AllowOther` added or neither does.
pub proof fn order_of_options_does_not_matter(a: Seq<MountOption>, b: Seq<MountOption>)
    requires
        forall|option: MountOption| #[trigger] a.contains(option) <==> b.contains(option),
    ensures
        acl_of(a) == acl_of(b),
        effective_options(a).len() - a.len() == effective_options(b).len() - b.len(),
{
    assert(a.contains(MountOption::AutoUnmount) <==> b.contains(MountOption::AutoUnmount));
    assert(a.contains(MountOption::AllowRoot) <==> b.contains(MountOption::AllowRoot));
    assert(a.contains(MountOption::AllowOther) <==> b.contains(MountOption::AllowOther));
}

/// When `AllowOther` is added: where `AutoUnmount` is asked for and neither
/// `AllowRoot` nor `AllowOther` is. Options without `AutoUnmount`, and options
/// with one of the other two, are mounted with as they are.
pub proof fn allow_other_is_added_for_auto_unmount_only(options: Seq<MountOption>)
    ensures
        !options.contains(MountOption::AutoUnmount) ==> effective_options(options) == options
            && !lacks_allow(options),
        options.contains(MountOption::AllowRoot) ==> effective_options(options) == options,
        options.contains(MountOption::AllowOther) ==> effective_options(options) == options,
        options.contains(MountOption::AutoUnmount) && !options.contains(MountOption::AllowRoot)
            && !options.contains(MountOption::AllowOther) ==> effective_options(options)
            == options + seq![MountOption::AllowOther],
        lacks_allow(options) <==> effective_options(options) != options,
{
    assert(options.push(MountOption::AllowOther) =~= options + seq![MountOption::AllowOther]);
    if lacks_allow(options) {
        assert(effective_options(options).len() == options.len() + 1);
    }
}

/// What is asked for is mounted with: the options keep their order, and the
/// only one ever added is `AllowOther`, at the end.
pub proof fn asked_options_are_kept(options: Seq<MountOption>)
    ensures
        effective_options(options).len() >= options.len(),
        effective_options(options).take(options.len() as int) == options,
        effective_options(options).skip(options.len() as int) == (if lacks_allow(options) {
            seq![MountOption::AllowOther]
        } else {
            seq![]
        }),
{
    assert(effective_options(options).take(options.len() as int) =~= options);
}

/// An automatic unmount is never asked for without `AllowRoot` or `AllowOther`,
/// and settling the options a second time adds nothing.
pub proof fn auto_unmount_is_backed(options: Seq<MountOption>)
    ensures
        effective_options(options).contains(MountOption::AutoUnmount) ==> (effective_options(
            options,
        ).contains(MountOption::AllowRoot) || effective_options(options).contains(
            MountOption::AllowOther,
        )),
        effective_options(effective_options(options)) == effective_options(options),
{
    if lacks_allow(options) {
        let added = options.push(MountOption::AllowOther);
        assert(added[options.len() as int] == MountOption::AllowOther);
    }
}

/// Adding `AllowOther` for an automatic unmount lets nobody in: the session then
/// serves its owner alone.
pub proof fn added_allow_other_keeps_owner_policy(options: Seq<MountOption>)
    requires
        lacks_allow(options),
    ensures
        acl_of(options) == SessionACL::Owner,
        effective_options(options).contains(MountOption::AllowOther),
{
    assert(options.push(MountOption::AllowOther)[options.len() as int] == MountOption::AllowOther);
}

} // verus!
