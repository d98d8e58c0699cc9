use vstd::prelude::*;

use crate::document::{
    catalog_injected, has_identity, same_platform_but_identity, valid_serials, MacPlist,
};
use crate::identity::Identity;
use crate::patches::sequoia_records;
use crate::value::PlistValue;

verus! {

/// How a run was asked to behave.
#[derive(Debug, Clone, Copy, PartialEq, Eq, Structural)]
pub struct RunOptions {
    /// Compute and report, but write nothing.
    pub dry_run: bool,
    /// Replace the identity even where a valid one is set.
    pub force_regenerate: bool,
    /// Add the Sequoia patches unless they are present.
    pub add_sequoia_patches: bool,
    /// Add the Sequoia patches even where they are present.
    pub force_sequoia_patches: bool,
    /// A person is there to answer questions.
    pub interactive: bool,
}

/// What a run has to change, once the document is inspected.
#[derive(Debug, Clone, Copy, PartialEq, Eq, Structural)]
pub enum Pending {
    Unchanged,
    PendingIdentity,
    PendingPatches,
    PendingBoth,
}

/// How a run ends.
#[derive(Debug, Clone, Copy, PartialEq, Eq, Structural)]
pub enum Finish {
    /// Nothing needed changing; nothing was written.
    Unchanged,
    /// The changed document is written back.
    Committed,
    /// A dry run: the changes are reported, nothing is written.
    Simulated,
}

/// A valid identity is kept unless someone there is asked and agrees.
pub open spec fn asks_identity(valid: bool, o: RunOptions) -> bool {
    valid && !o.force_regenerate && o.interactive && !o.dry_run
}

pub open spec fn identity_wanted(valid: bool, o: RunOptions, answer: bool) -> bool {
    !valid || o.force_regenerate || (asks_identity(valid, o) && answer)
}

/// Missing patches that nobody asked for are offered to someone there.
pub open spec fn asks_patches(present: bool, o: RunOptions) -> bool {
    !o.add_sequoia_patches && !o.force_sequoia_patches && !present && o.interactive
}

pub open spec fn patches_wanted(present: bool, o: RunOptions, answer: bool) -> bool {
    o.force_sequoia_patches || (o.add_sequoia_patches && !present) || (asks_patches(present, o) && answer)
}

pub open spec fn pending_of(identity: bool, patches: bool) -> Pending {
    if identity && patches {
        Pending::PendingBoth
    } else if identity {
        Pending::PendingIdentity
    } else if patches {
        Pending::PendingPatches
    } else {
        Pending::Unchanged
    }
}

/// Whether to ask if a valid identity should be replaced.
pub fn should_ask_identity(valid: bool, o: &RunOptions) -> (r: bool)
    ensures
        r == asks_identity(valid, *o),
{
    valid && !o.force_regenerate && o.interactive && !o.dry_run
}

/// Whether the identity is to be replaced; `answer` counts only where the
/// question was asked.
pub fn decide_identity(valid: bool, o: &RunOptions, answer: bool) -> (r: bool)
    ensures
        r == identity_wanted(valid, *o, answer),
{
    !valid || o.force_regenerate || (should_ask_identity(valid, o) && answer)
}

/// Whether to offer the patches that are missing.
pub fn should_ask_patches(present: bool, o: &RunOptions) -> (r: bool)
    ensures
        r == asks_patches(present, *o),
{
    !o.add_sequoia_patches && !o.force_sequoia_patches && !present && o.interactive
}

/// Whether the patches are to be added; `answer` counts only where they
/// were offered.
pub fn decide_patches(present: bool, o: &RunOptions, answer: bool) -> (r: bool)
    ensures
        r == patches_wanted(present, *o, answer),
{
    o.force_sequoia_patches || (o.add_sequoia_patches && !present) || (should_ask_patches(present, o) && answer)
}

pub fn classify(identity: bool, patches: bool) -> (r: Pending)
    ensures
        r == pending_of(identity, patches),
{
    if identity && patches {
        Pending::PendingBoth
    } else if identity {
        Pending::PendingIdentity
    } else if patches {
        Pending::PendingPatches
    } else {
        Pending::Unchanged
    }
}

/// How a run with the given pending changes ends.
pub fn finish(p: Pending, dry_run: bool) -> (r: Finish)
    ensures
        p == Pending::Unchanged ==> r == Finish::Unchanged,
        p != Pending::Unchanged && dry_run ==> r == Finish::Simulated,
        p != Pending::Unchanged && !dry_run ==> r == Finish::Committed,
{
    match p {
        Pending::Unchanged => Finish::Unchanged,
        _ => if dry_run {
            Finish::Simulated
        } else {
            Finish::Committed
        },
    }
}

pub open spec fn is_yes_char(c: char, lower: char) -> bool {
    c == lower || c as int == lower as int - 32
}

/// `s` is `y` or `yes`, in any ASCII case.
pub open spec fn is_yes(s: Seq<char>) -> bool {
    (s.len() == 1 && is_yes_char(s[0], 'y')) || (s.len() == 3 && is_yes_char(s[0], 'y') && is_yes_char(
        s[1],
        'e',
    ) && is_yes_char(s[2], 's'))
}

fn yes_char(c: char, lower: char) -> (r: bool)
    requires
        'a' <= lower <= 'z',
    ensures
        r == is_yes_char(c, lower),
{
    c == lower || c as u32 == lower as u32 - 32
}

/// Reads a trimmed answer to a yes/no question: empty takes the default,
/// `y` or `yes` in any case accepts, anything else declines.
pub fn answer_accepts(answer: &str, default_yes: bool) -> (r: bool)
    ensures
        r == if answer@.len() == 0 {
            default_yes
        } else {
            is_yes(answer@)
        },
{
    let n = answer.unicode_len();
    if n == 0 {
        default_yes
    } else if n == 1 {
        yes_char(answer.get_char(0), 'y')
    } else if n == 3 {
        yes_char(answer.get_char(0), 'y') && yes_char(answer.get_char(1), 'e') && yes_char(
            answer.get_char(2),
            's',
        )
    } else {
        false
    }
}

/// The changes a run makes: the identity to set, if any, and whether the
/// Sequoia patches go in.
#[derive(Debug)]
pub struct Plan {
    pub identity: Option<Identity>,
    pub add_patches: bool,
}

pub open spec fn plan_pending(plan: Plan) -> Pending {
    pending_of(plan.identity is Some, plan.add_patches)
}

/// `new` is `old` with the plan applied: the identity set where there is one,
/// the Sequoia records appended where asked, and nothing else changed.
pub open spec fn plan_applied(old: MacPlist, new: MacPlist, plan: Plan) -> bool {
    &&& match plan.identity {
        Some(id) => same_platform_but_identity(old, new) && has_identity(new, id),
        None => new.platform_info == old.platform_info,
    }
    &&& if plan.add_patches {
        exists|recs: Seq<PlistValue>| sequoia_records(recs) && catalog_injected(old.other@, new.other@, recs)
    } else {
        new.other == old.other
    }
}

/// Applies a plan to the document in memory.
pub fn apply_plan(doc: &mut MacPlist, plan: &Plan)
    ensures
        plan_applied(*old(doc), *final(doc), *plan),
{
    if plan.add_patches {
        doc.add_sequoia_kernel_patches();
    }
    let ghost mid = *doc;
    match &plan.identity {
        Some(id) => {
            doc.set_identity(id);
            assert(doc.other == mid.other);
        },
        None => {},
    }
}

/// The document to write back at the end of a run: none where nothing is
/// pending or on a dry run, else the document with the plan applied.
pub fn document_to_write(doc: MacPlist, plan: &Plan, dry_run: bool) -> (r: Option<MacPlist>)
    ensures
        r is Some <==> plan_pending(*plan) != Pending::Unchanged && !dry_run,
        r matches Some(d) ==> plan_applied(doc, d, *plan),
{
    if dry_run || (plan.identity.is_none() && !plan.add_patches) {
        return None;
    }
    let mut d = doc;
    apply_plan(&mut d, plan);
    Some(d)
}

/// A dry run on a document without a valid identity plans a new identity
/// without asking anyone, ends as a simulation, and writes nothing back.
pub proof fn lemma_dry_run_plans_without_writing(o: RunOptions, answer: bool, patches: bool)
    requires
        o.dry_run,
    ensures
        !asks_identity(false, o),
        identity_wanted(false, o, answer),
        pending_of(true, patches) != Pending::Unchanged,
{
}

/// Run without a person there and without options, a document whose identity
/// is not valid gets a new identity and nothing else: no question is asked.
pub proof fn lemma_unattended_run(o: RunOptions, present: bool, a1: bool, a2: bool)
    requires
        !o.dry_run && !o.force_regenerate && !o.add_sequoia_patches && !o.force_sequoia_patches
            && !o.interactive,
    ensures
        !asks_identity(false, o) && !asks_patches(present, o),
        pending_of(identity_wanted(false, o, a1), patches_wanted(present, o, a2)) == Pending::PendingIdentity,
{
}

/// An identity that `generate_identity` hands out has a valid serial pair, so
/// a document given it by `apply_plan` has valid serials, whatever they were.
pub proof fn lemma_planned_identity_valid(old: MacPlist, new: MacPlist, plan: Plan, id: Identity)
    requires
        plan.identity == Some(id),
        valid_serials(id.serial.serial_number@, id.serial.board_serial@),
        plan_applied(old, new, plan),
    ensures
        new.serials_valid(),
{
}

} // verus!
