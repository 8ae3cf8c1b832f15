//! What an interactive session decides: how the operator's edits change the
//! configuration and which recorded state they make void. Asking the
//! questions is left to the caller.

use crate::config::Config;
use crate::config::GroupConfig;
use crate::report::Report;
use crate::types::GroupId;
use vstd::prelude::*;
use vstd::string::StringExecFns;

verus! {

/// The choices of the main menu.
#[derive(Debug, Clone, Copy, PartialEq, Eq, Structural)]
pub enum MainMenu {
    Proceed,
    AddGroup,
    RemoveGroups,
}

/// The choices of the menu with which a configuration is made.
#[derive(Debug, Clone, Copy, PartialEq, Eq, Structural)]
pub enum CreateConfigMenu {
    AddGroup,
    RemoveGroup,
    Proceed,
}

impl MainMenu {
    /// The label of the choice.
    pub open spec fn text(&self) -> Seq<char> {
        match *self {
            MainMenu::Proceed => "proceed"@,
            MainMenu::AddGroup => "Add group"@,
            MainMenu::RemoveGroups => "Remove groups"@,
        }
    }

    /// The label under which the choice is shown.
    pub fn to_string(&self) -> (r: String)
        ensures
            r@ == self.text(),
    {
        match *self {
            MainMenu::Proceed => String::from_str("proceed"),
            MainMenu::AddGroup => String::from_str("Add group"),
            MainMenu::RemoveGroups => String::from_str("Remove groups"),
        }
    }
}

impl CreateConfigMenu {
    /// The label of the choice.
    pub open spec fn text(&self) -> Seq<char> {
        match *self {
            CreateConfigMenu::AddGroup => "Add group"@,
            CreateConfigMenu::RemoveGroup => "Remove group"@,
            CreateConfigMenu::Proceed => "Proceed"@,
        }
    }

    /// The label under which the choice is shown.
    pub fn to_string(&self) -> (r: String)
        ensures
            r@ == self.text(),
    {
        match *self {
            CreateConfigMenu::AddGroup => String::from_str("Add group"),
            CreateConfigMenu::RemoveGroup => String::from_str("Remove group"),
            CreateConfigMenu::Proceed => String::from_str("Proceed"),
        }
    }
}

/// Declares a group, in place of an earlier declaration under the same
/// identifier. Where it replaces one, what the report records of the
/// group's lookup tables and identity manager is void and is forgotten, so
/// that the next run deploys them anew; the result tells whether it did.
pub fn add_group(config: &mut Config, report: &mut Report, group_id: GroupId, group: GroupConfig) -> (replaced:
    bool)
    requires
        old(report).spec_can_invalidate(),
    ensures
        replaced == old(config).groups@.contains_key(group_id.0),
        final(config).groups@ == old(config).groups@.insert(group_id.0, group),
        final(config).misc == old(config).misc,
        final(report).lookup_tables is Some,
        final(report).identity_managers is Some,
        final(report).lookup_tables->0.groups@ == if replaced {
            old(report).lookup_tables->0.groups@.remove(group_id.0)
        } else {
            old(report).lookup_tables->0.groups@
        },
        final(report).identity_managers->0.groups@ == if replaced {
            old(report).identity_managers->0.groups@.remove(group_id.0)
        } else {
            old(report).identity_managers->0.groups@
        },
        final(report).world_id_router == old(report).world_id_router,
        final(report).semaphore_verifier == old(report).semaphore_verifier,
        final(report).insertion_verifiers == old(report).insertion_verifiers,
        final(report).deletion_verifiers == old(report).deletion_verifiers,
{
    broadcast use vstd::std_specs::btree::group_btree_axioms;

    let replaced = config.groups.insert(group_id.0, group).is_some();
    if replaced {
        report.invalidate_group_id(group_id);
    }
    replaced
}

/// Withdraws the declaration of each group of `groups`, and forgets what
/// the report records of its lookup tables and identity manager.
pub fn remove_groups(config: &mut Config, report: &mut Report, groups: &Vec<GroupId>)
    requires
        old(report).spec_can_invalidate(),
    ensures
        final(config).groups@ == old(config).groups@.remove_keys(ids_of(groups@)),
        final(config).misc == old(config).misc,
        final(report).lookup_tables is Some,
        final(report).identity_managers is Some,
        final(report).lookup_tables->0.groups@ == old(report).lookup_tables->0.groups@.remove_keys(ids_of(groups@)),
        final(report).identity_managers->0.groups@ == old(report).identity_managers->0.groups@.remove_keys(
            ids_of(groups@),
        ),
        final(report).world_id_router == old(report).world_id_router,
        final(report).semaphore_verifier == old(report).semaphore_verifier,
        final(report).insertion_verifiers == old(report).insertion_verifiers,
        final(report).deletion_verifiers == old(report).deletion_verifiers,
{
    broadcast use vstd::std_specs::btree::group_btree_axioms;

    let mut i: usize = 0;
    assert(ids_of(groups@.take(0)) =~= Set::<usize>::empty());
    assert(config.groups@.remove_keys(Set::<usize>::empty()) =~= config.groups@);
    assert(report.lookup_tables->0.groups@.remove_keys(Set::<usize>::empty())
        =~= report.lookup_tables->0.groups@);
    assert(report.identity_managers->0.groups@.remove_keys(Set::<usize>::empty())
        =~= report.identity_managers->0.groups@);
    while i < groups.len()
        invariant
            0 <= i <= groups.len(),
            report.spec_can_invalidate(),
            config.groups@ == old(config).groups@.remove_keys(ids_of(groups@.take(i as int))),
            config.misc == old(config).misc,
            report.lookup_tables->0.groups@ == old(report).lookup_tables->0.groups@.remove_keys(
                ids_of(groups@.take(i as int)),
            ),
            report.identity_managers->0.groups@ == old(report).identity_managers->0.groups@.remove_keys(
                ids_of(groups@.take(i as int)),
            ),
            report.world_id_router == old(report).world_id_router,
            report.semaphore_verifier == old(report).semaphore_verifier,
            report.insertion_verifiers == old(report).insertion_verifiers,
            report.deletion_verifiers == old(report).deletion_verifiers,
        decreases groups.len() - i,
    {
        let group_id = groups[i];
        config.groups.remove(&group_id.0);
        report.invalidate_group_id(group_id);
        proof {
            let short = groups@.take(i as int);
            let long = groups@.take(i + 1);
            let before = ids_of(short);
            let after = ids_of(long);
            assert forall|k: usize| after.contains(k) <==> (before.contains(k) || k == group_id.0) by {
                if after.contains(k) {
                    let j = choose|j: int| 0 <= j < long.len() && long[j].0 == k;
                    if j < i {
                        assert(short[j].0 == k);
                    }
                }
                if before.contains(k) {
                    let j = choose|j: int| 0 <= j < short.len() && short[j].0 == k;
                    assert(long[j].0 == k);
                }
                if k == group_id.0 {
                    assert(long[i as int].0 == k);
                }
            }
            assert(config.groups@ =~= old(config).groups@.remove_keys(after));
            assert(report.lookup_tables->0.groups@ =~= old(report).lookup_tables->0.groups@.remove_keys(after));
            assert(report.identity_managers->0.groups@ =~= old(report).identity_managers->0.groups@.remove_keys(
                after,
            ));
        }
        i += 1;
    }
    assert(groups@.take(i as int) =~= groups@);
}

/// The identifiers that occur in `groups`.
pub open spec fn ids_of(groups: Seq<GroupId>) -> Set<usize> {
    Set::new(|k: usize| exists|i: int| 0 <= i < groups.len() && groups[i].0 == k)
}

} // verus!
