//! The verifier contracts: one for each tree depth and batch size that some
//! group asks for, separately for insertion and deletion.

use crate::config::Config;
use crate::deployment::deployment_context::DeploymentContext;
use crate::deployment::deployment_context::CONTRACTS_DIR;
use crate::deployment::mtb_utils::ProverMode;
use crate::error::ConfigIssue;
use crate::error::DeployError;
use crate::forge_utils::common::ContractSpec;
use crate::forge_utils::create::ForgeCreate;
use crate::error::Warning;
use crate::keys::ascending_pairs;
use crate::keys::contains_pair;
use crate::keys::get_pair;
use crate::keys::ordered_pairs;
use crate::keys::put_pair;
use crate::keys::sorted_pair_keys;
use crate::keys::sorted_pairs;
use crate::report::contract_deployment::ContractDeployment;
use crate::types::Address;
use crate::types::BatchSize;
use crate::types::TreeDepth;
use std::collections::BTreeMap;
use vstd::prelude::*;

verus! {

/// The verifier contracts of one mode, by tree depth and batch size.
#[derive(Debug, Clone)]
pub struct Verifiers {
    pub verifiers: BTreeMap<(usize, usize), VerifierDeployment>,
}

/// One deployed verifier contract.
#[derive(Debug, Clone, Copy, PartialEq, Eq)]
pub struct VerifierDeployment {
    pub deployment: ContractDeployment,
}

/// What is to be done for one verifier variant.
#[derive(Debug, Clone, Copy, PartialEq, Eq)]
pub enum VerifierTask {
    /// The report holds the contract: it is taken over as it is.
    Reuse { tree_depth: TreeDepth, batch_size: BatchSize, deployment: VerifierDeployment },
    /// The contract has to be generated and deployed.
    Deploy { tree_depth: TreeDepth, batch_size: BatchSize },
}

/// The task for the variant `key`, given what the report records.
pub open spec fn task_for(key: (usize, usize), recorded: Map<(usize, usize), VerifierDeployment>) -> VerifierTask {
    if recorded.contains_key(key) {
        VerifierTask::Reuse {
            tree_depth: TreeDepth(key.0),
            batch_size: BatchSize(key.1),
            deployment: recorded[key],
        }
    } else {
        VerifierTask::Deploy { tree_depth: TreeDepth(key.0), batch_size: BatchSize(key.1) }
    }
}

/// One task for each variant of `keys`, in the order of `keys`.
pub open spec fn tasks_for(
    keys: Seq<(usize, usize)>,
    recorded: Map<(usize, usize), VerifierDeployment>,
) -> Seq<VerifierTask> {
    Seq::new(keys.len(), |i: int| task_for(keys[i], recorded))
}

/// One warning for each variant of `keys`, in the order of `keys`.
pub open spec fn stale_warnings(keys: Seq<(usize, usize)>, mode: ProverMode) -> Seq<Warning> {
    Seq::new(keys.len(), |i: int| Warning::StaleVerifier(mode, TreeDepth(keys[i].0), BatchSize(keys[i].1)))
}

impl Verifiers {
    /// No verifier at all.
    pub fn new() -> (r: Self)
        ensures
            r.verifiers@ == Map::<(usize, usize), VerifierDeployment>::empty(),
    {
        Self { verifiers: BTreeMap::new() }
    }

    /// The verifier addresses for one tree depth, by batch size.
    pub open spec fn addresses(&self, tree_depth: usize) -> Map<usize, Address> {
        Map::new(
            |b: usize| self.verifiers@.contains_key((tree_depth, b)),
            |b: usize| self.verifiers@[(tree_depth, b)].deployment.address,
        )
    }

    /// The verifier for `tree_depth` and `batch_size`, if it is deployed.
    pub fn find(&self, tree_depth: TreeDepth, batch_size: BatchSize) -> (r: Option<VerifierDeployment>)
        ensures
            r == if self.verifiers@.contains_key((tree_depth.0, batch_size.0)) {
                Some(self.verifiers@[(tree_depth.0, batch_size.0)])
            } else {
                None
            },
    {
        match get_pair(&self.verifiers, (tree_depth.0, batch_size.0)) {
            Some(found) => Some(*found),
            None => None,
        }
    }

    /// Takes a deployed verifier into the record.
    pub fn record(&mut self, tree_depth: TreeDepth, batch_size: BatchSize, deployment: ContractDeployment)
        ensures
            final(self).verifiers@ == old(self).verifiers@.insert(
                (tree_depth.0, batch_size.0),
                VerifierDeployment { deployment },
            ),
    {
        put_pair(&mut self.verifiers, (tree_depth.0, batch_size.0), VerifierDeployment { deployment });
    }

    /// The verifier addresses for one tree depth, by batch size.
    pub fn for_depth(&self, tree_depth: TreeDepth) -> (r: BTreeMap<usize, Address>)
        ensures
            r@ == self.addresses(tree_depth.0),
    {
        broadcast use vstd::std_specs::btree::group_btree_axioms;

        let keys = sorted_pair_keys(&self.verifiers);
        let mut r: BTreeMap<usize, Address> = BTreeMap::new();
        let mut i: usize = 0;
        while i < keys.len()
            invariant
                0 <= i <= keys.len(),
                keys@.to_set() == self.verifiers@.dom(),
                forall|b: usize|
                    #![trigger r@.contains_key(b)]
                    r@.contains_key(b) <==> exists|j: int| 0 <= j < i && keys@[j] == (tree_depth.0, b),
                forall|b: usize|
                    #![trigger r@[b]]
                    r@.contains_key(b) ==> r@[b] == self.verifiers@[(tree_depth.0, b)].deployment.address,
            decreases keys.len() - i,
        {
            let key = keys[i];
            assert(keys@.to_set().contains(keys@[i as int]));
            let ghost before = r@;
            if key.0 == tree_depth.0 {
                let found = get_pair(&self.verifiers, key).unwrap();
                r.insert(key.1, found.deployment.address);
            }
            i += 1;
            proof {
                assert forall|b: usize|
                    #![trigger r@.contains_key(b)]
                    r@.contains_key(b) <==> exists|j: int| 0 <= j < i && keys@[j] == (tree_depth.0, b) by {
                    if r@.contains_key(b) {
                        if before.contains_key(b) {
                            let j = choose|j: int| 0 <= j < i - 1 && keys@[j] == (tree_depth.0, b);
                            assert(0 <= j < i && keys@[j] == (tree_depth.0, b));
                        } else {
                            assert(keys@[i - 1] == (tree_depth.0, b));
                        }
                    }
                    if exists|j: int| 0 <= j < i && keys@[j] == (tree_depth.0, b) {
                        let j = choose|j: int| 0 <= j < i && keys@[j] == (tree_depth.0, b);
                        if j < i - 1 {
                            assert(before.contains_key(b));
                        }
                    }
                }
            }
        }
        proof {
            assert forall|b: usize| r@.contains_key(b) <==> self.addresses(tree_depth.0).contains_key(b) by {
                if r@.contains_key(b) {
                    let j = choose|j: int| 0 <= j < i && keys@[j] == (tree_depth.0, b);
                    assert(keys@.to_set().contains(keys@[j]));
                }
                if self.verifiers@.contains_key((tree_depth.0, b)) {
                    assert(keys@.to_set().contains((tree_depth.0, b)));
                    let j = choose|j: int| 0 <= j < keys@.len() && keys@[j] == (tree_depth.0, b);
                    assert(0 <= j < i && keys@[j] == (tree_depth.0, b));
                }
            }
            assert(r@ =~= self.addresses(tree_depth.0));
        }
        r
    }
}

/// Decides, for each verifier variant that the configuration needs for
/// `mode`, whether the recorded contract is taken over or a new one has to
/// be generated and deployed. The variants come in ascending order of tree
/// depth, then batch size.
pub fn deploy(config: &Config, recorded: Option<&Verifiers>, mode: ProverMode) -> (r: Vec<VerifierTask>)
    requires
        config.lists_batch_sizes(mode),
    ensures
        r@ == tasks_for(
            ordered_pairs(config.verifier_keys(mode)),
            match recorded {
                Some(v) => v.verifiers@,
                None => Map::empty(),
            },
        ),
{
    let wanted = config.unique_tree_depths_and_batch_sizes(mode);
    let keys = sorted_pairs(&wanted);
    let ghost known = match recorded {
        Some(v) => v.verifiers@,
        None => Map::empty(),
    };
    let mut out: Vec<VerifierTask> = Vec::new();
    let mut i: usize = 0;
    while i < keys.len()
        invariant
            0 <= i <= keys.len(),
            known == match recorded {
                Some(v) => v.verifiers@,
                None => Map::empty(),
            },
            out@ == tasks_for(keys@.take(i as int), known),
        decreases keys.len() - i,
    {
        let key = keys[i];
        let found = match recorded {
            Some(v) => v.find(TreeDepth(key.0), BatchSize(key.1)),
            None => None,
        };
        let task = match found {
            Some(deployment) => VerifierTask::Reuse {
                tree_depth: TreeDepth(key.0),
                batch_size: BatchSize(key.1),
                deployment,
            },
            None => VerifierTask::Deploy { tree_depth: TreeDepth(key.0), batch_size: BatchSize(key.1) },
        };
        out.push(task);
        proof {
            assert(task == task_for(key, known));
            assert(out@ =~= tasks_for(keys@.take(i + 1), known));
        }
        i += 1;
    }
    proof {
        assert(keys@.take(i as int) =~= keys@);
    }
    out
}

/// The verifiers that the report records for `mode` and that no group needs
/// any more, as warnings: they are left alone and have to be retired by
/// hand.
pub fn stale(config: &Config, recorded: &Verifiers, mode: ProverMode) -> (r: Vec<Warning>)
    requires
        config.lists_batch_sizes(mode),
    ensures
        r@ == stale_warnings(
            ordered_pairs(recorded.verifiers@.dom().difference(config.verifier_keys(mode))),
            mode,
        ),
{
    let wanted = config.unique_tree_depths_and_batch_sizes(mode);
    let keys = sorted_pair_keys(&recorded.verifiers);
    let mut out: Vec<Warning> = Vec::new();
    let ghost mut kept: Seq<(usize, usize)> = Seq::empty();
    let mut i: usize = 0;
    while i < keys.len()
        invariant
            0 <= i <= keys.len(),
            ascending_pairs(keys@),
            ascending_pairs(kept),
            out@ == stale_warnings(kept, mode),
            forall|k: (usize, usize)|
                #![trigger kept.contains(k)]
                kept.contains(k) <==> (exists|j: int| 0 <= j < i && keys@[j] == k) && !wanted@.contains(k),
        decreases keys.len() - i,
    {
        let key = keys[i];
        if !contains_pair(&wanted, key) {
            let ghost before = kept;
            out.push(Warning::StaleVerifier(mode, TreeDepth(key.0), BatchSize(key.1)));
            proof {
                kept = kept.push(key);
                assert(out@ =~= stale_warnings(kept, mode));
                assert forall|a: int, b: int| 0 <= a < b < kept.len() implies crate::keys::precedes(
                    kept[a],
                    kept[b],
                ) by {
                    if b == kept.len() - 1 {
                        assert(before.contains(before[a]));
                        let j = choose|j: int| 0 <= j < i && keys@[j] == before[a];
                        assert(crate::keys::precedes(keys@[j], keys@[i as int]));
                    }
                }
                assert forall|k: (usize, usize)|
                    #![trigger kept.contains(k)]
                    kept.contains(k) <==> (exists|j: int| 0 <= j < i + 1 && keys@[j] == k) && !wanted@.contains(
                        k,
                    ) by {
                    if kept.contains(k) {
                        let n = choose|n: int| 0 <= n < kept.len() && kept[n] == k;
                        if n < before.len() {
                            assert(before[n] == k);
                            assert(before.contains(k));
                            let j = choose|j: int| 0 <= j < i && keys@[j] == k;
                            assert(0 <= j < i + 1 && keys@[j] == k);
                        } else {
                            assert(keys@[i as int] == k);
                        }
                    }
                    if (exists|j: int| 0 <= j < i + 1 && keys@[j] == k) && !wanted@.contains(k) {
                        let j = choose|j: int| 0 <= j < i + 1 && keys@[j] == k;
                        if j < i {
                            assert(before.contains(k));
                            let n = choose|n: int| 0 <= n < before.len() && before[n] == k;
                            assert(kept[n] == k);
                        } else {
                            assert(kept[kept.len() - 1] == k);
                        }
                    }
                }
            }
        } else {
            proof {
                assert forall|k: (usize, usize)|
                    #![trigger kept.contains(k)]
                    kept.contains(k) <==> (exists|j: int| 0 <= j < i + 1 && keys@[j] == k) && !wanted@.contains(
                        k,
                    ) by {
                    if kept.contains(k) {
                        let j = choose|j: int| 0 <= j < i && keys@[j] == k;
                        assert(0 <= j < i + 1 && keys@[j] == k);
                    }
                    if (exists|j: int| 0 <= j < i + 1 && keys@[j] == k) && !wanted@.contains(k) {
                        let j = choose|j: int| 0 <= j < i + 1 && keys@[j] == k;
                        assert(j < i);
                    }
                }
            }
        }
        i += 1;
    }
    proof {
        let goal = recorded.verifiers@.dom().difference(config.verifier_keys(mode));
        assert forall|k: (usize, usize)| kept.to_set().contains(k) <==> goal.contains(k) by {
            if kept.contains(k) {
                let j = choose|j: int| 0 <= j < i && keys@[j] == k;
                assert(keys@.to_set().contains(keys@[j]));
            }
            if goal.contains(k) {
                assert(keys@.to_set().contains(k));
                let j = choose|j: int| 0 <= j < keys@.len() && keys@[j] == k;
                assert(0 <= j < i && keys@[j] == k);
            }
        }
        assert(kept.to_set() =~= goal);
        crate::keys::lemma_ordered_pairs(kept);
    }
    out
}

/// What is to be done to have a verifier contract deployed.
#[derive(Debug)]
pub enum VerifierRequest {
    /// The report holds the contract: nothing is deployed.
    Existing(ContractDeployment),
    /// The contract is deployed with this request.
    Create(ForgeCreate),
}

/// Decides how the verifier for `tree_depth` and `batch_size` comes to be
/// deployed: a recorded contract is taken over and no nonce is used; else
/// the contract `Verifier` in the generated source file is deployed from
/// the directory that holds the file, without source verification.
///
/// Fails where a contract has to be deployed and the source file has no
/// parent directory.
pub fn deploy_verifier_contract(
    context: &mut DeploymentContext,
    recorded: Option<&Verifiers>,
    verifier_contract: String,
    verifier_contract_parent: Option<&str>,
    tree_depth: TreeDepth,
    batch_size: BatchSize,
) -> (r: Result<VerifierRequest, DeployError>)
    ensures
        if recorded_verifiers_of(recorded).contains_key((tree_depth.0, batch_size.0)) {
            &&& r == Ok::<VerifierRequest, DeployError>(
                VerifierRequest::Existing(
                    recorded_verifiers_of(recorded)[(tree_depth.0, batch_size.0)].deployment,
                ),
            )
            &&& *final(context) == *old(context)
        } else if verifier_contract_parent is None {
            &&& r == Err::<VerifierRequest, DeployError>(DeployError::Config(ConfigIssue::IncompleteRequest))
            &&& *final(context) == *old(context)
        } else {
            &&& r matches Ok(VerifierRequest::Create(request))
            &&& old(context).is_issued(request)
            &&& final(context).has_issued_after(*old(context))
            &&& request.contract_spec.path == Some(verifier_contract)
            &&& request.contract_spec.name@ == "Verifier"@
            &&& request.cwd is Some
            &&& request.cwd->0@ == CONTRACTS_DIR@
            &&& request.override_contract_source is Some
            &&& request.override_contract_source->0@ == verifier_contract_parent->0@
            &&& request.skip_verification
            &&& request.constructor_args@.len() == 0
            &&& request.external_deps@.len() == 0
        },
{
    let found = match recorded {
        Some(verifiers) => verifiers.find(tree_depth, batch_size),
        None => None,
    };
    match found {
        Some(existing_deployment) => {
            return Ok(VerifierRequest::Existing(existing_deployment.deployment));
        },
        None => {},
    }
    let parent = match verifier_contract_parent {
        Some(parent) => parent,
        None => {
            return Err(DeployError::Config(ConfigIssue::IncompleteRequest));
        },
    };
    let contract_spec = ContractSpec::path_name(verifier_contract, "Verifier");
    let request = context.forge_create(contract_spec).with_cwd(CONTRACTS_DIR).with_override_contract_source(
        parent,
    ).skip_verification();
    Ok(VerifierRequest::Create(request))
}

/// The verifiers that are recorded, if any are.
pub open spec fn recorded_verifiers_of(recorded: Option<&Verifiers>) -> Map<(usize, usize), VerifierDeployment> {
    match recorded {
        Some(v) => v.verifiers@,
        None => Map::empty(),
    }
}

/// Nothing is deployed twice: where the report records every variant that
/// is needed, every task takes the recorded contract over.
pub proof fn lemma_recorded_variants_are_reused(
    keys: Seq<(usize, usize)>,
    recorded: Map<(usize, usize), VerifierDeployment>,
)
    requires
        forall|i: int| 0 <= i < keys.len() ==> recorded.contains_key(#[trigger] keys[i]),
    ensures
        forall|i: int|
            0 <= i < keys.len() ==> #[trigger] tasks_for(keys, recorded)[i] == (VerifierTask::Reuse {
                tree_depth: TreeDepth(keys[i].0),
                batch_size: BatchSize(keys[i].1),
                deployment: recorded[keys[i]],
            }),
{
}

} // verus!
