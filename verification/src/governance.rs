//! Governance, delegation and staking response records, and the plain
//! rendering of a proposal's decoded content.
//!
//! Fetching these from the chain's gRPC endpoints is plumbing outside the
//! library; the records and every decision over them live here.

use vstd::prelude::*;
use vstd::string::StringExecFns;
use crate::strings::spec_dec_str;
use crate::strings::u128_to_decimal;

verus! {

/// One governance proposal, as served to the front-end.
pub struct ProposalInfo {
    pub proposal_id: u64,
    pub content: Option<ProposalContent>,
    pub status: i32,
    pub status_value: i32,
    pub final_tally_result: Option<TallyResult>,
    pub submit_time: Option<String>,
    pub deposit_end_time: Option<String>,
    pub total_deposit: Vec<String>,
    pub voting_start_time: Option<String>,
    pub voting_end_time: Option<String>,
    pub last_updated: u64,
}

/// A proposal's decoded content, one optional field per content kind.
pub struct ProposalContent {
    pub type_url: String,
    pub title: String,
    pub description: String,
    pub changes: Option<Vec<ParamChange>>,
    pub recipient: Option<String>,
    pub amount: Option<Vec<Coin>>,
    pub plan: Option<UpgradePlan>,
    pub subject_client_id: Option<String>,
    pub substitute_client_id: Option<String>,
    pub metadata: Option<SerializableMetadata>,
    pub erc20address: Option<String>,
}

/// A proposal's final tally.
pub struct TallyResult {
    pub yes: String,
    pub abstain: String,
    pub no: String,
    pub no_with_veto: String,
}

/// One parameter change of a parameter-change proposal.
pub struct ParamChange {
    pub subspace: String,
    pub key: String,
    pub value: String,
}

/// The plan of a software-upgrade proposal.
pub struct UpgradePlan {
    pub name: String,
    pub height: i64,
    pub info: String,
}

/// A text proposal in serializable shape.
pub struct SerializableTextProposal {
    pub title: String,
    pub description: String,
}

/// A parameter-change proposal in serializable shape.
pub struct SerializableParameterChangeProposal {
    pub title: String,
    pub description: String,
    pub changes: Vec<ParamChange>,
}

/// A coin amount with its denomination.
pub struct Coin {
    pub amount: String,
    pub denom: String,
}

/// Token metadata of a register-coin proposal.
pub struct SerializableMetadata {
    pub description: String,
    pub denom_units: Vec<SerializableDenomUnit>,
    pub base: String,
    pub display: String,
    pub name: String,
    pub symbol: String,
}

/// One denomination unit of token metadata.
pub struct SerializableDenomUnit {
    pub denom: String,
    pub exponent: u32,
    pub aliases: Vec<String>,
}

/// A cancel-software-upgrade proposal in serializable shape.
pub struct SerializableCancelSoftwareUpgradeProposal {
    pub title: String,
    pub description: String,
}

/// A community-pool-spend proposal in serializable shape.
pub struct SerializableCommunityPoolSpendProposal {
    pub title: String,
    pub description: String,
    pub recipient: String,
    pub amount: Vec<Coin>,
}

/// A software-upgrade proposal in serializable shape.
pub struct SerializableSoftwareUpgradeProposal {
    pub title: String,
    pub description: String,
    pub plan: Option<UpgradePlan>,
}

/// A client-update proposal in serializable shape.
pub struct SerializableClientUpdateProposal {
    pub title: String,
    pub description: String,
    pub subject_client_id: String,
    pub substitute_client_id: String,
}

/// A register-coin proposal in serializable shape.
pub struct SerializableRegisterCoinProposal {
    pub title: String,
    pub description: String,
    pub metadata: Option<SerializableMetadata>,
}

/// A register-erc20 proposal in serializable shape.
pub struct SerializableRegisterErc20Proposal {
    pub title: String,
    pub description: String,
    pub erc20address: String,
}

/// A delegator's full delegation report.
pub struct DelegatorResponse {
    pub delegations: Vec<DelegationResponse>,
    pub unbonding_delegations: Option<Vec<UnbondingDelegation>>,
    pub rewards: RewardsResponse,
}

/// One delegation with its balance.
pub struct DelegationResponse {
    pub delegation: DelegationInfo,
    pub balance: Balance,
}

/// The addresses and shares of one delegation.
pub struct DelegationInfo {
    pub delegator_address: String,
    pub validator_address: String,
    pub shares: String,
    pub last_updated: u64,
}

/// A token balance.
pub struct Balance {
    pub denom: String,
    pub amount: String,
}

/// Rewards per validator and in total.
pub struct RewardsResponse {
    pub rewards: Vec<ValidatorReward>,
    pub total: Vec<Balance>,
}

/// The rewards accrued with one validator.
pub struct ValidatorReward {
    pub validator_address: String,
    pub reward: Vec<Balance>,
}

/// One unbonding delegation entry.
pub struct UnbondingDelegation {
    pub delegator_address: String,
    pub validator_address: String,
    pub creation_height: i64,
    pub completion_time: String,
    pub initial_balance: String,
    pub balance: String,
}

/// The cached staking summary.
pub struct StakingInfo {
    pub apr: String,
    pub last_updated: u64,
}

/// The validator listing query: an active filter or one operator.
pub struct ValidatorQuery {
    pub active: Option<bool>,
    pub operator_address: Option<String>,
}

/// The proposal listing query.
pub struct ProposalQuery {
    pub active: Option<bool>,
}

/// The delegation query: one delegator address.
pub struct DelegatorQuery {
    pub address: String,
}

impl ProposalInfo {
    /// A proposal is active exactly while it is in its voting period.
    pub fn is_active(&self) -> (r: bool)
        ensures
            r == (self.status == 2),
    {
        self.status == 2
    }
}

/// String equality against a literal.
fn str_eq(a: &String, b: &str) -> (r: bool)
    ensures
        r == (a@ == b@),
{
    let bs = String::from_str(b);
    a.eq(&bs)
}

/// The rendering of one parameter change.
pub open spec fn spec_change_line(c: ParamChange) -> Seq<char> {
    "Subspace: "@ + c.subspace@ + ", Key: "@ + c.key@ + ", Value: "@ + c.value@
}

/// Parameter changes joined by line breaks.
pub open spec fn spec_changes_join(s: Seq<ParamChange>) -> Seq<char>
    decreases s.len(),
{
    if s.len() == 0 {
        Seq::empty()
    } else if s.len() == 1 {
        spec_change_line(s[0])
    } else {
        spec_changes_join(s.drop_last()) + "\n"@ + spec_change_line(s.last())
    }
}

/// The rendering of one coin.
pub open spec fn spec_coin_str(c: Coin) -> Seq<char> {
    c.amount@ + c.denom@
}

/// Coins joined by commas.
pub open spec fn spec_coins_join(s: Seq<Coin>) -> Seq<char>
    decreases s.len(),
{
    if s.len() == 0 {
        Seq::empty()
    } else if s.len() == 1 {
        spec_coin_str(s[0])
    } else {
        spec_coins_join(s.drop_last()) + ", "@ + spec_coin_str(s.last())
    }
}

/// The rendering of token metadata: its scalar fields, labelled.
pub open spec fn spec_metadata_str(m: SerializableMetadata) -> Seq<char> {
    "description: "@ + m.description@ + ", base: "@ + m.base@ + ", display: "@ + m.display@
        + ", name: "@ + m.name@ + ", symbol: "@ + m.symbol@
}

/// The decimal rendering of a signed height.
pub open spec fn spec_height_str(v: i64) -> Seq<char> {
    if v < 0 {
        "-"@ + spec_dec_str((-(v as int)) as nat)
    } else {
        spec_dec_str(v as nat)
    }
}

/// Renders a signed height in decimal.
fn height_to_decimal(v: i64) -> (r: String)
    ensures
        r@ == spec_height_str(v),
{
    if v >= 0 {
        u128_to_decimal(v as u128)
    } else {
        let mag: u128 = (-(v + 1)) as u128 + 1;
        let s = String::from_str("-");
        s.concat(u128_to_decimal(mag).as_str())
    }
}

/// Joins parameter changes with line breaks.
fn changes_join(s: &Vec<ParamChange>) -> (r: String)
    ensures
        r@ == spec_changes_join(s@),
{
    let mut out = String::new();
    let mut i: usize = 0;
    while i < s.len()
        invariant
            0 <= i <= s@.len(),
            out@ == spec_changes_join(s@.take(i as int)),
        decreases s@.len() - i,
    {
        if i > 0 {
            out.append("\n");
        }
        out.append("Subspace: ");
        out.append(s[i].subspace.as_str());
        out.append(", Key: ");
        out.append(s[i].key.as_str());
        out.append(", Value: ");
        out.append(s[i].value.as_str());
        proof {
            let pre = s@.take(i as int);
            let post = s@.take(i + 1);
            assert(post.drop_last() =~= pre);
            assert(post.last() == s@[i as int]);
            assert(out@ =~= spec_changes_join(post));
        }
        i += 1;
    }
    proof {
        assert(s@.take(s@.len() as int) =~= s@);
    }
    out
}

/// Joins coins with commas.
fn coins_join(s: &Vec<Coin>) -> (r: String)
    ensures
        r@ == spec_coins_join(s@),
{
    let mut out = String::new();
    let mut i: usize = 0;
    while i < s.len()
        invariant
            0 <= i <= s@.len(),
            out@ == spec_coins_join(s@.take(i as int)),
        decreases s@.len() - i,
    {
        if i > 0 {
            out.append(", ");
        }
        out.append(s[i].amount.as_str());
        out.append(s[i].denom.as_str());
        proof {
            let pre = s@.take(i as int);
            let post = s@.take(i + 1);
            assert(post.drop_last() =~= pre);
            assert(post.last() == s@[i as int]);
            assert(out@ =~= spec_coins_join(post));
        }
        i += 1;
    }
    proof {
        assert(s@.take(s@.len() as int) =~= s@);
    }
    out
}

/// The plain rendering of a proposal's content for each known kind.
pub open spec fn spec_decoded_value(c: ProposalContent) -> Option<Seq<char>> {
    let head = "Title: "@ + c.title@ + "\nDescription: "@ + c.description@;
    if c.type_url@ == "/cosmos.gov.v1beta1.TextProposal"@ {
        Some(head)
    } else if c.type_url@ == "/cosmos.params.v1beta1.ParameterChangeProposal"@ {
        Some(
            head + "\nChanges:\n"@ + (if c.changes is Some {
                spec_changes_join(c.changes->0@)
            } else {
                Seq::empty()
            }),
        )
    } else if c.type_url@ == "/cosmos.upgrade.v1beta1.CancelSoftwareUpgradeProposal"@ {
        Some(head)
    } else if c.type_url@ == "/cosmos.distribution.v1beta1.CommunityPoolSpendProposal"@ {
        Some(
            head + "\nRecipient: "@ + (if c.recipient is Some {
                c.recipient->0@
            } else {
                Seq::empty()
            }) + "\nAmount: "@ + (if c.amount is Some {
                spec_coins_join(c.amount->0@)
            } else {
                Seq::empty()
            }),
        )
    } else if c.type_url@ == "/cosmos.upgrade.v1beta1.SoftwareUpgradeProposal"@ {
        Some(
            head + (if c.plan is Some {
                "\nPlan:\n  Name: "@ + c.plan->0.name@ + "\n  Height: "@ + spec_height_str(
                    c.plan->0.height,
                ) + "\n  Info: "@ + c.plan->0.info@
            } else {
                Seq::empty()
            }),
        )
    } else if c.type_url@ == "/ibc.core.client.v1.ClientUpdateProposal"@ {
        Some(
            head + "\nSubject Client ID: "@ + (if c.subject_client_id is Some {
                c.subject_client_id->0@
            } else {
                Seq::empty()
            }) + "\nSubstitute Client ID: "@ + (if c.substitute_client_id is Some {
                c.substitute_client_id->0@
            } else {
                Seq::empty()
            }),
        )
    } else if c.type_url@ == "/canto.erc20.v1.RegisterCoinProposal"@ {
        Some(
            head + (if c.metadata is Some {
                "\nMetadata: "@ + spec_metadata_str(c.metadata->0)
            } else {
                Seq::empty()
            }),
        )
    } else if c.type_url@ == "/canto.erc20.v1.RegisterErc20Proposal"@ {
        Some(
            head + "\nERC20 Address: "@ + (if c.erc20address is Some {
                c.erc20address->0@
            } else {
                Seq::empty()
            }),
        )
    } else {
        None
    }
}

impl ProposalContent {
    /// Renders the content in plain text, by its kind; an unknown kind is
    /// an error.
    pub fn get_decoded_value(&self) -> (r: Result<String, String>)
        ensures
            r matches Ok(s) ==> Some(s@) == spec_decoded_value(*self),
            r is Ok <==> spec_decoded_value(*self) is Some,
    {
        let mut head = String::new();
        head.append("Title: ");
        head.append(self.title.as_str());
        head.append("\nDescription: ");
        head.append(self.description.as_str());
        if str_eq(&self.type_url, "/cosmos.gov.v1beta1.TextProposal") {
            Ok(head)
        } else if str_eq(&self.type_url, "/cosmos.params.v1beta1.ParameterChangeProposal") {
            let mut s = head;
            s.append("\nChanges:\n");
            match &self.changes {
                Some(cs) => {
                    let joined = changes_join(cs);
                    s.append(joined.as_str());
                },
                None => {},
            }
            Ok(s)
        } else if str_eq(
            &self.type_url,
            "/cosmos.upgrade.v1beta1.CancelSoftwareUpgradeProposal",
        ) {
            Ok(head)
        } else if str_eq(
            &self.type_url,
            "/cosmos.distribution.v1beta1.CommunityPoolSpendProposal",
        ) {
            let mut s = head;
            s.append("\nRecipient: ");
            match &self.recipient {
                Some(rc) => {
                    s.append(rc.as_str());
                },
                None => {},
            }
            s.append("\nAmount: ");
            match &self.amount {
                Some(cs) => {
                    let joined = coins_join(cs);
                    s.append(joined.as_str());
                },
                None => {},
            }
            Ok(s)
        } else if str_eq(&self.type_url, "/cosmos.upgrade.v1beta1.SoftwareUpgradeProposal") {
            let mut s = head;
            match &self.plan {
                Some(p) => {
                    s.append("\nPlan:\n  Name: ");
                    s.append(p.name.as_str());
                    s.append("\n  Height: ");
                    let h = height_to_decimal(p.height);
                    s.append(h.as_str());
                    s.append("\n  Info: ");
                    s.append(p.info.as_str());
                },
                None => {},
            }
            Ok(s)
        } else if str_eq(&self.type_url, "/ibc.core.client.v1.ClientUpdateProposal") {
            let mut s = head;
            s.append("\nSubject Client ID: ");
            match &self.subject_client_id {
                Some(v) => {
                    s.append(v.as_str());
                },
                None => {},
            }
            s.append("\nSubstitute Client ID: ");
            match &self.substitute_client_id {
                Some(v) => {
                    s.append(v.as_str());
                },
                None => {},
            }
            Ok(s)
        } else if str_eq(&self.type_url, "/canto.erc20.v1.RegisterCoinProposal") {
            let mut s = head;
            match &self.metadata {
                Some(m) => {
                    s.append("\nMetadata: ");
                    s.append("description: ");
                    s.append(m.description.as_str());
                    s.append(", base: ");
                    s.append(m.base.as_str());
                    s.append(", display: ");
                    s.append(m.display.as_str());
                    s.append(", name: ");
                    s.append(m.name.as_str());
                    s.append(", symbol: ");
                    s.append(m.symbol.as_str());
                },
                None => {},
            }
            Ok(s)
        } else if str_eq(&self.type_url, "/canto.erc20.v1.RegisterErc20Proposal") {
            let mut s = head;
            s.append("\nERC20 Address: ");
            match &self.erc20address {
                Some(v) => {
                    s.append(v.as_str());
                },
                None => {},
            }
            Ok(s)
        } else {
            Err(String::from_str("Unknown proposal type"))
        }
    }
}

} // verus!
