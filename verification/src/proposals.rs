//! Decoding governance proposal payloads.
//!
//! A proposal's content arrives as a protobuf `Any`: a type URL and raw
//! bytes.  The byte decoding itself is done by the generated protobuf
//! code and is taken on trust, one wrapper per payload kind, each result
//! named as a function of the bytes alone; the dispatch over the type URL
//! and everything built from the decoded fields is verified.

use vstd::prelude::*;
use vstd::string::StringExecFns;
use crate::governance::Coin;
use crate::governance::ParamChange;
use crate::governance::ProposalContent;
use crate::governance::ProposalInfo;
use crate::governance::SerializableDenomUnit;
use crate::governance::SerializableMetadata;
use crate::governance::SerializableTextProposal;
use crate::governance::TallyResult;
use crate::governance::UpgradePlan;
use prost::Message;

verus! {

/// A protobuf `Any` in plain shape: its type URL and its payload bytes.
pub struct ProtoAny {
    pub type_url: String,
    pub value: Vec<u8>,
}

/// What the generated decoder reads out of text-proposal bytes: title and
/// description, or nothing for malformed bytes.
pub uninterp spec fn decoded_text_proposal(b: Seq<u8>) -> Option<(Seq<char>, Seq<char>)>;

/// Relies on the prost-generated decoding of `cosmos.gov.v1beta1.TextProposal`;
/// the result depends on the bytes alone.
#[verifier::external_body]
fn decode_text_proposal(b: &Vec<u8>) -> (r: Option<SerializableTextProposal>)
    ensures
        r matches Some(p) ==> decoded_text_proposal(b@) == Some((p.title@, p.description@)),
        r is Some <==> decoded_text_proposal(b@) is Some,
{
    match cosmos_sdk_proto_althea::cosmos::gov::v1beta1::TextProposal::decode(b.as_slice()) {
        Ok(d) => Some(SerializableTextProposal { title: d.title, description: d.description }),
        Err(_) => None,
    }
}

/// What the generated decoder reads out of parameter-change bytes: title,
/// description and the change triples.
pub uninterp spec fn decoded_param_change_proposal(b: Seq<u8>) -> Option<
    (Seq<char>, Seq<char>, Seq<(Seq<char>, Seq<char>, Seq<char>)>),
>;

/// Relies on the prost-generated decoding of
/// `cosmos.params.v1beta1.ParameterChangeProposal`; the result depends on
/// the bytes alone.
#[verifier::external_body]
fn decode_param_change_proposal(b: &Vec<u8>) -> (r: Option<
    (String, String, Vec<ParamChange>),
>)
    ensures
        r matches Some(p) ==> (decoded_param_change_proposal(b@) matches Some(t) && p.0@ == t.0
            && p.1@ == t.1 && p.2@.len() == t.2.len() && (forall|i: int|
            0 <= i < t.2.len() ==> (#[trigger] p.2@[i]).subspace@ == t.2[i].0 && p.2@[i].key@
                == t.2[i].1 && p.2@[i].value@ == t.2[i].2)),
        r is Some <==> decoded_param_change_proposal(b@) is Some,
{
    match cosmos_sdk_proto_althea::cosmos::params::v1beta1::ParameterChangeProposal::decode(
        b.as_slice(),
    ) {
        Ok(d) => Some((d.title, d.description, d.changes.into_iter().map(
            |c| ParamChange { subspace: c.subspace, key: c.key, value: c.value },
        ).collect())),
        Err(_) => None,
    }
}

/// What the generated decoder reads out of cancel-software-upgrade bytes.
pub uninterp spec fn decoded_cancel_upgrade_proposal(b: Seq<u8>) -> Option<
    (Seq<char>, Seq<char>),
>;

/// Relies on the prost-generated decoding of
/// `cosmos.upgrade.v1beta1.CancelSoftwareUpgradeProposal`; the result
/// depends on the bytes alone.
#[verifier::external_body]
fn decode_cancel_upgrade_proposal(b: &Vec<u8>) -> (r: Option<(String, String)>)
    ensures
        r matches Some(p) ==> decoded_cancel_upgrade_proposal(b@) == Some((p.0@, p.1@)),
        r is Some <==> decoded_cancel_upgrade_proposal(b@) is Some,
{
    match cosmos_sdk_proto_althea::cosmos::upgrade::v1beta1::CancelSoftwareUpgradeProposal::decode(
        b.as_slice(),
    ) {
        Ok(d) => Some((d.title, d.description)),
        Err(_) => None,
    }
}

/// What the generated decoder reads out of community-pool-spend bytes:
/// title, description, recipient and the coin amounts.
pub uninterp spec fn decoded_community_spend_proposal(b: Seq<u8>) -> Option<
    (Seq<char>, Seq<char>, Seq<char>, Seq<(Seq<char>, Seq<char>)>),
>;

/// Relies on the prost-generated decoding of
/// `cosmos.distribution.v1beta1.CommunityPoolSpendProposal`; the result
/// depends on the bytes alone.
#[verifier::external_body]
fn decode_community_spend_proposal(b: &Vec<u8>) -> (r: Option<
    (String, String, String, Vec<Coin>),
>)
    ensures
        r matches Some(p) ==> (decoded_community_spend_proposal(b@) matches Some(t) && p.0@
            == t.0 && p.1@ == t.1 && p.2@ == t.2 && p.3@.len() == t.3.len() && (forall|i: int|
            0 <= i < t.3.len() ==> (#[trigger] p.3@[i]).amount@ == t.3[i].0 && p.3@[i].denom@
                == t.3[i].1)),
        r is Some <==> decoded_community_spend_proposal(b@) is Some,
{
    match cosmos_sdk_proto_althea::cosmos::distribution::v1beta1::CommunityPoolSpendProposal::decode(
        b.as_slice(),
    ) {
        Ok(d) => Some((d.title, d.description, d.recipient, d.amount.into_iter().map(
            |c| Coin { amount: c.amount, denom: c.denom },
        ).collect())),
        Err(_) => None,
    }
}

/// What the generated decoder reads out of software-upgrade bytes: title,
/// description and the optional plan as name, height and info.
pub uninterp spec fn decoded_software_upgrade_proposal(b: Seq<u8>) -> Option<
    (Seq<char>, Seq<char>, Option<(Seq<char>, i64, Seq<char>)>),
>;

/// Relies on the prost-generated decoding of
/// `cosmos.upgrade.v1beta1.SoftwareUpgradeProposal`; the result depends
/// on the bytes alone.
#[verifier::external_body]
fn decode_software_upgrade_proposal(b: &Vec<u8>) -> (r: Option<
    (String, String, Option<UpgradePlan>),
>)
    ensures
        r matches Some(p) ==> (decoded_software_upgrade_proposal(b@) matches Some(t) && p.0@
            == t.0 && p.1@ == t.1 && (p.2 is Some <==> t.2 is Some) && (p.2 matches Some(pl)
            ==> pl.name@ == (t.2->0).0 && pl.height == (t.2->0).1 && pl.info@ == (t.2->0).2)),
        r is Some <==> decoded_software_upgrade_proposal(b@) is Some,
{
    match cosmos_sdk_proto_althea::cosmos::upgrade::v1beta1::SoftwareUpgradeProposal::decode(
        b.as_slice(),
    ) {
        Ok(d) => Some((d.title, d.description, d.plan.map(
            |p| UpgradePlan { name: p.name, height: p.height, info: p.info },
        ))),
        Err(_) => None,
    }
}

/// What the generated decoder reads out of client-update bytes.
pub uninterp spec fn decoded_client_update_proposal(b: Seq<u8>) -> Option<
    (Seq<char>, Seq<char>, Seq<char>, Seq<char>),
>;

/// Relies on the prost-generated decoding of
/// `ibc.core.client.v1.ClientUpdateProposal`; the result depends on the
/// bytes alone.
#[verifier::external_body]
fn decode_client_update_proposal(b: &Vec<u8>) -> (r: Option<
    (String, String, String, String),
>)
    ensures
        r matches Some(p) ==> decoded_client_update_proposal(b@) == Some(
            (p.0@, p.1@, p.2@, p.3@),
        ),
        r is Some <==> decoded_client_update_proposal(b@) is Some,
{
    match cosmos_sdk_proto_althea::ibc::core::client::v1::ClientUpdateProposal::decode(
        b.as_slice(),
    ) {
        Ok(d) => Some((d.title, d.description, d.subject_client_id, d.substitute_client_id)),
        Err(_) => None,
    }
}

/// What the generated decoder reads out of register-coin bytes: title,
/// description and the scalar metadata fields, when metadata is present.
pub uninterp spec fn decoded_register_coin_proposal(b: Seq<u8>) -> Option<
    (Seq<char>, Seq<char>, Option<(Seq<char>, Seq<char>, Seq<char>, Seq<char>, Seq<char>)>),
>;

/// Relies on the prost-generated decoding of
/// `canto.erc20.v1.RegisterCoinProposal`; the result depends on the bytes
/// alone.  The scalar metadata fields are tied by name; the denomination
/// units are carried over as decoded.
#[verifier::external_body]
fn decode_register_coin_proposal(b: &Vec<u8>) -> (r: Option<
    (String, String, Option<SerializableMetadata>),
>)
    ensures
        r matches Some(p) ==> (decoded_register_coin_proposal(b@) matches Some(t) && p.0@ == t.0
            && p.1@ == t.1 && (p.2 is Some <==> t.2 is Some) && (p.2 matches Some(m)
            ==> m.description@ == (t.2->0).0 && m.base@ == (t.2->0).1 && m.display@ == (t.2->0).2
                && m.name@ == (t.2->0).3 && m.symbol@ == (t.2->0).4)),
        r is Some <==> decoded_register_coin_proposal(b@) is Some,
{
    match althea_proto::canto::erc20::v1::RegisterCoinProposal::decode(b.as_slice()) {
        Ok(d) => Some((d.title, d.description, d.metadata.map(|m| SerializableMetadata {
            description: m.description, base: m.base, display: m.display, name: m.name,
            symbol: m.symbol, denom_units: m.denom_units.into_iter().map(|u| {
                SerializableDenomUnit { denom: u.denom, exponent: u.exponent, aliases: u.aliases }
            }).collect(),
        }))),
        Err(_) => None,
    }
}

/// What the generated decoder reads out of register-erc20 bytes.
pub uninterp spec fn decoded_register_erc20_proposal(b: Seq<u8>) -> Option<
    (Seq<char>, Seq<char>, Seq<char>),
>;

/// Relies on the prost-generated decoding of
/// `canto.erc20.v1.RegisterErc20Proposal`; the result depends on the
/// bytes alone.
#[verifier::external_body]
fn decode_register_erc20_proposal(b: &Vec<u8>) -> (r: Option<(String, String, String)>)
    ensures
        r matches Some(p) ==> decoded_register_erc20_proposal(b@) == Some((p.0@, p.1@, p.2@)),
        r is Some <==> decoded_register_erc20_proposal(b@) is Some,
{
    match althea_proto::canto::erc20::v1::RegisterErc20Proposal::decode(b.as_slice()) {
        Ok(d) => Some((d.title, d.description, d.erc20address)),
        Err(_) => None,
    }
}

/// What a calendar rendering of a timestamp looks like: the RFC 3339
/// string with nanosecond precision in UTC, a function of the seconds
/// alone.
pub uninterp spec fn rfc3339_of(secs: int) -> Option<Seq<char>>;

/// Relies on chrono's `DateTime::from_timestamp` and
/// `to_rfc3339_opts(SecondsFormat::Nanos, true)`: a calendar rendering in
/// UTC, defined for every in-range timestamp and depending on the seconds
/// alone.
#[verifier::external_body]
pub fn rfc3339_utc(secs: i64) -> (r: Option<String>)
    ensures
        r matches Some(s) ==> rfc3339_of(secs as int) == Some(s@),
        r is Some <==> rfc3339_of(secs as int) is Some,
{
    match chrono::DateTime::from_timestamp(secs, 0) {
        Some(dt) => Some(dt.to_rfc3339_opts(chrono::SecondsFormat::Nanos, true)),
        None => None,
    }
}

/// String equality against a literal.
fn str_eq(a: &String, b: &str) -> (r: bool)
    ensures
        r == (a@ == b@),
{
    let bs = String::from_str(b);
    a.eq(&bs)
}

/// Decodes one proposal content payload by its type URL; a kind outside
/// the known eight is an error naming the URL.
pub fn decode_proposal_content(input: &ProtoAny) -> (r: Result<ProposalContent, String>)
    ensures
        input.type_url@ == "/cosmos.gov.v1beta1.TextProposal"@ ==> ((r is Ok
            <==> decoded_text_proposal(input.value@) is Some) && (r matches Ok(c) ==> c.type_url@
            == input.type_url@ && c.title@ == (decoded_text_proposal(input.value@)->0).0
            && c.description@ == (decoded_text_proposal(input.value@)->0).1 && c.changes is None
            && c.recipient is None && c.amount is None && c.plan is None && c.metadata is None
            && c.erc20address is None)),
        input.type_url@ == "/cosmos.params.v1beta1.ParameterChangeProposal"@ ==> ((r is Ok
            <==> decoded_param_change_proposal(input.value@) is Some) && (r matches Ok(c)
            ==> c.type_url@ == input.type_url@ && c.title@ == (decoded_param_change_proposal(
            input.value@,
        )->0).0 && c.description@ == (decoded_param_change_proposal(input.value@)->0).1
            && c.changes is Some && c.changes->0@.len() == (decoded_param_change_proposal(
            input.value@,
        )->0).2.len())),
        input.type_url@ == "/cosmos.upgrade.v1beta1.CancelSoftwareUpgradeProposal"@ ==> ((r
            is Ok <==> decoded_cancel_upgrade_proposal(input.value@) is Some) && (r matches Ok(c)
            ==> c.type_url@ == input.type_url@ && c.title@ == (decoded_cancel_upgrade_proposal(
            input.value@,
        )->0).0 && c.description@ == (decoded_cancel_upgrade_proposal(input.value@)->0).1)),
        input.type_url@ == "/cosmos.distribution.v1beta1.CommunityPoolSpendProposal"@ ==> ((r
            is Ok <==> decoded_community_spend_proposal(input.value@) is Some) && (r matches Ok(c)
            ==> c.type_url@ == input.type_url@ && c.title@ == (decoded_community_spend_proposal(
            input.value@,
        )->0).0 && c.description@ == (decoded_community_spend_proposal(input.value@)->0).1
            && c.recipient is Some && c.recipient->0@ == (decoded_community_spend_proposal(
            input.value@,
        )->0).2 && c.amount is Some)),
        input.type_url@ == "/cosmos.upgrade.v1beta1.SoftwareUpgradeProposal"@ ==> ((r is Ok
            <==> decoded_software_upgrade_proposal(input.value@) is Some) && (r matches Ok(c)
            ==> c.type_url@ == input.type_url@ && c.title@ == (decoded_software_upgrade_proposal(
            input.value@,
        )->0).0 && c.description@ == (decoded_software_upgrade_proposal(input.value@)->0).1 && (
        c.plan is Some <==> (decoded_software_upgrade_proposal(input.value@)->0).2 is Some))),
        input.type_url@ == "/ibc.core.client.v1.ClientUpdateProposal"@ ==> ((r is Ok
            <==> decoded_client_update_proposal(input.value@) is Some) && (r matches Ok(c)
            ==> c.type_url@ == input.type_url@ && c.title@ == (decoded_client_update_proposal(
            input.value@,
        )->0).0 && c.description@ == (decoded_client_update_proposal(input.value@)->0).1
            && c.subject_client_id is Some && c.subject_client_id->0@ == (
        decoded_client_update_proposal(input.value@)->0).2 && c.substitute_client_id is Some
            && c.substitute_client_id->0@ == (decoded_client_update_proposal(input.value@)->0).3)),
        input.type_url@ == "/canto.erc20.v1.RegisterCoinProposal"@ ==> ((r is Ok
            <==> decoded_register_coin_proposal(input.value@) is Some) && (r matches Ok(c)
            ==> c.type_url@ == input.type_url@ && c.title@ == (decoded_register_coin_proposal(
            input.value@,
        )->0).0 && c.description@ == (decoded_register_coin_proposal(input.value@)->0).1 && (
        c.metadata is Some <==> (decoded_register_coin_proposal(input.value@)->0).2 is Some))),
        input.type_url@ == "/canto.erc20.v1.RegisterErc20Proposal"@ ==> ((r is Ok
            <==> decoded_register_erc20_proposal(input.value@) is Some) && (r matches Ok(c)
            ==> c.type_url@ == input.type_url@ && c.title@ == (decoded_register_erc20_proposal(
            input.value@,
        )->0).0 && c.description@ == (decoded_register_erc20_proposal(input.value@)->0).1
            && c.erc20address is Some && c.erc20address->0@ == (decoded_register_erc20_proposal(
            input.value@,
        )->0).2)),
{
    proof {
        reveal_strlit("/cosmos.gov.v1beta1.TextProposal");
        reveal_strlit("/cosmos.params.v1beta1.ParameterChangeProposal");
        reveal_strlit("/cosmos.upgrade.v1beta1.CancelSoftwareUpgradeProposal");
        reveal_strlit("/cosmos.distribution.v1beta1.CommunityPoolSpendProposal");
        reveal_strlit("/cosmos.upgrade.v1beta1.SoftwareUpgradeProposal");
        reveal_strlit("/ibc.core.client.v1.ClientUpdateProposal");
        reveal_strlit("/canto.erc20.v1.RegisterCoinProposal");
        reveal_strlit("/canto.erc20.v1.RegisterErc20Proposal");
        assert("/cosmos.gov.v1beta1.TextProposal"@.len() == 32);
        assert("/cosmos.params.v1beta1.ParameterChangeProposal"@.len() == 46);
        assert("/cosmos.upgrade.v1beta1.CancelSoftwareUpgradeProposal"@.len() == 53);
        assert("/cosmos.distribution.v1beta1.CommunityPoolSpendProposal"@.len() == 55);
        assert("/cosmos.upgrade.v1beta1.SoftwareUpgradeProposal"@.len() == 47);
        assert("/ibc.core.client.v1.ClientUpdateProposal"@.len() == 40);
        assert("/canto.erc20.v1.RegisterCoinProposal"@.len() == 36);
        assert("/canto.erc20.v1.RegisterErc20Proposal"@.len() == 37);
    }
    let url = &input.type_url;
    let type_url = String::from_str(url.as_str());
    if str_eq(url, "/cosmos.gov.v1beta1.TextProposal") {
        match decode_text_proposal(&input.value) {
            Some(d) => Ok(
                ProposalContent {
                    type_url,
                    title: d.title,
                    description: d.description,
                    changes: None,
                    recipient: None,
                    amount: None,
                    plan: None,
                    subject_client_id: None,
                    substitute_client_id: None,
                    metadata: None,
                    erc20address: None,
                },
            ),
            None => Err(String::from_str("malformed proposal payload")),
        }
    } else if str_eq(url, "/cosmos.params.v1beta1.ParameterChangeProposal") {
        match decode_param_change_proposal(&input.value) {
            Some(d) => Ok(
                ProposalContent {
                    type_url,
                    title: d.0,
                    description: d.1,
                    changes: Some(d.2),
                    recipient: None,
                    amount: None,
                    plan: None,
                    subject_client_id: None,
                    substitute_client_id: None,
                    metadata: None,
                    erc20address: None,
                },
            ),
            None => Err(String::from_str("malformed proposal payload")),
        }
    } else if str_eq(url, "/cosmos.upgrade.v1beta1.CancelSoftwareUpgradeProposal") {
        match decode_cancel_upgrade_proposal(&input.value) {
            Some(d) => Ok(
                ProposalContent {
                    type_url,
                    title: d.0,
                    description: d.1,
                    changes: None,
                    recipient: None,
                    amount: None,
                    plan: None,
                    subject_client_id: None,
                    substitute_client_id: None,
                    metadata: None,
                    erc20address: None,
                },
            ),
            None => Err(String::from_str("malformed proposal payload")),
        }
    } else if str_eq(url, "/cosmos.distribution.v1beta1.CommunityPoolSpendProposal") {
        match decode_community_spend_proposal(&input.value) {
            Some(d) => Ok(
                ProposalContent {
                    type_url,
                    title: d.0,
                    description: d.1,
                    changes: None,
                    recipient: Some(d.2),
                    amount: Some(d.3),
                    plan: None,
                    subject_client_id: None,
                    substitute_client_id: None,
                    metadata: None,
                    erc20address: None,
                },
            ),
            None => Err(String::from_str("malformed proposal payload")),
        }
    } else if str_eq(url, "/cosmos.upgrade.v1beta1.SoftwareUpgradeProposal") {
        match decode_software_upgrade_proposal(&input.value) {
            Some(d) => Ok(
                ProposalContent {
                    type_url,
                    title: d.0,
                    description: d.1,
                    changes: None,
                    recipient: None,
                    amount: None,
                    plan: d.2,
                    subject_client_id: None,
                    substitute_client_id: None,
                    metadata: None,
                    erc20address: None,
                },
            ),
            None => Err(String::from_str("malformed proposal payload")),
        }
    } else if str_eq(url, "/ibc.core.client.v1.ClientUpdateProposal") {
        match decode_client_update_proposal(&input.value) {
            Some(d) => Ok(
                ProposalContent {
                    type_url,
                    title: d.0,
                    description: d.1,
                    changes: None,
                    recipient: None,
                    amount: None,
                    plan: None,
                    subject_client_id: Some(d.2),
                    substitute_client_id: Some(d.3),
                    metadata: None,
                    erc20address: None,
                },
            ),
            None => Err(String::from_str("malformed proposal payload")),
        }
    } else if str_eq(url, "/canto.erc20.v1.RegisterCoinProposal") {
        match decode_register_coin_proposal(&input.value) {
            Some(d) => Ok(
                ProposalContent {
                    type_url,
                    title: d.0,
                    description: d.1,
                    changes: None,
                    recipient: None,
                    amount: None,
                    plan: None,
                    subject_client_id: None,
                    substitute_client_id: None,
                    metadata: d.2,
                    erc20address: None,
                },
            ),
            None => Err(String::from_str("malformed proposal payload")),
        }
    } else if str_eq(url, "/canto.erc20.v1.RegisterErc20Proposal") {
        match decode_register_erc20_proposal(&input.value) {
            Some(d) => Ok(
                ProposalContent {
                    type_url,
                    title: d.0,
                    description: d.1,
                    changes: None,
                    recipient: None,
                    amount: None,
                    plan: None,
                    subject_client_id: None,
                    substitute_client_id: None,
                    metadata: None,
                    erc20address: Some(d.2),
                },
            ),
            None => Err(String::from_str("malformed proposal payload")),
        }
    } else {
        let mut msg = String::from_str("Unknown proposal content type: ");
        msg.append(url.as_str());
        Err(msg)
    }
}

/// One proposal as the chain reports it, in plain values: the undecoded
/// content, the status and tally, the timestamps in seconds, and the
/// deposited coins.
pub struct ProposalData {
    pub proposal_id: u64,
    pub content: Option<ProtoAny>,
    pub status: i32,
    pub final_tally: Option<TallyResult>,
    pub submit_secs: Option<i64>,
    pub deposit_end_secs: Option<i64>,
    pub voting_start_secs: Option<i64>,
    pub voting_end_secs: Option<i64>,
    pub total_deposit: Vec<Coin>,
}

/// Builds the served proposal record: the content is decoded by kind,
/// with a fallback body naming the failure; the timestamps render as
/// RFC 3339; each deposit renders as amount then denomination.
pub fn proposal_info_from(p: ProposalData, now_secs: u64) -> (r: ProposalInfo)
    ensures
        r.proposal_id == p.proposal_id,
        r.status == p.status,
        r.status_value == p.status,
        r.last_updated == now_secs,
        r.content is Some <==> p.content is Some,
        r.total_deposit@.len() == p.total_deposit@.len(),
        forall|i: int|
            0 <= i < p.total_deposit@.len() ==> (#[trigger] r.total_deposit@[i])@
                == crate::governance::spec_coin_str(p.total_deposit@[i]),
{
    let content: Option<ProposalContent> = match &p.content {
        Some(any) => {
            match decode_proposal_content(any) {
                Ok(c) => Some(c),
                Err(e) => {
                    let mut desc = String::from_str("Failed to decode proposal: ");
                    desc.append(e.as_str());
                    Some(
                        ProposalContent {
                            type_url: String::from_str(any.type_url.as_str()),
                            title: String::from_str("Error Decoding Proposal"),
                            description: desc,
                            changes: None,
                            recipient: None,
                            amount: None,
                            plan: None,
                            subject_client_id: None,
                            substitute_client_id: None,
                            metadata: None,
                            erc20address: None,
                        },
                    )
                },
            }
        },
        None => None,
    };
    let submit_time = match p.submit_secs {
        Some(s) => rfc3339_utc(s),
        None => None,
    };
    let deposit_end_time = match p.deposit_end_secs {
        Some(s) => rfc3339_utc(s),
        None => None,
    };
    let voting_start_time = match p.voting_start_secs {
        Some(s) => rfc3339_utc(s),
        None => None,
    };
    let voting_end_time = match p.voting_end_secs {
        Some(s) => rfc3339_utc(s),
        None => None,
    };
    let mut total_deposit: Vec<String> = Vec::new();
    let mut i: usize = 0;
    while i < p.total_deposit.len()
        invariant
            0 <= i <= p.total_deposit@.len(),
            total_deposit@.len() == i,
            forall|j: int|
                0 <= j < i ==> (#[trigger] total_deposit@[j])@
                    == crate::governance::spec_coin_str(p.total_deposit@[j]),
        decreases p.total_deposit@.len() - i,
    {
        let mut s = String::from_str(p.total_deposit[i].amount.as_str());
        s.append(p.total_deposit[i].denom.as_str());
        total_deposit.push(s);
        i += 1;
    }
    ProposalInfo {
        proposal_id: p.proposal_id,
        content,
        status: p.status,
        status_value: p.status,
        final_tally_result: p.final_tally,
        submit_time,
        deposit_end_time,
        total_deposit,
        voting_start_time,
        voting_end_time,
        last_updated: now_secs,
    }
}

} // verus!
