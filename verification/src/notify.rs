//! Who is told of what: the notifications that a settled transaction, a
//! pending one and a received payment send, the readers that subscribed,
//! and which nickname goes on which side.
use vstd::prelude::*;
use crate::credential::PendingTx;
use crate::email::EmailTemplateKind;
use crate::error::GatewayError;
use crate::model::{clone_str, Email};
use crate::nickname::NicknameValue;
use crate::strs::{dedup_strs, push_unique, union_strs, view_set, views};
use crate::tx::{debug_quoted, debug_string, TxHistoryStatus};
use crate::export::{joined_url, url_join};

verus! {

/// The template of the notification that a settled transaction sends; a
/// transaction that could not reach the network reads as refused by it.
pub open spec fn history_template_spec(status: TxHistoryStatus) -> EmailTemplateKind {
    match status {
        TxHistoryStatus::OnChain(_) => EmailTemplateKind::OnChain,
        TxHistoryStatus::RejectedByNetwork(_) => EmailTemplateKind::RejectedByNetwork,
        TxHistoryStatus::RejectedByApprover => EmailTemplateKind::Declined,
        TxHistoryStatus::Cached => EmailTemplateKind::RejectedByNetwork,
        TxHistoryStatus::RecalledByOperator => EmailTemplateKind::Cancelled,
    }
}

pub fn history_template(status: &TxHistoryStatus) -> (r: EmailTemplateKind)
    ensures
        r == history_template_spec(*status),
{
    match status {
        TxHistoryStatus::OnChain(_) => EmailTemplateKind::OnChain,
        TxHistoryStatus::RejectedByNetwork(_) => EmailTemplateKind::RejectedByNetwork,
        TxHistoryStatus::RejectedByApprover => EmailTemplateKind::Declined,
        TxHistoryStatus::Cached => EmailTemplateKind::RejectedByNetwork,
        TxHistoryStatus::RecalledByOperator => EmailTemplateKind::Cancelled,
    }
}

/// Those told of a settled transaction: every approver of its chain, its
/// operator, and the viewers of the wallet it was sent from, each once.
pub fn history_recipients(operator: &Email, approvers: &Vec<Email>, viewers: &Vec<Email>) -> (r: Vec<Email>)
    ensures
        view_set(r@) == view_set(approvers@).insert(operator@).union(view_set(viewers@)),
        views(r@).no_duplicates(),
{
    let mut with_operator = dedup_strs(approvers);
    push_unique(&mut with_operator, clone_str(operator));
    union_strs(&with_operator, viewers)
}

/// Those told of a payment a wallet received: the users associated with
/// the wallet and its viewers, each once.
pub fn received_recipients(associated: &Vec<Email>, viewers: &Vec<Email>) -> (r: Vec<Email>)
    ensures
        view_set(r@) == view_set(associated@).union(view_set(viewers@)),
        views(r@).no_duplicates(),
{
    let first = dedup_strs(associated);
    union_strs(&first, viewers)
}

/// A notification to send: its template, the approval step it asks for
/// (counted from 1, for a request of approval), and its readers.
pub struct EmailPlan {
    pub kind: EmailTemplateKind,
    pub step: Option<usize>,
    pub recipients: Vec<Email>,
}

/// `p` sends `kind`, for `step`, to each of `readers` once.
pub open spec fn plan_is(p: EmailPlan, kind: EmailTemplateKind, step: Option<usize>, readers: Set<Seq<char>>) -> bool {
    &&& p.kind == kind
    &&& p.step == step
    &&& view_set(p.recipients@) == readers
    &&& views(p.recipients@).no_duplicates()
}

/// The notifications of a pending transaction created by `operator`, sent
/// from a wallet with `viewers`, whose approval chain is at
/// `current_stage` (from 0) with `stage_approvers`:
/// - waiting for approval: at the first stage the viewers learn that the
///   transaction was created; then the approvers of the current stage are
///   asked for their approval at step `current_stage + 1`. It fails when the
///   chain has no current stage, or that stage no approvers;
/// - ready for signing: the operator is asked to sign;
/// - expired with the delegation service: the operator is asked to sign
///   again;
/// - with the delegation service: nothing is sent, and it fails.
pub fn pending_plans<T>(
    pending: &PendingTx<T>,
    operator: &Email,
    viewers: &Vec<Email>,
    current_stage: Option<usize>,
    stage_approvers: &Option<Vec<Email>>,
) -> (r: Result<Vec<EmailPlan>, GatewayError>)
    requires
        current_stage matches Some(k) ==> k < usize::MAX,
    ensures
        pending is DelegationStarted ==> r == Err::<Vec<EmailPlan>, GatewayError>(GatewayError::UnsupportedEvent),
        pending is ReadyForSigning ==> (r matches Ok(ps) && ps@.len() == 1 && plan_is(
            ps@[0],
            EmailTemplateKind::ReadyForSigning,
            None,
            set![operator@],
        )),
        pending is DelegationExpired ==> (r matches Ok(ps) && ps@.len() == 1 && plan_is(
            ps@[0],
            EmailTemplateKind::NeedReSign,
            None,
            set![operator@],
        )),
        pending is PendingForApproval ==> {
            &&& current_stage is None ==> r == Err::<Vec<EmailPlan>, GatewayError>(GatewayError::NoCurrentStage)
            &&& current_stage is Some && stage_approvers is None ==> r == Err::<Vec<EmailPlan>, GatewayError>(
                GatewayError::NoStageApprovers,
            )
            &&& current_stage matches Some(k) ==> (stage_approvers matches Some(a) ==> (r matches Ok(ps) && {
                let ask = ps@.last();
                &&& ps@.len() == (if k == 0 {
                    2int
                } else {
                    1int
                })
                &&& k == 0 ==> plan_is(ps@[0], EmailTemplateKind::TxCreated, None, view_set(viewers@))
                &&& plan_is(ask, EmailTemplateKind::PendingForApproval, Some((k + 1) as usize), view_set(a@))
            }))
        },
{
    match pending {
        PendingTx::PendingForApproval(_) => {
            let k = match current_stage {
                Some(k) => k,
                None => {
                    return Err(GatewayError::NoCurrentStage);
                },
            };
            let mut plans: Vec<EmailPlan> = Vec::new();
            if k == 0 {
                plans.push(EmailPlan { kind: EmailTemplateKind::TxCreated, step: None, recipients: dedup_strs(viewers) });
            }
            let approvers = match stage_approvers {
                Some(a) => a,
                None => {
                    return Err(GatewayError::NoStageApprovers);
                },
            };
            plans.push(
                EmailPlan { kind: EmailTemplateKind::PendingForApproval, step: Some(k + 1), recipients: dedup_strs(approvers) },
            );
            Ok(plans)
        },
        PendingTx::ReadyForSigning(_) => {
            let mut readers: Vec<Email> = Vec::new();
            push_unique(&mut readers, clone_str(operator));
            proof {
                assert(view_set(Seq::<String>::empty()) =~= Set::<Seq<char>>::empty());
                assert(set![operator@] =~= Set::<Seq<char>>::empty().insert(operator@));
            }
            let mut plans: Vec<EmailPlan> = Vec::new();
            plans.push(EmailPlan { kind: EmailTemplateKind::ReadyForSigning, step: None, recipients: readers });
            Ok(plans)
        },
        PendingTx::DelegationExpired(_) => {
            let mut readers: Vec<Email> = Vec::new();
            push_unique(&mut readers, clone_str(operator));
            proof {
                assert(view_set(Seq::<String>::empty()) =~= Set::<Seq<char>>::empty());
                assert(set![operator@] =~= Set::<Seq<char>>::empty().insert(operator@));
            }
            let mut plans: Vec<EmailPlan> = Vec::new();
            plans.push(EmailPlan { kind: EmailTemplateKind::NeedReSign, step: None, recipients: readers });
            Ok(plans)
        },
        PendingTx::DelegationStarted(_) => Err(GatewayError::UnsupportedEvent),
    }
}

/// The readers of `recipients` whose subscription covers the wallet
/// (`subscribed[i]` for the `i`-th), in order.
pub open spec fn subscribed_only(recipients: Seq<String>, subscribed: Seq<bool>) -> Seq<String>
    decreases recipients.len(),
{
    if recipients.len() == 0 {
        Seq::empty()
    } else {
        let rest = subscribed_only(recipients.drop_last(), subscribed);
        if subscribed[recipients.len() - 1] {
            rest.push(recipients.last())
        } else {
            rest
        }
    }
}

/// Keeps the readers that subscribed to the wallet; a reader with no
/// subscription counts as not subscribed.
pub fn subscribed_recipients(recipients: &Vec<Email>, subscribed: &Vec<bool>) -> (r: Vec<Email>)
    requires
        subscribed@.len() == recipients@.len(),
    ensures
        r@ == subscribed_only(recipients@, subscribed@),
{
    let mut out: Vec<Email> = Vec::new();
    let mut i: usize = 0;
    while i < recipients.len()
        invariant
            i <= recipients@.len(),
            subscribed@.len() == recipients@.len(),
            out@ == subscribed_only(recipients@.take(i as int), subscribed@),
        decreases recipients@.len() - i,
    {
        proof {
            let t = recipients@.take(i as int + 1);
            assert(t.drop_last() =~= recipients@.take(i as int));
            assert(t.last() == recipients@[i as int]);
        }
        if subscribed[i] {
            out.push(clone_str(&recipients[i]));
        }
        i = i + 1;
    }
    proof {
        assert(recipients@.take(i as int) =~= recipients@);
    }
    out
}

/// The nicknames shown on the sender's and the receiver's side. A received
/// payment comes from an address (named in the address book) to a wallet
/// (named by its wallet name); a transaction goes from a wallet to an
/// address.
pub fn nickname_sides(
    is_received_payment: bool,
    address_name: Option<NicknameValue>,
    wallet_name: Option<NicknameValue>,
) -> (r: (Option<NicknameValue>, Option<NicknameValue>))
    ensures
        is_received_payment ==> r == (address_name, wallet_name),
        !is_received_payment ==> r == (wallet_name, address_name),
{
    if is_received_payment {
        (address_name, wallet_name)
    } else {
        (wallet_name, address_name)
    }
}


/// The site whose transaction pages notifications link to.
pub open spec fn site_base() -> Seq<char> {
    "https://ck.com"@
}

/// The link of a notification's "show transaction" button: the page
/// `transactions/<id>` of the site; fails when `url` refuses the link.
pub fn tx_query_link(tx_id: &str) -> (r: Result<String, GatewayError>)
    ensures
        match joined_url(site_base(), "transactions/"@ + tx_id@) {
            Some(t) => r matches Ok(s) && s@ == t,
            None => r == Err::<String, GatewayError>(GatewayError::InvalidUrl),
        },
{
    let mut path = String::from_str("transactions/");
    path.append(tx_id);
    match url_join("https://ck.com", path.as_str()) {
        Some(u) => Ok(u),
        None => Err(GatewayError::InvalidUrl),
    }
}

/// The explorer's link to a transaction on chain: `tx/` and the hash in
/// its Debug form (quoted), resolved against the explorer's base;
/// fails when `url` refuses the link.
pub fn explorer_tx_link(explorer_base: &str, tx_hash: &str) -> (r: Result<String, GatewayError>)
    ensures
        match joined_url(explorer_base@, "tx/"@ + debug_quoted(tx_hash@)) {
            Some(t) => r matches Ok(s) && s@ == t,
            None => r == Err::<String, GatewayError>(GatewayError::InvalidUrl),
        },
{
    let mut path = String::from_str("tx/");
    let quoted = debug_string(tx_hash);
    path.append(quoted.as_str());
    match url_join(explorer_base, path.as_str()) {
        Some(u) => Ok(u),
        None => Err(GatewayError::InvalidUrl),
    }
}

} // verus!
