//! Notification emails: who a transaction is from and to, as shown with
//! the readers' nicknames, and which template each event uses.
use vstd::prelude::*;
use crate::asset::AssetType;
use crate::nickname::NicknameValue;

verus! {

/// `address`, shown with its nickname when it has one:
/// `nickname (address)`.
pub open spec fn nickname_address(nickname: Option<Seq<char>>, address: Seq<char>) -> Seq<char> {
    match nickname {
        Some(n) => n + " ("@ + address + ")"@,
        None => address,
    }
}

pub fn format_nickname_address(nickname: Option<NicknameValue>, address: &str) -> (r: String)
    ensures
        r@ == nickname_address(
            match nickname {
                Some(n) => Some(n.view()),
                None => None,
            },
            address@,
        ),
{
    match nickname {
        Some(nickname) => {
            let mut s = String::from_str(nickname.as_str());
            s.append(" (");
            s.append(address);
            s.append(")");
            s
        },
        None => String::from_str(address),
    }
}

/// The content of a notification: who the transaction is from and to.
pub trait EmailRequest {
    spec fn from_spec(&self) -> Seq<char>;

    spec fn to_spec(&self) -> Seq<char>;

    fn from(&self) -> (r: &str)
        ensures
            r@ == self.from_spec(),
    ;

    fn to(&self) -> (r: &str)
        ensures
            r@ == self.to_spec(),
    ;

    fn set_from(&mut self, from: String)
        ensures
            final(self).from_spec() == from@,
            final(self).to_spec() == old(self).to_spec(),
    ;

    fn set_to(&mut self, to: String)
        ensures
            final(self).to_spec() == to@,
            final(self).from_spec() == old(self).from_spec(),
    ;

    /// Shows the sender and the receiver with the reader's nicknames for
    /// them.
    fn add_nickname(&mut self, from_nickname: Option<NicknameValue>, to_nickname: Option<NicknameValue>)
        ensures
            final(self).from_spec() == nickname_address(
                match from_nickname {
                    Some(n) => Some(n.view()),
                    None => None,
                },
                old(self).from_spec(),
            ),
            final(self).to_spec() == nickname_address(
                match to_nickname {
                    Some(n) => Some(n.view()),
                    None => None,
                },
                old(self).to_spec(),
            ),
    {
        let from = format_nickname_address(from_nickname, self.from());
        self.set_from(from);
        let to = format_nickname_address(to_nickname, self.to());
        self.set_to(to);
    }
}

/// A transaction waiting for an approver's decision at approval `step`.
/// The amount is kept as the bits of its floating-point value.
pub struct TxRequiredApprovalEmailRequest {
    pub from: String,
    pub to: String,
    pub amount_bits: u64,
    pub asset: AssetType,
    pub tx_link: url::Url,
    pub step: usize,
}

/// The basic facts of a transaction.
pub struct TxBasicInfoEmailRequest {
    pub from: String,
    pub to: String,
    pub amount_bits: u64,
    pub asset: AssetType,
    pub tx_link: url::Url,
}

/// A transaction that reached the chain.
pub struct TxCompletedEmailRequest {
    pub from: String,
    pub to: String,
    pub amount_bits: u64,
    pub asset: AssetType,
    pub etherscan_link: url::Url,
    pub tx_link: url::Url,
}

/// A payment that arrived.
pub struct TxReceivedEmailRequest {
    pub from: String,
    pub to: String,
    pub amount_bits: u64,
    pub asset: AssetType,
    pub etherscan_link: url::Url,
}

/// A transaction the network refused, with its message.
pub struct TxNetworkEmailRequest {
    pub from: String,
    pub to: String,
    pub amount_bits: u64,
    pub asset: AssetType,
    pub message: String,
    pub tx_link: url::Url,
}

impl EmailRequest for TxRequiredApprovalEmailRequest {
    open spec fn from_spec(&self) -> Seq<char> {
        self.from@
    }

    open spec fn to_spec(&self) -> Seq<char> {
        self.to@
    }

    fn from(&self) -> (r: &str) {
        self.from.as_str()
    }

    fn to(&self) -> (r: &str) {
        self.to.as_str()
    }

    fn set_from(&mut self, from: String) {
        self.from = from;
    }

    fn set_to(&mut self, to: String) {
        self.to = to;
    }
}

impl EmailRequest for TxBasicInfoEmailRequest {
    open spec fn from_spec(&self) -> Seq<char> {
        self.from@
    }

    open spec fn to_spec(&self) -> Seq<char> {
        self.to@
    }

    fn from(&self) -> (r: &str) {
        self.from.as_str()
    }

    fn to(&self) -> (r: &str) {
        self.to.as_str()
    }

    fn set_from(&mut self, from: String) {
        self.from = from;
    }

    fn set_to(&mut self, to: String) {
        self.to = to;
    }
}

impl EmailRequest for TxCompletedEmailRequest {
    open spec fn from_spec(&self) -> Seq<char> {
        self.from@
    }

    open spec fn to_spec(&self) -> Seq<char> {
        self.to@
    }

    fn from(&self) -> (r: &str) {
        self.from.as_str()
    }

    fn to(&self) -> (r: &str) {
        self.to.as_str()
    }

    fn set_from(&mut self, from: String) {
        self.from = from;
    }

    fn set_to(&mut self, to: String) {
        self.to = to;
    }
}

impl EmailRequest for TxReceivedEmailRequest {
    open spec fn from_spec(&self) -> Seq<char> {
        self.from@
    }

    open spec fn to_spec(&self) -> Seq<char> {
        self.to@
    }

    fn from(&self) -> (r: &str) {
        self.from.as_str()
    }

    fn to(&self) -> (r: &str) {
        self.to.as_str()
    }

    fn set_from(&mut self, from: String) {
        self.from = from;
    }

    fn set_to(&mut self, to: String) {
        self.to = to;
    }
}

impl EmailRequest for TxNetworkEmailRequest {
    open spec fn from_spec(&self) -> Seq<char> {
        self.from@
    }

    open spec fn to_spec(&self) -> Seq<char> {
        self.to@
    }

    fn from(&self) -> (r: &str) {
        self.from.as_str()
    }

    fn to(&self) -> (r: &str) {
        self.to.as_str()
    }

    fn set_from(&mut self, from: String) {
        self.from = from;
    }

    fn set_to(&mut self, to: String) {
        self.to = to;
    }
}

/// The events that send a notification, each with its mail template.
#[derive(Clone, Copy, Debug, PartialEq, Eq, Structural)]
pub enum EmailTemplateKind {
    Cancelled,
    Declined,
    ReadyForSigning,
    NeedReSign,
    TxCreated,
    PendingForApproval,
    OnChain,
    Received,
    RejectedByNetwork,
}

impl EmailTemplateKind {
    pub open spec fn template_name_spec(self) -> Seq<char> {
        match self {
            EmailTemplateKind::Cancelled => "tx-cancelled"@,
            EmailTemplateKind::Declined => "tx-declined"@,
            EmailTemplateKind::ReadyForSigning => "ready-to-sign"@,
            EmailTemplateKind::NeedReSign => "re-sign"@,
            EmailTemplateKind::TxCreated => "tx-created"@,
            EmailTemplateKind::PendingForApproval => "require-approval"@,
            EmailTemplateKind::OnChain => "tx-completed"@,
            EmailTemplateKind::Received => "tx-received"@,
            EmailTemplateKind::RejectedByNetwork => "tx-rejected-by-network"@,
        }
    }

    /// The name of the event's template at the mail service.
    pub fn template_name(&self) -> (r: String)
        ensures
            r@ == self.template_name_spec(),
    {
        let name = match self {
            EmailTemplateKind::Cancelled => "tx-cancelled",
            EmailTemplateKind::Declined => "tx-declined",
            EmailTemplateKind::ReadyForSigning => "ready-to-sign",
            EmailTemplateKind::NeedReSign => "re-sign",
            EmailTemplateKind::TxCreated => "tx-created",
            EmailTemplateKind::PendingForApproval => "require-approval",
            EmailTemplateKind::OnChain => "tx-completed",
            EmailTemplateKind::Received => "tx-received",
            EmailTemplateKind::RejectedByNetwork => "tx-rejected-by-network",
        };
        String::from_str(name)
    }
}

} // verus!
