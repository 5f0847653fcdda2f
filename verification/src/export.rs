//! Names of the files the console exports (certificates, signed wallet
//! configurations, signed backup lists) and the links handed out for them.
use vstd::prelude::*;
use crate::error::GatewayError;

verus! {

/// What an exported file holds.
#[derive(Clone, Copy, Debug, PartialEq, Eq, Structural)]
pub enum ExportedFileType {
    Cert,
    WalletInfo,
    SignedBackupList,
}

impl ExportedFileType {
    pub open spec fn name_spec(&self) -> Seq<char> {
        match self {
            ExportedFileType::Cert => "cert"@,
            ExportedFileType::WalletInfo => "wallet_info"@,
            ExportedFileType::SignedBackupList => "signed_backup_list"@,
        }
    }

    /// The name of the kind, as it appears in file names.
    pub fn as_str(&self) -> (r: &'static str)
        ensures
            r@ == self.name_spec(),
    {
        match self {
            ExportedFileType::Cert => "cert",
            ExportedFileType::WalletInfo => "wallet_info",
            ExportedFileType::SignedBackupList => "signed_backup_list",
        }
    }
}

/// The decimal digit `d`.
pub open spec fn digit_char(d: nat) -> char {
    if d == 0 {
        '0'
    } else if d == 1 {
        '1'
    } else if d == 2 {
        '2'
    } else if d == 3 {
        '3'
    } else if d == 4 {
        '4'
    } else if d == 5 {
        '5'
    } else if d == 6 {
        '6'
    } else if d == 7 {
        '7'
    } else if d == 8 {
        '8'
    } else {
        '9'
    }
}

/// `n` written in decimal, without leading zeros.
pub open spec fn decimal(n: nat) -> Seq<char>
    decreases n,
{
    if n < 10 {
        seq![digit_char(n)]
    } else {
        decimal(n / 10).push(digit_char(n % 10))
    }
}

fn digit_str(d: u64) -> (r: &'static str)
    requires
        d < 10,
    ensures
        r@ == seq![digit_char(d as nat)],
{
    proof {
        reveal_strlit("0");
        reveal_strlit("1");
        reveal_strlit("2");
        reveal_strlit("3");
        reveal_strlit("4");
        reveal_strlit("5");
        reveal_strlit("6");
        reveal_strlit("7");
        reveal_strlit("8");
        reveal_strlit("9");
    }
    if d == 0 {
        "0"
    } else if d == 1 {
        "1"
    } else if d == 2 {
        "2"
    } else if d == 3 {
        "3"
    } else if d == 4 {
        "4"
    } else if d == 5 {
        "5"
    } else if d == 6 {
        "6"
    } else if d == 7 {
        "7"
    } else if d == 8 {
        "8"
    } else {
        "9"
    }
}

/// Appends `n` in decimal to `s`.
pub fn append_decimal(s: &mut String, n: u64)
    ensures
        final(s)@ == old(s)@ + decimal(n as nat),
    decreases n,
{
    if n >= 10 {
        append_decimal(s, n / 10);
    }
    s.append(digit_str(n % 10));
    proof {
        if n >= 10 {
            assert(decimal(n as nat) == decimal((n / 10) as nat).push(digit_char((n % 10) as nat)));
        }
    }
}

/// The names of an exported file: `id.kind.timestamp`, and the name of
/// the link to the latest one, `id.kind.latest`.
pub struct ExportNames {
    pub file_name: String,
    pub latest_name: String,
}

/// The common part of both names: `id.kind.`.
pub open spec fn export_prefix(id: Seq<char>, file_type: ExportedFileType) -> Seq<char> {
    id + seq!['.'] + file_type.name_spec() + seq!['.']
}

/// The names under which the file of kind `file_type` for `id`, stamped
/// with `tms`, is exported.
pub fn export_names(id: &str, file_type: &ExportedFileType, tms: u64) -> (r: ExportNames)
    ensures
        r.file_name@ == export_prefix(id@, *file_type) + decimal(tms as nat),
        r.latest_name@ == export_prefix(id@, *file_type) + "latest"@,
{
    proof {
        reveal_strlit(".");
        reveal_strlit("latest");
    }
    let mut prefix = String::from_str(id);
    prefix.append(".");
    prefix.append(file_type.as_str());
    prefix.append(".");
    proof {
        assert(prefix@ =~= export_prefix(id@, *file_type));
    }
    let mut file_name = prefix.clone();
    append_decimal(&mut file_name, tms);
    let mut latest_name = prefix;
    latest_name.append("latest");
    ExportNames { file_name, latest_name }
}

/// `SystemTime::now` measured from `UNIX_EPOCH`, in whole seconds, or
/// `None` for a clock set before the epoch; nothing is claimed of the
/// value.
#[verifier::external_body]
pub(crate) fn unix_time() -> (r: Option<u64>) {
    match std::time::SystemTime::now().duration_since(std::time::UNIX_EPOCH) {
        Ok(d) => Some(d.as_secs()),
        Err(_) => None,
    }
}

/// Seconds since the Unix epoch, read from the system clock; 0 for a clock
/// set before the epoch.
pub fn now_tms() -> (r: u64) {
    match unix_time() {
        Some(t) => t,
        None => 0,
    }
}

/// The names of an export stamped with `timestamp`, or with the current
/// time when the record carries none; without a stamp, a clock set before
/// the Unix epoch is refused.
pub fn export_names_at(id: &str, file_type: &ExportedFileType, timestamp: Option<u64>) -> (r: Result<
    ExportNames,
    GatewayError,
>)
    ensures
        timestamp matches Some(t) ==> (r matches Ok(n) && n.file_name@ == export_prefix(id@, *file_type) + decimal(
            t as nat,
        ) && n.latest_name@ == export_prefix(id@, *file_type) + "latest"@),
        timestamp is None ==> (r matches Ok(n) ==> exists|t: u64|
            n.file_name@ == export_prefix(id@, *file_type) + #[trigger] decimal(t as nat) && n.latest_name@
                == export_prefix(id@, *file_type) + "latest"@),
        r matches Err(e) ==> timestamp is None && e == GatewayError::ClockBeforeEpoch,
{
    let tms = match timestamp {
        Some(t) => t,
        None => match unix_time() {
            Some(t) => t,
            None => {
                return Err(GatewayError::ClockBeforeEpoch);
            },
        },
    };
    Ok(export_names(id, file_type, tms))
}

#[verifier::external_type_specification]
#[verifier::external_body]
pub struct ExUrl(url::Url);

/// The text of the link that `Url::join` resolves from `input` against the
/// URL written `base` (read with `Url::parse`), or `None` when `url`
/// refuses either; as the crate computes it. The name covers the three
/// steps: reading the base, joining the link, writing the link back.
pub uninterp spec fn joined_url(base: Seq<char>, input: Seq<char>) -> Option<Seq<char>>;

/// `Url::join` of `input` against the URL written `base`; the base is
/// read with `Url::parse` and the link is handed back as its text. Its
/// result is only named.
#[verifier::external_body]
pub(crate) fn url_join(base: &str, input: &str) -> (r: Option<String>)
    ensures
        match joined_url(base@, input@) {
            Some(t) => r matches Some(s) && s@ == t,
            None => r is None,
        },
{
    match url::Url::parse(base) {
        Ok(b) => match b.join(input) {
            Ok(u) => Some(u.to_string()),
            Err(_) => None,
        },
        Err(_) => None,
    }
}

/// The link handed out for the latest export named `names`: its latest
/// name resolved against the URL written `base`.
pub fn export_url(base: &str, names: &ExportNames) -> (r: Result<String, GatewayError>)
    ensures
        match joined_url(base@, names.latest_name@) {
            Some(t) => r matches Ok(s) && s@ == t,
            None => r == Err::<String, GatewayError>(GatewayError::InvalidUrl),
        },
{
    match url_join(base, names.latest_name.as_str()) {
        Some(u) => Ok(u),
        None => Err(GatewayError::InvalidUrl),
    }
}

} // verus!
