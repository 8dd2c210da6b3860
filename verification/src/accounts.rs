//! Account records and the pure parts of the account plumbing around the
//! engine: picking one stored account, assembling a client's configuration,
//! and the common request form data. Everything that talks to a terminal, a
//! config store or the network stays outside the library and hands these
//! functions plain values.

use vstd::prelude::*;
use vstd::string::*;

verus! {

/// All available implementations.
#[derive(Clone, Copy, PartialEq, Eq, Structural, Debug)]
pub enum Implementations {
    /// KM by KC
    Kmkc,
    /// MU! by SQ
    Musq,
}

/// Represents the configuration for the client.
pub struct AMConfig {
    /// The token of the account
    pub token: String,
    /// The identifier (guest ID) of the account, tied to token.
    pub identifier: String,
    /// The cookie of session_v2
    pub session_v2: String,
}

impl AMConfig {
    /// A field-for-field copy.
    pub fn duplicate(&self) -> (r: AMConfig)
        ensures
            r == *self,
    {
        AMConfig {
            token: self.token.clone(),
            identifier: self.identifier.clone(),
            session_v2: self.session_v2.clone(),
        }
    }
}

/// The used error type for the API.
pub struct AMAPIError {
    /// The error message from the API.
    pub message: String,
}

impl AMAPIError {
    /// The full display text of the error.
    pub fn to_message(&self) -> (r: String)
        ensures
            r@ == "An error occurred: "@ + self.message@,
    {
        let mut text = "An error occurred: ".to_owned();
        text.append(self.message.as_str());
        text
    }
}

/// A client for the AM API, configured for one account.
pub struct AMClient {
    /// The account configuration the client requests with.
    pub config: AMConfig,
}

/// Build an AM client from an account's configuration.
pub fn make_amap_client(config: &AMConfig) -> (r: AMClient)
    ensures
        r.config == *config,
{
    AMClient { config: config.duplicate() }
}

/// One stored account record, as the selection logic sees it.
pub struct AccountRecord {
    /// The stored account's session identifier.
    pub id: String,
}

/// Whether some record of `configs` carries the identifier `id`.
pub open spec fn has_id(configs: Seq<AccountRecord>, id: Seq<char>) -> bool {
    exists|j: int| 0 <= j < configs.len() && (#[trigger] configs[j]).id@ == id
}

/// `r` is the position of the first record of `configs` carrying `id`.
pub open spec fn is_first_with_id(configs: Seq<AccountRecord>, id: Seq<char>, r: int) -> bool {
    &&& 0 <= r < configs.len()
    &&& configs[r].id@ == id
    &&& forall|l: int| 0 <= l < r ==> (#[trigger] configs[l]).id@ != id
}

/// Position of the first record carrying `id`, if any.
fn find_first_by_id(configs: &Vec<AccountRecord>, id: &String) -> (r: Option<usize>)
    ensures
        (r is Some) == has_id(configs@, id@),
        r matches Some(j) ==> is_first_with_id(configs@, id@, j as int),
{
    let n = configs.len();
    let mut i: usize = 0;
    while i < n
        invariant
            i <= n,
            n == configs@.len(),
            forall|l: int| 0 <= l < i ==> (#[trigger] configs@[l]).id@ != id@,
        decreases n - i,
    {
        if configs[i].id == *id {
            return Some(i);
        }
        i = i + 1;
    }
    None
}

/// What selection returns when no requested identifier decided: no records
/// give nothing, a single record is taken without asking, and among several
/// the pick names the record taken.
pub open spec fn fallback_selection(
    configs: Seq<AccountRecord>,
    picked: Option<Seq<char>>,
    r: Option<usize>,
) -> bool {
    if configs.len() == 0 {
        r is None
    } else if configs.len() == 1 {
        r == Some(0usize)
    } else {
        match picked {
            Option::Some(p) => r matches Some(j) && is_first_with_id(configs, p, j as int),
            Option::None => r is None,
        }
    }
}

/// Pick a single account out of the stored records.
///
/// A requested identifier wins when a record carries it. Otherwise the
/// record list decides: none gives nothing, a single record is taken
/// without asking, and among several the caller-supplied pick (the
/// identifier chosen interactively) names the record. The result is the
/// record's position. A pick that is consulted must name a stored record.
pub fn select_single_account(
    account_id: Option<&String>,
    configs: &Vec<AccountRecord>,
    picked: Option<&String>,
) -> (r: Option<usize>)
    requires
        (match (account_id, picked) {
            (Some(aid), Some(p)) => !has_id(configs@, aid@) && configs@.len() > 1 ==> has_id(
                configs@,
                p@,
            ),
            (None, Some(p)) => configs@.len() > 1 ==> has_id(configs@, p@),
            (_, None) => true,
        }),
    ensures
        (match account_id {
            Some(aid) => {
                if has_id(configs@, aid@) {
                    r matches Some(j) && is_first_with_id(configs@, aid@, j as int)
                } else {
                    fallback_selection(
                        configs@,
                        match picked {
                            Some(p) => Some(p@),
                            None => None,
                        },
                        r,
                    )
                }
            },
            None => fallback_selection(
                configs@,
                match picked {
                    Some(p) => Some(p@),
                    None => None,
                },
                r,
            ),
        }),
{
    if let Some(aid) = account_id {
        if let Some(j) = find_first_by_id(configs, aid) {
            return Some(j);
        }
    }
    if configs.len() == 0 {
        return None;
    }
    if configs.len() == 1 {
        return Some(0);
    }
    match picked {
        Some(p) => find_first_by_id(configs, p),
        None => None,
    }
}

/// Client mode: the two storefronts one account can belong to.
#[derive(Clone, Copy, PartialEq, Eq, Structural, Debug)]
pub enum SJMode {
    /// VM storefront.
    VM,
    /// SJ storefront.
    SJ,
}

/// An authenticated session's configuration.
pub struct SJConfig {
    /// The account's numeric user id.
    pub user_id: u64,
    /// The account's session token.
    pub token: String,
    /// The instance (device) identifier tied to the token.
    pub instance: String,
}

/// The per-build constants every request carries.
pub struct SJConstants {
    /// Device kind identifier.
    pub device_id: String,
    /// Application version string.
    pub app_ver: String,
    /// Library version string.
    pub lib_version: String,
    /// Form key under which the application id is sent.
    pub data_app_id: String,
    /// Form key under which the version code is sent.
    pub data_version_code: String,
    /// Application id sent in VM mode.
    pub vm_app_id: String,
    /// Application id sent in SJ mode.
    pub sj_app_id: String,
}

/// One decimal digit.
pub open spec fn digit_char(d: nat) -> char {
    if d == 0 {
        '0'
    } else if d == 1 {
        '1'
    } else if d == 2 {
        '2'
    } else if d == 3 {
        '3'
    } else if d == 4 {
        '4'
    } else if d == 5 {
        '5'
    } else if d == 6 {
        '6'
    } else if d == 7 {
        '7'
    } else if d == 8 {
        '8'
    } else {
        '9'
    }
}

/// The decimal digits of `n`, most significant first, no leading zeros.
pub open spec fn spec_decimal(n: nat) -> Seq<char>
    decreases n,
{
    if n < 10 {
        seq![digit_char(n)]
    } else {
        spec_decimal(n / 10).push(digit_char(n % 10))
    }
}

/// Append one decimal digit to a string.
fn append_digit(s: &mut String, d: u64)
    requires
        d < 10,
    ensures
        final(s)@ == old(s)@.push(digit_char(d as nat)),
{
    let t: &str = if d == 0 {
        "0"
    } else if d == 1 {
        "1"
    } else if d == 2 {
        "2"
    } else if d == 3 {
        "3"
    } else if d == 4 {
        "4"
    } else if d == 5 {
        "5"
    } else if d == 6 {
        "6"
    } else if d == 7 {
        "7"
    } else if d == 8 {
        "8"
    } else {
        "9"
    };
    proof {
        reveal_strlit("0");
        reveal_strlit("1");
        reveal_strlit("2");
        reveal_strlit("3");
        reveal_strlit("4");
        reveal_strlit("5");
        reveal_strlit("6");
        reveal_strlit("7");
        reveal_strlit("8");
        reveal_strlit("9");
        assert(t@ =~= seq![digit_char(d as nat)]);
    }
    let ghost before = s@;
    s.append(t);
    proof {
        assert(s@ =~= before.push(digit_char(d as nat)));
    }
}

/// The decimal text of an unsigned number.
pub fn u64_to_decimal(n: u64) -> (r: String)
    ensures
        r@ == spec_decimal(n as nat),
    decreases n,
{
    if n < 10 {
        let mut s = String::new();
        append_digit(&mut s, n);
        proof {
            assert(s@ =~= seq![digit_char(n as nat)]);
        }
        s
    } else {
        proof {
            vstd::arithmetic::div_mod::lemma_div_is_strictly_smaller(n as int, 10);
        }
        let mut s = u64_to_decimal(n / 10);
        append_digit(&mut s, n % 10);
        s
    }
}

/// The common form data of every request, as the ordered key-value list the
/// request is built from. An authenticated session contributes its token,
/// user id and instance; an anonymous request carries the caller-supplied
/// fresh instance identifier instead. The mode picks which application id
/// is sent.
pub open spec fn common_data_model(
    constants: SJConstants,
    mode: SJMode,
    config: Option<SJConfig>,
    fresh_instance_id: Seq<char>,
) -> Seq<(Seq<char>, Seq<char>)> {
    let head: Seq<(Seq<char>, Seq<char>)> = match config {
        Option::Some(c) => seq![
            ("trust_user_jwt"@, c.token@),
            ("user_id"@, spec_decimal(c.user_id as nat)),
            ("instance_id"@, c.instance@),
            ("device_token"@, c.instance@),
        ],
        Option::None => seq![("instance_id"@, fresh_instance_id)],
    };
    head + seq![
        ("device_id"@, constants.device_id@),
        ("version"@, constants.lib_version@),
        (
            constants.data_app_id@,
            match mode {
                SJMode::VM => constants.vm_app_id@,
                SJMode::SJ => constants.sj_app_id@,
            },
        ),
        (constants.data_version_code@, constants.app_ver@),
    ]
}

/// Build the common form data for one request: exactly
/// [`common_data_model`] of the inputs, in that order, keys unique.
pub fn common_data_hashmap(
    constants: &SJConstants,
    mode: &SJMode,
    config: Option<&SJConfig>,
    fresh_instance_id: &String,
) -> (r: Vec<(String, String)>)
    ensures
        r@.map_values(|p: (String, String)| (p.0@, p.1@)) == common_data_model(
            *constants,
            *mode,
            match config {
                Some(c) => Some(*c),
                None => None,
            },
            fresh_instance_id@,
        ),
{
    let mut data: Vec<(String, String)> = Vec::new();
    match config {
        Some(c) => {
            data.push(("trust_user_jwt".to_owned(), c.token.clone()));
            data.push(("user_id".to_owned(), u64_to_decimal(c.user_id)));
            data.push(("instance_id".to_owned(), c.instance.clone()));
            data.push(("device_token".to_owned(), c.instance.clone()));
        },
        None => {
            data.push(("instance_id".to_owned(), fresh_instance_id.clone()));
        },
    }
    data.push(("device_id".to_owned(), constants.device_id.clone()));
    data.push(("version".to_owned(), constants.lib_version.clone()));
    let app_id = match mode {
        SJMode::VM => constants.vm_app_id.clone(),
        SJMode::SJ => constants.sj_app_id.clone(),
    };
    data.push((constants.data_app_id.clone(), app_id));
    data.push((constants.data_version_code.clone(), constants.app_ver.clone()));
    proof {
        assert(data@.map_values(|p: (String, String)| (p.0@, p.1@)) =~~= common_data_model(
            *constants,
            *mode,
            match config {
                Some(c) => Some(*c),
                None => None,
            },
            fresh_instance_id@,
        ));
    }
    data
}

} // verus!
