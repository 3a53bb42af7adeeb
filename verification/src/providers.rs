//! Broker connections: the provider catalogue and the saved account
//! connection with its health, permissions and observed data.
use vstd::prelude::*;
use crate::decimal::push_chars;
use crate::ids::{new_uuid_text, uuid_hyphenated};
use crate::protocol::TradeXError;
use crate::text::{chars, owned, push_char, str_eq};

verus! {

#[derive(Clone, Debug, PartialEq, Eq)]
pub struct ProviderField {
    pub id: String,
    pub label: String,
    pub input_type: String,
    pub required: bool,
    pub secret: bool,
    pub max_length: usize,
    pub help_text: String,
    pub environment: String,
}

#[derive(Clone, Debug, PartialEq, Eq)]
pub struct ProviderDefinition {
    pub provider_id: String,
    pub display_name: String,
    pub environment: String,
    pub available: bool,
    pub help_text: String,
    pub fields: Vec<ProviderField>,
    pub required_permissions: Vec<String>,
    pub optional_permissions: Vec<String>,
    pub forbidden_permissions: Vec<String>,
}

pub struct ProviderCatalog {
    pub providers: Vec<ProviderDefinition>,
}

pub struct ProviderSelection {
    pub provider_id: String,
    pub environment: String,
}

pub struct WorkspaceQuery {
    pub workspace_id: String,
}

pub struct AccountQuery {
    pub workspace_id: String,
    pub connection_id: String,
}

pub struct AccountMutation {
    pub workspace_id: String,
    pub connection_id: String,
    pub expected_state_version: String,
}

pub enum Connect {
    Test { workspace_id: String, provider_id: String, environment: String, label: String },
    Confirm {
        workspace_id: String,
        connection_id: String,
        expected_state_version: String,
        acknowledge_unverified: bool,
    },
}

#[derive(Clone, Copy, Debug, PartialEq, Eq, Structural)]
pub enum ConnectionState {
    Connecting,
    ReviewRequired,
    Connected,
    Failed,
    Disconnected,
}

#[derive(Clone, Debug, PartialEq, Eq)]
pub struct PermissionReview {
    pub scope: String,
    pub detected: Vec<String>,
    pub forbidden: Vec<String>,
    pub unsupported: Vec<String>,
    pub acknowledged: bool,
    pub ip_allow_list_status: String,
}

#[derive(Clone, Debug, PartialEq, Eq)]
pub struct AccountHealth {
    pub connection: String,
    pub authentication: String,
    pub credential: String,
    pub private_stream: String,
    pub reconciliation: String,
    pub execution_eligibility: String,
    pub arming: String,
    pub reason: String,
}

#[derive(Clone, Debug, PartialEq, Eq)]
pub struct Balance {
    pub asset: String,
    pub available: String,
    pub total: Option<String>,
    pub reserved: Option<String>,
    pub in_pies: Option<String>,
}

#[derive(Clone, Debug, PartialEq, Eq)]
pub struct Position {
    pub symbol: String,
    pub quantity: String,
    pub market_value: Option<String>,
    pub average_entry_price: Option<String>,
    pub instrument_currency: Option<String>,
    pub market_value_currency: Option<String>,
}

#[derive(Clone, Debug, PartialEq, Eq)]
pub struct OpenOrder {
    pub broker_order_id: String,
    pub symbol: String,
    pub side: String,
    pub quantity: Option<String>,
    pub notional: Option<String>,
    pub filled_quantity: Option<String>,
    pub filled_value: Option<String>,
    pub currency: Option<String>,
    pub status: String,
    pub limit_price: Option<String>,
}

#[derive(Clone, Debug, PartialEq, Eq)]
pub struct AccountData {
    pub remote_account_id: String,
    pub account_type: String,
    pub currency: Option<String>,
    pub balances: Vec<Balance>,
    pub positions: Vec<Position>,
    pub open_orders: Vec<OpenOrder>,
    pub capabilities: Vec<String>,
    pub limitations: Vec<String>,
}

#[derive(Clone, Debug, PartialEq, Eq)]
pub struct AccountConnection {
    pub connection_id: String,
    pub workspace_id: String,
    pub provider_id: String,
    pub environment: String,
    pub label: String,
    pub created_at: String,
    pub updated_at: String,
    pub state_version: String,
    pub connection_state: ConnectionState,
    pub health: AccountHealth,
    pub permissions: PermissionReview,
    pub data: Option<AccountData>,
    pub last_successful_sync: Option<String>,
}

pub struct Accounts {
    pub accounts: Vec<AccountConnection>,
}


/// The help text of a catalogue entry.
pub open spec fn help_text_for(id: Seq<char>, available: bool) -> Seq<char> {
    if id == "local-paper"@ {
        "Built-in; no external credentials. Simulation is not configured yet."@
    } else if id == "trading212"@ {
        "Use the API key and secret for this exact Demo or Live account. Invest/Stocks ISA only; the API does not expose the subtype. Account values use the primary currency; prices retain instrument currency. Scope and IP restrictions cannot be fully inspected. Connection testing only reads data and never arms Live execution."@
    } else if available {
        "Use separate Alpaca Paper credentials. TradeX reads account, positions and open orders. Key scope cannot be fully inspected. No withdrawals, transfers, custody, margin borrowing or leverage management are required or implemented."@
    } else {
        "This provider connection is not available in this build."@
    }
}

/// One credential field of an available provider.
pub open spec fn field_ok(f: ProviderField, id: Seq<char>, paper_label: Seq<char>, other_label: Seq<char>, environment: Seq<char>) -> bool {
    &&& f.id@ == id
    &&& f.label@ == if environment == "PAPER"@ {
        paper_label
    } else {
        other_label
    }
    &&& f.input_type@ == "password"@
    &&& f.required
    &&& f.secret
    &&& f.max_length == 512
    &&& f.help_text@ == "Enter the value for this "@ + environment
        + " account in the native secure window. Never reuse another environment’s credentials."@
    &&& f.environment@ == environment
}

/// The catalogue entry of a provider environment.
pub open spec fn definition_ok(d: ProviderDefinition, id: Seq<char>, label: Seq<char>, environment: Seq<char>) -> bool {
    let available = id == "alpaca"@ || id == "trading212"@;
    &&& d.provider_id@ == id
    &&& d.display_name@ == label
    &&& d.environment@ == environment
    &&& d.available == available
    &&& d.help_text@ == help_text_for(id, available)
    &&& if available {
        d.fields@.len() == 2 && field_ok(d.fields@[0], "apiKey"@, "Paper API key ID"@, "API key"@, environment)
            && field_ok(d.fields@[1], "secret"@, "Paper API secret"@, "API secret"@, environment)
    } else {
        d.fields@.len() == 0
    }
    &&& d.required_permissions@.len() == 3
    &&& d.required_permissions@[0]@ == "account.read"@
    &&& d.required_permissions@[1]@ == "positions.read"@
    &&& d.required_permissions@[2]@ == "orders.read"@
    &&& d.optional_permissions@.len() == 0
    &&& d.forbidden_permissions@.len() == 5
    &&& d.forbidden_permissions@[0]@ == "withdrawal"@
    &&& d.forbidden_permissions@[1]@ == "transfer"@
    &&& d.forbidden_permissions@[2]@ == "custody"@
    &&& d.forbidden_permissions@[3]@ == "margin.borrow"@
    &&& d.forbidden_permissions@[4]@ == "leverage.manage"@
}

/// The provider catalogue, in order.
pub open spec fn is_catalog(c: Seq<ProviderDefinition>) -> bool {
    &&& c.len() == 8
    &&& definition_ok(c[0], "local-paper"@, "Local Paper"@, "LOCAL"@)
    &&& definition_ok(c[1], "alpaca"@, "Alpaca Paper"@, "PAPER"@)
    &&& definition_ok(c[2], "trading212"@, "Trading 212 Demo"@, "DEMO"@)
    &&& definition_ok(c[3], "trading212"@, "Trading 212 Live"@, "LIVE"@)
    &&& definition_ok(c[4], "binance"@, "Binance Spot Testnet"@, "TESTNET"@)
    &&& definition_ok(c[5], "binance"@, "Binance Spot Live"@, "LIVE"@)
    &&& definition_ok(c[6], "bitget"@, "Bitget Spot Demo"@, "DEMO"@)
    &&& definition_ok(c[7], "bitget"@, "Bitget Spot Live"@, "LIVE"@)
}

fn field(id: &str, paper_label: &str, other_label: &str, environment: &str) -> (f: ProviderField)
    ensures
        field_ok(f, id@, paper_label@, other_label@, environment@),
{
    let label = if str_eq(environment, "PAPER") {
        owned(paper_label)
    } else {
        owned(other_label)
    };
    let mut help = owned("Enter the value for this ");
    push_chars(&mut help, &chars(environment));
    push_chars(
        &mut help,
        &chars(" account in the native secure window. Never reuse another environment’s credentials."),
    );
    ProviderField {
        id: owned(id),
        label,
        input_type: owned("password"),
        required: true,
        secret: true,
        max_length: 512,
        help_text: help,
        environment: owned(environment),
    }
}

fn texts3(a: &str, b: &str, c: &str) -> (r: Vec<String>)
    ensures
        r@.len() == 3,
        r@[0]@ == a@,
        r@[1]@ == b@,
        r@[2]@ == c@,
{
    let mut r: Vec<String> = Vec::new();
    r.push(owned(a));
    r.push(owned(b));
    r.push(owned(c));
    r
}

fn entry(id: &str, label: &str, environment: &str) -> (d: ProviderDefinition)
    ensures
        definition_ok(d, id@, label@, environment@),
{
    let available = str_eq(id, "alpaca") || str_eq(id, "trading212");
    let help = if str_eq(id, "local-paper") {
        "Built-in; no external credentials. Simulation is not configured yet."
    } else if str_eq(id, "trading212") {
        "Use the API key and secret for this exact Demo or Live account. Invest/Stocks ISA only; the API does not expose the subtype. Account values use the primary currency; prices retain instrument currency. Scope and IP restrictions cannot be fully inspected. Connection testing only reads data and never arms Live execution."
    } else if available {
        "Use separate Alpaca Paper credentials. TradeX reads account, positions and open orders. Key scope cannot be fully inspected. No withdrawals, transfers, custody, margin borrowing or leverage management are required or implemented."
    } else {
        "This provider connection is not available in this build."
    };
    let mut fields: Vec<ProviderField> = Vec::new();
    if available {
        fields.push(field("apiKey", "Paper API key ID", "API key", environment));
        fields.push(field("secret", "Paper API secret", "API secret", environment));
    }
    let mut forbidden = texts3("withdrawal", "transfer", "custody");
    forbidden.push(owned("margin.borrow"));
    forbidden.push(owned("leverage.manage"));
    ProviderDefinition {
        provider_id: owned(id),
        display_name: owned(label),
        environment: owned(environment),
        available,
        help_text: owned(help),
        fields,
        required_permissions: texts3("account.read", "positions.read", "orders.read"),
        optional_permissions: Vec::new(),
        forbidden_permissions: forbidden,
    }
}

/// The providers a workspace can connect, one entry per environment.
pub fn catalog() -> (c: ProviderCatalog)
    ensures
        is_catalog(c.providers@),
{
    let mut providers: Vec<ProviderDefinition> = Vec::new();
    providers.push(entry("local-paper", "Local Paper", "LOCAL"));
    providers.push(entry("alpaca", "Alpaca Paper", "PAPER"));
    providers.push(entry("trading212", "Trading 212 Demo", "DEMO"));
    providers.push(entry("trading212", "Trading 212 Live", "LIVE"));
    providers.push(entry("binance", "Binance Spot Testnet", "TESTNET"));
    providers.push(entry("binance", "Binance Spot Live", "LIVE"));
    providers.push(entry("bitget", "Bitget Spot Demo", "DEMO"));
    providers.push(entry("bitget", "Bitget Spot Live", "LIVE"));
    ProviderCatalog { providers }
}

/// The connectable provider environments and their catalogue labels.
pub open spec fn supported_label(provider: Seq<char>, environment: Seq<char>) -> Option<Seq<char>> {
    if provider == "alpaca"@ && environment == "PAPER"@ {
        Some("Alpaca Paper"@)
    } else if provider == "trading212"@ && environment == "DEMO"@ {
        Some("Trading 212 Demo"@)
    } else if provider == "trading212"@ && environment == "LIVE"@ {
        Some("Trading 212 Live"@)
    } else {
        None
    }
}

/// The first available catalogue entry for the provider environment, or
/// `PROVIDER_UNSUPPORTED`.
pub fn definition(provider: &str, environment: &str) -> (r: Result<ProviderDefinition, TradeXError>)
    ensures
        match supported_label(provider@, environment@) {
            Some(label) => r matches Ok(d) && definition_ok(d, provider@, label, environment@),
            None => r matches Err(e) && e.code@ == "PROVIDER_UNSUPPORTED"@,
        },
{
    let c = catalog();
    let mut i: usize = 0;
    while i < c.providers.len()
        invariant
            i <= c.providers@.len(),
            is_catalog(c.providers@),
            forall|k: int|
                0 <= k < i ==> !((#[trigger] c.providers@[k]).provider_id@ == provider@
                    && c.providers@[k].environment@ == environment@ && c.providers@[k].available),
        decreases c.providers@.len() - i,
    {
        let d = &c.providers[i];
        if str_eq(d.provider_id.as_str(), provider) && str_eq(d.environment.as_str(), environment)
            && d.available {
            let r = entry_copy(d);
            proof {
                let p = c.providers@;
                if i == 1 {
                    lemma_definition_same(r, p[1], "alpaca"@, "Alpaca Paper"@, "PAPER"@);
                } else if i == 2 {
                    lemma_definition_same(r, p[2], "trading212"@, "Trading 212 Demo"@, "DEMO"@);
                } else if i == 3 {
                    lemma_definition_same(r, p[3], "trading212"@, "Trading 212 Live"@, "LIVE"@);
                } else {
                    reveal_strlit("local-paper");
                    reveal_strlit("bitget");
                    reveal_strlit("alpaca");
                    reveal_strlit("trading212");
                    reveal_strlit("binance");
                    assert(i == 0 || i == 4 || i == 5 || i == 6 || i == 7);
                    assert("local-paper"@.len() == 11);
                    assert("alpaca"@.len() == 6 && "trading212"@.len() == 10 && "binance"@.len() == 7);
                    assert("local-paper"@ != "alpaca"@ && "local-paper"@ != "trading212"@
                        && "local-paper"@ != "binance"@);
                    assert("bitget"@ != "alpaca"@) by {
                        assert("bitget"@[0] != "alpaca"@[0]);
                    }
                    assert("bitget"@ != "trading212"@ && "bitget"@ != "binance"@);
                    assert(!p[0].available);
                    assert(!p[4].available);
                    assert(!p[5].available);
                    assert(!p[6].available);
                    assert(!p[7].available);
                }
            }
            return Ok(r);
        }
        i = i + 1;
    }
    proof {
        assert(!(c.providers@[1].provider_id@ == provider@ && c.providers@[1].environment@ == environment@));
        assert(!(c.providers@[2].provider_id@ == provider@ && c.providers@[2].environment@ == environment@));
        assert(!(c.providers@[3].provider_id@ == provider@ && c.providers@[3].environment@ == environment@));
    }
    Err(TradeXError::new("PROVIDER_UNSUPPORTED"))
}

pub open spec fn definition_same(a: ProviderDefinition, b: ProviderDefinition) -> bool {
    &&& a.provider_id@ == b.provider_id@
    &&& a.display_name@ == b.display_name@
    &&& a.environment@ == b.environment@
    &&& a.available == b.available
    &&& a.help_text@ == b.help_text@
    &&& a.fields@.len() == b.fields@.len()
    &&& forall|k: int| 0 <= k < a.fields@.len() ==> field_same(#[trigger] a.fields@[k], b.fields@[k])
    &&& a.required_permissions@.len() == b.required_permissions@.len()
    &&& forall|k: int|
        0 <= k < a.required_permissions@.len() ==> (#[trigger] a.required_permissions@[k])@
            == b.required_permissions@[k]@
    &&& a.optional_permissions@.len() == b.optional_permissions@.len()
    &&& a.forbidden_permissions@.len() == b.forbidden_permissions@.len()
    &&& forall|k: int|
        0 <= k < a.forbidden_permissions@.len() ==> (#[trigger] a.forbidden_permissions@[k])@
            == b.forbidden_permissions@[k]@
}

proof fn lemma_definition_same(
    a: ProviderDefinition,
    b: ProviderDefinition,
    id: Seq<char>,
    label: Seq<char>,
    env: Seq<char>,
)
    requires
        definition_same(a, b),
        definition_ok(b, id, label, env),
    ensures
        definition_ok(a, id, label, env),
{
    if a.fields@.len() == 2 {
        assert(field_same(a.fields@[0], b.fields@[0]));
        assert(field_same(a.fields@[1], b.fields@[1]));
    }
    assert(a.required_permissions@[0]@ == b.required_permissions@[0]@);
    assert(a.required_permissions@[1]@ == b.required_permissions@[1]@);
    assert(a.required_permissions@[2]@ == b.required_permissions@[2]@);
    assert(a.forbidden_permissions@[0]@ == b.forbidden_permissions@[0]@);
    assert(a.forbidden_permissions@[1]@ == b.forbidden_permissions@[1]@);
    assert(a.forbidden_permissions@[2]@ == b.forbidden_permissions@[2]@);
    assert(a.forbidden_permissions@[3]@ == b.forbidden_permissions@[3]@);
    assert(a.forbidden_permissions@[4]@ == b.forbidden_permissions@[4]@);
}

fn entry_copy(d: &ProviderDefinition) -> (r: ProviderDefinition)
    ensures
        definition_same(r, *d),
{
    let mut fields: Vec<ProviderField> = Vec::new();
    let mut i: usize = 0;
    while i < d.fields.len()
        invariant
            i <= d.fields@.len(),
            fields@.len() == i,
            forall|k: int| 0 <= k < i ==> field_same(#[trigger] fields@[k], d.fields@[k]),
        decreases d.fields@.len() - i,
    {
        let f = &d.fields[i];
        fields.push(
            ProviderField {
                id: owned(f.id.as_str()),
                label: owned(f.label.as_str()),
                input_type: owned(f.input_type.as_str()),
                required: f.required,
                secret: f.secret,
                max_length: f.max_length,
                help_text: owned(f.help_text.as_str()),
                environment: owned(f.environment.as_str()),
            },
        );
        i = i + 1;
    }
    ProviderDefinition {
        provider_id: owned(d.provider_id.as_str()),
        display_name: owned(d.display_name.as_str()),
        environment: owned(d.environment.as_str()),
        available: d.available,
        help_text: owned(d.help_text.as_str()),
        fields,
        required_permissions: copy_texts(&d.required_permissions),
        optional_permissions: copy_texts(&d.optional_permissions),
        forbidden_permissions: copy_texts(&d.forbidden_permissions),
    }
}

pub open spec fn field_same(a: ProviderField, b: ProviderField) -> bool {
    &&& a.id@ == b.id@
    &&& a.label@ == b.label@
    &&& a.input_type@ == b.input_type@
    &&& a.required == b.required
    &&& a.secret == b.secret
    &&& a.max_length == b.max_length
    &&& a.help_text@ == b.help_text@
    &&& a.environment@ == b.environment@
}

fn copy_texts(v: &Vec<String>) -> (r: Vec<String>)
    ensures
        r@.len() == v@.len(),
        forall|k: int| 0 <= k < v@.len() ==> (#[trigger] r@[k])@ == v@[k]@,
{
    let mut r: Vec<String> = Vec::new();
    let mut i: usize = 0;
    while i < v.len()
        invariant
            i <= v@.len(),
            r@.len() == i,
            forall|k: int| 0 <= k < i ==> (#[trigger] r@[k])@ == v@[k]@,
        decreases v@.len() - i,
    {
        r.push(owned(v[i].as_str()));
        i = i + 1;
    }
    r
}

impl AccountConnection {
    /// A new connection awaiting its connection test, created at `now`, with
    /// a fresh random identifier, unverified health and empty permissions.
    pub fn new(
        workspace_id: String,
        provider_id: String,
        environment: String,
        label: String,
        now: String,
    ) -> (r: Result<Self, TradeXError>)
        ensures
            r matches Ok(c) && {
                &&& c.connection_id@.len() == 36
                &&& uuid_hyphenated(c.connection_id@)
                &&& c.workspace_id == workspace_id
                &&& c.provider_id == provider_id
                &&& c.environment@ == environment@
                &&& c.label == label
                &&& c.created_at@ == now@
                &&& c.updated_at@ == now@
                &&& c.state_version@.len() == 0
                &&& c.connection_state == ConnectionState::Connecting
                &&& c.health.connection@ == "CONNECTING"@
                &&& c.health.authentication@ == "UNVERIFIED"@
                &&& c.health.credential@ == "UNCHECKED"@
                &&& c.health.private_stream@ == "NOT_CONFIGURED"@
                &&& c.health.reconciliation@ == "NOT_RUN"@
                &&& c.health.execution_eligibility@ == "BLOCKED"@
                &&& c.health.arming@ == if environment@ == "LIVE"@ {
                    "DISARMED"@
                } else {
                    "NOT_APPLICABLE"@
                }
                &&& c.health.reason@ == "Complete connection testing and permission review."@
                &&& c.permissions.scope@.len() == 0
                &&& c.permissions.detected@.len() == 0
                &&& c.permissions.forbidden@.len() == 0
                &&& c.permissions.unsupported@.len() == 0
                &&& !c.permissions.acknowledged
                &&& c.permissions.ip_allow_list_status@.len() == 0
                &&& c.data is None
                &&& c.last_successful_sync is None
            },
    {
        let arming = if str_eq(environment.as_str(), "LIVE") {
            "DISARMED"
        } else {
            "NOT_APPLICABLE"
        };
        let updated_at = owned(now.as_str());
        Ok(
            AccountConnection {
                connection_id: new_uuid_text(),
                workspace_id,
                provider_id,
                environment,
                label,
                created_at: now,
                updated_at,
                state_version: String::new(),
                connection_state: ConnectionState::Connecting,
                health: AccountHealth {
                    connection: owned("CONNECTING"),
                    authentication: owned("UNVERIFIED"),
                    credential: owned("UNCHECKED"),
                    private_stream: owned("NOT_CONFIGURED"),
                    reconciliation: owned("NOT_RUN"),
                    execution_eligibility: owned("BLOCKED"),
                    arming: owned(arming),
                    reason: owned("Complete connection testing and permission review."),
                },
                permissions: PermissionReview {
                    scope: String::new(),
                    detected: Vec::new(),
                    forbidden: Vec::new(),
                    unsupported: Vec::new(),
                    acknowledged: false,
                    ip_allow_list_status: String::new(),
                },
                data: None,
                last_successful_sync: None,
            },
        )
    }

    /// The vault reference of the connection's credentials:
    /// `workspace/provider/environment/connection`.
    pub fn credential_ref(&self) -> (r: String)
        ensures
            r@ == self.workspace_id@ + seq!['/'] + self.provider_id@ + seq!['/'] + self.environment@
                + seq!['/'] + self.connection_id@,
    {
        let mut r = owned(self.workspace_id.as_str());
        push_char(&mut r, '/');
        push_chars(&mut r, &chars(self.provider_id.as_str()));
        push_char(&mut r, '/');
        push_chars(&mut r, &chars(self.environment.as_str()));
        push_char(&mut r, '/');
        push_chars(&mut r, &chars(self.connection_id.as_str()));
        r
    }

    /// Whether the key has forbidden or unsupported permissions.
    pub fn blocked_permissions(&self) -> (r: bool)
        ensures
            r == (self.permissions.forbidden@.len() > 0 || self.permissions.unsupported@.len() > 0),
    {
        self.permissions.forbidden.len() > 0 || self.permissions.unsupported.len() > 0
    }
}

} // verus!
