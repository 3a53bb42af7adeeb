//! The catalogue of error codes: the message, remediation action and label
//! of each code, its category and whether it may be retried.
use vstd::prelude::*;
use crate::text::{has_prefix, owned, str_eq, str_starts_with};

verus! {

/// Catalogue entries 0 of the error codes: message, remediation action and label.
pub open spec fn catalog_part_0(code: Seq<char>) -> Option<(Seq<char>, Seq<char>, Seq<char>)> {
    if code == "WORKSPACE_PATH_INVALID"@ {
        Some(("Choose an absolute local folder path."@, "choose_workspace"@, "Choose a folder"@))
    } else if code == "WORKSPACE_BUSY"@ {
        Some(("This workspace is open in another process."@, "retry_workspace"@, "Retry opening"@))
    } else if code == "WORKSPACE_SCHEMA_UNSUPPORTED"@ {
        Some(("This workspace needs a compatible TradeX version."@, "check_version"@, "Check application version"@))
    } else if code == "WORKSPACE_INTEGRITY_FAILED"@ {
        Some(("Workspace integrity could not be verified. Existing data was preserved."@, "choose_workspace"@, "Choose another workspace"@))
    } else if code == "WORKSPACE_OPEN_FAILED"@ {
        Some(("The workspace could not be opened. Check folder access and available storage."@, "retry_workspace"@, "Retry opening"@))
    } else if code == "IPC_SCHEMA_UNSUPPORTED"@ {
        Some(("The application and control plane use incompatible schemas."@, "check_version"@, "Check application version"@))
    } else if code == "IPC_COMMAND_UNKNOWN"@ {
        Some(("This command is not supported by the current control plane."@, "check_version"@, "Check application version"@))
    } else if code == "IPC_AGGREGATE_NOT_FOUND"@ {
        Some(("The requested state is not available in the active workspace."@, "reload_snapshot"@, "Reload workspace"@))
    } else if code == "STATE_VERSION_CONFLICT"@ || code == "IPC_REPLAY_UNAVAILABLE"@ {
        Some(("The state cursor cannot be resumed. Reload authoritative state."@, "reload_snapshot"@, "Reload state"@))
    } else if code == "IPC_PAYLOAD_INVALID"@ {
        Some(("The request does not match the supported command schema."@, "retry_request"@, "Review and retry"@))
    } else if code == "DATA_SOURCE_UNKNOWN"@ {
        Some(("That data source is not in the current TradeX policy."@, "reload_snapshot"@, "Reload data sources"@))
    } else if code == "DATA_SOURCE_PROBE_FAILED"@ {
        Some(("The data source probe could not be completed. No source data was changed."@, "retry_request"@, "Retry probe"@))
    } else if code == "MARKET_INSTRUMENT_INVALID"@ {
        Some(("That instrument identifier is not a supported canonical TradeX ID."@, "reload_snapshot"@, "Reload market catalog"@))
    } else if code == "MARKET_INSTRUMENT_NOT_FOUND"@ {
        Some(("The selected instrument is not in the current catalog."@, "reload_snapshot"@, "Reload market catalog"@))
    } else if code == "ORDER_CONTEXT_INVALID"@ {
        Some(("This execution context cannot be used for an order draft or does not match the account."@, "select_execution_context"@, "Choose a compatible context"@))
    } else if code == "ORDER_ACCOUNT_REQUIRED"@ {
        Some(("Select an existing provider account for this execution context."@, "select_account"@, "Select an account"@))
    } else if code == "ORDER_ACCOUNT_INVALID"@ {
        Some(("The selected account is not valid for this workspace or context."@, "select_account"@, "Choose another account"@))
    } else if code == "ORDER_ACCOUNT_NOT_FOUND"@ {
        Some(("That account is no longer available. Reload the account list."@, "select_account"@, "Reload accounts"@))
    } else if code == "ORDER_INSTRUMENT_NOT_FOUND"@ {
        Some(("The selected instrument is no longer in the current catalog."@, "reload_snapshot"@, "Reload market catalog"@))
    } else if code == "ORDER_INSTRUMENT_PROVIDER_UNSUPPORTED"@ {
        Some(("The selected provider does not support this instrument mapping."@, "select_instrument"@, "Choose another instrument"@))
    } else {
        None
    }
}

fn catalog_lookup_0(code: &str) -> (r: Option<(&'static str, &'static str, &'static str)>)
    ensures
        match r {
            Some(t) => catalog_part_0(code@) == Some((t.0@, t.1@, t.2@)),
            None => catalog_part_0(code@) is None,
        },
{
    if str_eq(code, "WORKSPACE_PATH_INVALID") {
        return Some(("Choose an absolute local folder path.", "choose_workspace", "Choose a folder"));
    }
    if str_eq(code, "WORKSPACE_BUSY") {
        return Some(("This workspace is open in another process.", "retry_workspace", "Retry opening"));
    }
    if str_eq(code, "WORKSPACE_SCHEMA_UNSUPPORTED") {
        return Some(("This workspace needs a compatible TradeX version.", "check_version", "Check application version"));
    }
    if str_eq(code, "WORKSPACE_INTEGRITY_FAILED") {
        return Some(("Workspace integrity could not be verified. Existing data was preserved.", "choose_workspace", "Choose another workspace"));
    }
    if str_eq(code, "WORKSPACE_OPEN_FAILED") {
        return Some(("The workspace could not be opened. Check folder access and available storage.", "retry_workspace", "Retry opening"));
    }
    if str_eq(code, "IPC_SCHEMA_UNSUPPORTED") {
        return Some(("The application and control plane use incompatible schemas.", "check_version", "Check application version"));
    }
    if str_eq(code, "IPC_COMMAND_UNKNOWN") {
        return Some(("This command is not supported by the current control plane.", "check_version", "Check application version"));
    }
    if str_eq(code, "IPC_AGGREGATE_NOT_FOUND") {
        return Some(("The requested state is not available in the active workspace.", "reload_snapshot", "Reload workspace"));
    }
    if str_eq(code, "STATE_VERSION_CONFLICT") || str_eq(code, "IPC_REPLAY_UNAVAILABLE") {
        return Some(("The state cursor cannot be resumed. Reload authoritative state.", "reload_snapshot", "Reload state"));
    }
    if str_eq(code, "IPC_PAYLOAD_INVALID") {
        return Some(("The request does not match the supported command schema.", "retry_request", "Review and retry"));
    }
    if str_eq(code, "DATA_SOURCE_UNKNOWN") {
        return Some(("That data source is not in the current TradeX policy.", "reload_snapshot", "Reload data sources"));
    }
    if str_eq(code, "DATA_SOURCE_PROBE_FAILED") {
        return Some(("The data source probe could not be completed. No source data was changed.", "retry_request", "Retry probe"));
    }
    if str_eq(code, "MARKET_INSTRUMENT_INVALID") {
        return Some(("That instrument identifier is not a supported canonical TradeX ID.", "reload_snapshot", "Reload market catalog"));
    }
    if str_eq(code, "MARKET_INSTRUMENT_NOT_FOUND") {
        return Some(("The selected instrument is not in the current catalog.", "reload_snapshot", "Reload market catalog"));
    }
    if str_eq(code, "ORDER_CONTEXT_INVALID") {
        return Some(("This execution context cannot be used for an order draft or does not match the account.", "select_execution_context", "Choose a compatible context"));
    }
    if str_eq(code, "ORDER_ACCOUNT_REQUIRED") {
        return Some(("Select an existing provider account for this execution context.", "select_account", "Select an account"));
    }
    if str_eq(code, "ORDER_ACCOUNT_INVALID") {
        return Some(("The selected account is not valid for this workspace or context.", "select_account", "Choose another account"));
    }
    if str_eq(code, "ORDER_ACCOUNT_NOT_FOUND") {
        return Some(("That account is no longer available. Reload the account list.", "select_account", "Reload accounts"));
    }
    if str_eq(code, "ORDER_INSTRUMENT_NOT_FOUND") {
        return Some(("The selected instrument is no longer in the current catalog.", "reload_snapshot", "Reload market catalog"));
    }
    if str_eq(code, "ORDER_INSTRUMENT_PROVIDER_UNSUPPORTED") {
        return Some(("The selected provider does not support this instrument mapping.", "select_instrument", "Choose another instrument"));
    }
    None
}

/// Catalogue entries 1 of the error codes: message, remediation action and label.
pub open spec fn catalog_part_1(code: Seq<char>) -> Option<(Seq<char>, Seq<char>, Seq<char>)> {
    if code == "ORDER_VENUE_INVALID"@ {
        Some(("The venue does not match the selected instrument and execution context."@, "select_venue"@, "Choose a compatible venue"@))
    } else if code == "ORDER_DECIMAL_INVALID"@ {
        Some(("Enter a decimal amount without exponent notation."@, "edit_order_amount"@, "Review order amount"@))
    } else if code == "ORDER_AMOUNT_INVALID"@ {
        Some(("Order quantity and prices must be greater than zero."@, "edit_order_amount"@, "Review order amount"@))
    } else if code == "ORDER_LIMIT_PRICE_REQUIRED"@ {
        Some(("A limit price is required for a limit order."@, "edit_order_amount"@, "Enter a limit price"@))
    } else if code == "ORDER_MARKET_PRICE_FORBIDDEN"@ {
        Some(("Market orders cannot include a limit price."@, "edit_order_amount"@, "Remove the limit price"@))
    } else if code == "ORDER_TIF_INVALID"@ {
        Some(("This time in force is not supported for the selected order type."@, "edit_order_type"@, "Choose a compatible time in force"@))
    } else if code == "ORDER_SUBMIT_FORBIDDEN"@ {
        Some(("Confirm Alpaca Paper orders from the main Trade surface. Agents and research tools cannot submit orders."@, "open_trade_surface"@, "Open Trade"@))
    } else if code == "ORDER_ATTEMPT_NOT_FOUND"@ {
        Some(("No saved Alpaca Paper attempt exists for this proposal. Reload its authoritative state."@, "reload_snapshot"@, "Reload proposal"@))
    } else if code == "ORDER_PROPOSAL_CONSUMED"@ {
        Some(("This proposal already has a saved Alpaca Paper submission attempt. Check its status; do not submit it again."@, "reload_snapshot"@, "Reload attempt"@))
    } else if code == "ORDER_PROPOSAL_NOT_ELIGIBLE"@ {
        Some(("Only a current Alpaca Paper proposal bound to its connected account can be submitted."@, "reload_snapshot"@, "Reload proposal"@))
    } else if code == "ORDER_ASSET_UNAVAILABLE"@ {
        Some(("Alpaca could not find this canonical equity symbol for Paper trading."@, "select_instrument"@, "Choose another instrument"@))
    } else if code == "ORDER_ASSET_UNTRADABLE"@ {
        Some(("Alpaca reports this asset as inactive or not tradable. Choose an eligible instrument."@, "select_instrument"@, "Review instrument"@))
    } else if code == "ORDER_ASSET_NOT_FRACTIONABLE"@ {
        Some(("Alpaca does not allow fractional orders for this asset. Use a whole-share quantity or another instrument."@, "edit_order_amount"@, "Review quantity"@))
    } else if code == "ORDER_INSUFFICIENT_POSITION"@ {
        Some(("The Alpaca Paper account does not have enough available long shares for this sell. Opening short positions is disabled."@, "reload_snapshot"@, "Refresh positions"@))
    } else if code == "ORDER_BUYING_POWER_INSUFFICIENT"@ {
        Some(("Alpaca reports insufficient buying power for this Paper order. Review the account and order size, then create a new proposal."@, "reload_snapshot"@, "Refresh account"@))
    } else if code == "ORDER_CAPABILITY_UNSUPPORTED"@ {
        Some(("TradeX cannot verify this Alpaca Paper order combination for this account. Review the order terms and account permissions."@, "edit_order_type"@, "Review order terms"@))
    } else if code == "ORDER_STATUS_UNKNOWN"@ {
        Some(("Alpaca has not established this order's status. Reconcile by client order ID; do not submit it again."@, "retry_provider"@, "Reconcile order"@))
    } else if code == "PROVIDER_ORDER_REJECTED"@ {
        Some(("Alpaca rejected the Paper order. Review the order terms and account restrictions before creating a new proposal."@, "reload_snapshot"@, "Review provider status"@))
    } else if code == "ORDER_DRAFT_NOT_FOUND"@ {
        Some(("That order draft is no longer available. Reload the draft library."@, "reload_snapshot"@, "Reload drafts"@))
    } else if code == "ORDER_PROPOSAL_NOT_FOUND"@ {
        Some(("That order proposal is no longer available. Reload proposal history."@, "reload_snapshot"@, "Reload proposals"@))
    } else {
        None
    }
}

fn catalog_lookup_1(code: &str) -> (r: Option<(&'static str, &'static str, &'static str)>)
    ensures
        match r {
            Some(t) => catalog_part_1(code@) == Some((t.0@, t.1@, t.2@)),
            None => catalog_part_1(code@) is None,
        },
{
    if str_eq(code, "ORDER_VENUE_INVALID") {
        return Some(("The venue does not match the selected instrument and execution context.", "select_venue", "Choose a compatible venue"));
    }
    if str_eq(code, "ORDER_DECIMAL_INVALID") {
        return Some(("Enter a decimal amount without exponent notation.", "edit_order_amount", "Review order amount"));
    }
    if str_eq(code, "ORDER_AMOUNT_INVALID") {
        return Some(("Order quantity and prices must be greater than zero.", "edit_order_amount", "Review order amount"));
    }
    if str_eq(code, "ORDER_LIMIT_PRICE_REQUIRED") {
        return Some(("A limit price is required for a limit order.", "edit_order_amount", "Enter a limit price"));
    }
    if str_eq(code, "ORDER_MARKET_PRICE_FORBIDDEN") {
        return Some(("Market orders cannot include a limit price.", "edit_order_amount", "Remove the limit price"));
    }
    if str_eq(code, "ORDER_TIF_INVALID") {
        return Some(("This time in force is not supported for the selected order type.", "edit_order_type", "Choose a compatible time in force"));
    }
    if str_eq(code, "ORDER_SUBMIT_FORBIDDEN") {
        return Some(("Confirm Alpaca Paper orders from the main Trade surface. Agents and research tools cannot submit orders.", "open_trade_surface", "Open Trade"));
    }
    if str_eq(code, "ORDER_ATTEMPT_NOT_FOUND") {
        return Some(("No saved Alpaca Paper attempt exists for this proposal. Reload its authoritative state.", "reload_snapshot", "Reload proposal"));
    }
    if str_eq(code, "ORDER_PROPOSAL_CONSUMED") {
        return Some(("This proposal already has a saved Alpaca Paper submission attempt. Check its status; do not submit it again.", "reload_snapshot", "Reload attempt"));
    }
    if str_eq(code, "ORDER_PROPOSAL_NOT_ELIGIBLE") {
        return Some(("Only a current Alpaca Paper proposal bound to its connected account can be submitted.", "reload_snapshot", "Reload proposal"));
    }
    if str_eq(code, "ORDER_ASSET_UNAVAILABLE") {
        return Some(("Alpaca could not find this canonical equity symbol for Paper trading.", "select_instrument", "Choose another instrument"));
    }
    if str_eq(code, "ORDER_ASSET_UNTRADABLE") {
        return Some(("Alpaca reports this asset as inactive or not tradable. Choose an eligible instrument.", "select_instrument", "Review instrument"));
    }
    if str_eq(code, "ORDER_ASSET_NOT_FRACTIONABLE") {
        return Some(("Alpaca does not allow fractional orders for this asset. Use a whole-share quantity or another instrument.", "edit_order_amount", "Review quantity"));
    }
    if str_eq(code, "ORDER_INSUFFICIENT_POSITION") {
        return Some(("The Alpaca Paper account does not have enough available long shares for this sell. Opening short positions is disabled.", "reload_snapshot", "Refresh positions"));
    }
    if str_eq(code, "ORDER_BUYING_POWER_INSUFFICIENT") {
        return Some(("Alpaca reports insufficient buying power for this Paper order. Review the account and order size, then create a new proposal.", "reload_snapshot", "Refresh account"));
    }
    if str_eq(code, "ORDER_CAPABILITY_UNSUPPORTED") {
        return Some(("TradeX cannot verify this Alpaca Paper order combination for this account. Review the order terms and account permissions.", "edit_order_type", "Review order terms"));
    }
    if str_eq(code, "ORDER_STATUS_UNKNOWN") {
        return Some(("Alpaca has not established this order's status. Reconcile by client order ID; do not submit it again.", "retry_provider", "Reconcile order"));
    }
    if str_eq(code, "PROVIDER_ORDER_REJECTED") {
        return Some(("Alpaca rejected the Paper order. Review the order terms and account restrictions before creating a new proposal.", "reload_snapshot", "Review provider status"));
    }
    if str_eq(code, "ORDER_DRAFT_NOT_FOUND") {
        return Some(("That order draft is no longer available. Reload the draft library.", "reload_snapshot", "Reload drafts"));
    }
    if str_eq(code, "ORDER_PROPOSAL_NOT_FOUND") {
        return Some(("That order proposal is no longer available. Reload proposal history.", "reload_snapshot", "Reload proposals"));
    }
    None
}

/// Catalogue entries 2 of the error codes: message, remediation action and label.
pub open spec fn catalog_part_2(code: Seq<char>) -> Option<(Seq<char>, Seq<char>, Seq<char>)> {
    if code == "ORDER_PROPOSAL_NOT_REFRESHABLE"@ {
        Some(("This proposal is already invalidated and must be regenerated from the current draft."@, "reload_snapshot"@, "Reload proposal history"@))
    } else if code == "PAPER_PROPOSAL_INVALID"@ {
        Some(("Only a current Local Paper proposal can be submitted by the simulation engine."@, "reload_snapshot"@, "Reload proposal"@))
    } else if code == "PAPER_PROPOSAL_NOT_SELECTED"@ {
        Some(("Select the Local Paper proposal from the Trade surface before submitting it."@, "reload_snapshot"@, "Select proposal"@))
    } else if code == "PAPER_PROPOSAL_CONSUMED"@ {
        Some(("This proposal has already been consumed by a Local Paper order."@, "reload_snapshot"@, "Reload order history"@))
    } else if code == "PAPER_IDEMPOTENCY_CONFLICT"@ {
        Some(("That idempotency key belongs to another Local Paper order."@, "retry_request"@, "Retry with a new key"@))
    } else if code == "PAPER_QUOTE_UNAVAILABLE"@ {
        Some(("The deterministic Local Paper quote is unavailable for this proposal."@, "retry_request"@, "Retry submission"@))
    } else if code == "PAPER_LIMIT_NOT_CROSSED"@ {
        Some(("The Local Paper limit order remains open because its limit does not cross the deterministic simulation quote."@, "reload_snapshot"@, "Review open order"@))
    } else if code == "PAPER_ORDER_NOT_FOUND"@ {
        Some(("That Local Paper order is no longer available in this workspace."@, "reload_snapshot"@, "Reload simulation"@))
    } else if code == "PAPER_ORDER_NOT_CANCELLABLE"@ {
        Some(("This Local Paper order is already terminal and cannot be cancelled."@, "reload_snapshot"@, "Reload order state"@))
    } else if code == "PAPER_SCENARIO_INVALID"@ {
        Some(("The Local Paper scenario or profile is outside the bounded simulation contract."@, "edit_order_amount"@, "Choose a supported scenario"@))
    } else if code == "PAPER_SCENARIO_ORDER_OPEN"@ {
        Some(("Close open Local Paper orders before changing the simulation scenario."@, "reload_snapshot"@, "Review open orders"@))
    } else if code == "PAPER_SCENARIO_AGENT_FORBIDDEN"@ {
        Some(("Agents cannot mutate the Local Paper simulation profile. Use the Trade surface."@, "select_proposal"@, "Open Trade surface"@))
    } else if code == "PAPER_QUOTE_REFRESH_AGENT_FORBIDDEN"@ {
        Some(("Agents cannot refresh the Local Paper quote. Use the Trade surface."@, "select_proposal"@, "Open Trade surface"@))
    } else if code == "PAPER_MAXIMUM_SPEND_EXCEEDED"@ {
        Some(("The deterministic Local Paper fill exceeds the proposal maximum spend."@, "edit_order_amount"@, "Review maximum spend"@))
    } else if code == "PAPER_INSUFFICIENT_CASH"@ {
        Some(("The Local Paper account does not have enough simulation cash for this order."@, "reload_snapshot"@, "Review simulation balance"@))
    } else if code == "PAPER_INSUFFICIENT_POSITION"@ {
        Some(("The Local Paper account does not have enough simulated position to sell."@, "reload_snapshot"@, "Review simulation position"@))
    } else if code == "PAPER_QUANTITY_UNREPRESENTABLE"@ {
        Some(("The requested quote quantity cannot be represented at the simulation quote precision."@, "edit_order_amount"@, "Review order quantity"@))
    } else if code == "PAPER_ACCOUNT_INVALID"@ {
        Some(("The Local Paper account is not valid for this workspace."@, "reload_snapshot"@, "Reload account state"@))
    } else if code == "PAPER_STATE_LIMIT"@ {
        Some(("The Local Paper event history reached its bounded limit."@, "reload_snapshot"@, "Reload simulation state"@))
    } else if code == "MARKET_HISTORY_LIMIT"@ {
        Some(("The local historical cache reached its bounded storage limit."@, "retry_request"@, "Retry after cleanup"@))
    } else {
        None
    }
}

fn catalog_lookup_2(code: &str) -> (r: Option<(&'static str, &'static str, &'static str)>)
    ensures
        match r {
            Some(t) => catalog_part_2(code@) == Some((t.0@, t.1@, t.2@)),
            None => catalog_part_2(code@) is None,
        },
{
    if str_eq(code, "ORDER_PROPOSAL_NOT_REFRESHABLE") {
        return Some(("This proposal is already invalidated and must be regenerated from the current draft.", "reload_snapshot", "Reload proposal history"));
    }
    if str_eq(code, "PAPER_PROPOSAL_INVALID") {
        return Some(("Only a current Local Paper proposal can be submitted by the simulation engine.", "reload_snapshot", "Reload proposal"));
    }
    if str_eq(code, "PAPER_PROPOSAL_NOT_SELECTED") {
        return Some(("Select the Local Paper proposal from the Trade surface before submitting it.", "reload_snapshot", "Select proposal"));
    }
    if str_eq(code, "PAPER_PROPOSAL_CONSUMED") {
        return Some(("This proposal has already been consumed by a Local Paper order.", "reload_snapshot", "Reload order history"));
    }
    if str_eq(code, "PAPER_IDEMPOTENCY_CONFLICT") {
        return Some(("That idempotency key belongs to another Local Paper order.", "retry_request", "Retry with a new key"));
    }
    if str_eq(code, "PAPER_QUOTE_UNAVAILABLE") {
        return Some(("The deterministic Local Paper quote is unavailable for this proposal.", "retry_request", "Retry submission"));
    }
    if str_eq(code, "PAPER_LIMIT_NOT_CROSSED") {
        return Some(("The Local Paper limit order remains open because its limit does not cross the deterministic simulation quote.", "reload_snapshot", "Review open order"));
    }
    if str_eq(code, "PAPER_ORDER_NOT_FOUND") {
        return Some(("That Local Paper order is no longer available in this workspace.", "reload_snapshot", "Reload simulation"));
    }
    if str_eq(code, "PAPER_ORDER_NOT_CANCELLABLE") {
        return Some(("This Local Paper order is already terminal and cannot be cancelled.", "reload_snapshot", "Reload order state"));
    }
    if str_eq(code, "PAPER_SCENARIO_INVALID") {
        return Some(("The Local Paper scenario or profile is outside the bounded simulation contract.", "edit_order_amount", "Choose a supported scenario"));
    }
    if str_eq(code, "PAPER_SCENARIO_ORDER_OPEN") {
        return Some(("Close open Local Paper orders before changing the simulation scenario.", "reload_snapshot", "Review open orders"));
    }
    if str_eq(code, "PAPER_SCENARIO_AGENT_FORBIDDEN") {
        return Some(("Agents cannot mutate the Local Paper simulation profile. Use the Trade surface.", "select_proposal", "Open Trade surface"));
    }
    if str_eq(code, "PAPER_QUOTE_REFRESH_AGENT_FORBIDDEN") {
        return Some(("Agents cannot refresh the Local Paper quote. Use the Trade surface.", "select_proposal", "Open Trade surface"));
    }
    if str_eq(code, "PAPER_MAXIMUM_SPEND_EXCEEDED") {
        return Some(("The deterministic Local Paper fill exceeds the proposal maximum spend.", "edit_order_amount", "Review maximum spend"));
    }
    if str_eq(code, "PAPER_INSUFFICIENT_CASH") {
        return Some(("The Local Paper account does not have enough simulation cash for this order.", "reload_snapshot", "Review simulation balance"));
    }
    if str_eq(code, "PAPER_INSUFFICIENT_POSITION") {
        return Some(("The Local Paper account does not have enough simulated position to sell.", "reload_snapshot", "Review simulation position"));
    }
    if str_eq(code, "PAPER_QUANTITY_UNREPRESENTABLE") {
        return Some(("The requested quote quantity cannot be represented at the simulation quote precision.", "edit_order_amount", "Review order quantity"));
    }
    if str_eq(code, "PAPER_ACCOUNT_INVALID") {
        return Some(("The Local Paper account is not valid for this workspace.", "reload_snapshot", "Reload account state"));
    }
    if str_eq(code, "PAPER_STATE_LIMIT") {
        return Some(("The Local Paper event history reached its bounded limit.", "reload_snapshot", "Reload simulation state"));
    }
    if str_eq(code, "MARKET_HISTORY_LIMIT") {
        return Some(("The local historical cache reached its bounded storage limit.", "retry_request", "Retry after cleanup"));
    }
    None
}

/// Catalogue entries 3 of the error codes: message, remediation action and label.
pub open spec fn catalog_part_3(code: Seq<char>) -> Option<(Seq<char>, Seq<char>, Seq<char>)> {
    if code == "MARKET_HISTORY_UNAVAILABLE"@ {
        Some(("The historical market source is unavailable or not entitled; no history was stored."@, "reload_snapshot"@, "Review data sources"@))
    } else if code == "MARKET_CLOSED"@ {
        Some(("The market session is closed or unavailable; live authority remains blocked."@, "view_market_state"@, "View market state"@))
    } else if code == "INSTRUMENT_HALTED"@ {
        Some(("The instrument is halted; live authority remains blocked until the venue recovers."@, "view_market_state"@, "View market state"@))
    } else if code == "WATCHLIST_NAME_CONFLICT"@ {
        Some(("A watchlist with this name already exists in the workspace."@, "choose_watchlist_name"@, "Choose another name"@))
    } else if code == "WATCHLIST_NOT_FOUND"@ {
        Some(("That watchlist is no longer available. Reload the watchlist library."@, "reload_snapshot"@, "Reload watchlists"@))
    } else if code == "PROVIDER_ALREADY_CONNECTED"@ {
        Some(("This account is already connected in this environment. Use the existing connection."@, "select_account"@, "Open existing connection"@))
    } else if code == "ACCOUNT_DELETE_BLOCKED"@ {
        Some(("This local connection cannot be deleted while it is connected, has a credential, or has open or unresolved TradeX activity. Reload account state after resolving it."@, "reload_snapshot"@, "Reload account state"@))
    } else if code == "PROVIDER_UNSUPPORTED"@ {
        Some(("This provider/environment does not support the requested operation."@, "choose_provider"@, "Choose a supported provider"@))
    } else if code == "PROVIDER_NATIVE_ENTRY_REQUIRED"@ {
        Some(("Open the desktop app to enter credentials securely."@, "open_desktop"@, "Open TradeX"@))
    } else if code == "PROVIDER_ENTRY_BUSY"@ {
        Some(("Finish or cancel the open credential window before starting another connection."@, "finish_entry"@, "Return to credential entry"@))
    } else if code == "PROVIDER_ENTRY_CANCELLED"@ {
        Some(("Credential entry was cancelled. No connection was confirmed."@, "connect_provider"@, "Connect again"@))
    } else if code == "PROVIDER_AUTH_FAILED"@ {
        Some(("The provider rejected these credentials or their read permissions."@, "reconnect_provider"@, "Reconnect with valid credentials"@))
    } else if code == "PROVIDER_RATE_LIMITED"@ {
        Some(("The provider rate limit was reached. Wait before retrying."@, "retry_provider"@, "Retry later"@))
    } else if code == "PROVIDER_UNAVAILABLE"@ {
        Some(("The provider could not be reached. Saved observations are stale."@, "retry_provider"@, "Retry connection"@))
    } else if code == "CLOCK_SKEW"@ {
        Some(("TradeX time could not be trusted. Live authority decisions remain blocked."@, "time_revalidate"@, "Synchronize time"@))
    } else if code == "PROVIDER_RESPONSE_INVALID"@ {
        Some(("The provider response could not be validated. Saved observations were preserved."@, "retry_provider"@, "Retry connection"@))
    } else if code == "PROVIDER_DATA_INCOMPLETE"@ {
        Some(("The provider result is incomplete. It cannot be treated as a fresh account snapshot."@, "retry_provider"@, "Retry connection"@))
    } else if code == "PROVIDER_IDENTITY_CHANGED"@ {
        Some(("The provider returned a different account identity. Disconnect and reconnect."@, "reconnect_provider"@, "Reconnect account"@))
    } else if code == "PROVIDER_REVIEW_REQUIRED"@ {
        Some(("Test this connection and explicitly review its current permissions before confirming."@, "review_permissions"@, "Review permissions"@))
    } else if code == "PROVIDER_PERMISSION_BLOCKED"@ {
        Some(("Forbidden or unsupported permissions block readiness. Remove them at the provider and test again."@, "review_permissions"@, "Review permissions"@))
    } else {
        None
    }
}

fn catalog_lookup_3(code: &str) -> (r: Option<(&'static str, &'static str, &'static str)>)
    ensures
        match r {
            Some(t) => catalog_part_3(code@) == Some((t.0@, t.1@, t.2@)),
            None => catalog_part_3(code@) is None,
        },
{
    if str_eq(code, "MARKET_HISTORY_UNAVAILABLE") {
        return Some(("The historical market source is unavailable or not entitled; no history was stored.", "reload_snapshot", "Review data sources"));
    }
    if str_eq(code, "MARKET_CLOSED") {
        return Some(("The market session is closed or unavailable; live authority remains blocked.", "view_market_state", "View market state"));
    }
    if str_eq(code, "INSTRUMENT_HALTED") {
        return Some(("The instrument is halted; live authority remains blocked until the venue recovers.", "view_market_state", "View market state"));
    }
    if str_eq(code, "WATCHLIST_NAME_CONFLICT") {
        return Some(("A watchlist with this name already exists in the workspace.", "choose_watchlist_name", "Choose another name"));
    }
    if str_eq(code, "WATCHLIST_NOT_FOUND") {
        return Some(("That watchlist is no longer available. Reload the watchlist library.", "reload_snapshot", "Reload watchlists"));
    }
    if str_eq(code, "PROVIDER_ALREADY_CONNECTED") {
        return Some(("This account is already connected in this environment. Use the existing connection.", "select_account", "Open existing connection"));
    }
    if str_eq(code, "ACCOUNT_DELETE_BLOCKED") {
        return Some(("This local connection cannot be deleted while it is connected, has a credential, or has open or unresolved TradeX activity. Reload account state after resolving it.", "reload_snapshot", "Reload account state"));
    }
    if str_eq(code, "PROVIDER_UNSUPPORTED") {
        return Some(("This provider/environment does not support the requested operation.", "choose_provider", "Choose a supported provider"));
    }
    if str_eq(code, "PROVIDER_NATIVE_ENTRY_REQUIRED") {
        return Some(("Open the desktop app to enter credentials securely.", "open_desktop", "Open TradeX"));
    }
    if str_eq(code, "PROVIDER_ENTRY_BUSY") {
        return Some(("Finish or cancel the open credential window before starting another connection.", "finish_entry", "Return to credential entry"));
    }
    if str_eq(code, "PROVIDER_ENTRY_CANCELLED") {
        return Some(("Credential entry was cancelled. No connection was confirmed.", "connect_provider", "Connect again"));
    }
    if str_eq(code, "PROVIDER_AUTH_FAILED") {
        return Some(("The provider rejected these credentials or their read permissions.", "reconnect_provider", "Reconnect with valid credentials"));
    }
    if str_eq(code, "PROVIDER_RATE_LIMITED") {
        return Some(("The provider rate limit was reached. Wait before retrying.", "retry_provider", "Retry later"));
    }
    if str_eq(code, "PROVIDER_UNAVAILABLE") {
        return Some(("The provider could not be reached. Saved observations are stale.", "retry_provider", "Retry connection"));
    }
    if str_eq(code, "CLOCK_SKEW") {
        return Some(("TradeX time could not be trusted. Live authority decisions remain blocked.", "time_revalidate", "Synchronize time"));
    }
    if str_eq(code, "PROVIDER_RESPONSE_INVALID") {
        return Some(("The provider response could not be validated. Saved observations were preserved.", "retry_provider", "Retry connection"));
    }
    if str_eq(code, "PROVIDER_DATA_INCOMPLETE") {
        return Some(("The provider result is incomplete. It cannot be treated as a fresh account snapshot.", "retry_provider", "Retry connection"));
    }
    if str_eq(code, "PROVIDER_IDENTITY_CHANGED") {
        return Some(("The provider returned a different account identity. Disconnect and reconnect.", "reconnect_provider", "Reconnect account"));
    }
    if str_eq(code, "PROVIDER_REVIEW_REQUIRED") {
        return Some(("Test this connection and explicitly review its current permissions before confirming.", "review_permissions", "Review permissions"));
    }
    if str_eq(code, "PROVIDER_PERMISSION_BLOCKED") {
        return Some(("Forbidden or unsupported permissions block readiness. Remove them at the provider and test again.", "review_permissions", "Review permissions"));
    }
    None
}

/// Catalogue entries 4 of the error codes: message, remediation action and label.
pub open spec fn catalog_part_4(code: Seq<char>) -> Option<(Seq<char>, Seq<char>, Seq<char>)> {
    if code == "CREDENTIAL_UNAVAILABLE"@ {
        Some(("The OS Keychain credential is missing or unavailable. Reconnect this account."@, "reconnect_provider"@, "Reconnect account"@))
    } else if code == "CREDENTIAL_STORE_FAILED"@ {
        Some(("The credential could not be saved to OS Keychain. No file fallback was used."@, "retry_provider"@, "Retry secure entry"@))
    } else if code == "CREDENTIAL_DELETE_FAILED"@ {
        Some(("Local access is stopped, but Keychain cleanup needs another attempt."@, "disconnect_provider"@, "Retry Disconnect"@))
    } else if code == "MODEL_NATIVE_ENTRY_REQUIRED"@ {
        Some(("Open the desktop app to configure this model securely."@, "open_desktop"@, "Open TradeX"@))
    } else if code == "MODEL_ENTRY_BUSY"@ {
        Some(("Finish or cancel the open model credential window before starting another one."@, "finish_entry"@, "Return to credential entry"@))
    } else if code == "MODEL_ENTRY_CANCELLED"@ {
        Some(("Model credential entry was cancelled. The previous configuration was preserved."@, "configure_model"@, "Configure again"@))
    } else if code == "MODEL_GATEWAY_RUNNING"@ {
        Some(("Stop the model gateway before replacing the DeepSeek key, then launch it again."@, "stop_gateway"@, "Stop gateway"@))
    } else if code == "MODEL_DEFAULT_MISSING"@ {
        Some(("Choose a verified default model route before starting a model request."@, "choose_model"@, "Choose default model"@))
    } else if code == "MODEL_FALLBACK_UNAVAILABLE"@ {
        Some(("Automatic fallback needs a verified DeepSeek route in the current workspace."@, "verify_model"@, "Verify DeepSeek"@))
    } else if code == "MODEL_QUOTA_COOLDOWN"@ {
        Some(("The selected model is in its known provider cooldown. Retry after the reset window."@, "retry_model"@, "Retry after cooldown"@))
    } else if code == "MODEL_KEY_INVALID"@ {
        Some(("Enter a valid printable DeepSeek API key, or cancel without saving."@, "configure_model"@, "Configure again"@))
    } else if code == "MODEL_KEYCHAIN_STORE_FAILED"@ {
        Some(("The DeepSeek key could not be saved to OS Keychain. No file fallback was used."@, "configure_model"@, "Retry secure entry"@))
    } else if code == "MODEL_KEYCHAIN_MISSING"@ {
        Some(("The DeepSeek OS Keychain key is unavailable. Configure it again."@, "configure_model"@, "Configure DeepSeek"@))
    } else if code == "MODEL_KEYCHAIN_DELETE_FAILED"@ {
        Some(("The DeepSeek key could not be removed from OS Keychain. Retry the cleanup."@, "configure_model"@, "Retry cleanup"@))
    } else if code == "MODEL_PLATFORM_UNSUPPORTED"@ {
        Some(("Secure model credentials are unavailable on this platform."@, "open_desktop"@, "Open TradeX"@))
    } else if code == "MODEL_ROUTE_INVALID"@ {
        Some(("That provider/model route is not allowed by the current contract."@, "choose_model"@, "Choose a supported model"@))
    } else if code == "MODEL_UNAVAILABLE"@ {
        Some(("The selected model route is unavailable. Retry its probe or choose another verified route."@, "retry_model"@, "Retry model"@))
    } else if code == "MODEL_OAUTH_EXPIRED"@ {
        Some(("ChatGPT authorization expired or was rejected. Re-login before verifying the route."@, "login_chatgpt"@, "Re-login ChatGPT"@))
    } else if code == "MODEL_QUOTA_EXCEEDED"@ {
        Some(("The model provider reported a quota limit. Wait for its known cooldown before retrying."@, "retry_model"@, "Retry after cooldown"@))
    } else if code == "MODEL_LOGIN_FAILED"@ {
        Some(("ChatGPT authorization did not complete. Retry login; no token was imported into TradeX."@, "login_chatgpt"@, "Login ChatGPT"@))
    } else {
        None
    }
}

fn catalog_lookup_4(code: &str) -> (r: Option<(&'static str, &'static str, &'static str)>)
    ensures
        match r {
            Some(t) => catalog_part_4(code@) == Some((t.0@, t.1@, t.2@)),
            None => catalog_part_4(code@) is None,
        },
{
    if str_eq(code, "CREDENTIAL_UNAVAILABLE") {
        return Some(("The OS Keychain credential is missing or unavailable. Reconnect this account.", "reconnect_provider", "Reconnect account"));
    }
    if str_eq(code, "CREDENTIAL_STORE_FAILED") {
        return Some(("The credential could not be saved to OS Keychain. No file fallback was used.", "retry_provider", "Retry secure entry"));
    }
    if str_eq(code, "CREDENTIAL_DELETE_FAILED") {
        return Some(("Local access is stopped, but Keychain cleanup needs another attempt.", "disconnect_provider", "Retry Disconnect"));
    }
    if str_eq(code, "MODEL_NATIVE_ENTRY_REQUIRED") {
        return Some(("Open the desktop app to configure this model securely.", "open_desktop", "Open TradeX"));
    }
    if str_eq(code, "MODEL_ENTRY_BUSY") {
        return Some(("Finish or cancel the open model credential window before starting another one.", "finish_entry", "Return to credential entry"));
    }
    if str_eq(code, "MODEL_ENTRY_CANCELLED") {
        return Some(("Model credential entry was cancelled. The previous configuration was preserved.", "configure_model", "Configure again"));
    }
    if str_eq(code, "MODEL_GATEWAY_RUNNING") {
        return Some(("Stop the model gateway before replacing the DeepSeek key, then launch it again.", "stop_gateway", "Stop gateway"));
    }
    if str_eq(code, "MODEL_DEFAULT_MISSING") {
        return Some(("Choose a verified default model route before starting a model request.", "choose_model", "Choose default model"));
    }
    if str_eq(code, "MODEL_FALLBACK_UNAVAILABLE") {
        return Some(("Automatic fallback needs a verified DeepSeek route in the current workspace.", "verify_model", "Verify DeepSeek"));
    }
    if str_eq(code, "MODEL_QUOTA_COOLDOWN") {
        return Some(("The selected model is in its known provider cooldown. Retry after the reset window.", "retry_model", "Retry after cooldown"));
    }
    if str_eq(code, "MODEL_KEY_INVALID") {
        return Some(("Enter a valid printable DeepSeek API key, or cancel without saving.", "configure_model", "Configure again"));
    }
    if str_eq(code, "MODEL_KEYCHAIN_STORE_FAILED") {
        return Some(("The DeepSeek key could not be saved to OS Keychain. No file fallback was used.", "configure_model", "Retry secure entry"));
    }
    if str_eq(code, "MODEL_KEYCHAIN_MISSING") {
        return Some(("The DeepSeek OS Keychain key is unavailable. Configure it again.", "configure_model", "Configure DeepSeek"));
    }
    if str_eq(code, "MODEL_KEYCHAIN_DELETE_FAILED") {
        return Some(("The DeepSeek key could not be removed from OS Keychain. Retry the cleanup.", "configure_model", "Retry cleanup"));
    }
    if str_eq(code, "MODEL_PLATFORM_UNSUPPORTED") {
        return Some(("Secure model credentials are unavailable on this platform.", "open_desktop", "Open TradeX"));
    }
    if str_eq(code, "MODEL_ROUTE_INVALID") {
        return Some(("That provider/model route is not allowed by the current contract.", "choose_model", "Choose a supported model"));
    }
    if str_eq(code, "MODEL_UNAVAILABLE") {
        return Some(("The selected model route is unavailable. Retry its probe or choose another verified route.", "retry_model", "Retry model"));
    }
    if str_eq(code, "MODEL_OAUTH_EXPIRED") {
        return Some(("ChatGPT authorization expired or was rejected. Re-login before verifying the route.", "login_chatgpt", "Re-login ChatGPT"));
    }
    if str_eq(code, "MODEL_QUOTA_EXCEEDED") {
        return Some(("The model provider reported a quota limit. Wait for its known cooldown before retrying.", "retry_model", "Retry after cooldown"));
    }
    if str_eq(code, "MODEL_LOGIN_FAILED") {
        return Some(("ChatGPT authorization did not complete. Retry login; no token was imported into TradeX.", "login_chatgpt", "Login ChatGPT"));
    }
    None
}

/// Catalogue entries 5 of the error codes: message, remediation action and label.
pub open spec fn catalog_part_5(code: Seq<char>) -> Option<(Seq<char>, Seq<char>, Seq<char>)> {
    if code == "MODEL_LOGIN_TIMEOUT"@ {
        Some(("ChatGPT authorization timed out. Retry login in the browser."@, "login_chatgpt"@, "Login ChatGPT"@))
    } else if code == "MODEL_TEST_INFERENCE_FAILED"@ {
        Some(("The selected route did not complete the bounded setup inference."@, "retry_model"@, "Retry model"@))
    } else if code == "MODEL_NATIVE_REQUIRED"@ {
        Some(("This model action is available only in the desktop app."@, "open_desktop"@, "Open TradeX"@))
    } else if code == "TURN_MESSAGE_INVALID"@ {
        Some(("Enter a non-empty request without control characters."@, "retry_request"@, "Review request"@))
    } else if code == "TURN_CONTEXT_INVALID"@ {
        Some(("This mode and execution context cannot be used together."@, "choose_context"@, "Choose a supported context"@))
    } else if code == "UNSUPPORTED_CAPABILITY"@ {
        Some(("The requested capability is not available for this Turn."@, "choose_context"@, "Choose a supported capability"@))
    } else if code == "RESEARCH_RESULT_INVALID"@ {
        Some(("The typed research result is missing or no longer matches this Turn."@, "retry_request"@, "Refresh research result"@))
    } else if code == "ARTIFACT_NOT_FOUND"@ {
        Some(("That artifact is not available in the active workspace."@, "reload_snapshot"@, "Reload artifacts"@))
    } else if code == "ARTIFACT_SOURCE_INVALID"@ {
        Some(("The selected completed Thread Item is not a valid artifact source."@, "reload_snapshot"@, "Choose another source"@))
    } else if code == "ARTIFACT_REDACTION_FAILED"@ {
        Some(("The artifact contains unsupported sensitive content and was not saved."@, "retry_request"@, "Review content"@))
    } else if code == "ARTIFACT_EXPORT_PATH_INVALID"@ {
        Some(("Choose a safe local JSON filename inside the TradeX exports folder."@, "retry_request"@, "Choose another filename"@))
    } else if code == "ARTIFACT_EXPORT_EXISTS"@ {
        Some(("That export filename already exists. Choose another filename."@, "retry_request"@, "Choose another filename"@))
    } else if code == "ARTIFACT_EXPORT_FAILED"@ {
        Some(("The artifact could not be exported; no partial file was kept."@, "retry_request"@, "Retry export"@))
    } else if code == "STRATEGY_DEFINITION_INVALID"@ {
        Some(("The strategy definition is outside the bounded sandbox contract."@, "edit_strategy"@, "Review strategy"@))
    } else if code == "STRATEGY_PARAMETER_INVALID"@ {
        Some(("Strategy parameters must be unique, bounded and declared by the saved version."@, "edit_strategy"@, "Review parameters"@))
    } else if code == "STRATEGY_VERSION_INVALID"@ || code == "STRATEGY_VERSION_LIMIT"@ {
        Some(("The strategy version could not be saved. Review the bounded version fields."@, "edit_strategy"@, "Review strategy"@))
    } else if code == "STRATEGY_VERSION_NOT_FOUND"@ {
        Some(("That immutable strategy version is no longer available in this workspace."@, "reload_snapshot"@, "Reload strategies"@))
    } else if code == "STRATEGY_HASH_MISMATCH"@ {
        Some(("The selected strategy version hash changed. Reload it before running."@, "reload_snapshot"@, "Reload strategy"@))
    } else if code == "STRATEGY_RUN_INVALID"@ {
        Some(("The strategy run inputs do not match the bounded run contract."@, "review_strategy_run"@, "Review run inputs"@))
    } else if code == "STRATEGY_DATASET_NOT_FOUND"@ {
        Some(("The selected historical dataset is not a canonical TradeX reference."@, "select_dataset"@, "Choose a dataset"@))
    } else {
        None
    }
}

fn catalog_lookup_5(code: &str) -> (r: Option<(&'static str, &'static str, &'static str)>)
    ensures
        match r {
            Some(t) => catalog_part_5(code@) == Some((t.0@, t.1@, t.2@)),
            None => catalog_part_5(code@) is None,
        },
{
    if str_eq(code, "MODEL_LOGIN_TIMEOUT") {
        return Some(("ChatGPT authorization timed out. Retry login in the browser.", "login_chatgpt", "Login ChatGPT"));
    }
    if str_eq(code, "MODEL_TEST_INFERENCE_FAILED") {
        return Some(("The selected route did not complete the bounded setup inference.", "retry_model", "Retry model"));
    }
    if str_eq(code, "MODEL_NATIVE_REQUIRED") {
        return Some(("This model action is available only in the desktop app.", "open_desktop", "Open TradeX"));
    }
    if str_eq(code, "TURN_MESSAGE_INVALID") {
        return Some(("Enter a non-empty request without control characters.", "retry_request", "Review request"));
    }
    if str_eq(code, "TURN_CONTEXT_INVALID") {
        return Some(("This mode and execution context cannot be used together.", "choose_context", "Choose a supported context"));
    }
    if str_eq(code, "UNSUPPORTED_CAPABILITY") {
        return Some(("The requested capability is not available for this Turn.", "choose_context", "Choose a supported capability"));
    }
    if str_eq(code, "RESEARCH_RESULT_INVALID") {
        return Some(("The typed research result is missing or no longer matches this Turn.", "retry_request", "Refresh research result"));
    }
    if str_eq(code, "ARTIFACT_NOT_FOUND") {
        return Some(("That artifact is not available in the active workspace.", "reload_snapshot", "Reload artifacts"));
    }
    if str_eq(code, "ARTIFACT_SOURCE_INVALID") {
        return Some(("The selected completed Thread Item is not a valid artifact source.", "reload_snapshot", "Choose another source"));
    }
    if str_eq(code, "ARTIFACT_REDACTION_FAILED") {
        return Some(("The artifact contains unsupported sensitive content and was not saved.", "retry_request", "Review content"));
    }
    if str_eq(code, "ARTIFACT_EXPORT_PATH_INVALID") {
        return Some(("Choose a safe local JSON filename inside the TradeX exports folder.", "retry_request", "Choose another filename"));
    }
    if str_eq(code, "ARTIFACT_EXPORT_EXISTS") {
        return Some(("That export filename already exists. Choose another filename.", "retry_request", "Choose another filename"));
    }
    if str_eq(code, "ARTIFACT_EXPORT_FAILED") {
        return Some(("The artifact could not be exported; no partial file was kept.", "retry_request", "Retry export"));
    }
    if str_eq(code, "STRATEGY_DEFINITION_INVALID") {
        return Some(("The strategy definition is outside the bounded sandbox contract.", "edit_strategy", "Review strategy"));
    }
    if str_eq(code, "STRATEGY_PARAMETER_INVALID") {
        return Some(("Strategy parameters must be unique, bounded and declared by the saved version.", "edit_strategy", "Review parameters"));
    }
    if str_eq(code, "STRATEGY_VERSION_INVALID") || str_eq(code, "STRATEGY_VERSION_LIMIT") {
        return Some(("The strategy version could not be saved. Review the bounded version fields.", "edit_strategy", "Review strategy"));
    }
    if str_eq(code, "STRATEGY_VERSION_NOT_FOUND") {
        return Some(("That immutable strategy version is no longer available in this workspace.", "reload_snapshot", "Reload strategies"));
    }
    if str_eq(code, "STRATEGY_HASH_MISMATCH") {
        return Some(("The selected strategy version hash changed. Reload it before running.", "reload_snapshot", "Reload strategy"));
    }
    if str_eq(code, "STRATEGY_RUN_INVALID") {
        return Some(("The strategy run inputs do not match the bounded run contract.", "review_strategy_run", "Review run inputs"));
    }
    if str_eq(code, "STRATEGY_DATASET_NOT_FOUND") {
        return Some(("The selected historical dataset is not a canonical TradeX reference.", "select_dataset", "Choose a dataset"));
    }
    None
}

/// Catalogue entries 6 of the error codes: message, remediation action and label.
pub open spec fn catalog_part_6(code: Seq<char>) -> Option<(Seq<char>, Seq<char>, Seq<char>)> {
    if code == "STRATEGY_TIME_UNTRUSTED"@ {
        Some(("TradeX time is not trusted, so this strategy run is blocked."@, "time_revalidate"@, "Revalidate time"@))
    } else if code == "STRATEGY_RUN_NOT_FOUND"@ {
        Some(("That strategy run is no longer available in this workspace."@, "reload_snapshot"@, "Reload runs"@))
    } else if code == "STRATEGY_RUN_NOT_CANCELLABLE"@ {
        Some(("This strategy run has already finished and cannot be cancelled."@, "reload_snapshot"@, "Reload run"@))
    } else if code == "STRATEGY_RUNTIME_UNAVAILABLE"@ {
        Some(("No production strategy runtime is configured, so this run failed closed without synthetic output."@, "retry_strategy_run"@, "Retry strategy run"@))
    } else if code == "STRATEGY_WORKER_FAILED"@ {
        Some(("The restricted strategy worker failed safely without exposing provider secrets."@, "retry_strategy_run"@, "Retry strategy run"@))
    } else if code == "BACKTEST_CONFIG_INVALID"@ || code == "BACKTEST_RUN_INVALID"@ || code == "BACKTEST_DECIMAL_INVALID"@ || code == "BACKTEST_BAR_INTERVAL_INVALID"@ || code == "BACKTEST_DATE_RANGE_INVALID"@ || code == "BACKTEST_PARAMETER_INVALID"@ || code == "BACKTEST_PORTFOLIO_SEED_INVALID"@ {
        Some(("Review the bounded historical backtest configuration."@, "review_backtest"@, "Review backtest"@))
    } else if code == "BACKTEST_INSTRUMENT_NOT_FOUND"@ {
        Some(("Choose a canonical instrument from the market catalog."@, "select_instrument"@, "Choose instrument"@))
    } else if code == "BACKTEST_DATASET_NOT_FOUND"@ {
        Some(("Choose a supported historical dataset."@, "select_dataset"@, "Choose dataset"@))
    } else if code == "BACKTEST_STRATEGY_HASH_INVALID"@ || code == "BACKTEST_STRATEGY_HASH_MISMATCH"@ {
        Some(("The selected strategy version changed. Reload it before running."@, "reload_snapshot"@, "Reload strategy"@))
    } else if code == "BACKTEST_TIME_UNTRUSTED"@ {
        Some(("TradeX time is not trusted, so this backtest is blocked."@, "time_revalidate"@, "Revalidate time"@))
    } else if code == "BACKTEST_FIXTURE_UNAVAILABLE"@ {
        Some(("The browser integration fixture is unavailable in this runtime."@, "retry_request"@, "Retry backtest"@))
    } else if code == "BACKTEST_RUNTIME_UNAVAILABLE"@ || code == "BACKTEST_FIXTURE_FAILED"@ {
        Some(("The backtest runtime failed closed without producing synthetic results."@, "retry_backtest_run"@, "Retry backtest"@))
    } else if code == "BACKTEST_RESULT_INVALID"@ || code == "BACKTEST_DATASET_HASH_MISMATCH"@ {
        Some(("The backtest result or approved dataset identity could not be validated safely."@, "retry_backtest_run"@, "Retry backtest"@))
    } else if code == "BACKTEST_LOOKAHEAD_DETECTED"@ || code == "BACKTEST_SURVIVORSHIP_BIAS"@ || code == "BACKTEST_SPLIT_UNVERIFIED"@ || code == "BACKTEST_DIVIDEND_UNVERIFIED"@ || code == "BACKTEST_TIMEZONE_MISMATCH"@ || code == "BACKTEST_DATA_GAP"@ {
        Some(("The backtest data guard rejected this historical input."@, "review_backtest"@, "Review backtest data"@))
    } else if code == "BACKTEST_CANCELLED"@ {
        Some(("The backtest was cancelled before completion."@, "retry_backtest_run"@, "Retry backtest"@))
    } else if code == "BACKTEST_FAILURE_INVALID"@ || code == "BACKTEST_IDENTITY_FAILED"@ {
        Some(("The backtest result could not be validated safely."@, "retry_backtest_run"@, "Retry backtest"@))
    } else if code == "BACKTEST_COMPARE_INVALID"@ {
        Some(("Choose two valid completed backtest runs to compare."@, "select_backtest_runs"@, "Choose runs"@))
    } else if code == "BACKTEST_COMPARE_SAME_RUN"@ {
        Some(("Choose two different completed backtest runs."@, "select_backtest_runs"@, "Choose different runs"@))
    } else if code == "BACKTEST_COMPARE_NOT_COMPLETED"@ {
        Some(("Only completed backtest runs can be compared."@, "select_backtest_runs"@, "Choose completed runs"@))
    } else if code == "BACKTEST_RUN_NOT_FOUND"@ {
        Some(("That backtest run is no longer available in this workspace."@, "reload_snapshot"@, "Reload runs"@))
    } else {
        None
    }
}

fn catalog_lookup_6(code: &str) -> (r: Option<(&'static str, &'static str, &'static str)>)
    ensures
        match r {
            Some(t) => catalog_part_6(code@) == Some((t.0@, t.1@, t.2@)),
            None => catalog_part_6(code@) is None,
        },
{
    if str_eq(code, "STRATEGY_TIME_UNTRUSTED") {
        return Some(("TradeX time is not trusted, so this strategy run is blocked.", "time_revalidate", "Revalidate time"));
    }
    if str_eq(code, "STRATEGY_RUN_NOT_FOUND") {
        return Some(("That strategy run is no longer available in this workspace.", "reload_snapshot", "Reload runs"));
    }
    if str_eq(code, "STRATEGY_RUN_NOT_CANCELLABLE") {
        return Some(("This strategy run has already finished and cannot be cancelled.", "reload_snapshot", "Reload run"));
    }
    if str_eq(code, "STRATEGY_RUNTIME_UNAVAILABLE") {
        return Some(("No production strategy runtime is configured, so this run failed closed without synthetic output.", "retry_strategy_run", "Retry strategy run"));
    }
    if str_eq(code, "STRATEGY_WORKER_FAILED") {
        return Some(("The restricted strategy worker failed safely without exposing provider secrets.", "retry_strategy_run", "Retry strategy run"));
    }
    if str_eq(code, "BACKTEST_CONFIG_INVALID") || str_eq(code, "BACKTEST_RUN_INVALID") || str_eq(code, "BACKTEST_DECIMAL_INVALID") || str_eq(code, "BACKTEST_BAR_INTERVAL_INVALID") || str_eq(code, "BACKTEST_DATE_RANGE_INVALID") || str_eq(code, "BACKTEST_PARAMETER_INVALID") || str_eq(code, "BACKTEST_PORTFOLIO_SEED_INVALID") {
        return Some(("Review the bounded historical backtest configuration.", "review_backtest", "Review backtest"));
    }
    if str_eq(code, "BACKTEST_INSTRUMENT_NOT_FOUND") {
        return Some(("Choose a canonical instrument from the market catalog.", "select_instrument", "Choose instrument"));
    }
    if str_eq(code, "BACKTEST_DATASET_NOT_FOUND") {
        return Some(("Choose a supported historical dataset.", "select_dataset", "Choose dataset"));
    }
    if str_eq(code, "BACKTEST_STRATEGY_HASH_INVALID") || str_eq(code, "BACKTEST_STRATEGY_HASH_MISMATCH") {
        return Some(("The selected strategy version changed. Reload it before running.", "reload_snapshot", "Reload strategy"));
    }
    if str_eq(code, "BACKTEST_TIME_UNTRUSTED") {
        return Some(("TradeX time is not trusted, so this backtest is blocked.", "time_revalidate", "Revalidate time"));
    }
    if str_eq(code, "BACKTEST_FIXTURE_UNAVAILABLE") {
        return Some(("The browser integration fixture is unavailable in this runtime.", "retry_request", "Retry backtest"));
    }
    if str_eq(code, "BACKTEST_RUNTIME_UNAVAILABLE") || str_eq(code, "BACKTEST_FIXTURE_FAILED") {
        return Some(("The backtest runtime failed closed without producing synthetic results.", "retry_backtest_run", "Retry backtest"));
    }
    if str_eq(code, "BACKTEST_RESULT_INVALID") || str_eq(code, "BACKTEST_DATASET_HASH_MISMATCH") {
        return Some(("The backtest result or approved dataset identity could not be validated safely.", "retry_backtest_run", "Retry backtest"));
    }
    if str_eq(code, "BACKTEST_LOOKAHEAD_DETECTED") || str_eq(code, "BACKTEST_SURVIVORSHIP_BIAS") || str_eq(code, "BACKTEST_SPLIT_UNVERIFIED") || str_eq(code, "BACKTEST_DIVIDEND_UNVERIFIED") || str_eq(code, "BACKTEST_TIMEZONE_MISMATCH") || str_eq(code, "BACKTEST_DATA_GAP") {
        return Some(("The backtest data guard rejected this historical input.", "review_backtest", "Review backtest data"));
    }
    if str_eq(code, "BACKTEST_CANCELLED") {
        return Some(("The backtest was cancelled before completion.", "retry_backtest_run", "Retry backtest"));
    }
    if str_eq(code, "BACKTEST_FAILURE_INVALID") || str_eq(code, "BACKTEST_IDENTITY_FAILED") {
        return Some(("The backtest result could not be validated safely.", "retry_backtest_run", "Retry backtest"));
    }
    if str_eq(code, "BACKTEST_COMPARE_INVALID") {
        return Some(("Choose two valid completed backtest runs to compare.", "select_backtest_runs", "Choose runs"));
    }
    if str_eq(code, "BACKTEST_COMPARE_SAME_RUN") {
        return Some(("Choose two different completed backtest runs.", "select_backtest_runs", "Choose different runs"));
    }
    if str_eq(code, "BACKTEST_COMPARE_NOT_COMPLETED") {
        return Some(("Only completed backtest runs can be compared.", "select_backtest_runs", "Choose completed runs"));
    }
    if str_eq(code, "BACKTEST_RUN_NOT_FOUND") {
        return Some(("That backtest run is no longer available in this workspace.", "reload_snapshot", "Reload runs"));
    }
    None
}

/// Catalogue entries 7 of the error codes: message, remediation action and label.
pub open spec fn catalog_part_7(code: Seq<char>) -> Option<(Seq<char>, Seq<char>, Seq<char>)> {
    if code == "BACKTEST_RUN_NOT_CANCELLABLE"@ || code == "BACKTEST_RUN_TERMINAL_IMMUTABLE"@ {
        Some(("This backtest run has already reached a terminal state."@, "reload_snapshot"@, "Reload run"@))
    } else if code == "SCREENER_REVISION_STALE"@ {
        Some(("The reviewed screener conditions changed. Parse them again before running."@, "retry_request"@, "Recalculate screener"@))
    } else if code == "SCREENER_FILTER_UNSUPPORTED"@ {
        Some(("This screener contains a condition that TradeX cannot verify yet."@, "retry_request"@, "Review screener"@))
    } else if code == "SCREENER_REVISION_FAILED"@ {
        Some(("The screener revision could not be created. Review the conditions and retry."@, "retry_request"@, "Retry screener"@))
    } else if code == "TURN_ACCOUNT_REQUIRED"@ {
        Some(("Select the account that belongs to this execution context."@, "select_account"@, "Select account"@))
    } else if code == "TURN_ACCOUNT_INVALID"@ {
        Some(("The selected account does not match this execution context."@, "select_account"@, "Choose a matching account"@))
    } else if code == "TURN_ALREADY_RUNNING"@ {
        Some(("This Thread already has a running Turn."@, "wait_for_turn"@, "Wait for Turn"@))
    } else if code == "TURN_NOT_RUNNING"@ {
        Some(("This Turn is no longer running and cannot be cancelled."@, "reload_snapshot"@, "Reload Turn"@))
    } else if code == "TURN_NOT_RETRYABLE"@ {
        Some(("Only failed or interrupted Turns can be retried."@, "reload_snapshot"@, "Reload Turn"@))
    } else if code == "CODEX_TURN_CANCELLED"@ {
        Some(("The Turn was cancelled before completion."@, "retry_turn"@, "Retry Turn"@))
    } else if code == "CODEX_RUNTIME_NOT_CONFIGURED"@ {
        Some(("Codex App Server is not configured for this workspace."@, "configure_runtime"@, "Configure runtime"@))
    } else if code == "CODEX_RUNTIME_START_FAILED"@ {
        Some(("Codex App Server could not be started. The request was preserved."@, "retry_turn"@, "Retry Turn"@))
    } else if code == "CODEX_RUNTIME_TIMEOUT"@ {
        Some(("Codex App Server timed out. The partial Turn was preserved."@, "retry_turn"@, "Retry Turn"@))
    } else if code == "CODEX_RUNTIME_BACKPRESSURE"@ {
        Some(("Codex App Server produced data faster than TradeX could persist it. The partial Turn was preserved."@, "retry_turn"@, "Retry Turn"@))
    } else if code == "CODEX_PROCESS_EXITED"@ {
        Some(("Codex App Server exited before the Turn completed. The partial Turn was preserved."@, "retry_turn"@, "Retry Turn"@))
    } else if code == "CODEX_FRAME_INVALID"@ {
        Some(("Codex App Server returned an invalid stream frame. The Turn was failed safely."@, "retry_turn"@, "Retry Turn"@))
    } else if code == "CODEX_PROTOCOL_UNSUPPORTED"@ {
        Some(("The installed Codex App Server protocol is incompatible with this build."@, "check_version"@, "Check Codex version"@))
    } else if code == "CODEX_EVENT_GAP"@ {
        Some(("The Codex stream was interrupted. Reload the Thread before retrying."@, "reload_snapshot"@, "Reload Thread"@))
    } else if code == "CODEX_UPSTREAM_ERROR"@ {
        Some(("Codex App Server reported a bounded runtime error. The Turn was preserved."@, "retry_turn"@, "Retry Turn"@))
    } else if code == "RISK_POLICY_INVALID"@ {
        Some(("Enter valid risk defaults within the stated decimal and time bounds."@, "review_risk"@, "Review risk defaults"@))
    } else {
        None
    }
}

fn catalog_lookup_7(code: &str) -> (r: Option<(&'static str, &'static str, &'static str)>)
    ensures
        match r {
            Some(t) => catalog_part_7(code@) == Some((t.0@, t.1@, t.2@)),
            None => catalog_part_7(code@) is None,
        },
{
    if str_eq(code, "BACKTEST_RUN_NOT_CANCELLABLE") || str_eq(code, "BACKTEST_RUN_TERMINAL_IMMUTABLE") {
        return Some(("This backtest run has already reached a terminal state.", "reload_snapshot", "Reload run"));
    }
    if str_eq(code, "SCREENER_REVISION_STALE") {
        return Some(("The reviewed screener conditions changed. Parse them again before running.", "retry_request", "Recalculate screener"));
    }
    if str_eq(code, "SCREENER_FILTER_UNSUPPORTED") {
        return Some(("This screener contains a condition that TradeX cannot verify yet.", "retry_request", "Review screener"));
    }
    if str_eq(code, "SCREENER_REVISION_FAILED") {
        return Some(("The screener revision could not be created. Review the conditions and retry.", "retry_request", "Retry screener"));
    }
    if str_eq(code, "TURN_ACCOUNT_REQUIRED") {
        return Some(("Select the account that belongs to this execution context.", "select_account", "Select account"));
    }
    if str_eq(code, "TURN_ACCOUNT_INVALID") {
        return Some(("The selected account does not match this execution context.", "select_account", "Choose a matching account"));
    }
    if str_eq(code, "TURN_ALREADY_RUNNING") {
        return Some(("This Thread already has a running Turn.", "wait_for_turn", "Wait for Turn"));
    }
    if str_eq(code, "TURN_NOT_RUNNING") {
        return Some(("This Turn is no longer running and cannot be cancelled.", "reload_snapshot", "Reload Turn"));
    }
    if str_eq(code, "TURN_NOT_RETRYABLE") {
        return Some(("Only failed or interrupted Turns can be retried.", "reload_snapshot", "Reload Turn"));
    }
    if str_eq(code, "CODEX_TURN_CANCELLED") {
        return Some(("The Turn was cancelled before completion.", "retry_turn", "Retry Turn"));
    }
    if str_eq(code, "CODEX_RUNTIME_NOT_CONFIGURED") {
        return Some(("Codex App Server is not configured for this workspace.", "configure_runtime", "Configure runtime"));
    }
    if str_eq(code, "CODEX_RUNTIME_START_FAILED") {
        return Some(("Codex App Server could not be started. The request was preserved.", "retry_turn", "Retry Turn"));
    }
    if str_eq(code, "CODEX_RUNTIME_TIMEOUT") {
        return Some(("Codex App Server timed out. The partial Turn was preserved.", "retry_turn", "Retry Turn"));
    }
    if str_eq(code, "CODEX_RUNTIME_BACKPRESSURE") {
        return Some(("Codex App Server produced data faster than TradeX could persist it. The partial Turn was preserved.", "retry_turn", "Retry Turn"));
    }
    if str_eq(code, "CODEX_PROCESS_EXITED") {
        return Some(("Codex App Server exited before the Turn completed. The partial Turn was preserved.", "retry_turn", "Retry Turn"));
    }
    if str_eq(code, "CODEX_FRAME_INVALID") {
        return Some(("Codex App Server returned an invalid stream frame. The Turn was failed safely.", "retry_turn", "Retry Turn"));
    }
    if str_eq(code, "CODEX_PROTOCOL_UNSUPPORTED") {
        return Some(("The installed Codex App Server protocol is incompatible with this build.", "check_version", "Check Codex version"));
    }
    if str_eq(code, "CODEX_EVENT_GAP") {
        return Some(("The Codex stream was interrupted. Reload the Thread before retrying.", "reload_snapshot", "Reload Thread"));
    }
    if str_eq(code, "CODEX_UPSTREAM_ERROR") {
        return Some(("Codex App Server reported a bounded runtime error. The Turn was preserved.", "retry_turn", "Retry Turn"));
    }
    if str_eq(code, "RISK_POLICY_INVALID") {
        return Some(("Enter valid risk defaults within the stated decimal and time bounds.", "review_risk", "Review risk defaults"));
    }
    None
}

/// Catalogue entries 8 of the error codes: message, remediation action and label.
pub open spec fn catalog_part_8(code: Seq<char>) -> Option<(Seq<char>, Seq<char>, Seq<char>)> {
    if code == "RISK_POLICY_NOT_CONFIGURED"@ {
        Some(("Save the Risk Defaults step before continuing to Ready."@, "configure_risk"@, "Configure risk defaults"@))
    } else if code == "RISK_REJECTED"@ {
        Some(("The current risk policy rejected this proposal. Review its saved RiskDecision before retrying."@, "review_risk"@, "Review risk decision"@))
    } else if code == "RISK_EVIDENCE_UNAVAILABLE"@ {
        Some(("Required risk evidence is missing or untrusted. No order was submitted."@, "review_risk"@, "Review risk evidence"@))
    } else if code == "ONBOARDING_STEP_INVALID"@ {
        Some(("Complete the setup steps in order before continuing."@, "review_onboarding"@, "Review setup steps"@))
    } else if code == "ONBOARDING_BLOCKED"@ {
        Some(("Ready requires a verified default model route and saved risk defaults."@, "review_onboarding"@, "Review setup"@))
    } else {
        None
    }
}

fn catalog_lookup_8(code: &str) -> (r: Option<(&'static str, &'static str, &'static str)>)
    ensures
        match r {
            Some(t) => catalog_part_8(code@) == Some((t.0@, t.1@, t.2@)),
            None => catalog_part_8(code@) is None,
        },
{
    if str_eq(code, "RISK_POLICY_NOT_CONFIGURED") {
        return Some(("Save the Risk Defaults step before continuing to Ready.", "configure_risk", "Configure risk defaults"));
    }
    if str_eq(code, "RISK_REJECTED") {
        return Some(("The current risk policy rejected this proposal. Review its saved RiskDecision before retrying.", "review_risk", "Review risk decision"));
    }
    if str_eq(code, "RISK_EVIDENCE_UNAVAILABLE") {
        return Some(("Required risk evidence is missing or untrusted. No order was submitted.", "review_risk", "Review risk evidence"));
    }
    if str_eq(code, "ONBOARDING_STEP_INVALID") {
        return Some(("Complete the setup steps in order before continuing.", "review_onboarding", "Review setup steps"));
    }
    if str_eq(code, "ONBOARDING_BLOCKED") {
        return Some(("Ready requires a verified default model route and saved risk defaults.", "review_onboarding", "Review setup"));
    }
    None
}

/// Message, remediation action and label that the catalogue gives an error code.
pub open spec fn catalog_text(code: Seq<char>) -> (Seq<char>, Seq<char>, Seq<char>) {
    if catalog_part_0(code) is Some {
        catalog_part_0(code).unwrap()
    } else     if catalog_part_1(code) is Some {
        catalog_part_1(code).unwrap()
    } else     if catalog_part_2(code) is Some {
        catalog_part_2(code).unwrap()
    } else     if catalog_part_3(code) is Some {
        catalog_part_3(code).unwrap()
    } else     if catalog_part_4(code) is Some {
        catalog_part_4(code).unwrap()
    } else     if catalog_part_5(code) is Some {
        catalog_part_5(code).unwrap()
    } else     if catalog_part_6(code) is Some {
        catalog_part_6(code).unwrap()
    } else     if catalog_part_7(code) is Some {
        catalog_part_7(code).unwrap()
    } else     if catalog_part_8(code) is Some {
        catalog_part_8(code).unwrap()
    } else if has_prefix(code, "GATEWAY_"@) {
        (
            "The model gateway needs attention. Check its status before retrying."@,
            "check_gateway"@,
            "Check model gateway"@,
        )
    } else {
        (
            "The control plane could not complete this operation."@,
            "reload_snapshot"@,
            "Reload state"@,
        )
    }
}

/// Looks up the message, remediation action and label of an error code.
pub fn catalog_lookup(code: &str) -> (r: (&'static str, &'static str, &'static str))
    ensures
        catalog_text(code@) == (r.0@, r.1@, r.2@),
{
    if let Some(t) = catalog_lookup_0(code) {
        return t;
    }
    if let Some(t) = catalog_lookup_1(code) {
        return t;
    }
    if let Some(t) = catalog_lookup_2(code) {
        return t;
    }
    if let Some(t) = catalog_lookup_3(code) {
        return t;
    }
    if let Some(t) = catalog_lookup_4(code) {
        return t;
    }
    if let Some(t) = catalog_lookup_5(code) {
        return t;
    }
    if let Some(t) = catalog_lookup_6(code) {
        return t;
    }
    if let Some(t) = catalog_lookup_7(code) {
        return t;
    }
    if let Some(t) = catalog_lookup_8(code) {
        return t;
    }
    if str_starts_with(code, "GATEWAY_") {
        return (
            "The model gateway needs attention. Check its status before retrying.",
            "check_gateway",
            "Check model gateway",
        );
    }
    (
        "The control plane could not complete this operation.",
        "reload_snapshot",
        "Reload state",
    )
}

/// The category that an error code belongs to.
pub open spec fn category_of(code: Seq<char>) -> Seq<char> {
    if has_prefix(code, "GATEWAY_"@) || code == "MODEL_UNAVAILABLE"@ || code == "MODEL_TEST_INFERENCE_FAILED"@ || code == "MODEL_KEYCHAIN_MISSING"@ || code == "MODEL_GATEWAY_RUNNING"@ || code == "MODEL_DEFAULT_MISSING"@ || code == "MODEL_FALLBACK_UNAVAILABLE"@ {
        "MODEL_UNAVAILABLE"@
    } else if code == "MODEL_OAUTH_EXPIRED"@ || code == "MODEL_LOGIN_FAILED"@ || code == "MODEL_LOGIN_TIMEOUT"@ {
        "OAUTH_EXPIRED"@
    } else if code == "MODEL_QUOTA_EXCEEDED"@ || code == "MODEL_QUOTA_COOLDOWN"@ {
        "QUOTA_EXCEEDED"@
    } else if code == "CODEX_RUNTIME_NOT_CONFIGURED"@ || code == "CODEX_RUNTIME_START_FAILED"@ || code == "CODEX_RUNTIME_TIMEOUT"@ || code == "CODEX_RUNTIME_BACKPRESSURE"@ || code == "CODEX_PROCESS_EXITED"@ || code == "CODEX_FRAME_INVALID"@ || code == "CODEX_PROTOCOL_UNSUPPORTED"@ || code == "CODEX_EVENT_GAP"@ || code == "CODEX_UPSTREAM_ERROR"@ || code == "CODEX_TURN_CANCELLED"@ {
        "RUNTIME_ERROR"@
    } else if code == "ACCOUNT_DELETE_BLOCKED"@ || code == "STRATEGY_TIME_UNTRUSTED"@ || code == "BACKTEST_TIME_UNTRUSTED"@ {
        "STATE_STALE"@
    } else if code == "STRATEGY_WORKER_FAILED"@ || code == "STRATEGY_RUNTIME_UNAVAILABLE"@ || code == "BACKTEST_RUNTIME_UNAVAILABLE"@ || code == "BACKTEST_FIXTURE_FAILED"@ {
        "RUNTIME_ERROR"@
    } else if has_prefix(code, "MODEL_"@) || has_prefix(code, "CREDENTIAL_"@) || code == "PROVIDER_AUTH_FAILED"@ {
        "AUTH_ERROR"@
    } else if has_prefix(code, "RISK_"@) || has_prefix(code, "ONBOARDING_"@) {
        "POLICY_ERROR"@
    } else if has_prefix(code, "PAPER_"@) {
        "SIMULATION_ERROR"@
    } else if code == "PROVIDER_RATE_LIMITED"@ {
        "RATE_LIMITED"@
    } else if code == "PROVIDER_UNAVAILABLE"@ || code == "DATA_SOURCE_PROBE_FAILED"@ || code == "MARKET_HISTORY_UNAVAILABLE"@ {
        "NETWORK_ERROR"@
    } else if code == "PROVIDER_UNSUPPORTED"@ || code == "UNSUPPORTED_CAPABILITY"@ || code == "RESEARCH_RESULT_INVALID"@ || code == "DATA_SOURCE_UNKNOWN"@ || code == "ORDER_INSTRUMENT_PROVIDER_UNSUPPORTED"@ || code == "ORDER_CAPABILITY_UNSUPPORTED"@ || code == "ORDER_ASSET_UNAVAILABLE"@ || code == "ORDER_ASSET_UNTRADABLE"@ || code == "ORDER_ASSET_NOT_FRACTIONABLE"@ {
        "UNSUPPORTED_CAPABILITY"@
    } else if code == "MARKET_CLOSED"@ || code == "INSTRUMENT_HALTED"@ {
        code
    } else if code == "PROVIDER_PERMISSION_BLOCKED"@ || code == "ORDER_SUBMIT_FORBIDDEN"@ {
        "PERMISSION_ERROR"@
    } else if code == "PROVIDER_ORDER_REJECTED"@ || code == "ORDER_BUYING_POWER_INSUFFICIENT"@ || code == "ORDER_INSUFFICIENT_POSITION"@ {
        "PROVIDER_ORDER_REJECTED"@
    } else if code == "IPC_AGGREGATE_NOT_FOUND"@ || code == "ARTIFACT_NOT_FOUND"@ || code == "ORDER_PROPOSAL_NOT_FOUND"@ || code == "ORDER_PROPOSAL_NOT_REFRESHABLE"@ || code == "ORDER_ATTEMPT_NOT_FOUND"@ || code == "ORDER_PROPOSAL_CONSUMED"@ || code == "ORDER_PROPOSAL_NOT_ELIGIBLE"@ || code == "ORDER_STATUS_UNKNOWN"@ || code == "WATCHLIST_NOT_FOUND"@ || code == "STATE_VERSION_CONFLICT"@ || code == "IPC_REPLAY_UNAVAILABLE"@ || code == "CLOCK_SKEW"@ || code == "BACKTEST_RUN_NOT_FOUND"@ || code == "BACKTEST_RUN_NOT_CANCELLABLE"@ || code == "BACKTEST_RUN_TERMINAL_IMMUTABLE"@ || code == "BACKTEST_CANCELLED"@ || code == "BACKTEST_COMPARE_SAME_RUN"@ || code == "BACKTEST_COMPARE_NOT_COMPLETED"@ {
        "STATE_STALE"@
    } else {
        "INTERNAL_ERROR"@
    }
}

/// The category of an error code.
pub fn error_category(code: &str) -> (r: String)
    ensures
        r@ == category_of(code@),
{
    if str_starts_with(code, "GATEWAY_") || str_eq(code, "MODEL_UNAVAILABLE") || str_eq(code, "MODEL_TEST_INFERENCE_FAILED") || str_eq(code, "MODEL_KEYCHAIN_MISSING") || str_eq(code, "MODEL_GATEWAY_RUNNING") || str_eq(code, "MODEL_DEFAULT_MISSING") || str_eq(code, "MODEL_FALLBACK_UNAVAILABLE") {
        return owned("MODEL_UNAVAILABLE");
    }
    if str_eq(code, "MODEL_OAUTH_EXPIRED") || str_eq(code, "MODEL_LOGIN_FAILED") || str_eq(code, "MODEL_LOGIN_TIMEOUT") {
        return owned("OAUTH_EXPIRED");
    }
    if str_eq(code, "MODEL_QUOTA_EXCEEDED") || str_eq(code, "MODEL_QUOTA_COOLDOWN") {
        return owned("QUOTA_EXCEEDED");
    }
    if str_eq(code, "CODEX_RUNTIME_NOT_CONFIGURED") || str_eq(code, "CODEX_RUNTIME_START_FAILED") || str_eq(code, "CODEX_RUNTIME_TIMEOUT") || str_eq(code, "CODEX_RUNTIME_BACKPRESSURE") || str_eq(code, "CODEX_PROCESS_EXITED") || str_eq(code, "CODEX_FRAME_INVALID") || str_eq(code, "CODEX_PROTOCOL_UNSUPPORTED") || str_eq(code, "CODEX_EVENT_GAP") || str_eq(code, "CODEX_UPSTREAM_ERROR") || str_eq(code, "CODEX_TURN_CANCELLED") {
        return owned("RUNTIME_ERROR");
    }
    if str_eq(code, "ACCOUNT_DELETE_BLOCKED") || str_eq(code, "STRATEGY_TIME_UNTRUSTED") || str_eq(code, "BACKTEST_TIME_UNTRUSTED") {
        return owned("STATE_STALE");
    }
    if str_eq(code, "STRATEGY_WORKER_FAILED") || str_eq(code, "STRATEGY_RUNTIME_UNAVAILABLE") || str_eq(code, "BACKTEST_RUNTIME_UNAVAILABLE") || str_eq(code, "BACKTEST_FIXTURE_FAILED") {
        return owned("RUNTIME_ERROR");
    }
    if str_starts_with(code, "MODEL_") || str_starts_with(code, "CREDENTIAL_") || str_eq(code, "PROVIDER_AUTH_FAILED") {
        return owned("AUTH_ERROR");
    }
    if str_starts_with(code, "RISK_") || str_starts_with(code, "ONBOARDING_") {
        return owned("POLICY_ERROR");
    }
    if str_starts_with(code, "PAPER_") {
        return owned("SIMULATION_ERROR");
    }
    if str_eq(code, "PROVIDER_RATE_LIMITED") {
        return owned("RATE_LIMITED");
    }
    if str_eq(code, "PROVIDER_UNAVAILABLE") || str_eq(code, "DATA_SOURCE_PROBE_FAILED") || str_eq(code, "MARKET_HISTORY_UNAVAILABLE") {
        return owned("NETWORK_ERROR");
    }
    if str_eq(code, "PROVIDER_UNSUPPORTED") || str_eq(code, "UNSUPPORTED_CAPABILITY") || str_eq(code, "RESEARCH_RESULT_INVALID") || str_eq(code, "DATA_SOURCE_UNKNOWN") || str_eq(code, "ORDER_INSTRUMENT_PROVIDER_UNSUPPORTED") || str_eq(code, "ORDER_CAPABILITY_UNSUPPORTED") || str_eq(code, "ORDER_ASSET_UNAVAILABLE") || str_eq(code, "ORDER_ASSET_UNTRADABLE") || str_eq(code, "ORDER_ASSET_NOT_FRACTIONABLE") {
        return owned("UNSUPPORTED_CAPABILITY");
    }
    if str_eq(code, "MARKET_CLOSED") || str_eq(code, "INSTRUMENT_HALTED") {
        return owned(code);
    }
    if str_eq(code, "PROVIDER_PERMISSION_BLOCKED") || str_eq(code, "ORDER_SUBMIT_FORBIDDEN") {
        return owned("PERMISSION_ERROR");
    }
    if str_eq(code, "PROVIDER_ORDER_REJECTED") || str_eq(code, "ORDER_BUYING_POWER_INSUFFICIENT") || str_eq(code, "ORDER_INSUFFICIENT_POSITION") {
        return owned("PROVIDER_ORDER_REJECTED");
    }
    if str_eq(code, "IPC_AGGREGATE_NOT_FOUND") || str_eq(code, "ARTIFACT_NOT_FOUND") || str_eq(code, "ORDER_PROPOSAL_NOT_FOUND") || str_eq(code, "ORDER_PROPOSAL_NOT_REFRESHABLE") || str_eq(code, "ORDER_ATTEMPT_NOT_FOUND") || str_eq(code, "ORDER_PROPOSAL_CONSUMED") || str_eq(code, "ORDER_PROPOSAL_NOT_ELIGIBLE") || str_eq(code, "ORDER_STATUS_UNKNOWN") || str_eq(code, "WATCHLIST_NOT_FOUND") || str_eq(code, "STATE_VERSION_CONFLICT") || str_eq(code, "IPC_REPLAY_UNAVAILABLE") || str_eq(code, "CLOCK_SKEW") || str_eq(code, "BACKTEST_RUN_NOT_FOUND") || str_eq(code, "BACKTEST_RUN_NOT_CANCELLABLE") || str_eq(code, "BACKTEST_RUN_TERMINAL_IMMUTABLE") || str_eq(code, "BACKTEST_CANCELLED") || str_eq(code, "BACKTEST_COMPARE_SAME_RUN") || str_eq(code, "BACKTEST_COMPARE_NOT_COMPLETED") {
        return owned("STATE_STALE");
    }
    owned("INTERNAL_ERROR")
}

/// The error codes whose operation may be retried.
pub open spec fn retryable_code(code: Seq<char>) -> bool {
    code == "WORKSPACE_BUSY"@
        || code == "WORKSPACE_OPEN_FAILED"@
        || code == "MARKET_HISTORY_UNAVAILABLE"@
        || code == "MARKET_CLOSED"@
        || code == "INSTRUMENT_HALTED"@
        || code == "CLOCK_SKEW"@
        || code == "MODEL_UNAVAILABLE"@
        || code == "MODEL_OAUTH_EXPIRED"@
        || code == "MODEL_QUOTA_EXCEEDED"@
        || code == "PAPER_QUOTE_UNAVAILABLE"@
        || code == "MODEL_LOGIN_FAILED"@
        || code == "MODEL_LOGIN_TIMEOUT"@
        || code == "MODEL_TEST_INFERENCE_FAILED"@
        || code == "CODEX_RUNTIME_START_FAILED"@
        || code == "CODEX_RUNTIME_TIMEOUT"@
        || code == "CODEX_RUNTIME_BACKPRESSURE"@
        || code == "CODEX_PROCESS_EXITED"@
        || code == "CODEX_FRAME_INVALID"@
        || code == "CODEX_UPSTREAM_ERROR"@
        || code == "CODEX_TURN_CANCELLED"@
        || code == "STRATEGY_WORKER_FAILED"@
        || code == "STRATEGY_RUNTIME_UNAVAILABLE"@
        || code == "BACKTEST_RUNTIME_UNAVAILABLE"@
        || code == "BACKTEST_FIXTURE_FAILED"@
        || code == "BACKTEST_FIXTURE_UNAVAILABLE"@
        || code == "ARTIFACT_EXPORT_FAILED"@
}

/// Whether an error code may be retried.
pub fn error_retryable(code: &str) -> (r: bool)
    ensures
        r == retryable_code(code@),
{
    str_eq(code, "WORKSPACE_BUSY")
        || str_eq(code, "WORKSPACE_OPEN_FAILED")
        || str_eq(code, "MARKET_HISTORY_UNAVAILABLE")
        || str_eq(code, "MARKET_CLOSED")
        || str_eq(code, "INSTRUMENT_HALTED")
        || str_eq(code, "CLOCK_SKEW")
        || str_eq(code, "MODEL_UNAVAILABLE")
        || str_eq(code, "MODEL_OAUTH_EXPIRED")
        || str_eq(code, "MODEL_QUOTA_EXCEEDED")
        || str_eq(code, "PAPER_QUOTE_UNAVAILABLE")
        || str_eq(code, "MODEL_LOGIN_FAILED")
        || str_eq(code, "MODEL_LOGIN_TIMEOUT")
        || str_eq(code, "MODEL_TEST_INFERENCE_FAILED")
        || str_eq(code, "CODEX_RUNTIME_START_FAILED")
        || str_eq(code, "CODEX_RUNTIME_TIMEOUT")
        || str_eq(code, "CODEX_RUNTIME_BACKPRESSURE")
        || str_eq(code, "CODEX_PROCESS_EXITED")
        || str_eq(code, "CODEX_FRAME_INVALID")
        || str_eq(code, "CODEX_UPSTREAM_ERROR")
        || str_eq(code, "CODEX_TURN_CANCELLED")
        || str_eq(code, "STRATEGY_WORKER_FAILED")
        || str_eq(code, "STRATEGY_RUNTIME_UNAVAILABLE")
        || str_eq(code, "BACKTEST_RUNTIME_UNAVAILABLE")
        || str_eq(code, "BACKTEST_FIXTURE_FAILED")
        || str_eq(code, "BACKTEST_FIXTURE_UNAVAILABLE")
        || str_eq(code, "ARTIFACT_EXPORT_FAILED")
}

} // verus!
