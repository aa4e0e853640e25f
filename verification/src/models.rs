use vstd::prelude::*;

verus! {

/// Query parameters for the address-generation endpoints.
pub struct AddressQueryParams {
    pub count: Option<u32>,
}

/// Query parameters for paged listings.
pub struct PaginationParams {
    pub page: Option<u32>,
    pub per_page: Option<u32>,
}

/// A request to initialize the engine's principals.
pub struct InitRequest {
    pub operator: String,
    pub treasury: String,
    pub token: String,
}

/// A request to place a wager.
pub struct PlaceBetRequest {
    pub bettor: String,
    pub selected_address: String,
    pub position: bool,
    pub amount: String,
}

/// One recorded bet, rendered for a caller.
pub struct BetResponse {
    pub bettor: String,
    pub selected_address: String,
    pub position: bool,
    pub amount: String,
}

/// The ledger's size, rendered for a caller.
pub struct BetCountResponse {
    pub count: String,
}

/// Whether a betting window is open.
pub struct WindowStatusResponse {
    pub active: bool,
}

/// Both pools of one roster slot, rendered for a caller.
pub struct BettingAmountsResponse {
    pub up_amount: String,
    pub down_amount: String,
}

/// The engine's three configured principals, rendered for a caller.
pub struct ContractAddressesResponse {
    pub operator: String,
    pub treasury: String,
    pub token: String,
}

/// A request to mint tokens to the service's own account.
pub struct MintTokenRequest {
    pub amount: u64,
}

/// A request to mint tokens to a named account.
pub struct MintToRequest {
    pub address: String,
    pub amount: u64,
}

/// A request to burn tokens.
pub struct BurnTokenRequest {
    pub amount: u64,
}

/// An account's token balance, in whole tokens.
pub struct TokenBalanceResponse {
    pub balance: u64,
}

} // verus!
