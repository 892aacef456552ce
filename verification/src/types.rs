//! The plain data of the xpay module: accounts, item ids, prices, the
//! records kept in storage, dispatch origins, errors and events.
use vstd::prelude::*;

verus! {

/// An account of the chain, by its index.
pub type AccountId = u64;

/// The id of an item (and of a floorplan).
pub type ItemId = u64;

/// The id of an asset of the generic asset module.
pub type AssetId = u32;

/// An amount of an asset.
pub type Balance = u128;

/// A price: the asset it is paid in and the amount of that asset.
pub type Price = (AssetId, Balance);

/// One line of a diner's bill: the item, how many of it were paid, and how
/// many are still unpaid.
pub type DinerEntry = (ItemId, u8, u8);

/// An item offered for sale.
#[derive(Clone, Debug, PartialEq, Eq, Default)]
pub struct Item {
    pub desc: Vec<u8>,
    pub image: Vec<u8>,
    pub ipfs: Vec<u8>,
}

/// The floorplan of a venue: an address and the cubes that make it up.
#[derive(Clone, Debug, PartialEq, Eq, Default)]
pub struct Floorplan {
    pub address: Vec<u8>,
    pub cubes: Vec<(u8, i16, i16, i16)>,
    pub desc: Vec<u8>,
    pub image: Vec<u8>,
    pub ipfs: Vec<u8>,
}

/// The public profile of an account.
#[derive(Clone, Debug, PartialEq, Eq, Default)]
pub struct Profile {
    pub profile_name: Vec<u8>,
    pub image: Vec<u8>,
    pub ipfs: Vec<u8>,
}

/// Who dispatched a call.
#[derive(Clone, Copy, Debug, PartialEq, Eq)]
pub enum Origin {
    Root,
    Signed(AccountId),
    Unsigned,
}

/// Why a call of the xpay module was refused.
#[derive(Clone, Copy, Debug, PartialEq, Eq)]
pub enum XPayError {
    BadOrigin,
    NoNewItemId,
    ItemDidNotExist,
    NoItemPrice,
    SellerHasNoSuchItem,
    TotalPriceOverflow,
    PayingPriceTooLow,
    DinerDoesNotExist,
    ItemNotInDiner,
    NoUnpaidItemToRemove,
    NoUnpaidItemToPay,
    NoPermissionToSaveProfile,
    NoPermissionToRemoveProfile,
    /// The asset transfer or swap of a purchase failed, with the message of
    /// the module that refused it.
    PaymentFailed(&'static str),
}

/// The message the chain reports for an error.
pub open spec fn error_message(e: XPayError) -> Seq<char> {
    match e {
        XPayError::BadOrigin => "bad origin"@,
        XPayError::NoNewItemId => "No new item id is available."@,
        XPayError::ItemDidNotExist => "Item did not exist"@,
        XPayError::NoItemPrice => "No item price"@,
        XPayError::SellerHasNoSuchItem => "Seller has no such item"@,
        XPayError::TotalPriceOverflow => "Total price overflow"@,
        XPayError::PayingPriceTooLow => "User paying price too low"@,
        XPayError::DinerDoesNotExist => "Diner does not exist"@,
        XPayError::ItemNotInDiner => "Item does not exist in Diner"@,
        XPayError::NoUnpaidItemToRemove => "There is no unpaid item to remove"@,
        XPayError::NoUnpaidItemToPay => "There is no unpaid item to pay for"@,
        XPayError::NoPermissionToSaveProfile => "No permission to save profile for other account"@,
        XPayError::NoPermissionToRemoveProfile => "No permission to remove profile for other account"@,
        XPayError::PaymentFailed(m) => m@,
    }
}

impl XPayError {
    /// The message the chain reports for this error.
    pub fn message(&self) -> (m: &'static str)
        ensures
            m@ == error_message(*self),
    {
        match self {
            XPayError::BadOrigin => "bad origin",
            XPayError::NoNewItemId => "No new item id is available.",
            XPayError::ItemDidNotExist => "Item did not exist",
            XPayError::NoItemPrice => "No item price",
            XPayError::SellerHasNoSuchItem => "Seller has no such item",
            XPayError::TotalPriceOverflow => "Total price overflow",
            XPayError::PayingPriceTooLow => "User paying price too low",
            XPayError::DinerDoesNotExist => "Diner does not exist",
            XPayError::ItemNotInDiner => "Item does not exist in Diner",
            XPayError::NoUnpaidItemToRemove => "There is no unpaid item to remove",
            XPayError::NoUnpaidItemToPay => "There is no unpaid item to pay for",
            XPayError::NoPermissionToSaveProfile => "No permission to save profile for other account",
            XPayError::NoPermissionToRemoveProfile => "No permission to remove profile for other account",
            XPayError::PaymentFailed(m) => m,
        }
    }
}

/// What the xpay module reports of a call that went through.
#[derive(Clone, Copy, Debug, PartialEq, Eq)]
pub enum XPayEvent {
    /// New item created: (transactor, item_id, price).
    ItemCreated(AccountId, ItemId, Price),
    /// An item added to a diner's bill: (transactor, item_id, diner).
    ItemAdded(AccountId, ItemId, u32),
    /// An item removed from a diner's bill: (transactor, item_id, diner).
    ItemRemoved(AccountId, ItemId, u32),
    /// Item updated: (transactor, item_id, new_price).
    ItemUpdated(AccountId, ItemId, Price),
    /// Item sold: (transactor, item_id, quantity).
    ItemSold(AccountId, ItemId, u32),
}

/// The account that signed a call, if a single account signed it.
pub open spec fn signer_of(origin: Origin) -> Option<AccountId> {
    match origin {
        Origin::Signed(who) => Some(who),
        _ => None,
    }
}

/// The account that signed `origin`; `BadOrigin` for root and unsigned
/// calls.
pub fn ensure_signed(origin: Origin) -> (r: Result<AccountId, XPayError>)
    ensures
        r == (match signer_of(origin) {
            Some(who) => Ok(who),
            None => Err::<AccountId, XPayError>(XPayError::BadOrigin),
        }),
{
    match origin {
        Origin::Signed(who) => Ok(who),
        _ => Err(XPayError::BadOrigin),
    }
}

} // verus!
