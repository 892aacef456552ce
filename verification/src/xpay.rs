//! The calls of the xpay module: creating and updating items, ordering them
//! for a diner, buying them, and editing profiles.
use vstd::prelude::*;
use crate::xpay_diner::{
    after_insert_into_diner, after_purchase_for_diner, after_remove_from_diner,
    insert_into_diner, purchase_for_diner, purchase_for_diner_result, remove_from_diner,
    remove_from_diner_result,
};
use crate::xpay_profile::{after_remove_profile, after_save_profile, remove_profile, save_profile};
use crate::storage::{XPay, XPayModel};
use crate::types::{
    ensure_signed, signer_of, AccountId, AssetId, Balance, Item, ItemId, Origin, Price, Profile,
    XPayError, XPayEvent,
};

verus! {

/// The asset movement a purchase asks for, which the asset modules carry
/// out.
#[derive(Clone, Copy, Debug, PartialEq, Eq)]
pub enum Payment {
    /// A transfer of `amount` of `asset_id` from the buyer to the seller.
    Transfer { asset_id: AssetId, from: AccountId, to: AccountId, amount: Balance },
    /// A swap that buys `buy_amount` of `asset_bought` for the seller, paid
    /// by the buyer in `asset_sold`, at most `max_paying_amount` of it.
    Swap {
        buyer: AccountId,
        recipient: AccountId,
        asset_sold: AssetId,
        asset_bought: AssetId,
        buy_amount: Balance,
        max_paying_amount: Balance,
    },
}

/// A purchase that passed its checks and awaits its payment. Only
/// `XPay::purchase_item` makes one, and `XPay::settle_purchase` uses it up.
pub struct PurchaseTicket {
    payment: Payment,
    buyer: AccountId,
    item_id: ItemId,
    quantity: u32,
}

/// What a purchase ticket holds.
pub struct PurchaseTicketView {
    pub payment: Payment,
    pub buyer: AccountId,
    pub item_id: ItemId,
    pub quantity: u32,
}

impl View for PurchaseTicket {
    type V = PurchaseTicketView;

    closed spec fn view(&self) -> PurchaseTicketView {
        PurchaseTicketView {
            payment: self.payment,
            buyer: self.buyer,
            item_id: self.item_id,
            quantity: self.quantity,
        }
    }
}

impl PurchaseTicket {
    /// The payment the asset modules are to carry out.
    pub fn payment(&self) -> (r: Payment)
        ensures
            r == self@.payment,
    {
        self.payment
    }

    /// The buyer.
    pub fn buyer(&self) -> (r: AccountId)
        ensures
            r == self@.buyer,
    {
        self.buyer
    }

    /// The item bought.
    pub fn item_id(&self) -> (r: ItemId)
        ensures
            r == self@.item_id,
    {
        self.item_id
    }

    /// How many of the item are bought.
    pub fn quantity(&self) -> (r: u32)
        ensures
            r == self@.quantity,
    {
        self.quantity
    }
}

/// The storage with `event` deposited.
pub open spec fn with_event(s: XPayModel, event: XPayEvent) -> XPayModel {
    XPayModel { events: s.events.push(event), ..s }
}

/// The storage after `owner` creates `item` at `price`, under the id
/// `s.next_item_id`.
pub open spec fn after_create_item(s: XPayModel, owner: AccountId, item: Item, price: Price) -> XPayModel {
    let id = s.next_item_id;
    XPayModel {
        items: s.items.insert(id, item),
        next_item_id: (id + 1) as ItemId,
        owner_item_ids: s.owner_item_ids.insert(owner, s.owned_by(owner).push(id)),
        item_prices: s.item_prices.insert(id, price),
        events: s.events.push(XPayEvent::ItemCreated(owner, id, price)),
        ..s
    }
}

/// The storage after `who` replaces item `item_id` and its price.
pub open spec fn after_update_item(
    s: XPayModel,
    who: AccountId,
    item_id: ItemId,
    item: Item,
    price: Price,
) -> XPayModel {
    XPayModel {
        items: s.items.insert(item_id, item),
        item_prices: s.item_prices.insert(item_id, price),
        events: s.events.push(XPayEvent::ItemUpdated(who, item_id, price)),
        ..s
    }
}

/// The price of `quantity` items at `unit` each, where it fits a balance.
pub open spec fn total_price(unit: Balance, quantity: u32) -> Option<Balance> {
    if unit * quantity <= Balance::MAX {
        Some((unit * quantity) as Balance)
    } else {
        None
    }
}

/// What `buyer` buying `quantity` of `item_id` from `seller` answers before
/// any asset moves: the payment asked for, or why the purchase is refused.
pub open spec fn purchase_item_result(
    s: XPayModel,
    buyer: AccountId,
    seller: AccountId,
    item_id: ItemId,
    diner: u32,
    paying_asset_id: AssetId,
    paying_amount_max: Balance,
    quantity: u32,
) -> Result<Payment, XPayError> {
    if !s.item_prices.contains_key(item_id) {
        Err(XPayError::NoItemPrice)
    } else if !s.owned_by(seller).contains(item_id) {
        Err(XPayError::SellerHasNoSuchItem)
    } else {
        let price = s.item_prices[item_id];
        match total_price(price.1, quantity) {
            None => Err(XPayError::TotalPriceOverflow),
            Some(total) => if price.0 == paying_asset_id {
                if total > paying_amount_max {
                    Err(XPayError::PayingPriceTooLow)
                } else {
                    match purchase_for_diner_result(s, item_id, diner) {
                        Err(e) => Err(e),
                        Ok(_) => Ok(
                            Payment::Transfer {
                                asset_id: price.0,
                                from: buyer,
                                to: seller,
                                amount: total,
                            },
                        ),
                    }
                }
            } else {
                Ok(
                    Payment::Swap {
                        buyer,
                        recipient: seller,
                        asset_sold: paying_asset_id,
                        asset_bought: price.0,
                        buy_amount: total,
                        max_paying_amount: paying_amount_max,
                    },
                )
            },
        }
    }
}

/// The storage after that purchase, before any asset moves: where the price
/// is paid in its own asset and the checks before the bill pass, the bill
/// of `diner` is charged (refused or not); otherwise nothing changes.
pub open spec fn after_purchase_item(
    s: XPayModel,
    seller: AccountId,
    item_id: ItemId,
    diner: u32,
    paying_asset_id: AssetId,
    paying_amount_max: Balance,
    quantity: u32,
) -> XPayModel {
    if s.item_prices.contains_key(item_id) && s.owned_by(seller).contains(item_id) {
        let price = s.item_prices[item_id];
        match total_price(price.1, quantity) {
            Some(total) => if price.0 == paying_asset_id && total <= paying_amount_max {
                after_purchase_for_diner(s, item_id, diner)
            } else {
                s
            },
            None => s,
        }
    } else {
        s
    }
}

impl XPay {
    /// `origin` creates an item with the given description and price. It
    /// gets the id `next_item_id`, which then moves on by one, is appended
    /// to the origin's items, and `ItemCreated` is deposited. Refused for an
    /// unsigned origin, and where `next_item_id` is the last id, which is
    /// never handed out.
    pub fn create_item(
        &mut self,
        origin: Origin,
        desc: Vec<u8>,
        price_asset_id: AssetId,
        price_amount: Balance,
        image: Vec<u8>,
        ipfs: Vec<u8>,
    ) -> (r: Result<(), XPayError>)
        ensures
            final(self)@.wf(),
            match signer_of(origin) {
                None => r == Err::<(), XPayError>(XPayError::BadOrigin) && final(self)@ == old(
                    self,
                )@,
                Some(who) => if old(self)@.next_item_id == ItemId::MAX {
                    r == Err::<(), XPayError>(XPayError::NoNewItemId) && final(self)@ == old(
                        self,
                    )@
                } else {
                    r == Ok::<(), XPayError>(()) && final(self)@ == after_create_item(
                        old(self)@,
                        who,
                        Item { desc, image, ipfs },
                        (price_asset_id, price_amount),
                    )
                },
            },
    {
        proof {
            use_type_invariant(&*self);
        }
        let origin = match ensure_signed(origin) {
            Ok(who) => who,
            Err(e) => return Err(e),
        };
        let item_id = self.next_item_id();
        let item = Item { desc, image, ipfs };
        let next_item_id = match item_id.checked_add(1) {
            Some(n) => n,
            None => return Err(XPayError::NoNewItemId),
        };
        self.put_next_item_id(next_item_id);
        let price: Price = (price_asset_id, price_amount);
        self.put_item(item_id, item, price);
        self.push_owner_item(origin, item_id);
        self.deposit_event(XPayEvent::ItemCreated(origin, item_id, price));
        proof {
            use_type_invariant(&*self);
        }
        Ok(())
    }

    /// `origin` orders one more `item_id` for `diner` (see
    /// `insert_into_diner`), and `ItemAdded` is deposited. Refused only for
    /// an unsigned origin. The quantity is not used.
    pub fn add_item(&mut self, origin: Origin, item_id: ItemId, diner: u32, quantity: u32) -> (r:
        Result<(), XPayError>)
        ensures
            final(self)@.wf(),
            match signer_of(origin) {
                None => r == Err::<(), XPayError>(XPayError::BadOrigin) && final(self)@ == old(
                    self,
                )@,
                Some(who) => r == Ok::<(), XPayError>(()) && final(self)@ == with_event(
                    after_insert_into_diner(old(self)@, item_id, diner),
                    XPayEvent::ItemAdded(who, item_id, diner),
                ),
            },
    {
        proof {
            use_type_invariant(&*self);
        }
        let origin = match ensure_signed(origin) {
            Ok(who) => who,
            Err(e) => return Err(e),
        };
        match insert_into_diner(self, item_id, diner) {
            Ok(_) => {},
            Err(e) => return Err(e),
        }
        self.deposit_event(XPayEvent::ItemAdded(origin, item_id, diner));
        proof {
            use_type_invariant(&*self);
        }
        Ok(())
    }

    /// `origin` takes one `item_id` back from the bill of `diner` (see
    /// `remove_from_diner`); where that succeeds, `ItemRemoved` is
    /// deposited. The quantity is not used.
    pub fn remove_item(&mut self, origin: Origin, item_id: ItemId, diner: u32, quantity: u32) -> (r:
        Result<(), XPayError>)
        ensures
            final(self)@.wf(),
            match signer_of(origin) {
                None => r == Err::<(), XPayError>(XPayError::BadOrigin) && final(self)@ == old(
                    self,
                )@,
                Some(who) => {
                    &&& r == remove_from_diner_result(old(self)@, item_id, diner)
                    &&& final(self)@ == (if r is Ok {
                        with_event(
                            after_remove_from_diner(old(self)@, item_id, diner),
                            XPayEvent::ItemRemoved(who, item_id, diner),
                        )
                    } else {
                        after_remove_from_diner(old(self)@, item_id, diner)
                    })
                },
            },
    {
        proof {
            use_type_invariant(&*self);
        }
        let origin = match ensure_signed(origin) {
            Ok(who) => who,
            Err(e) => return Err(e),
        };
        let removed = remove_from_diner(self, item_id, diner);
        proof {
            use_type_invariant(&*self);
        }
        match removed {
            Ok(_) => {},
            Err(e) => return Err(e),
        }
        self.deposit_event(XPayEvent::ItemRemoved(origin, item_id, diner));
        proof {
            use_type_invariant(&*self);
        }
        Ok(())
    }

    /// `origin` replaces item `item_id` and its price, and `ItemUpdated` is
    /// deposited. Refused for an unsigned origin and where no item has that
    /// id. Any signed account may update any item.
    pub fn update_item(
        &mut self,
        origin: Origin,
        item_id: ItemId,
        desc: Vec<u8>,
        price_asset_id: AssetId,
        price_amount: Balance,
        image: Vec<u8>,
        ipfs: Vec<u8>,
    ) -> (r: Result<(), XPayError>)
        ensures
            final(self)@.wf(),
            match signer_of(origin) {
                None => r == Err::<(), XPayError>(XPayError::BadOrigin) && final(self)@ == old(
                    self,
                )@,
                Some(who) => if !old(self)@.items.contains_key(item_id) {
                    r == Err::<(), XPayError>(XPayError::ItemDidNotExist) && final(self)@ == old(
                        self,
                    )@
                } else {
                    r == Ok::<(), XPayError>(()) && final(self)@ == after_update_item(
                        old(self)@,
                        who,
                        item_id,
                        Item { desc, image, ipfs },
                        (price_asset_id, price_amount),
                    )
                },
            },
    {
        proof {
            use_type_invariant(&*self);
        }
        let origin = match ensure_signed(origin) {
            Ok(who) => who,
            Err(e) => return Err(e),
        };
        if self.item(item_id).is_none() {
            return Err(XPayError::ItemDidNotExist);
        }
        let price: Price = (price_asset_id, price_amount);
        let item = Item { image, desc, ipfs };
        self.put_item(item_id, item, price);
        self.deposit_event(XPayEvent::ItemUpdated(origin, item_id, price));
        proof {
            use_type_invariant(&*self);
        }
        Ok(())
    }

    /// `origin` buys `quantity` of `item_id` from `seller`, paying in
    /// `paying_asset_id`, at most `paying_amount_max` of it. Answers a
    /// ticket holding the payment the asset modules are to carry out: where
    /// the price is in `paying_asset_id`, a transfer of the total price,
    /// after the bill of `diner` is charged for one item; otherwise a swap
    /// that buys the total price for the seller. Refused for an unsigned
    /// origin, an item without a price, a seller that does not list the
    /// item, a total price that does not fit a balance, a total price above
    /// `paying_amount_max` (same asset only), and where the bill refuses the
    /// charge.
    pub fn purchase_item(
        &mut self,
        origin: Origin,
        seller: AccountId,
        item_id: ItemId,
        diner: u32,
        paying_asset_id: AssetId,
        paying_amount_max: Balance,
        quantity: u32,
    ) -> (r: Result<PurchaseTicket, XPayError>)
        ensures
            final(self)@.wf(),
            match signer_of(origin) {
                None => r == Err::<PurchaseTicket, XPayError>(XPayError::BadOrigin)
                    && final(self)@ == old(self)@,
                Some(buyer) => {
                    &&& match r {
                        Ok(t) => {
                            &&& purchase_item_result(
                                old(self)@,
                                buyer,
                                seller,
                                item_id,
                                diner,
                                paying_asset_id,
                                paying_amount_max,
                                quantity,
                            ) == Ok::<Payment, XPayError>(t@.payment)
                            &&& t@.buyer == buyer
                            &&& t@.item_id == item_id
                            &&& t@.quantity == quantity
                        },
                        Err(e) => purchase_item_result(
                            old(self)@,
                            buyer,
                            seller,
                            item_id,
                            diner,
                            paying_asset_id,
                            paying_amount_max,
                            quantity,
                        ) == Err::<Payment, XPayError>(e),
                    }
                    &&& final(self)@ == after_purchase_item(
                        old(self)@,
                        seller,
                        item_id,
                        diner,
                        paying_asset_id,
                        paying_amount_max,
                        quantity,
                    )
                },
            },
    {
        proof {
            use_type_invariant(&*self);
        }
        let origin = match ensure_signed(origin) {
            Ok(who) => who,
            Err(e) => return Err(e),
        };
        let item_price = match self.item_price(item_id) {
            Some(p) => p,
            None => return Err(XPayError::NoItemPrice),
        };
        if !self.owner_has_item(seller, item_id) {
            return Err(XPayError::SellerHasNoSuchItem);
        }
        let total_price_amount = match item_price.1.checked_mul(quantity as Balance) {
            Some(t) => t,
            None => return Err(XPayError::TotalPriceOverflow),
        };
        let payment = if item_price.0 == paying_asset_id {
            if total_price_amount > paying_amount_max {
                return Err(XPayError::PayingPriceTooLow);
            }
            let charged = purchase_for_diner(self, item_id, diner);
            proof {
                use_type_invariant(&*self);
            }
            match charged {
                Ok(_) => {},
                Err(e) => return Err(e),
            }
            Payment::Transfer {
                asset_id: item_price.0,
                from: origin,
                to: seller,
                amount: total_price_amount,
            }
        } else {
            Payment::Swap {
                buyer: origin,
                recipient: seller,
                asset_sold: paying_asset_id,
                asset_bought: item_price.0,
                buy_amount: total_price_amount,
                max_paying_amount: paying_amount_max,
            }
        };
        Ok(PurchaseTicket { payment, buyer: origin, item_id, quantity })
    }

    /// Completes the purchase of `ticket` once the asset modules carried out
    /// its payment: where they did, `ItemSold` is deposited for the ticket's
    /// buyer, item and quantity; where they refused, their refusal is the
    /// answer and nothing changes.
    pub fn settle_purchase(
        &mut self,
        ticket: PurchaseTicket,
        payment_outcome: Result<(), &'static str>,
    ) -> (r: Result<(), XPayError>)
        ensures
            final(self)@.wf(),
            match payment_outcome {
                Ok(_) => r == Ok::<(), XPayError>(()) && final(self)@ == with_event(
                    old(self)@,
                    XPayEvent::ItemSold(ticket@.buyer, ticket@.item_id, ticket@.quantity),
                ),
                Err(m) => r == Err::<(), XPayError>(XPayError::PaymentFailed(m)) && final(self)@
                    == old(self)@,
            },
    {
        proof {
            use_type_invariant(&*self);
        }
        match payment_outcome {
            Ok(_) => {},
            Err(m) => return Err(XPayError::PaymentFailed(m)),
        }
        self.deposit_event(XPayEvent::ItemSold(ticket.buyer, ticket.item_id, ticket.quantity));
        proof {
            use_type_invariant(&*self);
        }
        Ok(())
    }

    /// `origin` saves the profile of `acc_to_edit` (see
    /// `xpay_profile::save_profile`). Refused for an unsigned origin and where
    /// `acc_to_edit` is another account.
    pub fn save_profile(
        &mut self,
        origin: Origin,
        acc_to_edit: AccountId,
        profile_name: Vec<u8>,
        image: Vec<u8>,
        ipfs: Vec<u8>,
    ) -> (r: Result<(), XPayError>)
        ensures
            final(self)@.wf(),
            match signer_of(origin) {
                None => r == Err::<(), XPayError>(XPayError::BadOrigin) && final(self)@ == old(
                    self,
                )@,
                Some(who) => if who != acc_to_edit {
                    r == Err::<(), XPayError>(XPayError::NoPermissionToSaveProfile)
                        && final(self)@ == old(self)@
                } else {
                    r == Ok::<(), XPayError>(()) && final(self)@ == after_save_profile(
                        old(self)@,
                        acc_to_edit,
                        Profile { profile_name, image, ipfs },
                    )
                },
            },
    {
        proof {
            use_type_invariant(&*self);
        }
        let origin = match ensure_signed(origin) {
            Ok(who) => who,
            Err(e) => return Err(e),
        };
        if origin != acc_to_edit {
            return Err(XPayError::NoPermissionToSaveProfile);
        }
        let r = save_profile(self, acc_to_edit, profile_name, image, ipfs);
        proof {
            use_type_invariant(&*self);
        }
        r
    }

    /// `origin` removes the profile of `acc_to_edit` (see
    /// `xpay_profile::remove_profile`). Refused for an unsigned origin and where
    /// `acc_to_edit` is another account.
    pub fn remove_profile(&mut self, origin: Origin, acc_to_edit: AccountId) -> (r: Result<
        (),
        XPayError,
    >)
        ensures
            final(self)@.wf(),
            match signer_of(origin) {
                None => r == Err::<(), XPayError>(XPayError::BadOrigin) && final(self)@ == old(
                    self,
                )@,
                Some(who) => if who != acc_to_edit {
                    r == Err::<(), XPayError>(XPayError::NoPermissionToRemoveProfile)
                        && final(self)@ == old(self)@
                } else {
                    r == Ok::<(), XPayError>(()) && final(self)@ == after_remove_profile(
                        old(self)@,
                        acc_to_edit,
                    )
                },
            },
    {
        proof {
            use_type_invariant(&*self);
        }
        let origin = match ensure_signed(origin) {
            Ok(who) => who,
            Err(e) => return Err(e),
        };
        if origin != acc_to_edit {
            return Err(XPayError::NoPermissionToRemoveProfile);
        }
        let r = remove_profile(self, acc_to_edit);
        proof {
            use_type_invariant(&*self);
        }
        r
    }
}

} // verus!
