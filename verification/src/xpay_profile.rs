//! The profiles of accounts.
use vstd::prelude::*;
use crate::storage::{XPay, XPayModel};
use crate::types::{AccountId, Profile, XPayError};

verus! {

/// The storage after `acc_to_edit` saves `profile`.
pub open spec fn after_save_profile(s: XPayModel, acc_to_edit: AccountId, profile: Profile) -> XPayModel {
    XPayModel { profiles: s.profiles.insert(acc_to_edit, profile), ..s }
}

/// The storage after the profile of `acc_to_edit` is removed.
pub open spec fn after_remove_profile(s: XPayModel, acc_to_edit: AccountId) -> XPayModel {
    XPayModel { profiles: s.profiles.remove(acc_to_edit), ..s }
}

/// Stores the profile of `acc_to_edit`, in place of the one it had, if any.
/// Always succeeds.
pub fn save_profile(
    storage: &mut XPay,
    acc_to_edit: AccountId,
    profile_name: Vec<u8>,
    image: Vec<u8>,
    ipfs: Vec<u8>,
) -> (r: Result<(), XPayError>)
    ensures
        r == Ok::<(), XPayError>(()),
        final(storage)@ == after_save_profile(
            old(storage)@,
            acc_to_edit,
            Profile { profile_name, image, ipfs },
        ),
{
    let fp = Profile { profile_name, image, ipfs };
    storage.put_profile(acc_to_edit, fp);
    Ok(())
}

/// Removes the profile of `acc_to_edit`, if it has one. Always succeeds.
pub fn remove_profile(storage: &mut XPay, acc_to_edit: AccountId) -> (r: Result<(), XPayError>)
    ensures
        r == Ok::<(), XPayError>(()),
        final(storage)@ == after_remove_profile(old(storage)@, acc_to_edit),
{
    storage.drop_profile(acc_to_edit);
    Ok(())
}

} // verus!
