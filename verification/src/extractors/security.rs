use vstd::prelude::*;

verus! {

/// The Telegram user that a mini app's `initData` describes.
#[derive(Debug, Clone)]
pub struct MiniappUser {
    pub id: u64,
    pub is_premium: bool,
    pub username: Option<String>,
    pub first_name: Option<String>,
    pub last_name: Option<String>,
    pub photo_url: Option<String>,
}

/// A user whose data does not say otherwise is not a premium user.
pub fn is_premium_default() -> (premium: bool)
    ensures
        !premium,
{
    false
}

/// The user of a request whose `initData` passed the check.
#[derive(Debug, Clone)]
pub struct WsAuth(pub MiniappUser);

} // verus!
