//! Accounts, as far as launching needs them.

use vstd::prelude::*;
use vstd::string::*;

verus! {

/// The service that an account belongs to.
#[derive(Debug, Clone, Copy)]
pub enum AccountType {
    Microsoft,
    ElyBy,
}

/// An account that a game can be launched with.
#[derive(Debug, Clone)]
pub struct AccountData {
    pub access_token: Option<String>,
    pub uuid: String,
    pub username: String,
    pub refresh_token: String,
    pub needs_refresh: bool,
    pub account_type: AccountType,
}

/// What is appended to a user name to tell services apart.
pub open spec fn username_suffix(account_type: AccountType) -> Seq<char> {
    match account_type {
        AccountType::Microsoft => Seq::empty(),
        AccountType::ElyBy => " (elyby)"@,
    }
}

/// The service's name.
pub open spec fn account_type_name(account_type: AccountType) -> Seq<char> {
    match account_type {
        AccountType::Microsoft => "Microsoft"@,
        AccountType::ElyBy => "ElyBy"@,
    }
}

impl AccountType {
    /// The service's name.
    pub fn to_string(&self) -> (name: String)
        ensures
            name@ == account_type_name(*self),
    {
        match self {
            AccountType::Microsoft => String::from_str("Microsoft"),
            AccountType::ElyBy => String::from_str("ElyBy"),
        }
    }
}

impl AccountData {
    /// The user name, marked with the service where that is not Microsoft.
    pub fn get_username_modified(&self) -> (name: String)
        ensures
            name@ == self.username@ + username_suffix(self.account_type),
    {
        match self.account_type {
            AccountType::Microsoft => {
                let name = self.username.clone();
                proof {
                    assert(name@ =~= self.username@ + Seq::<char>::empty());
                }
                name
            },
            AccountType::ElyBy => self.username.clone().concat(" (elyby)"),
        }
    }

    /// Whether the account belongs to ElyBy.
    #[must_use]
    pub fn is_elyby(&self) -> (r: bool)
        ensures
            r == (self.account_type is ElyBy),
    {
        match self.account_type {
            AccountType::ElyBy => true,
            AccountType::Microsoft => false,
        }
    }
}

} // verus!
