//! The credential resolver: turns the optional spending-credential string
//! and the optional viewing-credential string into a validated account.

use vstd::prelude::*;

use crate::crypto::{
    derive_view_key, parse_private_key, parse_view_key, spec_derived_view_key,
    spec_parse_private_key, spec_parse_view_key, view_key_eq, SpendingKey, ViewingKey,
};
use crate::errors::ScanError;
use crate::Scan;

verus! {

/// A validated credential pair: an optional spending credential and the
/// viewing credential used for the scan.
pub struct Account {
    /// The spending credential, when one was supplied: it enables spent
    /// detection through serial numbers.
    pub private_key: Option<SpendingKey>,
    /// The viewing credential every ownership test and decryption uses.
    pub view_key: ViewingKey,
}

impl Account {
    /// When a spending credential is present, the viewing credential is the
    /// one derivable from it.
    pub open spec fn wf(self) -> bool {
        self.private_key matches Some(pk) ==> spec_derived_view_key(pk) == Some(self.view_key)
    }

    /// Spent status can only be resolved with a spending credential; without
    /// one, the scan's results carry unknown spent state.
    pub open spec fn spec_spent_state_unknown(self) -> bool {
        self.private_key is None
    }

    /// Whether this account can resolve spent status.
    pub fn has_spending_key(&self) -> (r: bool)
        ensures
            r == !self.spec_spent_state_unknown(),
    {
        self.private_key.is_some()
    }
}

/// The characters of an optional string.
pub open spec fn string_opt_chars(s: Option<String>) -> Option<Seq<char>> {
    match s {
        Some(x) => Some(x@),
        None => None,
    }
}

/// What credential resolution returns for given credential strings: the
/// mirror of the decision sequence in `Scan::parse_account`.
pub open spec fn spec_resolve_credentials(
    pk_str: Option<Seq<char>>,
    vk_str: Option<Seq<char>>,
) -> Result<Account, ScanError> {
    match (pk_str, vk_str) {
        (Some(p), Some(v)) => match spec_parse_private_key(p) {
            None => Err(ScanError::InvalidCredentialFormat),
            Some(pk) => match spec_derived_view_key(pk) {
                None => Err(ScanError::InvalidCredentialFormat),
                Some(expected) => match spec_parse_view_key(v) {
                    None => Err(ScanError::InvalidCredentialFormat),
                    Some(vk) => if expected == vk {
                        Ok(Account { private_key: Some(pk), view_key: vk })
                    } else {
                        Err(ScanError::CredentialMismatch)
                    },
                },
            },
        },
        (Some(p), None) => match spec_parse_private_key(p) {
            None => Err(ScanError::InvalidCredentialFormat),
            Some(pk) => match spec_derived_view_key(pk) {
                None => Err(ScanError::InvalidCredentialFormat),
                Some(vk) => Ok(Account { private_key: Some(pk), view_key: vk }),
            },
        },
        (None, Some(v)) => match spec_parse_view_key(v) {
            None => Err(ScanError::InvalidCredentialFormat),
            Some(vk) => Ok(Account { private_key: None, view_key: vk }),
        },
        (None, None) => Err(ScanError::MissingCredential),
    }
}

impl Scan {
    /// Returns the validated account: the optional spending credential and
    /// the viewing credential, per the supplied configuration.
    pub fn parse_account(&self) -> (r: Result<Account, ScanError>)
        ensures
            r == spec_resolve_credentials(
                string_opt_chars(self.private_key),
                string_opt_chars(self.view_key),
            ),
            r matches Ok(account) ==> account.wf(),
    {
        match (&self.private_key, &self.view_key) {
            (Some(pk_str), Some(vk_str)) => {
                let pk = match parse_private_key(pk_str.as_str()) {
                    Some(pk) => pk,
                    None => {
                        return Err(ScanError::InvalidCredentialFormat);
                    },
                };
                let expected = match derive_view_key(&pk) {
                    Some(vk) => vk,
                    None => {
                        return Err(ScanError::InvalidCredentialFormat);
                    },
                };
                let vk = match parse_view_key(vk_str.as_str()) {
                    Some(vk) => vk,
                    None => {
                        return Err(ScanError::InvalidCredentialFormat);
                    },
                };
                if view_key_eq(&expected, &vk) {
                    Ok(Account { private_key: Some(pk), view_key: vk })
                } else {
                    Err(ScanError::CredentialMismatch)
                }
            },
            (Some(pk_str), None) => {
                let pk = match parse_private_key(pk_str.as_str()) {
                    Some(pk) => pk,
                    None => {
                        return Err(ScanError::InvalidCredentialFormat);
                    },
                };
                match derive_view_key(&pk) {
                    Some(vk) => Ok(Account { private_key: Some(pk), view_key: vk }),
                    None => Err(ScanError::InvalidCredentialFormat),
                }
            },
            (None, Some(vk_str)) => match parse_view_key(vk_str.as_str()) {
                Some(vk) => Ok(Account { private_key: None, view_key: vk }),
                None => Err(ScanError::InvalidCredentialFormat),
            },
            (None, None) => Err(ScanError::MissingCredential),
        }
    }
}

/// Law: whenever both credential strings are well-formed but the supplied
/// viewing credential is not the one derivable from the supplied spending
/// credential, credential resolution fails with `CredentialMismatch`.
pub proof fn lemma_mismatched_credentials_rejected(
    pk_str: Seq<char>,
    vk_str: Seq<char>,
    pk: SpendingKey,
    expected: ViewingKey,
    vk: ViewingKey,
)
    requires
        spec_parse_private_key(pk_str) == Some(pk),
        spec_derived_view_key(pk) == Some(expected),
        spec_parse_view_key(vk_str) == Some(vk),
        expected != vk,
    ensures
        spec_resolve_credentials(Some(pk_str), Some(vk_str)) == Err::<Account, ScanError>(
            ScanError::CredentialMismatch,
        ),
{
}

} // verus!
