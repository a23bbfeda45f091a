//! The closed set of operations a receipt may carry, with spec-level views.
//!
//! Every structured payload (method names, public keys) is validated while
//! the action value is constructed, strictly before the action reaches a
//! receipt; a value of these types is therefore always well formed.

use vstd::prelude::*;
use vstd::utf8::{decode_utf8, valid_utf8};

use crate::crypto::PublicKey;

verus! {

/// Relies on `String::from_utf8`: it succeeds exactly when the bytes are
/// valid UTF-8, and then returns those bytes decoded to characters.
#[verifier::external_body]
pub(crate) fn string_from_utf8(bytes: Vec<u8>) -> (r: Option<String>)
    ensures
        r is Some <==> valid_utf8(bytes@),
        r is Some ==> r->0@ == decode_utf8(bytes@),
{
    String::from_utf8(bytes).ok()
}

/// An attached balance, in the protocol's smallest token unit.
pub type Balance = u128;

/// An amount of execution gas.
pub type Gas = u64;

/// A relative share of leftover gas, requested by a function-call action.
#[derive(Debug, Clone, Copy, PartialEq, Eq, Structural)]
pub struct GasWeight(pub u64);

/// Spec view of [`FunctionCallPermission`].
#[verifier::ext_equal]
pub ghost struct FunctionCallPermissionView {
    pub allowance: Option<Balance>,
    pub receiver_id: Seq<char>,
    pub method_names: Seq<Seq<char>>,
}

/// The scope of an access key restricted to function calls: an optional
/// spending allowance, the contract it may call, and the methods it may call
/// (an empty list allows any method).
#[derive(Debug, PartialEq, Eq)]
pub struct FunctionCallPermission {
    pub allowance: Option<Balance>,
    pub receiver_id: String,
    pub method_names: Vec<String>,
}

impl View for FunctionCallPermission {
    type V = FunctionCallPermissionView;

    open spec fn view(&self) -> FunctionCallPermissionView {
        FunctionCallPermissionView {
            allowance: self.allowance,
            receiver_id: self.receiver_id@,
            method_names: self.method_names@.map_values(|m: String| m@),
        }
    }
}

/// Spec view of [`AccessKeyPermission`].
#[verifier::ext_equal]
pub ghost enum AccessKeyPermissionView {
    FullAccess,
    FunctionCall(FunctionCallPermissionView),
}

/// What an access key is permitted to do.
#[derive(Debug, PartialEq, Eq)]
pub enum AccessKeyPermission {
    FullAccess,
    FunctionCall(FunctionCallPermission),
}

impl View for AccessKeyPermission {
    type V = AccessKeyPermissionView;

    open spec fn view(&self) -> AccessKeyPermissionView {
        match self {
            AccessKeyPermission::FullAccess => AccessKeyPermissionView::FullAccess,
            AccessKeyPermission::FunctionCall(p) => AccessKeyPermissionView::FunctionCall(p@),
        }
    }
}

/// Spec view of [`AccessKey`].
#[verifier::ext_equal]
pub ghost struct AccessKeyView {
    pub nonce: u64,
    pub permission: AccessKeyPermissionView,
}

/// An access key to be added to an account.
#[derive(Debug, PartialEq, Eq)]
pub struct AccessKey {
    pub nonce: u64,
    pub permission: AccessKeyPermission,
}

impl View for AccessKey {
    type V = AccessKeyView;

    open spec fn view(&self) -> AccessKeyView {
        AccessKeyView { nonce: self.nonce, permission: self.permission@ }
    }
}

/// Spec view of [`Action`].  Account names and method names appear as
/// character sequences, public keys as their serialized bytes.
#[verifier::ext_equal]
pub ghost enum ActionView {
    CreateAccount,
    DeployContract { code: Seq<u8> },
    FunctionCall { method_name: Seq<char>, args: Seq<u8>, gas: Gas, deposit: Balance },
    Transfer { deposit: Balance },
    Stake { stake: Balance, public_key: Seq<u8> },
    AddKey { public_key: Seq<u8>, access_key: AccessKeyView },
    DeleteKey { public_key: Seq<u8> },
    DeleteAccount { beneficiary_id: Seq<char> },
}

/// One operation within a receipt.
#[derive(Debug, PartialEq, Eq)]
pub enum Action {
    /// Create the receiver account.
    CreateAccount,
    /// Deploy the given code on the receiver account.
    DeployContract { code: Vec<u8> },
    /// Call a method of the receiver account's contract.
    FunctionCall { method_name: String, args: Vec<u8>, gas: Gas, deposit: Balance },
    /// Transfer the deposit to the receiver account.
    Transfer { deposit: Balance },
    /// Stake with the given validator key.
    Stake { stake: Balance, public_key: PublicKey },
    /// Add an access key to the receiver account.
    AddKey { public_key: PublicKey, access_key: AccessKey },
    /// Delete an access key of the receiver account.
    DeleteKey { public_key: PublicKey },
    /// Delete the receiver account, sending its remaining balance to the
    /// beneficiary.
    DeleteAccount { beneficiary_id: String },
}

impl View for Action {
    type V = ActionView;

    open spec fn view(&self) -> ActionView {
        match self {
            Action::CreateAccount => ActionView::CreateAccount,
            Action::DeployContract { code } => ActionView::DeployContract { code: code@ },
            Action::FunctionCall { method_name, args, gas, deposit } => ActionView::FunctionCall {
                method_name: method_name@,
                args: args@,
                gas: *gas,
                deposit: *deposit,
            },
            Action::Transfer { deposit } => ActionView::Transfer { deposit: *deposit },
            Action::Stake { stake, public_key } => ActionView::Stake {
                stake: *stake,
                public_key: public_key@,
            },
            Action::AddKey { public_key, access_key } => ActionView::AddKey {
                public_key: public_key@,
                access_key: access_key@,
            },
            Action::DeleteKey { public_key } => ActionView::DeleteKey {
                public_key: public_key@,
            },
            Action::DeleteAccount { beneficiary_id } => ActionView::DeleteAccount {
                beneficiary_id: beneficiary_id@,
            },
        }
    }
}

} // verus!
