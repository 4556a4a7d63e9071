//! The boundary to the cryptographic and serialization crates.
//!
//! The scan treats credentials, commitments, records and blocks as opaque
//! values, each held in a newtype below; everything the logic learns about
//! one comes through the wrappers in this module. Each wrapper relies on one
//! outside function; a result that is a pure function of its arguments is
//! given a name (an uninterpreted spec function), and the verified logic is
//! stated over those names.

use vstd::prelude::*;

use snarkvm::prelude::{Block, Ciphertext, Field, Plaintext, PrivateKey, Record, ViewKey};
use std::str::FromStr;

verus! {

/// The network this scanner is built against.
pub type CurrentNetwork = snarkvm::console::network::TestnetV0;

/// A spending credential: allows deriving serial numbers, and hence spent
/// detection. Opaque to the scan logic.
#[verifier::external_body]
pub struct SpendingKey(pub PrivateKey<CurrentNetwork>);

/// A viewing credential: allows detecting ownership of, and decrypting,
/// records. Opaque to the scan logic.
#[verifier::external_body]
pub struct ViewingKey(pub ViewKey<CurrentNetwork>);

/// The address a viewing credential corresponds to. Opaque to the scan logic.
#[verifier::external_body]
pub struct AccountAddress(pub snarkvm::prelude::Address<CurrentNetwork>);

/// The x-coordinate of an account address, the value a record's ownership
/// tag is tested against. Opaque to the scan logic.
#[verifier::external_body]
pub struct AddressXCoordinate(pub Field<CurrentNetwork>);

/// A record's on-chain commitment. Opaque to the scan logic.
#[verifier::external_body]
pub struct Commitment(pub Field<CurrentNetwork>);

/// The serial number a spent record reveals on-chain. Opaque to the scan
/// logic.
#[verifier::external_body]
pub struct SerialNumber(pub Field<CurrentNetwork>);

/// An encrypted record as it appears in a block. Opaque to the scan logic.
#[verifier::external_body]
pub struct RecordCiphertext(pub Record<CurrentNetwork, Ciphertext<CurrentNetwork>>);

/// A decrypted record. Opaque to the scan logic.
#[verifier::external_body]
pub struct RecordPlaintext(pub Record<CurrentNetwork, Plaintext<CurrentNetwork>>);

/// One block as served by the endpoint. Opaque to the scan logic; the only
/// thing read from it is its list of (commitment, ciphertext record) pairs.
#[verifier::external_body]
pub struct BlockData(pub Block<CurrentNetwork>);

/// Relies on the wrapped value being `Copy`: a copy is the same value.
impl Clone for SpendingKey {
    #[verifier::external_body]
    fn clone(&self) -> (r: Self)
        ensures
            r == *self,
    {
        SpendingKey(self.0)
    }
}

impl Copy for SpendingKey {

}

/// Relies on the wrapped value being `Copy`: a copy is the same value.
impl Clone for ViewingKey {
    #[verifier::external_body]
    fn clone(&self) -> (r: Self)
        ensures
            r == *self,
    {
        ViewingKey(self.0)
    }
}

impl Copy for ViewingKey {

}

/// Relies on the wrapped value being `Copy`: a copy is the same value.
impl Clone for AccountAddress {
    #[verifier::external_body]
    fn clone(&self) -> (r: Self)
        ensures
            r == *self,
    {
        AccountAddress(self.0)
    }
}

impl Copy for AccountAddress {

}

/// Relies on the wrapped value being `Copy`: a copy is the same value.
impl Clone for AddressXCoordinate {
    #[verifier::external_body]
    fn clone(&self) -> (r: Self)
        ensures
            r == *self,
    {
        AddressXCoordinate(self.0)
    }
}

impl Copy for AddressXCoordinate {

}

/// Relies on the wrapped value being `Copy`: a copy is the same value.
impl Clone for Commitment {
    #[verifier::external_body]
    fn clone(&self) -> (r: Self)
        ensures
            r == *self,
    {
        Commitment(self.0)
    }
}

impl Copy for Commitment {

}

/// Relies on the wrapped value being `Copy`: a copy is the same value.
impl Clone for SerialNumber {
    #[verifier::external_body]
    fn clone(&self) -> (r: Self)
        ensures
            r == *self,
    {
        SerialNumber(self.0)
    }
}

impl Copy for SerialNumber {

}

/// Relies on `Record`'s `Clone`: a clone is the same record.
impl Clone for RecordCiphertext {
    #[verifier::external_body]
    fn clone(&self) -> (r: Self)
        ensures
            r == *self,
    {
        RecordCiphertext(self.0.clone())
    }
}

/// The spending credential a given string parses to, if it is well-formed.
pub uninterp spec fn spec_parse_private_key(s: Seq<char>) -> Option<SpendingKey>;

/// The viewing credential a given string parses to, if it is well-formed.
pub uninterp spec fn spec_parse_view_key(s: Seq<char>) -> Option<ViewingKey>;

/// The viewing credential derivable from a spending credential.
pub uninterp spec fn spec_derived_view_key(pk: SpendingKey) -> Option<ViewingKey>;

/// The address a viewing credential corresponds to.
pub uninterp spec fn spec_address(vk: ViewingKey) -> AccountAddress;

/// The x-coordinate of an address.
pub uninterp spec fn spec_x_coordinate(a: AccountAddress) -> AddressXCoordinate;

/// Whether a ciphertext record's ownership tag matches the address behind a
/// viewing credential.
pub uninterp spec fn spec_is_owner(rec: RecordCiphertext, vk: ViewingKey) -> bool;

/// The serial number of the record with a given commitment, under a given
/// spending credential, if derivation succeeds.
pub uninterp spec fn spec_serial_number(pk: SpendingKey, commitment: Commitment) -> Option<
    SerialNumber,
>;

/// The plaintext a ciphertext record decrypts to under a viewing credential,
/// if decryption succeeds.
pub uninterp spec fn spec_decrypt(rec: RecordCiphertext, vk: ViewingKey) -> Option<
    RecordPlaintext,
>;

/// The ordered (commitment, ciphertext record) pairs a block holds.
pub uninterp spec fn spec_block_records(b: BlockData) -> Seq<(Commitment, RecordCiphertext)>;

/// The list of blocks a response body parses to, if it is well-formed JSON
/// for a list of blocks.
pub uninterp spec fn spec_parse_blocks(s: Seq<char>) -> Option<Seq<BlockData>>;

/// Relies on `PrivateKey::from_str`: parsing is a function of the string
/// alone and yields the spending credential the string encodes, if it is
/// well-formed.
#[verifier::external_body]
pub(crate) fn parse_private_key(s: &str) -> (r: Option<SpendingKey>)
    ensures
        r == spec_parse_private_key(s@),
{
    PrivateKey::from_str(s).ok().map(SpendingKey)
}

/// Relies on `ViewKey::from_str`: parsing is a function of the string alone
/// and yields the viewing credential the string encodes, if it is
/// well-formed.
#[verifier::external_body]
pub(crate) fn parse_view_key(s: &str) -> (r: Option<ViewingKey>)
    ensures
        r == spec_parse_view_key(s@),
{
    ViewKey::from_str(s).ok().map(ViewingKey)
}

/// Relies on `ViewKey::try_from(PrivateKey)`: the viewing credential derived
/// from a spending credential is a function of that credential alone.
#[verifier::external_body]
pub(crate) fn derive_view_key(pk: &SpendingKey) -> (r: Option<ViewingKey>)
    ensures
        r == spec_derived_view_key(*pk),
{
    ViewKey::try_from(pk.0).ok().map(ViewingKey)
}

/// Relies on `ViewKey`'s `PartialEq`: two viewing credentials compare equal
/// exactly when they hold the same underlying key.
#[verifier::external_body]
pub(crate) fn view_key_eq(a: &ViewingKey, b: &ViewingKey) -> (r: bool)
    ensures
        r == (a == b),
{
    a.0 == b.0
}

/// Relies on `ViewKey::to_address`: the address is a function of the viewing
/// credential alone.
#[verifier::external_body]
pub(crate) fn address_of_view_key(vk: &ViewingKey) -> (r: AccountAddress)
    ensures
        r == spec_address(*vk),
{
    AccountAddress(vk.0.to_address())
}

/// Relies on `Address::to_x_coordinate`: the x-coordinate is a function of
/// the address alone.
#[verifier::external_body]
pub(crate) fn x_coordinate_of_address(a: &AccountAddress) -> (r: AddressXCoordinate)
    ensures
        r == spec_x_coordinate(*a),
{
    AddressXCoordinate(a.0.to_x_coordinate())
}

/// Relies on `Record::is_owner_with_address_x_coordinate`: the ownership
/// test is a function of the record and the viewing credential; the
/// x-coordinate handed in must be the one of that credential's address (the
/// callee checks exactly that in debug builds). The callee indexes a
/// private owner's ciphertext unchecked, so a malformed record whose
/// private owner does not hold exactly one field element — which an
/// endpoint could serve — is treated as not owned instead of being passed
/// on; the result stays a function of the record and the credential.
#[verifier::external_body]
pub(crate) fn record_is_owner(
    rec: &RecordCiphertext,
    vk: &ViewingKey,
    x: &AddressXCoordinate,
) -> (r: bool)
    requires
        *x == spec_x_coordinate(spec_address(*vk)),
    ensures
        r == spec_is_owner(*rec, *vk),
{
    if let snarkvm::prelude::Owner::Private(ciphertext) = rec.0.owner() {
        if ciphertext.len() != 1 {
            return false;
        }
    }
    rec.0.is_owner_with_address_x_coordinate(&vk.0, &x.0)
}

/// Relies on `Record::serial_number`: the serial number is a function of the
/// spending credential and the commitment alone.
#[verifier::external_body]
pub(crate) fn serial_number_of(pk: &SpendingKey, commitment: &Commitment) -> (r: Option<
    SerialNumber,
>)
    ensures
        r == spec_serial_number(*pk, *commitment),
{
    Record::<CurrentNetwork, Plaintext<CurrentNetwork>>::serial_number(pk.0, commitment.0)
        .ok()
        .map(SerialNumber)
}

/// Relies on `Record::decrypt`: decryption is a function of the ciphertext
/// record and the viewing credential alone.
#[verifier::external_body]
pub(crate) fn decrypt_with_view_key(rec: &RecordCiphertext, vk: &ViewingKey) -> (r: Option<
    RecordPlaintext,
>)
    ensures
        r == spec_decrypt(*rec, *vk),
{
    rec.0.decrypt(&vk.0).ok().map(RecordPlaintext)
}

/// Relies on `Block::records`: the (commitment, ciphertext record) pairs of
/// a block, in the block's own order.
#[verifier::external_body]
pub(crate) fn records_of_block(b: &BlockData) -> (r: Vec<(Commitment, RecordCiphertext)>)
    ensures
        r@ == spec_block_records(*b),
{
    b.0.records().map(|(c, rec)| (Commitment(*c), RecordCiphertext(rec.clone()))).collect()
}

/// Relies on `serde_json::from_str`: whether a body parses as a list of
/// blocks, and to which list, is a function of the body alone.
#[verifier::external_body]
pub(crate) fn parse_blocks(s: &str) -> (r: Option<Vec<BlockData>>)
    ensures
        (r is Some) == (spec_parse_blocks(s@) is Some),
        r matches Some(blocks) ==> Some(blocks@) == spec_parse_blocks(s@),
{
    match serde_json::from_str::<Vec<Block<CurrentNetwork>>>(s) {
        Ok(v) => Some(v.into_iter().map(BlockData).collect()),
        Err(_) => None,
    }
}

} // verus!
