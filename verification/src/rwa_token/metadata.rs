//! Name, symbol, precision and asset type of the token.

use vstd::prelude::*;

use super::storage_types::{Storage, StorageView, TokenMetadata, TokenMetadataView};
use crate::types::copy_bytes;

verus! {

/// The token's precision.
pub fn read_decimal(store: &Storage) -> (r: u32)
    ensures
        r == store@.metadata.decimal,
{
    store.metadata.decimal
}

/// The token's name.
pub fn read_name(store: &Storage) -> (r: Vec<u8>)
    ensures
        r@ == store@.metadata.name,
{
    copy_bytes(&store.metadata.name)
}

/// The token's symbol.
pub fn read_symbol(store: &Storage) -> (r: Vec<u8>)
    ensures
        r@ == store@.metadata.symbol,
{
    copy_bytes(&store.metadata.symbol)
}

/// A copy of the token's metadata.
pub fn read_metadata(store: &Storage) -> (r: TokenMetadata)
    ensures
        r@ == store@.metadata,
{
    TokenMetadata {
        decimal: store.metadata.decimal,
        name: copy_bytes(&store.metadata.name),
        symbol: copy_bytes(&store.metadata.symbol),
    }
}

/// Replaces the token's metadata.
pub fn write_metadata(store: &mut Storage, decimal: u32, name: Vec<u8>, symbol: Vec<u8>)
    ensures
        final(store)@ == (StorageView {
            metadata: TokenMetadataView { decimal, name: name@, symbol: symbol@ },
            ..old(store)@
        }),
{
    store.metadata = TokenMetadata { decimal, name, symbol };
}

/// The kind of asset the token stands for.
pub fn read_asset_type(store: &Storage) -> (r: Vec<u8>)
    ensures
        r@ == store@.asset_type,
{
    copy_bytes(&store.asset_type)
}

/// Sets the kind of asset the token stands for.
pub fn write_asset_type(store: &mut Storage, asset_type: Vec<u8>)
    ensures
        final(store)@ == (StorageView { asset_type: asset_type@, ..old(store)@ }),
{
    store.asset_type = asset_type;
}

} // verus!
