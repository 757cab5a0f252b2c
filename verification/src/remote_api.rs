//! The shapes in which the remote data API answers, reduced to plain
//! values.
//!
//! The transport layer around this crate decodes the remote API's JSON
//! payloads into these types and hands them in; nothing here touches the
//! wire.

use vstd::prelude::*;

verus! {

/// The envelope every remote API response arrives in: one `data` field
/// holding the payload.
#[derive(Clone)]
pub struct DataWrapper<T> {
    pub data: T,
}

/// One pokemon as the remote API describes it: its name and its sprite
/// sets, of which the first, when present, carries the official artwork.
#[derive(Clone)]
pub struct ApiPokemon {
    pub name: String,
    pub sprites: Vec<ApiPokemonSprites>,
}

/// One sprite set of a remote pokemon.
#[derive(Clone)]
pub struct ApiPokemonSprites {
    pub sprites: ApiPokemonSpritesOfficialArtwork,
}

/// The official-artwork sprite pair; the remote API may omit either side.
#[derive(Clone)]
pub struct ApiPokemonSpritesOfficialArtwork {
    pub front_default: Option<String>,
    pub front_shiny: Option<String>,
}

/// A list of pokemons as the remote API returns it.
#[derive(Clone)]
pub struct ApiPokemonList {
    pub results: Vec<ApiPokemon>,
}

} // verus!
