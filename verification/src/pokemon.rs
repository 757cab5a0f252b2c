//! The pokemon shape this gateway serves, and its conversion from the
//! remote API's shape.
//!
//! A remote pokemon is served only when its first sprite set carries both
//! official-artwork pictures; otherwise the conversion is refused and the
//! route answers that the pokemon was not found.

use crate::remote_api::ApiPokemon;
use vstd::prelude::*;

verus! {

/// The picture pair served for a pokemon.
pub struct PokemonPictures {
    pub front_default: String,
    pub front_shiny: String,
}

/// A pokemon as this gateway serves it: its name and its two official
/// artwork pictures.
pub struct Pokemon {
    pub name: String,
    pub pictures: PokemonPictures,
}

/// Whether a remote pokemon can be served: it has at least one sprite set
/// and the first one carries both official-artwork pictures.
pub open spec fn api_pokemon_convertible(p: ApiPokemon) -> bool {
    &&& p.sprites@.len() > 0
    &&& p.sprites@[0].sprites.front_default is Some
    &&& p.sprites@[0].sprites.front_shiny is Some
}

/// The served pokemon a convertible remote pokemon maps to.
pub open spec fn pokemon_of_api(p: ApiPokemon) -> Pokemon {
    Pokemon {
        name: p.name,
        pictures: PokemonPictures {
            front_default: p.sprites@[0].sprites.front_default->0,
            front_shiny: p.sprites@[0].sprites.front_shiny->0,
        },
    }
}

impl Pokemon {
    /// An exact copy of this pokemon.
    pub fn duplicate(&self) -> (r: Pokemon)
        ensures
            r == *self,
    {
        Pokemon {
            name: self.name.clone(),
            pictures: PokemonPictures {
                front_default: self.pictures.front_default.clone(),
                front_shiny: self.pictures.front_shiny.clone(),
            },
        }
    }

    /// Convert a remote pokemon into the served shape, refusing one whose
    /// first sprite set does not carry both official-artwork pictures.
    pub fn try_from(value: &ApiPokemon) -> (r: Result<Pokemon, ()>)
        ensures
            match r {
                Ok(p) => api_pokemon_convertible(*value) && p == pokemon_of_api(*value),
                Err(_) => !api_pokemon_convertible(*value),
            },
    {
        if value.sprites.len() == 0 {
            return Err(());
        }
        let sprites = &value.sprites[0].sprites;
        match (&sprites.front_default, &sprites.front_shiny) {
            (Some(front_default), Some(front_shiny)) => Ok(
                Pokemon {
                    name: value.name.clone(),
                    pictures: PokemonPictures {
                        front_default: front_default.clone(),
                        front_shiny: front_shiny.clone(),
                    },
                },
            ),
            _ => Err(()),
        }
    }
}

} // verus!
