use pokecache::cache::Cache;
use pokecache::cache::LockOutcome;
use pokecache::pokemon::Pokemon;
use pokecache::remote_api::{
    ApiPokemon, ApiPokemonList, ApiPokemonSprites, ApiPokemonSpritesOfficialArtwork, DataWrapper,
};
use pokecache::routes::{
    abort_pokemon_list_fetch, begin_pokemon_list_fetch, choose_random_pokemons,
    convert_pokemon_list, finish_pokemon_list_fetch, get_by_name_abort, get_by_name_begin,
    get_by_name_finish, get_cache_key_for_pokemon, is_valid_pokemon_name,
    pokemon_list_composite_key, read_pokemon_list, store_pokemon_list, ByNameStep, CacheValue,
    RouteError,
};

fn full_api_pokemon(name: &str) -> ApiPokemon {
    ApiPokemon {
        name: name.to_string(),
        sprites: vec![ApiPokemonSprites {
            sprites: ApiPokemonSpritesOfficialArtwork {
                front_default: Some(format!("{name}-default.png")),
                front_shiny: Some(format!("{name}-shiny.png")),
            },
        }],
    }
}

fn spriteless_api_pokemon(name: &str) -> ApiPokemon {
    ApiPokemon { name: name.to_string(), sprites: vec![] }
}

fn shinyless_api_pokemon(name: &str) -> ApiPokemon {
    ApiPokemon {
        name: name.to_string(),
        sprites: vec![ApiPokemonSprites {
            sprites: ApiPokemonSpritesOfficialArtwork {
                front_default: Some(format!("{name}-default.png")),
                front_shiny: None,
            },
        }],
    }
}

fn wrapped(list: Vec<ApiPokemon>) -> DataWrapper<ApiPokemonList> {
    DataWrapper { data: ApiPokemonList { results: list } }
}

#[test]
fn cache_key_for_pokemon_prefixes_name() {
    assert_eq!(get_cache_key_for_pokemon("pikachu"), "pokemon//pikachu");
    assert_eq!(get_cache_key_for_pokemon(""), "pokemon//");
}

#[test]
fn name_validation_accepts_ascii_letters_only() {
    assert!(is_valid_pokemon_name("pikachu"));
    assert!(is_valid_pokemon_name("Pikachu"));
    assert!(is_valid_pokemon_name(""));
    assert!(!is_valid_pokemon_name("pika chu"));
    assert!(!is_valid_pokemon_name("pika4"));
    assert!(!is_valid_pokemon_name("pika-chu"));
    assert!(!is_valid_pokemon_name("piká"));
}

#[test]
fn try_from_converts_full_artwork() {
    let api = full_api_pokemon("pikachu");
    let p = Pokemon::try_from(&api).unwrap();
    assert_eq!(p.name, "pikachu");
    assert_eq!(p.pictures.front_default, "pikachu-default.png");
    assert_eq!(p.pictures.front_shiny, "pikachu-shiny.png");
}

#[test]
fn try_from_refuses_missing_sprites() {
    assert!(Pokemon::try_from(&spriteless_api_pokemon("x")).is_err());
    assert!(Pokemon::try_from(&shinyless_api_pokemon("x")).is_err());
}

#[test]
fn convert_pokemon_list_keeps_servable_in_order() {
    let list = vec![
        full_api_pokemon("a"),
        spriteless_api_pokemon("b"),
        full_api_pokemon("c"),
        shinyless_api_pokemon("d"),
    ];
    let out = convert_pokemon_list(&list);
    assert_eq!(out.len(), 2);
    assert_eq!(out[0].name, "a");
    assert_eq!(out[1].name, "c");
}

#[test]
fn choose_random_pokemons_picks_from_servable() {
    let list = vec![full_api_pokemon("a"), spriteless_api_pokemon("b"), full_api_pokemon("c")];
    let picks = choose_random_pokemons(&list, 20);
    assert_eq!(picks.len(), 20);
    for p in &picks {
        assert!(p.name == "a" || p.name == "c");
    }
}

#[test]
fn cache_value_accessors_check_the_variant() {
    let flag = CacheValue::Flag(true);
    assert_eq!(flag.as_flag(), Some(true));
    assert!(flag.as_pokemon().is_none());
    assert!(flag.as_pokemon_list().is_none());

    let poke = CacheValue::Pokemon(full_api_pokemon("a"));
    assert!(poke.as_flag().is_none());
    assert_eq!(poke.as_pokemon().unwrap().name, "a");

    assert_eq!(CacheValue::Flag(true).type_tag(), pokecache::routes::FLAG_TAG);
    assert_eq!(poke.type_tag(), pokecache::routes::POKEMON_TAG);
}

#[test]
fn route_error_status_codes_and_messages() {
    assert_eq!(RouteError::InvalidName.status_code(), 400);
    assert_eq!(RouteError::NotFound.status_code(), 404);
    assert_eq!(RouteError::ConversionFailed.status_code(), 404);
    assert_eq!(RouteError::Upstream.status_code(), 500);
    assert_eq!(RouteError::InvalidName.message(), "Name must be only ASCII alphabetic");
    assert_eq!(RouteError::NotFound.message(), "Pokemon was not found");
    assert_eq!(
        RouteError::ConversionFailed.message(),
        "Failed to convert api pokemon to our pokemon"
    );
    assert_eq!(RouteError::Upstream.message(), "Error encountered");
}

#[test]
fn by_name_rejects_invalid_name() {
    let mut cache: Cache<CacheValue> = Cache::new();
    let r = get_by_name_begin(&mut cache, "not a name!");
    assert!(matches!(r, Err(RouteError::InvalidName)));
}

#[test]
fn by_name_miss_fetch_then_hit() {
    let mut cache: Cache<CacheValue> = Cache::new();

    let r = get_by_name_begin(&mut cache, "pikachu");
    assert!(matches!(r, Ok(ByNameStep::MustFetch)));

    // a second caller for the same name waits while the fetch is in flight
    let r2 = get_by_name_begin(&mut cache, "pikachu");
    assert!(matches!(r2, Ok(ByNameStep::Busy)));

    let fetched = wrapped(vec![full_api_pokemon("pikachu")]);
    let p = get_by_name_finish(&mut cache, "pikachu", fetched).unwrap();
    assert_eq!(p.name, "pikachu");

    // now every caller hits the cache
    match get_by_name_begin(&mut cache, "pikachu") {
        Ok(ByNameStep::Hit(hit)) => {
            assert_eq!(hit.name, "pikachu");
            assert_eq!(hit.pictures.front_default, "pikachu-default.png");
        }
        other => panic!("expected a hit, got {:?}", other.is_ok()),
    }
}

#[test]
fn by_name_empty_answer_is_not_found_and_not_cached() {
    let mut cache: Cache<CacheValue> = Cache::new();
    assert!(matches!(get_by_name_begin(&mut cache, "missingno"), Ok(ByNameStep::MustFetch)));
    let r = get_by_name_finish(&mut cache, "missingno", wrapped(vec![]));
    assert!(matches!(r, Err(RouteError::NotFound)));
    // nothing was cached: the next caller is granted the fetch again
    assert!(matches!(get_by_name_begin(&mut cache, "missingno"), Ok(ByNameStep::MustFetch)));
}

#[test]
fn by_name_unservable_is_cached_but_answered_as_conversion_failure() {
    let mut cache: Cache<CacheValue> = Cache::new();
    assert!(matches!(get_by_name_begin(&mut cache, "ditto"), Ok(ByNameStep::MustFetch)));
    let r = get_by_name_finish(&mut cache, "ditto", wrapped(vec![spriteless_api_pokemon("ditto")]));
    assert!(matches!(r, Err(RouteError::ConversionFailed)));
    // the fetched pokemon is cached as it came; hits keep failing to convert
    assert!(matches!(get_by_name_begin(&mut cache, "ditto"), Err(RouteError::ConversionFailed)));
}

#[test]
fn by_name_abort_releases_for_retry() {
    let mut cache: Cache<CacheValue> = Cache::new();
    assert!(matches!(get_by_name_begin(&mut cache, "pikachu"), Ok(ByNameStep::MustFetch)));
    // the upstream fetch failed: release, cache nothing
    get_by_name_abort(&mut cache, "pikachu");
    assert!(matches!(get_by_name_begin(&mut cache, "pikachu"), Ok(ByNameStep::MustFetch)));
}

#[test]
fn list_fetch_single_flight_and_read() {
    let mut cache: Cache<CacheValue> = Cache::new();
    assert_eq!(begin_pokemon_list_fetch(&mut cache), LockOutcome::Granted);
    assert_eq!(begin_pokemon_list_fetch(&mut cache), LockOutcome::Waited);
    finish_pokemon_list_fetch(&mut cache, wrapped(vec![full_api_pokemon("a")]));
    assert_eq!(begin_pokemon_list_fetch(&mut cache), LockOutcome::Cached);
    let e = cache.entry(pokemon_list_composite_key());
    let list = read_pokemon_list(&cache, e).unwrap();
    assert_eq!(list.data.results.len(), 1);
    assert_eq!(list.data.results[0].name, "a");
}

#[test]
fn list_fetch_abort_is_not_cached() {
    let mut cache: Cache<CacheValue> = Cache::new();
    assert_eq!(begin_pokemon_list_fetch(&mut cache), LockOutcome::Granted);
    abort_pokemon_list_fetch(&mut cache);
    let e = cache.entry(pokemon_list_composite_key());
    assert!(read_pokemon_list(&cache, e).is_none());
    assert_eq!(begin_pokemon_list_fetch(&mut cache), LockOutcome::Granted);
}

#[test]
fn store_pokemon_list_spreads_once() {
    let mut cache: Cache<CacheValue> = Cache::new();
    let marked = store_pokemon_list(
        &mut cache,
        vec![full_api_pokemon("bulbasaur"), full_api_pokemon("ivysaur")],
    );
    assert!(marked);
    // each pokemon of the list now answers by-name from the cache
    match get_by_name_begin(&mut cache, "bulbasaur") {
        Ok(ByNameStep::Hit(p)) => assert_eq!(p.name, "bulbasaur"),
        _ => panic!("expected a hit"),
    }
    match get_by_name_begin(&mut cache, "ivysaur") {
        Ok(ByNameStep::Hit(p)) => assert_eq!(p.name, "ivysaur"),
        _ => panic!("expected a hit"),
    }
    // the spread happens at most once per process
    let again = store_pokemon_list(&mut cache, vec![full_api_pokemon("charmander")]);
    assert!(!again);
    assert!(matches!(get_by_name_begin(&mut cache, "charmander"), Ok(ByNameStep::MustFetch)));
}

#[test]
fn store_pokemon_list_keeps_already_cached_values() {
    let mut cache: Cache<CacheValue> = Cache::new();
    // "squirtle" is already cached from a by-name fetch
    assert!(matches!(get_by_name_begin(&mut cache, "squirtle"), Ok(ByNameStep::MustFetch)));
    let original = full_api_pokemon("squirtle");
    get_by_name_finish(&mut cache, "squirtle", wrapped(vec![original])).unwrap();

    // the spread offers a different value under the same name and must not
    // replace the one already stored
    let mut other = full_api_pokemon("squirtle");
    other.sprites[0].sprites.front_default = Some("other.png".to_string());
    assert!(store_pokemon_list(&mut cache, vec![other]));

    match get_by_name_begin(&mut cache, "squirtle") {
        Ok(ByNameStep::Hit(p)) => assert_eq!(p.pictures.front_default, "squirtle-default.png"),
        _ => panic!("expected a hit"),
    }
}
