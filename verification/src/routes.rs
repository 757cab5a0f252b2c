//! The pure decision logic of the gateway's pokemon routes.
//!
//! The routes cache three kinds of value in one shared [`Cache`]: the raw
//! pokemon list fetched from the remote API, one remote pokemon per name,
//! and a flag recording that the list's pokemons have been spread into
//! their per-name slots.  [`CacheValue`] is the one store type behind
//! which all three travel, and a distinct type tag per variant keeps each
//! composite key bound to one variant for the life of the process
//! ([`tags_consistent`]); a typed accessor checks the variant on the way
//! out, so a stored value can never be misread at another type.
//!
//! The route bodies around this logic — HTTP dispatch, the outbound fetch,
//! response shaping — live in the surrounding binary; they call in here
//! with plain values.

use crate::cache::{Cache, CacheEntry, CompositeKey, LockOutcome};
use crate::flight::{cache_step, SlotEvent, SlotModel};
use crate::pokemon::{api_pokemon_convertible, pokemon_of_api, Pokemon};
use crate::remote_api::{ApiPokemon, ApiPokemonList, DataWrapper};
use vstd::pervasive::unreached;
use vstd::prelude::*;
use vstd::string::StringExecFns;

verus! {

/// Type tag of a [`CacheValue::Flag`] value.
pub const FLAG_TAG: u64 = 1;

/// Type tag of a [`CacheValue::Pokemon`] value.
pub const POKEMON_TAG: u64 = 2;

/// Type tag of a [`CacheValue::PokemonList`] value.
pub const POKEMON_LIST_TAG: u64 = 3;

/// The one type the routes' shared cache stores: each variant stands for
/// one value type the routes cache, and [`CacheValue::type_tag`] is the
/// tag its composite keys carry.
pub enum CacheValue {
    /// A marker, e.g. that the pokemon list has been spread per name.
    Flag(bool),
    /// One remote pokemon, cached under its name's key.
    Pokemon(ApiPokemon),
    /// The remote API's whole pokemon list.
    PokemonList(DataWrapper<ApiPokemonList>),
}

impl CacheValue {
    /// The type tag of this value's variant.
    pub open spec fn spec_type_tag(self) -> u64 {
        match self {
            CacheValue::Flag(_) => FLAG_TAG,
            CacheValue::Pokemon(_) => POKEMON_TAG,
            CacheValue::PokemonList(_) => POKEMON_LIST_TAG,
        }
    }

    /// The type tag of this value's variant.
    pub fn type_tag(&self) -> (t: u64)
        ensures
            t == self.spec_type_tag(),
    {
        match self {
            CacheValue::Flag(_) => FLAG_TAG,
            CacheValue::Pokemon(_) => POKEMON_TAG,
            CacheValue::PokemonList(_) => POKEMON_LIST_TAG,
        }
    }

    /// The checked narrowing of a stored value back to a flag: `None`
    /// exactly when the value is of another variant.
    pub fn as_flag(&self) -> (r: Option<bool>)
        ensures
            match r {
                Some(b) => *self == CacheValue::Flag(b),
                None => !(*self is Flag),
            },
    {
        match self {
            CacheValue::Flag(b) => Some(*b),
            _ => None,
        }
    }

    /// The checked narrowing of a stored value back to a pokemon: `None`
    /// exactly when the value is of another variant.
    pub fn as_pokemon(&self) -> (r: Option<&ApiPokemon>)
        ensures
            match r {
                Some(p) => *self == CacheValue::Pokemon(*p),
                None => !(*self is Pokemon),
            },
    {
        match self {
            CacheValue::Pokemon(p) => Some(p),
            _ => None,
        }
    }

    /// The checked narrowing of a stored value back to the pokemon list:
    /// `None` exactly when the value is of another variant.
    pub fn as_pokemon_list(&self) -> (r: Option<&DataWrapper<ApiPokemonList>>)
        ensures
            match r {
                Some(l) => *self == CacheValue::PokemonList(*l),
                None => !(*self is PokemonList),
            },
    {
        match self {
            CacheValue::PokemonList(l) => Some(l),
            _ => None,
        }
    }
}

/// The composite-key discipline of the routes' shared cache: a populated
/// slot always holds the variant its key's type tag names.  Pairing the
/// same key string with two different tags is a programmer error; the tag
/// being part of the key, such a pair addresses two distinct slots, and
/// this predicate, preserved by every typed operation below, is what makes
/// the checked narrowing on the way out always succeed.
pub open spec fn tags_consistent(m: Map<(Seq<char>, u64), SlotModel<CacheValue>>) -> bool {
    forall|k: (Seq<char>, u64)|
        m.contains_key(k) && #[trigger] m[k].value is Some ==> m[k].value->0.spec_type_tag() == k.1
}

/// The key view under which one pokemon is cached, per name.
pub open spec fn pokemon_key_view(name: Seq<char>) -> (Seq<char>, u64) {
    ("pokemon//"@ + name, POKEMON_TAG)
}

/// The key view of the spread-completed flag.
pub open spec fn flag_key_view() -> (Seq<char>, u64) {
    ("get_all is cached"@, FLAG_TAG)
}

/// The key view under which the remote API's pokemon list is cached.
pub open spec fn pokemon_list_key_view() -> (Seq<char>, u64) {
    ("/pokemon/get_all"@, POKEMON_LIST_TAG)
}

/// The cache-key string for one pokemon, by name.
pub fn get_cache_key_for_pokemon(pokemon_name: &str) -> (s: String)
    ensures
        s@ == "pokemon//"@ + pokemon_name@,
{
    let mut s = "pokemon//".to_owned();
    s.append(pokemon_name);
    s
}

/// The composite key of one pokemon's slot, by name.
pub fn pokemon_composite_key(pokemon_name: &str) -> (k: CompositeKey)
    ensures
        k@ == pokemon_key_view(pokemon_name@),
{
    CompositeKey { name: get_cache_key_for_pokemon(pokemon_name), type_tag: POKEMON_TAG }
}

/// The composite key of the spread-completed flag's slot.
pub fn flag_composite_key() -> (k: CompositeKey)
    ensures
        k@ == flag_key_view(),
{
    CompositeKey { name: "get_all is cached".to_owned(), type_tag: FLAG_TAG }
}

/// The composite key of the pokemon list's slot.
pub fn pokemon_list_composite_key() -> (k: CompositeKey)
    ensures
        k@ == pokemon_list_key_view(),
{
    CompositeKey { name: "/pokemon/get_all".to_owned(), type_tag: POKEMON_LIST_TAG }
}

/// An ASCII letter.
pub open spec fn is_ascii_alpha_char(c: char) -> bool {
    (97 <= c as int && c as int <= 122) || (65 <= c as int && c as int <= 90)
}

/// A name the by-name route accepts: ASCII letters only.
pub open spec fn valid_pokemon_name(s: Seq<char>) -> bool {
    forall|i: int| 0 <= i < s.len() ==> is_ascii_alpha_char(#[trigger] s[i])
}

/// Whether `name` is made of ASCII letters only, as the by-name route
/// demands of its path parameter.
pub fn is_valid_pokemon_name(name: &str) -> (b: bool)
    ensures
        b == valid_pokemon_name(name@),
{
    let n = name.unicode_len();
    let mut i: usize = 0;
    while i < n
        invariant
            n == name@.len(),
            i <= n,
            forall|j: int| 0 <= j < i ==> is_ascii_alpha_char(#[trigger] name@[j]),
        decreases n - i,
    {
        let c = name.get_char(i);
        let u = c as u32;
        if !((97 <= u && u <= 122) || (65 <= u && u <= 90)) {
            return false;
        }
        i += 1;
    }
    true
}

/// The pokemons of `s` that can be served, converted, in order.
pub open spec fn converted_pokemons(s: Seq<ApiPokemon>) -> Seq<Pokemon>
    decreases s.len(),
{
    if s.len() == 0 {
        Seq::empty()
    } else if api_pokemon_convertible(s.last()) {
        converted_pokemons(s.drop_last()).push(pokemon_of_api(s.last()))
    } else {
        converted_pokemons(s.drop_last())
    }
}

/// Convert every servable pokemon of the fetched list, in order, skipping
/// the ones whose artwork is incomplete — the list the all-pokemons route
/// answers with.
pub fn convert_pokemon_list(list: &Vec<ApiPokemon>) -> (r: Vec<Pokemon>)
    ensures
        r@ == converted_pokemons(list@),
{
    let mut r: Vec<Pokemon> = Vec::new();
    let n = list.len();
    let mut i: usize = 0;
    while i < n
        invariant
            n == list@.len(),
            i <= n,
            r@ == converted_pokemons(list@.take(i as int)),
        decreases n - i,
    {
        proof {
            assert(list@.take(i + 1).drop_last() =~= list@.take(i as int));
            assert(list@.take(i + 1).last() == list@[i as int]);
        }
        match Pokemon::try_from(&list[i]) {
            Ok(p) => r.push(p),
            Err(_) => {},
        }
        i += 1;
    }
    proof {
        assert(list@.take(n as int) =~= list@);
    }
    r
}

/// Relies on `rand::thread_rng` and `rand::Rng::gen_range`: sampling the
/// half-open range below `n` yields a value inside it; `gen_range` panics
/// on an empty range, which `n > 0` rules out.
#[verifier::external_body]
fn random_below(n: usize) -> (r: usize)
    requires
        n > 0,
    ensures
        r < n,
{
    rand::Rng::gen_range(&mut rand::thread_rng(), 0..n)
}

/// Pick `count` servable pokemons from the fetched list, independently at
/// random — the random-pokemons route's answer.  Every pick is the
/// conversion of some servable pokemon of the list; one pokemon may be
/// picked more than once.  The list must hold at least one servable
/// pokemon: with none, a draw-and-retry loop over the raw list would
/// never finish, so that input is excluded here.
pub fn choose_random_pokemons(list: &Vec<ApiPokemon>, count: u8) -> (r: Vec<Pokemon>)
    requires
        converted_pokemons(list@).len() > 0,
    ensures
        r@.len() == count as nat,
        forall|j: int|
            0 <= j < r@.len() ==> converted_pokemons(list@).contains(#[trigger] r@[j]),
{
    let pool = convert_pokemon_list(list);
    let mut r: Vec<Pokemon> = Vec::new();
    let mut taken: usize = 0;
    let want = count as usize;
    while taken < want
        invariant
            pool@ == converted_pokemons(list@),
            pool@.len() > 0,
            taken <= want,
            r@.len() == taken,
            forall|j: int|
                0 <= j < r@.len() ==> converted_pokemons(list@).contains(#[trigger] r@[j]),
        decreases want - taken,
    {
        let i = random_below(pool.len());
        let picked = pool[i].duplicate();
        proof {
            assert(converted_pokemons(list@).contains(pool@[i as int]));
        }
        r.push(picked);
        taken += 1;
    }
    r
}

/// `k` is the per-name key of some pokemon of `list`.
pub open spec fn is_list_pokemon_key(list: Seq<ApiPokemon>, k: (Seq<char>, u64)) -> bool {
    exists|i: int| 0 <= i < list.len() && k == pokemon_key_view(#[trigger] list[i].name@)
}

/// The slot under `k` is absent, or empty with no populate in flight.
pub open spec fn slot_open(
    m: Map<(Seq<char>, u64), SlotModel<CacheValue>>,
    k: (Seq<char>, u64),
) -> bool {
    !m.contains_key(k) || (m[k].value is None && !m[k].writer_held)
}

/// Spread a fetched pokemon list into the per-name slots, at most once per
/// process: if the spread-completed flag is already set or being set, this
/// is a no-op; otherwise this caller sets the flag and then offers each
/// pokemon of the list to its own slot, populating exactly the slots that
/// were empty with no populate in flight, and leaving every slot that
/// already held a value — and every key outside the list — exactly as it
/// was.
pub fn store_pokemon_list(cache: &mut Cache<CacheValue>, list: Vec<ApiPokemon>) -> (marked: bool)
    requires
        old(cache).wf(),
        tags_consistent(old(cache).model()),
    ensures
        final(cache).wf(),
        old(cache).extends(*final(cache)),
        tags_consistent(final(cache).model()),
        forall|k: (Seq<char>, u64)|
            old(cache).model().contains_key(k) ==> final(cache).model().contains_key(k),
        !marked ==> *final(cache) == *old(cache) && !slot_open(
            old(cache).model(),
            flag_key_view(),
        ),
        marked ==> {
            &&& slot_open(old(cache).model(), flag_key_view())
            &&& final(cache).model().contains_key(flag_key_view())
            &&& final(cache).model()[flag_key_view()] == (SlotModel::<CacheValue> {
                value: Some(CacheValue::Flag(true)),
                writer_held: false,
            })
            &&& forall|k: (Seq<char>, u64)|
                old(cache).model().contains_key(k) && k != flag_key_view()
                    && !is_list_pokemon_key(list@, k) ==> final(cache).model()[k] == old(cache).model()[k]
            &&& forall|k: (Seq<char>, u64)|
                final(cache).model().contains_key(k) ==> old(cache).model().contains_key(k) || k
                    == flag_key_view() || is_list_pokemon_key(list@, k)
            &&& forall|i: int|
                0 <= i < list@.len() ==> {
                    let k = pokemon_key_view(#[trigger] list@[i].name@);
                    &&& final(cache).model().contains_key(k)
                    &&& (final(cache).model()[k].value is Some || final(cache).model()[k].writer_held)
                }
            &&& forall|k: (Seq<char>, u64)|
                #[trigger] is_list_pokemon_key(list@, k) && slot_open(old(cache).model(), k)
                    ==> exists|j: int|
                    0 <= j < list@.len() && pokemon_key_view(list@[j].name@) == k && final(cache).model()[k].value == Some(CacheValue::Pokemon(list@[j]))
        },
{
    let ghost m0 = old(cache).model();
    let flag_entry = cache.entry(flag_composite_key());
    let outcome = cache.get_or_write_lock(flag_entry);
    match outcome {
        LockOutcome::Cached | LockOutcome::Waited => {
            return false;
        },
        LockOutcome::Granted => {},
    }
    cache.set_and_release(flag_entry, CacheValue::Flag(true));
    let ghost c1 = *cache;
    let ghost m1 = cache.model();
    let ghost listv = list@;
    proof {
        assert(m1 =~= m0.insert(
            flag_key_view(),
            SlotModel::<CacheValue> { value: Some(CacheValue::Flag(true)), writer_held: false },
        ));
        assert(tags_consistent(m1)) by {
            assert forall|k: (Seq<char>, u64)|
                m1.contains_key(k) && #[trigger] m1[k].value is Some implies m1[k].value->0.spec_type_tag()
                == k.1 by {
                if k != flag_key_view() {
                    assert(m1[k] == m0[k]);
                }
            }
        }
        assert(!is_list_pokemon_key(listv, flag_key_view())) by {
            assert forall|i: int|
                0 <= i < listv.len() implies flag_key_view() != pokemon_key_view(
                listv[i].name@,
            ) by {
                assert(flag_key_view().1 == FLAG_TAG);
                assert(pokemon_key_view(listv[i].name@).1 == POKEMON_TAG);
            }
        }
        assert(listv.skip(0) =~= listv);
    }
    let mut remaining = list;
    let total: usize = remaining.len();
    let mut processed: usize = 0;
    while remaining.len() > 0
        invariant
            cache.wf(),
            listv.len() == total,
            c1.extends(*cache),
            tags_consistent(cache.model()),
            processed + remaining@.len() == listv.len(),
            remaining@ == listv.skip(processed as int),
            !is_list_pokemon_key(listv, flag_key_view()),
            m1.contains_key(flag_key_view()),
            m1[flag_key_view()] == (SlotModel::<CacheValue> {
                value: Some(CacheValue::Flag(true)),
                writer_held: false,
            }),
            forall|k: (Seq<char>, u64)| m1.contains_key(k) ==> cache.model().contains_key(k),
            forall|k: (Seq<char>, u64)|
                m1.contains_key(k) && !is_list_pokemon_key(listv, k) ==> cache.model()[k]
                    == m1[k],
            forall|k: (Seq<char>, u64)|
                cache.model().contains_key(k) ==> m1.contains_key(k) || is_list_pokemon_key(
                    listv,
                    k,
                ),
            forall|i: int|
                0 <= i < processed ==> {
                    let k = pokemon_key_view(#[trigger] listv[i].name@);
                    &&& cache.model().contains_key(k)
                    &&& (cache.model()[k].value is Some || cache.model()[k].writer_held)
                },
            forall|k: (Seq<char>, u64)|
                #[trigger] is_list_pokemon_key(listv, k) && slot_open(m1, k)
                    && cache.model().contains_key(k) ==> !cache.model()[k].writer_held,
            forall|k: (Seq<char>, u64)|
                #[trigger] is_list_pokemon_key(listv, k) && slot_open(m1, k)
                    && cache.model().contains_key(k) && cache.model()[k].value is Some
                    ==> exists|j: int|
                    0 <= j < listv.len() && pokemon_key_view(listv[j].name@) == k
                        && cache.model()[k].value == Some(CacheValue::Pokemon(listv[j])),
        decreases remaining@.len(),
    {
        let ghost m_pre = cache.model();
        let ghost c_pre = *cache;
        let p = remaining.remove(0);
        proof {
            assert(p == listv[processed as int]);
            assert(remaining@ =~= listv.skip(processed as int + 1));
        }
        let ghost k = pokemon_key_view(p.name@);
        proof {
            assert(is_list_pokemon_key(listv, k));
        }
        let e = cache.entry(pokemon_composite_key(p.name.as_str()));
        match cache.get_or_write_lock(e) {
            LockOutcome::Cached | LockOutcome::Waited => {},
            LockOutcome::Granted => {
                cache.set_and_release(e, CacheValue::Pokemon(p));
            },
        }
        processed += 1;
        proof {
            Cache::<CacheValue>::lemma_extends_trans(c1, c_pre, *cache);
            assert forall|k2: (Seq<char>, u64)|
                m1.contains_key(k2) && !is_list_pokemon_key(listv, k2) implies cache.model()[k2]
                == m_pre[k2] by {
                assert(k2 != k);
            }
            assert forall|k2: (Seq<char>, u64)|
                cache.model().contains_key(k2) implies m_pre.contains_key(k2)
                || is_list_pokemon_key(listv, k2) by {}
            assert(tags_consistent(cache.model())) by {
                assert forall|k2: (Seq<char>, u64)|
                    cache.model().contains_key(k2) && #[trigger] cache.model()[k2].value is Some
                    implies cache.model()[k2].value->0.spec_type_tag() == k2.1 by {
                    if k2 != k {
                        assert(cache.model()[k2] == m_pre[k2]);
                    } else {
                        assert(k.1 == POKEMON_TAG);
                    }
                }
            }
        }
    }
    proof {
        assert(processed == listv.len());
        assert forall|k: (Seq<char>, u64)|
            m0.contains_key(k) implies cache.model().contains_key(k) by {
            assert(m1.contains_key(k));
        }
        assert forall|i: int| 0 <= i < listv.len() implies {
            let k = pokemon_key_view(#[trigger] listv[i].name@);
            &&& cache.model().contains_key(k)
            &&& (cache.model()[k].value is Some || cache.model()[k].writer_held)
        } by {}
        assert forall|k: (Seq<char>, u64)|
            #[trigger] is_list_pokemon_key(listv, k) && slot_open(m0, k) implies exists|j: int|
            0 <= j < listv.len() && pokemon_key_view(listv[j].name@) == k
                && cache.model()[k].value == Some(CacheValue::Pokemon(listv[j])) by {
            assert(k != flag_key_view());
            assert(slot_open(m1, k));
            let i = choose|i: int| 0 <= i < listv.len() && k == pokemon_key_view(listv[i].name@);
            assert(cache.model().contains_key(k));
            assert(cache.model()[k].value is Some || cache.model()[k].writer_held);
            assert(!cache.model()[k].writer_held);
        }
        Cache::<CacheValue>::lemma_extends_trans(*old(cache), c1, *cache);
    }
    true
}

/// Inserting a slot whose value, if any, carries its key's tag keeps the
/// whole table's composite-key discipline.
proof fn lemma_tags_consistent_update(
    m: Map<(Seq<char>, u64), SlotModel<CacheValue>>,
    k: (Seq<char>, u64),
    s: SlotModel<CacheValue>,
)
    requires
        tags_consistent(m),
        s.value matches Some(v) ==> v.spec_type_tag() == k.1,
    ensures
        tags_consistent(m.insert(k, s)),
{
    let m2 = m.insert(k, s);
    assert forall|k2: (Seq<char>, u64)|
        m2.contains_key(k2) && #[trigger] m2[k2].value is Some implies m2[k2].value->0.spec_type_tag()
        == k2.1 by {
        if k2 != k {
            assert(m2[k2] == m[k2]);
        }
    }
}

/// The errors the pokemon routes answer with, and nothing else: a name
/// that is not ASCII letters only, a pokemon the remote API does not know,
/// a remote pokemon whose artwork is incomplete, and a failed or
/// undecodable upstream fetch.
#[derive(Debug, PartialEq, Eq, Structural)]
pub enum RouteError {
    /// The path parameter is not ASCII letters only.
    InvalidName,
    /// The remote API returned no single pokemon of that name.
    NotFound,
    /// The remote pokemon cannot be served: its artwork is incomplete.
    ConversionFailed,
    /// The outbound fetch failed or its payload did not decode.
    Upstream,
}

impl RouteError {
    /// The HTTP status code this error is answered with.
    pub open spec fn spec_status_code(self) -> u16 {
        match self {
            RouteError::InvalidName => 400,
            RouteError::NotFound => 404,
            RouteError::ConversionFailed => 404,
            RouteError::Upstream => 500,
        }
    }

    /// The HTTP status code this error is answered with.
    pub fn status_code(&self) -> (c: u16)
        ensures
            c == self.spec_status_code(),
    {
        match self {
            RouteError::InvalidName => 400,
            RouteError::NotFound => 404,
            RouteError::ConversionFailed => 404,
            RouteError::Upstream => 500,
        }
    }

    /// The constant part of the message this error is answered with; the
    /// transport layer appends the upstream error's own text to the last
    /// one.
    pub fn message(&self) -> (m: &'static str)
        ensures
            match self {
                RouteError::InvalidName => m@ == "Name must be only ASCII alphabetic"@,
                RouteError::NotFound => m@ == "Pokemon was not found"@,
                RouteError::ConversionFailed => m@
                    == "Failed to convert api pokemon to our pokemon"@,
                RouteError::Upstream => m@ == "Error encountered"@,
            },
    {
        match self {
            RouteError::InvalidName => "Name must be only ASCII alphabetic",
            RouteError::NotFound => "Pokemon was not found",
            RouteError::ConversionFailed => "Failed to convert api pokemon to our pokemon",
            RouteError::Upstream => "Error encountered",
        }
    }
}

/// What the by-name route's first, cache-deciding step found.
pub enum ByNameStep {
    /// The pokemon was cached and servable: the route's answer.
    Hit(Pokemon),
    /// This caller owes the slot a fetch: fetch the pokemon, then call
    /// [`get_by_name_finish`] with the payload or [`get_by_name_abort`] on
    /// a failed fetch.
    MustFetch,
    /// Another caller is fetching this name: wait for its release, then
    /// begin again.
    Busy,
}

/// The by-name route's cache-deciding step.  Rejects a name that is not
/// ASCII letters only; otherwise looks at the name's slot and either
/// answers from it, grants this caller the one fetch, or reports that a
/// fetch is already in flight.
pub fn get_by_name_begin(cache: &mut Cache<CacheValue>, name: &str) -> (r: Result<
    ByNameStep,
    RouteError,
>)
    requires
        old(cache).wf(),
        tags_consistent(old(cache).model()),
    ensures
        final(cache).wf(),
        old(cache).extends(*final(cache)),
        tags_consistent(final(cache).model()),
        ({
            let k = pokemon_key_view(name@);
            match r {
                Err(RouteError::InvalidName) => !valid_pokemon_name(name@) && *final(cache)
                    == *old(cache),
                Err(RouteError::ConversionFailed) => {
                    &&& valid_pokemon_name(name@)
                    &&& *final(cache) == *old(cache)
                    &&& old(cache).model().contains_key(k)
                    &&& old(cache).model()[k].value matches Some(CacheValue::Pokemon(ap))
                        && !api_pokemon_convertible(ap)
                },
                Ok(ByNameStep::Hit(p)) => {
                    &&& valid_pokemon_name(name@)
                    &&& *final(cache) == *old(cache)
                    &&& old(cache).model().contains_key(k)
                    &&& old(cache).model()[k].value matches Some(CacheValue::Pokemon(ap))
                        && api_pokemon_convertible(ap) && p == pokemon_of_api(ap)
                },
                Ok(ByNameStep::MustFetch) => {
                    &&& valid_pokemon_name(name@)
                    &&& slot_open(old(cache).model(), k)
                    &&& final(cache).model().contains_key(k)
                    &&& final(cache).model()[k] == (SlotModel::<CacheValue> {
                        value: None,
                        writer_held: true,
                    })
                    &&& forall|k2: (Seq<char>, u64)|
                        k2 != k && old(cache).model().contains_key(k2) ==> final(cache).model()[k2] == old(cache).model()[k2] && final(cache).model().contains_key(k2)
                    &&& forall|k2: (Seq<char>, u64)|
                        final(cache).model().contains_key(k2) ==> old(cache).model().contains_key(k2) || k2 == k
                },
                Ok(ByNameStep::Busy) => {
                    &&& valid_pokemon_name(name@)
                    &&& *final(cache) == *old(cache)
                    &&& old(cache).model().contains_key(k)
                    &&& old(cache).model()[k].value is None
                    &&& old(cache).model()[k].writer_held
                },
                Err(_) => false,
            }
        }),
{
    if !is_valid_pokemon_name(name) {
        return Err(RouteError::InvalidName);
    }
    let e = cache.entry(pokemon_composite_key(name));
    let outcome = cache.get_or_write_lock(e);
    match outcome {
        LockOutcome::Cached => {
            let v = match cache.get(e) {
                Some(v) => v,
                None => unreached(),
            };
            let ap = match v.as_pokemon() {
                Some(ap) => ap,
                None => unreached(),
            };
            match Pokemon::try_from(ap) {
                Ok(p) => Ok(ByNameStep::Hit(p)),
                Err(_) => Err(RouteError::ConversionFailed),
            }
        },
        LockOutcome::Granted => {
            proof {
                lemma_tags_consistent_update(
                    old(cache).model(),
                    pokemon_key_view(name@),
                    SlotModel::<CacheValue> { value: None, writer_held: true },
                );
                assert(cache.model() =~= old(cache).model().insert(
                    pokemon_key_view(name@),
                    SlotModel::<CacheValue> { value: None, writer_held: true },
                ));
            }
            Ok(ByNameStep::MustFetch)
        },
        LockOutcome::Waited => Ok(ByNameStep::Busy),
    }
}

/// The by-name route's finishing step, run by the caller that was granted
/// the fetch, with the remote API's answer.  A payload of anything but one
/// pokemon releases the slot unchanged and answers that the pokemon was
/// not found; the one pokemon is cached as fetched, whether or not it can
/// be served, and the answer is its conversion or the conversion error.
pub fn get_by_name_finish(
    cache: &mut Cache<CacheValue>,
    name: &str,
    fetched: DataWrapper<ApiPokemonList>,
) -> (r: Result<Pokemon, RouteError>)
    requires
        old(cache).wf(),
        tags_consistent(old(cache).model()),
        old(cache).model().contains_key(pokemon_key_view(name@)),
        old(cache).model()[pokemon_key_view(name@)].writer_held,
    ensures
        final(cache).wf(),
        old(cache).extends(*final(cache)),
        tags_consistent(final(cache).model()),
        ({
            let k = pokemon_key_view(name@);
            if fetched.data.results@.len() != 1 {
                &&& r == Err::<Pokemon, RouteError>(RouteError::NotFound)
                &&& final(cache).model() == cache_step(
                    old(cache).model(),
                    k,
                    SlotEvent::PopulateFailed::<CacheValue>,
                )
            } else {
                let ap = fetched.data.results@[0];
                &&& final(cache).model() == cache_step(
                    old(cache).model(),
                    k,
                    SlotEvent::PopulateOk(CacheValue::Pokemon(ap)),
                )
                &&& r == if api_pokemon_convertible(ap) {
                    Ok::<Pokemon, RouteError>(pokemon_of_api(ap))
                } else {
                    Err::<Pokemon, RouteError>(RouteError::ConversionFailed)
                }
            }
        }),
{
    let e = cache.entry(pokemon_composite_key(name));
    let mut fetched = fetched;
    if fetched.data.results.len() != 1 {
        cache.release_write(e);
        proof {
            lemma_tags_consistent_update(
                old(cache).model(),
                pokemon_key_view(name@),
                cache.model()[pokemon_key_view(name@)],
            );
        }
        return Err(RouteError::NotFound);
    }
    let ap = fetched.data.results.remove(0);
    let converted = Pokemon::try_from(&ap);
    cache.set_and_release(e, CacheValue::Pokemon(ap));
    proof {
        lemma_tags_consistent_update(
            old(cache).model(),
            pokemon_key_view(name@),
            cache.model()[pokemon_key_view(name@)],
        );
    }
    match converted {
        Ok(p) => Ok(p),
        Err(_) => Err(RouteError::ConversionFailed),
    }
}

/// The by-name route's abort step: the granted fetch failed, so release
/// the slot exactly as it was — the failure is answered to this caller
/// alone and never cached, and the next caller retries the fetch.
pub fn get_by_name_abort(cache: &mut Cache<CacheValue>, name: &str)
    requires
        old(cache).wf(),
        tags_consistent(old(cache).model()),
        old(cache).model().contains_key(pokemon_key_view(name@)),
        old(cache).model()[pokemon_key_view(name@)].writer_held,
    ensures
        final(cache).wf(),
        old(cache).extends(*final(cache)),
        tags_consistent(final(cache).model()),
        final(cache).model() == cache_step(
            old(cache).model(),
            pokemon_key_view(name@),
            SlotEvent::PopulateFailed::<CacheValue>,
        ),
{
    let e = cache.entry(pokemon_composite_key(name));
    cache.release_write(e);
    proof {
        lemma_tags_consistent_update(
            old(cache).model(),
            pokemon_key_view(name@),
            cache.model()[pokemon_key_view(name@)],
        );
    }
}

/// The list route's cache-deciding step: look at the pokemon list's slot
/// and decide whether the caller reads the cached list, owes the one
/// fetch, or waits for the fetch already in flight.
pub fn begin_pokemon_list_fetch(cache: &mut Cache<CacheValue>) -> (r: LockOutcome)
    requires
        old(cache).wf(),
        tags_consistent(old(cache).model()),
    ensures
        final(cache).wf(),
        old(cache).extends(*final(cache)),
        tags_consistent(final(cache).model()),
        final(cache).model().contains_key(pokemon_list_key_view()),
        ({
            let k = pokemon_list_key_view();
            match r {
                LockOutcome::Cached => {
                    &&& *final(cache) == *old(cache)
                    &&& old(cache).model().contains_key(k)
                    &&& old(cache).model()[k].value is Some
                },
                LockOutcome::Granted => {
                    &&& slot_open(old(cache).model(), k)
                    &&& final(cache).model()[k] == (SlotModel::<CacheValue> {
                        value: None,
                        writer_held: true,
                    })
                    &&& forall|k2: (Seq<char>, u64)|
                        k2 != k && old(cache).model().contains_key(k2) ==> final(cache).model()[k2] == old(cache).model()[k2] && final(cache).model().contains_key(k2)
                    &&& forall|k2: (Seq<char>, u64)|
                        final(cache).model().contains_key(k2) ==> old(cache).model().contains_key(k2) || k2 == k
                },
                LockOutcome::Waited => {
                    &&& *final(cache) == *old(cache)
                    &&& old(cache).model().contains_key(k)
                    &&& old(cache).model()[k].value is None
                    &&& old(cache).model()[k].writer_held
                },
            }
        }),
{
    let e = cache.entry(pokemon_list_composite_key());
    let outcome = cache.get_or_write_lock(e);
    proof {
        if outcome is Granted {
            lemma_tags_consistent_update(
                old(cache).model(),
                pokemon_list_key_view(),
                SlotModel::<CacheValue> { value: None, writer_held: true },
            );
            assert(cache.model() =~= old(cache).model().insert(
                pokemon_list_key_view(),
                SlotModel::<CacheValue> { value: None, writer_held: true },
            ));
        }
    }
    outcome
}

/// The list route's finishing step, run by the caller that was granted
/// the fetch: cache the fetched list and release the slot, so every
/// waiter's next attempt reads it.
pub fn finish_pokemon_list_fetch(cache: &mut Cache<CacheValue>, fetched: DataWrapper<
    ApiPokemonList,
>)
    requires
        old(cache).wf(),
        tags_consistent(old(cache).model()),
        old(cache).model().contains_key(pokemon_list_key_view()),
        old(cache).model()[pokemon_list_key_view()].writer_held,
    ensures
        final(cache).wf(),
        old(cache).extends(*final(cache)),
        tags_consistent(final(cache).model()),
        final(cache).model() == cache_step(
            old(cache).model(),
            pokemon_list_key_view(),
            SlotEvent::PopulateOk(CacheValue::PokemonList(fetched)),
        ),
        final(cache).model()[pokemon_list_key_view()] == (SlotModel::<CacheValue> {
            value: Some(CacheValue::PokemonList(fetched)),
            writer_held: false,
        }),
{
    let e = cache.entry(pokemon_list_composite_key());
    cache.set_and_release(e, CacheValue::PokemonList(fetched));
    proof {
        lemma_tags_consistent_update(
            old(cache).model(),
            pokemon_list_key_view(),
            cache.model()[pokemon_list_key_view()],
        );
    }
}

/// The list route's abort step: the granted fetch failed, so release the
/// slot exactly as it was — the failure is never cached and the next
/// caller retries the fetch.
pub fn abort_pokemon_list_fetch(cache: &mut Cache<CacheValue>)
    requires
        old(cache).wf(),
        tags_consistent(old(cache).model()),
        old(cache).model().contains_key(pokemon_list_key_view()),
        old(cache).model()[pokemon_list_key_view()].writer_held,
    ensures
        final(cache).wf(),
        old(cache).extends(*final(cache)),
        tags_consistent(final(cache).model()),
        final(cache).model() == cache_step(
            old(cache).model(),
            pokemon_list_key_view(),
            SlotEvent::PopulateFailed::<CacheValue>,
        ),
{
    let e = cache.entry(pokemon_list_composite_key());
    cache.release_write(e);
    proof {
        lemma_tags_consistent_update(
            old(cache).model(),
            pokemon_list_key_view(),
            cache.model()[pokemon_list_key_view()],
        );
    }
}

/// Read the cached pokemon list through a handle on its slot.  The
/// composite-key discipline makes the checked narrowing always succeed:
/// the answer is `None` exactly while the slot is empty.
pub fn read_pokemon_list<'a>(cache: &'a Cache<CacheValue>, e: CacheEntry) -> (r: Option<
    &'a DataWrapper<ApiPokemonList>,
>)
    requires
        cache.wf(),
        tags_consistent(cache.model()),
        cache.entry_valid(e),
        e.key() == pokemon_list_key_view(),
    ensures
        match r {
            Some(l) => cache.model()[pokemon_list_key_view()].value == Some(
                CacheValue::PokemonList(*l),
            ),
            None => cache.model()[pokemon_list_key_view()].value is None,
        },
{
    proof {
        cache.lemma_entry_valid_contains(e);
    }
    match cache.get(e) {
        Some(v) => match v.as_pokemon_list() {
            Some(l) => Some(l),
            None => unreached(),
        },
        None => None,
    }
}

} // verus!
