//! Simulated cache usage.
//!
//! The upstream service has no prompt cache, but clients that set `cache_control` expect cache
//! fields in the `usage` of a response. These fields are simulated: the input tokens are split
//! into fresh input, cache creation and cache reads.
use vstd::prelude::*;

use crate::json::{lemma_array, views, Json, JsonObject, JsonView};
use crate::text::same_text;

verus! {

/// How long a cache entry lives.
#[derive(Debug, Clone, Copy, PartialEq, Eq, Structural)]
pub enum CacheTtl {
    /// Five minutes, the default.
    FiveMin,
    /// One hour.
    OneHour,
}

/// How input tokens are split.
#[derive(Debug, Clone, Copy, PartialEq, Eq, Structural)]
pub struct CacheUsage {
    /// The tokens that count as fresh input.
    pub input_tokens: i32,
    /// The tokens that count as written to the cache.
    pub cache_creation_input_tokens: i32,
    /// The tokens that count as read from the cache.
    pub cache_read_input_tokens: i32,
    /// How long the cache entry lives.
    pub ttl: CacheTtl,
}

/// What the settings of the simulation ask for a request of so many tokens.
#[derive(Debug, Clone, Copy, PartialEq, Eq, Structural)]
pub struct CacheShares {
    /// Whether the simulation is on.
    pub enabled: bool,
    /// The tokens that are cacheable at all. A number below zero sets no bound.
    pub base: i32,
    /// The tokens that are wanted as cache creation.
    pub creation: i32,
    /// The tokens that are wanted as cache reads.
    pub read: i32,
}

impl CacheShares {
    /// How many of `total` tokens may be cached: no more than the cacheable ones, and so that a
    /// token is left for input.
    pub open spec fn cap(self, total: int) -> int {
        if 0 <= self.base < total - 1 {
            self.base as int
        } else {
            total - 1
        }
    }

    /// The wanted cache creation, but so that a token is left for input.
    pub open spec fn creation_limited(self, total: int) -> int {
        if self.creation > total - 1 {
            total - 1
        } else {
            self.creation as int
        }
    }

    /// Whether the wanted shares together exceed the cap.
    pub open spec fn exceeds(self, total: int) -> bool {
        self.creation_limited(total) + self.read > self.cap(total)
    }

    /// The share of cache creation: the wanted one, unless the shares exceed the cap and it is not
    /// enough to cut the reads.
    pub open spec fn creation_share(self, total: int) -> int {
        if !self.exceeds(total) {
            self.creation_limited(total)
        } else if self.read < 0 {
            self.cap(total) - self.read
        } else if self.creation_limited(total) > self.cap(total) {
            self.cap(total)
        } else {
            self.creation_limited(total)
        }
    }

    /// The share of cache reads: the wanted one, unless the shares exceed the cap; the reads are
    /// then cut first.
    pub open spec fn read_share(self, total: int) -> int {
        if self.exceeds(total) && self.read >= 0 {
            self.cap(total) - self.creation_share(total)
        } else {
            self.read as int
        }
    }

    /// What is left for input.
    pub open spec fn input_share(self, total: int) -> int {
        total - self.creation_share(total) - self.read_share(total)
    }

    /// Whether the split of `total` tokens can be computed in 32 bits.
    pub open spec fn in_range(self, total: int) -> bool {
        self.enabled && total > 1 ==> {
            &&& i32::MIN <= self.creation_limited(total) + self.read <= i32::MAX
            &&& total - self.creation_limited(total) <= i32::MAX
            &&& self.input_share(total) <= i32::MAX
        }
    }

    /// Decides [`CacheShares::in_range`].
    pub fn fit(&self, total: i32) -> (r: bool)
        ensures
            r == self.in_range(total as int),
    {
        if !self.enabled || total <= 1 {
            return true;
        }
        let cap: i64 = self.cacheable_cap(total) as i64;
        let total: i64 = total as i64;
        let read: i64 = self.read as i64;
        let limited: i64 = if self.creation as i64 > total - 1 {
            total - 1
        } else {
            self.creation as i64
        };
        let sum: i64 = limited + read;
        let input: i64 = if sum > cap {
            total - cap
        } else {
            total - sum
        };
        sum >= i32::MIN as i64 && sum <= i32::MAX as i64 && total - limited <= i32::MAX as i64
            && input <= i32::MAX as i64
    }

    /// Computes [`CacheShares::cap`].
    fn cacheable_cap(&self, total: i32) -> (r: i32)
        requires
            total > 1,
        ensures
            r == self.cap(total as int),
    {
        if 0 <= self.base && self.base < total - 1 {
            self.base
        } else {
            total - 1
        }
    }
}

/// The simulated split of `total` input tokens. There is none where the simulation is off or
/// where there are no tokens; one token alone is input.
pub open spec fn simulated(shares: CacheShares, ttl: CacheTtl, total: int) -> Option<CacheUsage> {
    if !shares.enabled || total <= 0 {
        None
    } else if total == 1 {
        Some(
            CacheUsage {
                input_tokens: 1,
                cache_creation_input_tokens: 0,
                cache_read_input_tokens: 0,
                ttl,
            },
        )
    } else {
        Some(
            CacheUsage {
                input_tokens: shares.input_share(total) as i32,
                cache_creation_input_tokens: shares.creation_share(total) as i32,
                cache_read_input_tokens: shares.read_share(total) as i32,
                ttl,
            },
        )
    }
}

/// Computes [`simulated`].
pub fn simulate(shares: &CacheShares, ttl: CacheTtl, total: i32) -> (r: Option<CacheUsage>)
    requires
        shares.in_range(total as int),
    ensures
        r == simulated(*shares, ttl, total as int),
{
    if !shares.enabled || total <= 0 {
        return None;
    }
    if total == 1 {
        return Some(
            CacheUsage {
                input_tokens: 1,
                cache_creation_input_tokens: 0,
                cache_read_input_tokens: 0,
                ttl,
            },
        );
    }
    let cacheable_cap: i32 = shares.cacheable_cap(total);
    let mut creation: i32 = shares.creation;
    let mut read: i32 = shares.read;
    if creation > total - 1 {
        creation = total - 1;
    }
    if creation + read > cacheable_cap {
        if read < 0 {
            creation = cacheable_cap - read;
        } else {
            if creation > cacheable_cap {
                creation = cacheable_cap;
            }
            read = cacheable_cap - creation;
        }
    }
    let input_tokens: i32 = total - creation - read;
    Some(
        CacheUsage {
            input_tokens,
            cache_creation_input_tokens: creation,
            cache_read_input_tokens: read,
            ttl,
        },
    )
}

/// The tokens are split without rest, and at least one of them is input: what is cached never
/// takes all of a request.
pub proof fn law_split_adds_up(shares: CacheShares, ttl: CacheTtl, total: i32)
    requires
        shares.in_range(total as int),
    ensures
        simulated(shares, ttl, total as int) matches Some(u) ==> {
            &&& u.input_tokens + u.cache_creation_input_tokens + u.cache_read_input_tokens == total
            &&& u.input_tokens >= 1
            &&& u.cache_creation_input_tokens + u.cache_read_input_tokens <= total - 1
            &&& u.ttl == ttl
        },
{
}

/// What is cached never exceeds the cacheable tokens: the rest is input.
pub proof fn law_split_stays_within_the_base(shares: CacheShares, ttl: CacheTtl, total: i32)
    requires
        shares.in_range(total as int),
        0 <= shares.base,
    ensures
        simulated(shares, ttl, total as int) matches Some(u) ==> {
            &&& u.cache_creation_input_tokens + u.cache_read_input_tokens <= shares.base
            &&& u.input_tokens >= total - shares.base
        },
{
}

/// Shares that the cap allows stay as they are.
pub proof fn law_modest_shares_are_kept(shares: CacheShares, ttl: CacheTtl, total: i32)
    requires
        shares.enabled,
        total > 1,
        shares.in_range(total as int),
        shares.creation <= total - 1,
        shares.creation + shares.read <= shares.cap(total as int),
    ensures
        simulated(shares, ttl, total as int) == Some(
            CacheUsage {
                input_tokens: (total - shares.creation - shares.read) as i32,
                cache_creation_input_tokens: shares.creation,
                cache_read_input_tokens: shares.read,
                ttl,
            },
        ),
{
}

/// Where the shares together exceed the cap, what is cached is the cap, and no more.
pub proof fn law_cut_shares_fill_the_cap(shares: CacheShares, ttl: CacheTtl, total: i32)
    requires
        shares.enabled,
        total > 1,
        shares.in_range(total as int),
        shares.exceeds(total as int),
    ensures
        simulated(shares, ttl, total as int) matches Some(u) && u.cache_creation_input_tokens
            + u.cache_read_input_tokens == shares.cap(total as int),
{
}

/// Shares that are not negative, and that 32 bits hold together, can be split.
pub proof fn law_counts_are_in_range(shares: CacheShares, total: i32)
    requires
        0 <= shares.creation,
        0 <= shares.read,
        shares.creation + shares.read <= i32::MAX,
    ensures
        shares.in_range(total as int),
{
}

/// The split of the tokens of a request, where the simulation takes part in it.
pub open spec fn split_of(ctx: Option<(CacheShares, CacheTtl)>, total: int) -> Option<CacheUsage> {
    match ctx {
        Some((shares, ttl)) => simulated(shares, ttl, total),
        None => None,
    }
}

/// Whether the split of the tokens of a request can be computed in 32 bits.
pub open spec fn split_in_range(ctx: Option<(CacheShares, CacheTtl)>, total: int) -> bool {
    match ctx {
        Some((shares, _)) => shares.in_range(total),
        None => true,
    }
}

/// Computes [`split_of`].
pub fn split(ctx: &Option<(CacheShares, CacheTtl)>, total: i32) -> (r: Option<CacheUsage>)
    requires
        split_in_range(*ctx, total as int),
    ensures
        r == split_of(*ctx, total as int),
{
    match ctx {
        Some((shares, ttl)) => simulate(shares, *ttl, total),
        None => None,
    }
}

/// How the cache creation is spread over the lifetimes: five minutes, then one hour.
pub open spec fn by_lifetime(usage: CacheUsage) -> (int, int) {
    match usage.ttl {
        CacheTtl::FiveMin => (usage.cache_creation_input_tokens as int, 0),
        CacheTtl::OneHour => (0, usage.cache_creation_input_tokens as int),
    }
}

/// The `cache_creation` object.
pub open spec fn cache_creation_object(usage: CacheUsage) -> Map<Seq<char>, JsonView> {
    Map::empty().insert("ephemeral_5m_input_tokens"@, JsonView::Int(by_lifetime(usage).0)).insert(
        "ephemeral_1h_input_tokens"@,
        JsonView::Int(by_lifetime(usage).1),
    )
}

/// A `usage` with the cache fields in it; what is no object stays as it is.
pub open spec fn with_cache_fields(cache: CacheUsage, usage: JsonView) -> JsonView {
    match usage {
        JsonView::Object(m) => JsonView::Object(
            m.insert("input_tokens"@, JsonView::Int(cache.input_tokens as int)).insert(
                "cache_creation_input_tokens"@,
                JsonView::Int(cache.cache_creation_input_tokens as int),
            ).insert(
                "cache_read_input_tokens"@,
                JsonView::Int(cache.cache_read_input_tokens as int),
            ).insert("cache_creation"@, JsonView::Object(cache_creation_object(cache))),
        ),
        other => other,
    }
}

impl CacheUsage {
    /// Writes the cache fields into a `usage` object, and sets its `input_tokens`. Anything that
    /// is no object is left alone.
    pub fn apply_to_usage(&self, usage: &mut Json)
        ensures
            final(usage)@ == with_cache_fields(*self, old(usage)@),
    {
        match usage {
            Json::Object(o) => {
                o.insert("input_tokens".to_owned(), Json::Int(self.input_tokens as i64));
                o.insert(
                    "cache_creation_input_tokens".to_owned(),
                    Json::Int(self.cache_creation_input_tokens as i64),
                );
                o.insert(
                    "cache_read_input_tokens".to_owned(),
                    Json::Int(self.cache_read_input_tokens as i64),
                );
                let (five_min, one_hour): (i64, i64) = match self.ttl {
                    CacheTtl::FiveMin => (self.cache_creation_input_tokens as i64, 0),
                    CacheTtl::OneHour => (0, self.cache_creation_input_tokens as i64),
                };
                let creation = JsonObject::new().with(
                    "ephemeral_5m_input_tokens",
                    Json::Int(five_min),
                ).with("ephemeral_1h_input_tokens", Json::Int(one_hour));
                o.insert("cache_creation".to_owned(), Json::Object(creation));
            },
            _ => {},
        }
    }
}

/// The keys that are written hold what was split; all other members of the object stay as they
/// were, and nothing else is added.
pub proof fn law_cache_fields_are_all_that_changes(
    cache: CacheUsage,
    m: Map<Seq<char>, JsonView>,
    k: Seq<char>,
)
    ensures
        ({
            let after = with_cache_fields(cache, JsonView::Object(m));
            &&& after.get("input_tokens"@) == Some(JsonView::Int(cache.input_tokens as int))
            &&& after.get("cache_creation_input_tokens"@) == Some(
                JsonView::Int(cache.cache_creation_input_tokens as int),
            )
            &&& after.get("cache_read_input_tokens"@) == Some(
                JsonView::Int(cache.cache_read_input_tokens as int),
            )
            &&& after.get("cache_creation"@) == Some(
                JsonView::Object(cache_creation_object(cache)),
            )
            &&& (k != "input_tokens"@ && k != "cache_creation_input_tokens"@ && k
                != "cache_read_input_tokens"@ && k != "cache_creation"@) ==> after.get(k)
                == JsonView::Object(m).get(k)
        }),
{
    reveal_strlit("input_tokens");
    reveal_strlit("cache_creation_input_tokens");
    reveal_strlit("cache_read_input_tokens");
    reveal_strlit("cache_creation");
    assert("input_tokens"@.len() == 12);
    assert("cache_creation_input_tokens"@.len() == 27);
    assert("cache_read_input_tokens"@.len() == 23);
    assert("cache_creation"@.len() == 14);
}

/// The two lifetimes together hold the whole of the cache creation, and the one that is not in
/// use holds none.
pub proof fn law_lifetimes_hold_the_creation(cache: CacheUsage)
    ensures
        ({
            let o = JsonView::Object(cache_creation_object(cache));
            let n = cache.cache_creation_input_tokens as int;
            match cache.ttl {
                CacheTtl::FiveMin => o.get("ephemeral_5m_input_tokens"@) == Some(JsonView::Int(n))
                    && o.get("ephemeral_1h_input_tokens"@) == Some(JsonView::Int(0)),
                CacheTtl::OneHour => o.get("ephemeral_5m_input_tokens"@) == Some(JsonView::Int(0))
                    && o.get("ephemeral_1h_input_tokens"@) == Some(JsonView::Int(n)),
            }
        }),
{
    reveal_strlit("ephemeral_5m_input_tokens");
    reveal_strlit("ephemeral_1h_input_tokens");
    assert("ephemeral_5m_input_tokens"@[10] != "ephemeral_1h_input_tokens"@[10]);
}

/// Writing the same cache fields a second time changes nothing.
pub proof fn law_cache_fields_once_is_enough(cache: CacheUsage, usage: JsonView)
    ensures
        with_cache_fields(cache, with_cache_fields(cache, usage)) == with_cache_fields(
            cache,
            usage,
        ),
{
    if let JsonView::Object(m) = usage {
        let once = with_cache_fields(cache, usage)->Object_0;
        let twice = with_cache_fields(cache, JsonView::Object(once))->Object_0;
        assert forall|k: Seq<char>| #[trigger] once.contains_key(k) == twice.contains_key(k) && (
        once.contains_key(k) ==> once[k] == twice[k]) by {
            law_cache_fields_are_all_that_changes(cache, m, k);
            law_cache_fields_are_all_that_changes(cache, once, k);
        }
        assert(once =~= twice);
    }
}

/// Whether `p` holds of the value or of one that stands inside it, at any depth.
pub open spec fn some_node(v: JsonView, p: spec_fn(JsonView) -> bool) -> bool
    decreases v,
{
    p(v) || match v {
        JsonView::Array(items) => exists|i: int|
            0 <= i < items.len() && some_node(#[trigger] items[i], p),
        JsonView::Object(m) => exists|k: Seq<char>|
            #[trigger] m.contains_key(k) && some_node(m[k], p),
        _ => false,
    }
}

/// Whether a value is an object with a `cache_control`.
pub open spec fn cache_breakpoint() -> spec_fn(JsonView) -> bool {
    |v: JsonView| v.get("cache_control"@) is Some
}

/// Whether a value is an object with a `cache_control` that asks for one hour.
pub open spec fn one_hour_breakpoint() -> spec_fn(JsonView) -> bool {
    |v: JsonView|
        v.get("cache_control"@) matches Some(c) && c.get("ttl"@) == Some(JsonView::Str("1h"@))
}

/// The lifetime that a request asks for: none without any `cache_control`; one hour where any of
/// them asks for it; else five minutes.
pub open spec fn requested_ttl(v: JsonView) -> Option<CacheTtl> {
    if !some_node(v, cache_breakpoint()) {
        None
    } else if some_node(v, one_hour_breakpoint()) {
        Some(CacheTtl::OneHour)
    } else {
        Some(CacheTtl::FiveMin)
    }
}

/// Looks through the value and all that stands inside it: whether there is a `cache_control`, and
/// whether there is one that asks for one hour.
fn walk(v: &Json) -> (r: (bool, bool))
    ensures
        r.0 == some_node(v@, cache_breakpoint()),
        r.1 == some_node(v@, one_hour_breakpoint()),
    decreases v@,
{
    let ghost p = cache_breakpoint();
    let ghost q = one_hour_breakpoint();
    let mut found = false;
    let mut one_hour = false;
    match v {
        Json::Object(o) => {
            if let Some(control) = o.get("cache_control") {
                found = true;
                if let Some(ttl) = control.get("ttl") {
                    if let Some(t) = ttl.as_str() {
                        one_hour = same_text(t, "1h");
                    }
                }
            }
            let n: usize = o.len();
            let mut i: usize = 0;
            while i < n
                invariant
                    p == cache_breakpoint(),
                    q == one_hour_breakpoint(),
                    v@ == JsonView::Object(o@),
                    n == o.keys().len(),
                    i <= n,
                    found == (p(v@) || exists|j: int|
                        0 <= j < i && some_node(o@[#[trigger] o.keys()[j]], p)),
                    one_hour == (q(v@) || exists|j: int|
                        0 <= j < i && some_node(o@[#[trigger] o.keys()[j]], q)),
                decreases n - i,
            {
                let value = o.value_at(i);
                assert(decreases_to!(v@ => v@->Object_0[o.keys()[i as int]]));
                let (f, h) = walk(value);
                found = found || f;
                one_hour = one_hour || h;
                i = i + 1;
            }
            proof {
                lemma_object_node(v@, *o, p);
                lemma_object_node(v@, *o, q);
            }
        },
        Json::Array(items) => {
            proof {
                lemma_array(*v);
            }
            let mut i: usize = 0;
            while i < items.len()
                invariant
                    p == cache_breakpoint(),
                    q == one_hour_breakpoint(),
                    v@ == JsonView::Array(views(items@)),
                    i <= items@.len(),
                    found == exists|j: int|
                        0 <= j < i && some_node(#[trigger] v@->Array_0[j], p),
                    one_hour == exists|j: int|
                        0 <= j < i && some_node(#[trigger] v@->Array_0[j], q),
                decreases items@.len() - i,
            {
                assert(views(items@)[i as int] == items@[i as int]@);
                assert(decreases_to!(v@ => v@->Array_0[i as int]));
                let (f, h) = walk(&items[i]);
                found = found || f;
                one_hour = one_hour || h;
                i = i + 1;
            }
            proof {
                lemma_array_node(v@, p);
                lemma_array_node(v@, q);
            }
        },
        _ => {},
    }
    (found, one_hour)
}

/// In terms of the items of an array: `p` holds of some node where it holds of the array itself,
/// or of some node of one of its items.
proof fn lemma_array_node(v: JsonView, p: spec_fn(JsonView) -> bool)
    requires
        v is Array,
    ensures
        some_node(v, p) == (p(v) || exists|j: int|
            0 <= j < v->Array_0.len() && some_node(#[trigger] v->Array_0[j], p)),
{
}

/// In terms of the values of an object: `p` holds of some node where it holds of the object
/// itself, or of some node of one of its values.
proof fn lemma_map_node(v: JsonView, p: spec_fn(JsonView) -> bool)
    requires
        v is Object,
    ensures
        some_node(v, p) == (p(v) || exists|k: Seq<char>|
            #[trigger] v->Object_0.contains_key(k) && some_node(v->Object_0[k], p)),
{
}

/// In terms of the members of an object: `p` holds of some node where it holds of the object
/// itself, or of some node of the value that stands with one of its keys.
proof fn lemma_object_node(v: JsonView, o: JsonObject, p: spec_fn(JsonView) -> bool)
    requires
        v == JsonView::Object(o@),
    ensures
        some_node(v, p) == (p(v) || exists|j: int|
            0 <= j < o.keys().len() && some_node(o@[#[trigger] o.keys()[j]], p)),
{
    o.lemma_keys();
    lemma_map_node(v, p);
    let m = v->Object_0;
    if exists|k: Seq<char>| #[trigger] m.contains_key(k) && some_node(m[k], p) {
        let k = choose|k: Seq<char>| #[trigger] m.contains_key(k) && some_node(m[k], p);
        let j = o.keys().index_of(k);
        assert(some_node(o@[o.keys()[j]], p));
    }
    if exists|j: int| 0 <= j < o.keys().len() && some_node(o@[#[trigger] o.keys()[j]], p) {
        let j = choose|j: int|
            0 <= j < o.keys().len() && some_node(o@[#[trigger] o.keys()[j]], p);
        assert(o.keys().contains(o.keys()[j]));
        assert(m.contains_key(o.keys()[j]));
        assert(some_node(m[o.keys()[j]], p));
    }
}

/// The lifetime that a request asks for, wherever in it a `cache_control` stands.
pub fn detect_cache_ttl(raw: &Json) -> (r: Option<CacheTtl>)
    ensures
        r == requested_ttl(raw@),
{
    let (found, one_hour) = walk(raw);
    if !found {
        None
    } else if one_hour {
        Some(CacheTtl::OneHour)
    } else {
        Some(CacheTtl::FiveMin)
    }
}

/// Where some `cache_control` asks for one hour, there is a `cache_control`.
proof fn lemma_one_hour_is_a_breakpoint(v: JsonView)
    requires
        some_node(v, one_hour_breakpoint()),
    ensures
        some_node(v, cache_breakpoint()),
    decreases v,
{
    let p = one_hour_breakpoint();
    if !p(v) {
        match v {
            JsonView::Array(items) => {
                let i = choose|i: int|
                    0 <= i < items.len() && some_node(#[trigger] items[i], p);
                lemma_one_hour_is_a_breakpoint(items[i]);
            },
            JsonView::Object(m) => {
                let k = choose|k: Seq<char>| #[trigger] m.contains_key(k) && some_node(m[k], p);
                lemma_one_hour_is_a_breakpoint(m[k]);
            },
            _ => {},
        }
    }
}

/// One `cache_control` that asks for one hour, wherever it stands, decides for the whole request.
pub proof fn law_one_hour_wins(v: JsonView)
    requires
        some_node(v, one_hour_breakpoint()),
    ensures
        requested_ttl(v) == Some(CacheTtl::OneHour),
{
    lemma_one_hour_is_a_breakpoint(v);
}

/// Whether the lifetime `outer` is at least as long as `inner`, none being the shortest.
pub open spec fn at_least(outer: Option<CacheTtl>, inner: Option<CacheTtl>) -> bool {
    match inner {
        None => true,
        Some(CacheTtl::FiveMin) => outer is Some,
        Some(CacheTtl::OneHour) => outer == Some(CacheTtl::OneHour),
    }
}

/// All positions count: what a member of an object asks for, the object asks for, or longer.
pub proof fn law_members_count(v: JsonView, k: Seq<char>)
    requires
        v is Object,
        v->Object_0.contains_key(k),
    ensures
        at_least(requested_ttl(v), requested_ttl(v->Object_0[k])),
{
    lemma_map_node(v, cache_breakpoint());
    lemma_map_node(v, one_hour_breakpoint());
}

/// All positions count: what an item of an array asks for, the array asks for, or longer.
pub proof fn law_items_count(v: JsonView, i: int)
    requires
        v is Array,
        0 <= i < v->Array_0.len(),
    ensures
        at_least(requested_ttl(v), requested_ttl(v->Array_0[i])),
{
    lemma_array_node(v, cache_breakpoint());
    lemma_array_node(v, one_hour_breakpoint());
}

/// An object with a `cache_control` asks for a lifetime, whatever else it holds, and for one hour
/// where the `ttl` of its `cache_control` says so.
pub proof fn law_cache_control_asks_for_a_lifetime(m: Map<Seq<char>, JsonView>)
    requires
        m.contains_key("cache_control"@),
    ensures
        requested_ttl(JsonView::Object(m)) is Some,
        is_one_hour_control(m["cache_control"@]) ==> requested_ttl(JsonView::Object(m)) == Some(
            CacheTtl::OneHour,
        ),
{
    let v = JsonView::Object(m);
    lemma_map_node(v, cache_breakpoint());
    lemma_map_node(v, one_hour_breakpoint());
    assert(cache_breakpoint()(v));
    if is_one_hour_control(m["cache_control"@]) {
        assert(one_hour_breakpoint()(v));
    }
}

/// Whether a value is an object whose `ttl` is the string `1h`.
pub open spec fn is_one_hour_control(control: JsonView) -> bool {
    control is Object && control->Object_0.contains_key("ttl"@) && control->Object_0["ttl"@]
        == JsonView::Str("1h"@)
}

/// One step into a value: to a member of an object, or to an item of an array.
pub enum Place {
    /// The member with this key.
    Key(Seq<char>),
    /// The item at this position.
    Index(int),
}

/// The value that stands inside `v` at the end of a path; none where there is no such place.
pub open spec fn value_at(v: JsonView, path: Seq<Place>) -> Option<JsonView>
    decreases path.len(),
{
    if path.len() == 0 {
        Some(v)
    } else {
        match (v, path[0]) {
            (JsonView::Object(m), Place::Key(k)) => if m.contains_key(k) {
                value_at(m[k], path.drop_first())
            } else {
                None
            },
            (JsonView::Array(items), Place::Index(i)) => if 0 <= i < items.len() {
                value_at(items[i], path.drop_first())
            } else {
                None
            },
            _ => None,
        }
    }
}

/// Whether an object with a `cache_control` stands at the end of the path.
pub open spec fn control_at(v: JsonView, path: Seq<Place>) -> bool {
    value_at(v, path) matches Some(JsonView::Object(m)) && m.contains_key("cache_control"@)
}

/// Whether an object with a `cache_control` of one hour stands at the end of the path.
pub open spec fn one_hour_at(v: JsonView, path: Seq<Place>) -> bool {
    value_at(v, path) matches Some(JsonView::Object(m)) && m.contains_key("cache_control"@)
        && is_one_hour_control(m["cache_control"@])
}

/// What stands at the end of a path asks for no longer a lifetime than the whole.
proof fn lemma_path_counts(v: JsonView, path: Seq<Place>)
    requires
        value_at(v, path) is Some,
    ensures
        at_least(requested_ttl(v), requested_ttl(value_at(v, path)->0)),
    decreases path.len(),
{
    if path.len() > 0 {
        match (v, path[0]) {
            (JsonView::Object(m), Place::Key(k)) => {
                lemma_path_counts(m[k], path.drop_first());
                law_members_count(v, k);
            },
            (JsonView::Array(items), Place::Index(i)) => {
                lemma_path_counts(items[i], path.drop_first());
                law_items_count(v, i);
            },
            _ => {},
        }
    }
}

/// Where some node is such that `p` holds, there is a path to an object that `p` holds of.
proof fn lemma_path_to(v: JsonView, p: spec_fn(JsonView) -> bool) -> (path: Seq<Place>)
    requires
        some_node(v, p),
    ensures
        value_at(v, path) matches Some(found) && p(found),
    decreases v,
{
    if p(v) {
        seq![]
    } else {
        match v {
            JsonView::Array(items) => {
                let i = choose|i: int| 0 <= i < items.len() && some_node(#[trigger] items[i], p);
                let rest = lemma_path_to(items[i], p);
                let path = seq![Place::Index(i)] + rest;
                assert(path.drop_first() =~= rest);
                path
            },
            JsonView::Object(m) => {
                let k = choose|k: Seq<char>| #[trigger] m.contains_key(k) && some_node(m[k], p);
                let rest = lemma_path_to(m[k], p);
                let path = seq![Place::Key(k)] + rest;
                assert(path.drop_first() =~= rest);
                path
            },
            _ => seq![],
        }
    }
}

/// A lifetime is asked for just where an object with a `cache_control` stands somewhere in the
/// request, at any depth; one hour, just where one of them asks for it.
pub proof fn law_lifetime_is_asked_for_somewhere(v: JsonView)
    ensures
        requested_ttl(v) is Some <==> exists|path: Seq<Place>| #[trigger] control_at(v, path),
        requested_ttl(v) == Some(CacheTtl::OneHour) <==> exists|path: Seq<Place>|
            #[trigger] one_hour_at(v, path),
{
    if requested_ttl(v) is Some {
        let path = lemma_path_to(v, cache_breakpoint());
        assert(control_at(v, path));
    }
    if requested_ttl(v) == Some(CacheTtl::OneHour) {
        let path = lemma_path_to(v, one_hour_breakpoint());
        assert(one_hour_at(v, path));
    }
    if exists|path: Seq<Place>| #[trigger] control_at(v, path) {
        let path = choose|path: Seq<Place>| #[trigger] control_at(v, path);
        lemma_path_counts(v, path);
        law_cache_control_asks_for_a_lifetime(value_at(v, path)->0->Object_0);
    }
    if exists|path: Seq<Place>| #[trigger] one_hour_at(v, path) {
        let path = choose|path: Seq<Place>| #[trigger] one_hour_at(v, path);
        lemma_path_counts(v, path);
        law_cache_control_asks_for_a_lifetime(value_at(v, path)->0->Object_0);
    }
}

/// Nothing is simulated where the simulation is off, or where there are no tokens; one token alone
/// is input.
pub proof fn law_when_nothing_is_split(shares: CacheShares, ttl: CacheTtl, total: int)
    ensures
        !shares.enabled || total <= 0 ==> simulated(shares, ttl, total) is None,
        shares.enabled && total > 0 ==> simulated(shares, ttl, total) is Some,
        split_of(None, total) is None,
        split_of(Some((shares, ttl)), total) == simulated(shares, ttl, total),
        !shares.enabled || total <= 1 ==> shares.in_range(total),
        split_in_range(None, total),
        split_in_range(Some((shares, ttl)), total) == shares.in_range(total),
{
}

/// Shares that together stay within the cacheable tokens, and leave a token for input, are kept to
/// the token.
pub proof fn law_shares_within_bounds_are_kept(shares: CacheShares, ttl: CacheTtl, total: i32)
    requires
        shares.enabled,
        total > 1,
        shares.in_range(total as int),
        shares.creation <= total - 1,
        shares.creation + shares.read <= total - 1,
        shares.base < 0 || shares.creation + shares.read <= shares.base,
    ensures
        simulated(shares, ttl, total as int) matches Some(u) && u.cache_creation_input_tokens
            == shares.creation && u.cache_read_input_tokens == shares.read && u.input_tokens
            == total - shares.creation - shares.read && u.ttl == ttl,
{
}

/// Counts that together are too many are cut to the cacheable tokens, or so that a token is left
/// for input; reads are cut first, and creation only where there are no reads left.
pub proof fn law_reads_are_cut_first(shares: CacheShares, ttl: CacheTtl, total: i32)
    requires
        shares.enabled,
        total > 1,
        shares.in_range(total as int),
        0 <= shares.read,
        shares.creation + shares.read > total - 1 || (0 <= shares.base && shares.creation
            + shares.read > shares.base),
    ensures
        simulated(shares, ttl, total as int) matches Some(u) && {
            let cached = u.cache_creation_input_tokens + u.cache_read_input_tokens;
            &&& cached == if 0 <= shares.base < total - 1 {
                shares.base as int
            } else {
                total - 1
            }
            &&& u.cache_creation_input_tokens <= shares.creation
            &&& 0 <= u.cache_read_input_tokens <= shares.read
            &&& u.cache_creation_input_tokens < shares.creation ==> u.cache_read_input_tokens == 0
            &&& u.input_tokens == total - cached
        },
{
}

/// Reads below zero are kept as they are; beside them, creation is only cut so that a token is left
/// for input and so that what is cached stays within the cacheable tokens.
pub proof fn law_reads_below_zero_are_kept(shares: CacheShares, ttl: CacheTtl, total: i32)
    requires
        shares.enabled,
        total > 1,
        shares.in_range(total as int),
        shares.read < 0,
    ensures
        simulated(shares, ttl, total as int) matches Some(u) && {
            let most = if shares.creation > total - 1 {
                total - 1
            } else {
                shares.creation as int
            };
            let bound = if 0 <= shares.base < total - 1 {
                shares.base as int
            } else {
                total - 1
            };
            &&& u.cache_read_input_tokens == shares.read
            &&& most + shares.read <= bound ==> u.cache_creation_input_tokens == most
            &&& most + shares.read > bound ==> u.cache_creation_input_tokens == bound - shares.read
        },
{
}

/// Shares of ordinary size can be split, whatever their signs.
pub proof fn law_ordinary_shares_are_in_range(shares: CacheShares, total: i32)
    requires
        -0x1000_0000 <= shares.creation <= 0x1000_0000,
        -0x1000_0000 <= shares.read <= 0x1000_0000,
        total <= 0x4000_0000,
    ensures
        shares.in_range(total as int),
{
}

/// The `cache_creation` object has the two lifetimes, and nothing else; what is no object gets no
/// cache fields, and stays as it is.
pub proof fn law_cache_creation_has_two_lifetimes(cache: CacheUsage, k: Seq<char>, v: JsonView)
    ensures
        cache_creation_object(cache).contains_key(k) <==> k == "ephemeral_5m_input_tokens"@ || k
            == "ephemeral_1h_input_tokens"@,
        !(v is Object) ==> with_cache_fields(cache, v) == v,
{
}

} // verus!
