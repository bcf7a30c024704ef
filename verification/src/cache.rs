//! Memoization of specialized pipelines.
//!
//! The cache maps each key tuple (feature key, material sub-key, vertex-layout
//! identity) to the outcome of its one specialization: a pipeline handle or
//! the error. Entries are created lazily and never evicted.

use vstd::prelude::*;
use crate::config::{ConfigModel, PipelineConfig};
use crate::error::ConfigError;
use crate::ids::PipelineId;
use crate::key::CacheKey;
use crate::material::Material;
use crate::specialize::PrepassPipeline;
use crate::vertex::VertexLayoutDescriptor;

verus! {

/// Registry of pipeline configurations queued for (possibly asynchronous)
/// compilation by the external GPU backend. A handle is valid as soon as it
/// is returned, though the pipeline object may become ready only later;
/// skipping not-yet-ready pipelines is the draw stage's concern.
pub struct PipelineRegistry {
    /// Configurations in handle order: handle `i` names `configs[i]`.
    pub configs: Vec<PipelineConfig>,
}

impl PipelineRegistry {
    /// An empty registry.
    pub fn new() -> (r: Self)
        ensures
            r.configs@.len() == 0,
    {
        PipelineRegistry { configs: Vec::new() }
    }

    /// Queues one configuration and returns its fresh handle.
    pub fn queue_config(&mut self, config: PipelineConfig) -> (id: PipelineId)
        ensures
            final(self).configs@ == old(self).configs@.push(config),
            id.0 == old(self).configs@.len(),
    {
        let id = PipelineId(self.configs.len() as u64);
        self.configs.push(config);
        id
    }

    /// The configuration a handle names, if the handle is this registry's.
    pub fn get_config(&self, id: PipelineId) -> (r: Option<&PipelineConfig>)
        ensures
            match r {
                Some(c) => id.0 < self.configs@.len() && *c == self.configs@[id.0 as int],
                None => id.0 >= self.configs@.len(),
            },
    {
        let n = self.configs.len();
        if id.0 < n as u64 {
            Some(&self.configs[id.0 as usize])
        } else {
            None
        }
    }
}

/// One memoized outcome.
pub type CacheEntry = (CacheKey, Result<PipelineId, ConfigError>);

/// The outcome stored for a key: the first entry carrying it, if any.
pub open spec fn spec_lookup(s: Seq<CacheEntry>, key: CacheKey) -> Option<
    Result<PipelineId, ConfigError>,
>
    decreases s.len(),
{
    if s.len() == 0 {
        None
    } else if s[0].0 == key {
        Some(s[0].1)
    } else {
        spec_lookup(s.drop_first(), key)
    }
}

/// Appending an entry for a key not yet present makes lookups of that key
/// find it and leaves every other key's outcome unchanged.
pub proof fn lemma_lookup_push(s: Seq<CacheEntry>, key: CacheKey, e: CacheEntry)
    requires
        spec_lookup(s, key) is None,
    ensures
        e.0 == key ==> spec_lookup(s.push(e), key) == Some(e.1),
        e.0 != key ==> spec_lookup(s.push(e), key) is None,
    decreases s.len(),
{
    assert(spec_lookup(Seq::<CacheEntry>::empty(), key) is None);
    if s.len() == 0 {
        assert(s.push(e)[0] == e);
        assert(s.push(e).drop_first() =~= Seq::<CacheEntry>::empty());
        assert(spec_lookup(s.push(e).drop_first(), key) is None);
    } else {
        assert(s.push(e)[0] == s[0]);
        assert(s.push(e).drop_first() =~= s.drop_first().push(e));
        lemma_lookup_push(s.drop_first(), key, e);
        assert(spec_lookup(s.push(e), key) == spec_lookup(s.drop_first().push(e), key));
    }
}

/// A memoized outcome never changes: pushing entries preserves every lookup
/// that already succeeds.
pub proof fn lemma_cache_lookup_stable(
    s: Seq<CacheEntry>,
    key: CacheKey,
    e: CacheEntry,
    r: Result<PipelineId, ConfigError>,
)
    requires
        spec_lookup(s, key) == Some(r),
    ensures
        spec_lookup(s.push(e), key) == Some(r),
    decreases s.len(),
{
    assert(s.push(e)[0] == s[0]);
    assert(s.push(e).drop_first() =~= s.drop_first().push(e));
    if s[0].0 != key {
        lemma_cache_lookup_stable(s.drop_first(), key, e, r);
        assert(spec_lookup(s.push(e), key) == spec_lookup(s.drop_first().push(e), key));
    }
}

/// A memoized outcome comes from an entry of the cache.
pub proof fn lemma_cache_lookup_member(
    s: Seq<CacheEntry>,
    key: CacheKey,
    r: Result<PipelineId, ConfigError>,
)
    requires
        spec_lookup(s, key) == Some(r),
    ensures
        exists|i: int| 0 <= i < s.len() && #[trigger] s[i] == (key, r),
    decreases s.len(),
{
    if s[0].0 == key {
        assert(s[0] == (key, r));
    } else {
        lemma_cache_lookup_member(s.drop_first(), key, r);
        let i = choose|i: int| 0 <= i < s.drop_first().len() && #[trigger] s.drop_first()[i] == (
            key,
            r,
        );
        assert(s[i + 1] == (key, r));
    }
}

/// Every successful entry of the cache names a configuration of the registry
/// that the specializer derived for the entry's key (on the vertex layout
/// the key's layout identity stands for).
pub open spec fn cache_coherent<M: Material>(
    entries: Seq<CacheEntry>,
    configs: Seq<PipelineConfig>,
    pipeline: PrepassPipeline<M>,
) -> bool {
    forall|e: int|
        0 <= e < entries.len() ==> match (#[trigger] entries[e]).1 {
            Ok(id) => id.0 < configs.len() && exists|attrs: Seq<crate::vertex::VertexAttributeKind>|
                pipeline.spec_specialize(entries[e].0, attrs) == Ok::<ConfigModel, ConfigError>(
                    configs[id.0 as int]@,
                ),
            Err(_) => true,
        }
}

/// The memoization cache of one material type's prepass variants.
///
/// Keys of distinct material types live in distinct caches, so sub-keys never
/// collide across materials.
pub struct SpecializedPipelines {
    /// Memoized outcomes, one entry per distinct key, in first-seen order.
    pub entries: Vec<CacheEntry>,
}

impl SpecializedPipelines {
    /// Each key tuple has at most one entry.
    pub open spec fn wf(&self) -> bool {
        forall|i: int, j: int|
            0 <= i < j < self.entries@.len() ==> (#[trigger] self.entries@[i]).0 != (
            #[trigger] self.entries@[j]).0
    }

    /// An empty cache.
    pub fn new() -> (r: Self)
        ensures
            r.entries@.len() == 0,
            r.wf(),
    {
        SpecializedPipelines { entries: Vec::new() }
    }

    /// Returns the memoized outcome for the key tuple, specializing on the
    /// first request only.
    ///
    /// On a hit the stored outcome is returned and neither the cache nor the
    /// registry changes: the specializer is not re-invoked, and the same
    /// handle is returned as on the first call. On a miss the specializer
    /// runs once; its outcome is stored under the key and returned, a success
    /// having queued exactly one new configuration under a fresh handle.
    pub fn get_or_specialize<M: Material>(
        &mut self,
        registry: &mut PipelineRegistry,
        pipeline: &PrepassPipeline<M>,
        key: &CacheKey,
        layout: &VertexLayoutDescriptor,
    ) -> (r: Result<PipelineId, ConfigError>)
        requires
            old(self).wf(),
        ensures
            final(self).wf(),
            cache_coherent(old(self).entries@, old(registry).configs@, *pipeline)
                ==> cache_coherent(final(self).entries@, final(registry).configs@, *pipeline),
            match spec_lookup(old(self).entries@, *key) {
                Some(stored) => {
                    &&& r == stored
                    &&& final(self).entries@ == old(self).entries@
                    &&& final(registry).configs@ == old(registry).configs@
                },
                None => {
                    &&& final(self).entries@ == old(self).entries@.push((*key, r))
                    &&& spec_lookup(final(self).entries@, *key) == Some(r)
                    &&& match r {
                        Ok(id) => {
                            &&& pipeline.spec_specialize(*key, layout.attrs@) is Ok
                            &&& id.0 == old(registry).configs@.len()
                            &&& final(registry).configs@.len() == old(registry).configs@.len() + 1
                            &&& final(registry).configs@.drop_last() == old(registry).configs@
                            &&& Ok::<ConfigModel, ConfigError>(
                                final(registry).configs@.last()@,
                            ) == pipeline.spec_specialize(*key, layout.attrs@)
                        },
                        Err(e) => {
                            &&& pipeline.spec_specialize(*key, layout.attrs@) == Err::<
                                ConfigModel,
                                ConfigError,
                            >(e)
                            &&& final(registry).configs@ == old(registry).configs@
                        },
                    }
                },
            },
    {
        let ghost entries0 = self.entries@;
        let mut i: usize = 0;
        assert(entries0.skip(0) =~= entries0);
        while i < self.entries.len()
            invariant
                self.entries@ == entries0,
                entries0 == old(self).entries@,
                old(self).wf(),
                i <= entries0.len(),
                forall|j: int| 0 <= j < i ==> (#[trigger] entries0[j]).0 != *key,
                spec_lookup(entries0, *key) == spec_lookup(entries0.skip(i as int), *key),
            decreases entries0.len() - i,
        {
            assert(entries0.skip(i as int)[0] == entries0[i as int]);
            assert(entries0.skip(i as int).drop_first() =~= entries0.skip(i + 1));
            if self.entries[i].0 == *key {
                assert(spec_lookup(entries0.skip(i as int), *key) == Some(entries0[i as int].1));
                assert(spec_lookup(entries0, *key) == Some(entries0[i as int].1));
                return self.entries[i].1;
            }
            i += 1;
        }
        assert(entries0.skip(i as int) =~= Seq::<CacheEntry>::empty());

        let outcome = match pipeline.specialize(key, layout) {
            Ok(config) => Ok(registry.queue_config(config)),
            Err(e) => Err(e),
        };
        proof {
            lemma_lookup_push(entries0, *key, (*key, outcome));
        }
        self.entries.push((*key, outcome));
        assert forall|a: int, b: int|
            0 <= a < b < self.entries@.len() implies (#[trigger] self.entries@[a]).0 != (
        #[trigger] self.entries@[b]).0 by {
            if b == entries0.len() {
                assert(self.entries@[a] == entries0[a]);
            }
        }
        proof {
            if cache_coherent(entries0, old(registry).configs@, *pipeline) {
                assert forall|e: int| 0 <= e < self.entries@.len() implies match (
                #[trigger] self.entries@[e]).1 {
                    Ok(id) => id.0 < registry.configs@.len() && exists|
                        attrs: Seq<crate::vertex::VertexAttributeKind>,
                    |
                        pipeline.spec_specialize(self.entries@[e].0, attrs) == Ok::<
                            ConfigModel,
                            ConfigError,
                        >(registry.configs@[id.0 as int]@),
                    Err(_) => true,
                } by {
                    if e < entries0.len() {
                        assert(self.entries@[e] == entries0[e]);
                        match entries0[e].1 {
                            Ok(id) => {
                                let attrs = choose|
                                    attrs: Seq<crate::vertex::VertexAttributeKind>,
                                |
                                    pipeline.spec_specialize(entries0[e].0, attrs) == Ok::<
                                        ConfigModel,
                                        ConfigError,
                                    >(old(registry).configs@[id.0 as int]@);
                                assert(registry.configs@[id.0 as int] == old(
                                    registry,
                                ).configs@[id.0 as int]);
                                assert(pipeline.spec_specialize(self.entries@[e].0, attrs) == Ok::<
                                    ConfigModel,
                                    ConfigError,
                                >(registry.configs@[id.0 as int]@));
                            },
                            Err(_) => {},
                        }
                    } else {
                        assert(self.entries@[e] == (*key, outcome));
                        match outcome {
                            Ok(id) => {
                                assert(registry.configs@[id.0 as int]
                                    == registry.configs@.last());
                                assert(pipeline.spec_specialize(*key, layout.attrs@) == Ok::<
                                    ConfigModel,
                                    ConfigError,
                                >(registry.configs@[id.0 as int]@));
                            },
                            Err(_) => {},
                        }
                    }
                }
            }
        }
        outcome
    }
}

} // verus!
