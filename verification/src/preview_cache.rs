//! The previews that are kept, each for one state of a project.
use crate::geometry::PhysicalSize;
use crate::ids::{FrameId, ProjectId, TransitionId};
use crate::lru;
use crate::lru::{BoundedLru, CacheEntry, CacheKey};
use crate::preview::{validate_preview_bounds, EditorPreviewError};
use crate::project::Transition;
use crate::surface::RgbaSurface;
use vstd::prelude::*;

verus! {

/// How many previews are kept.
pub const DEFAULT_CACHE_ENTRIES: usize = 16;

/// How many bytes they can take up.
pub const DEFAULT_CACHE_BYTES: usize = 67_108_864;

/// How many bytes a rendered picture can take up.
pub const MAX_RENDER_SURFACE_BYTES: usize = 536_870_912;

/// One picture of a transition.
#[derive(Clone, Copy, Debug, PartialEq, Eq, Structural)]
pub struct PresentationTransitionStep {
    /// The transition.
    pub transition_id: TransitionId,
    /// The frame it starts from.
    pub from_frame: FrameId,
    /// The frame it leads to.
    pub to_frame: FrameId,
    /// Which of its pictures, counted from one.
    pub step: u16,
}

/// What a preview was made of.
#[derive(Clone, Copy, Debug, PartialEq, Eq, Structural)]
pub struct PreviewCacheKey {
    /// The project.
    pub project_id: ProjectId,
    /// Its state.
    pub revision: u64,
    /// The frame.
    pub frame_id: FrameId,
    /// The picture of a transition, where it is one.
    pub transition: Option<PresentationTransitionStep>,
    /// The space for the preview.
    pub max_size: PhysicalSize,
}

impl CacheKey for PreviewCacheKey {
    fn same(&self, other: &Self) -> (same: bool) {
        *self == *other
    }
}

/// Whether a preview is of another project or of the present state.
pub open spec fn fresh(key: PreviewCacheKey, project_id: ProjectId, revision: u64) -> bool {
    key.project_id != project_id || key.revision == revision
}

/// The entries that are of another project or of the present state, in their order.
pub open spec fn fresh_entries<V>(
    entries: Seq<CacheEntry<PreviewCacheKey, V>>,
    project_id: ProjectId,
    revision: u64,
) -> Seq<CacheEntry<PreviewCacheKey, V>>
    decreases entries.len(),
{
    if entries.len() == 0 {
        entries
    } else {
        let rest = fresh_entries(entries.drop_last(), project_id, revision);
        if fresh(entries.last().key, project_id, revision) {
            rest.push(entries.last())
        } else {
            rest
        }
    }
}

proof fn lemma_fresh_entries<V>(
    entries: Seq<CacheEntry<PreviewCacheKey, V>>,
    kept: Seq<bool>,
    project_id: ProjectId,
    revision: u64,
)
    requires
        kept.len() == entries.len(),
        forall|i: int| 0 <= i < entries.len() ==> #[trigger] kept[i] == fresh(entries[i].key, project_id, revision),
    ensures
        lru::retained(entries, kept) == fresh_entries(entries, project_id, revision),
    decreases entries.len(),
{
    if entries.len() > 0 {
        let front = entries.drop_last();
        let earlier = kept.drop_last();
        assert forall|i: int| 0 <= i < front.len() implies #[trigger] earlier[i] == fresh(
            front[i].key,
            project_id,
            revision,
        ) by {
            assert(earlier[i] == kept[i]);
        }
        lemma_fresh_entries(front, earlier, project_id, revision);
    }
}

/// Gives up the previews of earlier states of a project.
pub fn invalidate_stale_project_revisions<V>(
    cache: &mut BoundedLru<PreviewCacheKey, V>,
    project_id: ProjectId,
    revision: u64,
)
    requires
        old(cache).wf(),
    ensures
        final(cache).wf(),
        final(cache).max_entries == old(cache).max_entries,
        final(cache).max_bytes == old(cache).max_bytes,
        final(cache).entries@ == fresh_entries(old(cache).entries@, project_id, revision),
{
    let keep = |key: &PreviewCacheKey| -> (stays: bool)
        ensures
            stays == fresh(*key, project_id, revision),
        { key.project_id != project_id || key.revision == revision };
    let ghost before = cache.entries@;
    cache.retain(keep);
    proof {
        let kept = choose|kept: Seq<bool>|
            lru::decided(before, keep, kept) && cache.entries@ == #[trigger] lru::retained(before, kept);
        assert forall|i: int| 0 <= i < before.len() implies #[trigger] kept[i] == fresh(
            before[i].key,
            project_id,
            revision,
        ) by {
            assert(call_ensures(keep, (&before[i].key,), kept[i]));
        }
        lemma_fresh_entries(before, kept, project_id, revision);
    }
}

/// The two pictures that a transition leads from and to, rendered.
#[derive(Debug)]
pub struct CachedTransitionEndpoints {
    /// The project.
    pub project_id: ProjectId,
    /// Its state.
    pub revision: u64,
    /// The transition.
    pub transition: Transition,
    /// The picture it starts from.
    pub from: RgbaSurface,
    /// The picture it leads to.
    pub to: RgbaSurface,
}

/// Whether a transition is the one that a picture belongs to.
pub open spec fn belongs(transition: Transition, step: PresentationTransitionStep) -> bool {
    &&& transition.id == step.transition_id
    &&& transition.from_frame == step.from_frame
    &&& transition.to_frame == step.to_frame
}

/// Whether a transition is the one that a picture belongs to.
pub fn is_step_of(transition: &Transition, step: PresentationTransitionStep) -> (yes: bool)
    ensures
        yes == belongs(*transition, step),
{
    transition.id == step.transition_id && transition.from_frame == step.from_frame && transition.to_frame
        == step.to_frame
}

/// The transition that a picture belongs to, and what each of its ends can take up.
#[derive(Clone, Copy, Debug, PartialEq, Eq, Structural)]
pub struct EndpointPlan {
    /// The transition.
    pub transition: Transition,
    /// What each end can take up.
    pub endpoint_limit: usize,
}

impl CachedTransitionEndpoints {
    /// Whether these are the ends of the transition that a picture belongs to, in a state of a
    /// project.
    pub open spec fn match_step(self, project_id: ProjectId, revision: u64, step: PresentationTransitionStep) -> bool {
        self.project_id == project_id && self.revision == revision && belongs(self.transition, step)
    }

    /// Whether these are the ends of the transition that a picture belongs to, in a state of a
    /// project.
    pub fn matches(&self, project_id: ProjectId, revision: u64, step: PresentationTransitionStep) -> (yes: bool)
        ensures
            yes == self.match_step(project_id, revision, step),
    {
        self.project_id == project_id && self.revision == revision && is_step_of(&self.transition, step)
    }
}

/// Finds the transition that a picture belongs to; `progress` says whether it has such a picture.
/// Its two ends and the picture are in memory at once, so each gets a third.
pub fn plan_endpoints(
    transitions: &Vec<Transition>,
    step: PresentationTransitionStep,
    progress: Result<(), String>,
    working_limit_bytes: usize,
) -> (result: Result<EndpointPlan, EditorPreviewError>)
    ensures
        ({
            let known = exists|i: int| 0 <= i < transitions@.len() && belongs(#[trigger] transitions@[i], step);
            match result {
                Ok(plan) => {
                    &&& progress is Ok
                    &&& plan.endpoint_limit == working_limit_bytes / 3
                    &&& exists|i: int|
                        0 <= i < transitions@.len() && plan.transition == #[trigger] transitions@[i] && belongs(
                            transitions@[i],
                            step,
                        ) && forall|j: int| 0 <= j < i ==> !belongs(#[trigger] transitions@[j], step)
                },
                Err(error) => if known {
                    progress matches Err(source) && error == (EditorPreviewError::TransitionRender {
                        transition_id: step.transition_id,
                        step: step.step,
                        source,
                    })
                } else {
                    error == (EditorPreviewError::TransitionNotFound { transition_id: step.transition_id })
                },
            }
        }),
{
    let mut at: usize = 0;
    let count: usize = transitions.len();
    while at < count
        invariant
            at <= count,
            count == transitions@.len(),
            forall|j: int| 0 <= j < at ==> !belongs(#[trigger] transitions@[j], step),
        decreases count - at,
    {
        if is_step_of(&transitions[at], step) {
            assert(belongs(transitions@[at as int], step));
            return match progress {
                Ok(_) => Ok(
                    EndpointPlan { transition: transitions[at], endpoint_limit: working_limit_bytes / 3 },
                ),
                Err(source) => Err(
                    EditorPreviewError::TransitionRender {
                        transition_id: step.transition_id,
                        step: step.step,
                        source,
                    },
                ),
            };
        }
        at = at + 1;
    }
    Err(EditorPreviewError::TransitionNotFound { transition_id: step.transition_id })
}

/// The previews that are kept, and the ends of the transition that was shown last.
#[derive(Debug)]
pub struct EditorPreviewCache<V> {
    /// The previews.
    pub cache: BoundedLru<PreviewCacheKey, V>,
    /// What a rendered picture can take up.
    pub render_surface_limit_bytes: usize,
    /// The ends of the transition that was shown last.
    pub transition_endpoints: Option<CachedTransitionEndpoints>,
}

impl<V> EditorPreviewCache<V> {
    /// An empty cache of the usual size.
    pub fn new() -> (cache: EditorPreviewCache<V>)
        ensures
            cache.cache.wf(),
            cache.cache.entries@.len() == 0,
            cache.cache.max_entries == DEFAULT_CACHE_ENTRIES,
            cache.cache.max_bytes == DEFAULT_CACHE_BYTES,
            cache.render_surface_limit_bytes == MAX_RENDER_SURFACE_BYTES,
            cache.transition_endpoints is None,
    {
        EditorPreviewCache::with_limits(DEFAULT_CACHE_ENTRIES, DEFAULT_CACHE_BYTES, MAX_RENDER_SURFACE_BYTES)
    }

    /// An empty cache.
    pub fn with_limits(max_entries: usize, max_cached_bytes: usize, render_surface_limit_bytes: usize) -> (cache:
        EditorPreviewCache<V>)
        ensures
            cache.cache.wf(),
            cache.cache.entries@.len() == 0,
            cache.cache.max_entries == max_entries,
            cache.cache.max_bytes == max_cached_bytes,
            cache.render_surface_limit_bytes == render_surface_limit_bytes,
            cache.transition_endpoints is None,
    {
        EditorPreviewCache {
            cache: BoundedLru::new(max_entries, max_cached_bytes),
            render_surface_limit_bytes,
            transition_endpoints: None,
        }
    }

    /// Gives up the previews of earlier states and works out what the asked preview is found by.
    pub fn prepare(
        &mut self,
        project_id: ProjectId,
        revision: u64,
        frame_id: FrameId,
        transition: Option<PresentationTransitionStep>,
        max_size: [u32; 2],
    ) -> (result: Result<PreviewCacheKey, EditorPreviewError>)
        requires
            old(self).cache.wf(),
        ensures
            final(self).cache.wf(),
            final(self).cache.max_entries == old(self).cache.max_entries,
            final(self).cache.max_bytes == old(self).cache.max_bytes,
            final(self).render_surface_limit_bytes == old(self).render_surface_limit_bytes,
            final(self).transition_endpoints == old(self).transition_endpoints,
            if max_size@[0] == 0 || max_size@[1] == 0 {
                &&& *final(self) == *old(self)
                &&& result == Err::<PreviewCacheKey, EditorPreviewError>(
                    EditorPreviewError::InvalidPreviewBounds { width: max_size@[0], height: max_size@[1] },
                )
            } else {
                &&& final(self).cache.entries@ == fresh_entries(old(self).cache.entries@, project_id, revision)
                &&& result == Ok::<PreviewCacheKey, EditorPreviewError>(
                    PreviewCacheKey {
                        project_id,
                        revision,
                        frame_id,
                        transition,
                        max_size: PhysicalSize { width: max_size@[0], height: max_size@[1] },
                    },
                )
            },
    {
        match validate_preview_bounds(max_size) {
            Ok(_) => {},
            Err(error) => return Err(error),
        }
        invalidate_stale_project_revisions(&mut self.cache, project_id, revision);
        Ok(
            PreviewCacheKey {
                project_id,
                revision,
                frame_id,
                transition,
                max_size: PhysicalSize { width: max_size[0], height: max_size[1] },
            },
        )
    }

    /// Gives up the ends of a transition that is not the one to show, so that they and others are
    /// never in memory at once, and says whether ends have to be rendered.
    pub fn release_endpoints(&mut self, key: PreviewCacheKey) -> (needed: bool)
        ensures
            final(self).cache == old(self).cache,
            final(self).render_surface_limit_bytes == old(self).render_surface_limit_bytes,
            ({
                let kept = key.transition is Some && old(self).transition_endpoints is Some && old(
                    self,
                ).transition_endpoints->Some_0.match_step(key.project_id, key.revision, key.transition->Some_0);
                &&& final(self).transition_endpoints == (if kept {
                    old(self).transition_endpoints
                } else {
                    None
                })
                &&& needed == (key.transition is Some && !kept)
            }),
    {
        let kept: bool = match key.transition {
            Some(step) => match &self.transition_endpoints {
                Some(endpoints) => endpoints.matches(key.project_id, key.revision, step),
                None => false,
            },
            None => false,
        };
        if !kept {
            self.transition_endpoints = None;
        }
        key.transition.is_some() && !kept
    }
}

/// Once a project has a new state, no preview of an earlier one is found any more, and every
/// other is found as before.
pub proof fn law_no_stale_preview_is_found<V>(
    entries: Seq<CacheEntry<PreviewCacheKey, V>>,
    project_id: ProjectId,
    revision: u64,
    key: PreviewCacheKey,
)
    ensures
        lru::holds(fresh_entries(entries, project_id, revision), key) <==> lru::holds(entries, key) && fresh(
            key,
            project_id,
            revision,
        ),
    decreases entries.len(),
{
    if entries.len() > 0 {
        let front = entries.drop_last();
        let last = entries.last();
        let rest = fresh_entries(front, project_id, revision);
        let all = fresh_entries(entries, project_id, revision);
        law_no_stale_preview_is_found(front, project_id, revision, key);
        if lru::holds(all, key) {
            let i = choose|i: int| 0 <= i < all.len() && (#[trigger] all[i]).key == key;
            if i < rest.len() {
                assert(rest[i].key == key);
                let j = choose|j: int| 0 <= j < front.len() && (#[trigger] front[j]).key == key;
                assert(entries[j].key == key);
            } else {
                assert(entries[entries.len() - 1].key == key);
            }
        }
        if lru::holds(entries, key) && fresh(key, project_id, revision) {
            let i = choose|i: int| 0 <= i < entries.len() && (#[trigger] entries[i]).key == key;
            if i < front.len() {
                assert(front[i].key == key);
                let j = choose|j: int| 0 <= j < rest.len() && (#[trigger] rest[j]).key == key;
                assert(all[j].key == key);
            } else {
                assert(all[rest.len() as int].key == key);
            }
        }
    }
}

/// What is left of a cache are the previews of other projects and those of the revision, in their order.
pub proof fn law_fresh_previews_stay_in_order<V>(
    entries: Seq<CacheEntry<PreviewCacheKey, V>>,
    project_id: ProjectId,
    revision: u64,
)
    ensures
        fresh_entries(entries, project_id, revision) == entries.filter(
            |entry: CacheEntry<PreviewCacheKey, V>|
                entry.key.project_id != project_id || entry.key.revision == revision,
        ),
    decreases entries.len(),
{
    reveal(Seq::filter);
    if entries.len() > 0 {
        law_fresh_previews_stay_in_order(entries.drop_last(), project_id, revision);
    }
}

/// A step belongs to the transition that it names, between the two frames that it names; kept endpoints
/// serve it only within their project and revision.
pub proof fn law_endpoints_serve_their_own_steps(
    endpoints: CachedTransitionEndpoints,
    project_id: ProjectId,
    revision: u64,
    step: PresentationTransitionStep,
)
    ensures
        endpoints.match_step(project_id, revision, step) <==> {
            &&& endpoints.project_id == project_id
            &&& endpoints.revision == revision
            &&& endpoints.transition.id == step.transition_id
            &&& endpoints.transition.from_frame == step.from_frame
            &&& endpoints.transition.to_frame == step.to_frame
        },
{
}

} // verus!
