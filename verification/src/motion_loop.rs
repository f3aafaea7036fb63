//! Loops: fading the end into the start, and finding where a loop closes.
use vstd::prelude::*;
use vstd::arithmetic::div_mod::{
    lemma_div_is_ordered, lemma_fundamental_div_mod, lemma_fundamental_div_mod_converse,
};
use crate::cancel::CancellationToken;
use crate::frames;
use crate::frames::{
    CaptureBinding, CaptureMetadata, ClipTransform, FrameClip, FrameView, MetadataView,
};
use crate::identity;
use crate::identity::draw;
use crate::ids::{AssetId, FrameId};
use crate::motion;
use crate::motion::{
    store_surface, validate_budget, BakedPicture, MotionOutcome, MotionProgress, Stored,
    MAX_RESULTING_FRAMES,
};
use crate::motion_pixels;
use crate::motion_pixels::matching_pixels_at_least;
use crate::project;
use crate::project::{
    CommandView, DescriptorView, EditCommand, ManifestView, ProjectManifest, Timeline, TimelineView,
    Transition,
};
use crate::surface::RgbaSurface;
use crate::time::DurationUs;
use crate::value;
use crate::value::Value;

verus! {

/// The most frames that one crossfade may add.
pub const MAX_LOOP_FRAMES: u16 = 120;

/// The longest crossfade, in microseconds.
pub const MAX_LOOP_DURATION_US: u64 = 60_000_000;

/// Whether a crossfade of `count` frames may take `duration_us`.
pub open spec fn loop_shape_allowed(count: u16, duration_us: u64) -> bool {
    &&& 0 < count <= MAX_LOOP_FRAMES
    &&& count <= duration_us <= MAX_LOOP_DURATION_US
}

/// The time that the first `count` transitions take.
pub open spec fn transition_clock(transitions: Seq<Transition>, count: int) -> int
    decreases count,
{
    if count <= 0 {
        0
    } else {
        transition_clock(transitions, count - 1) + transitions[count - 1].duration@
    }
}

/// The time that all frames and all transitions take.
pub open spec fn presentation(timeline: TimelineView) -> int {
    timeline.total() + transition_clock(timeline.transitions, timeline.transitions.len() as int)
}

/// More transitions never take less time.
proof fn lemma_transition_clock_grows(transitions: Seq<Transition>, less: int, more: int)
    requires
        0 <= less <= more <= transitions.len(),
    ensures
        0 <= transition_clock(transitions, less) <= transition_clock(transitions, more),
    decreases more,
{
    broadcast use crate::time::lemma_duration_range;

    if less < more {
        lemma_transition_clock_grows(transitions, less, more - 1);
    } else if less > 0 {
        lemma_transition_clock_grows(transitions, less - 1, less - 1);
    }
}

/// The time that all frames and all transitions take, where it can be represented.
pub fn presentation_duration(timeline: &Timeline) -> (total: Option<u64>)
    ensures
        match total {
            Some(time) => time == presentation(timeline@),
            None => presentation(timeline@) > u64::MAX,
        },
{
    let transitions = &timeline.transitions;
    let mut time: u64 = match timeline.total_duration() {
        Some(time) => time,
        None => {
            proof {
                lemma_transition_clock_grows(transitions@, 0, transitions@.len() as int);
            }
            return None;
        },
    };
    let mut index: usize = 0;
    while index < transitions.len()
        invariant
            index <= transitions.len(),
            transitions@ == timeline@.transitions,
            time == timeline@.total() + transition_clock(transitions@, index as int),
        decreases transitions.len() - index,
    {
        match time.checked_add(transitions[index].duration.get()) {
            Some(next) => {
                time = next;
            },
            None => {
                proof {
                    lemma_transition_clock_grows(
                        transitions@,
                        index + 1,
                        transitions@.len() as int,
                    );
                }
                return None;
            },
        }
        index += 1;
    }
    Some(time)
}

/// Why a crossfade is refused.
pub open spec fn loop_refusal(project: ManifestView, count: u16, duration_us: u64) -> Option<
    Seq<char>,
> {
    if !loop_shape_allowed(count, duration_us) {
        Some(
            "A smooth loop needs 1–120 frames and a total duration up to 60 seconds, at least one microsecond per frame."@,
        )
    } else if project.timeline.frames.len() < 2 || project.timeline.frames.len() + count
        > MAX_RESULTING_FRAMES {
        Some(
            "A smooth loop needs at least two original frames and cannot exceed 100,000 total frames."@,
        )
    } else if motion::budget_refusal(project.canvas.size, count as int) is Some {
        motion::budget_refusal(project.canvas.size, count as int)
    } else if presentation(project.timeline) + duration_us > u64::MAX {
        Some("The smooth loop would overflow the presentation duration."@)
    } else {
        None
    }
}

/// Refuses a crossfade that the project cannot take.
pub fn validate_loop_crossfade(project: &ProjectManifest, count: u16, duration_us: u64) -> (result:
    Result<(), String>)
    ensures
        match result {
            Ok(_) => loop_refusal(project@, count, duration_us) is None,
            Err(message) => loop_refusal(project@, count, duration_us) == Some(message@),
        },
{
    if count == 0 || count > MAX_LOOP_FRAMES || duration_us < count as u64 || duration_us
        > MAX_LOOP_DURATION_US {
        return Err(
            "A smooth loop needs 1–120 frames and a total duration up to 60 seconds, at least one microsecond per frame.".to_owned(),
        );
    }
    let originals: usize = project.timeline.frames.len();
    if originals < 2 || originals > MAX_RESULTING_FRAMES || originals + count as usize
        > MAX_RESULTING_FRAMES {
        return Err(
            "A smooth loop needs at least two original frames and cannot exceed 100,000 total frames.".to_owned(),
        );
    }
    validate_budget(project.canvas.size, count as usize)?;
    let fits = match presentation_duration(&project.timeline) {
        Some(time) => time.checked_add(duration_us).is_some(),
        None => false,
    };
    if !fits {
        return Err("The smooth loop would overflow the presentation duration.".to_owned());
    }
    Ok(())
}

/// When the frame at `index` of a crossfade starts.
pub open spec fn loop_start(index: int, count: int, duration_us: int) -> int {
    index * duration_us / count
}

/// How long the frame at `index` of a crossfade is shown.
pub open spec fn loop_share(index: int, count: int, duration_us: int) -> int {
    loop_start(index + 1, count, duration_us) - loop_start(index, count, duration_us)
}

/// The time that the first `index` frames of a crossfade take.
pub open spec fn loop_shares(index: int, count: int, duration_us: int) -> int
    decreases index,
{
    if index <= 0 {
        0
    } else {
        loop_shares(index - 1, count, duration_us) + loop_share(index - 1, count, duration_us)
    }
}

/// The frames of a crossfade take exactly the time that was asked for, each at
/// least one microsecond.
pub proof fn law_crossfade_takes_its_duration(count: int, duration_us: int)
    requires
        0 < count <= duration_us,
    ensures
        loop_shares(count, count, duration_us) == duration_us,
        forall|index: int| 0 <= index < count ==> #[trigger] loop_share(index, count, duration_us) > 0,
{
    lemma_shares_telescope(count, count, duration_us);
    assert(count * duration_us / count == duration_us) by (nonlinear_arith)
        requires
            count > 0,
    ;
    assert(0 * duration_us / count == 0) by (nonlinear_arith)
        requires
            count > 0,
    ;
    assert forall|index: int| 0 <= index < count implies #[trigger] loop_share(
        index,
        count,
        duration_us,
    ) > 0 by {
        lemma_share_is_positive(index, count, duration_us);
    }
}

/// The frames of a crossfade share its duration evenly: no frame is shown for more than a
/// microsecond longer than another.
pub proof fn law_crossfade_shares_are_even(count: int, duration_us: int, one: int, other: int)
    requires
        0 < count <= duration_us,
        0 <= one < count,
        0 <= other < count,
    ensures
        loop_share(one, count, duration_us) - loop_share(other, count, duration_us) <= 1,
{
    lemma_share_is_even(one, count, duration_us);
    lemma_share_is_even(other, count, duration_us);
}

/// A share is that of an even split, or one microsecond more.
proof fn lemma_share_is_even(index: int, count: int, duration_us: int)
    requires
        0 <= index,
        0 < count <= duration_us,
    ensures
        duration_us / count <= loop_share(index, count, duration_us) <= duration_us / count + 1,
{
    let low = index * duration_us;
    let high = (index + 1) * duration_us;
    assert(high == low + duration_us) by (nonlinear_arith)
        requires
            low == index * duration_us,
            high == (index + 1) * duration_us,
    ;
    let starts = low / count;
    let even = duration_us / count;
    let left = low % count + duration_us % count;
    lemma_fundamental_div_mod(low, count);
    lemma_fundamental_div_mod(duration_us, count);
    assert(count * starts + count * even == count * (starts + even)) by (nonlinear_arith);
    assert(high == count * (starts + even) + left);
    if left < count {
        lemma_fundamental_div_mod_converse(high, count, starts + even, left);
    } else {
        assert(count * (starts + even) + count == count * (starts + even + 1)) by (nonlinear_arith);
        lemma_fundamental_div_mod_converse(high, count, starts + even + 1, left - count);
    }
}

/// The shares of the first frames reach up to the start of the next.
proof fn lemma_shares_telescope(index: int, count: int, duration_us: int)
    requires
        0 <= index,
        0 < count,
    ensures
        loop_shares(index, count, duration_us) == loop_start(index, count, duration_us)
            - loop_start(0, count, duration_us),
    decreases index,
{
    if index > 0 {
        lemma_shares_telescope(index - 1, count, duration_us);
    }
}

/// Each frame is shown for at least one microsecond.
proof fn lemma_share_is_positive(index: int, count: int, duration_us: int)
    requires
        0 <= index,
        0 < count <= duration_us,
    ensures
        loop_share(index, count, duration_us) > 0,
{
    let low = index * duration_us;
    let high = (index + 1) * duration_us;
    assert(high == low + duration_us) by (nonlinear_arith)
        requires
            low == index * duration_us,
            high == (index + 1) * duration_us,
    ;
    lemma_div_is_ordered(low + count, high, count);
    assert((low + count) / count == low / count + 1) by (nonlinear_arith)
        requires
            count > 0,
    ;
}

/// A new frame of a crossfade.
pub open spec fn loop_frame(
    id: FrameId,
    picture: BakedPicture,
    share: int,
    frame: FrameView,
) -> bool {
    frame == (FrameView {
        id,
        asset_id: picture.asset_id,
        duration: frame.duration,
        transform: ClipTransform::identity(),
        capture_metadata: MetadataView::nothing(),
        capture_clock: None,
        capture_binding: CaptureBinding::ArchivedAfterComposite,
        effects: Seq::empty(),
        render_steps: Seq::empty(),
    }) && frame.duration@ == share
}

/// Stores the first `count` pictures, one after the other.
pub open spec fn store_all(
    pictures: Seq<BakedPicture>,
    count: int,
    assets: Seq<DescriptorView>,
) -> Result<Stored, Seq<char>>
    decreases count,
{
    if count <= 0 {
        Ok(Stored { commands: Seq::empty(), registered: Seq::empty() })
    } else {
        match store_all(pictures, count - 1, assets) {
            Ok(before) => motion::store(before, pictures[count - 1], assets),
            Err(message) => Err(message),
        }
    }
}

/// The commands that put each layer back as it is.
pub open spec fn layers_as_they_are(timeline: TimelineView) -> Seq<CommandView> {
    Seq::new(
        timeline.overlay_tracks.len(),
        |i: int| CommandView::UpsertOverlayTrack { track: timeline.overlay_tracks[i] },
    )
}

/// Whether `commands` append the pictures of a crossfade under the given identities.
pub open spec fn is_loop_edit(
    commands: Seq<CommandView>,
    project: ManifestView,
    duration_us: u64,
    pictures: Seq<BakedPicture>,
    ids: Seq<FrameId>,
) -> bool {
    exists|new_frames: Seq<FrameView>|
        {
            &&& new_frames.len() == pictures.len()
            &&& forall|i: int|
                0 <= i < new_frames.len() ==> loop_frame(
                    ids[i],
                    pictures[i],
                    loop_share(i, pictures.len() as int, duration_us as int),
                    #[trigger] new_frames[i],
                )
            &&& commands == store_all(pictures, pictures.len() as int, project.assets)->Ok_0.commands
                + seq![
                #[trigger] inserted(project.timeline.frames.len() as int, new_frames),
            ] + layers_as_they_are(project.timeline)
        }
}

/// The command that inserts frames.
pub open spec fn inserted(index: int, frames: Seq<FrameView>) -> CommandView {
    CommandView::InsertFrames { index, frames }
}

/// The edit that appends the pictures of a crossfade, under the given identities.
///
/// The pictures already show the overlays of their frames, so every layer is put
/// back as it is: none may stretch into the new frames.
pub fn loop_crossfade_edit(
    project: &ProjectManifest,
    duration_us: u64,
    pictures: &Vec<BakedPicture>,
    ids: &Vec<FrameId>,
) -> (result: Result<(Vec<EditCommand>, usize), String>)
    requires
        0 < pictures@.len() <= MAX_LOOP_FRAMES,
        pictures@.len() <= duration_us <= MAX_LOOP_DURATION_US,
        ids@.len() == pictures@.len(),
    ensures
        match result {
            Ok((commands, count)) => {
                &&& store_all(pictures@, pictures@.len() as int, project@.assets) is Ok
                &&& count == pictures@.len()
                &&& is_loop_edit(value::views(commands@), project@, duration_us, pictures@, ids@)
            },
            Err(message) => store_all(pictures@, pictures@.len() as int, project@.assets) == Err::<
                Stored,
                Seq<char>,
            >(message@),
        },
{
    let ghost assets = project@.assets;
    let total: usize = pictures.len();
    let mut commands: Vec<EditCommand> = Vec::new();
    let mut registered: Vec<AssetId> = Vec::new();
    let mut new_frames: Vec<FrameClip> = Vec::with_capacity(total);
    let mut index: usize = 0;
    assert(value::views(commands@) =~= Seq::empty());
    while index < total
        invariant
            index <= total == pictures@.len() == ids@.len(),
            0 < total <= MAX_LOOP_FRAMES,
            total <= duration_us <= MAX_LOOP_DURATION_US,
            assets == project@.assets,
            store_all(pictures@, index as int, assets) == Ok::<Stored, Seq<char>>(
                Stored { commands: value::views(commands@), registered: registered@ },
            ),
            new_frames@.len() == index,
            forall|i: int|
                0 <= i < index ==> loop_frame(
                    ids@[i],
                    pictures@[i],
                    loop_share(i, total as int, duration_us as int),
                    (#[trigger] new_frames@[i])@,
                ),
        decreases total - index,
    {
        let picture = pictures[index];
        let asset_id = match store_surface(&project.assets, picture, &mut registered, &mut commands) {
            Ok(id) => id,
            Err(message) => {
                proof {
                    lemma_store_stays_failed(pictures@, index + 1, total as int, assets);
                }
                return Err(message);
            },
        };
        let n: u64 = total as u64;
        let i: u64 = index as u64;
        assert(0 <= i * duration_us <= 120 * 60_000_000 && 0 <= (i + 1) * duration_us <= 120
            * 60_000_000) by (nonlinear_arith)
            requires
                0 <= i < 120,
                0 <= duration_us <= 60_000_000,
        ;
        proof {
            lemma_share_is_positive(index as int, total as int, duration_us as int);
        }
        let start: u64 = i * duration_us / n;
        let end: u64 = (i + 1) * duration_us / n;
        let duration = match DurationUs::new(end - start) {
            Some(duration) => duration,
            None => {
                assert(false);
                return Err("Loop frame duration became zero.".to_owned());
            },
        };
        let frame = FrameClip {
            id: ids[index],
            asset_id,
            duration,
            transform: ClipTransform::none(),
            capture_metadata: CaptureMetadata::empty(),
            capture_clock: None,
            capture_binding: CaptureBinding::ArchivedAfterComposite,
            effects: Vec::new(),
            render_steps: Vec::new(),
        };
        new_frames.push(frame);
        index += 1;
    }
    let ghost stored = value::views(commands@);
    let ghost shown = value::views(new_frames@);
    let command = EditCommand::InsertFrames { index: project.timeline.frames.len(), frames: new_frames };
    assert(command@ == inserted(project@.timeline.frames.len() as int, shown));
    commands.push(command);
    assert(value::views(commands@) =~= stored + seq![
        inserted(project@.timeline.frames.len() as int, shown),
    ]);
    let ghost head = value::views(commands@);
    let tracks = &project.timeline.overlay_tracks;
    let mut track: usize = 0;
    assert(head + layers_as_they_are(project@.timeline).take(0) =~= head);
    while track < tracks.len()
        invariant
            track <= tracks.len(),
            value::views(tracks@) == project@.timeline.overlay_tracks,
            value::views(commands@) == head + layers_as_they_are(project@.timeline).take(
                track as int,
            ),
        decreases tracks.len() - track,
    {
        let ghost before = value::views(commands@);
        let ghost all = layers_as_they_are(project@.timeline);
        let command = EditCommand::UpsertOverlayTrack { track: tracks[track].duplicate() };
        assert(project@.timeline.overlay_tracks[track as int] == tracks@[track as int]@);
        assert(command@ == all[track as int]);
        commands.push(command);
        assert(value::views(commands@) =~= before.push(all[track as int]));
        assert(all.take(track + 1) =~= all.take(track as int).push(all[track as int]));
        assert(value::views(commands@) =~= head + all.take(track + 1));
        track += 1;
    }
    proof {
        let all = layers_as_they_are(project@.timeline);
        assert(all.take(track as int) =~= all);
        assert forall|i: int| 0 <= i < shown.len() implies loop_frame(
            ids@[i],
            pictures@[i],
            loop_share(i, pictures@.len() as int, duration_us as int),
            #[trigger] shown[i],
        ) by {
            assert(shown[i] == new_frames@[i]@);
        }
        assert(is_loop_edit(value::views(commands@), project@, duration_us, pictures@, ids@));
    }
    Ok((commands, total))
}

/// A list of pictures that could not be stored stays so.
proof fn lemma_store_stays_failed(
    pictures: Seq<BakedPicture>,
    failed: int,
    count: int,
    assets: Seq<DescriptorView>,
)
    requires
        failed <= count,
        store_all(pictures, failed, assets) is Err,
    ensures
        store_all(pictures, count, assets) == store_all(pictures, failed, assets),
    decreases count,
{
    if failed < count {
        lemma_store_stays_failed(pictures, failed, count - 1, assets);
    }
}

/// The edit that appends the pictures of a crossfade, under random identities.
pub fn loop_crossfade_command(
    project: &ProjectManifest,
    count: u16,
    duration_us: u64,
    pictures: &Vec<BakedPicture>,
) -> (result: Result<(Vec<EditCommand>, usize), String>)
    requires
        pictures@.len() == count,
    ensures
        match result {
            Ok((commands, frames)) => {
                &&& loop_refusal(project@, count, duration_us) is None
                &&& store_all(pictures@, count as int, project@.assets) is Ok
                &&& frames == count
                &&& exists|ids: Seq<FrameId>|
                    #[trigger] is_loop_edit(
                        value::views(commands@),
                        project@,
                        duration_us,
                        pictures@,
                        ids,
                    ) && ids.len() == count && forall|i: int|
                        0 <= i < count ==> identity::is_random_uuid((#[trigger] ids[i]).value)
            },
            Err(message) => {
                ||| loop_refusal(project@, count, duration_us) == Some(message@)
                ||| loop_refusal(project@, count, duration_us) is None && store_all(
                    pictures@,
                    count as int,
                    project@.assets,
                ) == Err::<Stored, Seq<char>>(message@)
            },
        },
{
    validate_loop_crossfade(project, count, duration_us)?;
    let mut ids: Vec<FrameId> = Vec::with_capacity(count as usize);
    let mut index: u16 = 0;
    while index < count
        invariant
            index <= count,
            ids@.len() == index,
            forall|i: int| 0 <= i < index ==> identity::is_random_uuid((#[trigger] ids@[i]).value),
        decreases count - index,
    {
        ids.push(FrameId { value: draw() });
        index += 1;
    }
    loop_crossfade_edit(project, duration_us, pictures, &ids)
}

/// Why a search for a smooth loop is refused.
pub open spec fn search_refusal(frame_count: int, skip_first: int, similarity_tenths: int) -> Option<
    Seq<char>,
> {
    if frame_count > MAX_RESULTING_FRAMES || skip_first == 0 || skip_first >= frame_count {
        Some(
            "Choose a positive number of initial frames to skip, smaller than the timeline length (at most 100,000 frames)."@,
        )
    } else if !(1 <= similarity_tenths <= 1000) {
        Some("Similarity must be between 0.1% and 100%."@)
    } else {
        None
    }
}

/// The frame that a search examines after `examined` others.
pub open spec fn search_index(
    frame_count: int,
    skip_first: int,
    from_end: bool,
    examined: int,
) -> int {
    if from_end {
        frame_count - 1 - examined
    } else {
        skip_first + examined
    }
}

/// A search for the frame at which a loop closes.
#[derive(Clone, Copy, Debug, PartialEq, Eq, Structural)]
pub struct SmoothLoopSearch {
    /// Number of frames on the timeline.
    pub frame_count: usize,
    /// Number of frames that are never taken.
    pub skip_first: usize,
    /// Share of equal pixels that is asked for, in tenths of a percent.
    pub similarity_tenths: u16,
    /// Whether the search starts at the end.
    pub from_end: bool,
    /// Number of frames examined so far.
    pub examined: usize,
    /// The frame that matches, once it is found.
    pub found: Option<usize>,
}

/// The start times of all frames, or the failure of a clock that cannot hold them.
pub fn frame_starts(frames: &Vec<FrameClip>) -> (result: Result<Vec<u64>, String>)
    ensures
        ({
            let clips = value::views(frames@);
            match result {
                Ok(starts) => {
                    &&& frames::clock(clips, clips.len() as int) <= u64::MAX
                    &&& starts@.len() == clips.len()
                    &&& forall|i: int|
                        0 <= i < clips.len() ==> #[trigger] starts@[i] == frames::clock(clips, i)
                },
                Err(message) => frames::clock(clips, clips.len() as int) > u64::MAX && message@
                    == "Frame clock overflow"@,
            }
        }),
{
    let ghost clips = value::views(frames@);
    let mut starts: Vec<u64> = Vec::with_capacity(frames.len());
    let mut cursor: u64 = 0;
    let mut index: usize = 0;
    while index < frames.len()
        invariant
            index <= frames.len(),
            clips == value::views(frames@),
            cursor == frames::clock(clips, index as int),
            starts@.len() == index,
            forall|i: int| 0 <= i < index ==> #[trigger] starts@[i] == frames::clock(clips, i),
        decreases frames.len() - index,
    {
        starts.push(cursor);
        match cursor.checked_add(frames[index].duration.get()) {
            Some(next) => {
                cursor = next;
            },
            None => {
                proof {
                    frames::lemma_clock_grows(clips, index + 1, clips.len() as int);
                }
                return Err("Frame clock overflow".to_owned());
            },
        }
        index += 1;
    }
    Ok(starts)
}

impl SmoothLoopSearch {
    /// The number of frames that the search may examine.
    pub open spec fn total(self) -> int {
        self.frame_count - self.skip_first
    }

    /// Whether the search is over.
    pub open spec fn finished(self) -> bool {
        self.found is Some || self.examined >= self.total()
    }

    /// Whether the search is in a state that it can reach.
    pub open spec fn wf(self) -> bool {
        &&& search_refusal(
            self.frame_count as int,
            self.skip_first as int,
            self.similarity_tenths as int,
        ) is None
        &&& self.examined <= self.total()
        &&& self.found matches Some(index) ==> {
            &&& self.examined > 0
            &&& index == search_index(
                self.frame_count as int,
                self.skip_first as int,
                self.from_end,
                self.examined - 1,
            )
        }
    }

    /// The state after one more frame has been examined.
    pub open spec fn stepped(self, qualifies: bool) -> SmoothLoopSearch {
        SmoothLoopSearch {
            examined: (self.examined + 1) as usize,
            found: if qualifies {
                Some(
                    search_index(
                        self.frame_count as int,
                        self.skip_first as int,
                        self.from_end,
                        self.examined as int,
                    ) as usize,
                )
            } else {
                None
            },
            ..self
        }
    }

    /// A search that has not examined any frame.
    pub fn new(
        frame_count: usize,
        skip_first: usize,
        similarity_tenths: u16,
        from_end: bool,
    ) -> (result: Result<SmoothLoopSearch, String>)
        ensures
            match result {
                Ok(search) => {
                    &&& search.wf()
                    &&& search == (SmoothLoopSearch {
                        frame_count,
                        skip_first,
                        similarity_tenths,
                        from_end,
                        examined: 0,
                        found: None,
                    })
                },
                Err(message) => search_refusal(
                    frame_count as int,
                    skip_first as int,
                    similarity_tenths as int,
                ) == Some(message@),
            },
    {
        if frame_count > MAX_RESULTING_FRAMES || skip_first == 0 || skip_first >= frame_count {
            return Err(
                "Choose a positive number of initial frames to skip, smaller than the timeline length (at most 100,000 frames).".to_owned(),
            );
        }
        if similarity_tenths < 1 || similarity_tenths > 1000 {
            return Err("Similarity must be between 0.1% and 100%.".to_owned());
        }
        Ok(
            SmoothLoopSearch {
                frame_count,
                skip_first,
                similarity_tenths,
                from_end,
                examined: 0,
                found: None,
            },
        )
    }

    /// The frame to examine next, unless the search is over.
    pub fn next_index(&self) -> (index: Option<usize>)
        requires
            self.wf(),
        ensures
            match index {
                Some(at) => {
                    &&& !self.finished()
                    &&& at == search_index(
                        self.frame_count as int,
                        self.skip_first as int,
                        self.from_end,
                        self.examined as int,
                    )
                    &&& self.skip_first <= at < self.frame_count
                },
                None => self.finished(),
            },
    {
        if self.found.is_some() || self.examined >= self.frame_count - self.skip_first {
            None
        } else if self.from_end {
            Some(self.frame_count - 1 - self.examined)
        } else {
            Some(self.skip_first + self.examined)
        }
    }

    /// Compares the rendered frame that was asked for with the first frame.
    pub fn examine<C: CancellationToken>(
        &mut self,
        reference: &RgbaSurface,
        candidate: &RgbaSurface,
        cancellation: &C,
    ) -> (result: Result<MotionProgress, String>)
        requires
            old(self).wf(),
            !old(self).finished(),
            reference.wf(),
            candidate.wf(),
        ensures
            final(self).wf(),
            match result {
                Ok(progress) => {
                    &&& reference.size == candidate.size
                    &&& cancellation.must_cancel() ==> reference.size.pixel_count() == 0
                    &&& *final(self) == old(self).stepped(
                        matches_first(*reference, *candidate, old(self).similarity_tenths),
                    )
                    &&& progress == (MotionProgress {
                        completed: final(self).examined,
                        total: old(self).total() as usize,
                    })
                },
                Err(message) => {
                    &&& *final(self) == *old(self)
                    &&& {
                        ||| reference.size != candidate.size && message@
                            == "Loop search requires matching rendered dimensions. Normalize frame sizes first."@
                        ||| reference.size == candidate.size && cancellation.may_cancel() && message@
                            == motion_pixels::stopped()
                    }
                },
            },
    {
        let index: usize = if self.from_end {
            self.frame_count - 1 - self.examined
        } else {
            self.skip_first + self.examined
        };
        let qualifies = matching_pixels_at_least(
            reference,
            candidate,
            self.similarity_tenths,
            cancellation,
        )?;
        self.examined = self.examined + 1;
        self.found = if qualifies {
            Some(index)
        } else {
            None
        };
        Ok(MotionProgress { completed: self.examined, total: self.frame_count - self.skip_first })
    }

    /// What a finished search amounts to, and the change that it asks for.
    pub fn outcome(&self, frames: &Vec<FrameClip>) -> (result: (MotionOutcome, Option<EditCommand>))
        requires
            self.wf(),
            frames@.len() == self.frame_count,
        ensures
            ({
                let last = self.frame_count - 1;
                match self.found {
                    None => result.0 == MotionOutcome::NoMatchingEnd && result.1 is None,
                    Some(index) => if index == last {
                        result.0 == MotionOutcome::AlreadySmooth && result.1 is None
                    } else {
                        &&& result.0 == MotionOutcome::TrimmedTail((last - index) as usize)
                        &&& value::option_view(result.1) == Some(
                            CommandView::DeleteFramesAfter {
                                frame_id: value::views(frames@)[index as int].id,
                            },
                        )
                    },
                }
            }),
    {
        match self.found {
            None => (MotionOutcome::NoMatchingEnd, None),
            Some(index) => {
                if index == self.frame_count - 1 {
                    (MotionOutcome::AlreadySmooth, None)
                } else {
                    (
                        MotionOutcome::TrimmedTail(self.frame_count - 1 - index),
                        Some(EditCommand::DeleteFramesAfter { frame_id: frames[index].id }),
                    )
                }
            },
        }
    }
}

/// Whether enough pixels of the candidate equal those of the first frame.
pub open spec fn matches_first(
    reference: RgbaSurface,
    candidate: RgbaSurface,
    similarity_tenths: u16,
) -> bool {
    motion_pixels::equal_pixels(
        reference.pixels@,
        candidate.pixels@,
        reference.size.pixel_count(),
    ) * 1000 >= reference.size.pixel_count() * similarity_tenths
}

/// The state of a search after the given answers, one for each examined frame.
pub open spec fn after_answers(search: SmoothLoopSearch, answers: Seq<bool>) -> SmoothLoopSearch
    decreases answers.len(),
{
    if answers.len() == 0 {
        search
    } else {
        after_answers(search, answers.drop_last()).stepped(answers.last())
    }
}

/// A search that stops at its first match has taken the first frame, in the order
/// of the search, that matches.
pub proof fn law_search_takes_the_first_match(search: SmoothLoopSearch, answers: Seq<bool>)
    requires
        search.wf(),
        search.examined == 0,
        search.found is None,
        0 < answers.len() <= search.total(),
        forall|i: int| 0 <= i < answers.len() - 1 ==> !#[trigger] answers[i],
    ensures
        after_answers(search, answers).found == (if answers.last() {
            Some(
                search_index(
                    search.frame_count as int,
                    search.skip_first as int,
                    search.from_end,
                    answers.len() - 1,
                ) as usize,
            )
        } else {
            None::<usize>
        }),
        after_answers(search, answers).examined == answers.len(),
{
    lemma_search_counts(search, answers.drop_last());
}

/// A search counts the frames it has examined and changes nothing else.
proof fn lemma_search_counts(search: SmoothLoopSearch, answers: Seq<bool>)
    requires
        search.wf(),
        search.examined == 0,
        answers.len() <= search.total(),
    ensures
        ({
            let after = after_answers(search, answers);
            &&& after.examined == answers.len()
            &&& after.frame_count == search.frame_count
            &&& after.skip_first == search.skip_first
            &&& after.from_end == search.from_end
            &&& after.similarity_tenths == search.similarity_tenths
        }),
    decreases answers.len(),
{
    if answers.len() > 0 {
        lemma_search_counts(search, answers.drop_last());
    }
}

/// Transitions add to the time of a presentation what they take, one after another.
pub proof fn law_transitions_add_to_the_presentation(timeline: TimelineView, added: Transition)
    ensures
        presentation(TimelineView { transitions: timeline.transitions.push(added), ..timeline }) == presentation(
            timeline,
        ) + added.duration@,
        timeline.transitions.len() == 0 ==> presentation(timeline) == frames::clock(
            timeline.frames,
            timeline.frames.len() as int,
        ),
{
    let more = timeline.transitions.push(added);
    lemma_transition_prefix(timeline.transitions, more, timeline.transitions.len() as int);
}

proof fn lemma_transition_prefix(transitions: Seq<Transition>, more: Seq<Transition>, count: int)
    requires
        0 <= count <= transitions.len() <= more.len(),
        forall|i: int| 0 <= i < count ==> #[trigger] transitions[i] == more[i],
    ensures
        transition_clock(transitions, count) == transition_clock(more, count),
    decreases count,
{
    if count > 0 {
        lemma_transition_prefix(transitions, more, count - 1);
        assert(transitions[count - 1] == more[count - 1]);
    }
}

/// A crossfade is accepted exactly where it has 1 to 120 frames, takes at most a minute and at least a
/// microsecond for each of them, joins at least two frames, leaves at most 100,000, can be baked, and where
/// the whole can still be timed.
pub proof fn law_what_crossfades_are_accepted(project: ManifestView, count: u16, duration_us: u64)
    ensures
        loop_refusal(project, count, duration_us) is None <==> {
            &&& 1 <= count <= 120
            &&& count <= duration_us <= 60_000_000
            &&& 2 <= project.timeline.frames.len()
            &&& project.timeline.frames.len() + count <= 100_000
            &&& project.canvas.size.width > 0 && project.canvas.size.height > 0
            &&& 4 * (project.canvas.size.width * project.canvas.size.height) <= 67_108_864
            &&& 4 * (project.canvas.size.width * project.canvas.size.height) * (count as int) <= 268_435_456
            &&& presentation(project.timeline) + duration_us <= u64::MAX
        },
{
    motion::law_what_may_be_baked(project.canvas.size, count as int);
}

proof fn lemma_stored_pictures(pictures: Seq<BakedPicture>, count: int, assets: Seq<DescriptorView>)
    requires
        0 <= count <= pictures.len(),
        store_all(pictures, count, assets) is Ok,
    ensures
        ({
            let made = store_all(pictures, count, assets)->Ok_0;
            &&& made.commands.len() == made.registered.len()
            &&& made.registered.no_duplicates()
            &&& forall|j: int|
                0 <= j < made.registered.len() ==> !project::registered(assets, #[trigger] made.registered[j])
            &&& forall|j: int|
                0 <= j < made.commands.len() ==> (#[trigger] made.commands[j]) is RegisterAsset
                    && made.commands[j]->RegisterAsset_asset.id == made.registered[j] && registers_one(
                    made.commands[j],
                    pictures,
                    count,
                )
            &&& forall|i: int|
                0 <= i < count ==> project::registered(assets, (#[trigger] pictures[i]).asset_id)
                    || made.registered.contains(pictures[i].asset_id)
        }),
    decreases count,
{
    if count > 0 {
        lemma_stored_pictures(pictures, count - 1, assets);
        let before = store_all(pictures, count - 1, assets)->Ok_0;
        let made = store_all(pictures, count, assets)->Ok_0;
        let picture = pictures[count - 1];
        motion::law_a_picture_is_registered_once(before, picture, assets);
        motion::law_pictures_are_registered_as_they_are(before, picture, assets);
        assert forall|j: int| 0 <= j < made.commands.len() implies (#[trigger] made.commands[j]) is RegisterAsset
            && made.commands[j]->RegisterAsset_asset.id == made.registered[j] && registers_one(
            made.commands[j],
            pictures,
            count,
        ) by {
            if j < before.commands.len() {
                assert(made.commands[j] == before.commands[j]);
                assert(made.registered[j] == before.registered[j]);
                let i = choose|i: int| 0 <= i < count - 1 && registers(made.commands[j], #[trigger] pictures[i]);
                assert(registers(made.commands[j], pictures[i]));
            } else {
                assert(registers(made.commands[j], pictures[count - 1]));
            }
        }
        assert forall|i: int| 0 <= i < count implies project::registered(assets, (#[trigger] pictures[i]).asset_id)
            || made.registered.contains(pictures[i].asset_id) by {
            if i < count - 1 && before.registered.contains(pictures[i].asset_id) {
                let j = choose|j: int| 0 <= j < before.registered.len() && before.registered[j] == pictures[i].asset_id;
                assert(made.registered[j] == pictures[i].asset_id);
            }
        }
    }
}

/// Whether a command registers a picture: under its identity, in its length, as a frame of its size in
/// plain pixels.
pub open spec fn registers(command: CommandView, picture: BakedPicture) -> bool {
    command matches CommandView::RegisterAsset { asset } && {
        &&& asset.id == picture.asset_id
        &&& asset.byte_len == picture.byte_len
        &&& asset.kind == (project::KindView::Frame {
            size: picture.size,
            encoding: project::RasterEncoding::Rgba8,
        })
    }
}

spec fn registers_one(command: CommandView, pictures: Seq<BakedPicture>, count: int) -> bool {
    exists|i: int| 0 <= i < count && registers(command, #[trigger] pictures[i])
}

proof fn lemma_loop_clock(put: Seq<FrameView>, ids: Seq<FrameId>, pictures: Seq<BakedPicture>, duration_us: u64, k: int)
    requires
        0 <= k <= put.len(),
        put.len() == pictures.len(),
        0 < pictures.len(),
        forall|i: int|
            0 <= i < put.len() ==> loop_frame(
                ids[i],
                pictures[i],
                loop_share(i, pictures.len() as int, duration_us as int),
                #[trigger] put[i],
            ),
    ensures
        frames::clock(put, k) == loop_start(k, pictures.len() as int, duration_us as int),
    decreases k,
{
    if k > 0 {
        lemma_loop_clock(put, ids, pictures, duration_us, k - 1);
        let last = put[k - 1];
        assert(loop_frame(ids[k - 1], pictures[k - 1], loop_share(k - 1, pictures.len() as int, duration_us as int), last));
    } else {
        assert(0int * (duration_us as int) / (pictures.len() as int) == 0) by {
            assert(0int * (duration_us as int) == 0) by (nonlinear_arith);
            lemma_fundamental_div_mod_converse(0, pictures.len() as int, 0, 0);
        }
    }
}

/// A crossfade registers the pictures that are not known yet, each once, puts a new plain frame for each
/// picture behind the last frame, in order, and leaves every layer as it is. The frames begin when their
/// share of the duration begins, to the microsecond below, and together they take the duration.
pub proof fn law_a_crossfade_adds_a_frame_for_each_picture(
    commands: Seq<CommandView>,
    project: ManifestView,
    duration_us: u64,
    pictures: Seq<BakedPicture>,
    ids: Seq<FrameId>,
    k: int,
)
    requires
        is_loop_edit(commands, project, duration_us, pictures, ids),
        store_all(pictures, pictures.len() as int, project.assets) is Ok,
        0 < pictures.len(),
        0 <= k <= pictures.len(),
    ensures
        ({
            let layers = project.timeline.overlay_tracks;
            let at = commands.len() - layers.len() - 1;
            &&& 0 <= at <= pictures.len()
            &&& forall|j: int|
                0 <= j < at ==> exists|i: int|
                    0 <= i < pictures.len() && registers(#[trigger] commands[j], #[trigger] pictures[i])
            &&& forall|j: int|
                0 <= j < at ==> !project::registered(
                    project.assets,
                    (#[trigger] commands[j])->RegisterAsset_asset.id,
                )
            &&& forall|i: int|
                0 <= i < pictures.len() ==> project::registered(project.assets, (#[trigger] pictures[i]).asset_id)
                    || exists|j: int|
                    0 <= j < at && (#[trigger] commands[j]) is RegisterAsset && commands[j]->RegisterAsset_asset.id
                        == pictures[i].asset_id
            &&& commands[at] matches CommandView::InsertFrames { index, frames: put } && {
                &&& index == project.timeline.frames.len()
                &&& put.len() == pictures.len()
                &&& forall|i: int|
                    0 <= i < put.len() ==> {
                        &&& (#[trigger] put[i]).id == ids[i]
                        &&& put[i].asset_id == pictures[i].asset_id
                        &&& put[i].transform.crop is None && put[i].transform.output_size is None
                        &&& put[i].transform.quarter_turns == 0 && !put[i].transform.flip_horizontal
                            && !put[i].transform.flip_vertical
                        &&& put[i].capture_metadata.cursor_asset is None
                        &&& put[i].capture_metadata.recorded.len() == 0
                        &&& put[i].capture_clock is None
                        &&& put[i].capture_binding == CaptureBinding::ArchivedAfterComposite
                        &&& put[i].effects.len() == 0 && put[i].render_steps.len() == 0
                    }
                &&& frames::clock(put, k) * pictures.len() <= k * duration_us
                &&& k * duration_us < (frames::clock(put, k) + 1) * pictures.len()
                &&& frames::clock(put, put.len() as int) == duration_us
            }
            &&& forall|t: int|
                0 <= t < layers.len() ==> #[trigger] commands[at + 1 + t] == (CommandView::UpsertOverlayTrack {
                    track: layers[t],
                })
        }),
{
    let count = pictures.len() as int;
    let total = duration_us as int;
    let layers = project.timeline.overlay_tracks;
    let made = store_all(pictures, count, project.assets)->Ok_0;
    let put = choose|put: Seq<FrameView>|
        {
            &&& put.len() == pictures.len()
            &&& forall|i: int|
                0 <= i < put.len() ==> loop_frame(
                    ids[i],
                    pictures[i],
                    loop_share(i, pictures.len() as int, duration_us as int),
                    #[trigger] put[i],
                )
            &&& commands == made.commands + seq![#[trigger] inserted(project.timeline.frames.len() as int, put)]
                + layers_as_they_are(project.timeline)
        };
    let at = made.commands.len() as int;
    lemma_stored_pictures(pictures, count, project.assets);
    assert(commands.len() == at + 1 + layers.len());
    assert(commands[at] == inserted(project.timeline.frames.len() as int, put));
    assert forall|j: int| 0 <= j < at implies commands[j] == made.commands[j] by {}
    assert(at <= pictures.len()) by {
        lemma_no_more_than_pictures(pictures, count, project.assets);
    }
    assert forall|j: int| 0 <= j < at implies exists|i: int|
        0 <= i < pictures.len() && registers(#[trigger] commands[j], #[trigger] pictures[i]) by {
        assert(made.commands[j] == commands[j]);
        let i = choose|i: int| 0 <= i < count && registers(made.commands[j], #[trigger] pictures[i]);
        assert(registers(commands[j], pictures[i]));
    }
    assert forall|j: int| 0 <= j < at implies !project::registered(
        project.assets,
        (#[trigger] commands[j])->RegisterAsset_asset.id,
    ) by {
        assert(made.commands[j] == commands[j]);
        assert(!project::registered(project.assets, made.registered[j]));
    }
    assert forall|i: int| 0 <= i < pictures.len() implies project::registered(
        project.assets,
        (#[trigger] pictures[i]).asset_id,
    ) || exists|j: int|
        0 <= j < at && (#[trigger] commands[j]) is RegisterAsset && commands[j]->RegisterAsset_asset.id
            == pictures[i].asset_id by {
        if !project::registered(project.assets, pictures[i].asset_id) {
            let j = choose|j: int| 0 <= j < made.registered.len() && made.registered[j] == pictures[i].asset_id;
            assert(made.commands[j] == commands[j]);
            assert(commands[j] is RegisterAsset);
        }
    }
    assert forall|i: int| 0 <= i < put.len() implies (#[trigger] put[i]).id == ids[i] && put[i].asset_id
        == pictures[i].asset_id && put[i].capture_metadata == MetadataView::nothing() && put[i].transform
        == ClipTransform::identity() && put[i].effects.len() == 0 && put[i].render_steps.len() == 0 by {
        assert(loop_frame(ids[i], pictures[i], loop_share(i, count, total), put[i]));
    }
    lemma_loop_clock(put, ids, pictures, duration_us, k);
    lemma_loop_clock(put, ids, pictures, duration_us, count);
    let q = loop_start(k, count, total);
    lemma_fundamental_div_mod(k * total, count);
    let r = (k * total) % count;
    assert(q * count <= k * total < (q + 1) * count) by (nonlinear_arith)
        requires
            k * total == count * q + r,
            0 <= r < count,
    ;
    assert(loop_start(count, count, total) == total) by {
        assert(count * total == total * count + 0) by (nonlinear_arith);
        lemma_fundamental_div_mod_converse(count * total, count, total, 0);
    }
}

proof fn lemma_no_more_than_pictures(pictures: Seq<BakedPicture>, count: int, assets: Seq<DescriptorView>)
    requires
        0 <= count,
        store_all(pictures, count, assets) is Ok,
    ensures
        store_all(pictures, count, assets)->Ok_0.commands.len() <= count,
    decreases count,
{
    if count > 0 {
        lemma_no_more_than_pictures(pictures, count - 1, assets);
    }
}

/// A search looks at every frame behind those that are skipped, once each: from the last one back, or from
/// the first one on.
pub proof fn law_a_search_looks_at_every_frame(frame_count: int, skip_first: int, from_end: bool, at: int, examined: int)
    requires
        0 <= skip_first <= at < frame_count,
        0 <= examined < frame_count - skip_first,
    ensures
        search_index(frame_count, skip_first, from_end, 0) == (if from_end {
            frame_count - 1
        } else {
            skip_first
        }),
        examined + 1 < frame_count - skip_first ==> search_index(frame_count, skip_first, from_end, examined + 1)
            - search_index(frame_count, skip_first, from_end, examined) == (if from_end {
            -1int
        } else {
            1
        }),
        skip_first <= search_index(frame_count, skip_first, from_end, examined) < frame_count,
        exists|e: int|
            0 <= e < frame_count - skip_first && #[trigger] search_index(frame_count, skip_first, from_end, e) == at,
{
    let e = if from_end {
        frame_count - 1 - at
    } else {
        at - skip_first
    };
    assert(search_index(frame_count, skip_first, from_end, e) == at);
}

/// A search is accepted exactly where it skips some frames but not all, of at most 100,000, and asks for
/// a similarity of a tenth of a percent to the whole.
pub proof fn law_what_searches_are_accepted(frame_count: int, skip_first: int, similarity_tenths: int)
    requires
        0 <= skip_first,
    ensures
        search_refusal(frame_count, skip_first, similarity_tenths) is None <==> frame_count <= 100_000 && 0
            < skip_first < frame_count && 1 <= similarity_tenths <= 1_000,
{
}

/// A frame matches the first one where at least the asked share of its pixels, in tenths of a percent, is
/// equal; a picture matches itself whatever is asked.
pub proof fn law_a_match_is_a_share_of_all_pixels(reference: RgbaSurface, candidate: RgbaSurface, similarity_tenths: u16)
    requires
        reference.size.width > 0 && reference.size.height > 0,
    ensures
        matches_first(reference, candidate, similarity_tenths) <==> 1_000 * motion_pixels::equal_pixels(
            reference.pixels@,
            candidate.pixels@,
            reference.size.width * reference.size.height,
        ) >= similarity_tenths * (reference.size.width * reference.size.height),
{
    let all = reference.size.width * reference.size.height;
    assert(similarity_tenths * all == all * similarity_tenths) by (nonlinear_arith);
}

/// Looking at a frame counts it and changes nothing of what is asked for; what is found is the frame that
/// was looked at.
pub proof fn law_a_look_is_counted(search: SmoothLoopSearch, qualifies: bool)
    requires
        search.wf(),
        search.found is None,
        search.examined < search.frame_count - search.skip_first,
    ensures
        ({
            let after = search.stepped(qualifies);
            &&& after.examined == search.examined + 1
            &&& after.frame_count == search.frame_count && after.skip_first == search.skip_first
            &&& after.similarity_tenths == search.similarity_tenths && after.from_end == search.from_end
            &&& after.found is Some <==> qualifies
            &&& qualifies ==> after.found->0 == (if search.from_end {
                search.frame_count - 1 - search.examined
            } else {
                search.skip_first + search.examined
            })
            &&& search.total() == search.frame_count - search.skip_first
            &&& after.finished() <==> qualifies || after.examined == search.frame_count - search.skip_first
        }),
{
}

} // verus!
