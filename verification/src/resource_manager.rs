use vstd::prelude::*;

use crate::result::CoreError;
use crate::vvm_manager::{SpeakerMeta, SpeakerView, StyleView, speaker_views};

verus! {

// The derived asset cache: one portrait per speaker and one icon per style,
// rendered once at startup and served read-only afterwards.  The core decides
// what to render — which speaker gets which palette colors, which style ids
// need icons — and keys the finished rasters; the rasterizing itself (fonts,
// pixels) happens at the startup edge and hands back encoded bytes.

/// A color, one byte per channel.
#[derive(Clone, Copy, Debug, PartialEq, Eq, Structural)]
pub struct Rgb {
    pub r: u8,
    pub g: u8,
    pub b: u8,
}

/// A speaker's palette entry: the border color and the background tint.
#[derive(Clone, Copy, Debug, PartialEq, Eq, Structural)]
pub struct SpeakerColor {
    pub color: Rgb,
    pub light_color: Rgb,
}

/// Everything the renderer needs for one speaker: the uuid the portrait will
/// be keyed by, the name drawn on it, the palette entry, and the style ids
/// that need icons.
pub struct RenderJob {
    pub speaker_uuid: String,
    pub name: String,
    pub color: SpeakerColor,
    pub style_ids: Vec<u32>,
}

/// The mathematical content of a render job.
pub ghost struct RenderJobView {
    pub speaker_uuid: Seq<char>,
    pub name: Seq<char>,
    pub color: SpeakerColor,
    pub style_ids: Seq<u32>,
}

impl View for RenderJob {
    type V = RenderJobView;

    open spec fn view(&self) -> RenderJobView {
        RenderJobView {
            speaker_uuid: self.speaker_uuid@,
            name: self.name@,
            color: self.color,
            style_ids: self.style_ids@,
        }
    }
}

/// The index of the first palette entry for a speaker name, or -1 if none.
pub open spec fn palette_index(palette: Seq<(String, SpeakerColor)>, name: Seq<char>) -> int
    decreases palette.len(),
{
    if palette.len() == 0 {
        -1
    } else if palette.first().0@ == name {
        0
    } else if palette_index(palette.drop_first(), name) == -1 {
        -1
    } else {
        palette_index(palette.drop_first(), name) + 1
    }
}

/// What `palette_index` finds: -1 means no entry carries the name; otherwise
/// it is the first index carrying it.
pub proof fn lemma_palette_index(palette: Seq<(String, SpeakerColor)>, name: Seq<char>)
    ensures
        palette_index(palette, name) == -1 ==> forall|i: int|
            0 <= i < palette.len() ==> palette[i].0@ != name,
        palette_index(palette, name) != -1 ==> 0 <= palette_index(palette, name) < palette.len()
            && palette[palette_index(palette, name)].0@ == name,
    decreases palette.len(),
{
    if palette.len() > 0 {
        lemma_palette_index(palette.drop_first(), name);
        assert(forall|i: int|
            0 <= i < palette.len() - 1 ==> palette.drop_first()[i] == palette[i + 1]);
        let rd = palette_index(palette.drop_first(), name);
        if palette.first().0@ != name && rd == -1 {
            assert forall|i: int| 0 <= i < palette.len() implies palette[i].0@ != name by {
                if i > 0 {
                    assert(palette.drop_first()[i - 1] == palette[i]);
                }
            }
        }
    }
}

/// The first palette index carrying a name determines `palette_index`.
pub proof fn lemma_palette_index_at(palette: Seq<(String, SpeakerColor)>, name: Seq<char>, i: int)
    requires
        0 <= i < palette.len(),
        palette[i].0@ == name,
        forall|j: int| 0 <= j < i ==> palette[j].0@ != name,
    ensures
        palette_index(palette, name) == i,
    decreases palette.len(),
{
    if i > 0 {
        assert(forall|j: int|
            0 <= j < palette.len() - 1 ==> palette.drop_first()[j] == palette[j + 1]);
        lemma_palette_index_at(palette.drop_first(), name, i - 1);
    }
}

/// Whether a render job describes a speaker under a palette: same uuid and
/// name, the speaker's first palette entry, and one icon per style in order.
pub open spec fn job_for(
    job: RenderJobView,
    sp: SpeakerView,
    palette: Seq<(String, SpeakerColor)>,
) -> bool {
    &&& job.speaker_uuid == sp.speaker_uuid
    &&& job.name == sp.name
    &&& palette_index(palette, sp.name) >= 0
    &&& job.color == palette[palette_index(palette, sp.name)].1
    &&& job.style_ids == sp.styles.map_values(|s: StyleView| s.id)
}

/// Plans the startup render: one job per catalog speaker, in catalog order,
/// each with its palette entry.  Fails with `PaletteMissing`, planning
/// nothing, exactly when some speaker's name has no palette entry.
pub fn render_jobs(speakers: &Vec<SpeakerMeta>, palette: &Vec<(String, SpeakerColor)>) -> (r:
    Result<Vec<RenderJob>, CoreError>)
    ensures
        match r {
            Ok(jobs) => jobs@.len() == speakers@.len() && forall|i: int|
                0 <= i < jobs@.len() ==> job_for(
                    (#[trigger] jobs@[i])@,
                    speaker_views(speakers@)[i],
                    palette@,
                ),
            Err(e) => e == CoreError::PaletteMissing && exists|i: int|
                0 <= i < speakers@.len() && palette_index(
                    palette@,
                    speaker_views(speakers@)[i].name,
                ) == -1,
        },
{
    let mut jobs: Vec<RenderJob> = Vec::new();
    let mut i: usize = 0;
    while i < speakers.len()
        invariant
            i <= speakers@.len(),
            jobs@.len() == i,
            forall|j: int|
                0 <= j < i ==> job_for(
                    (#[trigger] jobs@[j])@,
                    speaker_views(speakers@)[j],
                    palette@,
                ),
        decreases speakers@.len() - i,
    {
        let speaker = &speakers[i];
        match find_palette_index(palette, &speaker.name) {
            None => {
                proof {
                    lemma_palette_index(palette@, speaker.name@);
                    if palette_index(palette@, speaker.name@) != -1 {
                        let w = palette_index(palette@, speaker.name@);
                        assert(palette@[w].0@ != speaker.name@);
                    }
                    assert(speaker_views(speakers@)[i as int].name == speaker.name@);
                }
                return Err(CoreError::PaletteMissing);
            },
            Some(p) => {
                proof {
                    lemma_palette_index_at(palette@, speaker.name@, p as int);
                }
                let mut style_ids: Vec<u32> = Vec::new();
                let mut j: usize = 0;
                while j < speaker.styles.len()
                    invariant
                        j <= speaker.styles@.len(),
                        style_ids@.len() == j,
                        forall|m: int| 0 <= m < j ==> style_ids@[m] == speaker.styles@[m].id,
                    decreases speaker.styles@.len() - j,
                {
                    style_ids.push(speaker.styles[j].id);
                    j = j + 1;
                }
                proof {
                    assert(style_ids@ =~= speaker_views(speakers@)[i as int].styles.map_values(
                        |s: StyleView| s.id,
                    ));
                }
                jobs.push(
                    RenderJob {
                        speaker_uuid: speaker.speaker_uuid.clone(),
                        name: speaker.name.clone(),
                        color: palette[p].1,
                        style_ids,
                    },
                );
                proof {
                    assert(job_for(
                        jobs@[i as int]@,
                        speaker_views(speakers@)[i as int],
                        palette@,
                    ));
                }
            },
        }
        i = i + 1;
    }
    Ok(jobs)
}

/// The first palette index carrying a name.
fn find_palette_index(palette: &Vec<(String, SpeakerColor)>, name: &String) -> (r: Option<usize>)
    ensures
        match r {
            Some(i) => i < palette@.len() && palette@[i as int].0@ == name@ && forall|j: int|
                0 <= j < i ==> palette@[j].0@ != name@,
            None => forall|j: int| 0 <= j < palette@.len() ==> palette@[j].0@ != name@,
        },
{
    let mut i: usize = 0;
    while i < palette.len()
        invariant
            i <= palette@.len(),
            forall|j: int| 0 <= j < i ==> palette@[j].0@ != name@,
        decreases palette@.len() - i,
    {
        if palette[i].0.eq(name) {
            return Some(i);
        }
        i = i + 1;
    }
    None
}

/// The portrait map that a rendered pair sequence stands for; on a repeated
/// uuid the later raster wins.
pub open spec fn portrait_map(pairs: Seq<(String, Vec<u8>)>) -> Map<Seq<char>, Seq<u8>>
    decreases pairs.len(),
{
    if pairs.len() == 0 {
        Map::empty()
    } else {
        portrait_map(pairs.drop_last()).insert(pairs.last().0@, pairs.last().1@)
    }
}

/// The icon map that a rendered pair sequence stands for; on a repeated style
/// id the later raster wins.
pub open spec fn icon_map(pairs: Seq<(u32, Vec<u8>)>) -> Map<u32, Seq<u8>>
    decreases pairs.len(),
{
    if pairs.len() == 0 {
        Map::empty()
    } else {
        icon_map(pairs.drop_last()).insert(pairs.last().0, pairs.last().1@)
    }
}

/// A uuid is a key of the portrait map exactly when some pair holds it.
pub proof fn lemma_portrait_map_contains(pairs: Seq<(String, Vec<u8>)>, u: Seq<char>)
    ensures
        portrait_map(pairs).contains_key(u) <==> exists|i: int|
            0 <= i < pairs.len() && pairs[i].0@ == u,
    decreases pairs.len(),
{
    if pairs.len() > 0 {
        lemma_portrait_map_contains(pairs.drop_last(), u);
        if pairs.last().0@ == u {
            assert(pairs[pairs.len() - 1].0@ == u);
        } else if portrait_map(pairs).contains_key(u) {
            let i = choose|i: int| 0 <= i < pairs.len() - 1 && pairs.drop_last()[i].0@ == u;
            assert(pairs[i].0@ == u);
        } else if exists|i: int| 0 <= i < pairs.len() && pairs[i].0@ == u {
            let i = choose|i: int| 0 <= i < pairs.len() && pairs[i].0@ == u;
            assert(pairs.drop_last()[i].0@ == u);
        }
    }
}

/// Every value of the portrait map is the raster of some pair.
pub proof fn lemma_portrait_map_values(pairs: Seq<(String, Vec<u8>)>, u: Seq<char>)
    requires
        portrait_map(pairs).contains_key(u),
    ensures
        exists|i: int|
            0 <= i < pairs.len() && pairs[i].0@ == u && portrait_map(pairs)[u] == pairs[i].1@,
    decreases pairs.len(),
{
    if pairs.len() > 0 {
        if pairs.last().0@ == u {
            assert(pairs[pairs.len() - 1].0@ == u && portrait_map(pairs)[u] == pairs[pairs.len()
                - 1].1@);
        } else {
            lemma_portrait_map_contains(pairs.drop_last(), u);
            lemma_portrait_map_values(pairs.drop_last(), u);
            let i = choose|i: int|
                0 <= i < pairs.len() - 1 && pairs.drop_last()[i].0@ == u && portrait_map(
                    pairs.drop_last(),
                )[u] == pairs.drop_last()[i].1@;
            assert(pairs[i].0@ == u && portrait_map(pairs)[u] == pairs[i].1@);
        }
    }
}

/// The last pair holding a uuid gives the portrait map's value for it.
pub proof fn lemma_portrait_map_last(pairs: Seq<(String, Vec<u8>)>, i: int)
    requires
        0 <= i < pairs.len(),
        forall|j: int| i < j < pairs.len() ==> pairs[j].0@ != pairs[i].0@,
    ensures
        portrait_map(pairs).contains_key(pairs[i].0@),
        portrait_map(pairs)[pairs[i].0@] == pairs[i].1@,
    decreases pairs.len(),
{
    if i < pairs.len() - 1 {
        assert(forall|j: int|
            i < j < pairs.len() - 1 ==> pairs.drop_last()[j].0@ != pairs.drop_last()[i].0@);
        lemma_portrait_map_last(pairs.drop_last(), i);
        assert(pairs.last().0@ != pairs[i].0@);
    }
}

/// The last pair holding a style id gives the icon map's value for it.
pub proof fn lemma_icon_map_last(pairs: Seq<(u32, Vec<u8>)>, i: int)
    requires
        0 <= i < pairs.len(),
        forall|j: int| i < j < pairs.len() ==> pairs[j].0 != pairs[i].0,
    ensures
        icon_map(pairs).contains_key(pairs[i].0),
        icon_map(pairs)[pairs[i].0] == pairs[i].1@,
    decreases pairs.len(),
{
    if i < pairs.len() - 1 {
        assert(forall|j: int|
            i < j < pairs.len() - 1 ==> pairs.drop_last()[j].0 != pairs.drop_last()[i].0);
        lemma_icon_map_last(pairs.drop_last(), i);
        assert(pairs.last().0 != pairs[i].0);
    }
}

/// A style id is a key of the icon map exactly when some pair holds it.
pub proof fn lemma_icon_map_contains(pairs: Seq<(u32, Vec<u8>)>, id: u32)
    ensures
        icon_map(pairs).contains_key(id) <==> exists|i: int|
            0 <= i < pairs.len() && pairs[i].0 == id,
    decreases pairs.len(),
{
    if pairs.len() > 0 {
        lemma_icon_map_contains(pairs.drop_last(), id);
        if pairs.last().0 == id {
            assert(pairs[pairs.len() - 1].0 == id);
        } else if icon_map(pairs).contains_key(id) {
            let i = choose|i: int| 0 <= i < pairs.len() - 1 && pairs.drop_last()[i].0 == id;
            assert(pairs[i].0 == id);
        } else if exists|i: int| 0 <= i < pairs.len() && pairs[i].0 == id {
            let i = choose|i: int| 0 <= i < pairs.len() && pairs[i].0 == id;
            assert(pairs.drop_last()[i].0 == id);
        }
    }
}

/// The view of the asset cache: the keyed rasters.
pub ghost struct CacheView {
    pub portraits: Map<Seq<char>, Seq<u8>>,
    pub icons: Map<u32, Seq<u8>>,
}

/// The derived asset cache, immutable once built.
pub struct ResourceManager {
    portrait_images: Vec<(String, Vec<u8>)>,
    style_icons: Vec<(u32, Vec<u8>)>,
}

impl View for ResourceManager {
    type V = CacheView;

    closed spec fn view(&self) -> CacheView {
        CacheView {
            portraits: portrait_map(self.portrait_images@),
            icons: icon_map(self.style_icons@),
        }
    }
}

impl ResourceManager {
    /// Caches the rendered assets: the portrait rasters keyed by speaker
    /// uuid and the icon rasters keyed by style id.
    pub fn new(portraits: Vec<(String, Vec<u8>)>, icons: Vec<(u32, Vec<u8>)>) -> (r:
        ResourceManager)
        ensures
            r@.portraits == portrait_map(portraits@),
            r@.icons == icon_map(icons@),
    {
        ResourceManager { portrait_images: portraits, style_icons: icons }
    }

    /// The portrait raster of a speaker, if one was rendered.
    pub fn portrait_image(&self, speaker_uuid: &str) -> (r: Option<&Vec<u8>>)
        ensures
            match r {
                Some(v) => self@.portraits.contains_key(speaker_uuid@) && v@
                    == self@.portraits[speaker_uuid@],
                None => !self@.portraits.contains_key(speaker_uuid@),
            },
    {
        let mut i: usize = self.portrait_images.len();
        while i > 0
            invariant
                i <= self.portrait_images@.len(),
                forall|j: int|
                    i <= j < self.portrait_images@.len() ==> self.portrait_images@[j].0@
                        != speaker_uuid@,
            decreases i,
        {
            i = i - 1;
            if crate::vvm_manager::str_equal(self.portrait_images[i].0.as_str(), speaker_uuid) {
                proof {
                    lemma_portrait_map_last(self.portrait_images@, i as int);
                }
                return Some(&self.portrait_images[i].1);
            }
        }
        proof {
            lemma_portrait_map_contains(self.portrait_images@, speaker_uuid@);
        }
        None
    }

    /// The icon raster of a style, if one was rendered.
    pub fn style_icon(&self, style_id: u32) -> (r: Option<&Vec<u8>>)
        ensures
            match r {
                Some(v) => self@.icons.contains_key(style_id) && v@ == self@.icons[style_id],
                None => !self@.icons.contains_key(style_id),
            },
    {
        let mut i: usize = self.style_icons.len();
        while i > 0
            invariant
                i <= self.style_icons@.len(),
                forall|j: int|
                    i <= j < self.style_icons@.len() ==> self.style_icons@[j].0 != style_id,
            decreases i,
        {
            i = i - 1;
            if self.style_icons[i].0 == style_id {
                proof {
                    lemma_icon_map_last(self.style_icons@, i as int);
                }
                return Some(&self.style_icons[i].1);
            }
        }
        proof {
            lemma_icon_map_contains(self.style_icons@, style_id);
        }
        None
    }
}

/// Law: a cache built from one non-empty portrait per catalog speaker serves
/// a non-empty portrait for every speaker uuid of the catalog, and none for a
/// uuid outside it.
pub proof fn lemma_portrait_coverage(sps: Seq<SpeakerView>, portraits: Seq<(String, Vec<u8>)>)
    requires
        portraits.len() == sps.len(),
        forall|i: int| 0 <= i < sps.len() ==> (#[trigger] portraits[i].0)@ == sps[i].speaker_uuid,
        forall|i: int| 0 <= i < sps.len() ==> (#[trigger] portraits[i].1)@.len() > 0,
    ensures
        forall|u: Seq<char>|
            (exists|i: int| 0 <= i < sps.len() && (#[trigger] sps[i]).speaker_uuid == u) ==> (
            portrait_map(portraits).contains_key(u) && portrait_map(portraits)[u].len() > 0),
        forall|u: Seq<char>|
            !(exists|i: int| 0 <= i < sps.len() && (#[trigger] sps[i]).speaker_uuid == u)
                ==> !portrait_map(portraits).contains_key(u),
{
    assert forall|u: Seq<char>|
        (exists|i: int| 0 <= i < sps.len() && (#[trigger] sps[i]).speaker_uuid == u) implies (
    portrait_map(portraits).contains_key(u) && portrait_map(portraits)[u].len() > 0) by {
        let i = choose|i: int| 0 <= i < sps.len() && sps[i].speaker_uuid == u;
        lemma_portrait_map_contains(portraits, u);
        assert(portraits[i].0@ == u);
        lemma_portrait_map_values(portraits, u);
        let m = choose|m: int|
            0 <= m < portraits.len() && portraits[m].0@ == u && portrait_map(portraits)[u]
                == portraits[m].1@;
        assert(portraits[m].1@.len() > 0);
    }
    assert forall|u: Seq<char>|
        !(exists|i: int| 0 <= i < sps.len() && (#[trigger] sps[i]).speaker_uuid == u)
            implies !portrait_map(portraits).contains_key(u) by {
        lemma_portrait_map_contains(portraits, u);
        if portrait_map(portraits).contains_key(u) {
            let i = choose|i: int| 0 <= i < portraits.len() && portraits[i].0@ == u;
            assert(sps[i].speaker_uuid == u);
        }
    }
}

} // verus!
