use vstd::prelude::*;

use crate::models::{SpeakerInfo, StyleInfo};
use crate::vvm_manager::StyleMeta;

verus! {

/// Query of the speaker-info route.
pub struct SpeakerInfoGetQuery {
    pub speaker_uuid: String,
}

/// Assembles the speaker-info response from a speaker's styles and the
/// encoded assets read for them: one entry per style, pairing the style id
/// with its icon and voice samples, in style order.
pub fn build_speaker_info(
    policy: String,
    portrait: String,
    styles: &Vec<StyleMeta>,
    icons: &Vec<String>,
    voice_samples: &Vec<Vec<String>>,
) -> (r: SpeakerInfo)
    requires
        icons@.len() == styles@.len(),
        voice_samples@.len() == styles@.len(),
    ensures
        r.policy@ == policy@,
        r.portrait@ == portrait@,
        r.style_infos@.len() == styles@.len(),
        forall|i: int|
            0 <= i < styles@.len() ==> (#[trigger] r.style_infos@[i]).id == styles@[i].id as i64
                && r.style_infos@[i].icon@ == icons@[i]@ && r.style_infos@[i].portrait is None
                && r.style_infos@[i].voice_samples@ == voice_samples@[i]@,
{
    let mut style_infos: Vec<StyleInfo> = Vec::new();
    let mut i: usize = 0;
    while i < styles.len()
        invariant
            i <= styles@.len(),
            icons@.len() == styles@.len(),
            voice_samples@.len() == styles@.len(),
            style_infos@.len() == i,
            forall|j: int|
                0 <= j < i ==> (#[trigger] style_infos@[j]).id == styles@[j].id as i64
                    && style_infos@[j].icon@ == icons@[j]@ && style_infos@[j].portrait is None
                    && style_infos@[j].voice_samples@ == voice_samples@[j]@,
        decreases styles@.len() - i,
    {
        let samples = voice_samples[i].clone();
        proof {
            assert forall|m: int| 0 <= m < samples@.len() implies samples@[m]
                == voice_samples@[i as int]@[m] by {
                assert(cloned::<String>(voice_samples@[i as int][m], samples@[m]));
            }
            assert(samples@ =~= voice_samples@[i as int]@);
        }
        style_infos.push(
            StyleInfo {
                id: styles[i].id as i64,
                icon: icons[i].clone(),
                portrait: None,
                voice_samples: samples,
            },
        );
        i = i + 1;
    }
    SpeakerInfo { policy, portrait, style_infos }
}

} // verus!
