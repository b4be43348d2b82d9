//! Publishing through Upload-Post: which profile a key posts as, and the
//! fields of the upload form. The requests are the application's.
use vstd::prelude::*;
use crate::text::{owned, push_str, str_eq, str_trim, trim};

verus! {

/// What the profile list says of one profile: its user name and whether a
/// YouTube account is connected to it.
pub struct ProfileSummary {
    pub username: String,
    pub youtube_connected: bool,
}

pub open spec fn usable(p: ProfileSummary) -> bool {
    trim(p.username@).len() > 0
}

/// The first usable profile connected to YouTube, if any.
pub open spec fn first_youtube(ps: Seq<ProfileSummary>) -> Option<Seq<char>>
    decreases ps.len(),
{
    if ps.len() == 0 {
        None
    } else if usable(ps[0]) && ps[0].youtube_connected {
        Some(ps[0].username@)
    } else {
        first_youtube(ps.drop_first())
    }
}

/// The first usable profile, if any.
pub open spec fn first_usable(ps: Seq<ProfileSummary>) -> Option<Seq<char>>
    decreases ps.len(),
{
    if ps.len() == 0 {
        None
    } else if usable(ps[0]) {
        Some(ps[0].username@)
    } else {
        first_usable(ps.drop_first())
    }
}

/// The profile a key posts as: the first usable one connected to YouTube,
/// else the first usable one; refused when there is none.
pub fn pick_profile(profiles: &Vec<ProfileSummary>) -> (r: Result<String, String>)
    ensures
        match r {
            Ok(u) => u@ == (match first_youtube(profiles@) { Some(y) => y, None => first_usable(profiles@).unwrap() })
                && first_usable(profiles@) is Some,
            Err(e) => e@ == "No Upload-Post profiles found for this key — create one at app.upload-post.com"@
                && first_usable(profiles@) is None,
        },
{
    let mut fallback: Option<String> = None;
    let mut i: usize = 0;
    assert(profiles@.skip(0) =~= profiles@);
    while i < profiles.len()
        invariant
            i <= profiles.len(),
            first_youtube(profiles@) == first_youtube(profiles@.skip(i as int)),
            match fallback {
                Some(f) => first_usable(profiles@) == Some(f@),
                None => first_usable(profiles@) == first_usable(profiles@.skip(i as int)),
            },
        decreases profiles.len() - i,
    {
        assert(profiles@.skip(i as int).drop_first() =~= profiles@.skip(i + 1));
        assert(profiles@.skip(i as int)[0] == profiles@[i as int]);
        let p = &profiles[i];
        let t = str_trim(p.username.as_str());
        if !t.as_str().is_empty() {
            if fallback.is_none() {
                fallback = Some(p.username.clone());
            }
            if p.youtube_connected {
                return Ok(p.username.clone());
            }
        }
        i += 1;
    }
    assert(profiles@.skip(i as int).len() == 0);
    match fallback {
        Some(f) => Ok(f),
        None => Err(owned("No Upload-Post profiles found for this key — create one at app.upload-post.com")),
    }
}

/// The platforms a video goes to: those asked for, or YouTube alone.
pub open spec fn targets_of(platforms: Seq<Seq<char>>) -> Seq<Seq<char>> {
    if platforms.len() == 0 { seq!["youtube"@] } else { platforms }
}

pub open spec fn field(name: Seq<char>, value: Seq<char>) -> (Seq<char>, Seq<char>) {
    (name, value)
}

/// The text fields of the upload form, in order: the profile, the title,
/// asynchronous public upload, one `platform[]` per target, then the fields
/// of YouTube, TikTok, Instagram and LinkedIn when they are targets.
pub open spec fn upload_fields_of(user: Seq<char>, title: Seq<char>, description: Seq<char>, targets: Seq<Seq<char>>) -> Seq<(Seq<char>, Seq<char>)> {
    seq![field("user"@, user), field("title"@, title), field("async_upload"@, "true"@), field("privacyStatus"@, "public"@)]
        + targets.map_values(|p: Seq<char>| field("platform[]"@, p))
        + (if targets.contains("youtube"@) {
            seq![field("youtube_title"@, title), field("youtube_description"@, description), field("containsSyntheticMedia"@, "true"@)]
        } else { seq![] })
        + (if targets.contains("tiktok"@) {
            seq![field("tiktok_title"@, title), field("description"@, description), field("is_aigc"@, "true"@)]
        } else { seq![] })
        + (if targets.contains("instagram"@) {
            seq![field("instagram_title"@, title), field("media_type"@, "REELS"@)]
        } else { seq![] })
        + (if targets.contains("linkedin"@) { seq![field("linkedin_title"@, title)] } else { seq![] })
}

pub open spec fn pairs_view(v: Seq<(String, String)>) -> Seq<(Seq<char>, Seq<char>)> {
    v.map_values(|p: (String, String)| (p.0@, p.1@))
}

fn pair(name: &str, value: &str) -> (r: (String, String))
    ensures
        r.0@ == name@,
        r.1@ == value@,
{
    (owned(name), owned(value))
}

fn has_target(targets: &Vec<String>, name: &str) -> (r: bool)
    ensures
        r == targets@.map_values(|s: String| s@).contains(name@),
{
    let ghost tv = targets@.map_values(|s: String| s@);
    let mut i: usize = 0;
    while i < targets.len()
        invariant
            i <= targets.len(),
            tv == targets@.map_values(|s: String| s@),
            forall|j: int| 0 <= j < i ==> tv[j] != name@,
        decreases targets.len() - i,
    {
        if str_eq(targets[i].as_str(), name) {
            assert(tv[i as int] == name@);
            return true;
        }
        i += 1;
    }
    false
}

/// The upload form's text fields for `platforms` (YouTube when none).
pub fn upload_fields(user: &str, title: &str, description: &str, platforms: &Vec<String>) -> (r: Vec<(String, String)>)
    ensures
        pairs_view(r@) == upload_fields_of(user@, title@, description@, targets_of(platforms@.map_values(|s: String| s@))),
{
    let mut targets: Vec<String> = Vec::new();
    if platforms.len() == 0 {
        targets.push(owned("youtube"));
        proof {
            reveal_strlit("youtube");
            assert(targets@.map_values(|s: String| s@) =~= targets_of(platforms@.map_values(|s: String| s@)));
        }
    } else {
        let mut i: usize = 0;
        while i < platforms.len()
            invariant
                i <= platforms.len(),
                targets.len() == i,
                forall|k: int| 0 <= k < i ==> #[trigger] targets@[k]@ == platforms@[k]@,
            decreases platforms.len() - i,
        {
            targets.push(platforms[i].clone());
            i += 1;
        }
        assert(targets@.map_values(|s: String| s@) =~= targets_of(platforms@.map_values(|s: String| s@)));
    }
    let ghost tv = targets@.map_values(|s: String| s@);
    let mut out: Vec<(String, String)> = Vec::new();
    out.push(pair("user", user));
    out.push(pair("title", title));
    out.push(pair("async_upload", "true"));
    out.push(pair("privacyStatus", "public"));
    let ghost head = pairs_view(out@);
    assert(head =~= seq![field("user"@, user@), field("title"@, title@), field("async_upload"@, "true"@), field("privacyStatus"@, "public"@)]);
    let mut k: usize = 0;
    while k < targets.len()
        invariant
            k <= targets.len(),
            tv == targets@.map_values(|s: String| s@),
            pairs_view(out@) == head + tv.take(k as int).map_values(|p: Seq<char>| field("platform[]"@, p)),
        decreases targets.len() - k,
    {
        let ghost before = out@;
        out.push(pair("platform[]", targets[k].as_str()));
        proof {
            assert(tv[k as int] == targets@[k as int]@);
            assert(tv.take(k + 1).map_values(|p: Seq<char>| field("platform[]"@, p))
                =~= tv.take(k as int).map_values(|p: Seq<char>| field("platform[]"@, p)).push(field("platform[]"@, tv[k as int])));
            assert(pairs_view(out@) =~= pairs_view(before).push(field("platform[]"@, tv[k as int])));
        }
        k += 1;
    }
    assert(tv.take(k as int) =~= tv);
    let ghost mid = pairs_view(out@);
    if has_target(&targets, "youtube") {
        out.push(pair("youtube_title", title));
        out.push(pair("youtube_description", description));
        out.push(pair("containsSyntheticMedia", "true"));
    }
    let ghost m1 = pairs_view(out@);
    assert(m1 =~= mid + (if tv.contains("youtube"@) {
        seq![field("youtube_title"@, title@), field("youtube_description"@, description@), field("containsSyntheticMedia"@, "true"@)]
    } else { seq![] }));
    if has_target(&targets, "tiktok") {
        out.push(pair("tiktok_title", title));
        out.push(pair("description", description));
        out.push(pair("is_aigc", "true"));
    }
    let ghost m2 = pairs_view(out@);
    assert(m2 =~= m1 + (if tv.contains("tiktok"@) {
        seq![field("tiktok_title"@, title@), field("description"@, description@), field("is_aigc"@, "true"@)]
    } else { seq![] }));
    if has_target(&targets, "instagram") {
        out.push(pair("instagram_title", title));
        out.push(pair("media_type", "REELS"));
    }
    let ghost m3 = pairs_view(out@);
    assert(m3 =~= m2 + (if tv.contains("instagram"@) {
        seq![field("instagram_title"@, title@), field("media_type"@, "REELS"@)]
    } else { seq![] }));
    if has_target(&targets, "linkedin") {
        out.push(pair("linkedin_title", title));
    }
    assert(pairs_view(out@) =~= m3 + (if tv.contains("linkedin"@) { seq![field("linkedin_title"@, title@)] } else { seq![] }));
    assert(mid =~= head + tv.map_values(|p: Seq<char>| field("platform[]"@, p)));
    assert(pairs_view(out@) =~= upload_fields_of(user@, title@, description@, tv));
    out
}

/// The `Authorization` header value for an Upload-Post key.
pub fn uploadpost_authorization(key: &str) -> (r: String)
    ensures
        r@ == "Apikey "@ + key@,
{
    let mut out = owned("Apikey ");
    push_str(&mut out, key);
    out
}

/// The profile picked is never a blank name, and it is a YouTube-connected
/// profile whenever the key has one.
pub proof fn lemma_pick_is_usable(ps: Seq<ProfileSummary>)
    ensures
        first_youtube(ps) matches Some(u) ==> trim(u).len() > 0,
        first_usable(ps) matches Some(u) ==> trim(u).len() > 0,
        first_youtube(ps) is Some ==> first_usable(ps) is Some,
    decreases ps.len(),
{
    if ps.len() > 0 {
        lemma_pick_is_usable(ps.drop_first());
    }
}

} // verus!
