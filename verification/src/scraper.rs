//! Where the studio's stock media comes from: which providers are tried, in
//! which order, what is asked of each, and where the file is kept. The
//! downloads and the Pinterest script run in the application.
use vstd::prelude::*;
use crate::text::{owned, push_str, str_eq, str_replace, replace_all};

verus! {

/// The studio's media fetcher: a download folder and the stock APIs' keys.
pub struct StudioScraper {
    pub download_dir: String,
    pub pexels_key: String,
    pub pixabay_key: String,
}

/// A source of stock media.
#[derive(PartialEq, Eq, Structural, Clone, Copy, Debug)]
pub enum MediaProvider {
    Pexels,
    Pixabay,
    Pinterest,
}

/// The providers tried for a `source`, in order: `pinterest` asks Pinterest
/// alone; `stock_api` asks Pexels then Pixabay, each only when its key is set;
/// anything else asks those two the same way and then Pinterest.
pub open spec fn provider_order(source: Seq<char>, has_pexels: bool, has_pixabay: bool) -> Seq<MediaProvider> {
    let stock = (if has_pexels { seq![MediaProvider::Pexels] } else { Seq::empty() })
        + (if has_pixabay { seq![MediaProvider::Pixabay] } else { Seq::empty() });
    if source == "pinterest"@ {
        seq![MediaProvider::Pinterest]
    } else if source == "stock_api"@ {
        stock
    } else {
        stock.push(MediaProvider::Pinterest)
    }
}

impl StudioScraper {
    pub fn new(download_dir: String, pexels_key: String, pixabay_key: String) -> (r: Self)
        ensures
            r.download_dir@ == download_dir@,
            r.pexels_key@ == pexels_key@,
            r.pixabay_key@ == pixabay_key@,
    {
        StudioScraper { download_dir, pexels_key, pixabay_key }
    }

    /// The providers to try for `source`, in order; when all of them fail the
    /// fetch fails.
    pub fn fetch_order(&self, source: &str) -> (r: Vec<MediaProvider>)
        ensures
            r@ == provider_order(source@, self.pexels_key@.len() > 0, self.pixabay_key@.len() > 0),
    {
        let mut out: Vec<MediaProvider> = Vec::new();
        if str_eq(source, "pinterest") {
            out.push(MediaProvider::Pinterest);
            assert(out@ =~= provider_order(source@, self.pexels_key@.len() > 0, self.pixabay_key@.len() > 0));
            return out;
        }
        if !self.pexels_key.as_str().is_empty() {
            out.push(MediaProvider::Pexels);
        }
        if !self.pixabay_key.as_str().is_empty() {
            out.push(MediaProvider::Pixabay);
        }
        if !str_eq(source, "stock_api") {
            out.push(MediaProvider::Pinterest);
        }
        assert(out@ =~= provider_order(source@, self.pexels_key@.len() > 0, self.pixabay_key@.len() > 0));
        out
    }

    /// The search request sent to a stock API for `keyword` (Pinterest has
    /// none: a script is run for it).
    pub fn search_url(&self, provider: MediaProvider, keyword: &str, is_video: bool) -> (r: Option<String>)
        ensures
            match r {
                Some(u) => u@ == search_request(provider, keyword@, is_video, self.pixabay_key@),
                None => provider == MediaProvider::Pinterest,
            },
    {
        match provider {
            MediaProvider::Pexels => {
                let mut out = if is_video {
                    owned("https://api.pexels.com/videos/search?query=")
                } else {
                    owned("https://api.pexels.com/v1/search?query=")
                };
                push_str(&mut out, keyword);
                push_str(&mut out, "&per_page=1");
                Some(out)
            },
            MediaProvider::Pixabay => {
                let mut out = if is_video {
                    owned("https://pixabay.com/api/videos/?key=")
                } else {
                    owned("https://pixabay.com/api/?key=")
                };
                push_str(&mut out, self.pixabay_key.as_str());
                push_str(&mut out, "&q=");
                push_str(&mut out, keyword);
                push_str(&mut out, "&per_page=3");
                Some(out)
            },
            MediaProvider::Pinterest => None,
        }
    }
}

pub open spec fn search_request(provider: MediaProvider, keyword: Seq<char>, is_video: bool, pixabay_key: Seq<char>) -> Seq<char> {
    match provider {
        MediaProvider::Pexels => (if is_video { "https://api.pexels.com/videos/search?query="@ } else { "https://api.pexels.com/v1/search?query="@ })
            + keyword + "&per_page=1"@,
        MediaProvider::Pixabay => (if is_video { "https://pixabay.com/api/videos/?key="@ } else { "https://pixabay.com/api/?key="@ })
            + pixabay_key + "&q="@ + keyword + "&per_page=3"@,
        MediaProvider::Pinterest => seq![],
    }
}

/// The JSON pointer of the media link in a stock API's answer.
pub open spec fn media_pointer_of(provider: MediaProvider, is_video: bool) -> Seq<char> {
    match provider {
        MediaProvider::Pexels => if is_video { "/videos/0/video_files/0/link"@ } else { "/photos/0/src/large2x"@ },
        MediaProvider::Pixabay => if is_video { "/hits/0/videos/medium/url"@ } else { "/hits/0/largeImageURL"@ },
        MediaProvider::Pinterest => seq![],
    }
}

pub fn media_pointer(provider: MediaProvider, is_video: bool) -> (r: String)
    ensures
        r@ == media_pointer_of(provider, is_video),
{
    proof {
        reveal_strlit("");
    }
    match provider {
        MediaProvider::Pexels => if is_video { owned("/videos/0/video_files/0/link") } else { owned("/photos/0/src/large2x") },
        MediaProvider::Pixabay => if is_video { owned("/hits/0/videos/medium/url") } else { owned("/hits/0/largeImageURL") },
        MediaProvider::Pinterest => owned(""),
    }
}

/// The folder a keyword's media is kept in: the keyword with its spaces
/// turned into underscores.
pub fn keyword_folder(keyword: &str) -> (r: String)
    ensures
        r@ == replace_all(keyword@, " "@, "_"@),
{
    proof {
        reveal_strlit(" ");
    }
    str_replace(keyword, " ", "_")
}

/// The name the fetched file is kept under.
pub open spec fn media_file_of(is_video: bool) -> Seq<char> {
    if is_video { "clip.mp4"@ } else { "photo.jpg"@ }
}

pub fn media_file_name(is_video: bool) -> (r: String)
    ensures
        r@ == media_file_of(is_video),
{
    if is_video { owned("clip.mp4") } else { owned("photo.jpg") }
}

/// The media kind named to the Pinterest script.
pub fn pinterest_media_type(is_video: bool) -> (r: String)
    ensures
        r@ == (if is_video { "video"@ } else { "photo"@ }),
{
    if is_video { owned("video") } else { owned("photo") }
}

} // verus!
