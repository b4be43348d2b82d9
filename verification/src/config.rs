//! The API server's configuration, read from environment variables.
use vstd::prelude::*;
use crate::text::{owned, parse_unsigned, parse_unsigned_str, split_char, split_on, string_of, trim, trim_chars, chars_of};

verus! {

/// The server settings. Optional settings hold `None` when their variable is
/// unset or empty.
#[derive(Clone, Debug)]
pub struct Config {
    pub database_url: String,
    pub cors_origins: Vec<String>,
    pub output_dir: String,
    pub temp_dir: String,
    pub max_video_upload_bytes: u64,
    pub gemini_api_key: String,
    pub deepgram_api_key: String,
    pub gemini_model: String,
    pub pexels_api_key: Option<String>,
    pub pixabay_api_key: Option<String>,
    pub spaces_endpoint: Option<String>,
    pub spaces_key: Option<String>,
    pub spaces_secret: Option<String>,
    pub spaces_bucket: Option<String>,
    pub spaces_public_url: Option<String>,
    pub max_concurrent_jobs: usize,
    pub job_timeout_seconds: u64,
}

/// The value of variable `key` among the environment's `(name, value)` pairs
/// (the first pair with that name), or none.
pub open spec fn env_get(vars: Seq<(Seq<char>, Seq<char>)>, key: Seq<char>) -> Option<Seq<char>>
    decreases vars.len(),
{
    if vars.len() == 0 {
        None
    } else if vars[0].0 == key {
        Some(vars[0].1)
    } else {
        env_get(vars.drop_first(), key)
    }
}

pub open spec fn vars_view(vars: Seq<(String, String)>) -> Seq<(Seq<char>, Seq<char>)> {
    vars.map_values(|p: (String, String)| (p.0@, p.1@))
}

/// A variable's value, or `default` when it is unset.
pub open spec fn var_or(vars: Seq<(Seq<char>, Seq<char>)>, key: Seq<char>, default: Seq<char>) -> Seq<char> {
    match env_get(vars, key) { Some(v) => v, None => default }
}

/// A variable's value when it is set and not empty.
pub open spec fn var_nonempty(vars: Seq<(Seq<char>, Seq<char>)>, key: Seq<char>) -> Option<Seq<char>> {
    match env_get(vars, key) { Some(v) if v.len() > 0 => Some(v), _ => None }
}

/// A variable read as an unsigned number no larger than `max`, or `default`
/// when it is unset or does not parse.
pub open spec fn var_number(vars: Seq<(Seq<char>, Seq<char>)>, key: Seq<char>, max: nat, default: nat) -> nat {
    match env_get(vars, key) {
        Some(v) => match parse_unsigned(v, max) { Some(n) => n, None => default },
        None => default,
    }
}

/// The allowed origins: the list split at commas, each piece trimmed.
pub open spec fn origins_of(list: Seq<char>) -> Seq<Seq<char>> {
    split_char(list, ',').map_values(|p: Seq<char>| trim(p))
}

pub open spec fn opt_view(o: Option<String>) -> Option<Seq<char>> {
    match o { Some(s) => Some(s@), None => None }
}

impl Config {
    /// The configuration the environment `vars` describes.
    pub open spec fn described_by(self, vars: Seq<(Seq<char>, Seq<char>)>) -> bool {
        &&& self.database_url@ == var_or(vars, "DATABASE_URL"@, "sqlite://novaclip.db"@)
        &&& self.cors_origins@.map_values(|s: String| s@) == origins_of(var_or(vars, "CORS_ORIGINS"@, "http://localhost:5173,http://localhost:3000"@))
        &&& self.output_dir@ == var_or(vars, "OUTPUT_DIR"@, "outputs"@)
        &&& self.temp_dir@ == var_or(vars, "TEMP_DIR"@, "temp"@)
        &&& self.max_video_upload_bytes == var_number(vars, "MAX_VIDEO_UPLOAD_BYTES"@, u64::MAX as nat, 1_000_000_000)
        &&& self.gemini_api_key@ == var_or(vars, "GEMINI_API_KEY"@, ""@)
        &&& self.deepgram_api_key@ == var_or(vars, "DEEPGRAM_API_KEY"@, ""@)
        &&& self.gemini_model@ == var_or(vars, "GEMINI_MODEL"@, "gemini-3.1-flash-lite"@)
        &&& opt_view(self.pexels_api_key) == var_nonempty(vars, "PEXELS_API_KEY"@)
        &&& opt_view(self.pixabay_api_key) == var_nonempty(vars, "PIXABAY_API_KEY"@)
        &&& opt_view(self.spaces_endpoint) == var_nonempty(vars, "SPACES_ENDPOINT"@)
        &&& opt_view(self.spaces_key) == var_nonempty(vars, "SPACES_KEY"@)
        &&& opt_view(self.spaces_secret) == var_nonempty(vars, "SPACES_SECRET"@)
        &&& opt_view(self.spaces_bucket) == var_nonempty(vars, "SPACES_BUCKET_NAME"@)
        &&& opt_view(self.spaces_public_url) == var_nonempty(vars, "SPACES_PUBLIC_URL"@)
        &&& self.max_concurrent_jobs == var_number(vars, "MAX_CONCURRENT_JOBS"@, usize::MAX as nat, 4)
        &&& self.job_timeout_seconds == var_number(vars, "JOB_TIMEOUT_SECONDS"@, u64::MAX as nat, 10800)
    }

    /// Reads the configuration from the environment's `(name, value)` pairs;
    /// every setting has a default, so this never fails.
    pub fn from_vars(vars: &Vec<(String, String)>) -> (c: Config)
        ensures
            c.described_by(vars_view(vars@)),
    {
        let cors = var_or_default(vars, "CORS_ORIGINS", "http://localhost:5173,http://localhost:3000");
        let c = Config {
            database_url: var_or_default(vars, "DATABASE_URL", "sqlite://novaclip.db"),
            cors_origins: split_origins(cors.as_str()),
            output_dir: var_or_default(vars, "OUTPUT_DIR", "outputs"),
            temp_dir: var_or_default(vars, "TEMP_DIR", "temp"),
            max_video_upload_bytes: var_u64(vars, "MAX_VIDEO_UPLOAD_BYTES", u64::MAX, 1_000_000_000),
            gemini_api_key: var_or_default(vars, "GEMINI_API_KEY", ""),
            deepgram_api_key: var_or_default(vars, "DEEPGRAM_API_KEY", ""),
            gemini_model: var_or_default(vars, "GEMINI_MODEL", "gemini-3.1-flash-lite"),
            pexels_api_key: var_if_set(vars, "PEXELS_API_KEY"),
            pixabay_api_key: var_if_set(vars, "PIXABAY_API_KEY"),
            spaces_endpoint: var_if_set(vars, "SPACES_ENDPOINT"),
            spaces_key: var_if_set(vars, "SPACES_KEY"),
            spaces_secret: var_if_set(vars, "SPACES_SECRET"),
            spaces_bucket: var_if_set(vars, "SPACES_BUCKET_NAME"),
            spaces_public_url: var_if_set(vars, "SPACES_PUBLIC_URL"),
            max_concurrent_jobs: var_u64(vars, "MAX_CONCURRENT_JOBS", usize::MAX as u64, 4) as usize,
            job_timeout_seconds: var_u64(vars, "JOB_TIMEOUT_SECONDS", u64::MAX, 10800),
        };
        c
    }
}

/// Looks a variable up among the pairs.
pub fn lookup_var(vars: &Vec<(String, String)>, key: &str) -> (r: Option<String>)
    ensures
        opt_view(r) == env_get(vars_view(vars@), key@),
{
    let ghost vv = vars_view(vars@);
    assert(vv.skip(0) =~= vv);
    let mut i: usize = 0;
    while i < vars.len()
        invariant
            i <= vars.len(),
            vv == vars_view(vars@),
            env_get(vv, key@) == env_get(vv.skip(i as int), key@),
        decreases vars.len() - i,
    {
        assert(vv.skip(i as int).drop_first() =~= vv.skip(i + 1));
        if crate::text::str_eq(vars[i].0.as_str(), key) {
            return Some(vars[i].1.clone());
        }
        i += 1;
    }
    assert(vv.skip(i as int).len() == 0);
    None
}

fn var_or_default(vars: &Vec<(String, String)>, key: &str, default: &str) -> (r: String)
    ensures
        r@ == var_or(vars_view(vars@), key@, default@),
{
    match lookup_var(vars, key) {
        Some(v) => v,
        None => owned(default),
    }
}

fn var_if_set(vars: &Vec<(String, String)>, key: &str) -> (r: Option<String>)
    ensures
        opt_view(r) == var_nonempty(vars_view(vars@), key@),
{
    match lookup_var(vars, key) {
        Some(v) => if v.as_str().is_empty() { None } else { Some(v) },
        None => None,
    }
}

fn var_u64(vars: &Vec<(String, String)>, key: &str, max: u64, default: u64) -> (r: u64)
    requires
        default <= max,
    ensures
        r == var_number(vars_view(vars@), key@, max as nat, default as nat),
        r <= max,
{
    match lookup_var(vars, key) {
        Some(v) => match parse_unsigned_str(v.as_str(), max) {
            Some(n) => n,
            None => default,
        },
        None => default,
    }
}

/// Splits the comma-separated origin list and trims each piece.
pub fn split_origins(list: &str) -> (r: Vec<String>)
    ensures
        r@.map_values(|s: String| s@) == origins_of(list@),
{
    let cs = chars_of(list);
    let pieces = split_on(&cs, ',');
    let ghost want = origins_of(list@);
    let mut out: Vec<String> = Vec::new();
    let mut i: usize = 0;
    while i < pieces.len()
        invariant
            i <= pieces.len(),
            pieces.len() == split_char(cs@, ',').len(),
            forall|k: int| 0 <= k < pieces.len() ==> #[trigger] pieces[k]@ == split_char(cs@, ',')[k],
            cs@ == list@,
            want == origins_of(list@),
            want.len() == pieces.len(),
            out.len() == i,
            out@.map_values(|s: String| s@) == want.take(i as int),
        decreases pieces.len() - i,
    {
        let t = trim_chars(&pieces[i]);
        assert(want[i as int] == trim(pieces[i as int]@));
        let ghost prev = out@;
        let item = string_of(&t);
        out.push(item);
        proof {
            assert(out@ == prev.push(item));
            let m = out@.map_values(|s: String| s@);
            let pm = prev.map_values(|s: String| s@);
            let w = want.take(i + 1);
            assert forall|k: int| 0 <= k < i + 1 implies #[trigger] m[k] == w[k] by {
                if k < i {
                    assert(out@[k] == prev[k]);
                    assert(pm[k] == want.take(i as int)[k]);
                } else {
                    assert(out@[k] == item);
                }
            }
            assert(m =~= w);
        }
        i += 1;
    }
    assert(want.take(i as int) =~= want);
    out
}

} // verus!
