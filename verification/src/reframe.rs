//! Settings of the vertical-reframe engine (a Python module run as a
//! subprocess) and the command-line arguments derived from them.
use vstd::prelude::*;
use crate::text::{owned, push_str};

verus! {

/// Options for the reframe engine. `layout` is one of single/split/auto;
/// `speaker_json` is the path of a file of speaker turns, when there is one.
pub struct ReframeOptions {
    pub layout: String,
    pub speaker_aware: bool,
    pub split_divider: bool,
    pub speaker_json: Option<String>,
}

impl Default for ReframeOptions {
    /// A single-subject layout, no speaker awareness, no divider.
    fn default() -> (r: Self)
        ensures
            r.layout@ == "single"@,
            !r.speaker_aware,
            !r.split_divider,
            r.speaker_json is None,
    {
        ReframeOptions { layout: owned("single"), speaker_aware: false, split_divider: false, speaker_json: None }
    }
}

/// Whether `c` separates path components (`/` everywhere, `\` too on Windows).
pub open spec fn is_separator(c: char, windows: bool) -> bool {
    c == '/' || (windows && c == '\\')
}

/// `Path::join` of a relative `name` onto `dir`: a separator is put between
/// them unless `dir` is empty or already ends with one.
pub open spec fn joined(dir: Seq<char>, name: Seq<char>, windows: bool) -> Seq<char> {
    if dir.len() == 0 || is_separator(dir.last(), windows) {
        dir + name
    } else {
        dir + (if windows { "\\"@ } else { "/"@ }) + name
    }
}

pub fn join_path(dir: &str, name: &str, windows: bool) -> (r: String)
    ensures
        r@ == joined(dir@, name@, windows),
{
    let mut out = owned(dir);
    let n = dir.unicode_len();
    if n == 0 {
        push_str(&mut out, name);
        return out;
    }
    let last = dir.get_char(n - 1);
    assert(dir@.last() == last);
    if last == '/' || (windows && last == '\\') {
        push_str(&mut out, name);
    } else {
        if windows {
            push_str(&mut out, "\\");
        } else {
            push_str(&mut out, "/");
        }
        push_str(&mut out, name);
    }
    out
}

/// The Python interpreter of the reframe package's virtual environment:
/// `venv/Scripts/python.exe` on Windows, `venv/bin/python` elsewhere.
pub open spec fn venv_python(dir: Seq<char>, windows: bool) -> Seq<char> {
    let venv = joined(dir, "venv"@, windows);
    if windows {
        joined(joined(venv, "Scripts"@, windows), "python.exe"@, windows)
    } else {
        joined(joined(venv, "bin"@, windows), "python"@, windows)
    }
}

pub fn find_venv_python(reframe_dir: &str, windows: bool) -> (r: String)
    ensures
        r@ == venv_python(reframe_dir@, windows),
{
    let venv = join_path(reframe_dir, "venv", windows);
    if windows {
        let scripts = join_path(venv.as_str(), "Scripts", windows);
        join_path(scripts.as_str(), "python.exe", windows)
    } else {
        let bin = join_path(venv.as_str(), "bin", windows);
        join_path(bin.as_str(), "python", windows)
    }
}

/// The engine's extra arguments: the layout, the divider flag, and in
/// speaker-aware mode the mode flag and the speaker file when one is given.
pub open spec fn arg_tail(layout: Seq<char>, speaker_aware: bool, split_divider: bool, speaker_json: Option<Seq<char>>) -> Seq<Seq<char>> {
    seq!["--layout"@, layout]
        + (if split_divider { seq!["--split-divider"@] } else { Seq::empty() })
        + (if speaker_aware {
            seq!["--speaker-aware-mode"@] + match speaker_json {
                Some(p) => seq!["--speaker-json"@, p],
                None => Seq::empty(),
            }
        } else {
            Seq::empty()
        })
}

pub open spec fn strings_view(v: Seq<String>) -> Seq<Seq<char>> {
    v.map_values(|s: String| s@)
}

pub fn reframe_arg_tail(opts: &ReframeOptions) -> (r: Vec<String>)
    ensures
        strings_view(r@) == arg_tail(opts.layout@, opts.speaker_aware, opts.split_divider,
            match opts.speaker_json { Some(p) => Some(p@), None => None }),
{
    let mut args: Vec<String> = Vec::new();
    args.push(owned("--layout"));
    args.push(opts.layout.clone());
    if opts.split_divider {
        args.push(owned("--split-divider"));
    }
    if opts.speaker_aware {
        args.push(owned("--speaker-aware-mode"));
        match &opts.speaker_json {
            Some(p) => {
                args.push(owned("--speaker-json"));
                args.push(p.clone());
            },
            None => {},
        }
    }
    proof {
        reveal_strlit("--layout");
        reveal_strlit("--split-divider");
        reveal_strlit("--speaker-aware-mode");
        reveal_strlit("--speaker-json");
    }
    assert(strings_view(args@) =~= arg_tail(opts.layout@, opts.speaker_aware, opts.split_divider,
        match opts.speaker_json { Some(p) => Some(p@), None => None }));
    args
}

} // verus!
