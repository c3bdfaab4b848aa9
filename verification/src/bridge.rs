//! Where the Lisp substrate lives on disk, and the boot form that points a
//! fresh Lisp session at it.

use vstd::prelude::*;

use crate::text::{chars_of, push_chars, push_str};

verus! {

/// `s` without any trailing `/` characters.
pub open spec fn trim_trailing_slashes(s: Seq<char>) -> Seq<char>
    decreases s.len(),
{
    if s.len() > 0 && s.last() == '/' {
        trim_trailing_slashes(s.drop_last())
    } else {
        s
    }
}

/// The suffixes, under the home directory, of the places searched for the
/// substrate sources, in order of preference.
pub open spec fn candidate_suffix(i: int) -> Seq<char> {
    if i == 0 {
        "/Cowork/Notes/dev/nelisp-emacs/.worktrees/emacs-builtins-port/src"@
    } else if i == 1 {
        "/Notes/dev/nelisp-emacs/.worktrees/emacs-builtins-port/src"@
    } else if i == 2 {
        "/Cowork/Notes/dev/nelisp-emacs/src"@
    } else {
        "/Notes/dev/nelisp-emacs/src"@
    }
}

/// The number of places searched for the substrate sources.
pub const NUM_CANDIDATES: usize = 4;

/// The substrate source directories tried under `home`, best first.
pub open spec fn candidates_spec(home: Seq<char>) -> Seq<Seq<char>> {
    Seq::new(NUM_CANDIDATES as nat, |i: int| home + candidate_suffix(i))
}

/// The directories, under `home`, that may hold the substrate sources, in
/// the order they are tried.
pub fn layer2_candidates(home: &str) -> (v: Vec<String>)
    ensures
        v@.len() == NUM_CANDIDATES,
        forall|i: int| 0 <= i < NUM_CANDIDATES ==> #[trigger] v@[i]@ == candidates_spec(home@)[i],
{
    let mut v: Vec<String> = Vec::new();
    let mut a = home.to_owned();
    push_str(&mut a, "/Cowork/Notes/dev/nelisp-emacs/.worktrees/emacs-builtins-port/src");
    v.push(a);
    let mut b = home.to_owned();
    push_str(&mut b, "/Notes/dev/nelisp-emacs/.worktrees/emacs-builtins-port/src");
    v.push(b);
    let mut c = home.to_owned();
    push_str(&mut c, "/Cowork/Notes/dev/nelisp-emacs/src");
    v.push(c);
    let mut d = home.to_owned();
    push_str(&mut d, "/Notes/dev/nelisp-emacs/src");
    v.push(d);
    v
}

/// The first candidate (from index `from` on) that holds the marker file,
/// or the last candidate when none does.
pub open spec fn first_marked(cands: Seq<Seq<char>>, marked: Seq<bool>, from: int) -> Seq<char>
    decreases NUM_CANDIDATES - from,
{
    if from >= NUM_CANDIDATES {
        cands[NUM_CANDIDATES - 1]
    } else if marked[from] {
        cands[from]
    } else {
        first_marked(cands, marked, from + 1)
    }
}

/// The substrate source directory: `$NEMACS_HOME/src` when `NEMACS_HOME`
/// is set, else `NEMACS_LAYER2_SRC` when set, else the first candidate
/// under the home directory that holds the marker file, else the last one.
pub open spec fn layer2_src_spec(
    nemacs_home: Option<Seq<char>>,
    layer2_src: Option<Seq<char>>,
    home: Seq<char>,
    marked: Seq<bool>,
) -> Seq<char> {
    match nemacs_home {
        Some(h) => trim_trailing_slashes(h) + "/src"@,
        None => match layer2_src {
            Some(p) => p,
            None => first_marked(candidates_spec(home), marked, 0),
        },
    }
}

/// Resolves the substrate source directory from the `NEMACS_HOME` and
/// `NEMACS_LAYER2_SRC` settings, the home directory, and which of the
/// `layer2_candidates(home)` hold the marker file (`marked[i]` for the
/// `i`-th candidate).
pub fn layer2_src_path(
    nemacs_home: Option<&str>,
    layer2_src: Option<&str>,
    home: &str,
    marked: &Vec<bool>,
) -> (p: String)
    requires
        marked@.len() == NUM_CANDIDATES,
    ensures
        p@ == layer2_src_spec(
            match nemacs_home {
                Some(h) => Some(h@),
                None => None,
            },
            match layer2_src {
                Some(s) => Some(s@),
                None => None,
            },
            home@,
            marked@,
        ),
{
    match nemacs_home {
        Some(h) => {
            let chars = chars_of(h);
            let mut n: usize = chars.len();
            assert(trim_trailing_slashes(chars@) == trim_trailing_slashes(chars@.take(n as int)))
                by {
                assert(chars@.take(n as int) =~= chars@);
            }
            while n > 0 && chars[n - 1] == '/'
                invariant
                    n <= chars.len(),
                    trim_trailing_slashes(chars@) == trim_trailing_slashes(chars@.take(n as int)),
                decreases n,
            {
                assert(chars@.take(n as int).drop_last() =~= chars@.take(n - 1));
                n = n - 1;
            }
            let mut kept: Vec<char> = Vec::new();
            let mut i: usize = 0;
            while i < n
                invariant
                    n <= chars.len(),
                    i <= n,
                    kept@ =~= chars@.take(i as int),
                decreases n - i,
            {
                kept.push(chars[i]);
                i = i + 1;
            }
            let mut out = String::new();
            push_chars(&mut out, &kept);
            push_str(&mut out, "/src");
            out
        },
        None => match layer2_src {
            Some(p) => p.to_owned(),
            None => {
                let cands = layer2_candidates(home);
                let ghost cs = candidates_spec(home@);
                let mut i: usize = 0;
                while i < NUM_CANDIDATES
                    invariant
                        nemacs_home is None,
                        layer2_src is None,
                        cs == candidates_spec(home@),
                        i <= NUM_CANDIDATES,
                        marked@.len() == NUM_CANDIDATES,
                        cands@.len() == NUM_CANDIDATES,
                        forall|k: int| 0 <= k < NUM_CANDIDATES ==> #[trigger] cands@[k]@ == cs[k],
                        first_marked(cs, marked@, 0) == first_marked(cs, marked@, i as int),
                    decreases NUM_CANDIDATES - i,
                {
                    if marked[i] {
                        return cands[i].clone();
                    }
                    i = i + 1;
                }
                cands[NUM_CANDIDATES - 1].clone()
            },
        },
    }
}

/// The substrate home for source directory `src`: `src` without a final
/// `/src`, or `HOME/Notes/dev/nelisp-emacs` when it does not end so.
pub open spec fn layer2_home_spec(src: Seq<char>, home: Seq<char>) -> Seq<char> {
    let sfx = "/src"@;
    if src.len() >= sfx.len() && src.skip(src.len() - sfx.len()) == sfx {
        src.take(src.len() - sfx.len())
    } else {
        home + "/Notes/dev/nelisp-emacs"@
    }
}

/// The substrate home directory for the source directory `src`; `home` is
/// the user's home directory, used when `src` does not end in `/src`.
pub fn layer2_home_path(src: &str, home: &str) -> (p: String)
    ensures
        p@ == layer2_home_spec(src@, home@),
{
    let chars = chars_of(src);
    let suffix = chars_of("/src");
    let n = chars.len();
    let mut ends: bool = n >= suffix.len();
    if ends {
        let start: usize = n - suffix.len();
        let mut i: usize = 0;
        while i < suffix.len()
            invariant
                suffix@ == "/src"@,
                start + suffix.len() == n,
                n == chars.len(),
                i <= suffix.len(),
                ends == (forall|k: int| 0 <= k < i ==> chars@[start + k] == suffix@[k]),
            decreases suffix.len() - i,
        {
            if chars[start + i] != suffix[i] {
                ends = false;
            }
            i = i + 1;
        }
        if ends {
            assert(chars@.skip(start as int) =~= suffix@);
        } else {
            assert(chars@.skip(start as int) != suffix@) by {
                let k = choose|k: int| 0 <= k < suffix.len() && chars@[start + k] != suffix@[k];
                assert(chars@.skip(start as int)[k] != suffix@[k]);
            }
        }
    }
    if ends {
        let keep: usize = n - suffix.len();
        let mut kept: Vec<char> = Vec::new();
        let mut i: usize = 0;
        while i < keep
            invariant
                keep <= n,
                n == chars.len(),
                i <= keep,
                kept@ =~= chars@.take(i as int),
            decreases keep - i,
        {
            kept.push(chars[i]);
            i = i + 1;
        }
        let mut out = String::new();
        push_chars(&mut out, &kept);
        out
    } else {
        let mut out = home.to_owned();
        push_str(&mut out, "/Notes/dev/nelisp-emacs");
        out
    }
}

/// The boot form text for source directory `src` and home `home`.
pub open spec fn setup_form_spec(src: Seq<char>, home: Seq<char>) -> Seq<char> {
    SETUP_HEAD@ + src + SETUP_MID@ + src + SETUP_VENDOR@ + home + SETUP_TAIL@
}

pub const SETUP_HEAD: &'static str = "(progn
            (unless (boundp 'load-path) (defvar load-path nil))
            (unless (member \"";

pub const SETUP_MID: &'static str = "\" load-path)
              (setq load-path (cons \"";

pub const SETUP_VENDOR: &'static str = "\" load-path)))
            (unless (boundp 'nelisp-emacs-vendor-root)
              (defvar nelisp-emacs-vendor-root nil))
            (setq nelisp-emacs-vendor-root \"";

pub const SETUP_TAIL: &'static str = "/vendor\")
            (require 'emacs-init)
            'load-path-ready)";

/// The boot form that puts `src` on the Lisp `load-path` (once), points
/// `nelisp-emacs-vendor-root` at `HOME/vendor` for substrate home `home`,
/// and requires the substrate's master module.
pub fn layer2_setup_form(src: &str, home: &str) -> (form: String)
    ensures
        form@ == setup_form_spec(src@, home@),
{
    let mut form = String::new();
    push_str(&mut form, SETUP_HEAD);
    push_str(&mut form, src);
    push_str(&mut form, SETUP_MID);
    push_str(&mut form, src);
    push_str(&mut form, SETUP_VENDOR);
    push_str(&mut form, home);
    push_str(&mut form, SETUP_TAIL);
    form
}

} // verus!

verus! {

/// How an evaluation outcome is printed: the printed value, or `ERR `
/// followed by the printed error.
pub open spec fn printed_result_spec(r: Result<Seq<char>, Seq<char>>) -> Seq<char> {
    match r {
        Ok(v) => v,
        Err(e) => "ERR "@ + e,
    }
}

/// Prints an evaluation outcome given as the printed value or the printed
/// error: errors are marked with a leading `ERR `.
pub fn printed_result(r: Result<String, String>) -> (s: String)
    ensures
        s@ == printed_result_spec(
            match r {
                Ok(v) => Ok(v@),
                Err(e) => Err(e@),
            },
        ),
{
    match r {
        Ok(v) => v,
        Err(e) => {
            let mut s = "ERR ".to_owned();
            push_str(&mut s, e.as_str());
            s
        },
    }
}

} // verus!
