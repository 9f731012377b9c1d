//! Repository files and the policy that keeps only source-like ones.
//!
//! Listing and reading a repository is the caller's work; the library owns
//! the denylist that decides which paths count as source, the line
//! counting, and the trailing-newline strip that the file contents get.

use vstd::prelude::*;
use crate::text::chars_of;
use crate::text::contains_seq;
use crate::text::has_suffix;
use crate::text::string_of;
use crate::text::subvec;

verus! {

/// One file of a submitted repository.
#[derive(Debug, Clone)]
pub struct FileContents {
    pub filename: String,
    pub contents: String,
}

/// Index of the last dot of `s`, if any.
pub open spec fn last_dot(s: Seq<char>) -> Option<int>
    decreases s.len(),
{
    if s.len() == 0 {
        None
    } else if s.last() == '.' {
        Some(s.len() - 1)
    } else {
        last_dot(s.drop_last())
    }
}

/// The extension of a path: what follows its last dot, empty when it has
/// none.
pub open spec fn ext_of(s: Seq<char>) -> Seq<char> {
    match last_dot(s) {
        Some(i) => s.subrange(i + 1, s.len() as int),
        None => Seq::empty(),
    }
}

proof fn lemma_last_dot_at(s: Seq<char>, i: int)
    requires
        0 <= i < s.len(),
        s[i] == '.',
        forall|j: int| i < j < s.len() ==> s[j] != '.',
    ensures
        last_dot(s) == Some(i),
    decreases s.len(),
{
    if i == s.len() - 1 {
    } else {
        lemma_last_dot_at(s.drop_last(), i);
    }
}

proof fn lemma_last_dot_none(s: Seq<char>)
    requires
        forall|j: int| 0 <= j < s.len() ==> s[j] != '.',
    ensures
        last_dot(s) is None,
    decreases s.len(),
{
    if s.len() > 0 {
        lemma_last_dot_none(s.drop_last());
    }
}

impl FileContents {
    /// Pairs a path with the text it holds.
    pub fn new(filename: String, contents: String) -> (r: Self)
        ensures
            r.filename == filename,
            r.contents == contents,
    {
        Self { filename, contents }
    }

    /// What follows the last dot of the path; empty when the path has no
    /// dot.
    pub fn extension(&self) -> (r: String)
        ensures
            r@ == ext_of(self.filename@),
    {
        let v = chars_of(self.filename.as_str());
        let n = v.len();
        let mut i: usize = n;
        while i > 0
            invariant
                n == v@.len(),
                i <= n,
                v@ == self.filename@,
                forall|j: int| i <= j < n ==> v@[j] != '.',
            decreases i,
        {
            if v[i - 1] == '.' {
                proof {
                    lemma_last_dot_at(v@, i - 1);
                }
                let e = subvec(&v, i, n);
                return string_of(e);
            }
            i = i - 1;
        }
        proof {
            lemma_last_dot_none(v@);
        }
        string_of(Vec::new())
    }
}

/// The denylist: true when `p` names a build, lock, CI, environment,
/// editor, binary, dependency, database, media, style, script, archive or
/// document file, or a file without any dot in its path.
pub open spec fn is_ignored_spec(p: Seq<char>) -> bool {
    ||| has_suffix(p, ".mod"@)
    ||| has_suffix(p, ".sum"@)
    ||| has_suffix(p, ".toml"@)
    ||| has_suffix(p, ".json"@)
    ||| has_suffix(p, ".yaml"@)
    ||| has_suffix(p, ".yml"@)
    ||| has_suffix(p, ".lock"@)
    ||| has_suffix(p, "Dockerfile"@)
    ||| has_suffix(p, ".dockerignore"@)
    ||| has_suffix(p, "Jenkinsfile"@)
    ||| has_suffix(p, ".env"@)
    ||| has_suffix(p, ".env.example"@)
    ||| contains_seq(p, ".vscode/"@)
    ||| contains_seq(p, ".idea/"@)
    ||| has_suffix(p, ".editorconfig"@)
    ||| has_suffix(p, ".jar"@)
    ||| has_suffix(p, ".war"@)
    ||| has_suffix(p, ".dll"@)
    ||| has_suffix(p, ".exe"@)
    ||| has_suffix(p, ".so"@)
    ||| has_suffix(p, ".o"@)
    ||| has_suffix(p, ".a"@)
    ||| contains_seq(p, "node_modules/"@)
    ||| contains_seq(p, "vendor/"@)
    ||| contains_seq(p, "bower_components/"@)
    ||| has_suffix(p, ".db"@)
    ||| has_suffix(p, ".sql"@)
    ||| has_suffix(p, ".sqlite"@)
    ||| has_suffix(p, ".sqlite3"@)
    ||| has_suffix(p, ".png"@)
    ||| has_suffix(p, ".jpg"@)
    ||| has_suffix(p, ".jpeg"@)
    ||| has_suffix(p, ".gif"@)
    ||| has_suffix(p, ".svg"@)
    ||| has_suffix(p, ".ico"@)
    ||| has_suffix(p, ".ttf"@)
    ||| has_suffix(p, ".otf"@)
    ||| has_suffix(p, ".woff"@)
    ||| has_suffix(p, ".woff2"@)
    ||| has_suffix(p, ".css"@)
    ||| has_suffix(p, ".scss"@)
    ||| has_suffix(p, ".sass"@)
    ||| has_suffix(p, ".less"@)
    ||| has_suffix(p, ".sh"@)
    ||| has_suffix(p, ".bat"@)
    ||| has_suffix(p, ".zip"@)
    ||| has_suffix(p, ".tar"@)
    ||| has_suffix(p, ".tar.gz"@)
    ||| has_suffix(p, ".rar"@)
    ||| has_suffix(p, ".txt"@)
    ||| has_suffix(p, ".pdf"@)
    ||| has_suffix(p, ".doc"@)
    ||| has_suffix(p, ".docx"@)
    ||| has_suffix(p, ".ppt"@)
    ||| has_suffix(p, ".pptx"@)
    ||| has_suffix(p, ".xls"@)
    ||| has_suffix(p, ".xlsx"@)
    ||| (p.len() >= 1 && !contains_seq(p, "."@))
}

fn ends(p: &Vec<char>, suf: &str) -> (r: bool)
    ensures
        r == has_suffix(p@, suf@),
{
    let s = chars_of(suf);
    crate::text::ends_with_chars(p, &s)
}

fn holds(p: &Vec<char>, sub: &str) -> (r: bool)
    ensures
        r == contains_seq(p@, sub@),
{
    let s = chars_of(sub);
    crate::text::contains_chars(p, &s)
}

/// Decides whether the denylist excludes `path` from evaluation.
pub fn is_ignored(path: &str) -> (r: bool)
    ensures
        r == is_ignored_spec(path@),
{
    let p = chars_of(path);
    let build = ends(&p, ".mod") || ends(&p, ".sum") || ends(&p, ".toml") || ends(&p, ".json")
        || ends(&p, ".yaml") || ends(&p, ".yml") || ends(&p, ".lock");
    let ci = ends(&p, "Dockerfile") || ends(&p, ".dockerignore") || ends(&p, "Jenkinsfile");
    let env = ends(&p, ".env") || ends(&p, ".env.example");
    let editor = holds(&p, ".vscode/") || holds(&p, ".idea/") || ends(&p, ".editorconfig");
    let binary = ends(&p, ".jar") || ends(&p, ".war") || ends(&p, ".dll") || ends(&p, ".exe")
        || ends(&p, ".so") || ends(&p, ".o") || ends(&p, ".a");
    let deps = holds(&p, "node_modules/") || holds(&p, "vendor/") || holds(
        &p,
        "bower_components/",
    );
    let db = ends(&p, ".db") || ends(&p, ".sql") || ends(&p, ".sqlite") || ends(&p, ".sqlite3");
    let media = ends(&p, ".png") || ends(&p, ".jpg") || ends(&p, ".jpeg") || ends(&p, ".gif")
        || ends(&p, ".svg") || ends(&p, ".ico");
    let font = ends(&p, ".ttf") || ends(&p, ".otf") || ends(&p, ".woff") || ends(&p, ".woff2");
    let style = ends(&p, ".css") || ends(&p, ".scss") || ends(&p, ".sass") || ends(&p, ".less");
    let script = ends(&p, ".sh") || ends(&p, ".bat");
    let archive = ends(&p, ".zip") || ends(&p, ".tar") || ends(&p, ".tar.gz") || ends(
        &p,
        ".rar",
    );
    let document = ends(&p, ".txt") || ends(&p, ".pdf") || ends(&p, ".doc") || ends(&p, ".docx")
        || ends(&p, ".ppt") || ends(&p, ".pptx") || ends(&p, ".xls") || ends(&p, ".xlsx");
    let extensionless = p.len() >= 1 && !holds(&p, ".");
    build || ci || env || editor || binary || deps || db || media || font || style || script
        || archive || document || extensionless
}

/// `s` with one trailing newline removed, when it ends with one.
pub open spec fn stripped_newline(s: Seq<char>) -> Seq<char> {
    if s.len() > 0 && s.last() == '\n' {
        s.drop_last()
    } else {
        s
    }
}

/// Removes one trailing newline from a file's text, when it ends with one.
pub fn strip_trailing_newline(s: &str) -> (r: String)
    ensures
        r@ == stripped_newline(s@),
{
    let v = chars_of(s);
    let n = v.len();
    if n > 0 && v[n - 1] == '\n' {
        let w = subvec(&v, 0, n - 1);
        proof {
            assert(w@ =~= s@.drop_last());
        }
        string_of(w)
    } else {
        string_of(v)
    }
}

/// The paths of `ps` that the denylist keeps, in order.
pub open spec fn kept_paths(ps: Seq<String>) -> Seq<String>
    decreases ps.len(),
{
    if ps.len() == 0 {
        Seq::empty()
    } else {
        kept_paths(ps.drop_last()) + if is_ignored_spec(ps.last()@) {
            Seq::empty()
        } else {
            seq![ps.last()]
        }
    }
}

/// Filters a listing of repository paths down to the source-like ones.
pub fn filter_paths(paths: &Vec<String>) -> (r: Vec<String>)
    ensures
        r@ == kept_paths(paths@),
{
    let n = paths.len();
    let mut r: Vec<String> = Vec::new();
    let mut i: usize = 0;
    proof {
        assert(paths@.subrange(0, 0) =~= Seq::<String>::empty());
    }
    while i < n
        invariant
            n == paths@.len(),
            i <= n,
            r@ == kept_paths(paths@.subrange(0, i as int)),
        decreases n - i,
    {
        if !is_ignored(paths[i].as_str()) {
            r.push(paths[i].clone());
        }
        i = i + 1;
        proof {
            assert(paths@.subrange(0, i as int).drop_last() =~= paths@.subrange(0, i - 1));
            assert(paths@.subrange(0, i as int).last() == paths@[i - 1]);
            if !is_ignored_spec(paths@[i - 1]@) {
                assert(r@ =~= kept_paths(paths@.subrange(0, i - 1)) + seq![paths@[i - 1]]);
            }
        }
    }
    proof {
        assert(paths@.subrange(0, n as int) =~= paths@);
    }
    r
}

} // verus!
