//! Project-relative path handling over plain strings.
//!
//! Paths are modelled as strings with `/` separators; an absolute path
//! starts with `/`.  Filesystem questions (does the path exist, what
//! does it canonicalise to) belong to the caller.

use vstd::prelude::*;
use vstd::string::StrSliceExecFns;
use vstd::string::StringExecFns;
use crate::errors::VqlError;
use crate::strutil::chars_of;
use crate::strutil::string_from;
use crate::strutil::push_char;
use crate::strutil::subvec;

verus! {

/// `s` with every backslash turned into a forward slash.
pub open spec fn normalized(s: Seq<char>) -> Seq<char> {
    s.map_values(|c: char| if c == '\\' { '/' } else { c })
}

/// A path is absolute when it starts at the root.
pub open spec fn is_abs(s: Seq<char>) -> bool {
    s.len() > 0 && s[0] == '/'
}

/// Resolves paths against one workspace root.
#[derive(Debug, Clone, PartialEq)]
pub struct PathResolver {
    pub workspace_root: String,
}

impl PathResolver {
    /// A resolver for the given workspace root.
    pub fn with_root(workspace_root: String) -> (r: PathResolver)
        ensures
            r.workspace_root@ == workspace_root@,
    {
        PathResolver { workspace_root }
    }

    /// The workspace root.
    pub fn workspace_root(&self) -> (r: &String)
        ensures
            r@ == self.workspace_root@,
    {
        &self.workspace_root
    }

    /// The path with forward slashes throughout.
    pub fn normalize(&self, path: &str) -> (r: String)
        ensures
            r@ == normalized(path@),
    {
        let v = chars_of(path);
        let mut out = String::new();
        let mut i: usize = 0;
        while i < v.len()
            invariant
                i <= v@.len(),
                v@ == path@,
                out@ == normalized(path@).subrange(0, i as int),
            decreases v@.len() - i,
        {
            if v[i] == '\\' {
                push_char(&mut out, '/');
            } else {
                push_char(&mut out, v[i]);
            }
            proof {
                assert(out@ =~= normalized(path@).subrange(0, i + 1));
            }
            i += 1;
        }
        proof {
            assert(out@ =~= normalized(path@));
        }
        out
    }

    /// Turn an absolute path inside the workspace into a project-relative
    /// one; a relative path is only normalised.  An absolute path outside
    /// the workspace is refused.
    pub fn to_project_relative(&self, absolute_path: &str) -> (r: Result<String, VqlError>)
        ensures
            match r {
                Ok(out) => {
                    if !is_abs(absolute_path@) {
                        out@ == normalized(absolute_path@)
                    } else {
                        absolute_path@.len() > self.workspace_root@.len() + 1
                            && absolute_path@.subrange(0, self.workspace_root@.len() as int)
                            == self.workspace_root@ && absolute_path@[
                            self.workspace_root@.len() as int
                        ] == '/' && out@ == normalized(
                            absolute_path@.skip(self.workspace_root@.len() as int + 1),
                        )
                    }
                },
                Err(e) => is_abs(absolute_path@) && !(absolute_path@.len()
                    > self.workspace_root@.len() + 1 && absolute_path@.subrange(
                    0,
                    self.workspace_root@.len() as int,
                ) == self.workspace_root@ && absolute_path@[
                    self.workspace_root@.len() as int
                ] == '/') && (e matches VqlError::OutsideWorkspace { path, root } && path@
                    == absolute_path@ && root@ == self.workspace_root@),
            },
    {
        let v = chars_of(absolute_path);
        if v.len() == 0 || v[0] != '/' {
            return Ok(self.normalize(absolute_path));
        }
        let rl = self.workspace_root.as_str().unicode_len();
        let ok = v.len() > rl && v.len() - rl > 1 && crate::strutil::has_prefix(
            &v,
            self.workspace_root.as_str(),
        ) && v[rl] == '/';
        if !ok {
            return Err(
                VqlError::OutsideWorkspace {
                    path: absolute_path.to_owned(),
                    root: self.workspace_root.clone(),
                },
            );
        }
        let rest = subvec(&v, rl + 1, v.len());
        proof {
            assert(rest@ =~= absolute_path@.skip(rl + 1));
        }
        let rest_s = string_from(&rest);
        Ok(self.normalize(rest_s.as_str()))
    }

    /// Turn a project-relative path into an absolute one under the
    /// workspace root; an absolute path passes through.
    pub fn to_absolute(&self, project_relative_path: &str) -> (r: String)
        ensures
            r@ == if is_abs(project_relative_path@) {
                project_relative_path@
            } else {
                self.workspace_root@ + seq!['/'] + project_relative_path@
            },
    {
        let v = chars_of(project_relative_path);
        if v.len() > 0 && v[0] == '/' {
            return project_relative_path.to_owned();
        }
        let mut out = self.workspace_root.clone();
        push_char(&mut out, '/');
        out.append(project_relative_path);
        out
    }
}

/// `path` with a leading tilde replaced by the home directory, when one
/// is known; otherwise the path unchanged.
pub fn expand_tilde(path: &str, home: Option<&str>) -> (r: String)
    ensures
        r@ == {
            if path@.len() > 0 && path@[0] == '~' && home is Some {
                home->Some_0@ + path@.skip(1)
            } else {
                path@
            }
        },
{
    let v = chars_of(path);
    if v.len() > 0 && v[0] == '~' {
        match home {
            Some(h) => {
                let rest = subvec(&v, 1, v.len());
                proof {
                    assert(rest@ =~= path@.skip(1));
                }
                let rest_s = string_from(&rest);
                let mut out = h.to_owned();
                out.append(rest_s.as_str());
                return out;
            },
            None => {},
        }
    }
    path.to_owned()
}

/// `text` wrapped in the given terminal colour code when colour is
/// enabled, unchanged otherwise.
pub fn colorize_output(text: &str, color_code: &str, enabled: bool) -> (r: String)
    ensures
        r@ == if enabled {
            "\u{1b}["@ + color_code@ + "m"@ + text@ + "\u{1b}[0m"@
        } else {
            text@
        },
{
    if !enabled {
        return text.to_owned();
    }
    let mut out = "\u{1b}[".to_owned();
    out.append(color_code);
    out.append("m");
    out.append(text);
    out.append("\u{1b}[0m");
    out
}

} // verus!
