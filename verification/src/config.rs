//! Configuration data for the catalog server.
//!
//! The access-control core reads one immutable snapshot of it per
//! request: the credential map and the public-path patterns. The
//! snapshot is built once at configuration-load time and never mutated;
//! replacing credentials means replacing the whole snapshot.

use vstd::prelude::*;

use crate::pattern::Pattern;
use vstd::string::StringExecFns;

verus! {

/// How the server listens.
#[derive(Debug, Clone)]
pub enum Protocol {
    Http,
    Https { cert: String, key: String },
}

/// The listening endpoint.
#[derive(Debug, Clone)]
pub struct Server {
    pub ip: String,
    pub port: u16,
    pub protocol: Protocol,
}

/// No two credential entries share a login name.
pub open spec fn logins_unique(entries: Seq<(String, String)>) -> bool {
    forall|i: int, j: int| 0 <= i < j < entries.len() ==> entries[i].0@ != entries[j].0@
}

/// The access-control section: the credential map as login/record
/// entries with unique login names, and the ordered list of public-path
/// patterns. Order of the patterns is kept for diagnostics only; any
/// match exempts a request.
#[derive(Debug)]
pub struct Authentication {
    pub login: Vec<(String, String)>,
    pub public: Vec<Pattern>,
}

impl Authentication {
    /// Login names are unique and every pattern is well-formed.
    pub open spec fn wf(&self) -> bool {
        &&& logins_unique(self.login@)
        &&& forall|i: int| 0 <= i < self.public@.len() ==> self.public@[i].wf()
    }
}

impl Default for Authentication {
    /// An empty credential map and no public patterns.
    fn default() -> (r: Authentication)
        ensures
            r.login@.len() == 0,
            r.public@.len() == 0,
            r.wf(),
    {
        Authentication { login: Vec::new(), public: Vec::new() }
    }
}

/// The Calibre libraries served: name and filesystem path, names unique.
#[derive(Debug, Clone)]
pub struct Calibre {
    pub libraries: Vec<(String, String)>,
}

/// One whole configuration snapshot.
#[derive(Debug)]
pub struct Config {
    pub server: Server,
    pub authentication: Authentication,
    pub calibre: Calibre,
}

impl Config {
    /// A configuration is valid when its access-control section is.
    pub open spec fn wf(&self) -> bool {
        self.authentication.wf()
    }
}

/// The diagnostic text for one unusable configuration path.
pub open spec fn path_error_message(path: Seq<char>, error: Seq<char>) -> Seq<char> {
    path + " : "@ + error
}

/// A configuration path that could not be used, with the reason.
#[derive(Debug)]
pub struct PathError {
    pub path: String,
    pub error: String,
}

impl PathError {
    /// Renders the diagnostic line for this path.
    pub fn to_message(&self) -> (r: String)
        ensures
            r@ == path_error_message(self.path@, self.error@),
    {
        let mut out = self.path.clone();
        out.append(" : ");
        out.append(self.error.as_str());
        proof {
            assert(out@ =~= path_error_message(self.path@, self.error@));
        }
        out
    }
}

/// The summary text for a list of unusable configuration paths: one
/// indented line per path, joined by line breaks.
pub open spec fn path_errors_text(errors: Seq<PathError>) -> Seq<char>
    decreases errors.len(),
{
    if errors.len() == 0 {
        Seq::empty()
    } else {
        let line = "\t"@ + path_error_message(errors[0].path@, errors[0].error@);
        if errors.len() == 1 {
            line
        } else {
            line + "\n"@ + path_errors_text(errors.skip(1))
        }
    }
}

proof fn lemma_path_errors_text_push(errors: Seq<PathError>, e: PathError)
    requires
        errors.len() > 0,
    ensures
        path_errors_text(errors.push(e)) == path_errors_text(errors) + "\n"@ + "\t"@
            + path_error_message(e.path@, e.error@),
    decreases errors.len(),
{
    let p = errors.push(e);
    assert(p[0] == errors[0]);
    let line = "\t"@ + path_error_message(errors[0].path@, errors[0].error@);
    if errors.len() == 1 {
        assert(p.skip(1) =~= seq![e]);
        let eline = "\t"@ + path_error_message(e.path@, e.error@);
        assert(path_errors_text(p.skip(1)) == eline);
        assert(path_errors_text(p) == line + "\n"@ + eline);
    } else {
        lemma_path_errors_text_push(errors.skip(1), e);
        assert(p.skip(1) =~= errors.skip(1).push(e));
        assert(path_errors_text(p) == line + "\n"@ + path_errors_text(errors.skip(1).push(e)));
        let eline = "\t"@ + path_error_message(e.path@, e.error@);
        assert(line + "\n"@ + (path_errors_text(errors.skip(1)) + "\n"@ + eline) =~= (line + "\n"@
            + path_errors_text(errors.skip(1))) + "\n"@ + eline);
    }
}

/// Renders the summary of all unusable configuration paths.
pub fn join_path_errors(errors: &Vec<PathError>) -> (r: String)
    ensures
        r@ == path_errors_text(errors@),
{
    let n = errors.len();
    let mut out = String::new();
    let mut i: usize = 0;
    proof {
        assert(errors@.take(0) =~= Seq::<PathError>::empty());
    }
    while i < n
        invariant
            i <= n,
            n == errors@.len(),
            out@ == path_errors_text(errors@.take(i as int)),
        decreases n - i,
    {
        let ghost pre = out@;
        if i > 0 {
            out.append("\n");
        }
        out.append("\t");
        let line = errors[i].to_message();
        out.append(line.as_str());
        proof {
            let ghost e = errors@[i as int];
            assert(errors@.take(i + 1) =~= errors@.take(i as int).push(e));
            if i == 0 {
                assert(out@ =~= "\t"@ + path_error_message(e.path@, e.error@));
                assert(path_errors_text(errors@.take(1)) == "\t"@ + path_error_message(
                    e.path@,
                    e.error@,
                )) by {
                    assert(errors@.take(1).len() == 1);
                    assert(errors@.take(1)[0] == e);
                }
            } else {
                lemma_path_errors_text_push(errors@.take(i as int), e);
                assert(out@ =~= (pre + "\n"@ + "\t"@) + path_error_message(e.path@, e.error@));
                assert((pre + "\n"@ + "\t"@) + path_error_message(e.path@, e.error@) =~= pre + "\n"@
                    + ("\t"@ + path_error_message(e.path@, e.error@)));
                assert(pre + "\n"@ + ("\t"@ + path_error_message(e.path@, e.error@))
                    =~= path_errors_text(errors@.take(i as int)) + "\n"@ + "\t"@
                    + path_error_message(e.path@, e.error@));
            }
        }
        i = i + 1;
    }
    proof {
        assert(errors@.take(n as int) =~= errors@);
    }
    out
}

} // verus!
