//! Runtime configuration and the default user agent.
use vstd::prelude::*;
use vstd::string::StringSliceAdditionalSpecFns;

verus! {

/// Name of this package, first part of the default user agent.
pub const PKG_NAME: &'static str = "vrc-ban";

/// Version of this package.
pub const PKG_VERSION: &'static str = "0.1.0";

/// Authors of this package, last part of the default user agent.
pub const PKG_AUTHORS: &'static str = "Shayne Hartford (ShayBox)";

/// Settings the services are started with.
pub struct Config {
    pub user_agent: String,
    pub bot_secret: String,
    pub sql_secret: String,
    pub vrc_secret: String,
    pub vrc_group_id: String,
    pub vrc_password: String,
    pub vrc_username: String,
    pub vrc_cookies: Vec<String>,
}

/// `name/version authors`, the text of the default user agent.
pub open spec fn default_user_agent_text() -> Seq<char> {
    PKG_NAME@ + "/"@ + PKG_VERSION@ + " "@ + PKG_AUTHORS@
}

/// `p` is a prefix of `s`.
pub open spec fn is_prefix_of(p: Seq<u8>, s: Seq<u8>) -> bool {
    p.len() <= s.len() && s.subrange(0, p.len() as int) == p
}

/// `p` is a suffix of `s`.
pub open spec fn is_suffix_of(p: Seq<u8>, s: Seq<u8>) -> bool {
    p.len() <= s.len() && s.subrange(s.len() - p.len(), s.len() as int) == p
}

/// The user agent that is sent when none is configured.
pub fn default_user_agent() -> (r: String)
    ensures
        r@ == default_user_agent_text(),
{
    let mut s = String::from_str(PKG_NAME);
    s.append("/");
    s.append(PKG_VERSION);
    s.append(" ");
    s.append(PKG_AUTHORS);
    s
}

/// Whether the bytes of `p` start `s` at byte `at`.
fn bytes_match_at(s: &[u8], p: &[u8], at: usize) -> (r: bool)
    requires
        at + p@.len() <= s@.len(),
    ensures
        r == (s@.subrange(at as int, at + p@.len()) == p@),
{
    let n: usize = s.len();
    let mut i: usize = 0;
    while i < p.len()
        invariant
            at + p@.len() <= s@.len(),
            n == s@.len(),
            i <= p@.len(),
            forall|k: int| 0 <= k < i ==> s@[at + k] == p@[k],
        decreases p@.len() - i,
    {
        if s[at + i] != p[i] {
            assert(s@.subrange(at as int, at + p@.len())[i as int] != p@[i as int]);
            return false;
        }
        i = i + 1;
    }
    assert(s@.subrange(at as int, at + p@.len()) =~= p@);
    true
}

/// Whether `user_agent` has the shape of the default one: it starts with the
/// package name and ends with its authors.
pub fn is_default(user_agent: &str) -> (r: bool)
    ensures
        r == (is_prefix_of(PKG_NAME.spec_bytes(), user_agent.spec_bytes())
            && is_suffix_of(PKG_AUTHORS.spec_bytes(), user_agent.spec_bytes())),
{
    let s = user_agent.as_bytes();
    let name = PKG_NAME.as_bytes();
    let authors = PKG_AUTHORS.as_bytes();
    if name.len() > s.len() || authors.len() > s.len() {
        return false;
    }
    bytes_match_at(s, name, 0) && bytes_match_at(s, authors, s.len() - authors.len())
}

} // verus!
