//! The release-registry data model: tags, releases and their assets, the
//! registry URLs they are listed under, and the summary line of a
//! release.

use vstd::prelude::*;
use crate::text::decimal_chars;
use crate::text::u64_to_decimal;

verus! {

/// A tag of a repository, as the release registry lists it.
#[derive(Debug, Clone)]
pub struct GitHubTag {
    pub name: String,
}

/// One downloadable artifact attached to a release.
#[derive(Debug, Clone)]
pub struct GitHubAsset {
    pub name: String,
    pub browser_download_url: String,
    pub size: u64,
}

/// A release of a repository: its tag, optional display name and
/// publication date, and the artifacts attached to it.
#[derive(Debug, Clone)]
pub struct GitHubRelease {
    pub tag_name: String,
    pub name: Option<String>,
    pub published_at: Option<String>,
    pub assets: Vec<GitHubAsset>,
}

impl GitHubRelease {
    /// The summary line of a release listing: tag, display name and
    /// publication date (with fallbacks when the registry reports
    /// neither), and the number of attached assets.
    pub fn summary(&self) -> (m: String)
        ensures
            m@ == self.tag_name@ + " - "@ + (match self.name {
                Some(ref n) => n@,
                None => "Unnamed release"@,
            }) + " (published: "@ + (match self.published_at {
                Some(ref d) => d@,
                None => "Unknown date"@,
            }) + ")\n  Assets: "@ + decimal_chars(self.assets@.len() as int),
    {
        let mut m = self.tag_name.clone();
        m.append(" - ");
        let display_name: &str = match &self.name {
            Some(n) => n.as_str(),
            None => "Unnamed release",
        };
        m.append(display_name);
        m.append(" (published: ");
        let date: &str = match &self.published_at {
            Some(d) => d.as_str(),
            None => "Unknown date",
        };
        m.append(date);
        m.append(")\n  Assets: ");
        let count = u64_to_decimal(self.assets.len() as u64);
        m.append(count.as_str());
        proof {
            assert(m@ =~= self.tag_name@ + " - "@ + display_name@ + " (published: "@ + date@
                + ")\n  Assets: "@ + decimal_chars(self.assets@.len() as int));
        }
        m
    }

    /// The asset a binary download picks: the first one the release
    /// lists, if it lists any.
    pub fn primary_asset(&self) -> (r: Option<&GitHubAsset>)
        ensures
            r is Some <==> self.assets@.len() > 0,
            r is Some ==> *r->0 == self.assets@[0],
    {
        if self.assets.len() == 0 {
            None
        } else {
            Some(&self.assets[0])
        }
    }
}

/// The registry URL that lists the tags of `owner/repo`.
pub fn tags_url(owner: &str, repo: &str) -> (u: String)
    ensures
        u@ == "https://api.github.com/repos/"@ + owner@ + "/"@ + repo@ + "/tags"@,
{
    let mut u = String::from_str("https://api.github.com/repos/");
    u.append(owner);
    u.append("/");
    u.append(repo);
    u.append("/tags");
    proof {
        assert(u@ =~= "https://api.github.com/repos/"@ + owner@ + "/"@ + repo@ + "/tags"@);
    }
    u
}

/// The registry URL that lists the releases of `owner/repo`.
pub fn releases_url(owner: &str, repo: &str) -> (u: String)
    ensures
        u@ == "https://api.github.com/repos/"@ + owner@ + "/"@ + repo@ + "/releases"@,
{
    let mut u = String::from_str("https://api.github.com/repos/");
    u.append(owner);
    u.append("/");
    u.append(repo);
    u.append("/releases");
    proof {
        assert(u@ =~= "https://api.github.com/repos/"@ + owner@ + "/"@ + repo@ + "/releases"@);
    }
    u
}

} // verus!
