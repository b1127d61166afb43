//! What a run is set up with.

use crate::date::Date;
use crate::version::{Version, VersionView};
use vstd::prelude::*;

verus! {

/// The day number of 10 December 2015, the day from which the release
/// train is counted.
pub const EPOCH_DAY: i32 = 735_942;

/// The settings of a run.
#[derive(Debug, Clone)]
pub struct Config {
    /// How many versions with open milestones are looked for.
    pub num_versions: usize,
    /// Where the changelog document is fetched from.
    pub rust_releases_url: String,
    /// The owner and the name of the repository whose tracker is read.
    pub repo_owner: String,
    pub repo_name: String,
    /// The day of a release from which the cadence is counted.
    pub epoch_date: Date,
    /// The directories of the site: the template that is copied, the
    /// pages that are written, and what the site generator puts out.
    pub hugo_template_dir: String,
    pub hugo_content_dir: String,
    pub hugo_public_dir: String,
    /// The words by which the title of a stabilization pull request is
    /// known.
    pub stabilization_search_terms: Vec<String>,
}

/// Whether these are the settings of the releases site.
pub open spec fn site_settings(config: Config) -> bool {
    &&& config.num_versions == 5
    &&& config.rust_releases_url@
        == "https://raw.githubusercontent.com/rust-lang/rust/stable/RELEASES.md"@
    &&& config.repo_owner@ == "rust-lang"@
    &&& config.repo_name@ == "rust"@
    &&& config.epoch_date@ == EPOCH_DAY
    &&& config.hugo_template_dir@ == "hugo/rust-changelogs/template"@
    &&& config.hugo_content_dir@ == "hugo/rust-changelogs/content"@
    &&& config.hugo_public_dir@ == "hugo/rust-changelogs/public"@
    &&& config.stabilization_search_terms@.len() == 4
    &&& config.stabilization_search_terms@[0]@ == "stabilise"@
    &&& config.stabilization_search_terms@[1]@ == "stabilize"@
    &&& config.stabilization_search_terms@[2]@ == "stabilisation"@
    &&& config.stabilization_search_terms@[3]@ == "stabilization"@
}

impl Config {
    /// The settings of the releases site.
    pub fn new() -> (config: Config)
        ensures
            site_settings(config),
    {
        let mut terms: Vec<String> = Vec::new();
        terms.push(String::from_str("stabilise"));
        terms.push(String::from_str("stabilize"));
        terms.push(String::from_str("stabilisation"));
        terms.push(String::from_str("stabilization"));
        Config {
            num_versions: 5,
            rust_releases_url: String::from_str(
                "https://raw.githubusercontent.com/rust-lang/rust/stable/RELEASES.md",
            ),
            repo_owner: String::from_str("rust-lang"),
            repo_name: String::from_str("rust"),
            epoch_date: Date::from_day_number(EPOCH_DAY),
            hugo_template_dir: String::from_str("hugo/rust-changelogs/template"),
            hugo_content_dir: String::from_str("hugo/rust-changelogs/content"),
            hugo_public_dir: String::from_str("hugo/rust-changelogs/public"),
            stabilization_search_terms: terms,
        }
    }
}

/// The path of the page of a version under the directory `content`.
pub open spec fn version_page_path(content: Seq<char>, v: VersionView) -> Seq<char> {
    content + "/docs/"@ + v.text() + ".md"@
}

/// The path of the index under the directory `content`.
pub open spec fn index_path(content: Seq<char>) -> Seq<char> {
    content + "/_index.md"@
}

impl Config {
    /// Where the page of a version is written.
    pub fn version_page_path(&self, version: &Version) -> (path: String)
        ensures
            path@ == version_page_path(self.hugo_content_dir@, version@),
    {
        let mut path = self.hugo_content_dir.clone();
        path.append("/docs/");
        version.push_text(&mut path);
        path.append(".md");
        path
    }

    /// Where the index is written.
    pub fn index_path(&self) -> (path: String)
        ensures
            path@ == index_path(self.hugo_content_dir@),
    {
        let mut path = self.hugo_content_dir.clone();
        path.append("/_index.md");
        path
    }
}

impl Default for Config {
    fn default() -> (config: Config)
        ensures
            site_settings(config),
    {
        Config::new()
    }
}

} // verus!
