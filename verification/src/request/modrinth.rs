//! What Modrinth's `/v2/projects` answers, and how one of its projects
//! becomes a [`Mod`](super::Mod).

use vstd::prelude::*;

use super::{License, LicenseView, Mod, ModView, opt_view};

verus! {

/// A Modrinth project's license.
pub struct ProjectLicense {
    pub id: String,
    pub name: String,
    pub url: Option<String>,
}

/// One project in Modrinth's answer.
pub struct Project {
    pub id: String,
    pub slug: String,
    pub title: String,
    pub description: String,
    pub icon_url: Option<String>,
    pub source_url: Option<String>,
    pub issues_url: Option<String>,
    pub wiki_url: Option<String>,
    pub license: Option<ProjectLicense>,
}

/// Where a Modrinth project's page lives, before its slug.
pub open spec fn modrinth_page_prefix() -> Seq<char> {
    "https://modrinth.com/mod/"@
}

/// The mod record a Modrinth project becomes: its page under
/// `modrinth.com/mod/`, its license as sent, and no authors, which Modrinth
/// credits to a team rather than listing on the project.
pub open spec fn mod_of(p: Project) -> ModView {
    ModView {
        id: p.id@,
        slug: p.slug@,
        title: p.title@,
        description: p.description@,
        mod_url: modrinth_page_prefix() + p.slug@,
        license: match p.license {
            Some(l) => Some(LicenseView { id: l.id@, name: l.name@, url: opt_view(l.url) }),
            None => None,
        },
        authors: Seq::empty(),
        icon_url: opt_view(p.icon_url),
        source_url: opt_view(p.source_url),
        issues_url: opt_view(p.issues_url),
        wiki_url: opt_view(p.wiki_url),
    }
}

impl Project {
    /// Normalises a Modrinth project into the shared mod record.
    pub fn into_mod(self) -> (r: Mod)
        ensures
            r@ == mod_of(self),
            r@.id == self.id@,
            r@.slug == self.slug@,
            r@.title == self.title@,
            r@.description == self.description@,
            r@.mod_url == "https://modrinth.com/mod/"@ + self.slug@,
            r@.icon_url == opt_view(self.icon_url),
            r@.source_url == opt_view(self.source_url),
            r@.issues_url == opt_view(self.issues_url),
            r@.wiki_url == opt_view(self.wiki_url),
            self.license matches Some(l) ==> r@.license == Some(
                LicenseView { id: l.id@, name: l.name@, url: opt_view(l.url) },
            ),
            (self.license is None) ==> (r@.license is None),
            r@.authors.len() == 0,
    {
        let ghost orig = self;
        let mut mod_url = String::from_str("https://modrinth.com/mod/");
        mod_url.append(self.slug.as_str());
        let license = match self.license {
            Some(l) => Some(License { id: l.id, name: l.name, url: l.url }),
            None => None,
        };
        let r = Mod {
            id: self.id,
            slug: self.slug,
            title: self.title,
            description: self.description,
            mod_url,
            license,
            authors: Vec::new(),
            icon_url: self.icon_url,
            source_url: self.source_url,
            issues_url: self.issues_url,
            wiki_url: self.wiki_url,
        };
        assert(r@.authors =~= mod_of(orig).authors);
        r
    }
}

/// A Modrinth project keeps what it says of itself: its id, slug, title and
/// description, and each link under the name it was sent under, stay as
/// they are; the page is its slug under `modrinth.com/mod/`; its license
/// keeps its id, name and link.
pub proof fn lemma_project_keeps_its_fields(p: Project)
    ensures
        mod_of(p).id == p.id@,
        mod_of(p).slug == p.slug@,
        mod_of(p).title == p.title@,
        mod_of(p).description == p.description@,
        mod_of(p).mod_url == "https://modrinth.com/mod/"@ + p.slug@,
        mod_of(p).icon_url == opt_view(p.icon_url),
        mod_of(p).source_url == opt_view(p.source_url),
        mod_of(p).issues_url == opt_view(p.issues_url),
        mod_of(p).wiki_url == opt_view(p.wiki_url),
        p.license matches Some(l) ==> mod_of(p).license == Some(
            LicenseView { id: l.id@, name: l.name@, url: opt_view(l.url) },
        ),
        (p.license is None) ==> (mod_of(p).license is None),
{
}

} // verus!
