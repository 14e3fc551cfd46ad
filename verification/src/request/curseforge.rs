//! What CurseForge's `/v1/mods` answers, and how one of its mods becomes a
//! [`Mod`](super::Mod).

use vstd::prelude::*;

use super::{Author, AuthorView, ModView, opt_view};
use crate::text::{decimal, u128_to_string};

verus! {

/// One mod in CurseForge's answer.
pub struct Mod {
    pub id: u32,
    pub name: String,
    pub slug: String,
    pub links: ModLinks,
    pub summary: String,
    pub authors: Vec<ModAuthor>,
    pub logo: ModLogo,
}

/// A CurseForge mod's links; an empty string in the answer reads as absent.
pub struct ModLinks {
    pub website_url: Option<String>,
    pub wiki_url: Option<String>,
    pub issues_url: Option<String>,
    pub source_url: Option<String>,
}

/// One author of a CurseForge mod.
pub struct ModAuthor {
    pub id: u32,
    pub name: String,
    pub url: String,
}

/// A CurseForge mod's logo.
pub struct ModLogo {
    pub id: u32,
    pub mod_id: u32,
    pub title: String,
    pub description: String,
    pub thumbnail_url: String,
}

/// The author a CurseForge author is credited as.
pub open spec fn author_of(a: ModAuthor) -> AuthorView {
    AuthorView { name: a.name@, url: a.url@ }
}

/// The mod record a CurseForge mod becomes: its numeric id as text, its
/// name as the title, its summary as the description, its website as the
/// page (empty when CurseForge sends none), its logo's thumbnail as the icon,
/// and no license, which CurseForge's API does not expose.
pub open spec fn mod_of(m: Mod) -> ModView {
    ModView {
        id: decimal(m.id as nat),
        slug: m.slug@,
        title: m.name@,
        description: m.summary@,
        mod_url: match m.links.website_url {
            Some(u) => u@,
            None => Seq::empty(),
        },
        license: None,
        authors: m.authors@.map_values(|a: ModAuthor| author_of(a)),
        icon_url: Some(m.logo.thumbnail_url@),
        source_url: opt_view(m.links.source_url),
        issues_url: opt_view(m.links.issues_url),
        wiki_url: opt_view(m.links.wiki_url),
    }
}

impl Mod {
    /// Normalises a CurseForge mod into the shared mod record.
    pub fn into_mod(self) -> (r: super::Mod)
        ensures
            r@ == mod_of(self),
            r@.id == decimal(self.id as nat),
            r@.slug == self.slug@,
            r@.title == self.name@,
            r@.description == self.summary@,
            r@.icon_url == Some(self.logo.thumbnail_url@),
            r@.source_url == opt_view(self.links.source_url),
            r@.issues_url == opt_view(self.links.issues_url),
            r@.wiki_url == opt_view(self.links.wiki_url),
            (r@.license is None),
            r@.authors.len() == self.authors@.len(),
            forall|j: int|
                0 <= j < self.authors@.len() ==> #[trigger] r@.authors[j].name == self.authors@[j].name@
                    && r@.authors[j].url == self.authors@[j].url@,
    {
        let ghost orig = self;
        let Mod { id, name, slug, links, summary, authors, logo } = self;
        let mut out_authors: Vec<Author> = Vec::new();
        let mut i: usize = 0;
        while i < authors.len()
            invariant
                i <= authors.len(),
                authors@ == orig.authors@,
                out_authors@.len() == i,
                forall|j: int| 0 <= j < i ==> #[trigger] out_authors@[j]@ == author_of(authors@[j]),
            decreases authors.len() - i,
        {
            let a = &authors[i];
            out_authors.push(Author { name: a.name.clone(), url: a.url.clone() });
            i = i + 1;
        }
        let mod_url = match links.website_url {
            Some(u) => u,
            None => String::new(),
        };
        let r = super::Mod {
            id: u128_to_string(id as u128),
            slug,
            title: name,
            description: summary,
            mod_url,
            license: None,
            authors: out_authors,
            icon_url: Some(logo.thumbnail_url),
            source_url: links.source_url,
            issues_url: links.issues_url,
            wiki_url: links.wiki_url,
        };
        assert(r@.authors =~= mod_of(orig).authors);
        r
    }
}

/// A CurseForge mod keeps what it says of itself: its id in decimal, its
/// name as the title, its summary as the description, each link under the
/// name it was sent under, its website as the page (empty when none), its
/// logo's thumbnail as the icon, and each author's name and page in order.
pub proof fn lemma_curseforge_keeps_its_fields(m: Mod)
    ensures
        mod_of(m).id == decimal(m.id as nat),
        mod_of(m).slug == m.slug@,
        mod_of(m).title == m.name@,
        mod_of(m).description == m.summary@,
        mod_of(m).source_url == opt_view(m.links.source_url),
        mod_of(m).issues_url == opt_view(m.links.issues_url),
        mod_of(m).wiki_url == opt_view(m.links.wiki_url),
        m.links.website_url matches Some(u) ==> mod_of(m).mod_url == u@,
        (m.links.website_url is None) ==> mod_of(m).mod_url.len() == 0,
        mod_of(m).icon_url == Some(m.logo.thumbnail_url@),
        mod_of(m).authors.len() == m.authors@.len(),
        forall|j: int|
            0 <= j < m.authors@.len() ==> #[trigger] mod_of(m).authors[j].name == m.authors@[j].name@
                && mod_of(m).authors[j].url == m.authors@[j].url@,
{
}

} // verus!
