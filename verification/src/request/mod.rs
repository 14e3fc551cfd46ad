//! The mod record every source is normalised into, and the conversions from
//! what Modrinth and CurseForge send.

use vstd::prelude::*;

pub mod curseforge;
pub mod modrinth;

verus! {

/// A Modrinth project id (base62).
pub type ModrinthId = String;

/// A CurseForge project id.
pub type CurseForgeId = i32;

/// A mod's license.
pub struct License {
    pub id: String,
    pub name: String,
    pub url: Option<String>,
}

/// One credited author.
pub struct Author {
    pub name: String,
    pub url: String,
}

/// One mod, whichever site it came from.
pub struct Mod {
    /// Modrinth's base62 id or CurseForge's numeric id, as text.
    pub id: String,
    pub slug: String,
    pub title: String,
    pub description: String,
    pub mod_url: String,
    pub license: Option<License>,
    pub authors: Vec<Author>,
    pub icon_url: Option<String>,
    pub source_url: Option<String>,
    pub issues_url: Option<String>,
    pub wiki_url: Option<String>,
}

/// The characters of an optional string.
pub open spec fn opt_view(s: Option<String>) -> Option<Seq<char>> {
    match s {
        Some(v) => Some(v@),
        None => None,
    }
}

/// A [`License`] as plain values.
pub struct LicenseView {
    pub id: Seq<char>,
    pub name: Seq<char>,
    pub url: Option<Seq<char>>,
}

/// An [`Author`] as plain values.
pub struct AuthorView {
    pub name: Seq<char>,
    pub url: Seq<char>,
}

/// A [`Mod`] as plain values.
pub struct ModView {
    pub id: Seq<char>,
    pub slug: Seq<char>,
    pub title: Seq<char>,
    pub description: Seq<char>,
    pub mod_url: Seq<char>,
    pub license: Option<LicenseView>,
    pub authors: Seq<AuthorView>,
    pub icon_url: Option<Seq<char>>,
    pub source_url: Option<Seq<char>>,
    pub issues_url: Option<Seq<char>>,
    pub wiki_url: Option<Seq<char>>,
}

impl View for License {
    type V = LicenseView;

    open spec fn view(&self) -> LicenseView {
        LicenseView { id: self.id@, name: self.name@, url: opt_view(self.url) }
    }
}

impl View for Author {
    type V = AuthorView;

    open spec fn view(&self) -> AuthorView {
        AuthorView { name: self.name@, url: self.url@ }
    }
}

/// The plain values of a list of authors.
pub open spec fn authors_view(v: Seq<Author>) -> Seq<AuthorView> {
    v.map_values(|a: Author| a@)
}

/// The plain values of an optional license.
pub open spec fn opt_license_view(l: Option<License>) -> Option<LicenseView> {
    match l {
        Some(v) => Some(v@),
        None => None,
    }
}

impl View for Mod {
    type V = ModView;

    open spec fn view(&self) -> ModView {
        ModView {
            id: self.id@,
            slug: self.slug@,
            title: self.title@,
            description: self.description@,
            mod_url: self.mod_url@,
            license: opt_license_view(self.license),
            authors: authors_view(self.authors@),
            icon_url: opt_view(self.icon_url),
            source_url: opt_view(self.source_url),
            issues_url: opt_view(self.issues_url),
            wiki_url: opt_view(self.wiki_url),
        }
    }
}

/// A copy of an optional string.
pub fn clone_opt_string(s: &Option<String>) -> (r: Option<String>)
    ensures
        opt_view(r) == opt_view(*s),
{
    match s {
        Some(v) => Some(v.clone()),
        None => None,
    }
}

impl Clone for License {
    fn clone(&self) -> (r: Self)
        ensures
            r@ == self@,
    {
        License { id: self.id.clone(), name: self.name.clone(), url: clone_opt_string(&self.url) }
    }
}

impl Clone for Author {
    fn clone(&self) -> (r: Self)
        ensures
            r@ == self@,
    {
        Author { name: self.name.clone(), url: self.url.clone() }
    }
}

/// A copy of a list of authors.
pub fn clone_authors(v: &Vec<Author>) -> (r: Vec<Author>)
    ensures
        authors_view(r@) == authors_view(v@),
{
    let mut out: Vec<Author> = Vec::new();
    let mut i: usize = 0;
    while i < v.len()
        invariant
            i <= v.len(),
            out@.len() == i,
            forall|j: int| 0 <= j < i ==> #[trigger] out@[j]@ == v@[j]@,
        decreases v.len() - i,
    {
        out.push(v[i].clone());
        i = i + 1;
    }
    assert(authors_view(out@) =~= authors_view(v@));
    out
}

impl Clone for Mod {
    fn clone(&self) -> (r: Self)
        ensures
            r@ == self@,
    {
        let license = match &self.license {
            Some(l) => Some(l.clone()),
            None => None,
        };
        Mod {
            id: self.id.clone(),
            slug: self.slug.clone(),
            title: self.title.clone(),
            description: self.description.clone(),
            mod_url: self.mod_url.clone(),
            license,
            authors: clone_authors(&self.authors),
            icon_url: clone_opt_string(&self.icon_url),
            source_url: clone_opt_string(&self.source_url),
            issues_url: clone_opt_string(&self.issues_url),
            wiki_url: clone_opt_string(&self.wiki_url),
        }
    }
}

} // verus!
