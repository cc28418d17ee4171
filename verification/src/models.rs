//! The records of the citation graph: a catalogued paper, and a reference as it
//! is read from a paper's reference list, with its BibTeX rendering.

use crate::text::{
    alphanumeric, alphanumerics, copy_strings, decimal, join, joined, keep_alphanumeric,
    lemma_alphanumerics, split_words, texts, to_decimal, words,
};
use vstd::prelude::*;
use vstd::string::*;

verus! {

/// A publication, keyed in a network by `id`.
#[derive(Debug)]
pub struct Paper {
    pub id: String,
    pub title: String,
    pub authors: Vec<String>,
    pub arxiv_id: Option<String>,
    pub categories: Vec<String>,
    pub year: Option<u32>,
}

/// A citation entry of a paper. `inspire_id` is absent where the catalogue could
/// not resolve the citation to a record.
#[derive(Debug)]
pub struct Reference {
    pub title: String,
    pub authors: Vec<String>,
    pub arxiv_id: Option<String>,
    pub inspire_id: Option<String>,
    pub categories: Vec<String>,
    pub year: Option<u32>,
}

/// The mathematical value of a `Paper`.
pub struct PaperView {
    pub id: Seq<char>,
    pub title: Seq<char>,
    pub authors: Seq<Seq<char>>,
    pub arxiv_id: Option<Seq<char>>,
    pub categories: Seq<Seq<char>>,
    pub year: Option<u32>,
}

/// The mathematical value of a `Reference`.
pub struct ReferenceView {
    pub title: Seq<char>,
    pub authors: Seq<Seq<char>>,
    pub arxiv_id: Option<Seq<char>>,
    pub inspire_id: Option<Seq<char>>,
    pub categories: Seq<Seq<char>>,
    pub year: Option<u32>,
}

/// The characters of an optional string.
pub open spec fn opt_text(o: Option<String>) -> Option<Seq<char>> {
    match o {
        Some(s) => Some(s@),
        None => None,
    }
}

impl View for Paper {
    type V = PaperView;

    open spec fn view(&self) -> PaperView {
        PaperView {
            id: self.id@,
            title: self.title@,
            authors: texts(self.authors@),
            arxiv_id: opt_text(self.arxiv_id),
            categories: texts(self.categories@),
            year: self.year,
        }
    }
}

impl DeepView for Paper {
    type V = PaperView;

    open spec fn deep_view(&self) -> PaperView {
        self@
    }
}

impl View for Reference {
    type V = ReferenceView;

    open spec fn view(&self) -> ReferenceView {
        ReferenceView {
            title: self.title@,
            authors: texts(self.authors@),
            arxiv_id: opt_text(self.arxiv_id),
            inspire_id: opt_text(self.inspire_id),
            categories: texts(self.categories@),
            year: self.year,
        }
    }
}

impl DeepView for Reference {
    type V = ReferenceView;

    open spec fn deep_view(&self) -> ReferenceView {
        self@
    }
}

/// The values of a list of references.
pub open spec fn reference_views(v: Seq<Reference>) -> Seq<ReferenceView> {
    Seq::new(v.len(), |i: int| v[i]@)
}

/// A copy of an optional string.
pub fn copy_opt_string(o: &Option<String>) -> (r: Option<String>)
    ensures
        opt_text(r) == opt_text(*o),
{
    match o {
        Some(s) => Some(s.clone()),
        None => None,
    }
}

impl Clone for Paper {
    fn clone(&self) -> (r: Self)
        ensures
            r@ == self@,
    {
        Paper {
            id: self.id.clone(),
            title: self.title.clone(),
            authors: copy_strings(&self.authors),
            arxiv_id: copy_opt_string(&self.arxiv_id),
            categories: copy_strings(&self.categories),
            year: self.year,
        }
    }
}

impl Clone for Reference {
    fn clone(&self) -> (r: Self)
        ensures
            r@ == self@,
    {
        Reference {
            title: self.title.clone(),
            authors: copy_strings(&self.authors),
            arxiv_id: copy_opt_string(&self.arxiv_id),
            inspire_id: copy_opt_string(&self.inspire_id),
            categories: copy_strings(&self.categories),
            year: self.year,
        }
    }
}

/// One field line of a BibTeX entry: two spaces, the name, the value in braces, a comma.
pub open spec fn bibtex_field(name: Seq<char>, value: Seq<char>) -> Seq<char> {
    "  "@ + name + " = {"@ + value + "},\n"@
}

impl ReferenceView {
    /// The paper that this reference stands for, where the catalogue resolved it:
    /// its catalogue identifier becomes the paper's identifier.
    pub open spec fn promoted(self) -> Option<PaperView> {
        match self.inspire_id {
            Some(id) => Some(
                PaperView {
                    id,
                    title: self.title,
                    authors: self.authors,
                    arxiv_id: self.arxiv_id,
                    categories: self.categories,
                    year: self.year,
                },
            ),
            None => None,
        }
    }

    /// The last word of the first author's name; `Unknown` without an author or
    /// where the name holds no word.
    pub open spec fn key_author(self) -> Seq<char> {
        if self.authors.len() > 0 && words(self.authors[0]).len() > 0 {
            words(self.authors[0]).last()
        } else {
            "Unknown"@
        }
    }

    /// The year in decimal; `YYYY` without one.
    pub open spec fn key_year(self) -> Seq<char> {
        match self.year {
            Some(y) => decimal(y as nat),
            None => "YYYY"@,
        }
    }

    /// The first two words of the title, run together.
    pub open spec fn key_title(self) -> Seq<char> {
        let w = words(self.title);
        if w.len() == 0 {
            Seq::empty()
        } else if w.len() == 1 {
            w[0]
        } else {
            w[0] + w[1]
        }
    }

    /// The citation key: author, year and title part, stripped to alphanumeric
    /// characters.
    pub open spec fn bibtex_key(self) -> Seq<char> {
        alphanumerics(self.key_author() + self.key_year() + self.key_title())
    }

    /// The author line, left out where the joined names are empty.
    pub open spec fn author_line(self) -> Seq<char> {
        if joined(self.authors, " and "@).len() > 0 {
            bibtex_field("author"@, joined(self.authors, " and "@))
        } else {
            Seq::empty()
        }
    }

    /// The year line, left out without a year.
    pub open spec fn year_line(self) -> Seq<char> {
        match self.year {
            Some(y) => bibtex_field("year"@, decimal(y as nat)),
            None => Seq::empty(),
        }
    }

    /// The two preprint lines, left out without a preprint identifier.
    pub open spec fn eprint_lines(self) -> Seq<char> {
        match self.arxiv_id {
            Some(a) => bibtex_field("eprint"@, a) + bibtex_field("archivePrefix"@, "arXiv"@),
            None => Seq::empty(),
        }
    }

    /// The class line, which names the first category; left out without categories.
    pub open spec fn class_line(self) -> Seq<char> {
        if self.categories.len() > 0 {
            bibtex_field("primaryClass"@, self.categories[0])
        } else {
            Seq::empty()
        }
    }

    /// The whole `@article` entry.
    pub open spec fn bibtex(self) -> Seq<char> {
        "@article{"@ + self.bibtex_key() + ",\n"@ + bibtex_field("title"@, self.title)
            + self.author_line() + self.year_line() + self.eprint_lines() + self.class_line()
            + "}\n"@
    }
}

/// A citation key holds alphanumeric characters only.
pub proof fn law_bibtex_key_is_alphanumeric(reference: ReferenceView)
    ensures
        forall|i: int|
            0 <= i < reference.bibtex_key().len() ==> alphanumeric(
                #[trigger] reference.bibtex_key()[i],
            ),
{
    lemma_alphanumerics(reference.key_author() + reference.key_year() + reference.key_title());
}

/// Appends one field line to `out`.
fn push_field(out: &mut String, name: &str, value: &str)
    ensures
        final(out)@ == old(out)@ + bibtex_field(name@, value@),
{
    out.append("  ");
    out.append(name);
    out.append(" = {");
    out.append(value);
    out.append("},\n");
    assert(out@ =~= old(out)@ + bibtex_field(name@, value@));
}

impl Reference {
    /// The paper that this reference stands for, if the catalogue resolved it.
    pub fn to_paper(&self) -> (r: Option<Paper>)
        ensures
            match r {
                Some(p) => self@.promoted() == Some(p@),
                None => self@.promoted() is None,
            },
    {
        match &self.inspire_id {
            Some(id) => Some(
                Paper {
                    id: id.clone(),
                    title: self.title.clone(),
                    authors: copy_strings(&self.authors),
                    arxiv_id: copy_opt_string(&self.arxiv_id),
                    categories: copy_strings(&self.categories),
                    year: self.year,
                },
            ),
            None => None,
        }
    }

    /// The BibTeX entry of this reference.
    pub fn to_bibtex(&self) -> (r: String)
        ensures
            r@ == self@.bibtex(),
    {
        let key = self.generate_bibtex_key();
        let authors_str = join(&self.authors, " and ");
        let mut bibtex = String::new();
        bibtex.append("@article{");
        bibtex.append(key.as_str());
        bibtex.append(",\n");
        push_field(&mut bibtex, "title", self.title.as_str());
        let ghost head = bibtex@;
        assert(head =~= "@article{"@ + self@.bibtex_key() + ",\n"@ + bibtex_field(
            "title"@,
            self.title@,
        ));
        if !authors_str.as_str().is_empty() {
            push_field(&mut bibtex, "author", authors_str.as_str());
        }
        assert(bibtex@ =~= head + self@.author_line());
        if let Some(year) = self.year {
            let year_str = to_decimal(year as u64);
            push_field(&mut bibtex, "year", year_str.as_str());
        }
        assert(bibtex@ =~= head + self@.author_line() + self@.year_line());
        if let Some(arxiv_id) = &self.arxiv_id {
            push_field(&mut bibtex, "eprint", arxiv_id.as_str());
            push_field(&mut bibtex, "archivePrefix", "arXiv");
        }
        assert(bibtex@ =~= head + self@.author_line() + self@.year_line() + self@.eprint_lines());
        if self.categories.len() > 0 {
            push_field(&mut bibtex, "primaryClass", self.categories[0].as_str());
        }
        assert(bibtex@ =~= head + self@.author_line() + self@.year_line() + self@.eprint_lines()
            + self@.class_line());
        bibtex.append("}\n");
        bibtex
    }

    /// The citation key of this reference's BibTeX entry.
    pub fn generate_bibtex_key(&self) -> (key: String)
        ensures
            key@ == self@.bibtex_key(),
    {
        let mut raw = String::new();
        if self.authors.len() > 0 {
            let names = split_words(self.authors[0].as_str());
            if names.len() > 0 {
                assert(texts(names@).last() == names@[names.len() - 1]@);
                raw.append(names[names.len() - 1].as_str());
            } else {
                raw.append("Unknown");
            }
        } else {
            raw.append("Unknown");
        }
        assert(raw@ =~= self@.key_author());
        match self.year {
            Some(y) => {
                let year = to_decimal(y as u64);
                raw.append(year.as_str());
            },
            None => {
                raw.append("YYYY");
            },
        }
        let title_words = split_words(self.title.as_str());
        if title_words.len() > 0 {
            assert(texts(title_words@)[0] == title_words@[0]@);
            raw.append(title_words[0].as_str());
        }
        if title_words.len() > 1 {
            assert(texts(title_words@)[1] == title_words@[1]@);
            raw.append(title_words[1].as_str());
        }
        assert(raw@ =~= self@.key_author() + self@.key_year() + self@.key_title());
        keep_alphanumeric(raw.as_str())
    }
}

} // verus!
