//! Rendering what was fetched: a reference list as BibTeX entries, a network as
//! one comment block for each paper.

use crate::models::{Paper, PaperView, Reference};
use crate::network::CitationNetwork;
use crate::text::{join, joined, lemma_texts_push, texts};
use std::path::PathBuf;
use vstd::prelude::*;
use vstd::string::*;

verus! {

/// Trusted: `std::path::PathBuf` as a type whose inside is not looked at. Paths
/// are carried through and compared as wholes.
#[verifier::external_type_specification]
#[verifier::external_body]
pub struct ExPathBuf(PathBuf);

/// The format in which results are written.
#[derive(Debug, Clone, Copy, PartialEq, Eq, Structural)]
pub enum OutputFormat {
    Json,
    Bibtex,
}

/// Where and in which format results are written; without a path they go to the
/// standard output.
pub struct OutputWriter {
    pub format: OutputFormat,
    pub output_path: Option<PathBuf>,
}

/// The BibTeX entries of `references`, in order.
pub open spec fn bibtex_entries(references: Seq<Reference>) -> Seq<Seq<char>> {
    Seq::new(references.len(), |i: int| references[i]@.bibtex())
}

/// The comment block of one paper: its title and its authors, separated by commas.
pub open spec fn paper_comment(paper: PaperView) -> Seq<char> {
    "% Paper: "@ + paper.title + "\n% Authors: "@ + joined(paper.authors, ", "@) + "\n"@
}

/// The comment blocks of `papers`, in order.
pub open spec fn paper_comments(papers: Seq<PaperView>) -> Seq<Seq<char>> {
    Seq::new(papers.len(), |i: int| paper_comment(papers[i]))
}

impl OutputWriter {
    /// A writer for `format` that writes to `output_path`.
    pub fn new(format: OutputFormat, output_path: Option<PathBuf>) -> (r: Self)
        ensures
            r.format == format,
            r.output_path == output_path,
    {
        OutputWriter { format, output_path }
    }

    /// The references as BibTeX: their entries in order, one empty line between
    /// each two.
    pub fn format_bibtex(&self, references: &[Reference]) -> (r: String)
        ensures
            r@ == joined(bibtex_entries(references@), "\n"@),
    {
        let mut entries: Vec<String> = Vec::new();
        let n = references.len();
        let mut i: usize = 0;
        assert(texts(entries@) =~= bibtex_entries(references@).take(0));
        while i < n
            invariant
                n == references.len(),
                i <= n,
                texts(entries@) == bibtex_entries(references@).take(i as int),
            decreases n - i,
        {
            let entry = references[i].to_bibtex();
            proof {
                lemma_texts_push(entries@, entry);
                assert(bibtex_entries(references@).take(i + 1) =~= bibtex_entries(
                    references@,
                ).take(i as int).push(entry@));
            }
            entries.push(entry);
            i = i + 1;
        }
        assert(bibtex_entries(references@).take(n as int) =~= bibtex_entries(references@));
        join(&entries, "\n")
    }

    /// The papers of a network as comment blocks, in the order in which the
    /// network holds them, one empty line between each two.
    pub fn format_network_bibtex(&self, network: &CitationNetwork) -> (r: String)
        ensures
            r@ == joined(paper_comments(network@.papers.values), "\n"@),
    {
        let papers = network.get_all_papers();
        let ghost all = network@.papers.values;
        let mut blocks: Vec<String> = Vec::new();
        let n = papers.len();
        let mut i: usize = 0;
        assert(texts(blocks@) =~= paper_comments(all).take(0));
        while i < n
            invariant
                n == papers.len(),
                crate::network::paper_views(papers@) == all,
                i <= n,
                texts(blocks@) == paper_comments(all).take(i as int),
            decreases n - i,
        {
            let paper: &Paper = papers[i];
            assert(paper@ == all[i as int]);
            let authors = join(&paper.authors, ", ");
            let mut block = String::new();
            block.append("% Paper: ");
            block.append(paper.title.as_str());
            block.append("\n% Authors: ");
            block.append(authors.as_str());
            block.append("\n");
            proof {
                assert(block@ =~= paper_comment(paper@));
                lemma_texts_push(blocks@, block);
                assert(paper_comments(all).take(i + 1) =~= paper_comments(all).take(
                    i as int,
                ).push(block@));
            }
            blocks.push(block);
            i = i + 1;
        }
        assert(paper_comments(all).take(n as int) =~= paper_comments(all));
        join(&blocks, "\n")
    }
}

} // verus!
