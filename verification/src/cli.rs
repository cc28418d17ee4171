//! The rules of the command line: which paper is meant, what a network build
//! asks for, and which references pass the category filter.

use crate::models::{reference_views, Reference, ReferenceView};
use crate::text::texts;
use vstd::prelude::*;

verus! {

/// What is wrong with a command line.
#[derive(Debug, Clone, Copy, PartialEq, Eq, Structural)]
pub enum UsageError {
    /// No preprint identifier was given.
    MissingArxivId,
    /// The network command was given without the flag that sets it going.
    BuildNetworkRequired,
}

impl UsageError {
    /// The error in words.
    pub open spec fn message(self) -> Seq<char> {
        match self {
            UsageError::MissingArxivId => "ArXiv ID is required"@,
            UsageError::BuildNetworkRequired => "--build-network flag is required for network command"@,
        }
    }

    /// The error in words.
    pub fn to_string(&self) -> (r: String)
        ensures
            r@ == self.message(),
    {
        match self {
            UsageError::MissingArxivId => "ArXiv ID is required".to_owned(),
            UsageError::BuildNetworkRequired => "--build-network flag is required for network command".to_owned(),
        }
    }
}

/// The preprint identifier that a command is about: the one given to the command
/// itself, else the global one.
pub fn required_arxiv_id(local: Option<String>, global: Option<String>) -> (r: Result<
    String,
    UsageError,
>)
    ensures
        r == match local {
            Some(id) => Ok::<String, UsageError>(id),
            None => match global {
                Some(id) => Ok(id),
                None => Err(UsageError::MissingArxivId),
            },
        },
{
    match local {
        Some(id) => Ok(id),
        None => match global {
            Some(id) => Ok(id),
            None => Err(UsageError::MissingArxivId),
        },
    }
}

/// The root of a network build: the preprint identifier is looked for first,
/// then the flag.
pub fn network_root(local: Option<String>, global: Option<String>, build_network: bool) -> (r:
    Result<String, UsageError>)
    ensures
        r == match local {
            Some(id) => if build_network {
                Ok::<String, UsageError>(id)
            } else {
                Err(UsageError::BuildNetworkRequired)
            },
            None => match global {
                Some(id) => if build_network {
                    Ok(id)
                } else {
                    Err(UsageError::BuildNetworkRequired)
                },
                None => Err(UsageError::MissingArxivId),
            },
        },
{
    match required_arxiv_id(local, global) {
        Err(e) => Err(e),
        Ok(id) => if build_network {
            Ok(id)
        } else {
            Err(UsageError::BuildNetworkRequired)
        },
    }
}

/// Whether one of `categories` is among `wanted`.
pub open spec fn in_any(categories: Seq<Seq<char>>, wanted: Seq<Seq<char>>) -> bool {
    exists|i: int| 0 <= i < categories.len() && wanted.contains(#[trigger] categories[i])
}

/// The references that have a category among `wanted`, in order.
pub open spec fn with_category(references: Seq<ReferenceView>, wanted: Seq<Seq<char>>) -> Seq<
    ReferenceView,
> {
    references.filter(|r: ReferenceView| in_any(r.categories, wanted))
}

/// Whether `wanted` holds `category`.
fn holds(wanted: &Vec<String>, category: &String) -> (b: bool)
    ensures
        b == texts(wanted@).contains(category@),
{
    let mut i: usize = 0;
    while i < wanted.len()
        invariant
            i <= wanted.len(),
            forall|j: int| 0 <= j < i ==> texts(wanted@)[j] != category@,
        decreases wanted.len() - i,
    {
        if wanted[i] == *category {
            assert(texts(wanted@)[i as int] == category@);
            return true;
        }
        i = i + 1;
    }
    false
}

/// Whether `reference` has a category among `wanted`.
pub fn has_category(reference: &Reference, wanted: &Vec<String>) -> (b: bool)
    ensures
        b == in_any(reference@.categories, texts(wanted@)),
{
    let mut i: usize = 0;
    while i < reference.categories.len()
        invariant
            i <= reference.categories.len(),
            forall|j: int| 0 <= j < i ==> !texts(wanted@).contains(reference@.categories[j]),
        decreases reference.categories.len() - i,
    {
        if holds(wanted, &reference.categories[i]) {
            assert(texts(wanted@).contains(reference@.categories[i as int]));
            return true;
        }
        i = i + 1;
    }
    false
}

/// The references that pass the category filter: all of them without a filter,
/// else those with a category among the wanted ones.
pub fn filter_by_categories(references: Vec<Reference>, categories: Option<Vec<String>>) -> (r:
    Vec<Reference>)
    ensures
        reference_views(r@) == match categories {
            Some(wanted) => with_category(reference_views(references@), texts(wanted@)),
            None => reference_views(references@),
        },
{
    match categories {
        None => references,
        Some(wanted) => {
            let ghost all = reference_views(references@);
            let ghost keep = |r: ReferenceView| in_any(r.categories, texts(wanted@));
            let mut out: Vec<Reference> = Vec::new();
            let n = references.len();
            let mut i: usize = 0;
            proof {
                reveal(Seq::filter);
                assert(reference_views(out@) =~= all.take(0).filter(keep));
            }
            while i < n
                invariant
                    n == references.len(),
                    all == reference_views(references@),
                    keep == |r: ReferenceView| in_any(r.categories, texts(wanted@)),
                    i <= n,
                    reference_views(out@) == all.take(i as int).filter(keep),
                decreases n - i,
            {
                proof {
                    reveal(Seq::filter);
                    assert(all.take(i + 1).drop_last() =~= all.take(i as int));
                    assert(all.take(i + 1).last() == references@[i as int]@);
                }
                if has_category(&references[i], &wanted) {
                    let kept = references[i].clone();
                    let ghost before = reference_views(out@);
                    out.push(kept);
                    assert(reference_views(out@) =~= before.push(kept@));
                }
                i = i + 1;
            }
            assert(all.take(n as int) =~= all);
            out
        },
    }
}

} // verus!
