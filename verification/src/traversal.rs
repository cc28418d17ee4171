//! Building a network from a root paper: the decisions of the depth-bounded
//! traversal, one step at a time. The caller fetches; these functions say what
//! to fetch next and what a fetched reference list does to the network.

use crate::models::{reference_views, Paper, PaperView, Reference, ReferenceView};
use crate::network::{edges_at, CitationNetwork, NetworkView};
use crate::text::{lemma_texts_push, texts};
use vstd::hash_set::StringHashSet;
use vstd::prelude::*;

verus! {

/// A paper that waits to be expanded, with its distance from the root.
#[derive(Debug)]
pub struct WorkItem {
    pub id: String,
    pub depth: u32,
}

/// The mathematical value of a `WorkItem`.
pub struct WorkItemView {
    pub id: Seq<char>,
    pub depth: u32,
}

impl View for WorkItem {
    type V = WorkItemView;

    open spec fn view(&self) -> WorkItemView {
        WorkItemView { id: self.id@, depth: self.depth }
    }
}

/// The values of a list of work items.
pub open spec fn item_views(items: Seq<WorkItem>) -> Seq<WorkItemView> {
    Seq::new(items.len(), |i: int| items[i]@)
}

/// The value of an optional work item.
pub open spec fn opt_item_view(item: Option<WorkItem>) -> Option<WorkItemView> {
    match item {
        Some(item) => Some(item@),
        None => None,
    }
}

/// The papers that the resolvable references stand for, in order. A reference
/// without a catalogue identifier stands for none.
pub open spec fn resolved(references: Seq<ReferenceView>) -> Seq<PaperView>
    decreases references.len(),
{
    if references.len() == 0 {
        Seq::empty()
    } else {
        match references.last().promoted() {
            Some(paper) => resolved(references.drop_last()).push(paper),
            None => resolved(references.drop_last()),
        }
    }
}

/// The identifiers of `papers`, in order.
pub open spec fn ids_of(papers: Seq<PaperView>) -> Seq<Seq<char>> {
    Seq::new(papers.len(), |i: int| papers[i].id)
}

/// The work items that expanding a paper at `depth` adds for the papers it found:
/// one for each, a level deeper, unless that level is the bound already.
pub open spec fn children(depth: u32, max_depth: u32, found: Seq<PaperView>) -> Seq<WorkItemView> {
    if depth + 1 < max_depth {
        Seq::new(found.len(), |i: int| WorkItemView { id: found[i].id, depth: (depth + 1) as u32 })
    } else {
        Seq::empty()
    }
}

/// The network after the references of `id` were fetched: every resolvable
/// reference is stored as a paper, and their identifiers are the edge list of `id`.
pub open spec fn expanded(net: NetworkView, id: Seq<char>, references: Seq<ReferenceView>)
    -> NetworkView {
    net.with_papers(resolved(references)).with_citations(id, ids_of(resolved(references)))
}

/// The mathematical value of a `Traversal`: the work list with its top at the
/// end, the identifiers already expanded, and the depth bound.
pub struct TraversalView {
    pub pending: Seq<WorkItemView>,
    pub visited: Set<Seq<char>>,
    pub max_depth: u32,
}

impl TraversalView {
    /// The traversal that has only the root to look at.
    pub open spec fn start(root: Seq<char>, max_depth: u32) -> Self {
        TraversalView {
            pending: seq![WorkItemView { id: root, depth: 0 }],
            visited: Set::empty(),
            max_depth,
        }
    }

    /// Whether `item` is dropped unexpanded: it was expanded before, or it lies at
    /// the depth bound or beyond.
    pub open spec fn discards(self, item: WorkItemView) -> bool {
        self.visited.contains(item.id) || item.depth >= self.max_depth
    }

    /// Takes items off the top of the work list until one is to be expanded, and
    /// marks that one visited. Without such an item the work list ends up empty.
    pub open spec fn next(self) -> (TraversalView, Option<WorkItemView>)
        decreases self.pending.len(),
    {
        if self.pending.len() == 0 {
            (self, None)
        } else {
            let item = self.pending.last();
            let rest = TraversalView { pending: self.pending.drop_last(), ..self };
            if rest.discards(item) {
                rest.next()
            } else {
                (TraversalView { visited: rest.visited.insert(item.id), ..rest }, Some(item))
            }
        }
    }

    /// The traversal after `item` was expanded into `found`: their work items lie
    /// on top of the work list, the last one topmost.
    pub open spec fn grown(self, item: WorkItemView, found: Seq<PaperView>) -> Self {
        TraversalView {
            pending: self.pending + children(item.depth, self.max_depth, found),
            ..self
        }
    }

    /// Every paper that has an edge list was expanded by this traversal.
    pub open spec fn covers(self, net: NetworkView) -> bool {
        forall|id: Seq<char>| #[trigger] net.citations.contains(id) ==> self.visited.contains(id)
    }
}

/// The state of one build: what is left to look at, and what was expanded.
pub struct Traversal {
    pending: Vec<WorkItem>,
    visited: StringHashSet,
    max_depth: u32,
}

impl View for Traversal {
    type V = TraversalView;

    closed spec fn view(&self) -> TraversalView {
        TraversalView {
            pending: item_views(self.pending@),
            visited: self.visited@,
            max_depth: self.max_depth,
        }
    }
}

impl CitationNetwork {
    /// Starts a build from the outcome of resolving the root. A root that was not
    /// resolved ends the build at once: the error comes back and the network is
    /// left as it was. Else the root is stored and becomes the one item to look at.
    pub fn begin_build<E>(&mut self, root: Result<Paper, E>, max_depth: u32) -> (r: Result<
        Traversal,
        E,
    >)
        ensures
            match root {
                Ok(paper) => {
                    &&& r is Ok
                    &&& r->Ok_0@ == TraversalView::start(paper@.id, max_depth)
                    &&& final(self)@ == old(self)@.with_paper(paper@)
                },
                Err(e) => {
                    &&& r is Err
                    &&& r->Err_0 == e
                    &&& *final(self) == *old(self)
                },
            },
            old(self)@.well_formed(),
            final(self)@.well_formed(),
            old(self)@.consistent() ==> final(self)@.consistent(),
            r matches Ok(traversal) ==> (old(self)@.citations.len() == 0
                ==> traversal@.covers(final(self)@)),
    {
        proof {
            if root is Ok && self@.citations.len() == 0 {
                assert forall|id: Seq<char>| #[trigger]
                    self@.with_paper(root->Ok_0@).citations.contains(id) implies false by {
                    self@.citations.lemma_position_of(id);
                }
            }
        }
        self.note_well_formed();
        match root {
            Err(e) => Err(e),
            Ok(paper) => {
                let root_id = paper.id.clone();
                self.add_paper(paper);
                let mut pending: Vec<WorkItem> = Vec::new();
                pending.push(WorkItem { id: root_id, depth: 0 });
                let traversal = Traversal { pending, visited: StringHashSet::new(), max_depth };
                assert(traversal@.pending =~= TraversalView::start(root_id@, max_depth).pending);
                Ok(traversal)
            },
        }
    }
}

impl Traversal {
    /// The depth bound of this build.
    pub fn max_depth(&self) -> (d: u32)
        ensures
            d == self@.max_depth,
    {
        self.max_depth
    }

    /// The number of items that wait on the work list.
    pub fn pending_count(&self) -> (n: usize)
        ensures
            n == self@.pending.len(),
    {
        self.pending.len()
    }

    /// Whether the paper `id` was handed out for expansion.
    pub fn is_visited(&self, id: &str) -> (b: bool)
        ensures
            b == self@.visited.contains(id@),
    {
        self.visited.contains(id)
    }

    /// The next paper whose references are to be fetched, marked visited; `None`
    /// when the build is complete. Items that were expanded before, or that lie at
    /// the depth bound, are dropped on the way.
    pub fn next_request(&mut self) -> (r: Option<WorkItem>)
        ensures
            (final(self)@, opt_item_view(r)) == old(self)@.next(),
            final(self)@.max_depth == old(self)@.max_depth,
            match r {
                Some(item) => {
                    &&& !old(self)@.visited.contains(item@.id)
                    &&& item.depth < old(self)@.max_depth
                    &&& final(self)@.visited == old(self)@.visited.insert(item@.id)
                    &&& final(self)@.pending.len() < old(self)@.pending.len()
                },
                None => {
                    &&& final(self)@.visited == old(self)@.visited
                    &&& final(self)@.pending.len() == 0
                },
            },
    {
        loop
            invariant
                self@.next() == old(self)@.next(),
            decreases self.pending.len(),
        {
            let ghost before = self@;
            proof {
                lemma_next(old(self)@);
            }
            match self.pending.pop() {
                None => {
                    assert(before.pending.len() == 0);
                    return None;
                },
                Some(item) => {
                    assert(before.pending.last() == item@);
                    assert(self@.pending =~= before.pending.drop_last());
                    if !self.visited.contains(item.id.as_str()) && item.depth < self.max_depth {
                        self.visited.insert(item.id.clone());
                        return Some(item);
                    }
                },
            }
        }
    }

    /// Takes in the outcome of fetching the references of `item`. A fetch that
    /// failed changes nothing: the paper stays without an edge list. Else every
    /// resolvable reference is stored as a paper and, while the depth bound allows,
    /// put on the work list; their identifiers become the edge list of `item`.
    pub fn record(
        &mut self,
        network: &mut CitationNetwork,
        item: &WorkItem,
        fetched: Option<Vec<Reference>>,
    )
        ensures
            match fetched {
                Some(references) => {
                    &&& final(network)@ == expanded(
                        old(network)@,
                        item@.id,
                        reference_views(references@),
                    )
                    &&& final(self)@ == old(self)@.grown(
                        item@,
                        resolved(reference_views(references@)),
                    )
                },
                None => {
                    &&& *final(network) == *old(network)
                    &&& *final(self) == *old(self)
                },
            },
            old(network)@.well_formed(),
            final(network)@.well_formed(),
            old(network)@.consistent() && !old(network)@.has_edges_from(item@.id)
                ==> final(network)@.consistent(),
            old(self)@.covers(old(network)@) && old(self)@.visited.contains(item@.id)
                ==> final(self)@.covers(final(network)@),
    {
        network.note_well_formed();
        proof {
            if fetched is Some {
                lemma_expansion(network@, self@, item@, reference_views(fetched->0@));
            }
        }
        match fetched {
            None => {},
            Some(references) => {
                let ghost all = reference_views(references@);
                let deeper = item.depth < self.max_depth && item.depth + 1 < self.max_depth;
                let mut ref_ids: Vec<String> = Vec::new();
                let n = references.len();
                let mut i: usize = 0;
                assert(texts(ref_ids@) =~= ids_of(resolved(all.take(0))));
                assert(self@.pending =~= old(self)@.grown(item@, resolved(all.take(0))).pending);
                while i < n
                    invariant
                        n == references.len(),
                        all == reference_views(references@),
                        i <= n,
                        deeper == (item.depth + 1 < self.max_depth),
                        network@ == old(network)@.with_papers(resolved(all.take(i as int))),
                        network@.well_formed(),
                        texts(ref_ids@) == ids_of(resolved(all.take(i as int))),
                        self@ == old(self)@.grown(item@, resolved(all.take(i as int))),
                    decreases n - i,
                {
                    let ghost found = resolved(all.take(i as int));
                    proof {
                        assert(all.take(i + 1).drop_last() =~= all.take(i as int));
                        assert(all.take(i + 1).last() == references@[i as int]@);
                    }
                    match references[i].to_paper() {
                        Some(paper) => {
                            let id = paper.id.clone();
                            proof {
                                lemma_texts_push(ref_ids@, id);
                                assert(resolved(all.take(i + 1)) == found.push(paper@));
                                assert(found.push(paper@).drop_last() =~= found);
                                assert(ids_of(found.push(paper@)) =~= ids_of(found).push(id@));
                                assert(children(item.depth, self.max_depth, found.push(paper@))
                                    =~= if deeper {
                                    children(item.depth, self.max_depth, found).push(
                                        WorkItemView { id: id@, depth: (item.depth + 1) as u32 },
                                    )
                                } else {
                                    children(item.depth, self.max_depth, found)
                                });
                            }
                            network.add_paper(paper);
                            ref_ids.push(id.clone());
                            if deeper {
                                let ghost before = self@;
                                let child = WorkItem { id, depth: item.depth + 1 };
                                self.pending.push(child);
                                assert(self@.pending =~= before.pending.push(child@));
                                assert(self@.pending =~= old(self)@.grown(
                                    item@,
                                    found.push(paper@),
                                ).pending);
                            }
                        },
                        None => {
                            assert(resolved(all.take(i + 1)) == found);
                        },
                    }
                    i = i + 1;
                }
                assert(all.take(n as int) =~= all);
                network.add_citations(item.id.as_str(), ref_ids);
            },
        }
    }
}

/// What `next` leaves behind: the item it hands out was not expanded before and
/// lies below the depth bound, and is the only identifier newly visited.
pub proof fn lemma_next(t: TraversalView)
    ensures
        t.next().0.max_depth == t.max_depth,
        t.next().0.pending.len() <= t.pending.len(),
        match t.next().1 {
            Some(item) => {
                &&& !t.visited.contains(item.id)
                &&& item.depth < t.max_depth
                &&& t.next().0.visited == t.visited.insert(item.id)
                &&& t.next().0.pending.len() < t.pending.len()
            },
            None => {
                &&& t.next().0.visited == t.visited
                &&& t.next().0.pending.len() == 0
            },
        },
    decreases t.pending.len(),
{
    if t.pending.len() > 0 {
        let item = t.pending.last();
        let rest = TraversalView { pending: t.pending.drop_last(), ..t };
        if rest.discards(item) {
            lemma_next(rest);
        }
    }
}

/// A reference without a catalogue identifier, wherever it stands in the list,
/// adds no paper.
pub proof fn lemma_unresolved_is_skipped(
    references: Seq<ReferenceView>,
    at: int,
    extra: ReferenceView,
)
    requires
        0 <= at <= references.len(),
        extra.inspire_id is None,
    ensures
        resolved(references.insert(at, extra)) == resolved(references),
    decreases references.len() - at,
{
    let longer = references.insert(at, extra);
    if at == references.len() {
        assert(longer.drop_last() =~= references);
    } else {
        lemma_unresolved_is_skipped(references.drop_last(), at, extra);
        assert(longer.drop_last() =~= references.drop_last().insert(at, extra));
        assert(longer.last() == references.last());
    }
}

/// A reference that the catalogue could not resolve leaves no trace: with it or
/// without it in the fetched list, the network and the work list come out the same.
pub proof fn law_unresolved_reference_is_ignored(
    net: NetworkView,
    t: TraversalView,
    item: WorkItemView,
    references: Seq<ReferenceView>,
    at: int,
    extra: ReferenceView,
)
    requires
        0 <= at <= references.len(),
        extra.inspire_id is None,
    ensures
        expanded(net, item.id, references.insert(at, extra)) == expanded(net, item.id, references),
        t.grown(item, resolved(references.insert(at, extra))) == t.grown(
            item,
            resolved(references),
        ),
{
    lemma_unresolved_is_skipped(references, at, extra);
}

/// The edge list that an expansion records holds the identifiers of the
/// resolvable references and no other, and each of them has a paper afterwards.
pub proof fn law_expansion_records_resolved_only(
    net: NetworkView,
    id: Seq<char>,
    references: Seq<ReferenceView>,
)
    requires
        net.well_formed(),
    ensures
        edges_at(expanded(net, id, references).citations, id) == ids_of(resolved(references)),
        forall|i: int|
            0 <= i < resolved(references).len() ==> expanded(net, id, references).papers.contains(
                #[trigger] resolved(references)[i].id,
            ),
        forall|key: Seq<char>|
            expanded(net, id, references).papers.contains(key) ==> net.papers.contains(key)
                || ids_of(resolved(references)).contains(key),
{
    let found = resolved(references);
    lemma_papers_after(net, found);
    net.lemma_with_papers(found);
    net.with_papers(found).citations.lemma_put(id, ids_of(found));
    assert forall|i: int| 0 <= i < found.len() implies expanded(net, id, references).papers.contains(
        #[trigger] found[i].id,
    ) by {
        assert(ids_of(found)[i] == found[i].id);
    }
}

/// The papers that `with_papers` leaves: those that were there and those given.
pub proof fn lemma_papers_after(net: NetworkView, papers: Seq<PaperView>)
    requires
        net.well_formed(),
    ensures
        forall|key: Seq<char>| #[trigger]
            net.with_papers(papers).papers.contains(key) <==> net.papers.contains(key) || ids_of(
                papers,
            ).contains(key),
    decreases papers.len(),
{
    let after = net.with_papers(papers);
    if papers.len() == 0 {
        assert forall|key: Seq<char>| #[trigger]
            after.papers.contains(key) <==> net.papers.contains(key) || ids_of(papers).contains(
                key,
            ) by {
            assert(!ids_of(papers).contains(key));
        }
    } else {
        let head = papers.drop_last();
        let last = papers.last();
        lemma_papers_after(net, head);
        net.lemma_with_papers(head);
        net.with_papers(head).papers.lemma_put(last.id, last);
        assert(ids_of(papers) =~= ids_of(head).push(last.id));
        assert forall|key: Seq<char>| #[trigger]
            after.papers.contains(key) <==> net.papers.contains(key) || ids_of(papers).contains(
                key,
            ) by {
            crate::network::lemma_push_contains(ids_of(head), last.id, key);
            assert(net.with_papers(head).papers.contains(key) <==> net.papers.contains(key)
                || ids_of(head).contains(key));
        }
    }
}

/// What an expansion keeps: agreement, where the expanded paper had no edge yet,
/// and coverage, where the expanded paper counts as visited.
pub proof fn lemma_expansion(
    net: NetworkView,
    t: TraversalView,
    item: WorkItemView,
    references: Seq<ReferenceView>,
)
    requires
        net.well_formed(),
    ensures
        expanded(net, item.id, references).well_formed(),
        net.consistent() && !net.has_edges_from(item.id) ==> expanded(
            net,
            item.id,
            references,
        ).consistent(),
        t.covers(net) && t.visited.contains(item.id) ==> t.grown(item, resolved(references)).covers(
            expanded(net, item.id, references),
        ),
{
    let found = resolved(references);
    let stored = net.with_papers(found);
    net.lemma_with_papers(found);
    stored.citations.lemma_put(item.id, ids_of(found));
    crate::network::lemma_credit_all(stored.reverse_citations, item.id, ids_of(found));
    if net.consistent() && !net.has_edges_from(item.id) {
        assert forall|u: Seq<char>, v: Seq<char>|
            #![trigger stored.cites(u, v)]
            #![trigger stored.cited_by(v, u)]
            stored.cites(u, v) <==> stored.cited_by(v, u) by {
            assert(stored.cites(u, v) == net.cites(u, v));
            assert(stored.cited_by(v, u) == net.cited_by(v, u));
        }
        stored.law_with_citations_keeps_consistency(item.id, ids_of(found));
    }
}

/// A build that starts on a network without edge lists starts covered and in
/// agreement.
pub proof fn law_build_starts_consistent(net: NetworkView, root: PaperView, max_depth: u32)
    requires
        net.well_formed(),
        net.consistent(),
        net.citations.len() == 0,
    ensures
        net.with_paper(root).well_formed(),
        net.with_paper(root).consistent(),
        TraversalView::start(root.id, max_depth).covers(net.with_paper(root)),
{
    net.law_with_paper_keeps_consistency(root);
    let t = TraversalView::start(root.id, max_depth);
    assert forall|id: Seq<char>| #[trigger]
        net.with_paper(root).citations.contains(id) implies t.visited.contains(id) by {
        net.citations.lemma_position_of(id);
    }
}

/// Each step of a build keeps the two directions of the network in agreement:
/// choosing the next paper and then recording its references, or recording
/// nothing where the fetch failed, leads from a covered, consistent state to one.
pub proof fn law_build_step_keeps_consistency(
    net: NetworkView,
    t: TraversalView,
    references: Seq<ReferenceView>,
)
    requires
        net.well_formed(),
        net.consistent(),
        t.covers(net),
    ensures
        t.next().0.covers(net),
        t.next().1 matches Some(item) ==> {
            &&& !net.has_edges_from(item.id)
            &&& expanded(net, item.id, references).well_formed()
            &&& expanded(net, item.id, references).consistent()
            &&& t.next().0.grown(item, resolved(references)).covers(
                expanded(net, item.id, references),
            )
        },
{
    lemma_next(t);
    match t.next().1 {
        None => {},
        Some(item) => {
            assert(!net.citations.contains(item.id));
            lemma_expansion(net, t.next().0, item, references);
        },
    }
}

/// With a depth bound of zero nothing is fetched beyond the root: the build of any
/// root on an empty network ends at once with that one paper and no edge list.
pub proof fn law_depth_zero_stores_the_root_only(root: PaperView)
    ensures
        TraversalView::start(root.id, 0).next().1 is None,
        NetworkView::empty().with_paper(root).papers.len() == 1,
        NetworkView::empty().with_paper(root).papers.get(root.id) == Some(root),
        NetworkView::empty().with_paper(root).citations.len() == 0,
        NetworkView::empty().with_paper(root).reverse_citations.len() == 0,
{
    let t = TraversalView::start(root.id, 0);
    let rest = TraversalView { pending: t.pending.drop_last(), ..t };
    assert(rest.discards(t.pending.last()));
    assert(rest.pending.len() == 0);
    assert(rest.next().1 is None);
    assert(t.next() == rest.next());
    NetworkView::law_empty_is_consistent();
    NetworkView::empty().papers.lemma_put(root.id, root);
    assert(!NetworkView::empty().papers.contains(root.id)) by {
        if NetworkView::empty().papers.contains(root.id) {
            NetworkView::empty().papers.lemma_position_of(root.id);
        }
    }
}

} // verus!
