//! The citation graph: papers keyed by identifier, the edges from each citing
//! paper, and the reverse index from each cited paper, kept in step with them.

use crate::idmap::{IdMap, Table};
use crate::models::{Paper, PaperView};
use crate::text::{copy_strings, lemma_deep_view_is_texts, texts};
use vstd::prelude::*;

verus! {

/// The list that `table` holds at `key`; empty where the key is absent.
pub open spec fn edges_at(table: Table<Seq<Seq<char>>>, key: Seq<char>) -> Seq<Seq<char>> {
    match table.get(key) {
        Some(list) => list,
        None => Seq::empty(),
    }
}

/// `table` after `from` was appended to the list of each of `targets`, in order.
pub open spec fn credit_all(
    table: Table<Seq<Seq<char>>>,
    from: Seq<char>,
    targets: Seq<Seq<char>>,
) -> Table<Seq<Seq<char>>>
    decreases targets.len(),
{
    if targets.len() == 0 {
        table
    } else {
        let done = credit_all(table, from, targets.drop_last());
        done.put(targets.last(), edges_at(done, targets.last()).push(from))
    }
}

/// The sum of the lengths of the lists.
pub open spec fn total_len(lists: Seq<Seq<Seq<char>>>) -> nat
    decreases lists.len(),
{
    if lists.len() == 0 {
        0
    } else {
        total_len(lists.drop_last()) + lists.last().len()
    }
}

/// The number of lists that are not empty.
pub open spec fn count_nonempty(lists: Seq<Seq<Seq<char>>>) -> nat
    decreases lists.len(),
{
    if lists.len() == 0 {
        0
    } else {
        count_nonempty(lists.drop_last()) + if lists.last().len() > 0 {
            1nat
        } else {
            0nat
        }
    }
}

/// The mathematical value of a `CitationNetwork`.
pub struct NetworkView {
    pub papers: Table<PaperView>,
    pub citations: Table<Seq<Seq<char>>>,
    pub reverse_citations: Table<Seq<Seq<char>>>,
}

impl NetworkView {
    /// The network without papers or edges.
    pub open spec fn empty() -> Self {
        NetworkView {
            papers: Table::empty(),
            citations: Table::empty(),
            reverse_citations: Table::empty(),
        }
    }

    /// Each of the three tables is well-formed.
    pub open spec fn well_formed(self) -> bool {
        &&& self.papers.well_formed()
        &&& self.citations.well_formed()
        &&& self.reverse_citations.well_formed()
    }

    /// The network with `paper` stored under its identifier.
    pub open spec fn with_paper(self, paper: PaperView) -> Self {
        NetworkView { papers: self.papers.put(paper.id, paper), ..self }
    }

    /// The network with each of `papers` stored, in order.
    pub open spec fn with_papers(self, papers: Seq<PaperView>) -> Self
        decreases papers.len(),
    {
        if papers.len() == 0 {
            self
        } else {
            self.with_papers(papers.drop_last()).with_paper(papers.last())
        }
    }

    /// The network with one more edge: `to` at the end of `from`'s list, and `from`
    /// at the end of `to`'s reverse list.
    pub open spec fn with_citation(self, from: Seq<char>, to: Seq<char>) -> Self {
        NetworkView {
            citations: self.citations.put(from, edges_at(self.citations, from).push(to)),
            reverse_citations: self.reverse_citations.put(
                to,
                edges_at(self.reverse_citations, to).push(from),
            ),
            ..self
        }
    }

    /// The network with `targets` as the whole list of `from`, in place of any list
    /// it had, and `from` at the end of the reverse list of each target.
    pub open spec fn with_citations(self, from: Seq<char>, targets: Seq<Seq<char>>) -> Self {
        NetworkView {
            citations: self.citations.put(from, targets),
            reverse_citations: credit_all(self.reverse_citations, from, targets),
            ..self
        }
    }

    /// Whether `to` stands in the list of `from`.
    pub open spec fn cites(self, from: Seq<char>, to: Seq<char>) -> bool {
        edges_at(self.citations, from).contains(to)
    }

    /// Whether `from` stands in the reverse list of `to`.
    pub open spec fn cited_by(self, to: Seq<char>, from: Seq<char>) -> bool {
        edges_at(self.reverse_citations, to).contains(from)
    }

    /// The two directions agree: the reverse list of `v` holds `u` exactly when the
    /// list of `u` holds `v`.
    pub open spec fn consistent(self) -> bool {
        forall|u: Seq<char>, v: Seq<char>|
            #![trigger self.cites(u, v)]
            #![trigger self.cited_by(v, u)]
            self.cites(u, v) <==> self.cited_by(v, u)
    }

    /// Whether the list of `from` holds anything.
    pub open spec fn has_edges_from(self, from: Seq<char>) -> bool {
        edges_at(self.citations, from).len() > 0
    }

    /// The papers stored under `ids`, in that order; an identifier without a paper
    /// is passed over.
    pub open spec fn resolve(self, ids: Seq<Seq<char>>) -> Seq<PaperView>
        decreases ids.len(),
    {
        if ids.len() == 0 {
            Seq::empty()
        } else {
            match self.papers.get(ids.last()) {
                Some(paper) => self.resolve(ids.drop_last()).push(paper),
                None => self.resolve(ids.drop_last()),
            }
        }
    }

    /// The sum of the lengths of all edge lists.
    pub open spec fn total_citations(self) -> nat {
        total_len(self.citations.values)
    }

    /// The number of papers whose edge list is not empty.
    pub open spec fn papers_with_references(self) -> nat {
        count_nonempty(self.citations.values)
    }

    /// The number of papers whose reverse list is not empty.
    pub open spec fn papers_being_cited(self) -> nat {
        count_nonempty(self.reverse_citations.values)
    }
}

/// The values of a list of borrowed papers.
pub open spec fn paper_views(papers: Seq<&Paper>) -> Seq<PaperView> {
    Seq::new(papers.len(), |i: int| papers[i]@)
}

/// Four counts over a network.
#[derive(Debug, Clone, Copy, PartialEq, Eq)]
pub struct NetworkStats {
    pub total_papers: usize,
    pub total_citations: u128,
    pub papers_with_references: usize,
    pub papers_being_cited: usize,
}

/// A network's three maps as plain lists, entry by entry.
pub struct SerializableNetwork {
    pub papers: Vec<(String, Paper)>,
    pub citations: Vec<(String, Vec<String>)>,
    pub reverse_citations: Vec<(String, Vec<String>)>,
}

/// The table that a list of identifier and paper pairs spells.
pub open spec fn paper_entries(list: Seq<(String, Paper)>) -> Table<PaperView> {
    Table {
        keys: Seq::new(list.len(), |i: int| list[i].0@),
        values: Seq::new(list.len(), |i: int| list[i].1@),
    }
}

/// The table that a list of identifier and edge-list pairs spells.
pub open spec fn edge_entries(list: Seq<(String, Vec<String>)>) -> Table<Seq<Seq<char>>> {
    Table {
        keys: Seq::new(list.len(), |i: int| list[i].0@),
        values: Seq::new(list.len(), |i: int| texts(list[i].1@)),
    }
}

impl SerializableNetwork {
    /// The network that the three lists spell.
    pub open spec fn view(&self) -> NetworkView {
        NetworkView {
            papers: paper_entries(self.papers@),
            citations: edge_entries(self.citations@),
            reverse_citations: edge_entries(self.reverse_citations@),
        }
    }
}

/// The citation graph.
pub struct CitationNetwork {
    pub papers: IdMap<Paper>,
    pub citations: IdMap<Vec<String>>,
    pub reverse_citations: IdMap<Vec<String>>,
}

impl View for CitationNetwork {
    type V = NetworkView;

    open spec fn view(&self) -> NetworkView {
        NetworkView {
            papers: self.papers@,
            citations: self.citations@,
            reverse_citations: self.reverse_citations@,
        }
    }
}

/// The entries of an edge map as plain lists.
fn export_edges(map: &IdMap<Vec<String>>) -> (r: Vec<(String, Vec<String>)>)
    ensures
        edge_entries(r@) == map@,
{
    let mut out: Vec<(String, Vec<String>)> = Vec::new();
    let n = map.len();
    let mut i: usize = 0;
    while i < n
        invariant
            n == map@.len(),
            map@.well_formed(),
            i <= n,
            out@.len() == i,
            forall|j: int| 0 <= j < i ==> (#[trigger] out@[j]).0@ == map@.keys[j],
            forall|j: int| 0 <= j < i ==> texts((#[trigger] out@[j]).1@) == map@.values[j],
        decreases n - i,
    {
        match map.entry(i) {
            Some((key, list)) => {
                proof {
                    lemma_deep_view_is_texts(*list);
                }
                out.push((key.clone(), copy_strings(list)));
            },
            None => {},
        }
        i = i + 1;
    }
    assert(edge_entries(out@).keys =~= map@.keys);
    assert(edge_entries(out@).values =~= map@.values);
    out
}

/// The number of edges and of non-empty lists in an edge map.
fn count_edges(map: &IdMap<Vec<String>>) -> (r: (u128, usize))
    ensures
        r.0 == total_len(map@.values),
        r.1 == count_nonempty(map@.values),
{
    let n = map.len();
    let mut total: u128 = 0;
    let mut nonempty: usize = 0;
    let mut i: usize = 0;
    while i < n
        invariant
            n == map@.len(),
            map@.well_formed(),
            i <= n,
            total == total_len(map@.values.take(i as int)),
            nonempty == count_nonempty(map@.values.take(i as int)),
            nonempty <= i,
            total <= i * 0x1_0000_0000_0000_0000,
        decreases n - i,
    {
        match map.entry(i) {
            Some((_, list)) => {
                let len = list.len();
                proof {
                    let before = map@.values.take(i as int);
                    let after = map@.values.take(i + 1);
                    assert(after.drop_last() =~= before);
                    assert(after.last() == map@.values[i as int]);
                    assert(list.deep_view().len() == len);
                    assert(total + len <= (i + 1) * 0x1_0000_0000_0000_0000) by (nonlinear_arith)
                        requires
                            total <= i * 0x1_0000_0000_0000_0000,
                            len < 0x1_0000_0000_0000_0000,
                    ;
                    assert((i + 1) * 0x1_0000_0000_0000_0000 <= 0x1_0000_0000_0000_0000
                        * 0x1_0000_0000_0000_0000) by (nonlinear_arith)
                        requires
                            i + 1 <= 0x1_0000_0000_0000_0000,
                    ;
                }
                total = total + len as u128;
                if len > 0 {
                    nonempty = nonempty + 1;
                }
            },
            None => {},
        }
        i = i + 1;
    }
    assert(map@.values.take(n as int) =~= map@.values);
    (total, nonempty)
}

impl CitationNetwork {
    /// A network without papers or edges.
    pub fn new() -> (r: Self)
        ensures
            r@ == NetworkView::empty(),
    {
        CitationNetwork {
            papers: IdMap::new(),
            citations: IdMap::new(),
            reverse_citations: IdMap::new(),
        }
    }

    /// The value of a network is well-formed: its maps see to that.
    pub(crate) fn note_well_formed(&self)
        ensures
            self@.well_formed(),
    {
        proof {
            use_type_invariant(&self.papers);
            use_type_invariant(&self.citations);
            use_type_invariant(&self.reverse_citations);
            self.papers.lemma_view();
            self.citations.lemma_view();
            self.reverse_citations.lemma_view();
        }
    }

    /// Stores `paper` under its identifier, in place of any paper stored there.
    pub fn add_paper(&mut self, paper: Paper)
        ensures
            final(self)@ == old(self)@.with_paper(paper@),
            old(self)@.well_formed(),
            final(self)@.well_formed(),
            old(self)@.consistent() ==> final(self)@.consistent(),
    {
        self.note_well_formed();
        proof {
            if self@.consistent() {
                self@.law_with_paper_keeps_consistency(paper@);
            }
        }
        let id = paper.id.clone();
        self.papers.insert(id, paper);
    }

    /// Records one edge: `to` at the end of `from`'s list and `from` at the end of
    /// `to`'s reverse list.
    pub fn add_citation(&mut self, from: &str, to: &str)
        ensures
            final(self)@ == old(self)@.with_citation(from@, to@),
            old(self)@.well_formed(),
            final(self)@.well_formed(),
            old(self)@.consistent() ==> final(self)@.consistent(),
    {
        self.note_well_formed();
        proof {
            if self@.consistent() {
                self@.law_with_citation_keeps_consistency(from@, to@);
            }
        }
        self.citations.append_to(from, to.to_owned());
        self.reverse_citations.append_to(to, from.to_owned());
    }

    /// Records `referenced_paper_ids` as the whole edge list of `citing_paper_id`,
    /// in place of any list it had, and adds the citing paper to the reverse list
    /// of each of them.
    pub fn add_citations(&mut self, citing_paper_id: &str, referenced_paper_ids: Vec<String>)
        ensures
            final(self)@ == old(self)@.with_citations(
                citing_paper_id@,
                texts(referenced_paper_ids@),
            ),
            old(self)@.well_formed(),
            final(self)@.well_formed(),
            old(self)@.consistent() && !old(self)@.has_edges_from(citing_paper_id@)
                ==> final(self)@.consistent(),
    {
        self.note_well_formed();
        proof {
            if self@.consistent() && !self@.has_edges_from(citing_paper_id@) {
                self@.law_with_citations_keeps_consistency(
                    citing_paper_id@,
                    texts(referenced_paper_ids@),
                );
            }
        }
        let ghost targets = texts(referenced_paper_ids@);
        let n = referenced_paper_ids.len();
        let mut i: usize = 0;
        while i < n
            invariant
                n == referenced_paper_ids.len(),
                targets == texts(referenced_paper_ids@),
                i <= n,
                self.papers == old(self).papers,
                self.citations == old(self).citations,
                self.reverse_citations@ == credit_all(
                    old(self)@.reverse_citations,
                    citing_paper_id@,
                    targets.take(i as int),
                ),
                self.reverse_citations@.well_formed(),
            decreases n - i,
        {
            proof {
                assert(targets.take(i + 1).drop_last() =~= targets.take(i as int));
                assert(targets.take(i + 1).last() == referenced_paper_ids@[i as int]@);
            }
            self.reverse_citations.append_to(
                referenced_paper_ids[i].as_str(),
                citing_paper_id.to_owned(),
            );
            i = i + 1;
        }
        proof {
            assert(targets.take(n as int) =~= targets);
            lemma_deep_view_is_texts(referenced_paper_ids);
        }
        self.citations.insert(citing_paper_id.to_owned(), referenced_paper_ids);
    }

    /// The number of papers.
    pub fn paper_count(&self) -> (n: usize)
        ensures
            n == self@.papers.len(),
    {
        self.papers.len()
    }

    /// Every paper, in the order in which their identifiers first came.
    pub fn get_all_papers(&self) -> (r: Vec<&Paper>)
        ensures
            paper_views(r@) == self@.papers.values,
    {
        let mut out: Vec<&Paper> = Vec::new();
        let n = self.papers.len();
        let mut i: usize = 0;
        while i < n
            invariant
                n == self.papers@.len(),
                self.papers@.well_formed(),
                i <= n,
                paper_views(out@) == self.papers@.values.take(i as int),
            decreases n - i,
        {
            match self.papers.entry(i) {
                Some((_, paper)) => {
                    let ghost before = paper_views(out@);
                    out.push(paper);
                    assert(paper_views(out@) =~= before.push(paper@));
                    assert(before.push(paper@) =~= self.papers@.values.take(i + 1));
                },
                None => {},
            }
            i = i + 1;
        }
        assert(self.papers@.values.take(n as int) =~= self.papers@.values);
        out
    }

    /// The papers stored under the identifiers of `ids`, in that order.
    fn resolve_all(&self, ids: &Vec<String>) -> (r: Vec<&Paper>)
        ensures
            paper_views(r@) == self@.resolve(texts(ids@)),
    {
        let mut out: Vec<&Paper> = Vec::new();
        let n = ids.len();
        let mut i: usize = 0;
        assert(paper_views(out@) =~= self@.resolve(texts(ids@).take(0)));
        while i < n
            invariant
                n == ids.len(),
                i <= n,
                paper_views(out@) == self@.resolve(texts(ids@).take(i as int)),
            decreases n - i,
        {
            proof {
                assert(texts(ids@).take(i + 1).drop_last() =~= texts(ids@).take(i as int));
                assert(texts(ids@).take(i + 1).last() == ids@[i as int]@);
            }
            let ghost before = paper_views(out@);
            match self.papers.get(ids[i].as_str()) {
                Some(paper) => {
                    out.push(paper);
                    assert(paper_views(out@) =~= before.push(paper@));
                },
                None => {},
            }
            i = i + 1;
        }
        assert(texts(ids@).take(n as int) =~= texts(ids@));
        out
    }

    /// The papers that cite `id`, in the order of its reverse list; a citing
    /// identifier without a stored paper is passed over.
    pub fn get_citing_papers(&self, id: &str) -> (r: Vec<&Paper>)
        ensures
            paper_views(r@) == self@.resolve(edges_at(self@.reverse_citations, id@)),
    {
        match self.reverse_citations.get(id) {
            Some(list) => {
                proof {
                    lemma_deep_view_is_texts(*list);
                }
                self.resolve_all(list)
            },
            None => {
                let out: Vec<&Paper> = Vec::new();
                assert(paper_views(out@) =~= Seq::empty());
                out
            },
        }
    }

    /// The papers that `id` cites, in the order of its edge list; a cited
    /// identifier without a stored paper is passed over.
    pub fn get_cited_papers(&self, id: &str) -> (r: Vec<&Paper>)
        ensures
            paper_views(r@) == self@.resolve(edges_at(self@.citations, id@)),
    {
        match self.citations.get(id) {
            Some(list) => {
                proof {
                    lemma_deep_view_is_texts(*list);
                }
                self.resolve_all(list)
            },
            None => {
                let out: Vec<&Paper> = Vec::new();
                assert(paper_views(out@) =~= Seq::empty());
                out
            },
        }
    }

    /// The number of papers, the number of edges, and the numbers of papers with a
    /// non-empty edge list and with a non-empty reverse list.
    pub fn get_stats(&self) -> (stats: NetworkStats)
        ensures
            stats.total_papers == self@.papers.len(),
            stats.total_citations == self@.total_citations(),
            stats.papers_with_references == self@.papers_with_references(),
            stats.papers_being_cited == self@.papers_being_cited(),
    {
        let forward = count_edges(&self.citations);
        let backward = count_edges(&self.reverse_citations);
        NetworkStats {
            total_papers: self.papers.len(),
            total_citations: forward.0,
            papers_with_references: forward.1,
            papers_being_cited: backward.1,
        }
    }

    /// The three maps as plain lists, entry by entry and unchanged.
    pub fn to_serializable_form(&self) -> (r: SerializableNetwork)
        ensures
            r.view() == self@,
    {
        let mut papers: Vec<(String, Paper)> = Vec::new();
        let n = self.papers.len();
        let mut i: usize = 0;
        while i < n
            invariant
                n == self.papers@.len(),
                self.papers@.well_formed(),
                i <= n,
                papers@.len() == i,
                forall|j: int| 0 <= j < i ==> (#[trigger] papers@[j]).0@ == self.papers@.keys[j],
                forall|j: int| 0 <= j < i ==> (#[trigger] papers@[j]).1@ == self.papers@.values[j],
            decreases n - i,
        {
            match self.papers.entry(i) {
                Some((key, paper)) => {
                    papers.push((key.clone(), paper.clone()));
                },
                None => {},
            }
            i = i + 1;
        }
        assert(paper_entries(papers@).keys =~= self.papers@.keys);
        assert(paper_entries(papers@).values =~= self.papers@.values);
        SerializableNetwork {
            papers,
            citations: export_edges(&self.citations),
            reverse_citations: export_edges(&self.reverse_citations),
        }
    }
}

/// A pushed element is contained, beside what was contained before.
pub proof fn lemma_push_contains(list: Seq<Seq<char>>, last: Seq<char>, x: Seq<char>)
    ensures
        list.push(last).contains(x) <==> list.contains(x) || x == last,
{
    let longer = list.push(last);
    if list.contains(x) {
        let i = list.index_of(x);
        assert(0 <= i < list.len() && list[i] == x);
        assert(longer[i] == x);
    }
    if x == last {
        assert(longer[list.len() as int] == x);
    }
    if longer.contains(x) {
        let i = longer.index_of(x);
        assert(0 <= i < longer.len() && longer[i] == x);
        if i < list.len() {
            assert(list[i] == x);
        }
    }
}

/// What `credit_all` does to the lists: the list of each target gains `from`, and
/// nothing else changes.
pub proof fn lemma_credit_all(
    table: Table<Seq<Seq<char>>>,
    from: Seq<char>,
    targets: Seq<Seq<char>>,
)
    requires
        table.well_formed(),
    ensures
        credit_all(table, from, targets).well_formed(),
        forall|v: Seq<char>, u: Seq<char>|
            #![trigger edges_at(credit_all(table, from, targets), v).contains(u)]
            edges_at(credit_all(table, from, targets), v).contains(u) <==> edges_at(
                table,
                v,
            ).contains(u) || (u == from && targets.contains(v)),
    decreases targets.len(),
{
    let after = credit_all(table, from, targets);
    if targets.len() == 0 {
        assert forall|v: Seq<char>, u: Seq<char>|
            #![trigger edges_at(after, v).contains(u)]
            edges_at(after, v).contains(u) <==> edges_at(table, v).contains(u) || (u == from
                && targets.contains(v)) by {
            assert(!targets.contains(v));
        }
    } else {
        let head = targets.drop_last();
        let last = targets.last();
        let done = credit_all(table, from, head);
        lemma_credit_all(table, from, head);
        let list = edges_at(done, last);
        done.lemma_put(last, list.push(from));
        assert(after == done.put(last, list.push(from)));
        assert forall|v: Seq<char>, u: Seq<char>|
            #![trigger edges_at(after, v).contains(u)]
            edges_at(after, v).contains(u) <==> edges_at(table, v).contains(u) || (u == from
                && targets.contains(v)) by {
            lemma_push_contains(head, last, v);
            assert(head.push(last) =~= targets);
            assert(edges_at(done, v).contains(u) <==> edges_at(table, v).contains(u) || (u == from
                && head.contains(v)));
            if v == last {
                assert(after.get(v) == Some(list.push(from)));
                assert(edges_at(after, v) == list.push(from));
                lemma_push_contains(list, from, u);
            } else {
                assert(after.get(v) == done.get(v));
                assert(edges_at(after, v) == edges_at(done, v));
            }
        }
    }
}

impl NetworkView {
    /// Storing a paper touches no edge.
    pub proof fn lemma_with_papers(self, papers: Seq<PaperView>)
        requires
            self.well_formed(),
        ensures
            self.with_papers(papers).well_formed(),
            self.with_papers(papers).citations == self.citations,
            self.with_papers(papers).reverse_citations == self.reverse_citations,
        decreases papers.len(),
    {
        if papers.len() > 0 {
            self.lemma_with_papers(papers.drop_last());
            self.with_papers(papers.drop_last()).papers.lemma_put(papers.last().id, papers.last());
        }
    }

    /// The empty network is well-formed and consistent.
    pub proof fn law_empty_is_consistent()
        ensures
            Self::empty().well_formed(),
            Self::empty().consistent(),
    {
        let e = Self::empty();
        assert forall|u: Seq<char>, v: Seq<char>|
            #![trigger e.cites(u, v)]
            #![trigger e.cited_by(v, u)]
            e.cites(u, v) <==> e.cited_by(v, u) by {
            assert(!e.citations.keys.contains(u));
            assert(!e.reverse_citations.keys.contains(v));
        }
    }

    /// Storing a paper keeps the two directions in agreement.
    pub proof fn law_with_paper_keeps_consistency(self, paper: PaperView)
        requires
            self.well_formed(),
            self.consistent(),
        ensures
            self.with_paper(paper).well_formed(),
            self.with_paper(paper).consistent(),
    {
        self.papers.lemma_put(paper.id, paper);
        let after = self.with_paper(paper);
        assert forall|u: Seq<char>, v: Seq<char>|
            #![trigger after.cites(u, v)]
            #![trigger after.cited_by(v, u)]
            after.cites(u, v) <==> after.cited_by(v, u) by {
            assert(after.cites(u, v) == self.cites(u, v));
            assert(after.cited_by(v, u) == self.cited_by(v, u));
        }
    }

    /// Recording one edge keeps the two directions in agreement, and makes the
    /// edge visible in both.
    pub proof fn law_with_citation_keeps_consistency(self, from: Seq<char>, to: Seq<char>)
        requires
            self.well_formed(),
            self.consistent(),
        ensures
            self.with_citation(from, to).well_formed(),
            self.with_citation(from, to).consistent(),
            self.with_citation(from, to).cites(from, to),
            self.with_citation(from, to).cited_by(to, from),
    {
        let after = self.with_citation(from, to);
        let out = edges_at(self.citations, from);
        let back = edges_at(self.reverse_citations, to);
        self.citations.lemma_put(from, out.push(to));
        self.reverse_citations.lemma_put(to, back.push(from));
        assert forall|u: Seq<char>, v: Seq<char>|
            #![trigger after.cites(u, v)]
            #![trigger after.cited_by(v, u)]
            after.cites(u, v) <==> after.cited_by(v, u) by {
            lemma_push_contains(out, to, v);
            lemma_push_contains(back, from, u);
            assert(self.cites(u, v) <==> self.cited_by(v, u));
            if u == from {
                assert(edges_at(after.citations, u) == out.push(to));
            } else {
                assert(after.citations.get(u) == self.citations.get(u));
            }
            if v == to {
                assert(edges_at(after.reverse_citations, v) == back.push(from));
            } else {
                assert(after.reverse_citations.get(v) == self.reverse_citations.get(v));
            }
        }
        lemma_push_contains(out, to, to);
        lemma_push_contains(back, from, from);
    }

    /// Recording the whole edge list of a paper that had no edge yet keeps the two
    /// directions in agreement.
    pub proof fn law_with_citations_keeps_consistency(
        self,
        from: Seq<char>,
        targets: Seq<Seq<char>>,
    )
        requires
            self.well_formed(),
            self.consistent(),
            !self.has_edges_from(from),
        ensures
            self.with_citations(from, targets).well_formed(),
            self.with_citations(from, targets).consistent(),
            edges_at(self.with_citations(from, targets).citations, from) == targets,
    {
        let after = self.with_citations(from, targets);
        self.citations.lemma_put(from, targets);
        lemma_credit_all(self.reverse_citations, from, targets);
        assert forall|u: Seq<char>, v: Seq<char>|
            #![trigger after.cites(u, v)]
            #![trigger after.cited_by(v, u)]
            after.cites(u, v) <==> after.cited_by(v, u) by {
            assert(self.cites(u, v) <==> self.cited_by(v, u));
            assert(after.cited_by(v, u) <==> self.cited_by(v, u) || (u == from && targets.contains(
                v,
            )));
            if u == from {
                assert(edges_at(after.citations, u) == targets);
                assert(edges_at(self.citations, from).len() == 0);
                assert(!self.cites(from, v));
            } else {
                assert(after.citations.get(u) == self.citations.get(u));
            }
        }
    }

    /// Storing a second paper under an identifier that is taken keeps the number
    /// of papers, and the second paper is the one that stays.
    pub proof fn law_add_paper_is_idempotent(self, first: PaperView, second: PaperView)
        requires
            self.well_formed(),
            first.id == second.id,
        ensures
            self.with_paper(first).with_paper(second).papers.len() == self.with_paper(
                first,
            ).papers.len(),
            self.with_paper(first).with_paper(second).papers.get(first.id) == Some(second),
            self.with_paper(first).with_paper(first) == self.with_paper(first),
    {
        self.papers.lemma_put(first.id, first);
        let once = self.with_paper(first);
        once.papers.lemma_put(second.id, second);
        once.papers.lemma_put(first.id, first);
        once.papers.lemma_position_of(first.id);
        assert(once.with_paper(first).papers.values =~= once.papers.values);
    }
}

} // verus!
