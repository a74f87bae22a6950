use crate::fuzzy::{fuzzy_score, has_ascii_upper, occurs_in_order, skim_score};
use crate::ranking::{listed_indices, rank, ranks_exactly, Match};
use crate::window::{page_start, visible_range};
use vstd::prelude::*;

verus! {

/// Whether candidate `j` may be ranked under `scope` (`None`: every candidate).
pub open spec fn in_scope(scope: Option<Seq<bool>>, j: int) -> bool {
    match scope {
        None => true,
        Some(mask) => 0 <= j < mask.len() && mask[j],
    }
}

/// The score of each candidate: the matcher's score of its display text
/// under `query` when it is in `scope`, else none.
pub open spec fn candidate_scores(
    labels: Seq<Seq<char>>,
    scope: Option<Seq<bool>>,
    query: Seq<char>,
) -> Seq<Option<i64>> {
    Seq::new(
        labels.len(),
        |j: int|
            if in_scope(scope, j) {
                skim_score(labels[j], query)
            } else {
                None
            },
    )
}

/// `m` is the ranked view of the candidates with display texts `labels`
/// under `scope` and `query`: exactly the candidates in scope that the query
/// matches, each once with its score, best score first and equal scores in
/// candidate order.
pub open spec fn is_ranked_view(
    labels: Seq<Seq<char>>,
    scope: Option<Seq<bool>>,
    query: Seq<char>,
    m: Seq<Match>,
) -> bool {
    ranks_exactly(candidate_scores(labels, scope, query), m)
}

/// Each candidate in scope has a score exactly when the query's characters
/// occur in order in its display text.
pub open spec fn scored_when_in_order(
    labels: Seq<Seq<char>>,
    scope: Option<Seq<bool>>,
    query: Seq<char>,
) -> bool {
    forall|j: int|
        0 <= j < labels.len() && in_scope(scope, j) ==> (#[trigger] candidate_scores(
            labels,
            scope,
            query,
        )[j] is Some <==> occurs_in_order(query, labels[j], has_ascii_upper(query)))
}

/// The scope saved from the ranked view `m` over `n` candidates: exactly the
/// candidates that `m` lists.
pub open spec fn snapshot(n: int, m: Seq<Match>) -> Seq<bool> {
    Seq::new(n as nat, |j: int| listed_indices(m).contains(j))
}

/// The cursor bound: inside the view when it is not empty, else 0.
pub open spec fn cursor_in_view(cursor: int, len: int) -> bool {
    if len == 0 {
        cursor == 0
    } else {
        0 <= cursor < len
    }
}

/// How a confirmed candidate is opened.
#[derive(Clone, Copy, Debug, PartialEq, Eq, Structural)]
pub enum Action {
    Replace,
    HorizontalSplit,
    VerticalSplit,
}

/// A key press, as the picker tells them apart.
#[derive(Clone, Copy, Debug, PartialEq, Eq, Structural)]
pub enum Key {
    Up,
    Down,
    Cancel,
    Confirm(Action),
    SaveScope,
    /// Anything else: it belongs to the query editor.
    Other,
}

/// What the host does after a key press.
#[derive(Clone, Copy, Debug, PartialEq, Eq, Structural)]
pub enum Response {
    /// Handled; the picker stays open.
    Consumed,
    /// Close the picker without dispatching.
    Close,
    /// Dispatch `action` on the candidate at `index`, then close the picker.
    Dispatch { index: usize, action: Action },
    /// Hand the key to the query editor, then pass its text to `set_query`.
    Forward,
}

/// The cursor after a move up.
pub open spec fn cursor_up(cursor: int) -> int {
    if cursor == 0 {
        0
    } else {
        cursor - 1
    }
}

/// The cursor after a move down in a view of `len` entries.
pub open spec fn cursor_down(cursor: int, len: int) -> int {
    if cursor + 1 < len {
        cursor + 1
    } else {
        cursor
    }
}

/// A fuzzy picker over a fixed list of candidates. Display texts are taken
/// once, when the picker is built: the formatter is a pure function.
pub struct Picker<T> {
    options: Vec<T>,
    /// Display text of each candidate.
    labels: Vec<String>,
    /// The ranked view: (candidate index, score).
    matches: Vec<Match>,
    /// The saved scope, one flag per candidate.
    scope: Option<Vec<bool>>,
    cursor: usize,
    query: String,
    /// Whether to render in the middle of the area.
    render_centered: bool,
}

impl<T> Picker<T> {
    /// The candidates, in their given order.
    pub closed spec fn candidates(&self) -> Seq<T> {
        self.options@
    }

    /// The display text of each candidate, as the formatter gave it.
    pub closed spec fn label_strings(&self) -> Seq<String> {
        self.labels@
    }

    /// The display texts as character sequences.
    pub open spec fn labels_view(&self) -> Seq<Seq<char>> {
        self.label_strings().map_values(|s: String| s@)
    }

    /// The saved scope: one flag per candidate, or `None` for no scope.
    pub closed spec fn scope_view(&self) -> Option<Seq<bool>> {
        match self.scope {
            None => None,
            Some(v) => Some(v@),
        }
    }

    /// The current query.
    pub closed spec fn query_view(&self) -> Seq<char> {
        self.query@
    }

    /// The ranked view: (candidate index, score), best first.
    pub closed spec fn ranked(&self) -> Seq<Match> {
        self.matches@
    }

    /// The cursor's position in the ranked view.
    pub closed spec fn cursor_pos(&self) -> int {
        self.cursor as int
    }

    /// Whether the picker renders in the middle of its area.
    pub closed spec fn centered(&self) -> bool {
        self.render_centered
    }

    /// One display text per candidate, and one scope flag per candidate.
    pub open spec fn shape_ok(&self) -> bool {
        &&& self.label_strings().len() == self.candidates().len()
        &&& match self.scope_view() {
            None => true,
            Some(mask) => mask.len() == self.candidates().len(),
        }
    }

    /// The picker's invariant: the ranked view is that of the current query
    /// and scope, and the cursor stays inside it.
    pub open spec fn wf(&self) -> bool {
        &&& self.shape_ok()
        &&& is_ranked_view(self.labels_view(), self.scope_view(), self.query_view(), self.ranked())
        &&& scored_when_in_order(self.labels_view(), self.scope_view(), self.query_view())
        &&& cursor_in_view(self.cursor_pos(), self.ranked().len() as int)
    }

    /// The candidate indices of the ranked view.
    pub open spec fn ranked_indices(&self) -> Set<int> {
        listed_indices(self.ranked())
    }

    /// Builds a picker over `options`, displayed through `format_fn`, with an
    /// empty query, no scope, and its view ranked.
    pub fn new<F: Fn(&T) -> String>(render_centered: bool, options: Vec<T>, format_fn: F) -> (r: Self)
        requires
            forall|i: int| 0 <= i < options@.len() ==> format_fn.requires((&options@[i],)),
        ensures
            r.wf(),
            r.candidates() == options@,
            forall|i: int|
                0 <= i < options@.len() ==> format_fn.ensures(
                    (&options@[i],),
                    #[trigger] r.label_strings()[i],
                ),
            r.query_view().len() == 0,
            r.scope_view() is None,
            r.cursor_pos() == 0,
            r.centered() == render_centered,
    {
        let mut labels: Vec<String> = Vec::new();
        let mut i: usize = 0;
        while i < options.len()
            invariant
                i <= options@.len(),
                labels@.len() == i,
                forall|k: int| 0 <= k < options@.len() ==> format_fn.requires((&options@[k],)),
                forall|k: int| 0 <= k < i ==> format_fn.ensures((&options@[k],), #[trigger] labels@[k]),
            decreases options@.len() - i,
        {
            let text = format_fn(&options[i]);
            labels.push(text);
            i += 1;
        }
        let mut picker = Picker {
            options,
            labels,
            matches: Vec::new(),
            scope: None,
            cursor: 0,
            query: String::new(),
            render_centered,
        };
        picker.score();
        picker
    }

    /// Ranks the candidates in scope against the current query, and puts the
    /// cursor back on the first entry.
    pub fn score(&mut self)
        requires
            old(self).shape_ok(),
        ensures
            final(self).wf(),
            final(self).candidates() == old(self).candidates(),
            final(self).label_strings() == old(self).label_strings(),
            final(self).scope_view() == old(self).scope_view(),
            final(self).query_view() == old(self).query_view(),
            final(self).centered() == old(self).centered(),
            final(self).cursor_pos() == 0,
    {
        let ghost target = candidate_scores(self.labels_view(), self.scope_view(), self.query@);
        let n = self.labels.len();
        let mut scores: Vec<Option<i64>> = Vec::new();
        let mut i: usize = 0;
        while i < n
            invariant
                n == self.labels@.len(),
                target == candidate_scores(self.labels_view(), self.scope_view(), self.query@),
                self.shape_ok(),
                i <= n,
                scores@.len() == i,
                forall|j: int| 0 <= j < i ==> scores@[j] == target[j],
                forall|j: int|
                    0 <= j < i && in_scope(self.scope_view(), j) ==> (#[trigger] scores@[j] is Some
                        <==> occurs_in_order(
                        self.query@,
                        self.labels_view()[j],
                        has_ascii_upper(self.query@),
                    )),
            decreases n - i,
        {
            let eligible = match &self.scope {
                None => true,
                Some(mask) => mask[i],
            };
            let found = if eligible {
                fuzzy_score(self.labels[i].as_str(), self.query.as_str())
            } else {
                None
            };
            assert(self.labels@[i as int]@ == self.labels_view()[i as int]);
            scores.push(found);
            i += 1;
        }
        assert(scores@ =~= target);
        let m = rank(&scores);
        self.matches = m;
        self.cursor = 0;
    }

    /// Moves the cursor one entry up; stays at the first entry.
    pub fn move_up(&mut self)
        requires
            old(self).wf(),
        ensures
            final(self).wf(),
            final(self).cursor_pos() == cursor_up(old(self).cursor_pos()),
            final(self).same_view(*old(self)),
    {
        self.cursor = if self.cursor == 0 { 0 } else { self.cursor - 1 };
    }

    /// Moves the cursor one entry down; stays at the last entry, and does
    /// nothing on an empty view.
    pub fn move_down(&mut self)
        requires
            old(self).wf(),
        ensures
            final(self).wf(),
            final(self).cursor_pos() == cursor_down(
                old(self).cursor_pos(),
                old(self).ranked().len() as int,
            ),
            final(self).same_view(*old(self)),
    {
        if self.matches.len() == 0 {
            return;
        }
        if self.cursor < self.matches.len() - 1 {
            self.cursor = self.cursor + 1;
        }
    }

    /// Everything but the cursor is unchanged.
    pub open spec fn same_view(&self, other: Self) -> bool {
        &&& self.candidates() == other.candidates()
        &&& self.label_strings() == other.label_strings()
        &&& self.scope_view() == other.scope_view()
        &&& self.query_view() == other.query_view()
        &&& self.ranked() == other.ranked()
        &&& self.centered() == other.centered()
    }

    /// Index of the candidate under the cursor, if the view is not empty.
    pub open spec fn selected_spec(&self) -> Option<usize> {
        if self.ranked().len() == 0 {
            None
        } else {
            Some(self.ranked()[self.cursor_pos()].0)
        }
    }

    /// Index of the candidate under the cursor.
    pub fn selected_index(&self) -> (r: Option<usize>)
        requires
            self.wf(),
        ensures
            r == self.selected_spec(),
    {
        if self.matches.len() == 0 {
            None
        } else {
            Some(self.matches[self.cursor].0)
        }
    }

    /// The candidate under the cursor.
    pub fn selection(&self) -> (r: Option<&T>)
        requires
            self.wf(),
        ensures
            r == match self.selected_spec() {
                None => None,
                Some(j) => Some(&self.candidates()[j as int]),
            },
    {
        match self.selected_index() {
            None => None,
            Some(j) => Some(&self.options[j]),
        }
    }

    /// Saves the candidates of the ranked view as the scope of later
    /// searches, replacing any earlier scope, clears the query and ranks again.
    pub fn save_filter(&mut self)
        requires
            old(self).wf(),
        ensures
            final(self).wf(),
            final(self).scope_view() == Some(
                snapshot(old(self).candidates().len() as int, old(self).ranked()),
            ),
            final(self).query_view().len() == 0,
            final(self).candidates() == old(self).candidates(),
            final(self).label_strings() == old(self).label_strings(),
            final(self).centered() == old(self).centered(),
            final(self).cursor_pos() == 0,
    {
        let n = self.options.len();
        let mut mask: Vec<bool> = Vec::new();
        let mut j: usize = 0;
        while j < n
            invariant
                j <= n,
                mask@.len() == j,
                forall|x: int| 0 <= x < j ==> !mask@[x],
            decreases n - j,
        {
            mask.push(false);
            j += 1;
        }
        let ghost m = self.matches@;
        let mut k: usize = 0;
        while k < self.matches.len()
            invariant
                m == self.matches@,
                self.wf(),
                n == self.candidates().len(),
                k <= m.len(),
                mask@.len() == n,
                forall|x: int|
                    0 <= x < n ==> (mask@[x] <==> exists|y: int| 0 <= y < k && m[y].0 == x),
            decreases m.len() - k,
        {
            let idx = self.matches[k].0;
            assert(self.labels_view().len() == n);
            mask.set(idx, true);
            assert forall|x: int|
                0 <= x < n implies (mask@[x] <==> exists|y: int| 0 <= y < k + 1 && m[y].0 == x) by {
                if x == idx {
                    assert(m[k as int].0 == x);
                }
            }
            k += 1;
        }
        assert(mask@ =~= snapshot(n as int, m));
        self.scope = Some(mask);
        self.query = String::new();
        self.score();
    }

    /// Sets the query; ranks again only when the text changed.
    pub fn set_query(&mut self, query: String)
        requires
            old(self).wf(),
        ensures
            final(self).wf(),
            final(self).query_view() == query@,
            final(self).candidates() == old(self).candidates(),
            final(self).label_strings() == old(self).label_strings(),
            final(self).scope_view() == old(self).scope_view(),
            final(self).centered() == old(self).centered(),
            query@ == old(self).query_view() ==> *final(self) == *old(self),
            query@ != old(self).query_view() ==> final(self).cursor_pos() == 0,
    {
        if query == self.query {
            return;
        }
        self.query = query;
        self.score();
    }

    /// The current query.
    pub fn query(&self) -> (r: &str)
        ensures
            r@ == self.query_view(),
    {
        self.query.as_str()
    }

    /// Number of entries in the ranked view.
    pub fn len(&self) -> (r: usize)
        ensures
            r == self.ranked().len(),
    {
        self.matches.len()
    }

    /// The cursor's position in the ranked view.
    pub fn cursor(&self) -> (r: usize)
        ensures
            r == self.cursor_pos(),
    {
        self.cursor
    }

    /// The entry at `k` of the ranked view: (candidate index, score).
    pub fn entry(&self, k: usize) -> (r: Match)
        requires
            k < self.ranked().len(),
        ensures
            r == self.ranked()[k as int],
    {
        self.matches[k]
    }

    /// The candidate at `j`.
    pub fn candidate(&self, j: usize) -> (r: &T)
        requires
            j < self.candidates().len(),
        ensures
            *r == self.candidates()[j as int],
    {
        &self.options[j]
    }

    /// Whether the picker renders in the middle of its area.
    pub fn render_centered(&self) -> (r: bool)
        ensures
            r == self.centered(),
    {
        self.render_centered
    }

    /// Bounds `(start, end)` of the entries of the ranked view shown in
    /// `rows` rows: the page of `rows` entries that holds the cursor.
    pub fn visible(&self, rows: usize) -> (r: (usize, usize))
        requires
            self.wf(),
            rows > 0,
        ensures
            r.0 == page_start(self.cursor_pos(), rows as int),
            r.0 % rows == 0,
            r.0 <= self.cursor_pos() < r.0 + rows,
            r.1 == if r.0 + rows <= self.ranked().len() {
                r.0 + rows
            } else {
                self.ranked().len() as int
            },
            self.ranked().len() > 0 ==> r.0 < r.1,
    {
        let r = visible_range(self.cursor, rows, self.matches.len());
        proof {
            crate::window::lemma_page_start_multiple(self.cursor as int, rows as int);
        }
        r
    }

    /// Decides what a key press does: moves the cursor, saves the scope,
    /// confirms the selection, closes, or hands the key to the query editor.
    pub fn handle_key(&mut self, key: Key) -> (r: Response)
        requires
            old(self).wf(),
        ensures
            final(self).wf(),
            match key {
                Key::Up => r == Response::Consumed && final(self).same_view(*old(self))
                    && final(self).cursor_pos() == cursor_up(old(self).cursor_pos()),
                Key::Down => r == Response::Consumed && final(self).same_view(*old(self))
                    && final(self).cursor_pos() == cursor_down(
                    old(self).cursor_pos(),
                    old(self).ranked().len() as int,
                ),
                Key::Cancel => r == Response::Close && *final(self) == *old(self),
                Key::Confirm(action) => *final(self) == *old(self) && r == match old(
                    self,
                ).selected_spec() {
                    None => Response::Close,
                    Some(j) => (Response::Dispatch { index: j, action }),
                },
                Key::SaveScope => r == Response::Consumed && final(self).scope_view() == Some(
                    snapshot(old(self).candidates().len() as int, old(self).ranked()),
                ) && final(self).query_view().len() == 0 && final(self).cursor_pos() == 0
                    && final(self).candidates() == old(self).candidates()
                    && final(self).label_strings() == old(self).label_strings()
                    && final(self).centered() == old(self).centered(),
                Key::Other => r == Response::Forward && *final(self) == *old(self),
            },
    {
        match key {
            Key::Up => {
                self.move_up();
                Response::Consumed
            },
            Key::Down => {
                self.move_down();
                Response::Consumed
            },
            Key::Cancel => Response::Close,
            Key::Confirm(action) => match self.selected_index() {
                None => Response::Close,
                Some(index) => Response::Dispatch { index, action },
            },
            Key::SaveScope => {
                self.save_filter();
                Response::Consumed
            },
            Key::Other => Response::Forward,
        }
    }
}

/// Once a scope is saved, every later ranked view lists only candidates that
/// were in the view the scope was saved from, whatever the later query.
pub proof fn lemma_saved_scope_bounds_later_views<T>(saved_from: Picker<T>, later: Picker<T>)
    requires
        saved_from.wf(),
        later.wf(),
        later.scope_view() == Some(
            snapshot(saved_from.candidates().len() as int, saved_from.ranked()),
        ),
    ensures
        later.ranked_indices().subset_of(saved_from.ranked_indices()),
{
    assert forall|j: int| later.ranked_indices().contains(j) implies saved_from.ranked_indices().contains(j) by {
        let k = choose|k: int| 0 <= k < later.ranked().len() && later.ranked()[k].0 == j;
        assert(in_scope(later.scope_view(), later.ranked()[k].0 as int));
    }
}

} // verus!
