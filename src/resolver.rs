//! Choosing the pull request that introduced a commit.
//!
//! The pull requests of a repository are examined in the order the service
//! lists them; the commits of each are fetched by the caller and handed in
//! one pull request at a time, and the search stops at the first pull request
//! whose commits hold the target commit.
use vstd::prelude::*;

verus! {

/// A pull request as the search needs it: its identifier, and the identifier
/// of the repository that its commits are fetched from.
#[derive(Debug, PartialEq, Eq)]
pub struct PullRequest {
    pub id: i32,
    pub repository_id: String,
}

impl PullRequest {
    /// A copy of this pull request.
    pub fn duplicate(&self) -> (r: PullRequest)
        ensures
            r == *self,
    {
        PullRequest { id: self.id, repository_id: self.repository_id.clone() }
    }
}

/// What the caller does next.
#[derive(Debug, PartialEq, Eq)]
pub enum SearchStep {
    /// Fetch the commits of this pull request and hand them to `on_commits`.
    FetchCommits(PullRequest),
    /// This pull request holds the target commit; the search is over.
    Found(PullRequest),
    /// No pull request holds the target commit; the search is over.
    NotFound,
}

/// The commit identifiers of one pull request, as text.
pub open spec fn commit_texts(commits: Seq<String>) -> Seq<Seq<char>> {
    commits.map_values(|c: String| c@)
}

/// The index of the first commit list, in order, that holds `target`.
pub open spec fn first_match(lists: Seq<Seq<Seq<char>>>, target: Seq<char>) -> Option<int>
    decreases lists.len(),
{
    if lists.len() == 0 {
        None
    } else if lists[0].contains(target) {
        Some(0)
    } else {
        match first_match(lists.drop_first(), target) {
            Some(k) => Some(k + 1),
            None => None,
        }
    }
}

/// `first_match` is the least index whose list holds the target.
pub proof fn lemma_first_match_least(lists: Seq<Seq<Seq<char>>>, target: Seq<char>)
    ensures
        match first_match(lists, target) {
            Some(k) => 0 <= k < lists.len() && lists[k].contains(target) && forall|j: int|
                0 <= j < k ==> !(#[trigger] lists[j]).contains(target),
            None => forall|j: int| 0 <= j < lists.len() ==> !(#[trigger] lists[j]).contains(target),
        },
    decreases lists.len(),
{
    if lists.len() > 0 {
        lemma_first_match_least(lists.drop_first(), target);
        if !lists[0].contains(target) {
            assert forall|j: int| 1 <= j < lists.len() implies #[trigger] lists[j] == lists.drop_first()[j - 1] by {}
        }
    }
}

/// Exactly one pull request holds the target commit: it is the one chosen,
/// wherever it stands in the list.
pub proof fn lemma_single_match_found(lists: Seq<Seq<Seq<char>>>, target: Seq<char>, k: int)
    requires
        0 <= k < lists.len(),
        lists[k].contains(target),
        forall|j: int| 0 <= j < lists.len() && j != k ==> !(#[trigger] lists[j]).contains(target),
    ensures
        first_match(lists, target) == Some(k),
{
    lemma_first_match_least(lists, target);
}

/// Of two pull requests that both hold the target commit, the later one is
/// never chosen: the choice stands at or before the earlier one.
pub proof fn lemma_earlier_match_wins(lists: Seq<Seq<Seq<char>>>, target: Seq<char>, i: int, j: int)
    requires
        0 <= i < j < lists.len(),
        lists[i].contains(target),
        lists[j].contains(target),
    ensures
        first_match(lists, target) matches Some(k) && k <= i,
{
    lemma_first_match_least(lists, target);
}

/// When no pull request holds the target commit, nothing is chosen.
pub proof fn lemma_no_match_absent(lists: Seq<Seq<Seq<char>>>, target: Seq<char>)
    requires
        forall|j: int| 0 <= j < lists.len() ==> !(#[trigger] lists[j]).contains(target),
    ensures
        first_match(lists, target) is None,
{
    lemma_first_match_least(lists, target);
}

/// Once a prefix of the lists has a match, the lists that follow it are never
/// needed: the choice is the same for every continuation.
pub proof fn lemma_match_ignores_rest(
    lists: Seq<Seq<Seq<char>>>,
    rest: Seq<Seq<Seq<char>>>,
    target: Seq<char>,
)
    requires
        first_match(lists, target) is Some,
    ensures
        first_match(lists + rest, target) == first_match(lists, target),
    decreases lists.len(),
{
    if !lists[0].contains(target) {
        assert((lists + rest).drop_first() =~= lists.drop_first() + rest);
        lemma_match_ignores_rest(lists.drop_first(), rest, target);
    }
}

proof fn lemma_first_match_push(lists: Seq<Seq<Seq<char>>>, last: Seq<Seq<char>>, target: Seq<char>)
    requires
        first_match(lists, target) is None,
    ensures
        first_match(lists.push(last), target) == if last.contains(target) {
            Some(lists.len() as int)
        } else {
            None
        },
    decreases lists.len(),
{
    if lists.len() > 0 {
        assert(lists.push(last).drop_first() =~= lists.drop_first().push(last));
        lemma_first_match_push(lists.drop_first(), last, target);
    } else {
        assert(lists.push(last).drop_first() =~= lists);
    }
}

/// The state of a search for the pull request that holds a target commit.
pub struct PullRequestSearch {
    target: String,
    candidates: Vec<PullRequest>,
    position: usize,
    finished: bool,
    examined: Ghost<Seq<Seq<Seq<char>>>>,
}

impl PullRequestSearch {
    /// The commit looked for.
    pub closed spec fn target_spec(&self) -> Seq<char> {
        self.target@
    }

    /// The pull requests, in the order the service listed them.
    pub closed spec fn candidates_spec(&self) -> Seq<PullRequest> {
        self.candidates@
    }

    /// The commit lists handed in so far, one per pull request, in order.
    pub closed spec fn examined_spec(&self) -> Seq<Seq<Seq<char>>> {
        self.examined@
    }

    /// Whether the search is over.
    pub closed spec fn finished_spec(&self) -> bool {
        self.finished
    }

    /// The search is consistent: one commit list was handed in for each pull
    /// request passed, and while it goes on none of them held the target.
    pub closed spec fn wf(&self) -> bool {
        &&& self.position == self.examined@.len()
        &&& self.position <= self.candidates@.len()
        &&& !self.finished ==> self.position < self.candidates@.len() && first_match(
            self.examined@,
            self.target@,
        ) is None
    }

    /// Starts a search for `target` among `candidates`, and says what to do
    /// first: fetch the commits of the first pull request, or, when there is
    /// none, report that nothing was found.
    pub fn new(target: String, candidates: Vec<PullRequest>) -> (r: (PullRequestSearch, SearchStep))
        ensures
            r.0.wf(),
            r.0.target_spec() == target@,
            r.0.candidates_spec() == candidates@,
            r.0.examined_spec() == Seq::<Seq<Seq<char>>>::empty(),
            candidates@.len() == 0 ==> r.0.finished_spec() && r.1 == SearchStep::NotFound,
            candidates@.len() > 0 ==> !r.0.finished_spec() && r.1 == SearchStep::FetchCommits(
                candidates@[0],
            ),
    {
        let step = if candidates.len() == 0 {
            SearchStep::NotFound
        } else {
            SearchStep::FetchCommits(candidates[0].duplicate())
        };
        let finished = candidates.len() == 0;
        let search = PullRequestSearch {
            target,
            candidates,
            position: 0,
            finished,
            examined: Ghost(Seq::empty()),
        };
        (search, step)
    }

    /// Whether the search waits for the commits of a pull request.
    pub fn awaits_commits(&self) -> (r: bool)
        ensures
            r == !self.finished_spec(),
    {
        !self.finished
    }

    /// Takes the commits of the pull request that the last step asked for,
    /// and says what to do next. The search stops at the first pull request
    /// whose commits hold the target commit, compared as exact text.
    pub fn on_commits(&mut self, commits: &Vec<String>) -> (r: SearchStep)
        requires
            old(self).wf(),
            !old(self).finished_spec(),
        ensures
            final(self).wf(),
            final(self).target_spec() == old(self).target_spec(),
            final(self).candidates_spec() == old(self).candidates_spec(),
            final(self).examined_spec() == old(self).examined_spec().push(commit_texts(commits@)),
            first_match(old(self).examined_spec(), old(self).target_spec()) is None,
            ({
                let lists = final(self).examined_spec();
                let all = final(self).candidates_spec();
                match r {
                    SearchStep::Found(pr) => final(self).finished_spec() && first_match(
                        lists,
                        final(self).target_spec(),
                    ) == Some(lists.len() - 1) && pr == all[lists.len() - 1],
                    SearchStep::FetchCommits(pr) => !final(self).finished_spec() && first_match(
                        lists,
                        final(self).target_spec(),
                    ) is None && lists.len() < all.len() && pr == all[lists.len() as int],
                    SearchStep::NotFound => final(self).finished_spec() && first_match(
                        lists,
                        final(self).target_spec(),
                    ) is None && lists.len() == all.len(),
                }
            }),
    {
        let mut found = false;
        let mut i: usize = 0;
        while i < commits.len() && !found
            invariant
                i <= commits@.len(),
                found ==> commit_texts(commits@).contains(self.target@),
                !found ==> forall|j: int| 0 <= j < i ==> commits@[j]@ != self.target@,
            decreases commits.len() - i + if found { 0int } else { 1int },
        {
            if commits[i] == self.target {
                found = true;
                assert(commit_texts(commits@)[i as int] == self.target@);
            } else {
                i += 1;
            }
        }
        let ghost texts = commit_texts(commits@);
        proof {
            if !found {
                assert forall|j: int| 0 <= j < texts.len() implies texts[j] != self.target@ by {
                    assert(texts[j] == commits@[j]@);
                }
            }
            lemma_first_match_push(self.examined@, texts, self.target@);
        }
        let at = self.position;
        let total = self.candidates.len();
        self.examined = Ghost(self.examined@.push(texts));
        self.position = at + 1;
        if found {
            self.finished = true;
            SearchStep::Found(self.candidates[at].duplicate())
        } else if at + 1 == total {
            self.finished = true;
            SearchStep::NotFound
        } else {
            SearchStep::FetchCommits(self.candidates[at + 1].duplicate())
        }
    }
}

} // verus!
