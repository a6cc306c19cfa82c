//! Contributors of a pull request, read from the authors of its commits.
use vstd::prelude::*;
use crate::text::{chars_of, ends_with, has_suffix, opt_chars};

verus! {

/// The authors after the first one (the first commit is the pull request author's).
pub open spec fn after_first(authors: Seq<Option<Seq<char>>>) -> Seq<Option<Seq<char>>> {
    if authors.len() == 0 { authors } else { authors.drop_first() }
}

/// A login of a bot account ends with `[bot]`.
pub open spec fn is_bot_login(login: Seq<char>) -> bool {
    has_suffix(login, "[bot]"@)
}

/// The author of the pull request: the author of its first commit, if known.
pub open spec fn pr_author(authors: Seq<Option<Seq<char>>>) -> Option<Seq<char>> {
    if authors.len() == 0 { None } else { authors[0] }
}

/// The logins of the known authors that are neither bots nor `excluded`, in order.
pub open spec fn human_logins(authors: Seq<Option<Seq<char>>>, excluded: Option<Seq<char>>) -> Seq<Seq<char>>
    decreases authors.len(),
{
    if authors.len() == 0 {
        Seq::empty()
    } else {
        human_logins(authors.drop_last(), excluded) + match authors.last() {
            Some(login) => if is_bot_login(login) || excluded == Some(login) { Seq::empty() } else { seq![login] },
            None => Seq::empty(),
        }
    }
}

/// `s` with each run of equal adjacent items reduced to its first item (as `Vec::dedup`).
pub open spec fn dedup_adjacent(s: Seq<Seq<char>>) -> Seq<Seq<char>>
    decreases s.len(),
{
    if s.len() <= 1 {
        s
    } else {
        dedup_adjacent(s.drop_last()) + if s.last() == s[s.len() - 2] { Seq::empty() } else { seq![s.last()] }
    }
}

/// Contributors of a pull request whose commits have the given authors: the authors of all
/// commits but the first, without bots and without the pull request author (the author of
/// the first commit), with adjacent repetitions removed.
pub open spec fn contributors_spec(authors: Seq<Option<Seq<char>>>) -> Seq<Seq<char>> {
    dedup_adjacent(human_logins(after_first(authors), pr_author(authors)))
}

/// Views of optional logins.
pub open spec fn logins_view(authors: Seq<Option<String>>) -> Seq<Option<Seq<char>>> {
    authors.map_values(|a: Option<String>| opt_chars(a))
}

/// Contributors among the given commit authors (see [`contributors_spec`]).
pub fn contributors_of_authors(authors: &Vec<Option<String>>) -> (r: Vec<String>)
    ensures
        r.deep_view() == contributors_spec(logins_view(authors@)),
{
    let ghost all = logins_view(authors@);
    let ghost rest = after_first(all);
    let ghost excluded = pr_author(all);
    let bot = chars_of("[bot]");
    let author: Option<&String> = if authors.len() == 0 {
        None
    } else {
        match &authors[0] {
            Some(a) => Some(a),
            None => None,
        }
    };
    let mut humans: Vec<String> = Vec::new();
    let mut i: usize = 1;
    if authors.len() == 0 {
        i = 0;
    }
    while i < authors.len()
        invariant
            authors@.len() > 0 ==> 1 <= i,
            i <= authors@.len(),
            all == logins_view(authors@),
            rest == after_first(all),
            bot@ == "[bot]"@,
            authors@.len() == 0 ==> i == 0,
            excluded == pr_author(all),
            excluded == match author {
                Some(a) => Some(a@),
                None => None::<Seq<char>>,
            },
            humans.deep_view() == human_logins(rest.take(i - if authors@.len() == 0 { 0int } else { 1int }), excluded),
        decreases authors.len() - i,
    {
        let ghost k: int = i - 1;
        assert(rest.take(k + 1).drop_last() == rest.take(k));
        assert(rest.take(k + 1).last() == all[i as int]);
        match &authors[i] {
            Some(login) => {
                let cs = chars_of(login.as_str());
                let is_author = match author {
                    Some(a) => crate::text::str_equal(a.as_str(), login.as_str()),
                    None => false,
                };
                if !ends_with(cs.as_slice(), bot.as_slice()) && !is_author {
                    let ghost before = humans.deep_view();
                    humans.push(login.clone());
                    assert(humans.deep_view() == before.push(login@));
                }
            },
            None => {},
        }
        i += 1;
    }
    proof {
        if authors@.len() > 0 {
            assert(rest.take(authors@.len() - 1) == rest);
        } else {
            assert(rest.take(0) == rest);
        }
    }
    dedup_strings(&humans)
}

/// `v` with adjacent repetitions removed.
pub fn dedup_strings(v: &Vec<String>) -> (r: Vec<String>)
    ensures
        r.deep_view() == dedup_adjacent(v.deep_view()),
{
    let ghost s = v.deep_view();
    let mut r: Vec<String> = Vec::new();
    let mut j: usize = 0;
    while j < v.len()
        invariant
            j <= v.len(),
            s == v.deep_view(),
            r.deep_view() == dedup_adjacent(s.take(j as int)),
        decreases v.len() - j,
    {
        let ghost t = s.take(j + 1);
        assert(t.drop_last() == s.take(j as int));
        let ghost before = r.deep_view();
        if j == 0 || !v[j].eq(&v[j - 1]) {
            r.push(v[j].clone());
            assert(r.deep_view() == before.push(s[j as int]));
        }
        j += 1;
    }
    assert(s.take(v.len() as int) == s);
    r
}

/// The known non-bot logins come from the authors and are no bots.
proof fn lemma_human_logins(authors: Seq<Option<Seq<char>>>, excluded: Option<Seq<char>>)
    ensures
        forall|k: int| 0 <= k < human_logins(authors, excluded).len() ==> {
            &&& !is_bot_login(#[trigger] human_logins(authors, excluded)[k])
            &&& excluded != Some(human_logins(authors, excluded)[k])
            &&& authors.contains(Some(human_logins(authors, excluded)[k]))
        },
    decreases authors.len(),
{
    if authors.len() > 0 {
        let prev = authors.drop_last();
        lemma_human_logins(prev, excluded);
        let h = human_logins(authors, excluded);
        let hp = human_logins(prev, excluded);
        assert forall|k: int| 0 <= k < h.len() implies !is_bot_login(#[trigger] h[k]) && excluded != Some(h[k])
            && authors.contains(Some(h[k])) by {
            if k < hp.len() {
                assert(h[k] == hp[k]);
                assert(!is_bot_login(hp[k]) && prev.contains(Some(hp[k])));
                let j = choose|j: int| 0 <= j < prev.len() && prev[j] == Some(hp[k]);
                assert(authors[j] == Some(h[k]));
            } else {
                assert(authors[authors.len() - 1] == Some(h[k]));
            }
        }
    }
}

/// Removing adjacent repetitions keeps only items of the list.
proof fn lemma_dedup_adjacent_subset(s: Seq<Seq<char>>)
    ensures
        forall|k: int| 0 <= k < dedup_adjacent(s).len() ==> s.contains(#[trigger] dedup_adjacent(s)[k]),
    decreases s.len(),
{
    if s.len() > 1 {
        let prev = s.drop_last();
        lemma_dedup_adjacent_subset(prev);
        let d = dedup_adjacent(s);
        let dp = dedup_adjacent(prev);
        assert forall|k: int| 0 <= k < d.len() implies s.contains(#[trigger] d[k]) by {
            if k < dp.len() {
                assert(d[k] == dp[k]);
                assert(prev.contains(dp[k]));
                let j = choose|j: int| 0 <= j < prev.len() && prev[j] == dp[k];
                assert(s[j] == d[k]);
            } else {
                assert(s[s.len() - 1] == d[k]);
            }
        }
    } else {
        assert forall|k: int| 0 <= k < dedup_adjacent(s).len() implies s.contains(#[trigger] dedup_adjacent(s)[k]) by {
            assert(s[k] == dedup_adjacent(s)[k]);
        }
    }
}

/// The contributors of a pull request are no bots, are not the pull request author (the author
/// of the first commit), and each authored a commit after the first.
pub proof fn law_contributors_are_later_human_authors(authors: Seq<Option<Seq<char>>>)
    ensures
        forall|k: int| 0 <= k < contributors_spec(authors).len() ==> {
            &&& !is_bot_login(#[trigger] contributors_spec(authors)[k])
            &&& pr_author(authors) != Some(contributors_spec(authors)[k])
            &&& exists|i: int| 1 <= i < authors.len() && authors[i] == Some(contributors_spec(authors)[k])
        },
{
    let rest = after_first(authors);
    let h = human_logins(rest, pr_author(authors));
    lemma_human_logins(rest, pr_author(authors));
    lemma_dedup_adjacent_subset(h);
    let c = contributors_spec(authors);
    assert forall|k: int| 0 <= k < c.len() implies {
        &&& !is_bot_login(#[trigger] c[k])
        &&& pr_author(authors) != Some(c[k])
        &&& exists|i: int| 1 <= i < authors.len() && authors[i] == Some(c[k])
    } by {
        assert(h.contains(c[k]));
        let m = choose|m: int| 0 <= m < h.len() && h[m] == c[k];
        assert(!is_bot_login(h[m]) && pr_author(authors) != Some(h[m]) && rest.contains(Some(h[m])));
        let j = choose|j: int| 0 <= j < rest.len() && rest[j] == Some(h[m]);
        assert(authors.len() > 0);
        assert(authors[j + 1] == rest[j]);
    }
}

} // verus!
