//! Pull requests mentioned in a text, such as a changelog entry.
use vstd::prelude::*;
use crate::regex_text::{regex_captures_iter, regex_captures_iter_outcome};
use crate::text::{parse_u64, parse_u64_spec};
use crate::url_text::{parse_url, url_parse_outcome};

verus! {

/// A link to a pull request: a URL ending with `/pull/<number>` or `/pulls/<number>`.
pub const PR_LINK_PATTERN: &'static str = r"https?://[^\s]+/pulls?/(\d+)";

/// A pull request: its number and the serialization of its URL.
#[derive(Debug, Clone, PartialEq)]
pub struct Pr {
    pub number: u64,
    pub html_url: String,
}

/// The pull request of one match of [`PR_LINK_PATTERN`], given its groups: the number must be
/// a `u64` and the whole match a URL.
pub open spec fn pr_of_match(groups: Seq<Option<Seq<char>>>) -> Option<(u64, Seq<char>)> {
    if groups.len() > 1 && groups[0] is Some && groups[1] is Some {
        match (parse_u64_spec(groups[1].unwrap()), url_parse_outcome(groups[0].unwrap())) {
            (Some(n), Ok(url)) => Some((n, url)),
            _ => None,
        }
    } else {
        None
    }
}

/// The pull requests of the matches, in order, skipping matches that give none.
pub open spec fn prs_of_matches(matches: Seq<Seq<Option<Seq<char>>>>) -> Seq<(u64, Seq<char>)>
    decreases matches.len(),
{
    if matches.len() == 0 {
        Seq::empty()
    } else {
        prs_of_matches(matches.drop_last()) + match pr_of_match(matches.last()) {
            Some(p) => seq![p],
            None => Seq::empty(),
        }
    }
}

/// The pull requests linked from `text`, in order (none if the pattern were refused).
pub open spec fn prs_spec(text: Seq<char>) -> Seq<(u64, Seq<char>)> {
    match regex_captures_iter_outcome(PR_LINK_PATTERN@, text) {
        Ok(matches) => prs_of_matches(matches),
        Err(_) => Seq::empty(),
    }
}

/// Plain views of pull requests: number and URL.
pub open spec fn prs_view(prs: Seq<Pr>) -> Seq<(u64, Seq<char>)> {
    prs.map_values(|p: Pr| (p.number, p.html_url@))
}

/// Parse PRs from text, e.g. a changelog entry: each link ending with `/pull/<number>` or
/// `/pulls/<number>` whose number is a `u64` and which is a valid URL.
pub fn prs_from_text(text: &str) -> (r: Vec<Pr>)
    ensures
        prs_view(r@) == prs_spec(text@),
{
    let mut prs: Vec<Pr> = Vec::new();
    let matches = match regex_captures_iter(PR_LINK_PATTERN, text) {
        Ok(m) => m,
        Err(_) => {
            assert(prs_view(prs@) =~= Seq::<(u64, Seq<char>)>::empty());
            return prs;
        },
    };
    let ghost ms = matches@.map_values(|g: Vec<Option<String>>| crate::regex_text::groups_view(g));
    let mut k: usize = 0;
    assert(prs_view(prs@) =~= prs_of_matches(ms.take(0)));
    while k < matches.len()
        invariant
            k <= matches@.len(),
            ms == matches@.map_values(|g: Vec<Option<String>>| crate::regex_text::groups_view(g)),
            prs_view(prs@) == prs_of_matches(ms.take(k as int)),
        decreases matches.len() - k,
    {
        let groups = &matches[k];
        let ghost g = ms[k as int];
        assert(ms.take(k + 1).drop_last() == ms.take(k as int));
        assert(ms.take(k + 1).last() == g);
        let ghost before = prs@;
        if groups.len() > 1 {
            match (&groups[0], &groups[1]) {
                (Some(whole), Some(number)) => {
                    assert(g[0] == Some(whole@));
                    assert(g[1] == Some(number@));
                    match parse_u64(number.as_str()) {
                        Some(n) => {
                            match parse_url(whole.as_str()) {
                                Ok(url) => {
                                    prs.push(Pr { number: n, html_url: url });
                                    assert(prs_view(prs@) == prs_view(before).push((n, url@)));
                                },
                                Err(_) => {},
                            }
                        },
                        None => {},
                    }
                },
                _ => {
                    assert(g[0] is None || g[1] is None);
                },
            }
        }
        k += 1;
    }
    assert(ms.take(matches@.len() as int) == ms);
    prs
}

} // verus!
