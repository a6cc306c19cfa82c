use release_plz_core::command::release_pr::{
    after_update_attempt, can_force_push, force_push_refspec, is_release_branch, labels_changed,
    look_up_old_prefix_prs, opened_pr_action, opened_prs_plan, pr_edit, release_pr_step,
    reset_target, OpenedPrAction, ReleasePrStep,
};
use release_plz_core::git::backend::{
    associated_prs_outcome, AssociatedPrsBody, AssociatedPrsOutcome, Author, BackendType, Commit,
    GitPr, Label, PrCommit,
};

fn git_pr(title: &str, body: Option<&str>, labels: &[&str]) -> GitPr {
    GitPr {
        user: Author {
            login: "bot".to_string(),
        },
        number: 3,
        html_url: "https://h/o/r/pull/3".to_string(),
        head: Commit {
            ref_field: "release-plz-2024".to_string(),
            sha: "abc".to_string(),
        },
        title: title.to_string(),
        body: body.map(|b| b.to_string()),
        labels: labels
            .iter()
            .map(|l| Label {
                name: l.to_string(),
                id: None,
            })
            .collect(),
    }
}

#[test]
fn edit_changes_only_what_differs() {
    let pr = git_pr("chore: release", Some("body"), &[]);
    let edit = pr_edit(&pr, "chore: release", "body");
    assert!(!edit.contains_edit());
    let edit = pr_edit(&pr, "chore: release v1", "body");
    assert_eq!(edit.title, Some("chore: release v1".to_string()));
    assert!(edit.body.is_none());
    let edit = pr_edit(&git_pr("t", None, &[]), "t", "b");
    assert_eq!(edit.body, Some("b".to_string()));
}

#[test]
fn labels_are_compared_in_order() {
    let pr = git_pr("t", None, &["a", "b"]);
    assert!(!labels_changed(&pr, &vec!["a".to_string(), "b".to_string()]));
    assert!(labels_changed(&pr, &vec!["b".to_string(), "a".to_string()]));
    assert!(labels_changed(&pr, &vec!["a".to_string()]));
}

#[test]
fn release_branches_are_recognized() {
    assert!(is_release_branch("release-plz-2024", "custom-"));
    assert!(is_release_branch("release-plz/old", "custom-"));
    assert!(is_release_branch("custom-1", "custom-"));
    assert!(!is_release_branch("main", "custom-"));
}

#[test]
fn reset_and_refspec() {
    assert_eq!(reset_target(3), "HEAD~3");
    assert_eq!(force_push_refspec("origin", "tmp", "rel"), "origin/tmp:rel");
}

#[test]
fn force_push_only_without_contributors() {
    let c = |l: &str| PrCommit {
        author: Some(Author { login: l.to_string() }),
        sha: "1".to_string(),
    };
    assert!(can_force_push(&[c("release-plz[bot]")]));
    assert!(can_force_push(&[c("me"), c("github-actions[bot]")]));
    assert!(!can_force_push(&[c("me"), c("other")]));
}

#[test]
fn pull_request_only_for_updates_with_changes() {
    assert_eq!(release_pr_step(true, true), ReleasePrStep::OpenOrUpdate);
    assert_eq!(release_pr_step(true, false), ReleasePrStep::NothingToDo);
    assert_eq!(release_pr_step(false, true), ReleasePrStep::NothingToDo);
}

#[test]
fn all_opened_prs_but_the_first_are_closed() {
    let mut a = git_pr("t", None, &[]);
    a.number = 1;
    let mut b = a.clone();
    b.number = 2;
    let mut c = a.clone();
    c.number = 5;
    let plan = opened_prs_plan(&vec![a, b, c]);
    assert_eq!(plan.keep, Some(1));
    assert_eq!(plan.to_close, vec![2, 5]);
    let plan = opened_prs_plan(&vec![]);
    assert_eq!(plan.keep, None);
    assert!(plan.to_close.is_empty());
    assert!(look_up_old_prefix_prs(&vec![]));
    assert!(!look_up_old_prefix_prs(&vec![git_pr("t", None, &[])]));
}

#[test]
fn pr_with_contributors_is_closed_and_reopened() {
    let commit = |login: &str| PrCommit {
        author: Some(Author { login: login.to_string() }),
        sha: "s".to_string(),
    };
    assert_eq!(opened_pr_action(&[commit("bot"), commit("bot")]), OpenedPrAction::UpdateInPlace);
    assert_eq!(opened_pr_action(&[commit("bot"), commit("me")]), OpenedPrAction::CloseAndOpenNew);
    assert_eq!(after_update_attempt(false), OpenedPrAction::CloseAndOpenNew);
    assert_eq!(after_update_attempt(true), OpenedPrAction::UpdateInPlace);
}

#[test]
fn associated_prs_response_statuses() {
    assert_eq!(associated_prs_outcome(BackendType::Github, 404, "b", "e", "c"), AssociatedPrsOutcome::NoPrs);
    assert_eq!(
        associated_prs_outcome(BackendType::Github, 422, "https://api.github.com/", "E", "abc"),
        AssociatedPrsOutcome::Unprocessable(
            "Received the following error from https://api.github.com/: E. Did you push the commit abc?".to_string()
        )
    );
    assert_eq!(associated_prs_outcome(BackendType::Gitlab, 500, "b", "e", "c"), AssociatedPrsOutcome::Failed);
    assert_eq!(
        associated_prs_outcome(BackendType::Gitea, 200, "b", "e", "c"),
        AssociatedPrsOutcome::Read(AssociatedPrsBody::PullRequest)
    );
    assert_eq!(
        associated_prs_outcome(BackendType::Gitlab, 200, "b", "e", "c"),
        AssociatedPrsOutcome::Read(AssociatedPrsBody::MergeRequests)
    );
}
