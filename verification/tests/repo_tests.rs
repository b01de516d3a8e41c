use comments::codec::is_secret_empty;
use comments::errors::ApiError;
use comments::handlers::{authorize_mutation, handle_list, handle_update, is_author};
use comments::patch::{build_patch, Assignment, UpdateFields};
use comments::repo::Repo;

const ADMIN: &[u8] = b"correct horse battery staple";

fn new_comment(repo: &mut Repo, message: &str, author: &str) -> comments::repo::CommentRecord {
    repo.create(message.to_owned(), author.to_owned(), "2024-01-01 00:00:00".to_owned())
}

fn bearer(token: &[u8]) -> Vec<u8> {
    let mut h = b"bearer ".to_vec();
    h.extend_from_slice(token);
    h
}

fn admin_header() -> Vec<u8> {
    bearer(ADMIN)
}

fn update(approved: Option<bool>, message: Option<&str>, author: Option<&str>) -> UpdateFields {
    UpdateFields {
        approved,
        message: message.map(|m| m.to_owned()),
        author: author.map(|a| a.to_owned()),
    }
}

#[test]
fn create_assigns_increasing_ids_and_defaults() {
    let mut repo = Repo::new();
    let a = new_comment(&mut repo, "first", "ann");
    let b = new_comment(&mut repo, "second", "ben");
    assert_eq!(a.id, 1);
    assert_eq!(b.id, 2);
    assert!(!a.approved);
    assert!(!b.approved);
    assert!(!is_secret_empty(&a.secret));
    assert_eq!(a.message, "first");
    assert_eq!(a.author, "ann");
    assert_eq!(a.created_at, "2024-01-01 00:00:00");
}

#[test]
fn listing_hides_unapproved_from_non_admins_and_never_shows_secrets() {
    let mut repo = Repo::new();
    let a = new_comment(&mut repo, "first", "ann");
    let b = new_comment(&mut repo, "second", "ben");
    let plan = build_patch(&update(Some(true), None, None), true).unwrap();
    repo.patch(a.id, plan).unwrap();

    let public = repo.list(false);
    assert_eq!(public.len(), 1);
    assert_eq!(public[0].id, a.id);
    assert!(public[0].approved);
    assert!(is_secret_empty(&public[0].secret));

    let all = repo.list(true);
    assert_eq!(all.len(), 2);
    assert_eq!(all[1].id, b.id);
    assert!(is_secret_empty(&all[0].secret));
    assert!(is_secret_empty(&all[1].secret));
}

#[test]
fn get_secret_finds_exactly_the_stored_record() {
    let mut repo = Repo::new();
    let a = new_comment(&mut repo, "first", "ann");
    assert_eq!(repo.get_secret(a.id), Some(a.secret));
    assert_eq!(repo.get_secret(99), None);
}

#[test]
fn patch_targets_one_record_and_redacts_the_response() {
    let mut repo = Repo::new();
    let a = new_comment(&mut repo, "first", "ann");
    let b = new_comment(&mut repo, "second", "ben");
    let plan = vec![Assignment::Message("edited".to_owned())];
    let updated = repo.patch(a.id, plan).unwrap();
    assert_eq!(updated.id, a.id);
    assert_eq!(updated.message, "edited");
    assert!(is_secret_empty(&updated.secret));
    assert_eq!(updated.created_at, a.created_at);
    // the other record is untouched
    let all = repo.list(true);
    assert_eq!(all[1].message, "second");
    assert_eq!(all[1].id, b.id);
}

#[test]
fn patch_on_a_missing_id_is_not_found() {
    let mut repo = Repo::new();
    let plan = vec![Assignment::Message("edited".to_owned())];
    assert!(matches!(repo.patch(42, plan), Err(ApiError::NotFound)));
}

#[test]
fn build_patch_drops_approved_for_non_admins() {
    let plan = build_patch(&update(Some(true), Some("m"), None), false).unwrap();
    assert_eq!(plan.len(), 1);
    assert!(matches!(plan[0], Assignment::Message(_)));
    let plan = build_patch(&update(Some(true), Some("m"), Some("a")), true).unwrap();
    assert_eq!(plan.len(), 3);
    assert!(matches!(plan[0], Assignment::Approved(true)));
    assert!(matches!(plan[1], Assignment::Message(_)));
    assert!(matches!(plan[2], Assignment::Author(_)));
}

#[test]
fn build_patch_rejects_an_empty_update() {
    assert!(matches!(build_patch(&update(None, None, None), true), Err(ApiError::Validation)));
    assert!(matches!(build_patch(&update(None, None, None), false), Err(ApiError::Validation)));
}

#[test]
fn creation_token_authorizes_its_comment_and_no_other() {
    let mut repo = Repo::new();
    let a = new_comment(&mut repo, "first", "ann");
    let b = new_comment(&mut repo, "second", "ben");
    let token = comments::codec::encode_secret(&a.secret);
    let header = bearer(&token);
    assert!(is_author(Some(&header), a.id, &repo));
    assert!(!is_author(Some(&header), b.id, &repo));
    assert!(!is_author(Some(&header), 99, &repo));

    let r = handle_update(&mut repo, Some(&header), a.id, &update(None, Some("mine"), None), ADMIN);
    assert_eq!(r.unwrap().message, "mine");
    let r = handle_update(&mut repo, Some(&header), b.id, &update(None, Some("not mine"), None), ADMIN);
    assert!(matches!(r, Err(ApiError::Unauthorized)));
    let all = repo.list(true);
    assert_eq!(all[1].message, "second");
}

#[test]
fn authorize_mutation_combines_both_paths() {
    let mut repo = Repo::new();
    let a = new_comment(&mut repo, "first", "ann");
    let token = comments::codec::encode_secret(&a.secret);
    let author_header = bearer(&token);
    let admin = authorize_mutation(Some(&admin_header()), a.id, &repo, ADMIN);
    assert!(admin.is_admin && admin.may_mutate);
    let author = authorize_mutation(Some(&author_header), a.id, &repo, ADMIN);
    assert!(!author.is_admin && author.may_mutate);
    let nobody = authorize_mutation(None, a.id, &repo, ADMIN);
    assert!(!nobody.is_admin && !nobody.may_mutate);
}

#[test]
fn non_admin_approved_only_patch_changes_nothing() {
    let mut repo = Repo::new();
    let a = new_comment(&mut repo, "first", "ann");
    let token = comments::codec::encode_secret(&a.secret);
    let header = bearer(&token);
    let r = handle_update(&mut repo, Some(&header), a.id, &update(Some(true), None, None), ADMIN);
    assert!(matches!(r, Err(ApiError::Validation)));
    let all = repo.list(true);
    assert_eq!(all.len(), 1);
    assert!(!all[0].approved);
    assert_eq!(all[0].message, "first");
}

#[test]
fn non_admin_approved_is_dropped_but_other_fields_apply() {
    let mut repo = Repo::new();
    let a = new_comment(&mut repo, "first", "ann");
    let token = comments::codec::encode_secret(&a.secret);
    let header = bearer(&token);
    let r = handle_update(
        &mut repo,
        Some(&header),
        a.id,
        &update(Some(true), Some("edited"), None),
        ADMIN,
    );
    let got = r.unwrap();
    assert_eq!(got.message, "edited");
    assert!(!got.approved);
    let all = repo.list(true);
    assert!(!all[0].approved);
    assert_eq!(all[0].message, "edited");
}

#[test]
fn empty_update_fails_validation_and_leaves_storage_alone() {
    let mut repo = Repo::new();
    let a = new_comment(&mut repo, "first", "ann");
    let r = handle_update(&mut repo, Some(&admin_header()), a.id, &update(None, None, None), ADMIN);
    assert!(matches!(r, Err(ApiError::Validation)));
    let all = repo.list(true);
    assert_eq!(all.len(), 1);
    assert_eq!(all[0].message, "first");
    assert!(!all[0].approved);
}

#[test]
fn unauthorized_update_fails_before_validation() {
    let mut repo = Repo::new();
    let a = new_comment(&mut repo, "first", "ann");
    // even an empty payload reports the authorization failure first
    let r = handle_update(&mut repo, None, a.id, &update(None, None, None), ADMIN);
    assert!(matches!(r, Err(ApiError::Unauthorized)));
    let bad = bearer(b"wrong");
    let r = handle_update(&mut repo, Some(&bad), a.id, &update(None, Some("x"), None), ADMIN);
    assert!(matches!(r, Err(ApiError::Unauthorized)));
}

#[test]
fn admin_update_of_a_missing_record_is_not_found() {
    let mut repo = Repo::new();
    let r = handle_update(&mut repo, Some(&admin_header()), 7, &update(None, Some("x"), None), ADMIN);
    assert!(matches!(r, Err(ApiError::NotFound)));
}

#[test]
fn error_messages_are_stable() {
    assert_eq!(ApiError::Unauthorized.message(), "Unauthorized");
    assert_eq!(ApiError::Validation.message(), "No updates provided");
    assert_eq!(ApiError::NotFound.message(), "No such comment");
}

#[test]
fn full_lifecycle_post_then_moderate() {
    let mut repo = Repo::new();

    // POST /: 201 with approved=false, a fresh id, and a non-empty token
    let created = new_comment(&mut repo, "hi", "a");
    assert_eq!(created.id, 1);
    assert!(!created.approved);
    let token = comments::codec::encode_secret(&created.secret);
    assert!(!token.is_empty());

    // GET / without auth excludes the unapproved record
    let public = handle_list(&repo, None, ADMIN);
    assert!(public.is_empty());

    // PUT /{id} with the issued token edits the message, approved unchanged
    let header = bearer(&token);
    let edited = handle_update(
        &mut repo,
        Some(&header),
        created.id,
        &update(None, Some("edited"), None),
        ADMIN,
    )
    .unwrap();
    assert_eq!(edited.message, "edited");
    assert!(!edited.approved);

    // PUT /{id} with the administrator credential approves it
    let approved = handle_update(
        &mut repo,
        Some(&admin_header()),
        created.id,
        &update(Some(true), None, None),
        ADMIN,
    )
    .unwrap();
    assert!(approved.approved);

    // an unauthenticated GET / now includes it, secret absent
    let public = handle_list(&repo, None, ADMIN);
    assert_eq!(public.len(), 1);
    assert_eq!(public[0].message, "edited");
    assert!(public[0].approved);
    assert!(is_secret_empty(&public[0].secret));
}
