//! Authorization decision and the request-level operations.
//!
//! A request may mutate a comment when it is the administrator or the
//! verified author of that exact comment; only the administrator may
//! change the approval flag or see unapproved comments. When a mutation is
//! not authorized the whole operation fails before any field is looked
//! at; when it is, the patch builder gates the fields and the repository
//! applies the rest as one targeted update.

use crate::auth::bearer_token_of;
use crate::auth::extract_bearer_token;
use crate::auth::is_admin;
use crate::auth::opt_bytes;
use crate::auth::spec_is_admin;
use crate::auth::token_authorizes;
use crate::auth::token_matches_secret;
use crate::codec::is_zero_secret;
use crate::errors::ApiError;
use crate::patch::UpdateFields;
use crate::patch::UpdateModel;
use crate::patch::build_patch;
use crate::patch::gate_update;
use crate::patch::plan_model;
use crate::repo::CommentModel;
use crate::repo::CommentRecord;
use crate::repo::Repo;
use crate::repo::apply_plan;
use crate::repo::find_index;
use crate::repo::list_model;
use crate::repo::records_model;
use crate::repo::redact_model;
use crate::repo::spec_find;
use vstd::prelude::*;

verus! {

/// True exactly when the request carries the capability token of the
/// record with the given id: a bearer token is present, the record exists,
/// and the token decodes to its stored secret.
pub open spec fn spec_is_author(h: Option<Seq<u8>>, id: int, records: Seq<CommentModel>) -> bool {
    &&& bearer_token_of(h) is Some
    &&& spec_find(records, id) is Some
    &&& token_matches_secret(bearer_token_of(h).unwrap(), spec_find(records, id).unwrap().secret)
}

/// Author authenticator: true iff the request's bearer token decodes to
/// the secret stored for this comment. No token, a decode failure, or a
/// missing record all yield false, never an error.
pub fn is_author(header: Option<&[u8]>, comment_id: i64, repo: &Repo) -> (r: bool)
    ensures
        r == spec_is_author(opt_bytes(header), comment_id as int, repo@),
{
    match extract_bearer_token(header) {
        None => false,
        Some(t) => match repo.get_secret(comment_id) {
            None => false,
            Some(s) => token_authorizes(t.as_slice(), &s),
        },
    }
}

/// True exactly when the request may mutate the comment at all: it is the
/// administrator, or the verified author of that exact comment.
pub open spec fn spec_may_mutate(
    h: Option<Seq<u8>>,
    id: int,
    records: Seq<CommentModel>,
    credential: Seq<u8>,
) -> bool {
    spec_is_admin(h, credential) || spec_is_author(h, id, records)
}

/// The authorization decision for a mutation request.
pub struct Authorization {
    /// The caller holds the administrator credential.
    pub is_admin: bool,
    /// The caller may mutate the target comment (administrator or author).
    pub may_mutate: bool,
}

/// Combines the two authenticators for a mutation of one comment. The
/// `approved` field stays admin-gated even when `may_mutate` holds.
pub fn authorize_mutation(header: Option<&[u8]>, comment_id: i64, repo: &Repo, credential: &[u8])
    -> (r: Authorization)
    ensures
        r.is_admin == spec_is_admin(opt_bytes(header), credential@),
        r.may_mutate == spec_may_mutate(
            opt_bytes(header),
            comment_id as int,
            repo@,
            credential@,
        ),
{
    let admin = is_admin(header, credential);
    let may_mutate = admin || is_author(header, comment_id, repo);
    Authorization { is_admin: admin, may_mutate }
}

/// What one update request does to the repository and what it answers:
/// the authorization decision first, then field gating, then one targeted
/// patch; every failure leaves the records untouched.
pub open spec fn update_model(
    records: Seq<CommentModel>,
    h: Option<Seq<u8>>,
    id: int,
    u: UpdateModel,
    credential: Seq<u8>,
) -> (Result<CommentModel, ApiError>, Seq<CommentModel>) {
    let is_adm = spec_is_admin(h, credential);
    if !spec_may_mutate(h, id, records, credential) {
        (Result::Err(ApiError::Unauthorized), records)
    } else {
        let plan = plan_model(gate_update(u, is_adm));
        if plan.len() == 0 {
            (Result::Err(ApiError::Validation), records)
        } else if find_index(records, id) == -1 {
            (Result::Err(ApiError::NotFound), records)
        } else {
            let updated = apply_plan(records[find_index(records, id)], plan);
            (Result::Ok(redact_model(updated)), records.update(find_index(records, id), updated))
        }
    }
}

/// Handles one update request against the repository: authorization,
/// admin-gated patch building, and the targeted patch, exactly as
/// [`update_model`] states.
pub fn handle_update(
    repo: &mut Repo,
    header: Option<&[u8]>,
    comment_id: i64,
    update: &UpdateFields,
    credential: &[u8],
) -> (r: Result<CommentRecord, ApiError>)
    requires
        old(repo).wf(),
    ensures
        final(repo).wf(),
        final(repo).next_id == old(repo).next_id,
        ({
            let (res, records) = update_model(
                old(repo)@,
                opt_bytes(header),
                comment_id as int,
                update@,
                credential@,
            );
            &&& final(repo)@ == records
            &&& match r {
                Ok(c) => res == Result::<CommentModel, ApiError>::Ok(c@),
                Err(e) => res == Result::<CommentModel, ApiError>::Err(e),
            }
        }),
{
    let auth = authorize_mutation(header, comment_id, repo, credential);
    if !auth.may_mutate {
        return Err(ApiError::Unauthorized);
    }
    let plan = match build_patch(update, auth.is_admin) {
        Ok(plan) => plan,
        Err(e) => {
            return Err(e);
        },
    };
    repo.patch(comment_id, plan)
}

/// Handles one list request: scoped to the caller's visibility and with
/// every secret zeroed before it leaves the core.
pub fn handle_list(repo: &Repo, header: Option<&[u8]>, credential: &[u8]) -> (r: Vec<
    CommentRecord,
>)
    ensures
        records_model(r@) == list_model(repo@, spec_is_admin(opt_bytes(header), credential@)),
        forall|k: int| 0 <= k < r@.len() ==> is_zero_secret((#[trigger] r@[k])@.secret),
        !spec_is_admin(opt_bytes(header), credential@) ==> forall|k: int| 0 <= k < r@.len()
            ==> (#[trigger] r@[k])@.approved,
{
    let admin = is_admin(header, credential);
    repo.list(admin)
}

} // verus!
