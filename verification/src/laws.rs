//! Laws that tie the components together.
//!
//! These proof functions state, over the same models the executable
//! contracts use, what the core guarantees as a whole: a capability is
//! scoped to its own comment, a non-administrator can never move the
//! approval flag, and an empty update never touches storage.

use crate::auth::bearer_token_of;
use crate::auth::spec_is_admin;
use crate::auth::token_matches_secret;
use crate::errors::ApiError;
use crate::handlers::spec_is_author;
use crate::handlers::spec_may_mutate;
use crate::handlers::update_model;
use crate::patch::AssignmentModel;
use crate::patch::UpdateModel;
use crate::patch::gate_update;
use crate::patch::plan_model;
use crate::repo::CommentModel;
use crate::repo::apply_plan;
use crate::repo::find_index;
use crate::repo::lemma_apply_plan_fixed_fields;
use crate::repo::lemma_apply_plan_keeps_approved;
use crate::repo::lemma_find_index;
use crate::repo::spec_find;
use vstd::prelude::*;

verus! {

/// An `Authorization` header value carrying the given bearer token.
pub open spec fn bearer_header(token: Seq<u8>) -> Seq<u8> {
    seq![98u8, 101u8, 97u8, 114u8, 101u8, 114u8, 32u8] + token
}

/// The bearer token of a `bearer `-prefixed header is the token itself.
pub proof fn lemma_bearer_header_roundtrip(token: Seq<u8>)
    ensures
        bearer_token_of(Option::Some(bearer_header(token))) == Option::Some(token),
{
    let h = bearer_header(token);
    assert(h[0] == 98 && h[1] == 101 && h[2] == 97 && h[3] == 114 && h[4] == 101 && h[5] == 114
        && h[6] == 32);
    assert(h.skip(7) =~= token);
}

/// Capability scoping law: a token that decodes to the secret stored for
/// one comment authorizes that comment, and never any other comment whose
/// stored secret differs from it.
///
/// The token issued at creation satisfies the decode premise: encoding a
/// secret yields a token that decodes back to exactly that secret. The
/// premise that the two records' secrets differ is needed because secrets
/// are drawn at random: in the (never observed, astronomically unlikely)
/// state where two records hold the same 16 bytes, the shared capability
/// authorizes both.
pub proof fn lemma_capability_scoped(records: Seq<CommentModel>, i: int, j: int, token: Seq<u8>)
    requires
        0 <= i < records.len(),
        0 <= j < records.len(),
        i != j,
        forall|a: int, b: int| 0 <= a < b < records.len()
            ==> #[trigger] records[a].id < #[trigger] records[b].id,
        records[j].secret != records[i].secret,
        token_matches_secret(token, records[i].secret),
    ensures
        spec_is_author(Option::Some(bearer_header(token)), records[i].id, records),
        !spec_is_author(Option::Some(bearer_header(token)), records[j].id, records),
{
    lemma_bearer_header_roundtrip(token);
    lemma_find_index(records, records[i].id);
    lemma_find_index(records, records[j].id);
    let ri = find_index(records, records[i].id);
    assert(ri != -1 && records[ri].id == records[i].id);
    assert(ri == i) by {
        if ri < i {
            assert(records[ri].id < records[i].id);
        }
        if i < ri {
            assert(records[i].id < records[ri].id);
        }
    }
    let rj = find_index(records, records[j].id);
    assert(rj != -1 && records[rj].id == records[j].id);
    assert(rj == j) by {
        if rj < j {
            assert(records[rj].id < records[j].id);
        }
        if j < rj {
            assert(records[j].id < records[rj].id);
        }
    }
    assert(spec_find(records, records[i].id) == Option::Some(records[i]));
    assert(spec_find(records, records[j].id) == Option::Some(records[j]));
}

/// Capability scoping law, at the patch level: a caller who presents the
/// capability of one comment (and not the administrator credential) may
/// mutate that comment, and an update aimed at any other comment — one
/// whose stored secret differs — fails as unauthorized and leaves every
/// record exactly as it was, whatever the payload.
pub proof fn lemma_capability_patches_only_its_comment(
    records: Seq<CommentModel>,
    i: int,
    j: int,
    token: Seq<u8>,
    u: UpdateModel,
    credential: Seq<u8>,
)
    requires
        0 <= i < records.len(),
        0 <= j < records.len(),
        i != j,
        forall|a: int, b: int| 0 <= a < b < records.len()
            ==> #[trigger] records[a].id < #[trigger] records[b].id,
        records[j].secret != records[i].secret,
        token_matches_secret(token, records[i].secret),
        !spec_is_admin(Option::Some(bearer_header(token)), credential),
    ensures
        spec_may_mutate(Option::Some(bearer_header(token)), records[i].id, records, credential),
        ({
            let (res, after) = update_model(
                records,
                Option::Some(bearer_header(token)),
                records[j].id,
                u,
                credential,
            );
            res == Result::<CommentModel, ApiError>::Err(ApiError::Unauthorized)
                && after == records
        }),
{
    lemma_capability_scoped(records, i, j, token);
}

/// The gated plan of a non-administrator holds no approval assignment.
pub proof fn lemma_non_admin_plan_has_no_approved(u: UpdateModel)
    ensures
        forall|k: int| 0 <= k < plan_model(gate_update(u, false)).len()
            ==> !(#[trigger] plan_model(gate_update(u, false))[k] is Approved),
{
    let plan = plan_model(gate_update(u, false));
    assert forall|k: int| 0 <= k < plan.len() implies !(#[trigger] plan[k] is Approved) by {
        match gate_update(u, false).message {
            Option::Some(m) => {
                assert(plan[0] == AssignmentModel::Message(m));
            },
            Option::None => {
            },
        }
    }
}

/// Silent-drop law: an update from a caller who does not hold the
/// administrator credential never changes any record's approval flag (nor
/// its id, secret or creation time), whatever the payload; and a payload
/// carrying only `approved` produces no assignment at all, so it fails and
/// leaves every record exactly as it was.
pub proof fn lemma_non_admin_cannot_approve(
    records: Seq<CommentModel>,
    h: Option<Seq<u8>>,
    id: int,
    u: UpdateModel,
    credential: Seq<u8>,
)
    requires
        !spec_is_admin(h, credential),
    ensures
        ({
            let (res, after) = update_model(records, h, id, u, credential);
            &&& after.len() == records.len()
            &&& forall|k: int| 0 <= k < records.len() ==> (#[trigger] after[k]).approved
                == records[k].approved && after[k].id == records[k].id && after[k].secret
                == records[k].secret && after[k].created_at == records[k].created_at
            &&& (u.message is None && u.author is None) ==> after == records && res is Err
        }),
{
    let (res, after) = update_model(records, h, id, u, credential);
    if spec_may_mutate(h, id, records, credential) {
        let plan = plan_model(gate_update(u, false));
        lemma_non_admin_plan_has_no_approved(u);
        if plan.len() != 0 && find_index(records, id) != -1 {
            let at = find_index(records, id);
            lemma_find_index(records, id);
            let updated = apply_plan(records[at], plan);
            lemma_apply_plan_fixed_fields(records[at], plan);
            lemma_apply_plan_keeps_approved(records[at], plan);
            assert(forall|k: int| 0 <= k < records.len() && k != at ==> #[trigger] after[k]
                == records[k]);
            assert(after[at] == updated);
        }
    }
}

/// Empty-update law: a payload that names no field fails — with a
/// validation error whenever the caller was authorized at all — and
/// leaves storage unmodified, whoever the caller is.
pub proof fn lemma_empty_update_rejected(
    records: Seq<CommentModel>,
    h: Option<Seq<u8>>,
    id: int,
    u: UpdateModel,
    credential: Seq<u8>,
)
    requires
        u.approved is None,
        u.message is None,
        u.author is None,
    ensures
        ({
            let (res, after) = update_model(records, h, id, u, credential);
            &&& after == records
            &&& res is Err
            &&& spec_may_mutate(h, id, records, credential) ==> res == Result::<
                CommentModel,
                ApiError,
            >::Err(ApiError::Validation)
        }),
{
    let gated = gate_update(u, spec_is_admin(h, credential));
    assert(plan_model(gated).len() == 0);
}

} // verus!
