//! Patch builder: from a sparse update payload to field assignments.
//!
//! A payload names any subset of `{approved, message, author}`. The
//! builder gates `approved` on the caller's administrator flag — a
//! non-admin's `approved` value is dropped silently, not rejected — and
//! emits the remaining assignments in the fixed order approved, message,
//! author. Column names only ever come from that fixed enumeration, never
//! from caller input. An update that leaves no assignment at all is a
//! validation failure and must not reach storage.

use crate::errors::ApiError;
use vstd::prelude::*;

verus! {

/// A sparse update payload: each field is independently optional, and an
/// absent field is left untouched on the record.
pub struct UpdateFields {
    pub approved: Option<bool>,
    pub message: Option<String>,
    pub author: Option<String>,
}

/// The mathematical model of an update payload.
pub struct UpdateModel {
    pub approved: Option<bool>,
    pub message: Option<Seq<char>>,
    pub author: Option<Seq<char>>,
}

impl View for UpdateFields {
    type V = UpdateModel;

    open spec fn view(&self) -> UpdateModel {
        UpdateModel {
            approved: self.approved,
            message: match self.message {
                Option::Some(m) => Option::Some(m@),
                Option::None => Option::None,
            },
            author: match self.author {
                Option::Some(a) => Option::Some(a@),
                Option::None => Option::None,
            },
        }
    }
}

/// One field assignment of a patch: which column changes, and to what.
pub enum Assignment {
    Approved(bool),
    Message(String),
    Author(String),
}

/// The mathematical model of one field assignment.
pub enum AssignmentModel {
    Approved(bool),
    Message(Seq<char>),
    Author(Seq<char>),
}

impl View for Assignment {
    type V = AssignmentModel;

    open spec fn view(&self) -> AssignmentModel {
        match self {
            Assignment::Approved(b) => AssignmentModel::Approved(*b),
            Assignment::Message(m) => AssignmentModel::Message(m@),
            Assignment::Author(a) => AssignmentModel::Author(a@),
        }
    }
}

/// The models of a built assignment list.
pub open spec fn plan_view(p: Seq<Assignment>) -> Seq<AssignmentModel> {
    p.map_values(|a: Assignment| a@)
}

/// Admin-gating: a non-admin caller's `approved` field is dropped
/// silently; everything else passes through.
pub open spec fn gate_update(u: UpdateModel, is_admin: bool) -> UpdateModel {
    UpdateModel { approved: if is_admin { u.approved } else { Option::None }, ..u }
}

/// The assignments an update payload asks for, in the fixed order
/// approved, message, author; absent fields contribute nothing.
pub open spec fn plan_model(u: UpdateModel) -> Seq<AssignmentModel> {
    (match u.approved {
        Option::Some(b) => seq![AssignmentModel::Approved(b)],
        Option::None => Seq::empty(),
    }) + (match u.message {
        Option::Some(m) => seq![AssignmentModel::Message(m)],
        Option::None => Seq::empty(),
    }) + (match u.author {
        Option::Some(a) => seq![AssignmentModel::Author(a)],
        Option::None => Seq::empty(),
    })
}

/// Builds the assignment list for a payload under the caller's admin flag.
///
/// Returns exactly the gated assignments, in the fixed field order; when
/// gating leaves nothing to assign the result is a validation failure and
/// nothing may touch storage.
pub fn build_patch(update: &UpdateFields, is_admin: bool) -> (r: Result<Vec<Assignment>, ApiError>)
    ensures
        match r {
            Ok(p) => plan_view(p@) == plan_model(gate_update(update@, is_admin)) && p@.len() > 0,
            Err(e) => e == ApiError::Validation
                && plan_model(gate_update(update@, is_admin)).len() == 0,
        },
{
    let ghost gated = gate_update(update@, is_admin);
    let mut plan: Vec<Assignment> = Vec::new();
    if is_admin {
        if let Some(b) = update.approved {
            plan.push(Assignment::Approved(b));
        }
    }
    if let Some(m) = &update.message {
        plan.push(Assignment::Message(m.clone()));
    }
    if let Some(a) = &update.author {
        plan.push(Assignment::Author(a.clone()));
    }
    assert(plan_view(plan@) =~= plan_model(gated));
    if plan.len() == 0 {
        Err(ApiError::Validation)
    } else {
        Ok(plan)
    }
}

} // verus!
