//! Comment repository: the record set, creation, scoped listing, secret
//! lookup, and targeted patching.
//!
//! Ids are assigned monotonically at creation and never reused; every
//! stored record carries a non-zero secret; `approved` defaults to false.
//! A patch changes exactly one record, only through its assignment list,
//! and never touches `id`, `secret` or `created_at`. Records that leave
//! the repository through any non-creation operation have their secret
//! zeroed first.

use crate::codec::is_zero_secret;
use crate::codec::issue_secret;
use crate::codec::redacted_secret;
use crate::errors::ApiError;
use crate::patch::Assignment;
use crate::patch::AssignmentModel;
use crate::patch::plan_view;
use vstd::prelude::*;

verus! {

/// One stored comment.
pub struct CommentRecord {
    pub id: i64,
    pub secret: [u8; 16],
    pub message: String,
    pub author: String,
    pub approved: bool,
    pub created_at: String,
}

/// The mathematical model of one comment.
pub struct CommentModel {
    pub id: int,
    pub secret: Seq<u8>,
    pub message: Seq<char>,
    pub author: Seq<char>,
    pub approved: bool,
    pub created_at: Seq<char>,
}

impl View for CommentRecord {
    type V = CommentModel;

    open spec fn view(&self) -> CommentModel {
        CommentModel {
            id: self.id as int,
            secret: self.secret@,
            message: self.message@,
            author: self.author@,
            approved: self.approved,
            created_at: self.created_at@,
        }
    }
}

impl CommentModel {
    /// A well-formed stored comment: a positive id and a real (non-zero)
    /// 16-byte secret.
    pub open spec fn wf(self) -> bool {
        &&& 1 <= self.id <= i64::MAX
        &&& self.secret.len() == 16
        &&& !is_zero_secret(self.secret)
    }
}

/// The models of a sequence of records.
pub open spec fn records_model(s: Seq<CommentRecord>) -> Seq<CommentModel> {
    s.map_values(|r: CommentRecord| r@)
}

/// The all-zero secret value: what stands in the secret field of every
/// record that leaves the core outside creation.
pub open spec fn zero_secret() -> Seq<u8> {
    Seq::new(16, |i: int| 0u8)
}

/// A comment as it leaves the core: the same record with the secret
/// zeroed.
pub open spec fn redact_model(c: CommentModel) -> CommentModel {
    CommentModel { secret: zero_secret(), ..c }
}

/// The position of the record with the given id, or -1 when none exists.
pub open spec fn find_index(s: Seq<CommentModel>, id: int) -> int
    decreases s.len(),
{
    if s.len() == 0 {
        -1
    } else if s[0].id == id {
        0
    } else {
        let rest = find_index(s.drop_first(), id);
        if rest == -1 {
            -1
        } else {
            rest + 1
        }
    }
}

/// The stored record with the given id, if any.
pub open spec fn spec_find(s: Seq<CommentModel>, id: int) -> Option<CommentModel> {
    if find_index(s, id) >= 0 {
        Option::Some(s[find_index(s, id)])
    } else {
        Option::None
    }
}

/// `find_index` finds the first record with the id, and -1 exactly when
/// no record has it.
pub proof fn lemma_find_index(s: Seq<CommentModel>, id: int)
    ensures
        find_index(s, id) == -1 ==> forall|j: int| 0 <= j < s.len() ==> s[j].id != id,
        find_index(s, id) != -1 ==> {
            let r = find_index(s, id);
            &&& 0 <= r < s.len()
            &&& s[r].id == id
            &&& forall|j: int| 0 <= j < r ==> s[j].id != id
        },
    decreases s.len(),
{
    if s.len() > 0 && s[0].id != id {
        lemma_find_index(s.drop_first(), id);
        let rest = s.drop_first();
        assert(forall|j: int| 0 <= j < rest.len() ==> rest[j] == s[j + 1]);
        if find_index(s, id) == -1 {
            assert forall|j: int| 0 <= j < s.len() implies s[j].id != id by {
                if j > 0 {
                    assert(rest[j - 1] == s[j]);
                }
            }
        } else {
            let r = find_index(s, id);
            assert(s[r] == rest[r - 1]);
            assert forall|j: int| 0 <= j < r implies s[j].id != id by {
                if j > 0 {
                    assert(rest[j - 1] == s[j]);
                }
            }
        }
    }
}

/// One assignment applied to a record: the named field changes, nothing
/// else does.
pub open spec fn apply_one(c: CommentModel, a: AssignmentModel) -> CommentModel {
    match a {
        AssignmentModel::Approved(b) => CommentModel { approved: b, ..c },
        AssignmentModel::Message(m) => CommentModel { message: m, ..c },
        AssignmentModel::Author(x) => CommentModel { author: x, ..c },
    }
}

/// An assignment list applied to a record, in order.
pub open spec fn apply_plan(c: CommentModel, plan: Seq<AssignmentModel>) -> CommentModel
    decreases plan.len(),
{
    if plan.len() == 0 {
        c
    } else {
        apply_one(apply_plan(c, plan.drop_last()), plan.last())
    }
}

/// A patch never changes a record's id, secret or creation time.
pub proof fn lemma_apply_plan_fixed_fields(c: CommentModel, plan: Seq<AssignmentModel>)
    ensures
        apply_plan(c, plan).id == c.id,
        apply_plan(c, plan).secret == c.secret,
        apply_plan(c, plan).created_at == c.created_at,
    decreases plan.len(),
{
    if plan.len() > 0 {
        lemma_apply_plan_fixed_fields(c, plan.drop_last());
    }
}

/// A plan without an `approved` assignment leaves `approved` unchanged.
pub proof fn lemma_apply_plan_keeps_approved(c: CommentModel, plan: Seq<AssignmentModel>)
    requires
        forall|k: int| 0 <= k < plan.len() ==> !(#[trigger] plan[k] is Approved),
    ensures
        apply_plan(c, plan).approved == c.approved,
    decreases plan.len(),
{
    if plan.len() > 0 {
        lemma_apply_plan_keeps_approved(c, plan.drop_last());
    }
}

/// What a caller sees when listing: all records for an administrator,
/// only approved ones for anyone else, every one with its secret zeroed,
/// in storage order.
pub open spec fn list_model(s: Seq<CommentModel>, is_admin: bool) -> Seq<CommentModel>
    decreases s.len(),
{
    if s.len() == 0 {
        Seq::empty()
    } else {
        let rest = list_model(s.drop_last(), is_admin);
        if is_admin || s.last().approved {
            rest.push(redact_model(s.last()))
        } else {
            rest
        }
    }
}

/// Visibility scoping law: a non-administrator listing never contains an
/// unapproved record, and no listing, for any caller and any repository
/// state, ever contains a secret.
pub proof fn lemma_list_model_scope(s: Seq<CommentModel>, is_admin: bool)
    ensures
        forall|k: int| 0 <= k < list_model(s, is_admin).len()
            ==> (#[trigger] list_model(s, is_admin)[k]).secret == zero_secret(),
        !is_admin ==> forall|k: int| 0 <= k < list_model(s, is_admin).len()
            ==> (#[trigger] list_model(s, is_admin)[k]).approved,
    decreases s.len(),
{
    if s.len() > 0 {
        lemma_list_model_scope(s.drop_last(), is_admin);
        let rest = list_model(s.drop_last(), is_admin);
        let whole = list_model(s, is_admin);
        assert forall|k: int| 0 <= k < whole.len() implies (#[trigger] whole[k]).secret
            == zero_secret() && (!is_admin ==> whole[k].approved) by {
            if is_admin || s.last().approved {
                assert(whole == rest.push(redact_model(s.last())));
                if k < rest.len() {
                    assert(whole[k] == rest[k]);
                } else {
                    assert(whole[k] == redact_model(s.last()));
                }
            } else {
                assert(whole == rest);
            }
        }
    }
}

/// The repository: the record set and the next id to assign.
pub struct Repo {
    pub records: Vec<CommentRecord>,
    pub next_id: i64,
}

impl View for Repo {
    type V = Seq<CommentModel>;

    open spec fn view(&self) -> Seq<CommentModel> {
        records_model(self.records@)
    }
}

impl Repo {
    /// Repository invariant: well-formed records, ids strictly increasing
    /// in creation order, and every id below the next to assign.
    pub open spec fn wf(self) -> bool {
        &&& 1 <= self.next_id
        &&& forall|i: int| 0 <= i < self@.len()
            ==> (#[trigger] self@[i]).wf() && self@[i].id < self.next_id
        &&& forall|i: int, j: int| 0 <= i < j < self@.len()
            ==> #[trigger] self@[i].id < #[trigger] self@[j].id
    }

    /// An empty repository that will assign id 1 first.
    pub fn new() -> (r: Repo)
        ensures
            r.wf(),
            r@ == Seq::<CommentModel>::empty(),
            r.next_id == 1,
    {
        let r = Repo { records: Vec::new(), next_id: 1 };
        assert(r@ =~= Seq::<CommentModel>::empty());
        r
    }

    /// Creates a comment: assigns the next id, issues a fresh non-zero
    /// secret, defaults `approved` to false, stores the record and returns
    /// it in full — the one response that ever carries the secret.
    pub fn create(&mut self, message: String, author: String, created_at: String) -> (r:
        CommentRecord)
        requires
            old(self).wf(),
            old(self).next_id < i64::MAX,
        ensures
            final(self).wf(),
            r@.id == old(self).next_id as int,
            !is_zero_secret(r@.secret),
            r@.message == message@,
            r@.author == author@,
            r@.approved == false,
            r@.created_at == created_at@,
            final(self)@ == old(self)@.push(r@),
            final(self).next_id == old(self).next_id + 1,
    {
        let secret = issue_secret();
        let id = self.next_id;
        let stored = CommentRecord {
            id,
            secret,
            message: message.clone(),
            author: author.clone(),
            approved: false,
            created_at: created_at.clone(),
        };
        let returned = CommentRecord { id, secret, message, author, approved: false, created_at };
        assert(stored@ == returned@);
        self.records.push(stored);
        self.next_id = self.next_id + 1;
        assert(self@ =~= old(self)@.push(returned@));
        proof {
            lemma_wf_after_push(old(self)@, self@, returned@, self.next_id as int);
        }
        returned
    }

    /// Lists the records a caller may see: everything for an
    /// administrator, only approved records otherwise, each with its
    /// secret zeroed before it leaves the core.
    pub fn list(&self, is_admin: bool) -> (r: Vec<CommentRecord>)
        ensures
            records_model(r@) == list_model(self@, is_admin),
            forall|k: int| 0 <= k < r@.len() ==> is_zero_secret((#[trigger] r@[k])@.secret),
            !is_admin ==> forall|k: int| 0 <= k < r@.len() ==> (#[trigger] r@[k])@.approved,
    {
        let mut out: Vec<CommentRecord> = Vec::new();
        let mut i: usize = 0;
        assert(records_model(out@) =~= list_model(self@.take(0), is_admin));
        while i < self.records.len()
            invariant
                0 <= i <= self.records@.len(),
                self@.len() == self.records@.len(),
                records_model(out@) == list_model(self@.take(i as int), is_admin),
            decreases self.records@.len() - i,
        {
            let rec = &self.records[i];
            let ghost prefix = self@.take(i as int);
            assert(self@.take(i + 1 as int).drop_last() =~= prefix);
            assert(self@.take(i + 1 as int).last() == self@[i as int]);
            if is_admin || rec.approved {
                let redacted = CommentRecord {
                    id: rec.id,
                    secret: redacted_secret(),
                    message: rec.message.clone(),
                    author: rec.author.clone(),
                    approved: rec.approved,
                    created_at: rec.created_at.clone(),
                };
                assert(redacted@.secret =~= zero_secret());
                assert(redacted@ == redact_model(self@[i as int]));
                out.push(redacted);
            }
            assert(records_model(out@) =~= list_model(self@.take(i + 1 as int), is_admin));
            i = i + 1;
        }
        assert(self@.take(self@.len() as int) =~= self@);
        proof {
            lemma_list_model_scope(self@, is_admin);
        }
        assert(forall|k: int| 0 <= k < out@.len()
            ==> (#[trigger] out@[k])@ == records_model(out@)[k]);
        out
    }

    /// The position of the record with the given id in storage order.
    fn position_of(&self, id: i64) -> (r: Option<usize>)
        ensures
            match r {
                Some(i) => 0 <= i < self@.len() && find_index(self@, id as int) == i as int,
                None => find_index(self@, id as int) == -1,
            },
    {
        proof {
            lemma_find_index(self@, id as int);
        }
        let mut i: usize = 0;
        while i < self.records.len()
            invariant
                0 <= i <= self.records@.len(),
                self@.len() == self.records@.len(),
                forall|j: int| 0 <= j < i ==> (#[trigger] self@[j]).id != id as int,
                find_index(self@, id as int) == -1 ==> forall|j: int| 0 <= j < self@.len()
                    ==> (#[trigger] self@[j]).id != id as int,
                find_index(self@, id as int) != -1 ==> {
                    let r = find_index(self@, id as int);
                    &&& 0 <= r < self@.len()
                    &&& self@[r].id == id as int
                    &&& forall|j: int| 0 <= j < r ==> (#[trigger] self@[j]).id != id as int
                },
            decreases self.records@.len() - i,
        {
            if self.records[i].id == id {
                assert(self@[i as int] == self.records@[i as int]@);
                assert(self@[i as int].id == id as int);
                return Some(i);
            }
            i = i + 1;
        }
        None
    }

    /// The stored secret for a given id, if the record exists. Only the
    /// author authenticator consumes this; the value never leaves the
    /// core.
    pub fn get_secret(&self, id: i64) -> (r: Option<[u8; 16]>)
        ensures
            match r {
                Some(s) => spec_find(self@, id as int) matches Some(c) && c.secret == s@,
                None => spec_find(self@, id as int) is None,
            },
    {
        match self.position_of(id) {
            Some(i) => Some(self.records[i].secret),
            None => None,
        }
    }

    /// Applies an assignment list to the record with the given id: one
    /// targeted update that never touches id, secret or creation time,
    /// returning the updated record with its secret zeroed, or a
    /// not-found failure that leaves storage unmodified.
    pub fn patch(&mut self, id: i64, plan: Vec<Assignment>) -> (r: Result<CommentRecord, ApiError>)
        requires
            old(self).wf(),
        ensures
            final(self).wf(),
            final(self).next_id == old(self).next_id,
            match r {
                Ok(c) => {
                    let i = find_index(old(self)@, id as int);
                    let updated = apply_plan(old(self)@[i], plan_view(plan@));
                    &&& i >= 0
                    &&& final(self)@ == old(self)@.update(i, updated)
                    &&& c@ == redact_model(updated)
                },
                Err(e) => {
                    &&& e == ApiError::NotFound
                    &&& find_index(old(self)@, id as int) == -1
                    &&& final(self)@ == old(self)@
                },
            },
    {
        let i = match self.position_of(id) {
            Some(i) => i,
            None => {
                return Err(ApiError::NotFound);
            },
        };
        let ghost plan_m = plan_view(plan@);
        let ghost orig = self@[i as int];
        let mut rec = self.records.remove(i);
        let mut k: usize = 0;
        while k < plan.len()
            invariant
                0 <= k <= plan@.len(),
                plan_m == plan_view(plan@),
                rec@ == apply_plan(orig, plan_m.take(k as int)),
            decreases plan@.len() - k,
        {
            assert(plan_m.take(k + 1 as int).drop_last() =~= plan_m.take(k as int));
            assert(plan_m.take(k + 1 as int).last() == plan_m[k as int]);
            match &plan[k] {
                Assignment::Approved(b) => {
                    rec.approved = *b;
                },
                Assignment::Message(m) => {
                    rec.message = m.clone();
                },
                Assignment::Author(a) => {
                    rec.author = a.clone();
                },
            }
            k = k + 1;
        }
        assert(plan_m.take(plan_m.len() as int) =~= plan_m);
        let response = CommentRecord {
            id: rec.id,
            secret: redacted_secret(),
            message: rec.message.clone(),
            author: rec.author.clone(),
            approved: rec.approved,
            created_at: rec.created_at.clone(),
        };
        assert(response@.secret =~= zero_secret());
        self.records.insert(i, rec);
        assert(self@ =~= old(self)@.update(i as int, apply_plan(orig, plan_m)));
        proof {
            lemma_apply_plan_fixed_fields(orig, plan_m);
            lemma_wf_after_update(old(self)@, self@, i as int, self.next_id as int);
        }
        Ok(response)
    }
}

/// Pushing a record with a fresh, largest id keeps the invariant.
proof fn lemma_wf_after_push(
    before: Seq<CommentModel>,
    after: Seq<CommentModel>,
    added: CommentModel,
    next_id: int,
)
    requires
        after == before.push(added),
        added.wf(),
        added.id < next_id,
        forall|i: int| 0 <= i < before.len()
            ==> (#[trigger] before[i]).wf() && before[i].id < added.id,
        forall|i: int, j: int| 0 <= i < j < before.len()
            ==> #[trigger] before[i].id < #[trigger] before[j].id,
    ensures
        forall|i: int| 0 <= i < after.len() ==> (#[trigger] after[i]).wf() && after[i].id < next_id,
        forall|i: int, j: int| 0 <= i < j < after.len()
            ==> #[trigger] after[i].id < #[trigger] after[j].id,
{
    assert(forall|i: int| 0 <= i < before.len() ==> after[i] == before[i]);
    assert(after[after.len() - 1] == added);
    assert forall|i: int, j: int| 0 <= i < j < after.len() implies after[i].id < after[j].id by {
        assert(after[i] == before[i]);
        if j < before.len() {
            assert(after[j] == before[j]);
            assert(before[i].id < before[j].id);
        } else {
            assert(after[j] == added);
        }
    }
}

/// Updating one record in place, without changing its id, keeps the
/// invariant as long as the new record is well formed.
proof fn lemma_wf_after_update(
    before: Seq<CommentModel>,
    after: Seq<CommentModel>,
    at: int,
    next_id: int,
)
    requires
        0 <= at < before.len(),
        after == before.update(at, after[at]),
        after.len() == before.len(),
        after[at].id == before[at].id,
        after[at].wf(),
        1 <= next_id,
        forall|i: int| 0 <= i < before.len()
            ==> (#[trigger] before[i]).wf() && before[i].id < next_id,
        forall|i: int, j: int| 0 <= i < j < before.len()
            ==> #[trigger] before[i].id < #[trigger] before[j].id,
    ensures
        forall|i: int| 0 <= i < after.len() ==> (#[trigger] after[i]).wf() && after[i].id < next_id,
        forall|i: int, j: int| 0 <= i < j < after.len()
            ==> #[trigger] after[i].id < #[trigger] after[j].id,
{
    assert(forall|i: int| 0 <= i < after.len() && i != at ==> after[i] == before[i]);
}

} // verus!
