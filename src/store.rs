//! The entity store: five relations with unique keys, owner-scoped access,
//! cascading deletes and all-or-nothing multi-row writes.
use vstd::prelude::*;
use vstd::string::*;
use crate::error::AppError;
use crate::order::{lemma_newest_first_unique, newest_first, sort_newest_first, Dated};
use crate::pagination::{page_count, page_items, paginate, Paginated, PAGE_SIZE};
use crate::query::{TaskFilter, UserFilter};
use crate::forms::{UpdateUserRequest, create_task_faults, long_enough, update_task_faults, UpdateTaskPriorityRequest, UpdateTaskRequest, UpdateTaskStatusRequest, CreateLabelRequest, CreateTaskRequest, CreateUserRequest, UpdateLabelRequest};
use crate::rows::{lemma_filter_from, lemma_filter_keeps, lemma_filter_pairwise, retain_rows, select_rows};
use crate::model::{
    initial_priority, initial_status, priority_named, status_named, valid_opt_timestamp, valid_timestamp, Label, Task, TaskLabel,
    TaskPriority, TaskStatus, User, UserProfile,
};

verus! {

broadcast use vstd::seq_lib::group_to_multiset_ensures;

/// The contents of a store: the rows of each relation, in insertion order, and
/// the identifier that the next row of each relation receives.
pub struct StoreView {
    pub users: Seq<User>,
    pub profiles: Seq<UserProfile>,
    pub tasks: Seq<Task>,
    pub labels: Seq<Label>,
    pub task_labels: Seq<TaskLabel>,
    pub next_user_id: i32,
    pub next_profile_id: i32,
    pub next_task_id: i32,
    pub next_label_id: i32,
    pub next_link_id: i32,
}

pub open spec fn users_apart(a: User, b: User) -> bool {
    a.id != b.id && a.username@ != b.username@ && a.email@ != b.email@
}

pub open spec fn profiles_apart(a: UserProfile, b: UserProfile) -> bool {
    a.id != b.id && a.user_id != b.user_id
}

pub open spec fn tasks_apart(a: Task, b: Task) -> bool {
    a.id != b.id && a.uuid@ != b.uuid@
}

pub open spec fn labels_apart(a: Label, b: Label) -> bool {
    a.id != b.id && (a.title@ != b.title@ || a.user_id != b.user_id)
}

pub open spec fn links_apart(a: TaskLabel, b: TaskLabel) -> bool {
    a.id != b.id && (a.task_id != b.task_id || a.label_id != b.label_id)
}

pub open spec fn distinct_users(s: Seq<User>) -> bool {
    forall|i: int, j: int|
        #![trigger s[i], s[j]]
        0 <= i < s.len() && 0 <= j < s.len() && i != j ==> users_apart(s[i], s[j])
}

pub open spec fn distinct_profiles(s: Seq<UserProfile>) -> bool {
    forall|i: int, j: int|
        #![trigger s[i], s[j]]
        0 <= i < s.len() && 0 <= j < s.len() && i != j ==> profiles_apart(s[i], s[j])
}

pub open spec fn distinct_tasks(s: Seq<Task>) -> bool {
    forall|i: int, j: int|
        #![trigger s[i], s[j]]
        0 <= i < s.len() && 0 <= j < s.len() && i != j ==> tasks_apart(s[i], s[j])
}

pub open spec fn distinct_labels(s: Seq<Label>) -> bool {
    forall|i: int, j: int|
        #![trigger s[i], s[j]]
        0 <= i < s.len() && 0 <= j < s.len() && i != j ==> labels_apart(s[i], s[j])
}

pub open spec fn distinct_task_labels(s: Seq<TaskLabel>) -> bool {
    forall|i: int, j: int|
        #![trigger s[i], s[j]]
        0 <= i < s.len() && 0 <= j < s.len() && i != j ==> links_apart(s[i], s[j])
}

impl StoreView {
    pub open spec fn has_user(self, id: i32) -> bool {
        exists|i: int| 0 <= i < self.users.len() && #[trigger] self.users[i].id == id
    }

    pub open spec fn has_task(self, id: i32) -> bool {
        exists|i: int| 0 <= i < self.tasks.len() && #[trigger] self.tasks[i].id == id
    }

    pub open spec fn has_label(self, id: i32) -> bool {
        exists|i: int| 0 <= i < self.labels.len() && #[trigger] self.labels[i].id == id
    }

    pub open spec fn username_taken(self, name: Seq<char>) -> bool {
        exists|i: int| 0 <= i < self.users.len() && #[trigger] self.users[i].username@ == name
    }

    pub open spec fn email_taken(self, email: Seq<char>) -> bool {
        exists|i: int| 0 <= i < self.users.len() && #[trigger] self.users[i].email@ == email
    }

    /// A label of user `user_id` is titled `title`.
    pub open spec fn label_taken(self, user_id: i32, title: Seq<char>) -> bool {
        exists|i: int|
            0 <= i < self.labels.len() && #[trigger] self.labels[i].user_id == user_id
                && self.labels[i].title@ == title
    }

    /// User `user_id` owns a label with identifier `label_id`.
    pub open spec fn owns_label(self, user_id: i32, label_id: i32) -> bool {
        exists|i: int|
            0 <= i < self.labels.len() && #[trigger] self.labels[i].id == label_id
                && self.labels[i].user_id == user_id
    }

    /// Another label of user `user_id` than `label_id` is titled `title`.
    pub open spec fn rename_clash(self, user_id: i32, label_id: i32, title: Seq<char>) -> bool {
        exists|i: int|
            0 <= i < self.labels.len() && #[trigger] self.labels[i].user_id == user_id
                && self.labels[i].title@ == title && self.labels[i].id != label_id
    }

    /// User `user_id` owns a task whose external identifier is `uuid`.
    pub open spec fn owns_task(self, user_id: i32, uuid: Seq<char>) -> bool {
        exists|i: int|
            0 <= i < self.tasks.len() && #[trigger] self.tasks[i].uuid@ == uuid
                && self.tasks[i].user_id == user_id
    }

    /// The labels of user `user_id` whose titles `titles` lists and that are
    /// not linked to task `task_id` yet, in creation order.
    pub open spec fn labels_to_link(self, user_id: i32, task_id: i32, titles: Seq<String>) -> Seq<
        Label,
    > {
        self.labels.filter(
            |l: Label|
                l.user_id == user_id && title_listed(titles, l.title@) && !self.linked(
                    task_id,
                    l.id,
                ),
        )
    }

    /// Task `task_id` exists and belongs to user `user_id`.
    pub open spec fn task_owned_by(self, task_id: i32, user_id: i32) -> bool {
        exists|i: int|
            0 <= i < self.tasks.len() && #[trigger] self.tasks[i].id == task_id
                && self.tasks[i].user_id == user_id
    }

    /// Label `label_id` exists and belongs to user `user_id`.
    pub open spec fn label_owned_by(self, label_id: i32, user_id: i32) -> bool {
        exists|i: int|
            0 <= i < self.labels.len() && #[trigger] self.labels[i].id == label_id
                && self.labels[i].user_id == user_id
    }

    /// The profile of user `user_id`, if they have one.
    pub open spec fn profile_of(self, user_id: i32) -> Option<UserProfile> {
        if exists|i: int| 0 <= i < self.profiles.len() && #[trigger] self.profiles[i].user_id == user_id {
            Some(
                self.profiles[choose|i: int|
                    0 <= i < self.profiles.len() && #[trigger] self.profiles[i].user_id == user_id],
            )
        } else {
            None
        }
    }

    /// Another user than `user_id` has username `name` or email `email`.
    pub open spec fn identity_clash(self, user_id: i32, name: Seq<char>, email: Seq<char>) -> bool {
        exists|i: int|
            0 <= i < self.users.len() && #[trigger] self.users[i].id != user_id && (
            self.users[i].username@ == name || self.users[i].email@ == email)
    }

    pub open spec fn uuid_taken(self, uuid: Seq<char>) -> bool {
        exists|i: int| 0 <= i < self.tasks.len() && #[trigger] self.tasks[i].uuid@ == uuid
    }

    /// Task `task_id` and label `label_id` are linked.
    pub open spec fn linked(self, task_id: i32, label_id: i32) -> bool {
        exists|k: int|
            0 <= k < self.task_labels.len() && #[trigger] self.task_labels[k].task_id == task_id
                && self.task_labels[k].label_id == label_id
    }

    pub open spec fn users_wf(self) -> bool {
        &&& forall|i: int|
            0 <= i < self.users.len() ==> 0 < (#[trigger] self.users[i]).id < self.next_user_id
                && valid_timestamp(self.users[i].date_created) && valid_opt_timestamp(
                self.users[i].date_updated,
            )
        &&& distinct_users(self.users)
    }

    pub open spec fn profiles_wf(self) -> bool {
        &&& forall|i: int|
            0 <= i < self.profiles.len() ==> 0 < (#[trigger] self.profiles[i]).id
                < self.next_profile_id && self.has_user(self.profiles[i].user_id)
        &&& distinct_profiles(self.profiles)
    }

    pub open spec fn tasks_wf(self) -> bool {
        &&& forall|i: int|
            0 <= i < self.tasks.len() ==> 0 < (#[trigger] self.tasks[i]).id < self.next_task_id
                && self.has_user(self.tasks[i].user_id) && valid_timestamp(
                self.tasks[i].date_created,
            ) && valid_opt_timestamp(self.tasks[i].date_updated) && valid_opt_timestamp(
                self.tasks[i].due_date,
            )
        &&& distinct_tasks(self.tasks)
    }

    pub open spec fn labels_wf(self) -> bool {
        &&& forall|i: int|
            0 <= i < self.labels.len() ==> 0 < (#[trigger] self.labels[i]).id < self.next_label_id
                && self.has_user(self.labels[i].user_id)
        &&& distinct_labels(self.labels)
    }

    /// Task `task_id` and label `label_id` belong to one owner (or one is absent).
    pub open spec fn same_owner(self, task_id: i32, label_id: i32) -> bool {
        forall|i: int, j: int|
            0 <= i < self.tasks.len() && 0 <= j < self.labels.len() && #[trigger] self.tasks[i].id
                == task_id && #[trigger] self.labels[j].id == label_id ==> self.tasks[i].user_id
                == self.labels[j].user_id
    }

    pub open spec fn links_wf(self) -> bool {
        &&& forall|k: int|
            0 <= k < self.task_labels.len() ==> 0 < (#[trigger] self.task_labels[k]).id
                < self.next_link_id && self.has_task(self.task_labels[k].task_id)
                && self.has_label(self.task_labels[k].label_id) && self.same_owner(
                self.task_labels[k].task_id,
                self.task_labels[k].label_id,
            )
        &&& distinct_task_labels(self.task_labels)
    }

    /// The store's invariant: keys are unique, every reference names an
    /// existing row, a link joins a task and a label of the same owner, and
    /// each identifier counter lies above every identifier it has handed out.
    pub open spec fn wf(self) -> bool {
        &&& self.next_user_id >= 1
        &&& self.next_profile_id >= 1
        &&& self.next_task_id >= 1
        &&& self.next_label_id >= 1
        &&& self.next_link_id >= 1
        &&& self.users_wf()
        &&& self.profiles_wf()
        &&& self.tasks_wf()
        &&& self.labels_wf()
        &&& self.links_wf()
    }

    /// Same rows and counters in every relation but users and profiles.
    pub open spec fn same_but_users(self, other: StoreView) -> bool {
        &&& self.tasks == other.tasks
        &&& self.labels == other.labels
        &&& self.task_labels == other.task_labels
        &&& self.next_task_id == other.next_task_id
        &&& self.next_label_id == other.next_label_id
        &&& self.next_link_id == other.next_link_id
    }
}

proof fn lemma_distinct_users_filter(s: Seq<User>, pred: spec_fn(User) -> bool)
    requires
        distinct_users(s),
    ensures
        distinct_users(s.filter(pred)),
{
    lemma_filter_pairwise(s, pred, |a: User, b: User| users_apart(a, b));
}

proof fn lemma_distinct_profiles_filter(s: Seq<UserProfile>, pred: spec_fn(UserProfile) -> bool)
    requires
        distinct_profiles(s),
    ensures
        distinct_profiles(s.filter(pred)),
{
    lemma_filter_pairwise(s, pred, |a: UserProfile, b: UserProfile| profiles_apart(a, b));
}

proof fn lemma_distinct_tasks_filter(s: Seq<Task>, pred: spec_fn(Task) -> bool)
    requires
        distinct_tasks(s),
    ensures
        distinct_tasks(s.filter(pred)),
{
    lemma_filter_pairwise(s, pred, |a: Task, b: Task| tasks_apart(a, b));
}

proof fn lemma_distinct_labels_filter(s: Seq<Label>, pred: spec_fn(Label) -> bool)
    requires
        distinct_labels(s),
    ensures
        distinct_labels(s.filter(pred)),
{
    lemma_filter_pairwise(s, pred, |a: Label, b: Label| labels_apart(a, b));
}

proof fn lemma_distinct_task_labels_filter(s: Seq<TaskLabel>, pred: spec_fn(TaskLabel) -> bool)
    requires
        distinct_task_labels(s),
    ensures
        distinct_task_labels(s.filter(pred)),
{
    lemma_filter_pairwise(s, pred, |a: TaskLabel, b: TaskLabel| links_apart(a, b));
}

/// A store made of some of the rows of a well-formed store, with the same
/// counters, is well formed when its rows stay apart and its references
/// resolve among its own rows.
proof fn lemma_wf_within(pre: StoreView, v: StoreView)
    requires
        pre.wf(),
        v.next_user_id == pre.next_user_id,
        v.next_profile_id == pre.next_profile_id,
        v.next_task_id == pre.next_task_id,
        v.next_label_id == pre.next_label_id,
        v.next_link_id == pre.next_link_id,
        forall|i: int| 0 <= i < v.users.len() ==> pre.users.contains(#[trigger] v.users[i]),
        forall|i: int| 0 <= i < v.profiles.len() ==> pre.profiles.contains(#[trigger] v.profiles[i]),
        forall|i: int| 0 <= i < v.tasks.len() ==> pre.tasks.contains(#[trigger] v.tasks[i]),
        forall|i: int| 0 <= i < v.labels.len() ==> pre.labels.contains(#[trigger] v.labels[i]),
        forall|i: int|
            0 <= i < v.task_labels.len() ==> pre.task_labels.contains(#[trigger] v.task_labels[i]),
        distinct_users(v.users),
        distinct_profiles(v.profiles),
        distinct_tasks(v.tasks),
        distinct_labels(v.labels),
        distinct_task_labels(v.task_labels),
        forall|i: int| 0 <= i < v.profiles.len() ==> v.has_user(#[trigger] v.profiles[i].user_id),
        forall|i: int| 0 <= i < v.tasks.len() ==> v.has_user(#[trigger] v.tasks[i].user_id),
        forall|i: int| 0 <= i < v.labels.len() ==> v.has_user(#[trigger] v.labels[i].user_id),
        forall|k: int|
            0 <= k < v.task_labels.len() ==> v.has_task(#[trigger] v.task_labels[k].task_id)
                && v.has_label(v.task_labels[k].label_id),
    ensures
        v.wf(),
{
    assert forall|i: int| 0 <= i < v.users.len() implies 0 < (#[trigger] v.users[i]).id
        < v.next_user_id && valid_timestamp(v.users[i].date_created) && valid_opt_timestamp(
        v.users[i].date_updated,
    ) by {
        let q = choose|q: int| 0 <= q < pre.users.len() && pre.users[q] == v.users[i];
        assert(pre.users[q] == v.users[i]);
    }
    assert forall|i: int| 0 <= i < v.profiles.len() implies 0 < (#[trigger] v.profiles[i]).id
        < v.next_profile_id by {
        let q = choose|q: int| 0 <= q < pre.profiles.len() && pre.profiles[q] == v.profiles[i];
        assert(pre.profiles[q] == v.profiles[i]);
    }
    assert forall|i: int| 0 <= i < v.tasks.len() implies 0 < (#[trigger] v.tasks[i]).id
        < v.next_task_id && valid_timestamp(v.tasks[i].date_created) && valid_opt_timestamp(
        v.tasks[i].date_updated,
    ) && valid_opt_timestamp(v.tasks[i].due_date) by {
        let q = choose|q: int| 0 <= q < pre.tasks.len() && pre.tasks[q] == v.tasks[i];
        assert(pre.tasks[q] == v.tasks[i]);
    }
    assert forall|i: int| 0 <= i < v.labels.len() implies 0 < (#[trigger] v.labels[i]).id
        < v.next_label_id by {
        let q = choose|q: int| 0 <= q < pre.labels.len() && pre.labels[q] == v.labels[i];
        assert(pre.labels[q] == v.labels[i]);
    }
    assert forall|k: int| 0 <= k < v.task_labels.len() implies 0 < (
    #[trigger] v.task_labels[k]).id < v.next_link_id && v.same_owner(
        v.task_labels[k].task_id,
        v.task_labels[k].label_id,
    ) by {
        let q = choose|q: int|
            0 <= q < pre.task_labels.len() && pre.task_labels[q] == v.task_labels[k];
        assert(pre.task_labels[q] == v.task_labels[k]);
        let l = v.task_labels[k];
        assert forall|i: int, j: int|
            0 <= i < v.tasks.len() && 0 <= j < v.labels.len() && #[trigger] v.tasks[i].id
                == l.task_id && #[trigger] v.labels[j].id == l.label_id implies v.tasks[i].user_id
            == v.labels[j].user_id by {
            let a = choose|a: int| 0 <= a < pre.tasks.len() && pre.tasks[a] == v.tasks[i];
            let b = choose|b: int| 0 <= b < pre.labels.len() && pre.labels[b] == v.labels[j];
            assert(pre.tasks[a].id == l.task_id);
            assert(pre.labels[b].id == l.label_id);
            assert(pre.same_owner(pre.task_labels[q].task_id, pre.task_labels[q].label_id));
        }
    }
}

/// `titles` holds a string whose text is `t`.
pub open spec fn title_listed(titles: Seq<String>, t: Seq<char>) -> bool {
    exists|i: int| 0 <= i < titles.len() && #[trigger] titles[i]@ == t
}

/// Links from task `task_id` to each of `labels`, numbered from `first_id`.
pub open spec fn links_for(first_id: int, task_id: i32, labels: Seq<Label>) -> Seq<TaskLabel> {
    Seq::new(
        labels.len(),
        |k: int| TaskLabel { id: (first_id + k) as i32, task_id, label_id: labels[k].id },
    )
}

/// `pre` with links from task `task_id` to `labels` appended.
pub open spec fn with_links(pre: StoreView, task_id: i32, labels: Seq<Label>) -> StoreView {
    StoreView {
        task_labels: pre.task_labels + links_for(pre.next_link_id as int, task_id, labels),
        next_link_id: (pre.next_link_id + labels.len()) as i32,
        ..pre
    }
}

/// Linking task `task_id` of user `user_id` to the user's labels that
/// `titles` names and that it lacks keeps the store well formed.
proof fn lemma_add_links_wf(pre: StoreView, user_id: i32, task_id: i32, titles: Seq<String>)
    requires
        pre.wf(),
        exists|i: int|
            0 <= i < pre.tasks.len() && #[trigger] pre.tasks[i].id == task_id && pre.tasks[i].user_id
                == user_id,
        pre.next_link_id + pre.labels_to_link(user_id, task_id, titles).len() <= i32::MAX,
    ensures
        with_links(pre, task_id, pre.labels_to_link(user_id, task_id, titles)).wf(),
{
    let pred = |l: Label|
        l.user_id == user_id && title_listed(titles, l.title@) && !pre.linked(task_id, l.id);
    let ls = pre.labels.filter(pred);
    assert(ls == pre.labels_to_link(user_id, task_id, titles));
    let news = links_for(pre.next_link_id as int, task_id, ls);
    let v = with_links(pre, task_id, ls);
    let n = pre.task_labels.len() as int;
    assert(v.labels == pre.labels && v.tasks == pre.tasks);
    lemma_distinct_labels_filter(pre.labels, pred);
    let ti = choose|i: int|
        0 <= i < pre.tasks.len() && #[trigger] pre.tasks[i].id == task_id && pre.tasks[i].user_id
            == user_id;
    assert forall|k: int| 0 <= k < ls.len() implies pre.has_label(#[trigger] ls[k].id) && ls[k].user_id == user_id && !pre.linked(task_id, ls[k].id) && pre.same_owner(task_id, ls[k].id) by {
        lemma_filter_from(pre.labels, pred, k);
        let q = choose|q: int| 0 <= q < pre.labels.len() && pre.labels[q] == ls[k];
        assert(pre.labels[q].id == ls[k].id);
        assert forall|i: int, j: int|
            0 <= i < pre.tasks.len() && 0 <= j < pre.labels.len() && #[trigger] pre.tasks[i].id
                == task_id && #[trigger] pre.labels[j].id == ls[k].id implies pre.tasks[i].user_id
            == pre.labels[j].user_id by {
            if i != ti {
                assert(tasks_apart(pre.tasks[i], pre.tasks[ti]));
            }
            if j != q {
                assert(labels_apart(pre.labels[j], pre.labels[q]));
            }
        }
    }
    assert forall|k: int| 0 <= k < v.task_labels.len() implies 0 < (#[trigger] v.task_labels[k]).id
        < v.next_link_id && v.has_task(v.task_labels[k].task_id) && v.has_label(v.task_labels[k].label_id)
        && v.same_owner(v.task_labels[k].task_id, v.task_labels[k].label_id) by {
        if k < n {
            assert(v.task_labels[k] == pre.task_labels[k]);
            assert(pre.has_task(pre.task_labels[k].task_id));
            assert(v.has_task(v.task_labels[k].task_id));
            assert(v.has_label(v.task_labels[k].label_id));
            assert(v.same_owner(v.task_labels[k].task_id, v.task_labels[k].label_id));
            assert(v.task_labels[k].id < v.next_link_id);
        } else {
            let j = k - n;
            assert(v.task_labels[k] == news[j]);
            assert(news[j] == TaskLabel { id: (pre.next_link_id + j) as i32, task_id, label_id: ls[j].id });
            assert(pre.has_label(ls[j].id) && pre.same_owner(task_id, ls[j].id));
            assert(pre.has_task(task_id));
            assert(v.has_task(task_id));
            assert(v.has_label(ls[j].id));
            assert(v.same_owner(task_id, ls[j].id));
            assert(0 < v.task_labels[k].id);
            assert(v.task_labels[k].id < v.next_link_id);
        }
    }
    assert forall|k: int, m: int| 0 <= k < v.task_labels.len() && 0 <= m < v.task_labels.len() && k != m
        implies links_apart(#[trigger] v.task_labels[k], #[trigger] v.task_labels[m]) by {
        if k < n && m < n {
            assert(links_apart(pre.task_labels[k], pre.task_labels[m]));
        } else if k >= n && m >= n {
            assert(labels_apart(ls[k - n], ls[m - n]));
        } else if k < n {
            let x = pre.task_labels[k];
            assert(x.id < pre.next_link_id);
            if x.task_id == task_id && x.label_id == ls[m - n].id {
                assert(pre.linked(task_id, ls[m - n].id));
            }
        } else {
            let x = pre.task_labels[m];
            assert(x.id < pre.next_link_id);
            if x.task_id == task_id && x.label_id == ls[k - n].id {
                assert(pre.linked(task_id, ls[k - n].id));
            }
        }
    }
    assert(v.links_wf());
}

/// The labels of user `user_id` whose titles `titles` lists, in creation order.
pub open spec fn labels_named(pre: StoreView, user_id: i32, titles: Seq<String>) -> Seq<Label> {
    pre.labels.filter(|l: Label| l.user_id == user_id && title_listed(titles, l.title@))
}

/// The row that a valid creation request yields.
pub open spec fn created_task(pre: StoreView, user_id: i32, req: CreateTaskRequest, uuid: Seq<char>, now: i64, t: Task) -> bool {
    &&& t.id == pre.next_task_id
    &&& t.title == req.title
    &&& t.description == req.description
    &&& Some(t.status) == initial_status(req.status@)
    &&& Some(t.priority) == initial_priority(req.priority@)
    &&& t.uuid@ == uuid
    &&& t.due_date == req.due_date
    &&& t.date_created == now
    &&& t.date_updated is None
    &&& t.user_id == user_id
}

/// The store after task `t` was added together with its links to the
/// owner's labels that the request names.
pub open spec fn after_task_insert(pre: StoreView, user_id: i32, req: CreateTaskRequest, t: Task) -> StoreView {
    with_links(
        StoreView { tasks: pre.tasks.push(t), next_task_id: (pre.next_task_id + 1) as i32, ..pre },
        t.id,
        labels_named(pre, user_id, req.labels@),
    )
}

/// Row `i` of `v` is user `user_id`'s task with external identifier `uuid`.
pub open spec fn task_at(v: StoreView, user_id: i32, uuid: Seq<char>, i: int) -> bool {
    0 <= i < v.tasks.len() && v.tasks[i].uuid@ == uuid && v.tasks[i].user_id == user_id
}

/// `v` with the task whose identifier is `t.id` replaced by `t`.
pub open spec fn with_task(v: StoreView, t: Task) -> StoreView {
    StoreView {
        tasks: v.tasks.map_values(
            |x: Task|
                if x.id == t.id {
                    t
                } else {
                    x
                },
        ),
        ..v
    }
}

/// Task `old` after a full update by `req` at time `now`.
pub open spec fn task_updated(old: Task, req: UpdateTaskRequest, now: i64, t: Task) -> bool {
    &&& Some(t.status) == status_named(req.status@)
    &&& t == Task {
        title: req.title,
        description: match req.description {
            Some(d) => d,
            None => old.description,
        },
        status: t.status,
        date_updated: Some(now),
        ..old
    }
}

/// Replacing a task by a row with the same identifiers and owner keeps the
/// store well formed.
proof fn lemma_task_replaced(pre: StoreView, i: int, t: Task)
    requires
        pre.wf(),
        0 <= i < pre.tasks.len(),
        t.id == pre.tasks[i].id,
        t.uuid@ == pre.tasks[i].uuid@,
        t.user_id == pre.tasks[i].user_id,
        valid_timestamp(t.date_created),
        valid_opt_timestamp(t.date_updated),
        valid_opt_timestamp(t.due_date),
    ensures
        with_task(pre, t).wf(),
        with_task(pre, t).tasks == pre.tasks.update(i, t),
{
    let v = with_task(pre, t);
    assert forall|k: int| 0 <= k < pre.tasks.len() && k != i implies #[trigger] pre.tasks[k].id != t.id by {
        assert(tasks_apart(pre.tasks[k], pre.tasks[i]));
    }
    assert(v.tasks =~= pre.tasks.update(i, t));
    assert(v.labels == pre.labels && v.task_labels == pre.task_labels && v.users == pre.users);
    assert forall|tid: i32| pre.has_task(tid) implies v.has_task(tid) by {
        let a = choose|a: int| 0 <= a < pre.tasks.len() && #[trigger] pre.tasks[a].id == tid;
        assert(v.tasks[a].id == tid);
    }
    assert forall|tid: i32, lid: i32| pre.same_owner(tid, lid) implies v.same_owner(tid, lid) by {
        assert forall|a: int, b: int|
            0 <= a < v.tasks.len() && 0 <= b < v.labels.len() && #[trigger] v.tasks[a].id
                == tid && #[trigger] v.labels[b].id == lid implies v.tasks[a].user_id
            == v.labels[b].user_id by {
            assert(pre.tasks[a].id == tid);
        }
    }
    assert forall|a: int| 0 <= a < v.tasks.len() implies 0 < (#[trigger] v.tasks[a]).id
        < v.next_task_id && v.has_user(v.tasks[a].user_id) && valid_timestamp(v.tasks[a].date_created)
        && valid_opt_timestamp(v.tasks[a].date_updated) && valid_opt_timestamp(v.tasks[a].due_date) by {
        assert(pre.has_user(pre.tasks[a].user_id));
    }
    assert forall|a: int, b: int| 0 <= a < v.tasks.len() && 0 <= b < v.tasks.len() && a != b
        implies tasks_apart(#[trigger] v.tasks[a], #[trigger] v.tasks[b]) by {
        assert(tasks_apart(pre.tasks[a], pre.tasks[b]));
    }
    assert(v.tasks_wf());
    assert(v.links_wf());
}

/// The store after user `user_id` is deleted: their profile, tasks and
/// labels go with them, and so does every link to one of their tasks.
pub open spec fn after_user_delete(pre: StoreView, user_id: i32) -> StoreView {
    StoreView {
        users: pre.users.filter(|u: User| u.id != user_id),
        profiles: pre.profiles.filter(|p: UserProfile| p.user_id != user_id),
        tasks: pre.tasks.filter(|t: Task| t.user_id != user_id),
        labels: pre.labels.filter(|l: Label| l.user_id != user_id),
        task_labels: pre.task_labels.filter(|k: TaskLabel| !pre.task_owned_by(k.task_id, user_id)),
        ..pre
    }
}

/// The store after task `task_id` is deleted together with its links.
pub open spec fn after_task_delete(pre: StoreView, task_id: i32) -> StoreView {
    StoreView {
        tasks: pre.tasks.filter(|t: Task| t.id != task_id),
        task_labels: pre.task_labels.filter(|k: TaskLabel| k.task_id != task_id),
        ..pre
    }
}

/// Deleting a user leaves the store well formed, and nothing of theirs
/// reachable: no profile, task or label of theirs remains, and no link
/// remains that touches a task or label of theirs.
pub proof fn lemma_user_delete_cascades(pre: StoreView, user_id: i32)
    requires
        pre.wf(),
    ensures
        after_user_delete(pre, user_id).wf(),
        !after_user_delete(pre, user_id).has_user(user_id),
        forall|i: int| 0 <= i < after_user_delete(pre, user_id).profiles.len()
            ==> (#[trigger] after_user_delete(pre, user_id).profiles[i]).user_id != user_id,
        forall|i: int| 0 <= i < after_user_delete(pre, user_id).tasks.len()
            ==> (#[trigger] after_user_delete(pre, user_id).tasks[i]).user_id != user_id,
        forall|i: int| 0 <= i < after_user_delete(pre, user_id).labels.len()
            ==> (#[trigger] after_user_delete(pre, user_id).labels[i]).user_id != user_id,
        forall|k: int| 0 <= k < after_user_delete(pre, user_id).task_labels.len()
            ==> !pre.task_owned_by((#[trigger] after_user_delete(pre, user_id).task_labels[k]).task_id, user_id)
                && !pre.label_owned_by(after_user_delete(pre, user_id).task_labels[k].label_id, user_id),
{
    let v = after_user_delete(pre, user_id);
    let up = |u: User| u.id != user_id;
    let pp = |p: UserProfile| p.user_id != user_id;
    let tp = |t: Task| t.user_id != user_id;
    let lp = |l: Label| l.user_id != user_id;
    let kp = |k: TaskLabel| !pre.task_owned_by(k.task_id, user_id);
    lemma_distinct_users_filter(pre.users, up);
    lemma_distinct_profiles_filter(pre.profiles, pp);
    lemma_distinct_tasks_filter(pre.tasks, tp);
    lemma_distinct_labels_filter(pre.labels, lp);
    lemma_distinct_task_labels_filter(pre.task_labels, kp);
    assert forall|uid: i32| uid != user_id && pre.has_user(uid) implies v.has_user(uid) by {
        let q = choose|q: int| 0 <= q < pre.users.len() && #[trigger] pre.users[q].id == uid;
        lemma_filter_keeps(pre.users, up, q);
    }
    assert forall|i: int| 0 <= i < v.users.len() implies pre.users.contains(#[trigger] v.users[i]) && v.users[i].id != user_id by {
        lemma_filter_from(pre.users, up, i);
    }
    assert forall|i: int| 0 <= i < v.profiles.len() implies pre.profiles.contains(#[trigger] v.profiles[i]) && v.has_user(v.profiles[i].user_id) && v.profiles[i].user_id != user_id by {
        lemma_filter_from(pre.profiles, pp, i);
        let q = choose|q: int| 0 <= q < pre.profiles.len() && pre.profiles[q] == v.profiles[i];
        assert(pre.has_user(pre.profiles[q].user_id));
    }
    assert forall|i: int| 0 <= i < v.tasks.len() implies pre.tasks.contains(#[trigger] v.tasks[i]) && v.has_user(v.tasks[i].user_id) && v.tasks[i].user_id != user_id by {
        lemma_filter_from(pre.tasks, tp, i);
        let q = choose|q: int| 0 <= q < pre.tasks.len() && pre.tasks[q] == v.tasks[i];
        assert(pre.has_user(pre.tasks[q].user_id));
    }
    assert forall|i: int| 0 <= i < v.labels.len() implies pre.labels.contains(#[trigger] v.labels[i]) && v.has_user(v.labels[i].user_id) && v.labels[i].user_id != user_id by {
        lemma_filter_from(pre.labels, lp, i);
        let q = choose|q: int| 0 <= q < pre.labels.len() && pre.labels[q] == v.labels[i];
        assert(pre.has_user(pre.labels[q].user_id));
    }
    assert forall|k: int| 0 <= k < v.task_labels.len() implies pre.task_labels.contains(#[trigger] v.task_labels[k])
        && v.has_task(v.task_labels[k].task_id) && v.has_label(v.task_labels[k].label_id)
        && !pre.task_owned_by(v.task_labels[k].task_id, user_id)
        && !pre.label_owned_by(v.task_labels[k].label_id, user_id) by {
        lemma_filter_from(pre.task_labels, kp, k);
        let q = choose|q: int| 0 <= q < pre.task_labels.len() && pre.task_labels[q] == v.task_labels[k];
        let x = pre.task_labels[q];
        assert(pre.has_task(x.task_id) && pre.has_label(x.label_id) && pre.same_owner(x.task_id, x.label_id));
        let a = choose|a: int| 0 <= a < pre.tasks.len() && #[trigger] pre.tasks[a].id == x.task_id;
        let b = choose|b: int| 0 <= b < pre.labels.len() && #[trigger] pre.labels[b].id == x.label_id;
        assert(pre.tasks[a].user_id != user_id);
        assert(pre.labels[b].user_id == pre.tasks[a].user_id);
        lemma_filter_keeps(pre.tasks, tp, a);
        lemma_filter_keeps(pre.labels, lp, b);
        let a2 = choose|a2: int| 0 <= a2 < v.tasks.len() && v.tasks[a2] == pre.tasks[a];
        let b2 = choose|b2: int| 0 <= b2 < v.labels.len() && v.labels[b2] == pre.labels[b];
        assert(v.tasks[a2].id == x.task_id);
        assert(v.labels[b2].id == x.label_id);
        assert(x == v.task_labels[k]);
        if pre.label_owned_by(x.label_id, user_id) {
            let c = choose|c: int| 0 <= c < pre.labels.len() && #[trigger] pre.labels[c].id == x.label_id && pre.labels[c].user_id == user_id;
            if c != b {
                assert(labels_apart(pre.labels[c], pre.labels[b]));
            }
        }
    }
    lemma_wf_within(pre, v);
}

/// Label reconciliation only adds: every link that existed stays where it
/// was, each label of the owner that `titles` names ends up linked to the
/// task, and every new link goes to such a label.
pub proof fn lemma_reconcile_is_additive(pre: StoreView, user_id: i32, task_id: i32, titles: Seq<String>)
    requires
        pre.wf(),
        exists|i: int|
            0 <= i < pre.tasks.len() && #[trigger] pre.tasks[i].id == task_id && pre.tasks[i].user_id
                == user_id,
        pre.next_link_id + pre.labels_to_link(user_id, task_id, titles).len() <= i32::MAX,
    ensures
        ({
            let post = with_links(pre, task_id, pre.labels_to_link(user_id, task_id, titles));
            &&& post.wf()
            &&& forall|k: int| 0 <= k < pre.task_labels.len() ==> #[trigger] post.task_labels[k] == pre.task_labels[k]
            &&& forall|j: int|
                0 <= j < pre.labels.len() && (#[trigger] pre.labels[j]).user_id == user_id
                    && title_listed(titles, pre.labels[j].title@) ==> post.linked(task_id, pre.labels[j].id)
            &&& forall|k: int|
                pre.task_labels.len() <= k < post.task_labels.len() ==> (#[trigger] post.task_labels[k]).task_id == task_id
                    && exists|j: int|
                    0 <= j < pre.labels.len() && pre.labels[j].id == post.task_labels[k].label_id
                        && pre.labels[j].user_id == user_id && title_listed(titles, #[trigger] pre.labels[j].title@)
        }),
{
    lemma_add_links_wf(pre, user_id, task_id, titles);
    let pred = |l: Label|
        l.user_id == user_id && title_listed(titles, l.title@) && !pre.linked(task_id, l.id);
    let ls = pre.labels.filter(pred);
    let post = with_links(pre, task_id, ls);
    let n = pre.task_labels.len() as int;
    assert forall|k: int| 0 <= k < n implies #[trigger] post.task_labels[k] == pre.task_labels[k] by {}
    assert forall|j: int|
        0 <= j < pre.labels.len() && (#[trigger] pre.labels[j]).user_id == user_id
            && title_listed(titles, pre.labels[j].title@) implies post.linked(task_id, pre.labels[j].id) by {
        if pre.linked(task_id, pre.labels[j].id) {
            let k = choose|k: int| 0 <= k < pre.task_labels.len() && #[trigger] pre.task_labels[k].task_id == task_id
                && pre.task_labels[k].label_id == pre.labels[j].id;
            assert(post.task_labels[k] == pre.task_labels[k]);
        } else {
            lemma_filter_keeps(pre.labels, pred, j);
            let a = choose|a: int| 0 <= a < ls.len() && ls[a] == pre.labels[j];
            assert(post.task_labels[n + a].task_id == task_id);
        }
    }
    assert forall|k: int| n <= k < post.task_labels.len() implies (#[trigger] post.task_labels[k]).task_id == task_id
        && exists|j: int|
            0 <= j < pre.labels.len() && pre.labels[j].id == post.task_labels[k].label_id
                && pre.labels[j].user_id == user_id && title_listed(titles, #[trigger] pre.labels[j].title@) by {
        lemma_filter_from(pre.labels, pred, k - n);
        let j = choose|j: int| 0 <= j < pre.labels.len() && pre.labels[j] == ls[k - n];
        assert(pre.labels[j].id == post.task_labels[k].label_id);
    }
}

/// Label titles are unique per user, not across users: once a label titled
/// `l.title` exists for `l.user_id`, the title counts as taken for user `b`
/// exactly when `b` is that same user.
pub proof fn lemma_label_titles_per_user(pre: StoreView, l: Label, b: i32)
    requires
        !pre.label_taken(b, l.title@),
    ensures
        (StoreView { labels: pre.labels.push(l), ..pre }).label_taken(b, l.title@) <==> b == l.user_id,
{
    let v = StoreView { labels: pre.labels.push(l), ..pre };
    let n = pre.labels.len() as int;
    if b == l.user_id {
        assert(v.labels[n].user_id == b);
    }
    if v.label_taken(b, l.title@) {
        let i = choose|i: int| 0 <= i < v.labels.len() && #[trigger] v.labels[i].user_id == b && v.labels[i].title@ == l.title@;
        if i < n {
            assert(pre.labels[i].user_id == b);
        }
    }
}

/// A task listing has one full ordered result: any two newest-first
/// orderings of the tasks that it selects are the same sequence. With
/// `lemma_pages_cover_all`, reading its pages 1 to the last in turn gives
/// every selected task once, in that order.
pub proof fn lemma_task_listing_unique(v: StoreView, user_id: i32, filter: TaskFilter, a: Seq<Task>, b: Seq<Task>)
    requires
        v.wf(),
        a.to_multiset() == v.tasks.filter(|t: Task| t.user_id == user_id && filter.matches(t)).to_multiset(),
        b.to_multiset() == v.tasks.filter(|t: Task| t.user_id == user_id && filter.matches(t)).to_multiset(),
        newest_first(a),
        newest_first(b),
    ensures
        a == b,
{
    let pred = |t: Task| t.user_id == user_id && filter.matches(t);
    let f = v.tasks.filter(pred);
    assert forall|x: Task, y: Task|
        a.contains(x) && a.contains(y) && x.created_at() == y.created_at() && x.row_id() == y.row_id() implies x == y by {
        assert(a.to_multiset().count(x) > 0 && a.to_multiset().count(y) > 0);
        assert(f.contains(x) && f.contains(y));
        v.tasks.lemma_filter_contains_rev(pred, x);
        v.tasks.lemma_filter_contains_rev(pred, y);
        let i = choose|i: int| 0 <= i < v.tasks.len() && v.tasks[i] == x;
        let j = choose|j: int| 0 <= j < v.tasks.len() && v.tasks[j] == y;
        if i != j {
            assert(tasks_apart(v.tasks[i], v.tasks[j]));
        }
    }
    lemma_newest_first_unique(a, b);
}

/// A user listing has one full ordered result, as a task listing does.
pub proof fn lemma_user_listing_unique(v: StoreView, filter: UserFilter, a: Seq<User>, b: Seq<User>)
    requires
        v.wf(),
        a.to_multiset() == v.users.filter(|u: User| filter.matches(u)).to_multiset(),
        b.to_multiset() == v.users.filter(|u: User| filter.matches(u)).to_multiset(),
        newest_first(a),
        newest_first(b),
    ensures
        a == b,
{
    let pred = |u: User| filter.matches(u);
    let f = v.users.filter(pred);
    assert forall|x: User, y: User|
        a.contains(x) && a.contains(y) && x.created_at() == y.created_at() && x.row_id() == y.row_id() implies x == y by {
        assert(a.to_multiset().count(x) > 0 && a.to_multiset().count(y) > 0);
        assert(f.contains(x) && f.contains(y));
        v.users.lemma_filter_contains_rev(pred, x);
        v.users.lemma_filter_contains_rev(pred, y);
        let i = choose|i: int| 0 <= i < v.users.len() && v.users[i] == x;
        let j = choose|j: int| 0 <= j < v.users.len() && v.users[j] == y;
        if i != j {
            assert(users_apart(v.users[i], v.users[j]));
        }
    }
    lemma_newest_first_unique(a, b);
}

/// Relies on `Uuid::new_v4` and the hyphenated text form that `to_string`
/// gives a `Uuid`: 36 characters.
#[verifier::external_body]
fn fresh_uuid() -> (r: String)
    ensures
        r@.len() == 36,
{
    uuid::Uuid::new_v4().to_string()
}

/// Colour that a new label receives.
pub const DEFAULT_COLOR: &'static str = "#FFFFFF";

/// An in-memory relational store of users, profiles, tasks, labels and links.
pub struct Store {
    users: Vec<User>,
    profiles: Vec<UserProfile>,
    tasks: Vec<Task>,
    labels: Vec<Label>,
    task_labels: Vec<TaskLabel>,
    next_user_id: i32,
    next_profile_id: i32,
    next_task_id: i32,
    next_label_id: i32,
    next_link_id: i32,
}

impl View for Store {
    type V = StoreView;

    closed spec fn view(&self) -> StoreView {
        StoreView {
            users: self.users@,
            profiles: self.profiles@,
            tasks: self.tasks@,
            labels: self.labels@,
            task_labels: self.task_labels@,
            next_user_id: self.next_user_id,
            next_profile_id: self.next_profile_id,
            next_task_id: self.next_task_id,
            next_label_id: self.next_label_id,
            next_link_id: self.next_link_id,
        }
    }
}

fn not_found(what: &str) -> (r: AppError)
    ensures
        r is NotFound,
{
    AppError::NotFound(String::from_str(what))
}

fn conflict(what: &str) -> (r: AppError)
    ensures
        r is Conflict,
{
    AppError::Conflict(String::from_str(what))
}

fn exhausted() -> (r: AppError)
    ensures
        r is Internal,
{
    AppError::Internal(String::from_str("identifier space exhausted"))
}

impl Store {
    /// An empty store.
    pub fn new() -> (r: Store)
        ensures
            r@.wf(),
            r@.users.len() == 0,
            r@.profiles.len() == 0,
            r@.tasks.len() == 0,
            r@.labels.len() == 0,
            r@.task_labels.len() == 0,
            r@.next_user_id == 1 && r@.next_profile_id == 1 && r@.next_task_id == 1
                && r@.next_label_id == 1 && r@.next_link_id == 1,
    {
        Store {
            users: Vec::new(),
            profiles: Vec::new(),
            tasks: Vec::new(),
            labels: Vec::new(),
            task_labels: Vec::new(),
            next_user_id: 1,
            next_profile_id: 1,
            next_task_id: 1,
            next_label_id: 1,
            next_link_id: 1,
        }
    }

    fn user_index(&self, id: i32) -> (r: Option<usize>)
        ensures
            match r {
                Some(i) => i < self@.users.len() && self@.users[i as int].id == id,
                None => !self@.has_user(id),
            },
    {
        let mut i: usize = 0;
        while i < self.users.len()
            invariant
                0 <= i <= self.users@.len(),
                forall|j: int| 0 <= j < i ==> self.users@[j].id != id,
            decreases self.users@.len() - i,
        {
            if self.users[i].id == id {
                return Some(i);
            }
            i += 1;
        }
        None
    }

    fn profile_index(&self, user_id: i32) -> (r: Option<usize>)
        ensures
            match r {
                Some(i) => i < self@.profiles.len() && self@.profiles[i as int].user_id == user_id,
                None => forall|j: int|
                    0 <= j < self@.profiles.len() ==> #[trigger] self@.profiles[j].user_id
                        != user_id,
            },
    {
        let mut i: usize = 0;
        while i < self.profiles.len()
            invariant
                0 <= i <= self.profiles@.len(),
                forall|j: int| 0 <= j < i ==> self.profiles@[j].user_id != user_id,
            decreases self.profiles@.len() - i,
        {
            if self.profiles[i].user_id == user_id {
                return Some(i);
            }
            i += 1;
        }
        None
    }

    /// Whether a user other than `skip` has username `username`, and whether
    /// one has email `email`.
    fn identity_clash(&self, username: &String, email: &String, skip: i32) -> (r: (bool, bool))
        ensures
            r.0 == exists|i: int|
                0 <= i < self@.users.len() && #[trigger] self@.users[i].username@ == username@
                    && self@.users[i].id != skip,
            r.1 == exists|i: int|
                0 <= i < self@.users.len() && #[trigger] self@.users[i].email@ == email@
                    && self@.users[i].id != skip,
    {
        let mut name_used = false;
        let mut email_used = false;
        let mut i: usize = 0;
        while i < self.users.len()
            invariant
                0 <= i <= self.users@.len(),
                name_used == exists|j: int|
                    0 <= j < i && #[trigger] self@.users[j].username@ == username@
                        && self@.users[j].id != skip,
                email_used == exists|j: int|
                    0 <= j < i && #[trigger] self@.users[j].email@ == email@ && self@.users[j].id
                        != skip,
            decreases self.users@.len() - i,
        {
            let u = &self.users[i];
            if u.id != skip {
                if u.username == *username {
                    name_used = true;
                }
                if u.email == *email {
                    email_used = true;
                }
            }
            i += 1;
        }
        (name_used, email_used)
    }

    fn label_index(&self, user_id: i32, label_id: i32) -> (r: Option<usize>)
        ensures
            match r {
                Some(i) => i < self@.labels.len() && self@.labels[i as int].id == label_id
                    && self@.labels[i as int].user_id == user_id,
                None => !self@.owns_label(user_id, label_id),
            },
    {
        let mut i: usize = 0;
        while i < self.labels.len()
            invariant
                0 <= i <= self.labels@.len(),
                forall|j: int|
                    0 <= j < i ==> !(self.labels@[j].id == label_id && self.labels@[j].user_id
                        == user_id),
            decreases self.labels@.len() - i,
        {
            if self.labels[i].id == label_id && self.labels[i].user_id == user_id {
                return Some(i);
            }
            i += 1;
        }
        None
    }

    fn titled_label_index(&self, user_id: i32, title: &String) -> (r: Option<usize>)
        ensures
            match r {
                Some(i) => i < self@.labels.len() && self@.labels[i as int].title@ == title@
                    && self@.labels[i as int].user_id == user_id,
                None => !self@.label_taken(user_id, title@),
            },
    {
        let mut i: usize = 0;
        while i < self.labels.len()
            invariant
                0 <= i <= self.labels@.len(),
                forall|j: int|
                    0 <= j < i ==> !(self.labels@[j].title@ == title@ && self.labels@[j].user_id
                        == user_id),
            decreases self.labels@.len() - i,
        {
            if self.labels[i].user_id == user_id && self.labels[i].title == *title {
                return Some(i);
            }
            i += 1;
        }
        None
    }

    /// The labels of user `user_id`, in creation order.
    pub fn user_labels(&self, user_id: i32) -> (r: Vec<Label>)
        ensures
            r@ == self@.labels.filter(|l: Label| l.user_id == user_id),
    {
        let keep = |l: &Label| -> (b: bool)
            ensures
                b == (l.user_id == user_id),
            { l.user_id == user_id };
        select_rows(&self.labels, keep, Ghost(|l: Label| l.user_id == user_id))
    }

    /// Label `label_id`, if user `user_id` owns it.
    pub fn get_label(&self, user_id: i32, label_id: i32) -> (r: Result<Label, AppError>)
        ensures
            r is Err <==> !self@.owns_label(user_id, label_id),
            r is Err ==> r matches Err(AppError::NotFound(_)),
            r matches Ok(l) ==> self@.labels.contains(l) && l.id == label_id && l.user_id
                == user_id,
    {
        match self.label_index(user_id, label_id) {
            Some(i) => Ok(self.labels[i].clone()),
            None => Err(not_found("Label not found.")),
        }
    }

    /// Creates a label for user `user_id`. Titles are unique per user, not
    /// across users.
    pub fn create_label(&mut self, user_id: i32, req: CreateLabelRequest) -> (r: Result<
        Label,
        AppError,
    >)
        requires
            old(self)@.wf(),
        ensures
            final(self)@.wf(),
            r is Err ==> final(self)@ == old(self)@,
            !long_enough(req.title@) ==> r matches Err(AppError::Validation(_)),
            long_enough(req.title@) && !old(self)@.has_user(user_id) ==> r matches Err(
                AppError::NotFound(_),
            ),
            long_enough(req.title@) && old(self)@.has_user(user_id) && old(self)@.label_taken(
                user_id,
                req.title@,
            ) ==> r matches Err(AppError::Conflict(_)),
            long_enough(req.title@) && old(self)@.has_user(user_id) && !old(self)@.label_taken(
                user_id,
                req.title@,
            ) && old(self)@.next_label_id == i32::MAX ==> r matches Err(AppError::Internal(_)),
            r is Ok <==> long_enough(req.title@) && old(self)@.has_user(user_id) && !old(
                self,
            )@.label_taken(user_id, req.title@) && old(self)@.next_label_id < i32::MAX,
            r matches Ok(l) ==> {
                &&& l.id == old(self)@.next_label_id
                &&& l.title == req.title
                &&& l.color@ == DEFAULT_COLOR@
                &&& l.user_id == user_id
                &&& final(self)@ == (StoreView {
                    labels: old(self)@.labels.push(l),
                    next_label_id: (old(self)@.next_label_id + 1) as i32,
                    ..old(self)@
                })
            },
    {
        if let Err(e) = req.validate() {
            return Err(e);
        }
        if self.user_index(user_id).is_none() {
            return Err(not_found("User not found."));
        }
        if self.titled_label_index(user_id, &req.title).is_some() {
            return Err(conflict("Label already exists."));
        }
        if self.next_label_id == i32::MAX {
            return Err(exhausted());
        }
        let ghost pre = self@;
        assert(pre.wf());
        let label = Label {
            id: self.next_label_id,
            title: req.title,
            color: String::from_str(DEFAULT_COLOR),
            user_id,
        };
        let out = label.clone();
        self.labels.push(label);
        self.next_label_id = self.next_label_id + 1;
        proof {
            let v = self@;
            assert(v.users == pre.users && v.tasks == pre.tasks && v.task_labels
                == pre.task_labels && v.profiles == pre.profiles);
            assert forall|lid: i32| pre.has_label(lid) implies v.has_label(lid) by {
                let i = choose|i: int| 0 <= i < pre.labels.len() && #[trigger] pre.labels[i].id == lid;
                assert(v.labels[i].id == lid);
            }
            assert forall|tid: i32, lid: i32| pre.same_owner(tid, lid) && pre.has_label(lid) implies v.same_owner(tid, lid) by {
                let n = pre.labels.len() as int;
                assert forall|i: int, j: int|
                    0 <= i < v.tasks.len() && 0 <= j < v.labels.len() && #[trigger] v.tasks[i].id
                        == tid && #[trigger] v.labels[j].id == lid implies v.tasks[i].user_id
                    == v.labels[j].user_id by {
                    if j == n {
                        let b = choose|b: int| 0 <= b < pre.labels.len() && #[trigger] pre.labels[b].id == lid;
                        assert(pre.labels[b].id < pre.next_label_id);
                    }
                }
            }
            assert(v.links_wf());
            assert(v.labels_wf());
            assert(v.wf());
        }
        Ok(out)
    }

    /// Renames label `label_id` of user `user_id`; no other label of theirs
    /// may carry the new title.
    pub fn update_label(&mut self, user_id: i32, label_id: i32, req: UpdateLabelRequest) -> (r:
        Result<Label, AppError>)
        requires
            old(self)@.wf(),
        ensures
            final(self)@.wf(),
            r is Err ==> final(self)@ == old(self)@,
            !long_enough(req.title@) ==> r matches Err(AppError::Validation(_)),
            long_enough(req.title@) && !old(self)@.owns_label(user_id, label_id) ==> r matches Err(
                AppError::NotFound(_),
            ),
            long_enough(req.title@) && old(self)@.owns_label(user_id, label_id) && old(
                self,
            )@.rename_clash(user_id, label_id, req.title@) ==> r matches Err(
                AppError::Conflict(_),
            ),
            r is Ok <==> long_enough(req.title@) && old(self)@.owns_label(user_id, label_id) && !old(
                self,
            )@.rename_clash(user_id, label_id, req.title@),
            r matches Ok(l) ==> {
                &&& l.id == label_id
                &&& l.title == req.title
                &&& l.user_id == user_id
                &&& exists|i: int|
                    0 <= i < old(self)@.labels.len() && #[trigger] old(self)@.labels[i].id == label_id
                        && old(self)@.labels[i].color == l.color
                &&& final(self)@ == (StoreView {
                    labels: old(self)@.labels.map_values(
                        |x: Label|
                            if x.id == label_id {
                                l
                            } else {
                                x
                            },
                    ),
                    ..old(self)@
                })
            },
    {
        if let Err(e) = req.validate() {
            return Err(e);
        }
        let i = match self.label_index(user_id, label_id) {
            Some(i) => i,
            None => {
                return Err(not_found("Label not found."));
            },
        };
        let ghost pre = self@;
        assert(pre.wf());
        match self.titled_label_index(user_id, &req.title) {
            Some(j) => {
                if self.labels[j].id != label_id {
                    return Err(conflict("Label already exists."));
                }
                proof {
                    assert forall|k: int| 0 <= k < pre.labels.len() && #[trigger] pre.labels[k].user_id == user_id && pre.labels[k].title@ == req.title@ implies pre.labels[k].id == label_id by {
                        if k != j {
                            assert(labels_apart(pre.labels[k], pre.labels[j as int]));
                        }
                    }
                }
            },
            None => {},
        }
        assert(!pre.rename_clash(user_id, label_id, req.title@));
        let color = self.labels[i].color.clone();
        let label = Label { id: label_id, title: req.title, color, user_id };
        let out = label.clone();
        self.labels.set(i, label);
        proof {
            let v = self@;
            let l = out;
            assert forall|k: int| 0 <= k < pre.labels.len() && k != i implies #[trigger] pre.labels[k].id != label_id by {
                assert(labels_apart(pre.labels[k], pre.labels[i as int]));
            }
            assert(v.labels =~= pre.labels.map_values(
                |x: Label|
                    if x.id == label_id {
                        l
                    } else {
                        x
                    },
            ));
            assert(pre.labels[i as int].id == label_id && pre.labels[i as int].color == l.color);
            assert forall|lid: i32| pre.has_label(lid) implies v.has_label(lid) by {
                let a = choose|a: int| 0 <= a < pre.labels.len() && #[trigger] pre.labels[a].id == lid;
                assert(v.labels[a].id == lid);
            }
            assert forall|tid: i32, lid: i32| pre.same_owner(tid, lid) implies v.same_owner(tid, lid) by {
                assert forall|a: int, b: int|
                    0 <= a < v.tasks.len() && 0 <= b < v.labels.len() && #[trigger] v.tasks[a].id
                        == tid && #[trigger] v.labels[b].id == lid implies v.tasks[a].user_id
                    == v.labels[b].user_id by {
                    assert(pre.labels[b].id == lid);
                }
            }
            assert forall|a: int| 0 <= a < v.labels.len() implies 0 < (#[trigger] v.labels[a]).id
                < v.next_label_id && v.has_user(v.labels[a].user_id) by {
                assert(pre.has_user(pre.labels[a].user_id));
            }
            assert forall|a: int, b: int| 0 <= a < v.labels.len() && 0 <= b < v.labels.len() && a != b
                implies labels_apart(#[trigger] v.labels[a], #[trigger] v.labels[b]) by {
                assert(labels_apart(pre.labels[a], pre.labels[b]));
            }
            assert(v.labels_wf());
            assert(v.links_wf());
            assert(v.wf());
        }
        Ok(out)
    }

    /// Deletes label `label_id` of user `user_id` and every link to it.
    pub fn delete_label(&mut self, user_id: i32, label_id: i32) -> (r: Result<(), AppError>)
        requires
            old(self)@.wf(),
        ensures
            final(self)@.wf(),
            r is Err <==> !old(self)@.owns_label(user_id, label_id),
            r is Err ==> (r matches Err(AppError::NotFound(_))) && final(self)@ == old(self)@,
            r is Ok ==> final(self)@ == (StoreView {
                labels: old(self)@.labels.filter(|x: Label| x.id != label_id),
                task_labels: old(self)@.task_labels.filter(|x: TaskLabel| x.label_id != label_id),
                ..old(self)@
            }),
    {
        if self.label_index(user_id, label_id).is_none() {
            return Err(not_found("Label not found."));
        }
        let ghost pre = self@;
        assert(pre.wf());
        let mut labels: Vec<Label> = Vec::new();
        std::mem::swap(&mut labels, &mut self.labels);
        let keep_label = |x: &Label| -> (b: bool)
            ensures
                b == (x.id != label_id),
            { x.id != label_id };
        self.labels = retain_rows(labels, keep_label, Ghost(|x: Label| x.id != label_id));
        let mut links: Vec<TaskLabel> = Vec::new();
        std::mem::swap(&mut links, &mut self.task_labels);
        let keep_link = |x: &TaskLabel| -> (b: bool)
            ensures
                b == (x.label_id != label_id),
            { x.label_id != label_id };
        self.task_labels = retain_rows(links, keep_link, Ghost(|x: TaskLabel| x.label_id != label_id));
        proof {
            let v = self@;
            let lp = |x: Label| x.id != label_id;
            let kp = |x: TaskLabel| x.label_id != label_id;
            lemma_distinct_labels_filter(pre.labels, lp);
            lemma_distinct_task_labels_filter(pre.task_labels, kp);
            assert forall|i: int| 0 <= i < v.labels.len() implies pre.labels.contains(#[trigger] v.labels[i]) && v.has_user(v.labels[i].user_id) by {
                lemma_filter_from(pre.labels, lp, i);
                let q = choose|q: int| 0 <= q < pre.labels.len() && pre.labels[q] == v.labels[i];
                assert(pre.has_user(pre.labels[q].user_id));
            }
            assert forall|k: int| 0 <= k < v.task_labels.len() implies pre.task_labels.contains(#[trigger] v.task_labels[k]) && v.has_task(v.task_labels[k].task_id) && v.has_label(v.task_labels[k].label_id) by {
                lemma_filter_from(pre.task_labels, kp, k);
                let q = choose|q: int| 0 <= q < pre.task_labels.len() && pre.task_labels[q] == v.task_labels[k];
                let x = pre.task_labels[q];
                assert(pre.has_label(x.label_id));
                let b = choose|b: int| 0 <= b < pre.labels.len() && #[trigger] pre.labels[b].id == x.label_id;
                lemma_filter_keeps(pre.labels, lp, b);
            }
            assert forall|i: int| 0 <= i < v.profiles.len() implies v.has_user(#[trigger] v.profiles[i].user_id) by {}
            assert forall|i: int| 0 <= i < v.tasks.len() implies v.has_user(#[trigger] v.tasks[i].user_id) by {}
            assert forall|i: int| 0 <= i < v.users.len() implies pre.users.contains(#[trigger] v.users[i]) by {
                assert(pre.users[i] == v.users[i]);
            }
            assert forall|i: int| 0 <= i < v.profiles.len() implies pre.profiles.contains(#[trigger] v.profiles[i]) by {
                assert(pre.profiles[i] == v.profiles[i]);
            }
            assert forall|i: int| 0 <= i < v.tasks.len() implies pre.tasks.contains(#[trigger] v.tasks[i]) by {
                assert(pre.tasks[i] == v.tasks[i]);
            }
            lemma_wf_within(pre, v);
        }
        Ok(())
    }

    fn title_listed_in(titles: &Vec<String>, t: &String) -> (r: bool)
        ensures
            r == title_listed(titles@, t@),
    {
        let mut i: usize = 0;
        while i < titles.len()
            invariant
                0 <= i <= titles@.len(),
                forall|j: int| 0 <= j < i ==> titles@[j]@ != t@,
            decreases titles@.len() - i,
        {
            if titles[i] == *t {
                return true;
            }
            i += 1;
        }
        false
    }

    fn is_linked(&self, task_id: i32, label_id: i32) -> (r: bool)
        ensures
            r == self@.linked(task_id, label_id),
    {
        let mut k: usize = 0;
        while k < self.task_labels.len()
            invariant
                0 <= k <= self.task_labels@.len(),
                forall|j: int|
                    0 <= j < k ==> !(self.task_labels@[j].task_id == task_id
                        && self.task_labels@[j].label_id == label_id),
            decreases self.task_labels@.len() - k,
        {
            if self.task_labels[k].task_id == task_id && self.task_labels[k].label_id == label_id {
                assert(self@.task_labels[k as int].task_id == task_id);
                return true;
            }
            k += 1;
        }
        false
    }

    /// The reconciliation step: the owner's labels that `titles` names and
    /// task `task_id` lacks. Titles that name no label of the owner drop out.
    fn labels_to_link_for(&self, user_id: i32, task_id: i32, titles: &Vec<String>) -> (r: Vec<Label>)
        ensures
            r@ == self@.labels_to_link(user_id, task_id, titles@),
    {
        let keep = |l: &Label| -> (b: bool)
            ensures
                b == (l.user_id == user_id && title_listed(titles@, l.title@) && !self@.linked(task_id, l.id)),
            { l.user_id == user_id && Self::title_listed_in(titles, &l.title) && !self.is_linked(task_id, l.id) };
        let ghost pred = |l: Label|
            l.user_id == user_id && title_listed(titles@, l.title@) && !self@.linked(task_id, l.id);
        select_rows(&self.labels, keep, Ghost(pred))
    }

    fn add_links(&mut self, task_id: i32, labels: &Vec<Label>)
        requires
            old(self)@.next_link_id + labels@.len() <= i32::MAX,
        ensures
            final(self)@ == with_links(old(self)@, task_id, labels@),
    {
        let ghost pre = self@;
        let mut i: usize = 0;
        while i < labels.len()
            invariant
                0 <= i <= labels@.len(),
                pre.next_link_id + labels@.len() <= i32::MAX,
                self@ == (StoreView {
                    task_labels: pre.task_labels + links_for(pre.next_link_id as int, task_id, labels@.subrange(0, i as int)),
                    next_link_id: (pre.next_link_id + i) as i32,
                    ..pre
                }),
            decreases labels@.len() - i,
        {
            let link = TaskLabel { id: self.next_link_id, task_id, label_id: labels[i].id };
            self.task_labels.push(link);
            self.next_link_id = self.next_link_id + 1;
            proof {
                assert(pre.task_labels + links_for(pre.next_link_id as int, task_id, labels@.subrange(0, i + 1))
                    =~= (pre.task_labels + links_for(pre.next_link_id as int, task_id, labels@.subrange(0, i as int))).push(link));
            }
            i += 1;
        }
        proof {
            assert(labels@.subrange(0, labels@.len() as int) =~= labels@);
        }
    }

    fn task_index(&self, user_id: i32, uuid: &String) -> (r: Option<usize>)
        ensures
            match r {
                Some(i) => i < self@.tasks.len() && self@.tasks[i as int].uuid@ == uuid@
                    && self@.tasks[i as int].user_id == user_id,
                None => !self@.owns_task(user_id, uuid@),
            },
    {
        let mut i: usize = 0;
        while i < self.tasks.len()
            invariant
                0 <= i <= self.tasks@.len(),
                forall|j: int|
                    0 <= j < i ==> !(self.tasks@[j].uuid@ == uuid@ && self.tasks@[j].user_id == user_id),
            decreases self.tasks@.len() - i,
        {
            if self.tasks[i].user_id == user_id && self.tasks[i].uuid == *uuid {
                return Some(i);
            }
            i += 1;
        }
        None
    }

    fn uuid_used(&self, uuid: &String) -> (r: bool)
        ensures
            r == self@.uuid_taken(uuid@),
    {
        let mut i: usize = 0;
        while i < self.tasks.len()
            invariant
                0 <= i <= self.tasks@.len(),
                forall|j: int| 0 <= j < i ==> self.tasks@[j].uuid@ != uuid@,
            decreases self.tasks@.len() - i,
        {
            if self.tasks[i].uuid == *uuid {
                return true;
            }
            i += 1;
        }
        false
    }

    /// Adds a task with external identifier `uuid` for user `user_id` and
    /// links it to the user's labels that the request names, as one unit:
    /// on any failure nothing is added. Titles that name no label of the user
    /// are ignored, and no link at all is no failure.
    pub fn insert_task(&mut self, user_id: i32, req: CreateTaskRequest, uuid: String, now: i64) -> (r: Result<Task, AppError>)
        requires
            old(self)@.wf(),
            valid_timestamp(now),
        ensures
            final(self)@.wf(),
            r is Err ==> final(self)@ == old(self)@,
            (r matches Err(AppError::Validation(_))) <==> create_task_faults(req).len() > 0,
            (r matches Err(AppError::NotFound(_))) <==> create_task_faults(req).len() == 0 && !old(self)@.has_user(user_id),
            (r matches Err(AppError::Conflict(_))) <==> create_task_faults(req).len() == 0 && old(self)@.has_user(user_id)
                && old(self)@.uuid_taken(uuid@),
            r is Ok <==> create_task_faults(req).len() == 0 && old(self)@.has_user(user_id) && !old(self)@.uuid_taken(uuid@)
                && old(self)@.next_task_id < i32::MAX
                && old(self)@.next_link_id + labels_named(old(self)@, user_id, req.labels@).len() <= i32::MAX,
            r matches Ok(t) ==> created_task(old(self)@, user_id, req, uuid@, now, t)
                && final(self)@ == after_task_insert(old(self)@, user_id, req, t),
    {
        if let Err(e) = req.validate() {
            return Err(e);
        }
        if self.user_index(user_id).is_none() {
            return Err(not_found("User not found."));
        }
        if self.uuid_used(&uuid) {
            return Err(conflict("Task identifier already exists."));
        }
        if self.next_task_id == i32::MAX {
            return Err(exhausted());
        }
        let ghost pre = self@;
        assert(pre.wf());
        let task_id = self.next_task_id;
        let to_link = self.labels_to_link_for(user_id, task_id, &req.labels);
        proof {
            let p1 = |l: Label| l.user_id == user_id && title_listed(req.labels@, l.title@) && !pre.linked(task_id, l.id);
            let p2 = |l: Label| l.user_id == user_id && title_listed(req.labels@, l.title@);
            assert forall|lid: i32| !pre.linked(task_id, lid) by {
                if pre.linked(task_id, lid) {
                    let k = choose|k: int| 0 <= k < pre.task_labels.len() && #[trigger] pre.task_labels[k].task_id == task_id && pre.task_labels[k].label_id == lid;
                    assert(pre.has_task(pre.task_labels[k].task_id));
                    let a = choose|a: int| 0 <= a < pre.tasks.len() && #[trigger] pre.tasks[a].id == task_id;
                    assert(pre.tasks[a].id < pre.next_task_id);
                }
            }
            assert(p1 =~= p2);
            assert(to_link@ == labels_named(pre, user_id, req.labels@));
        }
        if to_link.len() > (i32::MAX - self.next_link_id) as usize {
            return Err(exhausted());
        }
        let status = TaskStatus::initial(&req.status).unwrap();
        let priority = TaskPriority::initial(&req.priority).unwrap();
        let task = Task {
            id: task_id,
            title: req.title,
            description: req.description,
            status,
            priority,
            uuid,
            due_date: req.due_date,
            date_created: now,
            date_updated: None,
            user_id,
        };
        let out = task.clone();
        self.tasks.push(task);
        self.next_task_id = self.next_task_id + 1;
        let ghost mid = self@;
        proof {
            assert(mid.labels == pre.labels && mid.task_labels == pre.task_labels && mid.users == pre.users && mid.profiles == pre.profiles);
            let n = pre.tasks.len() as int;
            assert(mid.tasks[n] == out);
            assert forall|tid: i32| pre.has_task(tid) implies mid.has_task(tid) by {
                let a = choose|a: int| 0 <= a < pre.tasks.len() && #[trigger] pre.tasks[a].id == tid;
                assert(mid.tasks[a].id == tid);
            }
            assert forall|tid: i32, lid: i32| pre.same_owner(tid, lid) && pre.has_task(tid) implies mid.same_owner(tid, lid) by {
                assert forall|a: int, b: int|
                    0 <= a < mid.tasks.len() && 0 <= b < mid.labels.len() && #[trigger] mid.tasks[a].id
                        == tid && #[trigger] mid.labels[b].id == lid implies mid.tasks[a].user_id
                    == mid.labels[b].user_id by {
                    if a == n {
                        let c = choose|c: int| 0 <= c < pre.tasks.len() && #[trigger] pre.tasks[c].id == tid;
                        assert(pre.tasks[c].id < pre.next_task_id);
                    }
                }
            }
            assert forall|a: int| 0 <= a < mid.tasks.len() implies 0 < (#[trigger] mid.tasks[a]).id
                < mid.next_task_id && mid.has_user(mid.tasks[a].user_id) by {
                if a < n {
                    assert(pre.has_user(pre.tasks[a].user_id));
                }
            }
            assert forall|a: int, b: int| 0 <= a < mid.tasks.len() && 0 <= b < mid.tasks.len() && a != b
                implies tasks_apart(#[trigger] mid.tasks[a], #[trigger] mid.tasks[b]) by {
                if a < n && b < n {
                    assert(tasks_apart(pre.tasks[a], pre.tasks[b]));
                } else if a < n {
                    assert(pre.tasks[a].uuid@ != uuid@);
                } else if b < n {
                    assert(pre.tasks[b].uuid@ != uuid@);
                }
            }
            assert(mid.tasks_wf());
            assert(mid.links_wf());
            assert(mid.wf());
            let pm = |l: Label| l.user_id == user_id && title_listed(req.labels@, l.title@) && !mid.linked(task_id, l.id);
            let pp = |l: Label| l.user_id == user_id && title_listed(req.labels@, l.title@) && !pre.linked(task_id, l.id);
            assert(pm =~= pp);
            assert(mid.labels_to_link(user_id, task_id, req.labels@) == to_link@);
            lemma_add_links_wf(mid, user_id, task_id, req.labels@);
        }
        self.add_links(task_id, &to_link);
        Ok(out)
    }

    /// Creates a task with a fresh random external identifier; otherwise as
    /// `insert_task`.
    pub fn create_task(&mut self, user_id: i32, req: CreateTaskRequest, now: i64) -> (r: Result<Task, AppError>)
        requires
            old(self)@.wf(),
            valid_timestamp(now),
        ensures
            final(self)@.wf(),
            r is Err ==> final(self)@ == old(self)@,
            (r matches Err(AppError::Validation(_))) <==> create_task_faults(req).len() > 0,
            (r matches Err(AppError::NotFound(_))) <==> create_task_faults(req).len() == 0 && !old(self)@.has_user(user_id),
            create_task_faults(req).len() == 0 && old(self)@.has_user(user_id) && old(self)@.next_task_id < i32::MAX
                && old(self)@.next_link_id + labels_named(old(self)@, user_id, req.labels@).len() <= i32::MAX
                ==> (r is Ok || r matches Err(AppError::Conflict(_))),
            create_task_faults(req).len() == 0 && old(self)@.has_user(user_id)
                && (forall|i: int| 0 <= i < old(self)@.tasks.len() ==> (#[trigger] old(self)@.tasks[i]).uuid@.len() != 36)
                && old(self)@.next_task_id < i32::MAX
                && old(self)@.next_link_id + labels_named(old(self)@, user_id, req.labels@).len() <= i32::MAX
                ==> r is Ok,
            r matches Ok(t) ==> t.uuid@.len() == 36 && created_task(old(self)@, user_id, req, t.uuid@, now, t)
                && final(self)@ == after_task_insert(old(self)@, user_id, req, t),
    {
        let uuid = fresh_uuid();
        self.insert_task(user_id, req, uuid, now)
    }

    /// User `user_id`'s task with external identifier `uuid`.
    pub fn get_task(&self, user_id: i32, uuid: &String) -> (r: Result<Task, AppError>)
        ensures
            r is Err <==> !self@.owns_task(user_id, uuid@),
            r is Err ==> r matches Err(AppError::NotFound(_)),
            r matches Ok(t) ==> exists|i: int| task_at(self@, user_id, uuid@, i) && t == self@.tasks[i],
    {
        match self.task_index(user_id, uuid) {
            Some(i) => Ok(self.tasks[i].clone()),
            None => Err(not_found("Task not found.")),
        }
    }

    /// User `user_id`'s task with external identifier `uuid`, with the
    /// labels linked to it in creation order.
    pub fn get_task_full(&self, user_id: i32, uuid: &String) -> (r: Result<(Task, Vec<Label>), AppError>)
        ensures
            r is Err <==> !self@.owns_task(user_id, uuid@),
            r is Err ==> r matches Err(AppError::NotFound(_)),
            r matches Ok((t, ls)) ==> (exists|i: int| task_at(self@, user_id, uuid@, i) && t == self@.tasks[i])
                && ls@ == self@.labels.filter(|l: Label| self@.linked(t.id, l.id)),
    {
        match self.task_index(user_id, uuid) {
            Some(i) => {
                let t = self.tasks[i].clone();
                let tid = t.id;
                let keep = |l: &Label| -> (b: bool)
                    ensures
                        b == self@.linked(tid, l.id),
                    { self.is_linked(tid, l.id) };
                let ls = select_rows(&self.labels, keep, Ghost(|l: Label| self@.linked(tid, l.id)));
                Ok((t, ls))
            },
            None => Err(not_found("Task not found.")),
        }
    }

    /// Full update of user `user_id`'s task `uuid`. Labels are reconciled
    /// additively: the user's labels that the request names and the task
    /// lacks are linked, existing links all stay, and titles that name no
    /// label of the user are ignored. A missing description keeps the current
    /// one. The task row and the new links change together or not at all.
    pub fn update_task(&mut self, user_id: i32, uuid: &String, req: UpdateTaskRequest, now: i64) -> (r: Result<Task, AppError>)
        requires
            old(self)@.wf(),
            valid_timestamp(now),
        ensures
            final(self)@.wf(),
            r is Err ==> final(self)@ == old(self)@,
            (r matches Err(AppError::NotFound(_))) <==> !old(self)@.owns_task(user_id, uuid@),
            (r matches Err(AppError::Validation(_))) <==> old(self)@.owns_task(user_id, uuid@)
                && update_task_faults(req).len() > 0,
            update_task_faults(req).len() == 0 && old(self)@.owns_task(user_id, uuid@) ==> (r is Ok <==> forall|i: int| task_at(old(self)@, user_id, uuid@, i)
                ==> old(self)@.next_link_id + old(self)@.labels_to_link(user_id, old(self)@.tasks[i].id, req.labels@).len() <= i32::MAX),
            r matches Ok(t) ==> exists|i: int| task_at(old(self)@, user_id, uuid@, i) && task_updated(old(self)@.tasks[i], req, now, t)
                && final(self)@ == with_task(
                    with_links(old(self)@, t.id, old(self)@.labels_to_link(user_id, t.id, req.labels@)),
                    t,
                ),
    {
        let i = match self.task_index(user_id, uuid) {
            Some(i) => i,
            None => {
                return Err(not_found("Task not found."));
            },
        };
        if let Err(e) = req.validate() {
            return Err(e);
        }
        let ghost pre = self@;
        assert(pre.wf());
        proof {
            assert forall|j: int| task_at(pre, user_id, uuid@, j) implies j == i by {
                if j != i {
                    assert(tasks_apart(pre.tasks[j], pre.tasks[i as int]));
                }
            }
        }
        let task_id = self.tasks[i].id;
        assert(task_at(pre, user_id, uuid@, i as int));
        let to_link = self.labels_to_link_for(user_id, task_id, &req.labels);
        if to_link.len() > (i32::MAX - self.next_link_id) as usize {
            return Err(exhausted());
        }
        proof {
            lemma_add_links_wf(pre, user_id, task_id, req.labels@);
        }
        self.add_links(task_id, &to_link);
        let ghost mid = self@;
        let status = TaskStatus::parse(&req.status).unwrap();
        let old_task = self.tasks[i].clone();
        let description = match req.description {
            Some(d) => d,
            None => old_task.description,
        };
        let task = Task {
            title: req.title,
            description,
            status,
            date_updated: Some(now),
            ..old_task
        };
        let out = task.clone();
        proof {
            assert(mid.tasks == pre.tasks);
            lemma_task_replaced(mid, i as int, task);
        }
        self.tasks.set(i, task);
        proof {
            assert(self@ =~= with_task(mid, out));
            assert(task_updated(pre.tasks[i as int], req, now, out));
        }
        Ok(out)
    }

    fn replace_task(&mut self, i: usize, task: Task)
        requires
            old(self)@.wf(),
            i < old(self)@.tasks.len(),
            task.id == old(self)@.tasks[i as int].id,
            task.uuid@ == old(self)@.tasks[i as int].uuid@,
            task.user_id == old(self)@.tasks[i as int].user_id,
            valid_timestamp(task.date_created),
            valid_opt_timestamp(task.date_updated),
            valid_opt_timestamp(task.due_date),
        ensures
            final(self)@ == with_task(old(self)@, task),
            final(self)@.wf(),
    {
        proof {
            lemma_task_replaced(self@, i as int, task);
        }
        let ghost pre = self@;
        self.tasks.set(i, task);
        proof {
            assert(self@ =~= with_task(pre, task));
        }
    }

    /// Sets the status of user `user_id`'s task `uuid`.
    pub fn update_task_status(
        &mut self,
        user_id: i32,
        uuid: &String,
        req: UpdateTaskStatusRequest,
        now: i64,
    ) -> (r: Result<Task, AppError>)
        requires
            old(self)@.wf(),
            valid_timestamp(now),
        ensures
            final(self)@.wf(),
            r is Err ==> final(self)@ == old(self)@,
            (r matches Err(AppError::NotFound(_))) <==> !old(self)@.owns_task(user_id, uuid@),
            (r matches Err(AppError::Validation(_))) <==> old(self)@.owns_task(user_id, uuid@) && status_named(req.status@) is None,
            r is Ok <==> status_named(req.status@) is Some && old(self)@.owns_task(user_id, uuid@),
            r matches Ok(t) ==> exists|i: int| task_at(old(self)@, user_id, uuid@, i)
                && Some(t.status) == status_named(req.status@)
                && t == (Task { status: t.status, date_updated: Some(now), ..old(self)@.tasks[i] })
                && final(self)@ == with_task(old(self)@, t),
    {
        let i = match self.task_index(user_id, uuid) {
            Some(i) => i,
            None => {
                return Err(not_found("Task not found."));
            },
        };
        if let Err(e) = req.validate() {
            return Err(e);
        }
        let status = TaskStatus::parse(&req.status).unwrap();
        let old_task = self.tasks[i].clone();
        let task = Task { status, date_updated: Some(now), ..old_task };
        let out = task.clone();
        let ghost pre = self@;
        self.replace_task(i, task);
        assert(task_at(pre, user_id, uuid@, i as int));
        assert(out == (Task { status: out.status, date_updated: Some(now), ..pre.tasks[i as int] }));
        Ok(out)
    }

    /// Sets the priority of user `user_id`'s task `uuid`.
    pub fn update_task_priority(
        &mut self,
        user_id: i32,
        uuid: &String,
        req: UpdateTaskPriorityRequest,
        now: i64,
    ) -> (r: Result<Task, AppError>)
        requires
            old(self)@.wf(),
            valid_timestamp(now),
        ensures
            final(self)@.wf(),
            r is Err ==> final(self)@ == old(self)@,
            (r matches Err(AppError::NotFound(_))) <==> !old(self)@.owns_task(user_id, uuid@),
            (r matches Err(AppError::Validation(_))) <==> old(self)@.owns_task(user_id, uuid@) && priority_named(req.priority@) is None,
            r is Ok <==> priority_named(req.priority@) is Some && old(self)@.owns_task(user_id, uuid@),
            r matches Ok(t) ==> exists|i: int| task_at(old(self)@, user_id, uuid@, i)
                && Some(t.priority) == priority_named(req.priority@)
                && t == (Task { priority: t.priority, date_updated: Some(now), ..old(self)@.tasks[i] })
                && final(self)@ == with_task(old(self)@, t),
    {
        let i = match self.task_index(user_id, uuid) {
            Some(i) => i,
            None => {
                return Err(not_found("Task not found."));
            },
        };
        if let Err(e) = req.validate() {
            return Err(e);
        }
        let priority = TaskPriority::parse(&req.priority).unwrap();
        let old_task = self.tasks[i].clone();
        let task = Task { priority, date_updated: Some(now), ..old_task };
        let out = task.clone();
        let ghost pre = self@;
        self.replace_task(i, task);
        assert(task_at(pre, user_id, uuid@, i as int));
        assert(out == (Task { priority: out.priority, date_updated: Some(now), ..pre.tasks[i as int] }));
        Ok(out)
    }

    fn owns_task_id(&self, task_id: i32, user_id: i32) -> (r: bool)
        ensures
            r == self@.task_owned_by(task_id, user_id),
    {
        let mut i: usize = 0;
        while i < self.tasks.len()
            invariant
                0 <= i <= self.tasks@.len(),
                forall|j: int| 0 <= j < i ==> !(self.tasks@[j].id == task_id && self.tasks@[j].user_id == user_id),
            decreases self.tasks@.len() - i,
        {
            if self.tasks[i].id == task_id && self.tasks[i].user_id == user_id {
                assert(self@.tasks[i as int].id == task_id);
                return true;
            }
            i += 1;
        }
        false
    }

    /// Deletes user `user_id` with everything that hangs off them. Deleting
    /// a user that does not exist changes nothing and is no error.
    pub fn delete_user(&mut self, user_id: i32)
        requires
            old(self)@.wf(),
        ensures
            final(self)@ == after_user_delete(old(self)@, user_id),
            final(self)@.wf(),
            !final(self)@.has_user(user_id),
    {
        let ghost pre = self@;
        let mut links: Vec<TaskLabel> = Vec::new();
        std::mem::swap(&mut links, &mut self.task_labels);
        let this: &Store = self;
        let keep_link = |k: &TaskLabel| -> (b: bool)
            ensures
                b == !this@.task_owned_by(k.task_id, user_id),
            { !this.owns_task_id(k.task_id, user_id) };
        let kept_links = retain_rows(links, keep_link, Ghost(|k: TaskLabel| !pre.task_owned_by(k.task_id, user_id)));
        self.task_labels = kept_links;
        let mut tasks: Vec<Task> = Vec::new();
        std::mem::swap(&mut tasks, &mut self.tasks);
        let keep_task = |t: &Task| -> (b: bool)
            ensures
                b == (t.user_id != user_id),
            { t.user_id != user_id };
        self.tasks = retain_rows(tasks, keep_task, Ghost(|t: Task| t.user_id != user_id));
        let mut labels: Vec<Label> = Vec::new();
        std::mem::swap(&mut labels, &mut self.labels);
        let keep_label = |l: &Label| -> (b: bool)
            ensures
                b == (l.user_id != user_id),
            { l.user_id != user_id };
        self.labels = retain_rows(labels, keep_label, Ghost(|l: Label| l.user_id != user_id));
        let mut profiles: Vec<UserProfile> = Vec::new();
        std::mem::swap(&mut profiles, &mut self.profiles);
        let keep_profile = |p: &UserProfile| -> (b: bool)
            ensures
                b == (p.user_id != user_id),
            { p.user_id != user_id };
        self.profiles = retain_rows(profiles, keep_profile, Ghost(|p: UserProfile| p.user_id != user_id));
        let mut users: Vec<User> = Vec::new();
        std::mem::swap(&mut users, &mut self.users);
        let keep_user = |u: &User| -> (b: bool)
            ensures
                b == (u.id != user_id),
            { u.id != user_id };
        self.users = retain_rows(users, keep_user, Ghost(|u: User| u.id != user_id));
        proof {
            assert(self@ =~= after_user_delete(pre, user_id));
            lemma_user_delete_cascades(pre, user_id);
        }
    }

    /// Deletes user `user_id`'s task `uuid` and its links.
    pub fn delete_task(&mut self, user_id: i32, uuid: &String) -> (r: Result<(), AppError>)
        requires
            old(self)@.wf(),
        ensures
            final(self)@.wf(),
            r is Err <==> !old(self)@.owns_task(user_id, uuid@),
            r is Err ==> (r matches Err(AppError::NotFound(_))) && final(self)@ == old(self)@,
            r is Ok ==> exists|i: int| task_at(old(self)@, user_id, uuid@, i)
                && final(self)@ == after_task_delete(old(self)@, old(self)@.tasks[i].id),
    {
        let i = match self.task_index(user_id, uuid) {
            Some(i) => i,
            None => {
                return Err(not_found("Task not found."));
            },
        };
        let ghost pre = self@;
        assert(pre.wf());
        let task_id = self.tasks[i].id;
        let mut tasks: Vec<Task> = Vec::new();
        std::mem::swap(&mut tasks, &mut self.tasks);
        let keep_task = |t: &Task| -> (b: bool)
            ensures
                b == (t.id != task_id),
            { t.id != task_id };
        self.tasks = retain_rows(tasks, keep_task, Ghost(|t: Task| t.id != task_id));
        let mut links: Vec<TaskLabel> = Vec::new();
        std::mem::swap(&mut links, &mut self.task_labels);
        let keep_link = |k: &TaskLabel| -> (b: bool)
            ensures
                b == (k.task_id != task_id),
            { k.task_id != task_id };
        self.task_labels = retain_rows(links, keep_link, Ghost(|k: TaskLabel| k.task_id != task_id));
        proof {
            let v = self@;
            let tp = |t: Task| t.id != task_id;
            let kp = |k: TaskLabel| k.task_id != task_id;
            assert(v =~= after_task_delete(pre, task_id));
            assert(task_at(pre, user_id, uuid@, i as int));
            lemma_distinct_tasks_filter(pre.tasks, tp);
            lemma_distinct_task_labels_filter(pre.task_labels, kp);
            assert forall|a: int| 0 <= a < v.tasks.len() implies pre.tasks.contains(#[trigger] v.tasks[a]) && v.has_user(v.tasks[a].user_id) by {
                lemma_filter_from(pre.tasks, tp, a);
                let q = choose|q: int| 0 <= q < pre.tasks.len() && pre.tasks[q] == v.tasks[a];
                assert(pre.has_user(pre.tasks[q].user_id));
            }
            assert forall|k: int| 0 <= k < v.task_labels.len() implies pre.task_labels.contains(#[trigger] v.task_labels[k]) && v.has_task(v.task_labels[k].task_id) && v.has_label(v.task_labels[k].label_id) by {
                lemma_filter_from(pre.task_labels, kp, k);
                let q = choose|q: int| 0 <= q < pre.task_labels.len() && pre.task_labels[q] == v.task_labels[k];
                let x = pre.task_labels[q];
                assert(pre.has_task(x.task_id) && pre.has_label(x.label_id));
                let a = choose|a: int| 0 <= a < pre.tasks.len() && #[trigger] pre.tasks[a].id == x.task_id;
                lemma_filter_keeps(pre.tasks, tp, a);
            }
            assert forall|a: int| 0 <= a < v.users.len() implies pre.users.contains(#[trigger] v.users[a]) by {
                assert(pre.users[a] == v.users[a]);
            }
            assert forall|a: int| 0 <= a < v.profiles.len() implies pre.profiles.contains(#[trigger] v.profiles[a]) && v.has_user(v.profiles[a].user_id) by {
                assert(pre.profiles[a] == v.profiles[a]);
            }
            assert forall|a: int| 0 <= a < v.labels.len() implies pre.labels.contains(#[trigger] v.labels[a]) && v.has_user(v.labels[a].user_id) by {
                assert(pre.labels[a] == v.labels[a]);
            }
            lemma_wf_within(pre, v);
        }
        Ok(())
    }

    fn profile_for(&self, user_id: i32) -> (r: Option<UserProfile>)
        requires
            self@.wf(),
        ensures
            r == self@.profile_of(user_id),
    {
        match self.profile_index(user_id) {
            Some(i) => {
                proof {
                    let c = choose|c: int| 0 <= c < self@.profiles.len() && #[trigger] self@.profiles[c].user_id == user_id;
                    if c != i {
                        assert(profiles_apart(self@.profiles[c], self@.profiles[i as int]));
                    }
                }
                Some(self.profiles[i].clone())
            },
            None => None,
        }
    }

    /// User `user_id` with their profile.
    pub fn get_user(&self, user_id: i32) -> (r: Result<(User, Option<UserProfile>), AppError>)
        requires
            self@.wf(),
        ensures
            r is Err <==> !self@.has_user(user_id),
            r is Err ==> r matches Err(AppError::NotFound(_)),
            r matches Ok((u, p)) ==> self@.users.contains(u) && u.id == user_id && p == self@.profile_of(user_id),
    {
        match self.user_index(user_id) {
            Some(i) => Ok((self.users[i].clone(), self.profile_for(user_id))),
            None => Err(not_found("User not found.")),
        }
    }

    /// Replaces the name, username, email and (when given) password of user
    /// `user_id`; usernames and emails stay unique.
    pub fn update_user(&mut self, user_id: i32, req: UpdateUserRequest, now: i64) -> (r: Result<User, AppError>)
        requires
            old(self)@.wf(),
            valid_timestamp(now),
        ensures
            final(self)@.wf(),
            r is Err ==> final(self)@ == old(self)@,
            !old(self)@.has_user(user_id) ==> r matches Err(AppError::NotFound(_)),
            old(self)@.has_user(user_id) && old(self)@.identity_clash(user_id, req.username@, req.email@) ==> r matches Err(AppError::Conflict(_)),
            r is Ok <==> old(self)@.has_user(user_id) && !old(self)@.identity_clash(user_id, req.username@, req.email@),
            r matches Ok(u) ==> exists|i: int| 0 <= i < old(self)@.users.len() && old(self)@.users[i].id == user_id
                && u == (User {
                    name: req.name,
                    username: req.username,
                    email: req.email,
                    password: match req.password { Some(p) => p, None => old(self)@.users[i].password },
                    date_updated: Some(now),
                    ..old(self)@.users[i]
                })
                && final(self)@ == (StoreView { users: old(self)@.users.update(i, u), ..old(self)@ }),
    {
        let i = match self.user_index(user_id) {
            Some(i) => i,
            None => {
                return Err(not_found("User not found."));
            },
        };
        let (name_used, email_used) = self.identity_clash(&req.username, &req.email, user_id);
        if name_used {
            return Err(conflict("Username already exists."));
        }
        if email_used {
            return Err(conflict("Email already exists."));
        }
        let ghost pre = self@;
        assert(pre.wf());
        let old_user = self.users[i].clone();
        let password = match req.password {
            Some(p) => p,
            None => old_user.password,
        };
        let user = User {
            name: req.name,
            username: req.username,
            email: req.email,
            password,
            date_updated: Some(now),
            ..old_user
        };
        let out = user.clone();
        self.users.set(i, user);
        proof {
            let v = self@;
            assert(v.users == pre.users.update(i as int, out));
            assert forall|uid: i32| pre.has_user(uid) implies v.has_user(uid) by {
                let a = choose|a: int| 0 <= a < pre.users.len() && #[trigger] pre.users[a].id == uid;
                assert(v.users[a].id == uid);
            }
            assert forall|a: int| 0 <= a < v.users.len() implies 0 < (#[trigger] v.users[a]).id < v.next_user_id
                && valid_timestamp(v.users[a].date_created) && valid_opt_timestamp(v.users[a].date_updated) by {}
            assert forall|a: int, b: int| 0 <= a < v.users.len() && 0 <= b < v.users.len() && a != b
                implies users_apart(#[trigger] v.users[a], #[trigger] v.users[b]) by {
                assert(users_apart(pre.users[a], pre.users[b]));
                if a == i {
                    assert(pre.users[b].id != user_id);
                } else if b == i {
                    assert(pre.users[a].id != user_id);
                }
            }
            assert forall|a: int| 0 <= a < v.profiles.len() implies v.has_user(#[trigger] v.profiles[a].user_id) by {
                assert(pre.has_user(pre.profiles[a].user_id));
            }
            assert forall|a: int| 0 <= a < v.tasks.len() implies v.has_user(#[trigger] v.tasks[a].user_id) by {
                assert(pre.has_user(pre.tasks[a].user_id));
            }
            assert forall|a: int| 0 <= a < v.labels.len() implies v.has_user(#[trigger] v.labels[a].user_id) by {
                assert(pre.has_user(pre.labels[a].user_id));
            }
            assert(v.users_wf() && v.profiles_wf() && v.tasks_wf() && v.labels_wf());
            assert(v.task_labels == pre.task_labels && v.tasks == pre.tasks && v.labels == pre.labels);
            assert(v.links_wf());
        }
        Ok(out)
    }

    /// One page of user `user_id`'s tasks, newest first.
    pub fn user_tasks(&self, user_id: i32, page: u64, per_page: u64, current_url: Option<String>) -> (r: Result<Paginated<Task>, AppError>)
        requires
            per_page > 0,
        ensures
            r is Err <==> !self@.has_user(user_id),
            r is Err ==> r matches Err(AppError::NotFound(_)),
            r matches Ok(pg) ==> exists|all: Seq<Task>| {
                &&& all.to_multiset() == self@.tasks.filter(|t: Task| t.user_id == user_id).to_multiset()
                &&& newest_first(all)
                &&& pg.data@ == page_items(all, page as int, per_page as int)
                &&& pg.meta.count == all.len()
                &&& pg.meta.per_page == per_page
                &&& pg.meta.total_page == page_count(all.len() as int, per_page as int)
                &&& pg.meta.current_url == current_url
            },
    {
        if self.user_index(user_id).is_none() {
            return Err(not_found("User not found."));
        }
        let keep = |t: &Task| -> (b: bool)
            ensures
                b == (t.user_id == user_id),
            { t.user_id == user_id };
        let chosen = select_rows(&self.tasks, keep, Ghost(|t: Task| t.user_id == user_id));
        let all = sort_newest_first(chosen);
        Ok(paginate(all, page, per_page, current_url))
    }

    /// One page of user `user_id`'s tasks that pass `filter`, newest first.
    pub fn list_tasks(&self, user_id: i32, filter: &TaskFilter, page: u64, current_url: Option<String>) -> (r: Paginated<Task>)
        ensures
            exists|all: Seq<Task>| {
                &&& all.to_multiset() == self@.tasks.filter(|t: Task| t.user_id == user_id && filter.matches(t)).to_multiset()
                &&& newest_first(all)
                &&& r.data@ == page_items(all, page as int, PAGE_SIZE as int)
                &&& r.meta.count == all.len()
                &&& r.meta.per_page == PAGE_SIZE
                &&& r.meta.total_page == page_count(all.len() as int, PAGE_SIZE as int)
                &&& r.meta.current_url == current_url
            },
    {
        let keep = |t: &Task| -> (b: bool)
            ensures
                b == (t.user_id == user_id && filter.matches(*t)),
            { t.user_id == user_id && filter.accepts(t) };
        let chosen = select_rows(&self.tasks, keep, Ghost(|t: Task| t.user_id == user_id && filter.matches(t)));
        let all = sort_newest_first(chosen);
        paginate(all, page, PAGE_SIZE, current_url)
    }

    /// One page of the users that pass `filter`, newest first, each with
    /// their profile.
    pub fn list_users(&self, filter: &UserFilter, page: u64, current_url: Option<String>) -> (r: Paginated<(User, Option<UserProfile>)>)
        requires
            self@.wf(),
        ensures
            exists|all: Seq<User>| {
                &&& all.to_multiset() == self@.users.filter(|u: User| filter.matches(u)).to_multiset()
                &&& newest_first(all)
                &&& r.data@ == page_items(all, page as int, PAGE_SIZE as int).map_values(
                    |u: User| (u, self@.profile_of(u.id)),
                )
                &&& r.meta.count == all.len()
                &&& r.meta.per_page == PAGE_SIZE
                &&& r.meta.total_page == page_count(all.len() as int, PAGE_SIZE as int)
                &&& r.meta.current_url == current_url
            },
    {
        let keep = |u: &User| -> (b: bool)
            ensures
                b == filter.matches(*u),
            { filter.accepts(u) };
        let chosen = select_rows(&self.users, keep, Ghost(|u: User| filter.matches(u)));
        let all = sort_newest_first(chosen);
        let pg = paginate(all, page, PAGE_SIZE, current_url);
        let mut data: Vec<(User, Option<UserProfile>)> = Vec::new();
        let mut rows = pg.data;
        let ghost shown = rows@;
        let mut i: usize = 0;
        while i < rows.len()
            invariant
                self@.wf(),
                rows@ == shown,
                0 <= i <= rows@.len(),
                data@ == shown.subrange(0, i as int).map_values(|u: User| (u, self@.profile_of(u.id))),
            decreases rows@.len() - i,
        {
            let u = rows[i].clone();
            let p = self.profile_for(u.id);
            data.push((u, p));
            proof {
                assert(shown.subrange(0, i + 1).map_values(|u: User| (u, self@.profile_of(u.id)))
                    =~= shown.subrange(0, i as int).map_values(|u: User| (u, self@.profile_of(u.id))).push((shown[i as int], self@.profile_of(shown[i as int].id))));
            }
            i += 1;
        }
        proof {
            assert(shown.subrange(0, shown.len() as int) =~= shown);
        }
        Paginated { data, meta: pg.meta }
    }

    /// The user who logs in as `username`.
    pub fn user_by_username(&self, username: &String) -> (r: Result<User, AppError>)
        ensures
            r is Err <==> !self@.username_taken(username@),
            r is Err ==> r matches Err(AppError::NotFound(_)),
            r matches Ok(u) ==> self@.users.contains(u) && u.username@ == username@,
    {
        let mut i: usize = 0;
        while i < self.users.len()
            invariant
                0 <= i <= self.users@.len(),
                forall|j: int| 0 <= j < i ==> self.users@[j].username@ != username@,
            decreases self.users@.len() - i,
        {
            if self.users[i].username == *username {
                let u = self.users[i].clone();
                assert(self@.users[i as int] == u);
                return Ok(u);
            }
            i += 1;
        }
        Err(not_found("User not found."))
    }

    pub fn user_count(&self) -> (r: usize)
        ensures
            r == self@.users.len(),
    {
        self.users.len()
    }

    pub fn profile_count(&self) -> (r: usize)
        ensures
            r == self@.profiles.len(),
    {
        self.profiles.len()
    }

    pub fn task_count(&self) -> (r: usize)
        ensures
            r == self@.tasks.len(),
    {
        self.tasks.len()
    }

    pub fn label_count(&self) -> (r: usize)
        ensures
            r == self@.labels.len(),
    {
        self.labels.len()
    }

    pub fn link_count(&self) -> (r: usize)
        ensures
            r == self@.task_labels.len(),
    {
        self.task_labels.len()
    }

    /// Registers a user together with their profile, as one unit: both rows
    /// are added, or (on any failure) neither is and the store is unchanged.
    pub fn register_user(&mut self, req: CreateUserRequest, now: i64) -> (r: Result<
        (User, UserProfile),
        AppError,
    >)
        requires
            old(self)@.wf(),
            valid_timestamp(now),
        ensures
            final(self)@.wf(),
            old(self)@.username_taken(req.username@) ==> r matches Err(AppError::Conflict(_)),
            old(self)@.email_taken(req.email@) ==> r matches Err(AppError::Conflict(_)),
            !old(self)@.username_taken(req.username@) && !old(self)@.email_taken(req.email@) && (
            old(self)@.next_user_id == i32::MAX || old(self)@.next_profile_id == i32::MAX)
                ==> r matches Err(AppError::Internal(_)),
            r is Err ==> final(self)@ == old(self)@,
            r matches Ok((u, p)) ==> {
                &&& u.id == old(self)@.next_user_id
                &&& u.name == req.name
                &&& u.username == req.username
                &&& u.email == req.email
                &&& u.password == req.password
                &&& u.date_created == now
                &&& u.date_updated is None
                &&& p.id == old(self)@.next_profile_id
                &&& p.user_id == u.id
                &&& p.address == Some(req.address)
                &&& p.mobile_number == Some(req.mobile_number)
                &&& final(self)@.users == old(self)@.users.push(u)
                &&& final(self)@.profiles == old(self)@.profiles.push(p)
                &&& final(self)@.next_user_id == old(self)@.next_user_id + 1
                &&& final(self)@.next_profile_id == old(self)@.next_profile_id + 1
                &&& final(self)@.same_but_users(old(self)@)
            },
            r is Ok <==> !old(self)@.username_taken(req.username@) && !old(
                self,
            )@.email_taken(req.email@) && old(self)@.next_user_id < i32::MAX && old(
                self,
            )@.next_profile_id < i32::MAX,
    {
        let (name_used, email_used) = self.identity_clash(&req.username, &req.email, 0);
        proof {
            assert(name_used == old(self)@.username_taken(req.username@));
            assert(email_used == old(self)@.email_taken(req.email@));
        }
        if name_used {
            return Err(conflict("Username already exists."));
        }
        if email_used {
            return Err(conflict("Email already exists."));
        }
        if self.next_user_id == i32::MAX || self.next_profile_id == i32::MAX {
            return Err(exhausted());
        }
        let ghost pre = self@;
        assert(pre.wf());
        let user = User {
            id: self.next_user_id,
            name: req.name,
            username: req.username,
            email: req.email,
            password: req.password,
            date_created: now,
            date_updated: None,
        };
        let profile = UserProfile {
            id: self.next_profile_id,
            user_id: user.id,
            address: Some(req.address),
            mobile_number: Some(req.mobile_number),
        };
        let out = (user.clone(), profile.clone());
        self.users.push(user);
        self.profiles.push(profile);
        self.next_user_id = self.next_user_id + 1;
        self.next_profile_id = self.next_profile_id + 1;
        proof {
            let v = self@;
            let n = pre.users.len() as int;
            assert(v.labels == pre.labels && v.tasks == pre.tasks && v.task_labels == pre.task_labels);
            assert(v.users[n].id == pre.next_user_id);
            assert(v.has_user(pre.next_user_id));
            assert forall|i: int| 0 <= i < pre.users.len() implies v.users[i] == pre.users[i] by {}
            assert forall|uid: i32| pre.has_user(uid) implies v.has_user(uid) by {
                let i = choose|i: int| 0 <= i < pre.users.len() && #[trigger] pre.users[i].id == uid;
                assert(v.users[i].id == uid);
            }
            assert(v.users_wf());
            assert forall|i: int| 0 <= i < v.profiles.len() implies v.has_user(
                #[trigger] v.profiles[i].user_id,
            ) by {
                if i < pre.profiles.len() {
                    assert(pre.has_user(pre.profiles[i].user_id));
                }
            }
            assert(v.profiles_wf());
            assert forall|i: int| 0 <= i < v.tasks.len() implies v.has_user(
                #[trigger] v.tasks[i].user_id,
            ) by {
                assert(pre.has_user(pre.tasks[i].user_id));
            }
            assert(v.tasks_wf());
            assert forall|i: int| 0 <= i < v.labels.len() implies v.has_user(
                #[trigger] v.labels[i].user_id,
            ) by {
                assert(pre.has_user(pre.labels[i].user_id));
            }
            assert(v.labels_wf());
            assert(v.links_wf());
        }
        Ok(out)
    }
}

} // verus!
