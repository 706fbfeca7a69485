//! Users, and the administrative operations on them.

use vstd::prelude::*;
use dashmap::DashMap;
use crate::error::RobustMQError;
use crate::maps::{entry_views, is_enumeration_of, user_map_contents, user_map_entries};
use crate::query::filter::{filter_test, filtered};
use crate::query::laws::{
    lemma_sorted_holds_given, lemma_sorting_keeps_length, listing_page, listing_total,
};
use crate::query::page::{lemma_page_bounds, page_start};
use crate::query::sort::sorted_by;
use crate::query::{
    apply_filters, apply_pagination, apply_sorting, build_query_params, optional_texts_of,
    query_params, text_of, QueryOptionsView, Queryable,
};
use crate::response::{AdminServerResponse, PageReplyData, CODE_FAILED, CODE_OK};
use crate::text::str_eq;

verus! {

/// A user of the broker as the directory of users keeps it.
#[derive(Clone, Debug, PartialEq, Eq)]
pub struct MqttUser {
    pub username: String,
    pub password: String,
    pub is_superuser: bool,
}

/// The mathematical content of an [`MqttUser`].
pub struct MqttUserView {
    pub username: Seq<char>,
    pub password: Seq<char>,
    pub is_superuser: bool,
}

impl View for MqttUser {
    type V = MqttUserView;

    open spec fn view(&self) -> MqttUserView {
        MqttUserView {
            username: self.username@,
            password: self.password@,
            is_superuser: self.is_superuser,
        }
    }
}

/// A user as a listing shows it: the name and the rank, never the password.
#[derive(Clone, Debug, PartialEq, Eq)]
pub struct UserListRow {
    pub username: String,
    pub is_superuser: bool,
}

/// The mathematical content of a [`UserListRow`].
pub struct UserListRowView {
    pub username: Seq<char>,
    pub is_superuser: bool,
}

impl View for UserListRow {
    type V = UserListRowView;

    open spec fn view(&self) -> UserListRowView {
        UserListRowView { username: self.username@, is_superuser: self.is_superuser }
    }
}

/// The one field under which a row of users can be filtered and sorted.
pub open spec fn username_field() -> Seq<char> {
    "username"@
}

impl Queryable for UserListRow {
    open spec fn field(&self, name: Seq<char>) -> Option<Seq<char>> {
        if name == username_field() {
            Some(self.username@)
        } else {
            None
        }
    }

    fn get_field_str(&self, field: &str) -> (value: Option<String>) {
        if str_eq(field, "username") {
            Some(self.username.clone())
        } else {
            None
        }
    }
}

/// A request for a page of the listing of users.
#[derive(Clone, Debug, PartialEq, Eq)]
pub struct UserListReq {
    pub page: u32,
    pub limit: u32,
    pub sort_field: Option<String>,
    pub sort_by: Option<String>,
    pub filter_field: Option<String>,
    pub filter_values: Option<Vec<String>>,
    pub exact_match: Option<bool>,
}

impl UserListReq {
    /// The options that this request asks for.
    pub open spec fn options(&self) -> QueryOptionsView {
        query_params(
            self.page as nat,
            self.limit as nat,
            text_of(self.sort_field),
            text_of(self.sort_by),
            text_of(self.filter_field),
            optional_texts_of(self.filter_values),
            self.exact_match,
        )
    }
}

/// A request to create a user.
#[derive(Clone, Debug, PartialEq, Eq)]
pub struct CreateUserReq {
    pub username: String,
    pub password: String,
    pub is_superuser: bool,
}

/// A request to delete a user.
#[derive(Clone, Debug, PartialEq, Eq)]
pub struct DeleteUserReq {
    pub username: String,
}

/// The row that a listing shows of a user.
pub open spec fn row_of(user: MqttUserView) -> UserListRowView {
    UserListRowView { username: user.username, is_superuser: user.is_superuser }
}

/// The mathematical content of each user.
pub open spec fn user_views(users: Seq<MqttUser>) -> Seq<MqttUserView> {
    users.map_values(|user: MqttUser| user@)
}

/// The mathematical content of each row.
pub open spec fn row_views(rows: Seq<UserListRow>) -> Seq<UserListRowView> {
    rows.map_values(|row: UserListRow| row@)
}

/// The rows of the given users, one for each, in the same sequence.
pub open spec fn rows_of(users: Seq<MqttUserView>) -> Seq<UserListRowView> {
    users.map_values(|user: MqttUserView| row_of(user))
}

/// Whether `reply` is the page that `options` asks for of the listing of
/// `users`.
pub open spec fn is_user_page(
    users: Seq<MqttUserView>,
    options: QueryOptionsView,
    reply: PageReplyData<Vec<UserListRow>>,
) -> bool {
    exists|rows: Seq<UserListRow>|
        {
            &&& #[trigger] row_views(rows) == rows_of(users)
            &&& reply.data@ == listing_page(rows, options)
            &&& reply.total_count == listing_total(rows, options)
        }
}

/// Turns users into the rows that a listing shows of them. A row has no
/// place for the password, so none gets into a listing.
pub fn user_rows(users: Vec<MqttUser>) -> (rows: Vec<UserListRow>)
    ensures
        row_views(rows@) == rows_of(user_views(users@)),
{
    let ghost all = users@;
    let mut rows: Vec<UserListRow> = Vec::new();
    for user in it: users
        invariant
            it.seq() == all,
            rows.len() == it.index(),
            forall|k: int| 0 <= k < rows.len() ==> (#[trigger] rows[k])@ == row_of(all[k]@),
    {
        rows.push(UserListRow { username: user.username, is_superuser: user.is_superuser });
    }
    rows
}

/// The page that `params` asks for of the listing of `users`, in a
/// successful reply.
pub fn list_users(params: UserListReq, users: Vec<MqttUser>) -> (reply: AdminServerResponse<
    PageReplyData<Vec<UserListRow>>,
>)
    ensures
        reply.spec_code() == CODE_OK,
        is_user_page(user_views(users@), params.options(), reply.spec_data()),
{
    let options = build_query_params(
        params.page,
        params.limit,
        params.sort_field,
        params.sort_by,
        params.filter_field,
        params.filter_values,
        params.exact_match,
    );
    let rows = user_rows(users);
    let ghost all = rows@;
    let passed = apply_filters(rows, &options);
    let sorted = apply_sorting(passed, &options);
    let pagination = apply_pagination(sorted, &options);
    let page = PageReplyData { data: pagination.0, total_count: pagination.1 };
    proof {
        lemma_sorting_keeps_length(filtered(all, options@), options@);
    }
    AdminServerResponse::ok(page)
}

/// The users of a run of map entries, without their keys.
fn entry_values(entries: Vec<(String, MqttUser)>) -> (users: Vec<MqttUser>)
    ensures
        users@.len() == entries@.len(),
        forall|k: int| 0 <= k < users@.len() ==> #[trigger] users@[k] == entries@[k].1,
{
    let ghost all = entries@;
    let mut users: Vec<MqttUser> = Vec::new();
    for entry in it: entries
        invariant
            it.seq() == all,
            users.len() == it.index(),
            forall|k: int| 0 <= k < users.len() ==> #[trigger] users[k] == all[k].1,
    {
        users.push(entry.1);
    }
    users
}

/// The users of a run of entries, as far as contracts go.
pub open spec fn listed_users(entries: Seq<(Seq<char>, MqttUserView)>) -> Seq<MqttUserView> {
    entries.map_values(|entry: (Seq<char>, MqttUserView)| entry.1)
}

/// Answers a request for a page of the listing of users, from what the
/// directory of users gave when it was asked for all of them.
///
/// A directory that failed is answered by a failed reply with the message
/// of its error. A map of users is answered by the page that
/// [`list_users`] cuts out of it. A map yields its entries in no fixed
/// sequence, so the page is that of one of the enumerations of the map.
pub fn user_list(
    params: UserListReq,
    users: Result<DashMap<String, MqttUser>, RobustMQError>,
) -> (reply: Result<
    AdminServerResponse<PageReplyData<Vec<UserListRow>>>,
    AdminServerResponse<String>,
>)
    ensures
        match users {
            Ok(map) => reply is Ok && reply->Ok_0.spec_code() == CODE_OK && exists|
                entries: Seq<(Seq<char>, MqttUserView)>,
            |
                is_enumeration_of(entries, user_map_contents(map)) && #[trigger] is_user_page(
                    listed_users(entries),
                    params.options(),
                    reply->Ok_0.spec_data(),
                ),
            Err(e) => reply is Err && reply->Err_0.spec_code() == CODE_FAILED
                && reply->Err_0.spec_data()@ == e.message(),
        },
{
    match users {
        Ok(map) => {
            let entries = user_map_entries(map);
            let ghost listed = entry_views(entries@);
            let users = entry_values(entries);
            assert(user_views(users@) =~= listed_users(listed));
            Ok(list_users(params, users))
        },
        Err(e) => Err(AdminServerResponse::err(e.to_string())),
    }
}

/// The user that a request for creation asks the directory to save.
pub fn user_create_request(params: CreateUserReq) -> (user: MqttUser)
    ensures
        user@ == (MqttUserView {
            username: params.username@,
            password: params.password@,
            is_superuser: params.is_superuser,
        }),
{
    MqttUser {
        username: params.username,
        password: params.password,
        is_superuser: params.is_superuser,
    }
}

/// The name of the user that a request for deletion asks the directory to
/// delete.
pub fn user_delete_request(params: DeleteUserReq) -> (username: String)
    ensures
        username@ == params.username@,
{
    params.username
}

/// Whether `reply` tells the outcome of a mutation: the word `success`
/// under code 0 where it went through, the message of the error under code
/// 100 where it did not.
pub open spec fn is_mutation_reply(
    outcome: Result<(), RobustMQError>,
    reply: AdminServerResponse<String>,
) -> bool {
    match outcome {
        Ok(_) => reply.spec_code() == CODE_OK && reply.spec_data()@ == "success"@,
        Err(e) => reply.spec_code() == CODE_FAILED && reply.spec_data()@ == e.message(),
    }
}

/// Answers a request to create a user, from what the directory of users
/// said when it was asked to save that user.
pub fn user_create(outcome: Result<(), RobustMQError>) -> (reply: AdminServerResponse<String>)
    ensures
        is_mutation_reply(outcome, reply),
{
    match outcome {
        Ok(_) => AdminServerResponse::success(),
        Err(e) => AdminServerResponse::err(e.to_string()),
    }
}

/// Answers a request to delete a user, from what the directory of users
/// said when it was asked to delete that user.
pub fn user_delete(outcome: Result<(), RobustMQError>) -> (reply: AdminServerResponse<String>)
    ensures
        is_mutation_reply(outcome, reply),
{
    match outcome {
        Ok(_) => AdminServerResponse::success(),
        Err(e) => AdminServerResponse::err(e.to_string()),
    }
}

/// No password gets into a listing: for users that differ in nothing but
/// their passwords, every page of the listing is the same.
pub proof fn lemma_listing_ignores_passwords(
    users: Seq<MqttUserView>,
    others: Seq<MqttUserView>,
    options: QueryOptionsView,
    reply: PageReplyData<Vec<UserListRow>>,
)
    requires
        users.len() == others.len(),
        forall|i: int|
            0 <= i < users.len() ==> (#[trigger] users[i]).username == others[i].username
                && users[i].is_superuser == others[i].is_superuser,
        is_user_page(users, options, reply),
    ensures
        is_user_page(others, options, reply),
{
    assert(rows_of(users) =~= rows_of(others));
}

/// Every row of a page shows one of the users, by name and rank.
pub proof fn lemma_page_shows_users(
    users: Seq<MqttUserView>,
    options: QueryOptionsView,
    reply: PageReplyData<Vec<UserListRow>>,
    k: int,
)
    requires
        is_user_page(users, options, reply),
        0 <= k < reply.data@.len(),
    ensures
        exists|i: int| 0 <= i < users.len() && reply.data@[k]@ == row_of(#[trigger] users[i]),
{
    let rows = choose|rows: Seq<UserListRow>|
        {
            &&& #[trigger] row_views(rows) == rows_of(users)
            &&& reply.data@ == listing_page(rows, options)
            &&& reply.total_count == listing_total(rows, options)
        };
    let passed = filtered(rows, options);
    let sorted = sorted_by(passed, options);
    lemma_sorting_keeps_length(passed, options);
    lemma_page_bounds(options.page, options.limit, sorted.len());
    let row = reply.data@[k];
    let at = page_start(options.page, options.limit, sorted.len()) + k;
    lemma_sorted_holds_given(passed, options, at);
    rows.lemma_filter_contains_rev(filter_test::<UserListRow>(options), row);
    let i = choose|i: int| 0 <= i < rows.len() && rows[i] == row;
    assert(row_views(rows).len() == rows.len() && rows_of(users).len() == users.len());
    assert(rows_of(users)[i] == row_of(users[i]));
}

} // verus!
