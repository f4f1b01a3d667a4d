//! What holds of the links whatever requests arrive: who may change a
//! link, that a created link is found under its short code, and that every
//! link in the table has a short code and a destination that a link may
//! have.

use vstd::prelude::*;
use crate::auth::resolve;
use crate::models::links::{
    distinct_shorts, has_short, index_of_short, lemma_index_of_short, lookup_short, LinkView,
};
use crate::models::users::UserView;
use crate::outcome::{DbError, ErrorKind, FailureView};
use crate::routes::client::link_answer;
use crate::routes::links::{
    delete_step, edit_denial, has_scheme, new_link_row, shorten_step, update_step, valid_link,
    NewLinkView, UpdateLongView,
};

verus! {

/// Every link has a short code and a destination that a link may have.
pub open spec fn all_valid(links: Seq<LinkView>) -> bool {
    forall|i: int| 0 <= i < links.len() ==> valid_link((#[trigger] links[i]).short, links[i].long)
}

/// A link is changed or deleted by the user that created it and by every
/// link manager, and by nobody else: anyone else is forbidden.
pub proof fn lemma_owner_or_manager_edits(user: UserView, link: LinkView)
    ensures
        edit_denial(user, Ok(link)) is None <==> user.manage_links || link.created_by == user.id,
        edit_denial(user, Ok(link)) matches Some(f) ==> f.kind == ErrorKind::Forbidden,
{
}

/// Deleting and changing a link that exists: its owner and a link manager
/// succeed; another user is forbidden and the table stays as it is.
pub proof fn lemma_edit_by_ownership(
    update: UpdateLongView,
    token: Option<Seq<char>>,
    users: Seq<UserView>,
    links: Seq<LinkView>,
)
    requires
        resolve(token, users) is Ok,
        has_short(links, update.short),
        has_scheme(update.long),
    ensures
        ({
            let current = resolve(token, users)->Ok_0;
            let link = links[index_of_short(links, update.short)];
            let deleted = delete_step(update.short, token, users, links);
            let updated = update_step(update, token, users, links);
            if current.manage_links || link.created_by == current.id {
                &&& deleted.result is Ok
                &&& deleted.links == links.remove(index_of_short(links, update.short))
                &&& updated.result is Ok
                &&& updated.links == links.update(
                    index_of_short(links, update.short),
                    link.with_long(update.long),
                )
            } else {
                &&& deleted.result matches Err(f) && f.kind == ErrorKind::Forbidden
                &&& deleted.links == links
                &&& updated.result matches Err(g) && g.kind == ErrorKind::Forbidden
                &&& updated.links == links
            }
        }),
{
}

/// A short code that is reserved, or not alphanumeric, and a destination
/// without scheme make a creation fail as a validation error, and the
/// table stays as it is.
pub proof fn lemma_invalid_link_is_refused(
    new_link: NewLinkView,
    now: int,
    token: Option<Seq<char>>,
    users: Seq<UserView>,
    links: Seq<LinkView>,
)
    requires
        resolve(token, users) is Ok,
        !valid_link(new_link.short, new_link.long),
    ensures
        shorten_step(new_link, now, token, users, links).result matches Err(f) && f.kind
            == ErrorKind::Validation,
        shorten_step(new_link, now, token, users, links).links == links,
{
}

/// A valid link with a free short code is created for every identity; a
/// short code that is in use is a conflict. A created link belongs to the
/// identity and is found under its short code, with its destination.
pub proof fn lemma_created_link_is_found(
    new_link: NewLinkView,
    now: int,
    token: Option<Seq<char>>,
    users: Seq<UserView>,
    links: Seq<LinkView>,
)
    requires
        distinct_shorts(links),
        resolve(token, users) is Ok,
        valid_link(new_link.short, new_link.long),
    ensures
        ({
            let current = resolve(token, users)->Ok_0;
            let step = shorten_step(new_link, now, token, users, links);
            if has_short(links, new_link.short) {
                &&& step.result matches Err(f) && f.kind == ErrorKind::Conflict
                &&& step.links == links
            } else {
                &&& step.result == Ok::<Seq<char>, FailureView>(new_link.long)
                &&& distinct_shorts(step.links)
                &&& lookup_short(step.links, new_link.short) == Ok::<LinkView, DbError>(
                    new_link_row(new_link, now, current.id),
                )
                &&& link_answer(lookup_short(step.links, new_link.short)) matches Ok(redirect)
                    && redirect.to == new_link.long
            }
        }),
{
    let current = resolve(token, users)->Ok_0;
    let step = shorten_step(new_link, now, token, users, links);
    if !has_short(links, new_link.short) {
        let link = new_link_row(new_link, now, current.id);
        let after = links.push(link);
        assert(step.links == after);
        assert forall|i: int, j: int| 0 <= i < j < after.len() implies (#[trigger] after[i]).short
            != (#[trigger] after[j]).short by {
            if j < links.len() {
                assert(links[i].short != links[j].short);
            } else {
                assert(links[i].short != new_link.short);
            }
        }
        assert(after[links.len() as int] == link);
        lemma_index_of_short(after, links.len() as int);
    }
}

/// Creating, changing and deleting links keep every link valid.
pub proof fn lemma_links_stay_valid(
    new_link: NewLinkView,
    update: UpdateLongView,
    short: Seq<char>,
    now: int,
    token: Option<Seq<char>>,
    users: Seq<UserView>,
    links: Seq<LinkView>,
)
    requires
        all_valid(links),
    ensures
        all_valid(shorten_step(new_link, now, token, users, links).links),
        all_valid(update_step(update, token, users, links).links),
        all_valid(delete_step(short, token, users, links).links),
{
    let created = shorten_step(new_link, now, token, users, links).links;
    assert forall|i: int| 0 <= i < created.len() implies valid_link(
        (#[trigger] created[i]).short,
        created[i].long,
    ) by {
        if i < links.len() {
            assert(valid_link(links[i].short, links[i].long));
        }
    }
    let updated = update_step(update, token, users, links).links;
    assert forall|i: int| 0 <= i < updated.len() implies valid_link(
        (#[trigger] updated[i]).short,
        updated[i].long,
    ) by {
        assert(valid_link(links[i].short, links[i].long));
    }
    let deleted = delete_step(short, token, users, links).links;
    assert forall|i: int| 0 <= i < deleted.len() implies valid_link(
        (#[trigger] deleted[i]).short,
        deleted[i].long,
    ) by {
        if deleted != links {
            let k = index_of_short(links, short);
            let a = if i < k {
                i
            } else {
                i + 1
            };
            assert(valid_link(links[a].short, links[a].long));
        } else {
            assert(valid_link(links[i].short, links[i].long));
        }
    }
}

} // verus!
