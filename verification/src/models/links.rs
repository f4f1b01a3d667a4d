//! Links and the table that holds them.
//!
//! The table is a model of the link storage, kept in memory: it keeps
//! short codes unique and answers every change to a link that is not there
//! with `RowNotFound`. It knows nothing of ownership.

use vstd::prelude::*;
use chrono::DateTime;
use crate::outcome::DbError;
use crate::text::option_text;

verus! {

/// A link as contracts see it.
pub struct LinkView {
    pub short: Seq<char>,
    pub long: Seq<char>,
    pub notes: Seq<char>,
    pub created_at: int,
    pub created_by: int,
}

/// A link: a short code that stands for a long destination.
#[derive(Debug)]
pub struct Link {
    /// Unique among all links; never changes.
    pub short: String,
    /// The destination.
    pub long: String,
    pub notes: String,
    /// Seconds since the Unix epoch, set once at creation.
    pub created_at: i64,
    /// The id of the user that created the link. It stays as it is when
    /// that user is deleted.
    pub created_by: i32,
}

impl View for Link {
    type V = LinkView;

    open spec fn view(&self) -> LinkView {
        LinkView {
            short: self.short@,
            long: self.long@,
            notes: self.notes@,
            created_at: self.created_at as int,
            created_by: self.created_by as int,
        }
    }
}

impl Clone for Link {
    fn clone(&self) -> (r: Link)
        ensures
            r@ == self@,
    {
        Link {
            short: self.short.clone(),
            long: self.long.clone(),
            notes: self.notes.clone(),
            created_at: self.created_at,
            created_by: self.created_by,
        }
    }
}

impl LinkView {
    pub open spec fn with_long(self, long: Seq<char>) -> LinkView {
        LinkView { long, ..self }
    }
}

/// The date of a time in UTC, written as month, day and two-digit year
/// with `/` between them; `None` for a time that is out of the range of
/// dates.
pub uninterp spec fn utc_date_text(seconds: int) -> Option<Seq<char>>;

/// Calls `DateTime::from_timestamp` and `DateTime::format` of `chrono`
/// with the format `%D`. The date is a function of the time alone, so it
/// has a name.
#[verifier::external_body]
fn format_utc_date(seconds: i64) -> (r: Option<String>)
    ensures
        option_text(r) == utc_date_text(seconds as int),
{
    match DateTime::from_timestamp(seconds, 0) {
        Some(time) => Some(time.format("%D").to_string()),
        None => None,
    }
}

/// The date on which a link was created, as listings show it.
pub fn serialize(date: i64) -> (r: Option<String>)
    ensures
        option_text(r) == utc_date_text(date as int),
{
    format_utc_date(date)
}

/// The views of a sequence of links, in order.
pub open spec fn link_views(links: Seq<Link>) -> Seq<LinkView> {
    links.map_values(|l: Link| l@)
}

/// Some link has this short code.
pub open spec fn has_short(rows: Seq<LinkView>, short: Seq<char>) -> bool {
    exists|i: int| 0 <= i < rows.len() && (#[trigger] rows[i]).short == short
}

/// The position of a link with this short code, where there is one.
pub open spec fn index_of_short(rows: Seq<LinkView>, short: Seq<char>) -> int {
    choose|i: int| 0 <= i < rows.len() && (#[trigger] rows[i]).short == short
}

/// What looking for the link with this short code answers.
pub open spec fn lookup_short(rows: Seq<LinkView>, short: Seq<char>) -> Result<LinkView, DbError> {
    if has_short(rows, short) {
        Ok(rows[index_of_short(rows, short)])
    } else {
        Err(DbError::RowNotFound)
    }
}

/// The answer of a lookup as contracts see it.
pub open spec fn found_link_view(found: Result<Link, DbError>) -> Result<LinkView, DbError> {
    match found {
        Ok(link) => Ok(link@),
        Err(e) => Err(e),
    }
}

/// The links that this user created, in the order of the table.
pub open spec fn links_of(rows: Seq<LinkView>, user_id: int) -> Seq<LinkView>
    decreases rows.len(),
{
    if rows.len() == 0 {
        rows
    } else if rows.last().created_by == user_id {
        links_of(rows.drop_last(), user_id).push(rows.last())
    } else {
        links_of(rows.drop_last(), user_id)
    }
}

/// What the table guarantees of its rows: no short code occurs twice.
pub open spec fn distinct_shorts(rows: Seq<LinkView>) -> bool {
    forall|i: int, j: int|
        0 <= i < j < rows.len() ==> (#[trigger] rows[i]).short != (#[trigger] rows[j]).short
}

/// What `Link::insert` answers on a table with these rows.
pub open spec fn insert_link_result(rows: Seq<LinkView>, link: LinkView) -> Result<(), DbError> {
    if has_short(rows, link.short) {
        Err(DbError::UniqueViolation)
    } else {
        Ok(())
    }
}

/// The rows after `Link::insert` on a table with these rows.
pub open spec fn rows_after_insert_link(rows: Seq<LinkView>, link: LinkView) -> Seq<LinkView> {
    if has_short(rows, link.short) {
        rows
    } else {
        rows.push(link)
    }
}

/// What a change to the link with this short code answers.
pub open spec fn change_link_result(rows: Seq<LinkView>, short: Seq<char>) -> Result<(), DbError> {
    if has_short(rows, short) {
        Ok(())
    } else {
        Err(DbError::RowNotFound)
    }
}

/// The rows after `Link::update` on a table with these rows.
pub open spec fn rows_after_update_link(rows: Seq<LinkView>, short: Seq<char>, long: Seq<char>)
    -> Seq<LinkView> {
    if has_short(rows, short) {
        rows.update(index_of_short(rows, short), rows[index_of_short(rows, short)].with_long(long))
    } else {
        rows
    }
}

/// The rows after `Link::delete` on a table with these rows.
pub open spec fn rows_after_delete_link(rows: Seq<LinkView>, short: Seq<char>) -> Seq<LinkView> {
    if has_short(rows, short) {
        rows.remove(index_of_short(rows, short))
    } else {
        rows
    }
}

/// The table of links.
pub struct LinkTable {
    rows: Vec<Link>,
}

impl LinkTable {
    /// The rows, oldest first.
    pub closed spec fn rows(&self) -> Seq<LinkView> {
        link_views(self.rows@)
    }

    /// The table's own guarantees hold.
    pub open spec fn wf(&self) -> bool {
        distinct_shorts(self.rows())
    }

    /// An empty table.
    pub fn new() -> (t: LinkTable)
        ensures
            t.wf(),
            t.rows() == Seq::<LinkView>::empty(),
    {
        let t = LinkTable { rows: Vec::new() };
        assert(t.rows() =~= Seq::<LinkView>::empty());
        t
    }

    fn find_short(&self, short: &str) -> (r: Option<usize>)
        ensures
            match r {
                Some(k) => k < self.rows().len() && self.rows()[k as int].short == short@,
                None => !has_short(self.rows(), short@),
            },
    {
        let mut k: usize = 0;
        while k < self.rows.len()
            invariant
                k <= self.rows.len(),
                forall|i: int| 0 <= i < k ==> (#[trigger] self.rows()[i]).short != short@,
            decreases self.rows.len() - k,
        {
            if crate::text::same_text(self.rows[k].short.as_str(), short) {
                return Some(k);
            }
            k = k + 1;
        }
        None
    }
}

/// In a table without repeated short codes the link with a given short
/// code is the only one.
pub proof fn lemma_index_of_short(rows: Seq<LinkView>, k: int)
    requires
        distinct_shorts(rows),
        0 <= k < rows.len(),
    ensures
        has_short(rows, rows[k].short),
        index_of_short(rows, rows[k].short) == k,
{
    let short = rows[k].short;
    let c = index_of_short(rows, short);
    assert(0 <= c < rows.len() && rows[c].short == short);
    if c < k {
        assert(rows[c].short != rows[k].short);
    } else if k < c {
        assert(rows[k].short != rows[c].short);
    }
}

impl Link {
    /// The link with this short code.
    pub fn get(short: &str, conn: &LinkTable) -> (r: Result<Link, DbError>)
        requires
            conn.wf(),
        ensures
            found_link_view(r) == lookup_short(conn.rows(), short@),
    {
        match conn.find_short(short) {
            Some(k) => {
                proof {
                    lemma_index_of_short(conn.rows(), k as int);
                }
                Ok(conn.rows[k].clone())
            },
            None => Err(DbError::RowNotFound),
        }
    }

    /// All links, oldest first.
    pub fn all(conn: &LinkTable) -> (r: Result<Vec<Link>, DbError>)
        ensures
            r matches Ok(links) && link_views(links@) == conn.rows(),
    {
        let mut links: Vec<Link> = Vec::new();
        let mut k: usize = 0;
        while k < conn.rows.len()
            invariant
                k <= conn.rows.len(),
                link_views(links@) == conn.rows().subrange(0, k as int),
            decreases conn.rows.len() - k,
        {
            let ghost before = links@;
            links.push(conn.rows[k].clone());
            assert(link_views(links@) =~= link_views(before).push(conn.rows()[k as int]));
            assert(link_views(links@) =~= conn.rows().subrange(0, k + 1));
            k = k + 1;
        }
        assert(conn.rows().subrange(0, k as int) =~= conn.rows());
        Ok(links)
    }

    /// The links that this user created, oldest first.
    pub fn all_for_user(user_id: i32, conn: &LinkTable) -> (r: Result<Vec<Link>, DbError>)
        ensures
            r matches Ok(links) && link_views(links@) == links_of(conn.rows(), user_id as int),
    {
        let mut links: Vec<Link> = Vec::new();
        let mut k: usize = 0;
        assert(conn.rows().subrange(0, 0) =~= Seq::<LinkView>::empty());
        assert(link_views(links@) =~= Seq::<LinkView>::empty());
        while k < conn.rows.len()
            invariant
                k <= conn.rows.len(),
                link_views(links@) == links_of(conn.rows().subrange(0, k as int), user_id as int),
            decreases conn.rows.len() - k,
        {
            let ghost before = links@;
            proof {
                assert(conn.rows().subrange(0, k + 1).drop_last() =~= conn.rows().subrange(
                    0,
                    k as int,
                ));
                assert(conn.rows().subrange(0, k + 1).last() == conn.rows()[k as int]);
            }
            if conn.rows[k].created_by == user_id {
                links.push(conn.rows[k].clone());
                assert(link_views(links@) =~= link_views(before).push(conn.rows()[k as int]));
            }
            k = k + 1;
        }
        assert(conn.rows().subrange(0, k as int) =~= conn.rows());
        Ok(links)
    }

    /// Replaces the destination of the link with this short code.
    pub fn update(short: &str, new_long: &str, conn: &mut LinkTable) -> (r: Result<(), DbError>)
        requires
            old(conn).wf(),
        ensures
            final(conn).wf(),
            r == change_link_result(old(conn).rows(), short@),
            final(conn).rows() == rows_after_update_link(old(conn).rows(), short@, new_long@),
    {
        match conn.find_short(short) {
            Some(k) => {
                proof {
                    lemma_index_of_short(conn.rows(), k as int);
                }
                let mut row = conn.rows[k].clone();
                row.long = new_long.to_owned();
                conn.rows.set(k, row);
                assert(conn.rows() =~= old(conn).rows().update(
                    k as int,
                    old(conn).rows()[k as int].with_long(new_long@),
                ));
                assert forall|i: int, j: int| 0 <= i < j < conn.rows().len() implies (
                #[trigger] conn.rows()[i]).short != (#[trigger] conn.rows()[j]).short by {
                    assert(old(conn).rows()[i].short != old(conn).rows()[j].short);
                }
                Ok(())
            },
            None => Err(DbError::RowNotFound),
        }
    }

    /// Adds a link. A short code that is in use is refused with
    /// `UniqueViolation`, and the table stays as it is.
    pub fn insert(link: Link, conn: &mut LinkTable) -> (r: Result<(), DbError>)
        requires
            old(conn).wf(),
        ensures
            final(conn).wf(),
            r == insert_link_result(old(conn).rows(), link@),
            final(conn).rows() == rows_after_insert_link(old(conn).rows(), link@),
    {
        if conn.find_short(link.short.as_str()).is_some() {
            return Err(DbError::UniqueViolation);
        }
        conn.rows.push(link);
        assert(conn.rows() =~= old(conn).rows().push(link@));
        assert forall|i: int, j: int| 0 <= i < j < conn.rows().len() implies (
        #[trigger] conn.rows()[i]).short != (#[trigger] conn.rows()[j]).short by {
            if j < old(conn).rows().len() {
                assert(old(conn).rows()[i].short != old(conn).rows()[j].short);
            } else {
                assert(old(conn).rows()[i].short != link@.short);
            }
        }
        Ok(())
    }

    /// Removes the link with this short code. The other links keep their
    /// order.
    pub fn delete(short: &str, conn: &mut LinkTable) -> (r: Result<(), DbError>)
        requires
            old(conn).wf(),
        ensures
            final(conn).wf(),
            r == change_link_result(old(conn).rows(), short@),
            final(conn).rows() == rows_after_delete_link(old(conn).rows(), short@),
    {
        match conn.find_short(short) {
            Some(k) => {
                proof {
                    lemma_index_of_short(conn.rows(), k as int);
                }
                conn.rows.remove(k);
                assert(conn.rows() =~= old(conn).rows().remove(k as int));
                assert forall|i: int, j: int| 0 <= i < j < conn.rows().len() implies (
                #[trigger] conn.rows()[i]).short != (#[trigger] conn.rows()[j]).short by {
                    let a = if i < k {
                        i
                    } else {
                        i + 1
                    };
                    let b = if j < k {
                        j
                    } else {
                        j + 1
                    };
                    assert(old(conn).rows()[a].short != old(conn).rows()[b].short);
                }
                Ok(())
            },
            None => Err(DbError::RowNotFound),
        }
    }
}

} // verus!
