//! The paged menu listing: the two statements (the rows of one page and the
//! count of all matching rows) that a search builds, with each filter's value
//! bound to a numbered placeholder.
use vstd::prelude::*;
use sqlx::{Execute, Postgres, QueryBuilder};
use crate::menu::SearchReq;
use crate::menu_service::has_infix;
use crate::pg_args::{pg_bound, text_arg, BoundStatement, BoundValue};
use crate::text::decimal;

verus! {

/// A Postgres statement under construction: `sqlx::QueryBuilder` holds its
/// text and the values bound to its placeholders.
#[verifier::external_body]
pub struct StatementBuilder(QueryBuilder<'static, Postgres>);

/// The SQL text a statement builder holds so far.
pub uninterp spec fn builder_sql(q: StatementBuilder) -> Seq<char>;

/// The values bound to a statement builder's placeholders, in order.
pub uninterp spec fn builder_binds(q: StatementBuilder) -> Seq<Seq<char>>;

/// Whether a statement builder still takes text and values: it does until
/// its statement is built.
pub uninterp spec fn builder_open(q: StatementBuilder) -> bool;

/// Calls `sqlx::QueryBuilder::new`: the builder starts with `init` as its
/// text, with no value bound, and takes more.
#[verifier::external_body]
fn builder_new(init: &str) -> (q: StatementBuilder)
    ensures
        builder_sql(q) == init@,
        builder_binds(q) == Seq::<Seq<char>>::empty(),
        builder_open(q),
{
    StatementBuilder(QueryBuilder::new(init.to_string()))
}

/// Calls `sqlx::QueryBuilder::push`: `sql` is appended to the text as it is.
#[verifier::external_body]
fn builder_push(q: &mut StatementBuilder, sql: &str)
    requires
        builder_open(*old(q)),
    ensures
        builder_sql(*final(q)) == builder_sql(*old(q)) + sql@,
        builder_binds(*final(q)) == builder_binds(*old(q)),
        builder_open(*final(q)),
{
    q.0.push(sql);
}

/// Calls `sqlx::QueryBuilder::push_bind`: `value` is bound as the next
/// argument, and its Postgres placeholder, `$` and the argument's number
/// (counting from one), is appended to the text.
#[verifier::external_body]
fn builder_push_bind(q: &mut StatementBuilder, value: String)
    requires
        builder_open(*old(q)),
    ensures
        builder_binds(*final(q)) == builder_binds(*old(q)).push(value@),
        builder_sql(*final(q)) == builder_sql(*old(q)) + seq!['$'] + decimal(
            builder_binds(*final(q)).len(),
        ),
        builder_open(*final(q)),
{
    q.0.push_bind(value);
}

/// The values `vs` bound as text, in order.
pub open spec fn text_args(vs: Seq<Seq<char>>) -> Seq<BoundValue> {
    vs.map_values(|v: Seq<char>| text_arg(v))
}

/// Calls `sqlx::QueryBuilder::build` and takes the statement's text
/// (`Execute::sql`) and its argument list (`Execute::take_arguments`): the
/// text is the builder's, and the arguments are the values bound to it, each
/// a text. The builder takes values as long as it is open, and building it
/// hands its arguments over, so they are there to take.
#[verifier::external_body]
fn builder_finish(q: StatementBuilder) -> (r: BoundStatement)
    requires
        builder_open(q),
    ensures
        r.sql@ == builder_sql(q),
        pg_bound(r.args) == text_args(builder_binds(q)),
{
    let mut builder = q.0;
    let mut query = builder.build();
    let sql = query.sql().to_string();
    let args = query.take_arguments().unwrap_or_default();
    BoundStatement { sql, args }
}

/// A filter of the listing: the text before its placeholder, the value bound
/// to the placeholder, and the text after it.
pub type Filter = (Seq<char>, Seq<char>, Seq<char>);

/// The filter made of `prefix`, `value` and `suffix` when the search gives a
/// value, and none when it does not.
pub open spec fn optional_filter(prefix: Seq<char>, value: Option<String>, suffix: Seq<char>) -> Seq<
    Filter,
> {
    match value {
        Some(v) => seq![(prefix, v@, suffix)],
        None => Seq::empty(),
    }
}

/// The filters of a menu search, in the order they are applied: the name
/// (a substring match), the method, the status (matched against the
/// component), the type (matched against the api), and the time bounds.
pub open spec fn menu_filters(s: SearchReq) -> Seq<Filter> {
    optional_filter(" and menu_name like concat('%', "@, s.menu_name, ", '%')"@)
        + optional_filter(" and method = '"@, s.method, "'"@)
        + optional_filter(" and component = '"@, s.status, "'"@)
        + optional_filter(" and api = '"@, s.menu_type, "'"@)
        + optional_filter(" and begin_time <= '"@, s.begin_time, "'"@)
        + optional_filter(" and end_time >= '"@, s.end_time, "'"@)
}

/// A search's filters follow its fields: a filter on the name (a substring
/// match), the method, the status (against the component), the type
/// (against the api), the start or the end time is there exactly when the
/// search gives that field, with the field's value as the value it binds.
#[verifier::rlimit(80)]
#[verifier::spinoff_prover]
pub proof fn lemma_filters_follow_search(s: SearchReq)
    ensures
        forall|j: int|
            0 <= j < menu_filters(s).len() && (#[trigger] menu_filters(s)[j]).0 == " and menu_name like concat('%', "@ ==> s.menu_name is Some
                && menu_filters(s)[j].1 == s.menu_name->0@ && menu_filters(s)[j].2 == ", '%')"@,
        s.menu_name is Some ==> exists|j: int|
            0 <= j < menu_filters(s).len() && #[trigger] menu_filters(s)[j] == (" and menu_name like concat('%', "@, s.menu_name->0@, ", '%')"@),
        forall|j: int|
            0 <= j < menu_filters(s).len() && (#[trigger] menu_filters(s)[j]).0 == " and method = '"@ ==> s.method is Some
                && menu_filters(s)[j].1 == s.method->0@ && menu_filters(s)[j].2 == "'"@,
        s.method is Some ==> exists|j: int|
            0 <= j < menu_filters(s).len() && #[trigger] menu_filters(s)[j] == (" and method = '"@, s.method->0@, "'"@),
        forall|j: int|
            0 <= j < menu_filters(s).len() && (#[trigger] menu_filters(s)[j]).0 == " and component = '"@ ==> s.status is Some
                && menu_filters(s)[j].1 == s.status->0@ && menu_filters(s)[j].2 == "'"@,
        s.status is Some ==> exists|j: int|
            0 <= j < menu_filters(s).len() && #[trigger] menu_filters(s)[j] == (" and component = '"@, s.status->0@, "'"@),
        forall|j: int|
            0 <= j < menu_filters(s).len() && (#[trigger] menu_filters(s)[j]).0 == " and api = '"@ ==> s.menu_type is Some
                && menu_filters(s)[j].1 == s.menu_type->0@ && menu_filters(s)[j].2 == "'"@,
        s.menu_type is Some ==> exists|j: int|
            0 <= j < menu_filters(s).len() && #[trigger] menu_filters(s)[j] == (" and api = '"@, s.menu_type->0@, "'"@),
        forall|j: int|
            0 <= j < menu_filters(s).len() && (#[trigger] menu_filters(s)[j]).0 == " and begin_time <= '"@ ==> s.begin_time is Some
                && menu_filters(s)[j].1 == s.begin_time->0@ && menu_filters(s)[j].2 == "'"@,
        s.begin_time is Some ==> exists|j: int|
            0 <= j < menu_filters(s).len() && #[trigger] menu_filters(s)[j] == (" and begin_time <= '"@, s.begin_time->0@, "'"@),
        forall|j: int|
            0 <= j < menu_filters(s).len() && (#[trigger] menu_filters(s)[j]).0 == " and end_time >= '"@ ==> s.end_time is Some
                && menu_filters(s)[j].1 == s.end_time->0@ && menu_filters(s)[j].2 == "'"@,
        s.end_time is Some ==> exists|j: int|
            0 <= j < menu_filters(s).len() && #[trigger] menu_filters(s)[j] == (" and end_time >= '"@, s.end_time->0@, "'"@),
{
    reveal_strlit(" and menu_name like concat('%', ");
    reveal_strlit(" and method = '");
    reveal_strlit(" and component = '");
    reveal_strlit(" and api = '");
    reveal_strlit(" and begin_time <= '");
    reveal_strlit(" and end_time >= '");
    reveal_strlit("'");
    reveal_strlit(", '%')");
    let fs = menu_filters(s);
    let o1 = optional_filter(" and menu_name like concat('%', "@, s.menu_name, ", '%')"@);
    let o2 = optional_filter(" and method = '"@, s.method, "'"@);
    let o3 = optional_filter(" and component = '"@, s.status, "'"@);
    let o4 = optional_filter(" and api = '"@, s.menu_type, "'"@);
    let o5 = optional_filter(" and begin_time <= '"@, s.begin_time, "'"@);
    let o6 = optional_filter(" and end_time >= '"@, s.end_time, "'"@);
    assert(fs == o1 + o2 + o3 + o4 + o5 + o6);
    let p1 = " and menu_name like concat('%', "@;
    let p2 = " and method = '"@;
    let p3 = " and component = '"@;
    let p4 = " and api = '"@;
    let p5 = " and begin_time <= '"@;
    let p6 = " and end_time >= '"@;
    assert(p1 != p2 && p1 != p3 && p1 != p4 && p1 != p5 && p1 != p6) by {
        assert(p1.len() != p2.len() && p1.len() != p3.len() && p1.len() != p4.len());
        assert(p1.len() != p5.len() && p1.len() != p6.len());
    }
    assert(p2 != p3 && p2 != p4 && p2 != p5 && p2 != p6) by {
        assert(p2.len() != p3.len() && p2.len() != p4.len() && p2.len() != p5.len());
        assert(p2[5] != p6[5]);
    }
    assert(p3 != p4 && p3 != p5 && p3 != p6) by {
        assert(p3.len() != p4.len() && p3.len() != p5.len());
        assert(p3[5] != p6[5]);
    }
    assert(p4 != p5 && p4 != p6) by {
        assert(p4.len() != p5.len() && p4.len() != p6.len());
    }
    assert(p5 != p6) by {
        assert(p5.len() != p6.len());
    }
    let a2 = o1 + o2;
    let a3 = a2 + o3;
    let a4 = a3 + o4;
    let a5 = a4 + o5;
    assert(fs == a5 + o6);
    if s.menu_name is Some {
        assert(fs[0] == (p1, s.menu_name->0@, ", '%')"@));
    }
    if s.method is Some {
        assert(fs[o1.len() as int] == (p2, s.method->0@, "'"@));
    }
    if s.status is Some {
        assert(fs[a2.len() as int] == (p3, s.status->0@, "'"@));
    }
    if s.menu_type is Some {
        assert(fs[a3.len() as int] == (p4, s.menu_type->0@, "'"@));
    }
    if s.begin_time is Some {
        assert(fs[a4.len() as int] == (p5, s.begin_time->0@, "'"@));
    }
    if s.end_time is Some {
        assert(fs[a5.len() as int] == (p6, s.end_time->0@, "'"@));
    }
}

/// The filters of an optional search: none without one.
pub open spec fn search_filters(search: Option<SearchReq>) -> Seq<Filter> {
    match search {
        Some(s) => menu_filters(s),
        None => Seq::empty(),
    }
}

/// The text that `filters` append to a statement: each filter's text around
/// the placeholder `$i` of its value, the i-th bound.
pub open spec fn filter_sql(filters: Seq<Filter>) -> Seq<char>
    decreases filters.len(),
{
    if filters.len() == 0 {
        Seq::empty()
    } else {
        let f = filters.last();
        filter_sql(filters.drop_last()) + f.0 + seq!['$'] + decimal(filters.len()) + f.2
    }
}

/// The values that `filters` bind, in order.
pub open spec fn filter_values(filters: Seq<Filter>) -> Seq<Seq<char>> {
    filters.map_values(|f: Filter| f.1)
}

/// The text of filter `j` with its placeholder: `$(j + 1)` between the
/// filter's text before and after it.
pub open spec fn placed_filter(f: Filter, j: int) -> Seq<char> {
    f.0 + seq!['$'] + decimal((j + 1) as nat) + f.2
}

/// Filter `j` stands in the appended text with the placeholder `$(j + 1)`,
/// and that placeholder is bound to the filter's value, as a text.
pub proof fn lemma_filter_placeholders(fs: Seq<Filter>)
    ensures
        text_args(filter_values(fs)).len() == fs.len(),
        forall|j: int|
            0 <= j < fs.len() ==> text_args(filter_values(fs))[j] == text_arg((#[trigger] fs[j]).1)
                && has_infix(filter_sql(fs), placed_filter(fs[j], j)),
    decreases fs.len(),
{
    if fs.len() > 0 {
        let init = fs.drop_last();
        lemma_filter_placeholders(init);
        let head = filter_sql(init);
        let n = fs.len();
        assert(filter_sql(fs) == head + placed_filter(fs[n - 1], n - 1));
        assert forall|j: int| 0 <= j < fs.len() implies text_args(filter_values(fs))[j] == text_arg(
            (#[trigger] fs[j]).1,
        ) && has_infix(filter_sql(fs), placed_filter(fs[j], j)) by {
            let p = placed_filter(fs[j], j);
            if j < n - 1 {
                assert(init[j] == fs[j]);
                let k = choose|k: int|
                    0 <= k && k + p.len() <= head.len() && #[trigger] head.subrange(k, k + p.len())
                        == p;
                assert(filter_sql(fs).subrange(k, k + p.len()) =~= head.subrange(k, k + p.len()));
            } else {
                let k = head.len() as int;
                assert(filter_sql(fs).subrange(k, k + p.len()) =~= p);
            }
        }
    }
}

/// The start of the statement that reads a page of menus.
pub open spec fn menu_rows_sql() -> Seq<char> {
    "select cast(id as varchar) ,  cast(pid as varchar), path, auth_type,menu_name, icon, menu_type, query, order_sort, status, api, method, component, visible, is_cache, log_method, data_cache_method, is_frame, data_scope, i18n, remark from public.sys_menu where deleted_at is null "@
}

/// The start of the statement that counts the matching menus.
pub open spec fn menu_count_sql() -> Seq<char> {
    "select count(1) as count from public.sys_menu where deleted_at is null "@
}

/// Appends the filter made of `prefix`, `value` and `suffix` to `q`, whose
/// text so far is `init` followed by the filters `applied`.
fn push_filter(
    q: &mut StatementBuilder,
    prefix: &str,
    value: &Option<String>,
    suffix: &str,
    Ghost(init): Ghost<Seq<char>>,
    Ghost(applied): Ghost<Seq<Filter>>,
)
    requires
        builder_open(*old(q)),
        builder_sql(*old(q)) == init + filter_sql(applied),
        builder_binds(*old(q)) == filter_values(applied),
    ensures
        builder_open(*final(q)),
        builder_sql(*final(q)) == init + filter_sql(
            applied + optional_filter(prefix@, *value, suffix@),
        ),
        builder_binds(*final(q)) == filter_values(
            applied + optional_filter(prefix@, *value, suffix@),
        ),
{
    match value {
        Some(v) => {
            builder_push(q, prefix);
            builder_push_bind(q, v.clone());
            builder_push(q, suffix);
            proof {
                let next = applied + optional_filter(prefix@, *value, suffix@);
                assert(next.drop_last() =~= applied);
                assert(next.last() == (prefix@, v@, suffix@));
                assert(filter_values(next) =~= filter_values(applied).push(v@));
                assert(builder_sql(*q) =~= init + filter_sql(next));
            }
        },
        None => {
            proof {
                assert(applied + optional_filter(prefix@, *value, suffix@) =~= applied);
            }
        },
    }
}

/// The two statements of a menu listing.
pub struct MenuPageStatements {
    /// Reads the matching menus.
    pub rows: BoundStatement,
    /// Counts the matching menus.
    pub count: BoundStatement,
}

/// The statements of a menu listing for `search_req`: each starts with its
/// fixed text and carries the search's filters, each value bound to its own
/// placeholder, in the same order in both.
pub fn page_statements(search_req: &Option<SearchReq>) -> (r: MenuPageStatements)
    ensures
        r.rows.sql@ == menu_rows_sql() + filter_sql(search_filters(*search_req)),
        r.count.sql@ == menu_count_sql() + filter_sql(search_filters(*search_req)),
        pg_bound(r.rows.args) == text_args(filter_values(search_filters(*search_req))),
        pg_bound(r.count.args) == text_args(filter_values(search_filters(*search_req))),
{
    let mut count = builder_new(
        "select count(1) as count from public.sys_menu where deleted_at is null ",
    );
    let mut rows = builder_new(
        "select cast(id as varchar) ,  cast(pid as varchar), path, auth_type,menu_name, icon, menu_type, query, order_sort, status, api, method, component, visible, is_cache, log_method, data_cache_method, is_frame, data_scope, i18n, remark from public.sys_menu where deleted_at is null ",
    );
    if let Some(filter) = search_req {
        let ghost rows_init = builder_sql(rows);
        let ghost count_init = builder_sql(count);
        let ghost f0: Seq<Filter> = Seq::empty();
        proof {
            assert(rows_init + filter_sql(f0) =~= rows_init);
            assert(count_init + filter_sql(f0) =~= count_init);
            assert(filter_values(f0) =~= Seq::<Seq<char>>::empty());
        }
        let name_prefix = " and menu_name like concat('%', ";
        let name_suffix = ", '%')";
        push_filter(&mut rows, name_prefix, &filter.menu_name, name_suffix, Ghost(rows_init), Ghost(f0));
        push_filter(&mut count, name_prefix, &filter.menu_name, name_suffix, Ghost(count_init), Ghost(f0));
        let ghost f1 = f0 + optional_filter(name_prefix@, filter.menu_name, name_suffix@);
        let method_prefix = " and method = '";
        push_filter(&mut rows, method_prefix, &filter.method, "'", Ghost(rows_init), Ghost(f1));
        push_filter(&mut count, method_prefix, &filter.method, "'", Ghost(count_init), Ghost(f1));
        let ghost f2 = f1 + optional_filter(method_prefix@, filter.method, "'"@);
        let status_prefix = " and component = '";
        push_filter(&mut rows, status_prefix, &filter.status, "'", Ghost(rows_init), Ghost(f2));
        push_filter(&mut count, status_prefix, &filter.status, "'", Ghost(count_init), Ghost(f2));
        let ghost f3 = f2 + optional_filter(status_prefix@, filter.status, "'"@);
        let type_prefix = " and api = '";
        push_filter(&mut rows, type_prefix, &filter.menu_type, "'", Ghost(rows_init), Ghost(f3));
        push_filter(&mut count, type_prefix, &filter.menu_type, "'", Ghost(count_init), Ghost(f3));
        let ghost f4 = f3 + optional_filter(type_prefix@, filter.menu_type, "'"@);
        let begin_prefix = " and begin_time <= '";
        push_filter(&mut rows, begin_prefix, &filter.begin_time, "'", Ghost(rows_init), Ghost(f4));
        push_filter(&mut count, begin_prefix, &filter.begin_time, "'", Ghost(count_init), Ghost(f4));
        let ghost f5 = f4 + optional_filter(begin_prefix@, filter.begin_time, "'"@);
        let end_prefix = " and end_time >= '";
        push_filter(&mut rows, end_prefix, &filter.end_time, "'", Ghost(rows_init), Ghost(f5));
        push_filter(&mut count, end_prefix, &filter.end_time, "'", Ghost(count_init), Ghost(f5));
        let ghost f6 = f5 + optional_filter(end_prefix@, filter.end_time, "'"@);
        proof {
            assert(f6 =~= menu_filters(*filter));
        }
    } else {
        proof {
            assert(menu_rows_sql() + filter_sql(Seq::<Filter>::empty()) =~= menu_rows_sql());
            assert(menu_count_sql() + filter_sql(Seq::<Filter>::empty()) =~= menu_count_sql());
            assert(filter_values(Seq::<Filter>::empty()) =~= Seq::<Seq<char>>::empty());
        }
    }
    MenuPageStatements { rows: builder_finish(rows), count: builder_finish(count) }
}

} // verus!
