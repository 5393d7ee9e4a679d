//! The values bound to a statement's numbered placeholders, collected in
//! `sqlx`'s Postgres argument list.
use vstd::prelude::*;
use sqlx::postgres::PgArguments;
use sqlx::types::Uuid;
use sqlx::Arguments;

verus! {

#[verifier::external_type_specification]
#[verifier::external_body]
pub struct ExPgArguments(PgArguments);

/// A bound value: its kind (text, null or UUID), its text, and its UUID as a
/// 128-bit number.
pub type BoundValue = (u8, Seq<char>, u128);

/// A text value.
pub open spec fn text_arg(s: Seq<char>) -> BoundValue {
    (0, s, 0)
}

/// A SQL `NULL`.
pub open spec fn null_arg() -> BoundValue {
    (1, Seq::empty(), 0)
}

/// A UUID value.
pub open spec fn uuid_arg(id: u128) -> BoundValue {
    (2, Seq::empty(), id)
}

/// An optional text: the text when there is one, `NULL` when not.
pub open spec fn opt_text_arg(s: Option<String>) -> BoundValue {
    match s {
        Some(t) => text_arg(t@),
        None => null_arg(),
    }
}

/// The values an argument list holds, in the order they were added: the
/// value added i-th is bound to the placeholder `$(i + 1)`.
pub uninterp spec fn pg_bound(args: PgArguments) -> Seq<BoundValue>;

/// Calls `PgArguments::default`: an empty argument list.
#[verifier::external_body]
pub(crate) fn pg_args_new() -> (r: PgArguments)
    ensures
        pg_bound(r) == Seq::<BoundValue>::empty(),
{
    PgArguments::default()
}

/// Calls `Arguments::add` on the argument list with a text value: the value
/// is added after the others.
#[verifier::external_body]
pub(crate) fn pg_add_text(args: &mut PgArguments, value: &str)
    ensures
        pg_bound(*final(args)) == pg_bound(*old(args)).push(text_arg(value@)),
{
    args.add(value);
}

/// Calls `Arguments::add` on the argument list with an optional text: the
/// text, or `NULL` when there is none, is added after the others.
#[verifier::external_body]
pub(crate) fn pg_add_opt_text(args: &mut PgArguments, value: &Option<String>)
    ensures
        pg_bound(*final(args)) == pg_bound(*old(args)).push(opt_text_arg(*value)),
{
    args.add(value);
}

/// Calls `Arguments::add` on the argument list with the UUID whose 128-bit
/// number is `id` (`Uuid::from_u128`): it is added after the others.
#[verifier::external_body]
pub(crate) fn pg_add_uuid(args: &mut PgArguments, id: u128)
    ensures
        pg_bound(*final(args)) == pg_bound(*old(args)).push(uuid_arg(id)),
{
    args.add(Uuid::from_u128(id));
}

/// A statement and the values bound to its placeholders.
pub struct BoundStatement {
    pub sql: String,
    pub args: PgArguments,
}

/// The values of `n` rows, the values of row `i` being `row(i)`, one row
/// after the other.
pub open spec fn rows_args(n: nat, row: spec_fn(nat) -> Seq<BoundValue>) -> Seq<BoundValue>
    decreases n,
{
    if n == 0 {
        Seq::empty()
    } else {
        rows_args((n - 1) as nat, row) + row((n - 1) as nat)
    }
}

/// Where `n` rows of `w` values each are laid one after the other, there are
/// `w * n` values, and value `c` of row `i` stands at `w * i + c`.
pub proof fn lemma_rows_args_at(n: nat, w: nat, row: spec_fn(nat) -> Seq<BoundValue>)
    requires
        forall|i: nat| i < n ==> (#[trigger] row(i)).len() == w,
    ensures
        rows_args(n, row).len() == w * n,
        forall|i: nat, c: nat|
            i < n && c < w ==> rows_args(n, row)[(w * i + c) as int] == #[trigger] row(i)[c as int],
    decreases n,
{
    if n > 0 {
        let m = (n - 1) as nat;
        lemma_rows_args_at(m, w, row);
        assert(row(m).len() == w);
        assert(w * n == w * m + w) by (nonlinear_arith)
            requires
                m == n - 1,
        ;
        assert forall|i: nat, c: nat| i < n && c < w implies rows_args(n, row)[(w * i + c) as int]
            == #[trigger] row(i)[c as int] by {
            if i < m {
                assert(w * i + c < w * m) by (nonlinear_arith)
                    requires
                        i < m,
                        c < w,
                ;
            } else {
                assert(i == m);
            }
        }
    } else {
        assert(w * n == 0) by (nonlinear_arith)
            requires
                n == 0,
        ;
    }
}

} // verus!
