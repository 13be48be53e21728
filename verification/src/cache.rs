//! The registry of transformation matrices: templates kept for reuse, each
//! with the columns it was made for and how well it has served.
//!
//! A success rate is held in parts per billion: `1_000_000_000` stands for
//! a rate of one. Two candidates are ranked by their products of score and
//! success rate, which are compared exactly, as fractions.

use vstd::prelude::*;
use crate::clock::{now_millis, now_rfc3339};
use crate::number::{decimal, i64_to_string};
use crate::text::{
    str_to_lowercase, char_is_alphanumeric, str_views, split, split_str, join, join_strs, chars_of,
    string_of, str_eq, concat_strs, clone_strings, lemma_str_views_push,
};
use crate::transform::dsl::matrix::{TransformationMatrix, MatrixView, Rules};
use crate::transform::dsl::operations::option_text;

verus! {

/// A success rate of one, in parts per billion.
pub const RATE_ONE: u32 = 1_000_000_000;

/// A stored matrix with what is known of its use.
#[derive(Debug, PartialEq)]
pub struct StoredMatrix {
    /// Unique identifier.
    pub id: String,
    /// Human-readable name.
    pub name: String,
    /// The transformation matrix.
    pub matrix: TransformationMatrix,
    /// The columns of the file that the matrix was made for.
    pub csv_columns: Vec<String>,
    /// When the template was stored.
    pub created_at: String,
    /// When the template was last tried.
    pub last_used: Option<String>,
    /// Success rate in parts per billion, an exponential moving average.
    pub success_rate: u32,
    /// How often the template was tried.
    pub use_count: u32,
}

/// The content of a [`StoredMatrix`].
pub struct Stored {
    pub id: Seq<char>,
    pub name: Seq<char>,
    pub matrix: MatrixView,
    pub csv_columns: Seq<Seq<char>>,
    pub created_at: Seq<char>,
    pub last_used: Option<Seq<char>>,
    pub success_rate: nat,
    pub use_count: nat,
}

impl View for StoredMatrix {
    type V = Stored;

    open spec fn view(&self) -> Stored {
        Stored {
            id: self.id@,
            name: self.name@,
            matrix: self.matrix@,
            csv_columns: str_views(self.csv_columns@),
            created_at: self.created_at@,
            last_used: option_text(self.last_used),
            success_rate: self.success_rate as nat,
            use_count: self.use_count as nat,
        }
    }
}

impl Clone for StoredMatrix {
    fn clone(&self) -> (r: Self)
        ensures
            r@ == self@,
    {
        StoredMatrix {
            id: self.id.clone(),
            name: self.name.clone(),
            matrix: self.matrix.clone(),
            csv_columns: clone_strings(&self.csv_columns),
            created_at: self.created_at.clone(),
            last_used: match &self.last_used {
                Some(t) => Some(t.clone()),
                None => None,
            },
            success_rate: self.success_rate,
            use_count: self.use_count,
        }
    }
}

/// How much of a template's columns a file has: `matched` out of `total`.
/// The score is their quotient, and zero where `total` is zero.
#[derive(Debug, PartialEq, Eq, Clone, Copy)]
pub struct Compatibility {
    pub matched: usize,
    pub total: usize,
}

impl Compatibility {
    /// Whether the score is above one half.
    pub open spec fn above_half(&self) -> bool {
        2 * self.matched > self.total
    }

    /// Whether the score is above one half.
    pub fn is_above_half(&self) -> (r: bool)
        ensures
            r == self.above_half(),
    {
        self.matched > self.total || self.matched > self.total - self.matched
    }

    /// This score times `rate` is strictly more than the other score times
    /// `other_rate`: the two products compared as fractions, without division.
    pub open spec fn product_above(&self, rate: u32, other: &Compatibility, other_rate: u32)
        -> bool {
        (self.matched as int) * (rate as int) * (other.total as int) > (other.matched as int) * (
        other_rate as int) * (self.total as int)
    }

    /// Whether this score times `rate` is strictly more than the other score
    /// times `other_rate`.
    pub fn scores_above(&self, rate: u32, other: &Compatibility, other_rate: u32) -> (r: bool)
        ensures
            r == self.product_above(rate, other, other_rate),
    {
        let ghost m1 = self.matched as int;
        let ghost s1 = rate as int;
        let ghost t1 = self.total as int;
        let ghost m2 = other.matched as int;
        let ghost s2 = other_rate as int;
        let ghost t2 = other.total as int;
        if self.total == 0 {
            assert(m2 * s2 * t1 == 0) by (nonlinear_arith)
                requires
                    t1 == 0,
            ;
            assert((m1 * s1 * t2 > 0) <==> (m1 != 0 && s1 != 0 && t2 != 0)) by (nonlinear_arith)
                requires
                    m1 >= 0,
                    s1 >= 0,
                    t2 >= 0,
            ;
            return self.matched != 0 && rate != 0 && other.total != 0;
        }
        if other.total == 0 {
            assert(m1 * s1 * t2 == 0) by (nonlinear_arith)
                requires
                    t2 == 0,
            ;
            assert(m2 * s2 * t1 >= 0) by (nonlinear_arith)
                requires
                    m2 >= 0,
                    s2 >= 0,
                    t1 >= 0,
            ;
            return false;
        }
        assert(0 <= m1 * s1 <= 0xFFFF_FFFF_FFFF_FFFF * 0xFFFF_FFFF) by (nonlinear_arith)
            requires
                0 <= m1 <= 0xFFFF_FFFF_FFFF_FFFF,
                0 <= s1 <= 0xFFFF_FFFF,
        ;
        assert(0 <= m2 * s2 <= 0xFFFF_FFFF_FFFF_FFFF * 0xFFFF_FFFF) by (nonlinear_arith)
            requires
                0 <= m2 <= 0xFFFF_FFFF_FFFF_FFFF,
                0 <= s2 <= 0xFFFF_FFFF,
        ;
        let a: u128 = (self.matched as u128) * (rate as u128);
        let c: u128 = (other.matched as u128) * (other_rate as u128);
        let b: u128 = self.total as u128;
        let d: u128 = other.total as u128;
        let q1 = a / b;
        let r1 = a % b;
        let q2 = c / d;
        let r2 = c % d;
        proof {
            lemma_compare_fractions(a as int, b as int, c as int, d as int);
        }
        if q1 != q2 {
            q1 > q2
        } else {
            assert(0 <= r1 * d <= 0xFFFF_FFFF_FFFF_FFFF * 0xFFFF_FFFF_FFFF_FFFF) by (nonlinear_arith)
                requires
                    0 <= r1 <= 0xFFFF_FFFF_FFFF_FFFF,
                    0 <= d <= 0xFFFF_FFFF_FFFF_FFFF,
            ;
            assert(0 <= r2 * b <= 0xFFFF_FFFF_FFFF_FFFF * 0xFFFF_FFFF_FFFF_FFFF) by (nonlinear_arith)
                requires
                    0 <= r2 <= 0xFFFF_FFFF_FFFF_FFFF,
                    0 <= b <= 0xFFFF_FFFF_FFFF_FFFF,
            ;
            r1 * d > r2 * b
        }
    }
}

/// Two fractions compared without multiplying out in full: the one is more
/// than the other where its whole part is more, or where the whole parts are
/// equal and what is left over is more.
pub proof fn lemma_compare_fractions(a: int, b: int, c: int, d: int)
    requires
        a >= 0,
        c >= 0,
        b > 0,
        d > 0,
    ensures
        0 <= a % b < b,
        0 <= c % d < d,
        (a * d > c * b) <==> (a / b > c / d || (a / b == c / d && (a % b) * d > (c % d) * b)),
{
    let q1 = a / b;
    let r1 = a % b;
    let q2 = c / d;
    let r2 = c % d;
    vstd::arithmetic::div_mod::lemma_fundamental_div_mod(a, b);
    vstd::arithmetic::div_mod::lemma_fundamental_div_mod(c, d);
    vstd::arithmetic::div_mod::lemma_mod_pos_bound(a, b);
    vstd::arithmetic::div_mod::lemma_mod_pos_bound(c, d);
    let m = b * d;
    assert(m > 0) by (nonlinear_arith)
        requires
            m == b * d,
            b > 0,
            d > 0,
    ;
    assert(a * d == q1 * m + r1 * d) by (nonlinear_arith)
        requires
            a == b * q1 + r1,
            m == b * d,
    ;
    assert(c * b == q2 * m + r2 * b) by (nonlinear_arith)
        requires
            c == d * q2 + r2,
            m == b * d,
    ;
    assert(0 <= r1 * d < m) by (nonlinear_arith)
        requires
            0 <= r1 < b,
            d > 0,
            m == b * d,
    ;
    assert(0 <= r2 * b < m) by (nonlinear_arith)
        requires
            0 <= r2 < d,
            b > 0,
            m == b * d,
    ;
    if q1 > q2 {
        assert(q1 * m >= q2 * m + m) by (nonlinear_arith)
            requires
                q1 >= q2 + 1,
                m > 0,
        ;
    }
    if q1 < q2 {
        assert(q2 * m >= q1 * m + m) by (nonlinear_arith)
            requires
                q2 >= q1 + 1,
                m > 0,
        ;
    }
}

/// The columns in lowercase.
pub open spec fn folded(columns: Seq<Seq<char>>) -> Seq<Seq<char>> {
    Seq::new(columns.len(), |i: int| str_to_lowercase(columns[i]))
}

/// How many of the first `n` stored columns the file has, without regard to case.
pub open spec fn matched_upto(stored: Seq<Seq<char>>, csv: Seq<Seq<char>>, n: int) -> nat
    decreases n,
{
    if n <= 0 || n > stored.len() {
        0
    } else {
        matched_upto(stored, csv, n - 1) + if folded(csv).contains(
            str_to_lowercase(stored[n - 1]),
        ) {
            1nat
        } else {
            0nat
        }
    }
}

/// How many of the stored columns the file has, without regard to case.
pub open spec fn matched_count(stored: Seq<Seq<char>>, csv: Seq<Seq<char>>) -> nat {
    matched_upto(stored, csv, stored.len() as int)
}

/// Whether a template made for `stored` is a candidate for a file with the
/// columns `csv`: the file has more than half of them.
pub open spec fn is_compatible(stored: Seq<Seq<char>>, csv: Seq<Seq<char>>) -> bool {
    2 * matched_count(stored, csv) > stored.len()
}

/// The success rate after one more trial: nine tenths of the old one, and one
/// tenth more for a success.
pub open spec fn next_rate(rate: nat, success: bool) -> nat {
    if success {
        rate * 9 / 10 + 100_000_000
    } else {
        rate * 9 / 10
    }
}

/// The count after one more trial; it stops at the largest number it can hold.
pub open spec fn next_count(count: nat) -> nat {
    if count >= u32::MAX {
        u32::MAX as nat
    } else {
        count + 1
    }
}

/// A template after a trial at the time `now`.
pub open spec fn after_trial(s: Stored, success: bool, now: Seq<char>) -> Stored {
    Stored {
        success_rate: next_rate(s.success_rate, success),
        last_used: Some(now),
        use_count: next_count(s.use_count),
        ..s
    }
}

/// A success rate stays between zero and one, and a success never lowers it
/// below what a failure would leave.
pub proof fn lemma_rate_bounds(rate: nat, success: bool)
    requires
        rate <= RATE_ONE,
    ensures
        next_rate(rate, success) <= RATE_ONE,
        next_rate(rate, false) <= rate,
        next_rate(rate, true) == next_rate(rate, false) + 100_000_000,
{
}

/// The score does not depend on the case of any column name: two templates and
/// two files whose columns agree in lowercase match in the same number of columns.
pub proof fn lemma_compatibility_ignores_case(
    stored_a: Seq<Seq<char>>,
    csv_a: Seq<Seq<char>>,
    stored_b: Seq<Seq<char>>,
    csv_b: Seq<Seq<char>>,
)
    requires
        folded(stored_a) == folded(stored_b),
        folded(csv_a) == folded(csv_b),
    ensures
        matched_count(stored_a, csv_a) == matched_count(stored_b, csv_b),
        stored_a.len() == stored_b.len(),
        is_compatible(stored_a, csv_a) == is_compatible(stored_b, csv_b),
{
    assert(folded(stored_a).len() == stored_a.len());
    assert(folded(stored_b).len() == stored_b.len());
    lemma_matched_ignores_case(stored_a, csv_a, stored_b, csv_b, stored_a.len() as int);
}

proof fn lemma_matched_ignores_case(
    stored_a: Seq<Seq<char>>,
    csv_a: Seq<Seq<char>>,
    stored_b: Seq<Seq<char>>,
    csv_b: Seq<Seq<char>>,
    n: int,
)
    requires
        folded(stored_a) == folded(stored_b),
        folded(csv_a) == folded(csv_b),
        stored_a.len() == stored_b.len(),
        0 <= n <= stored_a.len(),
    ensures
        matched_upto(stored_a, csv_a, n) == matched_upto(stored_b, csv_b, n),
    decreases n,
{
    if n > 0 {
        lemma_matched_ignores_case(stored_a, csv_a, stored_b, csv_b, n - 1);
        assert(folded(stored_a)[n - 1] == str_to_lowercase(stored_a[n - 1]));
        assert(folded(stored_b)[n - 1] == str_to_lowercase(stored_b[n - 1]));
    }
}

/// The number of matches is at most the number of stored columns.
pub proof fn lemma_matched_bound(stored: Seq<Seq<char>>, csv: Seq<Seq<char>>, n: int)
    requires
        0 <= n <= stored.len(),
    ensures
        matched_upto(stored, csv, n) <= n,
    decreases n,
{
    if n > 0 {
        lemma_matched_bound(stored, csv, n - 1);
    }
}

/// A candidate in the ranking: a template by its position in the registry,
/// with its match counts and its success rate.
pub struct Ranked {
    pub index: int,
    pub matched: nat,
    pub total: nat,
    pub rate: nat,
}

/// `x` ranks strictly above `y`: its score times its success rate is the
/// larger product. The products `matched / total * rate` are compared as
/// fractions, each side multiplied by the other's total.
pub open spec fn outranks(x: Ranked, y: Ranked) -> bool {
    x.matched * x.rate * y.total > y.matched * y.rate * x.total
}

/// The place of a new candidate in a ranking: before the first one that it
/// ranks strictly above, so after all of the same rank.
pub open spec fn slot(list: Seq<Ranked>, c: Ranked, p: int) -> int
    decreases list.len() - p,
{
    if p < 0 || p >= list.len() {
        list.len() as int
    } else if outranks(c, list[p]) {
        p
    } else {
        slot(list, c, p + 1)
    }
}

/// The ranking with one more candidate at its place.
pub open spec fn rank_in(list: Seq<Ranked>, c: Ranked) -> Seq<Ranked> {
    list.insert(slot(list, c, 0), c)
}

/// The template at `i` as a candidate for a file with the columns `csv`.
pub open spec fn candidate(reg: Seq<Stored>, csv: Seq<Seq<char>>, i: int) -> Ranked {
    Ranked {
        index: i,
        matched: matched_count(reg[i].csv_columns, csv),
        total: reg[i].csv_columns.len(),
        rate: reg[i].success_rate,
    }
}

/// The ranking of the candidates among the first `n` templates.
pub open spec fn ranked_upto(reg: Seq<Stored>, csv: Seq<Seq<char>>, n: int) -> Seq<Ranked>
    decreases n,
{
    if n <= 0 || n > reg.len() {
        Seq::empty()
    } else if is_compatible(reg[n - 1].csv_columns, csv) {
        rank_in(ranked_upto(reg, csv, n - 1), candidate(reg, csv, n - 1))
    } else {
        ranked_upto(reg, csv, n - 1)
    }
}

/// The candidates for a file with the columns `csv`, best first: the
/// templates whose score is above one half, by falling product of score and
/// success rate, and in the order of the registry where the products are
/// equal.
pub open spec fn ranked(reg: Seq<Stored>, csv: Seq<Seq<char>>) -> Seq<Ranked> {
    ranked_upto(reg, csv, reg.len() as int)
}

/// Ranks fall along the list: no candidate ranks strictly above one that
/// stands before it.
pub open spec fn falling(list: Seq<Ranked>) -> bool {
    forall|a: int, b: int|
        0 <= a < b < list.len() ==> !outranks(#[trigger] list[b], #[trigger] list[a])
}

/// Every candidate of the list was made for some column.
pub open spec fn all_with_columns(list: Seq<Ranked>) -> bool {
    forall|a: int| 0 <= a < list.len() ==> (#[trigger] list[a]).total > 0
}

/// The order of ranks goes through: what ranks strictly above a candidate
/// ranks strictly above everything that does not rank above that candidate.
pub proof fn lemma_outranks_through(x: Ranked, y: Ranked, z: Ranked)
    requires
        x.total > 0,
        y.total > 0,
        z.total > 0,
        outranks(x, y),
        !outranks(z, y),
    ensures
        outranks(x, z),
{
    let px = (x.matched * x.rate) as int;
    let py = (y.matched * y.rate) as int;
    let pz = (z.matched * z.rate) as int;
    let tx = x.total as int;
    let ty = y.total as int;
    let tz = z.total as int;
    assert(px * ty > py * tx);
    assert(pz * ty <= py * tz);
    assert(ty * (px * tz) > ty * (pz * tx)) by (nonlinear_arith)
        requires
            px * ty > py * tx,
            pz * ty <= py * tz,
            tx > 0,
            tz > 0,
            px >= 0,
            py >= 0,
            pz >= 0,
    ;
    assert(px * tz > pz * tx) by (nonlinear_arith)
        requires
            ty * (px * tz) > ty * (pz * tx),
            ty > 0,
    ;
}

proof fn lemma_slot(list: Seq<Ranked>, c: Ranked, p: int)
    requires
        0 <= p <= list.len(),
    ensures
        p <= slot(list, c, p) <= list.len(),
        forall|j: int| p <= j < slot(list, c, p) ==> !outranks(c, #[trigger] list[j]),
        slot(list, c, p) < list.len() ==> outranks(c, list[slot(list, c, p)]),
    decreases list.len() - p,
{
    if p < list.len() && !outranks(c, list[p]) {
        lemma_slot(list, c, p + 1);
    }
}

proof fn lemma_rank_in(list: Seq<Ranked>, c: Ranked)
    requires
        falling(list),
        all_with_columns(list),
        c.total > 0,
    ensures
        falling(rank_in(list, c)),
        all_with_columns(rank_in(list, c)),
        rank_in(list, c).len() == list.len() + 1,
        forall|x: Ranked| rank_in(list, c).contains(x) <==> (list.contains(x) || x == c),
{
    lemma_slot(list, c, 0);
    let p = slot(list, c, 0);
    let after = rank_in(list, c);
    assert forall|a: int| 0 <= a < after.len() implies (#[trigger] after[a]).total > 0 by {
        if a < p {
            assert(after[a] == list[a]);
        } else if a > p {
            assert(after[a] == list[a - 1]);
        }
    }
    assert forall|a: int, b: int| 0 <= a < b < after.len() implies !outranks(
        #[trigger] after[b],
        #[trigger] after[a],
    ) by {
        if b < p {
            assert(after[a] == list[a] && after[b] == list[b]);
        } else if b == p {
            assert(after[a] == list[a]);
            assert(!outranks(c, list[a]));
        } else {
            assert(after[b] == list[b - 1]);
            if a < p {
                assert(after[a] == list[a]);
            } else if a == p {
                assert(outranks(c, list[p]));
                if b - 1 > p {
                    assert(!outranks(list[b - 1], list[p]));
                    lemma_outranks_through(c, list[p], list[b - 1]);
                }
            } else {
                assert(after[a] == list[a - 1]);
            }
        }
    }
    assert forall|x: Ranked| after.contains(x) <==> (list.contains(x) || x == c) by {
        if after.contains(x) {
            let k = choose|k: int| 0 <= k < after.len() && after[k] == x;
            if k < p {
                assert(list[k] == x);
            } else if k > p {
                assert(list[k - 1] == x);
            }
        }
        if list.contains(x) {
            let k = choose|k: int| 0 <= k < list.len() && list[k] == x;
            if k < p {
                assert(after[k] == x);
            } else {
                assert(after[k + 1] == x);
            }
        }
        if x == c {
            assert(after[p] == x);
        }
    }
}

/// The ranking holds exactly the compatible templates, each with its own
/// counts and success rate, and ranks fall along it: of two candidates, the
/// one with the larger product of score and success rate stands first.
pub proof fn lemma_ranking(reg: Seq<Stored>, csv: Seq<Seq<char>>, n: int)
    requires
        0 <= n <= reg.len(),
    ensures
        falling(ranked_upto(reg, csv, n)),
        all_with_columns(ranked_upto(reg, csv, n)),
        forall|x: Ranked|
            ranked_upto(reg, csv, n).contains(x) <==> (0 <= x.index < n && is_compatible(
                reg[x.index].csv_columns,
                csv,
            ) && x == candidate(reg, csv, x.index)),
        ranked_upto(reg, csv, n).len() <= n,
    decreases n,
{
    if n > 0 {
        lemma_ranking(reg, csv, n - 1);
        let before = ranked_upto(reg, csv, n - 1);
        let now = ranked_upto(reg, csv, n);
        if is_compatible(reg[n - 1].csv_columns, csv) {
            lemma_matched_bound(
                reg[n - 1].csv_columns,
                csv,
                reg[n - 1].csv_columns.len() as int,
            );
            lemma_rank_in(before, candidate(reg, csv, n - 1));
        }
        assert forall|x: Ranked| now.contains(x) <==> (0 <= x.index < n && is_compatible(
            reg[x.index].csv_columns,
            csv,
        ) && x == candidate(reg, csv, x.index)) by {
            if is_compatible(reg[n - 1].csv_columns, csv) {
                assert(now.contains(x) <==> (before.contains(x) || x == candidate(
                    reg,
                    csv,
                    n - 1,
                )));
            }
            assert(before.contains(x) <==> (0 <= x.index < n - 1 && is_compatible(
                reg[x.index].csv_columns,
                csv,
            ) && x == candidate(reg, csv, x.index)));
        }
    }
}

/// No template stands twice in a ranking.
pub open spec fn distinct_places(list: Seq<Ranked>) -> bool {
    forall|a: int, b: int|
        0 <= a < b < list.len() ==> (#[trigger] list[a]).index != (#[trigger] list[b]).index
}

/// No template stands twice in the ranking, and every place of it points
/// into the registry.
pub proof fn lemma_ranking_places(reg: Seq<Stored>, csv: Seq<Seq<char>>, n: int)
    requires
        0 <= n <= reg.len(),
    ensures
        distinct_places(ranked_upto(reg, csv, n)),
        forall|a: int|
            0 <= a < ranked_upto(reg, csv, n).len() ==> 0 <= (#[trigger] ranked_upto(
                reg,
                csv,
                n,
            )[a]).index < n,
    decreases n,
{
    if n > 0 {
        lemma_ranking_places(reg, csv, n - 1);
        let before = ranked_upto(reg, csv, n - 1);
        let now = ranked_upto(reg, csv, n);
        if is_compatible(reg[n - 1].csv_columns, csv) {
            let c = candidate(reg, csv, n - 1);
            lemma_slot(before, c, 0);
            let p = slot(before, c, 0);
            assert forall|a: int| 0 <= a < now.len() implies 0 <= (#[trigger] now[a]).index
                < n by {
                if a < p {
                    assert(now[a] == before[a]);
                } else if a > p {
                    assert(now[a] == before[a - 1]);
                }
            }
            assert forall|a: int, b: int| 0 <= a < b < now.len() implies (#[trigger] now[a]).index
                != (#[trigger] now[b]).index by {
                if a < p {
                    assert(now[a] == before[a]);
                } else if a > p {
                    assert(now[a] == before[a - 1]);
                }
                if b < p {
                    assert(now[b] == before[b]);
                } else if b > p {
                    assert(now[b] == before[b - 1]);
                }
            }
        }
    }
}

/// No identifier stands twice in a registry.
pub open spec fn distinct_ids(reg: Seq<Stored>) -> bool {
    forall|a: int, b: int| 0 <= a < b < reg.len() ==> (#[trigger] reg[a]).id != (#[trigger] reg[b]).id
}

/// In a registry without a repeated identifier, the search for the identifier
/// of a template finds that template.
pub proof fn lemma_find_own_id(reg: Seq<Stored>, k: int)
    requires
        distinct_ids(reg),
        0 <= k < reg.len(),
    ensures
        find_id(reg, reg[k].id, 0) == k,
{
    lemma_find_id(reg, reg[k].id, 0);
    let i = find_id(reg, reg[k].id, 0);
    if i < k {
        assert(reg[i].id != reg[k].id);
    }
}

/// Whoever stands first in the ranking has the highest rank of all: no
/// compatible template has a larger product of score and success rate.
pub proof fn lemma_best_is_first(reg: Seq<Stored>, csv: Seq<Seq<char>>, i: int)
    requires
        0 <= i < reg.len(),
        is_compatible(reg[i].csv_columns, csv),
    ensures
        ranked(reg, csv).len() > 0,
        !outranks(candidate(reg, csv, i), ranked(reg, csv)[0]),
        matched_count(reg[i].csv_columns, csv) * reg[i].success_rate * ranked(
            reg,
            csv,
        )[0].total <= ranked(reg, csv)[0].matched * ranked(reg, csv)[0].rate
            * reg[i].csv_columns.len(),
{
    lemma_ranking(reg, csv, reg.len() as int);
    let list = ranked(reg, csv);
    let c = candidate(reg, csv, i);
    assert(list.contains(c));
    let k = choose|k: int| 0 <= k < list.len() && list[k] == c;
    if k > 0 {
        assert(!outranks(list[k], list[0]));
    }
}

/// The name in lowercase with a hyphen for every character that is neither a
/// letter nor a digit.
pub open spec fn dashed(name: Seq<char>) -> Seq<char> {
    let low = str_to_lowercase(name);
    Seq::new(
        low.len(),
        |i: int|
            if char_is_alphanumeric(low[i]) {
                low[i]
            } else {
                '-'
            },
    )
}

/// The slug of a name: its runs of letters and digits, in lowercase, joined
/// by single hyphens.
pub open spec fn slug(name: Seq<char>) -> Seq<char> {
    join(split(dashed(name), seq!['-']).filter(|p: Seq<char>| p.len() > 0), seq!['-'])
}

/// The identifier of a template: the slug of its name, a hyphen, and the time
/// in milliseconds since the epoch.
pub open spec fn id_text(name: Seq<char>, timestamp_millis: int) -> Seq<char> {
    slug(name) + seq!['-'] + decimal(timestamp_millis)
}

/// A template as it is first stored: with a success rate of one and never used.
pub open spec fn fresh(
    matrix: MatrixView,
    name: Seq<char>,
    csv_columns: Seq<Seq<char>>,
    timestamp_millis: int,
    created_at: Seq<char>,
) -> Stored {
    Stored {
        id: id_text(name, timestamp_millis),
        name,
        matrix,
        csv_columns,
        created_at,
        last_used: None,
        success_rate: RATE_ONE as nat,
        use_count: 0,
    }
}

/// Position of the first template with the identifier `id`, or the number of
/// templates.
pub open spec fn find_id(reg: Seq<Stored>, id: Seq<char>, i: int) -> int
    decreases reg.len() - i,
{
    if i < 0 || i >= reg.len() {
        reg.len() as int
    } else if reg[i].id == id {
        i
    } else {
        find_id(reg, id, i + 1)
    }
}

/// Storing a template keeps the identifiers of a registry distinct.
pub proof fn lemma_stored_stays_distinct(reg: Seq<Stored>, s: Stored)
    requires
        distinct_ids(reg),
    ensures
        distinct_ids(with_stored(reg, s)),
{
    lemma_find_id(reg, s.id, 0);
    let stored = with_stored(reg, s);
    let i = find_id(reg, s.id, 0);
    assert forall|a: int, b: int| 0 <= a < b < stored.len() implies (#[trigger] stored[a]).id != (
    #[trigger] stored[b]).id by {
        if i < reg.len() {
            assert(stored[a].id == reg[a].id);
            assert(stored[b].id == reg[b].id);
        } else {
            if b < reg.len() {
                assert(stored[a] == reg[a] && stored[b] == reg[b]);
            } else {
                assert(stored[a] == reg[a]);
            }
        }
    }
}

/// A trial keeps the identifiers of a registry distinct.
pub proof fn lemma_tried_stays_distinct(
    reg: Seq<Stored>,
    id: Seq<char>,
    success: bool,
    now: Seq<char>,
)
    requires
        distinct_ids(reg),
    ensures
        distinct_ids(with_trial(reg, id, success, now)),
{
    lemma_find_id(reg, id, 0);
    let tried = with_trial(reg, id, success, now);
    assert forall|a: int, b: int| 0 <= a < b < tried.len() implies (#[trigger] tried[a]).id != (
    #[trigger] tried[b]).id by {
        assert(tried[a].id == reg[a].id);
        assert(tried[b].id == reg[b].id);
    }
}

/// A deletion keeps the identifiers of a registry distinct.
pub proof fn lemma_rest_stays_distinct(reg: Seq<Stored>, id: Seq<char>)
    requires
        distinct_ids(reg),
    ensures
        distinct_ids(without(reg, id)),
{
    lemma_find_id(reg, id, 0);
    let less = without(reg, id);
    let d = find_id(reg, id, 0);
    assert forall|a: int, b: int| 0 <= a < b < less.len() implies (#[trigger] less[a]).id != (
    #[trigger] less[b]).id by {
        if d < reg.len() {
            let x = if a < d {
                a
            } else {
                a + 1
            };
            let y = if b < d {
                b
            } else {
                b + 1
            };
            assert(less[a] == reg[x]);
            assert(less[b] == reg[y]);
        }
    }
}

/// The registry with `s` under its identifier: in place of the template that
/// stood there, or at the end.
pub open spec fn with_stored(reg: Seq<Stored>, s: Stored) -> Seq<Stored> {
    let i = find_id(reg, s.id, 0);
    if i < reg.len() {
        reg.update(i, s)
    } else {
        reg.push(s)
    }
}

/// The registry after a trial of the template `id` at the time `now`; a
/// registry that does not hold the template stays as it is.
pub open spec fn with_trial(reg: Seq<Stored>, id: Seq<char>, success: bool, now: Seq<char>) -> Seq<
    Stored,
> {
    let i = find_id(reg, id, 0);
    if i < reg.len() {
        reg.update(i, after_trial(reg[i], success, now))
    } else {
        reg
    }
}

/// The registry without the template `id`.
pub open spec fn without(reg: Seq<Stored>, id: Seq<char>) -> Seq<Stored> {
    let i = find_id(reg, id, 0);
    if i < reg.len() {
        reg.remove(i)
    } else {
        reg
    }
}

/// The single source columns of the first `n` rules.
pub open spec fn single_sources(rules: Rules, n: int) -> Seq<Seq<char>>
    decreases n,
{
    if n <= 0 || n > rules.len() {
        Seq::empty()
    } else {
        match rules[n - 1].1.source {
            Some(s) => single_sources(rules, n - 1).push(s),
            None => single_sources(rules, n - 1),
        }
    }
}

/// The search for an identifier stops within the registry, at the first
/// template that has the identifier.
pub proof fn lemma_find_id(reg: Seq<Stored>, id: Seq<char>, i: int)
    requires
        0 <= i <= reg.len(),
    ensures
        i <= find_id(reg, id, i) <= reg.len(),
        find_id(reg, id, i) < reg.len() ==> reg[find_id(reg, id, i)].id == id,
        forall|j: int| i <= j < find_id(reg, id, i) ==> (#[trigger] reg[j]).id != id,
    decreases reg.len() - i,
{
    if i < reg.len() && reg[i].id != id {
        lemma_find_id(reg, id, i + 1);
    }
}

/// The slug of a name.
pub fn slugify(name: &str) -> (r: String)
    ensures
        r@ == slug(name@),
{
    let low = name.to_lowercase();
    let chars = chars_of(low.as_str());
    let mut dashed_chars: Vec<char> = Vec::new();
    let mut i: usize = 0;
    while i < chars.len()
        invariant
            i <= chars.len(),
            chars@ == str_to_lowercase(name@),
            dashed_chars@.len() == i,
            forall|j: int| 0 <= j < i ==> dashed_chars@[j] == dashed(name@)[j],
        decreases chars.len() - i,
    {
        let c = chars[i];
        if c.is_alphanumeric() {
            dashed_chars.push(c);
        } else {
            dashed_chars.push('-');
        }
        i += 1;
    }
    assert(dashed_chars@ =~= dashed(name@));
    let text = string_of(&dashed_chars);
    let hyphen = "-";
    proof {
        reveal_strlit("-");
        assert(hyphen@ =~= seq!['-']);
    }
    let pieces = split_str(text.as_str(), hyphen);
    let ghost all = str_views(pieces@);
    let ghost keep = |p: Seq<char>| p.len() > 0;
    let mut kept: Vec<String> = Vec::new();
    let mut k: usize = 0;
    assert(all.subrange(0, 0) =~= Seq::<Seq<char>>::empty());
    assert(str_views(kept@) =~= Seq::<Seq<char>>::empty());
    while k < pieces.len()
        invariant
            k <= pieces.len(),
            all == str_views(pieces@),
            keep == |p: Seq<char>| p.len() > 0,
            str_views(kept@) == all.subrange(0, k as int).filter(keep),
        decreases pieces.len() - k,
    {
        assert(all[k as int] == pieces@[k as int]@);
        proof {
            let a = all.subrange(0, k + 1);
            assert(a.drop_last() =~= all.subrange(0, k as int));
            assert(a.last() == all[k as int]);
            reveal(Seq::filter);
        }
        if pieces[k].as_str().unicode_len() > 0 {
            let piece = pieces[k].clone();
            proof {
                lemma_str_views_push(kept@, piece);
            }
            kept.push(piece);
        }
        k += 1;
    }
    assert(all.subrange(0, pieces.len() as int) =~= all);
    join_strs(&kept, hyphen)
}

/// The identifier of a template named `name` stored at `timestamp_millis`.
pub fn make_id(name: &str, timestamp_millis: i64) -> (r: String)
    ensures
        r@ == id_text(name@, timestamp_millis as int),
{
    let s = slugify(name);
    let hyphen = "-";
    proof {
        reveal_strlit("-");
        assert(hyphen@ =~= seq!['-']);
    }
    let head = concat_strs(s.as_str(), hyphen);
    concat_strs(head.as_str(), i64_to_string(timestamp_millis).as_str())
}

/// The registry: the templates in the order in which they were stored.
pub struct MatrixRegistry {
    matrices: Vec<StoredMatrix>,
}

impl View for MatrixRegistry {
    type V = Seq<Stored>;

    closed spec fn view(&self) -> Seq<Stored> {
        Seq::new(self.matrices@.len(), |i: int| self.matrices@[i]@)
    }
}

impl Default for MatrixRegistry {
    fn default() -> (r: Self)
        ensures
            r@ == Seq::<Stored>::empty(),
    {
        MatrixRegistry::new()
    }
}

/// The message of a deletion that found no template.
pub open spec fn not_found_text(id: Seq<char>) -> Seq<char> {
    "Matrix not found: "@ + id
}

impl MatrixRegistry {
    /// No identifier stands twice.
    pub open spec fn wf(&self) -> bool {
        distinct_ids(self@)
    }

    /// A registry without templates.
    pub fn new() -> (r: Self)
        ensures
            r@ == Seq::<Stored>::empty(),
            r.wf(),
    {
        let r = MatrixRegistry { matrices: Vec::new() };
        assert(r@ =~= Seq::<Stored>::empty());
        r
    }

    /// An identifier for a template named `name`, by the current time.
    pub fn generate_id(&self, name: &str) -> (r: String)
        ensures
            exists|timestamp_millis: int| r@ == #[trigger] id_text(name@, timestamp_millis),
    {
        let timestamp = now_millis();
        let ghost witness = id_text(name@, timestamp as int);
        make_id(name, timestamp)
    }

    /// The number of templates.
    pub fn len(&self) -> (r: usize)
        ensures
            r == self@.len(),
    {
        self.matrices.len()
    }

    /// All templates, in the order of the registry.
    pub fn list(&self) -> (r: Vec<&StoredMatrix>)
        ensures
            r@.len() == self@.len(),
            forall|i: int| 0 <= i < r@.len() ==> (#[trigger] r@[i])@ == self@[i],
    {
        let mut out: Vec<&StoredMatrix> = Vec::new();
        let mut i: usize = 0;
        while i < self.matrices.len()
            invariant
                i <= self.matrices.len(),
                out@.len() == i,
                forall|j: int| 0 <= j < i ==> (#[trigger] out@[j])@ == self.matrices@[j]@,
            decreases self.matrices.len() - i,
        {
            out.push(&self.matrices[i]);
            i += 1;
        }
        assert forall|i: int| 0 <= i < out@.len() implies (#[trigger] out@[i])@ == self@[i] by {
            assert(self@[i] == self.matrices@[i]@);
        }
        out
    }

    /// Position of the template `id`, or the number of templates.
    pub fn position(&self, id: &str) -> (r: usize)
        ensures
            r == find_id(self@, id@, 0),
            r <= self@.len(),
    {
        let mut i: usize = 0;
        while i < self.matrices.len()
            invariant
                i <= self.matrices.len(),
                find_id(self@, id@, 0) == find_id(self@, id@, i as int),
            decreases self.matrices.len() - i,
        {
            assert(self@[i as int] == self.matrices@[i as int]@);
            if str_eq(self.matrices[i].id.as_str(), id) {
                return i;
            }
            i += 1;
        }
        i
    }

    /// The template `id`.
    pub fn get(&self, id: &str) -> (r: Option<&StoredMatrix>)
        ensures
            match r {
                Some(s) => find_id(self@, id@, 0) < self@.len() && s@ == self@[find_id(
                    self@,
                    id@,
                    0,
                )],
                None => find_id(self@, id@, 0) == self@.len(),
            },
    {
        let i = self.position(id);
        if i < self.matrices.len() {
            assert(self@[i as int] == self.matrices@[i as int]@);
            Some(&self.matrices[i])
        } else {
            None
        }
    }

    /// Puts a template into the registry, over the one with the same
    /// identifier or at the end.
    pub fn add(&mut self, stored: StoredMatrix)
        ensures
            final(self)@ == with_stored(old(self)@, stored@),
            old(self).wf() ==> final(self).wf(),
    {
        let ghost before = self@;
        proof {
            if distinct_ids(before) {
                lemma_stored_stays_distinct(before, stored@);
            }
        }
        let i = self.position(stored.id.as_str());
        if i < self.matrices.len() {
            self.matrices[i] = stored;
            assert(self@ =~= before.update(i as int, stored@));
        } else {
            self.matrices.push(stored);
            assert(self@ =~= before.push(stored@));
        }
    }

    /// How much of the stored columns a file with the columns `csv` has.
    pub fn calculate_compatibility(&self, stored: &Vec<String>, csv: &Vec<String>) -> (r:
        Compatibility)
        ensures
            r.total == stored@.len(),
            r.matched == matched_count(str_views(stored@), str_views(csv@)),
            r.matched <= r.total,
            r.above_half() == is_compatible(str_views(stored@), str_views(csv@)),
    {
        let mut csv_lower: Vec<String> = Vec::new();
        let mut k: usize = 0;
        while k < csv.len()
            invariant
                k <= csv.len(),
                csv_lower@.len() == k,
                forall|j: int| 0 <= j < k ==> csv_lower@[j]@ == str_to_lowercase(csv@[j]@),
            decreases csv.len() - k,
        {
            csv_lower.push(csv[k].as_str().to_lowercase());
            k += 1;
        }
        assert(str_views(csv_lower@) =~= folded(str_views(csv@)));
        let mut matched: usize = 0;
        let mut i: usize = 0;
        while i < stored.len()
            invariant
                i <= stored.len(),
                matched <= i,
                str_views(csv_lower@) == folded(str_views(csv@)),
                matched == matched_upto(str_views(stored@), str_views(csv@), i as int),
            decreases stored.len() - i,
        {
            assert(str_views(stored@)[i as int] == stored@[i as int]@);
            let low = stored[i].as_str().to_lowercase();
            if crate::text::contains_str(&csv_lower, low.as_str()) {
                matched += 1;
            }
            i += 1;
        }
        Compatibility { matched, total: stored.len() }
    }

    /// Find the templates that fit a file with the given columns, best
    /// first: those whose score is above one half, by falling product of
    /// score and success rate, the products compared exactly.
    pub fn find_compatible(&self, csv_columns: &Vec<String>) -> (r: Vec<
        (&StoredMatrix, Compatibility),
    >)
        ensures
            r@.len() == ranked(self@, str_views(csv_columns@)).len(),
            forall|k: int|
                0 <= k < r@.len() ==> {
                    let c = #[trigger] ranked(self@, str_views(csv_columns@))[k];
                    &&& 0 <= c.index < self@.len()
                    &&& r@[k].0@ == self@[c.index]
                    &&& r@[k].1.matched == c.matched
                    &&& r@[k].1.total == c.total
                    &&& r@[k].0.success_rate == c.rate
                    &&& r@[k].1.above_half()
                },
            falling(ranked(self@, str_views(csv_columns@))),
    {
        let ghost reg = self@;
        let ghost csv = str_views(csv_columns@);
        let mut order: Vec<(usize, Compatibility, u32)> = Vec::new();
        let mut n: usize = 0;
        while n < self.matrices.len()
            invariant
                n <= self.matrices.len(),
                reg == self@,
                reg.len() == self.matrices@.len(),
                csv == str_views(csv_columns@),
                order@.len() == ranked_upto(reg, csv, n as int).len(),
                forall|k: int|
                    0 <= k < order@.len() ==> {
                        let c = #[trigger] ranked_upto(reg, csv, n as int)[k];
                        &&& order@[k].0 == c.index
                        &&& order@[k].1.matched == c.matched
                        &&& order@[k].1.total == c.total
                        &&& order@[k].2 == c.rate
                    },
            decreases self.matrices.len() - n,
        {
            assert(reg[n as int] == self.matrices@[n as int]@);
            let m = &self.matrices[n];
            let score = self.calculate_compatibility(&m.csv_columns, csv_columns);
            if score.is_above_half() {
                let rate = m.success_rate;
                let ghost list = ranked_upto(reg, csv, n as int);
                let ghost c = candidate(reg, csv, n as int);
                let mut p: usize = 0;
                while p < order.len() && !score.scores_above(rate, &order[p].1, order[p].2)
                    invariant
                        p <= order@.len(),
                        order@.len() == list.len(),
                        c.matched == score.matched,
                        c.total == score.total,
                        c.rate == rate,
                        forall|k: int|
                            0 <= k < order@.len() ==> {
                                let x = #[trigger] list[k];
                                &&& order@[k].1.matched == x.matched
                                &&& order@[k].1.total == x.total
                                &&& order@[k].2 == x.rate
                            },
                        slot(list, c, 0) == slot(list, c, p as int),
                    decreases order@.len() - p,
                {
                    assert(!outranks(c, list[p as int]));
                    p += 1;
                }
                proof {
                    if p < order@.len() {
                        assert(outranks(c, list[p as int]));
                    }
                }
                assert(p == slot(list, c, 0));
                order.insert(p, (n, score, rate));
                proof {
                    let after = rank_in(list, c);
                    assert(ranked_upto(reg, csv, n + 1) == after);
                    assert forall|k: int| 0 <= k < order@.len() implies {
                        let c = #[trigger] after[k];
                        &&& order@[k].0 == c.index
                        &&& order@[k].1.matched == c.matched
                        &&& order@[k].1.total == c.total
                        &&& order@[k].2 == c.rate
                    } by {
                        if k < p {
                            assert(after[k] == list[k]);
                        } else if k > p {
                            assert(after[k] == list[k - 1]);
                        }
                    }
                }
            }
            n += 1;
        }
        proof {
            lemma_ranking(reg, csv, reg.len() as int);
        }
        let ghost list = ranked(reg, csv);
        let mut out: Vec<(&StoredMatrix, Compatibility)> = Vec::new();
        let mut k: usize = 0;
        while k < order.len()
            invariant
                k <= order@.len(),
                reg == self@,
                reg.len() == self.matrices@.len(),
                list == ranked(reg, csv),
                order@.len() == list.len(),
                forall|j: int|
                    0 <= j < order@.len() ==> {
                        let c = #[trigger] list[j];
                        &&& order@[j].0 == c.index
                        &&& order@[j].1.matched == c.matched
                        &&& order@[j].1.total == c.total
                    },
                forall|x: Ranked|
                    list.contains(x) ==> (0 <= x.index < reg.len() && is_compatible(
                        reg[x.index].csv_columns,
                        csv,
                    ) && x == candidate(reg, csv, x.index)),
                out@.len() == k,
                forall|j: int|
                    0 <= j < k ==> {
                        let c = #[trigger] list[j];
                        &&& 0 <= c.index < reg.len()
                        &&& out@[j].0@ == reg[c.index]
                        &&& out@[j].1.matched == c.matched
                        &&& out@[j].1.total == c.total
                        &&& out@[j].0.success_rate == c.rate
                        &&& out@[j].1.above_half()
                    },
            decreases order@.len() - k,
        {
            let entry = &order[k];
            proof {
                let c = list[k as int];
                assert(list.contains(c));
                assert(reg[c.index] == self.matrices@[c.index]@);
            }
            out.push((&self.matrices[entry.0], entry.1));
            k += 1;
        }
        out
    }

    /// Stores a new template under the identifier that its name and the time
    /// `timestamp_millis` give, with a success rate of one, never used.
    /// Returns the identifier.
    pub fn save_at(
        &mut self,
        matrix: TransformationMatrix,
        name: &str,
        csv_columns: Vec<String>,
        timestamp_millis: i64,
        created_at: String,
    ) -> (id: String)
        ensures
            id@ == id_text(name@, timestamp_millis as int),
            final(self)@ == with_stored(
                old(self)@,
                fresh(
                    matrix@,
                    name@,
                    str_views(csv_columns@),
                    timestamp_millis as int,
                    created_at@,
                ),
            ),
            old(self).wf() ==> final(self).wf(),
    {
        let id = make_id(name, timestamp_millis);
        let stored = StoredMatrix {
            id: id.clone(),
            name: name.to_string(),
            matrix,
            csv_columns,
            created_at,
            last_used: None,
            success_rate: RATE_ONE,
            use_count: 0,
        };
        self.add(stored);
        id
    }

    /// Stores a new template at the current time. Returns its identifier.
    pub fn save(&mut self, matrix: TransformationMatrix, name: &str, csv_columns: Vec<String>) -> (id:
        String)
        ensures
            exists|timestamp_millis: int, created_at: Seq<char>|
                id@ == id_text(name@, timestamp_millis) && final(self)@ == with_stored(
                    old(self)@,
                    #[trigger] fresh(
                        matrix@,
                        name@,
                        str_views(csv_columns@),
                        timestamp_millis,
                        created_at,
                    ),
                ),
    {
        let timestamp = now_millis();
        let created_at = now_rfc3339();
        let ghost witness = fresh(
            matrix@,
            name@,
            str_views(csv_columns@),
            timestamp as int,
            created_at@,
        );
        self.save_at(matrix, name, csv_columns, timestamp, created_at)
    }

    /// The columns that a matrix reads through single-source rules.
    pub fn single_source_columns(matrix: &TransformationMatrix) -> (r: Vec<String>)
        ensures
            str_views(r@) == single_sources(matrix@.transforms, matrix@.transforms.len() as int),
    {
        let mut out: Vec<String> = Vec::new();
        let mut i: usize = 0;
        assert(str_views(out@) =~= Seq::<Seq<char>>::empty());
        while i < matrix.transforms.len()
            invariant
                i <= matrix@.transforms.len(),
                str_views(out@) == single_sources(matrix@.transforms, i as int),
            decreases matrix@.transforms.len() - i,
        {
            match &matrix.transforms.value_at(i).source {
                Some(s) => {
                    let col = s.clone();
                    proof {
                        lemma_str_views_push(out@, col);
                    }
                    out.push(col);
                },
                None => {},
            }
            i += 1;
        }
        out
    }

    /// Stores a matrix that came from elsewhere, at the time given, as a
    /// template for the columns that its single-source rules read.
    pub fn import_at(
        &mut self,
        matrix: TransformationMatrix,
        name: &str,
        timestamp_millis: i64,
        created_at: String,
    ) -> (id: String)
        ensures
            id@ == id_text(name@, timestamp_millis as int),
            final(self)@ == with_stored(
                old(self)@,
                fresh(
                    matrix@,
                    name@,
                    single_sources(matrix@.transforms, matrix@.transforms.len() as int),
                    timestamp_millis as int,
                    created_at@,
                ),
            ),
    {
        let csv_columns = Self::single_source_columns(&matrix);
        self.save_at(matrix, name, csv_columns, timestamp_millis, created_at)
    }

    /// Stores a matrix that came from elsewhere, at the current time.
    pub fn import(&mut self, matrix: TransformationMatrix, name: &str) -> (id: String)
        ensures
            exists|timestamp_millis: int, created_at: Seq<char>|
                id@ == id_text(name@, timestamp_millis) && final(self)@ == with_stored(
                    old(self)@,
                    #[trigger] fresh(
                        matrix@,
                        name@,
                        single_sources(matrix@.transforms, matrix@.transforms.len() as int),
                        timestamp_millis,
                        created_at,
                    ),
                ),
    {
        let csv_columns = Self::single_source_columns(&matrix);
        self.save(matrix, name, csv_columns)
    }

    /// Records one trial of the template `id` at the time `now`: the success
    /// rate moves, the use count goes up, the time of last use is set. A
    /// registry that does not hold the template stays as it is. Returns
    /// whether it holds it.
    pub fn update_stats_at(&mut self, id: &str, success: bool, now: String) -> (found: bool)
        ensures
            final(self)@ == with_trial(old(self)@, id@, success, now@),
            found == (find_id(old(self)@, id@, 0) < old(self)@.len()),
            old(self).wf() ==> final(self).wf(),
    {
        let ghost before = self@;
        proof {
            if distinct_ids(before) {
                lemma_tried_stays_distinct(before, id@, success, now@);
            }
        }
        let i = self.position(id);
        if i < self.matrices.len() {
            assert(before[i as int] == self.matrices@[i as int]@);
            let mut m = self.matrices.remove(i);
            let scaled: u64 = (m.success_rate as u64) * 9 / 10;
            m.success_rate = if success {
                (scaled + 100_000_000) as u32
            } else {
                scaled as u32
            };
            m.last_used = Some(now);
            m.use_count = if m.use_count == u32::MAX {
                u32::MAX
            } else {
                m.use_count + 1
            };
            self.matrices.insert(i, m);
            assert(self@ =~= before.update(i as int, after_trial(before[i as int], success, now@)));
            true
        } else {
            false
        }
    }

    /// Records one trial of the template `id` at the current time.
    pub fn update_stats(&mut self, id: &str, success: bool)
        ensures
            exists|now: Seq<char>| final(self)@ == #[trigger] with_trial(
                old(self)@,
                id@,
                success,
                now,
            ),
    {
        let now = now_rfc3339();
        let ghost witness = with_trial(self@, id@, success, now@);
        self.update_stats_at(id, success, now);
    }

    /// Takes the template `id` out of the registry. The error says that it
    /// holds no such template.
    pub fn delete(&mut self, id: &str) -> (r: Result<(), String>)
        ensures
            final(self)@ == without(old(self)@, id@),
            old(self).wf() ==> final(self).wf(),
            match r {
                Ok(_) => find_id(old(self)@, id@, 0) < old(self)@.len(),
                Err(message) => find_id(old(self)@, id@, 0) == old(self)@.len() && message@
                    == not_found_text(id@),
            },
    {
        let ghost before = self@;
        proof {
            if distinct_ids(before) {
                lemma_rest_stays_distinct(before, id@);
            }
        }
        let i = self.position(id);
        if i < self.matrices.len() {
            self.matrices.remove(i);
            assert(self@ =~= before.remove(i as int));
            Ok(())
        } else {
            Err(concat_strs("Matrix not found: ", id))
        }
    }
}

} // verus!
