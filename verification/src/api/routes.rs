use vstd::prelude::*;

use crate::data::app_data::{available_demo_data, default_demo_data, DemoData};
use crate::text::decimal_digits;

verus! {

/// The ways the solver manager refuses a request.
#[derive(Debug, Clone, Copy, PartialEq, Eq, Structural)]
pub enum SolverErrorKind {
    NoFreeJobSlots,
    JobNotFound,
    InvalidStateTransition,
    NoSnapshotAvailable,
    SnapshotNotFound,
}

/// The HTTP status a refused request is answered with.
pub open spec fn status_for(kind: SolverErrorKind) -> u16 {
    match kind {
        SolverErrorKind::NoFreeJobSlots => 503,
        SolverErrorKind::JobNotFound => 404,
        SolverErrorKind::InvalidStateTransition => 409,
        SolverErrorKind::NoSnapshotAvailable => 409,
        SolverErrorKind::SnapshotNotFound => 404,
    }
}

pub fn status_from_solver_error(kind: SolverErrorKind) -> (status: u16)
    ensures
        status == status_for(kind),
{
    match kind {
        SolverErrorKind::NoFreeJobSlots => 503,
        SolverErrorKind::JobNotFound => 404,
        SolverErrorKind::InvalidStateTransition => 409,
        SolverErrorKind::NoSnapshotAvailable => 409,
        SolverErrorKind::SnapshotNotFound => 404,
    }
}

/// The numeric value of a sequence of decimal digits.
pub open spec fn digits_value(s: Seq<char>) -> int
    decreases s.len(),
{
    if s.len() == 0 {
        0
    } else {
        digits_value(s.drop_last()) * 10 + (s.last() as int - 48)
    }
}

pub open spec fn all_digits(s: Seq<char>) -> bool {
    forall|i: int| 0 <= i < s.len() ==> '0' <= #[trigger] s[i] <= '9'
}

/// How `str::parse::<usize>` reads text: an optional `+`, then one or more
/// decimal digits whose value fits a `usize`.
pub open spec fn parsed_usize(s: Seq<char>) -> Option<usize> {
    let digits = if s.len() > 0 && s[0] == '+' { s.drop_first() } else { s };
    if digits.len() > 0 && all_digits(digits) && digits_value(digits) <= usize::MAX {
        Some(digits_value(digits) as usize)
    } else {
        None
    }
}

proof fn lemma_digits_value_step(s: Seq<char>, i: int)
    requires
        0 <= i < s.len(),
    ensures
        digits_value(s.take(i + 1)) == digits_value(s.take(i)) * 10 + (s[i] as int - 48),
{
    assert(s.take(i + 1).drop_last() =~= s.take(i));
}

proof fn lemma_digits_value_nonneg(s: Seq<char>)
    requires
        all_digits(s),
    ensures
        digits_value(s) >= 0,
    decreases s.len(),
{
    if s.len() > 0 {
        lemma_digits_value_nonneg(s.drop_last());
    }
}

proof fn lemma_digits_value_monotone(s: Seq<char>, i: int)
    requires
        all_digits(s),
        0 <= i <= s.len(),
    ensures
        digits_value(s.take(i)) <= digits_value(s),
    decreases s.len() - i,
{
    if i < s.len() {
        lemma_digits_value_monotone(s, i + 1);
        lemma_digits_value_step(s, i);
        lemma_digits_value_nonneg(s.take(i));
    } else {
        assert(s.take(i) =~= s);
    }
}

/// Reads a job identifier as `str::parse::<usize>` does.
pub fn parse_job_id(id: &str) -> (job_id: Option<usize>)
    ensures
        job_id == parsed_usize(id@),
{
    let n = id.unicode_len();
    let mut start: usize = 0;
    if n > 0 && id.get_char(0) == '+' {
        start = 1;
    }
    let ghost digits = if id@.len() > 0 && id@[0] == '+' { id@.drop_first() } else { id@ };
    if start == n {
        return None;
    }
    let mut value: usize = 0;
    let mut i: usize = start;
    while i < n
        invariant
            n == id@.len(),
            start <= i <= n,
            start < n,
            digits == id@.subrange(start as int, n as int),
            digits == (if id@.len() > 0 && id@[0] == '+' { id@.drop_first() } else { id@ }),
            forall|k: int| 0 <= k < i - start ==> '0' <= #[trigger] digits[k] <= '9',
            value == digits_value(digits.take(i - start)),
        decreases n - i,
    {
        let c = id.get_char(i);
        assert(c == digits[i - start]);
        if !('0' <= c && c <= '9') {
            assert(!('0' <= digits[i - start] <= '9'));
            assert(!all_digits(digits));
            return None;
        }
        proof {
            lemma_digits_value_step(digits, i - start);
        }
        let digit = (c as u32 - 48) as usize;
        let scaled = match value.checked_mul(10) {
            Some(v) => v,
            None => {
                proof {
                    assert(all_digits(digits.take(i - start + 1)));
                    lemma_digits_value_nonneg(digits.take(i - start));
                    if all_digits(digits) {
                        lemma_digits_value_monotone(digits, i - start + 1);
                    }
                }
                return None;
            },
        };
        value = match scaled.checked_add(digit) {
            Some(v) => v,
            None => {
                proof {
                    if all_digits(digits) {
                        lemma_digits_value_monotone(digits, i - start + 1);
                    }
                }
                return None;
            },
        };
        i = i + 1;
    }
    assert(digits.take(n - start) =~= digits);
    Some(value)
}

proof fn lemma_decimal_digits_shape(n: nat)
    ensures
        decimal_digits(n).len() > 0,
        all_digits(decimal_digits(n)),
        digits_value(decimal_digits(n)) == n,
    decreases n,
{
    if n >= 10 {
        lemma_decimal_digits_shape(n / 10);
        let prev = decimal_digits(n / 10);
        let c = (48 + n % 10) as char;
        let next = prev.push(c);
        assert(next.drop_last() =~= prev);
        assert(c as int == 48 + n % 10);
        assert(n == (n / 10) * 10 + n % 10);
        assert(digits_value(next) == digits_value(prev) * 10 + (c as int - 48));
        assert forall|i: int| 0 <= i < next.len() implies '0' <= #[trigger] next[i] <= '9' by {
            if i < prev.len() {
                assert(next[i] == prev[i]);
            }
        }
    } else {
        let c = (48 + n) as char;
        let one = seq![c];
        assert(one.drop_last() =~= Seq::<char>::empty());
        assert(c as int == 48 + n);
        assert(digits_value(one) == digits_value(Seq::<char>::empty()) * 10 + (c as int - 48));
    }
}

/// A job identifier written in decimal reads back as the same number.
pub proof fn lemma_job_id_round_trip(job_id: usize)
    ensures
        parsed_usize(decimal_digits(job_id as nat)) == Some(job_id),
{
    lemma_decimal_digits_shape(job_id as nat);
    assert('0' <= decimal_digits(job_id as nat)[0] <= '9');
}

/// The project catalog: the default project's id and every available id.
#[derive(Debug)]
pub struct DemoDataCatalogResponse {
    pub default_id: &'static str,
    pub available_ids: Vec<&'static str>,
}

pub fn demo_data_catalog() -> (catalog: DemoDataCatalogResponse)
    ensures
        catalog.default_id@ == DemoData::PlatformReliability.spec_id(),
        catalog.available_ids@.len() == 2,
        catalog.available_ids@[0]@ == DemoData::PlatformReliability.spec_id(),
        catalog.available_ids@[1]@ == DemoData::ProductLaunch.spec_id(),
{
    let all = available_demo_data();
    let mut ids: Vec<&'static str> = Vec::new();
    let mut i: usize = 0;
    while i < all.len()
        invariant
            all@ == seq![DemoData::PlatformReliability, DemoData::ProductLaunch],
            i <= 2,
            ids@.len() == i,
            forall|k: int| 0 <= k < i ==> (#[trigger] ids@[k])@ == all@[k].spec_id(),
        decreases 2 - i,
    {
        ids.push(all[i].id());
        i = i + 1;
    }
    DemoDataCatalogResponse { default_id: default_demo_data().id(), available_ids: ids }
}

} // verus!
