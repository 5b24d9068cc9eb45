//! Partitioning of the secret space, the per-thread scan and the parallel
//! coordinator.
use crate::secret::{
    encode, increment, lemma_bytes_of_value, lemma_secret_of_len, lemma_secret_range, le_value,
    pow256, secret_of, SECRET_LEN,
};
use crate::totp::sha1_totp_code;
use rayon::iter::{IntoParallelIterator, ParallelIterator};
use totp_rs::{Algorithm, TOTP};
use vstd::prelude::*;
use vstd::string::*;

verus! {

/// Seconds per time step of the generator.
pub const TOTP_STEP: u64 = 30;

/// Steps of clock skew the generator is configured with.
pub const TOTP_SKEW: u8 = 1;

/// Attempts reserved for each job id.
pub const JOB_STRIDE: u64 = 100000;

pub open spec fn is_digit_char(c: char) -> bool {
    '0' <= c && c <= '9'
}

/// A target code: six to eight decimal digits.
pub open spec fn valid_token(t: Seq<char>) -> bool {
    &&& 6 <= t.len() <= 8
    &&& forall|i: int| 0 <= i < t.len() ==> is_digit_char(#[trigger] t[i])
}

/// The value a thread's partition starts from; the thread scans the values
/// just above it.
pub open spec fn partition_start(attempt_no: nat, n_threads: nat, thread_id: nat, iterations: nat) -> nat {
    (attempt_no * n_threads + thread_id) * iterations
}

/// The attempt number that a job's attempt stands for.
pub open spec fn effective_attempt(attempt_no: nat, job_id: nat) -> nat {
    attempt_no + job_id * (JOB_STRIDE as nat)
}

/// Whether the secret holding `v` gives `token` at `time`.
pub open spec fn is_hit(time: u64, token: Seq<char>, v: nat) -> bool {
    sha1_totp_code(secret_of(v), token.len() as usize, TOTP_STEP, time) == token
}

/// The least value in `(from, to]` whose secret gives `token` at `time`.
pub open spec fn first_hit(time: u64, token: Seq<char>, from: nat, to: nat) -> Option<nat>
    decreases to - from,
{
    if from >= to {
        None
    } else if is_hit(time, token, from + 1) {
        Some(from + 1)
    } else {
        first_hit(time, token, from + 1, to)
    }
}

/// What a scan of `iterations` values above `start` finds.
pub open spec fn scan_outcome(time: u64, token: Seq<char>, start: nat, iterations: nat) -> Option<Seq<u8>> {
    match first_hit(time, token, start, start + iterations) {
        Some(v) => Some(secret_of(v)),
        None => None,
    }
}

/// The answer of the first thread, from `thread_id` on, whose scan finds a
/// secret.
pub open spec fn search_outcome(
    time: u64,
    token: Seq<char>,
    n_threads: nat,
    attempt_no: nat,
    iterations: nat,
    thread_id: nat,
) -> Option<Seq<u8>>
    decreases n_threads - thread_id,
{
    if thread_id >= n_threads {
        None
    } else {
        match scan_outcome(
            time,
            token,
            partition_start(attempt_no, n_threads, thread_id, iterations),
            iterations,
        ) {
            Some(s) => Some(s),
            None => search_outcome(time, token, n_threads, attempt_no, iterations, thread_id + 1),
        }
    }
}

/// Whether every thread's partition start fits in a `u64`.
pub open spec fn search_fits(attempt_no: nat, n_threads: nat, iterations: nat) -> bool {
    n_threads == 0 || partition_start(attempt_no, n_threads, (n_threads - 1) as nat, iterations)
        <= u64::MAX
}

/// Whether the effective attempt and every partition start fit in a `u64`.
pub open spec fn find_fits(attempt_no: nat, job_id: nat, n_threads: nat, iterations: nat) -> bool {
    &&& effective_attempt(attempt_no, job_id) <= u64::MAX
    &&& search_fits(effective_attempt(attempt_no, job_id), n_threads, iterations)
}

/// What a search answers: an error for a malformed code or a plan out of
/// range, else the first thread's find in ascending thread order.
pub open spec fn find_result(
    time: u64,
    token: Seq<char>,
    n_threads: nat,
    attempt_no: nat,
    iterations: nat,
    job_id: nat,
) -> Result<Option<Seq<u8>>, Seq<char>> {
    if !valid_token(token) {
        Err("Invalid target token"@)
    } else if !find_fits(attempt_no, job_id, n_threads, iterations) {
        Err("Search range overflow"@)
    } else {
        Ok(
            search_outcome(
                time,
                token,
                n_threads,
                effective_attempt(attempt_no, job_id),
                iterations,
                0,
            ),
        )
    }
}

/// What a thread's scan answers: the generator refuses a digit count
/// outside 6 to 8, else the scan's find.
pub open spec fn scan_result(time: u64, token: Seq<char>, start: nat, iterations: nat) -> Result<
    Option<Seq<u8>>,
    Seq<char>,
> {
    if 6 <= token.len() <= 8 {
        Ok(scan_outcome(time, token, start, iterations))
    } else {
        Err("Invalid configuration"@)
    }
}

pub open spec fn find_view(r: Result<Option<Vec<u8>>, String>) -> Result<Option<Seq<u8>>, Seq<char>> {
    match r {
        Ok(o) => Ok(opt_bytes_view(o)),
        Err(e) => Err(e@),
    }
}

pub open spec fn opt_bytes_view(o: Option<Vec<u8>>) -> Option<Seq<u8>> {
    match o {
        Some(v) => Some(v@),
        None => None,
    }
}

/// Whether `token` has six to eight characters, all decimal digits.
pub fn verify_target_token(token: &str) -> (r: bool)
    ensures
        r == valid_token(token@),
{
    let n = token.unicode_len();
    if n < 6 || n > 8 {
        return false;
    }
    let mut i: usize = 0;
    while i < n
        invariant
            n == token@.len(),
            i <= n,
            forall|j: int| 0 <= j < i ==> is_digit_char(#[trigger] token@[j]),
        decreases n - i,
    {
        let c = token.get_char(i);
        if !('0' <= c && c <= '9') {
            return false;
        }
        i = i + 1;
    }
    true
}

/// A thread's partition start never decreases with its id.
pub proof fn lemma_partition_start_monotonic(
    attempt_no: nat,
    n_threads: nat,
    i: nat,
    j: nat,
    iterations: nat,
)
    requires
        i <= j,
    ensures
        partition_start(attempt_no, n_threads, i, iterations) <= partition_start(
            attempt_no,
            n_threads,
            j,
            iterations,
        ),
{
    assert((attempt_no * n_threads + i) * iterations <= (attempt_no * n_threads + j) * iterations)
        by (nonlinear_arith)
        requires
            i <= j,
    ;
}

/// The secret that a thread's scan starts after.
pub fn starting_secret(thread_id: usize, attempt_no: u64, n_iterations: usize, n_threads: usize) -> (r: Vec<u8>)
    requires
        partition_start(attempt_no as nat, n_threads as nat, thread_id as nat, n_iterations as nat)
            <= u64::MAX,
    ensures
        r@.len() == SECRET_LEN,
        le_value(r@) == partition_start(
            attempt_no as nat,
            n_threads as nat,
            thread_id as nat,
            n_iterations as nat,
        ),
        r@ == secret_of(
            partition_start(attempt_no as nat, n_threads as nat, thread_id as nat, n_iterations as nat),
        ),
{
    if n_iterations == 0 {
        assert(partition_start(attempt_no as nat, n_threads as nat, thread_id as nat, 0) == 0)
            by (nonlinear_arith);
        return encode(0);
    }
    proof {
        let a = attempt_no as nat;
        let n = n_threads as nat;
        let t = thread_id as nat;
        let it = n_iterations as nat;
        assert(a * n <= a * n + t <= (a * n + t) * it) by (nonlinear_arith)
            requires
                it >= 1,
        ;
    }
    let start = (attempt_no * (n_threads as u64) + thread_id as u64) * (n_iterations as u64);
    encode(start)
}

/// Scans the `iterations` secrets just above this thread's partition start
/// and returns the first that gives `target_token` at `target_time`. A
/// token whose length the generator refuses as a digit count gives
/// `Err("Invalid configuration")` before any secret is tried.
pub fn try_choose_secret(
    target_time: u64,
    target_token: &String,
    n_threads: usize,
    thread_id: usize,
    attempt_no: u64,
    iterations: usize,
) -> (r: Result<Option<Vec<u8>>, String>)
    requires
        partition_start(attempt_no as nat, n_threads as nat, thread_id as nat, iterations as nat)
            <= u64::MAX,
    ensures
        find_view(r) == scan_result(
            target_time,
            target_token@,
            partition_start(attempt_no as nat, n_threads as nat, thread_id as nat, iterations as nat),
            iterations as nat,
        ),
{
    let ghost start = partition_start(
        attempt_no as nat,
        n_threads as nat,
        thread_id as nat,
        iterations as nat,
    );
    let ghost token = target_token@;
    let mut secret = starting_secret(thread_id, attempt_no, iterations, n_threads);
    let digits = target_token.as_str().unicode_len();
    let account_name = String::new();
    proof {
        assert(!crate::totp::has_colon(account_name@));
    }
    let created = TOTP::new(
        Algorithm::SHA1,
        digits,
        TOTP_SKEW,
        TOTP_STEP,
        secret.clone(),
        None,
        account_name,
    );
    let mut totp = match created {
        Ok(t) => t,
        Err(_) => {
            return Err(String::from_str("Invalid configuration"));
        },
    };
    let mut j: usize = 0;
    while j < iterations
        invariant
            j <= iterations,
            secret@.len() == SECRET_LEN,
            le_value(secret@) == start + j,
            start <= u64::MAX,
            start == partition_start(
                attempt_no as nat,
                n_threads as nat,
                thread_id as nat,
                iterations as nat,
            ),
            token == target_token@,
            6 <= token.len() <= 8,
            totp.algorithm == Algorithm::SHA1,
            totp.digits == token.len(),
            totp.step == TOTP_STEP,
            first_hit(target_time, token, start, (start + iterations) as nat) == first_hit(
                target_time,
                token,
                (start + j) as nat,
                (start + iterations) as nat,
            ),
        decreases iterations - j,
    {
        increment(&mut secret);
        proof {
            lemma_secret_range();
            vstd::arithmetic::div_mod::lemma_small_mod(
                (start + j + 1) as nat,
                pow256(SECRET_LEN as nat),
            );
            lemma_bytes_of_value(secret@);
        }
        let copy = secret.clone();
        assert(copy@ =~= secret@);
        totp.secret = copy;
        let code = totp.generate(target_time);
        if code == *target_token {
            proof {
                assert(secret@ == secret_of((start + j + 1) as nat));
                assert(is_hit(target_time, token, (start + j + 1) as nat));
                assert(first_hit(target_time, token, (start + j) as nat, (start + iterations) as nat)
                    == Some((start + j + 1) as nat));
                assert(scan_outcome(target_time, token, start, iterations as nat) == Some(secret@));
            }
            return Ok(Some(secret));
        }
        j = j + 1;
    }
    Ok(None)
}

/// Relies on rayon: a parallel map over the range `0..n_threads`, collected
/// into a `Vec`, keeps the order of the range. Each item is the verified
/// scan of that thread, whose precondition holds for every thread id below
/// `n_threads` when it holds for the last one.
#[verifier::external_body]
fn run_workers(
    target_time: u64,
    target_token: &String,
    n_threads: usize,
    attempt_no: u64,
    iterations: usize,
) -> (r: Vec<Result<Option<Vec<u8>>, String>>)
    requires
        search_fits(attempt_no as nat, n_threads as nat, iterations as nat),
    ensures
        r@.len() == n_threads,
        forall|i: int|
            0 <= i < n_threads ==> find_view(#[trigger] r@[i]) == scan_result(
                target_time,
                target_token@,
                partition_start(attempt_no as nat, n_threads as nat, i as nat, iterations as nat),
                iterations as nat,
            ),
{
    (0..n_threads).into_par_iter().map(
        |thread_id| try_choose_secret(target_time, target_token, n_threads, thread_id, attempt_no, iterations),
    ).collect()
}

/// Searches for a secret that gives `target_token` at `target_time`: each of
/// `n_threads` threads scans `iterations` secrets of its own partition of
/// attempt `attempt_no + job_id * 100000`, all threads run to the end, and
/// the find of the lowest thread id is returned.
pub fn try_find(
    target_time: u64,
    target_token: String,
    n_threads: usize,
    attempt_no: usize,
    iterations: usize,
    job_id: usize,
) -> (r: Result<Option<Vec<u8>>, String>)
    ensures
        find_view(r) == find_result(
            target_time,
            target_token@,
            n_threads as nat,
            attempt_no as nat,
            iterations as nat,
            job_id as nat,
        ),
{
    if !verify_target_token(target_token.as_str()) {
        return Err(String::from_str("Invalid target token"));
    }
    let effective = match (job_id as u64).checked_mul(JOB_STRIDE) {
        Some(offset) => (attempt_no as u64).checked_add(offset),
        None => None,
    };
    let effective = match effective {
        Some(e) => e,
        None => {
            return Err(String::from_str("Search range overflow"));
        },
    };
    if n_threads > 0 && iterations > 0 {
        let last = match effective.checked_mul(n_threads as u64) {
            Some(x) => match x.checked_add((n_threads - 1) as u64) {
                Some(y) => y.checked_mul(iterations as u64),
                None => None,
            },
            None => None,
        };
        proof {
            let a = effective as nat;
            let n = n_threads as nat;
            let it = iterations as nat;
            assert(a * n <= a * n + (n - 1) <= (a * n + (n - 1)) * it) by (nonlinear_arith)
                requires
                    it >= 1,
                    n >= 1,
            ;
        }
        if last.is_none() {
            return Err(String::from_str("Search range overflow"));
        }
    }
    proof {
        if n_threads > 0 && iterations == 0 {
            assert(partition_start(effective as nat, n_threads as nat, (n_threads - 1) as nat, 0)
                == 0) by (nonlinear_arith);
        }
    }
    let found = run_workers(target_time, &target_token, n_threads, effective, iterations);
    let mut i: usize = 0;
    while i < n_threads
        invariant
            i <= n_threads,
            valid_token(target_token@),
            effective as nat == effective_attempt(attempt_no as nat, job_id as nat),
            find_fits(attempt_no as nat, job_id as nat, n_threads as nat, iterations as nat),
            found@.len() == n_threads,
            forall|k: int|
                0 <= k < n_threads ==> find_view(#[trigger] found@[k]) == scan_result(
                    target_time,
                    target_token@,
                    partition_start(effective as nat, n_threads as nat, k as nat, iterations as nat),
                    iterations as nat,
                ),
            search_outcome(
                target_time,
                target_token@,
                n_threads as nat,
                effective as nat,
                iterations as nat,
                0,
            ) == search_outcome(
                target_time,
                target_token@,
                n_threads as nat,
                effective as nat,
                iterations as nat,
                i as nat,
            ),
        decreases n_threads - i,
    {
        match &found[i] {
            Ok(Some(s)) => {
                let copy = s.clone();
                assert(copy@ =~= s@);
                assert(find_view(found@[i as int]) == Ok::<Option<Seq<u8>>, Seq<char>>(Some(s@)));
                return Ok(Some(copy));
            },
            _ => {},
        }
        assert(find_view(found@[i as int]) == Ok::<Option<Seq<u8>>, Seq<char>>(None));
        i = i + 1;
    }
    Ok(None)
}

/// Two distinct threads of one attempt scan disjoint ranges: no value lies
/// in both `(start_i, start_i + iterations]` and
/// `(start_j, start_j + iterations]`.
pub proof fn lemma_partitions_disjoint(
    attempt_no: nat,
    n_threads: nat,
    iterations: nat,
    i: nat,
    j: nat,
    v: nat,
)
    requires
        i < n_threads,
        j < n_threads,
        i != j,
    ensures
        !({
            &&& partition_start(attempt_no, n_threads, i, iterations) < v
            &&& v <= partition_start(attempt_no, n_threads, i, iterations) + iterations
            &&& partition_start(attempt_no, n_threads, j, iterations) < v
            &&& v <= partition_start(attempt_no, n_threads, j, iterations) + iterations
        }),
{
    let (lo, hi) = if i < j {
        (i, j)
    } else {
        (j, i)
    };
    let b = attempt_no * n_threads;
    assert((b + lo) * iterations + iterations <= (b + hi) * iterations) by (nonlinear_arith)
        requires
            lo < hi,
    ;
}

/// Each thread's range ends where the next thread's range begins, and the
/// last thread's range of attempt `a` ends where the first thread's range of
/// attempt `a + 1` begins.
pub proof fn lemma_partitions_contiguous(attempt_no: nat, n_threads: nat, iterations: nat)
    requires
        n_threads > 0,
    ensures
        forall|i: nat|
            i + 1 < n_threads ==> #[trigger] partition_start(attempt_no, n_threads, i, iterations)
                + iterations == partition_start(attempt_no, n_threads, i + 1, iterations),
        partition_start(attempt_no, n_threads, (n_threads - 1) as nat, iterations) + iterations
            == partition_start(attempt_no + 1, n_threads, 0, iterations),
{
    assert forall|i: nat| i + 1 < n_threads implies #[trigger] partition_start(
        attempt_no,
        n_threads,
        i,
        iterations,
    ) + iterations == partition_start(attempt_no, n_threads, i + 1, iterations) by {
        let b = attempt_no * n_threads;
        assert((b + i) * iterations + iterations == (b + i + 1) * iterations) by (nonlinear_arith);
    }
    let n = n_threads;
    assert((attempt_no * n + (n - 1)) * iterations + iterations == ((attempt_no + 1) * n + 0)
        * iterations) by (nonlinear_arith)
        requires
            n > 0,
    ;
}

/// A search is a function of its arguments: two calls of `try_find` with the
/// same arguments give the same answer.
pub proof fn lemma_find_deterministic(
    target_time: u64,
    target_token: Seq<char>,
    n_threads: nat,
    attempt_no: nat,
    iterations: nat,
    job_id: nat,
    r1: Result<Option<Vec<u8>>, String>,
    r2: Result<Option<Vec<u8>>, String>,
)
    requires
        find_view(r1) == find_result(target_time, target_token, n_threads, attempt_no, iterations, job_id),
        find_view(r2) == find_result(target_time, target_token, n_threads, attempt_no, iterations, job_id),
    ensures
        find_view(r1) == find_view(r2),
{
}

/// The value that a search answers with: the first hit of the first thread,
/// from `thread_id` on, whose scan finds one.
pub open spec fn search_hit(
    time: u64,
    token: Seq<char>,
    n_threads: nat,
    attempt_no: nat,
    iterations: nat,
    thread_id: nat,
) -> Option<nat>
    decreases n_threads - thread_id,
{
    if thread_id >= n_threads {
        None
    } else {
        let start = partition_start(attempt_no, n_threads, thread_id, iterations);
        match first_hit(time, token, start, start + iterations) {
            Some(w) => Some(w),
            None => search_hit(time, token, n_threads, attempt_no, iterations, thread_id + 1),
        }
    }
}

/// What a scan finds lies in its range and gives the code; when a value of
/// the range gives the code, the scan finds one no greater.
pub proof fn lemma_first_hit(time: u64, token: Seq<char>, from: nat, to: nat, v: nat)
    ensures
        first_hit(time, token, from, to) is Some ==> {
            let w = first_hit(time, token, from, to)->Some_0;
            from < w <= to && is_hit(time, token, w)
        },
        from < v <= to && is_hit(time, token, v) ==> first_hit(time, token, from, to) is Some
            && first_hit(time, token, from, to)->Some_0 <= v,
    decreases to - from,
{
    if from < to {
        lemma_first_hit(time, token, from + 1, to, v);
    }
}

/// A search answers with the secret of its hit value; that value lies above
/// the start of thread `thread_id` and gives the code; and when a thread
/// from `thread_id` on has a value `v` in its range that gives the code,
/// the search answers with a value no greater than `v`.
pub proof fn lemma_search_hit(
    time: u64,
    token: Seq<char>,
    n_threads: nat,
    attempt_no: nat,
    iterations: nat,
    thread_id: nat,
    covering: nat,
    v: nat,
)
    ensures
        search_outcome(time, token, n_threads, attempt_no, iterations, thread_id) == match search_hit(
            time,
            token,
            n_threads,
            attempt_no,
            iterations,
            thread_id,
        ) {
            Some(w) => Some(secret_of(w)),
            None => None,
        },
        search_hit(time, token, n_threads, attempt_no, iterations, thread_id) is Some ==> {
            let w = search_hit(time, token, n_threads, attempt_no, iterations, thread_id)->Some_0;
            partition_start(attempt_no, n_threads, thread_id, iterations) < w && is_hit(time, token, w)
        },
        ({
            let start = partition_start(attempt_no, n_threads, covering, iterations);
            thread_id <= covering < n_threads && start < v <= start + iterations && is_hit(
                time,
                token,
                v,
            )
        }) ==> search_hit(time, token, n_threads, attempt_no, iterations, thread_id) is Some
            && search_hit(time, token, n_threads, attempt_no, iterations, thread_id)->Some_0 <= v,
    decreases n_threads - thread_id,
{
    if thread_id < n_threads {
        let start = partition_start(attempt_no, n_threads, thread_id, iterations);
        lemma_first_hit(time, token, start, start + iterations, v);
        lemma_search_hit(time, token, n_threads, attempt_no, iterations, thread_id + 1, covering, v);
        lemma_partition_start_monotonic(attempt_no, n_threads, thread_id, thread_id + 1, iterations);
        if thread_id < covering {
            let b = attempt_no * n_threads;
            assert((b + thread_id) * iterations + iterations <= (b + covering) * iterations)
                by (nonlinear_arith)
                requires
                    thread_id < covering,
            ;
        }
    }
}

/// A code that a secret of value `v` gives at a time is recovered by a
/// thread's scan whose range holds `v`: the scan answers with the secret of
/// a value `w` in its range, no greater than `v`, that gives the same code.
pub proof fn lemma_scan_recovers(time: u64, token: Seq<char>, start: nat, iterations: nat, v: nat)
    requires
        6 <= token.len() <= 8,
        start < v <= start + iterations,
        sha1_totp_code(secret_of(v), token.len() as usize, TOTP_STEP, time) == token,
    ensures
        first_hit(time, token, start, start + iterations) is Some,
        ({
            let w = first_hit(time, token, start, start + iterations)->Some_0;
            &&& start < w <= v
            &&& scan_result(time, token, start, iterations) == Ok::<Option<Seq<u8>>, Seq<char>>(
                Some(secret_of(w)),
            )
            &&& secret_of(w).len() == SECRET_LEN
            &&& sha1_totp_code(secret_of(w), token.len() as usize, TOTP_STEP, time) == token
        }),
{
    lemma_first_hit(time, token, start, start + iterations, v);
    lemma_secret_of_len(first_hit(time, token, start, start + iterations)->Some_0);
}

/// A code that a secret of value `v` gives at a time is recovered by a
/// search whose partitions cover `v`: the search answers with the secret of
/// a value `w`, above the first thread's start and no greater than `v`, that
/// gives the same code (possibly another secret than that of `v`).
pub proof fn lemma_covered_code_is_recovered(
    target_time: u64,
    target_token: Seq<char>,
    n_threads: nat,
    attempt_no: nat,
    iterations: nat,
    job_id: nat,
    thread_id: nat,
    v: nat,
)
    requires
        valid_token(target_token),
        find_fits(attempt_no, job_id, n_threads, iterations),
        thread_id < n_threads,
        partition_start(effective_attempt(attempt_no, job_id), n_threads, thread_id, iterations) < v,
        v <= partition_start(effective_attempt(attempt_no, job_id), n_threads, thread_id, iterations)
            + iterations,
        sha1_totp_code(secret_of(v), target_token.len() as usize, TOTP_STEP, target_time)
            == target_token,
    ensures
        search_hit(
            target_time,
            target_token,
            n_threads,
            effective_attempt(attempt_no, job_id),
            iterations,
            0,
        ) is Some,
        ({
            let w = search_hit(
                target_time,
                target_token,
                n_threads,
                effective_attempt(attempt_no, job_id),
                iterations,
                0,
            )->Some_0;
            &&& partition_start(effective_attempt(attempt_no, job_id), n_threads, 0, iterations) < w
            &&& w <= v
            &&& find_result(target_time, target_token, n_threads, attempt_no, iterations, job_id)
                == Ok::<Option<Seq<u8>>, Seq<char>>(Some(secret_of(w)))
            &&& secret_of(w).len() == SECRET_LEN
            &&& sha1_totp_code(secret_of(w), target_token.len() as usize, TOTP_STEP, target_time)
                == target_token
        }),
{
    let a = effective_attempt(attempt_no, job_id);
    lemma_search_hit(target_time, target_token, n_threads, a, iterations, 0, thread_id, v);
    lemma_secret_of_len(search_hit(target_time, target_token, n_threads, a, iterations, 0)->Some_0);
}

} // verus!
