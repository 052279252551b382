//! The tasks the load-generating clients send: a repeated run of digits,
//! tagged with a random name for the log.

use vstd::prelude::*;
use vstd::string::StringSliceAdditionalSpecFns;
use rand::Rng;
use crate::wire::{be_bytes, encode_size};

verus! {

/// The text a task repeats.
pub const TASK_UNIT: &'static str = "0123456789";

/// How many times a task repeats its text.
pub const TASK_SIZE: usize = 10;

/// How many characters a task's name has.
pub const TASK_ID_LEN: usize = 10;

/// Seconds a client waits between two tasks.
pub const SLEEP_TIME: u64 = 2;

/// Minutes a client keeps sending tasks.
pub const RUN_MINUTES: i64 = 10;

/// `unit` written `times` times in a row.
pub open spec fn repeat_spec(unit: Seq<u8>, times: nat) -> Seq<u8>
    decreases times,
{
    if times == 0 {
        Seq::empty()
    } else {
        repeat_spec(unit, (times - 1) as nat) + unit
    }
}

/// The body of every task.
pub open spec fn task_payload_spec() -> Seq<u8> {
    repeat_spec(TASK_UNIT.spec_bytes(), TASK_SIZE as nat)
}

/// An ASCII letter or digit.
pub open spec fn is_ascii_alphanumeric(c: char) -> bool {
    ||| 'A' <= c <= 'Z'
    ||| 'a' <= c <= 'z'
    ||| '0' <= c <= '9'
}

/// `unit` written `times` times in a row.
pub fn repeat_bytes(unit: &[u8], times: usize) -> (out: Vec<u8>)
    requires
        unit@.len() * times <= usize::MAX,
    ensures
        out@ == repeat_spec(unit@, times as nat),
{
    let mut out: Vec<u8> = Vec::new();
    let mut r: usize = 0;
    while r < times
        invariant
            0 <= r <= times,
            out@ == repeat_spec(unit@, r as nat),
        decreases times - r,
    {
        let mut j: usize = 0;
        let ghost start = out@;
        while j < unit.len()
            invariant
                0 <= j <= unit@.len(),
                out@ == start + unit@.take(j as int),
            decreases unit@.len() - j,
        {
            out.push(unit[j]);
            j = j + 1;
            assert(out@ =~= start + unit@.take(j as int));
        }
        assert(unit@.take(unit@.len() as int) =~= unit@);
        r = r + 1;
    }
    out
}

/// The body of a task: the digits `0` to `9`, ten times over.
pub fn task_payload() -> (payload: Vec<u8>)
    ensures
        payload@ == task_payload_spec(),
{
    let unit: &[u8] = TASK_UNIT.as_bytes();
    proof {
        reveal_strlit("0123456789");
        vstd::string::is_ascii_spec_bytes(TASK_UNIT);
        assert(TASK_UNIT.spec_bytes().len() == 10);
    }
    repeat_bytes(unit, TASK_SIZE)
}

/// A random name of `len` ASCII letters and digits, drawn by
/// `rand::thread_rng().gen_ascii_chars().take(len)`. The crate's source
/// draws each character from `A`-`Z`, `a`-`z` and `0`-`9`; which ones come
/// out is left open. `thread_rng` panics only when the system has no source
/// of entropy.
#[verifier::external_body]
fn random_alphanumeric(len: usize) -> (name: String)
    ensures
        name@.len() == len,
        forall|i: int| 0 <= i < len ==> is_ascii_alphanumeric(#[trigger] name@[i]),
{
    rand::thread_rng().gen_ascii_chars().take(len).collect::<String>()
}

/// What a client prepares before it sends a task.
pub struct TaskPlan {
    /// The task's name in the log.
    pub id: String,
    /// The task's body.
    pub payload: Vec<u8>,
    /// The size prefix that announces the body.
    pub size_prefix: [u8; 8],
}

/// Prepares a task: a fresh random name, the body, and its size prefix.
pub fn plan_task() -> (plan: TaskPlan)
    ensures
        plan.id@.len() == TASK_ID_LEN,
        forall|i: int| 0 <= i < TASK_ID_LEN ==> is_ascii_alphanumeric(#[trigger] plan.id@[i]),
        plan.payload@ == task_payload_spec(),
        plan.size_prefix@ == be_bytes(task_payload_spec().len() as u64),
{
    let id = random_alphanumeric(TASK_ID_LEN);
    let payload = task_payload();
    let size_prefix = encode_size(payload.len() as u64);
    TaskPlan { id, payload, size_prefix }
}

/// Whether a client that started `elapsed_minutes` ago keeps sending tasks.
pub fn keep_running(elapsed_minutes: i64) -> (more: bool)
    ensures
        more == (elapsed_minutes < RUN_MINUTES),
{
    elapsed_minutes < RUN_MINUTES
}

} // verus!
