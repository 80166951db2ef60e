use vstd::prelude::*;

use crate::error::DomainError;
use crate::ids::{
    add_once, contains_name, distinct, first_occurrence, lemma_names_push, lemma_names_remove,
    lemma_remove_first_at, names, position, remove_first,
};
use crate::manifest::LayerRange;

verus! {

/// Largest number of sessions one loaded layer range keeps state for.
pub const MAX_ACTIVE_SESSIONS: usize = 16;

/// Largest context window Loom opens, whatever the model was trained for.
pub const MAX_CONTEXT_TOKENS: usize = 4096;

/// The context window of a model trained for `context_limit` tokens.
pub open spec fn spec_context_limit(context_limit: u32) -> int {
    if context_limit < MAX_CONTEXT_TOKENS {
        context_limit as int
    } else {
        MAX_CONTEXT_TOKENS as int
    }
}

/// The context window of a model trained for `context_limit` tokens.
pub fn context_limit(trained_limit: u32) -> (r: usize)
    ensures
        r == spec_context_limit(trained_limit),
{
    if (trained_limit as u64) < (MAX_CONTEXT_TOKENS as u64) {
        trained_limit as usize
    } else {
        MAX_CONTEXT_TOKENS
    }
}

/// Checks that `token_count` tokens starting at `position_start` fit the
/// context window, and gives the start as an index.
pub fn context_window(position_start: u64, token_count: usize, model_context_limit: u32) -> (r:
    Result<usize, DomainError>)
    ensures
        r is Ok <==> position_start + token_count <= spec_context_limit(model_context_limit),
        r matches Ok(p) ==> p == position_start,
        r is Err ==> r == Err::<usize, DomainError>(DomainError::FrameBoundsExceeded),
{
    let limit = context_limit(model_context_limit);
    if position_start > limit as u64 {
        return Err(DomainError::FrameBoundsExceeded);
    }
    let start = position_start as usize;
    let end = match start.checked_add(token_count) {
        Some(end) => end,
        None => return Err(DomainError::FrameBoundsExceeded),
    };
    if end > limit {
        return Err(DomainError::FrameBoundsExceeded);
    }
    Ok(start)
}

/// Which parts of an artifact a layer range needs besides its layers.
#[derive(Clone, Copy, Debug, PartialEq, Eq, Structural)]
pub struct LoadPlan {
    /// The first range embeds token ids.
    pub embeddings: bool,
    /// The last range owns the output norm and head.
    pub output_head: bool,
}

/// Plans the loading of `range` from an artifact with `block_count` layers.
pub fn load_plan(range: LayerRange, block_count: u32) -> (r: Result<LoadPlan, DomainError>)
    ensures
        r is Ok <==> range.end_exclusive <= block_count,
        r is Err ==> r == Err::<LoadPlan, DomainError>(DomainError::BackendIncompatible),
        r matches Ok(plan) ==> plan == (LoadPlan {
            embeddings: range.start == 0,
            output_head: range.end_exclusive == block_count,
        }),
{
    if range.end_exclusive > block_count {
        return Err(DomainError::BackendIncompatible);
    }
    Ok(LoadPlan { embeddings: range.start == 0, output_head: range.end_exclusive == block_count })
}

/// Checks that a request runs the range the model was loaded for.
pub fn check_declared_range(declared: LayerRange, loaded: LayerRange) -> (r: Result<
    (),
    DomainError,
>)
    ensures
        r is Ok <==> declared == loaded,
        r is Err ==> r == Err::<(), DomainError>(DomainError::ShardPlanInvalid),
{
    if declared.start != loaded.start || declared.end_exclusive != loaded.end_exclusive {
        Err(DomainError::ShardPlanInvalid)
    } else {
        Ok(())
    }
}

/// How a layer's key/value cache takes the keys and values of new tokens.
#[derive(Clone, Copy, Debug, PartialEq, Eq, Structural)]
pub enum CacheStep {
    /// A session's first tokens start the cache.
    Start,
    /// Later tokens are appended to the cached ones.
    Append,
}

/// Decides how a layer cache takes new tokens: only a session's first tokens
/// start a cache, and only later tokens extend one.
pub fn cache_step(has_keys: bool, has_values: bool, position_start: usize) -> (r: Result<
    CacheStep,
    DomainError,
>)
    ensures
        has_keys && has_values && position_start > 0 ==> r == Ok::<CacheStep, DomainError>(
            CacheStep::Append,
        ),
        !has_keys && !has_values && position_start == 0 ==> r == Ok::<CacheStep, DomainError>(
            CacheStep::Start,
        ),
        !((has_keys && has_values && position_start > 0) || (!has_keys && !has_values
            && position_start == 0)) ==> r == Err::<CacheStep, DomainError>(
            DomainError::SessionStateInvalid,
        ),
{
    if has_keys && has_values && position_start > 0 {
        Ok(CacheStep::Append)
    } else if !has_keys && !has_values && position_start == 0 {
        Ok(CacheStep::Start)
    } else {
        Err(DomainError::SessionStateInvalid)
    }
}

/// The sessions a loaded layer range holds state for.
pub struct LoomSessions {
    active: Vec<String>,
}

impl LoomSessions {
    /// The active session names.
    pub closed spec fn sessions(&self) -> Seq<Seq<char>> {
        names(self.active@)
    }

    /// No session is held twice, and at most `MAX_ACTIVE_SESSIONS` are held.
    pub open spec fn wf(&self) -> bool {
        &&& distinct(self.sessions())
        &&& self.sessions().len() <= MAX_ACTIVE_SESSIONS
    }

    /// No active session.
    pub fn new() -> (r: Self)
        ensures
            r.wf(),
            r.sessions() == Seq::<Seq<char>>::empty(),
    {
        let r = LoomSessions { active: Vec::new() };
        assert(r.sessions() =~= Seq::<Seq<char>>::empty());
        r
    }

    /// Admits tokens of `session` starting at `position_start`.
    ///
    /// A session's first tokens (position 0) start or restart it, while room
    /// remains; the caller then drops the session's layer caches (`Ok(true)`).
    /// Later tokens continue only a session that is active (`Ok(false)`).
    pub fn prepare(&mut self, session: &String, position_start: usize) -> (r: Result<
        bool,
        DomainError,
    >)
        requires
            old(self).wf(),
        ensures
            final(self).wf(),
            position_start == 0 ==> {
                if !old(self).sessions().contains(session@) && old(self).sessions().len()
                    >= MAX_ACTIVE_SESSIONS {
                    &&& r == Err::<bool, DomainError>(DomainError::BackendUnavailable)
                    &&& final(self).sessions() == old(self).sessions()
                } else {
                    &&& r == Ok::<bool, DomainError>(true)
                    &&& final(self).sessions() == add_once(old(self).sessions(), session@)
                }
            },
            position_start > 0 ==> {
                &&& final(self).sessions() == old(self).sessions()
                &&& if old(self).sessions().contains(session@) {
                    r == Ok::<bool, DomainError>(false)
                } else {
                    r == Err::<bool, DomainError>(DomainError::SessionStateInvalid)
                }
            },
    {
        let known = contains_name(&self.active, session);
        if position_start == 0 {
            if !known && self.active.len() >= MAX_ACTIVE_SESSIONS {
                return Err(DomainError::BackendUnavailable);
            }
            if !known {
                proof {
                    lemma_names_push(self.active@, *session);
                }
                let ghost before = self.sessions();
                self.active.push(session.clone());
                assert(self.sessions() == before.push(session@));
                assert forall|i: int, j: int|
                    0 <= i < self.sessions().len() && 0 <= j < self.sessions().len() && i
                        != j implies self.sessions()[i] != self.sessions()[j] by {
                    if i < before.len() && j < before.len() {
                    } else if i == before.len() {
                        assert(before[j] != session@);
                    } else {
                        assert(before[i] != session@);
                    }
                }
            }
            return Ok(true);
        }
        if known {
            Ok(false)
        } else {
            Err(DomainError::SessionStateInvalid)
        }
    }

    /// Forgets `session`.
    pub fn discard(&mut self, session: &String)
        requires
            old(self).wf(),
        ensures
            final(self).wf(),
            final(self).sessions() == remove_first(old(self).sessions(), session@),
            !final(self).sessions().contains(session@),
    {
        match position(&self.active, session) {
            Some(i) => {
                proof {
                    lemma_remove_first_at(self.sessions(), session@, i as int);
                    lemma_names_remove(self.active@, i as int);
                }
                let ghost before = self.sessions();
                self.active.remove(i);
                assert(self.sessions() == before.remove(i as int));
                assert forall|a: int, b: int|
                    0 <= a < self.sessions().len() && 0 <= b < self.sessions().len() && a
                        != b implies self.sessions()[a] != self.sessions()[b] by {
                    let a2 = if a < i { a } else { a + 1 };
                    let b2 = if b < i { b } else { b + 1 };
                    assert(self.sessions()[a] == before[a2]);
                    assert(self.sessions()[b] == before[b2]);
                }
                proof {
                    if self.sessions().contains(session@) {
                        let k = choose|k: int|
                            0 <= k < self.sessions().len() && self.sessions()[k] == session@;
                        let k2 = if k < i as int { k } else { k + 1 };
                        assert(before[k2] == session@);
                        assert(before[i as int] == session@);
                    }
                }
            },
            None => {},
        }
    }

    /// Whether `session` is active.
    pub fn is_active(&self, session: &String) -> (r: bool)
        ensures
            r == self.sessions().contains(session@),
    {
        contains_name(&self.active, session)
    }
}

/// The mask value of row `row`, column `column` when `token_count` new tokens
/// follow `position_start` cached ones: a token never attends to a later one.
pub open spec fn masked(position_start: int, row: int, column: int) -> bool {
    column > position_start + row
}

/// The causal attention mask, row-major: `token_count` rows of
/// `position_start + token_count` columns, 1 where attention is masked.
pub open spec fn causal_mask_of(token_count: int, position_start: int) -> Seq<u8> {
    let columns = position_start + token_count;
    Seq::new(
        (token_count * columns) as nat,
        |k: int| if masked(position_start, k / columns, k % columns) { 1u8 } else { 0u8 },
    )
}

/// The causal attention mask for `token_count` new tokens after
/// `position_start` cached ones.
pub fn causal_mask_values(token_count: usize, position_start: usize) -> (r: Vec<u8>)
    requires
        position_start + token_count <= usize::MAX,
        (position_start + token_count) * token_count <= usize::MAX,
    ensures
        r@ == causal_mask_of(token_count as int, position_start as int),
{
    let columns = position_start + token_count;
    let ghost spec = causal_mask_of(token_count as int, position_start as int);
    let mut out: Vec<u8> = Vec::new();
    let mut row: usize = 0;
    while row < token_count
        invariant
            columns == position_start + token_count,
            (position_start + token_count) * token_count <= usize::MAX,
            spec == causal_mask_of(token_count as int, position_start as int),
            row <= token_count,
            out@.len() == row * columns,
            forall|k: int| 0 <= k < out@.len() ==> out@[k] == spec[k],
        decreases token_count - row,
    {
        let mut column: usize = 0;
        while column < columns
            invariant
                columns == position_start + token_count,
                (position_start + token_count) * token_count <= usize::MAX,
                spec == causal_mask_of(token_count as int, position_start as int),
                row < token_count,
                column <= columns,
                out@.len() == row * columns + column,
                forall|k: int| 0 <= k < out@.len() ==> out@[k] == spec[k],
            decreases columns - column,
        {
            let k: Ghost<int> = Ghost(row * columns + column);
            proof {
                assert(columns > 0);
                vstd::arithmetic::div_mod::lemma_fundamental_div_mod_converse(
                    k@,
                    columns as int,
                    row as int,
                    column as int,
                );
                assert(k@ < token_count * columns) by (nonlinear_arith)
                    requires
                        k@ == row * columns + column,
                        column < columns,
                        row < token_count,
                ;
            }
            let value: u8 = if column > position_start + row {
                1
            } else {
                0
            };
            out.push(value);
            assert(out@[k@] == spec[k@]);
            column += 1;
        }
        assert((row + 1) * columns == row * columns + columns) by (nonlinear_arith);
        row += 1;
    }
    assert(out@.len() == spec.len());
    assert(out@ =~= spec);
    out
}

} // verus!
