use vstd::prelude::*;

use crate::error::DomainError;
use crate::in_memory::GenerationTerminal;

verus! {

/// Largest context window the native llama.cpp backend will open.
pub const MAX_CONTEXT_TOKENS: usize = 2048;

/// The context limit that applies to a model: the backend's own cap or the
/// model's trained context, whichever is smaller.
pub open spec fn effective_context_limit(model_context_limit: usize) -> int {
    if model_context_limit < MAX_CONTEXT_TOKENS {
        model_context_limit as int
    } else {
        MAX_CONTEXT_TOKENS as int
    }
}

/// Checks that a prompt plus the requested output fits the context window,
/// refusing rather than truncating; returns the context size to open.
pub fn validate_context(prompt_tokens: usize, max_tokens: u16, model_context_limit: usize) -> (r:
    Result<usize, DomainError>)
    ensures
        r is Ok <==> (prompt_tokens != 0 && prompt_tokens + max_tokens <= effective_context_limit(
            model_context_limit,
        )),
        r matches Ok(limit) ==> limit == effective_context_limit(model_context_limit),
        r matches Ok(limit) ==> limit <= MAX_CONTEXT_TOKENS && limit <= model_context_limit && (limit
            == MAX_CONTEXT_TOKENS || limit == model_context_limit) && prompt_tokens + max_tokens
            <= limit,
        r matches Err(e) ==> e == DomainError::GenerationPolicyInvalid,
{
    let limit = if model_context_limit < MAX_CONTEXT_TOKENS {
        model_context_limit
    } else {
        MAX_CONTEXT_TOKENS
    };
    let requested = match prompt_tokens.checked_add(max_tokens as usize) {
        Some(requested) => requested,
        None => return Err(DomainError::GenerationPolicyInvalid),
    };
    if prompt_tokens == 0 || requested > limit {
        return Err(DomainError::GenerationPolicyInvalid);
    }
    Ok(limit)
}

/// Folds a 64-bit seed into a 32-bit sampler seed: the low word XOR the high word.
pub fn sampler_seed(seed: u64) -> (r: u32)
    ensures
        r == (seed as u32) ^ ((seed >> 32u64) as u32),
{
    let folded = seed ^ (seed >> 32u64);
    assert((folded as u32) == (seed as u32) ^ ((seed >> 32u64) as u32)) by (bit_vector)
        requires
            folded == seed ^ (seed >> 32u64),
    ;
    folded as u32
}

/// The progress of one native generation, between calls into the runtime.
///
/// Each round samples one token: a round either ends the generation or emits
/// the token and decodes it at the next position.
pub struct GenerationLoop {
    max_tokens: u16,
    rounds: u16,
    emitted: usize,
    position: i32,
}

impl GenerationLoop {
    /// The token budget of the generation.
    pub closed spec fn spec_max_tokens(&self) -> u16 {
        self.max_tokens
    }

    /// Rounds that ran to the end.
    pub closed spec fn spec_rounds(&self) -> u16 {
        self.rounds
    }

    /// Tokens handed out so far.
    pub closed spec fn spec_emitted(&self) -> usize {
        self.emitted
    }

    /// The position the next token is decoded at.
    pub closed spec fn spec_position(&self) -> i32 {
        self.position
    }

    /// Between rounds: every finished round emitted exactly one token.
    pub open spec fn between_rounds(&self) -> bool {
        &&& self.spec_rounds() <= self.spec_max_tokens()
        &&& self.spec_emitted() == self.spec_rounds()
    }

    /// Inside a round, after its token was accepted.
    pub open spec fn inside_round(&self) -> bool {
        &&& self.spec_rounds() < self.spec_max_tokens()
        &&& self.spec_emitted() == self.spec_rounds() + 1
    }

    /// Starts a generation whose prompt decoded `prompt_tokens` positions.
    pub fn start(prompt_tokens: usize, max_tokens: u16) -> (r: Result<Self, DomainError>)
        ensures
            r is Ok <==> prompt_tokens <= i32::MAX,
            r is Err ==> r == Err::<Self, DomainError>(DomainError::GenerationPolicyInvalid),
            r matches Ok(g) ==> {
                &&& g.between_rounds()
                &&& g.spec_max_tokens() == max_tokens
                &&& g.spec_rounds() == 0
                &&& g.spec_position() == prompt_tokens
            },
    {
        if prompt_tokens > i32::MAX as usize {
            return Err(DomainError::GenerationPolicyInvalid);
        }
        Ok(GenerationLoop { max_tokens, rounds: 0, emitted: 0, position: prompt_tokens as i32 })
    }

    /// Decides, before sampling, whether another round runs: the budget ends
    /// the generation first, then cancellation, then the deadline.
    pub fn next_round(&self, cancelled: bool, deadline_expired: bool) -> (r: Option<
        Result<GenerationTerminal, DomainError>,
    >)
        requires
            self.between_rounds(),
        ensures
            self.spec_rounds() == self.spec_max_tokens() ==> r == Some(
                Ok::<GenerationTerminal, DomainError>(
                    GenerationTerminal::Completed { token_count: self.spec_emitted() },
                ),
            ),
            self.spec_rounds() < self.spec_max_tokens() ==> r == (if cancelled {
                Some(Ok::<GenerationTerminal, DomainError>(GenerationTerminal::Cancelled))
            } else if deadline_expired {
                Some(Err::<GenerationTerminal, DomainError>(DomainError::DeadlineExceeded))
            } else {
                None
            }),
            r matches Some(Ok(GenerationTerminal::Completed { token_count })) ==> token_count
                <= self.spec_max_tokens(),
    {
        if self.rounds >= self.max_tokens {
            Some(Ok(GenerationTerminal::Completed { token_count: self.emitted }))
        } else if cancelled {
            Some(Ok(GenerationTerminal::Cancelled))
        } else if deadline_expired {
            Some(Err(DomainError::DeadlineExceeded))
        } else {
            None
        }
    }

    /// The outcome when the sampled token ends the generation.
    pub fn finish(&self) -> (r: GenerationTerminal)
        requires
            self.between_rounds(),
        ensures
            r == (GenerationTerminal::Completed { token_count: self.spec_emitted() }),
            self.spec_emitted() <= self.spec_max_tokens(),
    {
        GenerationTerminal::Completed { token_count: self.emitted }
    }

    /// Accepts the sampled token of this round: its id, which must not be
    /// negative.
    pub fn accept_token(&mut self, token: i32) -> (r: Result<u32, DomainError>)
        requires
            old(self).between_rounds(),
            old(self).spec_rounds() < old(self).spec_max_tokens(),
        ensures
            token >= 0 ==> r == Ok::<u32, DomainError>(token as u32),
            token < 0 ==> r == Err::<u32, DomainError>(DomainError::TokenizerFailure),
            r is Ok ==> final(self).inside_round(),
            r is Err ==> *final(self) == *old(self),
            final(self).spec_max_tokens() == old(self).spec_max_tokens(),
            final(self).spec_rounds() == old(self).spec_rounds(),
            final(self).spec_position() == old(self).spec_position(),
    {
        if token < 0 {
            return Err(DomainError::TokenizerFailure);
        }
        self.emitted = self.emitted + 1;
        Ok(token as u32)
    }

    /// The position the accepted token is decoded at.
    pub fn position(&self) -> (r: i32)
        ensures
            r == self.spec_position(),
    {
        self.position
    }

    /// Ends the round after the accepted token was decoded.
    pub fn advance(&mut self) -> (r: Result<(), DomainError>)
        requires
            old(self).inside_round(),
        ensures
            old(self).spec_position() < i32::MAX <==> r is Ok,
            r is Err ==> r == Err::<(), DomainError>(DomainError::GenerationPolicyInvalid),
            r is Ok ==> {
                &&& final(self).between_rounds()
                &&& final(self).spec_max_tokens() == old(self).spec_max_tokens()
                &&& final(self).spec_rounds() == old(self).spec_rounds() + 1
                &&& final(self).spec_position() == old(self).spec_position() + 1
            },
    {
        if self.position == i32::MAX {
            return Err(DomainError::GenerationPolicyInvalid);
        }
        self.position = self.position + 1;
        self.rounds = self.rounds + 1;
        Ok(())
    }
}

} // verus!
