//! Positioned tokens and the token sequence produced by one lexing run.

use vstd::prelude::*;
use crate::tokens::{SpecToken, Token};

verus! {

/// A half-open source range: character columns `[char_begin, char_end)` on
/// line `line`, all zero-based.
#[derive(Debug, PartialEq, Eq, Structural, Clone, Copy)]
pub struct Range {
    pub line: usize,
    pub char_begin: usize,
    pub char_end: usize,
}

/// A token together with its source range.
#[derive(Debug, PartialEq, Clone)]
pub struct ContextedToken {
    pub token: Token,
    pub range: Range,
}

/// The specification-level value of a positioned token.
pub ghost struct SpecContextedToken {
    pub token: SpecToken,
    pub range: Range,
}

impl View for ContextedToken {
    type V = SpecContextedToken;

    open spec fn view(&self) -> SpecContextedToken {
        SpecContextedToken { token: self.token@, range: self.range }
    }
}

/// The ordered, append-only sequence of positioned tokens produced by one
/// lexing run.
#[derive(Debug)]
pub struct Lexeme {
    tokens: Vec<ContextedToken>,
}

impl View for Lexeme {
    type V = Seq<SpecContextedToken>;

    closed spec fn view(&self) -> Seq<SpecContextedToken> {
        self.tokens@.map_values(|t: ContextedToken| t@)
    }
}

/// The last element of `s` whose token is not a comment, scanning backwards.
pub open spec fn spec_last_non_comment(s: Seq<SpecContextedToken>) -> Option<SpecContextedToken>
    decreases s.len(),
{
    if s.len() == 0 {
        None
    } else if !(s.last().token is Comment) {
        Some(s.last())
    } else {
        spec_last_non_comment(s.drop_last())
    }
}

impl Lexeme {
    pub fn new() -> (r: Lexeme)
        ensures
            r@ == Seq::<SpecContextedToken>::empty(),
    {
        let r = Lexeme { tokens: Vec::new() };
        proof {
            assert(r@ =~= Seq::<SpecContextedToken>::empty());
        }
        r
    }

    pub fn with_capacity(capacity: usize) -> (r: Lexeme)
        ensures
            r@ == Seq::<SpecContextedToken>::empty(),
    {
        let r = Lexeme { tokens: Vec::with_capacity(capacity) };
        proof {
            assert(r@ =~= Seq::<SpecContextedToken>::empty());
        }
        r
    }

    pub fn len(&self) -> (r: usize)
        ensures
            r == self@.len(),
    {
        self.tokens.len()
    }

    pub fn push(&mut self, token: ContextedToken)
        ensures
            final(self)@ == old(self)@.push(token@),
    {
        self.tokens.push(token);
        proof {
            assert(self@ =~= old(self)@.push(token@));
        }
    }

    pub fn token_at(&self, index: usize) -> (r: &ContextedToken)
        requires
            index < self@.len(),
        ensures
            r@ == self@[index as int],
    {
        &self.tokens[index]
    }

    pub fn mut_token_at(&mut self, index: usize) -> (r: &mut ContextedToken)
        requires
            index < old(self)@.len(),
        ensures
            (*r)@ == old(self)@[index as int],
            final(self)@ =~= old(self)@.update(index as int, (*final(r))@),
    {
        &mut self.tokens[index]
    }

    pub fn last(&self) -> (r: Option<&ContextedToken>)
        ensures
            match r {
                Some(t) => self@.len() > 0 && t@ == self@.last(),
                None => self@.len() == 0,
            },
    {
        let n = self.tokens.len();
        if n == 0 {
            None
        } else {
            Some(&self.tokens[n - 1])
        }
    }

    pub fn last_mut(&mut self) -> (r: Option<&mut ContextedToken>)
        ensures
            old(self)@.len() == 0 ==> r is None && final(self)@ == old(self)@,
            old(self)@.len() > 0 ==> (r matches Some(m) && (*m)@ == old(self)@.last()
                && final(self)@ =~= old(self)@.update(old(self)@.len() - 1, (*final(m))@)),
    {
        let n = self.tokens.len();
        if n == 0 {
            proof {
                assert(final(self)@ =~= old(self)@);
            }
            None
        } else {
            Some(&mut self.tokens[n - 1])
        }
    }

    pub fn last_non_comment(&self) -> (r: Option<&ContextedToken>)
        ensures
            match r {
                Some(t) => spec_last_non_comment(self@) == Some(t@),
                None => spec_last_non_comment(self@) is None,
            },
    {
        let mut i: usize = self.tokens.len();
        proof {
            assert(self@.take(i as int) =~= self@);
        }
        while i > 0
            invariant
                i <= self@.len(),
                spec_last_non_comment(self@) == spec_last_non_comment(self@.take(i as int)),
            decreases i,
        {
            let is_comment = match &self.tokens[i - 1].token {
                Token::Comment(_) => true,
                _ => false,
            };
            proof {
                assert(self@.take(i as int).last() == self@[i - 1]);
                assert(self@.take(i as int).drop_last() =~= self@.take(i - 1));
            }
            if !is_comment {
                return Some(&self.tokens[i - 1]);
            }
            i -= 1;
        }
        proof {
            assert(self@.take(0) =~= Seq::<SpecContextedToken>::empty());
        }
        None
    }

    pub fn mut_last_non_comment(&mut self) -> (r: Option<&mut ContextedToken>)
        ensures
            spec_last_non_comment(old(self)@) is None ==> r is None && final(self)@ == old(
                self,
            )@,
            spec_last_non_comment(old(self)@) matches Some(t) ==> (r matches Some(m) && (*m)@
                == t && exists|k: int|
                0 <= k < old(self)@.len() && old(self)@[k] == t
                    && !(old(self)@[k].token is Comment) && (forall|j: int|
                    k < j < old(self)@.len() ==> old(self)@[j].token is Comment)
                    && final(self)@ =~= old(self)@.update(k, (*final(m))@)),
    {
        let mut i: usize = self.tokens.len();
        proof {
            assert(self@.take(i as int) =~= self@);
        }
        while i > 0
            invariant
                i <= self@.len(),
                self@ == old(self)@,
                spec_last_non_comment(self@) == spec_last_non_comment(self@.take(i as int)),
                forall|j: int| i <= j < self@.len() ==> self@[j].token is Comment,
            decreases i,
        {
            let is_comment = match &self.tokens[i - 1].token {
                Token::Comment(_) => true,
                _ => false,
            };
            proof {
                assert(self@.take(i as int).last() == self@[i - 1]);
                assert(self@.take(i as int).drop_last() =~= self@.take(i - 1));
            }
            if !is_comment {
                return Some(&mut self.tokens[i - 1]);
            }
            i -= 1;
        }
        proof {
            assert(self@.take(0) =~= Seq::<SpecContextedToken>::empty());
            assert(final(self)@ =~= old(self)@);
        }
        None
    }
}

} // verus!
