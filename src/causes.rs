//! Walking the chain of causes of an error.
use vstd::prelude::*;

use crate::error::Error;

verus! {

/// A one-shot walk over a chain of errors, borrowed from the error it
/// started at. Each step hands out one error and moves to its cause.
#[must_use]
pub struct Causes<'a> {
    /// The next error to hand out.
    cause: Option<&'a Error>,
}

impl<'a> Causes<'a> {
    /// The errors that the walk has still to hand out, in order.
    pub closed spec fn remaining(&self) -> Seq<Error> {
        match self.cause {
            Some(e) => e.chain(),
            None => Seq::empty(),
        }
    }

    /// A walk over the chain that starts at `start`, `start` included.
    pub fn starting_at(start: &'a Error) -> (r: Causes<'a>)
        ensures
            r.remaining() == start.chain(),
    {
        Causes { cause: Some(start) }
    }

    /// Hands out the next error of the chain and moves on to its cause.
    /// Once the chain is used up, every call returns `None`.
    pub fn next(&mut self) -> (r: Option<&'a Error>)
        ensures
            old(self).remaining().len() == 0 ==> r is None && final(self).remaining().len() == 0,
            old(self).remaining().len() > 0 ==> {
                &&& r matches Some(e)
                &&& *e == old(self).remaining()[0]
                &&& final(self).remaining() == old(self).remaining().drop_first()
            },
    {
        match self.cause {
            Some(e) => {
                proof {
                    e.lemma_chain_shape();
                }
                self.cause = e.source();
                assert(self.remaining() =~= old(self).remaining().drop_first());
                Some(e)
            },
            None => None,
        }
    }

    /// Walks the rest of the chain and returns the display text of each
    /// error handed out, in the order they came.
    pub fn display_all(self) -> (r: Vec<String>)
        ensures
            r@.map_values(|s: String| s@) == self.remaining().map_values(|e: Error| e.display_spec()),
    {
        let mut walk = self;
        let mut out: Vec<String> = Vec::new();
        let ghost all = self.remaining();
        loop
            invariant
                out@.len() + walk.remaining().len() == all.len(),
                walk.remaining() == all.subrange(out@.len() as int, all.len() as int),
                forall|i: int| 0 <= i < out@.len() ==> #[trigger] out@[i]@ == all[i].display_spec(),
            ensures
                out@.len() == all.len(),
                forall|i: int| 0 <= i < out@.len() ==> #[trigger] out@[i]@ == all[i].display_spec(),
            decreases walk.remaining().len(),
        {
            match walk.next() {
                Some(e) => {
                    out.push(e.display());
                },
                None => {
                    break;
                },
            }
        }
        assert(out@.map_values(|s: String| s@) =~= all.map_values(|e: Error| e.display_spec()));
        out
    }
}

/// Walks over the chain of an error.
pub trait ErrorExt {
    /// The chain that starts at this error, the error itself first.
    spec fn chain_spec(&self) -> Seq<Error>;

    /// A walk over the whole chain, starting at this error itself.
    fn iter_chain(&self) -> (r: Causes<'_>)
        ensures
            r.remaining() == self.chain_spec(),
    ;

    /// A walk over the causes only: it starts at the immediate cause and
    /// leaves this error out.
    fn iter_causes(&self) -> (r: Causes<'_>)
        ensures
            r.remaining() == self.chain_spec().drop_first(),
    ;

    /// The last error of the chain: the one with no cause.
    fn find_root_cause(&self) -> (r: &Error)
        ensures
            self.chain_spec().len() >= 1,
            *r == self.chain_spec().last(),
    ;
}

impl ErrorExt for Error {
    open spec fn chain_spec(&self) -> Seq<Error> {
        self.chain()
    }

    fn iter_chain(&self) -> (r: Causes<'_>) {
        Causes::starting_at(self)
    }

    fn iter_causes(&self) -> (r: Causes<'_>) {
        proof {
            self.lemma_chain_shape();
        }
        Causes { cause: self.source() }
    }

    fn find_root_cause(&self) -> (r: &Error)
        decreases self,
    {
        proof {
            self.lemma_chain_shape();
        }
        match &self.cause {
            Some(c) => {
                let root = c.find_root_cause();
                assert(self.chain() =~= seq![*self] + (**c).chain());
                root
            },
            None => self,
        }
    }
}

impl Error {
    /// A chain of depth `n` holds exactly `n` errors: the error itself
    /// first, each later one the source of the one before it, down to a
    /// root that has no source. A walk over the causes therefore hands out
    /// `n - 1` errors, most recent first.
    pub proof fn lemma_chain_follows_sources(self)
        ensures
            self.chain().len() == self.depth(),
            self.chain()[0] == self,
            forall|i: int| 0 <= i < self.chain().len() - 1 ==>
                (#[trigger] self.chain()[i]).source_spec() == Some(self.chain()[i + 1]),
            self.chain().last().source_spec() is None,
            self.chain().drop_first().len() == self.depth() - 1,
        decreases self,
    {
        self.lemma_chain_shape();
        match self.cause {
            Some(c) => {
                (*c).lemma_chain_follows_sources();
                (*c).lemma_chain_shape();
                assert forall|i: int| 0 <= i < self.chain().len() - 1 implies
                    (#[trigger] self.chain()[i]).source_spec() == Some(self.chain()[i + 1]) by {
                    if i > 0 {
                        assert(self.chain()[i] == (*c).chain()[i - 1]);
                    }
                };
            },
            None => {},
        }
    }

    /// The chain is never empty; it starts at the error itself, and past the
    /// first element it is the chain of the cause.
    pub proof fn lemma_chain_shape(self)
        ensures
            self.chain().len() >= 1,
            self.chain()[0] == self,
            self.chain().drop_first() == match self.source_spec() {
                Some(c) => c.chain(),
                None => Seq::<Error>::empty(),
            },
    {
        match self.cause {
            Some(c) => {
                assert(self.chain().drop_first() =~= (*c).chain());
            },
            None => {
                assert(self.chain().drop_first() =~= Seq::<Error>::empty());
            },
        }
    }
}

} // verus!
