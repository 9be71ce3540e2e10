//! A report of a whole chain of errors, for a program's outermost boundary.
use vstd::prelude::*;

use crate::causes::ErrorExt;
use crate::error::Error;

verus! {

/// The `Caused by: ` lines for the texts `msgs`, one line each, in order.
pub open spec fn caused_by_lines(msgs: Seq<Seq<char>>) -> Seq<char>
    decreases msgs.len(),
{
    if msgs.len() == 0 {
        Seq::empty()
    } else {
        caused_by_lines(msgs.drop_last()) + "Caused by: "@ + msgs.last() + "\n"@
    }
}

/// The report of a chain whose display texts are `msgs`, outermost first:
/// the first text on a line of its own, then a `Caused by: ` line for each
/// of the others.
pub open spec fn report(msgs: Seq<Seq<char>>) -> Seq<char>
    recommends
        msgs.len() >= 1,
{
    msgs[0] + "\n"@ + caused_by_lines(msgs.drop_first())
}

/// Wraps an error so that the whole chain can be rendered, one line per
/// error, at the outermost boundary of a program.
pub struct Terminator {
    inner: Error,
}

impl Terminator {
    /// The wrapped error.
    pub closed spec fn inner_spec(&self) -> Error {
        self.inner
    }

    /// The report this value renders.
    pub open spec fn report_spec(&self) -> Seq<char> {
        report(self.inner_spec().messages())
    }

    /// Renders the wrapped error on the first line, then each error of its
    /// chain of causes on a line of its own after `Caused by: `.
    pub fn render(&self) -> (r: String)
        ensures
            r@ == self.report_spec(),
    {
        let mut out = self.inner.display();
        out.append("\n");
        let causes = self.inner.iter_causes();
        let texts = causes.display_all();
        let ghost msgs = texts@.map_values(|s: String| s@);
        proof {
            self.inner.lemma_chain_shape();
            assert(self.inner.messages().drop_first() =~= msgs);
            assert(msgs.subrange(0, 0) =~= Seq::<Seq<char>>::empty());
        }
        let mut i: usize = 0;
        while i < texts.len()
            invariant
                i <= texts@.len(),
                msgs == texts@.map_values(|s: String| s@),
                out@ == self.inner.display_spec() + "\n"@ + caused_by_lines(msgs.subrange(0, i as int)),
            decreases texts@.len() - i,
        {
            out.append("Caused by: ");
            out.append(texts[i].as_str());
            out.append("\n");
            proof {
                assert(msgs.subrange(0, i + 1).drop_last() =~= msgs.subrange(0, i as int));
            }
            i = i + 1;
        }
        proof {
            assert(msgs.subrange(0, texts@.len() as int) =~= msgs);
        }
        out
    }
}

impl From<Error> for Terminator {
    fn from(err: Error) -> (r: Terminator) {
        Terminator { inner: err }
    }
}

impl vstd::std_specs::convert::FromSpecImpl<Error> for Terminator {
    open spec fn obeys_from_spec() -> bool {
        true
    }

    closed spec fn from_spec(v: Error) -> Terminator {
        Terminator { inner: v }
    }
}

impl Terminator {
    /// Converting an error wraps exactly that error.
    pub proof fn lemma_from_wraps(err: Error)
        ensures
            <Terminator as vstd::std_specs::convert::FromSpec<Error>>::from_spec(err).inner_spec() == err,
    {
    }
}

} // verus!
