//! How an error is shown together with what caused it.

use vstd::prelude::*;
use vstd::string::StringExecFns;

verus! {

/// The messages of `chain` in order, with `": "` between neighbours.
pub open spec fn chain_text(chain: Seq<String>) -> Seq<char>
    decreases chain.len(),
{
    if chain.len() == 0 {
        Seq::empty()
    } else if chain.len() == 1 {
        chain[0]@
    } else {
        chain_text(chain.drop_last()) + ": "@ + chain.last()@
    }
}

/// One line for an error and its causes: the message of the error, then the
/// message of what caused it, and so on down the chain, with `": "` between
/// neighbours.
pub fn pretty_error(chain: &Vec<String>) -> (pretty: String)
    ensures
        pretty@ == chain_text(chain@),
{
    let mut pretty = String::new();
    let mut i: usize = 0;
    while i < chain.len()
        invariant
            i <= chain@.len(),
            pretty@ == chain_text(chain@.take(i as int)),
        decreases chain@.len() - i,
    {
        proof {
            let next = chain@.take(i + 1);
            assert(next.drop_last() =~= chain@.take(i as int));
            assert(next.last() == chain@[i as int]);
            if i == 0 {
                assert(Seq::<char>::empty() + chain@[0]@ =~= chain@[0]@);
            }
        }
        if i > 0 {
            pretty.append(": ");
        }
        pretty.append(chain[i].as_str());
        i += 1;
    }
    assert(chain@.take(chain@.len() as int) =~= chain@);
    pretty
}

} // verus!
